//! The input buffer: accumulation, consumption, and the decay step.

use camera_core::fixed::SCALE;
use camera_core::input::DeltaBuffer;
use camera_core::vec::FxVec2;

const LN2: i64 = 45426;

#[test]
fn update_accumulates_and_read_peeks() {
    let mut b = DeltaBuffer::default();
    assert_eq!(b.read(), FxVec2 { x: 0, y: 0 });
    b.update(FxVec2 { x: 3 * SCALE, y: -SCALE });
    b.update(FxVec2 { x: SCALE, y: SCALE });
    assert_eq!(b.read(), FxVec2 { x: 4 * SCALE, y: 0 });
    // reading does not consume
    assert_eq!(b.read(), FxVec2 { x: 4 * SCALE, y: 0 });
}

#[test]
fn take_returns_all_and_leaves_zero() {
    let mut b = DeltaBuffer::default();
    b.update(FxVec2 { x: 7, y: -9 });
    let taken = b.take();
    assert_eq!(taken, FxVec2 { x: 7, y: -9 });
    assert_eq!(b.read(), FxVec2 { x: 0, y: 0 });
}

#[test]
fn update_then_take_returns_exactly_the_update() {
    let mut b = DeltaBuffer::default();
    b.update(FxVec2 { x: 12345, y: -67890 });
    assert_eq!(b.take(), FxVec2 { x: 12345, y: -67890 });
}

#[test]
fn consume_subtracts_without_clamping() {
    let mut b = DeltaBuffer::default();
    b.update(FxVec2 { x: 100, y: 100 });
    b.consume(FxVec2 { x: 30, y: 150 });
    assert_eq!(b.read(), FxVec2 { x: 70, y: -50 });
}

#[test]
fn reset_discards_unconsumed_input() {
    let mut b = DeltaBuffer::default();
    b.update(FxVec2 { x: 5 * SCALE, y: 5 * SCALE });
    b.reset();
    assert_eq!(b.read(), FxVec2 { x: 0, y: 0 });
}

#[test]
fn half_life_decay_consumes_exactly_half() {
    // A buffer of (4, 0) decayed for one second at rate ln 2 loses one
    // half-life: exactly half is consumed and half remains, since the
    // decay exponent is rounded to the nearest raw step.
    let mut b = DeltaBuffer::default();
    b.update(FxVec2 { x: 4 * SCALE, y: 0 });
    let consumed = b.decay(LN2, SCALE);
    assert_eq!(consumed, FxVec2 { x: 2 * SCALE, y: 0 });
    assert_eq!(b.read(), FxVec2 { x: 2 * SCALE, y: 0 });
    // conservation: consumed plus remainder is what was held
    assert_eq!(consumed.x + b.read().x, 4 * SCALE);
}

#[test]
fn decay_never_grows_and_never_flips_sign() {
    let mut b = DeltaBuffer::default();
    b.update(FxVec2 { x: 3 * SCALE, y: -2 * SCALE });
    let before = b.read();
    let consumed = b.decay(2 * SCALE, SCALE / 4);
    let after = b.read();
    assert!(consumed.x.abs() <= before.x.abs());
    assert!(consumed.y.abs() <= before.y.abs());
    assert!(0 <= after.x && after.x <= before.x);
    assert!(before.y <= after.y && after.y <= 0);
}

#[test]
fn zero_dt_consumes_nothing() {
    let mut b = DeltaBuffer::default();
    b.update(FxVec2 { x: 999, y: -999 });
    let consumed = b.decay(LN2, 0);
    assert_eq!(consumed, FxVec2 { x: 0, y: 0 });
    assert_eq!(b.read(), FxVec2 { x: 999, y: -999 });
}

#[test]
fn huge_rate_acts_like_take() {
    // rate * dt far past the exponent cutoff drains everything at once
    let mut b = DeltaBuffer::default();
    b.update(FxVec2 { x: 4 * SCALE, y: -4 * SCALE });
    let consumed = b.decay(0x1_0000_0000, 0x1000_0000);
    assert_eq!(consumed, FxVec2 { x: 4 * SCALE, y: -4 * SCALE });
    assert_eq!(b.read(), FxVec2 { x: 0, y: 0 });
}

#[test]
fn repeated_decay_drains_to_exactly_zero() {
    let mut b = DeltaBuffer::default();
    b.update(FxVec2 { x: 300, y: -200 });
    let mut last = b.read();
    for _ in 0..400 {
        b.decay(LN2, SCALE);
        let now = b.read();
        assert!(now.x.abs() <= last.x.abs());
        assert!(now.y.abs() <= last.y.abs());
        last = now;
    }
    assert_eq!(b.read(), FxVec2 { x: 0, y: 0 });
}
