use delay_line::delay::{CircularBuffer, DelayError, DelayTap, SimpleDelay};

#[test]
fn new_buffer_is_silent() {
    let b: CircularBuffer<f32> = CircularBuffer::new(8, 0.0);
    for k in 0..=8usize {
        assert_eq!(b.read(k), Ok(0.0));
    }
}

#[test]
fn scenario_capacity_four() {
    let mut b: CircularBuffer<f32> = CircularBuffer::new(4, 0.0);
    b.write(1.0);
    b.write(2.0);
    b.write(3.0);
    b.write(4.0);
    assert_eq!(b.read(1), Ok(4.0));
    assert_eq!(b.read(2), Ok(3.0));
    assert_eq!(b.read(3), Ok(2.0));
    assert_eq!(b.read(4), Ok(1.0));
    assert_eq!(b.read(5), Err(DelayError::RequestedDelayExceedsCapacity));
}

#[test]
fn read_finds_recent_writes_across_wraps() {
    let mut b: CircularBuffer<i64> = CircularBuffer::new(3, 0);
    for v in 1..=100i64 {
        b.write(v);
    }
    assert_eq!(b.read(1), Ok(100));
    assert_eq!(b.read(2), Ok(99));
    assert_eq!(b.read(3), Ok(98));
}

#[test]
fn full_wraparound_returns_first_write() {
    let mut b: CircularBuffer<i64> = CircularBuffer::new(5, 0);
    for v in 10..15i64 {
        b.write(v);
    }
    assert_eq!(b.read(5), Ok(10));
}

#[test]
fn read_zero_is_the_next_overwritten_slot() {
    let mut b: CircularBuffer<f32> = CircularBuffer::new(2, 0.0);
    b.write(1.0);
    b.write(2.0);
    assert_eq!(b.read(0), Ok(1.0));
    assert_eq!(b.read(0), b.read(2));
    b.write(3.0);
    assert_eq!(b.read(0), Ok(2.0));
}

#[test]
fn overlong_delay_always_fails() {
    let mut b: CircularBuffer<f32> = CircularBuffer::new(4, 0.0);
    b.write(1.5);
    for k in 5..15usize {
        assert_eq!(b.read(k), Err(DelayError::RequestedDelayExceedsCapacity));
    }
}

#[test]
fn read_is_idempotent() {
    let mut b: CircularBuffer<f32> = CircularBuffer::new(4, 0.0);
    b.write(0.25);
    b.write(-0.5);
    for k in 0..=4usize {
        let first = b.read(k);
        assert_eq!(b.read(k), first);
        assert_eq!(b.read(k), first);
    }
}

#[test]
fn tick_on_silent_buffer_returns_silence_and_stores_input() {
    let mut d: SimpleDelay<f32> = SimpleDelay::new(3, 0.0);
    let out = d.tick(1.0, 2, |input: f32, delayed: f32| input + delayed * 0.0);
    assert_eq!(out, Ok(0.0));
    let heard = d.tick(0.0, 1, |input: f32, delayed: f32| input + delayed * 0.0);
    assert_eq!(heard, Ok(1.0));
}

#[test]
fn tick_with_feedback_mixes_delayed_sample_back_in() {
    let mut d: SimpleDelay<f32> = SimpleDelay::new(3, 0.0);
    let primed = d.tick(2.0, 3, |input: f32, delayed: f32| input + delayed * 0.0);
    assert_eq!(primed, Ok(0.0));
    let out = d.tick(0.0, 1, |input: f32, delayed: f32| input + delayed * 0.5);
    assert_eq!(out, Ok(2.0));
    let written = d.tick(0.0, 1, |input: f32, delayed: f32| input + delayed * 0.0);
    assert_eq!(written, Ok(1.0));
}

#[test]
fn tick_beyond_capacity_fails_and_leaves_state_alone() {
    let mut d: SimpleDelay<f32> = SimpleDelay::new(2, 0.0);
    let stored = d.tick(4.0, 1, |input: f32, delayed: f32| input + delayed * 0.0);
    assert_eq!(stored, Ok(0.0));
    let failed = d.tick(9.0, 3, |input: f32, delayed: f32| input + delayed * 0.0);
    assert_eq!(failed, Err(DelayError::RequestedDelayExceedsCapacity));
    let heard = d.tick(0.0, 1, |input: f32, delayed: f32| input + delayed * 0.0);
    assert_eq!(heard, Ok(4.0));
}

#[test]
fn modulated_delay_length_per_tick() {
    let mut d: SimpleDelay<i64> = SimpleDelay::new(4, 0);
    assert_eq!(d.tick(1, 4, |input: i64, delayed: i64| input + delayed), Ok(0));
    assert_eq!(d.tick(2, 1, |input: i64, delayed: i64| input + delayed), Ok(1));
    assert_eq!(d.tick(4, 2, |input: i64, delayed: i64| input + delayed), Ok(1));
    assert_eq!(d.tick(8, 3, |input: i64, delayed: i64| input + delayed), Ok(1));
}

#[test]
fn delay_tap_carries_two_values() {
    let tap: DelayTap<f32> = DelayTap(0.25, 0.75);
    assert_eq!(tap.0, 0.25);
    assert_eq!(tap.1, 0.75);
}
