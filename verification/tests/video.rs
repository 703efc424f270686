use eztopaz::error::Error;
use eztopaz::video::{advance, FramePacer};
use std::time::{Duration, Instant};
use eztopaz::ffmpeg::args::Transport;
use eztopaz::video::{pipe_frame, sink_converts_nv12};

fn pacer() -> FramePacer {
    FramePacer::new(2, 2, 30) // 16-byte frames, 33.3ms interval
}

fn frame(byte: u8) -> Vec<u8> {
    vec![byte; 16]
}

/// Nanoseconds since `base` on the monotonic clock.
fn ns(base: Instant, t: Instant) -> u64 {
    t.duration_since(base).as_nanos() as u64
}

const MS: u64 = 1_000_000;

#[test]
fn duplicates_last_frame_at_fps() {
    let base = Instant::now();
    let mut p = pacer();
    assert!(p.poll(ns(base, Instant::now())).is_none(), "no frame before first push");
    p.push(&frame(1), ns(base, Instant::now())).unwrap();

    let t0 = ns(base, Instant::now());
    assert!(p.poll(t0).is_some(), "first frame emits immediately");
    let soon = t0 + 10 * MS;
    assert!(p.poll(soon).is_none(), "no duplicate within one interval");

    // 5 seconds with zero new captures → ~150 duplicated frames, not a flood
    let mut emitted = 0;
    let mut t = t0;
    let target = t0 + 5_000 * MS;
    while t < target {
        if p.poll(t).is_some() {
            emitted += 1;
        }
        t += MS;
    }
    assert!(
        (140..=160).contains(&emitted),
        "expected ~150 emits over 5s at 30fps, got {emitted}"
    );
}

#[test]
fn emits_latest_frame_content() {
    let base = Instant::now();
    let mut p = pacer();
    let t0 = ns(base, Instant::now());
    p.push(&frame(1), t0).unwrap();
    p.poll(t0);
    p.push(&frame(2), t0).unwrap();
    let later = t0 + p.interval_ns() * 2;
    assert_eq!(p.poll(later), Some(frame(2).as_slice()));
}

#[test]
fn rejects_size_mismatch() {
    let mut p = pacer();
    assert!(p.push(&vec![0u8; 15], 0).is_err());
    assert!(p.push(&vec![0u8; 17], 0).is_err());
    assert!(!p.has_frame());
}

#[test]
fn skipped_ticks_collapse() {
    let base = Instant::now();
    let mut p = pacer();
    let t0 = ns(base, Instant::now());
    p.push(&frame(1), t0).unwrap();
    p.poll(ns(base, Instant::now()));
    // jump far ahead: one poll yields one frame
    let t = t0 + 10_000 * MS;
    assert!(p.poll(t).is_some());
    assert!(p.poll(t).is_none(), "same instant: no second emit");
}

#[test]
fn advance_is_monotonic_and_bounded() {
    let interval = Duration::from_millis(33).as_nanos() as u64;
    let base = Instant::now();
    let t0 = ns(base, Instant::now());
    // far-ahead now: result is the first tick strictly after `now`
    let now = t0 + 100_000 * MS;
    let next = advance(t0, interval, now);
    assert!(next > now);
    assert!(next - now < interval);
    // near now: exactly one interval ahead
    let near = t0 + interval + 5 * MS;
    let next = advance(t0 + interval, interval, near);
    assert_eq!(next - (t0 + interval), interval);
}

#[test]
fn interval_rounds_to_nanoseconds() {
    assert_eq!(FramePacer::new(2, 2, 30).interval_ns(), 33_333_333);
    assert_eq!(FramePacer::new(2, 2, 60).interval_ns(), 16_666_667);
    assert_eq!(FramePacer::new(2, 2, 0).interval_ns(), 1_000_000_000);
    assert_eq!(FramePacer::new(2, 2, 1).interval_ns(), 1_000_000_000);
}

#[test]
fn size_mismatch_message_and_state() {
    let mut p = pacer();
    p.push(&frame(3), 5).unwrap();
    match p.push(&[0u8; 15], 6) {
        Err(Error::Capture(m)) => assert_eq!(
            m,
            "frame size mismatch: got 15, expected 16 (resize must be handled upstream)"
        ),
        other => panic!("unexpected: {other:?}"),
    }
    assert!(p.has_frame());
    assert_eq!(p.poll(4), None); // first push at t=5 is not due before 5
    assert_eq!(p.poll(5), Some(frame(3).as_slice()));
}

#[test]
fn advance_exact_values() {
    assert_eq!(advance(100, 10, 95), 110);
    assert_eq!(advance(100, 10, 110), 120);
    assert_eq!(advance(100, 10, 129), 130);
    assert_eq!(advance(0, 7, 70), 77);
}

#[test]
fn sink_converts_only_nv12_transport_with_even_size() {
    assert!(sink_converts_nv12(&Transport::PipeNv12, 4, 2));
    assert!(!sink_converts_nv12(&Transport::PipeNv12, 3, 2));
    assert!(!sink_converts_nv12(&Transport::PipeBgra, 4, 2));
    assert!(!sink_converts_nv12(&Transport::HwDirect, 4, 2));
    let frame = vec![0u8, 0, 0, 255].repeat(8);
    assert_eq!(pipe_frame(&frame, 4, 2, false), frame);
    let nv12 = pipe_frame(&frame, 4, 2, true);
    assert_eq!(nv12.len(), 12);
    assert_eq!(&nv12[..8], &[16; 8]);
    assert_eq!(&nv12[8..], &[128; 4]);
}
