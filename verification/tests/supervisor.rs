use eztopaz::ffmpeg::supervisor::{
    decide_poll, retry_backoff_ms, retry_schedule, LogBuffer, PollAction, LOG_CAPACITY, LOG_DROP,
    MAX_RETRIES,
};

#[test]
fn poll_running_and_clean_exit() {
    assert_eq!(decide_poll(None, 0, true, None, true), PollAction::Running);
    assert_eq!(decide_poll(Some(true), 0, true, None, true), PollAction::Ended);
    assert_eq!(decide_poll(Some(true), 3, false, Some(1), false), PollAction::Ended);
}

#[test]
fn poll_abnormal_exit_retries_then_gives_up() {
    assert_eq!(decide_poll(Some(false), 0, true, None, true), PollAction::Retry(1));
    assert_eq!(decide_poll(Some(false), 2, true, None, true), PollAction::Retry(3));
    assert_eq!(decide_poll(Some(false), 1, true, Some(2), true), PollAction::Pending);
    assert_eq!(decide_poll(Some(false), MAX_RETRIES, true, None, true), PollAction::GiveUp);
    assert_eq!(decide_poll(Some(false), MAX_RETRIES, true, Some(3), true), PollAction::Pending);
    assert_eq!(decide_poll(Some(false), 0, false, None, true), PollAction::GiveUp);
    assert_eq!(decide_poll(Some(false), 0, true, None, false), PollAction::GiveUp);
}

#[test]
fn retry_schedule_waits_with_backoff() {
    assert_eq!(retry_schedule(1), vec![(1, 1000), (2, 2000), (3, 4000)]);
    assert_eq!(retry_schedule(3), vec![(3, 4000)]);
    assert_eq!(retry_schedule(4), vec![]);
    for (n, wait) in retry_schedule(2) {
        assert!(n <= MAX_RETRIES);
        assert_eq!(wait, retry_backoff_ms(n - 1));
    }
}

#[test]
fn log_buffer_rotates_when_full() {
    let mut b = LogBuffer::new();
    for i in 0..LOG_CAPACITY {
        b.push_line(format!("line {i}"));
    }
    assert_eq!(b.len(), LOG_CAPACITY);
    b.push_line("newest".to_string());
    assert_eq!(b.len(), LOG_CAPACITY - LOG_DROP + 1);
    let all = b.tail(usize::MAX);
    assert_eq!(all.first().map(|s| s.as_str()), Some("line 500"));
    assert_eq!(all.last().map(|s| s.as_str()), Some("newest"));
}

#[test]
fn log_tail_returns_last_lines_in_order() {
    let mut b = LogBuffer::new();
    assert!(b.tail(3).is_empty());
    for s in ["a", "b", "c", "d"] {
        b.push_line(s.to_string());
    }
    assert_eq!(b.tail(2), vec!["c".to_string(), "d".to_string()]);
    assert_eq!(b.tail(10).len(), 4);
    assert!(b.tail(0).is_empty());
}
