//! ffmpeg process supervision: the retry policy after an abnormal exit, the
//! decision a status poll takes, and the bounded buffer of ffmpeg's stderr.

use crate::text::views;
use vstd::prelude::*;

verus! {

/// Automatic reconnects after an abnormal ffmpeg exit.
pub const MAX_RETRIES: u32 = 3;

/// Wait before retry `retry` (0-based): 1 s doubling per retry, capped at 16 s.
pub open spec fn backoff(retry: u32) -> u64 {
    if retry == 0 {
        1000
    } else if retry == 1 {
        2000
    } else if retry == 2 {
        4000
    } else if retry == 3 {
        8000
    } else {
        16000
    }
}

/// Exponential backoff in milliseconds: 1 s, 2 s, 4 s, ... capped at 16 s.
pub fn retry_backoff_ms(retry: u32) -> (ms: u64)
    ensures
        ms == backoff(retry),
{
    let shift: u32 = if retry < 4 {
        retry
    } else {
        4
    };
    let factor: u64 = 1u64 << shift;
    assert(shift == 0 ==> factor == 1) by (bit_vector)
        requires
            factor == 1u64 << shift,
    ;
    assert(shift == 1 ==> factor == 2) by (bit_vector)
        requires
            factor == 1u64 << shift,
    ;
    assert(shift == 2 ==> factor == 4) by (bit_vector)
        requires
            factor == 1u64 << shift,
    ;
    assert(shift == 3 ==> factor == 8) by (bit_vector)
        requires
            factor == 1u64 << shift,
    ;
    assert(shift == 4 ==> factor == 16) by (bit_vector)
        requires
            factor == 1u64 << shift,
    ;
    1000u64 * factor
}

/// The backoff never shrinks from one retry to the next, doubles until the
/// cap, and never exceeds 16 s.
pub proof fn lemma_backoff_doubles_then_caps(a: u32, b: u32)
    requires
        a <= b,
    ensures
        backoff(a) <= backoff(b),
        backoff(b) <= 16000,
        a < 4 ==> backoff((a + 1) as u32) == 2 * backoff(a),
        a >= 4 ==> backoff(a) == 16000,
{
}

/// What a status poll does about the ffmpeg process it looked at.
#[derive(Debug, Clone, Copy, PartialEq, Eq)]
pub enum PollAction {
    /// Still running: report the status as it is.
    Running,
    /// Exited cleanly: report it as no longer live.
    Ended,
    /// Exited abnormally: start retry `n` (counted from 1) after its backoff.
    Retry(u32),
    /// Exited abnormally while a retry is already pending: report as it is.
    Pending,
    /// Exited abnormally with nothing left to try: report it as no longer
    /// live and drop the process and the session.
    GiveUp,
}

/// The decision of a status poll. `exit` is how the process ended (`true`
/// for success), if it did; `retry_count` the retry it is; `has_session`
/// whether the inputs to relaunch it are kept; `retrying` the retry already
/// pending; `can_retry` whether this build has a capture backend to relaunch.
pub open spec fn poll_action(
    exit: Option<bool>,
    retry_count: u32,
    has_session: bool,
    retrying: Option<u32>,
    can_retry: bool,
) -> PollAction {
    match exit {
        None => PollAction::Running,
        Some(true) => PollAction::Ended,
        Some(false) => if !can_retry {
            PollAction::GiveUp
        } else if retry_count < MAX_RETRIES && has_session {
            if retrying is None {
                PollAction::Retry((retry_count + 1) as u32)
            } else {
                PollAction::Pending
            }
        } else if retrying is None {
            PollAction::GiveUp
        } else {
            PollAction::Pending
        },
    }
}

/// Decides what a status poll does about the process.
pub fn decide_poll(
    exit: Option<bool>,
    retry_count: u32,
    has_session: bool,
    retrying: Option<u32>,
    can_retry: bool,
) -> (r: PollAction)
    ensures
        r == poll_action(exit, retry_count, has_session, retrying, can_retry),
{
    match exit {
        None => PollAction::Running,
        Some(true) => PollAction::Ended,
        Some(false) => {
            if !can_retry {
                PollAction::GiveUp
            } else if retry_count < MAX_RETRIES && has_session {
                if retrying.is_none() {
                    PollAction::Retry(retry_count + 1)
                } else {
                    PollAction::Pending
                }
            } else if retrying.is_none() {
                PollAction::GiveUp
            } else {
                PollAction::Pending
            }
        },
    }
}

/// A retry is only ever the next one after the process's own, at most
/// `MAX_RETRIES`; a clean exit or a running process never starts a retry nor
/// gives up.
pub proof fn lemma_poll_retries_bounded(
    exit: Option<bool>,
    retry_count: u32,
    has_session: bool,
    retrying: Option<u32>,
    can_retry: bool,
)
    ensures
        poll_action(exit, retry_count, has_session, retrying, can_retry) matches PollAction::Retry(n)
            ==> n == retry_count + 1 && 1 <= n <= MAX_RETRIES && exit == Some(false) && has_session,
        exit != Some(false) ==> poll_action(exit, retry_count, has_session, retrying, can_retry)
            != PollAction::GiveUp,
        retrying is Some ==> !(poll_action(exit, retry_count, has_session, retrying, can_retry) is Retry),
{
}

/// The attempts of a retry run that starts at retry `first` (counted from
/// 1): each attempt up to `MAX_RETRIES` with the wait before it.
pub open spec fn retry_attempts(first: u32) -> Seq<(u32, u64)> {
    if first <= MAX_RETRIES {
        Seq::new(
            (MAX_RETRIES - first + 1) as nat,
            |i: int| (((first + i) as u32), backoff((first + i - 1) as u32)),
        )
    } else {
        seq![]
    }
}

/// The attempts of a retry run that starts at retry `first`, each with the
/// wait before it in milliseconds.
pub fn retry_schedule(first: u32) -> (r: Vec<(u32, u64)>)
    requires
        first >= 1,
    ensures
        r@ == retry_attempts(first),
{
    let mut r: Vec<(u32, u64)> = Vec::new();
    let mut n = first;
    while n <= MAX_RETRIES
        invariant
            first >= 1,
            first <= n,
            n <= MAX_RETRIES + 1 || n == first,
            r@.len() == n - first,
            forall|i: int|
                0 <= i < r@.len() ==> #[trigger] r@[i] == (((first + i) as u32), backoff(
                    (first + i - 1) as u32,
                )),
        decreases MAX_RETRIES + 1 - n,
    {
        r.push((n, retry_backoff_ms(n - 1)));
        n = n + 1;
    }
    assert(r@ =~= retry_attempts(first));
    r
}

/// A retry run makes at most `MAX_RETRIES` attempts, numbered up to
/// `MAX_RETRIES`, and waits longer (or as long) before each one.
pub proof fn lemma_retry_run_bounded(first: u32)
    requires
        first >= 1,
    ensures
        retry_attempts(first).len() <= MAX_RETRIES,
        forall|i: int|
            0 <= i < retry_attempts(first).len() ==> 1 <= (#[trigger] retry_attempts(first)[i]).0
                <= MAX_RETRIES,
        forall|i: int, j: int|
            0 <= i < j < retry_attempts(first).len() ==> retry_attempts(first)[i].1
                <= retry_attempts(first)[j].1,
{
    assert forall|i: int, j: int|
        0 <= i < j < retry_attempts(first).len() implies retry_attempts(first)[i].1
        <= retry_attempts(first)[j].1 by {
        lemma_backoff_doubles_then_caps((first + i - 1) as u32, (first + j - 1) as u32);
    }
}

/// Lines of ffmpeg's stderr kept at most.
pub const LOG_CAPACITY: usize = 1000;

/// Oldest lines dropped at once when the buffer is full.
pub const LOG_DROP: usize = 500;

/// The tail of ffmpeg's stderr: at most `LOG_CAPACITY` lines; when full, the
/// oldest `LOG_DROP` lines go before the next one is kept.
#[derive(Debug)]
pub struct LogBuffer {
    lines: Vec<String>,
}

impl View for LogBuffer {
    type V = Seq<Seq<char>>;

    closed spec fn view(&self) -> Seq<Seq<char>> {
        views(self.lines@)
    }
}

/// The lines kept after `line` arrives at a buffer holding `lines`.
pub open spec fn after_push(lines: Seq<Seq<char>>, line: Seq<char>) -> Seq<Seq<char>> {
    if lines.len() >= LOG_CAPACITY {
        lines.skip(LOG_DROP as int).push(line)
    } else {
        lines.push(line)
    }
}

impl LogBuffer {
    #[verifier::type_invariant]
    spec fn bounded(self) -> bool {
        self.lines@.len() <= LOG_CAPACITY
    }

    /// An empty buffer.
    pub fn new() -> (b: Self)
        ensures
            b@ == Seq::<Seq<char>>::empty(),
    {
        let b = LogBuffer { lines: Vec::new() };
        assert(b@ =~= Seq::<Seq<char>>::empty());
        b
    }

    /// The number of lines kept.
    pub fn len(&self) -> (n: usize)
        ensures
            n == self@.len(),
            n <= LOG_CAPACITY,
    {
        proof {
            use_type_invariant(self);
        }
        self.lines.len()
    }

    /// Keeps one more line, dropping the oldest `LOG_DROP` first when full.
    pub fn push_line(&mut self, line: String)
        ensures
            final(self)@ == after_push(old(self)@, line@),
    {
        proof {
            use_type_invariant(&*self);
        }
        let mut lines: Vec<String> = Vec::new();
        std::mem::swap(&mut lines, &mut self.lines);
        let ghost before = lines@;
        if lines.len() >= LOG_CAPACITY {
            lines = lines.split_off(LOG_DROP);
            assert(views(lines@) =~= views(before).skip(LOG_DROP as int));
        }
        let ghost mid = lines@;
        lines.push(line);
        assert(views(lines@) =~= views(mid).push(line@));
        self.lines = lines;
    }

    /// The last `n` lines (all of them when there are fewer), oldest first.
    pub fn tail(&self, n: usize) -> (r: Vec<String>)
        ensures
            views(r@) == self@.skip(
                if self@.len() >= n {
                    self@.len() - n
                } else {
                    0
                },
            ),
    {
        let len = self.lines.len();
        let start: usize = if len >= n {
            len - n
        } else {
            0
        };
        let mut r: Vec<String> = Vec::new();
        let mut i = start;
        while i < len
            invariant
                start <= i <= len,
                len == self.lines@.len(),
                views(r@) == views(self.lines@).subrange(start as int, i as int),
            decreases len - i,
        {
            let line = self.lines[i].clone();
            let ghost prev = r@;
            r.push(line);
            assert(r@ == prev.push(self.lines@[i as int]));
            assert(views(r@) =~= views(prev).push(self.lines@[i as int]@));
            assert(views(self.lines@).subrange(start as int, i + 1) =~= views(self.lines@).subrange(
                start as int,
                i as int,
            ).push(views(self.lines@)[i as int]));
            i = i + 1;
        }
        assert(views(self.lines@).subrange(start as int, len as int) =~= views(self.lines@).skip(
            start as int,
        ));
        r
    }
}

/// The buffer never holds more than `LOG_CAPACITY` lines, and the line just
/// pushed is always the newest one kept.
pub proof fn lemma_log_bounded(lines: Seq<Seq<char>>, line: Seq<char>)
    requires
        lines.len() <= LOG_CAPACITY,
    ensures
        after_push(lines, line).len() <= LOG_CAPACITY,
        after_push(lines, line).last() == line,
        lines.len() < LOG_CAPACITY ==> after_push(lines, line).drop_last() == lines,
{
    if lines.len() < LOG_CAPACITY {
        assert(after_push(lines, line).drop_last() =~= lines);
    }
}

} // verus!
