//! Full-buffer transfers over a nonblocking socket.
//!
//! A nonblocking socket may move only part of a buffer, or nothing at all.
//! This module decides what to do after each attempt: try again on the rest,
//! stop with success, or stop with a failure. The caller makes the attempts,
//! yields the processor between two of them, and reports each outcome as an
//! [`IoEvent`].

use vstd::prelude::*;

verus! {

/// The outcome of one attempt to read or write.
#[derive(Debug, Clone, Copy, PartialEq, Eq, Structural)]
pub enum IoEvent {
    /// The call returned without error and moved this many bytes.
    Moved(usize),
    /// The call would have blocked, or was interrupted.
    Transient,
    /// Any other error, identified by a code of the caller's choosing.
    Fatal(i32),
}

/// The error of one attempt, as far as the driver tells errors apart.
#[derive(Debug, Clone, Copy, PartialEq, Eq, Structural)]
pub enum AttemptError {
    /// The call would have blocked.
    WouldBlock,
    /// The call was interrupted before it moved anything.
    Interrupted,
    /// Any other error, identified by a code of the caller's choosing.
    Other(i32),
}

/// Why a transfer stopped before the buffer was done.
#[derive(Debug, Clone, Copy, PartialEq, Eq, Structural)]
pub enum IoFailure {
    /// A write moved no bytes and reported no error.
    WriteZero,
    /// A read met the end of the stream before the buffer was full.
    UnexpectedEof,
    /// The socket reported an error that is not transient.
    Fatal(i32),
}

/// How far a transfer of `total` bytes has come.
#[derive(Debug, Clone, Copy, PartialEq, Eq, Structural)]
pub struct Progress {
    /// Length of the buffer.
    pub total: usize,
    /// Bytes moved so far; the next attempt works on `done..total`.
    pub done: usize,
}

/// What the caller does next.
#[derive(Debug, Clone, Copy, PartialEq, Eq, Structural)]
pub enum Verdict {
    /// Yield, then attempt again on the rest of the buffer.
    Again,
    /// The whole buffer was moved.
    Complete,
    /// The transfer is over and failed.
    Failed(IoFailure),
}

impl Progress {
    /// `done` never exceeds `total`.
    pub open spec fn wf(self) -> bool {
        self.done <= self.total
    }

    /// Bytes still to move.
    pub open spec fn spec_remaining(self) -> nat {
        (self.total - self.done) as nat
    }

    /// Bytes still to move.
    pub fn remaining(&self) -> (r: usize)
        requires
            self.wf(),
        ensures
            r == self.spec_remaining(),
    {
        self.total - self.done
    }
}

/// The event that the result of one attempt stands for: a would-block and an
/// interruption are transient, every other error is fatal.
pub open spec fn spec_event_of(attempt: Result<usize, AttemptError>) -> IoEvent {
    match attempt {
        Ok(n) => IoEvent::Moved(n),
        Err(AttemptError::WouldBlock) | Err(AttemptError::Interrupted) => IoEvent::Transient,
        Err(AttemptError::Other(code)) => IoEvent::Fatal(code),
    }
}

/// Sorts the result of one attempt into progress, a transient outcome, or a
/// fatal one.
pub fn event_of(attempt: Result<usize, AttemptError>) -> (r: IoEvent)
    ensures
        r == spec_event_of(attempt),
{
    match attempt {
        Ok(n) => IoEvent::Moved(n),
        Err(AttemptError::WouldBlock) | Err(AttemptError::Interrupted) => IoEvent::Transient,
        Err(AttemptError::Other(code)) => IoEvent::Fatal(code),
    }
}

/// Whether `ev` is a would-block or an interruption.
pub open spec fn is_transient(ev: IoEvent) -> bool {
    ev is Transient
}

/// The state of a transfer of `total` bytes before the first attempt. An empty
/// buffer is complete at once, without any attempt.
pub open spec fn spec_begin(total: usize) -> (Progress, Verdict) {
    (
        Progress { total, done: 0 },
        if total == 0 {
            Verdict::Complete
        } else {
            Verdict::Again
        },
    )
}

/// The progress after an attempt that moved `n` bytes.
pub open spec fn spec_advance(p: Progress, n: usize) -> Progress {
    if n >= p.total - p.done {
        Progress { total: p.total, done: p.total }
    } else {
        Progress { total: p.total, done: (p.done + n) as usize }
    }
}

/// One step of a write: a transient outcome changes nothing; a write of zero
/// bytes is a failure of its own; any other error is fatal.
pub open spec fn spec_write_step(p: Progress, ev: IoEvent) -> (Progress, Verdict) {
    match ev {
        IoEvent::Transient => (p, Verdict::Again),
        IoEvent::Fatal(code) => (p, Verdict::Failed(IoFailure::Fatal(code))),
        IoEvent::Moved(n) => if n == 0 {
            (p, Verdict::Failed(IoFailure::WriteZero))
        } else {
            let q = spec_advance(p, n);
            (
                q,
                if q.done == q.total {
                    Verdict::Complete
                } else {
                    Verdict::Again
                },
            )
        },
    }
}

/// One step of a read: as for a write, but a read of zero bytes means that the
/// peer has shut down, which leaves the buffer short.
pub open spec fn spec_read_step(p: Progress, ev: IoEvent) -> (Progress, Verdict) {
    match ev {
        IoEvent::Transient => (p, Verdict::Again),
        IoEvent::Fatal(code) => (p, Verdict::Failed(IoFailure::Fatal(code))),
        IoEvent::Moved(n) => if n == 0 {
            (p, Verdict::Failed(IoFailure::UnexpectedEof))
        } else {
            let q = spec_advance(p, n);
            (
                q,
                if q.done == q.total {
                    Verdict::Complete
                } else {
                    Verdict::Again
                },
            )
        },
    }
}

/// Starts a transfer of `total` bytes.
pub fn begin(total: usize) -> (r: (Progress, Verdict))
    ensures
        r == spec_begin(total),
        r.0.wf(),
{
    let verdict = if total == 0 {
        Verdict::Complete
    } else {
        Verdict::Again
    };
    (Progress { total, done: 0 }, verdict)
}

/// Takes the outcome of one write attempt on `p.done..p.total`.
///
/// An attempt cannot move more than it was given; a count above the rest of
/// the buffer is taken for the rest.
pub fn write_step(p: Progress, ev: IoEvent) -> (r: (Progress, Verdict))
    requires
        p.wf(),
        p.done < p.total,
    ensures
        r == spec_write_step(p, ev),
        r.0.wf(),
        r.0.total == p.total,
        r.0.done >= p.done,
{
    match ev {
        IoEvent::Transient => (p, Verdict::Again),
        IoEvent::Fatal(code) => (p, Verdict::Failed(IoFailure::Fatal(code))),
        IoEvent::Moved(n) => {
            if n == 0 {
                (p, Verdict::Failed(IoFailure::WriteZero))
            } else {
                if n >= p.total - p.done {
                    (Progress { total: p.total, done: p.total }, Verdict::Complete)
                } else {
                    (Progress { total: p.total, done: p.done + n }, Verdict::Again)
                }
            }
        },
    }
}

/// Takes the outcome of one read attempt into `p.done..p.total`.
///
/// On `UnexpectedEof` the returned progress says how many bytes were filled
/// before the peer shut down; zero means that it happened before the first.
pub fn read_step(p: Progress, ev: IoEvent) -> (r: (Progress, Verdict))
    requires
        p.wf(),
        p.done < p.total,
    ensures
        r == spec_read_step(p, ev),
        r.0.wf(),
        r.0.total == p.total,
        r.0.done >= p.done,
{
    match ev {
        IoEvent::Transient => (p, Verdict::Again),
        IoEvent::Fatal(code) => (p, Verdict::Failed(IoFailure::Fatal(code))),
        IoEvent::Moved(n) => {
            if n == 0 {
                (p, Verdict::Failed(IoFailure::UnexpectedEof))
            } else {
                if n >= p.total - p.done {
                    (Progress { total: p.total, done: p.total }, Verdict::Complete)
                } else {
                    (Progress { total: p.total, done: p.done + n }, Verdict::Again)
                }
            }
        },
    }
}

/// The state of a write that has reached `(p, v)` after the caller has
/// reported `events` in turn. Events after the end of the transfer are not
/// looked at; `Again` in the result means that the events ran out first.
pub open spec fn spec_write_run(p: Progress, v: Verdict, events: Seq<IoEvent>) -> (
    Progress,
    Verdict,
)
    decreases events.len(),
{
    if !(v is Again) || events.len() == 0 {
        (p, v)
    } else {
        let (q, w) = spec_write_step(p, events[0]);
        spec_write_run(q, w, events.drop_first())
    }
}

/// As `spec_write_run`, for a read.
pub open spec fn spec_read_run(p: Progress, v: Verdict, events: Seq<IoEvent>) -> (
    Progress,
    Verdict,
)
    decreases events.len(),
{
    if !(v is Again) || events.len() == 0 {
        (p, v)
    } else {
        let (q, w) = spec_read_step(p, events[0]);
        spec_read_run(q, w, events.drop_first())
    }
}

/// `events` with the transient outcomes left out: what a blocking socket
/// would have reported.
pub open spec fn spec_without_transient(events: Seq<IoEvent>) -> Seq<IoEvent>
    decreases events.len(),
{
    if events.len() == 0 {
        events
    } else if is_transient(events[0]) {
        spec_without_transient(events.drop_first())
    } else {
        seq![events[0]] + spec_without_transient(events.drop_first())
    }
}

/// Transient outcomes, wherever they fall among the others, change neither
/// the result of a write nor the number of bytes written: the transfer ends
/// as it would on a socket that never reports them.
pub proof fn lemma_write_ignores_transient(p: Progress, v: Verdict, events: Seq<IoEvent>)
    ensures
        spec_write_run(p, v, events) == spec_write_run(p, v, spec_without_transient(events)),
    decreases events.len(),
{
    if v is Again && events.len() > 0 {
        let rest = events.drop_first();
        let (q, w) = spec_write_step(p, events[0]);
        lemma_write_ignores_transient(q, w, rest);
        if !is_transient(events[0]) {
            let kept = spec_without_transient(events);
            assert(kept[0] == events[0]);
            assert(kept.drop_first() =~= spec_without_transient(rest));
        }
    } else if v is Again {
        assert(spec_without_transient(events).len() == 0);
    }
}

/// Transient outcomes, wherever they fall among the others, change neither
/// the result of a read nor the number of bytes filled.
pub proof fn lemma_read_ignores_transient(p: Progress, v: Verdict, events: Seq<IoEvent>)
    ensures
        spec_read_run(p, v, events) == spec_read_run(p, v, spec_without_transient(events)),
    decreases events.len(),
{
    if v is Again && events.len() > 0 {
        let rest = events.drop_first();
        let (q, w) = spec_read_step(p, events[0]);
        lemma_read_ignores_transient(q, w, rest);
        if !is_transient(events[0]) {
            let kept = spec_without_transient(events);
            assert(kept[0] == events[0]);
            assert(kept.drop_first() =~= spec_without_transient(rest));
        }
    } else if v is Again {
        assert(spec_without_transient(events).len() == 0);
    }
}

/// The bytes that the attempts of `events` moved, taken together.
pub open spec fn spec_moved(events: Seq<IoEvent>) -> nat
    decreases events.len(),
{
    if events.len() == 0 {
        0
    } else {
        spec_moved(events.drop_first()) + match events[0] {
            IoEvent::Moved(n) => n as nat,
            _ => 0nat,
        }
    }
}

/// Whether every attempt of `events` either moved at least one byte or ended
/// with a transient outcome.
pub open spec fn spec_only_progress(events: Seq<IoEvent>) -> bool {
    forall|i: int|
        0 <= i < events.len() ==> match #[trigger] events[i] {
            IoEvent::Moved(n) => n >= 1,
            IoEvent::Transient => true,
            IoEvent::Fatal(_) => false,
        }
}

/// A write that meets nothing but transient outcomes and progress is complete
/// as soon as the attempts have moved the whole buffer, however many
/// transient outcomes lie between them.
pub proof fn lemma_write_completes(p: Progress, events: Seq<IoEvent>)
    requires
        p.done < p.total,
        spec_only_progress(events),
        spec_moved(events) >= p.total - p.done,
    ensures
        spec_write_run(p, Verdict::Again, events) == (
            Progress { total: p.total, done: p.total },
            Verdict::Complete,
        ),
    decreases events.len(),
{
    if events.len() > 0 {
        let rest = events.drop_first();
        let (q, w) = spec_write_step(p, events[0]);
        assert(spec_only_progress(rest)) by {
            assert forall|i: int| 0 <= i < rest.len() implies match #[trigger] rest[i] {
                IoEvent::Moved(n) => n >= 1,
                IoEvent::Transient => true,
                IoEvent::Fatal(_) => false,
            } by {
                assert(rest[i] == events[i + 1]);
            }
        }
        let first = events[0];
        assert(first is Moved || first is Transient);
        assert(spec_moved(events) == spec_moved(rest) + match first {
            IoEvent::Moved(n) => n as nat,
            _ => 0nat,
        });
        if w is Again {
            lemma_write_completes(q, rest);
        } else {
            assert(w is Complete && q.done == p.total && q.total == p.total);
            assert(spec_write_run(q, w, rest) == (q, w));
        }
    } else {
        assert(spec_moved(events) == 0);
    }
}

/// A read that meets nothing but transient outcomes and progress is complete
/// as soon as the attempts have filled the whole buffer.
pub proof fn lemma_read_completes(p: Progress, events: Seq<IoEvent>)
    requires
        p.done < p.total,
        spec_only_progress(events),
        spec_moved(events) >= p.total - p.done,
    ensures
        spec_read_run(p, Verdict::Again, events) == (
            Progress { total: p.total, done: p.total },
            Verdict::Complete,
        ),
    decreases events.len(),
{
    if events.len() > 0 {
        let rest = events.drop_first();
        let (q, w) = spec_read_step(p, events[0]);
        assert(spec_only_progress(rest)) by {
            assert forall|i: int| 0 <= i < rest.len() implies match #[trigger] rest[i] {
                IoEvent::Moved(n) => n >= 1,
                IoEvent::Transient => true,
                IoEvent::Fatal(_) => false,
            } by {
                assert(rest[i] == events[i + 1]);
            }
        }
        let first = events[0];
        assert(first is Moved || first is Transient);
        assert(spec_moved(events) == spec_moved(rest) + match first {
            IoEvent::Moved(n) => n as nat,
            _ => 0nat,
        });
        if w is Again {
            lemma_read_completes(q, rest);
        } else {
            assert(w is Complete && q.done == p.total && q.total == p.total);
            assert(spec_read_run(q, w, rest) == (q, w));
        }
    } else {
        assert(spec_moved(events) == 0);
    }
}

/// Writes a buffer of `total` bytes through the attempts whose outcomes are
/// `events`, in turn, and says where the write stands after them. Outcomes
/// after the end of the write are not looked at.
pub fn nonblocking_write_all(total: usize, events: &[IoEvent]) -> (r: (Progress, Verdict))
    ensures
        r == spec_write_run(spec_begin(total).0, spec_begin(total).1, events@),
        r.0.wf(),
{
    let (mut p, mut v) = begin(total);
    let mut i: usize = 0;
    assert(events@.skip(0) =~= events@);
    while i < events.len() && v == Verdict::Again
        invariant
            i <= events@.len(),
            p.wf(),
            v is Again ==> p.done < p.total,
            spec_write_run(spec_begin(total).0, spec_begin(total).1, events@) == spec_write_run(
                p,
                v,
                events@.skip(i as int),
            ),
        decreases events@.len() - i,
    {
        assert(events@.skip(i as int).drop_first() =~= events@.skip(i + 1));
        let next = write_step(p, events[i]);
        p = next.0;
        v = next.1;
        i = i + 1;
    }
    (p, v)
}

/// Fills a buffer of `total` bytes through the attempts whose outcomes are
/// `events`, in turn, and says where the read stands after them.
pub fn nonblocking_read_exact(total: usize, events: &[IoEvent]) -> (r: (Progress, Verdict))
    ensures
        r == spec_read_run(spec_begin(total).0, spec_begin(total).1, events@),
        r.0.wf(),
{
    let (mut p, mut v) = begin(total);
    let mut i: usize = 0;
    assert(events@.skip(0) =~= events@);
    while i < events.len() && v == Verdict::Again
        invariant
            i <= events@.len(),
            p.wf(),
            v is Again ==> p.done < p.total,
            spec_read_run(spec_begin(total).0, spec_begin(total).1, events@) == spec_read_run(
                p,
                v,
                events@.skip(i as int),
            ),
        decreases events@.len() - i,
    {
        assert(events@.skip(i as int).drop_first() =~= events@.skip(i + 1));
        let next = read_step(p, events[i]);
        p = next.0;
        v = next.1;
        i = i + 1;
    }
    (p, v)
}

} // verus!
