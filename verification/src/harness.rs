//! Running several stream sessions side by side.
//!
//! The harness tries to establish each stream once, starts a session on every
//! stream that was established, waits for every session it started, and adds
//! up what they report. A stream that fails, at establishment or later, takes
//! nothing away from the others.

use vstd::prelude::*;
use crate::session::{BenchmarkRun, SessionError};

verus! {

/// What is known of one stream.
#[derive(Debug, Clone, Copy, PartialEq, Eq, Structural)]
pub enum StreamReport {
    /// The stream could not be established; no session ran on it.
    ConnectFailed,
    /// A session was started on the stream and has not been waited for yet.
    Running,
    /// The session ran to its end.
    Completed(BenchmarkRun),
    /// The session was aborted.
    Aborted(SessionError),
}

/// What the harness does next.
#[derive(Debug, Clone, Copy, PartialEq, Eq, Structural)]
pub enum HarnessAction {
    /// Try to establish the stream with this index and, on success, start its
    /// session.
    Connect(usize),
    /// Wait for the session of the stream with this index.
    Join(usize),
    /// Every stream is accounted for: report.
    Report,
}

/// The figures of a whole run.
#[derive(Debug, Clone, Copy, PartialEq, Eq, Structural)]
pub struct Summary {
    /// Sum of the bytes of the completed streams; `None` if it does not fit.
    pub total_bytes: Option<u128>,
    /// The longest time that a completed stream took, in nanoseconds.
    pub elapsed_nanos: u128,
    /// Number of streams that ran to their end.
    pub completed: usize,
}

/// The bytes that a stream adds to the total: those of a completed session,
/// and nothing otherwise.
pub open spec fn spec_contribution(report: StreamReport) -> nat {
    match report {
        StreamReport::Completed(run) => run.total_bytes as nat,
        _ => 0,
    }
}

/// The sum of the contributions of `reports`.
pub open spec fn spec_total_bytes(reports: Seq<StreamReport>) -> nat
    decreases reports.len(),
{
    if reports.len() == 0 {
        0
    } else {
        spec_total_bytes(reports.drop_last()) + spec_contribution(reports.last())
    }
}

/// The longest elapsed time among the completed streams of `reports`.
pub open spec fn spec_longest(reports: Seq<StreamReport>) -> nat
    decreases reports.len(),
{
    if reports.len() == 0 {
        0
    } else {
        let before = spec_longest(reports.drop_last());
        match reports.last() {
            StreamReport::Completed(run) => if run.elapsed_nanos > before {
                run.elapsed_nanos as nat
            } else {
                before
            },
            _ => before,
        }
    }
}

/// The number of completed streams in `reports`.
pub open spec fn spec_completed(reports: Seq<StreamReport>) -> nat
    decreases reports.len(),
{
    if reports.len() == 0 {
        0
    } else {
        spec_completed(reports.drop_last()) + if reports.last() is Completed {
            1nat
        } else {
            0nat
        }
    }
}

/// The bytes that one stream adds to the total.
pub fn contribution(report: &StreamReport) -> (r: u128)
    ensures
        r == spec_contribution(*report),
{
    match report {
        StreamReport::Completed(run) => run.total_bytes,
        _ => 0,
    }
}

/// Adds up the reports of a run. Each stream's own figures stay in `reports`.
pub fn summarize(reports: &[StreamReport]) -> (r: Summary)
    ensures
        r.total_bytes is Some <==> spec_total_bytes(reports@) <= u128::MAX,
        r.total_bytes is Some ==> r.total_bytes->Some_0 == spec_total_bytes(reports@),
        r.elapsed_nanos == spec_longest(reports@),
        r.completed == spec_completed(reports@),
{
    let mut total: Option<u128> = Some(0);
    let mut longest: u128 = 0;
    let mut completed: usize = 0;
    let mut i: usize = 0;
    while i < reports.len()
        invariant
            i <= reports@.len(),
            total is Some <==> spec_total_bytes(reports@.take(i as int)) <= u128::MAX,
            total is Some ==> total->Some_0 == spec_total_bytes(reports@.take(i as int)),
            longest == spec_longest(reports@.take(i as int)),
            completed == spec_completed(reports@.take(i as int)),
            completed <= i,
        decreases reports@.len() - i,
    {
        proof {
            assert(reports@.take(i + 1).drop_last() =~= reports@.take(i as int));
        }
        let report = reports[i];
        total =
        match total {
            Some(sum) => sum.checked_add(contribution(&report)),
            None => None,
        };
        if let StreamReport::Completed(run) = report {
            if run.elapsed_nanos > longest {
                longest = run.elapsed_nanos;
            }
            completed = completed + 1;
        }
        i = i + 1;
    }
    proof {
        assert(reports@.take(i as int) =~= reports@);
    }
    Summary { total_bytes: total, elapsed_nanos: longest, completed }
}

/// The total of a run is the total of its other streams plus what stream `i`
/// contributes.
pub proof fn lemma_total_splits(reports: Seq<StreamReport>, i: int)
    requires
        0 <= i < reports.len(),
    ensures
        spec_total_bytes(reports) == spec_total_bytes(reports.remove(i)) + spec_contribution(
            reports[i],
        ),
    decreases reports.len(),
{
    if i == reports.len() - 1 {
        assert(reports.remove(i) =~= reports.drop_last());
    } else {
        lemma_total_splits(reports.drop_last(), i);
        assert(reports.remove(i).drop_last() =~= reports.drop_last().remove(i));
        assert(reports.remove(i).last() == reports.last());
    }
}

/// A stream that could not be established, or whose session was aborted, adds
/// no bytes: the total is that of the remaining streams alone.
pub proof fn lemma_failed_stream_adds_nothing(reports: Seq<StreamReport>, i: int)
    requires
        0 <= i < reports.len(),
        !(reports[i] is Completed),
    ensures
        spec_total_bytes(reports) == spec_total_bytes(reports.remove(i)),
{
    lemma_total_splits(reports, i);
}

/// The bookkeeping of one run over `nstreams` streams.
#[derive(Debug, Clone)]
pub struct Harness {
    nstreams: usize,
    reports: Vec<StreamReport>,
}

/// The state of a harness: the number of streams asked for, and a report for
/// each stream that establishment has been tried for, by stream index.
pub ghost struct HarnessView {
    pub nstreams: nat,
    pub reports: Seq<StreamReport>,
}

impl View for Harness {
    type V = HarnessView;

    closed spec fn view(&self) -> HarnessView {
        HarnessView { nstreams: self.nstreams as nat, reports: self.reports@ }
    }
}

/// The number of streams in `reports` whose session has been started and not
/// yet waited for.
pub open spec fn spec_running(reports: Seq<StreamReport>) -> nat
    decreases reports.len(),
{
    if reports.len() == 0 {
        0
    } else {
        spec_running(reports.drop_last()) + if reports.last() is Running {
            1nat
        } else {
            0nat
        }
    }
}

/// The work that is left: two units for each stream that has not been tried,
/// one for each session that has not been waited for.
pub open spec fn spec_pending(v: HarnessView) -> nat {
    (2 * (v.nstreams - v.reports.len()) + spec_running(v.reports)) as nat
}

/// The state after establishment of the next stream was tried.
pub open spec fn spec_after_connect(v: HarnessView, established: bool) -> HarnessView {
    HarnessView {
        reports: v.reports.push(
            if established {
                StreamReport::Running
            } else {
                StreamReport::ConnectFailed
            },
        ),
        ..v
    }
}

/// The report of a session that ended with `result`.
pub open spec fn spec_report_of(result: Result<BenchmarkRun, SessionError>) -> StreamReport {
    match result {
        Ok(run) => StreamReport::Completed(run),
        Err(e) => StreamReport::Aborted(e),
    }
}

/// The state after the session of `stream` was waited for and gave `result`.
pub open spec fn spec_after_join(
    v: HarnessView,
    stream: int,
    result: Result<BenchmarkRun, SessionError>,
) -> HarnessView {
    HarnessView { reports: v.reports.update(stream, spec_report_of(result)), ..v }
}

impl Harness {
    /// No more streams were tried than were asked for.
    pub open spec fn wf(&self) -> bool {
        self@.reports.len() <= self@.nstreams <= usize::MAX
    }

    /// A harness for `nstreams` streams, none of them tried yet.
    pub fn new(nstreams: usize) -> (r: Harness)
        ensures
            r.wf(),
            r@ == (HarnessView { nstreams: nstreams as nat, reports: Seq::empty() }),
    {
        Harness { nstreams, reports: Vec::new() }
    }

    /// What to do next: first try each stream once, in order; then wait for
    /// each session that was started, lowest index first; then report.
    pub fn next_action(&self) -> (r: HarnessAction)
        requires
            self.wf(),
        ensures
            match r {
                HarnessAction::Connect(k) => k == self@.reports.len() && k < self@.nstreams,
                HarnessAction::Join(i) => {
                    &&& self@.reports.len() == self@.nstreams
                    &&& i < self@.reports.len()
                    &&& self@.reports[i as int] is Running
                    &&& forall|j: int| 0 <= j < i ==> !(self@.reports[j] is Running)
                },
                HarnessAction::Report => {
                    &&& self@.reports.len() == self@.nstreams
                    &&& forall|j: int|
                        0 <= j < self@.reports.len() ==> !(self@.reports[j] is Running)
                },
            },
    {
        if self.reports.len() < self.nstreams {
            return HarnessAction::Connect(self.reports.len());
        }
        let mut i: usize = 0;
        while i < self.reports.len()
            invariant
                i <= self.reports@.len(),
                self.reports@.len() == self.nstreams,
                forall|j: int| 0 <= j < i ==> !(self.reports@[j] is Running),
            decreases self.reports@.len() - i,
        {
            if let StreamReport::Running = self.reports[i] {
                return HarnessAction::Join(i);
            }
            i = i + 1;
        }
        HarnessAction::Report
    }

    /// Records whether the stream of the last `Connect` was established. A
    /// failure is final: the stream is not tried again.
    pub fn on_connect(&mut self, established: bool)
        requires
            old(self).wf(),
            old(self)@.reports.len() < old(self)@.nstreams,
        ensures
            final(self).wf(),
            final(self)@ == spec_after_connect(old(self)@, established),
    {
        let report = if established {
            StreamReport::Running
        } else {
            StreamReport::ConnectFailed
        };
        self.reports.push(report);
    }

    /// Records how the session of `stream` ended.
    pub fn on_join(&mut self, stream: usize, result: Result<BenchmarkRun, SessionError>)
        requires
            old(self).wf(),
            stream < old(self)@.reports.len(),
            old(self)@.reports[stream as int] is Running,
        ensures
            final(self).wf(),
            final(self)@ == spec_after_join(old(self)@, stream as int, result),
    {
        let report = match result {
            Ok(run) => StreamReport::Completed(run),
            Err(e) => StreamReport::Aborted(e),
        };
        self.reports.set(stream, report);
    }

    /// The report of `stream`, if establishment has been tried for it.
    pub fn report(&self, stream: usize) -> (r: Option<StreamReport>)
        ensures
            r == if stream < self@.reports.len() {
                Some(self@.reports[stream as int])
            } else {
                None
            },
    {
        if stream < self.reports.len() {
            Some(self.reports[stream])
        } else {
            None
        }
    }

    /// The figures of the run so far.
    pub fn summary(&self) -> (r: Summary)
        ensures
            r.total_bytes is Some <==> spec_total_bytes(self@.reports) <= u128::MAX,
            r.total_bytes is Some ==> r.total_bytes->Some_0 == spec_total_bytes(self@.reports),
            r.elapsed_nanos == spec_longest(self@.reports),
            r.completed == spec_completed(self@.reports),
    {
        summarize(self.reports.as_slice())
    }
}

/// Replacing the report of a running stream lowers the number of running
/// streams by one.
pub proof fn lemma_running_after_update(reports: Seq<StreamReport>, i: int, report: StreamReport)
    requires
        0 <= i < reports.len(),
        reports[i] is Running,
        !(report is Running),
    ensures
        spec_running(reports.update(i, report)) + 1 == spec_running(reports),
    decreases reports.len(),
{
    let updated = reports.update(i, report);
    if i == reports.len() - 1 {
        assert(updated.drop_last() =~= reports.drop_last());
    } else {
        lemma_running_after_update(reports.drop_last(), i, report);
        assert(updated.drop_last() =~= reports.drop_last().update(i, report));
    }
}

/// No stream is running exactly when the count of running streams is zero.
pub proof fn lemma_running_zero(reports: Seq<StreamReport>)
    ensures
        spec_running(reports) == 0 <==> forall|j: int|
            0 <= j < reports.len() ==> !(reports[j] is Running),
    decreases reports.len(),
{
    if reports.len() > 0 {
        lemma_running_zero(reports.drop_last());
        let front = reports.drop_last();
        assert(forall|j: int| 0 <= j < front.len() ==> front[j] == reports[j]);
        if spec_running(reports) == 0 {
            assert forall|j: int| 0 <= j < reports.len() implies !(reports[j] is Running) by {
                if j < front.len() {
                    assert(front[j] == reports[j]);
                }
            }
        }
    }
}

/// Every outcome of a `Connect`, failure included, and every outcome of a
/// `Join`, abort included, leaves strictly less work; and no work is left
/// exactly when each stream was tried and no session is still running. So a
/// run over `n` streams reports after at most `2 * n` steps, whichever of its
/// streams fail.
pub proof fn lemma_harness_progress(
    v: HarnessView,
    established: bool,
    stream: int,
    result: Result<BenchmarkRun, SessionError>,
)
    requires
        v.reports.len() <= v.nstreams,
    ensures
        v.reports.len() < v.nstreams ==> spec_pending(spec_after_connect(v, established))
            < spec_pending(v),
        0 <= stream < v.reports.len() && v.reports[stream] is Running ==> spec_pending(
            spec_after_join(v, stream, result),
        ) < spec_pending(v),
        spec_pending(v) == 0 <==> v.reports.len() == v.nstreams && forall|j: int|
            0 <= j < v.reports.len() ==> !(v.reports[j] is Running),
{
    if v.reports.len() < v.nstreams {
        let after = spec_after_connect(v, established);
        assert(after.reports.drop_last() =~= v.reports);
    }
    if 0 <= stream < v.reports.len() && v.reports[stream] is Running {
        lemma_running_after_update(v.reports, stream, spec_report_of(result));
    }
    lemma_running_zero(v.reports);
}

/// A stream that failed to connect leaves the reports of the streams before
/// it as they were and adds nothing to the total.
pub proof fn lemma_connect_failure_is_isolated(v: HarnessView)
    ensures
        spec_total_bytes(spec_after_connect(v, false).reports) == spec_total_bytes(v.reports),
        forall|j: int|
            0 <= j < v.reports.len() ==> spec_after_connect(v, false).reports[j] == v.reports[j],
{
    assert(spec_after_connect(v, false).reports.drop_last() =~= v.reports);
}

/// The state after establishment was tried for one stream after another,
/// with the outcomes `established`.
pub open spec fn spec_connected(v: HarnessView, established: Seq<bool>) -> HarnessView
    decreases established.len(),
{
    if established.len() == 0 {
        v
    } else {
        spec_after_connect(spec_connected(v, established.drop_last()), established.last())
    }
}

/// The outcomes of `n` tries of which only the one for stream `failed` went
/// wrong.
pub open spec fn spec_all_but(n: nat, failed: int) -> Seq<bool> {
    Seq::new(n, |j: int| j != failed)
}

/// The state after the first `k` of `n` tries, of which only the one for
/// stream `failed` goes wrong.
proof fn lemma_one_failure_so_far(n: nat, failed: int, k: nat)
    requires
        0 <= failed < n,
        k <= n,
    ensures
        ({
            let v = spec_connected(
                HarnessView { nstreams: n, reports: Seq::empty() },
                spec_all_but(n, failed).take(k as int),
            );
            &&& v.nstreams == n
            &&& v.reports.len() == k
            &&& forall|j: int|
                0 <= j < k ==> #[trigger] v.reports[j] == if j == failed {
                    StreamReport::ConnectFailed
                } else {
                    StreamReport::Running
                }
            &&& spec_running(v.reports) == if failed < k {
                k - 1
            } else {
                k as int
            }
            &&& spec_total_bytes(v.reports) == 0
            &&& k == n ==> spec_pending(v) == n - 1
        }),
    decreases k,
{
    let start = HarnessView { nstreams: n, reports: Seq::empty() };
    let outcomes = spec_all_but(n, failed).take(k as int);
    if k > 0 {
        lemma_one_failure_so_far(n, failed, (k - 1) as nat);
        let before = spec_connected(start, spec_all_but(n, failed).take(k - 1));
        assert(outcomes.drop_last() =~= spec_all_but(n, failed).take(k - 1));
        assert(outcomes.last() == (k - 1 != failed));
        let v = spec_connected(start, outcomes);
        assert(v == spec_after_connect(before, outcomes.last()));
        assert(v.reports.drop_last() =~= before.reports);
    }
}

/// If, of `n` streams, stream `failed` alone cannot be established, the
/// harness has a session running on each of the other `n - 1` streams and on
/// no other; the failed stream is marked as such; and exactly `n - 1`
/// sessions are left to wait for before the harness reports.
pub proof fn lemma_one_failure_leaves_the_rest(n: nat, failed: int)
    requires
        0 <= failed < n,
    ensures
        ({
            let v = spec_connected(
                HarnessView { nstreams: n, reports: Seq::empty() },
                spec_all_but(n, failed),
            );
            &&& v.nstreams == n
            &&& v.reports.len() == n
            &&& v.reports[failed] == StreamReport::ConnectFailed
            &&& forall|j: int|
                0 <= j < n && j != failed ==> #[trigger] v.reports[j] == StreamReport::Running
            &&& spec_running(v.reports) == n - 1
            &&& spec_pending(v) == n - 1
        }),
{
    lemma_one_failure_so_far(n, failed, n);
    assert(spec_all_but(n, failed).take(n as int) =~= spec_all_but(n, failed));
}

} // verus!
