//! What holds of a whole run: many workers, each on its own target, and one
//! aggregator that takes their events in whatever order they arrive.

use vstd::prelude::*;
use crate::event::EventView;
use crate::progress::{lemma_none_set, lemma_one_line_per_target, lemma_replay_keeps_wf,
    lemma_targets_independent, own_events, ProgressView};
use crate::worker::{emitted, has_failure, lemma_one_terminal_event, lemma_worker_keeps_target,
    run, running, told, WorkerView, WriteOutcome};

verus! {

/// Whether `events` is what an aggregator may see of a run: worker number `t` starts
/// on target `t` with nothing written, its writes go as `traces[t]` says, and the
/// events about target `t` are the ones that worker tells, in its order. How the
/// events of different targets are interleaved is left open.
pub open spec fn is_run(
    workers: Seq<WorkerView>,
    traces: Seq<Seq<WriteOutcome>>,
    events: Seq<EventView>,
) -> bool {
    &&& workers.len() == traces.len()
    &&& workers.len() <= usize::MAX
    &&& forall|t: int|
        0 <= t < workers.len() ==> {
            &&& (#[trigger] workers[t]).id == t
            &&& workers[t].status is Started
            &&& workers[t].written == 0
            &&& own_events(events, t as usize) == told(workers[t], traces[t])
        }
}

/// An aggregator that takes in what one worker tells keeps that worker's account:
/// the same bytes, and ended exactly when the worker has ended.
pub proof fn lemma_aggregator_follows_worker(v: ProgressView, w: WorkerView, trace: Seq<WriteOutcome>)
    requires
        v.wf(),
        w.id < v.targets(),
        running(w.status),
        !v.finished[w.id as int],
        v.written[w.id as int] == w.written,
    ensures
        v.replay(told(w, trace)).written[w.id as int] == run(w, trace).written,
        v.replay(told(w, trace)).finished[w.id as int] == has_failure(trace),
    decreases trace.len(),
{
    lemma_one_terminal_event(w, trace);
    if trace.len() > 0 {
        let head = trace.drop_last();
        lemma_aggregator_follows_worker(v, w, head);
        lemma_one_terminal_event(w, head);
        lemma_worker_keeps_target(w, head);
        lemma_replay_keeps_wf(v, told(w, head));
        match emitted(run(w, head), trace.last()) {
            Some(event) => {
                assert(told(w, head).push(event).drop_last() =~= told(w, head));
            },
            None => {},
        }
    }
}

/// Each target's account is its own: in a run, whatever the interleaving, the
/// aggregator holds for every target the bytes that its worker counted, and holds
/// it as ended exactly when its worker met a failed write.
pub proof fn lemma_run_accounts(
    workers: Seq<WorkerView>,
    traces: Seq<Seq<WriteOutcome>>,
    events: Seq<EventView>,
    target: int,
)
    requires
        is_run(workers, traces, events),
        0 <= target < workers.len(),
    ensures
        ProgressView::fresh(workers.len()).replay(events).written[target] == run(
            workers[target],
            traces[target],
        ).written,
        ProgressView::fresh(workers.len()).replay(events).finished[target] == has_failure(
            traces[target],
        ),
{
    let v = ProgressView::fresh(workers.len());
    lemma_fresh_is_wf(workers.len());
    lemma_targets_independent(v, events, target as usize);
    lemma_aggregator_follows_worker(v, workers[target], traces[target]);
}

/// In a run in which every worker has come to its end, the aggregator holds exactly
/// one terminal status line for each target, whether the worker ended well or in
/// error.
pub proof fn lemma_every_target_reports_once(
    workers: Seq<WorkerView>,
    traces: Seq<Seq<WriteOutcome>>,
    events: Seq<EventView>,
)
    requires
        is_run(workers, traces, events),
        forall|t: int| 0 <= t < traces.len() ==> has_failure(#[trigger] traces[t]),
    ensures
        ProgressView::fresh(workers.len()).replay(events).summaries.len() == workers.len(),
{
    let v = ProgressView::fresh(workers.len());
    lemma_fresh_is_wf(workers.len());
    lemma_replay_keeps_wf(v, events);
    let end = v.replay(events);
    assert forall|t: int| 0 <= t < end.finished.len() implies end.finished[t] by {
        lemma_run_accounts(workers, traces, events, t);
        assert(has_failure(traces[t]));
    }
    lemma_one_line_per_target(end);
}

/// A fresh aggregator's records agree.
pub proof fn lemma_fresh_is_wf(targets: nat)
    ensures
        ProgressView::fresh(targets).wf(),
        ProgressView::fresh(targets).targets() == targets,
        ProgressView::fresh(targets).summaries.len() == 0,
{
    lemma_none_set(ProgressView::fresh(targets).finished);
}

} // verus!
