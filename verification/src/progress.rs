//! The progress aggregator: one place where the events of all workers arrive.
//!
//! It keeps, for every target, the bytes written and whether its worker has ended,
//! and the lines that the workers sent, in the order of their arrival. Events of
//! different targets may arrive in any order: no target's count depends on another's.

use vstd::prelude::*;
use crate::event::{count, counted, EventView, ProgressEvent};

verus! {

/// What the aggregator has taken in.
pub struct ProgressView {
    /// The bytes written to each target.
    pub written: Seq<u64>,
    /// Whether each target's worker has ended.
    pub finished: Seq<bool>,
    /// The lines that report a failure, as they arrived.
    pub errors: Seq<Seq<char>>,
    /// The terminal status lines, as they arrived.
    pub summaries: Seq<Seq<char>>,
}

/// How many of `flags` are set.
pub open spec fn count_set(flags: Seq<bool>) -> nat
    decreases flags.len(),
{
    if flags.len() == 0 {
        0
    } else {
        count_set(flags.drop_last()) + if flags.last() {
            1nat
        } else {
            0nat
        }
    }
}

impl ProgressView {
    /// Nothing written, nothing ended, for `targets` targets.
    pub open spec fn fresh(targets: nat) -> ProgressView {
        ProgressView {
            written: Seq::new(targets, |i: int| 0u64),
            finished: Seq::new(targets, |i: int| false),
            errors: Seq::empty(),
            summaries: Seq::empty(),
        }
    }

    /// Every target has a counter and a flag, and there is one terminal status line
    /// for each target that has ended.
    pub open spec fn wf(self) -> bool {
        &&& self.written.len() == self.finished.len()
        &&& self.summaries.len() == count_set(self.finished)
    }

    /// The number of targets.
    pub open spec fn targets(self) -> nat {
        self.written.len()
    }

    /// Whether every target's worker has ended.
    pub open spec fn all_finished(self) -> bool {
        forall|i: int| 0 <= i < self.finished.len() ==> self.finished[i]
    }

    /// Whether an event is taken in: it must be about a target of the list whose
    /// worker has not ended yet.
    pub open spec fn accepts(self, event: EventView) -> bool {
        event.target() < self.targets() && !self.finished[event.target() as int]
    }

    /// The aggregator after an event. A progress delta adds to its target's bytes; a
    /// terminal event marks its target as ended and appends its lines. An event that
    /// is not taken in changes nothing.
    pub open spec fn apply(self, event: EventView) -> ProgressView {
        if !self.accepts(event) {
            self
        } else {
            match event {
                EventView::Delta { target, bytes } => ProgressView {
                    written: self.written.update(
                        target as int,
                        counted(self.written[target as int], bytes),
                    ),
                    ..self
                },
                EventView::Terminal { target, error, summary } => ProgressView {
                    finished: self.finished.update(target as int, true),
                    errors: match error {
                        Some(line) => self.errors.push(line),
                        None => self.errors,
                    },
                    summaries: self.summaries.push(summary),
                    ..self
                },
            }
        }
    }

    /// The aggregator after the events of `events`, one after the other.
    pub open spec fn replay(self, events: Seq<EventView>) -> ProgressView
        decreases events.len(),
    {
        if events.len() == 0 {
            self
        } else {
            self.replay(events.drop_last()).apply(events.last())
        }
    }
}

/// The events of `events` that are about `target`, in their order.
pub open spec fn own_events(events: Seq<EventView>, target: usize) -> Seq<EventView>
    decreases events.len(),
{
    if events.len() == 0 {
        Seq::empty()
    } else if events.last().target() == target {
        own_events(events.drop_last(), target).push(events.last())
    } else {
        own_events(events.drop_last(), target)
    }
}

/// The lines of `lines` as text.
pub open spec fn texts(lines: Seq<String>) -> Seq<Seq<char>> {
    lines.map_values(|line: String| line@)
}

/// The progress aggregator.
pub struct Progress {
    written: Vec<u64>,
    finished: Vec<bool>,
    errors: Vec<String>,
    summaries: Vec<String>,
}

impl View for Progress {
    type V = ProgressView;

    closed spec fn view(&self) -> ProgressView {
        ProgressView {
            written: self.written@,
            finished: self.finished@,
            errors: texts(self.errors@),
            summaries: texts(self.summaries@),
        }
    }
}

impl Progress {
    /// The aggregator's records agree with each other.
    pub open spec fn wf(&self) -> bool {
        self@.wf()
    }

    /// An aggregator for `targets` targets, with nothing taken in.
    pub fn new(targets: usize) -> (progress: Progress)
        ensures
            progress.wf(),
            progress@ == ProgressView::fresh(targets as nat),
    {
        let progress = Progress {
            written: vec![0u64; targets],
            finished: vec![false; targets],
            errors: Vec::new(),
            summaries: Vec::new(),
        };
        proof {
            lemma_none_set(progress.finished@);
            assert(progress@.written =~= ProgressView::fresh(targets as nat).written);
            assert(progress@.finished =~= ProgressView::fresh(targets as nat).finished);
            assert(progress@.errors =~= ProgressView::fresh(targets as nat).errors);
            assert(progress@.summaries =~= ProgressView::fresh(targets as nat).summaries);
        }
        progress
    }

    /// The number of targets.
    pub fn targets(&self) -> (targets: usize)
        ensures
            targets == self@.targets(),
    {
        self.written.len()
    }

    /// The bytes written to `target`, or `None` if the list has no such target.
    pub fn written(&self, target: usize) -> (bytes: Option<u64>)
        ensures
            target < self@.targets() ==> bytes == Some(self@.written[target as int]),
            target >= self@.targets() ==> bytes is None,
    {
        if target < self.written.len() {
            Some(self.written[target])
        } else {
            None
        }
    }

    /// Whether the worker of `target` has ended; `false` for a target that the list
    /// does not have.
    pub fn is_finished(&self, target: usize) -> (yes: bool)
        ensures
            yes == (target < self@.finished.len() && self@.finished[target as int]),
    {
        target < self.finished.len() && self.finished[target]
    }

    /// Whether every worker has ended.
    pub fn all_finished(&self) -> (yes: bool)
        ensures
            yes == self@.all_finished(),
    {
        let mut i: usize = 0;
        while i < self.finished.len()
            invariant
                i <= self.finished.len(),
                forall|j: int| 0 <= j < i ==> self.finished@[j],
            decreases self.finished.len() - i,
        {
            if !self.finished[i] {
                assert(!self@.finished[i as int]);
                return false;
            }
            i = i + 1;
        }
        true
    }

    /// The terminal status lines taken in so far, in the order of their arrival.
    pub fn summaries(&self) -> (lines: &Vec<String>)
        ensures
            texts(lines@) == self@.summaries,
    {
        &self.summaries
    }

    /// The lines that report a failure, in the order of their arrival.
    pub fn errors(&self) -> (lines: &Vec<String>)
        ensures
            texts(lines@) == self@.errors,
    {
        &self.errors
    }

    /// Takes in one event, and says whether it was taken in.
    pub fn record(&mut self, event: ProgressEvent) -> (taken: bool)
        requires
            old(self).wf(),
        ensures
            final(self).wf(),
            taken == old(self)@.accepts(event@),
            final(self)@ == old(self)@.apply(event@),
    {
        let target: usize = event.target();
        if target >= self.written.len() || self.finished[target] {
            return false;
        }
        proof {
            lemma_apply_keeps_wf(self@, event@);
        }
        match event {
            ProgressEvent::Delta { target, bytes } => {
                let sum: u64 = count(self.written[target], bytes);
                self.written.set(target, sum);
            },
            ProgressEvent::Terminal { target, error, summary } => {
                self.finished.set(target, true);
                match error {
                    Some(line) => {
                        self.errors.push(line);
                        assert(texts(self.errors@) =~= texts(old(self).errors@).push(line@));
                    },
                    None => {},
                }
                self.summaries.push(summary);
                assert(texts(self.summaries@) =~= texts(old(self).summaries@).push(summary@));
            },
        }
        true
    }
}

/// No flag of a list of cleared flags is set.
pub proof fn lemma_none_set(flags: Seq<bool>)
    requires
        forall|i: int| 0 <= i < flags.len() ==> !flags[i],
    ensures
        count_set(flags) == 0,
    decreases flags.len(),
{
    if flags.len() > 0 {
        lemma_none_set(flags.drop_last());
    }
}

/// Setting a flag that was clear raises the count by one.
proof fn lemma_set_one_more(flags: Seq<bool>, i: int)
    requires
        0 <= i < flags.len(),
        !flags[i],
    ensures
        count_set(flags.update(i, true)) == count_set(flags) + 1,
    decreases flags.len(),
{
    let after = flags.update(i, true);
    if i == flags.len() - 1 {
        assert(after.drop_last() =~= flags.drop_last());
    } else {
        lemma_set_one_more(flags.drop_last(), i);
        assert(after.drop_last() =~= flags.drop_last().update(i, true));
    }
}

/// The flags set are at most all, and all only if each is set.
proof fn lemma_count_set_bound(flags: Seq<bool>)
    ensures
        count_set(flags) <= flags.len(),
        count_set(flags) == flags.len() <==> (forall|i: int| 0 <= i < flags.len() ==> flags[i]),
    decreases flags.len(),
{
    if flags.len() > 0 {
        let head = flags.drop_last();
        lemma_count_set_bound(head);
        if count_set(flags) == flags.len() {
            assert forall|i: int| 0 <= i < flags.len() implies flags[i] by {
                if i < head.len() {
                    assert(head[i] == flags[i]);
                }
            }
        }
        if forall|i: int| 0 <= i < flags.len() ==> flags[i] {
            assert forall|i: int| 0 <= i < head.len() implies head[i] by {
                assert(head[i] == flags[i]);
            }
        }
    }
}

/// Taking in an event keeps the records in agreement.
pub proof fn lemma_apply_keeps_wf(v: ProgressView, event: EventView)
    requires
        v.wf(),
    ensures
        v.apply(event).wf(),
        v.apply(event).targets() == v.targets(),
{
    if v.accepts(event) {
        match event {
            EventView::Delta { .. } => {},
            EventView::Terminal { target, .. } => {
                lemma_set_one_more(v.finished, target as int);
            },
        }
    }
}

/// Replaying events keeps the records in agreement.
pub proof fn lemma_replay_keeps_wf(v: ProgressView, events: Seq<EventView>)
    requires
        v.wf(),
    ensures
        v.replay(events).wf(),
        v.replay(events).targets() == v.targets(),
    decreases events.len(),
{
    if events.len() > 0 {
        lemma_replay_keeps_wf(v, events.drop_last());
        lemma_apply_keeps_wf(v.replay(events.drop_last()), events.last());
    }
}

/// Each target that has ended has given exactly one terminal status line: there are
/// never more such lines than targets, and once every worker has ended there are as
/// many as targets, however the workers ended.
pub proof fn lemma_one_line_per_target(v: ProgressView)
    requires
        v.wf(),
    ensures
        v.summaries.len() <= v.targets(),
        v.all_finished() <==> v.summaries.len() == v.targets(),
{
    lemma_count_set_bound(v.finished);
}

/// Progress only moves forward: no event lowers a target's bytes or reopens a
/// target that has ended.
pub proof fn lemma_counts_never_fall(v: ProgressView, event: EventView, target: int)
    requires
        v.wf(),
        0 <= target < v.targets(),
    ensures
        v.apply(event).written[target] >= v.written[target],
        v.finished[target] ==> v.apply(event).finished[target] && v.apply(event).written[target]
            == v.written[target],
{
}

/// An event about one target leaves every other target as it was.
pub proof fn lemma_other_targets_untouched(v: ProgressView, event: EventView, target: int)
    requires
        v.wf(),
        0 <= target < v.targets(),
        event.target() != target,
    ensures
        v.apply(event).written[target] == v.written[target],
        v.apply(event).finished[target] == v.finished[target],
{
}

/// Targets are independent: after any stream of events, in any interleaving, the
/// bytes of a target and whether it has ended are what its own events alone give.
pub proof fn lemma_targets_independent(v: ProgressView, events: Seq<EventView>, target: usize)
    requires
        v.wf(),
        target < v.targets(),
    ensures
        v.replay(events).written[target as int] == v.replay(own_events(events, target)).written[target as int],
        v.replay(events).finished[target as int] == v.replay(
            own_events(events, target),
        ).finished[target as int],
    decreases events.len(),
{
    if events.len() > 0 {
        let head = events.drop_last();
        let last = events.last();
        lemma_targets_independent(v, head, target);
        lemma_replay_keeps_wf(v, head);
        lemma_replay_keeps_wf(v, own_events(head, target));
        if last.target() == target {
            let own = own_events(head, target).push(last);
            assert(own.drop_last() =~= own_events(head, target));
        } else {
            lemma_other_targets_untouched(v.replay(head), last, target as int);
        }
    }
}

} // verus!
