//! The wipe worker: the state of one target while random blocks are written to it.
//!
//! A driver owns the target's handle. Before each write it asks the worker to
//! refill the block, writes the block, and tells the worker how the write went.
//! The worker counts the bytes, decides when the target is done, and says what
//! to tell the progress display.

use vstd::prelude::*;
use vstd::string::*;
use crate::buffer::{block_len, block_len_of, padding, valid_block_len, Buf};
use crate::elapsed::{duration_text, to_dur, Elapsed};
use crate::event::{count, counted, shown, EventView, ProgressEvent};
use crate::report::{finished_line, finished_text, no_entropy_line, no_entropy_text,
    write_error_line, write_error_text};
use crate::stream::RandomStream;

verus! {

/// Where a worker stands.
#[derive(Clone, Copy, Debug, PartialEq, Eq, Structural)]
pub enum Status {
    /// Set up; nothing written yet.
    Started,
    /// At least one write has succeeded.
    Writing,
    /// The target's storage is exhausted: the wipe is complete.
    FinishedOk,
    /// A write failed for another reason.
    FinishedError,
}

/// Why a write failed.
#[derive(Clone, Copy, Debug, PartialEq, Eq, Structural)]
pub enum FailureKind {
    /// The target has no room left: the expected end of a wipe.
    StorageFull,
    /// Anything else.
    Other,
}

/// How one write of the block went.
pub enum WriteOutcome {
    /// The target took this many bytes; fewer than the block holds is no error.
    Wrote(usize),
    /// The write failed. `message` is the system's text for the failure and `elapsed`
    /// the time since the worker started.
    Failed { kind: FailureKind, message: String, elapsed: Elapsed },
}

/// The state of a worker, without its random stream and the bytes of its block.
pub struct WorkerView {
    /// The target's place in the target list.
    pub id: usize,
    /// The target's name.
    pub name: Seq<char>,
    /// The probed capacity, for display.
    pub capacity: Option<u64>,
    /// The length of the block that each write hands over.
    pub block: usize,
    /// Where the worker stands.
    pub status: Status,
    /// The bytes written so far.
    pub written: u64,
}

/// The state in which the worker of target number `id` starts in a run of `workers`
/// workers: nothing written, and a block of the length that the run's size gives.
pub open spec fn started_view(id: usize, name: Seq<char>, capacity: Option<u64>, workers: usize) -> WorkerView {
    WorkerView {
        id,
        name,
        capacity,
        block: block_len_of(workers as nat) as usize,
        status: Status::Started,
        written: 0,
    }
}

/// Whether a worker in this status writes on.
pub open spec fn running(status: Status) -> bool {
    status is Started || status is Writing
}

/// The state that follows `w` when a write ends in `outcome`.
///
/// A worker that has finished stays as it is. A running one counts the bytes of a
/// successful write and goes on; it finishes on the first failure, well if the
/// storage is exhausted and in error otherwise.
pub open spec fn next(w: WorkerView, outcome: WriteOutcome) -> WorkerView {
    if !running(w.status) {
        w
    } else {
        match outcome {
            WriteOutcome::Wrote(bytes) => WorkerView {
                status: Status::Writing,
                written: counted(w.written, bytes as u64),
                ..w
            },
            WriteOutcome::Failed { kind: FailureKind::StorageFull, .. } => WorkerView {
                status: Status::FinishedOk,
                ..w
            },
            WriteOutcome::Failed { kind: FailureKind::Other, .. } => WorkerView {
                status: Status::FinishedError,
                ..w
            },
        }
    }
}

/// What the worker in state `w` tells the progress display when a write ends in
/// `outcome`: the bytes of a successful write, the terminal lines at the first
/// failure, and nothing once it has finished.
pub open spec fn emitted(w: WorkerView, outcome: WriteOutcome) -> Option<EventView> {
    if !running(w.status) {
        None
    } else {
        match outcome {
            WriteOutcome::Wrote(bytes) => Some(
                EventView::Delta { target: w.id, bytes: bytes as u64 },
            ),
            WriteOutcome::Failed { kind, message, elapsed } => Some(
                EventView::Terminal {
                    target: w.id,
                    error: if kind is Other {
                        Some(write_error_text(w.name, message@))
                    } else {
                        None
                    },
                    summary: finished_text(w.name, duration_text(elapsed@)),
                },
            ),
        }
    }
}

/// The worker of one target. It owns the target's byte counter, its random stream
/// and its block; nothing else changes them.
pub struct Worker {
    id: usize,
    name: String,
    capacity: Option<u64>,
    status: Status,
    written: u64,
    stream: RandomStream,
    buf: Buf,
}

impl View for Worker {
    type V = WorkerView;

    closed spec fn view(&self) -> WorkerView {
        WorkerView {
            id: self.id,
            name: self.name@,
            capacity: self.capacity,
            block: self.buf@.len() as usize,
            status: self.status,
            written: self.written,
        }
    }
}

impl Worker {
    /// The worker's block is in order.
    pub closed spec fn wf(&self) -> bool {
        self.buf.wf()
    }

    /// The bytes of the worker's block.
    pub closed spec fn block_bytes(&self) -> Seq<u8> {
        self.buf@
    }

    /// The worker of target number `id`, named `name`, in a run of `workers` workers,
    /// with the random stream it is to write. The run's size decides the length of the
    /// block. `capacity` is what the probe gave, for display only.
    pub fn with_stream(
        id: usize,
        name: String,
        capacity: Option<u64>,
        workers: usize,
        stream: RandomStream,
    ) -> (worker: Worker)
        ensures
            worker.wf(),
            worker@ == started_view(id, name@, capacity, workers),
            worker.block_bytes() == Seq::new(block_len_of(workers as nat), |i: int| 0u8),
    {
        let buf = Buf::allocate(block_len(workers));
        Worker { id, name, capacity, status: Status::Started, written: 0, stream, buf }
    }

    /// Starts a worker with the outcome of seeding its random stream: the worker of
    /// `with_stream` where there is a stream, and otherwise the line that reports why
    /// the target is given up.
    pub fn from_seeding(
        id: usize,
        name: String,
        capacity: Option<u64>,
        workers: usize,
        seeded: Result<RandomStream, String>,
    ) -> (started: Result<Worker, String>)
        ensures
            (match seeded {
                Ok(_) => started matches Ok(w) && w.wf() && w@ == started_view(
                    id,
                    name@,
                    capacity,
                    workers,
                ) && w.block_bytes() == Seq::new(block_len_of(workers as nat), |i: int| 0u8),
                Err(reason) => started matches Err(line) && line@ == no_entropy_text(
                    name@,
                    reason@,
                ),
            }),
    {
        match seeded {
            Ok(stream) => Ok(Worker::with_stream(id, name, capacity, workers, stream)),
            Err(reason) => Err(no_entropy_line(name.as_str(), reason.as_str())),
        }
    }

    /// Starts the worker of target number `id` in a run of `workers` workers, with a
    /// random stream of its own, seeded by the operating system. Where the system
    /// gives no entropy, the line that reports it comes back instead.
    pub fn start(id: usize, name: String, capacity: Option<u64>, workers: usize) -> (started: Result<
        Worker,
        String,
    >)
        ensures
            (match started {
                Ok(w) => w.wf() && w@ == started_view(id, name@, capacity, workers)
                    && w.block_bytes() == Seq::new(block_len_of(workers as nat), |i: int| 0u8),
                Err(line) => exists|reason: Seq<char>| line@ == #[trigger] no_entropy_text(
                    name@,
                    reason,
                ),
            }),
    {
        Worker::from_seeding(id, name, capacity, workers, RandomStream::from_os())
    }

    /// The target's place in the target list.
    pub fn id(&self) -> (id: usize)
        ensures
            id == self@.id,
    {
        self.id
    }

    /// The target's name.
    pub fn name(&self) -> (name: &str)
        ensures
            name@ == self@.name,
    {
        self.name.as_str()
    }

    /// The probed capacity, if there is one.
    pub fn capacity(&self) -> (capacity: Option<u64>)
        ensures
            capacity == self@.capacity,
    {
        self.capacity
    }

    /// Where the worker stands.
    pub fn status(&self) -> (status: Status)
        ensures
            status == self@.status,
    {
        self.status
    }

    /// The bytes written so far.
    pub fn written(&self) -> (written: u64)
        ensures
            written == self@.written,
    {
        self.written
    }

    /// Whether the worker writes on.
    pub fn is_running(&self) -> (yes: bool)
        ensures
            yes == running(self@.status),
    {
        match self.status {
            Status::Started => true,
            Status::Writing => true,
            Status::FinishedOk => false,
            Status::FinishedError => false,
        }
    }

    /// The length of the block in bytes.
    pub fn block_len(&self) -> (len: usize)
        requires
            self.wf(),
        ensures
            len == self@.block,
            len == self.block_bytes().len(),
            valid_block_len(len as int),
    {
        self.buf.len()
    }

    /// Prepares the next write: a running worker overwrites its block with fresh
    /// random bytes and returns `true`; a finished one leaves the block alone and
    /// returns `false`. The state does not change.
    pub fn refill(&mut self) -> (go: bool)
        requires
            old(self).wf(),
        ensures
            final(self).wf(),
            final(self)@ == old(self)@,
            go == running(old(self)@.status),
            !go ==> final(self).block_bytes() == old(self).block_bytes(),
    {
        proof {
            self.buf.lemma_block_aligned();
        }
        if self.is_running() {
            self.buf.refill(&mut self.stream);
            true
        } else {
            false
        }
    }

    /// The block to write.
    pub fn block(&self) -> (bytes: &[u8])
        requires
            self.wf(),
        ensures
            bytes@ == self.block_bytes(),
            bytes@.len() == self@.block,
    {
        proof {
            self.buf.lemma_block_aligned();
        }
        self.buf.block()
    }

    /// Takes in how the write of the block went, and returns what to tell the
    /// progress display.
    pub fn step(&mut self, outcome: WriteOutcome) -> (event: Option<ProgressEvent>)
        requires
            old(self).wf(),
        ensures
            final(self).wf(),
            final(self)@ == next(old(self)@, outcome),
            final(self).block_bytes() == old(self).block_bytes(),
            shown(event) == emitted(old(self)@, outcome),
    {
        if !self.is_running() {
            return None;
        }
        match outcome {
            WriteOutcome::Wrote(n) => {
                let bytes: u64 = n as u64;
                self.status = Status::Writing;
                self.written = count(self.written, bytes);
                Some(ProgressEvent::Delta { target: self.id, bytes })
            },
            WriteOutcome::Failed { kind, message, elapsed } => {
                let duration = to_dur(&elapsed);
                let summary = finished_line(self.name.as_str(), duration.as_str());
                let error = match kind {
                    FailureKind::StorageFull => {
                        self.status = Status::FinishedOk;
                        None
                    },
                    FailureKind::Other => {
                        self.status = Status::FinishedError;
                        Some(write_error_line(self.name.as_str(), message.as_str()))
                    },
                };
                Some(ProgressEvent::Terminal { target: self.id, error, summary })
            },
        }
    }
}

/// The state after the writes of `trace`, one after the other, from state `w`.
pub open spec fn run(w: WorkerView, trace: Seq<WriteOutcome>) -> WorkerView
    decreases trace.len(),
{
    if trace.len() == 0 {
        w
    } else {
        next(run(w, trace.drop_last()), trace.last())
    }
}

/// What the worker tells the progress display during the writes of `trace` from
/// state `w`, in order.
pub open spec fn told(w: WorkerView, trace: Seq<WriteOutcome>) -> Seq<EventView>
    decreases trace.len(),
{
    if trace.len() == 0 {
        Seq::empty()
    } else {
        let before = told(w, trace.drop_last());
        match emitted(run(w, trace.drop_last()), trace.last()) {
            Some(event) => before.push(event),
            None => before,
        }
    }
}

/// The bytes that the progress deltas among `events` add up to.
pub open spec fn delta_sum(events: Seq<EventView>) -> nat
    decreases events.len(),
{
    if events.len() == 0 {
        0
    } else {
        delta_sum(events.drop_last()) + match events.last() {
            EventView::Delta { bytes, .. } => bytes as nat,
            EventView::Terminal { .. } => 0,
        }
    }
}

/// How many of `events` are terminal.
pub open spec fn terminal_count(events: Seq<EventView>) -> nat
    decreases events.len(),
{
    if events.len() == 0 {
        0
    } else {
        terminal_count(events.drop_last()) + match events.last() {
            EventView::Delta { .. } => 0nat,
            EventView::Terminal { .. } => 1nat,
        }
    }
}

/// Whether some write of `trace` failed.
pub open spec fn has_failure(trace: Seq<WriteOutcome>) -> bool {
    exists|i: int| 0 <= i < trace.len() && #[trigger] trace[i] is Failed
}

/// A worker keeps its target: whatever is written, its number, its name, its
/// capacity and the length of its block stay, and every event it tells is about its
/// own target.
pub proof fn lemma_worker_keeps_target(w: WorkerView, trace: Seq<WriteOutcome>)
    ensures
        run(w, trace).id == w.id,
        run(w, trace).name == w.name,
        run(w, trace).capacity == w.capacity,
        run(w, trace).block == w.block,
        forall|i: int| 0 <= i < told(w, trace).len() ==> (#[trigger] told(w, trace)[i]).target() == w.id,
    decreases trace.len(),
{
    if trace.len() > 0 {
        lemma_worker_keeps_target(w, trace.drop_last());
        let before = told(w, trace.drop_last());
        assert forall|i: int| 0 <= i < told(w, trace).len() implies (#[trigger] told(
            w,
            trace,
        )[i]).target() == w.id by {
            if i < before.len() {
                assert(told(w, trace)[i] == before[i]);
            }
        }
    }
}

/// Progress only moves forward: after more writes the byte counter is no smaller,
/// and neither is the sum of the progress deltas told so far.
pub proof fn lemma_progress_never_falls(w: WorkerView, trace: Seq<WriteOutcome>, i: int, j: int)
    requires
        0 <= i <= j <= trace.len(),
    ensures
        run(w, trace.take(i)).written <= run(w, trace.take(j)).written,
        delta_sum(told(w, trace.take(i))) <= delta_sum(told(w, trace.take(j))),
    decreases j - i,
{
    if i < j {
        lemma_progress_never_falls(w, trace, i, j - 1);
        assert(trace.take(j).drop_last() =~= trace.take(j - 1));
        let before = told(w, trace.take(j - 1));
        match emitted(run(w, trace.take(j - 1)), trace.take(j).last()) {
            Some(event) => {
                assert(before.push(event).drop_last() =~= before);
            },
            None => {},
        }
    }
}

/// The byte counter is the sum of the progress deltas told, on top of where it
/// began, as long as that fits the counter.
pub proof fn lemma_deltas_add_up(w: WorkerView, trace: Seq<WriteOutcome>)
    ensures
        w.written + delta_sum(told(w, trace)) <= u64::MAX ==> run(w, trace).written == w.written
            + delta_sum(told(w, trace)),
        w.written + delta_sum(told(w, trace)) > u64::MAX ==> run(w, trace).written == u64::MAX,
    decreases trace.len(),
{
    if trace.len() > 0 {
        lemma_deltas_add_up(w, trace.drop_last());
        let before = told(w, trace.drop_last());
        match emitted(run(w, trace.drop_last()), trace.last()) {
            Some(event) => {
                assert(before.push(event).drop_last() =~= before);
            },
            None => {},
        }
    }
}

/// A worker that runs tells exactly one terminal event: none while every write
/// succeeds, one at the first failure, and no event of any kind after that.
pub proof fn lemma_one_terminal_event(w: WorkerView, trace: Seq<WriteOutcome>)
    requires
        running(w.status),
    ensures
        running(run(w, trace).status) <==> !has_failure(trace),
        has_failure(trace) ==> terminal_count(told(w, trace)) == 1,
        !has_failure(trace) ==> terminal_count(told(w, trace)) == 0,
    decreases trace.len(),
{
    if trace.len() > 0 {
        let head = trace.drop_last();
        lemma_one_terminal_event(w, head);
        if has_failure(head) {
            let i: int = choose|i: int| 0 <= i < head.len() && #[trigger] head[i] is Failed;
            assert(trace[i] is Failed);
        } else if trace.last() is Failed {
            assert(trace[trace.len() - 1] is Failed);
        } else {
            assert forall|i: int| 0 <= i < trace.len() implies !(#[trigger] trace[i] is Failed) by {
                if i < head.len() {
                    assert(head[i] == trace[i]);
                }
            }
        }
        let before = told(w, head);
        match emitted(run(w, head), trace.last()) {
            Some(event) => {
                assert(before.push(event).drop_last() =~= before);
            },
            None => {},
        }
    }
}

/// A worker that has finished neither changes nor tells anything.
pub proof fn lemma_finished_is_final(w: WorkerView, trace: Seq<WriteOutcome>)
    requires
        !running(w.status),
    ensures
        run(w, trace) == w,
        told(w, trace) == Seq::<EventView>::empty(),
    decreases trace.len(),
{
    if trace.len() > 0 {
        lemma_finished_is_final(w, trace.drop_last());
    }
}

/// `size` rounded up to a multiple of `block`.
pub open spec fn rounded_up(size: nat, block: nat) -> nat {
    (size + padding(size as int, block as int)) as nat
}

/// What a target of `size` bytes answers to a worker that writes whole blocks of
/// `block` bytes: it takes every write that begins below its size, whole, and
/// refuses the first that begins at or beyond it, for want of room. The trace ends
/// with that refusal.
pub open spec fn fills_fixed_target(trace: Seq<WriteOutcome>, size: nat, block: usize) -> bool {
    &&& trace.len() >= 1
    &&& forall|i: int|
        0 <= i < trace.len() - 1 ==> i * block < size && #[trigger] trace[i] == WriteOutcome::Wrote(
            block,
        )
    &&& (trace.len() - 1) * block >= size
    &&& trace.last() matches WriteOutcome::Failed { kind: FailureKind::StorageFull, .. }
}

/// Whole blocks that all succeed add their bytes to the counter and tell one
/// progress delta each.
proof fn lemma_whole_blocks(w: WorkerView, trace: Seq<WriteOutcome>, block: usize)
    requires
        running(w.status),
        forall|i: int| 0 <= i < trace.len() ==> #[trigger] trace[i] == WriteOutcome::Wrote(block),
        w.written + trace.len() * block <= u64::MAX,
    ensures
        running(run(w, trace).status),
        run(w, trace).written == w.written + trace.len() * block,
        told(w, trace).len() == trace.len(),
        forall|i: int|
            0 <= i < trace.len() ==> #[trigger] told(w, trace)[i] == (EventView::Delta {
                target: w.id,
                bytes: block as u64,
            }),
    decreases trace.len(),
{
    if trace.len() > 0 {
        let head = trace.drop_last();
        assert(head.len() * block <= trace.len() * block) by (nonlinear_arith)
            requires
                head.len() <= trace.len(),
        ;
        assert(trace.len() * block == head.len() * block + block) by (nonlinear_arith)
            requires
                trace.len() == head.len() + 1,
        ;
        assert forall|i: int| 0 <= i < head.len() implies #[trigger] head[i] == WriteOutcome::Wrote(
            block,
        ) by {
            assert(head[i] == trace[i]);
        }
        lemma_whole_blocks(w, head, block);
        lemma_worker_keeps_target(w, head);
        assert(trace.last() == trace[trace.len() - 1]);
    }
}

/// Wiping a target of fixed size ends well, with the size rounded up to whole blocks
/// on the counter: one progress delta of a whole block for each block begun, then
/// the terminal event. The counter passes the size by less than one block.
pub proof fn lemma_fixed_target_total(w: WorkerView, trace: Seq<WriteOutcome>, size: nat, block: usize)
    requires
        w.status is Started,
        w.written == 0,
        block > 0,
        fills_fixed_target(trace, size, block),
        rounded_up(size, block as nat) <= u64::MAX,
    ensures
        run(w, trace).status is FinishedOk,
        run(w, trace).written == rounded_up(size, block as nat),
        size <= run(w, trace).written < size + block,
        told(w, trace).len() == trace.len(),
        trace.len() - 1 == rounded_up(size, block as nat) / (block as nat),
        forall|i: int|
            0 <= i < trace.len() - 1 ==> #[trigger] told(w, trace)[i] == (EventView::Delta {
                target: w.id,
                bytes: block as u64,
            }),
        told(w, trace).last() is Terminal,
{
    let head = trace.drop_last();
    let k: int = head.len() as int;
    let b: int = block as int;
    let s: int = size as int;
    crate::buffer::lemma_padding_aligns(s, b);
    let top: int = rounded_up(size, block as nat) as int;
    // k * b is a multiple of b in [s, s + b), and so is top: they are one number.
    assert(k * b >= s);
    assert(k * b < s + b) by {
        if k > 0 {
            assert(trace[k - 1] == WriteOutcome::Wrote(block));
            assert((k - 1) * b < s);
            assert(k * b == (k - 1) * b + b) by (nonlinear_arith);
        } else {
            assert(k * b == 0) by (nonlinear_arith)
                requires
                    k == 0,
            ;
        }
    }
    vstd::arithmetic::div_mod::lemma_fundamental_div_mod(top, b);
    assert(top == b * (top / b));
    let q: int = top / b;
    assert(k == q) by (nonlinear_arith)
        requires
            b > 0,
            s <= k * b < s + b,
            s <= b * q < s + b,
    ;
    assert(k * b == top) by (nonlinear_arith)
        requires
            k == q,
            top == b * q,
    ;
    assert forall|i: int| 0 <= i < head.len() implies #[trigger] head[i] == WriteOutcome::Wrote(
        block,
    ) by {
        assert(head[i] == trace[i]);
    }
    lemma_whole_blocks(w, head, block);
    lemma_worker_keeps_target(w, head);
    assert(trace.last() == trace[trace.len() - 1]);
    assert(top / b == k);
}

} // verus!
