//! Downloads: which file each clip goes to, the order in which batches of
//! transfers run, and the decisions within one streamed transfer.

use vstd::prelude::*;

use crate::error::FetchError;
use crate::resolver::{best_source_index, is_best_index, SourceFile};

verus! {

/// Where one clip's best rendition comes from, and the name of the file it goes to.
pub struct DownloadTask {
    pub target_url: String,
    pub file_name: String,
}

/// The file name of a clip: its identifier followed by `.mp4`.
pub open spec fn clip_file_name(clip_id: Seq<char>) -> Seq<char> {
    clip_id + seq!['.', 'm', 'p', '4']
}

/// Picks the best rendition of a clip and names its file; fails with
/// `NoSourceFound` when the clip offers no rendition.
pub fn plan_clip_download(clip_id: &str, sources: &Vec<SourceFile>) -> (r: Result<
    DownloadTask,
    FetchError,
>)
    ensures
        match r {
            Ok(task) => task.file_name@ == clip_file_name(clip_id@) && exists|i: int|
                is_best_index(sources@, i) && task.target_url@ == (#[trigger] sources@[i]).url@,
            Err(e) => e == FetchError::NoSourceFound && sources@.len() == 0,
        },
{
    match best_source_index(sources) {
        None => Err(FetchError::NoSourceFound),
        Some(i) => {
            let mut file_name = String::from_str(clip_id);
            proof {
                reveal_strlit(".mp4");
            }
            file_name.append(".mp4");
            Ok(DownloadTask { target_url: sources[i].url.clone(), file_name })
        },
    }
}

/// The outcome of one task.
pub type TaskOutcome = Result<(), FetchError>;

/// The batch that follows once `settled` tasks out of `total` have settled: the
/// next `chunk` tasks, or those that are left; none once all have settled.
pub open spec fn batch_bounds(settled: int, total: int, chunk: int) -> Option<(int, int)> {
    if settled >= total {
        None
    } else {
        Some(
            (
                settled,
                if settled + chunk < total {
                    settled + chunk
                } else {
                    total
                },
            ),
        )
    }
}

/// The outcomes settled after `k` batches, where task `i` ends with `outcomes[i]`.
pub open spec fn settled_after(outcomes: Seq<TaskOutcome>, chunk: int, k: nat) -> Seq<TaskOutcome>
    decreases k,
{
    if k == 0 {
        seq![]
    } else {
        let before = settled_after(outcomes, chunk, (k - 1) as nat);
        match batch_bounds(before.len() as int, outcomes.len() as int, chunk) {
            Some((lo, hi)) => before + outcomes.subrange(lo, hi),
            None => before,
        }
    }
}

/// How many tasks succeeded.
pub open spec fn count_succeeded(outcomes: Seq<TaskOutcome>) -> nat
    decreases outcomes.len(),
{
    if outcomes.len() == 0 {
        0
    } else {
        count_succeeded(outcomes.drop_last()) + if outcomes.last() is Ok {
            1nat
        } else {
            0nat
        }
    }
}

/// The positions of the tasks that failed, in order.
pub open spec fn failed_positions(outcomes: Seq<TaskOutcome>) -> Seq<int>
    decreases outcomes.len(),
{
    if outcomes.len() == 0 {
        seq![]
    } else {
        failed_positions(outcomes.drop_last()) + if outcomes.last() is Err {
            seq![outcomes.len() - 1]
        } else {
            Seq::<int>::empty()
        }
    }
}

pub open spec fn min(a: int, b: int) -> int {
    if a < b {
        a
    } else {
        b
    }
}

/// Batches run one after the other, whatever their outcomes: after `k` batches
/// exactly the first `min(k * chunk, total)` tasks have settled, and the next
/// batch, if any, starts right after them and ends `chunk` tasks later or at the end.
pub proof fn lemma_batches_in_order(outcomes: Seq<TaskOutcome>, chunk: int, k: nat)
    requires
        chunk > 0,
    ensures
        ({
            let n = outcomes.len() as int;
            let done = min(k * chunk, n);
            &&& settled_after(outcomes, chunk, k) == outcomes.subrange(0, done)
            &&& batch_bounds(done, n, chunk) == if k * chunk < n {
                Some((k * chunk, min((k + 1) * chunk, n)))
            } else {
                None::<(int, int)>
            }
        }),
    decreases k,
{
    let n = outcomes.len() as int;
    assert((k + 1) * chunk == k * chunk + chunk) by (nonlinear_arith);
    assert(k * chunk >= 0) by (nonlinear_arith)
        requires
            chunk > 0,
    ;
    if k == 0 {
        assert(k * chunk == 0) by (nonlinear_arith)
            requires
                k == 0,
        ;
        assert(outcomes.subrange(0, 0) == Seq::<TaskOutcome>::empty());
    } else {
        let j = (k - 1) as nat;
        lemma_batches_in_order(outcomes, chunk, j);
        assert(k * chunk == j * chunk + chunk) by (nonlinear_arith)
            requires
                j == k - 1,
        ;
        let before = settled_after(outcomes, chunk, j);
        let done = min(j * chunk, n);
        assert(before.len() == done);
        if j * chunk < n {
            let hi = min(k * chunk, n);
            assert(batch_bounds(done, n, chunk) == Some((done, hi)));
            assert(settled_after(outcomes, chunk, k) == before + outcomes.subrange(done, hi));
            assert(before + outcomes.subrange(done, hi) == outcomes.subrange(0, hi));
        } else {
            assert(done == n);
            assert(settled_after(outcomes, chunk, k) == before);
            assert(min(k * chunk, n) == n);
        }
    }
}

/// A failing task stops nothing: whatever the outcomes, every task is handed out,
/// all of them have settled after at most one batch per task, no batch is left,
/// and the tasks counted as succeeded and listed as failed are exactly those that
/// succeeded and failed.
pub proof fn lemma_failures_isolated(outcomes: Seq<TaskOutcome>, chunk: int)
    requires
        chunk > 0,
    ensures
        settled_after(outcomes, chunk, outcomes.len()) == outcomes,
        batch_bounds(outcomes.len() as int, outcomes.len() as int, chunk) is None,
        count_succeeded(outcomes) + failed_positions(outcomes).len() == outcomes.len(),
        forall|i: int|
            0 <= i < outcomes.len() ==> (failed_positions(outcomes).contains(i) <==> (
            #[trigger] outcomes[i]) is Err),
{
    let n = outcomes.len();
    lemma_batches_in_order(outcomes, chunk, n);
    assert(n * chunk >= n) by (nonlinear_arith)
        requires
            chunk > 0,
    ;
    assert(outcomes.subrange(0, n as int) == outcomes);
    lemma_report_counts(outcomes);
}

proof fn lemma_report_counts(outcomes: Seq<TaskOutcome>)
    ensures
        count_succeeded(outcomes) + failed_positions(outcomes).len() == outcomes.len(),
        forall|i: int|
            0 <= i < outcomes.len() ==> (failed_positions(outcomes).contains(i) <==> (
            #[trigger] outcomes[i]) is Err),
        forall|k: int|
            0 <= k < failed_positions(outcomes).len() ==> 0 <= #[trigger] failed_positions(
                outcomes,
            )[k] < outcomes.len(),
    decreases outcomes.len(),
{
    if outcomes.len() > 0 {
        let init = outcomes.drop_last();
        lemma_report_counts(init);
        let fp = failed_positions(outcomes);
        let fi = failed_positions(init);
        let last = outcomes.len() - 1;
        assert forall|i: int| 0 <= i < outcomes.len() implies (fp.contains(i) <==> (
        #[trigger] outcomes[i]) is Err) by {
            if i < last {
                assert(outcomes[i] == init[i]);
                if fi.contains(i) {
                    let k = choose|k: int| 0 <= k < fi.len() && fi[k] == i;
                    assert(fp[k] == i);
                }
                if fp.contains(i) {
                    let k = choose|k: int| 0 <= k < fp.len() && fp[k] == i;
                    if k < fi.len() {
                        assert(fi[k] == i);
                    }
                }
            } else {
                if outcomes[i] is Err {
                    assert(fp[fi.len() as int] == i);
                }
                if fp.contains(i) {
                    let k = choose|k: int| 0 <= k < fp.len() && fp[k] == i;
                    if k < fi.len() {
                        assert(fi[k] == fp[k]);
                    }
                }
            }
        }
    }
}

/// The settled tasks of a batched run and the progress it reports.
pub struct BatchRun {
    total: usize,
    chunk_size: usize,
    settled: Vec<TaskOutcome>,
}

impl BatchRun {
    /// The number of tasks in the run.
    pub closed spec fn total(&self) -> int {
        self.total as int
    }

    /// The most tasks that run at once.
    pub closed spec fn chunk_size(&self) -> int {
        self.chunk_size as int
    }

    /// The outcomes of the tasks that have settled, in task order.
    pub closed spec fn settled(&self) -> Seq<TaskOutcome> {
        self.settled@
    }

    pub closed spec fn well_formed(&self) -> bool {
        self.chunk_size > 0 && self.settled@.len() <= self.total
    }

    /// A run of `total` tasks, `chunk_size` at a time, with none settled.
    pub fn new(total: usize, chunk_size: usize) -> (run: Self)
        requires
            chunk_size > 0,
        ensures
            run.well_formed(),
            run.total() == total,
            run.chunk_size() == chunk_size,
            run.settled() == Seq::<TaskOutcome>::empty(),
    {
        BatchRun { total, chunk_size, settled: Vec::new() }
    }

    /// The tasks `[lo, hi)` to start now, all together: they follow the ones that
    /// have settled. None once every task has settled.
    pub fn next_batch(&self) -> (r: Option<(usize, usize)>)
        requires
            self.well_formed(),
        ensures
            match r {
                None => batch_bounds(self.settled().len() as int, self.total(), self.chunk_size())
                    is None,
                Some((lo, hi)) => batch_bounds(
                    self.settled().len() as int,
                    self.total(),
                    self.chunk_size(),
                ) == Some((lo as int, hi as int)),
            },
    {
        let settled = self.settled.len();
        if settled >= self.total {
            None
        } else if self.chunk_size < self.total - settled {
            Some((settled, settled + self.chunk_size))
        } else {
            Some((settled, self.total))
        }
    }

    /// Records the outcomes of the whole batch that `next_batch` offered, in task
    /// order; the progress moves on by the size of the batch.
    pub fn settle_batch(&mut self, outcomes: Vec<TaskOutcome>)
        requires
            old(self).well_formed(),
            batch_bounds(
                old(self).settled().len() as int,
                old(self).total(),
                old(self).chunk_size(),
            ) matches Some((lo, hi)) && outcomes@.len() == hi - lo,
        ensures
            final(self).well_formed(),
            final(self).total() == old(self).total(),
            final(self).chunk_size() == old(self).chunk_size(),
            final(self).settled() == old(self).settled() + outcomes@,
    {
        let mut outcomes = outcomes;
        self.settled.append(&mut outcomes);
    }

    /// How many tasks have settled, successfully or not.
    pub fn progress(&self) -> (n: usize)
        ensures
            n == self.settled().len(),
    {
        self.settled.len()
    }

    /// How many settled tasks succeeded, and the positions of those that failed.
    pub fn report(&self) -> (r: BatchReport)
        ensures
            r.succeeded == count_succeeded(self.settled()),
            r.failed@.map_values(|i: usize| i as int) == failed_positions(self.settled()),
    {
        let mut succeeded: usize = 0;
        let mut failed: Vec<usize> = Vec::new();
        let mut i: usize = 0;
        while i < self.settled.len()
            invariant
                i <= self.settled@.len(),
                succeeded == count_succeeded(self.settled@.subrange(0, i as int)),
                failed@.map_values(|k: usize| k as int) == failed_positions(
                    self.settled@.subrange(0, i as int),
                ),
            decreases self.settled@.len() - i,
        {
            let ghost prefix = self.settled@.subrange(0, i as int + 1);
            let ghost failed_before = failed@.map_values(|k: usize| k as int);
            assert(prefix.drop_last() == self.settled@.subrange(0, i as int));
            proof {
                lemma_count_bounded(self.settled@.subrange(0, i as int));
            }
            match self.settled[i] {
                Ok(_) => {
                    succeeded = succeeded + 1;
                },
                Err(_) => {
                    failed.push(i);
                    assert(failed@.map_values(|k: usize| k as int) == failed_before.push(i as int));
                },
            }
            i = i + 1;
        }
        assert(self.settled@.subrange(0, i as int) == self.settled@);
        BatchReport { succeeded, failed }
    }
}

proof fn lemma_count_bounded(outcomes: Seq<TaskOutcome>)
    ensures
        count_succeeded(outcomes) <= outcomes.len(),
    decreases outcomes.len(),
{
    if outcomes.len() > 0 {
        lemma_count_bounded(outcomes.drop_last());
    }
}

/// What a batched run reports: how many tasks succeeded, and which failed.
pub struct BatchReport {
    pub succeeded: usize,
    pub failed: Vec<usize>,
}

/// Where a streamed transfer stands.
#[derive(Clone, Copy, Debug, PartialEq, Eq, Structural)]
pub enum TransferStage {
    /// The request for the file has been sent.
    Requesting,
    /// The response came; the destination file is being created.
    Opening,
    /// Waiting for the next piece of the body.
    Streaming,
    /// A piece of the body is being written.
    Writing,
    /// The transfer is over.
    Finished,
}

/// What happened since the last action.
#[derive(Clone, Copy, Debug, PartialEq, Eq, Structural)]
pub enum TransferEvent {
    Responded,
    RequestFailed,
    FileCreated,
    CreateFailed,
    ChunkArrived,
    StreamFailed,
    StreamEnded,
    ChunkWritten,
    WriteFailed,
}

/// What to do next.
#[derive(Clone, Copy, Debug, PartialEq, Eq)]
pub enum TransferAction {
    /// Create (or truncate) the destination file.
    CreateFile,
    /// Wait for the next piece of the body.
    ReadChunk,
    /// Append the piece that arrived to the file.
    WriteChunk,
    /// Stop: the file is complete, or the transfer failed and whatever was
    /// written stays as it is.
    Finish(TaskOutcome),
}

/// The stage and action that follow an event. A piece is written before the next
/// is read, so the file receives the body in the order it arrives; any failure ends
/// the transfer at once, and so does an event that does not fit the stage.
pub open spec fn transfer_next(stage: TransferStage, event: TransferEvent) -> (
    TransferStage,
    TransferAction,
) {
    let failed = (TransferStage::Finished, TransferAction::Finish(Err(FetchError::TransferFailed)));
    match (stage, event) {
        (TransferStage::Requesting, TransferEvent::Responded) => (
            TransferStage::Opening,
            TransferAction::CreateFile,
        ),
        (TransferStage::Opening, TransferEvent::FileCreated) => (
            TransferStage::Streaming,
            TransferAction::ReadChunk,
        ),
        (TransferStage::Streaming, TransferEvent::ChunkArrived) => (
            TransferStage::Writing,
            TransferAction::WriteChunk,
        ),
        (TransferStage::Streaming, TransferEvent::StreamEnded) => (
            TransferStage::Finished,
            TransferAction::Finish(Ok(())),
        ),
        (TransferStage::Writing, TransferEvent::ChunkWritten) => (
            TransferStage::Streaming,
            TransferAction::ReadChunk,
        ),
        _ => failed,
    }
}

/// One streamed transfer of a file to disk.
pub struct Transfer {
    pub stage: TransferStage,
}

impl Transfer {
    /// A transfer whose request has just been sent.
    pub fn new() -> (t: Self)
        ensures
            t.stage == TransferStage::Requesting,
    {
        Transfer { stage: TransferStage::Requesting }
    }

    /// Moves on after `event` and says what to do next.
    pub fn on_event(&mut self, event: TransferEvent) -> (action: TransferAction)
        ensures
            (final(self).stage, action) == transfer_next(old(self).stage, event),
    {
        let failed = TransferAction::Finish(Err(FetchError::TransferFailed));
        let (stage, action) = match (self.stage, event) {
            (TransferStage::Requesting, TransferEvent::Responded) => (
                TransferStage::Opening,
                TransferAction::CreateFile,
            ),
            (TransferStage::Opening, TransferEvent::FileCreated) => (
                TransferStage::Streaming,
                TransferAction::ReadChunk,
            ),
            (TransferStage::Streaming, TransferEvent::ChunkArrived) => (
                TransferStage::Writing,
                TransferAction::WriteChunk,
            ),
            (TransferStage::Streaming, TransferEvent::StreamEnded) => (
                TransferStage::Finished,
                TransferAction::Finish(Ok(())),
            ),
            (TransferStage::Writing, TransferEvent::ChunkWritten) => (
                TransferStage::Streaming,
                TransferAction::ReadChunk,
            ),
            _ => (TransferStage::Finished, failed),
        };
        self.stage = stage;
        action
    }
}

} // verus!
