//! The execution stage: runs bounded batches of blocks through the executor's
//! outcomes and commits each batch, with its checkpoint, all at once.
use vstd::prelude::*;
use crate::thresholds::{
    add_block, totals_of, zero_totals, BatchTotals, BlockCost, ExecutionStageThresholds,
    SpecTotals,
};

verus! {

/// What the execution stage stored for one block.
#[derive(Clone, Copy, Debug, PartialEq, Eq)]
pub struct Receipt {
    pub block: u64,
    pub cost: BlockCost,
}

/// Storage as the execution stage sees it: its checkpoint and one receipt for
/// each block from 1 up to that checkpoint.
#[derive(Clone, Debug, PartialEq, Eq)]
pub struct ExecutionStore {
    pub checkpoint: u64,
    pub receipts: Vec<Receipt>,
}

/// The storage-visible state of an [`ExecutionStore`].
pub struct StoreView {
    pub checkpoint: int,
    pub receipts: Seq<Receipt>,
}

/// Receipts numbered from `cp + 1` for the costs `s`.
pub open spec fn receipts_from(cp: int, s: Seq<BlockCost>) -> Seq<Receipt> {
    Seq::new(s.len(), |j: int| Receipt { block: (cp + j + 1) as u64, cost: s[j] })
}

/// A well-formed store view: receipt `i` is for block `i + 1`, up to the checkpoint.
pub open spec fn view_wf(v: StoreView) -> bool {
    &&& v.receipts.len() == v.checkpoint
    &&& forall|i: int| 0 <= i < v.receipts.len() ==> (#[trigger] v.receipts[i]).block == i + 1
}

/// The view after unwinding to `target`: nothing above `target` is left.
pub open spec fn unwound(v: StoreView, target: int) -> StoreView {
    if target >= v.checkpoint {
        v
    } else {
        StoreView { checkpoint: target, receipts: v.receipts.take(target) }
    }
}

/// The view after committing a batch with the costs `s` on top of `v`.
pub open spec fn committed(v: StoreView, s: Seq<BlockCost>) -> StoreView {
    StoreView {
        checkpoint: v.checkpoint + s.len(),
        receipts: v.receipts + receipts_from(v.checkpoint, s),
    }
}

impl View for ExecutionStore {
    type V = StoreView;

    open spec fn view(&self) -> StoreView {
        StoreView { checkpoint: self.checkpoint as int, receipts: self.receipts@ }
    }
}

impl ExecutionStore {
    pub open spec fn wf(&self) -> bool {
        view_wf(self@)
    }

    /// A store on which nothing was executed.
    pub fn new() -> (r: Self)
        ensures
            r.wf(),
            r@.checkpoint == 0,
            r@.receipts.len() == 0,
    {
        ExecutionStore { checkpoint: 0, receipts: Vec::new() }
    }

    /// Removes every receipt above `target` and lowers the checkpoint to it; a
    /// target at or above the checkpoint changes nothing. Returns the new checkpoint.
    pub fn unwind(&mut self, target: u64) -> (r: u64)
        requires
            old(self).wf(),
        ensures
            final(self).wf(),
            final(self)@ == unwound(old(self)@, target as int),
            r == final(self).checkpoint,
            r as int == if target < old(self).checkpoint { target } else { old(self).checkpoint },
    {
        if target < self.checkpoint {
            self.receipts.truncate(target as usize);
            self.checkpoint = target;
        }
        self.checkpoint
    }
}

/// The executor's cost for a block, or zero where it failed.
pub open spec fn cost_at(o: Option<BlockCost>) -> BlockCost {
    match o {
        Some(c) => c,
        None => BlockCost { changes: 0, gas: 0, duration_ms: 0 },
    }
}

pub open spec fn costs_of(s: Seq<Option<BlockCost>>) -> Seq<BlockCost> {
    s.map_values(|o: Option<BlockCost>| cost_at(o))
}

/// How a batch ends: committing its first blocks, or failing at a block.
pub enum ScanEnd {
    Commit(int),
    Fail(int),
}

/// The batch over the executor outcomes `s`, from position `i` with the
/// totals `t` so far. A block whose execution failed ends it with an error;
/// otherwise it ends after the first block whose totals reach a bound, or at
/// the end of `s`.
pub open spec fn scan(
    th: ExecutionStageThresholds,
    s: Seq<Option<BlockCost>>,
    i: int,
    t: SpecTotals,
) -> ScanEnd
    decreases s.len() - i,
{
    if i >= s.len() || i < 0 {
        ScanEnd::Commit(i)
    } else {
        match s[i] {
            None => ScanEnd::Fail(i),
            Some(c) => if th.ends(add_block(t, c)) {
                ScanEnd::Commit(i + 1)
            } else {
                scan(th, s, i + 1, add_block(t, c))
            },
        }
    }
}

/// The batch over the whole of `s`.
pub open spec fn batch_of(th: ExecutionStageThresholds, s: Seq<Option<BlockCost>>) -> ScanEnd {
    scan(th, s, 0, zero_totals())
}

/// Outcome of one call of [`ExecutionStage::execute`].
#[derive(Clone, Copy, Debug, PartialEq, Eq)]
pub struct ExecOutput {
    /// The checkpoint after the call.
    pub checkpoint: u64,
    /// Whether the target was reached.
    pub done: bool,
}

/// Tells the extension hooks that the blocks `from..=to` were committed.
#[derive(Clone, Copy, Debug, PartialEq, Eq)]
pub struct ExExNotification {
    pub from: u64,
    pub to: u64,
}

/// The notification for a batch of `k` blocks committed on top of `cp`: one
/// where the batch holds blocks, none where it is empty.
pub open spec fn batch_notice(cp: int, k: int) -> Seq<ExExNotification> {
    if k > 0 {
        seq![ExExNotification { from: (cp + 1) as u64, to: (cp + k) as u64 }]
    } else {
        Seq::empty()
    }
}

/// A failure of the execution stage.
#[derive(Clone, Copy, Debug, PartialEq, Eq)]
pub enum ExecutionError {
    /// The executor failed on this block.
    BlockFailed { block: u64 },
}

/// The execution stage and its batch bounds.
#[derive(Clone, Copy, Debug, PartialEq, Eq)]
pub struct ExecutionStage {
    pub thresholds: ExecutionStageThresholds,
}

/// How many outcomes a range from `cp + 1` to `target` holds.
pub open spec fn range_len(cp: int, target: int) -> int {
    if target > cp { target - cp } else { 0 }
}

impl ExecutionStage {
    pub fn new(thresholds: ExecutionStageThresholds) -> (r: Self)
        ensures
            r.thresholds == thresholds,
    {
        ExecutionStage { thresholds }
    }

    /// Runs one batch from `checkpoint + 1` toward `target`, where
    /// `outcomes[j]` is what the executor made of block `checkpoint + 1 + j`.
    /// The batch stops after the first block whose totals reach a bound, so it
    /// holds at least one block whenever the range is not empty. Its receipts
    /// and the new checkpoint are written together, and the extension hooks
    /// are told of the batch on `exex`; where a block of the batch failed,
    /// nothing is written and nothing is sent.
    pub fn execute(
        &self,
        store: &mut ExecutionStore,
        exex: &mut Vec<ExExNotification>,
        target: u64,
        outcomes: &Vec<Option<BlockCost>>,
    ) -> (r: Result<ExecOutput, ExecutionError>)
        requires
            old(store).wf(),
            outcomes@.len() == range_len(old(store).checkpoint as int, target as int),
        ensures
            final(store).wf(),
            final(store).checkpoint >= old(store).checkpoint,
            match batch_of(self.thresholds, outcomes@) {
                ScanEnd::Commit(k) => {
                    &&& final(store)@ == committed(old(store)@, costs_of(outcomes@.take(k)))
                    &&& final(exex)@ == old(exex)@ + batch_notice(old(store).checkpoint as int, k)
                    &&& r == Ok::<ExecOutput, ExecutionError>(
                        ExecOutput {
                            checkpoint: final(store).checkpoint,
                            done: final(store).checkpoint >= target,
                        },
                    )
                },
                ScanEnd::Fail(f) => {
                    &&& *final(store) == *old(store)
                    &&& final(exex)@ == old(exex)@
                    &&& r == Err::<ExecOutput, ExecutionError>(
                        ExecutionError::BlockFailed { block: (old(store).checkpoint + f + 1) as u64 },
                    )
                },
            },
    {
        let cp = store.checkpoint;
        let n = outcomes.len();
        let ghost s = outcomes@;
        let mut totals = BatchTotals::zero();
        let ghost mut gt = zero_totals();
        let mut batch: Vec<Receipt> = Vec::new();
        let mut i: usize = 0;
        let mut stop = false;
        while i < n && !stop
            invariant
                n == s.len(),
                s == outcomes@,
                *store == *old(store),
                *exex == *old(exex),
                store.wf(),
                cp == store.checkpoint,
                cp + n <= u64::MAX,
                0 <= i <= n,
                totals.tracks(gt),
                forall|j: int| 0 <= j < i ==> (#[trigger] s[j]) is Some,
                gt == totals_of(costs_of(s.take(i as int))),
                batch@ == receipts_from(cp as int, costs_of(s.take(i as int))),
                stop ==> batch_of(self.thresholds, s) == ScanEnd::Commit(i as int),
                !stop ==> batch_of(self.thresholds, s) == scan(self.thresholds, s, i as int, gt),
            decreases n - i,
        {
            match outcomes[i] {
                None => {
                    return Err(ExecutionError::BlockFailed { block: cp + i as u64 + 1 });
                },
                Some(c) => {
                    proof {
                        assert(costs_of(s.take(i + 1)).drop_last() =~= costs_of(s.take(i as int)));
                        assert(receipts_from(cp as int, costs_of(s.take(i + 1))) =~= receipts_from(
                            cp as int,
                            costs_of(s.take(i as int)),
                        ).push(Receipt { block: (cp + i + 1) as u64, cost: c }));
                    }
                    batch.push(Receipt { block: cp + i as u64 + 1, cost: c });
                    totals = totals.add(&c);
                    proof {
                        gt = add_block(gt, c);
                    }
                    i = i + 1;
                    if self.thresholds.is_end_of_batch(&totals) {
                        stop = true;
                    }
                },
            }
        }
        proof {
            if !stop {
                assert(i == n);
            }
            assert forall|j: int| 0 <= j < i implies #[trigger] batch@[j].block == cp + j + 1 by {}
        }
        store.receipts.append(&mut batch);
        store.checkpoint = cp + i as u64;
        if i > 0 {
            exex.push(ExExNotification { from: cp + 1, to: cp + i as u64 });
        }
        assert(exex@ =~= old(exex)@ + batch_notice(cp as int, i as int));
        proof {
            assert forall|j: int| 0 <= j < store.receipts@.len() implies (
            #[trigger] store.receipts@[j]).block == j + 1 by {
                if j >= cp {
                    assert(store.receipts@[j] == receipts_from(
                        cp as int,
                        costs_of(s.take(i as int)),
                    )[j - cp]);
                }
            }
        }
        Ok(ExecOutput { checkpoint: store.checkpoint, done: store.checkpoint >= target })
    }
}

/// Totals of the first `j` outcomes of `s`.
pub open spec fn prefix_totals(s: Seq<Option<BlockCost>>, j: int) -> SpecTotals {
    totals_of(costs_of(s.take(j)))
}

proof fn lemma_prefix_step(s: Seq<Option<BlockCost>>, j: int)
    requires
        0 <= j < s.len(),
    ensures
        prefix_totals(s, j + 1) == add_block(prefix_totals(s, j), cost_at(s[j])),
{
    assert(costs_of(s.take(j + 1)).drop_last() =~= costs_of(s.take(j)));
}

proof fn lemma_scan_shape(th: ExecutionStageThresholds, s: Seq<Option<BlockCost>>, i: int)
    requires
        0 <= i <= s.len(),
        forall|j: int| 0 <= j < i ==> (#[trigger] s[j]) is Some,
        forall|j: int| 1 <= j <= i ==> !th.ends(#[trigger] prefix_totals(s, j)),
    ensures
        scan(th, s, i, prefix_totals(s, i)) matches ScanEnd::Commit(k) ==> {
            &&& i <= k <= s.len()
            &&& forall|j: int| 0 <= j < k ==> (#[trigger] s[j]) is Some
            &&& forall|j: int| 1 <= j < k ==> !th.ends(#[trigger] prefix_totals(s, j))
            &&& k < s.len() ==> th.ends(prefix_totals(s, k))
        },
    decreases s.len() - i,
{
    if i < s.len() {
        lemma_prefix_step(s, i);
        if let Some(c) = s[i] {
            if !th.ends(add_block(prefix_totals(s, i), c)) {
                lemma_scan_shape(th, s, i + 1);
            }
        }
    }
}

/// A batch ends only at a block whose totals reach a bound (or at the end of
/// the range), and before that block no bound was reached. So none of the
/// batch's totals goes past a configured bound by more than what the last
/// block of the batch added to it.
pub proof fn lemma_batch_overshoot(th: ExecutionStageThresholds, s: Seq<Option<BlockCost>>, k: int)
    requires
        batch_of(th, s) == ScanEnd::Commit(k),
        s.len() > 0,
    ensures
        1 <= k <= s.len(),
        forall|j: int| 1 <= j < k ==> !th.ends(#[trigger] prefix_totals(s, j)),
        k < s.len() ==> th.ends(prefix_totals(s, k)),
        ({
            let t = prefix_totals(s, k);
            let last = cost_at(s[k - 1]);
            &&& th.max_blocks matches Some(m) ==> t.blocks <= m + 1
            &&& th.max_changes matches Some(m) ==> t.changes <= m + last.changes
            &&& th.max_cumulative_gas matches Some(m) ==> t.gas <= m + last.gas
            &&& th.max_duration_ms matches Some(m) ==> t.duration_ms <= m + last.duration_ms
        }),
{
    assert(costs_of(s.take(0)) =~= Seq::<BlockCost>::empty());
    lemma_scan_shape(th, s, 0);
    lemma_prefix_step(s, k - 1);
    if k >= 2 {
        assert(!th.ends(prefix_totals(s, k - 1)));
    }
}

/// Unwinding to the checkpoint a batch started from takes the store back to
/// exactly what it was before the batch.
pub proof fn lemma_unwind_inverts_commit(v: StoreView, s: Seq<BlockCost>)
    requires
        view_wf(v),
    ensures
        unwound(committed(v, s), v.checkpoint) == v,
{
    if s.len() > 0 {
        assert(committed(v, s).receipts.take(v.checkpoint) =~= v.receipts);
    }
}

/// Whatever was executed, unwinding to zero leaves the store of a chain on
/// which nothing was executed.
pub proof fn lemma_unwind_to_genesis(v: StoreView)
    requires
        view_wf(v),
    ensures
        unwound(v, 0).checkpoint == 0,
        unwound(v, 0).receipts =~= Seq::<Receipt>::empty(),
{
}

/// Unwinding twice to the same block changes nothing the second time.
pub proof fn lemma_unwind_idempotent(v: StoreView, target: int)
    requires
        view_wf(v),
        target >= 0,
    ensures
        unwound(unwound(v, target), target) == unwound(v, target),
{
}

/// A batch only appends to what is stored: the earlier receipts stay as they
/// were, and the store stays well formed.
pub proof fn lemma_commit_extends(v: StoreView, s: Seq<BlockCost>)
    requires
        view_wf(v),
        v.checkpoint + s.len() <= u64::MAX,
    ensures
        view_wf(committed(v, s)),
        committed(v, s).checkpoint >= v.checkpoint,
        committed(v, s).receipts.take(v.checkpoint) =~= v.receipts,
{
    let w = committed(v, s);
    assert forall|i: int| 0 <= i < w.receipts.len() implies (#[trigger] w.receipts[i]).block == i
        + 1 by {
        if i >= v.receipts.len() {
            assert(w.receipts[i] == receipts_from(v.checkpoint, s)[i - v.checkpoint]);
        }
    }
}

/// Committing a batch and then, from the checkpoint it left, the next one
/// gives the same store as one uninterrupted batch over both: a run that
/// stopped after a commit and resumed from the persisted checkpoint ends
/// where a run without the stop would have ended.
pub proof fn lemma_resume_matches_uninterrupted(v: StoreView, a: Seq<BlockCost>, b: Seq<BlockCost>)
    requires
        view_wf(v),
    ensures
        committed(committed(v, a), b) == committed(v, a + b),
{
    let w = committed(committed(v, a), b);
    let u = committed(v, a + b);
    assert(receipts_from(v.checkpoint, a) + receipts_from(v.checkpoint + a.len(), b)
        =~= receipts_from(v.checkpoint, a + b));
    assert(w.receipts =~= u.receipts);
}

/// The sizes of the batches that run the outcomes `s` to their end, one
/// batch after the other; `None` where a block fails on the way.
pub open spec fn batch_sizes(th: ExecutionStageThresholds, s: Seq<Option<BlockCost>>) -> Option<
    Seq<int>,
>
    decreases s.len(),
{
    if s.len() == 0 {
        Some(Seq::empty())
    } else {
        match batch_of(th, s) {
            ScanEnd::Commit(k) => if 1 <= k <= s.len() {
                prepend(seq![k], batch_sizes(th, s.skip(k)))
            } else {
                None
            },
            ScanEnd::Fail(_) => None,
        }
    }
}

/// The number of blocks in batches of the given sizes.
pub open spec fn total(sizes: Seq<int>) -> int
    decreases sizes.len(),
{
    if sizes.len() == 0 {
        0
    } else {
        total(sizes.drop_last()) + sizes.last()
    }
}

/// The notifications for batches of the given sizes, committed one after the
/// other on top of `cp`.
pub open spec fn notices(cp: int, sizes: Seq<int>) -> Seq<ExExNotification>
    decreases sizes.len(),
{
    if sizes.len() == 0 {
        Seq::empty()
    } else {
        notices(cp, sizes.drop_last()) + batch_notice(cp + total(sizes.drop_last()), sizes.last())
    }
}

pub open spec fn prepend(p: Seq<int>, o: Option<Seq<int>>) -> Option<Seq<int>> {
    match o {
        Some(r) => Some(p + r),
        None => None,
    }
}

fn tail(v: &Vec<Option<BlockCost>>, start: usize) -> (r: Vec<Option<BlockCost>>)
    requires
        start <= v@.len(),
    ensures
        r@ == v@.skip(start as int),
{
    let mut r: Vec<Option<BlockCost>> = Vec::new();
    let mut i: usize = start;
    while i < v.len()
        invariant
            start <= i <= v@.len(),
            r@ == v@.subrange(start as int, i as int),
        decreases v@.len() - i,
    {
        r.push(v[i]);
        proof {
            assert(v@.subrange(start as int, i + 1) =~= v@.subrange(start as int, i as int).push(v@[i as int]));
        }
        i = i + 1;
    }
    assert(v@.subrange(start as int, v@.len() as int) =~= v@.skip(start as int));
    r
}

impl ExecutionStage {
    /// Calls [`ExecutionStage::execute`] until the stage reports that `target`
    /// is reached, as the pipeline does with a stage that is not yet done, and
    /// returns the size of each batch. Where a block fails, the batches before
    /// it stay committed and the error is returned.
    pub fn run_to_target(
        &self,
        store: &mut ExecutionStore,
        exex: &mut Vec<ExExNotification>,
        target: u64,
        outcomes: &Vec<Option<BlockCost>>,
    ) -> (r: Result<Vec<u64>, ExecutionError>)
        requires
            old(store).wf(),
            outcomes@.len() == range_len(old(store).checkpoint as int, target as int),
        ensures
            final(store).wf(),
            final(store).checkpoint >= old(store).checkpoint,
            match batch_sizes(self.thresholds, outcomes@) {
                Some(sizes) => {
                    &&& r matches Ok(v) && v@.map_values(|x: u64| x as int) == sizes
                    &&& final(store)@ == committed(old(store)@, costs_of(outcomes@))
                    &&& final(exex)@ == old(exex)@ + notices(old(store).checkpoint as int, sizes)
                },
                None => r is Err,
            },
    {
        let ghost s = outcomes@;
        let ghost v0 = store@;
        let cp0 = store.checkpoint;
        let n = outcomes.len();
        let mut sizes: Vec<u64> = Vec::new();
        assert(s.skip(0) =~= s);
        assert(sizes@.map_values(|x: u64| x as int) =~= Seq::<int>::empty());
        assert(costs_of(s.take(0)) =~= Seq::<BlockCost>::empty());
        assert(committed(v0, Seq::<BlockCost>::empty()).receipts =~= v0.receipts);
        while store.checkpoint - cp0 < n as u64
            invariant
                store.wf(),
                s == outcomes@,
                n == s.len(),
                cp0 == v0.checkpoint,
                v0 == old(store)@,
                view_wf(v0),
                cp0 + n <= u64::MAX,
                cp0 <= store.checkpoint <= cp0 + n,
                n == range_len(cp0 as int, target as int),
                store@ == committed(v0, costs_of(s.take(store.checkpoint - cp0))),
                total(sizes@.map_values(|x: u64| x as int)) == store.checkpoint - cp0,
                exex@ == old(exex)@ + notices(cp0 as int, sizes@.map_values(|x: u64| x as int)),
                batch_sizes(self.thresholds, s) == prepend(
                    sizes@.map_values(|x: u64| x as int),
                    batch_sizes(self.thresholds, s.skip(store.checkpoint - cp0)),
                ),
            decreases n - (store.checkpoint - cp0),
        {
            let a = (store.checkpoint - cp0) as usize;
            let rest = tail(outcomes, a);
            let ghost before = store@;
            proof {
                if let ScanEnd::Commit(k) = batch_of(self.thresholds, rest@) {
                    lemma_batch_overshoot(self.thresholds, rest@, k);
                    assert(rest@.skip(k) =~= s.skip(a + k));
                    assert(costs_of(s.take(a as int)) + costs_of(rest@.take(k)) =~= costs_of(
                        s.take(a + k),
                    ));
                    lemma_resume_matches_uninterrupted(v0, costs_of(s.take(a as int)), costs_of(rest@.take(k)));
                }
            }
            match self.execute(store, exex, target, &rest) {
                Ok(_) => {
                    let size = store.checkpoint - cp0 - a as u64;
                    proof {
                        let m = |x: u64| x as int;
                        let z = sizes@.map_values(m);
                        let z2 = sizes@.push(size).map_values(m);
                        assert(z2 =~= z + seq![size as int]);
                        assert(z2.drop_last() =~= z);
                        assert(exex@ =~= old(exex)@ + notices(cp0 as int, z2));
                    }
                    sizes.push(size);
                },
                Err(e) => {
                    return Err(e);
                },
            }
        }
        proof {
            assert(s.take(n as int) =~= s);
            assert(s.skip(n as int).len() == 0);
            assert(sizes@.map_values(|x: u64| x as int) + Seq::<int>::empty() =~= sizes@.map_values(
                |x: u64| x as int,
            ));
        }
        Ok(sizes)
    }
}

} // verus!
