//! The pipeline: an ordered list of stages with one checkpoint each. It says
//! which stage runs next and over which range, records what a stage reports,
//! and unwinds the stages in reverse order.
use vstd::prelude::*;

verus! {

/// Identifies a stage; stages run in the order of [`StageId::rank`].
#[derive(Clone, Copy, Debug, PartialEq, Eq, Hash)]
pub enum StageId {
    Headers,
    Bodies,
    SenderRecovery,
    Execution,
    Finish,
}

impl StageId {
    pub open spec fn spec_rank(self) -> int {
        match self {
            StageId::Headers => 0,
            StageId::Bodies => 1,
            StageId::SenderRecovery => 2,
            StageId::Execution => 3,
            StageId::Finish => 4,
        }
    }

    /// Position of the stage in the dependency order.
    pub fn rank(&self) -> (r: u8)
        ensures
            r as int == self.spec_rank(),
    {
        match self {
            StageId::Headers => 0,
            StageId::Bodies => 1,
            StageId::SenderRecovery => 2,
            StageId::Execution => 3,
            StageId::Finish => 4,
        }
    }
}

/// The stages in their dependency order.
pub open spec fn spec_default_stages() -> Seq<StageId> {
    seq![
        StageId::Headers,
        StageId::Bodies,
        StageId::SenderRecovery,
        StageId::Execution,
        StageId::Finish,
    ]
}

/// The default stage set: header sync, body sync, sender recovery, execution
/// and the final stage.
pub fn default_stages() -> (r: Vec<StageId>)
    ensures
        r@ == spec_default_stages(),
{
    let r = vec![
        StageId::Headers,
        StageId::Bodies,
        StageId::SenderRecovery,
        StageId::Execution,
        StageId::Finish,
    ];
    assert(r@ =~= spec_default_stages());
    r
}

/// A notification of the pipeline's progress.
#[derive(Clone, Copy, Debug, PartialEq, Eq)]
pub enum PipelineEvent {
    StageStarted { stage: StageId, from: u64, to: u64 },
    StageCheckpoint { stage: StageId, checkpoint: u64 },
    StageUnwound { stage: StageId, checkpoint: u64 },
    RunFinished { tip: u64 },
}

/// The blocks a stage is to process next: `from..=to`.
#[derive(Clone, Copy, Debug, PartialEq, Eq)]
pub struct StageRange {
    pub index: usize,
    pub stage: StageId,
    pub from: u64,
    pub to: u64,
}

#[derive(Clone, Copy, Debug, PartialEq, Eq)]
pub enum PipelineError {
    /// The stage at this position is out of dependency order, or repeated.
    StageOrder { index: usize },
    /// There is not one checkpoint for each stage.
    CheckpointCount,
    /// The stage at this position is ahead of the stage before it.
    CheckpointAhead { index: usize },
    /// No stage at this position.
    UnknownStage { index: usize },
    /// A stage reported a checkpoint outside the range it was given.
    CheckpointOutOfRange { index: usize, checkpoint: u64 },
}

/// Stages strictly ordered by rank.
pub open spec fn stages_ordered(s: Seq<StageId>) -> bool {
    forall|i: int| 0 < i < s.len() ==> s[i - 1].spec_rank() < (#[trigger] s[i]).spec_rank()
}

/// No stage is ahead of the stage before it.
pub open spec fn checkpoints_ordered(c: Seq<u64>) -> bool {
    forall|i: int| 0 < i < c.len() ==> (#[trigger] c[i]) <= c[i - 1]
}

pub open spec fn min(a: int, b: int) -> int {
    if a < b { a } else { b }
}

/// The last block stage `i` may process: the tip, and for a later stage also
/// the checkpoint of the stage before it.
pub open spec fn upper(c: Seq<u64>, tip: u64, i: int) -> int {
    if i == 0 { tip as int } else { min(tip as int, c[i - 1] as int) }
}

/// The first stage that is behind what it may process, if any.
pub open spec fn first_behind(c: Seq<u64>, tip: u64, i: int) -> bool {
    &&& 0 <= i < c.len()
    &&& c[i] < upper(c, tip, i)
    &&& forall|j: int| 0 <= j < i ==> c[j] >= #[trigger] upper(c, tip, j)
}

/// Checkpoints after unwinding every stage to `target`.
pub open spec fn unwound_checkpoints(c: Seq<u64>, target: u64) -> Seq<u64> {
    c.map_values(|x: u64| if x > target { target } else { x })
}

pub struct Pipeline {
    pub stages: Vec<StageId>,
    pub checkpoints: Vec<u64>,
    pub tip: u64,
    pub events: Vec<PipelineEvent>,
}

impl Pipeline {
    pub open spec fn wf(&self) -> bool {
        &&& self.stages@.len() == self.checkpoints@.len()
        &&& stages_ordered(self.stages@)
        &&& checkpoints_ordered(self.checkpoints@)
    }

    /// A pipeline over `stages` resuming from the persisted `checkpoints`, one
    /// for each stage. The stages must come in dependency order, each once, and
    /// no stage may be ahead of the one before it.
    pub fn resume(stages: Vec<StageId>, checkpoints: Vec<u64>) -> (r: Result<Pipeline, PipelineError>)
        ensures
            r is Ok <==> (stages@.len() == checkpoints@.len() && stages_ordered(stages@)
                && checkpoints_ordered(checkpoints@)),
            r matches Ok(p) ==> (p.wf() && p.stages@ == stages@ && p.checkpoints@ == checkpoints@
                && p.tip == 0 && p.events@.len() == 0),
            r matches Err(e) ==> (e matches PipelineError::CheckpointCount <==> stages@.len()
                != checkpoints@.len()),
            r matches Err(PipelineError::StageOrder { index }) ==> (0 < index < stages@.len()
                && stages@[index - 1].spec_rank() >= stages@[index as int].spec_rank()),
            r matches Err(PipelineError::CheckpointAhead { index }) ==> (0 < index
                < checkpoints@.len() && checkpoints@[index as int] > checkpoints@[index - 1]),
    {
        if stages.len() != checkpoints.len() {
            return Err(PipelineError::CheckpointCount);
        }
        let n = stages.len();
        let mut i: usize = 1;
        while i < n
            invariant
                n == stages@.len(),
                n == checkpoints@.len(),
                1 <= i <= n || n == 0,
                forall|j: int| 0 < j < i && j < n ==> stages@[j - 1].spec_rank() < (
                #[trigger] stages@[j]).spec_rank(),
                forall|j: int| 0 < j < i && j < n ==> (#[trigger] checkpoints@[j]) <= checkpoints@[j
                    - 1],
            decreases n - i,
        {
            if stages[i - 1].rank() >= stages[i].rank() {
                return Err(PipelineError::StageOrder { index: i });
            }
            if checkpoints[i] > checkpoints[i - 1] {
                return Err(PipelineError::CheckpointAhead { index: i });
            }
            i = i + 1;
        }
        Ok(Pipeline { stages, checkpoints, tip: 0, events: Vec::new() })
    }

    /// Sets the block the pipeline syncs toward; only the latest value counts.
    pub fn set_tip(&mut self, tip: u64)
        ensures
            final(self).tip == tip,
            final(self).stages == old(self).stages,
            final(self).checkpoints == old(self).checkpoints,
            final(self).events == old(self).events,
    {
        self.tip = tip;
    }

    /// The last block stage `i` may process now.
    pub fn upper_bound(&self, i: usize) -> (r: u64)
        requires
            self.wf(),
            i < self.stages@.len(),
        ensures
            r == upper(self.checkpoints@, self.tip, i as int),
    {
        if i == 0 {
            self.tip
        } else if self.tip < self.checkpoints[i - 1] {
            self.tip
        } else {
            self.checkpoints[i - 1]
        }
    }

    /// The next piece of work of the forward run: the first stage, in declared
    /// order, that is behind its bound, with the range it is to process. Such a
    /// range never reaches past the checkpoint of the stage before it. `None`
    /// means that every stage has caught up, and the run is finished.
    pub fn next_step(&mut self) -> (r: Option<StageRange>)
        requires
            old(self).wf(),
        ensures
            final(self).wf(),
            final(self).stages == old(self).stages,
            final(self).checkpoints == old(self).checkpoints,
            final(self).tip == old(self).tip,
            match r {
                Some(g) => {
                    &&& first_behind(old(self).checkpoints@, old(self).tip, g.index as int)
                    &&& g.stage == old(self).stages@[g.index as int]
                    &&& g.from == old(self).checkpoints@[g.index as int] + 1
                    &&& g.to == upper(old(self).checkpoints@, old(self).tip, g.index as int)
                    &&& g.index > 0 ==> g.to <= old(self).checkpoints@[g.index - 1]
                    &&& final(self).events@ == old(self).events@.push(
                        PipelineEvent::StageStarted { stage: g.stage, from: g.from, to: g.to },
                    )
                },
                None => {
                    &&& forall|j: int|
                        0 <= j < old(self).checkpoints@.len() ==> old(self).checkpoints@[j]
                            >= #[trigger] upper(old(self).checkpoints@, old(self).tip, j)
                    &&& final(self).events@ == old(self).events@.push(
                        PipelineEvent::RunFinished { tip: old(self).tip },
                    )
                },
            },
    {
        let n = self.stages.len();
        let mut i: usize = 0;
        while i < n
            invariant
                self.wf(),
                *self == *old(self),
                n == self.stages@.len(),
                0 <= i <= n,
                forall|j: int| 0 <= j < i ==> self.checkpoints@[j] >= #[trigger] upper(
                    self.checkpoints@,
                    self.tip,
                    j,
                ),
            decreases n - i,
        {
            let up = self.upper_bound(i);
            if self.checkpoints[i] < up {
                let g = StageRange {
                    index: i,
                    stage: self.stages[i],
                    from: self.checkpoints[i] + 1,
                    to: up,
                };
                self.events.push(PipelineEvent::StageStarted { stage: g.stage, from: g.from, to: g.to });
                return Some(g);
            }
            i = i + 1;
        }
        self.events.push(PipelineEvent::RunFinished { tip: self.tip });
        None
    }

    /// Records that stage `index` reached `checkpoint`. The checkpoint may not
    /// go back, nor past what the stage was allowed to process.
    pub fn record_progress(&mut self, index: usize, checkpoint: u64) -> (r: Result<(), PipelineError>)
        requires
            old(self).wf(),
        ensures
            final(self).wf(),
            final(self).stages == old(self).stages,
            final(self).tip == old(self).tip,
            index >= old(self).stages@.len() ==> (r == Err::<(), PipelineError>(
                PipelineError::UnknownStage { index },
            ) && *final(self) == *old(self)),
            index < old(self).stages@.len() ==> {
                let ok = old(self).checkpoints@[index as int] <= checkpoint && checkpoint <= upper(
                    old(self).checkpoints@,
                    old(self).tip,
                    index as int,
                );
                &&& ok ==> (r is Ok && final(self).checkpoints@ == old(
                    self,
                ).checkpoints@.update(index as int, checkpoint) && final(self).events@ == old(
                    self,
                ).events@.push(
                    PipelineEvent::StageCheckpoint {
                        stage: old(self).stages@[index as int],
                        checkpoint,
                    },
                ))
                &&& !ok ==> (r == Err::<(), PipelineError>(
                    PipelineError::CheckpointOutOfRange { index, checkpoint },
                ) && *final(self) == *old(self))
            },
    {
        if index >= self.stages.len() {
            return Err(PipelineError::UnknownStage { index });
        }
        let up = self.upper_bound(index);
        if checkpoint < self.checkpoints[index] || checkpoint > up {
            return Err(PipelineError::CheckpointOutOfRange { index, checkpoint });
        }
        self.checkpoints.set(index, checkpoint);
        self.events.push(PipelineEvent::StageCheckpoint { stage: self.stages[index], checkpoint });
        Ok(())
    }

    /// Unwinds every stage above `target` down to it, later stages first.
    /// Returns, in that order, the stages that were lowered with the checkpoint
    /// each had before.
    pub fn unwind(&mut self, target: u64) -> (r: Vec<(StageId, u64)>)
        requires
            old(self).wf(),
        ensures
            final(self).wf(),
            final(self).stages == old(self).stages,
            final(self).tip == old(self).tip,
            final(self).checkpoints@ == unwound_checkpoints(old(self).checkpoints@, target),
            r@ == unwind_plan(old(self).stages@, old(self).checkpoints@, target, 0),
            final(self).events@ == old(self).events@ + unwind_events(r@, target),
    {
        let ghost c0 = self.checkpoints@;
        let ghost e0 = self.events@;
        let n = self.stages.len();
        let mut out: Vec<(StageId, u64)> = Vec::new();
        let mut i: usize = n;
        while i > 0
            invariant
                self.stages == old(self).stages,
                self.tip == old(self).tip,
                n == self.stages@.len(),
                n == self.checkpoints@.len(),
                n == c0.len(),
                c0 == old(self).checkpoints@,
                e0 == old(self).events@,
                0 <= i <= n,
                forall|j: int|
                    0 <= j < n ==> #[trigger] self.checkpoints@[j] == if j < i || c0[j] <= target {
                        c0[j]
                    } else {
                        target
                    },
                out@ == unwind_plan(self.stages@, c0, target, i as int),
                self.events@ == e0 + unwind_events(out@, target),
            decreases i,
        {
            i = i - 1;
            let cp = self.checkpoints[i];
            if cp > target {
                let stage = self.stages[i];
                self.checkpoints.set(i, target);
                proof {
                    assert(unwind_events(out@.push((stage, cp)), target) =~= unwind_events(
                        out@,
                        target,
                    ).push(PipelineEvent::StageUnwound { stage, checkpoint: target }));
                }
                out.push((stage, cp));
                self.events.push(PipelineEvent::StageUnwound { stage, checkpoint: target });
            }
        }
        proof {
            assert(self.checkpoints@ =~= unwound_checkpoints(c0, target));
            assert forall|j: int| 0 < j < n implies (#[trigger] self.checkpoints@[j])
                <= self.checkpoints@[j - 1] by {
                assert(c0[j] <= c0[j - 1]);
            }
        }
        out
    }
}

/// The stages at positions `i` and after that sit above `target`, each with
/// its checkpoint, last stage first.
pub open spec fn unwind_plan(s: Seq<StageId>, c: Seq<u64>, target: u64, i: int) -> Seq<(StageId, u64)>
    decreases c.len() - i,
{
    if i >= c.len() || i < 0 {
        Seq::empty()
    } else {
        let rest = unwind_plan(s, c, target, i + 1);
        if c[i] > target {
            rest.push((s[i], c[i]))
        } else {
            rest
        }
    }
}

/// The events of an unwind that lowered the stages of `plan` to `target`.
pub open spec fn unwind_events(plan: Seq<(StageId, u64)>, target: u64) -> Seq<PipelineEvent> {
    plan.map_values(|e: (StageId, u64)| PipelineEvent::StageUnwound { stage: e.0, checkpoint: target })
}

proof fn lemma_plan_ranks(s: Seq<StageId>, c: Seq<u64>, target: u64, i: int)
    requires
        stages_ordered(s),
        s.len() == c.len(),
        0 <= i <= c.len(),
    ensures
        forall|k: int|
            0 <= k < unwind_plan(s, c, target, i).len() ==> #[trigger] unwind_plan(
                s,
                c,
                target,
                i,
            )[k].0.spec_rank() >= s[i].spec_rank(),
        forall|k1: int, k2: int|
            0 <= k1 < k2 < unwind_plan(s, c, target, i).len() ==> (#[trigger] unwind_plan(
                s,
                c,
                target,
                i,
            )[k1]).0.spec_rank() > (#[trigger] unwind_plan(s, c, target, i)[k2]).0.spec_rank(),
    decreases c.len() - i,
{
    if i < c.len() {
        lemma_plan_ranks(s, c, target, i + 1);
        let p = unwind_plan(s, c, target, i + 1);
        let q = unwind_plan(s, c, target, i);
        if i + 1 < c.len() {
            assert(s[i].spec_rank() < s[i + 1].spec_rank());
        } else {
            assert(p.len() == 0);
        }
        assert forall|k: int| 0 <= k < q.len() implies #[trigger] q[k].0.spec_rank() >= s[i].spec_rank() by {
            if k < p.len() {
                assert(q[k] == p[k]);
            }
        }
        assert forall|k1: int, k2: int| 0 <= k1 < k2 < q.len() implies (#[trigger] q[k1]).0.spec_rank()
            > (#[trigger] q[k2]).0.spec_rank() by {
            assert(q[k1] == p[k1]);
            if k2 < p.len() {
                assert(q[k2] == p[k2]);
            }
        }
    }
}

/// An unwind lowers the stages strictly from the last declared to the first:
/// a stage is always unwound before every stage it depends on.
pub proof fn lemma_unwind_reverse_order(s: Seq<StageId>, c: Seq<u64>, target: u64)
    requires
        stages_ordered(s),
        s.len() == c.len(),
    ensures
        forall|k1: int, k2: int|
            0 <= k1 < k2 < unwind_plan(s, c, target, 0).len() ==> (#[trigger] unwind_plan(
                s,
                c,
                target,
                0,
            )[k1]).0.spec_rank() > (#[trigger] unwind_plan(s, c, target, 0)[k2]).0.spec_rank(),
{
    lemma_plan_ranks(s, c, target, 0);
}

proof fn lemma_plan_empty(s: Seq<StageId>, c: Seq<u64>, target: u64, i: int)
    requires
        forall|j: int| 0 <= j < c.len() ==> #[trigger] c[j] <= target,
    ensures
        unwind_plan(s, c, target, i).len() == 0,
    decreases c.len() - i,
{
    if 0 <= i < c.len() {
        lemma_plan_empty(s, c, target, i + 1);
    }
}

/// Unwinding twice to the same block is a no-op the second time: the
/// checkpoints stay as the first unwind left them and no stage is unwound.
pub proof fn lemma_pipeline_unwind_idempotent(s: Seq<StageId>, c: Seq<u64>, target: u64)
    ensures
        unwound_checkpoints(unwound_checkpoints(c, target), target) == unwound_checkpoints(
            c,
            target,
        ),
        unwind_plan(s, unwound_checkpoints(c, target), target, 0).len() == 0,
{
    assert(unwound_checkpoints(unwound_checkpoints(c, target), target) =~= unwound_checkpoints(
        c,
        target,
    ));
    lemma_plan_empty(s, unwound_checkpoints(c, target), target, 0);
}

/// In a well-formed pipeline no stage may process a block above the
/// checkpoint of the stage before it: the execution stage never reads a block
/// that body sync has not stored.
pub proof fn lemma_stage_bounded_by_predecessor(c: Seq<u64>, tip: u64, i: int)
    requires
        checkpoints_ordered(c),
        0 < i < c.len(),
    ensures
        upper(c, tip, i) <= c[i - 1],
        c[i] <= c[i - 1],
{
}

} // verus!
