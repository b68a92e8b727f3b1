//! Limits that end one execution batch.
use vstd::prelude::*;

verus! {

/// What executing one block cost.
#[derive(Clone, Copy, Debug, PartialEq, Eq)]
pub struct BlockCost {
    /// State changes the block produced.
    pub changes: u64,
    /// Gas the block consumed.
    pub gas: u64,
    /// Wall-clock time spent on the block, in milliseconds.
    pub duration_ms: u64,
}

/// Running totals of one batch. Each field saturates at `u64::MAX`, which
/// leaves every comparison with a `u64` bound as it would be on exact totals.
#[derive(Clone, Copy, Debug, PartialEq, Eq)]
pub struct BatchTotals {
    pub blocks: u64,
    pub changes: u64,
    pub gas: u64,
    pub duration_ms: u64,
}

/// Exact totals of a batch, as mathematical integers.
pub struct SpecTotals {
    pub blocks: int,
    pub changes: int,
    pub gas: int,
    pub duration_ms: int,
}

pub open spec fn zero_totals() -> SpecTotals {
    SpecTotals { blocks: 0, changes: 0, gas: 0, duration_ms: 0 }
}

/// The totals after one more block of cost `c`.
pub open spec fn add_block(t: SpecTotals, c: BlockCost) -> SpecTotals {
    SpecTotals {
        blocks: t.blocks + 1,
        changes: t.changes + c.changes,
        gas: t.gas + c.gas,
        duration_ms: t.duration_ms + c.duration_ms,
    }
}

/// Totals of all blocks of `s`.
pub open spec fn totals_of(s: Seq<BlockCost>) -> SpecTotals
    decreases s.len(),
{
    if s.len() == 0 {
        zero_totals()
    } else {
        add_block(totals_of(s.drop_last()), s.last())
    }
}

pub open spec fn sat(v: int) -> int {
    if v > u64::MAX { u64::MAX as int } else { v }
}

impl BatchTotals {
    /// These saturated totals stand for the exact totals `t`.
    pub open spec fn tracks(self, t: SpecTotals) -> bool {
        &&& self.blocks as int == sat(t.blocks)
        &&& self.changes as int == sat(t.changes)
        &&& self.gas as int == sat(t.gas)
        &&& self.duration_ms as int == sat(t.duration_ms)
    }

    pub fn zero() -> (r: Self)
        ensures
            r.tracks(zero_totals()),
    {
        BatchTotals { blocks: 0, changes: 0, gas: 0, duration_ms: 0 }
    }

    /// Adds one block of cost `c`.
    pub fn add(&self, c: &BlockCost) -> (r: Self)
        ensures
            forall|t: SpecTotals| self.tracks(t) ==> r.tracks(add_block(t, *c)),
    {
        BatchTotals {
            blocks: self.blocks.saturating_add(1),
            changes: self.changes.saturating_add(c.changes),
            gas: self.gas.saturating_add(c.gas),
            duration_ms: self.duration_ms.saturating_add(c.duration_ms),
        }
    }
}

/// Optional bounds on a batch; once any configured bound is reached the batch ends.
#[derive(Clone, Copy, Debug, PartialEq, Eq)]
pub struct ExecutionStageThresholds {
    pub max_blocks: Option<u64>,
    pub max_changes: Option<u64>,
    pub max_cumulative_gas: Option<u64>,
    pub max_duration_ms: Option<u64>,
}

/// Whether `v` has reached the optional bound `b`.
pub open spec fn reached(b: Option<u64>, v: int) -> bool {
    match b {
        Some(m) => v >= m,
        None => false,
    }
}

fn bound_reached(b: Option<u64>, v: u64) -> (r: bool)
    ensures
        r == reached(b, v as int),
{
    match b {
        Some(m) => v >= m,
        None => false,
    }
}

impl ExecutionStageThresholds {
    /// A batch with the exact totals `t` must end.
    pub open spec fn ends(self, t: SpecTotals) -> bool {
        reached(self.max_blocks, t.blocks) || reached(self.max_changes, t.changes) || reached(
            self.max_cumulative_gas,
            t.gas,
        ) || reached(self.max_duration_ms, t.duration_ms)
    }

    /// No bound at all: a batch then runs to the end of its range.
    pub fn unbounded() -> (r: Self)
        ensures
            r.max_blocks is None && r.max_changes is None && r.max_cumulative_gas is None
                && r.max_duration_ms is None,
    {
        ExecutionStageThresholds {
            max_blocks: None,
            max_changes: None,
            max_cumulative_gas: None,
            max_duration_ms: None,
        }
    }

    /// Whether a batch whose totals are tracked by `t` has reached any configured bound.
    pub fn is_end_of_batch(&self, t: &BatchTotals) -> (r: bool)
        ensures
            forall|e: SpecTotals| t.tracks(e) ==> r == self.ends(e),
    {
        bound_reached(self.max_blocks, t.blocks) || bound_reached(self.max_changes, t.changes)
            || bound_reached(self.max_cumulative_gas, t.gas) || bound_reached(
            self.max_duration_ms,
            t.duration_ms,
        )
    }
}

} // verus!
