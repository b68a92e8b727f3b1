//! The debug-execution driver: advances the tip in fixed intervals up to a
//! final block, runs the pipeline for each interval and then unwinds that
//! interval again. It is a state machine; whoever runs it fetches hashes,
//! runs the pipeline and unwinds storage, and hands back what happened.
use vstd::prelude::*;
use crate::headers::BlockHash;

verus! {

/// The target of the interval that starts after `current`.
pub open spec fn next_target(current: int, to: int, interval: int) -> int {
    if current + interval < to { current + interval } else { to }
}

/// The targets of all intervals from `current` up to `to`, in order.
pub open spec fn interval_targets(current: int, to: int, interval: int) -> Seq<int>
    decreases to - current,
{
    if current >= to || interval <= 0 {
        Seq::empty()
    } else {
        seq![next_target(current, to, interval)] + interval_targets(
            next_target(current, to, interval),
            to,
            interval,
        )
    }
}

#[derive(Clone, Copy, Debug, PartialEq, Eq)]
pub enum DriverPhase {
    /// Waiting for the hash of this block.
    Resolving { block: u64 },
    /// The pipeline runs toward `to`.
    Running { from: u64, to: u64 },
    /// The blocks `from..=to` are being unwound.
    Unwinding { from: u64, to: u64 },
    /// The final block was reached.
    Finished,
}

/// What happened since the last action.
#[derive(Clone, Copy, Debug, PartialEq, Eq)]
pub enum DriverEvent {
    HashFetched(BlockHash),
    FetchFailed,
    PipelineFinished,
    RangeUnwound,
}

/// What is to be done next.
#[derive(Clone, Copy, Debug, PartialEq, Eq)]
pub enum DriverAction {
    /// Fetch the canonical hash of this block from the network.
    FetchHash { block: u64 },
    /// Set `tip` as the pipeline's tip and run it to completion.
    RunPipeline { tip: BlockHash, from: u64, to: u64 },
    /// Remove the blocks `from..=to` and their execution results from storage.
    UnwindRange { from: u64, to: u64 },
    /// Nothing is left to do.
    Done,
}

#[derive(Clone, Copy, Debug, PartialEq, Eq)]
pub enum DriverError {
    /// The event does not belong to the current phase.
    UnexpectedEvent,
}

pub struct DebugDriver {
    /// Highest block whose interval is complete.
    pub current: u64,
    /// The final block.
    pub to: u64,
    /// Blocks per interval.
    pub interval: u64,
    pub phase: DriverPhase,
}

impl DebugDriver {
    pub open spec fn spec_next(&self) -> int {
        next_target(self.current as int, self.to as int, self.interval as int)
    }

    pub open spec fn wf(&self) -> bool {
        match self.phase {
            DriverPhase::Resolving { block } => self.current < self.to && block == self.spec_next(),
            DriverPhase::Running { from, to } | DriverPhase::Unwinding { from, to } => {
                &&& self.current < self.to
                &&& from == self.current + 1
                &&& to == self.spec_next()
            },
            DriverPhase::Finished => self.current >= self.to,
        }
    }

    fn next_block(&self) -> (r: u64)
        requires
            self.current < self.to,
        ensures
            r == self.spec_next(),
    {
        if self.interval < self.to - self.current {
            self.current + self.interval
        } else {
            self.to
        }
    }

    /// A driver that starts after `latest`, the highest block already synced
    /// (none: nothing is), and ends at `to`. Where `to` is already reached
    /// there is nothing to run.
    pub fn new(latest: Option<u64>, to: u64, interval: u64) -> (r: (DebugDriver, DriverAction))
        ensures
            r.0.wf(),
            r.0.to == to,
            r.0.interval == interval,
            r.0.current == match latest {
                Some(b) => b,
                None => 0,
            },
            r.0.current >= to ==> r.0.phase == DriverPhase::Finished && r.1 == DriverAction::Done,
            r.0.current < to ==> r.0.phase == (DriverPhase::Resolving { block: r.0.spec_next() as u64 })
                && r.1 == (DriverAction::FetchHash { block: r.0.spec_next() as u64 }),
    {
        let current = match latest {
            Some(b) => b,
            None => 0,
        };
        let mut d = DebugDriver { current, to, interval, phase: DriverPhase::Finished };
        if current >= to {
            (d, DriverAction::Done)
        } else {
            let block = d.next_block();
            d.phase = DriverPhase::Resolving { block };
            (d, DriverAction::FetchHash { block })
        }
    }

    /// Takes the next event and returns the next action. A failed fetch is
    /// retried, without end; a fetched hash becomes the tip of a run over the
    /// interval; a finished run is followed by an unwind of the same interval;
    /// after the unwind the driver moves on to the next interval, or is done.
    pub fn step(&mut self, event: DriverEvent) -> (r: Result<DriverAction, DriverError>)
        requires
            old(self).wf(),
        ensures
            final(self).wf(),
            final(self).to == old(self).to,
            final(self).interval == old(self).interval,
            match (old(self).phase, event) {
                (DriverPhase::Resolving { block }, DriverEvent::FetchFailed) => {
                    &&& *final(self) == *old(self)
                    &&& r == Ok::<DriverAction, DriverError>(DriverAction::FetchHash { block })
                },
                (DriverPhase::Resolving { block }, DriverEvent::HashFetched(h)) => {
                    &&& final(self).current == old(self).current
                    &&& final(self).phase == (DriverPhase::Running {
                        from: (old(self).current + 1) as u64,
                        to: block,
                    })
                    &&& r == Ok::<DriverAction, DriverError>(
                        DriverAction::RunPipeline {
                            tip: h,
                            from: (old(self).current + 1) as u64,
                            to: block,
                        },
                    )
                },
                (DriverPhase::Running { from, to }, DriverEvent::PipelineFinished) => {
                    &&& final(self).current == old(self).current
                    &&& final(self).phase == (DriverPhase::Unwinding { from, to })
                    &&& r == Ok::<DriverAction, DriverError>(DriverAction::UnwindRange { from, to })
                },
                (DriverPhase::Unwinding { from, to }, DriverEvent::RangeUnwound) => {
                    &&& final(self).current == to
                    &&& to >= old(self).to ==> (final(self).phase == DriverPhase::Finished && r
                        == Ok::<DriverAction, DriverError>(DriverAction::Done))
                    &&& to < old(self).to ==> (final(self).phase == (DriverPhase::Resolving {
                        block: final(self).spec_next() as u64,
                    }) && r == Ok::<DriverAction, DriverError>(
                        DriverAction::FetchHash { block: final(self).spec_next() as u64 },
                    ))
                },
                _ => {
                    &&& *final(self) == *old(self)
                    &&& r == Err::<DriverAction, DriverError>(DriverError::UnexpectedEvent)
                },
            },
    {
        match (self.phase, event) {
            (DriverPhase::Resolving { block }, DriverEvent::FetchFailed) => {
                Ok(DriverAction::FetchHash { block })
            },
            (DriverPhase::Resolving { block }, DriverEvent::HashFetched(h)) => {
                let from = self.current + 1;
                self.phase = DriverPhase::Running { from, to: block };
                Ok(DriverAction::RunPipeline { tip: h, from, to: block })
            },
            (DriverPhase::Running { from, to }, DriverEvent::PipelineFinished) => {
                self.phase = DriverPhase::Unwinding { from, to };
                Ok(DriverAction::UnwindRange { from, to })
            },
            (DriverPhase::Unwinding { from, to }, DriverEvent::RangeUnwound) => {
                self.current = to;
                if to >= self.to {
                    self.phase = DriverPhase::Finished;
                    Ok(DriverAction::Done)
                } else {
                    let block = self.next_block();
                    self.phase = DriverPhase::Resolving { block };
                    Ok(DriverAction::FetchHash { block })
                }
            },
            _ => Err(DriverError::UnexpectedEvent),
        }
    }
}

/// With an interval of at least one block the intervals from `current` reach
/// `to` exactly: their targets rise strictly, each at most `interval` past the
/// one before, the last is `to`, and there are `ceil((to - current) / interval)`
/// of them.
pub proof fn lemma_interval_targets(current: int, to: int, interval: int)
    requires
        interval >= 1,
        current < to,
    ensures
        ({
            let t = interval_targets(current, to, interval);
            &&& t.len() == (to - current + interval - 1) / interval
            &&& t.len() >= 1
            &&& t.last() == to
            &&& t[0] == next_target(current, to, interval)
            &&& forall|k: int| 0 < k < t.len() ==> t[k - 1] < #[trigger] t[k] <= t[k - 1] + interval
        }),
    decreases to - current,
{
    let n = next_target(current, to, interval);
    let t = interval_targets(current, to, interval);
    let rest = interval_targets(n, to, interval);
    assert(t == seq![n] + rest);
    if n < to {
        lemma_interval_targets(n, to, interval);
        assert((to - current + interval - 1) / interval == (to - n + interval - 1) / interval + 1)
            by (nonlinear_arith)
            requires
                n == current + interval,
                interval >= 1,
        {
            assert(to - current + interval - 1 == (to - n + interval - 1) + interval);
        }
        assert forall|k: int| 0 < k < t.len() implies t[k - 1] < #[trigger] t[k] <= t[k - 1]
            + interval by {
            if k >= 2 {
                assert(t[k] == rest[k - 1] && t[k - 1] == rest[k - 2]);
            } else {
                assert(t[1] == rest[0]);
            }
        }
    } else {
        assert(rest.len() == 0);
        assert((to - current + interval - 1) / interval == 1) by (nonlinear_arith)
            requires
                1 <= to - current <= interval,
        {}
    }
}

/// A driver waiting for a hash waits for the first of the targets still
/// ahead of it, and once that interval is unwound the targets ahead are the
/// rest: the hashes are fetched for the interval targets, in their order.
pub proof fn lemma_driver_follows_targets(d: DebugDriver)
    requires
        d.wf(),
        d.interval >= 1,
    ensures
        d.phase matches DriverPhase::Resolving { block } ==> {
            let t = interval_targets(d.current as int, d.to as int, d.interval as int);
            &&& t.len() >= 1
            &&& t[0] == block
            &&& interval_targets(block as int, d.to as int, d.interval as int) == t.skip(1)
        },
{
    if let DriverPhase::Resolving { block } = d.phase {
        let t = interval_targets(d.current as int, d.to as int, d.interval as int);
        assert(t == seq![block as int] + interval_targets(block as int, d.to as int, d.interval as int));
        assert(t.skip(1) =~= interval_targets(block as int, d.to as int, d.interval as int));
    }
}

} // verus!
