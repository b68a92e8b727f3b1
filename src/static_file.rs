//! Static-file promotion: picks the finalized blocks not yet in immutable
//! segment files, and marks them as moved only once the copy is complete.
use vstd::prelude::*;

verus! {

/// The blocks `from..=to`.
#[derive(Clone, Copy, Debug, PartialEq, Eq)]
pub struct BlockRange {
    pub from: u64,
    pub to: u64,
}

#[derive(Clone, Copy, Debug, PartialEq, Eq)]
pub enum StaticFileError {
    /// The range is not the one the producer would pick now.
    UnexpectedRange,
    /// The copy stopped before the end of the range; it is to be redone.
    IncompleteCopy { copied_to: Option<u64> },
}

pub struct StaticFileProducer {
    /// How many blocks below the execution checkpoint stay in mutable storage.
    pub margin: u64,
    /// The highest block already in static files, if any.
    pub highest_static: Option<u64>,
}

/// The first block not yet in static files.
pub open spec fn first_unmoved(highest: Option<u64>) -> int {
    match highest {
        Some(h) => h + 1,
        None => 0,
    }
}

/// The range to move next: from the first block not yet moved up to `margin`
/// blocks below the execution checkpoint, when that range is not empty.
pub open spec fn spec_next_range(margin: u64, highest: Option<u64>, checkpoint: u64) -> Option<BlockRange> {
    let from = first_unmoved(highest);
    let to = checkpoint - margin;
    if checkpoint >= margin && from <= to {
        Some(BlockRange { from: from as u64, to: to as u64 })
    } else {
        None
    }
}

impl StaticFileProducer {
    pub fn new(margin: u64) -> (r: Self)
        ensures
            r.margin == margin,
            r.highest_static is None,
    {
        StaticFileProducer { margin, highest_static: None }
    }

    /// The blocks to copy next, given the execution stage's checkpoint. They
    /// never reach above `checkpoint - margin`, so the producer stays behind
    /// the execution stage.
    pub fn next_range(&self, checkpoint: u64) -> (r: Option<BlockRange>)
        ensures
            r == spec_next_range(self.margin, self.highest_static, checkpoint),
            r matches Some(g) ==> g.from <= g.to && g.to + self.margin == checkpoint,
    {
        if checkpoint < self.margin {
            return None;
        }
        let to = checkpoint - self.margin;
        match self.highest_static {
            None => Some(BlockRange { from: 0, to }),
            Some(h) => {
                if h < to {
                    Some(BlockRange { from: h + 1, to })
                } else {
                    None
                }
            },
        }
    }

    /// Records the end of a copy of `range`, which reached `copied_to`. Only a
    /// copy that reached the end of the range marks it as static; the result
    /// is then the block up to which the mutable copy may go. Anything else
    /// changes nothing, so the copy can be redone from scratch.
    pub fn finish(&mut self, checkpoint: u64, range: BlockRange, copied_to: Option<u64>) -> (r: Result<
        u64,
        StaticFileError,
    >)
        ensures
            final(self).margin == old(self).margin,
            spec_next_range(old(self).margin, old(self).highest_static, checkpoint) != Some(range)
                ==> r == Err::<u64, StaticFileError>(StaticFileError::UnexpectedRange) && *final(self)
                == *old(self),
            spec_next_range(old(self).margin, old(self).highest_static, checkpoint) == Some(range)
                ==> {
                &&& copied_to == Some(range.to) ==> (r == Ok::<u64, StaticFileError>(range.to)
                    && final(self).highest_static == Some(range.to))
                &&& copied_to != Some(range.to) ==> (r == Err::<u64, StaticFileError>(
                    StaticFileError::IncompleteCopy { copied_to },
                ) && *final(self) == *old(self))
            },
    {
        match self.next_range(checkpoint) {
            Some(g) => {
                if g.from != range.from || g.to != range.to {
                    return Err(StaticFileError::UnexpectedRange);
                }
            },
            None => {
                return Err(StaticFileError::UnexpectedRange);
            },
        }
        match copied_to {
            Some(c) => {
                if c == range.to {
                    self.highest_static = Some(c);
                    Ok(c)
                } else {
                    Err(StaticFileError::IncompleteCopy { copied_to })
                }
            },
            None => Err(StaticFileError::IncompleteCopy { copied_to }),
        }
    }
}

} // verus!
