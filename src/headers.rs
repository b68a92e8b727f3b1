//! Headers, and the checks that turn the headers fetched backward from the
//! tip into a chain that joins the local head.
use vstd::prelude::*;

verus! {

/// A 256-bit hash, as its high and low halves.
#[derive(Clone, Copy, Debug, PartialEq, Eq, Structural, Hash)]
pub struct BlockHash {
    pub hi: u128,
    pub lo: u128,
}

/// A header with the hash it was sealed with.
#[derive(Clone, Copy, Debug, PartialEq, Eq)]
pub struct SealedHeader {
    pub number: u64,
    pub hash: BlockHash,
    pub parent_hash: BlockHash,
    /// Root of the transactions the block's body must hold.
    pub tx_root: BlockHash,
}

/// `child` is the block right after `parent`.
pub open spec fn links(child: SealedHeader, parent: SealedHeader) -> bool {
    child.parent_hash == parent.hash && child.number == parent.number + 1
}

/// The header below position `i` of `fetched`: the next one, or the local head
/// after the last.
pub open spec fn below(fetched: Seq<SealedHeader>, local: SealedHeader, i: int) -> SealedHeader {
    if i + 1 < fetched.len() { fetched[i + 1] } else { local }
}

/// `fetched`, from the tip down, starts at `tip` and every header in it is
/// the child of the one below it, the last one of the local head.
pub open spec fn joins(tip: BlockHash, local: SealedHeader, fetched: Seq<SealedHeader>) -> bool {
    &&& fetched.len() == 0 ==> local.hash == tip
    &&& fetched.len() > 0 ==> fetched[0].hash == tip
    &&& forall|i: int| 0 <= i < fetched.len() ==> links(#[trigger] fetched[i], below(fetched, local, i))
}

#[derive(Clone, Copy, Debug, PartialEq, Eq)]
pub enum HeaderError {
    /// The first header is not the tip.
    TipMismatch,
    /// The header at this position (counted from the tip) is not the child of
    /// the one below it; it and everything above it are dropped.
    Detached { index: usize, number: u64 },
}

fn links_exec(child: &SealedHeader, parent: &SealedHeader) -> (r: bool)
    ensures
        r == links(*child, *parent),
{
    child.parent_hash == parent.hash && parent.number < u64::MAX && child.number == parent.number + 1
}

/// Checks the headers fetched from the tip down to just above the local head
/// and returns them in ascending order. Nothing is skipped: the first header
/// that does not link is reported.
pub fn validate_backward(tip: BlockHash, local: &SealedHeader, fetched: &Vec<SealedHeader>) -> (r:
    Result<Vec<SealedHeader>, HeaderError>)
    ensures
        r is Ok <==> joins(tip, *local, fetched@),
        r matches Ok(v) ==> v@ == fetched@.reverse(),
        r matches Err(HeaderError::TipMismatch) ==> (fetched@.len() == 0 ==> local.hash != tip) && (
        fetched@.len() > 0 ==> fetched@[0].hash != tip),
        r matches Err(HeaderError::Detached { index, number }) ==> {
            &&& index < fetched@.len()
            &&& number == fetched@[index as int].number
            &&& !links(fetched@[index as int], below(fetched@, *local, index as int))
            &&& forall|j: int| 0 <= j < index ==> links(#[trigger] fetched@[j], below(fetched@, *local, j))
        },
{
    let n = fetched.len();
    if n == 0 {
        if local.hash == tip {
            return Ok(Vec::new());
        } else {
            return Err(HeaderError::TipMismatch);
        }
    }
    if fetched[0].hash != tip {
        return Err(HeaderError::TipMismatch);
    }
    let mut i: usize = 0;
    while i < n
        invariant
            n == fetched@.len(),
            0 <= i <= n,
            forall|j: int| 0 <= j < i ==> links(#[trigger] fetched@[j], below(fetched@, *local, j)),
        decreases n - i,
    {
        let ok = if i + 1 < n {
            links_exec(&fetched[i], &fetched[i + 1])
        } else {
            links_exec(&fetched[i], local)
        };
        if !ok {
            return Err(HeaderError::Detached { index: i, number: fetched[i].number });
        }
        i = i + 1;
    }
    let mut out: Vec<SealedHeader> = Vec::new();
    let mut k: usize = n;
    while k > 0
        invariant
            n == fetched@.len(),
            0 <= k <= n,
            out@ == fetched@.subrange(k as int, n as int).reverse(),
        decreases k,
    {
        k = k - 1;
        proof {
            assert(fetched@.subrange(k as int, n as int).reverse() =~= fetched@.subrange(
                k + 1,
                n as int,
            ).reverse().push(fetched@[k as int]));
        }
        out.push(fetched[k]);
    }
    assert(fetched@.subrange(0, n as int) =~= fetched@);
    Ok(out)
}

} // verus!
