//! The body queue: bodies for a run of headers arrive in any order, some
//! fetches fail and are asked for again, and the bodies leave in ascending
//! block order with none missing and none twice.
use vstd::prelude::*;
use crate::headers::{BlockHash, SealedHeader};

verus! {

#[derive(Clone, Copy, Debug, PartialEq, Eq)]
pub struct BlockBody {
    pub number: u64,
    /// Root of the transactions in the body.
    pub tx_root: BlockHash,
    pub tx_count: u64,
}

/// What became of a body that arrived.
#[derive(Clone, Copy, Debug, PartialEq, Eq)]
pub enum BodyResponse {
    /// Stored until its turn comes.
    Accepted,
    /// Its block already has a body; dropped.
    Duplicate,
    /// No header of the queue has its number; dropped.
    Unrequested,
}

#[derive(Clone, Copy, Debug, PartialEq, Eq)]
pub enum BodyError {
    /// The headers are not one run of consecutive blocks.
    HeadersNotContiguous { index: usize },
    /// The body does not hold the transactions its header commits to.
    RootMismatch { number: u64 },
}

pub struct BodiesQueue {
    /// Consecutive headers, lowest first.
    pub headers: Vec<SealedHeader>,
    /// The body of each header, once it arrived.
    pub bodies: Vec<Option<BlockBody>>,
    /// Position of the next body to hand out.
    pub next: usize,
}

/// The headers are consecutive blocks, lowest first.
pub open spec fn contiguous(h: Seq<SealedHeader>) -> bool {
    forall|i: int| 0 < i < h.len() ==> (#[trigger] h[i]).number == h[i - 1].number + 1
}

/// `b` is a valid body for `h`.
pub open spec fn body_fits(b: BlockBody, h: SealedHeader) -> bool {
    b.number == h.number && b.tx_root == h.tx_root
}

/// Numbers of the headers in positions `start..i` that have no body yet.
pub open spec fn missing(h: Seq<SealedHeader>, b: Seq<Option<BlockBody>>, start: int, i: int) -> Seq<u64>
    decreases i - start,
{
    if i <= start {
        Seq::empty()
    } else if b[i - 1] is None {
        missing(h, b, start, i - 1).push(h[i - 1].number)
    } else {
        missing(h, b, start, i - 1)
    }
}

pub open spec fn unwrap_body(o: Option<BlockBody>) -> BlockBody {
    match o {
        Some(b) => b,
        None => BlockBody { number: 0, tx_root: BlockHash { hi: 0, lo: 0 }, tx_count: 0 },
    }
}

impl BodiesQueue {
    pub open spec fn wf(&self) -> bool {
        &&& contiguous(self.headers@)
        &&& self.bodies@.len() == self.headers@.len()
        &&& self.next <= self.headers@.len()
        &&& forall|i: int| 0 <= i < self.next ==> (#[trigger] self.bodies@[i]) is Some
        &&& forall|i: int|
            0 <= i < self.bodies@.len() ==> (#[trigger] self.bodies@[i] matches Some(b) ==> body_fits(
                b,
                self.headers@[i],
            ))
    }

    /// A queue for `headers`, which must be consecutive blocks, lowest first.
    pub fn new(headers: Vec<SealedHeader>) -> (r: Result<BodiesQueue, BodyError>)
        ensures
            r is Ok <==> contiguous(headers@),
            r matches Ok(q) ==> (q.wf() && q.headers@ == headers@ && q.next == 0 && forall|i: int|
                0 <= i < q.bodies@.len() ==> #[trigger] q.bodies@[i] is None),
            r matches Err(e) ==> e matches BodyError::HeadersNotContiguous { index } && 0 < index
                < headers@.len() && headers@[index as int].number != headers@[index - 1].number + 1,
    {
        let n = headers.len();
        let mut bodies: Vec<Option<BlockBody>> = Vec::new();
        let mut i: usize = 0;
        while i < n
            invariant
                n == headers@.len(),
                0 <= i <= n,
                bodies@.len() == i,
                forall|j: int| 0 <= j < i ==> #[trigger] bodies@[j] is None,
                forall|j: int| 0 < j < i ==> (#[trigger] headers@[j]).number == headers@[j - 1].number + 1,
            decreases n - i,
        {
            if i > 0 && (headers[i - 1].number == u64::MAX || headers[i].number != headers[i - 1].number + 1) {
                assert(headers@[i as int].number != headers@[i - 1].number + 1);
                return Err(BodyError::HeadersNotContiguous { index: i });
            }
            bodies.push(None);
            i = i + 1;
        }
        Ok(BodiesQueue { headers, bodies, next: 0 })
    }

    /// The blocks whose bodies are still to be fetched, ascending. A failed
    /// fetch changes nothing, so its block stays here and is asked for again.
    pub fn pending(&self) -> (r: Vec<u64>)
        requires
            self.wf(),
        ensures
            r@ == missing(self.headers@, self.bodies@, self.next as int, self.headers@.len() as int),
    {
        let n = self.headers.len();
        let mut r: Vec<u64> = Vec::new();
        let mut i: usize = self.next;
        while i < n
            invariant
                self.wf(),
                n == self.headers@.len(),
                self.next <= i <= n,
                r@ == missing(self.headers@, self.bodies@, self.next as int, i as int),
            decreases n - i,
        {
            if self.bodies[i].is_none() {
                r.push(self.headers[i].number);
            }
            i = i + 1;
        }
        r
    }

    /// The first `limit` blocks whose bodies are still to be fetched: the
    /// requests that may be in flight at once.
    pub fn pending_window(&self, limit: usize) -> (r: Vec<u64>)
        requires
            self.wf(),
        ensures
            ({
                let all = missing(self.headers@, self.bodies@, self.next as int, self.headers@.len() as int);
                r@ == if all.len() <= limit { all } else { all.take(limit as int) }
            }),
    {
        let n = self.headers.len();
        let mut r: Vec<u64> = Vec::new();
        let mut i: usize = self.next;
        while i < n && r.len() < limit
            invariant
                self.wf(),
                n == self.headers@.len(),
                self.next <= i <= n,
                r@.len() <= limit,
                r@ == missing(self.headers@, self.bodies@, self.next as int, i as int),
            decreases n - i,
        {
            if self.bodies[i].is_none() {
                r.push(self.headers[i].number);
            }
            i = i + 1;
        }
        proof {
            lemma_missing_prefix(self.headers@, self.bodies@, self.next as int, i as int, n as int);
        }
        r
    }

    /// Takes a body that arrived. It is kept for its header if that header has
    /// none yet and the body holds the transactions the header commits to; a
    /// body that does not is a hard failure and changes nothing.
    pub fn on_response(&mut self, body: BlockBody) -> (r: Result<BodyResponse, BodyError>)
        requires
            old(self).wf(),
        ensures
            final(self).wf(),
            final(self).headers == old(self).headers,
            final(self).next == old(self).next,
            ({
                let h = old(self).headers@;
                let idx = body.number - h[0].number;
                if h.len() == 0 || body.number < h[0].number || idx >= h.len() {
                    r == Ok::<BodyResponse, BodyError>(BodyResponse::Unrequested) && *final(self)
                        == *old(self)
                } else if old(self).bodies@[idx] is Some {
                    r == Ok::<BodyResponse, BodyError>(BodyResponse::Duplicate) && *final(self)
                        == *old(self)
                } else if body.tx_root != h[idx].tx_root {
                    r == Err::<BodyResponse, BodyError>(BodyError::RootMismatch { number: body.number })
                        && *final(self) == *old(self)
                } else {
                    r == Ok::<BodyResponse, BodyError>(BodyResponse::Accepted) && final(self).bodies@
                        == old(self).bodies@.update(idx, Some(body))
                }
            }),
    {
        let n = self.headers.len();
        if n == 0 || body.number < self.headers[0].number {
            return Ok(BodyResponse::Unrequested);
        }
        let first = self.headers[0].number;
        if body.number - first >= n as u64 {
            return Ok(BodyResponse::Unrequested);
        }
        let idx = (body.number - first) as usize;
        proof {
            lemma_contiguous_number(self.headers@, idx as int);
        }
        if self.bodies[idx].is_some() {
            return Ok(BodyResponse::Duplicate);
        }
        if body.tx_root != self.headers[idx].tx_root {
            return Err(BodyError::RootMismatch { number: body.number });
        }
        self.bodies.set(idx, Some(body));
        Ok(BodyResponse::Accepted)
    }

    /// Hands out, in block order, every body from the next position on up to
    /// the first block whose body has not arrived.
    pub fn drain_ready(&mut self) -> (r: Vec<BlockBody>)
        requires
            old(self).wf(),
        ensures
            final(self).wf(),
            final(self).headers == old(self).headers,
            final(self).bodies == old(self).bodies,
            old(self).next <= final(self).next,
            final(self).next == old(self).headers@.len() || old(self).bodies@[final(self).next as int] is None,
            r@.len() == final(self).next - old(self).next,
            forall|k: int|
                0 <= k < r@.len() ==> Some(#[trigger] r@[k]) == old(self).bodies@[old(self).next + k]
                    && body_fits(r@[k], old(self).headers@[old(self).next + k]),
    {
        let n = self.headers.len();
        let start = self.next;
        let mut r: Vec<BlockBody> = Vec::new();
        let mut stop = false;
        while self.next < n && !stop
            invariant
                self.wf(),
                self.headers == old(self).headers,
                self.bodies == old(self).bodies,
                n == self.headers@.len(),
                start == old(self).next,
                start <= self.next <= n,
                stop ==> self.bodies@[self.next as int] is None,
                r@.len() == self.next - start,
                forall|k: int|
                    0 <= k < r@.len() ==> Some(#[trigger] r@[k]) == self.bodies@[start + k],
            decreases n - self.next, !stop as int,
        {
            match self.bodies[self.next] {
                Some(b) => {
                    r.push(b);
                    self.next = self.next + 1;
                },
                None => {
                    stop = true;
                },
            }
        }
        r
    }
}

proof fn lemma_missing_prefix(
    h: Seq<SealedHeader>,
    b: Seq<Option<BlockBody>>,
    start: int,
    i: int,
    j: int,
)
    requires
        start <= i <= j,
    ensures
        missing(h, b, start, i).len() <= missing(h, b, start, j).len(),
        missing(h, b, start, j).take(missing(h, b, start, i).len() as int) == missing(h, b, start, i),
    decreases j - i,
{
    if j > i {
        lemma_missing_prefix(h, b, start, i, j - 1);
        let p = missing(h, b, start, i);
        let q = missing(h, b, start, j - 1);
        assert(missing(h, b, start, j).take(p.len() as int) =~= q.take(p.len() as int));
    } else {
        assert(missing(h, b, start, j).take(missing(h, b, start, i).len() as int) =~= missing(
            h,
            b,
            start,
            i,
        ));
    }
}

proof fn lemma_contiguous_number(h: Seq<SealedHeader>, i: int)
    requires
        contiguous(h),
        0 <= i < h.len(),
    ensures
        h[i].number == h[0].number + i,
    decreases i,
{
    if i > 0 {
        lemma_contiguous_number(h, i - 1);
    }
}

} // verus!
