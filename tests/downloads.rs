use staged_sync::bodies::{BlockBody, BodiesQueue, BodyError, BodyResponse};
use staged_sync::headers::{validate_backward, BlockHash, HeaderError, SealedHeader};

fn h(n: u64) -> BlockHash {
    BlockHash { hi: 1, lo: n as u128 }
}

fn root(n: u64) -> BlockHash {
    BlockHash { hi: 2, lo: n as u128 }
}

fn header(n: u64) -> SealedHeader {
    SealedHeader { number: n, hash: h(n), parent_hash: h(n.wrapping_sub(1)), tx_root: root(n) }
}

fn body(n: u64) -> BlockBody {
    BlockBody { number: n, tx_root: root(n), tx_count: n }
}

#[test]
fn headers_from_tip_are_returned_ascending() {
    let fetched = vec![header(13), header(12), header(11)];
    let chain = validate_backward(h(13), &header(10), &fetched).unwrap();
    assert_eq!(chain, vec![header(11), header(12), header(13)]);
}

#[test]
fn header_at_tip_needs_nothing() {
    assert_eq!(validate_backward(h(10), &header(10), &Vec::new()), Ok(Vec::new()));
    assert_eq!(validate_backward(h(11), &header(10), &Vec::new()), Err(HeaderError::TipMismatch));
}

#[test]
fn wrong_tip_is_rejected() {
    let fetched = vec![header(12), header(11)];
    assert_eq!(validate_backward(h(13), &header(10), &fetched), Err(HeaderError::TipMismatch));
}

#[test]
fn broken_link_is_reported_not_skipped() {
    let mut bad = header(12);
    bad.parent_hash = h(99);
    let fetched = vec![header(13), bad, header(11)];
    assert_eq!(
        validate_backward(h(13), &header(10), &fetched),
        Err(HeaderError::Detached { index: 1, number: 12 })
    );
    let fetched = vec![header(13), header(12)];
    assert_eq!(
        validate_backward(h(13), &header(10), &fetched),
        Err(HeaderError::Detached { index: 1, number: 12 })
    );
}

#[test]
fn body_retried_after_three_failures_comes_out_in_order() {
    let mut q = BodiesQueue::new(vec![header(5), header(6), header(7)]).unwrap();
    assert_eq!(q.pending(), vec![5, 6, 7]);
    assert_eq!(q.on_response(body(7)), Ok(BodyResponse::Accepted));
    assert_eq!(q.on_response(body(6)), Ok(BodyResponse::Accepted));
    // the fetch of block 5 fails three times: it stays pending, nothing comes out
    for _ in 0..3 {
        assert_eq!(q.pending(), vec![5]);
        assert!(q.drain_ready().is_empty());
    }
    assert_eq!(q.on_response(body(5)), Ok(BodyResponse::Accepted));
    assert_eq!(q.drain_ready(), vec![body(5), body(6), body(7)]);
    assert!(q.pending().is_empty());
    assert!(q.drain_ready().is_empty());
}

#[test]
fn bodies_leave_only_in_unbroken_runs() {
    let mut q = BodiesQueue::new(vec![header(1), header(2), header(3), header(4)]).unwrap();
    q.on_response(body(1)).unwrap();
    q.on_response(body(3)).unwrap();
    assert_eq!(q.drain_ready(), vec![body(1)]);
    assert_eq!(q.pending(), vec![2, 4]);
    q.on_response(body(2)).unwrap();
    assert_eq!(q.drain_ready(), vec![body(2), body(3)]);
    assert_eq!(q.next, 3);
}

#[test]
fn duplicates_and_strangers_are_dropped() {
    let mut q = BodiesQueue::new(vec![header(1), header(2)]).unwrap();
    assert_eq!(q.on_response(body(1)), Ok(BodyResponse::Accepted));
    assert_eq!(q.on_response(body(1)), Ok(BodyResponse::Duplicate));
    assert_eq!(q.on_response(body(9)), Ok(BodyResponse::Unrequested));
    assert_eq!(q.on_response(body(0)), Ok(BodyResponse::Unrequested));
    q.on_response(body(2)).unwrap();
    assert_eq!(q.drain_ready(), vec![body(1), body(2)]);
}

#[test]
fn body_with_wrong_root_is_a_hard_failure() {
    let mut q = BodiesQueue::new(vec![header(1), header(2)]).unwrap();
    let mut b = body(2);
    b.tx_root = root(77);
    assert_eq!(q.on_response(b), Err(BodyError::RootMismatch { number: 2 }));
    assert_eq!(q.pending(), vec![1, 2]);
}

#[test]
fn headers_must_be_consecutive() {
    assert_eq!(
        BodiesQueue::new(vec![header(1), header(3)]).err(),
        Some(BodyError::HeadersNotContiguous { index: 1 })
    );
    assert!(BodiesQueue::new(Vec::new()).is_ok());
}

#[test]
fn requests_are_bounded_by_window() {
    let mut q = BodiesQueue::new(vec![header(1), header(2), header(3), header(4), header(5)]).unwrap();
    q.on_response(body(2)).unwrap();
    assert_eq!(q.pending_window(2), vec![1, 3]);
    assert_eq!(q.pending_window(10), vec![1, 3, 4, 5]);
    assert!(q.pending_window(0).is_empty());
}
