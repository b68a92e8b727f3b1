use staged_sync::execution::{ExExNotification, ExecOutput, ExecutionError, ExecutionStage, ExecutionStore, Receipt};
use staged_sync::thresholds::{BatchTotals, BlockCost, ExecutionStageThresholds};

fn cost(changes: u64, gas: u64, duration_ms: u64) -> BlockCost {
    BlockCost { changes, gas, duration_ms }
}

fn outcomes(store: &ExecutionStore, target: u64, c: BlockCost) -> Vec<Option<BlockCost>> {
    let n = if target > store.checkpoint { target - store.checkpoint } else { 0 };
    vec![Some(c); n as usize]
}

fn max_blocks(n: u64) -> ExecutionStageThresholds {
    ExecutionStageThresholds { max_blocks: Some(n), ..ExecutionStageThresholds::unbounded() }
}

#[test]
fn batches_of_ten_over_twenty_five_blocks() {
    let stage = ExecutionStage::new(max_blocks(10));
    let mut store = ExecutionStore::new();
    let mut sizes = Vec::new();
    loop {
        let before = store.checkpoint;
        let o = outcomes(&store, 25, cost(1, 1, 1));
        let out = stage.execute(&mut store, &mut Vec::new(), 25, &o).unwrap();
        sizes.push(out.checkpoint - before);
        if out.done {
            break;
        }
    }
    assert_eq!(sizes, vec![10, 10, 5]);
    assert_eq!(store.checkpoint, 25);
    assert_eq!(store.receipts.len(), 25);
    for (i, r) in store.receipts.iter().enumerate() {
        assert_eq!(r.block, i as u64 + 1);
    }
}

#[test]
fn unbounded_batch_runs_whole_range() {
    let stage = ExecutionStage::new(ExecutionStageThresholds::unbounded());
    let mut store = ExecutionStore::new();
    let o = outcomes(&store, 7, cost(2, 3, 4));
    let out = stage.execute(&mut store, &mut Vec::new(), 7, &o).unwrap();
    assert_eq!(out, ExecOutput { checkpoint: 7, done: true });
}

#[test]
fn gas_bound_stops_after_block_that_reaches_it() {
    let th = ExecutionStageThresholds { max_cumulative_gas: Some(100), ..ExecutionStageThresholds::unbounded() };
    let stage = ExecutionStage::new(th);
    let mut store = ExecutionStore::new();
    let o = vec![Some(cost(0, 40, 0)), Some(cost(0, 40, 0)), Some(cost(0, 70, 0)), Some(cost(0, 1, 0))];
    let out = stage.execute(&mut store, &mut Vec::new(), 4, &o).unwrap();
    assert_eq!(out, ExecOutput { checkpoint: 3, done: false });
    let total: u64 = store.receipts.iter().map(|r| r.cost.gas).sum();
    assert_eq!(total, 150);
    // over the bound by less than the last block's gas
    assert!(total <= 100 + 70);
}

#[test]
fn zero_bound_still_executes_one_block() {
    let th = ExecutionStageThresholds { max_changes: Some(0), ..ExecutionStageThresholds::unbounded() };
    let stage = ExecutionStage::new(th);
    let mut store = ExecutionStore::new();
    let o = outcomes(&store, 3, cost(5, 5, 5));
    let out = stage.execute(&mut store, &mut Vec::new(), 3, &o).unwrap();
    assert_eq!(out, ExecOutput { checkpoint: 1, done: false });
}

#[test]
fn failed_block_commits_nothing() {
    let stage = ExecutionStage::new(ExecutionStageThresholds::unbounded());
    let mut store = ExecutionStore::new();
    let first = outcomes(&store, 2, cost(1, 1, 1));
    stage.execute(&mut store, &mut Vec::new(), 2, &first).unwrap();
    let before = store.clone();
    let o = vec![Some(cost(1, 1, 1)), None, Some(cost(1, 1, 1))];
    let r = stage.execute(&mut store, &mut Vec::new(), 5, &o);
    assert_eq!(r, Err(ExecutionError::BlockFailed { block: 4 }));
    assert_eq!(store, before);
    // resuming from the persisted checkpoint gives what an uninterrupted run gives
    let o = outcomes(&store, 5, cost(1, 1, 1));
    stage.execute(&mut store, &mut Vec::new(), 5, &o).unwrap();
    let mut straight = ExecutionStore::new();
    let o = outcomes(&straight, 5, cost(1, 1, 1));
    stage.execute(&mut straight, &mut Vec::new(), 5, &o).unwrap();
    assert_eq!(store, straight);
}

#[test]
fn checkpoint_never_decreases() {
    let stage = ExecutionStage::new(max_blocks(3));
    let mut store = ExecutionStore::new();
    let mut last = 0;
    for target in [4u64, 2, 9, 9, 1, 12] {
        let o = outcomes(&store, target, cost(1, 1, 1));
        let out = stage.execute(&mut store, &mut Vec::new(), target, &o).unwrap();
        assert!(out.checkpoint >= last);
        last = out.checkpoint;
    }
    assert_eq!(last, 12);
}

#[test]
fn target_at_checkpoint_is_done() {
    let stage = ExecutionStage::new(max_blocks(3));
    let mut store = ExecutionStore::new();
    let out = stage.execute(&mut store, &mut Vec::new(), 0, &Vec::new()).unwrap();
    assert_eq!(out, ExecOutput { checkpoint: 0, done: true });
}

#[test]
fn unwind_to_zero_restores_empty_store() {
    let stage = ExecutionStage::new(max_blocks(4));
    let mut store = ExecutionStore::new();
    while store.checkpoint < 10 {
        let o = outcomes(&store, 10, cost(3, 21000, 2));
        stage.execute(&mut store, &mut Vec::new(), 10, &o).unwrap();
    }
    assert_eq!(store.unwind(0), 0);
    assert_eq!(store, ExecutionStore::new());
}

#[test]
fn unwind_to_batch_start_restores_store() {
    let stage = ExecutionStage::new(ExecutionStageThresholds::unbounded());
    let mut store = ExecutionStore::new();
    let o = outcomes(&store, 3, cost(1, 2, 3));
    stage.execute(&mut store, &mut Vec::new(), 3, &o).unwrap();
    let before = store.clone();
    let o = outcomes(&store, 8, cost(4, 5, 6));
    stage.execute(&mut store, &mut Vec::new(), 8, &o).unwrap();
    assert_eq!(store.unwind(3), 3);
    assert_eq!(store, before);
}

#[test]
fn unwind_twice_is_noop() {
    let stage = ExecutionStage::new(ExecutionStageThresholds::unbounded());
    let mut store = ExecutionStore::new();
    let o = outcomes(&store, 6, cost(1, 1, 1));
    stage.execute(&mut store, &mut Vec::new(), 6, &o).unwrap();
    assert_eq!(store.unwind(2), 2);
    let once = store.clone();
    assert_eq!(store.unwind(2), 2);
    assert_eq!(store, once);
    assert_eq!(store.receipts, vec![Receipt { block: 1, cost: cost(1, 1, 1) }, Receipt { block: 2, cost: cost(1, 1, 1) }]);
}

#[test]
fn unwind_above_checkpoint_changes_nothing() {
    let mut store = ExecutionStore::new();
    assert_eq!(store.unwind(5), 0);
    assert_eq!(store, ExecutionStore::new());
}

#[test]
fn end_of_batch_checks_every_bound() {
    let th = ExecutionStageThresholds {
        max_blocks: Some(5),
        max_changes: Some(100),
        max_cumulative_gas: Some(1000),
        max_duration_ms: Some(60),
    };
    let t = |blocks, changes, gas, duration_ms| BatchTotals { blocks, changes, gas, duration_ms };
    assert!(!th.is_end_of_batch(&t(4, 99, 999, 59)));
    assert!(th.is_end_of_batch(&t(5, 0, 0, 0)));
    assert!(th.is_end_of_batch(&t(0, 100, 0, 0)));
    assert!(th.is_end_of_batch(&t(0, 0, 1000, 0)));
    assert!(th.is_end_of_batch(&t(0, 0, 0, 60)));
    assert!(!ExecutionStageThresholds::unbounded().is_end_of_batch(&t(u64::MAX, u64::MAX, u64::MAX, u64::MAX)));
}

#[test]
fn totals_saturate() {
    let t = BatchTotals::zero().add(&cost(u64::MAX, 1, 2)).add(&cost(1, 1, 1));
    assert_eq!(t, BatchTotals { blocks: 2, changes: u64::MAX, gas: 2, duration_ms: 3 });
}

#[test]
fn run_to_target_reports_each_batch() {
    let stage = ExecutionStage::new(max_blocks(10));
    let mut store = ExecutionStore::new();
    let o = vec![Some(cost(1, 1, 1)); 25];
    assert_eq!(stage.run_to_target(&mut store, &mut Vec::new(), 25, &o), Ok(vec![10, 10, 5]));
    assert_eq!(store.checkpoint, 25);
}

#[test]
fn run_to_target_keeps_batches_before_a_failure() {
    let stage = ExecutionStage::new(max_blocks(4));
    let mut store = ExecutionStore::new();
    let mut o = vec![Some(cost(1, 1, 1)); 10];
    o[5] = None;
    assert_eq!(stage.run_to_target(&mut store, &mut Vec::new(), 10, &o), Err(ExecutionError::BlockFailed { block: 6 }));
    assert_eq!(store.checkpoint, 4);
}

#[test]
fn hooks_hear_of_each_committed_batch() {
    let stage = ExecutionStage::new(max_blocks(10));
    let mut store = ExecutionStore::new();
    let mut exex = Vec::new();
    let o = vec![Some(cost(1, 1, 1)); 25];
    stage.run_to_target(&mut store, &mut exex, 25, &o).unwrap();
    assert_eq!(
        exex,
        vec![
            ExExNotification { from: 1, to: 10 },
            ExExNotification { from: 11, to: 20 },
            ExExNotification { from: 21, to: 25 },
        ]
    );
    // unwinding sends nothing
    store.unwind(0);
    assert_eq!(exex.len(), 3);
}

#[test]
fn failed_batch_sends_nothing() {
    let stage = ExecutionStage::new(ExecutionStageThresholds::unbounded());
    let mut store = ExecutionStore::new();
    let mut exex = Vec::new();
    let o = vec![Some(cost(1, 1, 1)), None];
    assert!(stage.execute(&mut store, &mut exex, 2, &o).is_err());
    assert!(exex.is_empty());
    assert!(stage.execute(&mut store, &mut exex, 0, &Vec::new()).is_ok());
    assert!(exex.is_empty());
}
