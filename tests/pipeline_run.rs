use staged_sync::pipeline::{default_stages, Pipeline, PipelineError, PipelineEvent, StageId, StageRange};

fn fresh() -> Pipeline {
    Pipeline::resume(default_stages(), vec![0; 5]).unwrap()
}

#[test]
fn default_stage_order() {
    assert_eq!(
        default_stages(),
        vec![StageId::Headers, StageId::Bodies, StageId::SenderRecovery, StageId::Execution, StageId::Finish]
    );
    let ranks: Vec<u8> = default_stages().iter().map(|s| s.rank()).collect();
    assert_eq!(ranks, vec![0, 1, 2, 3, 4]);
}

#[test]
fn resume_rejects_bad_inputs() {
    assert_eq!(Pipeline::resume(default_stages(), vec![0; 4]).err(), Some(PipelineError::CheckpointCount));
    assert_eq!(
        Pipeline::resume(vec![StageId::Bodies, StageId::Headers], vec![0, 0]).err(),
        Some(PipelineError::StageOrder { index: 1 })
    );
    assert_eq!(
        Pipeline::resume(vec![StageId::Headers, StageId::Headers], vec![0, 0]).err(),
        Some(PipelineError::StageOrder { index: 1 })
    );
    assert_eq!(
        Pipeline::resume(default_stages(), vec![10, 10, 4, 5, 0]).err(),
        Some(PipelineError::CheckpointAhead { index: 3 })
    );
    assert!(Pipeline::resume(default_stages(), vec![10, 10, 4, 4, 0]).is_ok());
}

#[test]
fn stages_run_in_order_bounded_by_predecessor() {
    let mut p = fresh();
    p.set_tip(100);
    // headers first
    let g = p.next_step().unwrap();
    assert_eq!(g, StageRange { index: 0, stage: StageId::Headers, from: 1, to: 100 });
    p.record_progress(0, 100).unwrap();
    // bodies get only up to what headers stored
    let g = p.next_step().unwrap();
    assert_eq!(g, StageRange { index: 1, stage: StageId::Bodies, from: 1, to: 100 });
    p.record_progress(1, 40).unwrap();
    // bodies are not done: the pipeline loops bodies again before moving on
    let g = p.next_step().unwrap();
    assert_eq!(g, StageRange { index: 1, stage: StageId::Bodies, from: 41, to: 100 });
    p.record_progress(1, 100).unwrap();
    let g = p.next_step().unwrap();
    assert_eq!(g.stage, StageId::SenderRecovery);
    p.record_progress(2, 100).unwrap();
    let g = p.next_step().unwrap();
    assert_eq!(g, StageRange { index: 3, stage: StageId::Execution, from: 1, to: 100 });
    // execution never reads past what sender recovery stored
    assert_eq!(p.record_progress(3, 101), Err(PipelineError::CheckpointOutOfRange { index: 3, checkpoint: 101 }));
    p.record_progress(3, 100).unwrap();
    p.next_step().unwrap();
    p.record_progress(4, 100).unwrap();
    assert_eq!(p.next_step(), None);
    assert_eq!(p.events.last(), Some(&PipelineEvent::RunFinished { tip: 100 }));
}

#[test]
fn later_stage_bounded_by_lower_predecessor() {
    let mut p = Pipeline::resume(default_stages(), vec![50, 30, 30, 10, 10]).unwrap();
    p.set_tip(80);
    let g = p.next_step().unwrap();
    assert_eq!(g, StageRange { index: 0, stage: StageId::Headers, from: 51, to: 80 });
    p.record_progress(0, 60).unwrap();
    let g = p.next_step().unwrap();
    assert_eq!(g, StageRange { index: 0, stage: StageId::Headers, from: 61, to: 80 });
    p.record_progress(0, 80).unwrap();
    let g = p.next_step().unwrap();
    assert_eq!(g, StageRange { index: 1, stage: StageId::Bodies, from: 31, to: 80 });
    p.set_tip(20);
    // a lower tip arrives: only the stages below it have work left
    let g = p.next_step().unwrap();
    assert_eq!(g, StageRange { index: 3, stage: StageId::Execution, from: 11, to: 20 });
}

#[test]
fn record_progress_rejects_bad_reports() {
    let mut p = Pipeline::resume(default_stages(), vec![10, 5, 5, 5, 5]).unwrap();
    p.set_tip(20);
    assert_eq!(p.record_progress(9, 1), Err(PipelineError::UnknownStage { index: 9 }));
    assert_eq!(p.record_progress(1, 4), Err(PipelineError::CheckpointOutOfRange { index: 1, checkpoint: 4 }));
    assert_eq!(p.record_progress(1, 11), Err(PipelineError::CheckpointOutOfRange { index: 1, checkpoint: 11 }));
    assert_eq!(p.checkpoints, vec![10, 5, 5, 5, 5]);
    assert_eq!(p.record_progress(1, 10), Ok(()));
    assert_eq!(p.events, vec![PipelineEvent::StageCheckpoint { stage: StageId::Bodies, checkpoint: 10 }]);
}

#[test]
fn unwind_goes_last_stage_first() {
    let mut p = Pipeline::resume(default_stages(), vec![90, 80, 70, 60, 5]).unwrap();
    let plan = p.unwind(65);
    assert_eq!(plan, vec![(StageId::SenderRecovery, 70), (StageId::Bodies, 80), (StageId::Headers, 90)]);
    assert_eq!(p.checkpoints, vec![65, 65, 65, 60, 5]);
    assert_eq!(
        p.events,
        vec![
            PipelineEvent::StageUnwound { stage: StageId::SenderRecovery, checkpoint: 65 },
            PipelineEvent::StageUnwound { stage: StageId::Bodies, checkpoint: 65 },
            PipelineEvent::StageUnwound { stage: StageId::Headers, checkpoint: 65 },
        ]
    );
}

#[test]
fn second_unwind_to_same_target_is_noop() {
    let mut p = Pipeline::resume(default_stages(), vec![9, 9, 9, 9, 9]).unwrap();
    assert_eq!(p.unwind(3).len(), 5);
    let cps = p.checkpoints.clone();
    let n = p.events.len();
    assert!(p.unwind(3).is_empty());
    assert_eq!(p.checkpoints, cps);
    assert_eq!(p.events.len(), n);
}
