use daw_reaper::batch::{
    all_ops_sync_supported, choose_batch_path, is_sync_supported, unimplemented_op_error,
    BatchOpKind, BatchPath, resolve_fx_chain_arg, resolve_project_arg, resolve_track_arg,
    BatchRun, ExpectedOutput, FxChainArg, ProjectArg, ResolveError, Resolved, StepDecision,
    StepOutcome, StepValue, TrackArg,
};

#[test]
fn dependency_on_failed_step_skips() {
    let mut run: BatchRun<u32> = BatchRun::new(vec![0, 1, 2], false, None);
    assert_eq!(run.begin(), None);
    assert_eq!(run.next_step(), Some(0));
    assert_eq!(run.decide(&[]), StepDecision::Dispatch);
    let stop = run.record_error("boom".to_string());
    assert!(!stop);
    assert_eq!(run.next_step(), Some(1));
    assert_eq!(run.decide(&[0]), StepDecision::Skip(0));
    run.record_skipped(0);
    assert_eq!(run.next_step(), Some(2));
    assert_eq!(run.decide(&[1]), StepDecision::Skip(1));
    run.record_skipped(1);
    assert_eq!(run.next_step(), None);
    assert_eq!(run.end(), None);
    let results = run.into_results();
    assert_eq!(results.len(), 3);
    assert!(matches!(results[0].outcome, StepOutcome::Failed(ref m) if m == "boom"));
    assert!(matches!(results[1].outcome, StepOutcome::Skipped(0)));
    assert!(matches!(results[2].outcome, StepOutcome::Skipped(1)));
}

#[test]
fn outputs_are_kept_by_step_number() {
    let mut run: BatchRun<u32> = BatchRun::new(vec![0, 1], true, None);
    assert_eq!(run.begin(), None);
    run.record_ok(7);
    assert_eq!(run.decide(&[0]), StepDecision::Dispatch);
    run.record_ok(9);
    assert_eq!(run.outputs_slice(), &[Some(7), Some(9)]);
    assert_eq!(run.end(), None);
    let results = run.into_results();
    assert_eq!(results[0].step, 0);
    assert!(matches!(results[1].outcome, StepOutcome::Done(9)));
}

#[test]
fn fail_fast_skips_the_rest() {
    let mut run: BatchRun<u32> = BatchRun::new(vec![0, 1, 2, 3], true, None);
    assert_eq!(run.begin(), None);
    run.record_ok(1);
    assert!(run.record_error("bad".to_string()));
    assert_eq!(run.next_step(), None);
    assert_eq!(run.end(), None);
    let results = run.into_results();
    assert_eq!(results.len(), 4);
    assert_eq!(results[2].step, 2);
    assert!(matches!(results[2].outcome, StepOutcome::Skipped(1)));
    assert!(matches!(results[3].outcome, StepOutcome::Skipped(1)));
}

#[test]
fn dependency_outside_the_batch_does_not_skip() {
    let mut run: BatchRun<u32> = BatchRun::new(vec![0], false, None);
    run.begin();
    assert_eq!(run.decide(&[5, 9]), StepDecision::Dispatch);
}

#[test]
fn project_argument_from_step() {
    let outputs = vec![Some(StepValue::ProjectInfo("p-1".to_string())), None];
    let lit: ProjectArg<u8> = ProjectArg::Literal(3);
    assert!(matches!(resolve_project_arg(&lit, &outputs), Ok(Resolved::Literal(&3))));
    let from: ProjectArg<u8> = ProjectArg::FromStep(0);
    assert!(matches!(resolve_project_arg(&from, &outputs), Ok(Resolved::FromGuid(ref g)) if g == "p-1"));
    let missing: ProjectArg<u8> = ProjectArg::FromStep(1);
    assert!(matches!(resolve_project_arg(&missing, &outputs), Err(ResolveError::NoOutput(1))));
    let beyond: ProjectArg<u8> = ProjectArg::FromStep(7);
    assert!(matches!(resolve_project_arg(&beyond, &outputs), Err(ResolveError::NoOutput(7))));
}

#[test]
fn track_argument_from_string_output_and_list() {
    let outputs = vec![
        Some(StepValue::Str("t-guid".to_string())),
        Some(StepValue::TrackList(vec!["a".to_string(), "b".to_string()])),
        Some(StepValue::Other),
    ];
    let a: TrackArg<u8> = TrackArg::FromStep(0);
    assert!(matches!(resolve_track_arg(&a, &outputs), Ok(Resolved::FromGuid(ref g)) if g == "t-guid"));
    let b: TrackArg<u8> = TrackArg::FromStepIndex(1, 1);
    assert!(matches!(resolve_track_arg(&b, &outputs), Ok(Resolved::FromGuid(ref g)) if g == "b"));
    let c: TrackArg<u8> = TrackArg::FromStepIndex(1, 2);
    assert!(matches!(
        resolve_track_arg(&c, &outputs),
        Err(ResolveError::IndexOutOfBounds { step: 1, len: 2, index: 2 })
    ));
    let d: TrackArg<u8> = TrackArg::FromStep(2);
    assert!(matches!(
        resolve_track_arg(&d, &outputs),
        Err(ResolveError::WrongOutput { step: 2, expected: ExpectedOutput::TrackOrString })
    ));
    let e: TrackArg<u8> = TrackArg::FromStepIndex(0, 0);
    assert!(matches!(
        resolve_track_arg(&e, &outputs),
        Err(ResolveError::WrongOutput { step: 0, expected: ExpectedOutput::TrackList })
    ));
}

#[test]
fn fx_chain_argument_from_track() {
    let outputs = vec![Some(StepValue::OptTrack(Some("tr".to_string()))), Some(StepValue::OptTrack(None))];
    let a: FxChainArg<u8> = FxChainArg::TrackFromStep(0);
    assert!(matches!(resolve_fx_chain_arg(&a, &outputs), Ok(Resolved::FromGuid(ref g)) if g == "tr"));
    let b: FxChainArg<u8> = FxChainArg::TrackFromStep(1);
    assert!(matches!(
        resolve_fx_chain_arg(&b, &outputs),
        Err(ResolveError::WrongOutput { step: 1, expected: ExpectedOutput::TrackForFxChain })
    ));
}

#[test]
fn sync_path_needs_every_op() {
    type K = BatchOpKind;
    assert!(all_ops_sync_supported(&[K::Project, K::Fx, K::MidiAnalysis]));
    assert!(all_ops_sync_supported(&[]));
    assert!(!all_ops_sync_supported(&[K::Track, K::Toolbar, K::Item]));
    assert!(!is_sync_supported(K::Automation));
    assert!(!is_sync_supported(K::PluginLoader));
    assert!(is_sync_supported(K::AudioAccessor));
    assert_eq!(choose_batch_path(&[K::Track, K::Item]), BatchPath::Sync);
    assert_eq!(choose_batch_path(&[K::Track, K::PluginLoader]), BatchPath::Async);
}

#[test]
fn automation_is_not_implemented() {
    assert_eq!(
        unimplemented_op_error(BatchOpKind::Automation),
        Some("AutomationService is not yet implemented".to_string())
    );
    assert_eq!(unimplemented_op_error(BatchOpKind::Fx), None);
}

#[test]
fn undo_label_brackets_the_batch() {
    let mut run: BatchRun<u32> = BatchRun::new(vec![0, 1], true, Some("Batch edit".to_string()));
    assert_eq!(run.begin(), Some("Batch edit".to_string()));
    run.record_ok(1);
    assert!(run.record_error("bad".to_string()));
    assert_eq!(run.end(), Some("Batch edit".to_string()));
    assert_eq!(run.into_results().len(), 2);
}

#[test]
fn resolve_errors_have_messages() {
    assert_eq!(ResolveError::NoOutput(3).message(), "step 3 has no output");
    assert_eq!(
        ResolveError::WrongOutput { step: 2, expected: ExpectedOutput::TrackList }.message(),
        "step 2 produced another output, expected TrackList"
    );
    assert_eq!(
        ResolveError::WrongOutput { step: 0, expected: ExpectedOutput::TrackForFxChain }.message(),
        "step 0 produced another output, expected Track for FxChainContext"
    );
    assert_eq!(
        ResolveError::IndexOutOfBounds { step: 1, len: 2, index: 5 }.message(),
        "step 1 track list has 2 items, index 5 out of bounds"
    );
}
