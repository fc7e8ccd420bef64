use coeirobottle::errors::InstallError;
use coeirobottle::orchestrator::{
    temp_root_for, AttemptRegistry, FlowInput, InstallFlow, ProgressEvent,
    DOWNLOAD_EMIT_THRESHOLD,
};

#[test]
fn second_attempt_is_rejected_while_one_is_active() {
    let mut registry = AttemptRegistry::new();
    assert!(registry.begin().is_ok());
    // no transfer has begun, no temporary file exists: the refusal is
    // immediate, before any work is started for the second request
    let err = registry.begin().unwrap_err();
    assert!(matches!(err, InstallError::AlreadyInProgress));
    assert_eq!(err.message(), "Installation already in progress");
    assert!(registry.in_progress());
    registry.finish();
    assert!(!registry.in_progress());
    assert!(registry.begin().is_ok());
}

fn count_terminal(events: &[ProgressEvent]) -> usize {
    events
        .iter()
        .filter(|e| {
            matches!(
                e,
                ProgressEvent::Done | ProgressEvent::Failed { .. } | ProgressEvent::Cancelled
            )
        })
        .count()
}

#[test]
fn cancel_mid_download_ends_the_stream() {
    let (mut flow, first) = InstallFlow::begin();
    let mut events = vec![first];
    let mut push = |e: Option<ProgressEvent>, events: &mut Vec<ProgressEvent>| {
        if let Some(e) = e {
            events.push(e);
        }
    };
    push(flow.step(FlowInput::BeginDownload { total: 100 }), &mut events);
    push(flow.step(FlowInput::Chunk { bytes: DOWNLOAD_EMIT_THRESHOLD + 1 }), &mut events);
    push(flow.step(FlowInput::Cancel), &mut events);
    assert!(matches!(events.last(), Some(ProgressEvent::Cancelled)));
    assert!(flow.is_finished());

    // nothing follows the cancellation, whatever the driver reports
    assert!(flow.step(FlowInput::BeginOuter { total: 3 }).is_none());
    assert!(flow.step(FlowInput::OuterEntry).is_none());
    assert!(flow.step(FlowInput::InstallEntry { name: "x".to_string() }).is_none());
    assert!(flow.step(FlowInput::Finish).is_none());
    assert!(flow.step(FlowInput::Cancel).is_none());
    assert_eq!(count_terminal(&events), 1);
}

#[test]
fn happy_path_emits_the_stage_sequence() {
    let (mut flow, first) = InstallFlow::begin();
    assert!(matches!(first, ProgressEvent::Initializing));
    let mut events = vec![first];
    let inputs = vec![
        FlowInput::BeginDownload { total: 50_000_000 },
        FlowInput::Chunk { bytes: 1024 },
        FlowInput::Chunk { bytes: DOWNLOAD_EMIT_THRESHOLD + 1 },
        FlowInput::BeginOuter { total: 2 },
        FlowInput::OuterEntry,
        FlowInput::OuterEntry,
        FlowInput::BeginListing,
        FlowInput::BeginInstall { total: 2, first: "a.bin".to_string() },
        FlowInput::InstallEntry { name: "a.bin".to_string() },
        FlowInput::InstallEntry { name: "b.bin".to_string() },
        FlowInput::BeginConfigure,
        FlowInput::Finish,
    ];
    for inp in inputs {
        if let Some(e) = flow.step(inp) {
            events.push(e);
        }
    }
    assert!(flow.is_finished());
    assert_eq!(count_terminal(&events), 1);
    assert!(matches!(events[0], ProgressEvent::Initializing));
    assert!(
        matches!(events[1], ProgressEvent::Downloading { progress, total }
            if progress == 1024 + DOWNLOAD_EMIT_THRESHOLD + 1 && total == 50_000_000)
    );
    assert!(matches!(events[2], ProgressEvent::Extracting { progress: 0, total: 2 }));
    assert!(matches!(events[3], ProgressEvent::Extracting { progress: 1, total: 2 }));
    assert!(matches!(events[4], ProgressEvent::Extracting { progress: 2, total: 2 }));
    match &events[5] {
        ProgressEvent::Installing { progress, total, current } => {
            assert_eq!((*progress, *total, current.as_str()), (0, 2, "a.bin"));
        },
        other => panic!("expected Installing, got {:?}", other),
    }
    match &events[7] {
        ProgressEvent::Installing { progress, current, .. } => {
            assert_eq!((*progress, current.as_str()), (2, "b.bin"));
        },
        other => panic!("expected Installing, got {:?}", other),
    }
    assert!(matches!(events[8], ProgressEvent::Configuring));
    assert!(matches!(events[9], ProgressEvent::Done));
    assert_eq!(events.len(), 10);
}

#[test]
fn transfer_events_respect_the_threshold() {
    let (mut flow, _first) = InstallFlow::begin();
    assert!(flow.step(FlowInput::BeginDownload { total: 0 }).is_none());
    // exactly at the threshold: nothing yet
    assert!(flow.step(FlowInput::Chunk { bytes: DOWNLOAD_EMIT_THRESHOLD }).is_none());
    // one more byte crosses it
    let e = flow.step(FlowInput::Chunk { bytes: 1 }).unwrap();
    assert!(matches!(e, ProgressEvent::Downloading { progress, total: 0 }
        if progress == DOWNLOAD_EMIT_THRESHOLD + 1));
    // the threshold counter restarts: small chunks stay silent again
    assert!(flow.step(FlowInput::Chunk { bytes: 1024 }).is_none());
}

#[test]
fn failure_is_terminal_and_carries_the_message() {
    let (mut flow, _first) = InstallFlow::begin();
    flow.step(FlowInput::BeginDownload { total: 10 });
    let e = flow.step(FlowInput::Fail { message: "Failed to download: timeout".to_string() });
    match e {
        Some(ProgressEvent::Failed { message }) => {
            assert_eq!(message, "Failed to download: timeout");
        },
        other => panic!("expected Failed, got {:?}", other),
    }
    assert!(flow.is_finished());
    assert!(flow.step(FlowInput::Finish).is_none());
}

#[test]
fn stage_mismatched_inputs_are_ignored() {
    let (mut flow, _first) = InstallFlow::begin();
    // not downloading yet: chunks and extraction reports change nothing
    assert!(flow.step(FlowInput::Chunk { bytes: 5 }).is_none());
    assert!(flow.step(FlowInput::OuterEntry).is_none());
    assert!(flow.step(FlowInput::Finish).is_none());
    assert!(!flow.is_finished());
    // the regular opening still works afterwards
    assert!(flow.step(FlowInput::BeginDownload { total: 1 }).is_none());
}

#[test]
fn temp_root_takes_the_drive_letter() {
    assert_eq!(temp_root_for("C:\\Users\\me\\AppData"), Some("C:\\".to_string()));
    assert_eq!(temp_root_for("D:rel"), Some("D:\\".to_string()));
    assert_eq!(temp_root_for(""), None);
}
