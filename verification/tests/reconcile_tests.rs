use coeirobottle::errors::InstallError;
use coeirobottle::reconcile::{payload_root, plan_reconciliation, FsEntry};

fn entry(name: &str, is_dir: bool) -> FsEntry {
    FsEntry { name: name.to_string(), is_dir }
}

fn names(entries: &[FsEntry]) -> Vec<String> {
    entries.iter().map(|e| e.name.clone()).collect()
}

#[test]
fn preservation_spares_the_protected_subtree() {
    let existing = vec![
        entry("COEIROINKv2.exe", false),
        entry("speaker_info", true),
        entry("engine", true),
        entry("stale.txt", false),
    ];
    let payload = vec![
        entry("COEIROINKv2.exe", false),
        entry("engine", true),
        entry("speaker_info", true),
        entry("readme.txt", false),
    ];
    let plan = plan_reconciliation(&existing, &payload, true);
    assert_eq!(
        names(&plan.deletions),
        vec!["COEIROINKv2.exe".to_string(), "engine".to_string(), "stale.txt".to_string()]
    );
    assert_eq!(
        names(&plan.moves),
        vec!["COEIROINKv2.exe".to_string(), "engine".to_string(), "readme.txt".to_string()]
    );

    // the net effect: target = new payload plus the old protected subtree
    let mut final_names: Vec<String> = existing
        .iter()
        .map(|e| e.name.clone())
        .filter(|n| !names(&plan.deletions).contains(n))
        .collect();
    final_names.extend(names(&plan.moves));
    final_names.sort();
    assert_eq!(
        final_names,
        vec![
            "COEIROINKv2.exe".to_string(),
            "engine".to_string(),
            "readme.txt".to_string(),
            "speaker_info".to_string(),
        ]
    );
}

#[test]
fn without_preservation_everything_is_replaced() {
    let existing = vec![entry("speaker_info", true), entry("engine", true)];
    let payload = vec![entry("speaker_info", true), entry("engine", true)];
    let plan = plan_reconciliation(&existing, &payload, false);
    assert_eq!(names(&plan.deletions), vec!["speaker_info".to_string(), "engine".to_string()]);
    assert_eq!(names(&plan.moves), vec!["speaker_info".to_string(), "engine".to_string()]);
}

#[test]
fn empty_target_needs_no_deletions() {
    let payload = vec![entry("engine", true)];
    let plan = plan_reconciliation(&Vec::new(), &payload, true);
    assert!(plan.deletions.is_empty());
    assert_eq!(names(&plan.moves), vec!["engine".to_string()]);
}

#[test]
fn payload_root_is_the_single_top_level_directory() {
    let entries = vec![entry("COEIROINK_WIN", true)];
    let root = payload_root(&entries).unwrap();
    assert_eq!(root.name, "COEIROINK_WIN");
    assert!(root.is_dir);
}

#[test]
fn missing_payload_root_is_an_error() {
    let err = payload_root(&Vec::new()).unwrap_err();
    match err {
        InstallError::Reconciliation(m) => {
            assert_eq!(m, "Could not find actual extracted dir");
        },
        other => panic!("expected Reconciliation, got {:?}", other),
    }
}
