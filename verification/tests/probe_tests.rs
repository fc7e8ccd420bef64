use coeirobottle::catalog::Edition;
use coeirobottle::checkver::{check_version, fetch_latest_coeirobottle_version};
use coeirobottle::directory::{is_coeiroink_dir, is_safe_to_install};
use coeirobottle::errors::InstallError;
use coeirobottle::probe::{
    build_version_info, clean_version_text, executable_name, gpu_runtime_components,
    infer_edition,
};

#[test]
fn version_text_loses_its_nul_padding() {
    assert_eq!(clean_version_text("2.1.0\u{0}\u{0}"), "2.1.0");
    assert_eq!(clean_version_text("2.1.0"), "2.1.0");
    assert_eq!(clean_version_text(""), "");
    assert_eq!(clean_version_text("\u{0}\u{0}"), "");
}

#[test]
fn edition_follows_the_gpu_runtime() {
    assert_eq!(infer_edition(true), Edition::Gpu);
    assert_eq!(infer_edition(false), Edition::Cpu);
    let info = build_version_info("2.1.0".to_string(), true);
    assert_eq!(info.version, "2.1.0");
    assert_eq!(info.edition, Edition::Gpu);
    let info = build_version_info("2.1.0".to_string(), false);
    assert_eq!(info.edition, Edition::Cpu);
}

#[test]
fn probe_paths_are_fixed() {
    assert_eq!(executable_name(), "COEIROINKv2.exe");
    assert_eq!(
        gpu_runtime_components(),
        vec![
            "engine".to_string(),
            "torch".to_string(),
            "lib".to_string(),
            "cudnn64_8.dll".to_string(),
        ]
    );
}

#[test]
fn probe_interpretation_is_deterministic() {
    // the same native answers always yield the same probe result,
    // however many callers ask
    let a = build_version_info(clean_version_text("2.1.0\u{0}"), true);
    let b = build_version_info(clean_version_text("2.1.0\u{0}"), true);
    assert_eq!(a.version, b.version);
    assert_eq!(a.edition, b.edition);
}

#[test]
fn nonexistent_target_is_safe_but_no_install() {
    assert!(is_safe_to_install(false, &Vec::new()));
    assert!(!is_coeiroink_dir(false, &Vec::new()));
}

#[test]
fn leftover_install_entries_are_safe() {
    let entries = vec![
        "COEIROINKv2.exe".to_string(),
        "engine".to_string(),
        "speaker_info".to_string(),
    ];
    assert!(is_safe_to_install(true, &entries));
    assert!(is_coeiroink_dir(true, &entries));
}

#[test]
fn foreign_entries_make_a_target_unsafe() {
    let entries = vec!["engine".to_string(), "my_thesis.docx".to_string()];
    assert!(!is_safe_to_install(true, &entries));
}

#[test]
fn partial_installs_are_not_recognized() {
    let entries = vec!["COEIROINKv2.exe".to_string(), "engine".to_string()];
    assert!(!is_coeiroink_dir(true, &entries));
    assert!(is_safe_to_install(true, &entries));
}

#[test]
fn version_check_turns_failures_into_empty_slots() {
    let r = check_version(Ok("2.1.0".to_string()), Ok("0.0.0".to_string()));
    assert_eq!(r.coeiroink, Some("2.1.0".to_string()));
    assert_eq!(r.coeirobottle, Some("0.0.0".to_string()));

    let r = check_version(
        Err(InstallError::CatalogFetch("offline".to_string())),
        Ok("0.0.0".to_string()),
    );
    assert_eq!(r.coeiroink, None);
    assert_eq!(r.coeirobottle, Some("0.0.0".to_string()));
}

#[test]
fn installer_version_is_the_fixed_null_version() {
    assert_eq!(fetch_latest_coeirobottle_version(), "0.0.0");
}

#[test]
fn error_messages_follow_the_taxonomy() {
    assert_eq!(
        InstallError::CatalogFetch("timeout".to_string()).message(),
        "Could not fetch downloads: timeout"
    );
    assert_eq!(
        InstallError::Transfer("status 503".to_string()).message(),
        "Failed to download: status 503"
    );
    assert_eq!(
        InstallError::Extraction("exit code 2".to_string()).message(),
        "Failed to extract 7z: exit code 2"
    );
    assert_eq!(
        InstallError::Reconciliation("disk full".to_string()).message(),
        "Failed to install: disk full"
    );
    assert_eq!(
        InstallError::VersionQuery("no resource".to_string()).message(),
        "Failed to query version: no resource"
    );
    assert_eq!(InstallError::AlreadyInProgress.message(), "Installation already in progress");
    assert_eq!(InstallError::MissingInnerArchive.message(), "Could not find 7z file");
}
