use coeirobottle::archive::{
    archiver_extract_args, archiver_list_args, find_first_volume, is_safe_entry_path,
    line_last_field, parse_archive_listing, parse_extract_line, split_lines,
    validate_entry_paths,
};
use coeirobottle::errors::InstallError;

#[test]
fn safe_paths_pass_validation() {
    let paths = vec![
        "COEIROINK_WIN/".to_string(),
        "COEIROINK_WIN/run.exe".to_string(),
        "a/deeply/nested/file.bin".to_string(),
    ];
    assert!(validate_entry_paths(&paths).is_ok());
}

#[test]
fn traversal_entry_fails_extraction() {
    let paths = vec![
        "fine.txt".to_string(),
        "../evil.txt".to_string(),
        "also_fine.txt".to_string(),
    ];
    let err = validate_entry_paths(&paths).unwrap_err();
    match err {
        InstallError::UnsafePath(p) => assert_eq!(p, "../evil.txt"),
        other => panic!("expected UnsafePath, got {:?}", other),
    }
}

#[test]
fn unsafe_path_message_names_the_path() {
    let err = validate_entry_paths(&vec!["x/../y".to_string()]).unwrap_err();
    assert_eq!(err.message(), "Invalid path: x/../y");
}

#[test]
fn any_parent_marker_is_rejected() {
    assert!(is_safe_entry_path("a/b/c.txt"));
    assert!(!is_safe_entry_path("../c.txt"));
    assert!(!is_safe_entry_path("a/../c.txt"));
    // the defense is textual: even a name merely containing the marker fails
    assert!(!is_safe_entry_path("we..ird.txt"));
}

#[test]
fn first_volume_is_found_by_suffix() {
    let names = vec![
        "readme.txt".to_string(),
        "bundle.7z.001".to_string(),
        "bundle.7z.002".to_string(),
    ];
    assert_eq!(find_first_volume(&names).unwrap(), 1);
}

#[test]
fn missing_first_volume_is_an_error() {
    let names = vec!["readme.txt".to_string(), "bundle.7z.002".to_string()];
    let err = find_first_volume(&names).unwrap_err();
    assert!(matches!(err, InstallError::MissingInnerArchive));
    assert_eq!(err.message(), "Could not find 7z file");
}

fn sample_listing() -> String {
    [
        "7-Zip 23.01 : Copyright (c) 1999-2023 Igor Pavlov",
        "",
        "Listing archive: bundle.7z.001",
        "",
        "   Date      Time    Attr         Size   Compressed  Name",
        "------------------- ----- ------------ ------------  ------------------------",
        "2024-01-01 10:00:00 D....            0            0  COEIROINK_WIN",
        "2024-01-01 10:00:00 ....A         1024          512  COEIROINK_WIN/run.exe",
        "2024-01-01 10:00:00 ....A           10            5  COEIROINK_WIN/__pycache__/x.pyc",
        "2024-01-01 10:00:00 ....A           10            5  COEIROINK_WIN/speaker_info/meta.json",
        "------------------- ----- ------------ ------------  ------------------------",
        "2024-01-01 10:00:00               1054          522  4 files",
    ]
    .join("\n")
}

#[test]
fn listing_parse_takes_the_table_body() {
    let files = parse_archive_listing(&sample_listing(), false);
    assert_eq!(
        files,
        vec![
            "COEIROINK_WIN".to_string(),
            "COEIROINK_WIN/run.exe".to_string(),
            "COEIROINK_WIN/speaker_info/meta.json".to_string(),
        ]
    );
}

#[test]
fn listing_parse_excludes_the_protected_subtree() {
    let files = parse_archive_listing(&sample_listing(), true);
    assert_eq!(files, vec!["COEIROINK_WIN".to_string(), "COEIROINK_WIN/run.exe".to_string()]);
}

#[test]
fn listing_parse_keeps_spaces_inside_entry_names() {
    let listing = [
        "   Date      Time    Attr         Size   Compressed  Name",
        "----------",
        "2024-01-01 10:00:00 ....A 10 5 dir/my file.txt",
        "----------",
    ]
    .join("\n");
    let files = parse_archive_listing(&listing, false);
    assert_eq!(files, vec!["dir/my file.txt".to_string()]);
}

#[test]
fn listing_without_rule_lines_is_empty() {
    assert_eq!(parse_archive_listing("no table here\nat all\n", false), Vec::<String>::new());
}

#[test]
fn split_lines_handles_crlf() {
    assert_eq!(
        split_lines("a\r\nb\nc"),
        vec!["a".to_string(), "b".to_string(), "c".to_string()]
    );
    assert_eq!(split_lines("a\n"), vec!["a".to_string()]);
    assert_eq!(split_lines(""), Vec::<String>::new());
}

#[test]
fn last_field_is_the_sixth_column() {
    assert_eq!(
        line_last_field("2024-01-01 10:00:00 ....A         1024          512  a/b.txt"),
        "a/b.txt"
    );
    assert_eq!(line_last_field("single"), "single");
    assert_eq!(line_last_field(""), "");
}

#[test]
fn extract_lines_with_marker_carry_the_entry() {
    assert_eq!(
        parse_extract_line("- COEIROINK_WIN/run.exe\r\n"),
        Some("COEIROINK_WIN/run.exe".to_string())
    );
    assert_eq!(parse_extract_line("- spaced name.bin\n"), Some("spaced name.bin".to_string()));
    assert_eq!(parse_extract_line("Extracting archive: x.7z"), None);
    assert_eq!(parse_extract_line("-not a marker"), None);
    assert_eq!(parse_extract_line(""), None);
}

#[test]
fn list_args_name_the_archive() {
    let args = archiver_list_args("C:\\tmp\\bundle.7z.001");
    assert_eq!(args, vec!["l".to_string(), "C:\\tmp\\bundle.7z.001".to_string()]);
}

#[test]
fn extract_args_mirror_the_filters() {
    let args = archiver_extract_args("D:\\work", "D:\\dl\\b.7z.001", true);
    assert_eq!(
        args,
        vec![
            "x".to_string(),
            "-oD:\\work".to_string(),
            "-y".to_string(),
            "-bb3".to_string(),
            "-xr!__pycache__".to_string(),
            "-xr!speaker_info".to_string(),
            "D:\\dl\\b.7z.001".to_string(),
        ]
    );
    let args = archiver_extract_args("D:\\work", "D:\\dl\\b.7z.001", false);
    assert_eq!(args.len(), 6);
    assert_eq!(args[5], "D:\\dl\\b.7z.001");
}
