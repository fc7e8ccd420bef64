use coeirobottle::catalog::{DownloadInfo, Edition, Os};
use coeirobottle::errors::{CatalogFault, InstallError};
use coeirobottle::page::{Anchor, AnchorSection};
use coeirobottle::resolver::{
    build_catalog, find_download, latest_version, resolve_downloads, should_mark_active,
};

fn anchor(text: &str, href: &str) -> Anchor {
    Anchor { text: Some(text.to_string()), href: Some(href.to_string()) }
}

fn section(label: &str, anchors: Vec<Anchor>) -> AnchorSection {
    AnchorSection { labels: vec![label.to_string()], anchors: Some(anchors) }
}

fn legacy_empty() -> Vec<AnchorSection> {
    vec![section("旧バージョン", vec![])]
}

fn versions_of(catalog: &[DownloadInfo]) -> Vec<String> {
    catalog.iter().map(|d| d.version.clone()).collect()
}

#[test]
fn two_x_filter_keeps_only_major_two() {
    let cur = vec![section(
        "DropBoxからダウンロード",
        vec![
            anchor("COEIROINK-CPU-v.2.1.0(Windows)", "u1"),
            anchor("COEIROINK-CPU-v.2.0.5(Windows)", "u2"),
            anchor("COEIROINK-CPU-v.1.9.0(Windows)", "u3"),
        ],
    )];
    let catalog = build_catalog(&cur, &legacy_empty()).unwrap();
    assert_eq!(versions_of(&catalog), vec!["2.1.0".to_string(), "2.0.5".to_string()]);
}

#[test]
fn catalog_is_sorted_newest_first() {
    let cur = vec![section(
        "DropBoxからダウンロード",
        vec![
            anchor("COEIROINK-CPU-v.2.0.5(Windows)", "a"),
            anchor("COEIROINK-CPU-v.2.10.0(Windows)", "b"),
            anchor("COEIROINK-CPU-v.2.2.0(Windows)", "c"),
        ],
    )];
    let catalog = build_catalog(&cur, &legacy_empty()).unwrap();
    assert_eq!(
        versions_of(&catalog),
        vec!["2.10.0".to_string(), "2.2.0".to_string(), "2.0.5".to_string()]
    );
}

#[test]
fn equal_versions_keep_listed_order() {
    let cur = vec![section(
        "DropBoxからダウンロード",
        vec![
            anchor("COEIROINK-CPU-v.2.1.0(Windows)", "cpu"),
            anchor("COEIROINK-GPU-v.2.1.0(Windows)", "gpu"),
        ],
    )];
    let catalog = build_catalog(&cur, &legacy_empty()).unwrap();
    assert_eq!(catalog.len(), 2);
    assert_eq!(catalog[0].edition, Edition::Cpu);
    assert_eq!(catalog[0].link, "cpu");
    assert_eq!(catalog[1].edition, Edition::Gpu);
    assert_eq!(catalog[1].link, "gpu");
}

#[test]
fn non_windows_records_are_dropped() {
    let cur = vec![section(
        "DropBoxからダウンロード",
        vec![
            anchor("COEIROINK-CPU-v.2.1.0(Mac)", "mac"),
            anchor("COEIROINK-GPU-v.2.1.0(Windows)", "win"),
        ],
    )];
    let catalog = build_catalog(&cur, &legacy_empty()).unwrap();
    assert_eq!(catalog.len(), 1);
    assert_eq!(catalog[0].os, Os::Windows);
    assert_eq!(catalog[0].link, "win");
}

#[test]
fn legacy_links_merge_into_catalog() {
    let cur = vec![section(
        "DropBoxからダウンロード",
        vec![anchor("COEIROINK-CPU-v.2.1.0(Windows)", "new")],
    )];
    let leg = vec![section(
        "旧バージョン",
        vec![
            anchor("v.2.0.1-windows-cpu", "old-win"),
            anchor("v.1.6.0-windows-cpu", "too-old"),
            anchor("v.2.0.1-mac-gpu", "old-mac"),
        ],
    )];
    let catalog = build_catalog(&cur, &leg).unwrap();
    assert_eq!(versions_of(&catalog), vec!["2.1.0".to_string(), "2.0.1".to_string()]);
    assert_eq!(catalog[1].link, "old-win");
}

#[test]
fn unmatched_link_text_is_skipped() {
    let cur = vec![section(
        "DropBoxからダウンロード",
        vec![
            anchor("see the manual", "m"),
            anchor("COEIROINK-CPU-v.2.1.0(Windows)", "w"),
        ],
    )];
    let catalog = build_catalog(&cur, &legacy_empty()).unwrap();
    assert_eq!(catalog.len(), 1);
    assert_eq!(catalog[0].link, "w");
}

#[test]
fn missing_download_header_is_a_parse_fault() {
    let cur = vec![section("some other heading", vec![])];
    let err = build_catalog(&cur, &legacy_empty()).unwrap_err();
    assert!(matches!(err, InstallError::CatalogParse(CatalogFault::DownloadHeader)));
    assert_eq!(err.message(), "Could not find download header");
}

#[test]
fn missing_table_is_a_parse_fault() {
    let cur = vec![AnchorSection {
        labels: vec!["DropBoxからダウンロード".to_string()],
        anchors: None,
    }];
    let err = build_catalog(&cur, &legacy_empty()).unwrap_err();
    assert!(matches!(err, InstallError::CatalogParse(CatalogFault::DownloadTable)));
}

#[test]
fn anchor_without_text_is_a_parse_fault() {
    let cur = vec![section(
        "DropBoxからダウンロード",
        vec![Anchor { text: None, href: Some("u".to_string()) }],
    )];
    let err = build_catalog(&cur, &legacy_empty()).unwrap_err();
    assert!(matches!(err, InstallError::CatalogParse(CatalogFault::LinkText)));
}

#[test]
fn matched_anchor_without_href_is_a_parse_fault() {
    let cur = vec![section(
        "DropBoxからダウンロード",
        vec![Anchor { text: Some("COEIROINK-CPU-v.2.1.0(Windows)".to_string()), href: None }],
    )];
    let err = build_catalog(&cur, &legacy_empty()).unwrap_err();
    assert!(matches!(err, InstallError::CatalogParse(CatalogFault::LinkHref)));
}

#[test]
fn missing_legacy_header_is_a_parse_fault() {
    let cur = vec![section(
        "DropBoxからダウンロード",
        vec![anchor("COEIROINK-CPU-v.2.1.0(Windows)", "u")],
    )];
    let err = build_catalog(&cur, &vec![]).unwrap_err();
    assert!(matches!(err, InstallError::CatalogParse(CatalogFault::LegacyHeader)));
}

#[test]
fn malformed_version_is_a_parse_fault() {
    // the version run "2.1" has only two numeric components
    let cur = vec![section(
        "DropBoxからダウンロード",
        vec![anchor("COEIROINK-CPU-v.2.1(Windows)", "u")],
    )];
    let err = build_catalog(&cur, &legacy_empty()).unwrap_err();
    assert!(matches!(err, InstallError::CatalogParse(CatalogFault::Version)));
}

#[test]
fn build_metadata_is_accepted_in_versions() {
    let cur = vec![section(
        "DropBoxからダウンロード",
        vec![
            anchor("COEIROINK-CPU-v.2.1.0+2(Windows)", "u1"),
            anchor("COEIROINK-CPU-v.2.1.0(Windows)", "u2"),
        ],
    )];
    let catalog = build_catalog(&cur, &legacy_empty()).unwrap();
    // build metadata carries no precedence: the listed order survives
    assert_eq!(versions_of(&catalog), vec!["2.1.0+2".to_string(), "2.1.0".to_string()]);
}

#[test]
fn leading_zero_version_is_a_parse_fault() {
    let cur = vec![section(
        "DropBoxからダウンロード",
        vec![anchor("COEIROINK-CPU-v.2.01.0(Windows)", "u")],
    )];
    let err = build_catalog(&cur, &legacy_empty()).unwrap_err();
    assert!(matches!(err, InstallError::CatalogParse(CatalogFault::Version)));
}

#[test]
fn resolve_downloads_reads_a_page() {
    let html = [
        "<html><body>",
        "<div class=\"text-center mt-20 text-xl font-bold\">DropBoxからダウンロード</div><table>",
        "<tr><td><a href=\"https://dl.example/cpu21\">COEIROINK-CPU-v.2.1.0(Windows)</a></td></tr>",
        "<tr><td><a href=\"https://dl.example/gpu21\">COEIROINK-GPU-v.2.1.0(Windows)</a></td></tr>",
        "<tr><td><a href=\"https://dl.example/mac\">COEIROINK-CPU-v.2.1.0(Mac)</a></td></tr>",
        "</table>",
        "<div class=\"flex justify-center items-center flex-wrap lg:px-5 relative z-10 md:pt-40 pt-28\">",
        "<div>旧バージョン</div></div><table>",
        "<tr><td><a href=\"https://dl.example/old\">v.2.0.1-windows-cpu</a></td></tr>",
        "<tr><td><a href=\"https://dl.example/ancient\">v.1.6.0-windows-cpu</a></td></tr>",
        "</table>",
        "</body></html>",
    ]
    .join("");
    let catalog = resolve_downloads(&html).unwrap();
    assert_eq!(
        versions_of(&catalog),
        vec!["2.1.0".to_string(), "2.1.0".to_string(), "2.0.1".to_string()]
    );
    assert_eq!(catalog[0].edition, Edition::Cpu);
    assert_eq!(catalog[0].link, "https://dl.example/cpu21");
    assert_eq!(catalog[1].edition, Edition::Gpu);
    assert_eq!(catalog[2].link, "https://dl.example/old");
    assert!(catalog.iter().all(|d| d.os == Os::Windows));
}

#[test]
fn resolve_downloads_fails_without_heading() {
    let html = "<html><body><p>nothing here</p></body></html>";
    let err = resolve_downloads(html).unwrap_err();
    assert!(matches!(err, InstallError::CatalogParse(CatalogFault::DownloadHeader)));
}

#[test]
fn edition_tokens_parse_case_insensitively() {
    assert_eq!(Edition::parse_token("CPU"), Some(Edition::Cpu));
    assert_eq!(Edition::parse_token("gpu"), Some(Edition::Gpu));
    assert_eq!(Edition::parse_token("Gpu"), Some(Edition::Gpu));
    assert_eq!(Edition::parse_token("tpu"), None);
    assert_eq!(Os::parse_token("windows"), Some(Os::Windows));
    assert_eq!(Os::parse_token("MAC"), Some(Os::Mac));
    assert_eq!(Os::parse_token("linux"), None);
}

fn sample_catalog() -> Vec<DownloadInfo> {
    vec![
        DownloadInfo {
            edition: Edition::Cpu,
            os: Os::Windows,
            version: "2.1.0".to_string(),
            link: "cpu21".to_string(),
        },
        DownloadInfo {
            edition: Edition::Gpu,
            os: Os::Windows,
            version: "2.1.0".to_string(),
            link: "gpu21".to_string(),
        },
        DownloadInfo {
            edition: Edition::Cpu,
            os: Os::Windows,
            version: "2.0.5".to_string(),
            link: "cpu205".to_string(),
        },
    ]
}

#[test]
fn find_download_picks_the_matching_release() {
    let catalog = sample_catalog();
    let d = find_download(&catalog, Edition::Gpu, "2.1.0").unwrap();
    assert_eq!(d.link, "gpu21");
    let d = find_download(&catalog, Edition::Cpu, "2.0.5").unwrap();
    assert_eq!(d.link, "cpu205");
}

#[test]
fn find_download_reports_a_missing_release() {
    let catalog = sample_catalog();
    let err = find_download(&catalog, Edition::Gpu, "2.0.5").unwrap_err();
    assert!(matches!(err, InstallError::ReleaseNotFound(Edition::Gpu)));
    assert_eq!(err.message(), "Could not find download for edition Gpu");
}

#[test]
fn latest_version_reads_the_first_record() {
    let catalog = sample_catalog();
    assert_eq!(latest_version(&catalog), Some("2.1.0".to_string()));
    assert_eq!(latest_version(&Vec::new()), None);
}

#[test]
fn active_root_updates_only_for_the_newest_version() {
    let catalog = sample_catalog();
    assert!(should_mark_active(&catalog, "2.1.0"));
    assert!(!should_mark_active(&catalog, "2.0.5"));
    assert!(!should_mark_active(&Vec::new(), "2.1.0"));
}
