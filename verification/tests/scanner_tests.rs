use crashtest_harness::blink::{prunes_dir, ScanFilter};
use crashtest_harness::text::file_stem;

fn vendored_dir() -> String {
    format!("{}{}", "ext", "ernal")
}

#[test]
fn pruned_directory_names() {
    assert!(prunes_dir("resources"));
    assert!(prunes_dir(&vendored_dir()));
    assert!(prunes_dir("third_party"));
    assert!(!prunes_dir("css"));
    assert!(!prunes_dir("resources2"));
}

#[test]
fn file_stems() {
    assert_eq!(file_stem("foo.html"), "foo");
    assert_eq!(file_stem("archive.tar.gz"), "archive.tar");
    assert_eq!(file_stem("noext"), "noext");
    assert_eq!(file_stem(".hidden"), ".hidden");
    assert_eq!(file_stem("OWNERS"), "OWNERS");
}

#[test]
fn default_policy_requires_crash_in_stem() {
    let filter = ScanFilter::default_policy();
    assert!(filter.accepts_file(1, "table-crash-1.html"));
    assert!(filter.accepts_file(3, "crashing.svg"));
    assert!(!filter.accepts_file(1, "regular-test.html"));
}

#[test]
fn root_entry_is_never_taken() {
    let filter = ScanFilter::default_policy();
    assert!(!filter.accepts_file(0, "table-crash-1.html"));
}

#[test]
fn metadata_and_baseline_files_are_never_taken() {
    let filter = ScanFilter::default_policy();
    assert!(!filter.accepts_file(1, "table-crash-1-expected.html"));
    assert!(!filter.accepts_file(1, "crash-expected.txt"));
    let unrestricted = ScanFilter::new(None);
    assert!(!unrestricted.accepts_file(1, "README"));
    assert!(!unrestricted.accepts_file(1, "OWNERS"));
    assert!(!unrestricted.accepts_file(1, "a-crash-expected.png"));
}

#[test]
fn substring_filter_is_configurable() {
    let unrestricted = ScanFilter::new(None);
    assert!(unrestricted.accepts_file(1, "regular-test.html"));
    let custom = ScanFilter::new(Some("svg".to_string()));
    assert!(custom.accepts_file(1, "svg-thing.html"));
    assert!(!custom.accepts_file(1, "table-crash-1.html"));
}

#[test]
fn evaluate_file_yields_canonical_file_url() {
    let filter = ScanFilter::default_policy();
    let url = filter.evaluate_file(2, "x-crash.html", "/tmp/tests/x-crash.html");
    assert_eq!(url, Some("file:///tmp/tests/x-crash.html".to_string()));
}

#[test]
fn evaluate_file_rejects_filtered_entries_and_relative_paths() {
    let filter = ScanFilter::default_policy();
    assert_eq!(filter.evaluate_file(2, "plain.html", "/tmp/plain.html"), None);
    assert_eq!(filter.evaluate_file(0, "x-crash.html", "/tmp/x-crash.html"), None);
    assert_eq!(filter.evaluate_file(2, "x-crash.html", "relative/x-crash.html"), None);
}

#[test]
fn paths_under_pruned_directories_are_never_yielded() {
    let filter = ScanFilter::default_policy();
    let ok = vec!["css".to_string(), "table-crash-1.html".to_string()];
    assert!(filter.yields_path(&ok));
    let under_vendored = vec![
        vendored_dir(),
        "wpt".to_string(),
        "table-crash-1.html".to_string(),
    ];
    assert!(!filter.yields_path(&under_vendored));
    let under_resources = vec!["resources".to_string(), "helper-crash.html".to_string()];
    assert!(!filter.yields_path(&under_resources));
    let under_third_party = vec!["third_party".to_string(), "a-crash.html".to_string()];
    assert!(!filter.yields_path(&under_third_party));
}

#[test]
fn metadata_paths_are_never_yielded() {
    let filter = ScanFilter::new(None);
    assert!(!filter.yields_path(&vec!["css".to_string(), "OWNERS".to_string()]));
    assert!(!filter.yields_path(&vec!["css".to_string(), "README".to_string()]));
    assert!(!filter.yields_path(&vec![
        "css".to_string(),
        "a-crash-expected.html".to_string(),
    ]));
    assert!(!filter.yields_path(&Vec::new()));
}

#[test]
fn web_tests_path_layout() {
    assert_eq!(
        crashtest_harness::blink::web_tests_path("/src/chromium"),
        "/src/chromium/third_party/blink/web_tests"
    );
}
