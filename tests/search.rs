use indexa_server::search::{
    assemble, limit_hits, project_hit, timestamp_millis, CaseSensitivity, EntryRecord, Field,
    MatchPathMode, SearchParams, SortOrder, Timestamp,
};
use indexa_server::status::{extract_status_flags, StatusKind};

fn record(name: &str, path: &str) -> EntryRecord {
    EntryRecord {
        is_dir: false,
        basename: name.to_string(),
        path: path.to_string(),
        extension: None,
        size: None,
        mode: None,
        created: None,
        modified: None,
        accessed: None,
        basename_matches: vec![],
        path_matches: vec![],
    }
}

#[test]
fn default_parameters() {
    let p = SearchParams::default();
    assert_eq!(p.query, "");
    assert_eq!(p.limit, 30);
    assert_eq!(p.statuses, "basename");
    assert_eq!(p.match_path, MatchPathMode::Never);
    assert_eq!(p.case_sensitivity, CaseSensitivity::Smart);
    assert!(!p.regex);
    assert_eq!(p.sort_by, StatusKind::Basename);
    assert_eq!(p.sort_order, SortOrder::Ascending);
    assert!(!p.sort_dirs_before_files);
}

#[test]
fn timestamp_after_epoch_in_millis() {
    let t = Timestamp { before_epoch: false, secs: 1, nanos: 500_000_000 };
    assert_eq!(timestamp_millis(Some(t)), Some(1500));
    let t = Timestamp { before_epoch: false, secs: 0, nanos: 999_999 };
    assert_eq!(timestamp_millis(Some(t)), Some(0));
}

#[test]
fn timestamp_before_epoch_is_null() {
    let t = Timestamp { before_epoch: true, secs: 1, nanos: 0 };
    assert_eq!(timestamp_millis(Some(t)), None);
    assert_eq!(timestamp_millis(None), None);
}

#[test]
fn unrequested_is_absent_and_failed_is_null() {
    let mut r = record("a.txt", "/x/a.txt");
    r.size = None;
    r.modified = Some(Timestamp { before_epoch: true, secs: 5, nanos: 0 });
    r.created = Some(Timestamp { before_epoch: false, secs: 2, nanos: 0 });
    let h = project_hit(&r, extract_status_flags("size,modified,created"));
    assert_eq!(h.size, Field::Null);
    assert!(h.size.is_emitted());
    assert_eq!(h.modified, Field::Null);
    assert_eq!(h.created, Field::Value(2000));
    assert_eq!(h.mode, Field::Absent);
    assert!(!h.mode.is_emitted());
    assert_eq!(h.accessed, Field::Absent);
    assert_eq!(h.basename, Field::Absent);
    assert_eq!(h.path, Field::Absent);
    assert_eq!(h.highlighted.basename, None);
    assert_eq!(h.highlighted.path, None);
}

#[test]
fn extension_missing_is_null_and_present_is_value() {
    let r = record("Makefile", "/x/Makefile");
    let h = project_hit(&r, extract_status_flags("extension"));
    assert_eq!(h.extension, Field::Null);
    let mut r = record("a.rs", "/x/a.rs");
    r.extension = Some("rs".to_string());
    r.size = Some(42);
    r.mode = Some(0o644);
    let h = project_hit(&r, extract_status_flags("extension,size,mode"));
    assert_eq!(h.extension, Field::Value("rs".to_string()));
    assert_eq!(h.size, Field::Value(42));
    assert_eq!(h.mode, Field::Value(0o644));
}

#[test]
fn single_report_file_search() {
    let mut r = record("report.txt", "/home/u/report.txt");
    r.basename_matches = vec![0..6];
    r.path_matches = vec![8..14];
    let flags = extract_status_flags("basename");
    let resp = assemble(&"report".to_string(), 1, &vec![r], flags);
    assert_eq!(resp.query, "report");
    assert_eq!(resp.num_hits, 1);
    assert_eq!(resp.hits.len(), 1);
    let h = &resp.hits[0];
    assert!(!h.is_dir);
    assert_eq!(h.basename, Field::Value("report.txt".to_string()));
    assert_eq!(h.highlighted.basename.as_deref(), Some("<em>report</em>.txt"));
    assert_eq!(h.path, Field::Absent);
    assert_eq!(h.highlighted.path, None);
    assert_eq!(h.extension, Field::Absent);
    assert_eq!(h.size, Field::Absent);
    assert_eq!(h.mode, Field::Absent);
    assert_eq!(h.created, Field::Absent);
    assert_eq!(h.modified, Field::Absent);
    assert_eq!(h.accessed, Field::Absent);
}

#[test]
fn path_is_highlighted_when_requested() {
    let mut r = record("report.txt", "/home/u/report.txt");
    r.basename_matches = vec![0..6];
    r.path_matches = vec![8..14];
    r.is_dir = true;
    let h = project_hit(&r, extract_status_flags("path"));
    assert!(h.is_dir);
    assert_eq!(h.path, Field::Value("/home/u/report.txt".to_string()));
    assert_eq!(h.highlighted.path.as_deref(), Some("/home/u/<em>report</em>.txt"));
    assert_eq!(h.basename, Field::Absent);
}

#[test]
fn zero_limit_keeps_count_but_no_hits() {
    let ids = [4u32, 9, 2];
    let shown = limit_hits(&ids, 0);
    assert!(shown.is_empty());
    let resp = assemble(&"q".to_string(), ids.len(), &vec![], extract_status_flags("basename"));
    assert_eq!(resp.num_hits, 3);
    assert!(resp.hits.is_empty());
}

#[test]
fn limit_keeps_first_ids_in_order() {
    let ids = [4u32, 9, 2];
    assert_eq!(limit_hits(&ids, 2), vec![4, 9]);
    assert_eq!(limit_hits(&ids, 30), vec![4, 9, 2]);
    let none: [u32; 0] = [];
    assert!(limit_hits(&none, 5).is_empty());
}
