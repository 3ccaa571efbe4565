use indexa_server::highlight::highlight_text;
use indexa_server::search::ranges_well_placed;

#[test]
fn no_ranges_keep_text() {
    assert_eq!(highlight_text("report.txt", &[]), "report.txt");
    assert_eq!(highlight_text("", &[]), "");
}

#[test]
fn full_range_wraps_whole_text() {
    assert_eq!(highlight_text("report.txt", &[0..10]), "<em>report.txt</em>");
}

#[test]
fn prefix_match_is_wrapped() {
    assert_eq!(highlight_text("report.txt", &[0..6]), "<em>report</em>.txt");
}

#[test]
fn gaps_are_kept_between_spans() {
    assert_eq!(
        highlight_text("a-report-b-report", &[2..8, 11..17]),
        "a-<em>report</em>-b-<em>report</em>"
    );
}

#[test]
fn zero_width_range_adds_no_markup() {
    assert_eq!(highlight_text("abc", &[1..1]), "abc");
    assert_eq!(highlight_text("abc", &[0..0, 1..2]), "a<em>b</em>c");
}

#[test]
fn multibyte_text_is_cut_on_byte_offsets() {
    // 'é' takes two bytes.
    assert_eq!(highlight_text("héllo", &[1..3]), "h<em>é</em>llo");
    assert_eq!(highlight_text("日本語", &[3..6]), "日<em>本</em>語");
}

#[test]
fn range_check_accepts_engine_ranges() {
    assert!(ranges_well_placed("report.txt", &[0..6]));
    assert!(ranges_well_placed("héllo", &[1..3, 3..5]));
    assert!(ranges_well_placed("abc", &[]));
}

#[test]
fn range_check_rejects_bad_ranges() {
    assert!(!ranges_well_placed("abc", &[0..4]));
    assert!(!ranges_well_placed("héllo", &[2..3]));
    assert!(!ranges_well_placed("abcdef", &[2..4, 1..3]));
    #[allow(clippy::reversed_empty_ranges)]
    let reversed = 3..1;
    assert!(!ranges_well_placed("abcdef", &[reversed]));
}
