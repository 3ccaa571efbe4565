use indexa_server::status::{extract_status_flags, StatusFlags, StatusKind};

const ALL: [StatusKind; 8] = [
    StatusKind::Basename,
    StatusKind::Path,
    StatusKind::Extension,
    StatusKind::Size,
    StatusKind::Mode,
    StatusKind::Created,
    StatusKind::Modified,
    StatusKind::Accessed,
];

fn kinds(f: &StatusFlags) -> Vec<StatusKind> {
    ALL.iter().copied().filter(|k| f.get(*k)).collect()
}

#[test]
fn duplicates_and_order_do_not_matter() {
    let a = extract_status_flags("size,basename");
    let b = extract_status_flags("basename,size,size");
    assert_eq!(a, b);
    assert_eq!(kinds(&a), vec![StatusKind::Basename, StatusKind::Size]);
}

#[test]
fn unknown_token_is_ignored() {
    let f = extract_status_flags("bogus,path");
    assert_eq!(kinds(&f), vec![StatusKind::Path]);
}

#[test]
fn unknown_field_behaves_as_without_it() {
    assert_eq!(
        extract_status_flags("basename,path,unknownfield"),
        extract_status_flags("basename,path")
    );
}

#[test]
fn case_and_blanks_are_ignored() {
    let f = extract_status_flags(" Size ,\tMODIFIED\u{3000}, accessed");
    assert_eq!(
        kinds(&f),
        vec![StatusKind::Size, StatusKind::Modified, StatusKind::Accessed]
    );
}

#[test]
fn every_name_is_recognised() {
    let f = extract_status_flags("basename,path,extension,size,mode,created,modified,accessed");
    assert_eq!(kinds(&f), ALL.to_vec());
}

#[test]
fn empty_list_asks_for_nothing() {
    assert_eq!(extract_status_flags(""), StatusFlags::empty());
    assert_eq!(extract_status_flags(",,"), StatusFlags::empty());
}

#[test]
fn inner_blank_does_not_match() {
    assert_eq!(extract_status_flags("base name,pa th"), StatusFlags::empty());
}

#[test]
fn insert_adds_one_kind() {
    let mut f = StatusFlags::empty();
    f.insert(StatusKind::Mode);
    assert_eq!(kinds(&f), vec![StatusKind::Mode]);
}
