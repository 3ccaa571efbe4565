//! Request parameters of a search, projection of matched entries onto the
//! requested attributes, and the response that carries them.

use core::ops::Range;
use vstd::prelude::*;
use vstd::string::*;
use vstd::utf8::*;

use crate::highlight::{highlight_text, highlighted, well_placed};
use crate::status::{StatusFlags, StatusKind};

verus! {

/// Whether the pattern is matched against the full path.
#[derive(Clone, Copy, Debug, PartialEq, Eq, Structural)]
pub enum MatchPathMode {
    Always,
    Never,
    Auto,
}

/// How letter case is treated when matching.
#[derive(Clone, Copy, Debug, PartialEq, Eq, Structural)]
pub enum CaseSensitivity {
    Sensitive,
    Insensitive,
    Smart,
}

/// Direction in which hits are sorted.
#[derive(Clone, Copy, Debug, PartialEq, Eq, Structural)]
pub enum SortOrder {
    Ascending,
    Descending,
}

/// The parameters of one search request.
#[derive(Debug)]
pub struct SearchParams {
    pub query: String,
    pub limit: usize,
    pub statuses: String,
    pub match_path: MatchPathMode,
    pub case_sensitivity: CaseSensitivity,
    pub regex: bool,
    pub sort_by: StatusKind,
    pub sort_order: SortOrder,
    pub sort_dirs_before_files: bool,
}

impl Default for SearchParams {
    fn default() -> (r: SearchParams)
        ensures
            r.query@ == Seq::<char>::empty(),
            r.limit == 30,
            r.statuses@ == seq!['b', 'a', 's', 'e', 'n', 'a', 'm', 'e'],
            r.match_path == MatchPathMode::Never,
            r.case_sensitivity == CaseSensitivity::Smart,
            !r.regex,
            r.sort_by == StatusKind::Basename,
            r.sort_order == SortOrder::Ascending,
            !r.sort_dirs_before_files,
    {
        proof {
            reveal_strlit("basename");
        }
        SearchParams {
            query: String::new(),
            limit: 30,
            statuses: String::from_str("basename"),
            match_path: MatchPathMode::Never,
            case_sensitivity: CaseSensitivity::Smart,
            regex: false,
            sort_by: StatusKind::Basename,
            sort_order: SortOrder::Ascending,
            sort_dirs_before_files: false,
        }
    }
}

/// An attribute of a hit: not requested (left out of the response),
/// requested but not obtainable (sent as null), or its value.
#[derive(Debug, PartialEq, Eq)]
pub enum Field<T> {
    Absent,
    Null,
    Value(T),
}

impl<T> Field<T> {
    /// Whether the attribute appears in the response at all.
    pub fn is_emitted(&self) -> (r: bool)
        ensures
            r == !(self is Absent),
    {
        match self {
            Field::Absent => false,
            _ => true,
        }
    }
}

/// The field for an attribute that was requested or not, and obtained or not.
pub open spec fn field_of<T>(wanted: bool, v: Option<T>) -> Field<T> {
    if !wanted {
        Field::Absent
    } else {
        match v {
            Some(x) => Field::Value(x),
            None => Field::Null,
        }
    }
}

fn make_field<T>(wanted: bool, v: Option<T>) -> (r: Field<T>)
    ensures
        r == field_of(wanted, v),
{
    if !wanted {
        Field::Absent
    } else {
        match v {
            Some(x) => Field::Value(x),
            None => Field::Null,
        }
    }
}

/// A point in time as its distance from the Unix epoch.
#[derive(Clone, Copy, Debug, PartialEq, Eq, Structural)]
pub struct Timestamp {
    /// Whether the point lies before the epoch.
    pub before_epoch: bool,
    pub secs: u64,
    pub nanos: u32,
}

/// Whole milliseconds since the epoch; none for a point before it.
pub open spec fn millis_of(t: Timestamp) -> Option<u128> {
    if t.before_epoch {
        None
    } else {
        Some((t.secs * 1000 + t.nanos / 1_000_000) as u128)
    }
}

/// Milliseconds since the epoch of a timestamp that could be read, or none.
pub open spec fn millis_of_read(t: Option<Timestamp>) -> Option<u128> {
    match t {
        Some(t) => millis_of(t),
        None => None,
    }
}

/// The number of whole milliseconds from the epoch to `t`, or `None` where
/// `t` lies before the epoch.
pub fn timestamp_millis(t: Option<Timestamp>) -> (r: Option<u128>)
    ensures
        r == millis_of_read(t),
{
    match t {
        Some(t) => {
            if t.before_epoch {
                None
            } else {
                Some((t.secs as u128) * 1000 + (t.nanos / 1_000_000) as u128)
            }
        },
        None => None,
    }
}

/// What the engine reports of one matched entry. Attributes that were not
/// asked for, and those whose reading failed, are `None`.
#[derive(Debug)]
pub struct EntryRecord {
    pub is_dir: bool,
    pub basename: String,
    pub path: String,
    pub extension: Option<String>,
    pub size: Option<u64>,
    pub mode: Option<u32>,
    pub created: Option<Timestamp>,
    pub modified: Option<Timestamp>,
    pub accessed: Option<Timestamp>,
    /// Byte ranges of the basename that the query matched.
    pub basename_matches: Vec<Range<usize>>,
    /// Byte ranges of the path that the query matched.
    pub path_matches: Vec<Range<usize>>,
}

/// The match ranges of a record fit the texts that they mark.
pub open spec fn record_ok(r: EntryRecord) -> bool {
    &&& well_placed(r.basename@, r.basename_matches@)
    &&& well_placed(r.path@, r.path_matches@)
}

/// Highlighted forms of the requested text attributes.
#[derive(Debug, PartialEq, Eq)]
pub struct Highlighted {
    pub basename: Option<String>,
    pub path: Option<String>,
}

/// One entry of a search response.
#[derive(Debug, PartialEq, Eq)]
pub struct Hit {
    pub is_dir: bool,
    pub basename: Field<String>,
    pub path: Field<String>,
    pub extension: Field<String>,
    pub size: Field<u64>,
    pub mode: Field<u32>,
    pub created: Field<u128>,
    pub modified: Field<u128>,
    pub accessed: Field<u128>,
    pub highlighted: Highlighted,
}

/// `h` is the projection of `r` onto the attributes in `flags`.
pub open spec fn projects(h: Hit, r: EntryRecord, flags: StatusFlags) -> bool {
    let b = flags.has(StatusKind::Basename);
    let p = flags.has(StatusKind::Path);
    &&& h.is_dir == r.is_dir
    &&& h.basename.view_text() == field_of(b, Some(r.basename@))
    &&& h.path.view_text() == field_of(p, Some(r.path@))
    &&& h.extension.view_text() == field_of(
        flags.has(StatusKind::Extension),
        match r.extension {
            Some(e) => Some(e@),
            None => None,
        },
    )
    &&& h.size == field_of(flags.has(StatusKind::Size), r.size)
    &&& h.mode == field_of(flags.has(StatusKind::Mode), r.mode)
    &&& h.created == field_of(flags.has(StatusKind::Created), millis_of_read(r.created))
    &&& h.modified == field_of(flags.has(StatusKind::Modified), millis_of_read(r.modified))
    &&& h.accessed == field_of(flags.has(StatusKind::Accessed), millis_of_read(r.accessed))
    &&& (h.highlighted.basename is Some) == b
    &&& b ==> h.highlighted.basename.unwrap()@ == highlighted(r.basename@, r.basename_matches@)
    &&& (h.highlighted.path is Some) == p
    &&& p ==> h.highlighted.path.unwrap()@ == highlighted(r.path@, r.path_matches@)
}

impl Field<String> {
    /// The field with its text seen as characters.
    pub open spec fn view_text(self) -> Field<Seq<char>> {
        match self {
            Field::Absent => Field::Absent,
            Field::Null => Field::Null,
            Field::Value(s) => Field::Value(s@),
        }
    }
}

fn text_field(wanted: bool, v: &Option<String>) -> (r: Field<String>)
    ensures
        r.view_text() == field_of(
            wanted,
            match *v {
                Some(e) => Some(e@),
                None => None,
            },
        ),
{
    if !wanted {
        Field::Absent
    } else {
        match v {
            Some(x) => Field::Value(x.clone()),
            None => Field::Null,
        }
    }
}

/// Builds the hit for one matched entry: each attribute in `flags` is
/// present, as null where it could not be read, and every other attribute
/// is absent; requested basenames and paths also come highlighted.
pub fn project_hit(r: &EntryRecord, flags: StatusFlags) -> (h: Hit)
    requires
        record_ok(*r),
    ensures
        projects(h, *r, flags),
{
    let b = flags.get(StatusKind::Basename);
    let p = flags.get(StatusKind::Path);
    let basename = text_field(b, &Some(r.basename.clone()));
    let path = text_field(p, &Some(r.path.clone()));
    let hl_basename = if b {
        Some(highlight_text(r.basename.as_str(), r.basename_matches.as_slice()))
    } else {
        None
    };
    let hl_path = if p {
        Some(highlight_text(r.path.as_str(), r.path_matches.as_slice()))
    } else {
        None
    };
    Hit {
        is_dir: r.is_dir,
        basename,
        path,
        extension: text_field(flags.get(StatusKind::Extension), &r.extension),
        size: make_field(flags.get(StatusKind::Size), r.size),
        mode: make_field(flags.get(StatusKind::Mode), r.mode),
        created: make_field(flags.get(StatusKind::Created), timestamp_millis(r.created)),
        modified: make_field(flags.get(StatusKind::Modified), timestamp_millis(r.modified)),
        accessed: make_field(flags.get(StatusKind::Accessed), timestamp_millis(r.accessed)),
        highlighted: Highlighted { basename: hl_basename, path: hl_path },
    }
}


/// The ids that a response shows: the first `limit` of all matches, in the
/// engine's order.
pub open spec fn shown<T>(ids: Seq<T>, limit: usize) -> Seq<T> {
    if limit < ids.len() {
        ids.take(limit as int)
    } else {
        ids
    }
}

/// Keeps the first `limit` ids of the sorted matches.
pub fn limit_hits<T: Copy>(ids: &[T], limit: usize) -> (r: Vec<T>)
    ensures
        r@ == shown(ids@, limit),
{
    let mut out: Vec<T> = Vec::new();
    let mut i: usize = 0;
    while i < ids.len() && i < limit
        invariant
            0 <= i <= ids.len(),
            i <= limit,
            out@ == ids@.take(i as int),
        decreases ids.len() - i,
    {
        out.push(ids[i]);
        i += 1;
        assert(out@ =~= ids@.take(i as int));
    }
    assert(ids@.take(ids@.len() as int) =~= ids@);
    out
}

/// A limit of zero shows no hit, however many entries matched.
pub proof fn lemma_zero_limit_shows_nothing<T>(ids: Seq<T>)
    ensures
        shown(ids, 0).len() == 0,
{
}

/// Whether `ranges` are well placed in `text`, as `highlight_text` requires.
pub fn ranges_well_placed(text: &str, ranges: &[Range<usize>]) -> (r: bool)
    ensures
        r == well_placed(text@, ranges@),
{
    let len = text.as_bytes().len();
    let mut i: usize = 0;
    while i < ranges.len()
        invariant
            0 <= i <= ranges.len(),
            len == text.spec_bytes().len(),
            forall|j: int|
                0 <= j < i ==> {
                    &&& ranges@[j].start <= ranges@[j].end <= len
                    &&& is_char_boundary(text.spec_bytes(), ranges@[j].start as int)
                    &&& is_char_boundary(text.spec_bytes(), ranges@[j].end as int)
                },
            forall|j: int| 0 < j < i ==> ranges@[j - 1].end <= ranges@[j].start,
        decreases ranges.len() - i,
    {
        let start = ranges[i].start;
        let end = ranges[i].end;
        if !(start <= end && end <= len && text.is_char_boundary(start) && text.is_char_boundary(
            end,
        )) {
            return false;
        }
        if i > 0 && ranges[i - 1].end > start {
            return false;
        }
        i += 1;
    }
    true
}

/// The answer to a search request.
#[derive(Debug)]
pub struct SearchResponse {
    pub query: String,
    /// How many entries matched, before the limit was applied.
    pub num_hits: usize,
    pub hits: Vec<Hit>,
}

/// Puts together the response: the query text, the number of all matches,
/// and one projected hit for each record, in order.
pub fn assemble(query: &String, num_hits: usize, records: &Vec<EntryRecord>, flags: StatusFlags) -> (r:
    SearchResponse)
    requires
        forall|i: int| 0 <= i < records.len() ==> record_ok(#[trigger] records@[i]),
    ensures
        r.query@ == query@,
        r.num_hits == num_hits,
        r.hits.len() == records.len(),
        forall|i: int| 0 <= i < records.len() ==> projects(#[trigger] r.hits@[i], records@[i], flags),
{
    let mut hits: Vec<Hit> = Vec::new();
    let mut i: usize = 0;
    while i < records.len()
        invariant
            0 <= i <= records.len(),
            hits.len() == i,
            forall|j: int| 0 <= j < records.len() ==> record_ok(#[trigger] records@[j]),
            forall|j: int| 0 <= j < i ==> projects(#[trigger] hits@[j], records@[j], flags),
        decreases records.len() - i,
    {
        let h = project_hit(&records[i], flags);
        hits.push(h);
        i += 1;
    }
    SearchResponse { query: query.clone(), num_hits, hits }
}

} // verus!
