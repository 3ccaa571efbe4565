//! The attributes a search hit can carry, and the parser for the list of
//! attributes a client asks for.

use vstd::prelude::*;
use vstd::string::*;

verus! {

/// An attribute of an indexed entry; also the key results are sorted by.
#[derive(Clone, Copy, Debug, PartialEq, Eq, Structural)]
pub enum StatusKind {
    Basename,
    Path,
    Extension,
    Size,
    Mode,
    Created,
    Modified,
    Accessed,
}

/// The lower-case name of an attribute.
pub open spec fn name(k: StatusKind) -> Seq<char> {
    match k {
        StatusKind::Basename => seq!['b', 'a', 's', 'e', 'n', 'a', 'm', 'e'],
        StatusKind::Path => seq!['p', 'a', 't', 'h'],
        StatusKind::Extension => seq!['e', 'x', 't', 'e', 'n', 's', 'i', 'o', 'n'],
        StatusKind::Size => seq!['s', 'i', 'z', 'e'],
        StatusKind::Mode => seq!['m', 'o', 'd', 'e'],
        StatusKind::Created => seq!['c', 'r', 'e', 'a', 't', 'e', 'd'],
        StatusKind::Modified => seq!['m', 'o', 'd', 'i', 'f', 'i', 'e', 'd'],
        StatusKind::Accessed => seq!['a', 'c', 'c', 'e', 's', 's', 'e', 'd'],
    }
}

/// Characters with the Unicode `White_Space` property.
pub open spec fn blank(c: char) -> bool {
    ('\t' <= c && c <= '\r') || c == ' ' || c == '\u{85}' || c == '\u{a0}' || c == '\u{1680}'
        || ('\u{2000}' <= c && c <= '\u{200a}') || c == '\u{2028}' || c == '\u{2029}' || c
        == '\u{202f}' || c == '\u{205f}' || c == '\u{3000}'
}

/// ASCII upper-case letters become lower-case; every other character stays.
pub open spec fn lower(c: char) -> char {
    if 'A' <= c && c <= 'Z' {
        ((c as u8) + 32) as char
    } else {
        c
    }
}

pub open spec fn lowered(s: Seq<char>) -> Seq<char> {
    s.map_values(|c: char| lower(c))
}

/// `s[i..j]` is one of the pieces of `s` between commas.
pub open spec fn is_token(s: Seq<char>, i: int, j: int) -> bool {
    &&& 0 <= i <= j <= s.len()
    &&& i == 0 || s[i - 1] == ','
    &&& j == s.len() || s[j] == ','
    &&& forall|m: int| i <= m < j ==> s[m] != ','
}

/// `t`, with the blanks around it removed, is the name of `k`.
pub open spec fn names_kind(t: Seq<char>, k: StatusKind) -> bool {
    exists|lo: int, hi: int|
        0 <= lo <= hi <= t.len() && (forall|m: int| 0 <= m < lo ==> blank(t[m])) && (forall|m: int|
            hi <= m < t.len() ==> blank(t[m])) && t.subrange(lo, hi) == name(k)
}

/// Some comma-separated piece of the lower-cased `s` names `k`.
pub open spec fn requested(s: Seq<char>, k: StatusKind) -> bool {
    let low = lowered(s);
    exists|i: int, j: int| is_token(low, i, j) && names_kind(low.subrange(i, j), k)
}

/// A set of attributes, one flag per kind.
#[derive(Clone, Copy, Debug, PartialEq, Eq, Structural)]
pub struct StatusFlags {
    pub basename: bool,
    pub path: bool,
    pub extension: bool,
    pub size: bool,
    pub mode: bool,
    pub created: bool,
    pub modified: bool,
    pub accessed: bool,
}

impl StatusFlags {
    pub open spec fn has(self, k: StatusKind) -> bool {
        match k {
            StatusKind::Basename => self.basename,
            StatusKind::Path => self.path,
            StatusKind::Extension => self.extension,
            StatusKind::Size => self.size,
            StatusKind::Mode => self.mode,
            StatusKind::Created => self.created,
            StatusKind::Modified => self.modified,
            StatusKind::Accessed => self.accessed,
        }
    }

    /// The set with no attribute in it.
    pub fn empty() -> (r: StatusFlags)
        ensures
            forall|k: StatusKind| !r.has(k),
    {
        StatusFlags {
            basename: false,
            path: false,
            extension: false,
            size: false,
            mode: false,
            created: false,
            modified: false,
            accessed: false,
        }
    }

    pub fn get(&self, k: StatusKind) -> (r: bool)
        ensures
            r == self.has(k),
    {
        match k {
            StatusKind::Basename => self.basename,
            StatusKind::Path => self.path,
            StatusKind::Extension => self.extension,
            StatusKind::Size => self.size,
            StatusKind::Mode => self.mode,
            StatusKind::Created => self.created,
            StatusKind::Modified => self.modified,
            StatusKind::Accessed => self.accessed,
        }
    }

    /// Adds `k` to the set.
    pub fn insert(&mut self, k: StatusKind)
        ensures
            forall|j: StatusKind| final(self).has(j) == (old(self).has(j) || j == k),
    {
        match k {
            StatusKind::Basename => self.basename = true,
            StatusKind::Path => self.path = true,
            StatusKind::Extension => self.extension = true,
            StatusKind::Size => self.size = true,
            StatusKind::Mode => self.mode = true,
            StatusKind::Created => self.created = true,
            StatusKind::Modified => self.modified = true,
            StatusKind::Accessed => self.accessed = true,
        }
    }
}


fn is_blank(c: char) -> (r: bool)
    ensures
        r == blank(c),
{
    ('\t' <= c && c <= '\r') || c == ' ' || c == '\u{85}' || c == '\u{a0}' || c == '\u{1680}'
        || ('\u{2000}' <= c && c <= '\u{200a}') || c == '\u{2028}' || c == '\u{2029}' || c
        == '\u{202f}' || c == '\u{205f}' || c == '\u{3000}'
}

fn lower_char(c: char) -> (r: char)
    ensures
        r == lower(c),
{
    if 'A' <= c && c <= 'Z' {
        ((c as u8) + 32) as char
    } else {
        c
    }
}

fn name_chars(k: StatusKind) -> (r: Vec<char>)
    ensures
        r@ == name(k),
{
    let v = match k {
        StatusKind::Basename => vec!['b', 'a', 's', 'e', 'n', 'a', 'm', 'e'],
        StatusKind::Path => vec!['p', 'a', 't', 'h'],
        StatusKind::Extension => vec!['e', 'x', 't', 'e', 'n', 's', 'i', 'o', 'n'],
        StatusKind::Size => vec!['s', 'i', 'z', 'e'],
        StatusKind::Mode => vec!['m', 'o', 'd', 'e'],
        StatusKind::Created => vec!['c', 'r', 'e', 'a', 't', 'e', 'd'],
        StatusKind::Modified => vec!['m', 'o', 'd', 'i', 'f', 'i', 'e', 'd'],
        StatusKind::Accessed => vec!['a', 'c', 'c', 'e', 's', 's', 'e', 'd'],
    };
    assert(v@ =~= name(k));
    v
}

proof fn lemma_name_not_blank(k: StatusKind)
    ensures
        name(k).len() > 0,
        forall|m: int| 0 <= m < name(k).len() ==> !blank(#[trigger] name(k)[m]),
{
}

proof fn lemma_names_distinct(k1: StatusKind, k2: StatusKind)
    ensures
        name(k1) == name(k2) ==> k1 == k2,
{
    if name(k1) == name(k2) {
        assert(name(k1).len() == name(k2).len());
        assert(name(k1)[0] == name(k2)[0]);
    }
}

/// Once the blanks at both ends of `t` are known to stop at `lo` and `hi`,
/// `t` names `k` exactly when what lies between is the name of `k`.
proof fn lemma_names_kind_at(t: Seq<char>, lo: int, hi: int, k: StatusKind)
    requires
        0 <= lo <= hi <= t.len(),
        forall|m: int| 0 <= m < lo ==> blank(t[m]),
        forall|m: int| hi <= m < t.len() ==> blank(t[m]),
        lo < hi ==> !blank(t[lo]) && !blank(t[hi - 1]),
        lo == hi ==> forall|m: int| 0 <= m < t.len() ==> blank(t[m]),
    ensures
        names_kind(t, k) <==> t.subrange(lo, hi) == name(k),
{
    lemma_name_not_blank(k);
    if names_kind(t, k) {
        let (a, b) = choose|a: int, b: int|
            0 <= a <= b <= t.len() && (forall|m: int| 0 <= m < a ==> blank(t[m])) && (forall|
                m: int,
            | b <= m < t.len() ==> blank(t[m])) && t.subrange(a, b) == name(k);
        let n = name(k);
        assert(t[a] == n[0]);
        assert(t[b - 1] == n[n.len() - 1]);
        assert(!blank(t[a]));
        assert(!blank(t[b - 1]));
        assert(a == lo);
        assert(b == hi);
    }
}

/// The attribute that `low[a..b]` names, if any.
fn classify(low: &Vec<char>, a: usize, b: usize) -> (r: Option<StatusKind>)
    requires
        a <= b <= low.len(),
    ensures
        forall|k: StatusKind| names_kind(low@.subrange(a as int, b as int), k) <==> r == Some(k),
{
    let ghost t = low@.subrange(a as int, b as int);
    let mut lo: usize = a;
    while lo < b && is_blank(low[lo])
        invariant
            a <= lo <= b <= low.len(),
            forall|m: int| a <= m < lo ==> blank(low@[m]),
        decreases b - lo,
    {
        lo += 1;
    }
    let mut hi: usize = b;
    while hi > lo && is_blank(low[hi - 1])
        invariant
            a <= lo <= hi <= b <= low.len(),
            forall|m: int| hi <= m < b ==> blank(low@[m]),
        decreases hi - lo,
    {
        hi -= 1;
    }
    let kinds = [
        StatusKind::Basename,
        StatusKind::Path,
        StatusKind::Extension,
        StatusKind::Size,
        StatusKind::Mode,
        StatusKind::Created,
        StatusKind::Modified,
        StatusKind::Accessed,
    ];
    let ghost mid = low@.subrange(lo as int, hi as int);
    proof {
        assert forall|k: StatusKind|
            names_kind(t, k) <==> mid == name(k) by {
            assert(t.subrange(lo - a, hi - a) =~= mid);
            lemma_names_kind_at(t, lo - a, hi - a, k);
        }
    }
    let mut idx: usize = 0;
    while idx < 8
        invariant
            0 <= idx <= 8,
            kinds@ == seq![
                StatusKind::Basename,
                StatusKind::Path,
                StatusKind::Extension,
                StatusKind::Size,
                StatusKind::Mode,
                StatusKind::Created,
                StatusKind::Modified,
                StatusKind::Accessed,
            ],
            a <= lo <= hi <= b <= low.len(),
            mid == low@.subrange(lo as int, hi as int),
            t == low@.subrange(a as int, b as int),
            forall|k: StatusKind| names_kind(t, k) <==> mid == name(k),
            forall|j: int| 0 <= j < idx ==> mid != name(#[trigger] kinds@[j]),
        decreases 8 - idx,
    {
        let k = kinds[idx];
        let n = name_chars(k);
        if n.len() == hi - lo {
            let mut m: usize = 0;
            while m < n.len() && n[m] == low[lo + m]
                invariant
                    0 <= m <= n.len(),
                    n.len() == hi - lo,
                    a <= lo <= hi <= b <= low.len(),
                    forall|q: int| 0 <= q < m ==> n@[q] == low@[lo + q],
                decreases n.len() - m,
            {
                m += 1;
            }
            if m == n.len() {
                assert(mid =~= name(k));
                proof {
                    assert forall|j: StatusKind| mid == name(j) <==> j == k by {
                        lemma_names_distinct(j, k);
                    }
                }
                return Some(k);
            }
            assert(mid[m as int] != name(k)[m as int]);
        }
        idx += 1;
    }
    proof {
        assert forall|k: StatusKind| mid != name(k) by {
            match k {
                StatusKind::Basename => assert(kinds@[0] == k),
                StatusKind::Path => assert(kinds@[1] == k),
                StatusKind::Extension => assert(kinds@[2] == k),
                StatusKind::Size => assert(kinds@[3] == k),
                StatusKind::Mode => assert(kinds@[4] == k),
                StatusKind::Created => assert(kinds@[5] == k),
                StatusKind::Modified => assert(kinds@[6] == k),
                StatusKind::Accessed => assert(kinds@[7] == k),
            }
        }
    }
    None
}


/// Some piece of `low` that ends before position `p` names `k`.
pub open spec fn named_before(low: Seq<char>, k: StatusKind, p: int) -> bool {
    exists|i: int, j: int| j < p && is_token(low, i, j) && names_kind(low.subrange(i, j), k)
}

proof fn lemma_token_ends(low: Seq<char>, start: int, pos: int)
    requires
        0 <= start <= pos <= low.len(),
        start == 0 || low[start - 1] == ',',
        forall|m: int| start <= m < pos ==> low[m] != ',',
        pos == low.len() || low[pos] == ',',
    ensures
        forall|k: StatusKind|
            named_before(low, k, pos + 1) <==> (named_before(low, k, pos) || names_kind(
                low.subrange(start, pos),
                k,
            )),
{
    assert(is_token(low, start, pos));
    assert forall|k: StatusKind|
        named_before(low, k, pos + 1) <==> (named_before(low, k, pos) || names_kind(
            low.subrange(start, pos),
            k,
        )) by {
        if named_before(low, k, pos + 1) {
            let (i, j) = choose|i: int, j: int|
                j < pos + 1 && is_token(low, i, j) && names_kind(low.subrange(i, j), k);
            if j == pos {
                if i < start {
                    assert(low[start - 1] != ',');
                }
                if i > start {
                    assert(low[i - 1] == ',');
                }
                assert(i == start);
            } else {
                assert(j < pos && is_token(low, i, j) && names_kind(low.subrange(i, j), k));
            }
        }
        if named_before(low, k, pos) {
            let (i, j) = choose|i: int, j: int|
                j < pos && is_token(low, i, j) && names_kind(low.subrange(i, j), k);
            assert(j < pos + 1 && is_token(low, i, j) && names_kind(low.subrange(i, j), k));
        }
        if names_kind(low.subrange(start, pos), k) {
            assert(pos < pos + 1 && is_token(low, start, pos) && names_kind(
                low.subrange(start, pos),
                k,
            ));
        }
    }
}

proof fn lemma_no_token_ends(low: Seq<char>, pos: int)
    requires
        0 <= pos < low.len(),
        low[pos] != ',',
    ensures
        forall|k: StatusKind| named_before(low, k, pos + 1) <==> named_before(low, k, pos),
{
    assert forall|k: StatusKind| named_before(low, k, pos + 1) <==> named_before(low, k, pos) by {
        if named_before(low, k, pos + 1) {
            let (i, j) = choose|i: int, j: int|
                j < pos + 1 && is_token(low, i, j) && names_kind(low.subrange(i, j), k);
            assert(j != pos);
            assert(j < pos && is_token(low, i, j) && names_kind(low.subrange(i, j), k));
        }
        if named_before(low, k, pos) {
            let (i, j) = choose|i: int, j: int|
                j < pos && is_token(low, i, j) && names_kind(low.subrange(i, j), k);
            assert(j < pos + 1 && is_token(low, i, j) && names_kind(low.subrange(i, j), k));
        }
    }
}

/// The attributes that the comma-separated list `param` asks for. The list is
/// read without regard to ASCII case, blanks around each piece are ignored, and
/// a piece that names no attribute is skipped without error.
pub fn extract_status_flags(param: &str) -> (r: StatusFlags)
    ensures
        forall|k: StatusKind| r.has(k) == requested(param@, k),
{
    let n = param.unicode_len();
    let mut low: Vec<char> = Vec::new();
    let mut i: usize = 0;
    while i < n
        invariant
            0 <= i <= n,
            n == param@.len(),
            low@ == lowered(param@).subrange(0, i as int),
        decreases n - i,
    {
        low.push(lower_char(param.get_char(i)));
        i += 1;
    }
    assert(low@ =~= lowered(param@));
    let mut flags = StatusFlags::empty();
    let mut start: usize = 0;
    let mut pos: usize = 0;
    while pos < n
        invariant
            n == low.len(),
            low@ == lowered(param@),
            start <= pos <= n,
            start == 0 || low@[start - 1] == ',',
            forall|m: int| start <= m < pos ==> low@[m] != ',',
            forall|k: StatusKind| flags.has(k) == named_before(low@, k, pos as int),
        decreases n - pos,
    {
        if low[pos] == ',' {
            proof {
                lemma_token_ends(low@, start as int, pos as int);
            }
            let ghost before = flags;
            let c = classify(&low, start, pos);
            if let Some(k) = c {
                flags.insert(k);
            }
            proof {
                assert forall|k: StatusKind|
                    flags.has(k) == named_before(low@, k, pos + 1) by {
                    assert(flags.has(k) == (before.has(k) || c == Some(k)));
                    assert(before.has(k) == named_before(low@, k, pos as int));
                    assert((c == Some(k)) == names_kind(
                        low@.subrange(start as int, pos as int),
                        k,
                    ));
                }
            }
            start = pos + 1;
        } else {
            proof {
                lemma_no_token_ends(low@, pos as int);
            }
        }
        pos += 1;
    }
    proof {
        lemma_token_ends(low@, start as int, n as int);
    }
    let ghost before = flags;
    let c = classify(&low, start, n);
    if let Some(k) = c {
        flags.insert(k);
    }
    proof {
        assert forall|k: StatusKind| flags.has(k) == requested(param@, k) by {
            assert(flags.has(k) == (before.has(k) || c == Some(k)));
            assert(before.has(k) == named_before(low@, k, n as int));
            assert((c == Some(k)) == names_kind(low@.subrange(start as int, n as int), k));
            assert(flags.has(k) == named_before(low@, k, n + 1));
            if requested(param@, k) {
                let (i, j) = choose|i: int, j: int|
                    is_token(low@, i, j) && names_kind(low@.subrange(i, j), k);
                assert(j < n + 1 && is_token(low@, i, j) && names_kind(low@.subrange(i, j), k));
            }
        }
    }
    flags
}


/// Joining two lists with a comma asks for what either of them asks for.
pub proof fn lemma_join(a: Seq<char>, b: Seq<char>, k: StatusKind)
    ensures
        requested(a + seq![','] + b, k) <==> (requested(a, k) || requested(b, k)),
{
    let s = a + seq![','] + b;
    let la = lowered(a);
    let lb = lowered(b);
    let ls = lowered(s);
    let p = la.len() as int;
    assert(ls =~= la + seq![','] + lb);
    assert(ls[p] == ',');
    if requested(s, k) {
        let (i, j) = choose|i: int, j: int|
            is_token(ls, i, j) && names_kind(ls.subrange(i, j), k);
        if j <= p {
            assert(ls.subrange(i, j) =~= la.subrange(i, j));
            assert forall|m: int| i <= m < j implies la[m] != ',' by {
                assert(ls[m] == la[m]);
            }
            if i > 0 {
                assert(ls[i - 1] == la[i - 1]);
            }
            if j < p {
                assert(ls[j] == la[j]);
            }
            assert(is_token(la, i, j));
        } else if i > p {
            let i2 = i - p - 1;
            let j2 = j - p - 1;
            assert(ls.subrange(i, j) =~= lb.subrange(i2, j2));
            assert forall|m: int| i2 <= m < j2 implies lb[m] != ',' by {
                assert(ls[m + p + 1] == lb[m]);
            }
            if i2 > 0 {
                assert(ls[i - 1] == lb[i2 - 1]);
            }
            if j2 < lb.len() {
                assert(ls[j] == lb[j2]);
            }
            assert(is_token(lb, i2, j2));
        } else {
            assert(ls[p] != ',');
        }
    }
    if requested(a, k) {
        let (i, j) = choose|i: int, j: int|
            is_token(la, i, j) && names_kind(la.subrange(i, j), k);
        assert(ls.subrange(i, j) =~= la.subrange(i, j));
        assert(is_token(ls, i, j));
    }
    if requested(b, k) {
        let (i, j) = choose|i: int, j: int|
            is_token(lb, i, j) && names_kind(lb.subrange(i, j), k);
        assert(ls.subrange(i + p + 1, j + p + 1) =~= lb.subrange(i, j));
        assert(is_token(ls, i + p + 1, j + p + 1));
    }
}

/// The order of the pieces of a list does not matter.
pub proof fn lemma_order_irrelevant(a: Seq<char>, b: Seq<char>, k: StatusKind)
    ensures
        requested(a + seq![','] + b, k) == requested(b + seq![','] + a, k),
{
    lemma_join(a, b, k);
    lemma_join(b, a, k);
}

/// Repeating a list asks for nothing more than the list itself.
pub proof fn lemma_repeat_irrelevant(a: Seq<char>, k: StatusKind)
    ensures
        requested(a + seq![','] + a, k) == requested(a, k),
{
    lemma_join(a, a, k);
}

/// Appending pieces that name no attribute changes nothing.
pub proof fn lemma_unknown_ignored(a: Seq<char>, u: Seq<char>, k: StatusKind)
    requires
        forall|j: StatusKind| !requested(u, j),
    ensures
        requested(a + seq![','] + u, k) == requested(a, k),
{
    lemma_join(a, u, k);
}

} // verus!
