//! Wrapping matched byte spans of a text in emphasis markup.

use core::ops::Range;
use vstd::prelude::*;
use vstd::string::*;
use vstd::utf8::*;

verus! {

/// The opening emphasis marker.
pub open spec fn open_tag() -> Seq<char> {
    seq!['<', 'e', 'm', '>']
}

/// The closing emphasis marker.
pub open spec fn close_tag() -> Seq<char> {
    seq!['<', '/', 'e', 'm', '>']
}

/// The characters encoded by bytes `[a, b)` of `bytes`.
pub open spec fn piece(bytes: Seq<u8>, a: int, b: int) -> Seq<char> {
    decode_utf8(bytes.subrange(a, b))
}

/// Output for the ranges still to come, the cursor standing at byte `prev`.
pub open spec fn marked(bytes: Seq<u8>, ranges: Seq<Range<usize>>, prev: int) -> Seq<char>
    decreases ranges.len(),
{
    if ranges.len() == 0 {
        if prev < bytes.len() {
            piece(bytes, prev, bytes.len() as int)
        } else {
            Seq::empty()
        }
    } else {
        let s = ranges[0].start as int;
        let e = ranges[0].end as int;
        (if s > prev {
            piece(bytes, prev, s)
        } else {
            Seq::empty()
        }) + (if e > s {
            open_tag() + piece(bytes, s, e) + close_tag()
        } else {
            Seq::empty()
        }) + marked(bytes, ranges.drop_first(), e)
    }
}

/// `text` with each range of its UTF-8 bytes wrapped in emphasis markup.
pub open spec fn highlighted(text: Seq<char>, ranges: Seq<Range<usize>>) -> Seq<char> {
    marked(encode_utf8(text), ranges, 0)
}

/// Ranges as a search engine reports them for `text`: each within the text's
/// bytes and on character boundaries, not reversed, sorted and disjoint.
pub open spec fn well_placed(text: Seq<char>, ranges: Seq<Range<usize>>) -> bool {
    let bytes = encode_utf8(text);
    &&& forall|i: int|
        0 <= i < ranges.len() ==> {
            &&& ranges[i].start <= ranges[i].end <= bytes.len()
            &&& is_char_boundary(bytes, ranges[i].start as int)
            &&& is_char_boundary(bytes, ranges[i].end as int)
        }
    &&& forall|i: int| 0 < i < ranges.len() ==> ranges[i - 1].end <= ranges[i].start
}

proof fn lemma_prefix_boundary(bytes: Seq<u8>, a: int, b: int)
    requires
        valid_utf8(bytes),
        0 <= a <= b <= bytes.len(),
        is_char_boundary(bytes, a),
        is_char_boundary(bytes, b),
    ensures
        valid_utf8(bytes.subrange(0, b)),
        is_char_boundary(bytes.subrange(0, b), a),
{
    valid_utf8_split(bytes, b);
    let head = bytes.subrange(0, b);
    if a == b {
        is_char_boundary_start_end_of_seq(head);
    } else if a > 0 {
        is_char_boundary_iff_not_is_continuation_byte(bytes, a);
        is_char_boundary_iff_not_is_continuation_byte(head, a);
    }
}

/// The part of `text` between byte offsets `a` and `b`.
fn slice_between(text: &str, a: usize, b: usize) -> (r: &str)
    requires
        a <= b <= text.spec_bytes().len(),
        is_char_boundary(text.spec_bytes(), a as int),
        is_char_boundary(text.spec_bytes(), b as int),
    ensures
        r@ == piece(text.spec_bytes(), a as int, b as int),
{
    proof {
        encode_utf8_valid_utf8(text@);
        lemma_prefix_boundary(text.spec_bytes(), a as int, b as int);
    }
    let (head, _) = text.split_at(b);
    let (_, mid) = head.split_at(a);
    proof {
        assert(mid.spec_bytes() =~= text.spec_bytes().subrange(a as int, b as int));
        encode_utf8_decode_utf8(mid@);
    }
    mid
}

/// Copies `text`, wrapping the bytes of each range of `matches` in `<em>` and
/// `</em>`; the bytes between ranges are kept as they are.
pub fn highlight_text(text: &str, matches: &[Range<usize>]) -> (r: String)
    requires
        well_placed(text@, matches@),
    ensures
        r@ == highlighted(text@, matches@),
{
    let ghost bytes = text.spec_bytes();
    let mut prev_end: usize = 0;
    let mut out = String::new();
    let mut i: usize = 0;
    proof {
        encode_utf8_valid_utf8(text@);
        is_char_boundary_start_end_of_seq(bytes);
        assert(matches@.skip(0) =~= matches@);
    }
    while i < matches.len()
        invariant
            0 <= i <= matches.len(),
            bytes == text.spec_bytes(),
            valid_utf8(bytes),
            is_char_boundary(bytes, prev_end as int),
            is_char_boundary(bytes, bytes.len() as int),
            prev_end <= bytes.len(),
            well_placed(text@, matches@),
            i == 0 ==> prev_end == 0,
            i > 0 ==> prev_end == matches@[i - 1].end,
            out@ + marked(bytes, matches@.skip(i as int), prev_end as int) == marked(
                bytes,
                matches@,
                0,
            ),
        decreases matches.len() - i,
    {
        let start = matches[i].start;
        let end = matches[i].end;
        let ghost before = out@;
        let ghost rest = matches@.skip(i as int);
        proof {
            assert(rest.drop_first() =~= matches@.skip(i + 1));
            assert(rest[0] == matches@[i as int]);
        }
        if start > prev_end {
            out.append(slice_between(text, prev_end, start));
        }
        if end > start {
            proof {
                reveal_strlit("<em>");
                reveal_strlit("</em>");
            }
            out.append("<em>");
            out.append(slice_between(text, start, end));
            out.append("</em>");
        }
        proof {
            let gap = if start > prev_end {
                piece(bytes, prev_end as int, start as int)
            } else {
                Seq::<char>::empty()
            };
            let span = if end > start {
                open_tag() + piece(bytes, start as int, end as int) + close_tag()
            } else {
                Seq::<char>::empty()
            };
            assert(out@ =~= before + gap + span);
            assert(marked(bytes, rest, prev_end as int) == gap + span + marked(
                bytes,
                matches@.skip(i + 1),
                end as int,
            ));
            assert(out@ + marked(bytes, matches@.skip(i + 1), end as int) =~= before + marked(
                bytes,
                rest,
                prev_end as int,
            ));
        }
        prev_end = end;
        i += 1;
    }
    let ghost before = out@;
    let len = text.as_bytes().len();
    if prev_end < len {
        out.append(slice_between(text, prev_end, len));
    }
    proof {
        assert(matches@.skip(i as int) =~= Seq::<Range<usize>>::empty());
        assert(out@ =~= before + marked(bytes, Seq::<Range<usize>>::empty(), prev_end as int));
    }
    out
}

/// With no ranges the text comes back unchanged.
pub proof fn lemma_no_ranges_keeps_text(text: Seq<char>)
    ensures
        highlighted(text, Seq::empty()) == text,
{
    let bytes = encode_utf8(text);
    encode_utf8_decode_utf8(text);
    assert(bytes.subrange(0, bytes.len() as int) =~= bytes);
}

/// One range over all the bytes of a non-empty text wraps the whole text in a
/// single emphasis span, with nothing before or after it.
pub proof fn lemma_full_range_wraps_all(text: Seq<char>, ranges: Seq<Range<usize>>)
    requires
        text.len() > 0,
        ranges.len() == 1,
        ranges[0].start == 0,
        ranges[0].end == encode_utf8(text).len(),
    ensures
        highlighted(text, ranges) == open_tag() + text + close_tag(),
{
    let bytes = encode_utf8(text);
    encode_utf8_decode_utf8(text);
    if bytes.len() == 0 {
        assert(bytes =~= Seq::<u8>::empty());
        assert(decode_utf8(bytes) =~= Seq::<char>::empty());
    }
    assert(bytes.subrange(0, bytes.len() as int) =~= bytes);
    assert(ranges.drop_first() =~= Seq::<Range<usize>>::empty());
    assert(marked(bytes, ranges.drop_first(), bytes.len() as int) =~= Seq::<char>::empty());
    assert(highlighted(text, ranges) =~= open_tag() + text + close_tag());
}

} // verus!
