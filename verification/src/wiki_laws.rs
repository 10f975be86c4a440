//! Laws relating wiki serialization and wiki parsing.

use vstd::prelude::*;
use vstd::utf8::*;
use crate::to_markdown::{in_class, none_in, wiki_representable, wiki_text, CharClass};
use crate::tokenizer::byte_at;
use crate::wiki_syntax::{
    ends_segment, lemma_scan_bounds, lemma_span_bounds, opener_at, scan, wiki_span, Segment,
};

verus! {

/// The characters of a byte range of the document.
pub open spec fn field_text(bytes: Seq<u8>, range: (int, int)) -> Seq<char> {
    decode_utf8(bytes.subrange(range.0, range.1))
}

/// The characters of an optional byte range.
pub open spec fn optional_field_text(bytes: Seq<u8>, range: Option<(int, int)>) -> Option<
    Seq<char>,
> {
    match range {
        Some(r) => Some(field_text(bytes, r)),
        None => None,
    }
}

/// UTF-8 encoding distributes over concatenation.
pub proof fn lemma_encode_concat(a: Seq<char>, b: Seq<char>)
    ensures
        encode_utf8(a + b) == encode_utf8(a) + encode_utf8(b),
    decreases a.len(),
{
    if a.len() == 0 {
        assert(a + b =~= b);
        assert(encode_utf8(a) + encode_utf8(b) =~= encode_utf8(b));
    } else {
        lemma_encode_concat(a.drop_first(), b);
        assert((a + b).drop_first() =~= a.drop_first() + b);
        assert((a + b)[0] == a[0]);
        assert(encode_utf8(a + b) =~= encode_scalar(a[0] as u32) + encode_utf8(a.drop_first() + b));
    }
}

/// An ASCII character encodes as its own byte.
pub proof fn lemma_encode_ascii(c: char)
    requires
        (c as u32) < 0x80,
    ensures
        encode_utf8(seq![c]) == seq![(c as u32) as u8],
{
    let x = c as u32;
    assert(((x & 0x7F) as u8) == x as u8) by (bit_vector)
        requires
            x < 0x80,
    ;
    assert(seq![c].drop_first() =~= Seq::<char>::empty());
    assert(encode_utf8(seq![c]) =~= encode_scalar(x) + encode_utf8(Seq::<char>::empty()));
}

/// A character that ends a segment of a wiki body.
pub open spec fn char_ends_segment(segment: Segment, c: char) -> bool {
    (c as u32) < 0x80 && ends_segment(segment, (c as u32) as u8)
}

/// The characters that end a segment.
proof fn lemma_char_ends_segment(segment: Segment, c: char)
    ensures
        char_ends_segment(segment, c) ==> (c == '\n' || c == '\r' || c == '[' || c == ']' || (c == '|' && segment
            != Segment::Alias) || (c == '#' && segment == Segment::Target)),
{
    let x = c as u32;
    if x < 0x80 {
        assert((x as u8) as u32 == x) by (bit_vector)
            requires
                x < 0x80,
        ;
        vstd::utf8::char_u32_cast(c, x);
    }
}

/// Every byte of a multi-byte encoding is at least `0x80`.
proof fn lemma_encode_scalar_high(x: u32)
    requires
        x >= 0x80,
        is_scalar(x),
    ensures
        forall|k: int| 0 <= k < encode_scalar(x).len() ==> #[trigger] encode_scalar(x)[k] >= 0x80,
{
    assert(((0xC0 | ((x >> 6) & 0x1F) as u8) as u8) >= 0x80) by (bit_vector);
    assert(((0xE0 | ((x >> 12) & 0x0F) as u8) as u8) >= 0x80) by (bit_vector);
    assert(((0xF0 | ((x >> 18) & 0x7) as u8) as u8) >= 0x80) by (bit_vector);
    assert(((0x80 | (x & 0x3F) as u8) as u8) >= 0x80) by (bit_vector);
    assert(((0x80 | ((x >> 6) & 0x3F) as u8) as u8) >= 0x80) by (bit_vector);
    assert(((0x80 | ((x >> 12) & 0x3F) as u8) as u8) >= 0x80) by (bit_vector);
}

/// A byte of an encoding that ends a segment comes from a character that
/// ends it.
pub proof fn lemma_encode_stops(s: Seq<char>, segment: Segment)
    ensures
        (forall|i: int| 0 <= i < s.len() ==> !char_ends_segment(segment, #[trigger] s[i]))
            ==> forall|k: int|
            0 <= k < encode_utf8(s).len() ==> !ends_segment(segment, #[trigger] encode_utf8(s)[k]),
    decreases s.len(),
{
    if s.len() > 0 && (forall|i: int| 0 <= i < s.len() ==> !char_ends_segment(segment, #[trigger] s[i])) {
        let rest = s.drop_first();
        assert forall|i: int| 0 <= i < rest.len() implies !char_ends_segment(
            segment,
            #[trigger] rest[i],
        ) by {
            assert(rest[i] == s[i + 1]);
        }
        lemma_encode_stops(rest, segment);
        let x = s[0] as u32;
        vstd::utf8::char_is_scalar(s[0]);
        let head = encode_scalar(x);
        assert(encode_utf8(s) == head + encode_utf8(rest));
        assert(!char_ends_segment(segment, s[0]));
        if x < 0x80 {
            assert(((x & 0x7F) as u8) == x as u8) by (bit_vector)
                requires
                    x < 0x80,
            ;
            assert(head =~= seq![x as u8]);
        } else {
            lemma_encode_scalar_high(x);
        }
        assert forall|k: int| 0 <= k < encode_utf8(s).len() implies !ends_segment(
            segment,
            #[trigger] encode_utf8(s)[k],
        ) by {
            if k < head.len() {
                assert(encode_utf8(s)[k] == head[k]);
            } else {
                assert(encode_utf8(s)[k] == encode_utf8(rest)[k - head.len()]);
            }
        }
    }
}

/// `scan` stops at the first byte that ends the segment.
pub proof fn lemma_scan_to(bytes: Seq<u8>, from: int, to: int, segment: Segment)
    requires
        0 <= from <= to < bytes.len(),
        ends_segment(segment, bytes[to]),
        forall|k: int| from <= k < to ==> !ends_segment(segment, #[trigger] bytes[k]),
    ensures
        scan(bytes, from, segment) == to,
    decreases to - from,
{
    if from < to {
        lemma_scan_to(bytes, from + 1, to, segment);
    }
}


/// The optional `#fragment` or `|alias` part of a wiki text, encoded.
pub open spec fn part_bytes(marker: u8, field: Option<Seq<char>>) -> Seq<u8> {
    match field {
        Some(f) => seq![marker] + encode_utf8(f),
        None => seq![],
    }
}

/// The opening marker of a wiki text, encoded.
pub open spec fn opener_bytes(embed: bool) -> Seq<u8> {
    if embed {
        seq![0x21u8, 0x5Bu8, 0x5Bu8]
    } else {
        seq![0x5Bu8, 0x5Bu8]
    }
}

/// How the markdown of a wiki node encodes.
pub proof fn lemma_wiki_text_bytes(
    embed: bool,
    target: Seq<char>,
    fragment: Option<Seq<char>>,
    alias: Option<Seq<char>>,
)
    ensures
        encode_utf8(wiki_text(embed, target, fragment, alias)) == opener_bytes(embed)
            + encode_utf8(target) + part_bytes(0x23, fragment) + part_bytes(0x7C, alias) + seq![
            0x5Du8,
            0x5Du8,
        ],
{
    let o: Seq<char> = if embed {
        seq!['!']
    } else {
        seq![]
    };
    let fp: Seq<char> = match fragment {
        Some(f) => seq!['#'] + f,
        None => seq![],
    };
    let ap: Seq<char> = match alias {
        Some(a) => seq!['|'] + a,
        None => seq![],
    };
    let close: Seq<char> = seq![']', ']'];
    let open2: Seq<char> = seq!['[', '['];
    lemma_encode_concat(o + open2 + target + fp + ap, close);
    lemma_encode_concat(o + open2 + target + fp, ap);
    lemma_encode_concat(o + open2 + target, fp);
    lemma_encode_concat(o + open2, target);
    lemma_encode_concat(o, open2);
    lemma_encode_ascii('[');
    lemma_encode_ascii(']');
    lemma_encode_ascii('!');
    lemma_encode_ascii('#');
    lemma_encode_ascii('|');
    assert(open2 =~= seq!['['] + seq!['[']);
    lemma_encode_concat(seq!['['], seq!['[']);
    assert(close =~= seq![']'] + seq![']']);
    lemma_encode_concat(seq![']'], seq![']']);
    assert(encode_utf8(Seq::<char>::empty()) =~= Seq::<u8>::empty());
    assert(encode_utf8(open2) =~= seq![0x5Bu8, 0x5Bu8]);
    assert(encode_utf8(close) =~= seq![0x5Du8, 0x5Du8]);
    assert(encode_utf8(o) + encode_utf8(open2) =~= opener_bytes(embed));
    if let Some(f) = fragment {
        lemma_encode_concat(seq!['#'], f);
        assert(encode_utf8(fp) =~= part_bytes(0x23, fragment));
    } else {
        assert(encode_utf8(fp) =~= part_bytes(0x23, fragment));
    }
    if let Some(a) = alias {
        lemma_encode_concat(seq!['|'], a);
        assert(encode_utf8(ap) =~= part_bytes(0x7C, alias));
    } else {
        assert(encode_utf8(ap) =~= part_bytes(0x7C, alias));
    }
    assert(wiki_text(embed, target, fragment, alias) == o + open2 + target + fp + ap + close);
}


/// A non-empty text encodes to non-empty bytes.
proof fn lemma_encode_nonempty(s: Seq<char>)
    requires
        s.len() > 0,
    ensures
        encode_utf8(s).len() > 0,
{
    vstd::utf8::char_is_scalar(s[0]);
    assert(encode_utf8(s) == encode_scalar(s[0] as u32) + encode_utf8(s.drop_first()));
}

/// The bytes `from..from + part.len()` of `bytes` are `part`, and none of them
/// ends the segment.
spec fn clean_run(bytes: Seq<u8>, from: int, part: Seq<u8>, segment: Segment) -> bool {
    &&& 0 <= from
    &&& from + part.len() <= bytes.len()
    &&& bytes.subrange(from, from + part.len()) == part
    &&& forall|k: int| from <= k < from + part.len() ==> !ends_segment(segment, #[trigger] bytes[k])
}

/// A field whose characters do not end the segment encodes to a clean run.
proof fn lemma_clean_field(
    bytes: Seq<u8>,
    from: int,
    field: Seq<char>,
    segment: Segment,
)
    requires
        0 <= from,
        from + encode_utf8(field).len() <= bytes.len(),
        forall|k: int|
            0 <= k < encode_utf8(field).len() ==> bytes[from + k] == #[trigger] encode_utf8(field)[k],
        forall|i: int| 0 <= i < field.len() ==> !char_ends_segment(segment, #[trigger] field[i]),
    ensures
        clean_run(bytes, from, encode_utf8(field), segment),
        decode_utf8(bytes.subrange(from, from + encode_utf8(field).len())) == field,
{
    let e = encode_utf8(field);
    lemma_encode_stops(field, segment);
    assert(bytes.subrange(from, from + e.len()) =~= e);
    assert forall|k: int| from <= k < from + e.len() implies !ends_segment(
        segment,
        #[trigger] bytes[k],
    ) by {
        assert(bytes[k] == e[k - from]);
    }
    vstd::utf8::encode_utf8_decode_utf8(field);
}

/// Law: serializing then parsing gives the fields back. When the fields of a
/// wiki node are representable, the wiki construct recognizes the markdown
/// that [`crate::to_markdown::serialize_wiki`] writes for them (as UTF-8
/// bytes) as one wiki link (or embed) spanning the whole text, whose target,
/// fragment and alias decode to the given fields.
#[verifier::rlimit(40)]
pub proof fn law_wiki_round_trip(
    embed: bool,
    target: Seq<char>,
    fragment: Option<Seq<char>>,
    alias: Option<Seq<char>>,
)
    requires
        wiki_representable(target, fragment, alias),
    ensures
        ({
            let bytes = encode_utf8(wiki_text(embed, target, fragment, alias));
            &&& wiki_span(bytes, 0, embed) is Some
            &&& wiki_span(bytes, 0, embed)->0.end == bytes.len()
            &&& field_text(bytes, wiki_span(bytes, 0, embed)->0.target) == target
            &&& optional_field_text(bytes, wiki_span(bytes, 0, embed)->0.fragment) == fragment
            &&& optional_field_text(bytes, wiki_span(bytes, 0, embed)->0.alias) == alias
        }),
{
    lemma_wiki_text_bytes(embed, target, fragment, alias);
    let o = opener_bytes(embed);
    let t = encode_utf8(target);
    let fp = part_bytes(0x23, fragment);
    let ap = part_bytes(0x7C, alias);
    let c: Seq<u8> = seq![0x5Du8, 0x5Du8];
    let bytes = o + t + fp + ap + c;
    assert(encode_utf8(wiki_text(embed, target, fragment, alias)) == bytes);
    let p = o.len() as int;
    let q = p + t.len();
    let r = q + fp.len();
    let z = r + ap.len();
    assert(bytes.len() == z + 2);
    assert forall|k: int| 0 <= k < t.len() implies bytes[p + k] == #[trigger] t[k] by {}
    assert forall|i: int| 0 <= i < target.len() implies !char_ends_segment(
        Segment::Target,
        #[trigger] target[i],
    ) by {
        assert(!in_class(CharClass::FrameBreak, target[i]));
        assert(!in_class(CharClass::SegmentOpener, target[i]));
        lemma_char_ends_segment(Segment::Target, target[i]);
    }
    lemma_clean_field(bytes, p, target, Segment::Target);
    assert(bytes[z] == 0x5Du8 && bytes[z + 1] == 0x5Du8);
    assert(opener_at(bytes, 0, embed));
    // The part after the target starts with `#`, `|`, or `]`.
    let mut after_fragment: int = q;
    if let Some(f) = fragment {
        let fe = encode_utf8(f);
        assert(bytes[q] == 0x23u8);
        lemma_encode_nonempty(f);
        assert forall|k: int| 0 <= k < fe.len() implies bytes[q + 1 + k] == #[trigger] fe[k] by {
            assert(bytes[q + 1 + k] == fp[1 + k]);
        }
        assert forall|i: int| 0 <= i < f.len() implies !char_ends_segment(
            Segment::Fragment,
            #[trigger] f[i],
        ) by {
            assert(!in_class(CharClass::FrameBreak, f[i]));
            assert(!in_class(CharClass::Pipe, f[i]));
            lemma_char_ends_segment(Segment::Fragment, f[i]);
        }
        lemma_clean_field(bytes, q + 1, f, Segment::Fragment);
        after_fragment = r;
    }
    if let Some(a) = alias {
        let ae = encode_utf8(a);
        assert(bytes[r] == 0x7Cu8);
        lemma_encode_nonempty(a);
        assert forall|k: int| 0 <= k < ae.len() implies bytes[r + 1 + k] == #[trigger] ae[k] by {
            assert(bytes[r + 1 + k] == ap[1 + k]);
        }
        assert forall|i: int| 0 <= i < a.len() implies !char_ends_segment(
            Segment::Alias,
            #[trigger] a[i],
        ) by {
            assert(!in_class(CharClass::FrameBreak, a[i]));
            lemma_char_ends_segment(Segment::Alias, a[i]);
        }
        lemma_clean_field(bytes, r + 1, a, Segment::Alias);
        lemma_scan_to(bytes, r + 1, z, Segment::Alias);
    }
    if fragment is Some {
        if alias is Some {
            lemma_scan_to(bytes, q + 1, r, Segment::Fragment);
        } else {
            assert(r == z);
            lemma_scan_to(bytes, q + 1, r, Segment::Fragment);
        }
    }
    if fragment is Some {
        lemma_scan_to(bytes, p, q, Segment::Target);
    } else if alias is Some {
        assert(q == r);
        lemma_scan_to(bytes, p, q, Segment::Target);
    } else {
        assert(q == z);
        lemma_scan_to(bytes, p, q, Segment::Target);
    }
}


/// In valid UTF-8, the index after an ASCII byte is a character boundary.
proof fn lemma_boundary_after_ascii(bytes: Seq<u8>, k: int)
    requires
        valid_utf8(bytes),
        0 < k <= bytes.len(),
        bytes[k - 1] < 0x80,
    ensures
        is_char_boundary(bytes, k),
    decreases bytes.len(),
{
    reveal_with_fuel(is_char_boundary, 2);
    let l = length_of_first_scalar(bytes);
    let rest = pop_first_scalar(bytes);
    assert(valid_first_scalar(bytes));
    assert(valid_utf8(rest));
    if k - 1 < l {
        assert(k - 1 == 0);
        assert(l == 1);
        assert(rest.len() == bytes.len() - 1);
    } else {
        assert(rest.len() == bytes.len() - l);
        assert(rest[k - 1 - l] == bytes[k - 1]);
        lemma_boundary_after_ascii(rest, k - l);
    }
}

/// A byte range of valid UTF-8 that starts after an ASCII byte and ends at an
/// ASCII byte (or the end) is valid UTF-8.
proof fn lemma_slice_valid(bytes: Seq<u8>, from: int, to: int)
    requires
        valid_utf8(bytes),
        0 < from <= to <= bytes.len(),
        bytes[from - 1] < 0x80,
        to < bytes.len() ==> bytes[to] < 0x80,
    ensures
        valid_utf8(bytes.subrange(from, to)),
{
    if to < bytes.len() {
        vstd::utf8::is_char_boundary_iff_not_is_continuation_byte(bytes, to);
    } else {
        vstd::utf8::is_char_boundary_start_end_of_seq(bytes);
    }
    vstd::utf8::valid_utf8_split(bytes, to);
    let prefix = bytes.subrange(0, to);
    assert(prefix[from - 1] == bytes[from - 1]);
    lemma_boundary_after_ascii(prefix, from);
    vstd::utf8::valid_utf8_split(prefix, from);
    assert(prefix.subrange(from, prefix.len() as int) =~= bytes.subrange(from, to));
}

/// An ASCII character of a text shows up as its byte in the encoding.
proof fn lemma_ascii_char_encoded(s: Seq<char>, i: int)
    requires
        0 <= i < s.len(),
        (s[i] as u32) < 0x80,
    ensures
        exists|k: int|
            0 <= k < encode_utf8(s).len() && #[trigger] encode_utf8(s)[k] == (s[i] as u32) as u8,
{
    let pre = s.take(i);
    let mid = seq![s[i]];
    let post = s.skip(i + 1);
    assert(s =~= pre + mid + post);
    lemma_encode_concat(pre + mid, post);
    lemma_encode_concat(pre, mid);
    lemma_encode_ascii(s[i]);
    let k = encode_utf8(pre).len() as int;
    assert(encode_utf8(s)[k] == (s[i] as u32) as u8);
}

/// The characters decoded from a byte range that holds none of some ASCII
/// bytes hold none of the matching characters.
proof fn lemma_decoded_avoids(slice: Seq<u8>, bad: spec_fn(u8) -> bool)
    requires
        valid_utf8(slice),
        forall|k: int| 0 <= k < slice.len() ==> !bad(#[trigger] slice[k]),
    ensures
        forall|i: int|
            0 <= i < decode_utf8(slice).len() && (#[trigger] decode_utf8(slice)[i] as u32) < 0x80
                ==> !bad((decode_utf8(slice)[i] as u32) as u8),
{
    let s = decode_utf8(slice);
    vstd::utf8::decode_utf8_encode_utf8(slice);
    assert forall|i: int| 0 <= i < s.len() && (#[trigger] s[i] as u32) < 0x80 implies !bad(
        (s[i] as u32) as u8,
    ) by {
        lemma_ascii_char_encoded(s, i);
    }
}

/// A non-empty valid byte range decodes to a non-empty text.
proof fn lemma_decode_nonempty(slice: Seq<u8>)
    requires
        valid_utf8(slice),
        slice.len() > 0,
    ensures
        decode_utf8(slice).len() > 0,
{
}

/// The characters `[`, `]`, `#`, `|`, line feed, carriage return are ASCII.
proof fn lemma_class_ascii(c: char)
    ensures
        (in_class(CharClass::FrameBreak, c) || in_class(CharClass::SegmentOpener, c))
            ==> (c as u32) < 0x80,
{
}


/// A field of a parsed wiki construct decodes to text without the characters
/// that would end it, brackets, or line endings.
proof fn lemma_parsed_field(bytes: Seq<u8>, from: int, to: int, segment: Segment)
    requires
        valid_utf8(bytes),
        0 < from <= to <= bytes.len(),
        bytes[from - 1] < 0x80,
        to < bytes.len() ==> bytes[to] < 0x80,
        forall|k: int|
            from <= k < to ==> !ends_segment(segment, #[trigger] bytes[k]),
    ensures
        none_in(field_text(bytes, (from, to)), CharClass::FrameBreak),
        segment == Segment::Target ==> none_in(
            field_text(bytes, (from, to)),
            CharClass::SegmentOpener,
        ),
        segment == Segment::Fragment ==> none_in(field_text(bytes, (from, to)), CharClass::Pipe),
        to > from ==> field_text(bytes, (from, to)).len() > 0,
{
    lemma_slice_valid(bytes, from, to);
    let slice = bytes.subrange(from, to);
    let bad = |b: u8| ends_segment(segment, b);
    assert forall|k: int| 0 <= k < slice.len() implies !bad(#[trigger] slice[k]) by {
        assert(slice[k] == bytes[from + k]);
    }
    lemma_decoded_avoids(slice, bad);
    let text = decode_utf8(slice);
    assert forall|i: int| 0 <= i < text.len() implies !in_class(
        CharClass::FrameBreak,
        #[trigger] text[i],
    ) && (segment == Segment::Target ==> !in_class(CharClass::SegmentOpener, text[i])) && (
    segment == Segment::Fragment ==> !in_class(CharClass::Pipe, text[i])) by {
        lemma_class_ascii(text[i]);
        if (text[i] as u32) < 0x80 {
            assert(!bad((text[i] as u32) as u8));
        }
    }
    if to > from {
        lemma_decode_nonempty(slice);
    }
}

/// Law: every wiki link or embed the construct recognizes in a valid UTF-8
/// document can be serialized again: its decoded target, fragment and alias
/// satisfy [`wiki_representable`], which is exactly when `serialize_wiki`
/// succeeds.
pub proof fn law_wiki_parsed_fields_representable(bytes: Seq<u8>, i: int, embed: bool)
    requires
        valid_utf8(bytes),
        0 <= i <= bytes.len(),
        wiki_span(bytes, i, embed) is Some,
    ensures
        ({
            let span = wiki_span(bytes, i, embed)->0;
            wiki_representable(
                field_text(bytes, span.target),
                optional_field_text(bytes, span.fragment),
                optional_field_text(bytes, span.alias),
            )
        }),
{
    let span = wiki_span(bytes, i, embed)->0;
    lemma_span_bounds(bytes, i, embed);
    let p = if embed { i + 3 } else { i + 2 };
    let q = scan(bytes, p, Segment::Target);
    lemma_scan_bounds(bytes, p, Segment::Target);
    assert(span.target == (p, q));
    lemma_parsed_field(bytes, p, q, Segment::Target);
    if let Some((f0, f1)) = span.fragment {
        assert(f0 == q + 1);
        lemma_scan_bounds(bytes, f0, Segment::Fragment);
        assert(f1 == scan(bytes, f0, Segment::Fragment));
        lemma_parsed_field(bytes, f0, f1, Segment::Fragment);
    }
    if let Some((a0, a1)) = span.alias {
        lemma_scan_bounds(bytes, a0, Segment::Alias);
        assert(a1 == scan(bytes, a0, Segment::Alias));
        if let Some((f0, f1)) = span.fragment {
            lemma_scan_bounds(bytes, f0, Segment::Fragment);
            assert(a0 == f1 + 1);
        } else {
            assert(a0 == q + 1);
        }
        lemma_parsed_field(bytes, a0, a1, Segment::Alias);
    }
}

/// The text of a field of a valid document encodes back to the field's bytes.
proof fn lemma_field_bytes(bytes: Seq<u8>, from: int, to: int)
    requires
        valid_utf8(bytes),
        0 < from <= to <= bytes.len(),
        bytes[from - 1] < 0x80,
        to < bytes.len() ==> bytes[to] < 0x80,
    ensures
        encode_utf8(field_text(bytes, (from, to))) == bytes.subrange(from, to),
{
    lemma_slice_valid(bytes, from, to);
    vstd::utf8::decode_utf8_encode_utf8(bytes.subrange(from, to));
}

/// The bytes of an optional part from `at` (its marker) to `to`.
proof fn lemma_part_bytes(bytes: Seq<u8>, marker: u8, at: int, to: int)
    requires
        valid_utf8(bytes),
        0 <= at < to <= bytes.len(),
        bytes[at] == marker,
        marker < 0x80,
        to < bytes.len() ==> bytes[to] < 0x80,
    ensures
        part_bytes(marker, Some(field_text(bytes, (at + 1, to)))) == bytes.subrange(at, to),
{
    lemma_field_bytes(bytes, at + 1, to);
    assert(seq![marker] + bytes.subrange(at + 1, to) =~= bytes.subrange(at, to));
}

/// Adjacent byte ranges join.
proof fn lemma_join(bytes: Seq<u8>, a: int, b: int, c: int)
    requires
        0 <= a <= b <= c <= bytes.len(),
    ensures
        bytes.subrange(a, b) + bytes.subrange(b, c) == bytes.subrange(a, c),
{
    assert(bytes.subrange(a, b) + bytes.subrange(b, c) =~= bytes.subrange(a, c));
}

/// Law: parsing then serializing gives the source back. In a valid UTF-8
/// document, the markdown written for the decoded fields of a wiki link (or
/// embed) that the construct recognizes is, as UTF-8, exactly the bytes it
/// spans.
#[verifier::rlimit(30)]
pub proof fn law_wiki_reserializes(bytes: Seq<u8>, i: int, embed: bool)
    requires
        valid_utf8(bytes),
        0 <= i <= bytes.len(),
        wiki_span(bytes, i, embed) is Some,
    ensures
        ({
            let span = wiki_span(bytes, i, embed)->0;
            encode_utf8(
                wiki_text(
                    embed,
                    field_text(bytes, span.target),
                    optional_field_text(bytes, span.fragment),
                    optional_field_text(bytes, span.alias),
                ),
            ) == bytes.subrange(i, span.end)
        }),
{
    let span = wiki_span(bytes, i, embed)->0;
    lemma_span_bounds(bytes, i, embed);
    let p = if embed { i + 3 } else { i + 2 };
    let q = scan(bytes, p, Segment::Target);
    lemma_scan_bounds(bytes, p, Segment::Target);
    let target = field_text(bytes, span.target);
    let fragment = optional_field_text(bytes, span.fragment);
    let alias = optional_field_text(bytes, span.alias);
    lemma_wiki_text_bytes(embed, target, fragment, alias);
    let fp = part_bytes(0x23, fragment);
    let ap = part_bytes(0x7C, alias);
    assert(span.target == (p, q));
    assert(opener_bytes(embed) =~= bytes.subrange(i, p));
    lemma_field_bytes(bytes, p, q);
    lemma_join(bytes, i, p, q);
    // The segments before the closing `]]` end at `z`.
    let z = span.end - 2;
    if byte_at(bytes, q) == Some(0x23u8) {
        let r = scan(bytes, q + 1, Segment::Fragment);
        lemma_scan_bounds(bytes, q + 1, Segment::Fragment);
        assert(span.fragment == Some((q + 1, r)));
        lemma_part_bytes(bytes, 0x23, q, r);
        lemma_join(bytes, i, q, r);
        if byte_at(bytes, r) == Some(0x5Du8) {
            assert(z == r && ap == Seq::<u8>::empty());
            assert(bytes.subrange(i, r) + ap =~= bytes.subrange(i, z));
        } else {
            let t = scan(bytes, r + 1, Segment::Alias);
            lemma_scan_bounds(bytes, r + 1, Segment::Alias);
            assert(span.alias == Some((r + 1, t)));
            lemma_part_bytes(bytes, 0x7C, r, t);
            lemma_join(bytes, i, r, t);
            assert(z == t);
        }
    } else if byte_at(bytes, q) == Some(0x5Du8) {
        assert(z == q && fp == Seq::<u8>::empty() && ap == Seq::<u8>::empty());
        assert(bytes.subrange(i, q) + fp + ap =~= bytes.subrange(i, z));
    } else {
        let t = scan(bytes, q + 1, Segment::Alias);
        lemma_scan_bounds(bytes, q + 1, Segment::Alias);
        assert(span.alias == Some((q + 1, t)));
        lemma_part_bytes(bytes, 0x7C, q, t);
        lemma_join(bytes, i, q, t);
        assert(z == t && fp == Seq::<u8>::empty());
        assert(bytes.subrange(i, q) + fp =~= bytes.subrange(i, q));
    }
    assert(bytes.subrange(i, p) + bytes.subrange(p, q) + fp + ap == bytes.subrange(i, z));
    assert(seq![0x5Du8, 0x5Du8] =~= bytes.subrange(z, span.end));
    lemma_join(bytes, i, z, span.end);
}

} // verus!
