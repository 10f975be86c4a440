//! Classification of the character that starts at a byte index: whitespace,
//! punctuation, or other.

use vstd::prelude::*;
use vstd::utf8::*;
use unicode_properties::GeneralCategoryGroup;
use unicode_properties::UnicodeGeneralCategory;

verus! {

/// The kind of a character, as far as the constructs care.
#[derive(Clone, Copy, Debug, PartialEq, Eq, Structural)]
pub enum Kind {
    /// Unicode whitespace, or the end of the document.
    Whitespace,
    /// Unicode punctuation or symbol.
    Punctuation,
    /// Anything else.
    Other,
}

/// The most general Unicode category groups.
#[derive(Clone, Copy, Debug, PartialEq, Eq, Structural)]
pub enum CategoryGroup {
    Letter,
    Mark,
    Number,
    Punctuation,
    Symbol,
    Separator,
    Other,
}

/// The general category group of a character, in the Unicode character database.
pub uninterp spec fn unicode_category_group(c: char) -> CategoryGroup;

/// `unicode_properties::UnicodeGeneralCategory::general_category_group` on a
/// `char`: the group of the character's general category. The contract only
/// names the result; which group each character has is the crate's table.
#[verifier::external_body]
fn category_group(c: char) -> (group: CategoryGroup)
    ensures
        group == unicode_category_group(c),
{
    match c.general_category_group() {
        GeneralCategoryGroup::Letter => CategoryGroup::Letter,
        GeneralCategoryGroup::Mark => CategoryGroup::Mark,
        GeneralCategoryGroup::Number => CategoryGroup::Number,
        GeneralCategoryGroup::Punctuation => CategoryGroup::Punctuation,
        GeneralCategoryGroup::Symbol => CategoryGroup::Symbol,
        GeneralCategoryGroup::Separator => CategoryGroup::Separator,
        GeneralCategoryGroup::Other => CategoryGroup::Other,
    }
}

/// `char::from_u32`: the character with the given value when that value is a
/// Unicode scalar (not above `0x10FFFF`, not a surrogate), else `None`.
#[verifier::external_body]
fn char_from_u32(value: u32) -> (c: Option<char>)
    ensures
        c is Some <==> is_scalar(value),
        c matches Some(c) ==> c as u32 == value,
{
    char::from_u32(value)
}

/// The Unicode `White_Space` property (what `char::is_whitespace` tests).
pub open spec fn is_unicode_whitespace(c: char) -> bool {
    ||| '\t' <= c <= '\r'
    ||| c == ' '
    ||| c == '\u{85}'
    ||| c == '\u{A0}'
    ||| c == '\u{1680}'
    ||| '\u{2000}' <= c <= '\u{200A}'
    ||| c == '\u{2028}'
    ||| c == '\u{2029}'
    ||| c == '\u{202F}'
    ||| c == '\u{205F}'
    ||| c == '\u{3000}'
}

/// ASCII whitespace: tab, line feed, form feed, carriage return, space.
pub open spec fn is_ascii_whitespace(b: u8) -> bool {
    b == 0x09 || b == 0x0A || b == 0x0C || b == 0x0D || b == 0x20
}

/// ASCII punctuation: `!` to `/`, `:` to `@`, `[` to `` ` ``, `{` to `~`.
pub open spec fn is_ascii_punctuation(b: u8) -> bool {
    (0x21 <= b <= 0x2F) || (0x3A <= b <= 0x40) || (0x5B <= b <= 0x60) || (0x7B <= b <= 0x7E)
}

/// ASCII digits and letters.
pub open spec fn is_ascii_alphanumeric(b: u8) -> bool {
    (0x30 <= b <= 0x39) || (0x41 <= b <= 0x5A) || (0x61 <= b <= 0x7A)
}

/// The replacement character, which stands for bytes that are not UTF-8.
pub open spec fn replacement_char() -> char {
    '\u{FFFD}'
}

/// The character that starts at `index`: the first scalar of the (at most
/// four) bytes from there when they start with valid UTF-8, else the
/// replacement character.
pub open spec fn char_after(bytes: Seq<u8>, index: int) -> char {
    let end = if index + 4 < bytes.len() { index + 4 } else { bytes.len() as int };
    let window = bytes.subrange(index, end);
    if valid_first_scalar(window) {
        decode_first_scalar(window) as char
    } else {
        replacement_char()
    }
}

/// Kind of a character.
pub open spec fn classify_spec(c: char) -> Kind {
    if is_unicode_whitespace(c) {
        Kind::Whitespace
    } else if (c as u32) < 0x80 && is_ascii_punctuation(c as u8) {
        Kind::Punctuation
    } else if (c as u32) < 0x80 && is_ascii_alphanumeric(c as u8) {
        Kind::Other
    } else if unicode_category_group(c) == CategoryGroup::Punctuation
        || unicode_category_group(c) == CategoryGroup::Symbol {
        Kind::Punctuation
    } else {
        Kind::Other
    }
}

/// Kind of the character at `index`; the end of the document counts as
/// whitespace.
pub open spec fn kind_after(bytes: Seq<u8>, index: int) -> Kind {
    if index >= bytes.len() {
        Kind::Whitespace
    } else if is_ascii_whitespace(bytes[index]) {
        Kind::Whitespace
    } else if is_ascii_punctuation(bytes[index]) {
        Kind::Punctuation
    } else if is_ascii_alphanumeric(bytes[index]) {
        Kind::Other
    } else {
        classify_spec(char_after(bytes, index))
    }
}

/// Law: the kind of a character. An ASCII letter or digit is other, ASCII
/// punctuation is punctuation, and a tab, line feed, vertical tab, form feed,
/// carriage return, or space is whitespace. Outside ASCII, a character with
/// the `White_Space` property (U+0085, U+00A0, U+1680, U+2000 to U+200A,
/// U+2028, U+2029, U+202F, U+205F, U+3000) is whitespace, one whose general
/// category is in the Punctuation or Symbol group is punctuation, and every
/// other one (letters, marks, numbers, and the rest) is other.
pub proof fn law_classify(c: char)
    ensures
        ({
            let x = c as u32;
            &&& ((0x30 <= x <= 0x39) || (0x41 <= x <= 0x5A) || (0x61 <= x <= 0x7A))
                ==> classify_spec(c) == Kind::Other
            &&& ((0x21 <= x <= 0x2F) || (0x3A <= x <= 0x40) || (0x5B <= x <= 0x60) || (0x7B <= x
                <= 0x7E)) ==> classify_spec(c) == Kind::Punctuation
            &&& ((0x09 <= x <= 0x0D) || x == 0x20) ==> classify_spec(c) == Kind::Whitespace
            &&& x >= 0x80 ==> classify_spec(c) == if c == '\u{85}' || c == '\u{A0}' || c
                == '\u{1680}' || ('\u{2000}' <= c && c <= '\u{200A}') || c == '\u{2028}' || c
                == '\u{2029}' || c == '\u{202F}' || c == '\u{205F}' || c == '\u{3000}' {
                Kind::Whitespace
            } else if unicode_category_group(c) == CategoryGroup::Punctuation
                || unicode_category_group(c) == CategoryGroup::Symbol {
                Kind::Punctuation
            } else {
                Kind::Other
            }
        }),
{
    let x = c as u32;
    if x < 0x80 {
        assert((x as u8) as u32 == x) by (bit_vector)
            requires
                x < 0x80,
        ;
    }
}

/// Law: the character read at an index is the one encoded there. Wherever
/// the UTF-8 encoding of a character `c` stands in a document, whatever comes
/// before or after it, [`char_after`] at its first byte is `c`.
pub proof fn law_char_after_reads_encoded(pre: Seq<u8>, c: char, post: Seq<u8>)
    ensures
        char_after(pre + encode_utf8(seq![c]) + post, pre.len() as int) == c,
{
    let e = encode_utf8(seq![c]);
    let bytes = pre + e + post;
    let i = pre.len() as int;
    encode_utf8_first_scalar(seq![c]);
    char_is_scalar(c);
    assert(seq![c][0] == c);
    let n = length_of_first_scalar(e);
    assert(seq![c].drop_first() =~= Seq::<char>::empty());
    assert(e =~= encode_scalar(c as u32) + encode_utf8(Seq::<char>::empty()));
    assert(1 <= n <= 4 && n == e.len());
    let end = if i + 4 < bytes.len() { i + 4 } else { bytes.len() as int };
    let window = bytes.subrange(i, end);
    assert(window.len() >= n);
    assert forall|k: int| 0 <= k < n implies window[k] == #[trigger] e[k] by {
        assert(bytes[i + k] == e[k]);
    }
    assert(valid_first_scalar(window));
    assert(decode_first_scalar(window) == c as u32);
    char_u32_cast(c, c as u32);
}

/// Law: a character is only read where it is encoded. The character read at
/// an index in the document is the replacement character U+FFFD, or its
/// UTF-8 encoding stands at that index. (With
/// [`law_char_after_reads_encoded`], where no character is encoded at an
/// index, U+FFFD is read.)
pub proof fn law_char_after_is_encoded_there(bytes: Seq<u8>, i: int)
    requires
        0 <= i < bytes.len(),
    ensures
        ({
            let c = char_after(bytes, i);
            ||| c == '\u{FFFD}'
            ||| (i + encode_utf8(seq![c]).len() <= bytes.len() && bytes.subrange(
                i,
                i + encode_utf8(seq![c]).len(),
            ) == encode_utf8(seq![c]))
        }),
{
    let end = if i + 4 < bytes.len() { i + 4 } else { bytes.len() as int };
    let window = bytes.subrange(i, end);
    if valid_first_scalar(window) {
        let n = length_of_first_scalar(window);
        let p = window.subrange(0, n);
        assert(forall|k: int| 0 <= k < n ==> p[k] == #[trigger] window[k]);
        assert(valid_first_scalar(p));
        assert(decode_first_scalar(p) == decode_first_scalar(window));
        assert(pop_first_scalar(p).len() == 0);
        assert(valid_utf8(pop_first_scalar(p)));
        assert(valid_utf8(p));
        decode_utf8_first_scalar(p);
        let c = decode_first_scalar(window) as char;
        assert(take_first_scalar(p) =~= p);
        assert(seq![c].drop_first() =~= Seq::<char>::empty());
        assert(encode_utf8(seq![c]) =~= encode_scalar(c as u32) + encode_utf8(Seq::<char>::empty()));
        assert(bytes.subrange(i, i + n) =~= p);
    }
}

/// Law: a byte that cannot start a character (a continuation byte, or a
/// byte from `0xF8` up) reads as the replacement character U+FFFD.
pub proof fn law_char_after_invalid(bytes: Seq<u8>, i: int)
    requires
        0 <= i < bytes.len(),
        (0x80 <= bytes[i] <= 0xBF) || bytes[i] >= 0xF8,
    ensures
        char_after(bytes, i) == '\u{FFFD}',
{
    let end = if i + 4 < bytes.len() { i + 4 } else { bytes.len() as int };
    let window = bytes.subrange(i, end);
    assert(window[0] == bytes[i]);
    let b = bytes[i];
    assert(!is_leading_byte_width_1(b) && !is_leading_byte_width_2(b) && !is_leading_byte_width_3(
        b,
    ) && !is_leading_byte_width_4(b));
}

/// Law: ASCII bytes have their fixed kinds. At an ASCII letter or digit the
/// kind is other; at an ASCII punctuation byte (`!` to `/`, `:` to `@`, `[`
/// to `` ` ``, `{` to `~`) it is punctuation; at a tab, line feed, vertical
/// tab, form feed, carriage return, or space, and past the end of the
/// document, it is whitespace.
pub proof fn law_kind_of_ascii(bytes: Seq<u8>, i: int)
    requires
        0 <= i,
    ensures
        i >= bytes.len() ==> kind_after(bytes, i) == Kind::Whitespace,
        i < bytes.len() && ((0x30 <= bytes[i] <= 0x39) || (0x41 <= bytes[i] <= 0x5A) || (0x61
            <= bytes[i] <= 0x7A)) ==> kind_after(bytes, i) == Kind::Other,
        i < bytes.len() && ((0x21 <= bytes[i] <= 0x2F) || (0x3A <= bytes[i] <= 0x40) || (0x5B
            <= bytes[i] <= 0x60) || (0x7B <= bytes[i] <= 0x7E)) ==> kind_after(bytes, i)
            == Kind::Punctuation,
        i < bytes.len() && ((0x09 <= bytes[i] <= 0x0D) || bytes[i] == 0x20) ==> kind_after(
            bytes,
            i,
        ) == Kind::Whitespace,
{
    if i < bytes.len() && bytes[i] == 0x0B {
        let pre = bytes.subrange(0, i);
        let post = bytes.subrange(i + 1, bytes.len() as int);
        let c = '\u{0B}';
        let x = c as u32;
        assert(x == 0x0B);
        assert(((x & 0x7F) as u8) == 0x0Bu8) by (bit_vector)
            requires
                x == 0x0B,
        ;
        assert(seq![c].drop_first() =~= Seq::<char>::empty());
        assert(encode_utf8(seq![c]) =~= encode_scalar(x) + encode_utf8(Seq::<char>::empty()));
        assert(encode_utf8(seq![c]) =~= seq![0x0Bu8]);
        assert(pre + encode_utf8(seq![c]) + post =~= bytes);
        law_char_after_reads_encoded(pre, c, post);
    }
}

/// Law: a character outside ASCII has the kind of its Unicode properties.
/// Wherever its UTF-8 encoding stands in a document, the kind at its first
/// byte is whitespace when it has the `White_Space` property (U+0085, U+00A0,
/// U+1680, U+2000 to U+200A, U+2028, U+2029, U+202F, U+205F, U+3000),
/// punctuation when its general category is in the Punctuation or Symbol
/// group, and other for every other character (letters, marks, numbers, and
/// the rest).
pub proof fn law_kind_of_encoded_char(pre: Seq<u8>, c: char, post: Seq<u8>)
    requires
        (c as u32) >= 0x80,
    ensures
        kind_after(pre + encode_utf8(seq![c]) + post, pre.len() as int) == if c == '\u{85}' || c
            == '\u{A0}' || c == '\u{1680}' || ('\u{2000}' <= c && c <= '\u{200A}') || c
            == '\u{2028}' || c == '\u{2029}' || c == '\u{202F}' || c == '\u{205F}' || c
            == '\u{3000}' {
            Kind::Whitespace
        } else if unicode_category_group(c) == CategoryGroup::Punctuation || unicode_category_group(
            c,
        ) == CategoryGroup::Symbol {
            Kind::Punctuation
        } else {
            Kind::Other
        },
{
    let e = encode_utf8(seq![c]);
    let bytes = pre + e + post;
    let i = pre.len() as int;
    law_char_after_reads_encoded(pre, c, post);
    char_is_scalar(c);
    assert(seq![c].drop_first() =~= Seq::<char>::empty());
    assert(e =~= encode_scalar(c as u32) + encode_utf8(Seq::<char>::empty()));
    let x = c as u32;
    assert(bytes[i] == e[0]);
    assert(bytes[i] >= 0xC0) by {
        if x <= 0x7FF {
            assert(((0xC0 | ((x >> 6) & 0x1F) as u8) as u8) >= 0xC0) by (bit_vector);
        } else if x <= 0xFFFF {
            assert(((0xE0 | ((x >> 12) & 0x0F) as u8) as u8) >= 0xC0) by (bit_vector);
        } else {
            assert(((0xF0 | ((x >> 18) & 0x7) as u8) as u8) >= 0xC0) by (bit_vector);
        }
    }
}

/// Whether a character has the Unicode `White_Space` property.
pub fn is_whitespace(c: char) -> (r: bool)
    ensures
        r == is_unicode_whitespace(c),
{
    ('\t' <= c && c <= '\r') || c == ' ' || c == '\u{85}' || c == '\u{A0}' || c == '\u{1680}'
        || ('\u{2000}' <= c && c <= '\u{200A}') || c == '\u{2028}' || c == '\u{2029}'
        || c == '\u{202F}' || c == '\u{205F}' || c == '\u{3000}'
}

/// Kind of a character.
pub fn classify(c: char) -> (kind: Kind)
    ensures
        kind == classify_spec(c),
{
    if is_whitespace(c) {
        Kind::Whitespace
    } else if (c as u32) < 0x80 && {
        let b = c as u32 as u8;
        (0x21 <= b && b <= 0x2F) || (0x3A <= b && b <= 0x40) || (0x5B <= b && b <= 0x60)
            || (0x7B <= b && b <= 0x7E)
    } {
        Kind::Punctuation
    } else if (c as u32) < 0x80 && {
        let b = c as u32 as u8;
        (0x30 <= b && b <= 0x39) || (0x41 <= b && b <= 0x5A) || (0x61 <= b && b <= 0x7A)
    } {
        Kind::Other
    } else {
        let group = category_group(c);
        if group == CategoryGroup::Punctuation || group == CategoryGroup::Symbol {
            Kind::Punctuation
        } else {
            Kind::Other
        }
    }
}

/// The character that starts at `index` (see [`char_after`]).
pub fn char_after_index(bytes: &Vec<u8>, index: usize) -> (c: char)
    requires
        index < bytes.len(),
    ensures
        c == char_after(bytes@, index as int),
{
    let ghost end = if index + 4 < bytes.len() { index + 4 } else { bytes.len() as int };
    let ghost window = bytes@.subrange(index as int, end);
    let avail = bytes.len() - index;
    let b0 = bytes[index];
    let cp: u32;
    if b0 <= 0x7f {
        assert(((b0 & 0x7F) as u32) == b0 as u32) by (bit_vector)
            requires b0 <= 0x7f;
        cp = b0 as u32;
        assert(valid_first_scalar(window));
    } else if 0xc0 <= b0 && b0 <= 0xdf {
        if avail < 2 || !(0x80 <= bytes[index + 1] && bytes[index + 1] <= 0xbf) {
            return '\u{FFFD}';
        }
        let b1 = bytes[index + 1];
        cp = (((b0 & 0x1F) as u32) << 6) | ((b1 & 0x3F) as u32);
        assert(cp <= 0x7FF) by (bit_vector)
            requires cp == (((b0 & 0x1F) as u32) << 6) | ((b1 & 0x3F) as u32);
        if cp < 0x80 {
            return '\u{FFFD}';
        }
    } else if 0xe0 <= b0 && b0 <= 0xef {
        if avail < 3 || !(0x80 <= bytes[index + 1] && bytes[index + 1] <= 0xbf)
            || !(0x80 <= bytes[index + 2] && bytes[index + 2] <= 0xbf) {
            return '\u{FFFD}';
        }
        let b1 = bytes[index + 1];
        let b2 = bytes[index + 2];
        cp = (((b0 & 0x0F) as u32) << 12) | (((b1 & 0x3F) as u32) << 6) | ((b2 & 0x3F) as u32);
        assert(cp <= 0xFFFF) by (bit_vector)
            requires
                cp == (((b0 & 0x0F) as u32) << 12) | (((b1 & 0x3F) as u32) << 6) | ((b2
                    & 0x3F) as u32),
        ;
        if cp < 0x800 || (0xD800 <= cp && cp <= 0xDFFF) {
            return '\u{FFFD}';
        }
    } else if 0xf0 <= b0 && b0 <= 0xf7 {
        if avail < 4 || !(0x80 <= bytes[index + 1] && bytes[index + 1] <= 0xbf)
            || !(0x80 <= bytes[index + 2] && bytes[index + 2] <= 0xbf)
            || !(0x80 <= bytes[index + 3] && bytes[index + 3] <= 0xbf) {
            return '\u{FFFD}';
        }
        let b1 = bytes[index + 1];
        let b2 = bytes[index + 2];
        let b3 = bytes[index + 3];
        cp = (((b0 & 0x07) as u32) << 18) | (((b1 & 0x3F) as u32) << 12) | (((b2 & 0x3F) as u32)
            << 6) | ((b3 & 0x3F) as u32);
        assert(cp <= 0x1FFFFF) by (bit_vector)
            requires
                cp == (((b0 & 0x07) as u32) << 18) | (((b1 & 0x3F) as u32) << 12) | (((b2
                    & 0x3F) as u32) << 6) | ((b3 & 0x3F) as u32),
        ;
        if cp < 0x10000 || cp > 0x10FFFF {
            return '\u{FFFD}';
        }
    } else {
        return '\u{FFFD}';
    }
    assert(valid_first_scalar(window));
    assert(decode_first_scalar(window) == cp);
    match char_from_u32(cp) {
        Some(c) => {
            proof {
                vstd::utf8::char_u32_cast(c, cp);
            }
            c
        },
        None => '\u{FFFD}',
    }
}

/// Kind of the character at `index` in `bytes` (see [`kind_after`]).
pub fn kind_after_index(bytes: &Vec<u8>, index: usize) -> (kind: Kind)
    requires
        index <= bytes.len(),
    ensures
        kind == kind_after(bytes@, index as int),
{
    if index == bytes.len() {
        Kind::Whitespace
    } else {
        let b = bytes[index];
        if b == 0x09 || b == 0x0A || b == 0x0C || b == 0x0D || b == 0x20 {
            Kind::Whitespace
        } else if (0x21 <= b && b <= 0x2F) || (0x3A <= b && b <= 0x40) || (0x5B <= b && b
            <= 0x60) || (0x7B <= b && b <= 0x7E) {
            Kind::Punctuation
        } else if (0x30 <= b && b <= 0x39) || (0x41 <= b && b <= 0x5A) || (0x61 <= b && b
            <= 0x7A) {
            Kind::Other
        } else {
            classify(char_after_index(bytes, index))
        }
    }
}

} // verus!
