//! The syntax that the directive sub-parsers recognize, stated over the
//! document bytes, and the proofs that they recognize exactly it.

use vstd::prelude::*;
use crate::character::{
    kind_after, law_kind_of_ascii, law_kind_of_encoded_char, unicode_category_group, CategoryGroup,
    Kind,
};
use vstd::utf8::{encode_scalar, encode_utf8};
use crate::event::{event, unit, Content, Event, EventKind, Name};
use crate::machine::{
    can_start, lemma_run_done, lemma_run_next, lemma_run_step, machine_inv, machine_step, run,
};
use crate::state::{State, StateName};
use crate::tokenizer::{advance, byte_at, TokenizeState, TokenizerView};

verus! {

/// Whether the byte at `j` continues a directive name: a continuation byte of
/// a multi-byte character, a character that is neither whitespace nor
/// punctuation, `-`, or `_`.
pub open spec fn name_continues(bytes: Seq<u8>, j: int) -> bool {
    &&& 0 <= j < bytes.len()
    &&& {
        ||| 0x80 <= bytes[j] <= 0xBF
        ||| kind_after(bytes, j) == Kind::Other
        ||| bytes[j] == 0x2D
        ||| bytes[j] == 0x5F
    }
}

/// The first index at or after `j` that does not continue a name.
pub open spec fn name_end(bytes: Seq<u8>, j: int) -> int
    decreases bytes.len() - j,
{
    if j < 0 || !name_continues(bytes, j) {
        j
    } else {
        name_end(bytes, j + 1)
    }
}

/// The end of the directive name that starts at `i`, if one does: it starts
/// with a character that is neither whitespace nor punctuation, goes on
/// while bytes continue it, and does not end in `-` or `_`.
pub open spec fn directive_name(bytes: Seq<u8>, i: int) -> Option<int> {
    if 0 <= i < bytes.len() && kind_after(bytes, i) == Kind::Other {
        let e = name_end(bytes, i + 1);
        if bytes[e - 1] == 0x2D || bytes[e - 1] == 0x5F {
            None
        } else {
            Some(e)
        }
    } else {
        None
    }
}

/// `name_end` lies in the document, after a run of name bytes.
pub proof fn lemma_name_end(bytes: Seq<u8>, j: int)
    requires
        0 <= j <= bytes.len(),
    ensures
        j <= name_end(bytes, j) <= bytes.len(),
        !name_continues(bytes, name_end(bytes, j)),
    decreases bytes.len() - j,
{
    if name_continues(bytes, j) {
        lemma_name_end(bytes, j + 1);
    }
}

/// In a name: every byte that continues it is consumed.
proof fn lemma_name_scan(v: TokenizerView)
    requires
        machine_inv(v, State::Retry(StateName::DirectiveNameInside)),
        v.attempts.len() == 0,
        v.index > 0,
    ensures
        run(v, State::Retry(StateName::DirectiveNameInside)) == run(
            advance(v, name_end(v.bytes, v.index)),
            State::Retry(StateName::DirectiveNameInside),
        ),
        machine_inv(
            advance(v, name_end(v.bytes, v.index)),
            State::Retry(StateName::DirectiveNameInside),
        ),
    decreases v.bytes.len() - v.index,
{
    let s = State::Retry(StateName::DirectiveNameInside);
    let e = name_end(v.bytes, v.index);
    if name_continues(v.bytes, v.index) {
        lemma_run_step(v, s);
        let v1 = v.consume();
        assert(machine_step(v, s) == (v1, State::Next(StateName::DirectiveNameInside)));
        lemma_run_next(v1, StateName::DirectiveNameInside);
        lemma_name_scan(v1);
        lemma_name_end(v.bytes, v.index + 1);
        assert(advance(v1, e) == advance(v, e));
    } else {
        assert(advance(v, e) == v);
    }
}

/// Law: the name sub-parser recognizes exactly [`directive_name`]. Started at
/// the name with no attempt pending, it matches when a name starts there,
/// and then ends after it, having emitted the name's unit; otherwise it fails.
pub proof fn law_directive_name(v: TokenizerView)
    requires
        can_start(v, StateName::DirectiveNameStart),
    ensures
        ({
            let r = run(v, State::Retry(StateName::DirectiveNameStart));
            match directive_name(v.bytes, v.index) {
                Some(e) => r == (
                    TokenizerView {
                        events: v.events + unit(Name::DirectiveName, v.index, e),
                        ..advance(v, e)
                    },
                    State::Okay,
                ),
                None => r.1 == State::Nok,
            }
        }),
{
    let s = State::Retry(StateName::DirectiveNameStart);
    lemma_run_step(v, s);
    if v.index < v.bytes.len() && kind_after(v.bytes, v.index) == Kind::Other {
        let i = v.index;
        let v1 = v.enter(Name::DirectiveName).consume();
        let si = State::Next(StateName::DirectiveNameInside);
        assert(machine_step(v, s) == (v1, si));
        lemma_run_next(v1, StateName::DirectiveNameInside);
        lemma_name_scan(v1);
        lemma_name_end(v.bytes, i + 1);
        let e = name_end(v.bytes, i + 1);
        let v2 = advance(v1, e);
        let si2 = State::Retry(StateName::DirectiveNameInside);
        lemma_run_step(v2, si2);
        assert(v2.previous == byte_at(v.bytes, e - 1));
        if v.bytes[e - 1] == 0x2D || v.bytes[e - 1] == 0x5F {
            assert(machine_step(v2, si2) == (v2, State::Nok));
            lemma_run_done(v2, State::Nok);
        } else {
            let v3 = v2.exit(Name::DirectiveName);
            assert(machine_step(v2, si2) == (v3, State::Okay));
            lemma_run_done(v3, State::Okay);
            assert(v3.events =~= v.events + unit(Name::DirectiveName, i, e));
            assert(v3 == TokenizerView {
                events: v.events + unit(Name::DirectiveName, i, e),
                ..advance(v, e)
            });
        }
    } else {
        assert(machine_step(v, s) == (v, State::Nok));
        lemma_run_done(v, State::Nok);
    }
}


/// An ASCII letter or digit.
pub open spec fn ascii_alnum(b: u8) -> bool {
    (0x30 <= b <= 0x39) || (0x41 <= b <= 0x5A) || (0x61 <= b <= 0x7A)
}

/// `name_end` over a run of ASCII letters, digits, `-` and `_` ends at the
/// first byte after the run that is ASCII whitespace or other ASCII
/// punctuation, or at the end of the document.
proof fn lemma_ascii_name_end(bytes: Seq<u8>, j: int, e: int)
    requires
        0 <= j <= e <= bytes.len(),
        forall|k: int| j <= k < e ==> ascii_alnum(#[trigger] bytes[k]) || bytes[k] == 0x2D
            || bytes[k] == 0x5F,
        e < bytes.len() ==> (0x09 <= bytes[e] <= 0x0D || bytes[e] == 0x20 || ((0x21 <= bytes[e]
            <= 0x2F) || (0x3A <= bytes[e] <= 0x40) || (0x5B <= bytes[e] <= 0x60) || (0x7B
            <= bytes[e] <= 0x7E)) && bytes[e] != 0x2D && bytes[e] != 0x5F),
    ensures
        name_end(bytes, j) == e,
    decreases e - j,
{
    law_kind_of_ascii(bytes, j);
    if j < e {
        lemma_ascii_name_end(bytes, j + 1, e);
    }
}

/// Law: a name spelled with ASCII letters and digits (and `-` or `_` inside)
/// is a directive name. When the bytes from `i` to `e` start and end with an
/// ASCII letter or digit, hold only ASCII letters, digits, `-` and `_`, and
/// are followed by the end of the document, ASCII whitespace, or ASCII
/// punctuation other than `-` and `_`, the name at `i` ends at `e`. So, for
/// example, `:::Note` opens a fence whose name is `Note`.
pub proof fn law_ascii_name(bytes: Seq<u8>, i: int, e: int)
    requires
        0 <= i < e <= bytes.len(),
        ascii_alnum(bytes[i]),
        ascii_alnum(bytes[e - 1]),
        forall|k: int| i <= k < e ==> ascii_alnum(#[trigger] bytes[k]) || bytes[k] == 0x2D
            || bytes[k] == 0x5F,
        e < bytes.len() ==> (0x09 <= bytes[e] <= 0x0D || bytes[e] == 0x20 || ((0x21 <= bytes[e]
            <= 0x2F) || (0x3A <= bytes[e] <= 0x40) || (0x5B <= bytes[e] <= 0x60) || (0x7B
            <= bytes[e] <= 0x7E)) && bytes[e] != 0x2D && bytes[e] != 0x5F),
    ensures
        directive_name(bytes, i) == Some(e),
{
    law_kind_of_ascii(bytes, i);
    lemma_ascii_name_end(bytes, i + 1, e);
}

/// Law: a name starts at, and runs on through, every character outside
/// ASCII that is not whitespace and whose general category is not in the
/// Punctuation or Symbol group (letters such as `注`, marks such as the
/// Devanagari vowel sign `ो`, numbers). Wherever such a character is encoded
/// in a document, a name can start at its first byte (its kind is other), and
/// each of its bytes continues a name.
pub proof fn law_name_through_char(pre: Seq<u8>, c: char, post: Seq<u8>)
    requires
        (c as u32) >= 0x80,
        !(c == '\u{85}' || c == '\u{A0}' || c == '\u{1680}' || ('\u{2000}' <= c && c
            <= '\u{200A}') || c == '\u{2028}' || c == '\u{2029}' || c == '\u{202F}' || c
            == '\u{205F}' || c == '\u{3000}'),
        unicode_category_group(c) != CategoryGroup::Punctuation,
        unicode_category_group(c) != CategoryGroup::Symbol,
    ensures
        ({
            let bytes = pre + encode_utf8(seq![c]) + post;
            let i = pre.len() as int;
            &&& kind_after(bytes, i) == Kind::Other
            &&& forall|k: int|
                i <= k < i + encode_utf8(seq![c]).len() ==> #[trigger] name_continues(bytes, k)
        }),
{
    let e = encode_utf8(seq![c]);
    let bytes = pre + e + post;
    let i = pre.len() as int;
    law_kind_of_encoded_char(pre, c, post);
    vstd::utf8::char_is_scalar(c);
    assert(seq![c].drop_first() =~= Seq::<char>::empty());
    assert(e =~= encode_scalar(c as u32) + encode_utf8(Seq::<char>::empty()));
    let x = c as u32;
    assert((0x80 | (x & 0x3F) as u8) as u8 >= 0x80 && (0x80 | (x & 0x3F) as u8) as u8 <= 0xBF)
        by (bit_vector);
    assert((0x80 | ((x >> 6) & 0x3F) as u8) as u8 >= 0x80 && (0x80 | ((x >> 6) & 0x3F) as u8) as u8
        <= 0xBF) by (bit_vector);
    assert((0x80 | ((x >> 12) & 0x3F) as u8) as u8 >= 0x80 && (0x80 | ((x >> 12) & 0x3F) as u8) as u8
        <= 0xBF) by (bit_vector);
    assert forall|k: int| i <= k < i + e.len() implies #[trigger] name_continues(bytes, k) by {
        assert(bytes[k] == e[k - i]);
    }
}

/// The index of the `]` that closes a label, scanning from `j` inside
/// `depth` nested brackets: `\` escapes the next byte, `[` opens a nested
/// bracket and `]` closes one; a line ending or the end of the document
/// leaves the label unclosed.
pub open spec fn label_close(bytes: Seq<u8>, j: int, depth: nat) -> Option<int>
    decreases bytes.len() - j,
{
    if j < 0 || j >= bytes.len() || bytes[j] == 0x0A || bytes[j] == 0x0D {
        None
    } else if bytes[j] == 0x5C {
        if j + 1 >= bytes.len() || bytes[j + 1] == 0x0A || bytes[j + 1] == 0x0D {
            None
        } else {
            label_close(bytes, j + 2, depth)
        }
    } else if bytes[j] == 0x5B {
        label_close(bytes, j + 1, depth + 1)
    } else if bytes[j] == 0x5D {
        if depth == 0 {
            Some(j)
        } else {
            label_close(bytes, j + 1, (depth - 1) as nat)
        }
    } else {
        label_close(bytes, j + 1, depth)
    }
}

/// The end of the directive label that starts at `i`, if one does:
/// `[`, balanced content on one line, `]`.
pub open spec fn directive_label(bytes: Seq<u8>, i: int) -> Option<int> {
    if byte_at(bytes, i) == Some(0x5Bu8) {
        match label_close(bytes, i + 1, 0) {
            Some(c) => Some(c + 1),
            None => None,
        }
    } else {
        None
    }
}

/// The events that close a label whose `]` is at `c`.
pub open spec fn label_close_events(c: int) -> Seq<Event> {
    seq![event(EventKind::Exit, Name::DirectiveLabelString, c)] + unit(
        Name::DirectiveLabelMarker,
        c,
        c + 1,
    ) + seq![event(EventKind::Exit, Name::DirectiveLabel, c + 1)]
}

/// The events of a label from `i` to `end`: an empty label (`[]`) has no
/// label string.
pub open spec fn label_events(i: int, end: int) -> Seq<Event> {
    if end == i + 2 {
        seq![event(EventKind::Enter, Name::DirectiveLabel, i)] + unit(
            Name::DirectiveLabelMarker,
            i,
            i + 1,
        ) + unit(Name::DirectiveLabelMarker, i + 1, i + 2) + seq![
            event(EventKind::Exit, Name::DirectiveLabel, i + 2),
        ]
    } else {
        label_events_with_string(i, end)
    }
}

/// The events of a non-empty label from `i` to `end`.
pub open spec fn label_events_with_string(i: int, end: int) -> Seq<Event> {
    seq![event(EventKind::Enter, Name::DirectiveLabel, i)] + unit(
        Name::DirectiveLabelMarker,
        i,
        i + 1,
    ) + seq![
        Event {
            kind: EventKind::Enter,
            name: Name::DirectiveLabelString,
            index: (i + 1) as usize,
            link: Some(Content::Text),
        },
    ] + label_close_events(end - 1)
}

/// The tokenizer moved to `k` with `events` added and the label depth cleared.
pub open spec fn label_done(x: TokenizerView, k: int, events: Seq<Event>) -> TokenizerView {
    TokenizerView {
        events: x.events + events,
        tokenize_state: TokenizeState { size_c: 0, ..x.tokenize_state },
        ..advance(x, k)
    }
}

/// `label_close` finds a `]` in the document.
proof fn lemma_label_close_bounds(bytes: Seq<u8>, j: int, depth: nat)
    requires
        0 <= j,
    ensures
        label_close(bytes, j, depth) matches Some(c) ==> j <= c < bytes.len() && bytes[c] == 0x5D,
    decreases bytes.len() - j,
{
    if 0 <= j < bytes.len() && !(bytes[j] == 0x0A || bytes[j] == 0x0D) {
        if bytes[j] == 0x5C {
            if j + 1 < bytes.len() && !(bytes[j + 1] == 0x0A || bytes[j + 1] == 0x0D) {
                lemma_label_close_bounds(bytes, j + 2, depth);
            }
        } else if bytes[j] == 0x5B {
            lemma_label_close_bounds(bytes, j + 1, depth + 1);
        } else if bytes[j] == 0x5D {
            if depth > 0 {
                lemma_label_close_bounds(bytes, j + 1, (depth - 1) as nat);
            }
        } else {
            lemma_label_close_bounds(bytes, j + 1, depth);
        }
    }
}

/// Inside a label: the state runs to the closing `]` exactly as
/// [`label_close`] finds it.
proof fn lemma_label_inside(x: TokenizerView)
    requires
        machine_inv(x, State::Retry(StateName::DirectiveLabelInside)),
        x.attempts.len() == 0,
        x.index > 0,
    ensures
        ({
            let r = run(x, State::Retry(StateName::DirectiveLabelInside));
            match label_close(x.bytes, x.index, x.tokenize_state.size_c as nat) {
                Some(c) => r == (label_done(x, c + 1, label_close_events(c)), State::Okay),
                None => r.1 == State::Nok,
            }
        }),
    decreases x.bytes.len() - x.index,
{
    let s = State::Retry(StateName::DirectiveLabelInside);
    let j = x.index;
    let d = x.tokenize_state.size_c;
    lemma_run_step(x, s);
    if j >= x.bytes.len() || x.bytes[j] == 0x0A || x.bytes[j] == 0x0D {
        assert(machine_step(x, s) == (x.set_size_c(0), State::Nok));
        lemma_run_done(x.set_size_c(0), State::Nok);
    } else if x.bytes[j] == 0x5C {
        let x1 = x.consume();
        let se = State::Next(StateName::DirectiveLabelEscape);
        assert(machine_step(x, s) == (x1, se));
        lemma_run_step(x1, se);
        if j + 1 >= x.bytes.len() || x.bytes[j + 1] == 0x0A || x.bytes[j + 1] == 0x0D {
            assert(machine_step(x1, se) == (x1.set_size_c(0), State::Nok));
            lemma_run_done(x1.set_size_c(0), State::Nok);
        } else {
            let x2 = x1.consume();
            assert(machine_step(x1, se) == (x2, State::Next(StateName::DirectiveLabelInside)));
            lemma_run_next(x2, StateName::DirectiveLabelInside);
            lemma_label_inside(x2);
            lemma_label_close_bounds(x.bytes, j + 2, d as nat);
            if let Some(c) = label_close(x.bytes, j + 2, d as nat) {
                assert(label_done(x2, c + 1, label_close_events(c)) == label_done(
                    x,
                    c + 1,
                    label_close_events(c),
                ));
            }
        }
    } else if x.bytes[j] == 0x5B {
        let x1 = x.set_size_c((d + 1) as usize).consume();
        assert(machine_step(x, s) == (x1, State::Next(StateName::DirectiveLabelInside)));
        lemma_run_next(x1, StateName::DirectiveLabelInside);
        lemma_label_inside(x1);
        lemma_label_close_bounds(x.bytes, j + 1, (d + 1) as nat);
        if let Some(c) = label_close(x.bytes, j + 1, (d + 1) as nat) {
            assert(label_done(x1, c + 1, label_close_events(c)) == label_done(
                x,
                c + 1,
                label_close_events(c),
            ));
        }
    } else if x.bytes[j] == 0x5D {
        if d == 0 {
            let x1 = x.exit(Name::DirectiveLabelString).enter(
                Name::DirectiveLabelMarker,
            ).consume().exit(Name::DirectiveLabelMarker).exit(Name::DirectiveLabel);
            assert(machine_step(x, s) == (x1, State::Okay));
            lemma_run_done(x1, State::Okay);
            assert(x1.events =~= x.events + label_close_events(j));
            assert(x1 == label_done(x, j + 1, label_close_events(j)));
        } else {
            let x1 = x.set_size_c((d - 1) as usize).consume();
            assert(machine_step(x, s) == (x1, State::Next(StateName::DirectiveLabelInside)));
            lemma_run_next(x1, StateName::DirectiveLabelInside);
            lemma_label_inside(x1);
            lemma_label_close_bounds(x.bytes, j + 1, (d - 1) as nat);
            if let Some(c) = label_close(x.bytes, j + 1, (d - 1) as nat) {
                assert(label_done(x1, c + 1, label_close_events(c)) == label_done(
                    x,
                    c + 1,
                    label_close_events(c),
                ));
            }
        }
    } else {
        let x1 = x.consume();
        assert(machine_step(x, s) == (x1, State::Next(StateName::DirectiveLabelInside)));
        lemma_run_next(x1, StateName::DirectiveLabelInside);
        lemma_label_inside(x1);
        lemma_label_close_bounds(x.bytes, j + 1, d as nat);
        if let Some(c) = label_close(x.bytes, j + 1, d as nat) {
            assert(label_done(x1, c + 1, label_close_events(c)) == label_done(
                x,
                c + 1,
                label_close_events(c),
            ));
        }
    }
}

/// Law: the label sub-parser recognizes exactly [`directive_label`]. Started
/// at the label with no attempt pending, it matches when a label starts there,
/// and then ends after its `]`, having emitted [`label_events`] and cleared
/// the bracket depth; otherwise it fails.
pub proof fn law_directive_label(v: TokenizerView)
    requires
        can_start(v, StateName::DirectiveLabelStart),
    ensures
        ({
            let r = run(v, State::Retry(StateName::DirectiveLabelStart));
            match directive_label(v.bytes, v.index) {
                Some(end) => r == (
                    label_done(v, end, label_events(v.index, end)),
                    State::Okay,
                ),
                None => r.1 == State::Nok,
            }
        }),
{
    let s = State::Retry(StateName::DirectiveLabelStart);
    let i = v.index;
    lemma_run_step(v, s);
    if byte_at(v.bytes, i) == Some(0x5Bu8) && byte_at(v.bytes, i + 1) == Some(0x5Du8) {
        let v1 = v.set_size_c(0).enter(Name::DirectiveLabel).enter(
            Name::DirectiveLabelMarker,
        ).consume().exit(Name::DirectiveLabelMarker).enter(
            Name::DirectiveLabelMarker,
        ).consume().exit(Name::DirectiveLabelMarker).exit(Name::DirectiveLabel);
        assert(machine_step(v, s) == (v1, State::Okay));
        lemma_run_done(v1, State::Okay);
        assert(label_close(v.bytes, i + 1, 0) == Some(i + 1));
        assert(v1.events =~= v.events + label_events(i, i + 2));
        assert(v1 == label_done(v, i + 2, label_events(i, i + 2)));
    } else if byte_at(v.bytes, i) == Some(0x5Bu8) {
        let v1 = v.set_size_c(0).enter(Name::DirectiveLabel).enter(
            Name::DirectiveLabelMarker,
        ).consume().exit(Name::DirectiveLabelMarker).enter_link(
            Name::DirectiveLabelString,
            Content::Text,
        );
        assert(machine_step(v, s) == (v1, State::Next(StateName::DirectiveLabelInside)));
        lemma_run_next(v1, StateName::DirectiveLabelInside);
        lemma_label_inside(v1);
        lemma_label_close_bounds(v.bytes, i + 1, 0);
        if let Some(c) = label_close(v.bytes, i + 1, 0) {
            let full = label_events(i, c + 1);
            assert(c != i + 1);
            assert(v1.events + label_close_events(c) =~= v.events + full);
            assert(label_done(v1, c + 1, label_close_events(c)) == label_done(v, c + 1, full));
        }
    } else {
        assert(machine_step(v, s) == (v, State::Nok));
        lemma_run_done(v, State::Nok);
    }
}


/// Where the attribute scanner is.
#[derive(Clone, Copy, Debug, PartialEq, Eq, Structural)]
pub enum AttrMode {
    /// Between attributes.
    Between,
    /// In a `#id` or `.class` value.
    Shortcut,
    /// In an attribute name.
    NameInside,
    /// After an attribute name.
    NameAfter,
    /// After `=`.
    ValueBefore,
    /// In a value quoted with the given quote.
    Quoted(u8),
    /// In an unquoted value.
    Unquoted,
}

pub open spec fn attr_rank(mode: AttrMode) -> int {
    match mode {
        AttrMode::Between => 1,
        AttrMode::Shortcut => 2,
        AttrMode::NameInside => 3,
        AttrMode::NameAfter => 2,
        AttrMode::ValueBefore => 3,
        AttrMode::Quoted(_) => 1,
        AttrMode::Unquoted => 2,
    }
}

/// A byte that may not occur in an unquoted or shortcut value.
pub open spec fn value_forbidden(b: u8) -> bool {
    b == 0x22 || b == 0x27 || b == 0x3C || b == 0x3D || b == 0x3E || b == 0x60
}

/// Whether the byte at `j` can start an attribute name.
pub open spec fn attr_name_starts(bytes: Seq<u8>, j: int) -> bool {
    bytes[j] == 0x2D || bytes[j] == 0x5F || kind_after(bytes, j) == Kind::Other
}

/// Whether the byte at `j` continues an attribute name.
pub open spec fn attr_name_continues(bytes: Seq<u8>, j: int) -> bool {
    ||| (j < bytes.len() && 0x80 <= bytes[j] <= 0xBF)
    ||| kind_after(bytes, j) == Kind::Other
    ||| (j < bytes.len() && (bytes[j] == 0x2D || bytes[j] == 0x2E || bytes[j] == 0x3A
        || bytes[j] == 0x5F))
}

/// An id or class value scanned up to `j` is empty: the byte before `j` is
/// its `#` or `.` marker (a value never holds those bytes).
pub open spec fn empty_shortcut(bytes: Seq<u8>, j: int) -> bool {
    byte_at(bytes, j - 1) == Some(0x23u8) || byte_at(bytes, j - 1) == Some(0x2Eu8)
}

/// The end of an attribute list being scanned from `j` in `mode`: the index
/// after its `}`, or `None` when the list is malformed.
///
/// Between attributes, spaces and tabs are skipped and `}` ends the list; `#`
/// and `.` start an id or class value, which is not empty, runs until
/// whitespace, `#`, `.`, or `}`, and may not hold quotes, `<`, `=`, `>`, or
/// backticks; otherwise an
/// attribute name starts with a character that is neither whitespace nor
/// punctuation, or with `-` or `_`, and goes on with such characters or `-`,
/// `.`, `:`, `_`. A name may be followed by `=` and a value: quoted with `"`
/// or `'` (up to the same quote, on one line), or unquoted (up to whitespace
/// or `}`, without quotes, `<`, `=`, `>`, or backticks).
pub open spec fn attrs_end(bytes: Seq<u8>, j: int, mode: AttrMode) -> Option<int>
    decreases bytes.len() - j, attr_rank(mode),
{
    if j < 0 || j > bytes.len() {
        None
    } else {
        match mode {
            AttrMode::Between => if j == bytes.len() || bytes[j] == 0x0A || bytes[j] == 0x0D {
                None
            } else if bytes[j] == 0x09 || bytes[j] == 0x20 {
                attrs_end(bytes, j + 1, AttrMode::Between)
            } else if bytes[j] == 0x7D {
                Some(j + 1)
            } else if bytes[j] == 0x23 || bytes[j] == 0x2E {
                attrs_end(bytes, j + 1, AttrMode::Shortcut)
            } else if attr_name_starts(bytes, j) {
                attrs_end(bytes, j + 1, AttrMode::NameInside)
            } else {
                None
            },
            AttrMode::Shortcut => if j == bytes.len() || bytes[j] == 0x0A || bytes[j] == 0x0D {
                None
            } else if (bytes[j] == 0x23 || bytes[j] == 0x2E || bytes[j] == 0x7D || bytes[j] == 0x09
                || bytes[j] == 0x20) && empty_shortcut(bytes, j) {
                None
            } else if bytes[j] == 0x23 || bytes[j] == 0x2E || bytes[j] == 0x7D || bytes[j] == 0x09
                || bytes[j] == 0x20 {
                attrs_end(bytes, j, AttrMode::Between)
            } else if value_forbidden(bytes[j]) {
                None
            } else {
                attrs_end(bytes, j + 1, AttrMode::Shortcut)
            },
            AttrMode::NameInside => if attr_name_continues(bytes, j) && j < bytes.len() {
                attrs_end(bytes, j + 1, AttrMode::NameInside)
            } else {
                attrs_end(bytes, j, AttrMode::NameAfter)
            },
            AttrMode::NameAfter => if j < bytes.len() && bytes[j] == 0x3D {
                attrs_end(bytes, j + 1, AttrMode::ValueBefore)
            } else {
                attrs_end(bytes, j, AttrMode::Between)
            },
            AttrMode::ValueBefore => if j == bytes.len() {
                None
            } else if (bytes[j] == 0x22 || bytes[j] == 0x27) && byte_at(bytes, j + 1) == Some(
                bytes[j],
            ) {
                attrs_end(bytes, j + 2, AttrMode::Between)
            } else if bytes[j] == 0x22 || bytes[j] == 0x27 {
                attrs_end(bytes, j + 1, AttrMode::Quoted(bytes[j]))
            } else if bytes[j] == 0x0A || bytes[j] == 0x0D || bytes[j] == 0x09 || bytes[j] == 0x20 || bytes[j] == 0x7D
                || bytes[j] == 0x3C || bytes[j] == 0x3D || bytes[j] == 0x3E || bytes[j] == 0x60 {
                None
            } else {
                attrs_end(bytes, j, AttrMode::Unquoted)
            },
            AttrMode::Quoted(q) => if j == bytes.len() || bytes[j] == 0x0A || bytes[j] == 0x0D {
                None
            } else if bytes[j] == q {
                attrs_end(bytes, j + 1, AttrMode::Between)
            } else {
                attrs_end(bytes, j + 1, AttrMode::Quoted(q))
            },
            AttrMode::Unquoted => if j == bytes.len() || bytes[j] == 0x0A || bytes[j] == 0x0D || bytes[j] == 0x09
                || bytes[j] == 0x20 || bytes[j] == 0x7D {
                attrs_end(bytes, j, AttrMode::Between)
            } else if value_forbidden(bytes[j]) {
                None
            } else {
                attrs_end(bytes, j + 1, AttrMode::Unquoted)
            },
        }
    }
}

/// The end of the attribute list that starts at `i`, if one does.
pub open spec fn directive_attributes(bytes: Seq<u8>, i: int) -> Option<int> {
    if byte_at(bytes, i) == Some(0x7Bu8) {
        attrs_end(bytes, i + 1, AttrMode::Between)
    } else {
        None
    }
}

/// The state that scans in `mode`.
pub open spec fn attr_state(mode: AttrMode) -> StateName {
    match mode {
        AttrMode::Between => StateName::DirectiveAttributesBetween,
        AttrMode::Shortcut => StateName::DirectiveAttributeShortcutValue,
        AttrMode::NameInside => StateName::DirectiveAttributeNameInside,
        AttrMode::NameAfter => StateName::DirectiveAttributeNameAfter,
        AttrMode::ValueBefore => StateName::DirectiveAttributeValueBefore,
        AttrMode::Quoted(_) => StateName::DirectiveAttributeValueQuoted,
        AttrMode::Unquoted => StateName::DirectiveAttributeValueUnquoted,
    }
}

/// What the run of an attribute scan ends in: a match at `end`, past the
/// list, keeping the events before it, or a failure.
pub open spec fn attrs_outcome(
    x: TokenizerView,
    r: (TokenizerView, State),
    end: Option<int>,
) -> bool {
    match end {
        Some(e) => {
            &&& r.1 == State::Okay
            &&& r.0.index == e
            &&& r.0.bytes == x.bytes
            &&& r.0.constructs == x.constructs
            &&& r.0.label_starts == x.label_starts
            &&& r.0.attempts.len() == 0
            &&& r.0.tokenize_state.size == x.tokenize_state.size
            &&& r.0.tokenize_state.size_c == x.tokenize_state.size_c
            &&& r.0.events.len() >= x.events.len()
            &&& r.0.events.subrange(0, x.events.len() as int) == x.events
            &&& r.0.wf()
        },
        None => r.1 == State::Nok,
    }
}

/// After one step to `(x2, s2)`: the outcome carries over from the next
/// scan position, or the step itself ended the scan.
proof fn lemma_attrs_next(x: TokenizerView, x2: TokenizerView, mode2: AttrMode)
    requires
        machine_inv(x2, State::Retry(attr_state(mode2))),
        x2.attempts.len() == 0,
        mode2 matches AttrMode::Quoted(q) ==> x2.tokenize_state.marker == q,
        x2.bytes == x.bytes,
        x2.constructs == x.constructs,
        x2.label_starts == x.label_starts,
        x2.tokenize_state.size == x.tokenize_state.size,
        x2.tokenize_state.size_c == x.tokenize_state.size_c,
        x2.events.len() >= x.events.len(),
        x2.events.subrange(0, x.events.len() as int) == x.events,
        x.index <= x2.index,
        x.index <= x.bytes.len(),
        x2.index <= x.bytes.len(),
    ensures
        attrs_outcome(
            x2,
            run(x2, State::Retry(attr_state(mode2))),
            attrs_end(x.bytes, x2.index, mode2),
        ) ==> attrs_outcome(
            x,
            run(x2, State::Retry(attr_state(mode2))),
            attrs_end(x.bytes, x2.index, mode2),
        ),
{
    let r = run(x2, State::Retry(attr_state(mode2)));
    if attrs_outcome(x2, r, attrs_end(x.bytes, x2.index, mode2)) {
        if attrs_end(x.bytes, x2.index, mode2) is Some {
            assert(r.0.events.subrange(0, x.events.len() as int) =~= x2.events.subrange(
                0,
                x.events.len() as int,
            ));
        }
    }
}

proof fn lemma_attrs(x: TokenizerView, mode: AttrMode)
    requires
        machine_inv(x, State::Retry(attr_state(mode))),
        x.attempts.len() == 0,
        mode matches AttrMode::Quoted(q) ==> x.tokenize_state.marker == q,
        mode == AttrMode::Shortcut ==> x.previous == byte_at(x.bytes, x.index - 1),
    ensures
        attrs_outcome(
            x,
            run(x, State::Retry(attr_state(mode))),
            attrs_end(x.bytes, x.index, mode),
        ),
    decreases x.bytes.len() - x.index, attr_rank(mode),
{
    let s = State::Retry(attr_state(mode));
    lemma_run_step(x, s);
    let (x2, s2) = machine_step(x, s);
    let j = x.index;
    let next_mode = |n: StateName|
        match n {
            StateName::DirectiveAttributeShortcutValue => AttrMode::Shortcut,
            StateName::DirectiveAttributeNameInside => AttrMode::NameInside,
            StateName::DirectiveAttributeNameAfter => AttrMode::NameAfter,
            StateName::DirectiveAttributeValueBefore => AttrMode::ValueBefore,
            StateName::DirectiveAttributeValueQuoted => AttrMode::Quoted(x2.tokenize_state.marker),
            StateName::DirectiveAttributeValueUnquoted => AttrMode::Unquoted,
            _ => AttrMode::Between,
        };
    match mode {
        AttrMode::Between => {
            if j == x.bytes.len() || x.bytes[j] == 0x0A || x.bytes[j] == 0x0D {
                assert(s2 == State::Nok);
            } else if x.bytes[j] == 0x09 || x.bytes[j] == 0x20 {
                assert(s2 == State::Next(StateName::DirectiveAttributesBetween));
                assert(x2.events.subrange(0, x.events.len() as int) =~= x.events);
            } else if x.bytes[j] == 0x7D {
                assert(s2 == State::Okay);
                lemma_run_done(x2, s2);
                assert(x2.events.subrange(0, x.events.len() as int) =~= x.events);
            } else if x.bytes[j] == 0x23 || x.bytes[j] == 0x2E {
                assert(s2 == State::Next(StateName::DirectiveAttributeShortcutValue));
                assert(x2.events.subrange(0, x.events.len() as int) =~= x.events);
            } else if attr_name_starts(x.bytes, j) {
                assert(s2 == State::Next(StateName::DirectiveAttributeNameInside));
                assert(x2.events.subrange(0, x.events.len() as int) =~= x.events);
            } else {
                assert(s2 == State::Nok);
            }
        },
        AttrMode::Shortcut => {
            if j == x.bytes.len() || x.bytes[j] == 0x0A || x.bytes[j] == 0x0D {
                assert(s2 == State::Nok);
            } else if (x.bytes[j] == 0x23 || x.bytes[j] == 0x2E || x.bytes[j] == 0x7D || x.bytes[j]
                == 0x09 || x.bytes[j] == 0x20) && empty_shortcut(x.bytes, j) {
                assert(s2 == State::Nok);
            } else if x.bytes[j] == 0x23 || x.bytes[j] == 0x2E || x.bytes[j] == 0x7D || x.bytes[j]
                == 0x09 || x.bytes[j] == 0x20 {
                assert(s2 == State::Retry(StateName::DirectiveAttributesBetween));
                assert(x2.events.subrange(0, x.events.len() as int) =~= x.events);
            } else if value_forbidden(x.bytes[j]) {
                assert(s2 == State::Nok);
            } else {
                assert(s2 == State::Next(StateName::DirectiveAttributeShortcutValue));
                assert(x2.events.subrange(0, x.events.len() as int) =~= x.events);
            }
        },
        AttrMode::NameInside => {
            if attr_name_continues(x.bytes, j) && j < x.bytes.len() {
                assert(s2 == State::Next(StateName::DirectiveAttributeNameInside));
                assert(x2.events.subrange(0, x.events.len() as int) =~= x.events);
            } else {
                assert(s2 == State::Retry(StateName::DirectiveAttributeNameAfter));
                assert(x2.events.subrange(0, x.events.len() as int) =~= x.events);
            }
        },
        AttrMode::NameAfter => {
            if j < x.bytes.len() && x.bytes[j] == 0x3D {
                assert(s2 == State::Next(StateName::DirectiveAttributeValueBefore));
                assert(x2.events.subrange(0, x.events.len() as int) =~= x.events);
            } else {
                assert(s2 == State::Retry(StateName::DirectiveAttributesBetween));
                assert(x2.events.subrange(0, x.events.len() as int) =~= x.events);
            }
        },
        AttrMode::ValueBefore => {
            if j == x.bytes.len() {
                assert(s2 == State::Nok);
            } else if (x.bytes[j] == 0x22 || x.bytes[j] == 0x27) && byte_at(x.bytes, j + 1) == Some(
                x.bytes[j],
            ) {
                assert(s2 == State::Next(StateName::DirectiveAttributesBetween));
                assert(x2.events.subrange(0, x.events.len() as int) =~= x.events);
            } else if x.bytes[j] == 0x22 || x.bytes[j] == 0x27 {
                assert(s2 == State::Next(StateName::DirectiveAttributeValueQuoted));
                assert(x2.tokenize_state.marker == x.bytes[j]);
                assert(x2.events.subrange(0, x.events.len() as int) =~= x.events);
            } else if x.bytes[j] == 0x0A || x.bytes[j] == 0x0D || x.bytes[j] == 0x09 || x.bytes[j] == 0x20 || x.bytes[j]
                == 0x7D || x.bytes[j] == 0x3C || x.bytes[j] == 0x3D || x.bytes[j] == 0x3E
                || x.bytes[j] == 0x60 {
                assert(s2 == State::Nok);
            } else {
                assert(s2 == State::Retry(StateName::DirectiveAttributeValueUnquoted));
                assert(x2.events.subrange(0, x.events.len() as int) =~= x.events);
            }
        },
        AttrMode::Quoted(q) => {
            if j == x.bytes.len() || x.bytes[j] == 0x0A || x.bytes[j] == 0x0D {
                assert(s2 == State::Nok);
            } else if x.bytes[j] == q {
                assert(s2 == State::Next(StateName::DirectiveAttributesBetween));
                assert(x2.events.subrange(0, x.events.len() as int) =~= x.events);
            } else {
                assert(s2 == State::Next(StateName::DirectiveAttributeValueQuoted));
                assert(x2.events.subrange(0, x.events.len() as int) =~= x.events);
            }
        },
        AttrMode::Unquoted => {
            if j == x.bytes.len() || x.bytes[j] == 0x0A || x.bytes[j] == 0x0D || x.bytes[j] == 0x09 || x.bytes[j] == 0x20
                || x.bytes[j] == 0x7D {
                assert(s2 == State::Retry(StateName::DirectiveAttributesBetween));
                assert(x2.events.subrange(0, x.events.len() as int) =~= x.events);
            } else if value_forbidden(x.bytes[j]) {
                assert(s2 == State::Nok);
            } else {
                assert(s2 == State::Next(StateName::DirectiveAttributeValueUnquoted));
                assert(x2.events.subrange(0, x.events.len() as int) =~= x.events);
            }
        },
    }
    match s2 {
        State::Next(n) => {
            lemma_run_next(x2, n);
            let mode2 = next_mode(n);
            assert(attr_state(mode2) == n);
            lemma_attrs(x2, mode2);
            lemma_attrs_next(x, x2, mode2);
        },
        State::Retry(n) => {
            let mode2 = next_mode(n);
            assert(attr_state(mode2) == n);
            lemma_attrs(x2, mode2);
            lemma_attrs_next(x, x2, mode2);
        },
        _ => {
            lemma_run_done(x2, s2);
        },
    }
}


/// `events` in front of the events of a scan that goes on.
pub open spec fn prepend(events: Seq<Event>, rest: Option<(Seq<Event>, int)>) -> Option<(
    Seq<Event>,
    int,
)> {
    match rest {
        Some((more, end)) => Some((events + more, end)),
        None => None,
    }
}

/// The events of an attribute list being scanned from `j` in `mode`, up to
/// and including its closing `}`, and the index after it; `None` when the
/// list is malformed (as in [`attrs_end`]). `token` is the unit that an id or
/// class value being scanned closes.
pub open spec fn attrs_scan(bytes: Seq<u8>, j: int, mode: AttrMode, token: Name) -> Option<
    (Seq<Event>, int),
>
    decreases bytes.len() - j, attr_rank(mode),
{
    if j < 0 || j > bytes.len() {
        None
    } else {
        match mode {
            AttrMode::Between => if j == bytes.len() || bytes[j] == 0x0A || bytes[j] == 0x0D {
                None
            } else if bytes[j] == 0x09 || bytes[j] == 0x20 {
                attrs_scan(bytes, j + 1, AttrMode::Between, token)
            } else if bytes[j] == 0x7D {
                Some(
                    (
                        unit(Name::DirectiveAttributesMarker, j, j + 1) + seq![
                            event(EventKind::Exit, Name::DirectiveAttributes, j + 1),
                        ],
                        j + 1,
                    ),
                )
            } else if bytes[j] == 0x23 {
                prepend(
                    seq![event(EventKind::Enter, Name::DirectiveAttribute, j)] + unit(
                        Name::DirectiveAttributeIdMarker,
                        j,
                        j + 1,
                    ) + seq![event(EventKind::Enter, Name::DirectiveAttributeId, j + 1)],
                    attrs_scan(bytes, j + 1, AttrMode::Shortcut, Name::DirectiveAttributeId),
                )
            } else if bytes[j] == 0x2E {
                prepend(
                    seq![event(EventKind::Enter, Name::DirectiveAttribute, j)] + unit(
                        Name::DirectiveAttributeClassMarker,
                        j,
                        j + 1,
                    ) + seq![event(EventKind::Enter, Name::DirectiveAttributeClass, j + 1)],
                    attrs_scan(bytes, j + 1, AttrMode::Shortcut, Name::DirectiveAttributeClass),
                )
            } else if attr_name_starts(bytes, j) {
                prepend(
                    seq![
                        event(EventKind::Enter, Name::DirectiveAttribute, j),
                        event(EventKind::Enter, Name::DirectiveAttributeName, j),
                    ],
                    attrs_scan(bytes, j + 1, AttrMode::NameInside, token),
                )
            } else {
                None
            },
            AttrMode::Shortcut => if j == bytes.len() || bytes[j] == 0x0A || bytes[j] == 0x0D {
                None
            } else if (bytes[j] == 0x23 || bytes[j] == 0x2E || bytes[j] == 0x7D || bytes[j] == 0x09
                || bytes[j] == 0x20) && empty_shortcut(bytes, j) {
                None
            } else if bytes[j] == 0x23 || bytes[j] == 0x2E || bytes[j] == 0x7D || bytes[j] == 0x09
                || bytes[j] == 0x20 {
                prepend(
                    seq![
                        event(EventKind::Exit, token, j),
                        event(EventKind::Exit, Name::DirectiveAttribute, j),
                    ],
                    attrs_scan(bytes, j, AttrMode::Between, Name::Data),
                )
            } else if value_forbidden(bytes[j]) {
                None
            } else {
                attrs_scan(bytes, j + 1, AttrMode::Shortcut, token)
            },
            AttrMode::NameInside => if attr_name_continues(bytes, j) && j < bytes.len() {
                attrs_scan(bytes, j + 1, AttrMode::NameInside, token)
            } else {
                prepend(
                    seq![event(EventKind::Exit, Name::DirectiveAttributeName, j)],
                    attrs_scan(bytes, j, AttrMode::NameAfter, token),
                )
            },
            AttrMode::NameAfter => if j < bytes.len() && bytes[j] == 0x3D {
                prepend(
                    unit(Name::DirectiveAttributeInitializerMarker, j, j + 1),
                    attrs_scan(bytes, j + 1, AttrMode::ValueBefore, token),
                )
            } else {
                prepend(
                    seq![event(EventKind::Exit, Name::DirectiveAttribute, j)],
                    attrs_scan(bytes, j, AttrMode::Between, token),
                )
            },
            AttrMode::ValueBefore => if j == bytes.len() {
                None
            } else if (bytes[j] == 0x22 || bytes[j] == 0x27) && byte_at(bytes, j + 1) == Some(
                bytes[j],
            ) {
                prepend(
                    unit(Name::DirectiveAttributeValueMarker, j, j + 1) + unit(
                        Name::DirectiveAttributeValueMarker,
                        j + 1,
                        j + 2,
                    ) + seq![event(EventKind::Exit, Name::DirectiveAttribute, j + 2)],
                    attrs_scan(bytes, j + 2, AttrMode::Between, token),
                )
            } else if bytes[j] == 0x22 || bytes[j] == 0x27 {
                prepend(
                    unit(Name::DirectiveAttributeValueMarker, j, j + 1) + seq![
                        event(EventKind::Enter, Name::DirectiveAttributeValue, j + 1),
                    ],
                    attrs_scan(bytes, j + 1, AttrMode::Quoted(bytes[j]), token),
                )
            } else if bytes[j] == 0x0A || bytes[j] == 0x0D || bytes[j] == 0x09 || bytes[j] == 0x20 || bytes[j] == 0x7D
                || bytes[j] == 0x3C || bytes[j] == 0x3D || bytes[j] == 0x3E || bytes[j] == 0x60 {
                None
            } else {
                prepend(
                    seq![event(EventKind::Enter, Name::DirectiveAttributeValue, j)],
                    attrs_scan(bytes, j, AttrMode::Unquoted, token),
                )
            },
            AttrMode::Quoted(q) => if j == bytes.len() || bytes[j] == 0x0A || bytes[j] == 0x0D {
                None
            } else if bytes[j] == q {
                prepend(
                    seq![event(EventKind::Exit, Name::DirectiveAttributeValue, j)] + unit(
                        Name::DirectiveAttributeValueMarker,
                        j,
                        j + 1,
                    ) + seq![event(EventKind::Exit, Name::DirectiveAttribute, j + 1)],
                    attrs_scan(bytes, j + 1, AttrMode::Between, token),
                )
            } else {
                attrs_scan(bytes, j + 1, AttrMode::Quoted(q), token)
            },
            AttrMode::Unquoted => if j == bytes.len() || bytes[j] == 0x0A || bytes[j] == 0x0D || bytes[j] == 0x09
                || bytes[j] == 0x20 || bytes[j] == 0x7D {
                prepend(
                    seq![
                        event(EventKind::Exit, Name::DirectiveAttributeValue, j),
                        event(EventKind::Exit, Name::DirectiveAttribute, j),
                    ],
                    attrs_scan(bytes, j, AttrMode::Between, token),
                )
            } else if value_forbidden(bytes[j]) {
                None
            } else {
                attrs_scan(bytes, j + 1, AttrMode::Unquoted, token)
            },
        }
    }
}

/// The scan's events come from the run: after a step that adds `added`, the
/// run from the next position emits the rest.
proof fn lemma_scan_next(
    x: TokenizerView,
    x2: TokenizerView,
    added: Seq<Event>,
    mode2: AttrMode,
    r: (TokenizerView, State),
)
    requires
        x2.events == x.events + added,
        match attrs_scan(x.bytes, x2.index, mode2, x2.tokenize_state.token_4) {
            Some((more, e)) => r.1 == State::Okay && r.0.index == e && r.0.events == x2.events
                + more,
            None => r.1 == State::Nok,
        },
    ensures
        match prepend(added, attrs_scan(x.bytes, x2.index, mode2, x2.tokenize_state.token_4)) {
            Some((evs, e)) => r.1 == State::Okay && r.0.index == e && r.0.events == x.events + evs,
            None => r.1 == State::Nok,
        },
{
    if let Some((more, e)) = attrs_scan(x.bytes, x2.index, mode2, x2.tokenize_state.token_4) {
        assert(x.events + (added + more) =~= x2.events + more);
    }
}

/// An attribute scan emits exactly the events of [`attrs_scan`].
#[verifier::rlimit(40)]
proof fn lemma_attrs_events(x: TokenizerView, mode: AttrMode)
    requires
        machine_inv(x, State::Retry(attr_state(mode))),
        x.attempts.len() == 0,
        mode matches AttrMode::Quoted(q) ==> x.tokenize_state.marker == q,
        mode == AttrMode::Shortcut ==> x.previous == byte_at(x.bytes, x.index - 1),
    ensures
        ({
            let r = run(x, State::Retry(attr_state(mode)));
            match attrs_scan(x.bytes, x.index, mode, x.tokenize_state.token_4) {
                Some((evs, e)) => r.1 == State::Okay && r.0.index == e && r.0.events == x.events
                    + evs,
                None => r.1 == State::Nok,
            }
        }),
    decreases x.bytes.len() - x.index, attr_rank(mode),
{
    let s = State::Retry(attr_state(mode));
    let r = run(x, s);
    lemma_run_step(x, s);
    let (x2, s2) = machine_step(x, s);
    let j = x.index;
    let tok = x.tokenize_state.token_4;
    let next_mode = |n: StateName|
        match n {
            StateName::DirectiveAttributeShortcutValue => AttrMode::Shortcut,
            StateName::DirectiveAttributeNameInside => AttrMode::NameInside,
            StateName::DirectiveAttributeNameAfter => AttrMode::NameAfter,
            StateName::DirectiveAttributeValueBefore => AttrMode::ValueBefore,
            StateName::DirectiveAttributeValueQuoted => AttrMode::Quoted(x2.tokenize_state.marker),
            StateName::DirectiveAttributeValueUnquoted => AttrMode::Unquoted,
            _ => AttrMode::Between,
        };
    // What the step added to the events.
    let added = x2.events.subrange(x.events.len() as int, x2.events.len() as int);
    match s2 {
        State::Next(n) => {
            lemma_run_next(x2, n);
            let mode2 = next_mode(n);
            assert(attr_state(mode2) == n);
            lemma_attrs_events(x2, mode2);
        },
        State::Retry(n) => {
            let mode2 = next_mode(n);
            assert(attr_state(mode2) == n);
            lemma_attrs_events(x2, mode2);
        },
        _ => {
            lemma_run_done(x2, s2);
        },
    }
    match mode {
        AttrMode::Between => {
            if j == x.bytes.len() || x.bytes[j] == 0x0A || x.bytes[j] == 0x0D {
            } else if x.bytes[j] == 0x09 || x.bytes[j] == 0x20 {
                assert(x2.events == x.events + Seq::<Event>::empty());
                lemma_scan_next(x, x2, Seq::empty(), AttrMode::Between, r);
            } else if x.bytes[j] == 0x7D {
                assert(x2.events =~= x.events + (unit(Name::DirectiveAttributesMarker, j, j + 1)
                    + seq![event(EventKind::Exit, Name::DirectiveAttributes, j + 1)]));
            } else if x.bytes[j] == 0x23 || x.bytes[j] == 0x2E {
                assert(x2.events =~= x.events + added);
                lemma_scan_next(x, x2, added, AttrMode::Shortcut, r);
            } else if attr_name_starts(x.bytes, j) {
                assert(x2.events =~= x.events + added);
                lemma_scan_next(x, x2, added, AttrMode::NameInside, r);
            }
        },
        AttrMode::Shortcut => {
            if j == x.bytes.len() || x.bytes[j] == 0x0A || x.bytes[j] == 0x0D {
            } else if (x.bytes[j] == 0x23 || x.bytes[j] == 0x2E || x.bytes[j] == 0x7D || x.bytes[j]
                == 0x09 || x.bytes[j] == 0x20) && empty_shortcut(x.bytes, j) {
            } else if x.bytes[j] == 0x23 || x.bytes[j] == 0x2E || x.bytes[j] == 0x7D || x.bytes[j]
                == 0x09 || x.bytes[j] == 0x20 {
                assert(x2.events =~= x.events + added);
                lemma_scan_next(x, x2, added, AttrMode::Between, r);
            } else if !value_forbidden(x.bytes[j]) {
                assert(x2.events == x.events + Seq::<Event>::empty());
                lemma_scan_next(x, x2, Seq::empty(), AttrMode::Shortcut, r);
            }
        },
        AttrMode::NameInside => {
            if attr_name_continues(x.bytes, j) && j < x.bytes.len() {
                assert(x2.events == x.events + Seq::<Event>::empty());
                lemma_scan_next(x, x2, Seq::empty(), AttrMode::NameInside, r);
            } else {
                assert(x2.events =~= x.events + added);
                lemma_scan_next(x, x2, added, AttrMode::NameAfter, r);
            }
        },
        AttrMode::NameAfter => {
            assert(x2.events =~= x.events + added);
            if j < x.bytes.len() && x.bytes[j] == 0x3D {
                lemma_scan_next(x, x2, added, AttrMode::ValueBefore, r);
            } else {
                lemma_scan_next(x, x2, added, AttrMode::Between, r);
            }
        },
        AttrMode::ValueBefore => {
            if j == x.bytes.len() {
            } else if (x.bytes[j] == 0x22 || x.bytes[j] == 0x27) && byte_at(x.bytes, j + 1) == Some(
                x.bytes[j],
            ) {
                assert(x2.events =~= x.events + added);
                lemma_scan_next(x, x2, added, AttrMode::Between, r);
            } else if x.bytes[j] == 0x22 || x.bytes[j] == 0x27 {
                assert(x2.events =~= x.events + added);
                lemma_scan_next(x, x2, added, AttrMode::Quoted(x.bytes[j]), r);
            } else if x.bytes[j] == 0x0A || x.bytes[j] == 0x0D || x.bytes[j] == 0x09 || x.bytes[j] == 0x20 || x.bytes[j]
                == 0x7D || x.bytes[j] == 0x3C || x.bytes[j] == 0x3D || x.bytes[j] == 0x3E
                || x.bytes[j] == 0x60 {
            } else {
                assert(x2.events =~= x.events + added);
                lemma_scan_next(x, x2, added, AttrMode::Unquoted, r);
            }
        },
        AttrMode::Quoted(q) => {
            if j == x.bytes.len() || x.bytes[j] == 0x0A || x.bytes[j] == 0x0D {
            } else if x.bytes[j] == q {
                assert(x2.events =~= x.events + added);
                lemma_scan_next(x, x2, added, AttrMode::Between, r);
            } else {
                assert(x2.events == x.events + Seq::<Event>::empty());
                lemma_scan_next(x, x2, Seq::empty(), AttrMode::Quoted(q), r);
            }
        },
        AttrMode::Unquoted => {
            if j == x.bytes.len() || x.bytes[j] == 0x0A || x.bytes[j] == 0x0D || x.bytes[j] == 0x09 || x.bytes[j] == 0x20
                || x.bytes[j] == 0x7D {
                assert(x2.events =~= x.events + added);
                lemma_scan_next(x, x2, added, AttrMode::Between, r);
            } else if !value_forbidden(x.bytes[j]) {
                assert(x2.events == x.events + Seq::<Event>::empty());
                lemma_scan_next(x, x2, Seq::empty(), AttrMode::Unquoted, r);
            }
        },
    }
}

/// Outside an id or class value, the scan does not depend on `token`.
proof fn lemma_scan_token(bytes: Seq<u8>, j: int, mode: AttrMode, t1: Name, t2: Name)
    requires
        mode != AttrMode::Shortcut,
    ensures
        attrs_scan(bytes, j, mode, t1) == attrs_scan(bytes, j, mode, t2),
    decreases bytes.len() - j, attr_rank(mode),
{
    if 0 <= j <= bytes.len() {
        match mode {
            AttrMode::Between => {
                if j < bytes.len() && (bytes[j] == 0x09 || bytes[j] == 0x20) {
                    lemma_scan_token(bytes, j + 1, AttrMode::Between, t1, t2);
                } else if j < bytes.len() && attr_name_starts(bytes, j) {
                    lemma_scan_token(bytes, j + 1, AttrMode::NameInside, t1, t2);
                }
            },
            AttrMode::NameInside => {
                if attr_name_continues(bytes, j) && j < bytes.len() {
                    lemma_scan_token(bytes, j + 1, AttrMode::NameInside, t1, t2);
                } else {
                    lemma_scan_token(bytes, j, AttrMode::NameAfter, t1, t2);
                }
            },
            AttrMode::NameAfter => {
                if j < bytes.len() && bytes[j] == 0x3D {
                    lemma_scan_token(bytes, j + 1, AttrMode::ValueBefore, t1, t2);
                } else {
                    lemma_scan_token(bytes, j, AttrMode::Between, t1, t2);
                }
            },
            AttrMode::ValueBefore => {
                if j < bytes.len() && (bytes[j] == 0x22 || bytes[j] == 0x27) && byte_at(
                    bytes,
                    j + 1,
                ) == Some(bytes[j]) {
                    lemma_scan_token(bytes, j + 2, AttrMode::Between, t1, t2);
                } else if j < bytes.len() && (bytes[j] == 0x22 || bytes[j] == 0x27) {
                    lemma_scan_token(bytes, j + 1, AttrMode::Quoted(bytes[j]), t1, t2);
                } else if j < bytes.len() {
                    lemma_scan_token(bytes, j, AttrMode::Unquoted, t1, t2);
                }
            },
            AttrMode::Quoted(q) => {
                if j < bytes.len() && bytes[j] == q {
                    lemma_scan_token(bytes, j + 1, AttrMode::Between, t1, t2);
                } else if j < bytes.len() {
                    lemma_scan_token(bytes, j + 1, AttrMode::Quoted(q), t1, t2);
                }
            },
            AttrMode::Unquoted => {
                if j < bytes.len() && !(bytes[j] == 0x0A || bytes[j] == 0x0D || bytes[j] == 0x09 || bytes[j] == 0x20
                    || bytes[j] == 0x7D) {
                    lemma_scan_token(bytes, j + 1, AttrMode::Unquoted, t1, t2);
                } else {
                    lemma_scan_token(bytes, j, AttrMode::Between, t1, t2);
                }
            },
            AttrMode::Shortcut => {},
        }
    }
}

/// The events of the attribute list that starts at `i` (when there is one).
pub open spec fn attributes_events(bytes: Seq<u8>, i: int) -> Seq<Event> {
    seq![event(EventKind::Enter, Name::DirectiveAttributes, i)] + unit(
        Name::DirectiveAttributesMarker,
        i,
        i + 1,
    ) + match attrs_scan(bytes, i + 1, AttrMode::Between, Name::Data) {
        Some((evs, _)) => evs,
        None => Seq::empty(),
    }
}

/// Law: the attribute sub-parser recognizes exactly [`directive_attributes`].
/// Started at the list with no attempt pending, it matches when an attribute
/// list starts there, and then ends after its `}`, having emitted
/// [`attributes_events`] after the events before it; otherwise it fails.
pub proof fn law_directive_attributes(v: TokenizerView)
    requires
        can_start(v, StateName::DirectiveAttributesStart),
    ensures
        attrs_outcome(
            v,
            run(v, State::Retry(StateName::DirectiveAttributesStart)),
            directive_attributes(v.bytes, v.index),
        ),
        directive_attributes(v.bytes, v.index) is Some ==> run(
            v,
            State::Retry(StateName::DirectiveAttributesStart),
        ).0.events == v.events + attributes_events(v.bytes, v.index),
{
    let s = State::Retry(StateName::DirectiveAttributesStart);
    lemma_run_step(v, s);
    if byte_at(v.bytes, v.index) == Some(0x7Bu8) {
        let v1 = v.enter(Name::DirectiveAttributes).enter(
            Name::DirectiveAttributesMarker,
        ).consume().exit(Name::DirectiveAttributesMarker);
        assert(machine_step(v, s) == (v1, State::Next(StateName::DirectiveAttributesBetween)));
        lemma_run_next(v1, StateName::DirectiveAttributesBetween);
        lemma_attrs(v1, AttrMode::Between);
        assert(v1.events.subrange(0, v.events.len() as int) =~= v.events);
        lemma_attrs_next(v, v1, AttrMode::Between);
        lemma_attrs_events(v1, AttrMode::Between);
        lemma_scan_token(
            v.bytes,
            v.index + 1,
            AttrMode::Between,
            v1.tokenize_state.token_4,
            Name::Data,
        );
        if let Some((evs, e)) = attrs_scan(v.bytes, v.index + 1, AttrMode::Between, Name::Data) {
            assert(v1.events + evs =~= v.events + attributes_events(v.bytes, v.index));
        }
    } else {
        assert(machine_step(v, s) == (v, State::Nok));
        lemma_run_done(v, State::Nok);
    }
}

} // verus!
