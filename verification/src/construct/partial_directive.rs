//! Shared sub-parsers for directives: name, label, and attributes.
//!
//! ```bnf
//! name  ::= name_start *name_cont
//! label ::= '[' *(text - ']' | '\\' any | '[' label ']') ']'
//! attributes ::= '{' *(whitespace (id | class | attribute)) whitespace '}'
//! id        ::= '#' 1*value_char
//! class     ::= '.' 1*value_char
//! attribute ::= attr_name ['=' (quoted | unquoted)]
//! ```
//!
//! A name may not start with Unicode punctuation or whitespace; `-` and `_`
//! may occur inside but not at the end. Attribute values are raw slices. A
//! line feed or a carriage return is a line ending: no label or value runs
//! across one. An empty label (`[]`) has no label string, and an empty quoted
//! value (`""`) no value unit, so no unit is ever empty.

use vstd::prelude::*;
use crate::character::{kind_after, kind_after_index, Kind};
use crate::event::{Content, Name};
use crate::state::{State, StateName};
use crate::tokenizer::{Tokenizer, TokenizerView};

verus! {

/// Whether a byte continues a multi-byte UTF-8 character.
pub open spec fn is_continuation(current: Option<u8>) -> bool {
    match current {
        Some(b) => 0x80 <= b <= 0xBF,
        None => false,
    }
}

/// Whether the current byte is one of the two given bytes.
pub open spec fn current_is2(v: TokenizerView, a: u8, b: u8) -> bool {
    v.current == Some(a) || v.current == Some(b)
}

/// Kind of the character at the current position.
pub open spec fn kind_here(v: TokenizerView) -> Kind {
    kind_after(v.bytes, v.index)
}

pub open spec fn name_start_step(v: TokenizerView) -> (TokenizerView, State) {
    if v.current.is_some() && kind_here(v) == Kind::Other {
        (v.enter(Name::DirectiveName).consume(), State::Next(StateName::DirectiveNameInside))
    } else {
        (v, State::Nok)
    }
}

pub open spec fn name_inside_step(v: TokenizerView) -> (TokenizerView, State) {
    if is_continuation(v.current) {
        (v.consume(), State::Next(StateName::DirectiveNameInside))
    } else if kind_here(v) == Kind::Other || current_is2(v, 0x2D, 0x5F) {
        (v.consume(), State::Next(StateName::DirectiveNameInside))
    } else if v.previous == Some(0x2Du8) || v.previous == Some(0x5Fu8) {
        (v, State::Nok)
    } else {
        (v.exit(Name::DirectiveName), State::Okay)
    }
}

pub open spec fn label_start_step(v: TokenizerView) -> (TokenizerView, State) {
    if v.current == Some(0x5Bu8) && v.peek(1) == Some(0x5Du8) {
        (
            v.set_size_c(0).enter(Name::DirectiveLabel).enter(
                Name::DirectiveLabelMarker,
            ).consume().exit(Name::DirectiveLabelMarker).enter(
                Name::DirectiveLabelMarker,
            ).consume().exit(Name::DirectiveLabelMarker).exit(Name::DirectiveLabel),
            State::Okay,
        )
    } else if v.current == Some(0x5Bu8) {
        (
            v.set_size_c(0).enter(Name::DirectiveLabel).enter(
                Name::DirectiveLabelMarker,
            ).consume().exit(Name::DirectiveLabelMarker).enter_link(
                Name::DirectiveLabelString,
                Content::Text,
            ),
            State::Next(StateName::DirectiveLabelInside),
        )
    } else {
        (v, State::Nok)
    }
}

pub open spec fn label_inside_step(v: TokenizerView) -> (TokenizerView, State) {
    match v.current {
        None => (v.set_size_c(0), State::Nok),
        Some(b) => if b == 0x0A || b == 0x0D {
            (v.set_size_c(0), State::Nok)
        } else if b == 0x5C {
            (v.consume(), State::Next(StateName::DirectiveLabelEscape))
        } else if b == 0x5B {
            (
                v.set_size_c((v.tokenize_state.size_c + 1) as usize).consume(),
                State::Next(StateName::DirectiveLabelInside),
            )
        } else if b == 0x5D {
            if v.tokenize_state.size_c == 0 {
                (
                    v.exit(Name::DirectiveLabelString).enter(
                        Name::DirectiveLabelMarker,
                    ).consume().exit(Name::DirectiveLabelMarker).exit(Name::DirectiveLabel),
                    State::Okay,
                )
            } else {
                (
                    v.set_size_c((v.tokenize_state.size_c - 1) as usize).consume(),
                    State::Next(StateName::DirectiveLabelInside),
                )
            }
        } else {
            (v.consume(), State::Next(StateName::DirectiveLabelInside))
        },
    }
}

pub open spec fn label_escape_step(v: TokenizerView) -> (TokenizerView, State) {
    match v.current {
        None => (v.set_size_c(0), State::Nok),
        Some(b) => if b == 0x0A || b == 0x0D {
            (v.set_size_c(0), State::Nok)
        } else {
            (v.consume(), State::Next(StateName::DirectiveLabelInside))
        },
    }
}

pub open spec fn attributes_start_step(v: TokenizerView) -> (TokenizerView, State) {
    if v.current == Some(0x7Bu8) {
        (
            v.enter(Name::DirectiveAttributes).enter(
                Name::DirectiveAttributesMarker,
            ).consume().exit(Name::DirectiveAttributesMarker),
            State::Next(StateName::DirectiveAttributesBetween),
        )
    } else {
        (v, State::Nok)
    }
}

/// Whether the current byte can start an attribute name.
pub open spec fn attribute_name_start_here(v: TokenizerView) -> bool {
    current_is2(v, 0x2D, 0x5F) || kind_here(v) == Kind::Other
}

pub open spec fn attributes_between_step(v: TokenizerView) -> (TokenizerView, State) {
    match v.current {
        None => (v, State::Nok),
        Some(b) => if b == 0x09 || b == 0x20 {
            (v.consume(), State::Next(StateName::DirectiveAttributesBetween))
        } else if b == 0x7D {
            (
                v.enter(Name::DirectiveAttributesMarker).consume().exit(
                    Name::DirectiveAttributesMarker,
                ).exit(Name::DirectiveAttributes),
                State::Okay,
            )
        } else if b == 0x23 {
            (
                v.enter(Name::DirectiveAttribute).enter(
                    Name::DirectiveAttributeIdMarker,
                ).consume().exit(Name::DirectiveAttributeIdMarker).set_token_4(
                    Name::DirectiveAttributeId,
                ).enter(Name::DirectiveAttributeId),
                State::Next(StateName::DirectiveAttributeShortcutValue),
            )
        } else if b == 0x2E {
            (
                v.enter(Name::DirectiveAttribute).enter(
                    Name::DirectiveAttributeClassMarker,
                ).consume().exit(Name::DirectiveAttributeClassMarker).set_token_4(
                    Name::DirectiveAttributeClass,
                ).enter(Name::DirectiveAttributeClass),
                State::Next(StateName::DirectiveAttributeShortcutValue),
            )
        } else if b == 0x0A || b == 0x0D {
            (v, State::Nok)
        } else if attribute_name_start_here(v) {
            (
                v.enter(Name::DirectiveAttribute).enter(Name::DirectiveAttributeName).consume(),
                State::Next(StateName::DirectiveAttributeNameInside),
            )
        } else {
            (v, State::Nok)
        },
    }
}

/// Bytes that may not occur in an unquoted value: `"`, `'`, `<`, `=`, `>`, `` ` ``.
pub open spec fn is_value_forbidden(b: u8) -> bool {
    b == 0x22 || b == 0x27 || b == 0x3C || b == 0x3D || b == 0x3E || b == 0x60
}

pub open spec fn attribute_shortcut_value_step(v: TokenizerView) -> (TokenizerView, State) {
    match v.current {
        None => (v, State::Nok),
        Some(b) => if b == 0x0A || b == 0x0D {
            (v, State::Nok)
        } else if (b == 0x23 || b == 0x2E || b == 0x7D || b == 0x09 || b == 0x20) && (v.previous
            == Some(0x23u8) || v.previous == Some(0x2Eu8)) {
            (v, State::Nok)
        } else if b == 0x23 || b == 0x2E || b == 0x7D || b == 0x09 || b == 0x20 {
            (
                v.exit(v.tokenize_state.token_4).set_token_4(Name::Data).exit(
                    Name::DirectiveAttribute,
                ),
                State::Retry(StateName::DirectiveAttributesBetween),
            )
        } else if is_value_forbidden(b) {
            (v, State::Nok)
        } else {
            (v.consume(), State::Next(StateName::DirectiveAttributeShortcutValue))
        },
    }
}

pub open spec fn attribute_name_inside_step(v: TokenizerView) -> (TokenizerView, State) {
    if is_continuation(v.current) {
        (v.consume(), State::Next(StateName::DirectiveAttributeNameInside))
    } else if kind_here(v) == Kind::Other || current_is2(v, 0x2D, 0x2E) || current_is2(
        v,
        0x3A,
        0x5F,
    ) {
        (v.consume(), State::Next(StateName::DirectiveAttributeNameInside))
    } else {
        (v.exit(Name::DirectiveAttributeName), State::Retry(StateName::DirectiveAttributeNameAfter))
    }
}

pub open spec fn attribute_name_after_step(v: TokenizerView) -> (TokenizerView, State) {
    if v.current == Some(0x3Du8) {
        (
            v.enter(Name::DirectiveAttributeInitializerMarker).consume().exit(
                Name::DirectiveAttributeInitializerMarker,
            ),
            State::Next(StateName::DirectiveAttributeValueBefore),
        )
    } else {
        (v.exit(Name::DirectiveAttribute), State::Retry(StateName::DirectiveAttributesBetween))
    }
}

pub open spec fn attribute_value_before_step(v: TokenizerView) -> (TokenizerView, State) {
    match v.current {
        None => (v, State::Nok),
        Some(b) => if (b == 0x22 || b == 0x27) && v.peek(1) == Some(b) {
            (
                v.set_marker(0).enter(Name::DirectiveAttributeValueMarker).consume().exit(
                    Name::DirectiveAttributeValueMarker,
                ).enter(Name::DirectiveAttributeValueMarker).consume().exit(
                    Name::DirectiveAttributeValueMarker,
                ).exit(Name::DirectiveAttribute),
                State::Next(StateName::DirectiveAttributesBetween),
            )
        } else if b == 0x22 || b == 0x27 {
            (
                v.set_marker(b).enter(Name::DirectiveAttributeValueMarker).consume().exit(
                    Name::DirectiveAttributeValueMarker,
                ).enter(Name::DirectiveAttributeValue),
                State::Next(StateName::DirectiveAttributeValueQuoted),
            )
        } else if b == 0x0A || b == 0x0D || b == 0x09 || b == 0x20 || b == 0x7D || b == 0x3C || b == 0x3D
            || b == 0x3E || b == 0x60 {
            (v, State::Nok)
        } else {
            (
                v.enter(Name::DirectiveAttributeValue),
                State::Retry(StateName::DirectiveAttributeValueUnquoted),
            )
        },
    }
}

pub open spec fn attribute_value_quoted_step(v: TokenizerView) -> (TokenizerView, State) {
    match v.current {
        None => (v.set_marker(0), State::Nok),
        Some(b) => if b == 0x0A || b == 0x0D {
            (v.set_marker(0), State::Nok)
        } else if b == v.tokenize_state.marker {
            (
                v.exit(Name::DirectiveAttributeValue).set_marker(0).enter(
                    Name::DirectiveAttributeValueMarker,
                ).consume().exit(Name::DirectiveAttributeValueMarker).exit(
                    Name::DirectiveAttribute,
                ),
                State::Next(StateName::DirectiveAttributesBetween),
            )
        } else {
            (v.consume(), State::Next(StateName::DirectiveAttributeValueQuoted))
        },
    }
}

pub open spec fn attribute_value_unquoted_step(v: TokenizerView) -> (TokenizerView, State) {
    match v.current {
        None => (
            v.exit(Name::DirectiveAttributeValue).exit(Name::DirectiveAttribute),
            State::Retry(StateName::DirectiveAttributesBetween),
        ),
        Some(b) => if b == 0x0A || b == 0x0D || b == 0x09 || b == 0x20 || b == 0x7D {
            (
                v.exit(Name::DirectiveAttributeValue).exit(Name::DirectiveAttribute),
                State::Retry(StateName::DirectiveAttributesBetween),
            )
        } else if is_value_forbidden(b) {
            (v, State::Nok)
        } else {
            (v.consume(), State::Next(StateName::DirectiveAttributeValueUnquoted))
        },
    }
}

/// Whether the byte is a continuation byte of a multi-byte character.
fn continuation(current: Option<u8>) -> (r: bool)
    ensures
        r == is_continuation(current),
{
    match current {
        Some(b) => 0x80 <= b && b <= 0xBF,
        None => false,
    }
}

/// Kind of the character at the current position.
fn kind_at_point(tokenizer: &Tokenizer) -> (kind: Kind)
    requires
        tokenizer@.wf(),
    ensures
        kind == kind_here(tokenizer@),
{
    kind_after_index(&tokenizer.bytes, tokenizer.index)
}

/// At the start of a directive name.
///
/// ```markdown
/// > | :name
///      ^
/// ```
pub fn name_start(tokenizer: &mut Tokenizer) -> (state: State)
    requires
        old(tokenizer)@.wf(),
    ensures
        final(tokenizer)@.wf(),
        (final(tokenizer)@, state) == name_start_step(old(tokenizer)@),
{
    if tokenizer.current.is_some() && kind_at_point(tokenizer) == Kind::Other {
        tokenizer.enter(Name::DirectiveName);
        tokenizer.consume();
        State::Next(StateName::DirectiveNameInside)
    } else {
        State::Nok
    }
}

/// In a directive name.
///
/// ```markdown
/// > | :name
///       ^
/// ```
pub fn name_inside(tokenizer: &mut Tokenizer) -> (state: State)
    requires
        old(tokenizer)@.wf(),
    ensures
        final(tokenizer)@.wf(),
        (final(tokenizer)@, state) == name_inside_step(old(tokenizer)@),
{
    // Continuation byte of a multi-byte character.
    if continuation(tokenizer.current) {
        tokenizer.consume();
        return State::Next(StateName::DirectiveNameInside);
    }
    let kind = kind_at_point(tokenizer);

    if kind == Kind::Other || tokenizer.current == Some(0x2Du8) || tokenizer.current == Some(
        0x5Fu8,
    ) {
        tokenizer.consume();
        State::Next(StateName::DirectiveNameInside)
    } else if tokenizer.previous == Some(0x2Du8) || tokenizer.previous == Some(0x5Fu8) {
        // A name may not end with `-` or `_`.
        State::Nok
    } else {
        tokenizer.exit(Name::DirectiveName);
        State::Okay
    }
}

/// At the start of a directive label (`[`).
///
/// ```markdown
/// > | :name[label]
///          ^
/// ```
pub fn label_start(tokenizer: &mut Tokenizer) -> (state: State)
    requires
        old(tokenizer)@.wf(),
    ensures
        final(tokenizer)@.wf(),
        (final(tokenizer)@, state) == label_start_step(old(tokenizer)@),
{
    if tokenizer.current == Some(0x5Bu8) && tokenizer.peek(1) == Some(0x5Du8) {
        // An empty label (`[]`) has no label string.
        tokenizer.set_size_c(0);
        tokenizer.enter(Name::DirectiveLabel);
        tokenizer.enter(Name::DirectiveLabelMarker);
        tokenizer.consume();
        tokenizer.exit(Name::DirectiveLabelMarker);
        tokenizer.enter(Name::DirectiveLabelMarker);
        tokenizer.consume();
        tokenizer.exit(Name::DirectiveLabelMarker);
        tokenizer.exit(Name::DirectiveLabel);
        State::Okay
    } else if tokenizer.current == Some(0x5Bu8) {
        tokenizer.set_size_c(0);
        tokenizer.enter(Name::DirectiveLabel);
        tokenizer.enter(Name::DirectiveLabelMarker);
        tokenizer.consume();
        tokenizer.exit(Name::DirectiveLabelMarker);
        tokenizer.enter_link(Name::DirectiveLabelString, Content::Text);
        State::Next(StateName::DirectiveLabelInside)
    } else {
        State::Nok
    }
}

/// In a directive label.
///
/// ```markdown
/// > | :name[label]
///           ^
/// ```
pub fn label_inside(tokenizer: &mut Tokenizer) -> (state: State)
    requires
        old(tokenizer)@.wf(),
        old(tokenizer)@.current == Some(0x5Bu8) ==> old(tokenizer)@.tokenize_state.size_c
            < usize::MAX,
    ensures
        final(tokenizer)@.wf(),
        (final(tokenizer)@, state) == label_inside_step(old(tokenizer)@),
{
    match tokenizer.current {
        None | Some(0x0Au8) | Some(0x0Du8) => {
            tokenizer.set_size_c(0);
            State::Nok
        },
        Some(0x5Cu8) => {
            tokenizer.consume();
            State::Next(StateName::DirectiveLabelEscape)
        },
        Some(0x5Bu8) => {
            let size_c = tokenizer.tokenize_state.size_c + 1;
            tokenizer.set_size_c(size_c);
            tokenizer.consume();
            State::Next(StateName::DirectiveLabelInside)
        },
        Some(0x5Du8) => {
            if tokenizer.tokenize_state.size_c == 0 {
                tokenizer.exit(Name::DirectiveLabelString);
                tokenizer.enter(Name::DirectiveLabelMarker);
                tokenizer.consume();
                tokenizer.exit(Name::DirectiveLabelMarker);
                tokenizer.exit(Name::DirectiveLabel);
                State::Okay
            } else {
                let size_c = tokenizer.tokenize_state.size_c - 1;
                tokenizer.set_size_c(size_c);
                tokenizer.consume();
                State::Next(StateName::DirectiveLabelInside)
            }
        },
        Some(_) => {
            tokenizer.consume();
            State::Next(StateName::DirectiveLabelInside)
        },
    }
}

/// After `\` in a directive label.
///
/// ```markdown
/// > | :name[a\]b]
///            ^
/// ```
pub fn label_escape(tokenizer: &mut Tokenizer) -> (state: State)
    requires
        old(tokenizer)@.wf(),
    ensures
        final(tokenizer)@.wf(),
        (final(tokenizer)@, state) == label_escape_step(old(tokenizer)@),
{
    match tokenizer.current {
        None | Some(0x0Au8) | Some(0x0Du8) => {
            tokenizer.set_size_c(0);
            State::Nok
        },
        Some(_) => {
            tokenizer.consume();
            State::Next(StateName::DirectiveLabelInside)
        },
    }
}

/// At the start of directive attributes (`{`).
///
/// ```markdown
/// > | :name{#id .cls key=value}
///          ^
/// ```
pub fn attributes_start(tokenizer: &mut Tokenizer) -> (state: State)
    requires
        old(tokenizer)@.wf(),
    ensures
        final(tokenizer)@.wf(),
        (final(tokenizer)@, state) == attributes_start_step(old(tokenizer)@),
{
    if tokenizer.current == Some(0x7Bu8) {
        tokenizer.enter(Name::DirectiveAttributes);
        tokenizer.enter(Name::DirectiveAttributesMarker);
        tokenizer.consume();
        tokenizer.exit(Name::DirectiveAttributesMarker);
        State::Next(StateName::DirectiveAttributesBetween)
    } else {
        State::Nok
    }
}

/// Between directive attributes.
///
/// ```markdown
/// > | :name{#id .cls key=value}
///           ^
/// ```
pub fn attributes_between(tokenizer: &mut Tokenizer) -> (state: State)
    requires
        old(tokenizer)@.wf(),
    ensures
        final(tokenizer)@.wf(),
        (final(tokenizer)@, state) == attributes_between_step(old(tokenizer)@),
{
    match tokenizer.current {
        // Whitespace separates attributes.
        Some(0x09u8) | Some(0x20u8) => {
            tokenizer.consume();
            State::Next(StateName::DirectiveAttributesBetween)
        },
        Some(0x7Du8) => {
            tokenizer.enter(Name::DirectiveAttributesMarker);
            tokenizer.consume();
            tokenizer.exit(Name::DirectiveAttributesMarker);
            tokenizer.exit(Name::DirectiveAttributes);
            State::Okay
        },
        Some(0x23u8) => {
            tokenizer.enter(Name::DirectiveAttribute);
            tokenizer.enter(Name::DirectiveAttributeIdMarker);
            tokenizer.consume();
            tokenizer.exit(Name::DirectiveAttributeIdMarker);
            tokenizer.set_token_4(Name::DirectiveAttributeId);
            tokenizer.enter(Name::DirectiveAttributeId);
            State::Next(StateName::DirectiveAttributeShortcutValue)
        },
        Some(0x2Eu8) => {
            tokenizer.enter(Name::DirectiveAttribute);
            tokenizer.enter(Name::DirectiveAttributeClassMarker);
            tokenizer.consume();
            tokenizer.exit(Name::DirectiveAttributeClassMarker);
            tokenizer.set_token_4(Name::DirectiveAttributeClass);
            tokenizer.enter(Name::DirectiveAttributeClass);
            State::Next(StateName::DirectiveAttributeShortcutValue)
        },
        None | Some(0x0Au8) | Some(0x0Du8) => State::Nok,
        Some(_) => {
            if is_attribute_name_start(tokenizer) {
                tokenizer.enter(Name::DirectiveAttribute);
                tokenizer.enter(Name::DirectiveAttributeName);
                tokenizer.consume();
                State::Next(StateName::DirectiveAttributeNameInside)
            } else {
                State::Nok
            }
        },
    }
}

/// In a `#id` or `.class` shortcut value.
///
/// ```markdown
/// > | :name{#id .cls}
///            ^^
/// ```
pub fn attribute_shortcut_value(tokenizer: &mut Tokenizer) -> (state: State)
    requires
        old(tokenizer)@.wf(),
    ensures
        final(tokenizer)@.wf(),
        (final(tokenizer)@, state) == attribute_shortcut_value_step(old(tokenizer)@),
{
    match tokenizer.current {
        None | Some(0x0Au8) | Some(0x0Du8) => State::Nok,
        Some(0x23u8) | Some(0x2Eu8) | Some(0x7Du8) | Some(0x09u8) | Some(0x20u8) => {
            // An id or class needs at least one byte of value.
            if tokenizer.previous == Some(0x23u8) || tokenizer.previous == Some(0x2Eu8) {
                return State::Nok;
            }
            let name = tokenizer.tokenize_state.token_4;
            tokenizer.exit(name);
            tokenizer.set_token_4(Name::Data);
            tokenizer.exit(Name::DirectiveAttribute);
            State::Retry(StateName::DirectiveAttributesBetween)
        },
        Some(0x22u8) | Some(0x27u8) | Some(0x3Cu8) | Some(0x3Du8) | Some(0x3Eu8) | Some(0x60u8) => {
            State::Nok
        },
        Some(_) => {
            tokenizer.consume();
            State::Next(StateName::DirectiveAttributeShortcutValue)
        },
    }
}

/// In an attribute name.
///
/// ```markdown
/// > | :name{key=value}
///           ^^^
/// ```
pub fn attribute_name_inside(tokenizer: &mut Tokenizer) -> (state: State)
    requires
        old(tokenizer)@.wf(),
    ensures
        final(tokenizer)@.wf(),
        (final(tokenizer)@, state) == attribute_name_inside_step(old(tokenizer)@),
{
    if continuation(tokenizer.current) {
        tokenizer.consume();
        return State::Next(StateName::DirectiveAttributeNameInside);
    }
    let kind = kind_at_point(tokenizer);

    if kind == Kind::Other || tokenizer.current == Some(0x2Du8) || tokenizer.current == Some(
        0x2Eu8,
    ) || tokenizer.current == Some(0x3Au8) || tokenizer.current == Some(0x5Fu8) {
        tokenizer.consume();
        State::Next(StateName::DirectiveAttributeNameInside)
    } else {
        tokenizer.exit(Name::DirectiveAttributeName);
        State::Retry(StateName::DirectiveAttributeNameAfter)
    }
}

/// After an attribute name.
///
/// ```markdown
/// > | :name{key=value}
///              ^
/// ```
pub fn attribute_name_after(tokenizer: &mut Tokenizer) -> (state: State)
    requires
        old(tokenizer)@.wf(),
    ensures
        final(tokenizer)@.wf(),
        (final(tokenizer)@, state) == attribute_name_after_step(old(tokenizer)@),
{
    if tokenizer.current == Some(0x3Du8) {
        tokenizer.enter(Name::DirectiveAttributeInitializerMarker);
        tokenizer.consume();
        tokenizer.exit(Name::DirectiveAttributeInitializerMarker);
        State::Next(StateName::DirectiveAttributeValueBefore)
    } else {
        // Bare attribute (value `""`).
        tokenizer.exit(Name::DirectiveAttribute);
        State::Retry(StateName::DirectiveAttributesBetween)
    }
}

/// Before an attribute value.
///
/// ```markdown
/// > | :name{key=value}
///               ^
/// ```
pub fn attribute_value_before(tokenizer: &mut Tokenizer) -> (state: State)
    requires
        old(tokenizer)@.wf(),
    ensures
        final(tokenizer)@.wf(),
        (final(tokenizer)@, state) == attribute_value_before_step(old(tokenizer)@),
{
    match tokenizer.current {
        Some(0x22u8) | Some(0x27u8) => {
            let marker = tokenizer.current.unwrap();
            if tokenizer.peek(1) == Some(marker) {
                // An empty quoted value has no value unit.
                tokenizer.set_marker(0);
                tokenizer.enter(Name::DirectiveAttributeValueMarker);
                tokenizer.consume();
                tokenizer.exit(Name::DirectiveAttributeValueMarker);
                tokenizer.enter(Name::DirectiveAttributeValueMarker);
                tokenizer.consume();
                tokenizer.exit(Name::DirectiveAttributeValueMarker);
                tokenizer.exit(Name::DirectiveAttribute);
                return State::Next(StateName::DirectiveAttributesBetween);
            }
            tokenizer.set_marker(marker);
            tokenizer.enter(Name::DirectiveAttributeValueMarker);
            tokenizer.consume();
            tokenizer.exit(Name::DirectiveAttributeValueMarker);
            tokenizer.enter(Name::DirectiveAttributeValue);
            State::Next(StateName::DirectiveAttributeValueQuoted)
        },
        None | Some(0x0Au8) | Some(0x0Du8) | Some(0x09u8) | Some(0x20u8) | Some(0x7Du8) | Some(0x3Cu8) | Some(
            0x3Du8,
        ) | Some(0x3Eu8) | Some(0x60u8) => State::Nok,
        Some(_) => {
            tokenizer.enter(Name::DirectiveAttributeValue);
            State::Retry(StateName::DirectiveAttributeValueUnquoted)
        },
    }
}

/// In a quoted attribute value.
///
/// ```markdown
/// > | :name{key="value"}
///                ^^^^^
/// ```
pub fn attribute_value_quoted(tokenizer: &mut Tokenizer) -> (state: State)
    requires
        old(tokenizer)@.wf(),
    ensures
        final(tokenizer)@.wf(),
        (final(tokenizer)@, state) == attribute_value_quoted_step(old(tokenizer)@),
{
    match tokenizer.current {
        None | Some(0x0Au8) | Some(0x0Du8) => {
            tokenizer.set_marker(0);
            State::Nok
        },
        Some(byte) => {
            if byte == tokenizer.tokenize_state.marker {
                tokenizer.exit(Name::DirectiveAttributeValue);
                tokenizer.set_marker(0);
                tokenizer.enter(Name::DirectiveAttributeValueMarker);
                tokenizer.consume();
                tokenizer.exit(Name::DirectiveAttributeValueMarker);
                tokenizer.exit(Name::DirectiveAttribute);
                State::Next(StateName::DirectiveAttributesBetween)
            } else {
                tokenizer.consume();
                State::Next(StateName::DirectiveAttributeValueQuoted)
            }
        },
    }
}

/// In an unquoted attribute value.
///
/// ```markdown
/// > | :name{key=value}
///               ^^^^^
/// ```
pub fn attribute_value_unquoted(tokenizer: &mut Tokenizer) -> (state: State)
    requires
        old(tokenizer)@.wf(),
    ensures
        final(tokenizer)@.wf(),
        (final(tokenizer)@, state) == attribute_value_unquoted_step(old(tokenizer)@),
{
    match tokenizer.current {
        None | Some(0x0Au8) | Some(0x0Du8) | Some(0x09u8) | Some(0x20u8) | Some(0x7Du8) => {
            tokenizer.exit(Name::DirectiveAttributeValue);
            tokenizer.exit(Name::DirectiveAttribute);
            State::Retry(StateName::DirectiveAttributesBetween)
        },
        Some(0x22u8) | Some(0x27u8) | Some(0x3Cu8) | Some(0x3Du8) | Some(0x3Eu8) | Some(0x60u8) => {
            State::Nok
        },
        Some(_) => {
            tokenizer.consume();
            State::Next(StateName::DirectiveAttributeValueUnquoted)
        },
    }
}

/// Whether the current byte can start an attribute name.
fn is_attribute_name_start(tokenizer: &Tokenizer) -> (r: bool)
    requires
        tokenizer@.wf(),
    ensures
        r == attribute_name_start_here(tokenizer@),
{
    tokenizer.current == Some(0x2Du8) || tokenizer.current == Some(0x5Fu8) || kind_at_point(
        tokenizer,
    ) == Kind::Other
}

} // verus!
