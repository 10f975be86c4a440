//! Text directives in phrasing content.
//!
//! ```bnf
//! directive_text ::= ':' name [label] [attributes]
//! ```
//!
//! The colon may not follow another, unescaped, colon, so `a ::b` is not a
//! directive while `a \\::b` is one; a name directly followed by a colon
//! (`:b:`) is not one either.

use vstd::prelude::*;
use crate::event::Name;
use crate::state::{State, StateName};
use crate::tokenizer::{Tokenizer, TokenizerView};

verus! {

/// The number of backslashes right before index `k`.
pub open spec fn backslashes_before(bytes: Seq<u8>, k: int) -> nat
    decreases k,
{
    if 0 < k <= bytes.len() && bytes[k - 1] == 0x5C {
        1 + backslashes_before(bytes, k - 1)
    } else {
        0
    }
}

/// The byte before index `i` is not an unescaped colon: either it is no
/// colon, or the colon is escaped by an odd number of backslashes before it.
pub open spec fn no_colon_before(v: TokenizerView) -> bool {
    v.previous != Some(0x3Au8) || (v.index > 0 && backslashes_before(v.bytes, v.index - 1) % 2
        == 1)
}

pub open spec fn start_step(v: TokenizerView) -> (TokenizerView, State) {
    if v.constructs.directive && v.current == Some(0x3Au8) && no_colon_before(v) {
        (
            v.enter(Name::DirectiveText).enter(Name::DirectiveTextMarker).consume(),
            State::Next(StateName::DirectiveTextAfterMarker),
        )
    } else {
        (v, State::Nok)
    }
}

pub open spec fn after_marker_step(v: TokenizerView) -> (TokenizerView, State) {
    (
        v.exit(Name::DirectiveTextMarker).attempt(
            State::Next(StateName::DirectiveTextAfterName),
            State::Next(StateName::DirectiveTextNok),
        ),
        State::Retry(StateName::DirectiveNameStart),
    )
}

pub open spec fn after_name_step(v: TokenizerView) -> (TokenizerView, State) {
    if v.current == Some(0x3Au8) {
        (v, State::Nok)
    } else {
        (
            v.attempt(
                State::Next(StateName::DirectiveTextAfterLabel),
                State::Next(StateName::DirectiveTextAfterLabel),
            ),
            State::Retry(StateName::DirectiveLabelStart),
        )
    }
}

pub open spec fn after_label_step(v: TokenizerView) -> (TokenizerView, State) {
    (
        v.attempt(
            State::Next(StateName::DirectiveTextAfterAttributes),
            State::Next(StateName::DirectiveTextAfterAttributes),
        ),
        State::Retry(StateName::DirectiveAttributesStart),
    )
}

pub open spec fn after_attributes_step(v: TokenizerView) -> (TokenizerView, State) {
    (v.exit(Name::DirectiveText), State::Okay)
}

pub open spec fn nok_step(v: TokenizerView) -> (TokenizerView, State) {
    (v, State::Nok)
}

/// Whether an odd number of backslashes stands right before index `k`, so
/// that the byte at `k` is escaped.
fn odd_backslashes_before(bytes: &Vec<u8>, k: usize) -> (r: bool)
    requires
        k <= bytes.len(),
    ensures
        r == (backslashes_before(bytes@, k as int) % 2 == 1),
{
    let mut j = k;
    while j > 0 && bytes[j - 1] == 0x5C
        invariant
            j <= k <= bytes.len(),
            backslashes_before(bytes@, k as int) == (k - j) + backslashes_before(bytes@, j as int),
        decreases j,
    {
        j = j - 1;
    }
    (k - j) % 2 == 1
}

/// Start of a text directive.
///
/// ```markdown
/// > | a :b[c]{d=e} f
///       ^
/// ```
pub fn start(tokenizer: &mut Tokenizer) -> (state: State)
    requires
        old(tokenizer)@.wf(),
    ensures
        final(tokenizer)@.wf(),
        (final(tokenizer)@, state) == start_step(old(tokenizer)@),
{
    if tokenizer.constructs.directive && tokenizer.current == Some(0x3Au8)
    // Not preceded by an unescaped colon.
     && (tokenizer.previous != Some(0x3Au8) || (tokenizer.index > 0 && odd_backslashes_before(
        &tokenizer.bytes,
        tokenizer.index - 1,
    ))) {
        tokenizer.enter(Name::DirectiveText);
        tokenizer.enter(Name::DirectiveTextMarker);
        tokenizer.consume();
        State::Next(StateName::DirectiveTextAfterMarker)
    } else {
        State::Nok
    }
}

/// After the colon marker.
///
/// ```markdown
/// > | a :b[c]{d=e} f
///        ^
/// ```
pub fn after_marker(tokenizer: &mut Tokenizer) -> (state: State)
    requires
        old(tokenizer)@.wf(),
    ensures
        final(tokenizer)@.wf(),
        (final(tokenizer)@, state) == after_marker_step(old(tokenizer)@),
{
    tokenizer.exit(Name::DirectiveTextMarker);
    tokenizer.attempt(
        State::Next(StateName::DirectiveTextAfterName),
        State::Next(StateName::DirectiveTextNok),
    );
    State::Retry(StateName::DirectiveNameStart)
}

/// After the name.
///
/// ```markdown
/// > | a :b[c]{d=e} f
///         ^
/// ```
pub fn after_name(tokenizer: &mut Tokenizer) -> (state: State)
    requires
        old(tokenizer)@.wf(),
    ensures
        final(tokenizer)@.wf(),
        (final(tokenizer)@, state) == after_name_step(old(tokenizer)@),
{
    // `:b:` is not a directive.
    if tokenizer.current == Some(0x3Au8) {
        State::Nok
    } else {
        tokenizer.attempt(
            State::Next(StateName::DirectiveTextAfterLabel),
            State::Next(StateName::DirectiveTextAfterLabel),
        );
        State::Retry(StateName::DirectiveLabelStart)
    }
}

/// After the optional label.
///
/// ```markdown
/// > | a :b[c]{d=e} f
///            ^
/// ```
pub fn after_label(tokenizer: &mut Tokenizer) -> (state: State)
    requires
        old(tokenizer)@.wf(),
    ensures
        final(tokenizer)@.wf(),
        (final(tokenizer)@, state) == after_label_step(old(tokenizer)@),
{
    tokenizer.attempt(
        State::Next(StateName::DirectiveTextAfterAttributes),
        State::Next(StateName::DirectiveTextAfterAttributes),
    );
    State::Retry(StateName::DirectiveAttributesStart)
}

/// After the optional attributes.
///
/// ```markdown
/// > | a :b[c]{d=e} f
///                ^
/// ```
pub fn after_attributes(tokenizer: &mut Tokenizer) -> (state: State)
    requires
        old(tokenizer)@.wf(),
    ensures
        final(tokenizer)@.wf(),
        (final(tokenizer)@, state) == after_attributes_step(old(tokenizer)@),
{
    tokenizer.exit(Name::DirectiveText);
    State::Okay
}

/// At a failure (no valid name).
pub fn nok(tokenizer: &mut Tokenizer) -> (state: State)
    ensures
        (final(tokenizer)@, state) == nok_step(old(tokenizer)@),
{
    State::Nok
}

} // verus!
