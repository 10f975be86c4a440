//! Leaf directives in flow.
//!
//! ```bnf
//! directive_leaf ::= '::' name [label] [attributes] *space_or_tab
//! ```
//!
//! Exactly two colons at the start of a line, a name, an optional label, an
//! optional attribute list, then only whitespace until the end of the line.

use vstd::prelude::*;
use crate::event::Name;
use crate::state::{State, StateName};
use crate::tokenizer::{Tokenizer, TokenizerView};

verus! {

pub open spec fn start_step(v: TokenizerView) -> (TokenizerView, State) {
    if v.constructs.directive && v.current == Some(0x3Au8) {
        (
            v.set_size(0).enter(Name::DirectiveLeaf).enter(Name::DirectiveLeafSequence),
            State::Retry(StateName::DirectiveLeafSequenceOpen),
        )
    } else {
        (v, State::Nok)
    }
}

pub open spec fn sequence_open_step(v: TokenizerView) -> (TokenizerView, State) {
    if v.current == Some(0x3Au8) {
        (
            v.set_size((v.tokenize_state.size + 1) as usize).consume(),
            State::Next(StateName::DirectiveLeafSequenceOpen),
        )
    } else if v.tokenize_state.size == 2 {
        (
            v.set_size(0).exit(Name::DirectiveLeafSequence).attempt(
                State::Next(StateName::DirectiveLeafAfterName),
                State::Next(StateName::DirectiveLeafNok),
            ),
            State::Retry(StateName::DirectiveNameStart),
        )
    } else {
        (v.set_size(0), State::Nok)
    }
}

pub open spec fn after_name_step(v: TokenizerView) -> (TokenizerView, State) {
    (
        v.attempt(
            State::Next(StateName::DirectiveLeafAfterLabel),
            State::Next(StateName::DirectiveLeafAfterLabel),
        ),
        State::Retry(StateName::DirectiveLabelStart),
    )
}

pub open spec fn after_label_step(v: TokenizerView) -> (TokenizerView, State) {
    (
        v.attempt(
            State::Next(StateName::DirectiveLeafAfterAttributes),
            State::Next(StateName::DirectiveLeafAfterAttributes),
        ),
        State::Retry(StateName::DirectiveAttributesStart),
    )
}

pub open spec fn after_attributes_step(v: TokenizerView) -> (TokenizerView, State) {
    (v, State::Retry(StateName::DirectiveLeafEnd))
}

pub open spec fn end_step(v: TokenizerView) -> (TokenizerView, State) {
    match v.current {
        None => (v.exit(Name::DirectiveLeaf), State::Okay),
        Some(b) => if b == 0x09 || b == 0x20 {
            (v.consume(), State::Next(StateName::DirectiveLeafEnd))
        } else if b == 0x0A || b == 0x0D {
            (v.exit(Name::DirectiveLeaf), State::Okay)
        } else {
            (v, State::Nok)
        },
    }
}

pub open spec fn nok_step(v: TokenizerView) -> (TokenizerView, State) {
    (v, State::Nok)
}

/// Start of a leaf directive.
///
/// ```markdown
/// > | ::name[label]{attrs}
///     ^
/// ```
pub fn start(tokenizer: &mut Tokenizer) -> (state: State)
    requires
        old(tokenizer)@.wf(),
    ensures
        final(tokenizer)@.wf(),
        (final(tokenizer)@, state) == start_step(old(tokenizer)@),
{
    if tokenizer.constructs.directive && tokenizer.current == Some(0x3Au8) {
        tokenizer.set_size(0);
        tokenizer.enter(Name::DirectiveLeaf);
        tokenizer.enter(Name::DirectiveLeafSequence);
        State::Retry(StateName::DirectiveLeafSequenceOpen)
    } else {
        State::Nok
    }
}

/// In the colons of a leaf directive (exactly two).
///
/// ```markdown
/// > | ::name
///      ^
/// ```
pub fn sequence_open(tokenizer: &mut Tokenizer) -> (state: State)
    requires
        old(tokenizer)@.wf(),
        old(tokenizer)@.current == Some(0x3Au8) ==> old(tokenizer)@.tokenize_state.size
            < usize::MAX,
    ensures
        final(tokenizer)@.wf(),
        (final(tokenizer)@, state) == sequence_open_step(old(tokenizer)@),
{
    if tokenizer.current == Some(0x3Au8) {
        let size = tokenizer.tokenize_state.size + 1;
        tokenizer.set_size(size);
        tokenizer.consume();
        State::Next(StateName::DirectiveLeafSequenceOpen)
    } else if tokenizer.tokenize_state.size == 2 {
        tokenizer.set_size(0);
        tokenizer.exit(Name::DirectiveLeafSequence);
        tokenizer.attempt(
            State::Next(StateName::DirectiveLeafAfterName),
            State::Next(StateName::DirectiveLeafNok),
        );
        State::Retry(StateName::DirectiveNameStart)
    } else {
        // Not exactly two colons.
        tokenizer.set_size(0);
        State::Nok
    }
}

/// After the name.
pub fn after_name(tokenizer: &mut Tokenizer) -> (state: State)
    requires
        old(tokenizer)@.wf(),
    ensures
        final(tokenizer)@.wf(),
        (final(tokenizer)@, state) == after_name_step(old(tokenizer)@),
{
    tokenizer.attempt(
        State::Next(StateName::DirectiveLeafAfterLabel),
        State::Next(StateName::DirectiveLeafAfterLabel),
    );
    State::Retry(StateName::DirectiveLabelStart)
}

/// After the optional label.
pub fn after_label(tokenizer: &mut Tokenizer) -> (state: State)
    requires
        old(tokenizer)@.wf(),
    ensures
        final(tokenizer)@.wf(),
        (final(tokenizer)@, state) == after_label_step(old(tokenizer)@),
{
    tokenizer.attempt(
        State::Next(StateName::DirectiveLeafAfterAttributes),
        State::Next(StateName::DirectiveLeafAfterAttributes),
    );
    State::Retry(StateName::DirectiveAttributesStart)
}

/// After the optional attributes.
pub fn after_attributes(tokenizer: &mut Tokenizer) -> (state: State)
    ensures
        (final(tokenizer)@, state) == after_attributes_step(old(tokenizer)@),
{
    State::Retry(StateName::DirectiveLeafEnd)
}

/// At the end of the line; only whitespace may follow the attributes.
///
/// ```markdown
/// > | ::name
///           ^
/// ```
pub fn end(tokenizer: &mut Tokenizer) -> (state: State)
    requires
        old(tokenizer)@.wf(),
    ensures
        final(tokenizer)@.wf(),
        (final(tokenizer)@, state) == end_step(old(tokenizer)@),
{
    match tokenizer.current {
        Some(0x09u8) | Some(0x20u8) => {
            tokenizer.consume();
            State::Next(StateName::DirectiveLeafEnd)
        },
        None | Some(0x0Au8) | Some(0x0Du8) => {
            tokenizer.exit(Name::DirectiveLeaf);
            State::Okay
        },
        _ => State::Nok,
    }
}

/// At a failure.
pub fn nok(tokenizer: &mut Tokenizer) -> (state: State)
    ensures
        (final(tokenizer)@, state) == nok_step(old(tokenizer)@),
{
    State::Nok
}

} // verus!
