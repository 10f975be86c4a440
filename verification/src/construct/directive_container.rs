//! Container directive fences in flow.
//!
//! ```bnf
//! opening_fence ::= 3*':' name [label] [attributes] *space_or_tab
//! closing_fence ::= *space_or_tab 3*':' *space_or_tab
//! ```
//!
//! The opening and the closing fence are each their own
//! `DirectiveContainerFence` unit; the content between them is parsed as
//! ordinary flow, and the nesting is rebuilt afterwards.

use vstd::prelude::*;
use crate::event::Name;
use crate::state::{State, StateName};
use crate::tokenizer::{Tokenizer, TokenizerView};

verus! {

pub open spec fn start_step(v: TokenizerView) -> (TokenizerView, State) {
    if v.constructs.directive && v.current == Some(0x3Au8) {
        (
            v.set_size(0).enter(Name::DirectiveContainerFence).enter(
                Name::DirectiveContainerSequence,
            ),
            State::Retry(StateName::DirectiveContainerSequenceOpen),
        )
    } else {
        (v, State::Nok)
    }
}

pub open spec fn sequence_open_step(v: TokenizerView) -> (TokenizerView, State) {
    if v.current == Some(0x3Au8) {
        (
            v.set_size((v.tokenize_state.size + 1) as usize).consume(),
            State::Next(StateName::DirectiveContainerSequenceOpen),
        )
    } else if v.tokenize_state.size >= 3 {
        (
            v.exit(Name::DirectiveContainerSequence).attempt(
                State::Next(StateName::DirectiveContainerAfterName),
                State::Next(StateName::DirectiveContainerCloseStart),
            ),
            State::Retry(StateName::DirectiveNameStart),
        )
    } else {
        (v.set_size(0), State::Nok)
    }
}

pub open spec fn after_name_step(v: TokenizerView) -> (TokenizerView, State) {
    (
        v.attempt(
            State::Next(StateName::DirectiveContainerAfterLabel),
            State::Next(StateName::DirectiveContainerAfterLabel),
        ),
        State::Retry(StateName::DirectiveLabelStart),
    )
}

pub open spec fn after_label_step(v: TokenizerView) -> (TokenizerView, State) {
    (
        v.attempt(
            State::Next(StateName::DirectiveContainerAfterAttributes),
            State::Next(StateName::DirectiveContainerAfterAttributes),
        ),
        State::Retry(StateName::DirectiveAttributesStart),
    )
}

pub open spec fn after_attributes_step(v: TokenizerView) -> (TokenizerView, State) {
    (v, State::Retry(StateName::DirectiveContainerOpenAfter))
}

/// The end of a fence line: optional whitespace, then the end of the line.
pub open spec fn fence_end_step(v: TokenizerView, again: StateName) -> (TokenizerView, State) {
    match v.current {
        None => (v.exit(Name::DirectiveContainerFence).set_size(0), State::Okay),
        Some(b) => if b == 0x09 || b == 0x20 {
            (v.consume(), State::Next(again))
        } else if b == 0x0A || b == 0x0D {
            (v.exit(Name::DirectiveContainerFence).set_size(0), State::Okay)
        } else {
            (v.set_size(0), State::Nok)
        },
    }
}

pub open spec fn open_after_step(v: TokenizerView) -> (TokenizerView, State) {
    fence_end_step(v, StateName::DirectiveContainerOpenAfter)
}

pub open spec fn close_start_step(v: TokenizerView) -> (TokenizerView, State) {
    (v, State::Retry(StateName::DirectiveContainerCloseSequence))
}

pub open spec fn close_sequence_step(v: TokenizerView) -> (TokenizerView, State) {
    (v, State::Retry(StateName::DirectiveContainerCloseAfter))
}

pub open spec fn close_after_step(v: TokenizerView) -> (TokenizerView, State) {
    fence_end_step(v, StateName::DirectiveContainerCloseAfter)
}

/// Start of a container directive fence (opening or closing).
///
/// ```markdown
/// > | :::name
///     ^
/// ```
pub fn start(tokenizer: &mut Tokenizer) -> (state: State)
    requires
        old(tokenizer)@.wf(),
    ensures
        final(tokenizer)@.wf(),
        (final(tokenizer)@, state) == start_step(old(tokenizer)@),
{
    if tokenizer.constructs.directive && tokenizer.current == Some(0x3Au8) {
        tokenizer.set_size(0);
        tokenizer.enter(Name::DirectiveContainerFence);
        tokenizer.enter(Name::DirectiveContainerSequence);
        State::Retry(StateName::DirectiveContainerSequenceOpen)
    } else {
        State::Nok
    }
}

/// In the opening sequence of colons.
///
/// ```markdown
/// > | :::name
///     ^^^
/// ```
pub fn sequence_open(tokenizer: &mut Tokenizer) -> (state: State)
    requires
        old(tokenizer)@.wf(),
        old(tokenizer)@.current == Some(0x3Au8) ==> old(tokenizer)@.tokenize_state.size
            < usize::MAX,
    ensures
        final(tokenizer)@.wf(),
        (final(tokenizer)@, state) == sequence_open_step(old(tokenizer)@),
{
    if tokenizer.current == Some(0x3Au8) {
        let size = tokenizer.tokenize_state.size + 1;
        tokenizer.set_size(size);
        tokenizer.consume();
        State::Next(StateName::DirectiveContainerSequenceOpen)
    } else if tokenizer.tokenize_state.size >= 3 {
        tokenizer.exit(Name::DirectiveContainerSequence);
        // A name means an opening fence; otherwise this may be a closing fence.
        tokenizer.attempt(
            State::Next(StateName::DirectiveContainerAfterName),
            State::Next(StateName::DirectiveContainerCloseStart),
        );
        State::Retry(StateName::DirectiveNameStart)
    } else {
        // Fewer than three colons: not a container.
        tokenizer.set_size(0);
        State::Nok
    }
}

/// After the name (opening fence).
pub fn after_name(tokenizer: &mut Tokenizer) -> (state: State)
    requires
        old(tokenizer)@.wf(),
    ensures
        final(tokenizer)@.wf(),
        (final(tokenizer)@, state) == after_name_step(old(tokenizer)@),
{
    tokenizer.attempt(
        State::Next(StateName::DirectiveContainerAfterLabel),
        State::Next(StateName::DirectiveContainerAfterLabel),
    );
    State::Retry(StateName::DirectiveLabelStart)
}

/// After the optional label (opening fence).
pub fn after_label(tokenizer: &mut Tokenizer) -> (state: State)
    requires
        old(tokenizer)@.wf(),
    ensures
        final(tokenizer)@.wf(),
        (final(tokenizer)@, state) == after_label_step(old(tokenizer)@),
{
    tokenizer.attempt(
        State::Next(StateName::DirectiveContainerAfterAttributes),
        State::Next(StateName::DirectiveContainerAfterAttributes),
    );
    State::Retry(StateName::DirectiveAttributesStart)
}

/// After the optional attributes (opening fence).
pub fn after_attributes(tokenizer: &mut Tokenizer) -> (state: State)
    ensures
        (final(tokenizer)@, state) == after_attributes_step(old(tokenizer)@),
{
    State::Retry(StateName::DirectiveContainerOpenAfter)
}

/// The shared end of a fence line.
fn fence_end(tokenizer: &mut Tokenizer, again: StateName) -> (state: State)
    requires
        old(tokenizer)@.wf(),
    ensures
        final(tokenizer)@.wf(),
        (final(tokenizer)@, state) == fence_end_step(old(tokenizer)@, again),
{
    match tokenizer.current {
        Some(0x09u8) | Some(0x20u8) => {
            tokenizer.consume();
            State::Next(again)
        },
        None | Some(0x0Au8) | Some(0x0Du8) => {
            tokenizer.exit(Name::DirectiveContainerFence);
            tokenizer.set_size(0);
            State::Okay
        },
        // Junk after the fence: not a valid fence.
        _ => {
            tokenizer.set_size(0);
            State::Nok
        },
    }
}

/// At the end of an opening fence line; only whitespace may follow.
///
/// ```markdown
/// > | :::name
///            ^
/// ```
pub fn open_after(tokenizer: &mut Tokenizer) -> (state: State)
    requires
        old(tokenizer)@.wf(),
    ensures
        final(tokenizer)@.wf(),
        (final(tokenizer)@, state) == open_after_step(old(tokenizer)@),
{
    fence_end(tokenizer, StateName::DirectiveContainerOpenAfter)
}

/// At a closing fence candidate (no name after the colons).
///
/// ```markdown
/// > | :::
///        ^
/// ```
pub fn close_start(tokenizer: &mut Tokenizer) -> (state: State)
    ensures
        (final(tokenizer)@, state) == close_start_step(old(tokenizer)@),
{
    State::Retry(StateName::DirectiveContainerCloseSequence)
}

/// On a closing fence line, before optional trailing whitespace.
pub fn close_sequence(tokenizer: &mut Tokenizer) -> (state: State)
    ensures
        (final(tokenizer)@, state) == close_sequence_step(old(tokenizer)@),
{
    State::Retry(StateName::DirectiveContainerCloseAfter)
}

/// At the end of a closing fence line; only whitespace may follow the colons.
///
/// ```markdown
/// > | :::
///        ^
/// ```
pub fn close_after(tokenizer: &mut Tokenizer) -> (state: State)
    requires
        old(tokenizer)@.wf(),
    ensures
        final(tokenizer)@.wf(),
        (final(tokenizer)@, state) == close_after_step(old(tokenizer)@),
{
    fence_end(tokenizer, StateName::DirectiveContainerCloseAfter)
}

} // verus!
