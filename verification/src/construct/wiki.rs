//! Obsidian-style wiki links (`[[target#fragment|alias]]`) and embeds
//! (`![[...]]`) in text.
//!
//! ```bnf
//! wiki_link  ::= '[' '[' body ']' ']'
//! wiki_embed ::= '!' '[' '[' body ']' ']'
//! body     ::= target [fragment] [alias] | fragment [alias]
//! target   ::= 1*(line - '#' - '|' - '[' - ']')
//! fragment ::= '#' 1*(line - '|' - '[' - ']')
//! alias    ::= '|' 1*(line - '[' - ']')
//! ```
//!
//! The target or the fragment must be non-empty; the first `#` opens the
//! fragment and the first `|` the alias. Wiki syntax is not recognized while a
//! link or image label opener is open.

use vstd::prelude::*;
use crate::event::Name;
use crate::state::{State, StateName};
use crate::tokenizer::{Tokenizer, TokenizerView};

verus! {

/// The wiki slots of the tokenize state cleared (what the construct leaves
/// behind when it fails or ends).
pub open spec fn wiki_reset(v: TokenizerView) -> TokenizerView {
    v.set_token_1(Name::Data).set_size(0).set_seen(false)
}

/// Failure: slots cleared, `Nok`.
pub open spec fn wiki_nok(v: TokenizerView) -> (TokenizerView, State) {
    (wiki_reset(v), State::Nok)
}

/// Whether a wiki construct may start here: wiki syntax is on and no label
/// opener is pending.
pub open spec fn wiki_allowed(v: TokenizerView) -> bool {
    v.constructs.wiki && v.label_starts.len() == 0
}

pub open spec fn link_start_step(v: TokenizerView) -> (TokenizerView, State) {
    if wiki_allowed(v) && v.current == Some(0x5Bu8) && v.peek(1) == Some(0x5Bu8) {
        (
            v.set_token_1(Name::WikiLink).set_size(2).set_seen(false).enter(Name::WikiLink).enter(
                Name::WikiMarker,
            ),
            State::Retry(StateName::WikiBefore),
        )
    } else {
        (v, State::Nok)
    }
}

pub open spec fn embed_start_step(v: TokenizerView) -> (TokenizerView, State) {
    if wiki_allowed(v) && v.current == Some(0x21u8) && v.peek(1) == Some(0x5Bu8) && v.peek(2)
        == Some(0x5Bu8) {
        (
            v.set_token_1(Name::WikiEmbed).set_size(2).set_seen(false).enter(
                Name::WikiEmbed,
            ).enter(Name::WikiMarker).consume(),
            State::Next(StateName::WikiBefore),
        )
    } else {
        (v, State::Nok)
    }
}

pub open spec fn before_step(v: TokenizerView) -> (TokenizerView, State) {
    if v.tokenize_state.size > 0 && v.current == Some(0x5Bu8) {
        (
            v.set_size((v.tokenize_state.size - 1) as usize).consume(),
            State::Next(StateName::WikiBefore),
        )
    } else if v.tokenize_state.size == 0 {
        (v.exit(Name::WikiMarker), State::Retry(StateName::WikiTargetStart))
    } else {
        wiki_nok(v)
    }
}

pub open spec fn target_start_step(v: TokenizerView) -> (TokenizerView, State) {
    match v.current {
        Some(b) => if b == 0x23 {
            (
                v.enter(Name::WikiFragmentMarker).consume().exit(Name::WikiFragmentMarker),
                State::Next(StateName::WikiFragmentStart),
            )
        } else if b == 0x0A || b == 0x0D || b == 0x5B || b == 0x5D || b == 0x7C {
            wiki_nok(v)
        } else {
            (v.set_seen(true).enter(Name::WikiTarget), State::Retry(StateName::WikiTarget))
        },
        None => wiki_nok(v),
    }
}

pub open spec fn target_step(v: TokenizerView) -> (TokenizerView, State) {
    match v.current {
        Some(b) => if b == 0x0A || b == 0x0D || b == 0x5B {
            wiki_nok(v)
        } else if b == 0x5D {
            (v.exit(Name::WikiTarget), State::Retry(StateName::WikiClose))
        } else if b == 0x23 {
            (
                v.exit(Name::WikiTarget).enter(Name::WikiFragmentMarker).consume().exit(
                    Name::WikiFragmentMarker,
                ),
                State::Next(StateName::WikiFragmentStart),
            )
        } else if b == 0x7C {
            (
                v.exit(Name::WikiTarget).enter(Name::WikiAliasMarker).consume().exit(
                    Name::WikiAliasMarker,
                ),
                State::Next(StateName::WikiAliasStart),
            )
        } else {
            (v.consume(), State::Next(StateName::WikiTarget))
        },
        None => wiki_nok(v),
    }
}

pub open spec fn fragment_start_step(v: TokenizerView) -> (TokenizerView, State) {
    match v.current {
        Some(b) => if b == 0x0A || b == 0x0D || b == 0x5B || b == 0x5D || b == 0x7C {
            wiki_nok(v)
        } else {
            (v.set_seen(true).enter(Name::WikiFragment), State::Retry(StateName::WikiFragment))
        },
        None => wiki_nok(v),
    }
}

pub open spec fn fragment_step(v: TokenizerView) -> (TokenizerView, State) {
    match v.current {
        Some(b) => if b == 0x0A || b == 0x0D || b == 0x5B {
            wiki_nok(v)
        } else if b == 0x5D {
            (v.exit(Name::WikiFragment), State::Retry(StateName::WikiClose))
        } else if b == 0x7C {
            (
                v.exit(Name::WikiFragment).enter(Name::WikiAliasMarker).consume().exit(
                    Name::WikiAliasMarker,
                ),
                State::Next(StateName::WikiAliasStart),
            )
        } else {
            (v.consume(), State::Next(StateName::WikiFragment))
        },
        None => wiki_nok(v),
    }
}

pub open spec fn alias_start_step(v: TokenizerView) -> (TokenizerView, State) {
    match v.current {
        Some(b) => if b == 0x0A || b == 0x0D || b == 0x5B || b == 0x5D {
            wiki_nok(v)
        } else {
            (v.enter(Name::WikiAlias), State::Retry(StateName::WikiAlias))
        },
        None => wiki_nok(v),
    }
}

pub open spec fn alias_step(v: TokenizerView) -> (TokenizerView, State) {
    match v.current {
        Some(b) => if b == 0x0A || b == 0x0D || b == 0x5B {
            wiki_nok(v)
        } else if b == 0x5D {
            (v.exit(Name::WikiAlias), State::Retry(StateName::WikiClose))
        } else {
            (v.consume(), State::Next(StateName::WikiAlias))
        },
        None => wiki_nok(v),
    }
}

pub open spec fn close_step(v: TokenizerView) -> (TokenizerView, State) {
    if !v.tokenize_state.seen {
        wiki_nok(v)
    } else if v.current == Some(0x5Du8) && v.peek(1) == Some(0x5Du8) {
        (v.enter(Name::WikiMarker).consume(), State::Next(StateName::WikiCloseAfter))
    } else {
        wiki_nok(v)
    }
}

pub open spec fn close_after_step(v: TokenizerView) -> (TokenizerView, State) {
    (
        wiki_reset(v.consume().exit(Name::WikiMarker).exit(v.tokenize_state.token_1)),
        State::Okay,
    )
}

/// Start of a wiki link.
///
/// ```markdown
/// > | a [[b]] c
///       ^
/// ```
pub fn link_start(tokenizer: &mut Tokenizer) -> (state: State)
    requires
        old(tokenizer)@.wf(),
    ensures
        final(tokenizer)@.wf(),
        (final(tokenizer)@, state) == link_start_step(old(tokenizer)@),
{
    if tokenizer.constructs.wiki && tokenizer.label_starts.len() == 0 && tokenizer.current
        == Some(0x5Bu8) && tokenizer.peek(1) == Some(0x5Bu8) {
        tokenizer.set_token_1(Name::WikiLink);
        tokenizer.set_size(2);
        tokenizer.set_seen(false);
        tokenizer.enter(Name::WikiLink);
        tokenizer.enter(Name::WikiMarker);
        State::Retry(StateName::WikiBefore)
    } else {
        State::Nok
    }
}

/// Start of a wiki embed.
///
/// ```markdown
/// > | a ![[b]] c
///       ^
/// ```
pub fn embed_start(tokenizer: &mut Tokenizer) -> (state: State)
    requires
        old(tokenizer)@.wf(),
    ensures
        final(tokenizer)@.wf(),
        (final(tokenizer)@, state) == embed_start_step(old(tokenizer)@),
{
    if tokenizer.constructs.wiki && tokenizer.label_starts.len() == 0 && tokenizer.current
        == Some(0x21u8) && tokenizer.peek(1) == Some(0x5Bu8) && tokenizer.peek(2) == Some(0x5Bu8) {
        tokenizer.set_token_1(Name::WikiEmbed);
        tokenizer.set_size(2);
        tokenizer.set_seen(false);
        tokenizer.enter(Name::WikiEmbed);
        tokenizer.enter(Name::WikiMarker);
        tokenizer.consume();
        State::Next(StateName::WikiBefore)
    } else {
        State::Nok
    }
}

/// In the opening marker, consuming `[` characters.
///
/// ```markdown
/// > | a [[b]] c
///        ^
/// ```
pub fn before(tokenizer: &mut Tokenizer) -> (state: State)
    requires
        old(tokenizer)@.wf(),
    ensures
        final(tokenizer)@.wf(),
        (final(tokenizer)@, state) == before_step(old(tokenizer)@),
{
    if tokenizer.tokenize_state.size > 0 && tokenizer.current == Some(0x5Bu8) {
        tokenizer.set_size(tokenizer.tokenize_state.size - 1);
        tokenizer.consume();
        State::Next(StateName::WikiBefore)
    } else if tokenizer.tokenize_state.size == 0 {
        tokenizer.exit(Name::WikiMarker);
        State::Retry(StateName::WikiTargetStart)
    } else {
        nok(tokenizer)
    }
}

/// At the first byte of the target.
///
/// The target may be empty only when a fragment follows (`[[#Heading]]`); a
/// leading `|` or a closing `]` right away is not a wiki construct.
///
/// ```markdown
/// > | a [[b#c|d]] e
///        ^
/// ```
pub fn target_start(tokenizer: &mut Tokenizer) -> (state: State)
    requires
        old(tokenizer)@.wf(),
    ensures
        final(tokenizer)@.wf(),
        (final(tokenizer)@, state) == target_start_step(old(tokenizer)@),
{
    match tokenizer.current {
        Some(0x23u8) => {
            tokenizer.enter(Name::WikiFragmentMarker);
            tokenizer.consume();
            tokenizer.exit(Name::WikiFragmentMarker);
            State::Next(StateName::WikiFragmentStart)
        },
        None | Some(0x0Au8) | Some(0x0Du8) | Some(0x5Bu8) | Some(0x5Du8) | Some(0x7Cu8) => nok(tokenizer),
        Some(_) => {
            tokenizer.set_seen(true);
            tokenizer.enter(Name::WikiTarget);
            State::Retry(StateName::WikiTarget)
        },
    }
}

/// In the target.
///
/// ```markdown
/// > | a [[b#c|d]] e
///        ^
/// ```
pub fn target(tokenizer: &mut Tokenizer) -> (state: State)
    requires
        old(tokenizer)@.wf(),
    ensures
        final(tokenizer)@.wf(),
        (final(tokenizer)@, state) == target_step(old(tokenizer)@),
{
    match tokenizer.current {
        None | Some(0x0Au8) | Some(0x0Du8) | Some(0x5Bu8) => nok(tokenizer),
        Some(0x5Du8) => {
            tokenizer.exit(Name::WikiTarget);
            State::Retry(StateName::WikiClose)
        },
        Some(0x23u8) => {
            tokenizer.exit(Name::WikiTarget);
            tokenizer.enter(Name::WikiFragmentMarker);
            tokenizer.consume();
            tokenizer.exit(Name::WikiFragmentMarker);
            State::Next(StateName::WikiFragmentStart)
        },
        Some(0x7Cu8) => {
            tokenizer.exit(Name::WikiTarget);
            tokenizer.enter(Name::WikiAliasMarker);
            tokenizer.consume();
            tokenizer.exit(Name::WikiAliasMarker);
            State::Next(StateName::WikiAliasStart)
        },
        Some(_) => {
            tokenizer.consume();
            State::Next(StateName::WikiTarget)
        },
    }
}

/// At the first byte of the fragment (after `#`); the fragment must not be
/// empty.
///
/// ```markdown
/// > | a [[b#c|d]] e
///          ^
/// ```
pub fn fragment_start(tokenizer: &mut Tokenizer) -> (state: State)
    requires
        old(tokenizer)@.wf(),
    ensures
        final(tokenizer)@.wf(),
        (final(tokenizer)@, state) == fragment_start_step(old(tokenizer)@),
{
    match tokenizer.current {
        None | Some(0x0Au8) | Some(0x0Du8) | Some(0x5Bu8) | Some(0x5Du8) | Some(0x7Cu8) => nok(tokenizer),
        Some(_) => {
            tokenizer.set_seen(true);
            tokenizer.enter(Name::WikiFragment);
            State::Retry(StateName::WikiFragment)
        },
    }
}

/// In the fragment (after `#`).
///
/// ```markdown
/// > | a [[b#c|d]] e
///          ^
/// ```
pub fn fragment(tokenizer: &mut Tokenizer) -> (state: State)
    requires
        old(tokenizer)@.wf(),
    ensures
        final(tokenizer)@.wf(),
        (final(tokenizer)@, state) == fragment_step(old(tokenizer)@),
{
    match tokenizer.current {
        None | Some(0x0Au8) | Some(0x0Du8) | Some(0x5Bu8) => nok(tokenizer),
        Some(0x5Du8) => {
            tokenizer.exit(Name::WikiFragment);
            State::Retry(StateName::WikiClose)
        },
        Some(0x7Cu8) => {
            tokenizer.exit(Name::WikiFragment);
            tokenizer.enter(Name::WikiAliasMarker);
            tokenizer.consume();
            tokenizer.exit(Name::WikiAliasMarker);
            State::Next(StateName::WikiAliasStart)
        },
        Some(_) => {
            tokenizer.consume();
            State::Next(StateName::WikiFragment)
        },
    }
}

/// At the first byte of the alias (after `|`); the alias must not be empty.
///
/// ```markdown
/// > | a [[b#c|d]] e
///            ^
/// ```
pub fn alias_start(tokenizer: &mut Tokenizer) -> (state: State)
    requires
        old(tokenizer)@.wf(),
    ensures
        final(tokenizer)@.wf(),
        (final(tokenizer)@, state) == alias_start_step(old(tokenizer)@),
{
    match tokenizer.current {
        None | Some(0x0Au8) | Some(0x0Du8) | Some(0x5Bu8) | Some(0x5Du8) => nok(tokenizer),
        Some(_) => {
            tokenizer.enter(Name::WikiAlias);
            State::Retry(StateName::WikiAlias)
        },
    }
}

/// In the alias (after `|`).
///
/// ```markdown
/// > | a [[b#c|d]] e
///            ^
/// ```
pub fn alias(tokenizer: &mut Tokenizer) -> (state: State)
    requires
        old(tokenizer)@.wf(),
    ensures
        final(tokenizer)@.wf(),
        (final(tokenizer)@, state) == alias_step(old(tokenizer)@),
{
    match tokenizer.current {
        None | Some(0x0Au8) | Some(0x0Du8) | Some(0x5Bu8) => nok(tokenizer),
        Some(0x5Du8) => {
            tokenizer.exit(Name::WikiAlias);
            State::Retry(StateName::WikiClose)
        },
        Some(_) => {
            tokenizer.consume();
            State::Next(StateName::WikiAlias)
        },
    }
}

/// At the closing `]]`; fails when the body had neither a target nor a
/// fragment.
///
/// ```markdown
/// > | a [[b]] c
///          ^
/// ```
pub fn close(tokenizer: &mut Tokenizer) -> (state: State)
    requires
        old(tokenizer)@.wf(),
    ensures
        final(tokenizer)@.wf(),
        (final(tokenizer)@, state) == close_step(old(tokenizer)@),
{
    if !tokenizer.tokenize_state.seen {
        nok(tokenizer)
    } else if tokenizer.current == Some(0x5Du8) && tokenizer.peek(1) == Some(0x5Du8) {
        tokenizer.enter(Name::WikiMarker);
        tokenizer.consume();
        State::Next(StateName::WikiCloseAfter)
    } else {
        nok(tokenizer)
    }
}

/// After the first closing `]`, at the second.
///
/// ```markdown
/// > | a [[b]] c
///           ^
/// ```
pub fn close_after(tokenizer: &mut Tokenizer) -> (state: State)
    requires
        old(tokenizer)@.wf(),
        old(tokenizer)@.current.is_some(),
    ensures
        final(tokenizer)@.wf(),
        (final(tokenizer)@, state) == close_after_step(old(tokenizer)@),
{
    tokenizer.consume();
    tokenizer.exit(Name::WikiMarker);
    let name = tokenizer.tokenize_state.token_1;
    tokenizer.exit(name);
    tokenizer.set_token_1(Name::Data);
    tokenizer.set_size(0);
    tokenizer.set_seen(false);
    State::Okay
}

/// Reset state and signal failure.
fn nok(tokenizer: &mut Tokenizer) -> (state: State)
    requires
        old(tokenizer)@.wf(),
    ensures
        final(tokenizer)@.wf(),
        (final(tokenizer)@, state) == wiki_nok(old(tokenizer)@),
{
    tokenizer.set_token_1(Name::Data);
    tokenizer.set_size(0);
    tokenizer.set_seen(false);
    State::Nok
}

} // verus!
