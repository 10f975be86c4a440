//! The machine that runs the state functions: it calls the named state,
//! follows `Next` and `Retry`, and settles attempts when a construct ends.

use vstd::prelude::*;
use crate::construct::{directive_container, directive_leaf, directive_text, partial_directive, wiki};
use crate::state::{State, StateName};
use crate::tokenizer::{byte_at, attempt_wf, Attempt, Tokenizer, TokenizerView};

verus! {

/// One step of the named state.
pub open spec fn step(v: TokenizerView, name: StateName) -> (TokenizerView, State) {
    match name {
        StateName::DirectiveNameStart => partial_directive::name_start_step(v),
        StateName::DirectiveNameInside => partial_directive::name_inside_step(v),
        StateName::DirectiveLabelStart => partial_directive::label_start_step(v),
        StateName::DirectiveLabelInside => partial_directive::label_inside_step(v),
        StateName::DirectiveLabelEscape => partial_directive::label_escape_step(v),
        StateName::DirectiveAttributesStart => partial_directive::attributes_start_step(v),
        StateName::DirectiveAttributesBetween => partial_directive::attributes_between_step(v),
        StateName::DirectiveAttributeShortcutValue => partial_directive::attribute_shortcut_value_step(v),
        StateName::DirectiveAttributeNameInside => partial_directive::attribute_name_inside_step(v),
        StateName::DirectiveAttributeNameAfter => partial_directive::attribute_name_after_step(v),
        StateName::DirectiveAttributeValueBefore => partial_directive::attribute_value_before_step(v),
        StateName::DirectiveAttributeValueQuoted => partial_directive::attribute_value_quoted_step(v),
        StateName::DirectiveAttributeValueUnquoted => partial_directive::attribute_value_unquoted_step(v),
        StateName::DirectiveContainerStart => directive_container::start_step(v),
        StateName::DirectiveContainerSequenceOpen => directive_container::sequence_open_step(v),
        StateName::DirectiveContainerAfterName => directive_container::after_name_step(v),
        StateName::DirectiveContainerAfterLabel => directive_container::after_label_step(v),
        StateName::DirectiveContainerAfterAttributes => directive_container::after_attributes_step(v),
        StateName::DirectiveContainerOpenAfter => directive_container::open_after_step(v),
        StateName::DirectiveContainerCloseStart => directive_container::close_start_step(v),
        StateName::DirectiveContainerCloseSequence => directive_container::close_sequence_step(v),
        StateName::DirectiveContainerCloseAfter => directive_container::close_after_step(v),
        StateName::DirectiveLeafStart => directive_leaf::start_step(v),
        StateName::DirectiveLeafSequenceOpen => directive_leaf::sequence_open_step(v),
        StateName::DirectiveLeafAfterName => directive_leaf::after_name_step(v),
        StateName::DirectiveLeafAfterLabel => directive_leaf::after_label_step(v),
        StateName::DirectiveLeafAfterAttributes => directive_leaf::after_attributes_step(v),
        StateName::DirectiveLeafEnd => directive_leaf::end_step(v),
        StateName::DirectiveLeafNok => directive_leaf::nok_step(v),
        StateName::DirectiveTextStart => directive_text::start_step(v),
        StateName::DirectiveTextAfterMarker => directive_text::after_marker_step(v),
        StateName::DirectiveTextAfterName => directive_text::after_name_step(v),
        StateName::DirectiveTextAfterLabel => directive_text::after_label_step(v),
        StateName::DirectiveTextAfterAttributes => directive_text::after_attributes_step(v),
        StateName::DirectiveTextNok => directive_text::nok_step(v),
        StateName::WikiLinkStart => wiki::link_start_step(v),
        StateName::WikiEmbedStart => wiki::embed_start_step(v),
        StateName::WikiBefore => wiki::before_step(v),
        StateName::WikiTargetStart => wiki::target_start_step(v),
        StateName::WikiTarget => wiki::target_step(v),
        StateName::WikiFragmentStart => wiki::fragment_start_step(v),
        StateName::WikiFragment => wiki::fragment_step(v),
        StateName::WikiAliasStart => wiki::alias_start_step(v),
        StateName::WikiAlias => wiki::alias_step(v),
        StateName::WikiClose => wiki::close_step(v),
        StateName::WikiCloseAfter => wiki::close_after_step(v),
    }
}

/// What a state needs beyond a well-formed tokenizer: counters that it
/// increments must not be at their maximum, and the second closing bracket of
/// a wiki construct must be there.
pub open spec fn step_ready(v: TokenizerView, name: StateName) -> bool {
    match name {
        StateName::DirectiveLabelInside => v.current == Some(0x5Bu8)
            ==> v.tokenize_state.size_c < usize::MAX,
        StateName::DirectiveContainerSequenceOpen => v.current == Some(0x3Au8)
            ==> v.tokenize_state.size < usize::MAX,
        StateName::DirectiveLeafSequenceOpen => v.current == Some(0x3Au8)
            ==> v.tokenize_state.size < usize::MAX,
        StateName::WikiCloseAfter => v.current.is_some(),
        _ => true,
    }
}

/// Whether the state belongs to `partial_directive`.
pub open spec fn is_partial_state(name: StateName) -> bool {
    name == StateName::DirectiveNameStart
    || name == StateName::DirectiveNameInside
    || name == StateName::DirectiveLabelStart
    || name == StateName::DirectiveLabelInside
    || name == StateName::DirectiveLabelEscape
    || name == StateName::DirectiveAttributesStart
    || name == StateName::DirectiveAttributesBetween
    || name == StateName::DirectiveAttributeShortcutValue
    || name == StateName::DirectiveAttributeNameInside
    || name == StateName::DirectiveAttributeNameAfter
    || name == StateName::DirectiveAttributeValueBefore
    || name == StateName::DirectiveAttributeValueQuoted
    || name == StateName::DirectiveAttributeValueUnquoted
}

/// Whether the state belongs to `directive_container`.
pub open spec fn is_container_state(name: StateName) -> bool {
    name == StateName::DirectiveContainerStart
    || name == StateName::DirectiveContainerSequenceOpen
    || name == StateName::DirectiveContainerAfterName
    || name == StateName::DirectiveContainerAfterLabel
    || name == StateName::DirectiveContainerAfterAttributes
    || name == StateName::DirectiveContainerOpenAfter
    || name == StateName::DirectiveContainerCloseStart
    || name == StateName::DirectiveContainerCloseSequence
    || name == StateName::DirectiveContainerCloseAfter
}

/// Whether the state belongs to `directive_leaf`.
pub open spec fn is_leaf_state(name: StateName) -> bool {
    name == StateName::DirectiveLeafStart
    || name == StateName::DirectiveLeafSequenceOpen
    || name == StateName::DirectiveLeafAfterName
    || name == StateName::DirectiveLeafAfterLabel
    || name == StateName::DirectiveLeafAfterAttributes
    || name == StateName::DirectiveLeafEnd
    || name == StateName::DirectiveLeafNok
}

/// Whether the state belongs to `directive_text`.
pub open spec fn is_text_state(name: StateName) -> bool {
    name == StateName::DirectiveTextStart
    || name == StateName::DirectiveTextAfterMarker
    || name == StateName::DirectiveTextAfterName
    || name == StateName::DirectiveTextAfterLabel
    || name == StateName::DirectiveTextAfterAttributes
    || name == StateName::DirectiveTextNok
}

/// Whether the state belongs to `wiki`.
pub open spec fn is_wiki_state(name: StateName) -> bool {
    name == StateName::WikiLinkStart
    || name == StateName::WikiEmbedStart
    || name == StateName::WikiBefore
    || name == StateName::WikiTargetStart
    || name == StateName::WikiTarget
    || name == StateName::WikiFragmentStart
    || name == StateName::WikiFragment
    || name == StateName::WikiAliasStart
    || name == StateName::WikiAlias
    || name == StateName::WikiClose
    || name == StateName::WikiCloseAfter
}

/// Call a state function of `partial_directive`.
fn call_partial_directive(tokenizer: &mut Tokenizer, name: StateName) -> (state: State)
    requires
        old(tokenizer)@.wf(),
        step_ready(old(tokenizer)@, name),
        is_partial_state(name),
    ensures
        final(tokenizer)@.wf(),
        (final(tokenizer)@, state) == step(old(tokenizer)@, name),
{
    match name {
        StateName::DirectiveNameStart => partial_directive::name_start(tokenizer),
        StateName::DirectiveNameInside => partial_directive::name_inside(tokenizer),
        StateName::DirectiveLabelStart => partial_directive::label_start(tokenizer),
        StateName::DirectiveLabelInside => partial_directive::label_inside(tokenizer),
        StateName::DirectiveLabelEscape => partial_directive::label_escape(tokenizer),
        StateName::DirectiveAttributesStart => partial_directive::attributes_start(tokenizer),
        StateName::DirectiveAttributesBetween => partial_directive::attributes_between(tokenizer),
        StateName::DirectiveAttributeShortcutValue => partial_directive::attribute_shortcut_value(tokenizer),
        StateName::DirectiveAttributeNameInside => partial_directive::attribute_name_inside(tokenizer),
        StateName::DirectiveAttributeNameAfter => partial_directive::attribute_name_after(tokenizer),
        StateName::DirectiveAttributeValueBefore => partial_directive::attribute_value_before(tokenizer),
        StateName::DirectiveAttributeValueQuoted => partial_directive::attribute_value_quoted(tokenizer),
        StateName::DirectiveAttributeValueUnquoted => partial_directive::attribute_value_unquoted(tokenizer),
        _ => State::Nok,
    }
}

/// Call a state function of `directive_container`.
fn call_directive_container(tokenizer: &mut Tokenizer, name: StateName) -> (state: State)
    requires
        old(tokenizer)@.wf(),
        step_ready(old(tokenizer)@, name),
        is_container_state(name),
    ensures
        final(tokenizer)@.wf(),
        (final(tokenizer)@, state) == step(old(tokenizer)@, name),
{
    match name {
        StateName::DirectiveContainerStart => directive_container::start(tokenizer),
        StateName::DirectiveContainerSequenceOpen => directive_container::sequence_open(tokenizer),
        StateName::DirectiveContainerAfterName => directive_container::after_name(tokenizer),
        StateName::DirectiveContainerAfterLabel => directive_container::after_label(tokenizer),
        StateName::DirectiveContainerAfterAttributes => directive_container::after_attributes(tokenizer),
        StateName::DirectiveContainerOpenAfter => directive_container::open_after(tokenizer),
        StateName::DirectiveContainerCloseStart => directive_container::close_start(tokenizer),
        StateName::DirectiveContainerCloseSequence => directive_container::close_sequence(tokenizer),
        StateName::DirectiveContainerCloseAfter => directive_container::close_after(tokenizer),
        _ => State::Nok,
    }
}

/// Call a state function of `directive_leaf`.
fn call_directive_leaf(tokenizer: &mut Tokenizer, name: StateName) -> (state: State)
    requires
        old(tokenizer)@.wf(),
        step_ready(old(tokenizer)@, name),
        is_leaf_state(name),
    ensures
        final(tokenizer)@.wf(),
        (final(tokenizer)@, state) == step(old(tokenizer)@, name),
{
    match name {
        StateName::DirectiveLeafStart => directive_leaf::start(tokenizer),
        StateName::DirectiveLeafSequenceOpen => directive_leaf::sequence_open(tokenizer),
        StateName::DirectiveLeafAfterName => directive_leaf::after_name(tokenizer),
        StateName::DirectiveLeafAfterLabel => directive_leaf::after_label(tokenizer),
        StateName::DirectiveLeafAfterAttributes => directive_leaf::after_attributes(tokenizer),
        StateName::DirectiveLeafEnd => directive_leaf::end(tokenizer),
        StateName::DirectiveLeafNok => directive_leaf::nok(tokenizer),
        _ => State::Nok,
    }
}

/// Call a state function of `directive_text`.
fn call_directive_text(tokenizer: &mut Tokenizer, name: StateName) -> (state: State)
    requires
        old(tokenizer)@.wf(),
        step_ready(old(tokenizer)@, name),
        is_text_state(name),
    ensures
        final(tokenizer)@.wf(),
        (final(tokenizer)@, state) == step(old(tokenizer)@, name),
{
    match name {
        StateName::DirectiveTextStart => directive_text::start(tokenizer),
        StateName::DirectiveTextAfterMarker => directive_text::after_marker(tokenizer),
        StateName::DirectiveTextAfterName => directive_text::after_name(tokenizer),
        StateName::DirectiveTextAfterLabel => directive_text::after_label(tokenizer),
        StateName::DirectiveTextAfterAttributes => directive_text::after_attributes(tokenizer),
        StateName::DirectiveTextNok => directive_text::nok(tokenizer),
        _ => State::Nok,
    }
}

/// Call a state function of `wiki`.
fn call_wiki(tokenizer: &mut Tokenizer, name: StateName) -> (state: State)
    requires
        old(tokenizer)@.wf(),
        step_ready(old(tokenizer)@, name),
        is_wiki_state(name),
    ensures
        final(tokenizer)@.wf(),
        (final(tokenizer)@, state) == step(old(tokenizer)@, name),
{
    match name {
        StateName::WikiLinkStart => wiki::link_start(tokenizer),
        StateName::WikiEmbedStart => wiki::embed_start(tokenizer),
        StateName::WikiBefore => wiki::before(tokenizer),
        StateName::WikiTargetStart => wiki::target_start(tokenizer),
        StateName::WikiTarget => wiki::target(tokenizer),
        StateName::WikiFragmentStart => wiki::fragment_start(tokenizer),
        StateName::WikiFragment => wiki::fragment(tokenizer),
        StateName::WikiAliasStart => wiki::alias_start(tokenizer),
        StateName::WikiAlias => wiki::alias(tokenizer),
        StateName::WikiClose => wiki::close(tokenizer),
        StateName::WikiCloseAfter => wiki::close_after(tokenizer),
        _ => State::Nok,
    }
}

/// Call the named state function.
pub fn call(tokenizer: &mut Tokenizer, name: StateName) -> (state: State)
    requires
        old(tokenizer)@.wf(),
        step_ready(old(tokenizer)@, name),
    ensures
        final(tokenizer)@.wf(),
        (final(tokenizer)@, state) == step(old(tokenizer)@, name),
{
    if is_partial_state_exec(name) {
        call_partial_directive(tokenizer, name)
    } else if is_container_state_exec(name) {
        call_directive_container(tokenizer, name)
    } else if is_leaf_state_exec(name) {
        call_directive_leaf(tokenizer, name)
    } else if is_text_state_exec(name) {
        call_directive_text(tokenizer, name)
    } else {
        call_wiki(tokenizer, name)
    }
}

fn is_partial_state_exec(name: StateName) -> (r: bool)
    ensures
        r == is_partial_state(name),
{
    match name {
        StateName::DirectiveNameStart | StateName::DirectiveNameInside | StateName::DirectiveLabelStart | StateName::DirectiveLabelInside | StateName::DirectiveLabelEscape | StateName::DirectiveAttributesStart | StateName::DirectiveAttributesBetween | StateName::DirectiveAttributeShortcutValue | StateName::DirectiveAttributeNameInside | StateName::DirectiveAttributeNameAfter | StateName::DirectiveAttributeValueBefore | StateName::DirectiveAttributeValueQuoted | StateName::DirectiveAttributeValueUnquoted => true,
        _ => false,
    }
}

fn is_container_state_exec(name: StateName) -> (r: bool)
    ensures
        r == is_container_state(name),
{
    match name {
        StateName::DirectiveContainerStart | StateName::DirectiveContainerSequenceOpen | StateName::DirectiveContainerAfterName | StateName::DirectiveContainerAfterLabel | StateName::DirectiveContainerAfterAttributes | StateName::DirectiveContainerOpenAfter | StateName::DirectiveContainerCloseStart | StateName::DirectiveContainerCloseSequence | StateName::DirectiveContainerCloseAfter => true,
        _ => false,
    }
}

fn is_leaf_state_exec(name: StateName) -> (r: bool)
    ensures
        r == is_leaf_state(name),
{
    match name {
        StateName::DirectiveLeafStart | StateName::DirectiveLeafSequenceOpen | StateName::DirectiveLeafAfterName | StateName::DirectiveLeafAfterLabel | StateName::DirectiveLeafAfterAttributes | StateName::DirectiveLeafEnd | StateName::DirectiveLeafNok => true,
        _ => false,
    }
}

fn is_text_state_exec(name: StateName) -> (r: bool)
    ensures
        r == is_text_state(name),
{
    match name {
        StateName::DirectiveTextStart | StateName::DirectiveTextAfterMarker | StateName::DirectiveTextAfterName | StateName::DirectiveTextAfterLabel | StateName::DirectiveTextAfterAttributes | StateName::DirectiveTextNok => true,
        _ => false,
    }
}


/// The states that parse a directive's name, label, or attributes: they never
/// start attempts of their own.
pub open spec fn is_sub_state(name: StateName) -> bool {
    is_partial_state(name)
}

/// The states that a construct continues in after an attempt.
pub open spec fn is_continuation(name: StateName) -> bool {
    ||| name == StateName::DirectiveContainerAfterName
    ||| name == StateName::DirectiveContainerCloseStart
    ||| name == StateName::DirectiveContainerAfterLabel
    ||| name == StateName::DirectiveContainerAfterAttributes
    ||| name == StateName::DirectiveLeafAfterName
    ||| name == StateName::DirectiveLeafNok
    ||| name == StateName::DirectiveLeafAfterLabel
    ||| name == StateName::DirectiveLeafAfterAttributes
    ||| name == StateName::DirectiveTextAfterName
    ||| name == StateName::DirectiveTextNok
    ||| name == StateName::DirectiveTextAfterLabel
    ||| name == StateName::DirectiveTextAfterAttributes
}

/// A state that goes on from a settled attempt.
pub open spec fn continuation_ok(s: State) -> bool {
    match s {
        State::Next(name) => is_continuation(name),
        _ => false,
    }
}

/// The name in a `Next` or `Retry`.
pub open spec fn pending(s: State) -> Option<StateName> {
    match s {
        State::Next(name) => Some(name),
        State::Retry(name) => Some(name),
        _ => None,
    }
}

/// Distance of a state from the end of its construct when no byte is consumed:
/// every `Retry` goes to a lower rank, and a state that starts an attempt
/// outranks where the attempt continues.
pub open spec fn rank(name: StateName) -> int {
    match name {
        StateName::DirectiveAttributeShortcutValue => 2,
        StateName::DirectiveAttributeNameInside => 3,
        StateName::DirectiveAttributeNameAfter => 2,
        StateName::DirectiveAttributeValueBefore => 3,
        StateName::DirectiveAttributeValueUnquoted => 2,
        StateName::DirectiveContainerStart => 12,
        StateName::DirectiveContainerSequenceOpen => 11,
        StateName::DirectiveContainerAfterName => 8,
        StateName::DirectiveContainerAfterLabel => 5,
        StateName::DirectiveContainerAfterAttributes => 2,
        StateName::DirectiveContainerCloseStart => 3,
        StateName::DirectiveContainerCloseSequence => 2,
        StateName::DirectiveLeafStart => 12,
        StateName::DirectiveLeafSequenceOpen => 11,
        StateName::DirectiveLeafAfterName => 8,
        StateName::DirectiveLeafAfterLabel => 5,
        StateName::DirectiveLeafAfterAttributes => 2,
        StateName::DirectiveTextStart => 12,
        StateName::DirectiveTextAfterMarker => 11,
        StateName::DirectiveTextAfterName => 8,
        StateName::DirectiveTextAfterLabel => 5,
        StateName::WikiLinkStart => 6,
        StateName::WikiEmbedStart => 6,
        StateName::WikiBefore => 5,
        StateName::WikiTargetStart => 4,
        StateName::WikiTarget => 3,
        StateName::WikiFragmentStart => 4,
        StateName::WikiFragment => 3,
        StateName::WikiAliasStart => 4,
        StateName::WikiAlias => 3,
        StateName::WikiClose => 2,
        _ => 1,
    }
}

pub open spec fn state_rank(s: State) -> int {
    match s {
        State::Next(name) => rank(name) + 1,
        State::Retry(name) => rank(name) + 1,
        _ => 0,
    }
}

pub open spec fn attempt_rank(a: Attempt) -> int {
    if state_rank(a.ok) < state_rank(a.nok) {
        state_rank(a.nok) + 1
    } else {
        state_rank(a.ok) + 1
    }
}

/// Whether the state is inside a directive label (after its `[`).
pub open spec fn in_label(s: State) -> bool {
    pending(s) == Some(StateName::DirectiveLabelInside) || pending(s) == Some(
        StateName::DirectiveLabelEscape,
    )
}

/// The configurations the machine passes through: at most one attempt, which
/// runs name, label, or attribute states and continues in a construct state;
/// counters bounded by the bytes they count.
pub open spec fn machine_inv(v: TokenizerView, s: State) -> bool {
    &&& v.wf()
    &&& v.attempts.len() <= 1
    &&& pending(s) == Some(StateName::WikiCloseAfter) ==> v.current.is_some()
    &&& (pending(s) == Some(StateName::DirectiveContainerSequenceOpen) || pending(s) == Some(
        StateName::DirectiveLeafSequenceOpen,
    )) ==> v.tokenize_state.size <= v.index
    &&& v.attempts.len() == 0 ==> v.tokenize_state.size_c <= v.index
    &&& v.attempts.len() == 1 ==> {
        let a = v.attempts[0];
        &&& attempt_wf(a, v.bytes)
        &&& a.index <= v.index
        &&& continuation_ok(a.ok)
        &&& continuation_ok(a.nok)
        &&& (pending(s) matches Some(name) ==> is_sub_state(name))
        &&& if in_label(s) {
            v.tokenize_state.size_c <= v.index - a.index
        } else {
            v.tokenize_state.size_c <= a.index
        }
    }
}

/// Go back to where an attempt started: its position, and the events it had.
pub open spec fn restore(v: TokenizerView, a: Attempt) -> TokenizerView {
    TokenizerView {
        index: a.index as int,
        previous: a.previous,
        current: a.current,
        events: if a.events_len <= v.events.len() {
            v.events.subrange(0, a.events_len as int)
        } else {
            v.events
        },
        ..v
    }
}

/// Settle the innermost attempt after its construct ended in `s`: keep what it
/// did and continue in its `ok` state, or undo it and continue in `nok`.
pub open spec fn settle(v: TokenizerView, s: State) -> (TokenizerView, State) {
    let a = v.attempts.last();
    let popped = TokenizerView { attempts: v.attempts.drop_last(), ..v };
    if s == State::Okay {
        (popped, a.ok)
    } else {
        (restore(popped, a), a.nok)
    }
}

/// The machine is done: the outermost construct ended.
pub open spec fn finished(v: TokenizerView, s: State) -> bool {
    pending(s).is_none() && v.attempts.len() == 0
}

/// One move of the machine.
pub open spec fn machine_step(v: TokenizerView, s: State) -> (TokenizerView, State) {
    match pending(s) {
        Some(name) => step(v, name),
        None => settle(v, s),
    }
}

pub open spec fn measure_0(v: TokenizerView, s: State) -> int {
    if v.attempts.len() == 0 {
        v.bytes.len() - v.index
    } else {
        v.bytes.len() - v.attempts[0].index
    }
}

pub open spec fn measure_1(v: TokenizerView, s: State) -> int {
    if v.attempts.len() == 0 {
        state_rank(s)
    } else {
        attempt_rank(v.attempts[0])
    }
}

pub open spec fn measure_2(v: TokenizerView, s: State) -> int {
    if v.attempts.len() == 0 {
        0
    } else {
        v.bytes.len() - v.index
    }
}

pub open spec fn measure_3(v: TokenizerView, s: State) -> int {
    if v.attempts.len() == 0 {
        0
    } else {
        state_rank(s)
    }
}

/// Whether the measure of `(v2, s2)` is below that of `(v, s)`, lexicographically.
pub open spec fn measure_lt(v2: TokenizerView, s2: State, v: TokenizerView, s: State) -> bool {
    ||| measure_0(v2, s2) < measure_0(v, s)
    ||| measure_0(v2, s2) == measure_0(v, s) && measure_1(v2, s2) < measure_1(v, s)
    ||| measure_0(v2, s2) == measure_0(v, s) && measure_1(v2, s2) == measure_1(v, s)
        && measure_2(v2, s2) < measure_2(v, s)
    ||| measure_0(v2, s2) == measure_0(v, s) && measure_1(v2, s2) == measure_1(v, s)
        && measure_2(v2, s2) == measure_2(v, s) && measure_3(v2, s2) < measure_3(v, s)
}

/// A machine step from `(v, s)` keeps the invariant, keeps the document and the
/// options, and lowers the measure.
pub open spec fn good_step(v: TokenizerView, s: State) -> bool {
    let (v2, s2) = machine_step(v, s);
    &&& machine_inv(v2, s2)
    &&& v2.bytes == v.bytes
    &&& v2.constructs == v.constructs
    &&& v2.label_starts == v.label_starts
    &&& measure_lt(v2, s2, v, s)
    &&& 0 <= measure_0(v2, s2) && 0 <= measure_1(v2, s2)
    &&& 0 <= measure_2(v2, s2) && 0 <= measure_3(v2, s2)
}

/// Every move of the machine is a good step.
#[verifier::spinoff_prover]
#[verifier::rlimit(60)]
pub proof fn lemma_machine_step(v: TokenizerView, s: State)
    requires
        machine_inv(v, s),
        !finished(v, s),
    ensures
        good_step(v, s),
{
    // One case per state, so that each state's step is unfolded on its own.
    match pending(s) {
        Some(name) => {
            match name {
                StateName::DirectiveNameStart => {},
                StateName::DirectiveNameInside => {},
                StateName::DirectiveLabelStart => {},
                StateName::DirectiveLabelInside => {},
                StateName::DirectiveLabelEscape => {},
                StateName::DirectiveAttributesStart => {},
                StateName::DirectiveAttributesBetween => {},
                StateName::DirectiveAttributeShortcutValue => {},
                StateName::DirectiveAttributeNameInside => {},
                StateName::DirectiveAttributeNameAfter => {},
                StateName::DirectiveAttributeValueBefore => {},
                StateName::DirectiveAttributeValueQuoted => {},
                StateName::DirectiveAttributeValueUnquoted => {},
                StateName::DirectiveContainerStart => {},
                StateName::DirectiveContainerSequenceOpen => {},
                StateName::DirectiveContainerAfterName => {},
                StateName::DirectiveContainerAfterLabel => {},
                StateName::DirectiveContainerAfterAttributes => {},
                StateName::DirectiveContainerOpenAfter => {},
                StateName::DirectiveContainerCloseStart => {},
                StateName::DirectiveContainerCloseSequence => {},
                StateName::DirectiveContainerCloseAfter => {},
                StateName::DirectiveLeafStart => {},
                StateName::DirectiveLeafSequenceOpen => {},
                StateName::DirectiveLeafAfterName => {},
                StateName::DirectiveLeafAfterLabel => {},
                StateName::DirectiveLeafAfterAttributes => {},
                StateName::DirectiveLeafEnd => {},
                StateName::DirectiveLeafNok => {},
                StateName::DirectiveTextStart => {},
                StateName::DirectiveTextAfterMarker => {},
                StateName::DirectiveTextAfterName => {},
                StateName::DirectiveTextAfterLabel => {},
                StateName::DirectiveTextAfterAttributes => {},
                StateName::DirectiveTextNok => {},
                StateName::WikiLinkStart => {},
                StateName::WikiEmbedStart => {},
                StateName::WikiBefore => {},
                StateName::WikiTargetStart => {},
                StateName::WikiTarget => {},
                StateName::WikiFragmentStart => {},
                StateName::WikiFragment => {},
                StateName::WikiAliasStart => {},
                StateName::WikiAlias => {},
                StateName::WikiClose => {},
                StateName::WikiCloseAfter => {},
            }
        },
        None => {},
    }
}

/// Where the machine ends when it starts in `(v, s)`.
pub open spec fn run(v: TokenizerView, s: State) -> (TokenizerView, State)
    decreases measure_0(v, s), measure_1(v, s), measure_2(v, s), measure_3(v, s)
    when machine_inv(v, s)
    via run_decreases
{
    if finished(v, s) {
        (v, s)
    } else {
        let (v2, s2) = machine_step(v, s);
        run(v2, s2)
    }
}

#[via_fn]
proof fn run_decreases(v: TokenizerView, s: State) {
    if !finished(v, s) {
        lemma_machine_step(v, s);
    }
}

/// The configurations the machine can start a construct in: no pending
/// attempt, and counters bounded by the position.
pub open spec fn can_start(v: TokenizerView, start: StateName) -> bool {
    machine_inv(v, State::Retry(start)) && v.attempts.len() == 0
}

/// Run the machine from the named state until the construct ends, settling the
/// attempts that its states start.
pub fn feed(tokenizer: &mut Tokenizer, start: StateName) -> (state: State)
    requires
        can_start(old(tokenizer)@, start),
    ensures
        (final(tokenizer)@, state) == run(old(tokenizer)@, State::Retry(start)),
        final(tokenizer)@.wf(),
        state == State::Okay || state == State::Nok,
        final(tokenizer)@.attempts.len() == 0,
        final(tokenizer)@.bytes == old(tokenizer)@.bytes,
        final(tokenizer)@.constructs == old(tokenizer)@.constructs,
        final(tokenizer)@.label_starts == old(tokenizer)@.label_starts,
{
    let mut state = State::Retry(start);
    loop
        invariant
            machine_inv(tokenizer@, state),
            run(tokenizer@, state) == run(old(tokenizer)@, State::Retry(start)),
            tokenizer@.bytes == old(tokenizer)@.bytes,
            tokenizer@.constructs == old(tokenizer)@.constructs,
            tokenizer@.label_starts == old(tokenizer)@.label_starts,
        decreases
            measure_0(tokenizer@, state),
            measure_1(tokenizer@, state),
            measure_2(tokenizer@, state),
            measure_3(tokenizer@, state),
    {
        proof {
            if !finished(tokenizer@, state) {
                lemma_machine_step(tokenizer@, state);
            }
        }
        match state {
            State::Next(name) => {
                state = call(tokenizer, name);
            },
            State::Retry(name) => {
                state = call(tokenizer, name);
            },
            _ => {
                if tokenizer.attempts.len() == 0 {
                    return state;
                }
                let attempt = tokenizer.attempts.pop().unwrap();
                if state == State::Okay {
                    state = attempt.ok;
                } else {
                    tokenizer.index = attempt.index;
                    tokenizer.previous = attempt.previous;
                    tokenizer.current = attempt.current;
                    tokenizer.events.truncate(attempt.events_len);
                    state = attempt.nok;
                }
            },
        }
    }
}

/// One machine step can be taken before running on.
pub proof fn lemma_run_step(v: TokenizerView, s: State)
    requires
        machine_inv(v, s),
        !finished(v, s),
    ensures
        run(v, s) == run(machine_step(v, s).0, machine_step(v, s).1),
        machine_inv(machine_step(v, s).0, machine_step(v, s).1),
{
    lemma_machine_step(v, s);
}

/// `Next` and `Retry` of a state run the same.
pub proof fn lemma_run_next(v: TokenizerView, name: StateName)
    requires
        machine_inv(v, State::Next(name)),
    ensures
        run(v, State::Next(name)) == run(v, State::Retry(name)),
        machine_inv(v, State::Retry(name)),
{
    lemma_run_step(v, State::Next(name));
    lemma_run_step(v, State::Retry(name));
}

/// A finished machine stays where it is.
pub proof fn lemma_run_done(v: TokenizerView, s: State)
    requires
        machine_inv(v, s),
        finished(v, s),
    ensures
        run(v, s) == (v, s),
{
}


/// The tokenizer with `a` as its only pending attempt.
pub open spec fn with_attempt(v: TokenizerView, a: Attempt) -> TokenizerView {
    TokenizerView { attempts: seq![a], ..v }
}

/// A step of a name, label, or attribute state leaves the attempts alone.
#[verifier::spinoff_prover]
#[verifier::rlimit(60)]
pub proof fn lemma_sub_step_attempts(v: TokenizerView, name: StateName, a: Attempt)
    requires
        is_sub_state(name),
    ensures
        step(with_attempt(v, a), name) == (
            with_attempt(step(v, name).0, a),
            step(v, name).1,
        ),
        step(v, name).0.attempts == v.attempts,
        step(v, name).0.events.len() >= v.events.len(),
        step(v, name).0.events.subrange(0, v.events.len() as int) == v.events,
{
    match name {
        StateName::DirectiveNameStart => {},
        StateName::DirectiveNameInside => {},
        StateName::DirectiveLabelStart => {},
        StateName::DirectiveLabelInside => {},
        StateName::DirectiveLabelEscape => {},
        StateName::DirectiveAttributesStart => {},
        StateName::DirectiveAttributesBetween => {},
        StateName::DirectiveAttributeShortcutValue => {},
        StateName::DirectiveAttributeNameInside => {},
        StateName::DirectiveAttributeNameAfter => {},
        StateName::DirectiveAttributeValueBefore => {},
        StateName::DirectiveAttributeValueQuoted => {},
        StateName::DirectiveAttributeValueUnquoted => {},
        _ => {},
    }
}

/// Running name, label, or attribute states under an attempt is running them
/// alone and then settling the attempt on how they ended. Run alone, they end
/// with no attempt pending, in the same document, with the events they found
/// kept in front of the ones they add.
pub proof fn lemma_isolated(v: TokenizerView, s: State, a: Attempt)
    requires
        machine_inv(v, s),
        machine_inv(with_attempt(v, a), s),
        v.attempts.len() == 0,
    ensures
        machine_inv(with_attempt(run(v, s).0, a), run(v, s).1),
        run(with_attempt(v, a), s) == run(
            settle(with_attempt(run(v, s).0, a), run(v, s).1).0,
            settle(with_attempt(run(v, s).0, a), run(v, s).1).1,
        ),
        finished(run(v, s).0, run(v, s).1),
        run(v, s).0.bytes == v.bytes,
        run(v, s).0.constructs == v.constructs,
        run(v, s).0.label_starts == v.label_starts,
        run(v, s).0.events.len() >= v.events.len(),
        run(v, s).0.events.subrange(0, v.events.len() as int) == v.events,
    decreases v.bytes.len() - v.index, state_rank(s),
{
    let va = with_attempt(v, a);
    match pending(s) {
        Some(name) => {
            lemma_sub_step_attempts(v, name, a);
            lemma_machine_step(v, s);
            lemma_machine_step(va, s);
            let (v2, s2) = step(v, name);
            lemma_isolated(v2, s2, a);
            let r = run(v2, s2);
            assert(r.0.events.subrange(0, v.events.len() as int) =~= r.0.events.subrange(
                0,
                v2.events.len() as int,
            ).subrange(0, v.events.len() as int));
        },
        None => {
            lemma_machine_step(va, s);
        },
    }
}

} // verus!
