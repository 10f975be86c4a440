//! What the text, leaf, and container directive constructs recognize, stated
//! over the document bytes, and the proofs that they recognize exactly it.

use vstd::prelude::*;
use crate::construct::directive_text::{backslashes_before, no_colon_before};
use crate::directive_syntax::{
    attributes_events, directive_attributes, directive_label, directive_name, label_close_events,
    label_done, label_events, law_directive_attributes, law_directive_label, law_directive_name,
};
use crate::event::{event, unit, Content, Event, EventKind, Name};
use crate::machine::{
    can_start, lemma_isolated, lemma_run_done, lemma_run_next, lemma_run_step, machine_inv,
    machine_step, run, settle, with_attempt,
};
use crate::state::{State, StateName};
use crate::tokenizer::{advance, byte_at, Attempt, TokenizeState, TokenizerView};

verus! {

/// The attempt that `x.attempt(ok, nok)` pushes.
pub open spec fn attempt_at(x: TokenizerView, ok: State, nok: State) -> Attempt {
    Attempt {
        ok,
        nok,
        index: x.index as usize,
        previous: x.previous,
        current: x.current,
        events_len: x.events.len() as usize,
    }
}

/// Running a sub-parser under an attempt that `x` pushes: the sub-parser runs
/// alone from `x`, and the attempt is settled on how it ended.
proof fn lemma_attempt_sub(x: TokenizerView, ok: State, nok: State, sub: StateName) -> (w: (
    TokenizerView,
    State,
))
    requires
        x.attempts.len() == 0,
        machine_inv(x.attempt(ok, nok), State::Retry(sub)),
        sub == StateName::DirectiveNameStart || sub == StateName::DirectiveLabelStart || sub
            == StateName::DirectiveAttributesStart,
    ensures
        machine_inv(x, State::Retry(sub)),
        w == run(x, State::Retry(sub)),
        w.0.attempts.len() == 0,
        w.0.bytes == x.bytes,
        w.0.constructs == x.constructs,
        w.0.label_starts == x.label_starts,
        w.0.events.len() >= x.events.len(),
        w.0.events.subrange(0, x.events.len() as int) == x.events,
        run(x.attempt(ok, nok), State::Retry(sub)) == run(
            settle(with_attempt(w.0, attempt_at(x, ok, nok)), w.1).0,
            settle(with_attempt(w.0, attempt_at(x, ok, nok)), w.1).1,
        ),
        machine_inv(
            settle(with_attempt(w.0, attempt_at(x, ok, nok)), w.1).0,
            settle(with_attempt(w.0, attempt_at(x, ok, nok)), w.1).1,
        ),
{
    let a = attempt_at(x, ok, nok);
    let s = State::Retry(sub);
    assert(x.attempt(ok, nok) == with_attempt(x, a)) by {
        assert(x.attempts.push(a) =~= seq![a]);
    }
    lemma_isolated(x, s, a);
    let w = run(x, s);
    let wa = with_attempt(w.0, a);
    lemma_run_step(wa, w.1);
    assert(machine_step(wa, w.1) == settle(wa, w.1));
    w
}

/// Attempting a name: on a match the construct goes on in `ok` after the
/// name's unit; otherwise in `nok`, back where the name was to start.
proof fn lemma_attempt_name(x: TokenizerView, ok: StateName, nok: StateName) -> (y: TokenizerView)
    requires
        x.attempts.len() == 0,
        x.events.len() <= usize::MAX,
        machine_inv(
            x.attempt(State::Next(ok), State::Next(nok)),
            State::Retry(StateName::DirectiveNameStart),
        ),
    ensures
        ({
            let go = if directive_name(x.bytes, x.index) is Some {
                ok
            } else {
                nok
            };
            &&& run(
                x.attempt(State::Next(ok), State::Next(nok)),
                State::Retry(StateName::DirectiveNameStart),
            ) == run(y, State::Next(go))
            &&& machine_inv(y, State::Next(go))
        }),
        y.attempts.len() == 0,
        y.bytes == x.bytes,
        y.constructs == x.constructs,
        y.label_starts == x.label_starts,
        match directive_name(x.bytes, x.index) {
            Some(e) => y.index == e && y.events == x.events + unit(Name::DirectiveName, x.index, e),
            None => y.index == x.index && y.events == x.events,
        },
{
    let w = lemma_attempt_sub(x, State::Next(ok), State::Next(nok), StateName::DirectiveNameStart);
    law_directive_name(x);
    let a = attempt_at(x, State::Next(ok), State::Next(nok));
    let y = settle(with_attempt(w.0, a), w.1).0;
    assert(seq![a].drop_last() =~= w.0.attempts);
    if directive_name(x.bytes, x.index) is Some {
        assert(y == w.0);
    } else {
        assert(y.events =~= x.events);
    }
    y
}

/// Attempting a label: the construct goes on in `k`, after the label and its
/// events when one is there, else where the label was to start.
proof fn lemma_attempt_label(x: TokenizerView, k: StateName) -> (y: TokenizerView)
    requires
        x.attempts.len() == 0,
        x.events.len() <= usize::MAX,
        machine_inv(
            x.attempt(State::Next(k), State::Next(k)),
            State::Retry(StateName::DirectiveLabelStart),
        ),
    ensures
        run(
            x.attempt(State::Next(k), State::Next(k)),
            State::Retry(StateName::DirectiveLabelStart),
        ) == run(y, State::Next(k)),
        machine_inv(y, State::Next(k)),
        y.attempts.len() == 0,
        y.bytes == x.bytes,
        y.constructs == x.constructs,
        y.label_starts == x.label_starts,
        match directive_label(x.bytes, x.index) {
            Some(e) => y.index == e && y.events == x.events + label_events(x.index, e),
            None => y.index == x.index && y.events == x.events,
        },
{
    let w = lemma_attempt_sub(x, State::Next(k), State::Next(k), StateName::DirectiveLabelStart);
    law_directive_label(x);
    let a = attempt_at(x, State::Next(k), State::Next(k));
    let y = settle(with_attempt(w.0, a), w.1).0;
    assert(seq![a].drop_last() =~= w.0.attempts);
    if let Some(e) = directive_label(x.bytes, x.index) {
        assert(y == w.0);
        assert(w.0 == label_done(x, e, label_events(x.index, e)));
    } else {
        assert(y.events =~= x.events);
    }
    y
}

/// Attempting an attribute list: the construct goes on in `k`, after the list
/// and its events when one is there, else where it was to start.
proof fn lemma_attempt_attributes(x: TokenizerView, k: StateName) -> (y: TokenizerView)
    requires
        x.attempts.len() == 0,
        x.events.len() <= usize::MAX,
        machine_inv(
            x.attempt(State::Next(k), State::Next(k)),
            State::Retry(StateName::DirectiveAttributesStart),
        ),
    ensures
        run(
            x.attempt(State::Next(k), State::Next(k)),
            State::Retry(StateName::DirectiveAttributesStart),
        ) == run(y, State::Next(k)),
        machine_inv(y, State::Next(k)),
        y.attempts.len() == 0,
        y.bytes == x.bytes,
        y.constructs == x.constructs,
        y.label_starts == x.label_starts,
        match directive_attributes(x.bytes, x.index) {
            Some(e) => y.index == e && y.events == x.events + attributes_events(x.bytes, x.index),
            None => y.index == x.index && y.events == x.events,
        },
{
    let w = lemma_attempt_sub(
        x,
        State::Next(k),
        State::Next(k),
        StateName::DirectiveAttributesStart,
    );
    law_directive_attributes(x);
    let a = attempt_at(x, State::Next(k), State::Next(k));
    let y = settle(with_attempt(w.0, a), w.1).0;
    assert(seq![a].drop_last() =~= w.0.attempts);
    if directive_attributes(x.bytes, x.index) is Some {
        assert(y =~= w.0);
    } else {
        assert(y.events =~= x.events);
    }
    y
}

/// Where an optional part that may start at `i` ends: after it when it is
/// there, else at `i`.
pub open spec fn optional_end(part: Option<int>, i: int) -> int {
    match part {
        Some(e) => e,
        None => i,
    }
}

/// Where the optional label and the optional attribute list that may follow a
/// name ending at `n` end.
pub open spec fn directive_rest(bytes: Seq<u8>, n: int) -> int {
    let l = optional_end(directive_label(bytes, n), n);
    optional_end(directive_attributes(bytes, l), l)
}

/// The events of the label that may start at `n`.
pub open spec fn label_part(bytes: Seq<u8>, n: int) -> Seq<Event> {
    match directive_label(bytes, n) {
        Some(l) => label_events(n, l),
        None => Seq::empty(),
    }
}

/// The events of the attribute list that may start at `l`.
pub open spec fn attributes_part(bytes: Seq<u8>, l: int) -> Seq<Event> {
    match directive_attributes(bytes, l) {
        Some(_) => attributes_events(bytes, l),
        None => Seq::empty(),
    }
}

/// The events of the optional label and attribute list after a name that
/// ends at `n`.
pub open spec fn rest_events(bytes: Seq<u8>, n: int) -> Seq<Event> {
    label_part(bytes, n) + attributes_part(bytes, optional_end(directive_label(bytes, n), n))
}

/// The events of a name that may start at `c`, and of the label and the
/// attribute list that may follow it.
pub open spec fn name_events(bytes: Seq<u8>, c: int) -> Seq<Event> {
    match directive_name(bytes, c) {
        Some(n) => unit(Name::DirectiveName, c, n) + rest_events(bytes, n),
        None => Seq::empty(),
    }
}

/// How a directive construct started at `v` ended in `r`, when its syntax
/// ends at `end`: it matched, stopped at `end` with no attempt pending, and
/// emitted `body` and then the exit of `name` at `end`; or it failed.
pub open spec fn directive_outcome(
    v: TokenizerView,
    r: (TokenizerView, State),
    end: Option<int>,
    body: Seq<Event>,
    name: Name,
) -> bool {
    match end {
        Some(e) => {
            &&& r.1 == State::Okay
            &&& r.0.index == e
            &&& r.0.attempts.len() == 0
            &&& r.0.events == v.events + body + seq![event(EventKind::Exit, name, e)]
        },
        None => r.1 == State::Nok,
    }
}

/// The end of a text directive whose colon is at `i`, after the byte
/// `previous`, if one is there: a colon not after an unescaped colon (one
/// with an even number of backslashes before it), a name not followed by a
/// colon, an optional label, and an optional attribute list.
pub open spec fn text_directive(bytes: Seq<u8>, i: int, previous: Option<u8>) -> Option<int> {
    if byte_at(bytes, i) == Some(0x3Au8) && (previous != Some(0x3Au8) || (i > 0
        && backslashes_before(bytes, i - 1) % 2 == 1)) {
        match directive_name(bytes, i + 1) {
            Some(n) => if byte_at(bytes, n) == Some(0x3Au8) {
                None
            } else {
                Some(directive_rest(bytes, n))
            },
            None => None,
        }
    } else {
        None
    }
}

/// The events of a text directive at `i` before its exit: its marker, its
/// name, and its label and attribute list when it has them.
pub open spec fn text_events(bytes: Seq<u8>, i: int) -> Seq<Event> {
    seq![
        event(EventKind::Enter, Name::DirectiveText, i),
        event(EventKind::Enter, Name::DirectiveTextMarker, i),
        event(EventKind::Exit, Name::DirectiveTextMarker, i + 1),
    ] + name_events(bytes, i + 1)
}

/// After a name that ended at `y1.index`: the optional label and attribute
/// list are attempted in turn, and the construct goes on in `k2` after them.
proof fn lemma_rest(y1: TokenizerView, k1: StateName, k2: StateName) -> (y3: TokenizerView)
    requires
        y1.attempts.len() == 0,
        y1.events.len() + 8 <= usize::MAX,
        machine_inv(
            y1.attempt(State::Next(k1), State::Next(k1)),
            State::Retry(StateName::DirectiveLabelStart),
        ),
        forall|y2: TokenizerView|
            machine_inv(y2, State::Next(k1)) && y2.attempts.len() == 0 ==> #[trigger] machine_step(
                y2,
                State::Next(k1),
            ) == (
                y2.attempt(State::Next(k2), State::Next(k2)),
                State::Retry(StateName::DirectiveAttributesStart),
            ),
    ensures
        run(
            y1.attempt(State::Next(k1), State::Next(k1)),
            State::Retry(StateName::DirectiveLabelStart),
        ) == run(y3, State::Next(k2)),
        machine_inv(y3, State::Next(k2)),
        y3.attempts.len() == 0,
        y3.bytes == y1.bytes,
        y3.constructs == y1.constructs,
        y3.label_starts == y1.label_starts,
        y3.index == directive_rest(y1.bytes, y1.index),
        y3.events == y1.events + rest_events(y1.bytes, y1.index),
{
    let y2 = lemma_attempt_label(y1, k1);
    lemma_run_step(y2, State::Next(k1));
    let head = label_part(y1.bytes, y1.index);
    assert(y2.events =~= y1.events + head);
    if let Some(l) = directive_label(y1.bytes, y1.index) {
        assert(unit(Name::DirectiveLabelMarker, l - 1, l).len() == 2);
        assert(label_close_events(l - 1).len() == 4);
        assert(unit(Name::DirectiveLabelMarker, y1.index, y1.index + 1).len() == 2);
        let i = y1.index;
        let a1 = seq![event(EventKind::Enter, Name::DirectiveLabel, i)];
        let a2 = seq![
            Event {
                kind: EventKind::Enter,
                name: Name::DirectiveLabelString,
                index: (i + 1) as usize,
                link: Some(Content::Text),
            },
        ];
        assert(a1.len() == 1 && a2.len() == 1);
        if l == i + 2 {
            let a3 = seq![event(EventKind::Exit, Name::DirectiveLabel, i + 2)];
            assert(a3.len() == 1);
            assert(unit(Name::DirectiveLabelMarker, i + 1, i + 2).len() == 2);
            assert(label_events(i, l) == a1 + unit(Name::DirectiveLabelMarker, i, i + 1) + unit(
                Name::DirectiveLabelMarker,
                i + 1,
                i + 2,
            ) + a3);
        } else {
            assert(label_events(i, l) == a1 + unit(Name::DirectiveLabelMarker, i, i + 1) + a2
                + label_close_events(l - 1));
        }
        assert(label_events(i, l).len() <= 8);
    }
    let y3 = lemma_attempt_attributes(y2, k2);
    assert(y3.events =~= y1.events + rest_events(y1.bytes, y1.index));
    y3
}

/// Law: the text directive construct recognizes exactly [`text_directive`]
/// when directives are on, and nothing when they are off. Started at the
/// colon with no attempt pending, it matches where the syntax is there, stops
/// at its end, and emits exactly [`text_events`] and then the directive's
/// exit.
pub proof fn law_text_directive(v: TokenizerView)
    requires
        can_start(v, StateName::DirectiveTextStart),
        v.events.len() + 13 <= usize::MAX,
    ensures
        directive_outcome(
            v,
            run(v, State::Retry(StateName::DirectiveTextStart)),
            if v.constructs.directive {
                text_directive(v.bytes, v.index, v.previous)
            } else {
                None
            },
            text_events(v.bytes, v.index),
            Name::DirectiveText,
        ),
{
    let s0 = State::Retry(StateName::DirectiveTextStart);
    let i = v.index;
    lemma_run_step(v, s0);
    if v.constructs.directive && v.current == Some(0x3Au8) && no_colon_before(v) {
        let v1 = v.enter(Name::DirectiveText).enter(Name::DirectiveTextMarker).consume();
        let s1 = State::Next(StateName::DirectiveTextAfterMarker);
        lemma_run_step(v1, s1);
        let x1 = v1.exit(Name::DirectiveTextMarker);
        let y1 = lemma_attempt_name(
            x1,
            StateName::DirectiveTextAfterName,
            StateName::DirectiveTextNok,
        );
        if let Some(n) = directive_name(v.bytes, i + 1) {
            let s2 = State::Next(StateName::DirectiveTextAfterName);
            lemma_run_step(y1, s2);
            if y1.current == Some(0x3Au8) {
                lemma_run_done(y1, State::Nok);
            } else {
                assert forall|y2: TokenizerView|
                    machine_inv(y2, State::Next(StateName::DirectiveTextAfterLabel))
                        && y2.attempts.len() == 0 implies #[trigger] machine_step(
                    y2,
                    State::Next(StateName::DirectiveTextAfterLabel),
                ) == (
                    y2.attempt(
                        State::Next(StateName::DirectiveTextAfterAttributes),
                        State::Next(StateName::DirectiveTextAfterAttributes),
                    ),
                    State::Retry(StateName::DirectiveAttributesStart),
                ) by {}
                let y3 = lemma_rest(
                    y1,
                    StateName::DirectiveTextAfterLabel,
                    StateName::DirectiveTextAfterAttributes,
                );
                let s4 = State::Next(StateName::DirectiveTextAfterAttributes);
                lemma_run_step(y3, s4);
                let y4 = y3.exit(Name::DirectiveText);
                lemma_run_done(y4, State::Okay);
                assert(y4.events =~= v.events + text_events(v.bytes, i) + seq![
                    event(EventKind::Exit, Name::DirectiveText, y3.index),
                ]);
            }
        } else {
            lemma_run_step(y1, State::Next(StateName::DirectiveTextNok));
            lemma_run_done(y1, State::Nok);
        }
    } else {
        lemma_run_done(v, State::Nok);
    }
}

/// The first index at or after `j` whose byte is not a colon.
pub open spec fn colons_end(bytes: Seq<u8>, j: int) -> int
    decreases bytes.len() - j,
{
    if 0 <= j < bytes.len() && bytes[j] == 0x3A {
        colons_end(bytes, j + 1)
    } else {
        j
    }
}

/// The first index at or after `j` whose byte is not a space or a tab.
pub open spec fn space_end(bytes: Seq<u8>, j: int) -> int
    decreases bytes.len() - j,
{
    if 0 <= j < bytes.len() && (bytes[j] == 0x09 || bytes[j] == 0x20) {
        space_end(bytes, j + 1)
    } else {
        j
    }
}

/// Whether a line ends at `j`: a line feed, a carriage return, or the end of
/// the document.
pub open spec fn at_line_end(bytes: Seq<u8>, j: int) -> bool {
    byte_at(bytes, j) == Some(0x0Au8) || byte_at(bytes, j) == Some(0x0Du8) || j == bytes.len()
}

/// The tokenizer moved past the colons at its position, counting them in
/// `size`.
pub open spec fn past_colons(x: TokenizerView) -> TokenizerView {
    let c = colons_end(x.bytes, x.index);
    TokenizerView {
        tokenize_state: TokenizeState {
            size: (x.tokenize_state.size + (c - x.index)) as usize,
            ..x.tokenize_state
        },
        ..advance(x, c)
    }
}

/// A fence's colon sequence consumes every colon at its position.
proof fn lemma_colons(x: TokenizerView, st: StateName)
    requires
        st == StateName::DirectiveLeafSequenceOpen || st
            == StateName::DirectiveContainerSequenceOpen,
        machine_inv(x, State::Retry(st)),
        x.attempts.len() == 0,
    ensures
        run(x, State::Retry(st)) == run(past_colons(x), State::Retry(st)),
        machine_inv(past_colons(x), State::Retry(st)),
        x.index <= colons_end(x.bytes, x.index) <= x.bytes.len(),
        past_colons(x).current != Some(0x3Au8),
    decreases x.bytes.len() - x.index,
{
    let s = State::Retry(st);
    if x.index < x.bytes.len() && x.bytes[x.index] == 0x3A {
        lemma_run_step(x, s);
        let x1 = x.set_size((x.tokenize_state.size + 1) as usize).consume();
        assert(machine_step(x, s) == (x1, State::Next(st)));
        lemma_run_next(x1, st);
        lemma_colons(x1, st);
        assert(past_colons(x1) == past_colons(x));
    } else {
        assert(past_colons(x) == x);
    }
}

/// The end of a leaf directive line: spaces and tabs, then the end of the line.
proof fn lemma_leaf_end(x: TokenizerView)
    requires
        machine_inv(x, State::Retry(StateName::DirectiveLeafEnd)),
        x.attempts.len() == 0,
    ensures
        ({
            let s = space_end(x.bytes, x.index);
            run(x, State::Retry(StateName::DirectiveLeafEnd)) == if at_line_end(x.bytes, s) {
                (advance(x, s).exit(Name::DirectiveLeaf), State::Okay)
            } else {
                (advance(x, s), State::Nok)
            }
        }),
        x.index <= space_end(x.bytes, x.index) <= x.bytes.len(),
    decreases x.bytes.len() - x.index,
{
    let st = State::Retry(StateName::DirectiveLeafEnd);
    let j = x.index;
    lemma_run_step(x, st);
    if j < x.bytes.len() && (x.bytes[j] == 0x09 || x.bytes[j] == 0x20) {
        let x1 = x.consume();
        assert(machine_step(x, st) == (x1, State::Next(StateName::DirectiveLeafEnd)));
        lemma_run_next(x1, StateName::DirectiveLeafEnd);
        lemma_leaf_end(x1);
        let s = space_end(x.bytes, j);
        assert(advance(x1, s) == advance(x, s));
    } else {
        assert(advance(x, j) == x);
        if at_line_end(x.bytes, j) {
            lemma_run_done(x.exit(Name::DirectiveLeaf), State::Okay);
        } else {
            lemma_run_done(x, State::Nok);
        }
    }
}

/// The end of a container fence line: spaces and tabs, then the end of the
/// line.
proof fn lemma_fence_end(x: TokenizerView, st: StateName)
    requires
        st == StateName::DirectiveContainerOpenAfter || st
            == StateName::DirectiveContainerCloseAfter,
        machine_inv(x, State::Retry(st)),
        x.attempts.len() == 0,
    ensures
        ({
            let s = space_end(x.bytes, x.index);
            run(x, State::Retry(st)) == if at_line_end(x.bytes, s) {
                (advance(x, s).exit(Name::DirectiveContainerFence).set_size(0), State::Okay)
            } else {
                (advance(x, s).set_size(0), State::Nok)
            }
        }),
        x.index <= space_end(x.bytes, x.index) <= x.bytes.len(),
    decreases x.bytes.len() - x.index,
{
    let sr = State::Retry(st);
    let j = x.index;
    lemma_run_step(x, sr);
    if j < x.bytes.len() && (x.bytes[j] == 0x09 || x.bytes[j] == 0x20) {
        let x1 = x.consume();
        assert(machine_step(x, sr) == (x1, State::Next(st)));
        lemma_run_next(x1, st);
        lemma_fence_end(x1, st);
        let s = space_end(x.bytes, j);
        assert(advance(x1, s) == advance(x, s));
    } else {
        assert(advance(x, j) == x);
        if at_line_end(x.bytes, j) {
            lemma_run_done(x.exit(Name::DirectiveContainerFence).set_size(0), State::Okay);
        } else {
            lemma_run_done(x.set_size(0), State::Nok);
        }
    }
}

/// The end of a leaf directive that starts at `i`, if one is there: exactly
/// two colons, a name, an optional label, an optional attribute list, then
/// spaces and tabs up to the end of the line.
pub open spec fn leaf_directive(bytes: Seq<u8>, i: int) -> Option<int> {
    let c = colons_end(bytes, i);
    if c - i == 2 {
        match directive_name(bytes, c) {
            Some(n) => {
                let s = space_end(bytes, directive_rest(bytes, n));
                if at_line_end(bytes, s) {
                    Some(s)
                } else {
                    None
                }
            },
            None => None,
        }
    } else {
        None
    }
}

/// The events of a leaf directive at `i` before its exit: its colon
/// sequence, its name, and its label and attribute list when it has them.
pub open spec fn leaf_events(bytes: Seq<u8>, i: int) -> Seq<Event> {
    let c = colons_end(bytes, i);
    seq![
        event(EventKind::Enter, Name::DirectiveLeaf, i),
        event(EventKind::Enter, Name::DirectiveLeafSequence, i),
        event(EventKind::Exit, Name::DirectiveLeafSequence, c),
    ] + name_events(bytes, c)
}

/// Law: the leaf directive construct recognizes exactly [`leaf_directive`]
/// when directives are on, and nothing when they are off. Started at the
/// first colon with no attempt pending, it matches where the syntax is there,
/// stops at the end of the line, and emits exactly [`leaf_events`] and then
/// the directive's exit.
pub proof fn law_leaf_directive(v: TokenizerView)
    requires
        can_start(v, StateName::DirectiveLeafStart),
        v.events.len() + 13 <= usize::MAX,
    ensures
        directive_outcome(
            v,
            run(v, State::Retry(StateName::DirectiveLeafStart)),
            if v.constructs.directive {
                leaf_directive(v.bytes, v.index)
            } else {
                None
            },
            leaf_events(v.bytes, v.index),
            Name::DirectiveLeaf,
        ),
{
    let s0 = State::Retry(StateName::DirectiveLeafStart);
    let i = v.index;
    let st = StateName::DirectiveLeafSequenceOpen;
    lemma_run_step(v, s0);
    if v.constructs.directive && v.current == Some(0x3Au8) {
        let v1 = v.set_size(0).enter(Name::DirectiveLeaf).enter(Name::DirectiveLeafSequence);
        lemma_colons(v1, st);
        let z = past_colons(v1);
        let c = colons_end(v.bytes, i);
        lemma_run_step(z, State::Retry(st));
        if c - i == 2 {
            let x1 = z.set_size(0).exit(Name::DirectiveLeafSequence);
            let y1 = lemma_attempt_name(
                x1,
                StateName::DirectiveLeafAfterName,
                StateName::DirectiveLeafNok,
            );
            if let Some(n) = directive_name(v.bytes, c) {
                lemma_run_step(y1, State::Next(StateName::DirectiveLeafAfterName));
                assert forall|y2: TokenizerView|
                    machine_inv(y2, State::Next(StateName::DirectiveLeafAfterLabel))
                        && y2.attempts.len() == 0 implies #[trigger] machine_step(
                    y2,
                    State::Next(StateName::DirectiveLeafAfterLabel),
                ) == (
                    y2.attempt(
                        State::Next(StateName::DirectiveLeafAfterAttributes),
                        State::Next(StateName::DirectiveLeafAfterAttributes),
                    ),
                    State::Retry(StateName::DirectiveAttributesStart),
                ) by {}
                let y3 = lemma_rest(
                    y1,
                    StateName::DirectiveLeafAfterLabel,
                    StateName::DirectiveLeafAfterAttributes,
                );
                lemma_run_step(y3, State::Next(StateName::DirectiveLeafAfterAttributes));
                lemma_leaf_end(y3);
                let t = space_end(v.bytes, y3.index);
                if at_line_end(v.bytes, t) {
                    let y4 = advance(y3, t).exit(Name::DirectiveLeaf);
                    assert(y4.events =~= v.events + leaf_events(v.bytes, i) + seq![
                        event(EventKind::Exit, Name::DirectiveLeaf, t),
                    ]);
                }
            } else {
                lemma_run_step(y1, State::Next(StateName::DirectiveLeafNok));
                lemma_run_done(y1, State::Nok);
            }
        } else {
            lemma_run_done(z.set_size(0), State::Nok);
        }
    } else {
        lemma_run_done(v, State::Nok);
    }
}

/// The end of a container directive fence that starts at `i`, if one is
/// there: three or more colons; then, when a name follows, the name, an
/// optional label, and an optional attribute list (an opening fence), else
/// nothing more (a closing fence); then spaces and tabs up to the end of the
/// line.
pub open spec fn container_fence(bytes: Seq<u8>, i: int) -> Option<int> {
    let c = colons_end(bytes, i);
    if c - i >= 3 {
        let t = match directive_name(bytes, c) {
            Some(n) => directive_rest(bytes, n),
            None => c,
        };
        let s = space_end(bytes, t);
        if at_line_end(bytes, s) {
            Some(s)
        } else {
            None
        }
    } else {
        None
    }
}

/// The events of a container fence at `i` before its exit: its colon
/// sequence, and its name, label, and attribute list when it has them.
pub open spec fn fence_events(bytes: Seq<u8>, i: int) -> Seq<Event> {
    let c = colons_end(bytes, i);
    seq![
        event(EventKind::Enter, Name::DirectiveContainerFence, i),
        event(EventKind::Enter, Name::DirectiveContainerSequence, i),
        event(EventKind::Exit, Name::DirectiveContainerSequence, c),
    ] + name_events(bytes, c)
}

/// Law: the container fence construct recognizes exactly [`container_fence`]
/// when directives are on, and nothing when they are off. Started at the
/// first colon with no attempt pending, it matches where an opening or a
/// closing fence is there, stops at the end of the line, and emits exactly
/// [`fence_events`] and then the fence's exit.
pub proof fn law_container_fence(v: TokenizerView)
    requires
        can_start(v, StateName::DirectiveContainerStart),
        v.events.len() + 13 <= usize::MAX,
    ensures
        directive_outcome(
            v,
            run(v, State::Retry(StateName::DirectiveContainerStart)),
            if v.constructs.directive {
                container_fence(v.bytes, v.index)
            } else {
                None
            },
            fence_events(v.bytes, v.index),
            Name::DirectiveContainerFence,
        ),
{
    let s0 = State::Retry(StateName::DirectiveContainerStart);
    let i = v.index;
    let st = StateName::DirectiveContainerSequenceOpen;
    lemma_run_step(v, s0);
    if v.constructs.directive && v.current == Some(0x3Au8) {
        let v1 = v.set_size(0).enter(Name::DirectiveContainerFence).enter(
            Name::DirectiveContainerSequence,
        );
        lemma_colons(v1, st);
        let z = past_colons(v1);
        let c = colons_end(v.bytes, i);
        lemma_run_step(z, State::Retry(st));
        if c - i >= 3 {
            let x1 = z.exit(Name::DirectiveContainerSequence);
            let y1 = lemma_attempt_name(
                x1,
                StateName::DirectiveContainerAfterName,
                StateName::DirectiveContainerCloseStart,
            );
            let body = fence_events(v.bytes, i);
            if let Some(n) = directive_name(v.bytes, c) {
                lemma_run_step(y1, State::Next(StateName::DirectiveContainerAfterName));
                assert forall|y2: TokenizerView|
                    machine_inv(y2, State::Next(StateName::DirectiveContainerAfterLabel))
                        && y2.attempts.len() == 0 implies #[trigger] machine_step(
                    y2,
                    State::Next(StateName::DirectiveContainerAfterLabel),
                ) == (
                    y2.attempt(
                        State::Next(StateName::DirectiveContainerAfterAttributes),
                        State::Next(StateName::DirectiveContainerAfterAttributes),
                    ),
                    State::Retry(StateName::DirectiveAttributesStart),
                ) by {}
                let y3 = lemma_rest(
                    y1,
                    StateName::DirectiveContainerAfterLabel,
                    StateName::DirectiveContainerAfterAttributes,
                );
                lemma_run_step(y3, State::Next(StateName::DirectiveContainerAfterAttributes));
                lemma_fence_end(y3, StateName::DirectiveContainerOpenAfter);
                let t = space_end(v.bytes, y3.index);
                if at_line_end(v.bytes, t) {
                    let y4 = advance(y3, t).exit(Name::DirectiveContainerFence).set_size(0);
                    assert(y4.events =~= v.events + body + seq![
                        event(EventKind::Exit, Name::DirectiveContainerFence, t),
                    ]);
                }
            } else {
                let sc = State::Next(StateName::DirectiveContainerCloseStart);
                lemma_run_step(y1, sc);
                lemma_run_step(y1, State::Retry(StateName::DirectiveContainerCloseSequence));
                lemma_fence_end(y1, StateName::DirectiveContainerCloseAfter);
                let t = space_end(v.bytes, c);
                if at_line_end(v.bytes, t) {
                    let y4 = advance(y1, t).exit(Name::DirectiveContainerFence).set_size(0);
                    assert(y4.events =~= v.events + body + seq![
                        event(EventKind::Exit, Name::DirectiveContainerFence, t),
                    ]);
                }
            }
        } else {
            lemma_run_done(z.set_size(0), State::Nok);
        }
    } else {
        lemma_run_done(v, State::Nok);
    }
}

} // verus!
