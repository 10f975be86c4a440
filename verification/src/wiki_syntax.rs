//! The syntax that the wiki construct recognizes, stated directly over the
//! document bytes, and the proof that the construct recognizes exactly it.

use vstd::prelude::*;
use crate::construct::wiki::{wiki_allowed, wiki_reset};
use crate::event::{event, unit, Event, EventKind, Name};
use crate::machine::{
    can_start, feed, finished, lemma_run_done, lemma_run_next, lemma_run_step, machine_inv,
    machine_step, run,
};
use crate::state::{State, StateName};
use crate::tokenizer::{advance, byte_at, Constructs, TokenizeState, Tokenizer, TokenizerView};

verus! {

/// The three segments of a wiki body.
#[derive(Clone, Copy, Debug, PartialEq, Eq, Structural)]
pub enum Segment {
    Target,
    Fragment,
    Alias,
}

/// Bytes that end a segment: a line ending (line feed or carriage return) or
/// a bracket ends any segment, `|` ends a target or a fragment, and `#` ends
/// a target.
pub open spec fn ends_segment(segment: Segment, b: u8) -> bool {
    ||| b == 0x0A || b == 0x0D
    ||| b == 0x5B
    ||| b == 0x5D
    ||| (b == 0x7C && segment != Segment::Alias)
    ||| (b == 0x23 && segment == Segment::Target)
}

/// The first index at or after `from` whose byte ends the segment, or the
/// length of the document when there is none.
pub open spec fn scan(bytes: Seq<u8>, from: int, segment: Segment) -> int
    decreases bytes.len() - from,
{
    if from < 0 || from >= bytes.len() {
        from
    } else if ends_segment(segment, bytes[from]) {
        from
    } else {
        scan(bytes, from + 1, segment)
    }
}

/// Where a wiki link or embed lies in the document: byte ranges of the
/// target, fragment and alias, and the index after the closing `]]`.
pub struct WikiSpan {
    pub embed: bool,
    pub start: int,
    pub target: (int, int),
    pub fragment: Option<(int, int)>,
    pub alias: Option<(int, int)>,
    pub end: int,
}

/// `[[` at `i` (or `![[` for an embed).
pub open spec fn opener_at(bytes: Seq<u8>, i: int, embed: bool) -> bool {
    if embed {
        byte_at(bytes, i) == Some(0x21u8) && byte_at(bytes, i + 1) == Some(0x5Bu8) && byte_at(
            bytes,
            i + 2,
        ) == Some(0x5Bu8)
    } else {
        byte_at(bytes, i) == Some(0x5Bu8) && byte_at(bytes, i + 1) == Some(0x5Bu8)
    }
}

/// The closing `]]` at `c` ends the span.
pub open spec fn close_at(bytes: Seq<u8>, c: int, span: WikiSpan) -> Option<WikiSpan> {
    if byte_at(bytes, c + 1) == Some(0x5Du8) {
        Some(WikiSpan { end: c + 2, ..span })
    } else {
        None
    }
}

/// A non-empty alias from `a`, then `]]`.
pub open spec fn alias_from(bytes: Seq<u8>, a: int, span: WikiSpan) -> Option<WikiSpan> {
    let t = scan(bytes, a, Segment::Alias);
    if t > a && byte_at(bytes, t) == Some(0x5Du8) {
        close_at(bytes, t, WikiSpan { alias: Some((a, t)), ..span })
    } else {
        None
    }
}

/// A non-empty fragment from `f`, then an alias or `]]`.
pub open spec fn fragment_from(bytes: Seq<u8>, f: int, span: WikiSpan) -> Option<WikiSpan> {
    let r = scan(bytes, f, Segment::Fragment);
    if r > f && byte_at(bytes, r) == Some(0x5Du8) {
        close_at(bytes, r, WikiSpan { fragment: Some((f, r)), ..span })
    } else if r > f && byte_at(bytes, r) == Some(0x7Cu8) {
        alias_from(bytes, r + 1, WikiSpan { fragment: Some((f, r)), ..span })
    } else {
        None
    }
}

/// The wiki link (or embed) that starts at `i`, if there is one:
/// `[[ target ['#' fragment] ['|' alias] ]]` on one line, where each present
/// segment is non-empty, the target or the fragment is present, the first `#`
/// opens the fragment and the first `|` the alias.
pub open spec fn wiki_span(bytes: Seq<u8>, i: int, embed: bool) -> Option<WikiSpan> {
    let p = if embed { i + 3 } else { i + 2 };
    let q = scan(bytes, p, Segment::Target);
    let span = WikiSpan {
        embed,
        start: i,
        target: (p, q),
        fragment: None,
        alias: None,
        end: 0,
    };
    if !opener_at(bytes, i, embed) {
        None
    } else if byte_at(bytes, q) == Some(0x23u8) {
        fragment_from(bytes, q + 1, span)
    } else if q > p && byte_at(bytes, q) == Some(0x5Du8) {
        close_at(bytes, q, span)
    } else if q > p && byte_at(bytes, q) == Some(0x7Cu8) {
        alias_from(bytes, q + 1, span)
    } else {
        None
    }
}

/// The events of a wiki link or embed.
pub open spec fn wiki_events(span: WikiSpan) -> Seq<Event> {
    opener_events(span.embed, span.start, span.target.0) + body_events(span)
}

/// The events of the opening marker.
pub open spec fn opener_events(embed: bool, i: int, p: int) -> Seq<Event> {
    seq![event(EventKind::Enter, outer_name(embed), i)] + unit(Name::WikiMarker, i, p)
}

/// The events of the body and the closing marker.
pub open spec fn body_events(span: WikiSpan) -> Seq<Event> {
    (if span.target.0 < span.target.1 {
        unit(Name::WikiTarget, span.target.0, span.target.1)
    } else {
        seq![]
    }) + fragment_events(span)
}

/// The events from the fragment on.
pub open spec fn fragment_events(span: WikiSpan) -> Seq<Event> {
    match span.fragment {
        Some((f0, f1)) => unit(Name::WikiFragmentMarker, f0 - 1, f0) + (unit(
            Name::WikiFragment,
            f0,
            f1,
        ) + alias_events(span)),
        None => alias_events(span),
    }
}

/// The events from the alias on.
pub open spec fn alias_events(span: WikiSpan) -> Seq<Event> {
    match span.alias {
        Some((a0, a1)) => unit(Name::WikiAliasMarker, a0 - 1, a0) + (unit(Name::WikiAlias, a0, a1)
            + close_events(span.embed, span.end - 2)),
        None => close_events(span.embed, span.end - 2),
    }
}

/// The tokenizer after a wiki construct matched: past it, with its events
/// added and its slots cleared.
pub open spec fn after_wiki(v: TokenizerView, span: WikiSpan) -> TokenizerView {
    wiki_reset(TokenizerView { events: v.events + wiki_events(span), ..advance(v, span.end) })
}

pub open spec fn wiki_start(embed: bool) -> StateName {
    if embed {
        StateName::WikiEmbedStart
    } else {
        StateName::WikiLinkStart
    }
}

/// Scanning a segment: the state consumes every byte up to the first one
/// that ends the segment.
proof fn lemma_scan(v: TokenizerView, name: StateName, segment: Segment)
    requires
        machine_inv(v, State::Retry(name)),
        v.attempts.len() == 0,
        (name == StateName::WikiTarget && segment == Segment::Target) || (name
            == StateName::WikiFragment && segment == Segment::Fragment) || (name
            == StateName::WikiAlias && segment == Segment::Alias),
    ensures
        run(v, State::Retry(name)) == run(
            advance(v, scan(v.bytes, v.index, segment)),
            State::Retry(name),
        ),
        machine_inv(advance(v, scan(v.bytes, v.index, segment)), State::Retry(name)),
        scan(v.bytes, v.index, segment) >= v.index,
    decreases v.bytes.len() - v.index,
{
    let q = scan(v.bytes, v.index, segment);
    if v.index < v.bytes.len() && !ends_segment(segment, v.bytes[v.index]) {
        lemma_run_step(v, State::Retry(name));
        let v1 = v.consume();
        assert(machine_step(v, State::Retry(name)) == (v1, State::Next(name)));
        lemma_run_next(v1, name);
        lemma_scan(v1, name, segment);
        assert(advance(v1, q) == advance(v, q));
    } else {
        assert(advance(v, q) == v);
    }
}


pub open spec fn outer_name(embed: bool) -> Name {
    if embed {
        Name::WikiEmbed
    } else {
        Name::WikiLink
    }
}

/// The tokenizer in the middle of a wiki construct that started at `v`: at
/// `k`, with `tail` emitted, the construct's unit recorded, and `seen` set.
pub open spec fn mid(
    v: TokenizerView,
    embed: bool,
    k: int,
    tail: Seq<Event>,
    seen: bool,
) -> TokenizerView {
    TokenizerView {
        events: v.events + tail,
        tokenize_state: TokenizeState {
            token_1: outer_name(embed),
            size: 0,
            seen,
            ..v.tokenize_state
        },
        ..advance(v, k)
    }
}

/// The events of the closing `]]` at `c`.
pub open spec fn close_events(embed: bool, c: int) -> Seq<Event> {
    unit(Name::WikiMarker, c, c + 2) + seq![event(EventKind::Exit, outer_name(embed), c + 2)]
}

/// The tokenizer after a wiki construct that started at `v` ended at `end`
/// with `tail` emitted.
pub open spec fn done(v: TokenizerView, embed: bool, end: int, tail: Seq<Event>) -> TokenizerView {
    wiki_reset(mid(v, embed, end, tail, true))
}

/// The tokenizer can start a wiki construct: well formed, no attempt pending,
/// label depth bounded by the position.
pub open spec fn wiki_ctx(v: TokenizerView) -> bool {
    &&& v.wf()
    &&& v.attempts.len() == 0
    &&& v.tokenize_state.size_c <= v.index
}

proof fn lemma_close(v: TokenizerView, embed: bool, c: int, tail: Seq<Event>)
    requires
        wiki_ctx(v),
        v.index <= c < v.bytes.len(),
        byte_at(v.bytes, c) == Some(0x5Du8),
    ensures
        machine_inv(mid(v, embed, c, tail, true), State::Retry(StateName::WikiClose)),
        byte_at(v.bytes, c + 1) == Some(0x5Du8) ==> run(
            mid(v, embed, c, tail, true),
            State::Retry(StateName::WikiClose),
        ) == (done(v, embed, c + 2, tail + close_events(embed, c)), State::Okay),
        byte_at(v.bytes, c + 1) != Some(0x5Du8) ==> run(
            mid(v, embed, c, tail, true),
            State::Retry(StateName::WikiClose),
        ).1 == State::Nok,
{
    let x = mid(v, embed, c, tail, true);
    let s = State::Retry(StateName::WikiClose);
    lemma_run_step(x, s);
    if byte_at(v.bytes, c + 1) == Some(0x5Du8) {
        let x1 = x.enter(Name::WikiMarker).consume();
        assert(machine_step(x, s) == (x1, State::Next(StateName::WikiCloseAfter)));
        lemma_run_step(x1, State::Next(StateName::WikiCloseAfter));
        let x2 = wiki_reset(x1.consume().exit(Name::WikiMarker).exit(outer_name(embed)));
        assert(machine_step(x1, State::Next(StateName::WikiCloseAfter)) == (x2, State::Okay));
        lemma_run_done(x2, State::Okay);
        assert(x2.events =~= v.events + (tail + close_events(embed, c)));
        assert(x2 == done(v, embed, c + 2, tail + close_events(embed, c)));
    } else {
        let x2 = wiki_reset(x);
        assert(machine_step(x, s) == (x2, State::Nok));
        lemma_run_done(x2, State::Nok);
    }
}



/// `scan` stops in the document, at a byte that ends the segment or at the end.
pub proof fn lemma_scan_bounds(bytes: Seq<u8>, from: int, segment: Segment)
    requires
        0 <= from <= bytes.len(),
    ensures
        from <= scan(bytes, from, segment) <= bytes.len(),
        scan(bytes, from, segment) < bytes.len() ==> ends_segment(
            segment,
            bytes[scan(bytes, from, segment)],
        ),
        forall|k: int|
            from <= k < scan(bytes, from, segment) ==> !ends_segment(segment, #[trigger] bytes[k]),
    decreases bytes.len() - from,
{
    if from < bytes.len() && !ends_segment(segment, bytes[from]) {
        lemma_scan_bounds(bytes, from + 1, segment);
    }
}

proof fn lemma_alias(v: TokenizerView, embed: bool, a: int, tail: Seq<Event>)
    requires
        wiki_ctx(v),
        v.index <= a <= v.bytes.len(),
    ensures
        machine_inv(mid(v, embed, a, tail, true), State::Retry(StateName::WikiAliasStart)),
        ({
            let r = run(mid(v, embed, a, tail, true), State::Retry(StateName::WikiAliasStart));
            match alias_result(v.bytes, embed, a) {
                Some((events, end)) => r == (done(v, embed, end, tail + events), State::Okay),
                None => r.1 == State::Nok,
            }
        }),
{
    let t = scan(v.bytes, a, Segment::Alias);
    lemma_scan_bounds(v.bytes, a, Segment::Alias);
    let x = mid(v, embed, a, tail, true);
    let s = State::Retry(StateName::WikiAliasStart);
    lemma_run_step(x, s);
    if a < v.bytes.len() && !ends_segment(Segment::Alias, v.bytes[a]) {
        let e = event(EventKind::Enter, Name::WikiAlias, a);
        let x1 = mid(v, embed, a, tail.push(e), true);
        assert(x1.events =~= x.enter(Name::WikiAlias).events);
        assert(machine_step(x, s) == (x1, State::Retry(StateName::WikiAlias)));
        lemma_scan(x1, StateName::WikiAlias, Segment::Alias);
        let x2 = mid(v, embed, t, tail.push(e), true);
        assert(advance(x1, t) == x2);
        lemma_run_step(x2, State::Retry(StateName::WikiAlias));
        if byte_at(v.bytes, t) == Some(0x5Du8) {
            let x3 = mid(v, embed, t, tail + unit(Name::WikiAlias, a, t), true);
            assert(x3.events =~= x2.exit(Name::WikiAlias).events);
            assert(machine_step(x2, State::Retry(StateName::WikiAlias)) == (x3, State::Retry(
                StateName::WikiClose,
            )));
            lemma_close(v, embed, t, tail + unit(Name::WikiAlias, a, t));
            assert(tail + unit(Name::WikiAlias, a, t) + close_events(embed, t) =~= tail + (unit(
                Name::WikiAlias,
                a,
                t,
            ) + close_events(embed, t)));
        } else {
            assert(machine_step(x2, State::Retry(StateName::WikiAlias)) == (wiki_reset(x2), State::Nok));
            lemma_run_done(wiki_reset(x2), State::Nok);
        }
    } else {
        assert(machine_step(x, s) == (wiki_reset(x), State::Nok));
        lemma_run_done(wiki_reset(x), State::Nok);
    }
}


/// Events and end of a wiki body from the start of its alias.
spec fn alias_result(bytes: Seq<u8>, embed: bool, a: int) -> Option<(Seq<Event>, int)> {
    let t = scan(bytes, a, Segment::Alias);
    if t > a && byte_at(bytes, t) == Some(0x5Du8) && byte_at(bytes, t + 1) == Some(0x5Du8) {
        Some((unit(Name::WikiAlias, a, t) + close_events(embed, t), t + 2))
    } else {
        None
    }
}

/// Events and end of a wiki body from the start of its fragment.
spec fn fragment_result(bytes: Seq<u8>, embed: bool, f: int) -> Option<(Seq<Event>, int)> {
    let r = scan(bytes, f, Segment::Fragment);
    if r > f && byte_at(bytes, r) == Some(0x5Du8) && byte_at(bytes, r + 1) == Some(0x5Du8) {
        Some((unit(Name::WikiFragment, f, r) + close_events(embed, r), r + 2))
    } else if r > f && byte_at(bytes, r) == Some(0x7Cu8) {
        match alias_result(bytes, embed, r + 1) {
            Some((events, end)) => Some(
                (
                    unit(Name::WikiFragment, f, r) + (unit(Name::WikiAliasMarker, r, r + 1) + events),
                    end,
                ),
            ),
            None => None,
        }
    } else {
        None
    }
}

/// Events and end of a wiki body from its first byte.
spec fn body_result(bytes: Seq<u8>, embed: bool, p: int) -> Option<(Seq<Event>, int)> {
    let q = scan(bytes, p, Segment::Target);
    let target = if q > p {
        unit(Name::WikiTarget, p, q)
    } else {
        seq![]
    };
    if byte_at(bytes, q) == Some(0x23u8) {
        match fragment_result(bytes, embed, q + 1) {
            Some((events, end)) => Some(
                (target + (unit(Name::WikiFragmentMarker, q, q + 1) + events), end),
            ),
            None => None,
        }
    } else if q > p && byte_at(bytes, q) == Some(0x5Du8) && byte_at(bytes, q + 1) == Some(
        0x5Du8,
    ) {
        Some((target + close_events(embed, q), q + 2))
    } else if q > p && byte_at(bytes, q) == Some(0x7Cu8) {
        match alias_result(bytes, embed, q + 1) {
            Some((events, end)) => Some(
                (target + (unit(Name::WikiAliasMarker, q, q + 1) + events), end),
            ),
            None => None,
        }
    } else {
        None
    }
}

spec fn fragment_claim(v: TokenizerView, embed: bool, f: int, tail: Seq<Event>, seen: bool) -> bool {
    let r = run(mid(v, embed, f, tail, seen), State::Retry(StateName::WikiFragmentStart));
    match fragment_result(v.bytes, embed, f) {
        Some((events, end)) => r == (done(v, embed, end, tail + events), State::Okay),
        None => r.1 == State::Nok,
    }
}

proof fn lemma_fragment(v: TokenizerView, embed: bool, f: int, tail: Seq<Event>, seen: bool)
    requires
        wiki_ctx(v),
        v.index <= f <= v.bytes.len(),
    ensures
        machine_inv(mid(v, embed, f, tail, seen), State::Retry(StateName::WikiFragmentStart)),
        ({
            let r = run(mid(v, embed, f, tail, seen), State::Retry(StateName::WikiFragmentStart));
            match fragment_result(v.bytes, embed, f) {
                Some((events, end)) => r == (done(v, embed, end, tail + events), State::Okay),
                None => r.1 == State::Nok,
            }
        }),
{
    let r = scan(v.bytes, f, Segment::Fragment);
    lemma_scan_bounds(v.bytes, f, Segment::Fragment);
    let x = mid(v, embed, f, tail, seen);
    let s = State::Retry(StateName::WikiFragmentStart);
    lemma_run_step(x, s);
    if f < v.bytes.len() && !ends_segment(Segment::Fragment, v.bytes[f]) {
        let e = event(EventKind::Enter, Name::WikiFragment, f);
        let x1 = mid(v, embed, f, tail.push(e), true);
        assert(x1.events =~= x.enter(Name::WikiFragment).events);
        assert(machine_step(x, s) == (x1, State::Retry(StateName::WikiFragment)));
        lemma_scan(x1, StateName::WikiFragment, Segment::Fragment);
        let x2 = mid(v, embed, r, tail.push(e), true);
        assert(advance(x1, r) == x2);
        let s2 = State::Retry(StateName::WikiFragment);
        lemma_run_step(x2, s2);
        let tail3 = tail + unit(Name::WikiFragment, f, r);
        if byte_at(v.bytes, r) == Some(0x5Du8) {
            let x3 = mid(v, embed, r, tail3, true);
            assert(x3.events =~= x2.exit(Name::WikiFragment).events);
            assert(machine_step(x2, s2) == (x3, State::Retry(StateName::WikiClose)));
            lemma_close(v, embed, r, tail3);
            assert(tail3 + close_events(embed, r) =~= tail + (unit(Name::WikiFragment, f, r)
                + close_events(embed, r)));
            assert(run(x, s) == run(x3, State::Retry(StateName::WikiClose)));
            assert(fragment_claim(v, embed, f, tail, seen));
        } else if byte_at(v.bytes, r) == Some(0x7Cu8) {
            let tail4 = tail3 + unit(Name::WikiAliasMarker, r, r + 1);
            let x3 = mid(v, embed, r + 1, tail4, true);
            assert(x3.events =~= x2.exit(Name::WikiFragment).enter(
                Name::WikiAliasMarker,
            ).consume().exit(Name::WikiAliasMarker).events);
            assert(machine_step(x2, s2) == (x3, State::Next(StateName::WikiAliasStart)));
            lemma_run_next(x3, StateName::WikiAliasStart);
            lemma_alias(v, embed, r + 1, tail4);
            match alias_result(v.bytes, embed, r + 1) {
                Some((events, end)) => {
                    assert(tail4 + events =~= tail + (unit(Name::WikiFragment, f, r) + (unit(
                        Name::WikiAliasMarker,
                        r,
                        r + 1,
                    ) + events)));
                },
                None => {},
            }
            assert(fragment_claim(v, embed, f, tail, seen));
        } else {
            assert(machine_step(x2, s2) == (wiki_reset(x2), State::Nok));
            lemma_run_done(wiki_reset(x2), State::Nok);
            assert(fragment_claim(v, embed, f, tail, seen));
        }
    } else {
        assert(machine_step(x, s) == (wiki_reset(x), State::Nok));
        lemma_run_done(wiki_reset(x), State::Nok);
    }
}


proof fn lemma_body(v: TokenizerView, embed: bool, p: int, tail: Seq<Event>)
    requires
        wiki_ctx(v),
        v.index <= p <= v.bytes.len(),
    ensures
        machine_inv(mid(v, embed, p, tail, false), State::Retry(StateName::WikiTargetStart)),
        ({
            let r = run(mid(v, embed, p, tail, false), State::Retry(StateName::WikiTargetStart));
            match body_result(v.bytes, embed, p) {
                Some((events, end)) => r == (done(v, embed, end, tail + events), State::Okay),
                None => r.1 == State::Nok,
            }
        }),
{
    let q = scan(v.bytes, p, Segment::Target);
    lemma_scan_bounds(v.bytes, p, Segment::Target);
    let x = mid(v, embed, p, tail, false);
    let s = State::Retry(StateName::WikiTargetStart);
    lemma_run_step(x, s);
    if byte_at(v.bytes, p) == Some(0x23u8) {
        let tail1 = tail + unit(Name::WikiFragmentMarker, p, p + 1);
        let x1 = mid(v, embed, p + 1, tail1, false);
        assert(x1.events =~= x.enter(Name::WikiFragmentMarker).consume().exit(
            Name::WikiFragmentMarker,
        ).events);
        assert(machine_step(x, s) == (x1, State::Next(StateName::WikiFragmentStart)));
        lemma_run_next(x1, StateName::WikiFragmentStart);
        lemma_fragment(v, embed, p + 1, tail1, false);
        match fragment_result(v.bytes, embed, p + 1) {
            Some((events, end)) => {
                assert(tail1 + events =~= tail + (seq![] + (unit(Name::WikiFragmentMarker, p, p + 1)
                    + events)));
            },
            None => {},
        }
    } else if p < v.bytes.len() && !ends_segment(Segment::Target, v.bytes[p]) {
        let e = event(EventKind::Enter, Name::WikiTarget, p);
        let x1 = mid(v, embed, p, tail.push(e), true);
        assert(x1.events =~= x.enter(Name::WikiTarget).events);
        assert(machine_step(x, s) == (x1, State::Retry(StateName::WikiTarget)));
        lemma_scan(x1, StateName::WikiTarget, Segment::Target);
        let x2 = mid(v, embed, q, tail.push(e), true);
        assert(advance(x1, q) == x2);
        let s2 = State::Retry(StateName::WikiTarget);
        lemma_run_step(x2, s2);
        let tail3 = tail + unit(Name::WikiTarget, p, q);
        if byte_at(v.bytes, q) == Some(0x5Du8) {
            let x3 = mid(v, embed, q, tail3, true);
            assert(x3.events =~= x2.exit(Name::WikiTarget).events);
            assert(machine_step(x2, s2) == (x3, State::Retry(StateName::WikiClose)));
            lemma_close(v, embed, q, tail3);
            assert(tail3 + close_events(embed, q) =~= tail + (unit(Name::WikiTarget, p, q)
                + close_events(embed, q)));
        } else if byte_at(v.bytes, q) == Some(0x23u8) {
            let tail4 = tail3 + unit(Name::WikiFragmentMarker, q, q + 1);
            let x3 = mid(v, embed, q + 1, tail4, true);
            assert(x3.events =~= x2.exit(Name::WikiTarget).enter(
                Name::WikiFragmentMarker,
            ).consume().exit(Name::WikiFragmentMarker).events);
            assert(machine_step(x2, s2) == (x3, State::Next(StateName::WikiFragmentStart)));
            lemma_run_next(x3, StateName::WikiFragmentStart);
            lemma_fragment(v, embed, q + 1, tail4, true);
            match fragment_result(v.bytes, embed, q + 1) {
                Some((events, end)) => {
                    assert(tail4 + events =~= tail + (unit(Name::WikiTarget, p, q) + (unit(
                        Name::WikiFragmentMarker,
                        q,
                        q + 1,
                    ) + events)));
                },
                None => {},
            }
        } else if byte_at(v.bytes, q) == Some(0x7Cu8) {
            let tail4 = tail3 + unit(Name::WikiAliasMarker, q, q + 1);
            let x3 = mid(v, embed, q + 1, tail4, true);
            assert(x3.events =~= x2.exit(Name::WikiTarget).enter(
                Name::WikiAliasMarker,
            ).consume().exit(Name::WikiAliasMarker).events);
            assert(machine_step(x2, s2) == (x3, State::Next(StateName::WikiAliasStart)));
            lemma_run_next(x3, StateName::WikiAliasStart);
            lemma_alias(v, embed, q + 1, tail4);
            match alias_result(v.bytes, embed, q + 1) {
                Some((events, end)) => {
                    assert(tail4 + events =~= tail + (unit(Name::WikiTarget, p, q) + (unit(
                        Name::WikiAliasMarker,
                        q,
                        q + 1,
                    ) + events)));
                },
                None => {},
            }
        } else {
            assert(machine_step(x2, s2) == (wiki_reset(x2), State::Nok));
            lemma_run_done(wiki_reset(x2), State::Nok);
        }
    } else {
        assert(machine_step(x, s) == (wiki_reset(x), State::Nok));
        lemma_run_done(wiki_reset(x), State::Nok);
    }
}


proof fn lemma_body_span(bytes: Seq<u8>, i: int, embed: bool)
    requires
        opener_at(bytes, i, embed),
        0 <= i,
    ensures
        ({
            let p = if embed { i + 3 } else { i + 2 };
            match (body_result(bytes, embed, p), wiki_span(bytes, i, embed)) {
                (Some((events, end)), Some(span)) => span.end == end && events == body_events(span)
                    && span.embed == embed && span.start == i && span.target.0 == p,
                (None, None) => true,
                _ => false,
            }
        }),
{
}

/// Law: the wiki construct recognizes exactly the syntax of [`wiki_span`].
/// Started on a tokenizer with no pending attempt, it matches when wiki
/// syntax is on, no label opener is pending, and a wiki link (or embed)
/// starts at the current index; it then ends right after the closing `]]`,
/// having emitted exactly [`wiki_events`] and cleared its slots. Otherwise it
/// fails.
pub proof fn law_wiki_recognizes_syntax(v: TokenizerView, embed: bool)
    requires
        can_start(v, wiki_start(embed)),
    ensures
        ({
            let r = run(v, State::Retry(wiki_start(embed)));
            match wiki_span(v.bytes, v.index, embed) {
                Some(span) => if wiki_allowed(v) {
                    r == (after_wiki(v, span), State::Okay)
                } else {
                    r.1 == State::Nok
                },
                None => r.1 == State::Nok,
            }
        }),
{
    let i = v.index;
    let start = wiki_start(embed);
    let s = State::Retry(start);
    lemma_run_step(v, s);
    if wiki_allowed(v) && opener_at(v.bytes, i, embed) {
        let p = if embed { i + 3 } else { i + 2 };
        let outer = outer_name(embed);
        let v1 = v.set_token_1(outer).set_size(2).set_seen(false).enter(outer).enter(
            Name::WikiMarker,
        );
        let sb = State::Next(StateName::WikiBefore);
        // After the opening brackets.
        let vp = mid(v, embed, p, opener_events(embed, i, p), false);
        if embed {
            assert(machine_step(v, s) == (v1.consume(), sb));
            let v2 = v1.consume();
            lemma_run_next(v2, StateName::WikiBefore);
            lemma_run_step(v2, State::Retry(StateName::WikiBefore));
            let v3 = v2.set_size(1).consume();
            assert(machine_step(v2, State::Retry(StateName::WikiBefore)) == (v3, sb));
            lemma_run_next(v3, StateName::WikiBefore);
            lemma_run_step(v3, State::Retry(StateName::WikiBefore));
            let v4 = v3.set_size(0).consume();
            assert(machine_step(v3, State::Retry(StateName::WikiBefore)) == (v4, sb));
            lemma_run_next(v4, StateName::WikiBefore);
            lemma_run_step(v4, State::Retry(StateName::WikiBefore));
            assert(v4.exit(Name::WikiMarker).events =~= vp.events);
            assert(machine_step(v4, State::Retry(StateName::WikiBefore)) == (vp, State::Retry(
                StateName::WikiTargetStart,
            )));
        } else {
            assert(machine_step(v, s) == (v1, State::Retry(StateName::WikiBefore)));
            lemma_run_step(v1, State::Retry(StateName::WikiBefore));
            let v3 = v1.set_size(1).consume();
            assert(machine_step(v1, State::Retry(StateName::WikiBefore)) == (v3, sb));
            lemma_run_next(v3, StateName::WikiBefore);
            lemma_run_step(v3, State::Retry(StateName::WikiBefore));
            let v4 = v3.set_size(0).consume();
            assert(machine_step(v3, State::Retry(StateName::WikiBefore)) == (v4, sb));
            lemma_run_next(v4, StateName::WikiBefore);
            lemma_run_step(v4, State::Retry(StateName::WikiBefore));
            assert(v4.exit(Name::WikiMarker).events =~= vp.events);
            assert(machine_step(v4, State::Retry(StateName::WikiBefore)) == (vp, State::Retry(
                StateName::WikiTargetStart,
            )));
        }
        lemma_body(v, embed, p, opener_events(embed, i, p));
        lemma_body_span(v.bytes, i, embed);
        match wiki_span(v.bytes, i, embed) {
            Some(span) => {
                let (events, end) = body_result(v.bytes, embed, p).unwrap();
                assert(done(v, embed, end, opener_events(embed, i, p) + events) == after_wiki(
                    v,
                    span,
                ));
            },
            None => {},
        }
    } else {
        assert(machine_step(v, s) == (v, State::Nok));
        lemma_run_done(v, State::Nok);
    }
}


/// Positions in a wiki span lie in the document, in order.
pub proof fn lemma_span_bounds(bytes: Seq<u8>, i: int, embed: bool)
    requires
        0 <= i <= bytes.len(),
        wiki_span(bytes, i, embed) is Some,
    ensures
        ({
            let span = wiki_span(bytes, i, embed)->0;
            &&& span.start == i
            &&& span.embed == embed
            &&& i < span.target.0 <= span.target.1 < span.end <= bytes.len()
            &&& span.fragment matches Some((f0, f1)) ==> span.target.1 < f0 < f1 < span.end
            &&& span.alias matches Some((a0, a1)) ==> span.target.1 < a0 < a1 < span.end
            &&& (span.fragment is Some && span.alias is Some) ==> span.fragment.unwrap().1
                < span.alias.unwrap().0
            &&& span.target.0 < span.target.1 || span.fragment is Some
        }),
{
    let p = if embed { i + 3 } else { i + 2 };
    lemma_scan_bounds(bytes, p, Segment::Target);
    let q = scan(bytes, p, Segment::Target);
    if q + 1 <= bytes.len() {
        lemma_scan_bounds(bytes, q + 1, Segment::Fragment);
        lemma_scan_bounds(bytes, q + 1, Segment::Alias);
        let r = scan(bytes, q + 1, Segment::Fragment);
        if r + 1 <= bytes.len() {
            lemma_scan_bounds(bytes, r + 1, Segment::Alias);
        }
    }
}

/// Where a wiki link or embed lies in a document (see [`WikiSpan`]).
#[derive(Clone, Copy, Debug, PartialEq, Eq)]
pub struct WikiParts {
    pub embed: bool,
    pub start: usize,
    pub target: (usize, usize),
    pub fragment: Option<(usize, usize)>,
    pub alias: Option<(usize, usize)>,
    pub end: usize,
}

pub open spec fn range_view(r: Option<(usize, usize)>) -> Option<(int, int)> {
    match r {
        Some((a, b)) => Some((a as int, b as int)),
        None => None,
    }
}

impl View for WikiParts {
    type V = WikiSpan;

    open spec fn view(&self) -> WikiSpan {
        WikiSpan {
            embed: self.embed,
            start: self.start as int,
            target: (self.target.0 as int, self.target.1 as int),
            fragment: range_view(self.fragment),
            alias: range_view(self.alias),
            end: self.end as int,
        }
    }
}

/// Where the events of the fragment, alias and closing marker start.
pub open spec fn layout(span: WikiSpan) -> (int, int, int) {
    let k1 = if span.target.0 < span.target.1 { 5int } else { 3int };
    let k2 = if span.fragment is Some { k1 + 4 } else { k1 };
    let k3 = if span.alias is Some { k2 + 4 } else { k2 };
    (k1, k2, k3)
}

/// How [`wiki_events`] is laid out.
pub proof fn lemma_events_layout(span: WikiSpan)
    ensures
        ({
            let ev = wiki_events(span);
            let (k1, k2, k3) = layout(span);
            &&& ev.len() == k3 + 3
            &&& ev[2].name == Name::WikiMarker && ev[2].index == span.target.0 as usize
            &&& (span.target.0 < span.target.1 <==> ev[3].name == Name::WikiTarget)
            &&& span.target.0 < span.target.1 ==> ev[4].index == span.target.1 as usize
            &&& (span.fragment is Some <==> ev[k1].name == Name::WikiFragmentMarker)
            &&& span.fragment matches Some((f0, f1)) ==> ev[k1 + 2].index == f0 as usize && ev[k1
                + 3].index == f1 as usize
            &&& (span.alias is Some <==> ev[k2].name == Name::WikiAliasMarker)
            &&& span.alias matches Some((a0, a1)) ==> ev[k2 + 2].index == a0 as usize && ev[k2
                + 3].index == a1 as usize
            &&& ev[k3 + 1].index == span.end as usize
        }),
{
    let ev = wiki_events(span);
    let opener = opener_events(span.embed, span.start, span.target.0);
    let close = close_events(span.embed, span.end - 2);
    let al = alias_events(span);
    let fr = fragment_events(span);
    let tp = if span.target.0 < span.target.1 {
        unit(Name::WikiTarget, span.target.0, span.target.1)
    } else {
        seq![]
    };
    assert(close.len() == 3);
    assert(close[1].index == span.end as usize);
    assert(al.len() == if span.alias is Some { 7int } else { 3int });
    assert(al[0].name == if span.alias is Some { Name::WikiAliasMarker } else { Name::WikiMarker });
    if let Some((a0, a1)) = span.alias {
        assert(al[2].index == a0 as usize && al[3].index == a1 as usize);
        assert(al[5].index == span.end as usize);
    } else {
        assert(al[1].index == span.end as usize);
    }
    assert(fr.len() == al.len() + if span.fragment is Some { 4int } else { 0int });
    if let Some((f0, f1)) = span.fragment {
        assert(fr[0].name == Name::WikiFragmentMarker);
        assert(fr[2].index == f0 as usize && fr[3].index == f1 as usize);
        assert(forall|j: int| 0 <= j < al.len() ==> fr[j + 4] == al[j]);
    } else {
        assert(fr == al);
    }
    let body = body_events(span);
    assert(body == tp + fr);
    assert(forall|j: int| 0 <= j < fr.len() ==> body[j + tp.len()] == fr[j]);
    if span.target.0 < span.target.1 {
        assert(body[0].name == Name::WikiTarget && body[1].index == span.target.1 as usize);
    }
    assert(ev == opener + body);
    assert(opener.len() == 3);
    assert(forall|j: int| 0 <= j < body.len() ==> ev[j + 3] == body[j]);
}

/// Read a wiki construct's parts from its events.
fn parts_from_events(events: &Vec<Event>, Ghost(span): Ghost<WikiSpan>) -> (parts: WikiParts)
    requires
        events@ == wiki_events(span),
        0 <= span.start <= span.target.0 <= span.target.1 <= span.end < usize::MAX,
        span.fragment matches Some((f0, f1)) ==> 0 <= f0 <= f1 < usize::MAX,
        span.alias matches Some((a0, a1)) ==> 0 <= a0 <= a1 < usize::MAX,
    ensures
        parts@ == (WikiSpan { embed: parts.embed, start: parts.start as int, ..span }),
{
    proof {
        lemma_events_layout(span);
    }
    let target_start = events[2].index;
    let mut k: usize = 3;
    let mut target_end = target_start;
    if events[3].name == Name::WikiTarget {
        target_end = events[4].index;
        k = 5;
    }
    let mut fragment = None;
    if events[k].name == Name::WikiFragmentMarker {
        fragment = Some((events[k + 2].index, events[k + 3].index));
        k = k + 4;
    }
    let mut alias = None;
    if events[k].name == Name::WikiAliasMarker {
        alias = Some((events[k + 2].index, events[k + 3].index));
        k = k + 4;
    }
    let end = events[k + 1].index;
    WikiParts { embed: false, start: 0, target: (target_start, target_end), fragment, alias, end }
}

/// The wiki link (or, with `embed`, the wiki embed) that starts at `index`
/// in `bytes`, found by running the wiki construct and reading its events.
pub fn parse_wiki(bytes: &Vec<u8>, index: usize, embed: bool) -> (r: Option<WikiParts>)
    requires
        index <= bytes.len(),
        bytes.len() < usize::MAX,
    ensures
        match r {
            Some(parts) => wiki_span(bytes@, index as int, embed) == Some(parts@),
            None => wiki_span(bytes@, index as int, embed) is None,
        },
{
    let mut tokenizer = Tokenizer::new(
        bytes.clone(),
        Constructs { directive: false, wiki: true },
        index,
    );
    assert(tokenizer.bytes@ =~= bytes@);
    let start = if embed {
        StateName::WikiEmbedStart
    } else {
        StateName::WikiLinkStart
    };
    let ghost v0 = tokenizer@;
    proof {
        law_wiki_recognizes_syntax(v0, embed);
    }
    let state = feed(&mut tokenizer, start);
    if state != State::Okay {
        return None;
    }
    let ghost span = wiki_span(bytes@, index as int, embed)->0;
    proof {
        lemma_span_bounds(bytes@, index as int, embed);
        assert(tokenizer@.events =~= wiki_events(span));
    }
    let mut parts = parts_from_events(&tokenizer.events, Ghost(span));
    parts.embed = embed;
    parts.start = index;
    assert(parts@ == span);
    Some(parts)
}

} // verus!
