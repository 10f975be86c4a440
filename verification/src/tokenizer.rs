//! The tokenizer that the constructs run on: the document bytes, a position,
//! the events emitted so far, the pending attempts, and the scratch state that
//! the constructs share.

use vstd::prelude::*;
use crate::event::{Content, Event, EventKind, Name};
use crate::state::State;

verus! {

/// Which constructs are turned on.
#[derive(Clone, Copy, Debug, PartialEq, Eq, Structural)]
pub struct Constructs {
    /// Directives (text, leaf, container).
    pub directive: bool,
    /// Wiki links and embeds.
    pub wiki: bool,
}

/// Scratch slots that constructs use while they run.
///
/// The machine does not restore these when an attempt fails; each construct
/// resets what it used.
#[derive(Clone, Copy, Debug, PartialEq, Eq, Structural)]
pub struct TokenizeState {
    /// A counter (colons of a directive fence, brackets of a wiki opener).
    pub size: usize,
    /// Depth of nested brackets in a directive label.
    pub size_c: usize,
    /// Whether a wiki body has a non-empty target or a fragment.
    pub seen: bool,
    /// The quote that opened a quoted attribute value (`0` when none).
    pub marker: u8,
    /// The unit that a wiki construct closes at its end.
    pub token_1: Name,
    /// The unit (`DirectiveAttributeId` or `DirectiveAttributeClass`) that a
    /// shortcut attribute value closes.
    pub token_4: Name,
}

/// A pending attempt: where to continue on success and on failure, and the
/// position and event count to go back to on failure.
#[derive(Clone, Copy, Debug, PartialEq, Eq, Structural)]
pub struct Attempt {
    /// State to continue in when the attempted construct matches.
    pub ok: State,
    /// State to continue in when it does not.
    pub nok: State,
    /// Index at the time of the attempt.
    pub index: usize,
    /// Previous byte at the time of the attempt.
    pub previous: Option<u8>,
    /// Current byte at the time of the attempt.
    pub current: Option<u8>,
    /// Number of events at the time of the attempt.
    pub events_len: usize,
}

/// The tokenizer.
pub struct Tokenizer {
    /// The whole document.
    pub bytes: Vec<u8>,
    /// Which constructs are on.
    pub constructs: Constructs,
    /// Index of the current byte.
    pub index: usize,
    /// The byte before the current one (the last consumed byte).
    pub previous: Option<u8>,
    /// The current byte (`None` at the end of the document).
    pub current: Option<u8>,
    /// Events emitted so far.
    pub events: Vec<Event>,
    /// Pending attempts, innermost last.
    pub attempts: Vec<Attempt>,
    /// Scratch state shared by the constructs.
    pub tokenize_state: TokenizeState,
    /// Indices of the link and image label openers that are still open.
    pub label_starts: Vec<usize>,
}

/// The mathematical state of a tokenizer.
pub struct TokenizerView {
    pub bytes: Seq<u8>,
    pub constructs: Constructs,
    pub index: int,
    pub previous: Option<u8>,
    pub current: Option<u8>,
    pub events: Seq<Event>,
    pub attempts: Seq<Attempt>,
    pub tokenize_state: TokenizeState,
    pub label_starts: Seq<usize>,
}

/// The byte at `i`, or `None` outside the document.
pub open spec fn byte_at(bytes: Seq<u8>, i: int) -> Option<u8> {
    if 0 <= i < bytes.len() {
        Some(bytes[i])
    } else {
        None
    }
}

impl View for Tokenizer {
    type V = TokenizerView;

    open spec fn view(&self) -> TokenizerView {
        TokenizerView {
            bytes: self.bytes@,
            constructs: self.constructs,
            index: self.index as int,
            previous: self.previous,
            current: self.current,
            events: self.events@,
            attempts: self.attempts@,
            tokenize_state: self.tokenize_state,
            label_starts: self.label_starts@,
        }
    }
}

/// An attempt is well formed in a document when it points into it and its
/// current byte is the byte at its index.
pub open spec fn attempt_wf(a: Attempt, bytes: Seq<u8>) -> bool {
    &&& a.index <= bytes.len()
    &&& a.current == byte_at(bytes, a.index as int)
}

/// The tokenizer moved to index `k`, having consumed the bytes before it.
pub open spec fn advance(v: TokenizerView, k: int) -> TokenizerView {
    TokenizerView {
        index: k,
        previous: if k > v.index { byte_at(v.bytes, k - 1) } else { v.previous },
        current: byte_at(v.bytes, k),
        ..v
    }
}

impl TokenizerView {
    /// Well formed: the index is in the document and `current` is the byte at
    /// the index.
    pub open spec fn wf(self) -> bool {
        &&& 0 <= self.index <= self.bytes.len()
        &&& self.bytes.len() < usize::MAX
        &&& self.current == byte_at(self.bytes, self.index)
    }

    /// The byte `offset` places after the current one.
    pub open spec fn peek(self, offset: int) -> Option<u8> {
        byte_at(self.bytes, self.index + offset)
    }

    /// Move past the current byte.
    pub open spec fn consume(self) -> TokenizerView {
        TokenizerView {
            index: self.index + 1,
            previous: self.current,
            current: byte_at(self.bytes, self.index + 1),
            ..self
        }
    }

    /// Open a unit at the current index.
    pub open spec fn enter(self, name: Name) -> TokenizerView {
        TokenizerView {
            events: self.events.push(
                Event { kind: EventKind::Enter, name, index: self.index as usize, link: None },
            ),
            ..self
        }
    }

    /// Open a unit whose content is tokenized later as `content`.
    pub open spec fn enter_link(self, name: Name, content: Content) -> TokenizerView {
        TokenizerView {
            events: self.events.push(
                Event {
                    kind: EventKind::Enter,
                    name,
                    index: self.index as usize,
                    link: Some(content),
                },
            ),
            ..self
        }
    }

    /// Close a unit at the current index.
    pub open spec fn exit(self, name: Name) -> TokenizerView {
        TokenizerView {
            events: self.events.push(
                Event { kind: EventKind::Exit, name, index: self.index as usize, link: None },
            ),
            ..self
        }
    }

    /// Push an attempt that captures the current position.
    pub open spec fn attempt(self, ok: State, nok: State) -> TokenizerView {
        TokenizerView {
            attempts: self.attempts.push(
                Attempt {
                    ok,
                    nok,
                    index: self.index as usize,
                    previous: self.previous,
                    current: self.current,
                    events_len: self.events.len() as usize,
                },
            ),
            ..self
        }
    }

    pub open spec fn set_size(self, size: usize) -> TokenizerView {
        TokenizerView { tokenize_state: TokenizeState { size, ..self.tokenize_state }, ..self }
    }

    pub open spec fn set_size_c(self, size_c: usize) -> TokenizerView {
        TokenizerView { tokenize_state: TokenizeState { size_c, ..self.tokenize_state }, ..self }
    }

    pub open spec fn set_seen(self, seen: bool) -> TokenizerView {
        TokenizerView { tokenize_state: TokenizeState { seen, ..self.tokenize_state }, ..self }
    }

    pub open spec fn set_marker(self, marker: u8) -> TokenizerView {
        TokenizerView { tokenize_state: TokenizeState { marker, ..self.tokenize_state }, ..self }
    }

    pub open spec fn set_token_1(self, token_1: Name) -> TokenizerView {
        TokenizerView { tokenize_state: TokenizeState { token_1, ..self.tokenize_state }, ..self }
    }

    pub open spec fn set_token_4(self, token_4: Name) -> TokenizerView {
        TokenizerView { tokenize_state: TokenizeState { token_4, ..self.tokenize_state }, ..self }
    }
}

impl Tokenizer {
    /// A tokenizer at `index` in `bytes`, with no events and cleared scratch state.
    pub fn new(bytes: Vec<u8>, constructs: Constructs, index: usize) -> (tokenizer: Tokenizer)
        requires
            index <= bytes.len(),
            bytes.len() < usize::MAX,
        ensures
            tokenizer@.wf(),
            tokenizer@.bytes == bytes@,
            tokenizer@.constructs == constructs,
            tokenizer@.index == index,
            tokenizer@.previous == byte_at(bytes@, index - 1),
            tokenizer@.events.len() == 0,
            tokenizer@.attempts.len() == 0,
            tokenizer@.label_starts.len() == 0,
            tokenizer@.tokenize_state == TokenizeState::cleared(),
    {
        let current = if index < bytes.len() {
            Some(bytes[index])
        } else {
            None
        };
        let previous = if index > 0 {
            Some(bytes[index - 1])
        } else {
            None
        };
        Tokenizer {
            bytes,
            constructs,
            index,
            previous,
            current,
            events: Vec::new(),
            attempts: Vec::new(),
            tokenize_state: TokenizeState::new(),
            label_starts: Vec::new(),
        }
    }

    /// The byte `offset` places after the current one.
    pub fn peek(&self, offset: usize) -> (byte: Option<u8>)
        requires
            self@.wf(),
        ensures
            byte == self@.peek(offset as int),
    {
        if offset < self.bytes.len() - self.index {
            Some(self.bytes[self.index + offset])
        } else {
            None
        }
    }

    /// Move past the current byte.
    pub fn consume(&mut self)
        requires
            old(self)@.wf(),
            old(self)@.current.is_some(),
        ensures
            final(self)@ == old(self)@.consume(),
            final(self)@.wf(),
    {
        self.previous = self.current;
        self.index = self.index + 1;
        self.current = if self.index < self.bytes.len() {
            Some(self.bytes[self.index])
        } else {
            None
        };
    }

    /// Open a unit at the current index.
    pub fn enter(&mut self, name: Name)
        requires
            old(self)@.wf(),
        ensures
            final(self)@ == old(self)@.enter(name),
            final(self)@.wf(),
    {
        let event = Event { kind: EventKind::Enter, name, index: self.index, link: None };
        self.events.push(event);
    }

    /// Open a unit whose content is tokenized later as `content`.
    pub fn enter_link(&mut self, name: Name, content: Content)
        requires
            old(self)@.wf(),
        ensures
            final(self)@ == old(self)@.enter_link(name, content),
            final(self)@.wf(),
    {
        let event = Event { kind: EventKind::Enter, name, index: self.index, link: Some(content) };
        self.events.push(event);
    }

    /// Close a unit at the current index.
    pub fn exit(&mut self, name: Name)
        requires
            old(self)@.wf(),
        ensures
            final(self)@ == old(self)@.exit(name),
            final(self)@.wf(),
    {
        let event = Event { kind: EventKind::Exit, name, index: self.index, link: None };
        self.events.push(event);
    }

    /// Set the `size` slot of the tokenize state.
    pub fn set_size(&mut self, size: usize)
        requires
            old(self)@.wf(),
        ensures
            final(self)@ == old(self)@.set_size(size),
            final(self)@.wf(),
    {
        self.tokenize_state.size = size;
    }

    /// Set the `size_c` slot of the tokenize state.
    pub fn set_size_c(&mut self, size_c: usize)
        requires
            old(self)@.wf(),
        ensures
            final(self)@ == old(self)@.set_size_c(size_c),
            final(self)@.wf(),
    {
        self.tokenize_state.size_c = size_c;
    }

    /// Set the `seen` slot of the tokenize state.
    pub fn set_seen(&mut self, seen: bool)
        requires
            old(self)@.wf(),
        ensures
            final(self)@ == old(self)@.set_seen(seen),
            final(self)@.wf(),
    {
        self.tokenize_state.seen = seen;
    }

    /// Set the `marker` slot of the tokenize state.
    pub fn set_marker(&mut self, marker: u8)
        requires
            old(self)@.wf(),
        ensures
            final(self)@ == old(self)@.set_marker(marker),
            final(self)@.wf(),
    {
        self.tokenize_state.marker = marker;
    }

    /// Set the `token_1` slot of the tokenize state.
    pub fn set_token_1(&mut self, token_1: Name)
        requires
            old(self)@.wf(),
        ensures
            final(self)@ == old(self)@.set_token_1(token_1),
            final(self)@.wf(),
    {
        self.tokenize_state.token_1 = token_1;
    }

    /// Set the `token_4` slot of the tokenize state.
    pub fn set_token_4(&mut self, token_4: Name)
        requires
            old(self)@.wf(),
        ensures
            final(self)@ == old(self)@.set_token_4(token_4),
            final(self)@.wf(),
    {
        self.tokenize_state.token_4 = token_4;
    }

    /// Try a construct: continue in `ok` if it matches, otherwise go back to
    /// the current position and continue in `nok`.
    pub fn attempt(&mut self, ok: State, nok: State)
        requires
            old(self)@.wf(),
        ensures
            final(self)@ == old(self)@.attempt(ok, nok),
            final(self)@.wf(),
    {
        let attempt = Attempt {
            ok,
            nok,
            index: self.index,
            previous: self.previous,
            current: self.current,
            events_len: self.events.len(),
        };
        self.attempts.push(attempt);
    }
}

impl TokenizeState {
    /// All slots cleared.
    pub open spec fn cleared() -> TokenizeState {
        TokenizeState {
            size: 0,
            size_c: 0,
            seen: false,
            marker: 0,
            token_1: Name::Data,
            token_4: Name::Data,
        }
    }

    /// All slots cleared.
    pub fn new() -> (state: TokenizeState)
        ensures
            state == TokenizeState::cleared(),
    {
        TokenizeState {
            size: 0,
            size_c: 0,
            seen: false,
            marker: 0,
            token_1: Name::Data,
            token_4: Name::Data,
        }
    }
}

} // verus!
