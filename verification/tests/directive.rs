use markdown_constructs::event::{Event, EventKind, Name};
use markdown_constructs::event::EventKind::{Enter, Exit};
use markdown_constructs::machine::feed;
use markdown_constructs::state::{State, StateName};
use markdown_constructs::tokenizer::{Constructs, Tokenizer};

const ON: Constructs = Constructs { directive: true, wiki: false };
const OFF: Constructs = Constructs { directive: false, wiki: false };

/// Run the construct that starts in `start` at `index` of `src`.
fn run(src: &str, index: usize, start: StateName, constructs: Constructs) -> (State, Tokenizer) {
    let mut tokenizer = Tokenizer::new(src.as_bytes().to_vec(), constructs, index);
    let state = feed(&mut tokenizer, start);
    (state, tokenizer)
}

/// The texts of the units named `name`, in order.
fn units(src: &str, events: &[Event], name: Name) -> Vec<String> {
    let mut out = Vec::new();
    let mut open = None;
    for event in events {
        if event.name == name {
            match event.kind {
                EventKind::Enter => open = Some(event.index),
                EventKind::Exit => {
                    let from = open.take().expect("an enter before the exit");
                    out.push(String::from_utf8(src.as_bytes()[from..event.index].to_vec()).unwrap());
                },
            }
        }
    }
    out
}

fn strings(items: &[&str]) -> Vec<String> {
    items.iter().map(|s| s.to_string()).collect()
}

/// Whether the events open and close units in a properly nested way.
fn balanced(events: &[Event]) -> bool {
    let mut stack = Vec::new();
    for event in events {
        match event.kind {
            EventKind::Enter => stack.push(event.name),
            EventKind::Exit => {
                if stack.pop() != Some(event.name) {
                    return false;
                }
            },
        }
    }
    stack.is_empty()
}

#[test]
fn text_directive() {
    let src = ":text[label]{key=value}";
    let (state, t) = run(src, 0, StateName::DirectiveTextStart, ON);
    assert_eq!(state, State::Okay, "should parse a text directive with a label and attributes");
    assert_eq!(t.index, 23);
    assert_eq!(units(src, &t.events, Name::DirectiveText), strings(&[src]));
    assert_eq!(units(src, &t.events, Name::DirectiveName), strings(&["text"]));
    assert_eq!(units(src, &t.events, Name::DirectiveLabelString), strings(&["label"]));
    assert_eq!(units(src, &t.events, Name::DirectiveAttributeName), strings(&["key"]));
    assert_eq!(units(src, &t.events, Name::DirectiveAttributeValue), strings(&["value"]));
    // The label ends at offset 11 (column 12).
    assert_eq!(units(src, &t.events, Name::DirectiveLabel), strings(&["[label]"]));
    assert!(balanced(&t.events));
}

#[test]
fn leaf_directive() {
    let src = "::video[label]{src=clip.mp4}";
    let (state, t) = run(src, 0, StateName::DirectiveLeafStart, ON);
    assert_eq!(state, State::Okay, "should parse a leaf directive with a label and attributes");
    assert_eq!(t.index, 28);
    assert_eq!(units(src, &t.events, Name::DirectiveName), strings(&["video"]));
    assert_eq!(units(src, &t.events, Name::DirectiveLabelString), strings(&["label"]));
    assert_eq!(units(src, &t.events, Name::DirectiveAttributeName), strings(&["src"]));
    assert_eq!(units(src, &t.events, Name::DirectiveAttributeValue), strings(&["clip.mp4"]));
    assert!(balanced(&t.events));
}

#[test]
fn container_directive_basic() {
    let src = ":::note\ncontent\n:::";
    let (state, t) = run(src, 0, StateName::DirectiveContainerStart, ON);
    assert_eq!(state, State::Okay, "the opening fence");
    assert_eq!(t.index, 7);
    assert_eq!(units(src, &t.events, Name::DirectiveName), strings(&["note"]));
    let (state, t) = run(src, 8, StateName::DirectiveContainerStart, ON);
    assert_eq!(state, State::Nok, "`content` is not a fence");
    assert!(t.attempts.is_empty());
    let (state, t) = run(src, 16, StateName::DirectiveContainerStart, ON);
    assert_eq!(state, State::Okay, "the closing fence");
    assert_eq!(t.index, 19);
    assert!(units(src, &t.events, Name::DirectiveName).is_empty());
    assert_eq!(units(src, &t.events, Name::DirectiveContainerSequence), strings(&[":::"]));
}

#[test]
fn container_directive_attributes() {
    let src = ":::note{title=\"Hello\"}\ncontent\n:::";
    let (state, t) = run(src, 0, StateName::DirectiveContainerStart, ON);
    assert_eq!(state, State::Okay);
    assert_eq!(t.index, 22);
    assert_eq!(units(src, &t.events, Name::DirectiveName), strings(&["note"]));
    assert_eq!(units(src, &t.events, Name::DirectiveAttributeName), strings(&["title"]));
    assert_eq!(
        units(src, &t.events, Name::DirectiveAttributeValue),
        strings(&["Hello"]),
        "should parse a quoted attribute value"
    );
    assert_eq!(units(src, &t.events, Name::DirectiveAttributeValueMarker), strings(&["\"", "\""]));
}

#[test]
fn directive_attributes_id_class() {
    let src = ":x{#i .c1 .c2 k=v}";
    let (state, t) = run(src, 0, StateName::DirectiveTextStart, ON);
    assert_eq!(state, State::Okay);
    assert_eq!(t.index, src.len());
    assert_eq!(units(src, &t.events, Name::DirectiveAttributeId), strings(&["i"]));
    assert_eq!(units(src, &t.events, Name::DirectiveAttributeClass), strings(&["c1", "c2"]));
    assert_eq!(units(src, &t.events, Name::DirectiveAttributeName), strings(&["k"]));
    assert_eq!(units(src, &t.events, Name::DirectiveAttributeValue), strings(&["v"]));
    assert_eq!(units(src, &t.events, Name::DirectiveAttribute).len(), 4);
    assert!(balanced(&t.events));
}

#[test]
fn container_directive_eof_auto_close() {
    let src = ":::note\ncontent without close";
    let (state, t) = run(src, 0, StateName::DirectiveContainerStart, ON);
    assert_eq!(state, State::Okay);
    assert_eq!(t.index, 7);
    let (state, _) = run(src, 8, StateName::DirectiveContainerStart, ON);
    assert_eq!(state, State::Nok, "no closing fence in the document");
}

#[test]
fn directives_disabled_by_default() {
    let src = ":::note\ncontent\n:::";
    assert_eq!(run(src, 0, StateName::DirectiveContainerStart, OFF).0, State::Nok);
    assert_eq!(run("::note", 0, StateName::DirectiveLeafStart, OFF).0, State::Nok);
    assert_eq!(run(":note", 0, StateName::DirectiveTextStart, OFF).0, State::Nok);
}

#[test]
fn directive_after_blockquote_without_blank() {
    let src = "> a\n::note";
    let (state, t) = run(src, 4, StateName::DirectiveLeafStart, ON);
    assert_eq!(state, State::Okay);
    assert_eq!(t.index, src.len());
    assert_eq!(units(src, &t.events, Name::DirectiveName), strings(&["note"]));
}

#[test]
fn text_directive_negatives() {
    let src = "foo:bar baz";
    let (state, t) = run(src, 3, StateName::DirectiveTextStart, ON);
    assert_eq!(state, State::Okay);
    assert_eq!(t.index, 7);
    assert_eq!(units(src, &t.events, Name::DirectiveName), strings(&["bar"]));
    let src = "a ::b inline";
    assert_eq!(run(src, 2, StateName::DirectiveTextStart, ON).0, State::Nok, "a ::b is plain text");
    assert_eq!(run(src, 3, StateName::DirectiveTextStart, ON).0, State::Nok, "a ::b is plain text");
}

#[test]
fn text_directive_name_rules() {
    assert_eq!(run(":b:", 0, StateName::DirectiveTextStart, ON).0, State::Nok, "`:b:` is not one");
    assert_eq!(run(":ab-", 0, StateName::DirectiveTextStart, ON).0, State::Nok);
    assert_eq!(run(":ab_ x", 0, StateName::DirectiveTextStart, ON).0, State::Nok);
    assert_eq!(run(":1", 0, StateName::DirectiveTextStart, ON).1.index, 2);
    assert_eq!(run(": a", 0, StateName::DirectiveTextStart, ON).0, State::Nok);
    assert_eq!(run(":-a", 0, StateName::DirectiveTextStart, ON).0, State::Nok);
    let (state, t) = run(":a-b_c d", 0, StateName::DirectiveTextStart, ON);
    assert_eq!(state, State::Okay);
    assert_eq!(t.index, 6);
}

#[test]
fn text_directive_unicode_names() {
    let src = ":café!";
    let (state, t) = run(src, 0, StateName::DirectiveTextStart, ON);
    assert_eq!(state, State::Okay);
    assert_eq!(units(src, &t.events, Name::DirectiveName), strings(&["café"]));
    // An em dash is punctuation: it cannot start a name.
    assert_eq!(run(":\u{2014}x", 0, StateName::DirectiveTextStart, ON).0, State::Nok);
    // A no-break space is whitespace: it ends a name.
    let src = ":ab\u{a0}c";
    let (state, t) = run(src, 0, StateName::DirectiveTextStart, ON);
    assert_eq!(state, State::Okay);
    assert_eq!(t.index, 3);
    // A symbol ends a name too.
    let src = ":ab\u{20ac}";
    assert_eq!(run(src, 0, StateName::DirectiveTextStart, ON).1.index, 3);
    // A lone continuation byte reads as U+FFFD, a symbol: it cannot start a name.
    let bytes = vec![b':', 0xBF];
    let mut t = Tokenizer::new(bytes, ON, 0);
    assert_eq!(feed(&mut t, StateName::DirectiveTextStart), State::Nok);
}

#[test]
fn text_directive_labels() {
    let src = ":a[b[c]d]e";
    let (state, t) = run(src, 0, StateName::DirectiveTextStart, ON);
    assert_eq!(state, State::Okay);
    assert_eq!(units(src, &t.events, Name::DirectiveLabelString), strings(&["b[c]d"]));
    assert_eq!(t.index, 9);
    let src = ":a[b\\]c]";
    let (state, t) = run(src, 0, StateName::DirectiveTextStart, ON);
    assert_eq!(state, State::Okay);
    assert_eq!(units(src, &t.events, Name::DirectiveLabelString), strings(&["b\\]c"]));
    // An unclosed label is not part of the directive.
    let src = ":a[b\nc]";
    let (state, t) = run(src, 0, StateName::DirectiveTextStart, ON);
    assert_eq!(state, State::Okay);
    assert_eq!(t.index, 2);
    assert!(units(src, &t.events, Name::DirectiveLabel).is_empty());
    assert!(balanced(&t.events));
}

#[test]
fn text_directive_attribute_forms() {
    let src = ":a{b='c d' e=f g}";
    let (state, t) = run(src, 0, StateName::DirectiveTextStart, ON);
    assert_eq!(state, State::Okay);
    assert_eq!(t.index, src.len());
    assert_eq!(units(src, &t.events, Name::DirectiveAttributeName), strings(&["b", "e", "g"]));
    assert_eq!(units(src, &t.events, Name::DirectiveAttributeValue), strings(&["c d", "f"]));
    // A malformed list is left out; the directive ends after its name.
    for bad in [":a{b=<}", ":a{b=\"c}", ":a{#x\"}", ":a{b", ":a{=b}", ":a{b= c}"] {
        let (state, t) = run(bad, 0, StateName::DirectiveTextStart, ON);
        assert_eq!(state, State::Okay, "{:?}", bad);
        assert_eq!(t.index, 2, "{:?}", bad);
        assert!(units(bad, &t.events, Name::DirectiveAttributes).is_empty(), "{:?}", bad);
        assert!(balanced(&t.events), "{:?}", bad);
    }
}

#[test]
fn leaf_directive_shapes() {
    let (state, t) = run("::a  \nb", 0, StateName::DirectiveLeafStart, ON);
    assert_eq!(state, State::Okay);
    assert_eq!(t.index, 5);
    assert_eq!(t.events.last().map(|e| (e.kind, e.name)), Some((EventKind::Exit, Name::DirectiveLeaf)));
    assert_eq!(run(":::a", 0, StateName::DirectiveLeafStart, ON).0, State::Nok, "three colons");
    assert_eq!(run(":a", 0, StateName::DirectiveLeafStart, ON).0, State::Nok, "one colon");
    assert_eq!(run("::a b", 0, StateName::DirectiveLeafStart, ON).0, State::Nok, "trailing text");
    assert_eq!(run("::", 0, StateName::DirectiveLeafStart, ON).0, State::Nok, "no name");
    assert_eq!(run("::a[b]{c}\t", 0, StateName::DirectiveLeafStart, ON).1.index, 10);
}

#[test]
fn container_fence_shapes() {
    let (state, t) = run("::::: \n", 0, StateName::DirectiveContainerStart, ON);
    assert_eq!(state, State::Okay, "a closing fence with trailing space");
    assert_eq!(t.index, 6);
    assert_eq!(run("::", 0, StateName::DirectiveContainerStart, ON).0, State::Nok);
    assert_eq!(run(":::a b", 0, StateName::DirectiveContainerStart, ON).0, State::Nok);
    assert_eq!(run("::: x", 0, StateName::DirectiveContainerStart, ON).0, State::Nok);
    let (state, t) = run(":::a[b]", 0, StateName::DirectiveContainerStart, ON);
    assert_eq!(state, State::Okay);
    assert_eq!(t.index, 7);
    assert_eq!(t.tokenize_state.size, 0);
    assert!(balanced(&t.events));
}

#[test]
fn nested_fence_lines() {
    let src = ":::outer\n:::inner\nx\n:::\n:::";
    let fence = |index: usize| run(src, index, StateName::DirectiveContainerStart, ON);
    let (state, t) = fence(0);
    assert_eq!(state, State::Okay);
    assert_eq!(units(src, &t.events, Name::DirectiveName), strings(&["outer"]));
    let (state, t) = fence(9);
    assert_eq!(state, State::Okay);
    assert_eq!(units(src, &t.events, Name::DirectiveName), strings(&["inner"]));
    assert_eq!(fence(18).0, State::Nok);
    for index in [20, 24] {
        let (state, t) = fence(index);
        assert_eq!(state, State::Okay, "closing fence at {}", index);
        assert!(units(src, &t.events, Name::DirectiveName).is_empty());
    }
}

#[test]
fn exact_events_of_a_text_directive() {
    let src = ":a[b]{#c}";
    let (state, t) = run(src, 0, StateName::DirectiveTextStart, ON);
    assert_eq!(state, State::Okay);
    let seen: Vec<(EventKind, Name, usize)> =
        t.events.iter().map(|e| (e.kind, e.name, e.index)).collect();
    assert_eq!(
        seen,
        vec![
            (Enter, Name::DirectiveText, 0),
            (Enter, Name::DirectiveTextMarker, 0),
            (Exit, Name::DirectiveTextMarker, 1),
            (Enter, Name::DirectiveName, 1),
            (Exit, Name::DirectiveName, 2),
            (Enter, Name::DirectiveLabel, 2),
            (Enter, Name::DirectiveLabelMarker, 2),
            (Exit, Name::DirectiveLabelMarker, 3),
            (Enter, Name::DirectiveLabelString, 3),
            (Exit, Name::DirectiveLabelString, 4),
            (Enter, Name::DirectiveLabelMarker, 4),
            (Exit, Name::DirectiveLabelMarker, 5),
            (Exit, Name::DirectiveLabel, 5),
            (Enter, Name::DirectiveAttributes, 5),
            (Enter, Name::DirectiveAttributesMarker, 5),
            (Exit, Name::DirectiveAttributesMarker, 6),
            (Enter, Name::DirectiveAttribute, 6),
            (Enter, Name::DirectiveAttributeIdMarker, 6),
            (Exit, Name::DirectiveAttributeIdMarker, 7),
            (Enter, Name::DirectiveAttributeId, 7),
            (Exit, Name::DirectiveAttributeId, 8),
            (Exit, Name::DirectiveAttribute, 8),
            (Enter, Name::DirectiveAttributesMarker, 8),
            (Exit, Name::DirectiveAttributesMarker, 9),
            (Exit, Name::DirectiveAttributes, 9),
            (Exit, Name::DirectiveText, 9),
        ]
    );
}

#[test]
fn carriage_returns_end_lines() {
    for src in ["::a\r\nb", "::a\rb", "::a  \r\n"] {
        let (state, t) = run(src, 0, StateName::DirectiveLeafStart, ON);
        assert_eq!(state, State::Okay, "{:?}", src);
        assert_eq!(t.index, src.find('\r').unwrap(), "{:?}", src);
    }
    let (state, t) = run(":::a\r\n", 0, StateName::DirectiveContainerStart, ON);
    assert_eq!(state, State::Okay);
    assert_eq!(t.index, 4);
    assert_eq!(run(":::\r\n", 0, StateName::DirectiveContainerStart, ON).1.index, 3);
    // A label or a quoted value does not run across a carriage return.
    let (state, t) = run(":a[b\rc]", 0, StateName::DirectiveTextStart, ON);
    assert_eq!(state, State::Okay);
    assert_eq!(t.index, 2);
    let (state, t) = run(":a{b=\"c\rd\"}", 0, StateName::DirectiveTextStart, ON);
    assert_eq!(state, State::Okay);
    assert_eq!(t.index, 2);
}

#[test]
fn empty_id_or_class_is_not_an_attribute() {
    for src in [":x{#}", ":x{.}", ":x{# a}", ":x{.a .}", ":x{#.a}"] {
        let (state, t) = run(src, 0, StateName::DirectiveTextStart, ON);
        assert_eq!(state, State::Okay, "{:?}", src);
        assert_eq!(t.index, 2, "{:?}: the attribute list is left out", src);
        assert!(units(src, &t.events, Name::DirectiveAttributes).is_empty(), "{:?}", src);
    }
}

#[test]
fn empty_label_has_no_string() {
    let src = ":x[]";
    let (state, t) = run(src, 0, StateName::DirectiveTextStart, ON);
    assert_eq!(state, State::Okay);
    assert_eq!(t.index, 4);
    assert_eq!(units(src, &t.events, Name::DirectiveLabel), strings(&["[]"]));
    assert!(units(src, &t.events, Name::DirectiveLabelString).is_empty());
    assert!(t.events.windows(2).all(|w| !(w[0].kind == Enter && w[1].kind == Exit
        && w[0].name == w[1].name && w[0].index == w[1].index)));
    assert!(balanced(&t.events));
}

#[test]
fn empty_quoted_value_has_no_value_unit() {
    let src = ":x{k=\"\" m=''}";
    let (state, t) = run(src, 0, StateName::DirectiveTextStart, ON);
    assert_eq!(state, State::Okay);
    assert_eq!(t.index, src.len());
    assert_eq!(units(src, &t.events, Name::DirectiveAttributeName), strings(&["k", "m"]));
    assert!(units(src, &t.events, Name::DirectiveAttributeValue).is_empty());
    assert_eq!(units(src, &t.events, Name::DirectiveAttribute).len(), 2);
    assert_eq!(t.tokenize_state.marker, 0);
    assert!(balanced(&t.events));
}

#[test]
fn escaped_colon_does_not_block_a_text_directive() {
    let src = "\\::b";
    let (state, t) = run(src, 2, StateName::DirectiveTextStart, ON);
    assert_eq!(state, State::Okay, "the colon before is escaped");
    assert_eq!(units(src, &t.events, Name::DirectiveName), strings(&["b"]));
    // An escaped backslash leaves the colon unescaped.
    assert_eq!(run("\\\\::b", 3, StateName::DirectiveTextStart, ON).0, State::Nok);
    assert_eq!(run("\\\\\\::b", 4, StateName::DirectiveTextStart, ON).0, State::Okay);
}
