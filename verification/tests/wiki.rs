use markdown_constructs::event::{EventKind, Name};
use markdown_constructs::machine::feed;
use markdown_constructs::state::{State, StateName};
use markdown_constructs::tokenizer::{Constructs, Tokenizer};
use markdown_constructs::wiki_syntax::{parse_wiki, WikiParts};

fn text(src: &str, range: (usize, usize)) -> String {
    String::from_utf8(src.as_bytes()[range.0..range.1].to_vec()).unwrap()
}

fn opt_text(src: &str, range: Option<(usize, usize)>) -> Option<String> {
    range.map(|r| text(src, r))
}

/// Parse the wiki node (an embed when `src` starts with `!`) at `index`.
fn parse_at(src: &str, index: usize) -> Option<WikiParts> {
    let embed = src.as_bytes().get(index) == Some(&b'!');
    parse_wiki(&src.as_bytes().to_vec(), index, embed)
}

/// Target, fragment, alias and end of the wiki node at `index`.
fn fields(src: &str, index: usize) -> (String, Option<String>, Option<String>, usize) {
    let parts = parse_at(src, index).expect("a wiki node");
    (
        text(src, parts.target),
        opt_text(src, parts.fragment),
        opt_text(src, parts.alias),
        parts.end,
    )
}

fn run_wiki(src: &str, index: usize, constructs: Constructs, label_open: bool) -> State {
    let mut tokenizer = Tokenizer::new(src.as_bytes().to_vec(), constructs, index);
    if label_open {
        tokenizer.label_starts.push(0);
    }
    let start = if src.as_bytes()[index] == b'!' {
        StateName::WikiEmbedStart
    } else {
        StateName::WikiLinkStart
    };
    feed(&mut tokenizer, start)
}

const WIKI_ON: Constructs = Constructs { directive: false, wiki: true };

#[test]
fn wiki_link_basic() {
    assert_eq!(
        fields("[[Page]]", 0),
        ("Page".to_string(), None, None, 8),
        "should parse a basic wiki link"
    );
}

#[test]
fn wiki_link_fragment() {
    assert_eq!(
        fields("[[Page#Heading]]", 0),
        ("Page".to_string(), Some("Heading".to_string()), None, 16),
        "should parse a wiki link with a fragment"
    );
}

#[test]
fn wiki_link_alias() {
    assert_eq!(
        fields("[[Page|Alias]]", 0),
        ("Page".to_string(), None, Some("Alias".to_string()), 14),
        "should parse a wiki link with an alias"
    );
}

#[test]
fn wiki_link_fragment_alias() {
    assert_eq!(
        fields("[[Page#Heading|Alias]]", 0),
        (
            "Page".to_string(),
            Some("Heading".to_string()),
            Some("Alias".to_string()),
            22
        ),
        "should parse target#fragment|alias in order"
    );
}

#[test]
fn wiki_repeated_separators_are_literal() {
    assert_eq!(
        fields("[[a#b#c]]", 0),
        ("a".to_string(), Some("b#c".to_string()), None, 9),
        "a later `#` should be literal in the fragment"
    );
    assert_eq!(
        fields("[[a|b|c]]", 0),
        ("a".to_string(), None, Some("b|c".to_string()), 9),
        "a later `|` should be literal in the alias"
    );
    assert_eq!(
        fields("![[a#b#c]]", 0),
        ("a".to_string(), Some("b#c".to_string()), None, 10),
        "a later `#` should be literal in an embed fragment"
    );
    assert_eq!(
        fields("![[a|b|c]]", 0),
        ("a".to_string(), None, Some("b|c".to_string()), 10),
        "a later `|` should be literal in an embed alias"
    );
}

#[test]
fn wiki_link_same_note() {
    assert_eq!(
        fields("[[#Heading]]", 0),
        (String::new(), Some("Heading".to_string()), None, 12),
        "should parse a same-note heading link with an empty target"
    );
    assert_eq!(
        fields("[[#^block]]", 0),
        (String::new(), Some("^block".to_string()), None, 11),
        "should parse a same-note block link"
    );
}

#[test]
fn wiki_question_mark_is_literal() {
    assert_eq!(
        fields("[[Page?x]]", 0),
        ("Page?x".to_string(), None, None, 10),
        "`?` should be part of the target, not a query delimiter"
    );
}

#[test]
fn wiki_embed_basic() {
    let parts = parse_at("![[image.png]]", 0).expect("an embed");
    assert!(parts.embed);
    assert_eq!(
        fields("![[image.png]]", 0),
        ("image.png".to_string(), None, None, 14),
        "should parse a basic wiki embed"
    );
}

#[test]
fn wiki_embed_fragment_alias() {
    assert_eq!(
        fields("![[clip.mp4#t=10|My Video]]", 0),
        (
            "clip.mp4".to_string(),
            Some("t=10".to_string()),
            Some("My Video".to_string()),
            27
        ),
        "should parse an embed with fragment and alias"
    );
}

#[test]
fn wiki_embed_same_note() {
    assert_eq!(
        fields("![[note#^block]]", 0),
        ("note".to_string(), Some("^block".to_string()), None, 16),
        "should parse an embed of a block within a note"
    );
    assert_eq!(
        fields("![[#^block]]", 0),
        (String::new(), Some("^block".to_string()), None, 12),
        "should parse a same-note block embed with an empty target"
    );
}

#[test]
fn wiki_empty_trailing_segments_are_text() {
    for src in ["[[Page#]]", "[[Page|]]", "[[Page#|Alias]]"] {
        assert_eq!(parse_at(src, 0), None, "{:?} should not parse as a wiki link", src);
        let embed = format!("!{}", src);
        assert_eq!(parse_at(&embed, 0), None, "{:?} should not parse as a wiki embed", embed);
    }
}

#[test]
fn wiki_truly_empty_is_text() {
    for src in ["[[]]", "[[#]]", "[[|x]]"] {
        assert_eq!(parse_at(src, 0), None, "{:?} should not parse as a wiki link", src);
        let embed = format!("!{}", src);
        assert_eq!(parse_at(&embed, 0), None, "{:?} should not parse as a wiki embed", embed);
    }
}

#[test]
fn wiki_incomplete_is_text() {
    assert_eq!(
        parse_at("a [[unclosed", 2),
        None,
        "an unterminated wiki link should be plain text"
    );
}

#[test]
fn wiki_shielded_in_label() {
    assert_eq!(
        run_wiki("[a [[b]]](c)", 3, WIKI_ON, true),
        State::Nok,
        "no wiki node inside an open link label"
    );
    assert_eq!(
        run_wiki("![alt [[b]]](c)", 6, WIKI_ON, true),
        State::Nok,
        "no wiki node inside an open image label"
    );
}

#[test]
fn wiki_shielded_under_open_label() {
    assert_eq!(run_wiki("[a [[b]]", 3, WIKI_ON, true), State::Nok);
    assert_eq!(run_wiki("![a ![[b]]", 4, WIKI_ON, true), State::Nok);
    assert_eq!(
        run_wiki("[a [[b]]", 3, WIKI_ON, false),
        State::Okay,
        "without a pending label opener the same bytes form a wiki link"
    );
}

#[test]
fn wiki_precedence_over_link() {
    assert_eq!(
        fields("[[Page]](url)", 0),
        ("Page".to_string(), None, None, 8),
        "the wiki link should cover only `[[Page]]`"
    );
}

#[test]
fn wiki_proving_case() {
    let src = "See [[Page|Alias]] and ![[image.png]].";
    assert_eq!(
        fields(src, 4),
        ("Page".to_string(), None, Some("Alias".to_string()), 18),
        "wiki link should have correct fields + position"
    );
    let embed = parse_at(src, 23).expect("an embed");
    assert!(embed.embed);
    assert_eq!(embed.start, 23);
    assert_eq!(
        fields(src, 23),
        ("image.png".to_string(), None, None, 37),
        "wiki embed should have correct fields + position"
    );
}

#[test]
fn wiki_disabled_by_default() {
    let off = Constructs { directive: false, wiki: false };
    assert_eq!(run_wiki("[[Page]]", 0, off, false), State::Nok);
    assert_eq!(run_wiki("![[Page]]", 0, off, false), State::Nok);
}

#[test]
fn wiki_events_of_a_link() {
    let src = "[[Page#H|A]]";
    let mut tokenizer = Tokenizer::new(src.as_bytes().to_vec(), WIKI_ON, 0);
    assert_eq!(feed(&mut tokenizer, StateName::WikiLinkStart), State::Okay);
    let names: Vec<(EventKind, Name, usize)> =
        tokenizer.events.iter().map(|e| (e.kind, e.name, e.index)).collect();
    assert_eq!(
        names,
        vec![
            (EventKind::Enter, Name::WikiLink, 0),
            (EventKind::Enter, Name::WikiMarker, 0),
            (EventKind::Exit, Name::WikiMarker, 2),
            (EventKind::Enter, Name::WikiTarget, 2),
            (EventKind::Exit, Name::WikiTarget, 6),
            (EventKind::Enter, Name::WikiFragmentMarker, 6),
            (EventKind::Exit, Name::WikiFragmentMarker, 7),
            (EventKind::Enter, Name::WikiFragment, 7),
            (EventKind::Exit, Name::WikiFragment, 8),
            (EventKind::Enter, Name::WikiAliasMarker, 8),
            (EventKind::Exit, Name::WikiAliasMarker, 9),
            (EventKind::Enter, Name::WikiAlias, 9),
            (EventKind::Exit, Name::WikiAlias, 10),
            (EventKind::Enter, Name::WikiMarker, 10),
            (EventKind::Exit, Name::WikiMarker, 12),
            (EventKind::Exit, Name::WikiLink, 12),
        ]
    );
    assert_eq!(tokenizer.index, 12);
}

#[test]
fn wiki_failure_leaves_no_attempt() {
    let mut tokenizer = Tokenizer::new(b"[[a\nb]]".to_vec(), WIKI_ON, 0);
    assert_eq!(feed(&mut tokenizer, StateName::WikiLinkStart), State::Nok);
    assert!(tokenizer.attempts.is_empty());
    assert_eq!(parse_wiki(&b"[[a\nb]]".to_vec(), 0, false), None, "wiki syntax is single-line");
}

#[test]
fn wiki_single_bracket_closer_is_text() {
    assert_eq!(parse_at("[[a]b]]", 0), None, "a lone `]` in the target ends nothing");
    assert_eq!(parse_at("[[a]", 0), None);
}

#[test]
fn wiki_non_ascii_fields() {
    assert_eq!(
        fields("[[Café#Über|日本]]", 0),
        ("Café".to_string(), Some("Über".to_string()), Some("日本".to_string()), 22)
    );
}

#[test]
fn wiki_obsidian_search_forms_are_raw() {
    assert_eq!(
        fields("[[## team]]", 0),
        (String::new(), Some("# team".to_string()), None, 11),
        "`[[## team]]` is an empty target with fragment `# team`"
    );
    assert_eq!(
        fields("[[^^block]]", 0),
        ("^^block".to_string(), None, None, 11),
        "`[[^^block]]` is the target `^^block`"
    );
}
