use markdown_constructs::to_markdown::{
    reason_with, serialize_wiki, validate_wiki, wiki_error, Message, WikiEmbed, WikiError,
    WikiField, WikiLink,
};
use markdown_constructs::wiki_syntax::parse_wiki;

fn link(target: &str, fragment: Option<&str>, alias: Option<&str>) -> WikiLink {
    WikiLink {
        target: target.to_string(),
        fragment: fragment.map(|s| s.to_string()),
        alias: alias.map(|s| s.to_string()),
    }
}

/// Serialize a link as a document of its own (the document ends in a line
/// feed).
fn to(link: &WikiLink) -> Result<String, Message> {
    link.handle().map(|s| format!("{}\n", s))
}

/// Parse the wiki node that spans `src`, then serialize its fields again.
fn roundtrip(src: &str) -> String {
    let bytes = src.as_bytes().to_vec();
    let embed = src.starts_with('!');
    let parts = parse_wiki(&bytes, 0, embed).expect("a wiki node");
    assert_eq!(parts.end, bytes.len());
    let slice = |r: (usize, usize)| String::from_utf8(bytes[r.0..r.1].to_vec()).unwrap();
    let target = slice(parts.target);
    let fragment = parts.fragment.map(slice);
    let alias = parts.alias.map(slice);
    format!(
        "{}\n",
        serialize_wiki(embed, &target, fragment.as_deref(), alias.as_deref()).unwrap()
    )
}

#[test]
fn wiki_link_serialize() {
    assert_eq!(
        to(&link("Page", None, None)).unwrap(),
        "[[Page]]\n",
        "should serialize a basic wiki link"
    );
    assert_eq!(
        to(&link("Page", Some("H"), Some("Alias"))).unwrap(),
        "[[Page#H|Alias]]\n",
        "should serialize target#fragment|alias in order"
    );
    assert_eq!(
        to(&link("", Some("Heading"), None)).unwrap(),
        "[[#Heading]]\n",
        "should serialize an empty-target same-note link"
    );
}

#[test]
fn wiki_embed_serialize() {
    let embed = WikiEmbed {
        target: "clip.mp4".to_string(),
        fragment: Some("t=10".to_string()),
        alias: None,
    };
    assert_eq!(
        format!("{}\n", embed.handle().unwrap()),
        "![[clip.mp4#t=10]]\n",
        "should serialize an embed with a leading `!`"
    );
}

#[test]
fn wiki_roundtrip() {
    for src in [
        "[[Page]]",
        "[[Page#Heading]]",
        "[[Page|Alias]]",
        "[[Page#Heading|Alias]]",
        "[[#Heading]]",
        "[[#^block]]",
        "![[image.png]]",
        "![[note#^block]]",
        "![[clip.mp4#t=10|My Video]]",
    ] {
        assert_eq!(roundtrip(src), format!("{}\n", src), "should round-trip {:?}", src);
    }
}

#[test]
fn wiki_rejects_unrepresentable_fields() {
    let cases = [
        link("Page#literal", None, None),
        link("Page|literal", None, None),
        link("Page", None, Some("alias]]tail")),
        link("Page", Some("a[b"), None),
        link("Page", Some("a\nb"), None),
        link("Page", Some("a|b"), None),
        link("Page", Some(""), None),
        link("Page", None, Some("")),
        link("", None, Some("Alias")),
    ];
    for case in cases {
        assert!(to(&case).is_err(), "should reject an unrepresentable wiki link: {:?}", case);
    }
    let embed = WikiEmbed { target: "a]]b".to_string(), fragment: None, alias: None };
    assert!(embed.handle().is_err(), "should reject an unrepresentable wiki embed");
    assert_eq!(
        to(&link("", Some("Heading"), None)).unwrap(),
        "[[#Heading]]\n",
        "an empty target with a fragment should still serialize"
    );
}

fn reason(target: &str, fragment: Option<&str>, alias: Option<&str>) -> String {
    let message = validate_wiki(target, fragment, alias).unwrap_err();
    assert_eq!(message.rule_id, "unrepresentable-wiki");
    assert_eq!(message.source, "mdast-util-to-markdown");
    message.reason
}

#[test]
fn wiki_error_for_each_rule() {
    assert_eq!(
        reason("a]b", None, None),
        "wiki target cannot contain ']': it would break `[[ … ]]`"
    );
    assert_eq!(
        reason("a", Some("x\ry"), None),
        "wiki fragment cannot contain '\\r': it would break `[[ … ]]`"
    );
    assert_eq!(
        reason("a", None, Some("[x")),
        "wiki alias cannot contain '[': it would break `[[ … ]]`"
    );
    assert_eq!(
        reason("a|b#c", None, None),
        "wiki target cannot contain '|': it would open a fragment or alias"
    );
    assert_eq!(
        reason("a#b|c", None, None),
        "wiki target cannot contain '#': it would open a fragment or alias"
    );
    assert_eq!(
        reason("a", Some("b|c"), None),
        "wiki fragment cannot contain '|': it would open an alias"
    );
    assert_eq!(
        reason("a", Some(""), None),
        "wiki fragment cannot be empty: use `None`, a bare `#` reparses as plain text"
    );
    assert_eq!(
        reason("a", None, Some("")),
        "wiki alias cannot be empty: use `None`, a bare `|` reparses as plain text"
    );
    assert_eq!(reason("", None, Some("x")), "wiki link needs a non-empty target or fragment");
    assert_eq!(reason("", None, None), "wiki link needs a non-empty target or fragment");
    assert_eq!(validate_wiki("a", Some("b#c"), Some("d|e#f")), Ok(()));
}

#[test]
fn wiki_error_order() {
    // A frame break is reported before anything else, target first.
    assert_eq!(
        reason("a#b", Some("]"), Some("")),
        "wiki fragment cannot contain ']': it would break `[[ … ]]`"
    );
    // The first offending character is the one reported.
    assert_eq!(
        reason("x\n]", None, None),
        "wiki target cannot contain '\\n': it would break `[[ … ]]`"
    );
    assert_eq!(
        serialize_wiki(true, "a", Some(""), None).unwrap_err().reason,
        "wiki fragment cannot be empty: use `None`, a bare `#` reparses as plain text"
    );
}

#[test]
fn wiki_error_reasons() {
    assert_eq!(
        WikiError::BreaksFrame(WikiField::Alias, '\n').reason(),
        "wiki alias cannot contain '\\n': it would break `[[ … ]]`"
    );
    assert_eq!(
        WikiError::TargetOpensSegment('#').reason(),
        "wiki target cannot contain '#': it would open a fragment or alias"
    );
    assert_eq!(
        reason_with(WikiError::BreaksFrame(WikiField::Target, '['), "«x»"),
        "wiki target cannot contain «x»: it would break `[[ … ]]`"
    );
    assert_eq!(
        reason_with(WikiError::EmptyAlias, "ignored"),
        "wiki alias cannot be empty: use `None`, a bare `|` reparses as plain text"
    );
    let message = wiki_error("why".to_string());
    assert_eq!(
        message,
        Message {
            reason: "why".to_string(),
            rule_id: "unrepresentable-wiki".to_string(),
            source: "mdast-util-to-markdown".to_string(),
        }
    );
}

#[test]
fn wiki_serialize_non_ascii() {
    assert_eq!(
        serialize_wiki(false, "Café", Some("Über"), Some("日本")).unwrap(),
        "[[Café#Über|日本]]"
    );
    assert_eq!(roundtrip("![[Café#Über|日本]]"), "![[Café#Über|日本]]\n");
}

#[test]
fn wiki_serialize_then_parse() {
    let written = serialize_wiki(false, "a b", Some("c#d"), Some("e|f")).unwrap();
    assert_eq!(written, "[[a b#c#d|e|f]]");
    let bytes = written.as_bytes().to_vec();
    let parts = parse_wiki(&bytes, 0, false).expect("a wiki link");
    assert_eq!(parts.target, (2, 5));
    assert_eq!(parts.fragment, Some((6, 9)));
    assert_eq!(parts.alias, Some((10, 13)));
    assert_eq!(parts.end, bytes.len());
}

#[test]
fn wiki_carriage_return_is_a_line_ending() {
    for src in ["[[a\rb]]", "[[a#b\rc]]", "[[a|b\r\nc]]"] {
        assert_eq!(parse_wiki(&src.as_bytes().to_vec(), 0, false), None, "{:?}", src);
    }
    assert!(serialize_wiki(false, "a\rb", None, None).is_err());
}
