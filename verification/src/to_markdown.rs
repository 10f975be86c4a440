//! Serializing wiki links and embeds back to markdown.
//!
//! Wiki syntax has no escapes, so a node whose fields would change the parse
//! cannot be written: such a node is rejected instead of emitting markdown
//! that reparses to something else.

use vstd::prelude::*;

verus! {

/// Which field of a wiki node.
#[derive(Clone, Copy, Debug, PartialEq, Eq, Structural)]
pub enum WikiField {
    Target,
    Fragment,
    Alias,
}

/// Why a wiki node cannot be written as markdown.
#[derive(Clone, Copy, Debug, PartialEq, Eq, Structural)]
pub enum WikiError {
    /// The field holds a bracket or a line ending, which would break `[[ … ]]`.
    BreaksFrame(WikiField, char),
    /// The target holds `#` or `|`, which would open a fragment or an alias.
    TargetOpensSegment(char),
    /// The fragment holds `|`, which would open an alias.
    FragmentOpensAlias,
    /// The fragment is empty (a bare `#` reparses as plain text).
    EmptyFragment,
    /// The alias is empty (a bare `|` reparses as plain text).
    EmptyAlias,
    /// Neither a target nor a fragment.
    NoTargetOrFragment,
}

/// A wiki link node.
#[derive(Debug)]
pub struct WikiLink {
    pub target: String,
    pub fragment: Option<String>,
    pub alias: Option<String>,
}

/// A wiki embed node.
#[derive(Debug)]
pub struct WikiEmbed {
    pub target: String,
    pub fragment: Option<String>,
    pub alias: Option<String>,
}

/// A diagnostic about a node that cannot be serialized.
#[derive(Debug, PartialEq, Eq)]
pub struct Message {
    /// What is wrong.
    pub reason: String,
    /// The rule that was broken.
    pub rule_id: String,
    /// What emitted the diagnostic.
    pub source: String,
}

/// How `{:?}` shows a character (quoted, with escapes).
pub uninterp spec fn char_debug(c: char) -> Seq<char>;

/// The name of a field in a diagnostic.
pub open spec fn field_label(field: WikiField) -> Seq<char> {
    match field {
        WikiField::Target => "target"@,
        WikiField::Fragment => "fragment"@,
        WikiField::Alias => "alias"@,
    }
}

/// The reason given for an error, where `shown` is how the offending
/// character is shown.
pub open spec fn reason_from(error: WikiError, shown: Seq<char>) -> Seq<char> {
    match error {
        WikiError::BreaksFrame(field, _) => "wiki "@ + field_label(field) + " cannot contain "@
            + shown + ": it would break `[[ … ]]`"@,
        WikiError::TargetOpensSegment(_) => "wiki target cannot contain "@ + shown
            + ": it would open a fragment or alias"@,
        WikiError::FragmentOpensAlias => "wiki fragment cannot contain '|': it would open an alias"@,
        WikiError::EmptyFragment =>
            "wiki fragment cannot be empty: use `None`, a bare `#` reparses as plain text"@,
        WikiError::EmptyAlias =>
            "wiki alias cannot be empty: use `None`, a bare `|` reparses as plain text"@,
        WikiError::NoTargetOrFragment => "wiki link needs a non-empty target or fragment"@,
    }
}

/// The reason given for an error: the offending character shown as `{:?}`
/// shows it.
pub open spec fn reason_text(error: WikiError) -> Seq<char> {
    match error {
        WikiError::BreaksFrame(_, c) => reason_from(error, char_debug(c)),
        WikiError::TargetOpensSegment(c) => reason_from(error, char_debug(c)),
        _ => reason_from(error, Seq::empty()),
    }
}

/// `m` is the diagnostic for the verdict `check`: an error, with its reason,
/// under the `unrepresentable-wiki` rule.
pub open spec fn is_message_for(m: Message, check: Result<(), WikiError>) -> bool {
    &&& check matches Err(e) && m.reason@ == reason_text(e)
    &&& m.rule_id@ == "unrepresentable-wiki"@
    &&& m.source@ == "mdast-util-to-markdown"@
}

/// The character classes that validation looks for.
#[derive(Clone, Copy, Debug, PartialEq, Eq, Structural)]
pub enum CharClass {
    /// `[`, `]`, line feed, carriage return.
    FrameBreak,
    /// `#` and `|`.
    SegmentOpener,
    /// `|`.
    Pipe,
}

pub open spec fn in_class(class: CharClass, c: char) -> bool {
    match class {
        CharClass::FrameBreak => c == '[' || c == ']' || c == '\n' || c == '\r',
        CharClass::SegmentOpener => c == '#' || c == '|',
        CharClass::Pipe => c == '|',
    }
}

/// The first character of `s` in the class, if any.
pub open spec fn first_in(s: Seq<char>, class: CharClass) -> Option<char>
    decreases s.len(),
{
    if s.len() == 0 {
        None
    } else if in_class(class, s[0]) {
        Some(s[0])
    } else {
        first_in(s.drop_first(), class)
    }
}

/// No character of `s` is in the class.
pub open spec fn none_in(s: Seq<char>, class: CharClass) -> bool {
    forall|i: int| 0 <= i < s.len() ==> !in_class(class, #[trigger] s[i])
}

/// The fields can be written as `[[target#fragment|alias]]` and parse back to
/// the same fields: no field holds a bracket or a line ending, the target holds
/// no `#` or `|`, the fragment no `|`, a present fragment or alias is not
/// empty, and there is a target or a fragment.
pub open spec fn wiki_representable(
    target: Seq<char>,
    fragment: Option<Seq<char>>,
    alias: Option<Seq<char>>,
) -> bool {
    &&& none_in(target, CharClass::FrameBreak)
    &&& none_in(target, CharClass::SegmentOpener)
    &&& fragment matches Some(f) ==> f.len() > 0 && none_in(f, CharClass::FrameBreak) && none_in(
        f,
        CharClass::Pipe,
    )
    &&& alias matches Some(a) ==> a.len() > 0 && none_in(a, CharClass::FrameBreak)
    &&& target.len() > 0 || fragment is Some
}

/// The verdict on a node's fields: the first failing check, in the order
/// frame breaks (target, fragment, alias), target separators, fragment pipe,
/// empty fragment, empty alias, missing target and fragment.
pub open spec fn wiki_check(
    target: Seq<char>,
    fragment: Option<Seq<char>>,
    alias: Option<Seq<char>>,
) -> Result<(), WikiError> {
    let fragment_break = match fragment {
        Some(f) => first_in(f, CharClass::FrameBreak),
        None => None,
    };
    let alias_break = match alias {
        Some(a) => first_in(a, CharClass::FrameBreak),
        None => None,
    };
    if first_in(target, CharClass::FrameBreak) is Some {
        Err(WikiError::BreaksFrame(WikiField::Target, first_in(target, CharClass::FrameBreak)->0))
    } else if fragment_break is Some {
        Err(WikiError::BreaksFrame(WikiField::Fragment, fragment_break->0))
    } else if alias_break is Some {
        Err(WikiError::BreaksFrame(WikiField::Alias, alias_break->0))
    } else if first_in(target, CharClass::SegmentOpener) is Some {
        Err(WikiError::TargetOpensSegment(first_in(target, CharClass::SegmentOpener)->0))
    } else if fragment matches Some(f) && first_in(f, CharClass::Pipe) is Some {
        Err(WikiError::FragmentOpensAlias)
    } else if fragment matches Some(f) && f.len() == 0 {
        Err(WikiError::EmptyFragment)
    } else if alias matches Some(a) && a.len() == 0 {
        Err(WikiError::EmptyAlias)
    } else if target.len() == 0 && fragment is None {
        Err(WikiError::NoTargetOrFragment)
    } else {
        Ok(())
    }
}

/// The markdown of a wiki node: `[[target#fragment|alias]]`, with `!` before
/// it for an embed.
pub open spec fn wiki_text(
    embed: bool,
    target: Seq<char>,
    fragment: Option<Seq<char>>,
    alias: Option<Seq<char>>,
) -> Seq<char> {
    (if embed {
        seq!['!']
    } else {
        seq![]
    }) + seq!['[', '['] + target + (match fragment {
        Some(f) => seq!['#'] + f,
        None => seq![],
    }) + (match alias {
        Some(a) => seq!['|'] + a,
        None => seq![],
    }) + seq![']', ']']
}

/// The characters of an optional string slice.
pub open spec fn opt_view(s: Option<&str>) -> Option<Seq<char>> {
    match s {
        Some(s) => Some(s@),
        None => None,
    }
}

/// The characters of an optional string.
pub open spec fn string_opt_view(s: Option<String>) -> Option<Seq<char>> {
    match s {
        Some(s) => Some(s@),
        None => None,
    }
}

/// `first_in` is `None` exactly when no character is in the class.
pub proof fn lemma_first_in(s: Seq<char>, class: CharClass)
    ensures
        first_in(s, class) is None <==> none_in(s, class),
        first_in(s, class) matches Some(c) ==> in_class(class, c),
    decreases s.len(),
{
    if s.len() > 0 {
        lemma_first_in(s.drop_first(), class);
        if !in_class(class, s[0]) {
            assert forall|i: int| 0 <= i < s.len() && none_in(s.drop_first(), class) implies !in_class(
                class,
                #[trigger] s[i],
            ) by {
                if i > 0 {
                    assert(s[i] == s.drop_first()[i - 1]);
                }
            }
            if none_in(s, class) {
                assert forall|i: int| 0 <= i < s.drop_first().len() implies !in_class(
                    class,
                    #[trigger] s.drop_first()[i],
                ) by {
                    assert(s.drop_first()[i] == s[i + 1]);
                }
            }
        }
    }
}

/// The first character of `s` in the class.
fn find_in(s: &str, class: CharClass) -> (r: Option<char>)
    ensures
        r == first_in(s@, class),
{
    broadcast use vstd::string::group_string_axioms;

    assert(s@.skip(0) =~= s@);
    for c in it: s.chars()
        invariant
            it.seq() == s@,
            first_in(s@, class) == first_in(s@.skip(it.index() as int), class),
    {
        assert(c == s@[it.index() as int]);
        assert(s@.skip(it.index() as int).drop_first() =~= s@.skip(it.index() + 1));
        let hit = match class {
            CharClass::FrameBreak => c == '[' || c == ']' || c == '\n' || c == '\r',
            CharClass::SegmentOpener => c == '#' || c == '|',
            CharClass::Pipe => c == '|',
        };
        if hit {
            return Some(c);
        }
    }
    assert(s@.skip(s@.len() as int) =~= Seq::<char>::empty());
    None
}

/// `String::push`: append a character.
#[verifier::external_body]
fn push_char(value: &mut String, c: char)
    ensures
        final(value)@ == old(value)@.push(c),
{
    value.push(c);
}


/// The verdict on a wiki node's fields.
fn check_fields(target: &str, fragment: Option<&str>, alias: Option<&str>) -> (r: Result<
    (),
    WikiError,
>)
    ensures
        r == wiki_check(target@, opt_view(fragment), opt_view(alias)),
        r is Ok <==> wiki_representable(target@, opt_view(fragment), opt_view(alias)),
{
    proof {
        lemma_first_in(target@, CharClass::FrameBreak);
        lemma_first_in(target@, CharClass::SegmentOpener);
        if let Some(f) = opt_view(fragment) {
            lemma_first_in(f, CharClass::FrameBreak);
            lemma_first_in(f, CharClass::Pipe);
        }
        if let Some(a) = opt_view(alias) {
            lemma_first_in(a, CharClass::FrameBreak);
        }
    }
    if let Some(c) = find_in(target, CharClass::FrameBreak) {
        return Err(WikiError::BreaksFrame(WikiField::Target, c));
    }
    if let Some(f) = fragment {
        if let Some(c) = find_in(f, CharClass::FrameBreak) {
            return Err(WikiError::BreaksFrame(WikiField::Fragment, c));
        }
    }
    if let Some(a) = alias {
        if let Some(c) = find_in(a, CharClass::FrameBreak) {
            return Err(WikiError::BreaksFrame(WikiField::Alias, c));
        }
    }
    if let Some(c) = find_in(target, CharClass::SegmentOpener) {
        return Err(WikiError::TargetOpensSegment(c));
    }
    if let Some(f) = fragment {
        if find_in(f, CharClass::Pipe).is_some() {
            return Err(WikiError::FragmentOpensAlias);
        }
        if f.is_empty() {
            return Err(WikiError::EmptyFragment);
        }
    }
    if let Some(a) = alias {
        if a.is_empty() {
            return Err(WikiError::EmptyAlias);
        }
    }
    if target.is_empty() && fragment.is_none() {
        return Err(WikiError::NoTargetOrFragment);
    }
    Ok(())
}

/// `{:?}` of a character (`Debug for char`): the character quoted, with
/// escapes; a bracket, `#` or `|` shows as itself, and a line feed or carriage
/// return as `\n` or `\r`.
#[verifier::external_body]
fn debug_char(c: char) -> (s: String)
    ensures
        s@ == char_debug(c),
        c == '[' ==> s@ == seq!['\'', '[', '\''],
        c == ']' ==> s@ == seq!['\'', ']', '\''],
        c == '#' ==> s@ == seq!['\'', '#', '\''],
        c == '|' ==> s@ == seq!['\'', '|', '\''],
        c == '\n' ==> s@ == seq!['\'', '\\', 'n', '\''],
        c == '\r' ==> s@ == seq!['\'', '\\', 'r', '\''],
{
    format!("{:?}", c)
}

/// The name of a field in a diagnostic.
fn field_label_str(field: WikiField) -> (s: &'static str)
    ensures
        s@ == field_label(field),
{
    match field {
        WikiField::Target => "target",
        WikiField::Fragment => "fragment",
        WikiField::Alias => "alias",
    }
}

/// The reason for `error`, with the offending character shown as `shown`.
pub fn reason_with(error: WikiError, shown: &str) -> (r: String)
    ensures
        r@ == reason_from(error, shown@),
{
    let mut r = String::new();
    match error {
        WikiError::BreaksFrame(field, _) => {
            r.append("wiki ");
            r.append(field_label_str(field));
            r.append(" cannot contain ");
            r.append(shown);
            r.append(": it would break `[[ … ]]`");
        },
        WikiError::TargetOpensSegment(_) => {
            r.append("wiki target cannot contain ");
            r.append(shown);
            r.append(": it would open a fragment or alias");
        },
        WikiError::FragmentOpensAlias => {
            r.append("wiki fragment cannot contain '|': it would open an alias");
        },
        WikiError::EmptyFragment => {
            r.append("wiki fragment cannot be empty: use `None`, a bare `#` reparses as plain text",
            );
        },
        WikiError::EmptyAlias => {
            r.append("wiki alias cannot be empty: use `None`, a bare `|` reparses as plain text",
            );
        },
        WikiError::NoTargetOrFragment => {
            r.append("wiki link needs a non-empty target or fragment");
        },
    }
    assert(r@ =~= reason_from(error, shown@));
    r
}

impl WikiError {
    /// Why the node cannot be serialized, in words.
    pub fn reason(&self) -> (r: String)
        ensures
            r@ == reason_text(*self),
    {
        match *self {
            WikiError::BreaksFrame(_, c) => reason_with(*self, debug_char(c).as_str()),
            WikiError::TargetOpensSegment(c) => reason_with(*self, debug_char(c).as_str()),
            _ => reason_with(*self, ""),
        }
    }
}

/// The diagnostic for an unrepresentable wiki node, with its reason.
pub fn wiki_error(reason: String) -> (m: Message)
    ensures
        m.reason == reason,
        m.rule_id@ == "unrepresentable-wiki"@,
        m.source@ == "mdast-util-to-markdown"@,
{
    Message {
        reason,
        rule_id: String::from_str("unrepresentable-wiki"),
        source: String::from_str("mdast-util-to-markdown"),
    }
}

/// Reject a wiki node whose fields would not round-trip through the parser,
/// with the diagnostic for the first check that fails.
pub fn validate_wiki(target: &str, fragment: Option<&str>, alias: Option<&str>) -> (r: Result<
    (),
    Message,
>)
    ensures
        r is Ok <==> wiki_representable(target@, opt_view(fragment), opt_view(alias)),
        r matches Err(m) ==> is_message_for(m, wiki_check(target@, opt_view(fragment), opt_view(alias))),
{
    match check_fields(target, fragment, alias) {
        Ok(()) => Ok(()),
        Err(e) => Err(wiki_error(e.reason())),
    }
}

/// Serialize a wiki link or embed to `[[target#fragment|alias]]` (with a
/// leading `!` for an embed), or say why it cannot be.
pub fn serialize_wiki(embed: bool, target: &str, fragment: Option<&str>, alias: Option<&str>) -> (r:
    Result<String, Message>)
    ensures
        r is Ok <==> wiki_representable(target@, opt_view(fragment), opt_view(alias)),
        r matches Ok(s) ==> s@ == wiki_text(embed, target@, opt_view(fragment), opt_view(alias)),
        r matches Err(m) ==> is_message_for(m, wiki_check(target@, opt_view(fragment), opt_view(alias))),
{
    match validate_wiki(target, fragment, alias) {
        Err(m) => {
            return Err(m);
        },
        Ok(()) => {},
    }
    let mut value = String::new();
    if embed {
        push_char(&mut value, '!');
    }
    value.append("[[");
    value.append(target);
    if let Some(fragment) = fragment {
        push_char(&mut value, '#');
        value.append(fragment);
    }
    if let Some(alias) = alias {
        push_char(&mut value, '|');
        value.append(alias);
    }
    value.append("]]");
    proof {
        reveal_strlit("[[");
        reveal_strlit("]]");
    }
    assert(value@ =~= wiki_text(embed, target@, opt_view(fragment), opt_view(alias)));
    Ok(value)
}

impl WikiLink {
    /// Serialize this link.
    pub fn handle(&self) -> (r: Result<String, Message>)
        ensures
            r is Ok <==> wiki_representable(
                self.target@,
                string_opt_view(self.fragment),
                string_opt_view(self.alias),
            ),
            r matches Ok(s) ==> s@ == wiki_text(
                false,
                self.target@,
                string_opt_view(self.fragment),
                string_opt_view(self.alias),
            ),
            r matches Err(m) ==> is_message_for(
                m,
                wiki_check(
                    self.target@,
                    string_opt_view(self.fragment),
                    string_opt_view(self.alias),
                ),
            ),
    {
        serialize_wiki(false, self.target.as_str(), as_deref(&self.fragment), as_deref(&self.alias))
    }
}

impl WikiEmbed {
    /// Serialize this embed.
    pub fn handle(&self) -> (r: Result<String, Message>)
        ensures
            r is Ok <==> wiki_representable(
                self.target@,
                string_opt_view(self.fragment),
                string_opt_view(self.alias),
            ),
            r matches Ok(s) ==> s@ == wiki_text(
                true,
                self.target@,
                string_opt_view(self.fragment),
                string_opt_view(self.alias),
            ),
            r matches Err(m) ==> is_message_for(
                m,
                wiki_check(
                    self.target@,
                    string_opt_view(self.fragment),
                    string_opt_view(self.alias),
                ),
            ),
    {
        serialize_wiki(true, self.target.as_str(), as_deref(&self.fragment), as_deref(&self.alias))
    }
}

/// The string slice of an optional string.
fn as_deref(s: &Option<String>) -> (r: Option<&str>)
    ensures
        opt_view(r) == string_opt_view(*s),
{
    match s {
        Some(s) => Some(s.as_str()),
        None => None,
    }
}

} // verus!
