//! Semantic events that the constructs emit while they tokenize.

use vstd::prelude::*;

verus! {

/// Names of the semantic units produced by the directive and wiki constructs.
#[derive(Clone, Copy, Debug, PartialEq, Eq, Structural)]
pub enum Name {
    /// Plain data; also the "unset" value of the token slots in the tokenize state.
    Data,
    /// Whole text directive (`:name[label]{attributes}`).
    DirectiveText,
    /// The `:` of a text directive.
    DirectiveTextMarker,
    /// Whole leaf directive line (`::name`).
    DirectiveLeaf,
    /// The `::` of a leaf directive.
    DirectiveLeafSequence,
    /// Whole container directive fence line (opening or closing).
    DirectiveContainerFence,
    /// The colons of a container fence.
    DirectiveContainerSequence,
    /// Directive name.
    DirectiveName,
    /// Whole directive label, brackets included.
    DirectiveLabel,
    /// `[` or `]` of a directive label.
    DirectiveLabelMarker,
    /// Content of a directive label.
    DirectiveLabelString,
    /// Whole attribute list, braces included.
    DirectiveAttributes,
    /// `{` or `}` of an attribute list.
    DirectiveAttributesMarker,
    /// One attribute (`#id`, `.class`, `key`, or `key=value`).
    DirectiveAttribute,
    /// The `#` of an id shortcut.
    DirectiveAttributeIdMarker,
    /// The value of an id shortcut.
    DirectiveAttributeId,
    /// The `.` of a class shortcut.
    DirectiveAttributeClassMarker,
    /// The value of a class shortcut.
    DirectiveAttributeClass,
    /// An attribute key.
    DirectiveAttributeName,
    /// The `=` between key and value.
    DirectiveAttributeInitializerMarker,
    /// A quote around an attribute value.
    DirectiveAttributeValueMarker,
    /// An attribute value.
    DirectiveAttributeValue,
    /// Whole wiki link (`[[...]]`).
    WikiLink,
    /// Whole wiki embed (`![[...]]`).
    WikiEmbed,
    /// Opening (`[[`, `![[`) or closing (`]]`) marker.
    WikiMarker,
    /// Wiki target.
    WikiTarget,
    /// The `#` before a wiki fragment.
    WikiFragmentMarker,
    /// Wiki fragment.
    WikiFragment,
    /// The `|` before a wiki alias.
    WikiAliasMarker,
    /// Wiki alias.
    WikiAlias,
}

/// Whether an event opens or closes a semantic unit.
#[derive(Clone, Copy, Debug, PartialEq, Eq, Structural)]
pub enum EventKind {
    /// Start of a unit.
    Enter,
    /// End of a unit.
    Exit,
}

/// The content type that a linked unit is tokenized as later.
#[derive(Clone, Copy, Debug, PartialEq, Eq, Structural)]
pub enum Content {
    /// Phrasing content.
    Text,
}

/// One event: the start or end of a named unit at a byte index.
#[derive(Clone, Copy, Debug, PartialEq, Eq, Structural)]
pub struct Event {
    /// Enter or exit.
    pub kind: EventKind,
    /// Which unit.
    pub name: Name,
    /// Byte index in the document at which the event happens.
    pub index: usize,
    /// For an enter event made with a link: the content type of the unit.
    pub link: Option<Content>,
}

/// An event without a link.
pub open spec fn event(kind: EventKind, name: Name, index: int) -> Event {
    Event { kind, name, index: index as usize, link: None }
}

/// Enter and exit of a unit.
pub open spec fn unit(name: Name, from: int, to: int) -> Seq<Event> {
    seq![event(EventKind::Enter, name, from), event(EventKind::Exit, name, to)]
}

} // verus!
