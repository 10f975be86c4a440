//! Names of the states of the construct state machines, and their results.

use vstd::prelude::*;

verus! {

/// The state functions of the directive and wiki constructs.
#[derive(Clone, Copy, Debug, PartialEq, Eq, Structural)]
pub enum StateName {
    DirectiveNameStart,
    DirectiveNameInside,
    DirectiveLabelStart,
    DirectiveLabelInside,
    DirectiveLabelEscape,
    DirectiveAttributesStart,
    DirectiveAttributesBetween,
    DirectiveAttributeShortcutValue,
    DirectiveAttributeNameInside,
    DirectiveAttributeNameAfter,
    DirectiveAttributeValueBefore,
    DirectiveAttributeValueQuoted,
    DirectiveAttributeValueUnquoted,
    DirectiveContainerStart,
    DirectiveContainerSequenceOpen,
    DirectiveContainerAfterName,
    DirectiveContainerAfterLabel,
    DirectiveContainerAfterAttributes,
    DirectiveContainerOpenAfter,
    DirectiveContainerCloseStart,
    DirectiveContainerCloseSequence,
    DirectiveContainerCloseAfter,
    DirectiveLeafStart,
    DirectiveLeafSequenceOpen,
    DirectiveLeafAfterName,
    DirectiveLeafAfterLabel,
    DirectiveLeafAfterAttributes,
    DirectiveLeafEnd,
    DirectiveLeafNok,
    DirectiveTextStart,
    DirectiveTextAfterMarker,
    DirectiveTextAfterName,
    DirectiveTextAfterLabel,
    DirectiveTextAfterAttributes,
    DirectiveTextNok,
    WikiLinkStart,
    WikiEmbedStart,
    WikiBefore,
    WikiTargetStart,
    WikiTarget,
    WikiFragmentStart,
    WikiFragment,
    WikiAliasStart,
    WikiAlias,
    WikiClose,
    WikiCloseAfter,
}

/// What a state function asks of the machine that runs it.
#[derive(Clone, Copy, Debug, PartialEq, Eq, Structural)]
pub enum State {
    /// The construct matched.
    Okay,
    /// The construct did not match.
    Nok,
    /// A byte was consumed; continue in the named state with the next byte.
    Next(StateName),
    /// Nothing was consumed; run the named state on the same byte.
    Retry(StateName),
}

} // verus!
