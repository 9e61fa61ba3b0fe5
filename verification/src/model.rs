//! The record model: factoids, their intents, resolved responses, and the
//! records used by bulk import/export of factoids and error-code tables.

use vstd::prelude::*;

verus! {

/// How a factoid's text is to be delivered, or that the factoid is an alias
/// to another factoid (`Alias`) or a deletion tombstone (`Forget`).
#[derive(Clone, Copy, PartialEq, Eq, Debug, Structural)]
pub enum Intent {
    Say,
    Act,
    Notice,
    Alias,
    Forget,
}

/// A stored label-to-text mapping used to answer chat commands. For `Alias`
/// intent, `description` holds the label of the target factoid.
#[derive(Debug, PartialEq, Eq)]
pub struct Factoid {
    pub label: String,
    pub intent: Intent,
    pub description: String,
}

/// Mathematical image of a `Factoid`.
pub struct FactoidView {
    pub label: Seq<char>,
    pub intent: Intent,
    pub description: Seq<char>,
}

impl View for Factoid {
    type V = FactoidView;

    open spec fn view(&self) -> FactoidView {
        FactoidView { label: self.label@, intent: self.intent, description: self.description@ }
    }
}

/// The reply produced by a resolution: no output at all (`Silent`), or text
/// delivered on one of three presentation channels.
#[derive(Debug, PartialEq, Eq)]
pub enum Response {
    Silent,
    Say(String),
    Act(String),
    Notice(String),
}

/// Mathematical image of a `Response`.
pub enum ResponseView {
    Silent,
    Say(Seq<char>),
    Act(Seq<char>),
    Notice(Seq<char>),
}

impl View for Response {
    type V = ResponseView;

    open spec fn view(&self) -> ResponseView {
        match self {
            Response::Silent => ResponseView::Silent,
            Response::Say(t) => ResponseView::Say(t@),
            Response::Act(t) => ResponseView::Act(t@),
            Response::Notice(t) => ResponseView::Notice(t@),
        }
    }
}

/// The generic conversion of a factoid's `(intent, description)` into a
/// response: the three display intents carry the description as payload,
/// while `Alias` and `Forget` convert to no output. Tombstones reached
/// through an alias chain are deliberately rendered this generic way,
/// unlike a tombstone found by the top-level lookup.
pub open spec fn spec_to_response(intent: Intent, description: Seq<char>) -> ResponseView {
    match intent {
        Intent::Say => ResponseView::Say(description),
        Intent::Act => ResponseView::Act(description),
        Intent::Notice => ResponseView::Notice(description),
        Intent::Alias => ResponseView::Silent,
        Intent::Forget => ResponseView::Silent,
    }
}

/// Executable counterpart of [`spec_to_response`].
pub fn to_response(intent: Intent, description: &str) -> (r: Response)
    ensures
        r@ == spec_to_response(intent, description@),
{
    match intent {
        Intent::Say => Response::Say(description.to_owned()),
        Intent::Act => Response::Act(description.to_owned()),
        Intent::Notice => Response::Notice(description.to_owned()),
        Intent::Alias => Response::Silent,
        Intent::Forget => Response::Silent,
    }
}

/// Which numeric namespace an imported error code belongs to. The three
/// namespaces may overlap numerically and are never merged.
#[derive(Clone, Copy, PartialEq, Eq, Debug, Structural)]
pub enum WinErrorVariant {
    HResult,
    NtStatus,
    Win32,
}

/// A system error-code table entry as stored: the code compared by numeric
/// value, the namespace tag, and the trimmed name and description.
#[derive(Debug, PartialEq, Eq)]
pub struct ErrorRecord {
    pub code: u32,
    pub variant: WinErrorVariant,
    pub name: String,
    pub description: String,
}

/// Mathematical image of an `ErrorRecord`.
pub struct ErrorRecordView {
    pub code: u32,
    pub variant: WinErrorVariant,
    pub name: Seq<char>,
    pub description: Seq<char>,
}

impl View for ErrorRecord {
    type V = ErrorRecordView;

    open spec fn view(&self) -> ErrorRecordView {
        ErrorRecordView {
            code: self.code,
            variant: self.variant,
            name: self.name@,
            description: self.description@,
        }
    }
}

} // verus!
