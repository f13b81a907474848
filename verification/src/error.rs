//! How a module refuses a request.
use vstd::prelude::*;
use vstd::string::*;

use crate::msg;
use crate::msg::Msg;
use crate::msg::MsgView;

verus! {

#[derive(Clone, Copy, Debug, PartialEq, Eq, Structural)]
pub enum ErrorKind {
    InvalidParams,
    UnknownMethod,
    Unsupported,
    NotCapable,
    PermissionDenied,
    Busy,
    Io,
    Failed,
    Internal,
}

#[derive(Clone, Debug)]
pub enum ModuleError {
    InvalidParams(String),
    UnknownMethod(String),
    Unsupported,
    NotCapable(String),
    PermissionDenied(String),
    Busy(String),
    Io(String),
    Failed(String),
    Internal(String),
    Localised { kind: ErrorKind, msg: Msg },
}

/// The words that stand in front of what a refusal says, kind by kind. They are
/// the host's; a localised refusal has its own.
#[derive(Clone, Debug)]
pub struct Wording {
    pub invalid_params: String,
    pub unknown_method: String,
    /// The whole sentence: such a refusal says nothing itself.
    pub unsupported: String,
    pub not_capable: String,
    pub permission_denied: String,
    pub busy: String,
    pub io: String,
    pub failed: String,
    pub internal: String,
}

#[verifier::ext_equal]
pub struct WordingView {
    pub invalid_params: Seq<char>,
    pub unknown_method: Seq<char>,
    pub unsupported: Seq<char>,
    pub not_capable: Seq<char>,
    pub permission_denied: Seq<char>,
    pub busy: Seq<char>,
    pub io: Seq<char>,
    pub failed: Seq<char>,
    pub internal: Seq<char>,
}

impl View for Wording {
    type V = WordingView;

    open spec fn view(&self) -> WordingView {
        WordingView {
            invalid_params: self.invalid_params@,
            unknown_method: self.unknown_method@,
            unsupported: self.unsupported@,
            not_capable: self.not_capable@,
            permission_denied: self.permission_denied@,
            busy: self.busy@,
            io: self.io@,
            failed: self.failed@,
            internal: self.internal@,
        }
    }
}

/// What a refusal says.
#[verifier::ext_equal]
pub enum ErrorView {
    InvalidParams(Seq<char>),
    UnknownMethod(Seq<char>),
    Unsupported,
    NotCapable(Seq<char>),
    PermissionDenied(Seq<char>),
    Busy(Seq<char>),
    Io(Seq<char>),
    Failed(Seq<char>),
    Internal(Seq<char>),
    Localised(ErrorKind, MsgView),
}

impl View for ModuleError {
    type V = ErrorView;

    open spec fn view(&self) -> ErrorView {
        match self {
            ModuleError::InvalidParams(m) => ErrorView::InvalidParams(m@),
            ModuleError::UnknownMethod(m) => ErrorView::UnknownMethod(m@),
            ModuleError::Unsupported => ErrorView::Unsupported,
            ModuleError::NotCapable(m) => ErrorView::NotCapable(m@),
            ModuleError::PermissionDenied(m) => ErrorView::PermissionDenied(m@),
            ModuleError::Busy(m) => ErrorView::Busy(m@),
            ModuleError::Io(m) => ErrorView::Io(m@),
            ModuleError::Failed(m) => ErrorView::Failed(m@),
            ModuleError::Internal(m) => ErrorView::Internal(m@),
            ModuleError::Localised { kind, msg } => ErrorView::Localised(*kind, msg@),
        }
    }
}

impl ErrorView {
    pub open spec fn kind(self) -> ErrorKind {
        match self {
            ErrorView::InvalidParams(_) => ErrorKind::InvalidParams,
            ErrorView::UnknownMethod(_) => ErrorKind::UnknownMethod,
            ErrorView::Unsupported => ErrorKind::Unsupported,
            ErrorView::NotCapable(_) => ErrorKind::NotCapable,
            ErrorView::PermissionDenied(_) => ErrorKind::PermissionDenied,
            ErrorView::Busy(_) => ErrorKind::Busy,
            ErrorView::Io(_) => ErrorKind::Io,
            ErrorView::Failed(_) => ErrorKind::Failed,
            ErrorView::Internal(_) => ErrorKind::Internal,
            ErrorView::Localised(kind, _) => kind,
        }
    }

    /// The sentence that is shown for the refusal, in these words.
    pub open spec fn text(self, words: WordingView) -> Seq<char> {
        match self {
            ErrorView::InvalidParams(m) => words.invalid_params + m,
            ErrorView::UnknownMethod(m) => words.unknown_method + m,
            ErrorView::Unsupported => words.unsupported,
            ErrorView::NotCapable(m) => words.not_capable + m,
            ErrorView::PermissionDenied(m) => words.permission_denied + m,
            ErrorView::Busy(m) => words.busy + m,
            ErrorView::Io(m) => words.io + m,
            ErrorView::Failed(m) => words.failed + m,
            ErrorView::Internal(m) => words.internal + m,
            ErrorView::Localised(_, m) => m.text,
        }
    }

    /// The refusal as a message.
    pub open spec fn as_msg(self, words: WordingView) -> MsgView {
        match self {
            ErrorView::Localised(_, m) => m,
            other => msg::literal(other.text(words)),
        }
    }
}

fn prefixed(prefix: &String, m: &String) -> (r: String)
    ensures
        r@ == prefix@ + m@,
{
    prefix.clone().concat(m.as_str())
}

impl ModuleError {
    pub fn localised(kind: ErrorKind, msg: Msg) -> (r: ModuleError)
        ensures
            r@ == ErrorView::Localised(kind, msg@),
    {
        ModuleError::Localised { kind, msg }
    }

    pub fn kind(&self) -> (r: ErrorKind)
        ensures
            r == self@.kind(),
    {
        match self {
            ModuleError::InvalidParams(_) => ErrorKind::InvalidParams,
            ModuleError::UnknownMethod(_) => ErrorKind::UnknownMethod,
            ModuleError::Unsupported => ErrorKind::Unsupported,
            ModuleError::NotCapable(_) => ErrorKind::NotCapable,
            ModuleError::PermissionDenied(_) => ErrorKind::PermissionDenied,
            ModuleError::Busy(_) => ErrorKind::Busy,
            ModuleError::Io(_) => ErrorKind::Io,
            ModuleError::Failed(_) => ErrorKind::Failed,
            ModuleError::Internal(_) => ErrorKind::Internal,
            ModuleError::Localised { kind, msg: _ } => *kind,
        }
    }

    pub fn to_text(&self, words: &Wording) -> (r: String)
        ensures
            r@ == self@.text(words@),
    {
        match self {
            ModuleError::InvalidParams(m) => prefixed(&words.invalid_params, m),
            ModuleError::UnknownMethod(m) => prefixed(&words.unknown_method, m),
            ModuleError::Unsupported => words.unsupported.clone(),
            ModuleError::NotCapable(m) => prefixed(&words.not_capable, m),
            ModuleError::PermissionDenied(m) => prefixed(&words.permission_denied, m),
            ModuleError::Busy(m) => prefixed(&words.busy, m),
            ModuleError::Io(m) => prefixed(&words.io, m),
            ModuleError::Failed(m) => prefixed(&words.failed, m),
            ModuleError::Internal(m) => prefixed(&words.internal, m),
            ModuleError::Localised { kind: _, msg } => msg.text.clone(),
        }
    }

    pub fn as_msg(&self, words: &Wording) -> (r: Msg)
        ensures
            r@ == self@.as_msg(words@),
    {
        match self {
            ModuleError::Localised { kind: _, msg } => msg.copy(),
            _ => Msg::literal(self.to_text(words)),
        }
    }

    /// A refusal that says the same.
    pub fn copy(&self) -> (r: ModuleError)
        ensures
            r@ == self@,
    {
        match self {
            ModuleError::InvalidParams(m) => ModuleError::InvalidParams(m.clone()),
            ModuleError::UnknownMethod(m) => ModuleError::UnknownMethod(m.clone()),
            ModuleError::Unsupported => ModuleError::Unsupported,
            ModuleError::NotCapable(m) => ModuleError::NotCapable(m.clone()),
            ModuleError::PermissionDenied(m) => ModuleError::PermissionDenied(m.clone()),
            ModuleError::Busy(m) => ModuleError::Busy(m.clone()),
            ModuleError::Io(m) => ModuleError::Io(m.clone()),
            ModuleError::Failed(m) => ModuleError::Failed(m.clone()),
            ModuleError::Internal(m) => ModuleError::Internal(m.clone()),
            ModuleError::Localised { kind, msg } => ModuleError::Localised {
                kind: *kind,
                msg: msg.copy(),
            },
        }
    }
}

/// Every error is of its own kind, and one with a message of the kind it is given.
pub proof fn law_errors_are_of_their_kind(m: Seq<char>, kind: ErrorKind, said: MsgView)
    ensures
        ErrorView::InvalidParams(m).kind() == ErrorKind::InvalidParams,
        ErrorView::UnknownMethod(m).kind() == ErrorKind::UnknownMethod,
        ErrorView::Unsupported.kind() == ErrorKind::Unsupported,
        ErrorView::NotCapable(m).kind() == ErrorKind::NotCapable,
        ErrorView::PermissionDenied(m).kind() == ErrorKind::PermissionDenied,
        ErrorView::Busy(m).kind() == ErrorKind::Busy,
        ErrorView::Io(m).kind() == ErrorKind::Io,
        ErrorView::Failed(m).kind() == ErrorKind::Failed,
        ErrorView::Internal(m).kind() == ErrorKind::Internal,
        ErrorView::Localised(kind, said).kind() == kind,
{
}

/// An error says the words of its kind and then its own; one with a message says
/// that, and keeps it. Any other becomes a message of just its text.
pub proof fn law_errors_say_their_words(
    e: ErrorView,
    m: Seq<char>,
    words: WordingView,
    kind: ErrorKind,
    said: MsgView,
)
    ensures
        ErrorView::InvalidParams(m).text(words) == words.invalid_params + m,
        ErrorView::UnknownMethod(m).text(words) == words.unknown_method + m,
        ErrorView::Unsupported.text(words) == words.unsupported,
        ErrorView::NotCapable(m).text(words) == words.not_capable + m,
        ErrorView::PermissionDenied(m).text(words) == words.permission_denied + m,
        ErrorView::Busy(m).text(words) == words.busy + m,
        ErrorView::Io(m).text(words) == words.io + m,
        ErrorView::Failed(m).text(words) == words.failed + m,
        ErrorView::Internal(m).text(words) == words.internal + m,
        ErrorView::Localised(kind, said).text(words) == said.text,
        ErrorView::Localised(kind, said).as_msg(words) == said,
        e.as_msg(words).text == e.text(words),
        !(e is Localised) ==> e.as_msg(words).key.len() == 0 && e.as_msg(words).params.len() == 0,
{
}

} // verus!
