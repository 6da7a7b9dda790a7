//! Diagnostics: every refusal names its kind, the span of the offending token
//! and, where there is one, the offending text.
use vstd::prelude::*;

verus! {

/// The kinds of refusal.
#[derive(Clone, Copy, Debug, PartialEq, Eq, Structural)]
pub enum ErrorKind {
    /// The decorator list is empty.
    NoDecoratorsProvided,
    /// A `key = value` pair names a key other than the four known ones.
    UnknownConfigOption,
    /// A self-path literal does not start with `self`.
    MalformedSelfPath,
    /// A self-path literal has an empty segment.
    EmptyPathSegment,
    /// A segment of a self-path literal is not an identifier.
    InvalidIdentifierSegment,
    /// The function is `const`.
    ConstFunctionNotSupported,
    /// A decorator reference is missing or does not start as a path or a string.
    ExpectedDecorator,
    /// A configuration value or a decorator argument is empty.
    ExpectedExpression,
    /// A transform is not a plain path.
    ExpectedPath,
    /// Tokens follow a decorator where none may stand.
    UnexpectedToken,
    /// The item is not a function with a body.
    NotAFunction,
}

/// A refusal: its kind, the span number of the token it is about (`0`: the
/// call site), and the offending text where there is one.
#[derive(Clone, Debug, PartialEq, Eq)]
pub struct DecorateError {
    pub kind: ErrorKind,
    pub span: usize,
    pub detail: String,
}

/// The value of a refusal.
pub struct ErrV {
    pub kind: ErrorKind,
    pub span: usize,
    pub detail: Seq<char>,
}

pub open spec fn err(kind: ErrorKind, span: usize, detail: Seq<char>) -> ErrV {
    ErrV { kind, span, detail }
}

impl DecorateError {
    pub open spec fn view(&self) -> ErrV {
        ErrV { kind: self.kind, span: self.span, detail: self.detail@ }
    }

    /// A refusal with no offending text.
    pub fn new(kind: ErrorKind, span: usize) -> (r: DecorateError)
        ensures
            r.view() == err(kind, span, Seq::empty()),
    {
        DecorateError { kind, span, detail: String::new() }
    }

    /// What went wrong, in words.
    pub fn message(&self) -> (r: &'static str)
        ensures
            r@ == message_text(self.kind),
    {
        match self.kind {
            ErrorKind::NoDecoratorsProvided => "No decorator paths provided",
            ErrorKind::UnknownConfigOption => "Unknown config option",
            ErrorKind::MalformedSelfPath => "Path must start with 'self'",
            ErrorKind::EmptyPathSegment => "Path has an empty segment",
            ErrorKind::InvalidIdentifierSegment => "Path segment is not an identifier",
            ErrorKind::ConstFunctionNotSupported => "Cannot decorate const functions",
            ErrorKind::ExpectedDecorator => "Expected a decorator path or a self-path string",
            ErrorKind::ExpectedExpression => "Expected an expression",
            ErrorKind::ExpectedPath => "Expected a path to a function",
            ErrorKind::UnexpectedToken => "Unexpected token after decorator",
            ErrorKind::NotAFunction => "Expected a function with a body",
        }
    }

    /// How to mend it, where there is advice to give.
    pub fn hint(&self) -> (r: Option<&'static str>)
        ensures
            match r {
                Some(h) => hint_text(self.kind) == Some(h@),
                None => hint_text(self.kind) is None,
            },
    {
        match self.kind {
            ErrorKind::NoDecoratorsProvided => Some("Expected at least one decorator function"),
            ErrorKind::UnknownConfigOption => Some(
                "Valid options are: pre, post, transform_params, transform_result",
            ),
            ErrorKind::ConstFunctionNotSupported => Some(
                "The decorate attribute cannot be used with const functions; remove the const qualifier",
            ),
            ErrorKind::MalformedSelfPath => Some("Write the path as \"self.field.method\""),
            _ => None,
        }
    }
}

/// The message for each kind of refusal.
pub open spec fn message_text(kind: ErrorKind) -> Seq<char> {
    match kind {
        ErrorKind::NoDecoratorsProvided => "No decorator paths provided"@,
        ErrorKind::UnknownConfigOption => "Unknown config option"@,
        ErrorKind::MalformedSelfPath => "Path must start with 'self'"@,
        ErrorKind::EmptyPathSegment => "Path has an empty segment"@,
        ErrorKind::InvalidIdentifierSegment => "Path segment is not an identifier"@,
        ErrorKind::ConstFunctionNotSupported => "Cannot decorate const functions"@,
        ErrorKind::ExpectedDecorator => "Expected a decorator path or a self-path string"@,
        ErrorKind::ExpectedExpression => "Expected an expression"@,
        ErrorKind::ExpectedPath => "Expected a path to a function"@,
        ErrorKind::UnexpectedToken => "Unexpected token after decorator"@,
        ErrorKind::NotAFunction => "Expected a function with a body"@,
    }
}

/// The advice for the kinds of refusal that have one.
pub open spec fn hint_text(kind: ErrorKind) -> Option<Seq<char>> {
    match kind {
        ErrorKind::NoDecoratorsProvided => Some("Expected at least one decorator function"@),
        ErrorKind::UnknownConfigOption => Some(
            "Valid options are: pre, post, transform_params, transform_result"@,
        ),
        ErrorKind::ConstFunctionNotSupported => Some(
            "The decorate attribute cannot be used with const functions; remove the const qualifier"@,
        ),
        ErrorKind::MalformedSelfPath => Some("Write the path as \"self.field.method\""@),
        _ => None,
    }
}

} // verus!
