//! Diagnostics: what a failed parse reports.

use vstd::prelude::*;

verus! {

/// What was wrong with the input.
#[derive(Clone, Copy, Debug, PartialEq, Eq, Structural)]
pub enum DiagnosticKind {
    /// A path was expected: the function of a widget or the name of a
    /// property.
    ExpectedPath,
    /// A name was expected that is an identifier and no keyword.
    ExpectedName,
    /// The `{` that opens the properties of a widget was expected.
    ExpectedBody,
    /// A value was expected after `:` or `=>`.
    ExpectedValue,
    /// One of `:`, `=>` and `=` was expected after the name of a property.
    ExpectedAssignment,
    /// A method name with its arguments was expected after `.`.
    ExpectedMethodCall,
    /// A bracket was opened and not closed by its partner.
    UnclosedDelimiter,
    /// Tokens were left over after the end of a widget.
    UnexpectedToken,
    /// An attribute stands where it has no meaning.
    AttributeNotAllowed,
    /// An attribute was not understood.
    InvalidAttribute,
    /// A widget was given a name twice.
    DuplicateName,
}

/// A failure: what was wrong, and the position of the token at which it was
/// found (the end of the input where the input ended too early).
#[derive(Clone, Copy, Debug, PartialEq, Eq, Structural)]
pub struct Diagnostic {
    pub kind: DiagnosticKind,
    pub at: usize,
}

/// The mathematical value of a diagnostic.
pub struct DiagnosticView {
    pub kind: DiagnosticKind,
    pub at: int,
}

impl View for Diagnostic {
    type V = DiagnosticView;

    open spec fn view(&self) -> DiagnosticView {
        DiagnosticView { kind: self.kind, at: self.at as int }
    }
}

/// The sentence that describes a kind of failure.
pub open spec fn kind_message(kind: DiagnosticKind) -> Seq<char> {
    match kind {
        DiagnosticKind::ExpectedPath => "expected a path"@,
        DiagnosticKind::ExpectedName => "expected a name that is an identifier"@,
        DiagnosticKind::ExpectedBody => "expected `{`"@,
        DiagnosticKind::ExpectedValue => "expected a value"@,
        DiagnosticKind::ExpectedAssignment => "expected `:`, `=>` or `=`"@,
        DiagnosticKind::ExpectedMethodCall => "expected a method call"@,
        DiagnosticKind::UnclosedDelimiter => "this bracket is never closed"@,
        DiagnosticKind::UnexpectedToken => "unexpected token"@,
        DiagnosticKind::AttributeNotAllowed => "this attribute is not allowed here"@,
        DiagnosticKind::InvalidAttribute => "this attribute is not valid"@,
        DiagnosticKind::DuplicateName => "this widget has a name already"@,
    }
}

impl Diagnostic {
    /// A diagnostic of the given kind at the given position.
    pub fn new(kind: DiagnosticKind, at: usize) -> (d: Diagnostic)
        ensures
            d@ == (DiagnosticView { kind, at: at as int }),
    {
        Diagnostic { kind, at }
    }

    /// The message for a reader.
    pub fn message(&self) -> (text: String)
        ensures
            text@ == kind_message(self.kind),
    {
        let text = match self.kind {
            DiagnosticKind::ExpectedPath => "expected a path",
            DiagnosticKind::ExpectedName => "expected a name that is an identifier",
            DiagnosticKind::ExpectedBody => "expected `{`",
            DiagnosticKind::ExpectedValue => "expected a value",
            DiagnosticKind::ExpectedAssignment => "expected `:`, `=>` or `=`",
            DiagnosticKind::ExpectedMethodCall => "expected a method call",
            DiagnosticKind::UnclosedDelimiter => "this bracket is never closed",
            DiagnosticKind::UnexpectedToken => "unexpected token",
            DiagnosticKind::AttributeNotAllowed => "this attribute is not allowed here",
            DiagnosticKind::InvalidAttribute => "this attribute is not valid",
            DiagnosticKind::DuplicateName => "this widget has a name already",
        };
        String::from_str(text)
    }
}

} // verus!
