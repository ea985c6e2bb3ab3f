//! What can go wrong in an invocation. Every error ends the invocation: none
//! is retried and nothing is generated after one.

use vstd::prelude::*;
use vstd::string::*;
use crate::grammar::{Expected, GrammarError};

verus! {

/// The place in the invocation that a diagnostic is attached to.
#[derive(Clone, Copy, Debug, PartialEq, Eq, Structural)]
pub enum Span {
    /// The invocation as a whole.
    CallSite,
    /// The token with this index; for the index of an opening delimiter, the
    /// whole group.
    Token(usize),
}

/// Why no text was generated although every interface was resolved.
#[derive(Clone, Debug, PartialEq, Eq)]
pub enum GenerationError {
    /// The generator gave up, with this message.
    Failed(String),
    /// The generator wrote no file.
    NoOutput,
    /// The generated file is not UTF-8 text.
    NotText,
}

/// The errors of an invocation.
#[derive(Clone, Debug, PartialEq, Eq)]
pub enum Error {
    /// The tokens are not an invocation.
    Grammar(GrammarError),
    /// An interface could not be read or is not well formed; the message is
    /// the parser's.
    Resolution { span: Span, message: String },
    /// A structured invocation that ends without any interface.
    EmptyInterfaceSet,
    Generation(GenerationError),
}

/// The mathematical value of an [`Error`].
pub enum ErrorView {
    Grammar(GrammarError),
    Resolution { span: Span, message: Seq<char> },
    EmptyInterfaceSet,
    GenerationFailed(Seq<char>),
    NoOutput,
    NotText,
}

impl View for Error {
    type V = ErrorView;

    open spec fn view(&self) -> ErrorView {
        match self {
            Error::Grammar(e) => ErrorView::Grammar(*e),
            Error::Resolution { span, message } => ErrorView::Resolution { span: *span, message: message@ },
            Error::EmptyInterfaceSet => ErrorView::EmptyInterfaceSet,
            Error::Generation(GenerationError::Failed(message)) => ErrorView::GenerationFailed(message@),
            Error::Generation(GenerationError::NoOutput) => ErrorView::NoOutput,
            Error::Generation(GenerationError::NotText) => ErrorView::NotText,
        }
    }
}

impl DeepView for Error {
    type V = ErrorView;

    open spec fn deep_view(&self) -> ErrorView {
        self@
    }
}

/// The words for a token that does not fit.
pub open spec fn expectation(expected: Expected) -> Seq<char> {
    match expected {
        Expected::Field =>
            "expected one of: `src`, `paths`, `unchecked`, `multi_module`, `export_macro`, `types_path`, `reexported_crate_path`"@,
        Expected::StringLiteral => "expected string literal"@,
        Expected::Colon => "expected `:`"@,
        Expected::Equals => "expected `=`"@,
        Expected::Comma => "expected `,`"@,
        Expected::OpenBracket => "expected square brackets"@,
        Expected::CloseBracket => "unexpected token"@,
        Expected::End => "unexpected token"@,
    }
}

impl ErrorView {
    /// Where the diagnostic belongs.
    pub open spec fn span(self) -> Span {
        match self {
            ErrorView::Grammar(e) => Span::Token(e.at),
            ErrorView::Resolution { span, .. } => span,
            _ => Span::CallSite,
        }
    }

    /// The diagnostic's text.
    pub open spec fn message(self) -> Seq<char> {
        match self {
            ErrorView::Grammar(e) => expectation(e.expected),
            ErrorView::Resolution { message, .. } => message,
            ErrorView::EmptyInterfaceSet => "must either specify `src` or `paths` keys"@,
            ErrorView::GenerationFailed(message) => message,
            ErrorView::NoOutput => "the generator wrote no file"@,
            ErrorView::NotText => "the generated file is not UTF-8 text"@,
        }
    }
}

impl Error {
    /// Another error of the same value.
    pub fn duplicate(&self) -> (copy: Error)
        ensures
            copy@ == self@,
    {
        match self {
            Error::Grammar(e) => Error::Grammar(*e),
            Error::Resolution { span, message } => Error::Resolution {
                span: *span,
                message: message.clone(),
            },
            Error::EmptyInterfaceSet => Error::EmptyInterfaceSet,
            Error::Generation(GenerationError::Failed(message)) => Error::Generation(
                GenerationError::Failed(message.clone()),
            ),
            Error::Generation(GenerationError::NoOutput) => Error::Generation(GenerationError::NoOutput),
            Error::Generation(GenerationError::NotText) => Error::Generation(GenerationError::NotText),
        }
    }

    /// Where the diagnostic belongs.
    pub fn span(&self) -> (span: Span)
        ensures
            span == self@.span(),
    {
        match self {
            Error::Grammar(e) => Span::Token(e.at),
            Error::Resolution { span, .. } => *span,
            _ => Span::CallSite,
        }
    }

    /// The diagnostic's text.
    pub fn message(&self) -> (text: String)
        ensures
            text@ == self@.message(),
    {
        match self {
            Error::Grammar(e) => {
                let words = match e.expected {
                    Expected::Field =>
                        "expected one of: `src`, `paths`, `unchecked`, `multi_module`, `export_macro`, `types_path`, `reexported_crate_path`",
                    Expected::StringLiteral => "expected string literal",
                    Expected::Colon => "expected `:`",
                    Expected::Equals => "expected `=`",
                    Expected::Comma => "expected `,`",
                    Expected::OpenBracket => "expected square brackets",
                    Expected::CloseBracket => "unexpected token",
                    Expected::End => "unexpected token",
                };
                words.to_owned()
            },
            Error::Resolution { message, .. } => message.clone(),
            Error::EmptyInterfaceSet => "must either specify `src` or `paths` keys".to_owned(),
            Error::Generation(GenerationError::Failed(message)) => message.clone(),
            Error::Generation(GenerationError::NoOutput) => "the generator wrote no file".to_owned(),
            Error::Generation(GenerationError::NotText) => "the generated file is not UTF-8 text".to_owned(),
        }
    }
}

} // verus!
