//! The two kinds of failure: malformed source text, and a program that is
//! well formed but cannot be evaluated.

use vstd::prelude::*;
use vstd::string::StringExecFns;

verus! {

/// What went wrong, with a message for a human reader.
#[derive(Debug, Clone, PartialEq, Eq)]
pub enum StrawberryErrorKind {
    /// The source text is malformed. Only the tokenizer reports this.
    SyntaxError(String),
    /// The program cannot be evaluated. Only the evaluator reports this.
    SemanticError(String),
}

/// A failure of the tokenizer or of the evaluator.
#[derive(Debug, Clone, PartialEq, Eq)]
pub struct StrawberryError {
    pub kind: StrawberryErrorKind,
}

/// The mathematical content of a [`StrawberryError`].
pub ghost enum Failure {
    Syntax(Seq<char>),
    Semantic(Seq<char>),
}

impl View for StrawberryError {
    type V = Failure;

    open spec fn view(&self) -> Failure {
        match self.kind {
            StrawberryErrorKind::SyntaxError(message) => Failure::Syntax(message@),
            StrawberryErrorKind::SemanticError(message) => Failure::Semantic(message@),
        }
    }
}

impl StrawberryError {
    /// A syntax error with the given message.
    pub fn syntax_error(message: &str) -> (error: Self)
        ensures
            error@ == Failure::Syntax(message@),
    {
        Self { kind: StrawberryErrorKind::SyntaxError(String::from_str(message)) }
    }

    /// A semantic error with the given message.
    pub fn semantic_error(message: &str) -> (error: Self)
        ensures
            error@ == Failure::Semantic(message@),
    {
        Self { kind: StrawberryErrorKind::SemanticError(String::from_str(message)) }
    }

    /// The message, whatever the kind.
    pub fn message(&self) -> (message: &String)
        ensures
            self@ == Failure::Syntax(message@) || self@ == Failure::Semantic(message@),
            self.kind == StrawberryErrorKind::SyntaxError(*message) || self.kind
                == StrawberryErrorKind::SemanticError(*message),
    {
        match &self.kind {
            StrawberryErrorKind::SyntaxError(message) => message,
            StrawberryErrorKind::SemanticError(message) => message,
        }
    }

    /// Whether this is a syntax error.
    pub fn is_syntax_error(&self) -> (yes: bool)
        ensures
            yes == (self@ is Syntax),
    {
        match &self.kind {
            StrawberryErrorKind::SyntaxError(_) => true,
            StrawberryErrorKind::SemanticError(_) => false,
        }
    }
}

} // verus!
