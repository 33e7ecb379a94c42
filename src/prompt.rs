use vstd::prelude::*;

verus! {

/// What kind of answer a prompt asks for.
#[derive(Debug, PartialEq)]
pub enum PromptKind {
    /// A yes/no question.
    Confirm,
    /// Free text.
    Text,
    /// A signed integer.
    Integer,
    /// A decimal number.
    Number,
    /// `true` or `false`.
    Bool,
    /// One of the listed options.
    Select(Vec<String>),
}

/// A question to put to the user.
#[derive(Debug, PartialEq)]
pub struct Prompt {
    pub kind: PromptKind,
    pub message: String,
    pub help: String,
}

/// The user's reaction to one prompt.
#[derive(Debug, PartialEq)]
pub enum Answer {
    /// The prompt was cancelled: an undo request.
    Skip,
    Confirm(bool),
    Text(String),
    Integer(i64),
    /// A decimal number, as text.
    Number(String),
    Bool(bool),
    /// The index of the chosen option of a `Select` prompt.
    Choice(usize),
}

} // verus!
