//! Validator outcomes.
//!
//! Every validator produces exactly one `Outcome`: the name of the check,
//! a severity, and a human-readable message. Outcomes are plain data;
//! their abstract value is an `OutcomeModel` over character sequences.

use vstd::prelude::*;

verus! {

/// Severity of one validator outcome.
#[derive(Clone, Copy, Debug, PartialEq, Eq, Structural)]
pub enum Status {
    Pass,
    Fail,
    Warning,
    Error,
}

/// One validator outcome: the check's name, its severity, and a message.
#[derive(Clone, Debug, PartialEq)]
pub struct Outcome {
    pub name: String,
    pub status: Status,
    pub message: String,
}

/// The abstract value of an `Outcome`.
pub struct OutcomeModel {
    pub name: Seq<char>,
    pub status: Status,
    pub message: Seq<char>,
}

impl View for Outcome {
    type V = OutcomeModel;

    open spec fn view(&self) -> OutcomeModel {
        OutcomeModel { name: self.name@, status: self.status, message: self.message@ }
    }
}

/// The placeholder message of an outcome no validator has judged yet.
pub open spec fn placeholder_message() -> Seq<char> {
    "if you are reading this, there is a bug in the code."@
}

impl Outcome {
    /// A fresh outcome for the named check, before any judgement: severity
    /// `Error` with a placeholder message.
    pub fn new(name: &str) -> (r: Outcome)
        ensures
            r@ == (OutcomeModel {
                name: name@,
                status: Status::Error,
                message: placeholder_message(),
            }),
    {
        Outcome {
            name: name.to_owned(),
            status: Status::Error,
            message: String::from_str("if you are reading this, there is a bug in the code."),
        }
    }

    /// An outcome with every field given.
    pub fn new_full(name: &str, status: Status, message: String) -> (r: Outcome)
        ensures
            r@ == (OutcomeModel { name: name@, status, message: message@ }),
    {
        Outcome { name: name.to_owned(), status, message }
    }

    /// The same check's outcome with a new severity and message.
    pub fn set(self, status: Status, message: String) -> (r: Outcome)
        ensures
            r@ == (OutcomeModel { name: self@.name, status, message: message@ }),
    {
        Outcome { name: self.name, status, message }
    }
}

} // verus!
