//! What can go wrong in a helper call.

use crate::binder::ParamType;
use vstd::prelude::*;

verus! {

/// Why a helper's own computation failed.
#[derive(Clone, Copy, Debug, PartialEq, Eq, Structural)]
pub enum Fault {
    /// The second operand of a division or remainder was zero.
    DivisionByZero,
    /// The result of an integer operation lies outside the integer domain.
    Overflow,
    /// A text that should hold a timestamp does not.
    InvalidTimestamp,
    /// A timestamp could not be written: the format holds an unknown
    /// specifier, or the timestamp lies outside the range of dates.
    InvalidFormat,
}

/// An error of a helper call. Every error is a value that names the helper
/// and, where one is at fault, the parameter.
#[derive(Clone, Debug, PartialEq, Eq)]
pub enum HelperError {
    /// The call gave the wrong number of positional arguments; `required` is
    /// the number that the helper declares.
    Arity { helper: String, required: usize },
    /// A required argument was absent where absence is not accepted.
    MissingParameter { helper: String, param: String },
    /// A present argument does not have the declared type.
    TypeMismatch { helper: String, param: String, expected: ParamType },
    /// No helper is registered under the name.
    UnknownHelper { name: String },
    /// The helper is registered with parameters that its implementation
    /// cannot work on.
    Signature { helper: String },
    /// The helper's own computation failed.
    Runtime { helper: String, fault: Fault },
}

/// The mathematical content of a [`HelperError`].
pub enum ErrorView {
    Arity { helper: Seq<char>, required: nat },
    MissingParameter { helper: Seq<char>, param: Seq<char> },
    TypeMismatch { helper: Seq<char>, param: Seq<char>, expected: ParamType },
    UnknownHelper { name: Seq<char> },
    Signature { helper: Seq<char> },
    Runtime { helper: Seq<char>, fault: Fault },
}

impl View for HelperError {
    type V = ErrorView;

    open spec fn view(&self) -> ErrorView {
        match self {
            HelperError::Arity { helper, required } => ErrorView::Arity {
                helper: helper@,
                required: *required as nat,
            },
            HelperError::MissingParameter { helper, param } => ErrorView::MissingParameter {
                helper: helper@,
                param: param@,
            },
            HelperError::TypeMismatch { helper, param, expected } => ErrorView::TypeMismatch {
                helper: helper@,
                param: param@,
                expected: *expected,
            },
            HelperError::UnknownHelper { name } => ErrorView::UnknownHelper { name: name@ },
            HelperError::Signature { helper } => ErrorView::Signature { helper: helper@ },
            HelperError::Runtime { helper, fault } => ErrorView::Runtime {
                helper: helper@,
                fault: *fault,
            },
        }
    }
}

} // verus!
