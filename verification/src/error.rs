//! The failures of the library.

use vstd::prelude::*;

verus! {

/// Why an operation of the library failed.
#[derive(Debug)]
pub enum TfocusError {
    /// A directory or a file could not be read; the system's message.
    Io(String),
    /// A block pattern did not compile.
    RegexError(regex::Error),
    /// The scan found no declaration file.
    NoTerraformFiles,
    /// The input holds nothing to work on; says what is missing.
    ParseError(String),
    /// The choice handed back is none of those offered; the choice.
    InvalidOperation(String),
    /// The external tool could not be started or waited for.
    CommandExecutionError(String),
    /// The external tool ran and reported failure.
    TerraformError(String),
}

/// The mathematical value of a [`TfocusError`]: its kind and its text. Of a
/// pattern that did not compile only the kind is kept.
pub ghost enum ErrorView {
    Io(Seq<char>),
    RegexError,
    NoTerraformFiles,
    ParseError(Seq<char>),
    InvalidOperation(Seq<char>),
    CommandExecutionError(Seq<char>),
    TerraformError(Seq<char>),
}

impl View for TfocusError {
    type V = ErrorView;

    open spec fn view(&self) -> ErrorView {
        match self {
            TfocusError::Io(message) => ErrorView::Io(message@),
            TfocusError::RegexError(_) => ErrorView::RegexError,
            TfocusError::NoTerraformFiles => ErrorView::NoTerraformFiles,
            TfocusError::ParseError(message) => ErrorView::ParseError(message@),
            TfocusError::InvalidOperation(choice) => ErrorView::InvalidOperation(choice@),
            TfocusError::CommandExecutionError(message) => ErrorView::CommandExecutionError(
                message@,
            ),
            TfocusError::TerraformError(message) => ErrorView::TerraformError(message@),
        }
    }
}

} // verus!
