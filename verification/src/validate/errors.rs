//! The typed errors that validation reports, and their messages.

use vstd::prelude::*;

use crate::validate::numbers::spec_dec;
use crate::validate::numbers::spec_dec_int;
use crate::validate::numbers::i64_to_dec;
use crate::validate::numbers::u64_to_dec;

verus! {

/// The mathematical value of a [`ValidateError`].
#[allow(inconsistent_fields)]
pub enum ErrorView {
    InputTooShort { field: Seq<char>, min: nat },
    InputTooLong { field: Seq<char>, max: nat },
    TooSmall { field: Seq<char>, min: int },
    TooLarge { field: Seq<char>, max: int },
    InvalidCharacters { field: Seq<char> },
    InvalidEmail { field: Seq<char> },
    InvalidPhoneNumber { field: Seq<char> },
    InvalidRegex { field: Seq<char> },
    FieldMismatch { field: Seq<char> },
}

/// One broken rule, reported as data. Each variant names the field it was
/// found on; bound violations carry the bound.
#[allow(inconsistent_fields)]
#[derive(Debug)]
pub enum ValidateError {
    /// The input was shorter than the rule's minimum length.
    InputTooShort { field: String, min: u64 },
    /// The input was longer than the rule's maximum length.
    InputTooLong { field: String, max: u64 },
    /// The input was below the rule's minimum value.
    TooSmall { field: String, min: i64 },
    /// The input was above the rule's maximum value.
    TooLarge { field: String, max: i64 },
    /// The input held characters the field does not accept.
    InvalidCharacters { field: String },
    /// The input did not match the canonical email pattern.
    InvalidEmail { field: String },
    /// The input did not match the canonical US phone pattern.
    InvalidPhoneNumber { field: String },
    /// The input did not match the field's registered pattern.
    InvalidRegex { field: String },
    /// The input did not equal the named sibling field's value.
    FieldMismatch { field: String },
}

impl View for ValidateError {
    type V = ErrorView;

    open spec fn view(&self) -> ErrorView {
        match self {
            ValidateError::InputTooShort { field, min } => ErrorView::InputTooShort {
                field: field@,
                min: *min as nat,
            },
            ValidateError::InputTooLong { field, max } => ErrorView::InputTooLong {
                field: field@,
                max: *max as nat,
            },
            ValidateError::TooSmall { field, min } => ErrorView::TooSmall {
                field: field@,
                min: *min as int,
            },
            ValidateError::TooLarge { field, max } => ErrorView::TooLarge {
                field: field@,
                max: *max as int,
            },
            ValidateError::InvalidCharacters { field } => ErrorView::InvalidCharacters {
                field: field@,
            },
            ValidateError::InvalidEmail { field } => ErrorView::InvalidEmail { field: field@ },
            ValidateError::InvalidPhoneNumber { field } => ErrorView::InvalidPhoneNumber {
                field: field@,
            },
            ValidateError::InvalidRegex { field } => ErrorView::InvalidRegex { field: field@ },
            ValidateError::FieldMismatch { field } => ErrorView::FieldMismatch { field: field@ },
        }
    }
}

/// The human-readable message for an error: the field name, a colon, and a
/// description of the broken rule with its bound.
pub open spec fn spec_message(e: ErrorView) -> Seq<char> {
    match e {
        ErrorView::InputTooShort { field, min } => field + ": input too short. ("@ + spec_dec(min)
            + " min length)"@,
        ErrorView::InputTooLong { field, max } => field + ": input too long. ("@ + spec_dec(max)
            + " max length)"@,
        ErrorView::TooSmall { field, min } => field + ": input below required minimum. ("@
            + spec_dec_int(min) + " minimum)"@,
        ErrorView::TooLarge { field, max } => field + ": input above maximum allowed. ("@
            + spec_dec_int(max) + " maximum)"@,
        ErrorView::InvalidCharacters { field } => field + ": contains invalid characters"@,
        ErrorView::InvalidEmail { field } => field + ": not a valid email address"@,
        ErrorView::InvalidPhoneNumber { field } => field + ": not a valid U.S. phone number"@,
        ErrorView::InvalidRegex { field } => field + ": does not match required input"@,
        ErrorView::FieldMismatch { field } => field + ": does not match other field"@,
    }
}

impl ValidateError {
    /// The human-readable form of this error.
    pub fn message(&self) -> (r: String)
        ensures
            r@ == spec_message(self@),
    {
        match self {
            ValidateError::InputTooShort { field, min } => {
                let mut s = field.clone();
                s.append(": input too short. (");
                let d = u64_to_dec(*min);
                s.append(d.as_str());
                s.append(" min length)");
                s
            },
            ValidateError::InputTooLong { field, max } => {
                let mut s = field.clone();
                s.append(": input too long. (");
                let d = u64_to_dec(*max);
                s.append(d.as_str());
                s.append(" max length)");
                s
            },
            ValidateError::TooSmall { field, min } => {
                let mut s = field.clone();
                s.append(": input below required minimum. (");
                let d = i64_to_dec(*min);
                s.append(d.as_str());
                s.append(" minimum)");
                s
            },
            ValidateError::TooLarge { field, max } => {
                let mut s = field.clone();
                s.append(": input above maximum allowed. (");
                let d = i64_to_dec(*max);
                s.append(d.as_str());
                s.append(" maximum)");
                s
            },
            ValidateError::InvalidCharacters { field } => {
                let mut s = field.clone();
                s.append(": contains invalid characters");
                s
            },
            ValidateError::InvalidEmail { field } => {
                let mut s = field.clone();
                s.append(": not a valid email address");
                s
            },
            ValidateError::InvalidPhoneNumber { field } => {
                let mut s = field.clone();
                s.append(": not a valid U.S. phone number");
                s
            },
            ValidateError::InvalidRegex { field } => {
                let mut s = field.clone();
                s.append(": does not match required input");
                s
            },
            ValidateError::FieldMismatch { field } => {
                let mut s = field.clone();
                s.append(": does not match other field");
                s
            },
        }
    }

    /// An equal copy of this error.
    pub fn duplicate(&self) -> (r: ValidateError)
        ensures
            r == *self,
    {
        match self {
            ValidateError::InputTooShort { field, min } => ValidateError::InputTooShort {
                field: field.clone(),
                min: *min,
            },
            ValidateError::InputTooLong { field, max } => ValidateError::InputTooLong {
                field: field.clone(),
                max: *max,
            },
            ValidateError::TooSmall { field, min } => ValidateError::TooSmall {
                field: field.clone(),
                min: *min,
            },
            ValidateError::TooLarge { field, max } => ValidateError::TooLarge {
                field: field.clone(),
                max: *max,
            },
            ValidateError::InvalidCharacters { field } => ValidateError::InvalidCharacters {
                field: field.clone(),
            },
            ValidateError::InvalidEmail { field } => ValidateError::InvalidEmail {
                field: field.clone(),
            },
            ValidateError::InvalidPhoneNumber { field } => ValidateError::InvalidPhoneNumber {
                field: field.clone(),
            },
            ValidateError::InvalidRegex { field } => ValidateError::InvalidRegex {
                field: field.clone(),
            },
            ValidateError::FieldMismatch { field } => ValidateError::FieldMismatch {
                field: field.clone(),
            },
        }
    }
}

} // verus!
