//! Validates field values against the rules of a schema.
//!
//! A [`Rule`] is one typed constraint on a field (a length bound, a value
//! bound, a pattern, or a cross-field match). Validation evaluates every
//! rule of a schema in declaration order and reports each broken rule as a
//! [`ValidateError`]; it never stops at the first failure.

use vstd::prelude::*;

pub mod errors;
pub mod eval;
pub mod numbers;
pub mod registry;
pub mod rules;

pub use self::errors::ErrorView;
pub use self::errors::ValidateError;
pub use self::eval::FieldSchema;
pub use self::eval::Record;
pub use self::eval::RecordEntry;
pub use self::eval::validate_field;
pub use self::eval::validate_field_in_record;
pub use self::eval::validate_form;
pub use self::eval::validate_record;
pub use self::eval::render_form;
pub use self::registry::RegexRegistry;
pub use self::registry::RegistryError;
pub use self::rules::FieldValue;
pub use self::rules::Rule;
pub use self::rules::ValueView;

verus! {

/// Implemented by record types whose fields carry validation rules.
pub trait ValidateForm {
    /// Judges every field of the record: `Ok` when validation passed,
    /// otherwise every broken rule's error.
    fn validate(&self) -> Result<(), Vec<ValidateError>>;
}

} // verus!
