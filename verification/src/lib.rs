//! A declarative schema engine for web-form fields.
//!
//! Each field of a form is described by a schema: its markup tag, its HTML
//! attributes, an ordered list of validation rules, and an optionality flag.
//! The `validate` module evaluates the rules of a schema against supplied
//! values and reports every broken rule as typed error data; the `html`
//! module models attribute sets with merge/override semantics and renders
//! them deterministically as markup fragments.

pub mod html;
pub mod validate;
