//! Models HTML attributes, fields and forms, and renders them as markup.
//!
//! An [`HtmlAttribute`] is either a bare value (`required`) or a name/value
//! pair (`class='input-text'`). Attributes are identified by kind and key:
//! two pairs are the same attribute when their names match, two singles when
//! their values match.

use vstd::prelude::*;

pub mod attribute_set;
pub mod html_attribute;
pub mod html_defaults;
pub mod html_field;
pub mod html_field_attribute;
pub mod html_form_builder;
pub mod html_validate;

pub use self::attribute_set::AttributeSet;
pub use self::html_attribute::AttrView;
pub use self::html_attribute::HtmlAttribute;
pub use self::html_defaults::HtmlDefaults;
pub use self::html_field::HtmlField;
pub use self::html_field::HtmlFieldBuilder;
pub use self::html_field_attribute::HtmlFieldAttribute;
pub use self::html_form_builder::FormEntry;
pub use self::html_form_builder::HtmlFormBuilder;
pub use self::html_validate::FieldError;
pub use self::html_validate::FieldValidator;

verus! {

/// Implemented by record types that can describe themselves as a form:
/// one field builder per field, ready to render.
pub trait HtmlForm {
    /// The form describing this record's fields.
    fn form(&self) -> HtmlFormBuilder;
}

} // verus!
