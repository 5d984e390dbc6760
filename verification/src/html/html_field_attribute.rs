//! The attribute notation used while a field description is assembled.
//!
//! Schema authoring hands attributes over in this form before they are
//! inserted into a field's [`AttributeSet`](crate::html::AttributeSet);
//! the two variants mirror [`HtmlAttribute`](crate::html::HtmlAttribute).

use vstd::prelude::*;

use crate::html::html_attribute::AttrView;

verus! {

/// One attribute as a field description carries it: a bare value, or a
/// name/value pair.
#[derive(Debug)]
pub enum HtmlFieldAttribute {
    Value(String),
    Pair(String, String),
}

impl View for HtmlFieldAttribute {
    type V = AttrView;

    open spec fn view(&self) -> AttrView {
        match self {
            HtmlFieldAttribute::Value(v) => AttrView::Single { value: v@ },
            HtmlFieldAttribute::Pair(n, v) => AttrView::Pair { name: n@, value: v@ },
        }
    }
}

impl HtmlFieldAttribute {
    /// A new name/value pair attribute.
    pub fn new_pair(attr: String, value: String) -> (r: HtmlFieldAttribute)
        ensures
            r@ == (AttrView::Pair { name: attr@, value: value@ }),
    {
        HtmlFieldAttribute::Pair(attr, value)
    }

    /// A new bare value attribute.
    pub fn new_value(value: String) -> (r: HtmlFieldAttribute)
        ensures
            r@ == (AttrView::Single { value: value@ }),
    {
        HtmlFieldAttribute::Value(value)
    }
}

} // verus!
