//! The rule model: typed constraints on a field, and the values they judge.

use vstd::prelude::*;

verus! {

/// One typed constraint attached to a field.
///
/// Length rules speak about text values and bound the number of
/// characters, not the encoded byte count (on ASCII input the two agree);
/// value rules speak about numeric values. A well-formed schema only
/// attaches a rule to a field of the matching kind. `Pattern` carries the identifier of a pattern in the schema's
/// [`RegexRegistry`](crate::validate::registry::RegexRegistry); `Email` and
/// `Phone` use the canonical patterns. `FieldMatch` names a sibling field
/// whose value must equal this field's value.
#[derive(Debug)]
pub enum Rule {
    MinLength(u64),
    MaxLength(u64),
    MinValue(i64),
    MaxValue(i64),
    Pattern(String),
    Email,
    Phone,
    FieldMatch(String),
}

/// The mathematical value of a [`FieldValue`].
pub enum ValueView {
    Absent,
    Text { chars: Seq<char> },
    Number { val: int },
}

/// A supplied value for one field of a record: absent, text, or a number.
#[derive(Debug)]
pub enum FieldValue {
    Absent,
    Text(String),
    Number(i64),
}

impl View for FieldValue {
    type V = ValueView;

    open spec fn view(&self) -> ValueView {
        match self {
            FieldValue::Absent => ValueView::Absent,
            FieldValue::Text(s) => ValueView::Text { chars: s@ },
            FieldValue::Number(n) => ValueView::Number { val: *n as int },
        }
    }
}

impl FieldValue {
    /// Exact equality of two supplied values, as `FieldMatch` compares them:
    /// same kind and same content.
    pub fn same_value(&self, other: &FieldValue) -> (r: bool)
        ensures
            r == (self@ == other@),
    {
        match (self, other) {
            (FieldValue::Absent, FieldValue::Absent) => true,
            (FieldValue::Text(a), FieldValue::Text(b)) => *a == *b,
            (FieldValue::Number(a), FieldValue::Number(b)) => a == b,
            _ => false,
        }
    }

    /// An equal copy of this value.
    pub fn duplicate(&self) -> (r: FieldValue)
        ensures
            r == *self,
    {
        match self {
            FieldValue::Absent => FieldValue::Absent,
            FieldValue::Text(s) => FieldValue::Text(s.clone()),
            FieldValue::Number(n) => FieldValue::Number(*n),
        }
    }
}

} // verus!
