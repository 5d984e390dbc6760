//! A single HTML tag attribute and its merge semantics.

use vstd::prelude::*;

verus! {

/// The mathematical value of an [`HtmlAttribute`]: a bare value, or a
/// name/value pair.
pub enum AttrView {
    Single { value: Seq<char> },
    Pair { name: Seq<char>, value: Seq<char> },
}

impl AttrView {
    /// Identity of an attribute is its kind plus its key: two pairs are the
    /// same attribute when their names match (whatever their values), two
    /// singles when their values match.
    pub open spec fn same_identity(self, other: AttrView) -> bool {
        match (self, other) {
            (AttrView::Single { value: v1 }, AttrView::Single { value: v2 }) => v1 == v2,
            (AttrView::Pair { name: n1, value: _ }, AttrView::Pair { name: n2, value: _ }) => n1
                == n2,
            _ => false,
        }
    }

    /// Whether the two attributes are of the same kind (both singles or both
    /// pairs).
    pub open spec fn same_kind(self, other: AttrView) -> bool {
        match (self, other) {
            (AttrView::Single { value: _ }, AttrView::Single { value: _ }) => true,
            (AttrView::Pair { name: _, value: _ }, AttrView::Pair { name: _, value: _ }) => true,
            _ => false,
        }
    }

    /// Merging two attributes of the same kind: singles keep the first
    /// (they are identical under the identity rule when they collide), and
    /// pairs keep the first name and join the two values with a space.
    pub open spec fn merged_with(self, other: AttrView) -> AttrView {
        match (self, other) {
            (
                AttrView::Pair { name: n1, value: v1 },
                AttrView::Pair { name: _, value: v2 },
            ) => (AttrView::Pair { name: n1, value: v1 + " "@ + v2 }),
            _ => self,
        }
    }

    /// The markup form of the attribute, with its leading space:
    /// `" value"` for a single, `" name='value'"` for a pair.
    pub open spec fn rendered(self) -> Seq<char> {
        match self {
            AttrView::Single { value } => " "@ + value,
            AttrView::Pair { name, value } => " "@ + name + "='"@ + value + "'"@,
        }
    }
}

/// One HTML tag attribute: a bare value such as `required`, or a name/value
/// pair such as `class='input-text'`.
#[derive(Debug)]
pub enum HtmlAttribute {
    Single(String),
    Pair(String, String),
}

impl View for HtmlAttribute {
    type V = AttrView;

    open spec fn view(&self) -> AttrView {
        match self {
            HtmlAttribute::Single(v) => AttrView::Single { value: v@ },
            HtmlAttribute::Pair(n, v) => AttrView::Pair { name: n@, value: v@ },
        }
    }
}

impl HtmlAttribute {
    /// Constructs a new single (value) attribute such as `required`.
    pub fn new_single(value: String) -> (r: HtmlAttribute)
        ensures
            r@ == (AttrView::Single { value: value@ }),
    {
        HtmlAttribute::Single(value)
    }

    /// Constructs a new pair attribute such as `id='username'`.
    pub fn new_pair(name: String, value: String) -> (r: HtmlAttribute)
        ensures
            r@ == (AttrView::Pair { name: name@, value: value@ }),
    {
        HtmlAttribute::Pair(name, value)
    }

    /// Merges two attributes of the same kind into one. Two singles keep the
    /// first; two pairs keep the first name and concatenate the two values
    /// with a separating space.
    pub fn merge(a: &HtmlAttribute, b: &HtmlAttribute) -> (r: HtmlAttribute)
        requires
            a@.same_kind(b@),
        ensures
            r@ == a@.merged_with(b@),
    {
        match (a, b) {
            (HtmlAttribute::Single(_), HtmlAttribute::Single(_)) => a.duplicate(),
            (HtmlAttribute::Pair(name, av), HtmlAttribute::Pair(_, bv)) => {
                let mut v = av.clone();
                v.append(" ");
                v.append(bv.as_str());
                HtmlAttribute::Pair(name.clone(), v)
            },
            _ => unreached(),
        }
    }

    /// The markup form of this attribute, with its leading space.
    pub fn render(&self) -> (r: String)
        ensures
            r@ == self@.rendered(),
    {
        match self {
            HtmlAttribute::Single(v) => {
                let mut s = String::from_str(" ");
                s.append(v.as_str());
                s
            },
            HtmlAttribute::Pair(n, v) => {
                let mut s = String::from_str(" ");
                s.append(n.as_str());
                s.append("='");
                s.append(v.as_str());
                s.append("'");
                s
            },
        }
    }

    /// Present for interface completeness: an attribute is immutable, so
    /// appending a value in place is not supported. Combining colliding
    /// attributes happens through [`Self::merge`].
    pub fn update(&self, _value: &str) {
    }

    /// An equal copy of this attribute.
    pub fn duplicate(&self) -> (r: HtmlAttribute)
        ensures
            r == *self,
    {
        match self {
            HtmlAttribute::Single(v) => HtmlAttribute::Single(v.clone()),
            HtmlAttribute::Pair(n, v) => HtmlAttribute::Pair(n.clone(), v.clone()),
        }
    }
}

impl PartialEq for HtmlAttribute {
    /// Attribute equality is identity: kind plus key.
    fn eq(&self, other: &HtmlAttribute) -> (r: bool) {
        match (self, other) {
            (HtmlAttribute::Single(v1), HtmlAttribute::Single(v2)) => *v1 == *v2,
            (HtmlAttribute::Pair(n1, _), HtmlAttribute::Pair(n2, _)) => *n1 == *n2,
            _ => false,
        }
    }
}

impl vstd::std_specs::cmp::PartialEqSpecImpl for HtmlAttribute {
    open spec fn obeys_eq_spec() -> bool {
        true
    }

    open spec fn eq_spec(&self, other: &HtmlAttribute) -> bool {
        self@.same_identity(other@)
    }
}

} // verus!
