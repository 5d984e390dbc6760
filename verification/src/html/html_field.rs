//! A form field under construction, and the finished field it yields.
//!
//! [`HtmlFieldBuilder`] is a fluent builder: early calls add baseline
//! attributes, [`HtmlFieldBuilder::replace`] switches subsequent inserts to
//! overwrite semantics, and [`HtmlFieldBuilder::finish`] yields the
//! immutable [`HtmlField`] that renders as a self-contained tag.

use vstd::prelude::*;

use crate::html::attribute_set::entries_wf;
use crate::html::attribute_set::spec_mode_insert;
use crate::html::attribute_set::spec_insert_replace;
use crate::html::attribute_set::spec_override;
use crate::html::attribute_set::spec_remove;
use crate::html::attribute_set::spec_render_entries;
use crate::html::attribute_set::AttributeSet;
use crate::html::attribute_set::has_identity;
use crate::html::html_attribute::AttrView;
use crate::html::html_attribute::HtmlAttribute;

verus! {

/// The result of inserting each item in order under the given mode.
pub open spec fn spec_insert_all(s: Seq<AttrView>, replace: bool, items: Seq<AttrView>) -> Seq<
    AttrView,
>
    decreases items.len(),
{
    if items.len() == 0 {
        s
    } else {
        spec_insert_all(spec_mode_insert(s, replace, items[0]), replace, items.drop_first())
    }
}

/// The markup form of a whole field: the tag, its attributes, and the
/// closing bracket.
pub open spec fn spec_render_field(tag: Seq<char>, attrs: Seq<AttrView>) -> Seq<char> {
    "<"@ + tag + spec_render_entries(attrs) + ">"@
}

/// The mathematical value of a single attribute pushed at the end of an
/// insert-all sequence.
pub proof fn lemma_insert_all_snoc(s: Seq<AttrView>, replace: bool, items: Seq<AttrView>, a: AttrView)
    ensures
        spec_insert_all(s, replace, items + seq![a]) == spec_mode_insert(
            spec_insert_all(s, replace, items),
            replace,
            a,
        ),
    decreases items.len(),
{
    let whole = items + seq![a];
    if items.len() == 0 {
        assert(whole =~= seq![a]);
        assert(whole.drop_first() =~= Seq::<AttrView>::empty());
        assert(spec_insert_all(spec_mode_insert(s, replace, a), replace, whole.drop_first())
            == spec_mode_insert(s, replace, a));
    } else {
        assert(whole.drop_first() =~= items.drop_first() + seq![a]);
        assert(whole[0] == items[0]);
        lemma_insert_all_snoc(spec_mode_insert(s, replace, items[0]), replace, items.drop_first(), a);
    }
}

/// A form field under construction: its markup tag, its optional field
/// name, and its attribute set (which carries the current insertion mode).
#[derive(Debug)]
pub struct HtmlFieldBuilder {
    pub tag: String,
    pub name: Option<String>,
    pub attrs: AttributeSet,
}

/// A finished, immutable form field: the tag and its attribute set.
#[derive(Debug)]
pub struct HtmlField {
    pub tag: String,
    pub name: Option<String>,
    pub attrs: AttributeSet,
}

impl HtmlFieldBuilder {
    /// The field name as a mathematical value.
    pub open spec fn name_view(&self) -> Option<Seq<char>> {
        match self.name {
            Some(ref n) => Some(n@),
            None => None,
        }
    }

    /// Builds a new field builder with the given tag and optional field
    /// name. A given name is seeded as a `name='<field>'` pair attribute.
    pub fn new(tag: String, name: Option<String>) -> (r: HtmlFieldBuilder)
        ensures
            r.tag@ == tag@,
            r.name_view() == match name {
                Some(n) => Some::<Seq<char>>(n@),
                None => None::<Seq<char>>,
            },
            r.attrs@ == match name {
                Some(n) => seq![(AttrView::Pair { name: "name"@, value: n@ })],
                None => Seq::<AttrView>::empty(),
            },
            !r.attrs.replace,
            r.attrs.wf(),
    {
        let mut attrs = AttributeSet::new();
        let name_copy: Option<String> = match &name {
            Some(n) => {
                attrs.insert(HtmlAttribute::new_pair(String::from_str("name"), n.clone()));
                proof {
                    assert(attrs@ =~= seq![(AttrView::Pair { name: "name"@, value: n@ })]);
                }
                Some(n.clone())
            },
            None => None,
        };
        HtmlFieldBuilder { tag, name: name_copy, attrs }
    }

    /// Same as [`Self::new`], but starts from the given attribute set. A
    /// given name overwrites any `name` pair already in the set, and the
    /// returned builder starts in append mode whatever mode the set
    /// carried.
    pub fn with_attrs(tag: String, name: Option<String>, attrs: AttributeSet) -> (r:
        HtmlFieldBuilder)
        ensures
            r.tag@ == tag@,
            r.name_view() == match name {
                Some(n) => Some::<Seq<char>>(n@),
                None => None::<Seq<char>>,
            },
            r.attrs@ == match name {
                Some(n) => spec_insert_replace(
                    attrs@,
                    (AttrView::Pair { name: "name"@, value: n@ }),
                ),
                None => attrs@,
            },
            !r.attrs.replace,
            attrs.wf() ==> r.attrs.wf(),
    {
        let mut a = attrs;
        let name_copy: Option<String> = match &name {
            Some(n) => {
                a.replace = true;
                a.insert(HtmlAttribute::new_pair(String::from_str("name"), n.clone()));
                Some(n.clone())
            },
            None => None,
        };
        a.replace = false;
        HtmlFieldBuilder { tag, name: name_copy, attrs: a }
    }

    /// Switches to replace mode: subsequent inserts overwrite any colliding
    /// attribute instead of merging with it.
    pub fn replace(self) -> (r: HtmlFieldBuilder)
        ensures
            r.tag == self.tag,
            r.name == self.name,
            r.attrs@ == self.attrs@,
            r.attrs.replace,
    {
        let mut this = self;
        this.attrs.replace = true;
        this
    }

    /// Switches to append mode: subsequent inserts merge with any colliding
    /// attribute.
    pub fn append(self) -> (r: HtmlFieldBuilder)
        ensures
            r.tag == self.tag,
            r.name == self.name,
            r.attrs@ == self.attrs@,
            !r.attrs.replace,
    {
        let mut this = self;
        this.attrs.replace = false;
        this
    }

    /// Adds a single (value) attribute such as `checked` or `required`.
    pub fn value(self, value: String) -> (r: HtmlFieldBuilder)
        ensures
            r.tag == self.tag,
            r.name == self.name,
            r.attrs@ == spec_mode_insert(
                self.attrs@,
                self.attrs.replace,
                (AttrView::Single { value: value@ }),
            ),
            r.attrs.replace == self.attrs.replace,
            self.attrs.wf() ==> r.attrs.wf(),
    {
        let mut this = self;
        this.attrs.insert(HtmlAttribute::new_single(value));
        this
    }

    /// Adds each string of the vector as a single (value) attribute, in
    /// order.
    pub fn values(self, values: Vec<String>) -> (r: HtmlFieldBuilder)
        ensures
            r.tag == self.tag,
            r.name == self.name,
            r.attrs@ == spec_insert_all(
                self.attrs@,
                self.attrs.replace,
                values@.map_values(|v: String| (AttrView::Single { value: v@ })),
            ),
            r.attrs.replace == self.attrs.replace,
            self.attrs.wf() ==> r.attrs.wf(),
    {
        let ghost items = values@.map_values(|v: String| (AttrView::Single { value: v@ }));
        let ghost orig = self.attrs@;
        let ghost mode = self.attrs.replace;
        let mut this = self;
        let n = values.len();
        let mut i: usize = 0;
        while i < n
            invariant
                n == values@.len(),
                0 <= i <= n,
                items == values@.map_values(|v: String| (AttrView::Single { value: v@ })),
                items.len() == n,
                this.attrs@ == spec_insert_all(orig, mode, items.take(i as int)),
                this.attrs.replace == mode,
                this.tag == self.tag,
                this.name == self.name,
                entries_wf(orig) ==> this.attrs.wf(),
            decreases n - i,
        {
            this.attrs.insert(HtmlAttribute::new_single(values[i].clone()));
            proof {
                assert(items.take(i as int) + seq![items[i as int]] =~= items.take(i + 1 as int));
                lemma_insert_all_snoc(orig, mode, items.take(i as int), items[i as int]);
            }
            i = i + 1;
        }
        proof {
            assert(items.take(n as int) =~= items);
        }
        this
    }

    /// Adds a pair attribute such as `class='btn btn-large'`.
    pub fn attr(self, attr: String, value: String) -> (r: HtmlFieldBuilder)
        ensures
            r.tag == self.tag,
            r.name == self.name,
            r.attrs@ == spec_mode_insert(
                self.attrs@,
                self.attrs.replace,
                (AttrView::Pair { name: attr@, value: value@ }),
            ),
            r.attrs.replace == self.attrs.replace,
            self.attrs.wf() ==> r.attrs.wf(),
    {
        let mut this = self;
        this.attrs.insert(HtmlAttribute::new_pair(attr, value));
        this
    }

    /// Adds every attribute of the given set, in the set's order.
    pub fn attrs(self, h: AttributeSet) -> (r: HtmlFieldBuilder)
        ensures
            r.tag == self.tag,
            r.name == self.name,
            r.attrs@ == spec_insert_all(self.attrs@, self.attrs.replace, h@),
            r.attrs.replace == self.attrs.replace,
            self.attrs.wf() ==> r.attrs.wf(),
    {
        let ghost orig = self.attrs@;
        let ghost mode = self.attrs.replace;
        let mut this = self;
        let n = h.entries.len();
        let mut i: usize = 0;
        while i < n
            invariant
                n == h.entries@.len(),
                0 <= i <= n,
                h@.len() == n,
                this.attrs@ == spec_insert_all(orig, mode, h@.take(i as int)),
                this.attrs.replace == mode,
                this.tag == self.tag,
                this.name == self.name,
                entries_wf(orig) ==> this.attrs.wf(),
            decreases n - i,
        {
            this.attrs.insert(h.entries[i].duplicate());
            proof {
                assert(h@.take(i as int) + seq![h@[i as int]] =~= h@.take(i + 1 as int));
                lemma_insert_all_snoc(orig, mode, h@.take(i as int), h@[i as int]);
            }
            i = i + 1;
        }
        proof {
            assert(h@.take(n as int) =~= h@);
        }
        this
    }

    /// Helper to set the `class` pair attribute.
    pub fn class(self, classes: String) -> (r: HtmlFieldBuilder)
        ensures
            r.tag == self.tag,
            r.name == self.name,
            r.attrs@ == spec_mode_insert(
                self.attrs@,
                self.attrs.replace,
                (AttrView::Pair { name: "class"@, value: classes@ }),
            ),
            r.attrs.replace == self.attrs.replace,
            self.attrs.wf() ==> r.attrs.wf(),
    {
        let mut this = self;
        this.attrs.insert(HtmlAttribute::new_pair(String::from_str("class"), classes));
        this
    }

    /// Helper to set the single `required` attribute.
    pub fn required(self) -> (r: HtmlFieldBuilder)
        ensures
            r.tag == self.tag,
            r.name == self.name,
            r.attrs@ == spec_mode_insert(
                self.attrs@,
                self.attrs.replace,
                (AttrView::Single { value: "required"@ }),
            ),
            r.attrs.replace == self.attrs.replace,
            self.attrs.wf() ==> r.attrs.wf(),
    {
        let mut this = self;
        this.attrs.insert(HtmlAttribute::new_single(String::from_str("required")));
        this
    }

    /// Helper to unset the single `required` attribute: a field that
    /// becomes optional loses the flag.
    pub fn optional(self) -> (r: HtmlFieldBuilder)
        ensures
            r.tag == self.tag,
            r.name == self.name,
            r.attrs@ == spec_remove(self.attrs@, (AttrView::Single { value: "required"@ })),
            r.attrs.replace == self.attrs.replace,
            self.attrs.wf() ==> r.attrs.wf(),
    {
        let mut this = self;
        let probe = HtmlAttribute::new_single(String::from_str("required"));
        this.attrs.remove(&probe);
        this
    }

    /// Finalizes the builder into an immutable [`HtmlField`] with the same
    /// tag and attributes.
    pub fn finish(self) -> (r: HtmlField)
        ensures
            r.tag == self.tag,
            r.name is None,
            r.attrs@ == self.attrs@,
    {
        HtmlField { tag: self.tag, name: None, attrs: self.attrs }
    }

    /// An equal copy of this builder.
    pub fn duplicate(&self) -> (r: HtmlFieldBuilder)
        ensures
            r.tag == self.tag,
            r.name == self.name,
            r.attrs@ == self.attrs@,
            r.attrs.entries@ == self.attrs.entries@,
            r.attrs.replace == self.attrs.replace,
    {
        let name: Option<String> = match &self.name {
            Some(n) => Some(n.clone()),
            None => None,
        };
        HtmlFieldBuilder { tag: self.tag.clone(), name, attrs: self.attrs.duplicate() }
    }
}

impl HtmlField {
    /// The markup form of the field: its tag followed by every attribute,
    /// closed as a self-contained tag.
    pub fn render(&self) -> (r: String)
        ensures
            r@ == spec_render_field(self.tag@, self.attrs@),
    {
        let mut out = String::from_str("<");
        out.append(self.tag.as_str());
        let attrs = self.attrs.render();
        out.append(attrs.as_str());
        out.append(">");
        out
    }

    /// The markup form of the field under an override set: every baseline
    /// attribute whose identity the overrides do not touch, then every
    /// override attribute. The field itself is unchanged.
    pub fn render_with(&self, over: &AttributeSet) -> (r: String)
        ensures
            r@ == spec_render_field(self.tag@, spec_override(self.attrs@, over@)),
    {
        let mut out = String::from_str("<");
        out.append(self.tag.as_str());
        let attrs = self.attrs.render_with(over);
        out.append(attrs.as_str());
        out.append(">");
        out
    }
}

/// A set overridden by its own entries survives unchanged: every entry is
/// suppressed from the baseline and re-emitted from the override set.
pub proof fn lemma_override_with_self(attrs: Seq<AttrView>)
    ensures
        spec_override(attrs, attrs) == attrs,
{
    assert forall|i: int| 0 <= i < attrs.len() implies has_identity(
        attrs,
        #[trigger] attrs[i],
    ) by {
        assert(attrs[i].same_identity(attrs[i]));
    }
    lemma_surviving_all_covered(attrs, attrs);
    assert(Seq::<AttrView>::empty() + attrs =~= attrs);
}

/// Rendering a field with an override set equal to its own attributes
/// yields the same markup as rendering it with no overrides.
pub proof fn lemma_render_override_self(tag: Seq<char>, attrs: Seq<AttrView>)
    ensures
        spec_render_field(tag, spec_override(attrs, attrs)) == spec_render_field(tag, attrs),
{
    lemma_override_with_self(attrs);
}

/// When every entry of the base has its identity covered by the override
/// set, nothing of the base survives.
proof fn lemma_surviving_all_covered(base: Seq<AttrView>, over: Seq<AttrView>)
    requires
        forall|i: int| 0 <= i < base.len() ==> has_identity(over, #[trigger] base[i]),
    ensures
        crate::html::attribute_set::spec_surviving(base, over) == Seq::<AttrView>::empty(),
    decreases base.len(),
{
    if base.len() != 0 {
        assert(forall|i: int|
            0 <= i < base.drop_first().len() ==> base.drop_first()[i] == (#[trigger] base[
            i + 1]));
        lemma_surviving_all_covered(base.drop_first(), over);
        assert(has_identity(over, base[0]));
    }
}

} // verus!
