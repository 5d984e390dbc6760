//! Builds a whole form out of named field builders.

use vstd::prelude::*;

use crate::html::html_field::spec_render_field;
use crate::html::html_field::HtmlFieldBuilder;
use crate::html::html_validate::spec_first_failing;
use crate::html::html_validate::spec_has_field;
use crate::html::html_validate::spec_lookup_error;
use crate::html::html_validate::spec_message_for;
use crate::html::html_validate::FieldError;
use crate::html::html_validate::FieldValidator;
use crate::validate::registry::RegexRegistry;
use crate::validate::rules::FieldValue;

verus! {

/// One named field of a form under construction.
#[derive(Debug)]
pub struct FormEntry {
    pub name: String,
    pub builder: HtmlFieldBuilder,
}

/// The field stored under `name`, if any: a field added again under the
/// same name replaces the earlier one.
pub open spec fn spec_lookup_field(fields: Seq<FormEntry>, name: Seq<char>) -> Option<FormEntry>
    decreases fields.len(),
{
    if fields.len() == 0 {
        None
    } else if fields.last().name@ == name {
        Some(fields.last())
    } else {
        spec_lookup_field(fields.drop_last(), name)
    }
}

/// The markup of a whole form: each field rendered from its builder's tag
/// and attributes, in insertion order, each followed by a newline.
pub open spec fn spec_render_form(fields: Seq<FormEntry>) -> Seq<char>
    decreases fields.len(),
{
    if fields.len() == 0 {
        Seq::empty()
    } else {
        spec_render_field(fields[0].builder.tag@, fields[0].builder.attrs@) + "\n"@
            + spec_render_form(fields.drop_first())
    }
}

/// A form under construction: its named fields in insertion order, the
/// outcome of the last validation, and the failures it recorded.
#[derive(Debug)]
pub struct HtmlFormBuilder {
    pub fields: Vec<FormEntry>,
    pub validated: bool,
    pub errors: Vec<FieldError>,
}

impl HtmlFormBuilder {
    /// An empty form: no fields, nothing validated, no failures.
    pub fn new() -> (r: HtmlFormBuilder)
        ensures
            r.fields@ == Seq::<FormEntry>::empty(),
            !r.validated,
            r.errors@ == Seq::<FieldError>::empty(),
    {
        HtmlFormBuilder { fields: Vec::new(), validated: false, errors: Vec::new() }
    }

    /// Adds a field builder under a name; a field added again under the
    /// same name replaces the earlier one.
    pub fn add_field(&mut self, name: String, field: HtmlFieldBuilder)
        ensures
            final(self).fields@ == old(self).fields@ + seq![
                FormEntry { name: name, builder: field },
            ],
            final(self).validated == old(self).validated,
            final(self).errors == old(self).errors,
    {
        self.fields.push(FormEntry { name, builder: field });
    }

    /// A copy of the field builder stored under `field`, ready for
    /// further in-place customization. The field must have been added.
    pub fn builder(&self, field: &str) -> (r: HtmlFieldBuilder)
        requires
            spec_lookup_field(self.fields@, field@) is Some,
        ensures
            ({
                let e = spec_lookup_field(self.fields@, field@).unwrap();
                &&& r.tag == e.builder.tag
                &&& r.name == e.builder.name
                &&& r.attrs@ == e.builder.attrs@
                &&& r.attrs.replace == e.builder.attrs.replace
            }),
    {
        let key = String::from_str(field);
        let ghost fs = self.fields@;
        let n = self.fields.len();
        let mut found: Option<usize> = None;
        let mut i: usize = 0;
        while i < n
            invariant
                n == fs.len(),
                fs == self.fields@,
                key@ == field@,
                0 <= i <= n,
                spec_lookup_field(fs.take(i as int), field@) == match found {
                    Some(j) => Some(fs[j as int]),
                    None => None::<FormEntry>,
                },
                found matches Some(j) ==> 0 <= j < i,
            decreases n - i,
        {
            proof {
                assert(fs.take(i + 1 as int).drop_last() =~= fs.take(i as int));
                assert(fs.take(i + 1 as int).last() == fs[i as int]);
            }
            if self.fields[i].name.eq(&key) {
                found = Some(i);
            }
            i = i + 1;
        }
        proof {
            assert(fs.take(n as int) =~= fs);
        }
        match found {
            Some(j) => self.fields[j].builder.duplicate(),
            None => unreached(),
        }
    }

    /// Whether a field builder is stored under `field`.
    pub fn contains_field(&self, field: &str) -> (r: bool)
        ensures
            r == (spec_lookup_field(self.fields@, field@) is Some),
    {
        let key = String::from_str(field);
        let ghost fs = self.fields@;
        let n = self.fields.len();
        let mut found = false;
        let mut i: usize = 0;
        while i < n
            invariant
                n == fs.len(),
                fs == self.fields@,
                key@ == field@,
                0 <= i <= n,
                found == (spec_lookup_field(fs.take(i as int), field@) is Some),
            decreases n - i,
        {
            proof {
                assert(fs.take(i + 1 as int).drop_last() =~= fs.take(i as int));
                assert(fs.take(i + 1 as int).last() == fs[i as int]);
            }
            if self.fields[i].name.eq(&key) {
                found = true;
            }
            i = i + 1;
        }
        proof {
            assert(fs.take(n as int) =~= fs);
        }
        found
    }

    /// Whether the last validation of a field value passed. False until
    /// [`Self::validate_field`] runs.
    pub fn validated(&self) -> (r: bool)
        ensures
            r == self.validated,
    {
        self.validated
    }

    /// Judges one value with a field validator: sets the validated flag to
    /// the outcome and records the first broken rule's message, at most
    /// one per field.
    pub fn validate_field(
        &mut self,
        validator: &FieldValidator,
        value: &FieldValue,
        registry: &RegexRegistry,
    )
        ensures
            final(self).fields == old(self).fields,
            final(self).validated == (spec_first_failing(
                validator.rules@,
                validator.field@,
                value@,
                registry@,
            ) is None),
            match spec_first_failing(validator.rules@, validator.field@, value@, registry@) {
                None => final(self).errors@ == old(self).errors@,
                Some(rule) => if spec_has_field(old(self).errors@, validator.field@) {
                    final(self).errors@ == old(self).errors@
                } else {
                    &&& final(self).errors@.len() == old(self).errors@.len() + 1
                    &&& final(self).errors@.drop_last() == old(self).errors@
                    &&& final(self).errors@.last().field@ == validator.field@
                    &&& final(self).errors@.last().message@ == spec_message_for(
                        rule,
                        validator.messages@,
                    )
                },
            },
    {
        let ok = validator.validate(value, registry, &mut self.errors);
        self.validated = ok;
    }

    /// The first recorded failure message for a field, if any.
    pub fn errors(&self, field: &str) -> (r: Option<&String>)
        ensures
            match r {
                Some(m) => spec_lookup_error(self.errors@, field@) == Some(m@),
                None => spec_lookup_error(self.errors@, field@) is None,
            },
    {
        let key = String::from_str(field);
        let n = self.errors.len();
        let mut i: usize = 0;
        proof {
            assert(self.errors@.skip(0) =~= self.errors@);
        }
        while i < n
            invariant
                n == self.errors@.len(),
                key@ == field@,
                0 <= i <= n,
                spec_lookup_error(self.errors@, field@) == spec_lookup_error(
                    self.errors@.skip(i as int),
                    field@,
                ),
            decreases n - i,
        {
            proof {
                assert(self.errors@.skip(i as int)[0] == self.errors@[i as int]);
                assert(self.errors@.skip(i as int).drop_first() =~= self.errors@.skip(
                    i + 1 as int,
                ));
            }
            if self.errors[i].field.eq(&key) {
                return Some(&self.errors[i].message);
            }
            i = i + 1;
        }
        proof {
            assert(self.errors@.skip(n as int) =~= Seq::<FieldError>::empty());
        }
        None
    }

    /// The markup of the whole form: every field in insertion order, each
    /// rendered as a self-contained tag followed by a newline.
    pub fn render_form(&self) -> (r: String)
        ensures
            r@ == spec_render_form(self.fields@),
    {
        let ghost fs = self.fields@;
        let mut out = String::new();
        let n = self.fields.len();
        let mut i: usize = 0;
        proof {
            assert(out@ =~= spec_render_form(fs.take(0)));
        }
        while i < n
            invariant
                n == fs.len(),
                fs == self.fields@,
                0 <= i <= n,
                out@ == spec_render_form(fs.take(i as int)),
            decreases n - i,
        {
            let entry = &self.fields[i];
            let mut piece = String::from_str("<");
            piece.append(entry.builder.tag.as_str());
            let attrs = entry.builder.attrs.render();
            piece.append(attrs.as_str());
            piece.append(">");
            out.append(piece.as_str());
            out.append("\n");
            proof {
                lemma_render_form_snoc(fs.take(i as int), fs[i as int]);
                assert(fs.take(i as int) + seq![fs[i as int]] =~= fs.take(i + 1 as int));
            }
            i = i + 1;
        }
        proof {
            assert(fs.take(n as int) =~= fs);
        }
        out
    }
}

/// The markup of a form extended by one field: the old markup, then the
/// new field's tag and a newline.
proof fn lemma_render_form_snoc(fields: Seq<FormEntry>, e: FormEntry)
    ensures
        spec_render_form(fields + seq![e]) == spec_render_form(fields) + spec_render_field(
            e.builder.tag@,
            e.builder.attrs@,
        ) + "\n"@,
    decreases fields.len(),
{
    let whole = fields + seq![e];
    let piece = spec_render_field(e.builder.tag@, e.builder.attrs@) + "\n"@;
    if fields.len() == 0 {
        assert(whole =~= seq![e]);
        assert(whole.drop_first() =~= Seq::<FormEntry>::empty());
        assert(spec_render_form(whole.drop_first()) == Seq::<char>::empty());
        assert(spec_render_form(whole) =~= spec_render_field(e.builder.tag@, e.builder.attrs@)
            + "\n"@ + Seq::<char>::empty());
        assert(spec_render_field(e.builder.tag@, e.builder.attrs@) + "\n"@ + Seq::<char>::empty()
            =~= spec_render_form(fields) + spec_render_field(e.builder.tag@, e.builder.attrs@)
            + "\n"@);
    } else {
        assert(whole.drop_first() =~= fields.drop_first() + seq![e]);
        assert(whole[0] == fields[0]);
        lemma_render_form_snoc(fields.drop_first(), e);
        let head = spec_render_field(fields[0].builder.tag@, fields[0].builder.attrs@) + "\n"@;
        assert(head + (spec_render_form(fields.drop_first()) + spec_render_field(
            e.builder.tag@,
            e.builder.attrs@,
        ) + "\n"@) =~= (head + spec_render_form(fields.drop_first())) + spec_render_field(
            e.builder.tag@,
            e.builder.attrs@,
        ) + "\n"@);
    }
}

} // verus!
