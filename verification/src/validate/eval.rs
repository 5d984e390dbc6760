//! The validation evaluator: ordered rule execution over a field schema.
//!
//! Every rule of a schema is evaluated in declaration order and every
//! broken rule is reported; evaluation never stops at the first failure.
//! An absent value satisfies every rule, so an optional field with no
//! supplied value reports nothing. Cross-field `FieldMatch` rules read the
//! sibling's value from the record under validation; validating a single
//! field in isolation treats them as not applicable.

use vstd::prelude::*;

use crate::html::attribute_set::spec_override;
use crate::html::attribute_set::AttributeSet;
use crate::html::html_field::spec_render_field;
use crate::validate::errors::ErrorView;
use crate::validate::errors::ValidateError;
use crate::validate::registry::spec_email_pattern;
use crate::validate::registry::spec_lookup_pattern;
use crate::validate::registry::spec_phone_pattern;
use crate::validate::registry::email_pattern;
use crate::validate::registry::pattern_matches;
use crate::validate::registry::phone_pattern;
use crate::validate::registry::regex_match;
use crate::validate::registry::RegexEntry;
use crate::validate::registry::RegexRegistry;
use crate::validate::rules::FieldValue;
use crate::validate::rules::Rule;
use crate::validate::rules::ValueView;

verus! {

/// One named field value of a record under validation.
#[derive(Debug)]
pub struct RecordEntry {
    pub name: String,
    pub value: FieldValue,
}

/// The values of a record under validation, as a name-to-value mapping.
/// Lookups take the first entry with the name; callers add each field
/// once.
#[derive(Debug)]
pub struct Record {
    pub entries: Vec<RecordEntry>,
}

impl View for Record {
    type V = Seq<(Seq<char>, ValueView)>;

    open spec fn view(&self) -> Seq<(Seq<char>, ValueView)> {
        self.entries@.map_values(|e: RecordEntry| (e.name@, e.value@))
    }
}

/// The value stored under `name`, if any: the first entry that carries it.
pub open spec fn spec_lookup_value(rec: Seq<(Seq<char>, ValueView)>, name: Seq<char>) -> Option<
    ValueView,
>
    decreases rec.len(),
{
    if rec.len() == 0 {
        None
    } else if rec[0].0 == name {
        Some(rec[0].1)
    } else {
        spec_lookup_value(rec.drop_first(), name)
    }
}

/// The value a record supplies for a field: the stored value, or absent
/// when the record has no entry for it.
pub open spec fn spec_value_of(rec: Seq<(Seq<char>, ValueView)>, name: Seq<char>) -> ValueView {
    match spec_lookup_value(rec, name) {
        Some(v) => v,
        None => ValueView::Absent,
    }
}

impl Record {
    /// An empty record.
    pub fn new() -> (r: Record)
        ensures
            r@ == Seq::<(Seq<char>, ValueView)>::empty(),
    {
        let r = Record { entries: Vec::new() };
        proof {
            assert(r@ =~= Seq::<(Seq<char>, ValueView)>::empty());
        }
        r
    }

    /// Appends one named value. Lookups take the first entry with a name,
    /// so each field is added once.
    pub fn add(&mut self, name: String, value: FieldValue)
        ensures
            final(self)@ == old(self)@ + seq![(name@, value@)],
    {
        let ghost olds = self@;
        self.entries.push(RecordEntry { name, value });
        proof {
            assert(self@ =~= olds + seq![(name@, value@)]);
        }
    }

    /// The value stored under `name`, if any.
    pub fn get(&self, name: &str) -> (r: Option<&FieldValue>)
        ensures
            match r {
                Some(v) => spec_lookup_value(self@, name@) == Some(v@),
                None => spec_lookup_value(self@, name@) is None,
            },
    {
        let key = String::from_str(name);
        let n = self.entries.len();
        let mut i: usize = 0;
        proof {
            assert(self@.skip(0) =~= self@);
        }
        while i < n
            invariant
                key@ == name@,
                n == self.entries@.len(),
                self@.len() == n,
                0 <= i <= n,
                spec_lookup_value(self@, name@) == spec_lookup_value(self@.skip(i as int), name@),
            decreases n - i,
        {
            proof {
                assert(self@.skip(i as int)[0] == self@[i as int]);
                assert(self@.skip(i as int).drop_first() =~= self@.skip(i + 1 as int));
            }
            if self.entries[i].name.eq(&key) {
                return Some(&self.entries[i].value);
            }
            i = i + 1;
        }
        proof {
            assert(self@.skip(n as int) =~= Seq::<(Seq<char>, ValueView)>::empty());
        }
        None
    }
}

/// The finished, immutable description of one field: its name, its markup
/// tag and attributes, its ordered rule list, and its optionality flag.
#[derive(Debug)]
pub struct FieldSchema {
    pub name: String,
    pub tag: String,
    pub attrs: AttributeSet,
    pub rules: Vec<Rule>,
    pub optional: bool,
}

impl FieldSchema {
    /// A schema with the given name and tag, no attributes, no rules, and
    /// the field required.
    pub fn new(name: String, tag: String) -> (r: FieldSchema)
        ensures
            r.name@ == name@,
            r.tag@ == tag@,
            r.attrs@ == Seq::<crate::html::html_attribute::AttrView>::empty(),
            r.rules@ == Seq::<Rule>::empty(),
            !r.optional,
    {
        FieldSchema {
            name,
            tag,
            attrs: AttributeSet::new(),
            rules: Vec::new(),
            optional: false,
        }
    }

    /// Appends one rule to the schema's ordered rule list.
    pub fn add_rule(&mut self, rule: Rule)
        ensures
            final(self)@ == old(self)@,
            final(self).rules@ == old(self).rules@ + seq![rule],
            final(self).name == old(self).name,
            final(self).tag == old(self).tag,
            final(self).attrs == old(self).attrs,
            final(self).optional == old(self).optional,
    {
        self.rules.push(rule);
    }

    /// Marks the field optional or required.
    pub fn set_optional(&mut self, optional: bool)
        ensures
            final(self).optional == optional,
            final(self).rules == old(self).rules,
            final(self).name == old(self).name,
            final(self).tag == old(self).tag,
            final(self).attrs == old(self).attrs,
    {
        self.optional = optional;
    }

    /// The markup form of the field: its tag and attributes, closed as a
    /// self-contained tag.
    pub fn render(&self) -> (r: String)
        ensures
            r@ == spec_render_field(self.tag@, self.attrs@),
    {
        let mut out = String::from_str("<");
        out.append(self.tag.as_str());
        let attrs = self.attrs.render();
        out.append(attrs.as_str());
        out.append(">");
        out
    }

    /// The markup form of the field under an override set: baseline
    /// attributes whose identity the overrides do not touch, then every
    /// override attribute.
    pub fn render_with(&self, over: &AttributeSet) -> (r: String)
        ensures
            r@ == spec_render_field(self.tag@, spec_override(self.attrs@, over@)),
    {
        let mut out = String::from_str("<");
        out.append(self.tag.as_str());
        let attrs = self.attrs.render_with(over);
        out.append(attrs.as_str());
        out.append(">");
        out
    }
}

impl View for FieldSchema {
    type V = Seq<crate::html::html_attribute::AttrView>;

    open spec fn view(&self) -> Seq<crate::html::html_attribute::AttrView> {
        self.attrs@
    }
}

/// The markup of a whole form given as schemas: each field rendered from
/// its tag and attributes, in declared order, each followed by a newline.
pub open spec fn spec_render_schemas(schemas: Seq<FieldSchema>) -> Seq<char>
    decreases schemas.len(),
{
    if schemas.len() == 0 {
        Seq::empty()
    } else {
        spec_render_field(schemas[0].tag@, schemas[0].attrs@) + "\n"@ + spec_render_schemas(
            schemas.drop_first(),
        )
    }
}

/// Renders a whole form: every schema in declared order, each rendered as
/// a self-contained tag followed by a newline.
pub fn render_form(schemas: &Vec<FieldSchema>) -> (r: String)
    ensures
        r@ == spec_render_schemas(schemas@),
{
    let ghost ss = schemas@;
    let mut out = String::new();
    let n = schemas.len();
    let mut i: usize = 0;
    proof {
        assert(out@ =~= spec_render_schemas(ss.take(0)));
    }
    while i < n
        invariant
            n == ss.len(),
            ss == schemas@,
            0 <= i <= n,
            out@ == spec_render_schemas(ss.take(i as int)),
        decreases n - i,
    {
        let piece = schemas[i].render();
        out.append(piece.as_str());
        out.append("\n");
        proof {
            lemma_render_schemas_snoc(ss.take(i as int), ss[i as int]);
            assert(ss.take(i as int) + seq![ss[i as int]] =~= ss.take(i + 1 as int));
        }
        i = i + 1;
    }
    proof {
        assert(ss.take(n as int) =~= ss);
    }
    out
}

/// The markup of a form extended by one schema: the old markup, then the
/// new field's tag and a newline.
proof fn lemma_render_schemas_snoc(schemas: Seq<FieldSchema>, s: FieldSchema)
    ensures
        spec_render_schemas(schemas + seq![s]) == spec_render_schemas(schemas) + spec_render_field(
            s.tag@,
            s.attrs@,
        ) + "\n"@,
    decreases schemas.len(),
{
    let whole = schemas + seq![s];
    if schemas.len() == 0 {
        assert(whole =~= seq![s]);
        assert(whole.drop_first() =~= Seq::<FieldSchema>::empty());
        assert(spec_render_schemas(whole.drop_first()) == Seq::<char>::empty());
        assert(spec_render_field(s.tag@, s.attrs@) + "\n"@ + Seq::<char>::empty()
            =~= spec_render_schemas(schemas) + spec_render_field(s.tag@, s.attrs@) + "\n"@);
    } else {
        assert(whole.drop_first() =~= schemas.drop_first() + seq![s]);
        assert(whole[0] == schemas[0]);
        lemma_render_schemas_snoc(schemas.drop_first(), s);
        let head = spec_render_field(schemas[0].tag@, schemas[0].attrs@) + "\n"@;
        assert(head + (spec_render_schemas(schemas.drop_first()) + spec_render_field(
            s.tag@,
            s.attrs@,
        ) + "\n"@) =~= (head + spec_render_schemas(schemas.drop_first())) + spec_render_field(
            s.tag@,
            s.attrs@,
        ) + "\n"@);
    }
}

/// The error one rule reports for a value, if any. An absent value
/// satisfies every rule. Length rules count the characters of the text,
/// not its encoded bytes. A rule over the other kind of value (a length
/// rule on a number, a bound rule on text) reports nothing: a well-formed
/// schema never pairs them. A `Pattern` rule whose identifier the registry
/// does not hold, and a `FieldMatch` rule whose sibling the record does
/// not hold, are not applicable and report nothing.
pub open spec fn spec_rule_error(
    rule: Rule,
    field: Seq<char>,
    v: ValueView,
    reg: Seq<RegexEntry>,
    rec: Seq<(Seq<char>, ValueView)>,
) -> Option<ErrorView> {
    match rule {
        Rule::MinLength(n) => match v {
            ValueView::Text { chars } => if chars.len() < n {
                Some(ErrorView::InputTooShort { field, min: n as nat })
            } else {
                None
            },
            _ => None,
        },
        Rule::MaxLength(m) => match v {
            ValueView::Text { chars } => if chars.len() > m {
                Some(ErrorView::InputTooLong { field, max: m as nat })
            } else {
                None
            },
            _ => None,
        },
        Rule::MinValue(min) => match v {
            ValueView::Number { val } => if val < min {
                Some(ErrorView::TooSmall { field, min: min as int })
            } else {
                None
            },
            _ => None,
        },
        Rule::MaxValue(max) => match v {
            ValueView::Number { val } => if val > max {
                Some(ErrorView::TooLarge { field, max: max as int })
            } else {
                None
            },
            _ => None,
        },
        Rule::Pattern(id) => match v {
            ValueView::Text { chars } => match spec_lookup_pattern(reg, id@) {
                Some(p) => if !regex_match(p, chars) {
                    Some(ErrorView::InvalidRegex { field })
                } else {
                    None
                },
                None => None,
            },
            _ => None,
        },
        Rule::Email => match v {
            ValueView::Text { chars } => if !regex_match(spec_email_pattern(), chars) {
                Some(ErrorView::InvalidEmail { field })
            } else {
                None
            },
            _ => None,
        },
        Rule::Phone => match v {
            ValueView::Text { chars } => if !regex_match(spec_phone_pattern(), chars) {
                Some(ErrorView::InvalidPhoneNumber { field })
            } else {
                None
            },
            _ => None,
        },
        Rule::FieldMatch(other) => match v {
            ValueView::Absent => None,
            _ => match spec_lookup_value(rec, other@) {
                Some(w) => if w != v {
                    Some(ErrorView::FieldMismatch { field })
                } else {
                    None
                },
                None => None,
            },
        },
    }
}

/// The full report for an ordered rule list: each rule's error, if it
/// reports one, in rule-declaration order.
pub open spec fn spec_field_errors(
    rules: Seq<Rule>,
    field: Seq<char>,
    v: ValueView,
    reg: Seq<RegexEntry>,
    rec: Seq<(Seq<char>, ValueView)>,
) -> Seq<ErrorView>
    decreases rules.len(),
{
    if rules.len() == 0 {
        Seq::empty()
    } else {
        (match spec_rule_error(rules[0], field, v, reg, rec) {
            Some(e) => seq![e],
            None => Seq::<ErrorView>::empty(),
        }) + spec_field_errors(rules.drop_first(), field, v, reg, rec)
    }
}

/// The mathematical values of a reported error list.
pub open spec fn errs_view(s: Seq<ValidateError>) -> Seq<ErrorView> {
    s.map_values(|e: ValidateError| e@)
}

/// The report for every schema of a record, in schema order: each field is
/// validated against the value the record supplies for its name.
pub open spec fn spec_record_errors(
    schemas: Seq<FieldSchema>,
    reg: Seq<RegexEntry>,
    rec: Seq<(Seq<char>, ValueView)>,
) -> Seq<ErrorView>
    decreases schemas.len(),
{
    if schemas.len() == 0 {
        Seq::empty()
    } else {
        spec_field_errors(
            schemas[0].rules@,
            schemas[0].name@,
            spec_value_of(rec, schemas[0].name@),
            reg,
            rec,
        ) + spec_record_errors(schemas.drop_first(), reg, rec)
    }
}

/// The error one rule reports for a value, evaluated against the record
/// under validation.
pub(crate) fn rule_error(
    rule: &Rule,
    field: &String,
    value: &FieldValue,
    registry: &RegexRegistry,
    record: &Record,
) -> (r: Option<ValidateError>)
    ensures
        match r {
            Some(e) => spec_rule_error(*rule, field@, value@, registry@, record@) == Some(e@),
            None => spec_rule_error(*rule, field@, value@, registry@, record@) is None,
        },
{
    match rule {
        Rule::MinLength(n) => match value {
            FieldValue::Text(s) => {
                let l = s.as_str().unicode_len();
                if (l as u64) < *n {
                    Some(ValidateError::InputTooShort { field: field.clone(), min: *n })
                } else {
                    None
                }
            },
            _ => None,
        },
        Rule::MaxLength(m) => match value {
            FieldValue::Text(s) => {
                let l = s.as_str().unicode_len();
                if (l as u64) > *m {
                    Some(ValidateError::InputTooLong { field: field.clone(), max: *m })
                } else {
                    None
                }
            },
            _ => None,
        },
        Rule::MinValue(min) => match value {
            FieldValue::Number(x) => if *x < *min {
                Some(ValidateError::TooSmall { field: field.clone(), min: *min })
            } else {
                None
            },
            _ => None,
        },
        Rule::MaxValue(max) => match value {
            FieldValue::Number(x) => if *x > *max {
                Some(ValidateError::TooLarge { field: field.clone(), max: *max })
            } else {
                None
            },
            _ => None,
        },
        Rule::Pattern(id) => match value {
            FieldValue::Text(s) => match registry.get(id.as_str()) {
                Some(p) => if !pattern_matches(p.as_str(), s.as_str()) {
                    Some(ValidateError::InvalidRegex { field: field.clone() })
                } else {
                    None
                },
                None => None,
            },
            _ => None,
        },
        Rule::Email => match value {
            FieldValue::Text(s) => if !pattern_matches(email_pattern(), s.as_str()) {
                Some(ValidateError::InvalidEmail { field: field.clone() })
            } else {
                None
            },
            _ => None,
        },
        Rule::Phone => match value {
            FieldValue::Text(s) => if !pattern_matches(phone_pattern(), s.as_str()) {
                Some(ValidateError::InvalidPhoneNumber { field: field.clone() })
            } else {
                None
            },
            _ => None,
        },
        Rule::FieldMatch(other) => match value {
            FieldValue::Absent => None,
            _ => match record.get(other.as_str()) {
                Some(w) => if !value.same_value(w) {
                    Some(ValidateError::FieldMismatch { field: field.clone() })
                } else {
                    None
                },
                None => None,
            },
        },
    }
}

/// Validates one value against a schema's rules, with the whole record in
/// reach for `FieldMatch` rules: the report holds each broken rule's
/// error, in rule-declaration order.
pub fn validate_field_in_record(
    schema: &FieldSchema,
    value: &FieldValue,
    registry: &RegexRegistry,
    record: &Record,
) -> (r: Vec<ValidateError>)
    ensures
        errs_view(r@) == spec_field_errors(
            schema.rules@,
            schema.name@,
            value@,
            registry@,
            record@,
        ),
{
    let ghost rules = schema.rules@;
    let mut out: Vec<ValidateError> = Vec::new();
    let n = schema.rules.len();
    let mut i: usize = 0;
    proof {
        assert(errs_view(out@) =~= spec_field_errors(
            rules.take(0),
            schema.name@,
            value@,
            registry@,
            record@,
        ));
    }
    while i < n
        invariant
            n == schema.rules@.len(),
            rules == schema.rules@,
            0 <= i <= n,
            errs_view(out@) == spec_field_errors(
                rules.take(i as int),
                schema.name@,
                value@,
                registry@,
                record@,
            ),
        decreases n - i,
    {
        let e = rule_error(&schema.rules[i], &schema.name, value, registry, record);
        proof {
            lemma_field_errors_snoc(
                rules.take(i as int),
                rules[i as int],
                schema.name@,
                value@,
                registry@,
                record@,
            );
            assert(rules.take(i as int) + seq![rules[i as int]] =~= rules.take(i + 1 as int));
        }
        match e {
            Some(err) => {
                let ghost before = out@;
                out.push(err);
                proof {
                    assert(errs_view(out@) =~= errs_view(before) + seq![err@]);
                }
            },
            None => {
                proof {
                    assert(errs_view(out@) + Seq::<ErrorView>::empty() =~= errs_view(out@));
                }
            },
        }
        i = i + 1;
    }
    proof {
        assert(rules.take(n as int) =~= rules);
    }
    out
}

/// Validates one value against a schema's rules in isolation: every rule
/// is evaluated in order and every failure reported. `FieldMatch` rules
/// need the full record, so here they are not applicable and report
/// nothing.
pub fn validate_field(schema: &FieldSchema, value: &FieldValue, registry: &RegexRegistry) -> (r:
    Vec<ValidateError>)
    ensures
        errs_view(r@) == spec_field_errors(
            schema.rules@,
            schema.name@,
            value@,
            registry@,
            Seq::<(Seq<char>, ValueView)>::empty(),
        ),
{
    let empty = Record::new();
    validate_field_in_record(schema, value, registry, &empty)
}

/// Validates a whole record against every schema, in schema order: each
/// field is validated against the value the record supplies for its name
/// (absent when the record has none), and the reports are concatenated.
pub fn validate_record(
    schemas: &Vec<FieldSchema>,
    record: &Record,
    registry: &RegexRegistry,
) -> (r: Vec<ValidateError>)
    ensures
        errs_view(r@) == spec_record_errors(schemas@, registry@, record@),
{
    let mut out: Vec<ValidateError> = Vec::new();
    let n = schemas.len();
    let mut i: usize = 0;
    proof {
        assert(errs_view(out@) =~= spec_record_errors(schemas@.take(0), registry@, record@));
    }
    while i < n
        invariant
            n == schemas@.len(),
            0 <= i <= n,
            errs_view(out@) == spec_record_errors(schemas@.take(i as int), registry@, record@),
        decreases n - i,
    {
        let schema = &schemas[i];
        let stored = record.get(schema.name.as_str());
        let value = match stored {
            Some(v) => v.duplicate(),
            None => FieldValue::Absent,
        };
        proof {
            assert(value@ == spec_value_of(record@, schema.name@));
        }
        let mut part = validate_field_in_record(schema, &value, registry, record);
        let ghost before = out@;
        let ghost part_view = part@;
        out.append(&mut part);
        proof {
            lemma_record_errors_snoc(schemas@.take(i as int), schemas@[i as int], registry@, record@);
            assert(schemas@.take(i as int) + seq![schemas@[i as int]] =~= schemas@.take(
                i + 1 as int,
            ));
            assert(errs_view(before + part_view) =~= errs_view(before) + errs_view(part_view));
        }
        i = i + 1;
    }
    proof {
        assert(schemas@.take(n as int) =~= schemas@);
    }
    out
}

/// Validates a whole record and reports the outcome as the `ValidateForm`
/// contract does: `Ok` exactly when no rule is broken, otherwise every
/// broken rule's error.
pub fn validate_form(
    schemas: &Vec<FieldSchema>,
    record: &Record,
    registry: &RegexRegistry,
) -> (r: Result<(), Vec<ValidateError>>)
    ensures
        match r {
            Ok(()) => spec_record_errors(schemas@, registry@, record@) == Seq::<
                ErrorView,
            >::empty(),
            Err(errs) => errs_view(errs@) == spec_record_errors(schemas@, registry@, record@)
                && errs@.len() > 0,
        },
{
    let errs = validate_record(schemas, record, registry);
    if errs.len() == 0 {
        proof {
            assert(errs_view(errs@) =~= Seq::<ErrorView>::empty());
        }
        Ok(())
    } else {
        Err(errs)
    }
}

/// Splitting a rule list splits its report: errors accumulate, rule by
/// rule, and no failure hides another.
pub proof fn lemma_errors_accumulate(
    r1: Seq<Rule>,
    r2: Seq<Rule>,
    field: Seq<char>,
    v: ValueView,
    reg: Seq<RegexEntry>,
    rec: Seq<(Seq<char>, ValueView)>,
)
    ensures
        spec_field_errors(r1 + r2, field, v, reg, rec) == spec_field_errors(r1, field, v, reg, rec)
            + spec_field_errors(r2, field, v, reg, rec),
    decreases r1.len(),
{
    if r1.len() == 0 {
        assert(r1 + r2 =~= r2);
        assert(spec_field_errors(r1, field, v, reg, rec) + spec_field_errors(r2, field, v, reg, rec)
            =~= spec_field_errors(r2, field, v, reg, rec));
    } else {
        assert((r1 + r2).drop_first() =~= r1.drop_first() + r2);
        assert((r1 + r2)[0] == r1[0]);
        lemma_errors_accumulate(r1.drop_first(), r2, field, v, reg, rec);
        let head = match spec_rule_error(r1[0], field, v, reg, rec) {
            Some(e) => seq![e],
            None => Seq::<ErrorView>::empty(),
        };
        assert(head + (spec_field_errors(r1.drop_first(), field, v, reg, rec) + spec_field_errors(
            r2,
            field,
            v,
            reg,
            rec,
        )) =~= (head + spec_field_errors(r1.drop_first(), field, v, reg, rec))
            + spec_field_errors(r2, field, v, reg, rec));
    }
}

/// The report for a single rule: its error, if it reports one.
pub proof fn lemma_field_errors_singleton(
    rule: Rule,
    field: Seq<char>,
    v: ValueView,
    reg: Seq<RegexEntry>,
    rec: Seq<(Seq<char>, ValueView)>,
)
    ensures
        spec_field_errors(seq![rule], field, v, reg, rec) == (match spec_rule_error(
            rule,
            field,
            v,
            reg,
            rec,
        ) {
            Some(e) => seq![e],
            None => Seq::<ErrorView>::empty(),
        }),
{
    assert(seq![rule].drop_first() =~= Seq::<Rule>::empty());
    assert(spec_field_errors(Seq::<Rule>::empty(), field, v, reg, rec) == Seq::<
        ErrorView,
    >::empty());
    let head = match spec_rule_error(rule, field, v, reg, rec) {
        Some(e) => seq![e],
        None => Seq::<ErrorView>::empty(),
    };
    assert(head + Seq::<ErrorView>::empty() =~= head);
}

/// The report for a rule list extended by one rule: the old report,
/// followed by whatever the new rule reports.
pub proof fn lemma_field_errors_snoc(
    rules: Seq<Rule>,
    rule: Rule,
    field: Seq<char>,
    v: ValueView,
    reg: Seq<RegexEntry>,
    rec: Seq<(Seq<char>, ValueView)>,
)
    ensures
        spec_field_errors(rules + seq![rule], field, v, reg, rec) == spec_field_errors(
            rules,
            field,
            v,
            reg,
            rec,
        ) + (match spec_rule_error(rule, field, v, reg, rec) {
            Some(e) => seq![e],
            None => Seq::<ErrorView>::empty(),
        }),
{
    lemma_errors_accumulate(rules, seq![rule], field, v, reg, rec);
    lemma_field_errors_singleton(rule, field, v, reg, rec);
}

/// The report for a schema list extended by one schema.
proof fn lemma_record_errors_snoc(
    schemas: Seq<FieldSchema>,
    schema: FieldSchema,
    reg: Seq<RegexEntry>,
    rec: Seq<(Seq<char>, ValueView)>,
)
    ensures
        spec_record_errors(schemas + seq![schema], reg, rec) == spec_record_errors(
            schemas,
            reg,
            rec,
        ) + spec_field_errors(
            schema.rules@,
            schema.name@,
            spec_value_of(rec, schema.name@),
            reg,
            rec,
        ),
    decreases schemas.len(),
{
    let whole = schemas + seq![schema];
    let part = spec_field_errors(
        schema.rules@,
        schema.name@,
        spec_value_of(rec, schema.name@),
        reg,
        rec,
    );
    if schemas.len() == 0 {
        assert(whole =~= seq![schema]);
        assert(whole.drop_first() =~= Seq::<FieldSchema>::empty());
        assert(spec_record_errors(whole.drop_first(), reg, rec) == Seq::<ErrorView>::empty());
        assert(part + Seq::<ErrorView>::empty() =~= part);
        assert(Seq::<ErrorView>::empty() + part =~= part);
    } else {
        assert(whole.drop_first() =~= schemas.drop_first() + seq![schema]);
        assert(whole[0] == schemas[0]);
        lemma_record_errors_snoc(schemas.drop_first(), schema, reg, rec);
        let head = spec_field_errors(
            schemas[0].rules@,
            schemas[0].name@,
            spec_value_of(rec, schemas[0].name@),
            reg,
            rec,
        );
        assert(head + (spec_record_errors(schemas.drop_first(), reg, rec) + part) =~= (head
            + spec_record_errors(schemas.drop_first(), reg, rec)) + part);
    }
}

/// An absent value yields no errors, whatever rules the field declares:
/// an optional field with no supplied value reports nothing.
pub proof fn lemma_absent_value_no_errors(
    rules: Seq<Rule>,
    field: Seq<char>,
    reg: Seq<RegexEntry>,
    rec: Seq<(Seq<char>, ValueView)>,
)
    ensures
        spec_field_errors(rules, field, ValueView::Absent, reg, rec) == Seq::<ErrorView>::empty(),
    decreases rules.len(),
{
    if rules.len() != 0 {
        assert(spec_rule_error(rules[0], field, ValueView::Absent, reg, rec) is None);
        lemma_absent_value_no_errors(rules.drop_first(), field, reg, rec);
        assert(Seq::<ErrorView>::empty() + Seq::<ErrorView>::empty() =~= Seq::<
            ErrorView,
        >::empty());
    }
}

/// For a field whose rules are `MinLength(n)` then `MaxLength(m)` with
/// `n <= m`, a text value shorter than `n` yields exactly one
/// `InputTooShort`, one longer than `m` exactly one `InputTooLong`, and
/// one whose length lies in `[n, m]` yields neither.
pub proof fn lemma_length_bounds(
    n: u64,
    m: u64,
    field: Seq<char>,
    chars: Seq<char>,
    reg: Seq<RegexEntry>,
    rec: Seq<(Seq<char>, ValueView)>,
)
    requires
        n <= m,
    ensures
        chars.len() < n ==> spec_field_errors(
            seq![Rule::MinLength(n), Rule::MaxLength(m)],
            field,
            ValueView::Text { chars },
            reg,
            rec,
        ) == seq![(ErrorView::InputTooShort { field, min: n as nat })],
        chars.len() > m ==> spec_field_errors(
            seq![Rule::MinLength(n), Rule::MaxLength(m)],
            field,
            ValueView::Text { chars },
            reg,
            rec,
        ) == seq![(ErrorView::InputTooLong { field, max: m as nat })],
        n <= chars.len() <= m ==> spec_field_errors(
            seq![Rule::MinLength(n), Rule::MaxLength(m)],
            field,
            ValueView::Text { chars },
            reg,
            rec,
        ) == Seq::<ErrorView>::empty(),
{
    let v = ValueView::Text { chars };
    let rules = seq![Rule::MinLength(n), Rule::MaxLength(m)];
    lemma_errors_accumulate(seq![Rule::MinLength(n)], seq![Rule::MaxLength(m)], field, v, reg, rec);
    assert(seq![Rule::MinLength(n)] + seq![Rule::MaxLength(m)] =~= rules);
    lemma_field_errors_singleton(Rule::MinLength(n), field, v, reg, rec);
    lemma_field_errors_singleton(Rule::MaxLength(m), field, v, reg, rec);
    if chars.len() < n {
        assert(spec_field_errors(seq![Rule::MinLength(n)], field, v, reg, rec) =~= seq![
            (ErrorView::InputTooShort { field, min: n as nat }),
        ]);
        assert(spec_field_errors(seq![Rule::MaxLength(m)], field, v, reg, rec) =~= Seq::<
            ErrorView,
        >::empty());
        assert(seq![(ErrorView::InputTooShort { field, min: n as nat })] + Seq::<
            ErrorView,
        >::empty() =~= seq![(ErrorView::InputTooShort { field, min: n as nat })]);
    } else if chars.len() > m {
        assert(spec_field_errors(seq![Rule::MinLength(n)], field, v, reg, rec) =~= Seq::<
            ErrorView,
        >::empty());
        assert(spec_field_errors(seq![Rule::MaxLength(m)], field, v, reg, rec) =~= seq![
            (ErrorView::InputTooLong { field, max: m as nat }),
        ]);
        assert(Seq::<ErrorView>::empty() + seq![(ErrorView::InputTooLong { field, max: m as nat })]
            =~= seq![(ErrorView::InputTooLong { field, max: m as nat })]);
    } else {
        assert(spec_field_errors(seq![Rule::MinLength(n)], field, v, reg, rec) =~= Seq::<
            ErrorView,
        >::empty());
        assert(spec_field_errors(seq![Rule::MaxLength(m)], field, v, reg, rec) =~= Seq::<
            ErrorView,
        >::empty());
        assert(Seq::<ErrorView>::empty() + Seq::<ErrorView>::empty() =~= Seq::<
            ErrorView,
        >::empty());
    }
}

/// Two rules that both fail on the same value both appear in the report,
/// in rule order: accumulation, not short-circuit.
pub proof fn lemma_both_failures_reported(
    r1: Rule,
    r2: Rule,
    field: Seq<char>,
    v: ValueView,
    reg: Seq<RegexEntry>,
    rec: Seq<(Seq<char>, ValueView)>,
)
    ensures
        spec_rule_error(r1, field, v, reg, rec) matches Some(e1) ==> spec_rule_error(
            r2,
            field,
            v,
            reg,
            rec,
        ) matches Some(e2) ==> spec_field_errors(seq![r1, r2], field, v, reg, rec) == seq![e1, e2],
{
    if spec_rule_error(r1, field, v, reg, rec) is Some && spec_rule_error(r2, field, v, reg, rec)
        is Some {
        lemma_errors_accumulate(seq![r1], seq![r2], field, v, reg, rec);
        assert(seq![r1] + seq![r2] =~= seq![r1, r2]);
        lemma_field_errors_singleton(r1, field, v, reg, rec);
        lemma_field_errors_singleton(r2, field, v, reg, rec);
        let e1 = spec_rule_error(r1, field, v, reg, rec).unwrap();
        let e2 = spec_rule_error(r2, field, v, reg, rec).unwrap();
        assert(seq![e1] + seq![e2] =~= seq![e1, e2]);
    }
}

} // verus!
