//! Per-field validation with a configurable message table.
//!
//! A [`FieldValidator`] carries a field's rules together with message
//! overrides keyed by rule kind. Unlike the accumulating evaluator in
//! [`crate::validate::eval`], its [`FieldValidator::validate`] stops at
//! the first broken rule and records that rule's message, at most one per
//! field.

use vstd::prelude::*;

use crate::validate::eval::rule_error;
use crate::validate::eval::spec_rule_error;
use crate::validate::eval::Record;
use crate::validate::numbers::spec_dec;
use crate::validate::numbers::spec_dec_int;
use crate::validate::numbers::i64_to_dec;
use crate::validate::numbers::u64_to_dec;
use crate::validate::registry::RegexEntry;
use crate::validate::registry::RegexRegistry;
use crate::validate::rules::FieldValue;
use crate::validate::rules::Rule;
use crate::validate::rules::ValueView;

verus! {

/// One recorded validation failure: the field it was found on and its
/// message.
#[derive(Debug)]
pub struct FieldError {
    pub field: String,
    pub message: String,
}

/// One message override: a rule-kind key and the message to use for it.
#[derive(Debug)]
pub struct MessageOverride {
    pub key: String,
    pub message: String,
}

/// The rule-kind key under which a rule's message can be overridden.
pub open spec fn spec_rule_key(rule: Rule) -> Seq<char> {
    match rule {
        Rule::MinLength(_) => "minlength"@,
        Rule::MaxLength(_) => "maxlength"@,
        Rule::MinValue(_) => "min"@,
        Rule::MaxValue(_) => "max"@,
        Rule::Pattern(_) => "pattern"@,
        Rule::Email => "email"@,
        Rule::Phone => "phone"@,
        Rule::FieldMatch(_) => "match"@,
    }
}

/// The default message for a broken rule, with its bound where one exists.
pub open spec fn spec_default_message(rule: Rule) -> Seq<char> {
    match rule {
        Rule::MinLength(n) => "Must be at least "@ + spec_dec(n as nat) + " characters long"@,
        Rule::MaxLength(n) => "Maximum length is "@ + spec_dec(n as nat),
        Rule::MinValue(i) => "Minimum value is "@ + spec_dec_int(i as int),
        Rule::MaxValue(i) => "Maximum value is "@ + spec_dec_int(i as int),
        Rule::Pattern(id) => "Did not match pattern: "@ + id@,
        Rule::Email => "Not a valid email address"@,
        Rule::Phone => "Not a valid phone number"@,
        Rule::FieldMatch(other) => "Does not match field "@ + other@,
    }
}

/// The message set for a key, if any: a later override for the same key
/// replaces an earlier one.
pub open spec fn spec_lookup_message(overrides: Seq<MessageOverride>, key: Seq<char>) -> Option<
    Seq<char>,
>
    decreases overrides.len(),
{
    if overrides.len() == 0 {
        None
    } else if overrides.last().key@ == key {
        Some(overrides.last().message@)
    } else {
        spec_lookup_message(overrides.drop_last(), key)
    }
}

/// The message reported for a broken rule: the override for its kind where
/// one is set, the default otherwise.
pub open spec fn spec_message_for(rule: Rule, overrides: Seq<MessageOverride>) -> Seq<char> {
    match spec_lookup_message(overrides, spec_rule_key(rule)) {
        Some(m) => m,
        None => spec_default_message(rule),
    }
}

/// The first rule of the list that the value breaks, if any. Rules are
/// judged in isolation (no record), so `FieldMatch` rules never fail here.
pub open spec fn spec_first_failing(
    rules: Seq<Rule>,
    field: Seq<char>,
    v: ValueView,
    reg: Seq<RegexEntry>,
) -> Option<Rule>
    decreases rules.len(),
{
    if rules.len() == 0 {
        None
    } else if spec_rule_error(rules[0], field, v, reg, Seq::empty()) is Some {
        Some(rules[0])
    } else {
        spec_first_failing(rules.drop_first(), field, v, reg)
    }
}

/// Whether some recorded failure already names the field.
pub open spec fn spec_has_field(errs: Seq<FieldError>, field: Seq<char>) -> bool {
    exists|i: int| 0 <= i < errs.len() && (#[trigger] errs[i]).field@ == field
}

/// The first recorded message for a field, if any.
pub open spec fn spec_lookup_error(errs: Seq<FieldError>, field: Seq<char>) -> Option<Seq<char>>
    decreases errs.len(),
{
    if errs.len() == 0 {
        None
    } else if errs[0].field@ == field {
        Some(errs[0].message@)
    } else {
        spec_lookup_error(errs.drop_first(), field)
    }
}

/// A field's rules and its message table. `validate` judges a value
/// against the rules in order and stops at the first failure.
#[derive(Debug)]
pub struct FieldValidator {
    pub field: String,
    pub rules: Vec<Rule>,
    pub messages: Vec<MessageOverride>,
}

impl FieldValidator {
    /// A validator for the named field with the given rules and the
    /// default messages.
    pub fn new(field: String, rules: Vec<Rule>) -> (r: FieldValidator)
        ensures
            r.field@ == field@,
            r.rules@ == rules@,
            r.messages@ == Seq::<MessageOverride>::empty(),
    {
        FieldValidator { field, rules, messages: Vec::new() }
    }

    /// The name of the field this validator judges.
    pub fn field(&self) -> (r: &str)
        ensures
            r@ == self.field@,
    {
        self.field.as_str()
    }

    /// Sets the message for one rule kind; a later message for the same
    /// kind replaces it.
    pub fn set_message(&mut self, key: String, message: String)
        ensures
            final(self).field == old(self).field,
            final(self).rules == old(self).rules,
            final(self).messages@ == old(self).messages@ + seq![
                MessageOverride { key: key, message: message },
            ],
    {
        self.messages.push(MessageOverride { key, message });
    }

    /// The message this validator reports for a broken rule: the override
    /// for its kind where one is set, the default otherwise.
    pub fn message_for(&self, rule: &Rule) -> (r: String)
        ensures
            r@ == spec_message_for(*rule, self.messages@),
    {
        let key = String::from_str(rule_key(rule));
        let n = self.messages.len();
        let ghost ms = self.messages@;
        let mut found: Option<usize> = None;
        let mut i: usize = 0;
        while i < n
            invariant
                n == ms.len(),
                ms == self.messages@,
                key@ == spec_rule_key(*rule),
                0 <= i <= n,
                spec_lookup_message(ms.take(i as int), key@) == match found {
                    Some(j) => Some::<Seq<char>>(ms[j as int].message@),
                    None => None::<Seq<char>>,
                },
                found matches Some(j) ==> 0 <= j < i,
            decreases n - i,
        {
            proof {
                assert(ms.take(i + 1 as int).drop_last() =~= ms.take(i as int));
                assert(ms.take(i + 1 as int).last() == ms[i as int]);
            }
            if self.messages[i].key.eq(&key) {
                found = Some(i);
            }
            i = i + 1;
        }
        proof {
            assert(ms.take(n as int) =~= ms);
        }
        match found {
            Some(j) => self.messages[j].message.clone(),
            None => default_message(rule),
        }
    }

    /// Judges `value` against the rules in order. Returns whether every
    /// rule passed; on the first broken rule, records that rule's message
    /// for the field unless a failure for the field is already recorded.
    /// Rules are judged in isolation, so `FieldMatch` rules never fail
    /// here.
    pub fn validate(
        &self,
        value: &FieldValue,
        registry: &RegexRegistry,
        errors: &mut Vec<FieldError>,
    ) -> (r: bool)
        ensures
            r == (spec_first_failing(self.rules@, self.field@, value@, registry@) is None),
            match spec_first_failing(self.rules@, self.field@, value@, registry@) {
                None => final(errors)@ == old(errors)@,
                Some(rule) => if spec_has_field(old(errors)@, self.field@) {
                    final(errors)@ == old(errors)@
                } else {
                    &&& final(errors)@.len() == old(errors)@.len() + 1
                    &&& final(errors)@.drop_last() == old(errors)@
                    &&& final(errors)@.last().field@ == self.field@
                    &&& final(errors)@.last().message@ == spec_message_for(
                        rule,
                        self.messages@,
                    )
                },
            },
    {
        let ghost rules = self.rules@;
        let empty = Record::new();
        let n = self.rules.len();
        let mut i: usize = 0;
        proof {
            assert(rules.skip(0) =~= rules);
        }
        while i < n
            invariant
                n == rules.len(),
                rules == self.rules@,
                0 <= i <= n,
                errors == old(errors),
                spec_first_failing(rules, self.field@, value@, registry@) == spec_first_failing(
                    rules.skip(i as int),
                    self.field@,
                    value@,
                    registry@,
                ),
                empty@ == Seq::<(Seq<char>, ValueView)>::empty(),
            decreases n - i,
        {
            proof {
                assert(rules.skip(i as int)[0] == rules[i as int]);
                assert(rules.skip(i as int).drop_first() =~= rules.skip(i + 1 as int));
            }
            let failed = rule_error(&self.rules[i], &self.field, value, registry, &empty);
            if failed.is_some() {
                if !has_field(errors, &self.field) {
                    let message = self.message_for(&self.rules[i]);
                    let ghost before = errors@;
                    errors.push(FieldError { field: self.field.clone(), message });
                    proof {
                        assert(errors@.drop_last() =~= before);
                    }
                }
                return false;
            }
            i = i + 1;
        }
        proof {
            assert(rules.skip(n as int) =~= Seq::<Rule>::empty());
        }
        true
    }
}

/// Whether some recorded failure already names the field.
pub fn has_field(errors: &Vec<FieldError>, field: &String) -> (r: bool)
    ensures
        r == spec_has_field(errors@, field@),
{
    let n = errors.len();
    let mut i: usize = 0;
    while i < n
        invariant
            n == errors@.len(),
            0 <= i <= n,
            forall|k: int| 0 <= k < i ==> (#[trigger] errors@[k]).field@ != field@,
        decreases n - i,
    {
        if errors[i].field.eq(field) {
            proof {
                assert(errors@[i as int].field@ == field@);
            }
            return true;
        }
        i = i + 1;
    }
    false
}

/// The rule-kind key under which a rule's message can be overridden.
pub fn rule_key(rule: &Rule) -> (r: &'static str)
    ensures
        r@ == spec_rule_key(*rule),
{
    match rule {
        Rule::MinLength(_) => "minlength",
        Rule::MaxLength(_) => "maxlength",
        Rule::MinValue(_) => "min",
        Rule::MaxValue(_) => "max",
        Rule::Pattern(_) => "pattern",
        Rule::Email => "email",
        Rule::Phone => "phone",
        Rule::FieldMatch(_) => "match",
    }
}

/// The default message for a broken rule.
pub fn default_message(rule: &Rule) -> (r: String)
    ensures
        r@ == spec_default_message(*rule),
{
    match rule {
        Rule::MinLength(n) => {
            let mut s = String::from_str("Must be at least ");
            let d = u64_to_dec(*n);
            s.append(d.as_str());
            s.append(" characters long");
            s
        },
        Rule::MaxLength(n) => {
            let mut s = String::from_str("Maximum length is ");
            let d = u64_to_dec(*n);
            s.append(d.as_str());
            s
        },
        Rule::MinValue(i) => {
            let mut s = String::from_str("Minimum value is ");
            let d = i64_to_dec(*i);
            s.append(d.as_str());
            s
        },
        Rule::MaxValue(i) => {
            let mut s = String::from_str("Maximum value is ");
            let d = i64_to_dec(*i);
            s.append(d.as_str());
            s
        },
        Rule::Pattern(id) => {
            let mut s = String::from_str("Did not match pattern: ");
            s.append(id.as_str());
            s
        },
        Rule::Email => String::from_str("Not a valid email address"),
        Rule::Phone => String::from_str("Not a valid phone number"),
        Rule::FieldMatch(other) => {
            let mut s = String::from_str("Does not match field ");
            s.append(other.as_str());
            s
        },
    }
}

} // verus!
