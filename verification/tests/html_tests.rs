use webforms::html::AttributeSet;
use webforms::html::FieldValidator;
use webforms::html::HtmlAttribute;
use webforms::html::HtmlDefaults;
use webforms::html::HtmlField;
use webforms::html::HtmlFieldAttribute;
use webforms::html::HtmlFieldBuilder;
use webforms::html::HtmlForm;
use webforms::html::HtmlFormBuilder;
use webforms::validate::FieldValue;
use webforms::validate::RegexRegistry;
use webforms::validate::Rule;

#[test]
fn attribute_render_forms() {
    let single = HtmlAttribute::new_single("required".to_string());
    assert_eq!(single.render(), " required");

    let pair = HtmlAttribute::new_pair("class".to_string(), "input-text".to_string());
    assert_eq!(pair.render(), " class='input-text'");
}

#[test]
fn attribute_identity() {
    let a = HtmlAttribute::new_pair("class".to_string(), "a".to_string());
    let b = HtmlAttribute::new_pair("class".to_string(), "b".to_string());
    let c = HtmlAttribute::new_pair("id".to_string(), "a".to_string());
    // Pairs are the same attribute when their names match, whatever the
    // values.
    assert!(a == b);
    assert!(a != c);

    let s1 = HtmlAttribute::new_single("required".to_string());
    let s2 = HtmlAttribute::new_single("required".to_string());
    let s3 = HtmlAttribute::new_single("checked".to_string());
    assert!(s1 == s2);
    assert!(s1 != s3);
    assert!(s1 != a);
}

#[test]
fn attribute_merge_joins_pair_values() {
    let a = HtmlAttribute::new_pair("class".to_string(), "btn".to_string());
    let b = HtmlAttribute::new_pair("class".to_string(), "btn-large".to_string());
    let merged = HtmlAttribute::merge(&a, &b);
    assert_eq!(merged.render(), " class='btn btn-large'");

    let s1 = HtmlAttribute::new_single("required".to_string());
    let s2 = HtmlAttribute::new_single("required".to_string());
    let merged = HtmlAttribute::merge(&s1, &s2);
    assert_eq!(merged.render(), " required");
}

#[test]
fn append_mode_merges_colliding_pairs() {
    let mut set = AttributeSet::new();
    set.insert(HtmlAttribute::new_pair("class".to_string(), "btn".to_string()));
    set.insert(HtmlAttribute::new_pair(
        "class".to_string(),
        "btn-large".to_string(),
    ));
    // One entry whose value is the space-joined concatenation, in
    // insertion order.
    assert_eq!(set.render(), " class='btn btn-large'");
}

#[test]
fn replace_mode_overwrites_colliding_pairs() {
    let mut set = AttributeSet::new();
    set.replace = true;
    set.insert(HtmlAttribute::new_pair("class".to_string(), "btn".to_string()));
    set.insert(HtmlAttribute::new_pair(
        "class".to_string(),
        "btn-large".to_string(),
    ));
    // One entry holding only the second value.
    assert_eq!(set.render(), " class='btn-large'");
}

#[test]
fn remove_deletes_matching_entry() {
    let mut set = AttributeSet::new();
    set.insert(HtmlAttribute::new_single("required".to_string()));
    set.insert(HtmlAttribute::new_pair("class".to_string(), "a".to_string()));
    set.remove(&HtmlAttribute::new_single("required".to_string()));
    assert_eq!(set.render(), " class='a'");
    // Removing an absent attribute is a no-op, not an error.
    set.remove(&HtmlAttribute::new_single("checked".to_string()));
    assert_eq!(set.render(), " class='a'");
}

#[test]
fn builder_seeds_name_attribute() {
    let builder = HtmlFieldBuilder::new("input".to_string(), Some("username".to_string()));
    let field = builder.finish();
    assert_eq!(field.render(), "<input name='username'>");
}

#[test]
fn builder_fluent_attributes() {
    let field = HtmlFieldBuilder::new("input".to_string(), Some("username".to_string()))
        .class("input-text".to_string())
        .attr("placeholder".to_string(), "Username".to_string())
        .required()
        .finish();
    assert_eq!(
        field.render(),
        "<input name='username' class='input-text' placeholder='Username' required>"
    );
}

#[test]
fn builder_optional_removes_required() {
    let field = HtmlFieldBuilder::new("input".to_string(), Some("age".to_string()))
        .required()
        .optional()
        .finish();
    assert_eq!(field.render(), "<input name='age'>");
}

#[test]
fn builder_replace_mode_overrides_later_inserts() {
    let field = HtmlFieldBuilder::new("input".to_string(), None::<String>)
        .class("base".to_string())
        .replace()
        .class("override".to_string())
        .finish();
    assert_eq!(field.render(), "<input class='override'>");
}

#[test]
fn builder_values_adds_singles_in_order() {
    let field = HtmlFieldBuilder::new("input".to_string(), None::<String>)
        .values(vec!["required".to_string(), "checked".to_string()])
        .finish();
    assert_eq!(field.render(), "<input required checked>");
}

#[test]
fn builder_with_attrs_overwrites_name() {
    let mut attrs = AttributeSet::new();
    attrs.insert(HtmlAttribute::new_pair("name".to_string(), "old".to_string()));
    attrs.insert(HtmlAttribute::new_single("required".to_string()));
    let field =
        HtmlFieldBuilder::with_attrs("input".to_string(), Some("new".to_string()), attrs).finish();
    assert_eq!(field.render(), "<input name='new' required>");
}

#[test]
fn with_attrs_starts_in_append_mode() {
    // Whatever mode the supplied set carried, the returned builder starts
    // in append mode: two class inserts merge instead of overwriting.
    let mut attrs = AttributeSet::new();
    attrs.replace = true;
    attrs.insert(HtmlAttribute::new_single("required".to_string()));
    let field = HtmlFieldBuilder::with_attrs("input".to_string(), None::<String>, attrs)
        .class("btn".to_string())
        .class("btn-large".to_string())
        .finish();
    assert_eq!(field.render(), "<input required class='btn btn-large'>");
}

#[test]
fn override_set_wins_per_identity() {
    // Base attributes {class:'input-text', required}; override
    // {class:'input-override'}: the base class is suppressed because the
    // override touches that key, required survives, overrides come last.
    let field = HtmlFieldBuilder::new("input".to_string(), None::<String>)
        .class("input-text".to_string())
        .required()
        .finish();
    let mut over = AttributeSet::new();
    over.insert(HtmlAttribute::new_pair(
        "class".to_string(),
        "input-override".to_string(),
    ));
    assert_eq!(
        field.render_with(&over),
        "<input required class='input-override'>"
    );
}

#[test]
fn override_with_own_attributes_is_identity() {
    let field = HtmlFieldBuilder::new("input".to_string(), Some("username".to_string()))
        .class("input-text".to_string())
        .required()
        .finish();
    let plain = field.render();
    let again = field.render_with(&field.attrs);
    assert_eq!(plain, again);
}

#[test]
fn override_adds_unknown_attributes() {
    let field = HtmlFieldBuilder::new("input".to_string(), None::<String>)
        .required()
        .finish();
    let mut over = AttributeSet::new();
    over.insert(HtmlAttribute::new_pair("drink".to_string(), "beer".to_string()));
    assert_eq!(field.render_with(&over), "<input required drink='beer'>");
}

struct LoginForm<'a> {
    pub username: &'a str,
}

impl<'a> HtmlForm for LoginForm<'a> {
    fn form(&self) -> HtmlFormBuilder {
        let _ = self.username;
        let mut form = HtmlFormBuilder::new();
        form.add_field(
            "username".to_string(),
            HtmlFieldBuilder::new("input".to_string(), Some("username".to_string()))
                .class("input-text".to_string())
                .required(),
        );
        form.add_field(
            "password".to_string(),
            HtmlFieldBuilder::new("input".to_string(), Some("password".to_string()))
                .attr("type".to_string(), "password".to_string()),
        );
        form
    }
}

#[test]
fn form_builder_renders_fields_in_order() {
    let form = LoginForm { username: "mike" }.form();
    assert_eq!(
        form.render_form(),
        "<input name='username' class='input-text' required>\n<input name='password' type='password'>\n"
    );
}

#[test]
fn form_builder_hands_out_field_builders() {
    let form = LoginForm { username: "mike" }.form();
    let field = form
        .builder("username")
        .value("beer".to_string())
        .attr("drink".to_string(), "beer".to_string())
        .finish();
    assert_eq!(
        field.render(),
        "<input name='username' class='input-text' required beer drink='beer'>"
    );
}

#[test]
fn form_builder_validates_a_field() {
    let registry = RegexRegistry::new();
    let mut form = LoginForm { username: "mike" }.form();
    assert!(!form.validated());

    let validator = FieldValidator::new(
        "username".to_string(),
        vec![Rule::MinLength(3), Rule::MaxLength(10)],
    );
    form.validate_field(&validator, &FieldValue::Text("mike".to_string()), &registry);
    assert!(form.validated());
    assert!(form.errors("username").is_none());

    form.validate_field(&validator, &FieldValue::Text("a".to_string()), &registry);
    assert!(!form.validated());
    assert_eq!(
        form.errors("username").unwrap(),
        "Must be at least 3 characters long"
    );
}

#[test]
fn field_validator_stops_at_first_failure() {
    let registry = RegexRegistry::new();
    let validator = FieldValidator::new(
        "username".to_string(),
        vec![Rule::MinLength(3), Rule::MaxLength(2)],
    );
    let mut errors = Vec::new();
    // Both rules fail on this value; only the first one's message is
    // recorded.
    let ok = validator.validate(&FieldValue::Text("".to_string()), &registry, &mut errors);
    assert!(!ok);
    assert_eq!(errors.len(), 1);
    assert_eq!(errors[0].field, "username");
    assert_eq!(errors[0].message, "Must be at least 3 characters long");

    // A second failure for the same field is not recorded again.
    let ok = validator.validate(&FieldValue::Text("".to_string()), &registry, &mut errors);
    assert!(!ok);
    assert_eq!(errors.len(), 1);
}

#[test]
fn field_validator_message_overrides() {
    let registry = RegexRegistry::new();
    let mut validator = FieldValidator::new("age".to_string(), vec![Rule::MinValue(18)]);
    validator.set_message("min".to_string(), "You must be an adult".to_string());
    let mut errors = Vec::new();
    let ok = validator.validate(&FieldValue::Number(10), &registry, &mut errors);
    assert!(!ok);
    assert_eq!(errors[0].message, "You must be an adult");
}

#[test]
fn field_validator_default_messages() {
    let validator = FieldValidator::new("f".to_string(), Vec::new());
    assert_eq!(
        validator.message_for(&Rule::MinValue(18)),
        "Minimum value is 18"
    );
    assert_eq!(
        validator.message_for(&Rule::MaxValue(65)),
        "Maximum value is 65"
    );
    assert_eq!(
        validator.message_for(&Rule::MaxLength(20)),
        "Maximum length is 20"
    );
    assert_eq!(
        validator.message_for(&Rule::Pattern("^a$".to_string())),
        "Did not match pattern: ^a$"
    );
}

#[test]
fn field_validator_passes_valid_value() {
    let registry = RegexRegistry::new();
    let validator = FieldValidator::new(
        "username".to_string(),
        vec![Rule::MinLength(3), Rule::MaxLength(10)],
    );
    assert_eq!(validator.field(), "username");
    let mut errors = Vec::new();
    let ok = validator.validate(&FieldValue::Text("mike".to_string()), &registry, &mut errors);
    assert!(ok);
    assert!(errors.is_empty());
}

#[test]
fn defaults_map_types_to_input_types() {
    let mut defaults = HtmlDefaults::new();
    assert!(!defaults.has_input_type("chrono_date"));
    defaults.add_type("chrono_date".to_string(), "date".to_string());
    assert!(defaults.has_input_type("chrono_date"));
    assert_eq!(defaults.get_input_type("chrono_date").unwrap(), "date");

    // Configured defaults win over the built-in mapping.
    defaults.add_type("i32".to_string(), "range".to_string());
    assert_eq!(defaults.input_type_for("i32"), "range");

    // Built-in integer types render as number inputs, everything else as
    // text.
    assert_eq!(defaults.input_type_for("u64"), "number");
    assert_eq!(defaults.input_type_for("String"), "text");
}

#[test]
fn field_attribute_constructors() {
    let v = HtmlFieldAttribute::new_value("required".to_string());
    assert!(matches!(v, HtmlFieldAttribute::Value(ref s) if s == "required"));
    let p = HtmlFieldAttribute::new_pair("class".to_string(), "form".to_string());
    assert!(matches!(p, HtmlFieldAttribute::Pair(ref k, ref val) if k == "class" && val == "form"));
}

#[test]
fn finished_field_drops_builder_name() {
    let builder = HtmlFieldBuilder::new("input".to_string(), Some("username".to_string()));
    let field: HtmlField = builder.finish();
    assert!(field.name.is_none());
    assert_eq!(field.tag, "input");
}
