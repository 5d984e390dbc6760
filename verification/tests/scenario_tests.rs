use webforms::validate::validate_field;
use webforms::validate::FieldSchema;
use webforms::validate::FieldValue;
use webforms::validate::Record;
use webforms::validate::RegexRegistry;
use webforms::validate::RegistryError;
use webforms::validate::Rule;
use webforms::validate::ValidateError;
use webforms::validate::validate_field_in_record;
use webforms::validate::validate_record;
use webforms::validate::render_form;
use webforms::html::HtmlAttribute;
use webforms::html::AttributeSet;

fn username_schema() -> FieldSchema {
    let mut s = FieldSchema::new("username".to_string(), "input".to_string());
    s.add_rule(Rule::MinLength(3));
    s.add_rule(Rule::MaxLength(10));
    s
}

#[test]
fn scenario_username_too_short() {
    let registry = RegexRegistry::new();
    let schema = username_schema();
    let errs = validate_field(&schema, &FieldValue::Text("a".to_string()), &registry);
    assert_eq!(errs.len(), 1);
    match &errs[0] {
        ValidateError::InputTooShort { field, min } => {
            assert_eq!(field, "username");
            assert_eq!(*min, 3);
        }
        _ => panic!("expected InputTooShort"),
    }
}

#[test]
fn scenario_username_too_long() {
    let registry = RegexRegistry::new();
    let schema = username_schema();
    let errs = validate_field(
        &schema,
        &FieldValue::Text("aaaaaaaaaaa".to_string()),
        &registry,
    );
    assert_eq!(errs.len(), 1);
    match &errs[0] {
        ValidateError::InputTooLong { field, max } => {
            assert_eq!(field, "username");
            assert_eq!(*max, 10);
        }
        _ => panic!("expected InputTooLong"),
    }
}

#[test]
fn scenario_username_in_range() {
    let registry = RegexRegistry::new();
    let schema = username_schema();
    let errs = validate_field(&schema, &FieldValue::Text("mike".to_string()), &registry);
    assert_eq!(errs.len(), 0);
}

#[test]
fn scenario_email_rule() {
    let registry = RegexRegistry::new();
    let mut schema = FieldSchema::new("email".to_string(), "input".to_string());
    schema.add_rule(Rule::Email);

    let errs = validate_field(
        &schema,
        &FieldValue::Text("mike@test".to_string()),
        &registry,
    );
    assert_eq!(errs.len(), 1);
    match &errs[0] {
        ValidateError::InvalidEmail { field } => assert_eq!(field, "email"),
        _ => panic!("expected InvalidEmail"),
    }

    let errs = validate_field(
        &schema,
        &FieldValue::Text("mike@test.com".to_string()),
        &registry,
    );
    assert_eq!(errs.len(), 0);
}

#[test]
fn scenario_optional_age() {
    let registry = RegexRegistry::new();
    let mut schema = FieldSchema::new("age".to_string(), "input".to_string());
    schema.set_optional(true);
    schema.add_rule(Rule::MinValue(18));

    let errs = validate_field(&schema, &FieldValue::Absent, &registry);
    assert_eq!(errs.len(), 0);

    let errs = validate_field(&schema, &FieldValue::Number(10), &registry);
    assert_eq!(errs.len(), 1);
    match &errs[0] {
        ValidateError::TooSmall { field, min } => {
            assert_eq!(field, "age");
            assert_eq!(*min, 18);
        }
        _ => panic!("expected TooSmall"),
    }

    let errs = validate_field(&schema, &FieldValue::Number(25), &registry);
    assert_eq!(errs.len(), 0);
}

#[test]
fn accumulation_two_errors() {
    let mut registry = RegexRegistry::new();
    registry
        .register("p".to_string(), "^[0-9]+$".to_string())
        .unwrap();
    let mut schema = FieldSchema::new("code".to_string(), "input".to_string());
    schema.add_rule(Rule::MinLength(3));
    schema.add_rule(Rule::Pattern("p".to_string()));

    let errs = validate_field(&schema, &FieldValue::Text("a".to_string()), &registry);
    assert_eq!(errs.len(), 2);
    assert!(matches!(errs[0], ValidateError::InputTooShort { .. }));
    assert!(matches!(errs[1], ValidateError::InvalidRegex { .. }));
}

#[test]
fn field_match_against_record() {
    let registry = RegexRegistry::new();
    let mut schema = FieldSchema::new("password2".to_string(), "input".to_string());
    schema.add_rule(Rule::FieldMatch("password".to_string()));

    let mut record = Record::new();
    record.add(
        "password".to_string(),
        FieldValue::Text("secret".to_string()),
    );
    record.add(
        "password2".to_string(),
        FieldValue::Text("secret".to_string()),
    );

    let errs = validate_field_in_record(
        &schema,
        &FieldValue::Text("secret".to_string()),
        &registry,
        &record,
    );
    assert_eq!(errs.len(), 0);

    let errs = validate_field_in_record(
        &schema,
        &FieldValue::Text("other".to_string()),
        &registry,
        &record,
    );
    assert_eq!(errs.len(), 1);
    assert!(matches!(errs[0], ValidateError::FieldMismatch { .. }));
}

#[test]
fn phone_rule_rejects_and_accepts() {
    let registry = RegexRegistry::new();
    let mut schema = FieldSchema::new("phone".to_string(), "input".to_string());
    schema.add_rule(Rule::Phone);

    let errs = validate_field(
        &schema,
        &FieldValue::Text("1-111-1111".to_string()),
        &registry,
    );
    assert_eq!(errs.len(), 1);
    assert!(matches!(errs[0], ValidateError::InvalidPhoneNumber { .. }));

    let errs = validate_field(
        &schema,
        &FieldValue::Text("+1 111-111-1111".to_string()),
        &registry,
    );
    assert_eq!(errs.len(), 0);
}

#[test]
fn registry_duplicate_and_idempotent() {
    let mut registry = RegexRegistry::new();
    assert!(registry
        .register("re".to_string(), "^a$".to_string())
        .is_ok());
    // Registering the identical pattern under the same identifier again is
    // idempotent.
    assert!(registry
        .register("re".to_string(), "^a$".to_string())
        .is_ok());
    // A different pattern under the same identifier is refused.
    let err = registry
        .register("re".to_string(), "^b$".to_string())
        .unwrap_err();
    assert_eq!(err, RegistryError::DuplicateId);
    // The stored pattern is unchanged.
    assert_eq!(registry.get("re").unwrap(), "^a$");
}

#[test]
fn registry_rejects_invalid_pattern() {
    let mut registry = RegexRegistry::new();
    let err = registry
        .register("bad".to_string(), "(unclosed".to_string())
        .unwrap_err();
    assert_eq!(err, RegistryError::InvalidPattern);
    assert!(registry.get("bad").is_none());
}

#[test]
fn registry_canonical_patterns() {
    let mut registry = RegexRegistry::new();
    assert!(registry.register_email().is_ok());
    assert!(registry.register_phone().is_ok());
    // Shared canonical registrations are idempotent across fields.
    assert!(registry.register_email().is_ok());
    assert!(registry.contains("form_regex_email"));
    assert!(registry.contains("form_regex_us_phone"));
}

#[test]
fn pattern_rule_uses_registered_pattern() {
    let mut registry = RegexRegistry::new();
    registry
        .register("ident".to_string(), "^[a-z]{8}\\d{3}!$".to_string())
        .unwrap();
    let mut schema = FieldSchema::new("some_string".to_string(), "input".to_string());
    schema.add_rule(Rule::Pattern("ident".to_string()));

    let errs = validate_field(
        &schema,
        &FieldValue::Text("password123!".to_string()),
        &registry,
    );
    assert_eq!(errs.len(), 0);

    let errs = validate_field(
        &schema,
        &FieldValue::Text("password123".to_string()),
        &registry,
    );
    assert_eq!(errs.len(), 1);
    assert!(matches!(errs[0], ValidateError::InvalidRegex { .. }));
}

#[test]
fn error_messages_are_exact() {
    let e = ValidateError::InputTooShort {
        field: "username".to_string(),
        min: 3,
    };
    assert_eq!(e.message(), "username: input too short. (3 min length)");

    let e = ValidateError::InputTooLong {
        field: "username".to_string(),
        max: 20,
    };
    assert_eq!(e.message(), "username: input too long. (20 max length)");

    let e = ValidateError::TooSmall {
        field: "depth".to_string(),
        min: -5,
    };
    assert_eq!(e.message(), "depth: input below required minimum. (-5 minimum)");

    let e = ValidateError::TooLarge {
        field: "age".to_string(),
        max: 65,
    };
    assert_eq!(e.message(), "age: input above maximum allowed. (65 maximum)");

    let e = ValidateError::InvalidEmail {
        field: "email".to_string(),
    };
    assert_eq!(e.message(), "email: not a valid email address");

    let e = ValidateError::InvalidPhoneNumber {
        field: "phone".to_string(),
    };
    assert_eq!(e.message(), "phone: not a valid U.S. phone number");

    let e = ValidateError::InvalidRegex {
        field: "some_string".to_string(),
    };
    assert_eq!(e.message(), "some_string: does not match required input");

    let e = ValidateError::FieldMismatch {
        field: "password2".to_string(),
    };
    assert_eq!(e.message(), "password2: does not match other field");

    let e = ValidateError::InvalidCharacters {
        field: "name".to_string(),
    };
    assert_eq!(e.message(), "name: contains invalid characters");
}

#[test]
fn large_numbers_in_messages() {
    let e = ValidateError::TooSmall {
        field: "n".to_string(),
        min: i64::MIN,
    };
    assert_eq!(
        e.message(),
        "n: input below required minimum. (-9223372036854775808 minimum)"
    );

    let e = ValidateError::InputTooLong {
        field: "n".to_string(),
        max: u64::MAX,
    };
    assert_eq!(
        e.message(),
        "n: input too long. (18446744073709551615 max length)"
    );
}

#[test]
fn record_errors_follow_schema_order() {
    let registry = RegexRegistry::new();
    let mut first = FieldSchema::new("username".to_string(), "input".to_string());
    first.add_rule(Rule::MinLength(3));
    let mut second = FieldSchema::new("age".to_string(), "input".to_string());
    second.add_rule(Rule::MaxValue(65));
    let schemas = vec![first, second];

    let mut record = Record::new();
    record.add("username".to_string(), FieldValue::Text("a".to_string()));
    record.add("age".to_string(), FieldValue::Number(70));

    let errs = validate_record(&schemas, &record, &registry);
    assert_eq!(errs.len(), 2);
    assert!(matches!(errs[0], ValidateError::InputTooShort { .. }));
    assert!(matches!(errs[1], ValidateError::TooLarge { .. }));
}

#[test]
fn missing_record_entry_counts_as_absent() {
    let registry = RegexRegistry::new();
    let mut schema = FieldSchema::new("nickname".to_string(), "input".to_string());
    schema.set_optional(true);
    schema.add_rule(Rule::MinLength(3));
    let schemas = vec![schema];

    // The record carries no entry for the field at all.
    let record = Record::new();
    let errs = validate_record(&schemas, &record, &registry);
    assert_eq!(errs.len(), 0);
}

#[test]
fn schema_renders_its_tag_and_attributes() {
    let mut schema = FieldSchema::new("username".to_string(), "input".to_string());
    schema
        .attrs
        .insert(HtmlAttribute::new_pair("class".to_string(), "input-text".to_string()));
    schema
        .attrs
        .insert(HtmlAttribute::new_single("required".to_string()));
    assert_eq!(schema.render(), "<input class='input-text' required>");

    let mut over = AttributeSet::new();
    over.insert(HtmlAttribute::new_pair(
        "class".to_string(),
        "input-override".to_string(),
    ));
    assert_eq!(
        schema.render_with(&over),
        "<input required class='input-override'>"
    );
    // Overriding with the schema's own attributes changes nothing.
    assert_eq!(schema.render_with(&schema.attrs), schema.render());
}

#[test]
fn render_form_joins_schemas_with_newlines() {
    let mut username = FieldSchema::new("username".to_string(), "input".to_string());
    username
        .attrs
        .insert(HtmlAttribute::new_pair("name".to_string(), "username".to_string()));
    let mut submit = FieldSchema::new("submit".to_string(), "button".to_string());
    submit
        .attrs
        .insert(HtmlAttribute::new_pair("type".to_string(), "submit".to_string()));
    let schemas = vec![username, submit];
    assert_eq!(
        render_form(&schemas),
        "<input name='username'>\n<button type='submit'>\n"
    );
}
