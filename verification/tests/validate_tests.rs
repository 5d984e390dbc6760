use webforms::validate::validate_form;
use webforms::validate::FieldSchema;
use webforms::validate::FieldValue;
use webforms::validate::Record;
use webforms::validate::RegexRegistry;
use webforms::validate::Rule;
use webforms::validate::ValidateError;
use webforms::validate::ValidateForm;

struct TestForm<'a> {
    pub username: &'a str,
    pub email: &'a str,
    pub some_string: &'a str,
    pub some_string_2: &'a str,
    pub phone: &'a str,
    pub age: i16,
    pub address: &'a str,
    pub opt_number: Option<i16>,
    pub opt_owned_string: Option<String>,
    pub opt_ref_string: Option<&'a str>,
}

impl<'a> Default for TestForm<'a> {
    fn default() -> Self {
        TestForm {
            username: "Mike",
            email: "mike@test.com",
            some_string: "password123!",
            some_string_2: "password123!",
            phone: "+1 111-111-1111",
            age: 25,
            address: "100 Mike Rd",
            opt_number: Some(90),
            opt_owned_string: Some("Maryland".to_owned()),
            opt_ref_string: Some("Maryland"),
        }
    }
}

fn test_form_registry() -> RegexRegistry {
    let mut reg = RegexRegistry::new();
    reg.register_email().unwrap();
    reg.register_phone().unwrap();
    reg.register(
        "form_regex_some_string".to_string(),
        "^[a-z]{8}\\d{3}!$".to_string(),
    )
    .unwrap();
    reg.register("compiled_re".to_string(), "^100 Mike Rd$".to_string())
        .unwrap();
    reg
}

fn test_form_schemas() -> Vec<FieldSchema> {
    let mut schemas = Vec::new();

    let mut username = FieldSchema::new("username".to_string(), "input".to_string());
    username.add_rule(Rule::MinLength(3));
    username.add_rule(Rule::MaxLength(20));
    schemas.push(username);

    let mut email = FieldSchema::new("email".to_string(), "input".to_string());
    email.add_rule(Rule::Email);
    schemas.push(email);

    let mut some_string = FieldSchema::new("some_string".to_string(), "input".to_string());
    some_string.add_rule(Rule::Pattern("form_regex_some_string".to_string()));
    schemas.push(some_string);

    let mut some_string_2 = FieldSchema::new("some_string_2".to_string(), "input".to_string());
    some_string_2.add_rule(Rule::FieldMatch("some_string".to_string()));
    schemas.push(some_string_2);

    let mut phone = FieldSchema::new("phone".to_string(), "input".to_string());
    phone.add_rule(Rule::Phone);
    schemas.push(phone);

    let mut age = FieldSchema::new("age".to_string(), "input".to_string());
    age.add_rule(Rule::MinValue(18));
    age.add_rule(Rule::MaxValue(65));
    schemas.push(age);

    let mut address = FieldSchema::new("address".to_string(), "input".to_string());
    address.add_rule(Rule::Pattern("compiled_re".to_string()));
    schemas.push(address);

    let mut opt_number = FieldSchema::new("opt_number".to_string(), "input".to_string());
    opt_number.set_optional(true);
    opt_number.add_rule(Rule::MinValue(50));
    schemas.push(opt_number);

    let mut opt_owned_string = FieldSchema::new("opt_owned_string".to_string(), "input".to_string());
    opt_owned_string.set_optional(true);
    opt_owned_string.add_rule(Rule::MinLength(5));
    schemas.push(opt_owned_string);

    let mut opt_ref_string = FieldSchema::new("opt_ref_string".to_string(), "input".to_string());
    opt_ref_string.set_optional(true);
    opt_ref_string.add_rule(Rule::MinLength(5));
    schemas.push(opt_ref_string);

    schemas
}

impl<'a> ValidateForm for TestForm<'a> {
    fn validate(&self) -> Result<(), Vec<ValidateError>> {
        let registry = test_form_registry();
        let schemas = test_form_schemas();
        let mut record = Record::new();
        record.add(
            "username".to_string(),
            FieldValue::Text(self.username.to_string()),
        );
        record.add("email".to_string(), FieldValue::Text(self.email.to_string()));
        record.add(
            "some_string".to_string(),
            FieldValue::Text(self.some_string.to_string()),
        );
        record.add(
            "some_string_2".to_string(),
            FieldValue::Text(self.some_string_2.to_string()),
        );
        record.add("phone".to_string(), FieldValue::Text(self.phone.to_string()));
        record.add("age".to_string(), FieldValue::Number(self.age as i64));
        record.add(
            "address".to_string(),
            FieldValue::Text(self.address.to_string()),
        );
        record.add(
            "opt_number".to_string(),
            match self.opt_number {
                Some(x) => FieldValue::Number(x as i64),
                None => FieldValue::Absent,
            },
        );
        record.add(
            "opt_owned_string".to_string(),
            match &self.opt_owned_string {
                Some(s) => FieldValue::Text(s.clone()),
                None => FieldValue::Absent,
            },
        );
        record.add(
            "opt_ref_string".to_string(),
            match self.opt_ref_string {
                Some(s) => FieldValue::Text(s.to_string()),
                None => FieldValue::Absent,
            },
        );
        validate_form(&schemas, &record, &registry)
    }
}

#[test]
fn test_all_valid() {
    let form = TestForm {
        ..Default::default()
    };

    let res = form.validate();
    assert!(res.is_ok());
}

#[test]
fn test_username_too_short() {
    let form = TestForm {
        username: "a",
        ..Default::default()
    };

    let res = form.validate();
    assert!(res.is_err());
    let errs = res.unwrap_err();
    assert_eq!(errs.len(), 1);

    match errs[0] {
        ValidateError::InputTooShort { field: _, min: _ } => {}
        _ => panic!("Wrong Error for Too Short"),
    }
}

#[test]
fn test_username_too_long() {
    let form = TestForm {
        username: "aaaaa aaaaa aaaaa aaaaa",
        ..Default::default()
    };

    let res = form.validate();
    assert!(res.is_err());
    let errs = res.unwrap_err();
    assert_eq!(errs.len(), 1);

    match errs[0] {
        ValidateError::InputTooLong { field: _, max: _ } => {}
        _ => panic!("Wrong Error for Too Long"),
    }
}

#[test]
fn test_invalid_email() {
    let form = TestForm {
        email: "test@test",
        ..Default::default()
    };

    let res = form.validate();
    assert!(res.is_err());
    let errs = res.unwrap_err();
    assert_eq!(errs.len(), 1);

    match errs[0] {
        ValidateError::InvalidEmail { field: _ } => {}
        _ => panic!("Wrong Error for Invalid Email"),
    }
}

#[test]
fn test_invalid_some_string() {
    let form = TestForm {
        some_string: "password123",
        some_string_2: "password123",
        ..Default::default()
    };

    let res = form.validate();
    assert!(res.is_err());
    let errs = res.unwrap_err();
    assert_eq!(errs.len(), 1);

    match errs[0] {
        ValidateError::InvalidRegex { field: _ } => {}
        _ => panic!("Wrong Error for Invalid Regex"),
    }
}

#[test]
fn test_invalid_some_string_mismatch() {
    let form = TestForm {
        some_string_2: "wrong_field",
        ..Default::default()
    };

    let res = form.validate();
    assert!(res.is_err());
    let errs = res.unwrap_err();
    assert_eq!(errs.len(), 1);

    match errs[0] {
        ValidateError::FieldMismatch { field: _ } => {}
        _ => panic!("Wrong Error for Field Mismatch"),
    }
}

#[test]
fn test_invalid_phone() {
    let form = TestForm {
        phone: "1-111-1111",
        ..Default::default()
    };

    let res = form.validate();
    assert!(res.is_err());
    let errs = res.unwrap_err();
    assert_eq!(errs.len(), 1);

    match errs[0] {
        ValidateError::InvalidPhoneNumber { field: _ } => {}
        _ => panic!("Wrong Error for Invalid Phone Number"),
    }
}

#[test]
fn test_age_too_small() {
    let form = TestForm {
        age: 10,
        ..Default::default()
    };

    let res = form.validate();
    assert!(res.is_err());
    let errs = res.unwrap_err();
    assert_eq!(errs.len(), 1);

    match errs[0] {
        ValidateError::TooSmall { field: _, min: _ } => {}
        _ => panic!("Wrong Error for Too Small"),
    }
}

#[test]
fn test_age_too_large() {
    let form = TestForm {
        age: 70,
        ..Default::default()
    };

    let res = form.validate();
    assert!(res.is_err());
    let errs = res.unwrap_err();
    assert_eq!(errs.len(), 1);

    match errs[0] {
        ValidateError::TooLarge { field: _, max: _ } => {}
        _ => panic!("Wrong Error for Too Large"),
    }
}

#[test]
fn test_optional_none() {
    let form = TestForm {
        opt_number: None,
        ..Default::default()
    };

    let res = form.validate();
    assert!(res.is_ok());
}

#[test]
fn test_optional_some_too_low() {
    let form = TestForm {
        opt_number: Some(10),
        ..Default::default()
    };

    let res = form.validate();
    assert!(res.is_err());
    let errs = res.unwrap_err();
    assert_eq!(errs.len(), 1);

    match errs[0] {
        ValidateError::TooSmall { field: _, min: _ } => {}
        _ => panic!("Wrong Error for Too Small"),
    }
}
