use formvault::data::FormData;
use formvault::schema::{FieldDefinition, FieldType, FormSchema, ValidationRules};
use formvault::FormVaultError;

fn plain_rules() -> ValidationRules {
    ValidationRules { regex: None, custom_error_message: None }
}

fn field(id: &str, name: &str, field_type: FieldType, required: bool) -> FieldDefinition {
    FieldDefinition {
        id: id.to_string(),
        name: name.to_string(),
        field_type,
        required,
        validation_rules: plain_rules(),
    }
}

fn schema_with(fields: Vec<FieldDefinition>) -> FormSchema {
    FormSchema::new("Test Form".to_string(), 7, "0123456789abcdef".to_string(), fields)
}

fn errors_of(r: Result<(), FormVaultError>) -> Vec<String> {
    match r {
        Ok(()) => panic!("expected validation errors"),
        Err(FormVaultError::ValidationFailed(errors)) => errors,
        Err(_) => panic!("expected ValidationFailed"),
    }
}

#[test]
fn required_email_field_missing() {
    let schema = schema_with(vec![field("email", "Email", FieldType::Email, true)]);
    let data = FormData::new();
    let errors = errors_of(schema.validate_submission(&data));
    assert_eq!(errors, vec!["Field 'Email' is required".to_string()]);
}

#[test]
fn number_above_maximum() {
    let schema = schema_with(vec![field(
        "age",
        "age",
        FieldType::Number { min: Some(0), max: Some(100) },
        false,
    )]);
    let mut data = FormData::new();
    data.insert("age".to_string(), "150".to_string());
    let errors = errors_of(schema.validate_submission(&data));
    assert_eq!(errors, vec!["Number too large in field 'age'".to_string()]);
}

#[test]
fn number_below_minimum() {
    let schema = schema_with(vec![field(
        "age",
        "Age",
        FieldType::Number { min: Some(0), max: Some(100) },
        true,
    )]);
    let mut data = FormData::new();
    data.insert("age".to_string(), "-0.5".to_string());
    let errors = errors_of(schema.validate_submission(&data));
    assert_eq!(errors, vec!["Number too small in field 'Age'".to_string()]);
}

#[test]
fn number_fraction_just_over_maximum() {
    let schema = schema_with(vec![field(
        "age",
        "Age",
        FieldType::Number { min: Some(0), max: Some(100) },
        true,
    )]);
    let mut data = FormData::new();
    data.insert("age".to_string(), "100.5".to_string());
    let errors = errors_of(schema.validate_submission(&data));
    assert_eq!(errors, vec!["Number too large in field 'Age'".to_string()]);
}

#[test]
fn number_at_bounds_is_accepted() {
    let schema = schema_with(vec![field(
        "age",
        "Age",
        FieldType::Number { min: Some(0), max: Some(100) },
        true,
    )]);
    let mut data = FormData::new();
    data.insert("age".to_string(), "100".to_string());
    assert!(schema.validate_submission(&data).is_ok());
    let mut low = FormData::new();
    low.insert("age".to_string(), "0.0".to_string());
    assert!(schema.validate_submission(&low).is_ok());
}

#[test]
fn number_that_does_not_parse() {
    let schema = schema_with(vec![field(
        "age",
        "Age",
        FieldType::Number { min: None, max: None },
        true,
    )]);
    let mut data = FormData::new();
    data.insert("age".to_string(), "sixteen".to_string());
    let errors = errors_of(schema.validate_submission(&data));
    assert_eq!(errors, vec!["Invalid number in field 'Age'".to_string()]);
}

#[test]
fn huge_number_still_compared_exactly() {
    let schema = schema_with(vec![field(
        "n",
        "N",
        FieldType::Number { min: Some(i64::MIN), max: Some(i64::MAX) },
        true,
    )]);
    let mut data = FormData::new();
    data.insert("n".to_string(), "123456789012345678901234567890".to_string());
    let errors = errors_of(schema.validate_submission(&data));
    assert_eq!(errors, vec!["Number too large in field 'N'".to_string()]);
}

#[test]
fn exponent_forms_are_numbers() {
    let schema = schema_with(vec![field(
        "age",
        "Age",
        FieldType::Number { min: Some(0), max: Some(100) },
        true,
    )]);
    // 1e3 = 1000 > 100.
    let mut data = FormData::new();
    data.insert("age".to_string(), "1e3".to_string());
    let errors = errors_of(schema.validate_submission(&data));
    assert_eq!(errors, vec!["Number too large in field 'Age'".to_string()]);
    // 2.5e-1 = 0.25, within bounds.
    let mut ok = FormData::new();
    ok.insert("age".to_string(), "2.5e-1".to_string());
    assert!(schema.validate_submission(&ok).is_ok());
    // 1E+2 = 100, at the bound.
    let mut upper = FormData::new();
    upper.insert("age".to_string(), "1E+2".to_string());
    assert!(schema.validate_submission(&upper).is_ok());
    // 1.5e2 = 150 > 100.
    let mut frac = FormData::new();
    frac.insert("age".to_string(), "1.5e2".to_string());
    let errors = errors_of(schema.validate_submission(&frac));
    assert_eq!(errors, vec!["Number too large in field 'Age'".to_string()]);
    // -1e2 = -100 < 0.
    let mut low = FormData::new();
    low.insert("age".to_string(), "-1e2".to_string());
    let errors = errors_of(schema.validate_submission(&low));
    assert_eq!(errors, vec!["Number too small in field 'Age'".to_string()]);
    // 1e-3 = 0.001, within bounds; 0e999 is zero whatever the exponent.
    let mut tiny = FormData::new();
    tiny.insert("age".to_string(), "1e-3".to_string());
    assert!(schema.validate_submission(&tiny).is_ok());
    let mut zero = FormData::new();
    zero.insert("age".to_string(), "0e999999999999999999999999999999999999".to_string());
    assert!(schema.validate_submission(&zero).is_ok());
    // A huge exponent on a non-zero mantissa dwarfs every bound.
    let mut vast = FormData::new();
    vast.insert("age".to_string(), "1e999999999999999999999999999999999999".to_string());
    let errors = errors_of(schema.validate_submission(&vast));
    assert_eq!(errors, vec!["Number too large in field 'Age'".to_string()]);
}

#[test]
fn malformed_exponents_are_invalid() {
    let schema = schema_with(vec![field(
        "age",
        "Age",
        FieldType::Number { min: None, max: None },
        true,
    )]);
    for bad in ["1e", "e5", "1e2e3", "1e+", "1e2.5", "inf", "NaN", "1.2.3"] {
        let mut data = FormData::new();
        data.insert("age".to_string(), bad.to_string());
        let errors = errors_of(schema.validate_submission(&data));
        assert_eq!(
            errors,
            vec!["Invalid number in field 'Age'".to_string()],
            "input was {bad}"
        );
    }
}

#[test]
fn email_without_at_sign() {
    let schema = schema_with(vec![field("email", "Email", FieldType::Email, true)]);
    let mut data = FormData::new();
    data.insert("email".to_string(), "nobody.example.org".to_string());
    let errors = errors_of(schema.validate_submission(&data));
    assert_eq!(errors, vec!["Invalid email in field 'Email'".to_string()]);
}

#[test]
fn email_with_at_sign_passes() {
    let schema = schema_with(vec![field("email", "Email", FieldType::Email, true)]);
    let mut data = FormData::new();
    data.insert("email".to_string(), "nobody@example.org".to_string());
    assert!(schema.validate_submission(&data).is_ok());
}

#[test]
fn text_over_maximum_length() {
    let schema = schema_with(vec![field(
        "bio",
        "Bio",
        FieldType::Text { max_length: Some(5) },
        true,
    )]);
    let mut data = FormData::new();
    data.insert("bio".to_string(), "abcdef".to_string());
    let errors = errors_of(schema.validate_submission(&data));
    assert_eq!(errors, vec!["Field 'Bio' exceeds maximum length".to_string()]);
}

#[test]
fn required_field_empty_value() {
    let schema = schema_with(vec![field("email", "Email", FieldType::Email, true)]);
    let mut data = FormData::new();
    data.insert("email".to_string(), "".to_string());
    let errors = errors_of(schema.validate_submission(&data));
    assert_eq!(errors, vec!["Field 'Email' is required".to_string()]);
}

#[test]
fn optional_absent_field_passes() {
    let schema = schema_with(vec![field(
        "name",
        "Name",
        FieldType::Text { max_length: Some(10) },
        false,
    )]);
    let data = FormData::new();
    assert!(schema.validate_submission(&data).is_ok());
}

#[test]
fn all_errors_are_collected_in_schema_order() {
    let schema = schema_with(vec![
        field("name", "Name", FieldType::Text { max_length: Some(3) }, true),
        field("email", "Email", FieldType::Email, true),
        field("age", "Age", FieldType::Number { min: Some(0), max: Some(100) }, true),
    ]);
    let mut data = FormData::new();
    data.insert("name".to_string(), "toolong".to_string());
    data.insert("age".to_string(), "200".to_string());
    let errors = errors_of(schema.validate_submission(&data));
    assert_eq!(
        errors,
        vec![
            "Field 'Name' exceeds maximum length".to_string(),
            "Field 'Email' is required".to_string(),
            "Number too large in field 'Age'".to_string(),
        ]
    );
}

#[test]
fn unchecked_field_types_accept_any_value() {
    let schema = schema_with(vec![
        field("phone", "Phone", FieldType::Phone { country_code: None }, true),
        field("when", "When", FieldType::Date { format: "%Y-%m-%d".to_string() }, true),
        field("pick", "Pick", FieldType::Select { options: vec!["a".to_string()] }, true),
        field("ok", "Ok", FieldType::Checkbox, true),
        field(
            "file",
            "File",
            FieldType::File { allowed_types: vec![], max_size_mb: 5 },
            true,
        ),
    ]);
    let mut data = FormData::new();
    data.insert("phone".to_string(), "anything".to_string());
    data.insert("when".to_string(), "whenever".to_string());
    data.insert("pick".to_string(), "z".to_string());
    data.insert("ok".to_string(), "maybe".to_string());
    data.insert("file".to_string(), "x".to_string());
    assert!(schema.validate_submission(&data).is_ok());
}

#[test]
fn form_data_insert_replaces_value() {
    let mut data = FormData::new();
    data.insert("k".to_string(), "v1".to_string());
    data.insert("k".to_string(), "v2".to_string());
    assert_eq!(data.len(), 1);
    assert_eq!(data.get(&"k".to_string()), Some(&"v2".to_string()));
    assert_eq!(data.get(&"missing".to_string()), None);
}

#[test]
fn ready_made_schemas() {
    let news = FormSchema::newsletter_form(1, "0123456789abcdef".to_string());
    assert_eq!(news.name, "Newsletter Signup");
    assert_eq!(news.fields.len(), 2);
    assert_eq!(news.fields[0].id, "email");
    let contact = FormSchema::contact_form(1, "0123456789abcdef".to_string());
    assert_eq!(contact.name, "Contact Form");
    assert_eq!(contact.fields.len(), 3);
    assert_eq!(contact.fields[2].id, "message");

    let mut data = FormData::new();
    data.insert("email".to_string(), "a@b.c".to_string());
    assert!(news.validate_submission(&data).is_ok());
    let missing = FormData::new();
    assert!(news.validate_submission(&missing).is_err());
}

#[test]
fn add_field_appends() {
    let mut schema = schema_with(vec![field("a", "A", FieldType::Checkbox, false)]);
    assert!(!schema.has_field_id(&"b".to_string()));
    schema.add_field(field("b", "B", FieldType::Checkbox, false));
    assert!(schema.has_field_id(&"b".to_string()));
    assert_eq!(schema.fields.len(), 2);
}
