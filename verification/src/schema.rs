//! Form schemas: a developer's form definition, and validation of raw
//! submitted data against it.

use vstd::prelude::*;
use vstd::string::StringExecFns;
use vstd::utf8::encode_utf8;
use crate::codec::lemma_ascii_byte_containment;
use crate::data::{FormData, lookup};
use crate::errors::FormVaultError;
use crate::numbers::{
    spec_parse_decimal, spec_dec_lt_int, spec_dec_gt_int, parse_decimal, dec_below, dec_above,
};
use crate::bridge::{fresh_random_id, now_timestamp_millis};

verus! {

/// One form field's type, with its per-type constraints.
pub enum FieldType {
    /// Free text, optionally bounded in UTF-8 byte length.
    Text { max_length: Option<usize> },
    /// An email address; checked minimally, for an `@` sign only.
    Email,
    /// A phone number, optionally pinned to a country code.
    Phone { country_code: Option<String> },
    /// A decimal number, optionally bounded below and above.
    Number { min: Option<i64>, max: Option<i64> },
    /// A date in the named format.
    Date { format: String },
    /// One of a fixed set of options.
    Select { options: Vec<String> },
    /// A checkbox.
    Checkbox,
    /// An uploaded file, by allowed types and size.
    File { allowed_types: Vec<String>, max_size_mb: usize },
}

/// Extra validation hooks on a field.
pub struct ValidationRules {
    /// An optional pattern; an extension point, not checked by `validate`.
    pub regex: Option<String>,
    /// An optional message to show in place of the built-in one.
    pub custom_error_message: Option<String>,
}

/// One form field's contract.
pub struct FieldDefinition {
    /// The field's identifier, unique within its schema.
    pub id: String,
    /// The field's display name, used in error messages.
    pub name: String,
    /// The field's type.
    pub field_type: FieldType,
    /// Whether a non-empty value must be submitted.
    pub required: bool,
    /// Extra validation hooks.
    pub validation_rules: ValidationRules,
}

/// A developer's form definition.
pub struct FormSchema {
    /// The schema's identifier.
    pub id: u128,
    /// The schema's display name.
    pub name: String,
    /// The fields, in display order; identifiers are unique.
    pub fields: Vec<FieldDefinition>,
    /// The owning developer.
    pub developer_id: u128,
    /// The developer's public key, for envelope encryption.
    pub public_key: String,
    /// When the schema was created, in Unix milliseconds.
    pub created_at: i64,
    /// Where submissions are delivered, when configured.
    pub webhook_url: Option<String>,
}

/// The message for a missing required field.
pub open spec fn spec_required_message(name: Seq<char>) -> Seq<char> {
    "Field '"@ + name + "' is required"@
}

/// The message for an email value without an `@` sign.
pub open spec fn spec_invalid_email_message(name: Seq<char>) -> Seq<char> {
    "Invalid email in field '"@ + name + "'"@
}

/// The message for a text value over its length bound.
pub open spec fn spec_too_long_message(name: Seq<char>) -> Seq<char> {
    "Field '"@ + name + "' exceeds maximum length"@
}

/// The message for a numeric value below its lower bound.
pub open spec fn spec_too_small_message(name: Seq<char>) -> Seq<char> {
    "Number too small in field '"@ + name + "'"@
}

/// The message for a numeric value above its upper bound.
pub open spec fn spec_too_large_message(name: Seq<char>) -> Seq<char> {
    "Number too large in field '"@ + name + "'"@
}

/// The message for a value that is not a number.
pub open spec fn spec_invalid_number_message(name: Seq<char>) -> Seq<char> {
    "Invalid number in field '"@ + name + "'"@
}

/// The errors one field contributes, given the value submitted for it: the
/// required-field check first, and the type's own checks only when a value
/// is present.
pub open spec fn spec_field_errors(f: FieldDefinition, v: Option<Seq<char>>) -> Seq<Seq<char>> {
    if f.required && (v is None || v->Some_0.len() == 0) {
        seq![spec_required_message(f.name@)]
    } else {
        match v {
            Some(val) => match f.field_type {
                FieldType::Email => if !val.contains('@') {
                    seq![spec_invalid_email_message(f.name@)]
                } else {
                    Seq::empty()
                },
                FieldType::Text { max_length } => match max_length {
                    Some(m) => if encode_utf8(val).len() > m {
                        seq![spec_too_long_message(f.name@)]
                    } else {
                        Seq::empty()
                    },
                    None => Seq::empty(),
                },
                FieldType::Number { min, max } => match spec_parse_decimal(encode_utf8(val)) {
                    Some(d) => (if min is Some && spec_dec_lt_int(d, min->0 as int) {
                        seq![spec_too_small_message(f.name@)]
                    } else {
                        Seq::empty()
                    }) + (if max is Some && spec_dec_gt_int(d, max->0 as int) {
                        seq![spec_too_large_message(f.name@)]
                    } else {
                        Seq::empty()
                    }),
                    None => seq![spec_invalid_number_message(f.name@)],
                },
                _ => Seq::empty(),
            },
            None => Seq::empty(),
        }
    }
}

/// All errors of a validation run: each field's errors, in schema order,
/// never truncated.
pub open spec fn spec_validation_errors(
    fields: Seq<FieldDefinition>,
    data: Seq<(Seq<char>, Seq<char>)>,
) -> Seq<Seq<char>>
    decreases fields.len(),
{
    if fields.len() == 0 {
        Seq::empty()
    } else {
        spec_field_errors(fields[0], lookup(data, fields[0].id@)) + spec_validation_errors(
            fields.drop_first(),
            data,
        )
    }
}

/// One more field contributes its errors at the end.
pub proof fn lemma_validation_errors_snoc(
    fields: Seq<FieldDefinition>,
    data: Seq<(Seq<char>, Seq<char>)>,
    f: FieldDefinition,
)
    ensures
        spec_validation_errors(fields.push(f), data) =~= spec_validation_errors(fields, data)
            + spec_field_errors(f, lookup(data, f.id@)),
    decreases fields.len(),
{
    reveal_with_fuel(spec_validation_errors, 3);
    if fields.len() == 0 {
        assert(fields.push(f)[0] == f);
        assert(fields.push(f).drop_first() =~= Seq::<FieldDefinition>::empty());
        assert(spec_validation_errors(fields.push(f), data) == spec_field_errors(
            f,
            lookup(data, f.id@),
        ) + spec_validation_errors(Seq::<FieldDefinition>::empty(), data));
        assert(spec_field_errors(f, lookup(data, f.id@)) + Seq::<Seq<char>>::empty()
            =~= spec_field_errors(f, lookup(data, f.id@)));
    } else {
        assert(fields.push(f)[0] == fields[0]);
        assert(fields.push(f).drop_first() =~= fields.drop_first().push(f));
        lemma_validation_errors_snoc(fields.drop_first(), data, f);
    }
}

/// A present value meets its field type's constraint.
pub open spec fn spec_type_ok(f: FieldDefinition, val: Seq<char>) -> bool {
    match f.field_type {
        FieldType::Email => val.contains('@'),
        FieldType::Text { max_length } => max_length is Some ==> encode_utf8(val).len()
            <= max_length->0,
        FieldType::Number { min, max } => match spec_parse_decimal(encode_utf8(val)) {
            Some(d) => (min is Some ==> !spec_dec_lt_int(d, min->0 as int)) && (max is Some
                ==> !spec_dec_gt_int(d, max->0 as int)),
            None => false,
        },
        _ => true,
    }
}

/// A field passes: required fields carry a non-empty value, and any
/// present value meets its type's constraint.
pub open spec fn spec_field_ok(f: FieldDefinition, v: Option<Seq<char>>) -> bool {
    if f.required && (v is None || v->Some_0.len() == 0) {
        false
    } else {
        v is Some ==> spec_type_ok(f, v->Some_0)
    }
}

/// A field contributes no errors exactly when it passes.
proof fn lemma_field_errors_empty_iff_ok(f: FieldDefinition, v: Option<Seq<char>>)
    ensures
        spec_field_errors(f, v).len() == 0 <==> spec_field_ok(f, v),
{
}

/// Validation succeeds exactly when every required field of the schema
/// carries a non-empty value and every present value meets its field
/// type's constraint.
pub proof fn lemma_validation_ok_characterization(
    fields: Seq<FieldDefinition>,
    data: Seq<(Seq<char>, Seq<char>)>,
)
    ensures
        spec_validation_errors(fields, data).len() == 0 <==> (forall|i: int|
            0 <= i < fields.len() ==> spec_field_ok(
                #[trigger] fields[i],
                lookup(data, fields[i].id@),
            )),
    decreases fields.len(),
{
    if fields.len() > 0 {
        lemma_field_errors_empty_iff_ok(fields[0], lookup(data, fields[0].id@));
        lemma_validation_ok_characterization(fields.drop_first(), data);
        if spec_validation_errors(fields, data).len() == 0 {
            assert forall|i: int| 0 <= i < fields.len() implies spec_field_ok(
                #[trigger] fields[i],
                lookup(data, fields[i].id@),
            ) by {
                if i > 0 {
                    assert(fields.drop_first()[i - 1] == fields[i]);
                }
            }
        } else {
            if spec_field_errors(fields[0], lookup(data, fields[0].id@)).len() == 0 {
                let j = choose|j: int|
                    0 <= j < fields.drop_first().len() && !spec_field_ok(
                        #[trigger] fields.drop_first()[j],
                        lookup(data, fields.drop_first()[j].id@),
                    );
                assert(fields[j + 1] == fields.drop_first()[j]);
                assert(!spec_field_ok(fields[j + 1], lookup(data, fields[j + 1].id@)));
            }
        }
    }
}

/// Whether a byte occurs in a slice.
fn contains_byte(s: &[u8], b: u8) -> (r: bool)
    ensures
        r == s@.contains(b),
{
    let mut i: usize = 0;
    while i < s.len()
        invariant
            i <= s@.len(),
            forall|j: int| 0 <= j < i ==> s@[j] != b,
        decreases s@.len() - i,
    {
        if s[i] == b {
            return true;
        }
        i = i + 1;
    }
    proof {
        if s@.contains(b) {
            let j = choose|j: int| 0 <= j < s@.len() && s@[j] == b;
        }
    }
    false
}

/// Builds `prefix + name + suffix`.
fn message_around(prefix: &str, name: &str, suffix: &str) -> (r: String)
    ensures
        r@ == prefix@ + name@ + suffix@,
{
    let mut s = String::from_str(prefix);
    s.append(name);
    s.append(suffix);
    s
}

impl FormSchema {
    /// Field identifiers are unique: the schema's invariant.
    pub open spec fn wf(&self) -> bool {
        forall|i: int, j: int|
            0 <= i < j < self.fields@.len() ==> (#[trigger] self.fields@[i]).id@ != (
            #[trigger] self.fields@[j]).id@
    }

    /// Makes a new schema with a fresh identifier and the current time,
    /// no webhook configured.
    pub fn new(name: String, developer_id: u128, public_key: String, fields: Vec<FieldDefinition>) -> (r:
        FormSchema)
        requires
            forall|i: int, j: int|
                0 <= i < j < fields@.len() ==> (#[trigger] fields@[i]).id@ != (
                #[trigger] fields@[j]).id@,
        ensures
            r.wf(),
            r.name == name,
            r.fields == fields,
            r.developer_id == developer_id,
            r.public_key == public_key,
            r.webhook_url is None,
    {
        FormSchema {
            id: fresh_random_id(),
            name,
            fields,
            developer_id,
            public_key,
            created_at: now_timestamp_millis(),
            webhook_url: None,
        }
    }

    /// Whether some field already carries this identifier.
    pub fn has_field_id(&self, id: &String) -> (r: bool)
        ensures
            r == exists|i: int| 0 <= i < self.fields@.len() && (#[trigger] self.fields@[i]).id@ == id@,
    {
        let mut i: usize = 0;
        while i < self.fields.len()
            invariant
                i <= self.fields@.len(),
                forall|j: int| 0 <= j < i ==> (#[trigger] self.fields@[j]).id@ != id@,
            decreases self.fields@.len() - i,
        {
            if self.fields[i].id == *id {
                return true;
            }
            i = i + 1;
        }
        false
    }

    /// Appends a field whose identifier is not yet taken.
    pub fn add_field(&mut self, field: FieldDefinition)
        requires
            old(self).wf(),
            forall|i: int|
                0 <= i < old(self).fields@.len() ==> (#[trigger] old(self).fields@[i]).id@
                    != field.id@,
        ensures
            final(self).wf(),
            final(self).fields@ == old(self).fields@.push(field),
            final(self).id == old(self).id,
            final(self).name == old(self).name,
            final(self).developer_id == old(self).developer_id,
            final(self).public_key == old(self).public_key,
            final(self).created_at == old(self).created_at,
            final(self).webhook_url == old(self).webhook_url,
    {
        self.fields.push(field);
    }

    /// A ready-made newsletter signup schema: a required email field and
    /// an optional name bounded at a hundred bytes.
    pub fn newsletter_form(developer_id: u128, public_key: String) -> (r: FormSchema)
        ensures
            r.wf(),
            r.developer_id == developer_id,
            r.public_key == public_key,
            r.webhook_url is None,
            r.name@ == "Newsletter Signup"@,
            r.fields@.len() == 2,
            r.fields@[0].id@ == "email"@,
            r.fields@[0].name@ == "Email Address"@,
            r.fields@[0].field_type is Email,
            r.fields@[0].required,
            r.fields@[1].id@ == "name"@,
            r.fields@[1].name@ == "Full Name"@,
            r.fields@[1].field_type == (FieldType::Text { max_length: Some(100usize) }),
            !r.fields@[1].required,
    {
        let mut fields: Vec<FieldDefinition> = Vec::new();
        fields.push(
            FieldDefinition {
                id: String::from_str("email"),
                name: String::from_str("Email Address"),
                field_type: FieldType::Email,
                required: true,
                validation_rules: ValidationRules {
                    regex: None,
                    custom_error_message: Some(String::from_str("Please enter a valid email")),
                },
            },
        );
        fields.push(
            FieldDefinition {
                id: String::from_str("name"),
                name: String::from_str("Full Name"),
                field_type: FieldType::Text { max_length: Some(100) },
                required: false,
                validation_rules: ValidationRules { regex: None, custom_error_message: None },
            },
        );
        proof {
            reveal_strlit("email");
            reveal_strlit("name");
            assert("email"@.len() != "name"@.len());
        }
        FormSchema::new(String::from_str("Newsletter Signup"), developer_id, public_key, fields)
    }

    /// A ready-made contact form schema: required name, email and message
    /// fields, the texts bounded in length.
    pub fn contact_form(developer_id: u128, public_key: String) -> (r: FormSchema)
        ensures
            r.wf(),
            r.developer_id == developer_id,
            r.public_key == public_key,
            r.webhook_url is None,
            r.name@ == "Contact Form"@,
            r.fields@.len() == 3,
            r.fields@[0].id@ == "name"@,
            r.fields@[0].name@ == "Name"@,
            r.fields@[0].field_type == (FieldType::Text { max_length: Some(100usize) }),
            r.fields@[0].required,
            r.fields@[1].id@ == "email"@,
            r.fields@[1].name@ == "Email"@,
            r.fields@[1].field_type is Email,
            r.fields@[1].required,
            r.fields@[2].id@ == "message"@,
            r.fields@[2].name@ == "Message"@,
            r.fields@[2].field_type == (FieldType::Text { max_length: Some(2000usize) }),
            r.fields@[2].required,
    {
        let mut fields: Vec<FieldDefinition> = Vec::new();
        fields.push(
            FieldDefinition {
                id: String::from_str("name"),
                name: String::from_str("Name"),
                field_type: FieldType::Text { max_length: Some(100) },
                required: true,
                validation_rules: ValidationRules { regex: None, custom_error_message: None },
            },
        );
        fields.push(
            FieldDefinition {
                id: String::from_str("email"),
                name: String::from_str("Email"),
                field_type: FieldType::Email,
                required: true,
                validation_rules: ValidationRules { regex: None, custom_error_message: None },
            },
        );
        fields.push(
            FieldDefinition {
                id: String::from_str("message"),
                name: String::from_str("Message"),
                field_type: FieldType::Text { max_length: Some(2000) },
                required: true,
                validation_rules: ValidationRules { regex: None, custom_error_message: None },
            },
        );
        proof {
            reveal_strlit("email");
            reveal_strlit("name");
            reveal_strlit("message");
            assert("email"@.len() != "name"@.len());
            assert("email"@.len() != "message"@.len());
            assert("name"@.len() != "message"@.len());
        }
        FormSchema::new(String::from_str("Contact Form"), developer_id, public_key, fields)
    }

    /// Validates raw data against this schema: walks the fields in order,
    /// requires a non-empty value for each required field, and applies the
    /// type's checks to each present value. All failures are collected;
    /// the run is `Ok` exactly when none arose.
    pub fn validate_submission(&self, data: &FormData) -> (r: Result<(), FormVaultError>)
        ensures
            r is Ok <==> spec_validation_errors(self.fields@, data@).len() == 0,
            r is Err ==> r->Err_0 is ValidationFailed && r->Err_0->ValidationFailed_0.deep_view()
                == spec_validation_errors(self.fields@, data@),
    {
        let mut errors: Vec<String> = Vec::new();
        let mut i: usize = 0;
        proof {
            assert(self.fields@.take(0) =~= Seq::<FieldDefinition>::empty());
            assert(errors.deep_view() =~~= spec_validation_errors(self.fields@.take(0), data@));
        }
        while i < self.fields.len()
            invariant
                i <= self.fields@.len(),
                errors.deep_view() =~~= spec_validation_errors(self.fields@.take(i as int), data@),
            decreases self.fields@.len() - i,
        {
            let ghost pre_errors = errors.deep_view();
            let field = &self.fields[i];
            let ghost fe = spec_field_errors(*field, lookup(data@, field.id@));
            let val = data.get(&field.id);
            let missing = match val {
                None => true,
                Some(v) => v.as_str().is_empty(),
            };
            if field.required && missing {
                errors.push(message_around("Field '", field.name.as_str(), "' is required"));
                proof {
                    assert(errors.deep_view() =~~= pre_errors + fe);
                }
            } else {
                match val {
                    Some(v) => {
                        match &field.field_type {
                            FieldType::Email => {
                                let bytes = v.as_str().as_bytes();
                                let has_at = contains_byte(bytes, 0x40);
                                proof {
                                    lemma_ascii_byte_containment(v@, 0x40);
                                    assert((0x40u8) as char == '@');
                                }
                                if !has_at {
                                    errors.push(
                                        message_around("Invalid email in field '", field.name.as_str(), "'"),
                                    );
                                }
                                proof {
                                    assert(errors.deep_view() =~~= pre_errors + fe);
                                }
                            },
                            FieldType::Text { max_length } => {
                                match max_length {
                                    Some(m) => {
                                        if v.as_str().as_bytes().len() > *m {
                                            errors.push(
                                                message_around(
                                                    "Field '",
                                                    field.name.as_str(),
                                                    "' exceeds maximum length",
                                                ),
                                            );
                                        }
                                    },
                                    None => {},
                                }
                                proof {
                                    assert(errors.deep_view() =~~= pre_errors + fe);
                                }
                            },
                            FieldType::Number { min, max } => {
                                match parse_decimal(v.as_str().as_bytes()) {
                                    Some(d) => {
                                        match min {
                                            Some(mn) => {
                                                if dec_below(&d, *mn) {
                                                    errors.push(
                                                        message_around(
                                                            "Number too small in field '",
                                                            field.name.as_str(),
                                                            "'",
                                                        ),
                                                    );
                                                }
                                            },
                                            None => {},
                                        }
                                        match max {
                                            Some(mx) => {
                                                if dec_above(&d, *mx) {
                                                    errors.push(
                                                        message_around(
                                                            "Number too large in field '",
                                                            field.name.as_str(),
                                                            "'",
                                                        ),
                                                    );
                                                }
                                            },
                                            None => {},
                                        }
                                    },
                                    None => {
                                        errors.push(
                                            message_around(
                                                "Invalid number in field '",
                                                field.name.as_str(),
                                                "'",
                                            ),
                                        );
                                    },
                                }
                                proof {
                                    assert(errors.deep_view() =~~= pre_errors + fe);
                                }
                            },
                            _ => {
                                proof {
                                    assert(errors.deep_view() =~~= pre_errors + fe);
                                }
                            },
                        }
                    },
                    None => {
                        proof {
                            assert(errors.deep_view() =~~= pre_errors + fe);
                        }
                    },
                }
            }
            i = i + 1;
            proof {
                lemma_validation_errors_snoc(self.fields@.take(i - 1), data@, self.fields@[i - 1]);
                assert(self.fields@.take(i - 1).push(self.fields@[i - 1]) =~= self.fields@.take(
                    i as int,
                ));
                assert(errors.deep_view() =~~= spec_validation_errors(
                    self.fields@.take(i as int),
                    data@,
                ));
            }
        }
        proof {
            assert(self.fields@.take(self.fields@.len() as int) =~= self.fields@);
        }
        if errors.len() == 0 {
            proof {
                assert(spec_validation_errors(self.fields@, data@).len() == 0);
            }
            Ok(())
        } else {
            Err(FormVaultError::ValidationFailed(errors))
        }
    }
}

} // verus!
