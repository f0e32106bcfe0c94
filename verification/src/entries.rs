//! Typed form values and their grouping into entries: the categories a
//! form falls under, an opaque encrypted string, and collections of
//! submissions of one form type.

use vstd::prelude::*;
use vstd::string::StringExecFns;
use crate::bridge::{fresh_random_id, now_timestamp_millis};

verus! {

/// What kind of form a value belongs to.
pub enum FormType {
    /// A newsletter signup.
    Newsletter,
    /// A contact form.
    Contact,
    /// A survey.
    Survey,
    /// A registration form.
    Registration,
    /// A category named by the developer.
    Custom(String),
}

/// A typed form value.
pub trait Form {
    /// Which kind of form this value belongs to.
    fn form_type(&self) -> FormType;
}

/// Which component turned a value into its stored form.
pub struct Encrypter {
    /// The component's name.
    pub name: &'static str,
    /// The component's version.
    pub version: &'static str,
    /// What the component does.
    pub description: &'static str,
}

/// A value that is held only in its encrypted form.
pub trait Encrypted {
    /// The stored bytes.
    fn raw(&self) -> &[u8];

    /// What kind of content the bytes hold.
    fn content_type(&self) -> &'static str;

    /// Which component produced the bytes.
    fn encrypter(&self) -> Encrypter;
}

/// A string held in its encrypted form.
pub struct EncryptedString(pub String);

impl EncryptedString {
    /// Wraps an already-encrypted string.
    pub fn new(string: &str) -> (r: EncryptedString)
        ensures
            r.0@ == string@,
    {
        EncryptedString(string.to_owned())
    }
}

impl Encrypted for EncryptedString {
    fn raw(&self) -> &[u8] {
        self.0.as_str().as_bytes()
    }

    fn content_type(&self) -> &'static str {
        "an encrypted string"
    }

    fn encrypter(&self) -> Encrypter {
        Encrypter {
            name: "form_vault_string_encrypter",
            version: "v1",
            description: "Takes an input plaintext and uses a private key to hash it. Comes with an associated decrypter pair.",
        }
    }
}

/// A newsletter signup, held encrypted.
pub struct NewsLetter {
    name: EncryptedString,
    email: EncryptedString,
}

impl NewsLetter {
    /// What the signup holds: its name and email strings.
    pub closed spec fn spec_fields(&self) -> (Seq<char>, Seq<char>) {
        (self.name.0@, self.email.0@)
    }

    /// Wraps an already-encrypted name and email as a signup.
    pub fn new(name: &str, email: &str) -> (r: NewsLetter)
        ensures
            r.spec_fields() == (name@, email@),
    {
        NewsLetter { name: EncryptedString::new(name), email: EncryptedString::new(email) }
    }
}

impl Form for NewsLetter {
    fn form_type(&self) -> (r: FormType)
        ensures
            r is Newsletter,
    {
        FormType::Newsletter
    }
}

/// One submission of a typed form value.
pub struct Submission<T: Form> {
    /// This submission's identifier.
    pub id: u128,
    /// When the value was submitted, in Unix milliseconds.
    pub timestamp: i64,
    /// The submitted value.
    pub data: T,
}

impl<T: Form> Submission<T> {
    /// Records a value as submitted now, under a fresh identifier.
    pub fn new(data: T) -> (r: Submission<T>)
        ensures
            r.data == data,
    {
        Submission { id: fresh_random_id(), timestamp: now_timestamp_millis(), data }
    }
}

/// All submissions of one form type.
pub struct FormEntry<T: Form> {
    /// Which kind of form the entries belong to.
    pub form_type: FormType,
    /// The submissions, oldest first.
    pub submissions: Vec<Submission<T>>,
}

impl<T: Form> FormEntry<T> {
    /// An empty collection for one form type.
    pub fn new(form_type: FormType) -> (r: FormEntry<T>)
        ensures
            r.form_type == form_type,
            r.submissions@.len() == 0,
    {
        FormEntry { form_type, submissions: Vec::new() }
    }

    /// Records one more value; everything already recorded stays.
    pub fn add_submission(&mut self, data: T)
        ensures
            final(self).form_type == old(self).form_type,
            final(self).submissions@.len() == old(self).submissions@.len() + 1,
            final(self).submissions@.last().data == data,
            forall|i: int|
                0 <= i < old(self).submissions@.len() ==> final(self).submissions@[i] == old(
                    self,
                ).submissions@[i],
    {
        let submission = Submission::new(data);
        self.submissions.push(submission);
    }

    /// The submissions, oldest first.
    pub fn all(&self) -> (r: &[Submission<T>])
        ensures
            r@ == self.submissions@,
    {
        self.submissions.as_slice()
    }
}

} // verus!
