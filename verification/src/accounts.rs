//! Account records: the base account, staff and customer profiles on top
//! of it, and the developer account that owns forms. Database reads and
//! writes of these records belong to the surrounding application; what is
//! computed about an account — key generation, key validation,
//! registration decisions, the staff record's encoding — lives here.

use vstd::prelude::*;
use vstd::string::StringExecFns;
use vstd::utf8::encode_utf8;
use vstd::bytes::{spec_u128_to_le_bytes, u128_to_le_bytes};
use crate::bridge::{fresh_random_id, now_timestamp_millis};
use crate::codec::{ascii_chars_of, spec_hex_of, hex_encode, lemma_hex_all_ascii, lemma_ascii_decode};
use crate::errors::FormVaultError;
use crate::webhook::spec_json_string;

verus! {

/// Anything with an identity and a mailbox.
pub trait Identifiable {
    /// The account's identifier.
    fn id(&self) -> u128;

    /// The account's email address.
    fn email(&self) -> &str;
}

/// The base account record.
pub struct User {
    /// The account's identifier.
    pub id: u128,
    /// The account's email address.
    pub email: String,
    /// When the account was created, in Unix milliseconds.
    pub created_at: i64,
}

impl User {
    /// Makes a new account with a fresh identifier and the current time.
    pub fn new(email: String) -> (r: User)
        ensures
            r.email == email,
    {
        User { id: fresh_random_id(), email, created_at: now_timestamp_millis() }
    }
}

impl Identifiable for User {
    fn id(&self) -> u128 {
        self.id
    }

    fn email(&self) -> &str {
        self.email.as_str()
    }
}

/// What a staff member may do.
#[derive(Clone, PartialEq, Eq, Debug)]
pub enum StaffRole {
    /// Full administrative access.
    Admin,
    /// Customer support access.
    Support,
    /// Moderates submissions and forms.
    Moderator,
    /// Manages other staff.
    Manager,
    /// A role named by the operator.
    Custom(String),
}

/// The label a role is stored under.
pub open spec fn spec_role_label(role: StaffRole) -> Seq<char> {
    match role {
        StaffRole::Admin => "Admin"@,
        StaffRole::Support => "Support"@,
        StaffRole::Moderator => "Moderator"@,
        StaffRole::Manager => "Manager"@,
        StaffRole::Custom(s) => "Custom:"@ + s@,
    }
}

/// A staff member: an account with a role and permissions.
pub struct Staff {
    /// The already-created base account.
    pub base: User,
    /// What the member does.
    pub role: StaffRole,
    /// The permissions granted to the member.
    pub permissions: Vec<String>,
}

/// The body of a JSON array of strings, comma separated.
pub open spec fn spec_json_array_body(items: Seq<Seq<char>>) -> Seq<u8>
    decreases items.len(),
{
    if items.len() == 0 {
        Seq::empty()
    } else if items.len() == 1 {
        spec_json_string(encode_utf8(items[0]))
    } else {
        spec_json_array_body(items.drop_last()) + seq![0x2cu8] + spec_json_string(
            encode_utf8(items.last()),
        )
    }
}

/// A JSON array of strings.
pub open spec fn spec_json_string_array(items: Seq<Seq<char>>) -> Seq<u8> {
    seq![0x5bu8] + spec_json_array_body(items) + seq![0x5du8]
}

impl Staff {
    /// Wraps an account as a staff member.
    pub fn new(base: User, role: StaffRole, permissions: Vec<String>) -> (r: Staff)
        ensures
            r.base == base,
            r.role == role,
            r.permissions == permissions,
    {
        Staff { base, role, permissions }
    }

    /// The label this member's role is stored under.
    pub fn role_label(&self) -> (r: String)
        ensures
            r@ == spec_role_label(self.role),
    {
        match &self.role {
            StaffRole::Admin => String::from_str("Admin"),
            StaffRole::Support => String::from_str("Support"),
            StaffRole::Moderator => String::from_str("Moderator"),
            StaffRole::Manager => String::from_str("Manager"),
            StaffRole::Custom(s) => {
                let mut out = String::from_str("Custom:");
                out.append(s.as_str());
                out
            },
        }
    }

    /// This member's permissions as a JSON array of strings, ready to be
    /// stored.
    pub fn permissions_json(&self) -> (r: Vec<u8>)
        ensures
            r@ == spec_json_string_array(self.permissions.deep_view()),
    {
        let mut out: Vec<u8> = Vec::new();
        out.push(0x5b);
        let mut i: usize = 0;
        proof {
            assert(self.permissions.deep_view().take(0) =~= Seq::<Seq<char>>::empty());
            assert(out@ =~= seq![0x5bu8] + spec_json_array_body(
                self.permissions.deep_view().take(0),
            ));
        }
        while i < self.permissions.len()
            invariant
                i <= self.permissions@.len(),
                self.permissions.deep_view().len() == self.permissions@.len(),
                out@ =~= seq![0x5bu8] + spec_json_array_body(
                    self.permissions.deep_view().take(i as int),
                ),
            decreases self.permissions@.len() - i,
        {
            if i > 0 {
                out.push(0x2c);
            }
            crate::webhook::push_json_string(&mut out, self.permissions[i].as_str());
            i = i + 1;
            proof {
                let dv = self.permissions.deep_view();
                assert(dv.take(i as int).drop_last() =~= dv.take(i - 1));
                assert(dv.take(i as int).last() == dv[i - 1]);
                assert(dv[i - 1] == self.permissions@[i - 1]@);
                assert(out@ =~= seq![0x5bu8] + spec_json_array_body(dv.take(i as int)));
            }
        }
        out.push(0x5d);
        proof {
            let dv = self.permissions.deep_view();
            assert(dv.take(dv.len() as int) =~= dv);
            assert(out@ =~= spec_json_string_array(dv));
        }
        out
    }
}

impl Identifiable for Staff {
    fn id(&self) -> u128 {
        self.base.id
    }

    fn email(&self) -> &str {
        self.base.email.as_str()
    }
}

/// A customer: an account with a plan and their form entries.
pub struct Customer {
    /// The already-created base account.
    pub base: User,
    /// The customer's full name.
    pub full_name: String,
    /// The customer's company, if any.
    pub company: Option<String>,
    /// The plan the customer subscribes to.
    pub subscription_plan: String,
    /// The customer's form entries, by identifier.
    pub form_entry_ids: Vec<u128>,
}

impl Identifiable for Customer {
    fn id(&self) -> u128 {
        self.base.id
    }

    fn email(&self) -> &str {
        self.base.email.as_str()
    }
}

/// The text of a freshly generated API key.
pub open spec fn spec_api_key_text(raw: u128) -> Seq<char> {
    "fv_"@ + ascii_chars_of(spec_hex_of(spec_u128_to_le_bytes(raw)))
}

/// A developer account: owns forms and the key pair their submissions are
/// encrypted for.
pub struct Developer {
    name: String,
    email: String,
    public_key: String,
    id: u128,
    created_at: i64,
    api_key: String,
    is_active: bool,
}

impl Developer {
    /// The developer's name, for contracts.
    pub closed spec fn spec_name(&self) -> Seq<char> {
        self.name@
    }

    /// The developer's email, for contracts.
    pub closed spec fn spec_email(&self) -> Seq<char> {
        self.email@
    }

    /// The developer's public key, for contracts.
    pub closed spec fn spec_public_key(&self) -> Seq<char> {
        self.public_key@
    }

    /// The developer's API key, for contracts.
    pub closed spec fn spec_api_key(&self) -> Seq<char> {
        self.api_key@
    }

    /// The developer's identifier, for contracts.
    pub closed spec fn spec_id(&self) -> u128 {
        self.id
    }

    /// Whether the account is active, for contracts.
    pub closed spec fn spec_is_active(&self) -> bool {
        self.is_active
    }

    /// The creation time, for contracts.
    pub closed spec fn spec_created_at(&self) -> i64 {
        self.created_at
    }

    /// A plausible public key: longer than a hundred bytes. A placeholder
    /// check, deliberately shallow.
    pub open spec fn spec_valid_public_key(key: Seq<char>) -> bool {
        encode_utf8(key).len() > 100
    }

    /// Makes a new active developer with a fresh identifier, a fresh API
    /// key, and the current time.
    pub fn new(name: String, email: String, public_key: String) -> (r: Developer)
        ensures
            r.spec_name() == name@,
            r.spec_email() == email@,
            r.spec_public_key() == public_key@,
            r.spec_is_active(),
            exists|raw: u128| r.spec_api_key() == spec_api_key_text(raw),
    {
        Developer {
            name,
            email,
            public_key,
            id: fresh_random_id(),
            created_at: now_timestamp_millis(),
            api_key: Self::generate_api_key(),
            is_active: true,
        }
    }

    /// Rebuilds a developer from an already-stored record, exactly as
    /// given.
    pub fn from_record(
        name: String,
        email: String,
        public_key: String,
        id: u128,
        created_at: i64,
        api_key: String,
        is_active: bool,
    ) -> (r: Developer)
        ensures
            r.spec_name() == name@,
            r.spec_email() == email@,
            r.spec_public_key() == public_key@,
            r.spec_id() == id,
            r.spec_created_at() == created_at,
            r.spec_api_key() == api_key@,
            r.spec_is_active() == is_active,
    {
        Developer { name, email, public_key, id, created_at, api_key, is_active }
    }

    /// Draws a fresh random API key: `fv_` and thirty-two hexadecimal
    /// digits. Public so that callers that persist a key before adopting
    /// it can draw one.
    pub fn generate_api_key() -> (r: String)
        ensures
            exists|raw: u128| r@ == spec_api_key_text(raw),
    {
        let raw = fresh_random_id();
        let ghost raw0 = raw;
        let bytes = u128_to_le_bytes(raw);
        let hex = hex_encode(bytes.as_slice());
        proof {
            lemma_hex_all_ascii(bytes@);
            lemma_ascii_decode(hex@);
        }
        let tail = match crate::bridge::string_from_utf8(hex) {
            Some(s) => s,
            None => {
                proof {
                    assert(false);
                }
                String::new()
            },
        };
        let mut out = String::from_str("fv_");
        out.append(tail.as_str());
        proof {
            assert(out@ == spec_api_key_text(raw0));
        }
        out
    }

    /// Whether a public key looks plausible. A placeholder check,
    /// deliberately shallow: longer than a hundred bytes.
    pub fn is_valid_public_key(key: &str) -> (r: bool)
        ensures
            r == Self::spec_valid_public_key(key@),
    {
        key.as_bytes().len() > 100
    }

    /// The registration decision: a new developer may be created when the
    /// email is free and the public key looks plausible. The store lookup
    /// behind `email_taken` belongs to the surrounding application.
    pub fn create_unique(name: String, email: String, public_key: String, email_taken: bool) -> (r:
        Result<Developer, FormVaultError>)
        ensures
            email_taken <==> (r is Err && r->Err_0 is DuplicateEmail),
            !email_taken && !Self::spec_valid_public_key(public_key@) <==> (r is Err && r->Err_0
                is InvalidPublicKey),
            r is Ok ==> r->Ok_0.spec_name() == name@ && r->Ok_0.spec_email() == email@
                && r->Ok_0.spec_public_key() == public_key@ && r->Ok_0.spec_is_active(),
            r is Ok ==> exists|raw: u128| r->Ok_0.spec_api_key() == spec_api_key_text(raw),
    {
        if email_taken {
            return Err(FormVaultError::DuplicateEmail);
        }
        if !Self::is_valid_public_key(public_key.as_str()) {
            return Err(FormVaultError::InvalidPublicKey);
        }
        Ok(Self::new(name, email, public_key))
    }

    /// The authentication decision over a store lookup by API key: the
    /// developer when one was found, `Unauthorized` when none was.
    pub fn authenticate(lookup: Option<Developer>) -> (r: Result<Developer, FormVaultError>)
        ensures
            match lookup {
                Some(d) => r is Ok && r->Ok_0 == d,
                None => r is Err && r->Err_0 is Unauthorized,
            },
    {
        match lookup {
            Some(developer) => Ok(developer),
            None => Err(FormVaultError::Unauthorized),
        }
    }

    /// Replaces the public key after a rotation, when the new key looks
    /// plausible; refused otherwise, unchanged.
    pub fn update_public_key(&mut self, new_public_key: String) -> (r: Result<(), FormVaultError>)
        ensures
            Self::spec_valid_public_key(new_public_key@) <==> r is Ok,
            r is Ok ==> final(self).spec_public_key() == new_public_key@,
            r is Err ==> *final(self) == *old(self) && r->Err_0 is InvalidPublicKey,
            final(self).spec_name() == old(self).spec_name(),
            final(self).spec_email() == old(self).spec_email(),
            final(self).spec_api_key() == old(self).spec_api_key(),
            final(self).spec_id() == old(self).spec_id(),
            final(self).spec_is_active() == old(self).spec_is_active(),
    {
        if !Self::is_valid_public_key(new_public_key.as_str()) {
            return Err(FormVaultError::InvalidPublicKey);
        }
        self.public_key = new_public_key;
        Ok(())
    }

    /// Installs an already-generated API key: for callers that persist the
    /// new key first and adopt it only once the store accepted it.
    pub fn set_api_key(&mut self, new_key: String)
        ensures
            final(self).spec_api_key() == new_key@,
            final(self).spec_name() == old(self).spec_name(),
            final(self).spec_email() == old(self).spec_email(),
            final(self).spec_public_key() == old(self).spec_public_key(),
            final(self).spec_id() == old(self).spec_id(),
            final(self).spec_created_at() == old(self).spec_created_at(),
            final(self).spec_is_active() == old(self).spec_is_active(),
    {
        self.api_key = new_key;
    }

    /// Replaces the API key with a fresh one, for use when a key leaks,
    /// and hands the new key back.
    pub fn regenerate_api_key(&mut self) -> (r: String)
        ensures
            final(self).spec_api_key() == r@,
            exists|raw: u128| r@ == spec_api_key_text(raw),
            final(self).spec_name() == old(self).spec_name(),
            final(self).spec_email() == old(self).spec_email(),
            final(self).spec_public_key() == old(self).spec_public_key(),
            final(self).spec_id() == old(self).spec_id(),
            final(self).spec_is_active() == old(self).spec_is_active(),
    {
        let new_key = Self::generate_api_key();
        self.api_key = new_key.clone();
        new_key
    }

    /// Turns the account off.
    pub fn deactivate(&mut self)
        ensures
            !final(self).spec_is_active(),
            final(self).spec_name() == old(self).spec_name(),
            final(self).spec_email() == old(self).spec_email(),
            final(self).spec_public_key() == old(self).spec_public_key(),
            final(self).spec_api_key() == old(self).spec_api_key(),
            final(self).spec_id() == old(self).spec_id(),
    {
        self.is_active = false;
    }

    /// The developer's identifier.
    pub fn id(&self) -> (r: u128)
        ensures
            r == self.spec_id(),
    {
        self.id
    }

    /// The developer's display name.
    pub fn name(&self) -> (r: &str)
        ensures
            r@ == self.spec_name(),
    {
        self.name.as_str()
    }

    /// The developer's email address.
    pub fn email(&self) -> (r: &str)
        ensures
            r@ == self.spec_email(),
    {
        self.email.as_str()
    }

    /// The developer's public key.
    pub fn public_key(&self) -> (r: &str)
        ensures
            r@ == self.spec_public_key(),
    {
        self.public_key.as_str()
    }

    /// The developer's API key.
    pub fn api_key(&self) -> (r: &str)
        ensures
            r@ == self.spec_api_key(),
    {
        self.api_key.as_str()
    }

    /// Whether the account is active.
    pub fn is_active(&self) -> (r: bool)
        ensures
            r == self.spec_is_active(),
    {
        self.is_active
    }

    /// When the account was created, in Unix milliseconds.
    pub fn created_at(&self) -> (r: i64)
        ensures
            r == self.spec_created_at(),
    {
        self.created_at
    }
}

} // verus!
