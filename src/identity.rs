//! The records kept in the vault: one identity per service, and the store
//! that maps service names to identities.
use vstd::prelude::*;

use crate::error::VaultError;

verus! {

/// A point in time: whole seconds since the Unix epoch (UTC) and the
/// nanoseconds past them.
#[derive(Debug, Clone, Copy, PartialEq, Eq, Structural)]
pub struct Timestamp {
    pub secs: i64,
    pub nanos: u32,
}

/// Relies on chrono's `From<SystemTime>` for `DateTime<Utc>` (which also
/// handles clocks set before 1970), read through `timestamp` and
/// `timestamp_subsec_nanos`: the current time. Nothing is promised of it.
#[verifier::external_body]
fn utc_now() -> (r: Timestamp) {
    let now = chrono::DateTime::<chrono::Utc>::from(std::time::SystemTime::now());
    Timestamp { secs: now.timestamp(), nanos: now.timestamp_subsec_nanos() }
}

/// A complete identity for a service.
#[derive(Debug, Clone)]
pub struct Identity {
    pub service: String,
    pub created_at: Timestamp,
    pub updated_at: Timestamp,
    pub credentials: Credentials,
    pub personal_info: Option<PersonalInfo>,
    pub notes: Option<String>,
}

/// Credentials for authentication.
#[derive(Debug, Clone)]
pub struct Credentials {
    pub username: String,
    pub password: String,
    pub email: Option<String>,
    pub alias: Option<String>,
}

/// Personal information attached to an identity.
#[derive(Debug, Clone)]
pub struct PersonalInfo {
    pub first_name: Option<String>,
    pub last_name: Option<String>,
    pub birthdate: Option<String>,
    pub address: Option<String>,
    pub phone: Option<String>,
    pub custom_fields: Vec<CustomField>,
}

/// A free-form key-value field.
#[derive(Debug, Clone)]
pub struct CustomField {
    pub key: String,
    pub value: String,
}

impl Identity {
    /// A new identity for `service`, created and updated now, with no
    /// personal information and no notes.
    pub fn new(service: String, credentials: Credentials) -> (r: Identity)
        ensures
            r.service == service,
            r.credentials == credentials,
            r.created_at == r.updated_at,
            r.personal_info is None,
            r.notes is None,
    {
        let now = utc_now();
        Identity {
            service,
            created_at: now,
            updated_at: now,
            credentials,
            personal_info: None,
            notes: None,
        }
    }

    /// Sets the update time to now; nothing else changes.
    pub fn update_timestamp(&mut self)
        ensures
            final(self).service == old(self).service,
            final(self).created_at == old(self).created_at,
            final(self).credentials == old(self).credentials,
            final(self).personal_info == old(self).personal_info,
            final(self).notes == old(self).notes,
    {
        self.updated_at = utc_now();
    }
}

impl PersonalInfo {
    /// Personal information with every field empty.
    pub fn new() -> (r: PersonalInfo)
        ensures
            r.first_name is None,
            r.last_name is None,
            r.birthdate is None,
            r.address is None,
            r.phone is None,
            r.custom_fields@.len() == 0,
    {
        PersonalInfo {
            first_name: None,
            last_name: None,
            birthdate: None,
            address: None,
            phone: None,
            custom_fields: Vec::new(),
        }
    }

    /// Appends a custom field; the other fields are unchanged.
    pub fn add_custom_field(&mut self, key: String, value: String)
        ensures
            final(self).custom_fields@ == old(self).custom_fields@.push(
                CustomField { key, value },
            ),
            final(self).first_name == old(self).first_name,
            final(self).last_name == old(self).last_name,
            final(self).birthdate == old(self).birthdate,
            final(self).address == old(self).address,
            final(self).phone == old(self).phone,
    {
        self.custom_fields.push(CustomField { key, value });
    }
}

impl Default for PersonalInfo {
    fn default() -> (r: PersonalInfo)
        ensures
            r.first_name is None,
            r.last_name is None,
            r.birthdate is None,
            r.address is None,
            r.phone is None,
            r.custom_fields@.len() == 0,
    {
        PersonalInfo::new()
    }
}

/// `a` comes strictly before `b` in lexicographic order of code points, the
/// order of Rust's strings.
pub open spec fn str_lt(a: Seq<char>, b: Seq<char>) -> bool
    decreases a.len(),
{
    if a.len() == 0 {
        b.len() > 0
    } else if b.len() == 0 {
        false
    } else if a[0] != b[0] {
        (a[0] as u32) < (b[0] as u32)
    } else {
        str_lt(a.drop_first(), b.drop_first())
    }
}

/// Every string of `v` is at most the next one.
pub open spec fn sorted_strings(v: Seq<String>) -> bool {
    forall|i: int, j: int| 0 <= i < j < v.len() ==> !str_lt(#[trigger] v[j]@, #[trigger] v[i]@)
}

/// Relies on std's `slice::sort` for `String`: it permutes the vector into
/// ascending order, which for strings is lexicographic by code point.
#[verifier::external_body]
fn sort_strings(v: &mut Vec<String>)
    ensures
        final(v)@.to_multiset() == old(v)@.to_multiset(),
        sorted_strings(final(v)@),
{
    v.sort();
}

/// The decrypted record store: service names, each with its identity.
#[derive(Debug, Clone)]
pub struct VaultData {
    pub identities: Vec<(String, Identity)>,
}

impl VaultData {
    /// The service names, in store order.
    pub open spec fn services(&self) -> Seq<String> {
        self.identities@.map_values(|e: (String, Identity)| e.0)
    }

    /// Whether an identity is stored under a service name.
    pub open spec fn has_service(&self, service: Seq<char>) -> bool {
        exists|i: int| 0 <= i < self.identities@.len() && #[trigger] self.identities@[i].0@ == service
    }

    /// No service name occurs twice.
    pub open spec fn well_formed(&self) -> bool {
        forall|i: int, j: int|
            0 <= i < j < self.identities@.len() ==> #[trigger] self.identities@[i].0@
                != #[trigger] self.identities@[j].0@
    }

    /// An empty store.
    pub fn new() -> (r: VaultData)
        ensures
            r.identities@.len() == 0,
            r.well_formed(),
    {
        VaultData { identities: Vec::new() }
    }

    /// The position of `service`, if it is stored.
    fn find(&self, service: &str) -> (r: Option<usize>)
        ensures
            r is None <==> !self.has_service(service@),
            r is Some ==> r->0 < self.identities@.len() && self.identities@[r->0 as int].0@
                == service@,
    {
        let target = service.to_owned();
        let mut i: usize = 0;
        while i < self.identities.len()
            invariant
                target@ == service@,
                i <= self.identities@.len(),
                forall|j: int| 0 <= j < i ==> #[trigger] self.identities@[j].0@ != service@,
            decreases self.identities@.len() - i,
        {
            if self.identities[i].0 == target {
                return Some(i);
            }
            i = i + 1;
        }
        None
    }

    /// Adds an identity under its own service name; fails where that name is
    /// already taken.
    pub fn add_identity(&mut self, identity: Identity) -> (r: Result<(), VaultError>)
        ensures
            r is Err <==> old(self).has_service(identity.service@),
            r is Err ==> r->Err_0 == VaultError::AlreadyExists && final(self).identities@
                == old(self).identities@,
            r is Ok ==> final(self).identities@ == old(self).identities@.push(
                (identity.service, identity),
            ),
            old(self).well_formed() ==> final(self).well_formed(),
    {
        if self.find(identity.service.as_str()).is_some() {
            return Err(VaultError::AlreadyExists);
        }
        let key = identity.service.clone();
        self.identities.push((key, identity));
        Ok(())
    }

    /// The identity stored under `service`.
    pub fn get_identity(&self, service: &str) -> (r: Result<&Identity, VaultError>)
        ensures
            r is Err <==> !self.has_service(service@),
            r is Err ==> r->Err_0 == VaultError::NotFound,
            r is Ok ==> exists|i: int|
                0 <= i < self.identities@.len() && self.identities@[i].0@ == service@ && *r->Ok_0
                    == #[trigger] self.identities@[i].1,
    {
        match self.find(service) {
            Some(i) => Ok(&self.identities[i].1),
            None => Err(VaultError::NotFound),
        }
    }

    /// All service names, in ascending order.
    pub fn list_services(&self) -> (r: Vec<String>)
        ensures
            r@.to_multiset() == self.services().to_multiset(),
            sorted_strings(r@),
    {
        let mut names: Vec<String> = Vec::new();
        let mut i: usize = 0;
        while i < self.identities.len()
            invariant
                i <= self.identities@.len(),
                names@ == self.services().take(i as int),
            decreases self.identities@.len() - i,
        {
            names.push(self.identities[i].0.clone());
            assert(self.services().take(i + 1) =~= self.services().take(i as int).push(
                self.identities@[i as int].0,
            ));
            i = i + 1;
        }
        assert(self.services().take(i as int) =~= self.services());
        sort_strings(&mut names);
        names
    }

    /// Replaces the identity stored under `service`, stamping it with the
    /// update time; fails where nothing is stored under that name.
    pub fn update_identity(&mut self, service: &str, identity: Identity) -> (r: Result<
        (),
        VaultError,
    >)
        ensures
            r is Err <==> !old(self).has_service(service@),
            r is Err ==> r->Err_0 == VaultError::NotFound && final(self).identities@
                == old(self).identities@,
            r is Ok ==> exists|i: int|
                0 <= i < old(self).identities@.len() && old(self).identities@[i].0@ == service@
                    && #[trigger] final(self).identities@[i].0 == old(self).identities@[i].0
                    && final(self).identities@ == old(self).identities@.update(
                    i,
                    final(self).identities@[i],
                ) && final(self).identities@[i].1.service == identity.service
                    && final(self).identities@[i].1.created_at == identity.created_at
                    && final(self).identities@[i].1.credentials == identity.credentials
                    && final(self).identities@[i].1.personal_info == identity.personal_info
                    && final(self).identities@[i].1.notes == identity.notes,
            old(self).well_formed() ==> final(self).well_formed(),
    {
        match self.find(service) {
            Some(i) => {
                let mut identity = identity;
                identity.update_timestamp();
                let key = self.identities[i].0.clone();
                self.identities.set(i, (key, identity));
                assert(self.identities@ =~= old(self).identities@.update(
                    i as int,
                    self.identities@[i as int],
                ));
                assert(self.identities@[i as int].0 == old(self).identities@[i as int].0);
                Ok(())
            },
            None => Err(VaultError::NotFound),
        }
    }

    /// Removes the identity stored under `service`; fails where nothing is
    /// stored under that name.
    pub fn delete_identity(&mut self, service: &str) -> (r: Result<(), VaultError>)
        ensures
            r is Err <==> !old(self).has_service(service@),
            r is Err ==> r->Err_0 == VaultError::NotFound && final(self).identities@
                == old(self).identities@,
            r is Ok ==> exists|i: int|
                0 <= i < old(self).identities@.len() && #[trigger] old(self).identities@[i].0@
                    == service@ && final(self).identities@ == old(self).identities@.remove(i),
            old(self).well_formed() ==> final(self).well_formed(),
    {
        match self.find(service) {
            Some(i) => {
                self.identities.remove(i);
                Ok(())
            },
            None => Err(VaultError::NotFound),
        }
    }
}

} // verus!
