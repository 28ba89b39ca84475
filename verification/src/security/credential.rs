//! The in-memory store of connection passwords, keyed by credential reference.
use vstd::prelude::*;
use vstd::string::*;

use crate::ids::{is_uuid_text, new_uuid_string};
use crate::text::{concat_text, opt_text};
use crate::text_map::TextMap;

verus! {

/// The reference under which the password of a connection is kept.
pub open spec fn credential_ref_of(connection_id: Seq<char>) -> Seq<char> {
    "kafkalite:"@ + connection_id
}

/// The reference under which the password of `connection_id` is kept.
pub fn credential_ref_for(connection_id: &str) -> (r: String)
    ensures
        r@ == credential_ref_of(connection_id@),
{
    concat_text("kafkalite:", connection_id)
}

/// The password a store keeps under `credential_ref`, if any.
pub open spec fn secret_at(store: Map<Seq<char>, Seq<char>>, credential_ref: Seq<char>) -> Option<
    Seq<char>,
> {
    if store.dom().contains(credential_ref) {
        Some(store[credential_ref])
    } else {
        None
    }
}

/// The passwords of connections, by credential reference.
pub struct CredentialService {
    secrets: TextMap<String>,
}

impl View for CredentialService {
    type V = Map<Seq<char>, Seq<char>>;

    closed spec fn view(&self) -> Map<Seq<char>, Seq<char>> {
        self.secrets@.map_values(|s: String| s@)
    }
}

impl CredentialService {
    /// An empty store.
    pub fn new() -> (r: Self)
        ensures
            r@ == Map::<Seq<char>, Seq<char>>::empty(),
    {
        let r = CredentialService { secrets: TextMap::new() };
        assert(r@ =~= Map::<Seq<char>, Seq<char>>::empty());
        r
    }

    /// Keeps `password` for `connection_id` and returns the reference it is
    /// kept under; an earlier password under that reference is replaced.
    pub fn save_secret(&mut self, connection_id: &str, password: &str) -> (r: String)
        ensures
            r@ == credential_ref_of(connection_id@),
            final(self)@ == old(self)@.insert(r@, password@),
    {
        let credential_ref = credential_ref_for(connection_id);
        self.secrets.insert(credential_ref.clone(), password.to_owned());
        assert(self@ =~= old(self)@.insert(credential_ref@, password@));
        credential_ref
    }

    /// The password kept under `credential_ref`, if any.
    pub fn get_secret(&self, credential_ref: &str) -> (r: Option<String>)
        ensures
            opt_text(r) == secret_at(self@, credential_ref@),
    {
        match self.secrets.get(credential_ref) {
            Some(p) => Some(p.clone()),
            None => None,
        }
    }

    /// Forgets the password kept under `credential_ref`, if any.
    pub fn delete_secret(&mut self, credential_ref: &str)
        ensures
            final(self)@ == old(self)@.remove(credential_ref@),
    {
        let _ = self.secrets.remove(credential_ref);
        assert(self@ =~= old(self)@.remove(credential_ref@));
    }

    /// A fresh, random credential reference.
    pub fn new_credential_ref() -> (r: String)
        ensures
            exists|id: Seq<char>| is_uuid_text(id) && r@ == credential_ref_of(id),
    {
        let id = new_uuid_string();
        credential_ref_for(id.as_str())
    }
}

/// Law: a password read back after it was saved is the password saved, and
/// saving under one connection leaves every other reference as it was.
pub proof fn law_secret_read_after_save(
    before: Map<Seq<char>, Seq<char>>,
    connection_id: Seq<char>,
    password: Seq<char>,
    other: Seq<char>,
)
    ensures
        ({
            let after = before.insert(credential_ref_of(connection_id), password);
            &&& secret_at(after, credential_ref_of(connection_id)) == Some(password)
            &&& other != credential_ref_of(connection_id) ==> secret_at(after, other) == secret_at(
                before,
                other,
            )
        }),
{
}

/// Law: after a password is deleted nothing is read back under its
/// reference, and every other reference reads as before.
pub proof fn law_secret_gone_after_delete(
    before: Map<Seq<char>, Seq<char>>,
    credential_ref: Seq<char>,
    other: Seq<char>,
)
    ensures
        secret_at(before.remove(credential_ref), credential_ref) is None,
        other != credential_ref ==> secret_at(before.remove(credential_ref), other) == secret_at(
            before,
            other,
        ),
{
}

} // verus!
