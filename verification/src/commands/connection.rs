//! The decisions of the connection commands: which password is kept or
//! forgotten, and the profile a connection request describes.
use vstd::prelude::*;
use vstd::string::*;

use crate::error::AppError;
use crate::kafka::config_builder::{
    parse_bootstrap_servers, server_list, ConnectionProfile, SaveConnectionRequest,
};
use crate::security::credential::{credential_ref_of, CredentialService};
use crate::storage::chosen_id;
use crate::text::{opt_text, strings_view};

verus! {

/// The request carries a password to keep: one that is not empty.
pub open spec fn has_password(request: SaveConnectionRequest) -> bool {
    request.password matches Some(p) && p@.len() > 0
}

/// The store after keeping the request's password, if it has one, for the
/// connection `id`.
pub open spec fn store_after(
    store: Map<Seq<char>, Seq<char>>,
    request: SaveConnectionRequest,
    id: Seq<char>,
) -> Map<Seq<char>, Seq<char>> {
    match request.password {
        Some(p) => if p@.len() > 0 {
            store.insert(credential_ref_of(id), p@)
        } else {
            store
        },
        None => store,
    }
}

/// Keeps the request's password, when it has one, for its connection (the
/// requested id, or else `fresh_id`), and returns the reference it is kept
/// under.
pub fn store_request_password(
    request: &SaveConnectionRequest,
    fresh_id: String,
    credentials: &mut CredentialService,
) -> (r: Option<String>)
    ensures
        final(credentials)@ == store_after(old(credentials)@, *request, chosen_id(*request, fresh_id@)),
        opt_text(r) == if has_password(*request) {
            Some(credential_ref_of(chosen_id(*request, fresh_id@)))
        } else {
            None
        },
{
    match &request.password {
        Some(password) => {
            if password.as_str().is_empty() {
                return None;
            }
            let connection_id = match &request.id {
                Some(id) => id.clone(),
                None => fresh_id,
            };
            Some(credentials.save_secret(connection_id.as_str(), password.as_str()))
        },
        None => None,
    }
}

/// Forgets the password a profile refers to, if it refers to one.
pub fn forget_profile_secret(profile: &ConnectionProfile, credentials: &mut CredentialService)
    ensures
        final(credentials)@ == match profile.credential_ref {
            Some(r) => old(credentials)@.remove(r@),
            None => old(credentials)@,
        },
{
    if let Some(credential_ref) = &profile.credential_ref {
        credentials.delete_secret(credential_ref.as_str());
    }
}

/// The request to test a connection with; an error when there is none.
pub fn require_profile_request(request: Option<SaveConnectionRequest>) -> (r: Result<
    SaveConnectionRequest,
    AppError,
>)
    ensures
        request matches Some(q) ==> r == Ok::<SaveConnectionRequest, AppError>(q),
        request is None ==> (r matches Err(AppError::InvalidRequest(m)) && m@
            == "Connection profile is required"@),
{
    match request {
        Some(q) => Ok(q),
        None => Err(AppError::InvalidRequest("Connection profile is required".to_owned())),
    }
}

/// `p` is the profile a connection request describes, for the connection
/// `id`, with the given credential reference.
pub open spec fn describes(
    p: ConnectionProfile,
    request: SaveConnectionRequest,
    id: Seq<char>,
    credential_ref: Option<Seq<char>>,
) -> bool {
    &&& p.id@ == id
    &&& p.name@ == request.name@
    &&& strings_view(p.bootstrap_servers@) == server_list(request.bootstrap_servers@)
    &&& p.security_protocol == request.security_protocol
    &&& p.sasl_mechanism == request.sasl_mechanism
    &&& opt_text(p.username) == opt_text(request.username)
    &&& opt_text(p.credential_ref) == credential_ref
    &&& opt_text(p.ssl_ca_path) == opt_text(request.ssl_ca_path)
    &&& opt_text(p.ssl_certificate_path) == opt_text(request.ssl_certificate_path)
    &&& opt_text(p.ssl_key_path) == opt_text(request.ssl_key_path)
    &&& p.client_id@ == match request.client_id {
        Some(c) => c@,
        None => "kafkalite-test"@,
    }
    &&& p.request_timeout_ms == match request.request_timeout_ms {
        Some(t) => t,
        None => 10000,
    }
}

/// The profile a connection request describes, for testing it before it is
/// saved: its id is the requested one, or else `fresh_id`; a non-empty
/// password is kept first; an error when the request names no server.
pub fn resolve_request_profile(
    request: SaveConnectionRequest,
    fresh_id: String,
    credentials: &mut CredentialService,
) -> (r: Result<ConnectionProfile, AppError>)
    ensures
        final(credentials)@ == store_after(old(credentials)@, request, chosen_id(request, fresh_id@)),
        r is Ok <==> server_list(request.bootstrap_servers@).len() > 0,
        r matches Ok(p) ==> describes(
            p,
            request,
            chosen_id(request, fresh_id@),
            if has_password(request) {
                Some(credential_ref_of(chosen_id(request, fresh_id@)))
            } else {
                None
            },
        ),
        r matches Err(e) ==> (e matches AppError::InvalidRequest(m) && m@
            == "Bootstrap servers cannot be empty"@),
{
    let id = match &request.id {
        Some(i) => i.clone(),
        None => fresh_id.clone(),
    };
    let credential_ref = store_request_password(&request, fresh_id, credentials);
    let bootstrap_servers = match parse_bootstrap_servers(request.bootstrap_servers.as_str()) {
        Ok(v) => v,
        Err(e) => {
            return Err(e);
        },
    };
    Ok(
        ConnectionProfile {
            id,
            name: request.name,
            bootstrap_servers,
            security_protocol: request.security_protocol,
            sasl_mechanism: request.sasl_mechanism,
            username: request.username,
            credential_ref,
            ssl_ca_path: request.ssl_ca_path,
            ssl_certificate_path: request.ssl_certificate_path,
            ssl_key_path: request.ssl_key_path,
            client_id: match request.client_id {
                Some(c) => c,
                None => "kafkalite-test".to_owned(),
            },
            request_timeout_ms: match request.request_timeout_ms {
                Some(t) => t,
                None => 10000,
            },
        },
    )
}

} // verus!
