//! The row in which a connection is stored, how a saved request becomes that
//! row, and how a row is read back as a profile.
use vstd::prelude::*;
use vstd::string::*;
use vstd::utf8::*;

use crate::error::AppError;
use crate::kafka::config_builder::{
    law_server_list_roundtrip, mechanism_name, parse_bootstrap_servers, protocol_name,
    sasl_mechanism_str, security_protocol_str, server_list, split_server_list, ConnectionProfile,
    SaslMechanism, SaveConnectionRequest, SecurityProtocol,
};
use crate::text::{
    concat_text, join_strings, join_with, opt_text, prefix_on_boundary, same_text, strings_view,
    utf8_prefix, utf8_prefix_of,
};

verus! {

/// The stored columns of a connection.
#[derive(Debug, Clone, PartialEq, Eq)]
pub struct ConnectionRecord {
    pub id: String,
    pub name: String,
    pub bootstrap_servers: String,
    pub security_protocol: String,
    pub sasl_mechanism: Option<String>,
    pub username: Option<String>,
    pub credential_ref: Option<String>,
    pub ssl_ca_path: Option<String>,
    pub ssl_certificate_path: Option<String>,
    pub ssl_key_path: Option<String>,
    pub client_id: String,
    pub timeout_ms: i64,
}

/// The security protocol a stored name stands for; an unknown name reads as
/// plaintext.
pub open spec fn parse_protocol(s: Seq<char>) -> SecurityProtocol {
    if s == "SSL"@ {
        SecurityProtocol::Ssl
    } else if s == "SASL_PLAINTEXT"@ {
        SecurityProtocol::SaslPlaintext
    } else if s == "SASL_SSL"@ {
        SecurityProtocol::SaslSsl
    } else {
        SecurityProtocol::Plaintext
    }
}

/// The SASL mechanism a stored name stands for; an unknown name reads as
/// `PLAIN`.
pub open spec fn parse_mechanism(s: Seq<char>) -> SaslMechanism {
    if s == "SCRAM-SHA-256"@ {
        SaslMechanism::ScramSha256
    } else if s == "SCRAM-SHA-512"@ {
        SaslMechanism::ScramSha512
    } else {
        SaslMechanism::Plain
    }
}

/// The security protocol a stored name stands for.
pub fn parse_security_protocol(raw: &str) -> (r: SecurityProtocol)
    ensures
        r == parse_protocol(raw@),
{
    if same_text(raw, "SSL") {
        SecurityProtocol::Ssl
    } else if same_text(raw, "SASL_PLAINTEXT") {
        SecurityProtocol::SaslPlaintext
    } else if same_text(raw, "SASL_SSL") {
        SecurityProtocol::SaslSsl
    } else {
        SecurityProtocol::Plaintext
    }
}

/// The SASL mechanism a stored name stands for.
pub fn parse_sasl_mechanism(raw: &str) -> (r: SaslMechanism)
    ensures
        r == parse_mechanism(raw@),
{
    if same_text(raw, "SCRAM-SHA-256") {
        SaslMechanism::ScramSha256
    } else if same_text(raw, "SCRAM-SHA-512") {
        SaslMechanism::ScramSha512
    } else {
        SaslMechanism::Plain
    }
}

/// Law: a security protocol written by its name reads back as itself.
pub proof fn law_protocol_name_roundtrip(p: SecurityProtocol)
    ensures
        parse_protocol(protocol_name(p)) == p,
{
    reveal_strlit("PLAINTEXT");
    reveal_strlit("SSL");
    reveal_strlit("SASL_PLAINTEXT");
    reveal_strlit("SASL_SSL");
    assert("PLAINTEXT"@.len() != "SSL"@.len());
    assert("PLAINTEXT"@[0] != "SASL_PLAINTEXT"@[0]);
    assert("PLAINTEXT"@.len() != "SASL_SSL"@.len());
    assert("SASL_PLAINTEXT"@.len() != "SSL"@.len());
    assert("SASL_SSL"@.len() != "SSL"@.len());
    assert("SASL_SSL"@.len() != "SASL_PLAINTEXT"@.len());
}

/// Law: a SASL mechanism written by its name reads back as itself.
pub proof fn law_mechanism_name_roundtrip(m: SaslMechanism)
    ensures
        parse_mechanism(mechanism_name(m)) == m,
{
    reveal_strlit("PLAIN");
    reveal_strlit("SCRAM-SHA-256");
    reveal_strlit("SCRAM-SHA-512");
    assert("PLAIN"@.len() != "SCRAM-SHA-256"@.len());
    assert("PLAIN"@.len() != "SCRAM-SHA-512"@.len());
    assert("SCRAM-SHA-256"@[11] != "SCRAM-SHA-512"@[11]);
}

/// The timeout a connection gets when the request gives none.
pub open spec fn default_timeout_ms() -> u64 {
    10000
}

/// The client id a connection gets when the request gives none: `kafkalite-`
/// and the first eight bytes of the connection id.
pub open spec fn default_client_id(id: Seq<char>) -> Seq<char> {
    "kafkalite-"@ + utf8_prefix(id, 8)
}

/// The id a saved connection gets: the requested one, or else a fresh one.
pub open spec fn chosen_id(request: SaveConnectionRequest, fresh_id: Seq<char>) -> Seq<char> {
    match request.id {
        Some(i) => i@,
        None => fresh_id,
    }
}

/// The saved connection's id is one whose default client id can be taken.
pub open spec fn client_id_takeable(request: SaveConnectionRequest, fresh_id: Seq<char>) -> bool {
    request.client_id is None ==> {
        &&& encode_utf8(chosen_id(request, fresh_id)).len() <= usize::MAX
        &&& prefix_on_boundary(chosen_id(request, fresh_id), 8)
    }
}

/// `rec` is the row that saving `request` writes.
pub open spec fn is_record_of(
    rec: ConnectionRecord,
    request: SaveConnectionRequest,
    fresh_id: Seq<char>,
    credential_ref: Option<Seq<char>>,
) -> bool {
    let id = chosen_id(request, fresh_id);
    &&& rec.id@ == id
    &&& rec.name@ == request.name@
    &&& rec.bootstrap_servers@ == join_with(server_list(request.bootstrap_servers@), ',')
    &&& rec.security_protocol@ == protocol_name(request.security_protocol)
    &&& opt_text(rec.sasl_mechanism) == match request.sasl_mechanism {
        Some(m) => Some(mechanism_name(m)),
        None => None,
    }
    &&& opt_text(rec.username) == opt_text(request.username)
    &&& opt_text(rec.credential_ref) == credential_ref
    &&& opt_text(rec.ssl_ca_path) == opt_text(request.ssl_ca_path)
    &&& opt_text(rec.ssl_certificate_path) == opt_text(request.ssl_certificate_path)
    &&& opt_text(rec.ssl_key_path) == opt_text(request.ssl_key_path)
    &&& rec.client_id@ == match request.client_id {
        Some(c) => c@,
        None => default_client_id(id),
    }
    &&& rec.timeout_ms == (match request.request_timeout_ms {
        Some(t) => t,
        None => default_timeout_ms(),
    }) as i64
}

/// The row that saving `request` writes: its id is the requested one, or
/// else `fresh_id`; the bootstrap servers are normalised; an error when the
/// request names no server.
pub fn connection_record(
    request: SaveConnectionRequest,
    fresh_id: String,
    credential_ref: Option<String>,
) -> (r: Result<ConnectionRecord, AppError>)
    requires
        server_list(request.bootstrap_servers@).len() > 0 ==> client_id_takeable(request, fresh_id@),
    ensures
        r is Ok <==> server_list(request.bootstrap_servers@).len() > 0,
        r matches Ok(rec) ==> is_record_of(rec, request, fresh_id@, opt_text(credential_ref)),
        r matches Err(e) ==> (e matches AppError::InvalidRequest(m) && m@
            == "Bootstrap servers cannot be empty"@),
{
    let servers = match parse_bootstrap_servers(request.bootstrap_servers.as_str()) {
        Ok(v) => v,
        Err(e) => {
            return Err(e);
        },
    };
    let bootstrap_servers = join_strings(&servers, ',');
    let id = match request.id {
        Some(i) => i,
        None => fresh_id,
    };
    let sasl_mechanism = match &request.sasl_mechanism {
        Some(m) => Some(sasl_mechanism_str(m).to_owned()),
        None => None,
    };
    let client_id = match request.client_id {
        Some(c) => c,
        None => concat_text("kafkalite-", utf8_prefix_of(id.as_str(), 8)),
    };
    let timeout: u64 = match request.request_timeout_ms {
        Some(t) => t,
        None => 10000,
    };
    Ok(
        ConnectionRecord {
            id,
            name: request.name,
            bootstrap_servers,
            security_protocol: security_protocol_str(&request.security_protocol).to_owned(),
            sasl_mechanism,
            username: request.username,
            credential_ref,
            ssl_ca_path: request.ssl_ca_path,
            ssl_certificate_path: request.ssl_certificate_path,
            ssl_key_path: request.ssl_key_path,
            client_id,
            timeout_ms: timeout as i64,
        },
    )
}

/// `p` is the profile that reading the row `rec` gives.
pub open spec fn is_profile_of(p: ConnectionProfile, rec: ConnectionRecord) -> bool {
    &&& p.id@ == rec.id@
    &&& p.name@ == rec.name@
    &&& strings_view(p.bootstrap_servers@) == server_list(rec.bootstrap_servers@)
    &&& p.security_protocol == parse_protocol(rec.security_protocol@)
    &&& p.sasl_mechanism == match rec.sasl_mechanism {
        Some(s) => Some(parse_mechanism(s@)),
        None => None,
    }
    &&& opt_text(p.username) == opt_text(rec.username)
    &&& opt_text(p.credential_ref) == opt_text(rec.credential_ref)
    &&& opt_text(p.ssl_ca_path) == opt_text(rec.ssl_ca_path)
    &&& opt_text(p.ssl_certificate_path) == opt_text(rec.ssl_certificate_path)
    &&& opt_text(p.ssl_key_path) == opt_text(rec.ssl_key_path)
    &&& p.client_id@ == rec.client_id@
    &&& p.request_timeout_ms == rec.timeout_ms as u64
}

/// The profile that a stored row reads back as.
pub fn profile_from_record(rec: ConnectionRecord) -> (r: ConnectionProfile)
    ensures
        is_profile_of(r, rec),
{
    let bootstrap_servers = split_server_list(rec.bootstrap_servers.as_str());
    let security_protocol = parse_security_protocol(rec.security_protocol.as_str());
    let sasl_mechanism = match &rec.sasl_mechanism {
        Some(s) => Some(parse_sasl_mechanism(s.as_str())),
        None => None,
    };
    ConnectionProfile {
        id: rec.id,
        name: rec.name,
        bootstrap_servers,
        security_protocol,
        sasl_mechanism,
        username: rec.username,
        credential_ref: rec.credential_ref,
        ssl_ca_path: rec.ssl_ca_path,
        ssl_certificate_path: rec.ssl_certificate_path,
        ssl_key_path: rec.ssl_key_path,
        client_id: rec.client_id,
        request_timeout_ms: rec.timeout_ms as u64,
    }
}

/// Law: a connection saved from a request reads back as the profile the
/// request describes: the same id, name, protocol, mechanism, user, paths and
/// client id, the normalised server list, the credential reference it was
/// saved with, and the requested (or default) timeout.
pub proof fn law_saved_connection_reads_back(
    request: SaveConnectionRequest,
    fresh_id: Seq<char>,
    credential_ref: Option<Seq<char>>,
    rec: ConnectionRecord,
    p: ConnectionProfile,
)
    requires
        is_record_of(rec, request, fresh_id, credential_ref),
        is_profile_of(p, rec),
    ensures
        p.id@ == chosen_id(request, fresh_id),
        p.name@ == request.name@,
        strings_view(p.bootstrap_servers@) == server_list(request.bootstrap_servers@),
        p.security_protocol == request.security_protocol,
        p.sasl_mechanism == request.sasl_mechanism,
        opt_text(p.username) == opt_text(request.username),
        opt_text(p.credential_ref) == credential_ref,
        opt_text(p.ssl_ca_path) == opt_text(request.ssl_ca_path),
        opt_text(p.ssl_certificate_path) == opt_text(request.ssl_certificate_path),
        opt_text(p.ssl_key_path) == opt_text(request.ssl_key_path),
        p.client_id@ == match request.client_id {
            Some(c) => c@,
            None => default_client_id(chosen_id(request, fresh_id)),
        },
        p.request_timeout_ms == match request.request_timeout_ms {
            Some(t) => t,
            None => default_timeout_ms(),
        },
{
    law_server_list_roundtrip(request.bootstrap_servers@);
    law_protocol_name_roundtrip(request.security_protocol);
    if let Some(m) = request.sasl_mechanism {
        law_mechanism_name_roundtrip(m);
    }
    let t: u64 = match request.request_timeout_ms {
        Some(t) => t,
        None => default_timeout_ms(),
    };
    assert(((t as i64) as u64) == t) by (bit_vector);
}

/// A stored connection row with the times it was first and last written.
#[derive(Debug, Clone, PartialEq, Eq)]
pub struct StoredConnection {
    pub record: ConnectionRecord,
    pub created_at: i64,
    pub updated_at: i64,
}

/// The credential reference a re-saved row keeps: the new one, or else the
/// one already stored.
pub open spec fn kept_credential(stored: Option<StoredConnection>, rec: ConnectionRecord) -> Option<
    String,
> {
    match rec.credential_ref {
        Some(c) => Some(c),
        None => match stored {
            Some(s) => s.record.credential_ref,
            None => None,
        },
    }
}

/// The row the table holds after `rec` is written at `now` over the row
/// `stored` of the same id, if there is one: the new columns, except that a
/// missing credential reference keeps the stored one, and the creation time
/// of the stored row.
pub open spec fn upserted(stored: Option<StoredConnection>, rec: ConnectionRecord, now: i64) -> StoredConnection {
    StoredConnection {
        record: ConnectionRecord { credential_ref: kept_credential(stored, rec), ..rec },
        created_at: match stored {
            Some(s) => s.created_at,
            None => now,
        },
        updated_at: now,
    }
}

/// The row to store when `rec` is written at `now` over the row `stored`
/// found under its id, if any.
pub fn upsert_connection(stored: Option<StoredConnection>, rec: ConnectionRecord, now: i64) -> (r:
    StoredConnection)
    ensures
        r == upserted(stored, rec, now),
{
    let (kept, created_at) = match stored {
        Some(s) => (s.record.credential_ref, s.created_at),
        None => (None, now),
    };
    let ConnectionRecord {
        id,
        name,
        bootstrap_servers,
        security_protocol,
        sasl_mechanism,
        username,
        credential_ref,
        ssl_ca_path,
        ssl_certificate_path,
        ssl_key_path,
        client_id,
        timeout_ms,
    } = rec;
    let credential_ref = match credential_ref {
        Some(c) => Some(c),
        None => kept,
    };
    StoredConnection {
        record: ConnectionRecord {
            id,
            name,
            bootstrap_servers,
            security_protocol,
            sasl_mechanism,
            username,
            credential_ref,
            ssl_ca_path,
            ssl_certificate_path,
            ssl_key_path,
            client_id,
            timeout_ms,
        },
        created_at,
        updated_at: now,
    }
}

/// Law: saving a connection again without a password keeps the credential
/// reference already stored and its creation time, and reads back with that
/// reference; saving with a new reference replaces it.
pub proof fn law_resave_keeps_credential(
    stored: StoredConnection,
    rec: ConnectionRecord,
    now: i64,
    p: ConnectionProfile,
)
    requires
        is_profile_of(p, upserted(Some(stored), rec, now).record),
    ensures
        upserted(Some(stored), rec, now).created_at == stored.created_at,
        upserted(Some(stored), rec, now).updated_at == now,
        opt_text(p.credential_ref) == if rec.credential_ref is Some {
            opt_text(rec.credential_ref)
        } else {
            opt_text(stored.record.credential_ref)
        },
        p.id@ == rec.id@,
        p.name@ == rec.name@,
{
}

/// Law: saving a connection again stores every column of the new row; only
/// a missing credential reference falls back to the stored one.
pub proof fn law_resave_stores_new_columns(
    stored: Option<StoredConnection>,
    rec: ConnectionRecord,
    now: i64,
)
    ensures
        ({
            let row = upserted(stored, rec, now).record;
            &&& row.id == rec.id
            &&& row.name == rec.name
            &&& row.bootstrap_servers == rec.bootstrap_servers
            &&& row.security_protocol == rec.security_protocol
            &&& row.sasl_mechanism == rec.sasl_mechanism
            &&& row.username == rec.username
            &&& row.ssl_ca_path == rec.ssl_ca_path
            &&& row.ssl_certificate_path == rec.ssl_certificate_path
            &&& row.ssl_key_path == rec.ssl_key_path
            &&& row.client_id == rec.client_id
            &&& row.timeout_ms == rec.timeout_ms
            &&& rec.credential_ref is Some ==> row.credential_ref == rec.credential_ref
            &&& rec.credential_ref is None ==> row.credential_ref == match stored {
                Some(s) => s.record.credential_ref,
                None => None,
            }
        }),
        upserted(stored, rec, now).updated_at == now,
        upserted(stored, rec, now).created_at == match stored {
            Some(s) => s.created_at,
            None => now,
        },
{
}

} // verus!
