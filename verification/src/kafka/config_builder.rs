//! Connection profiles, the bootstrap server list, and the client settings a
//! profile turns into.
use vstd::prelude::*;
use vstd::string::*;

use rdkafka::ClientConfig;

use crate::error::AppError;
use crate::security::credential::{secret_at, CredentialService};
use crate::text::{
    opt_text,
    decimal_nat, is_trimmed, join_strings, lemma_split_append, lemma_split_segments_shape,
    lemma_trim_of_trimmed, lemma_trim_within, spec_trim, split_segments, strings_view, join_with, trim,
    u64_to_string,
};

verus! {

/// A saved cluster connection.
#[derive(Debug, Clone, PartialEq, Eq)]
pub struct ConnectionProfile {
    pub id: String,
    pub name: String,
    pub bootstrap_servers: Vec<String>,
    pub security_protocol: SecurityProtocol,
    pub sasl_mechanism: Option<SaslMechanism>,
    pub username: Option<String>,
    pub credential_ref: Option<String>,
    pub ssl_ca_path: Option<String>,
    pub ssl_certificate_path: Option<String>,
    pub ssl_key_path: Option<String>,
    pub client_id: String,
    pub request_timeout_ms: u64,
}

/// How the client talks to the brokers.
#[derive(Debug, Clone, Copy, PartialEq, Eq, Structural)]
pub enum SecurityProtocol {
    Plaintext,
    Ssl,
    SaslPlaintext,
    SaslSsl,
}

/// How the client authenticates over SASL.
#[derive(Debug, Clone, Copy, PartialEq, Eq, Structural)]
pub enum SaslMechanism {
    Plain,
    ScramSha256,
    ScramSha512,
}

/// A connection as the user enters it.
#[derive(Debug, Clone, PartialEq, Eq)]
pub struct SaveConnectionRequest {
    pub id: Option<String>,
    pub name: String,
    pub bootstrap_servers: String,
    pub security_protocol: SecurityProtocol,
    pub sasl_mechanism: Option<SaslMechanism>,
    pub username: Option<String>,
    pub password: Option<String>,
    pub ssl_ca_path: Option<String>,
    pub ssl_certificate_path: Option<String>,
    pub ssl_key_path: Option<String>,
    pub client_id: Option<String>,
    pub request_timeout_ms: Option<u64>,
}

/// The outcome of probing a cluster.
#[derive(Debug, Clone, PartialEq, Eq)]
pub struct TestConnectionResult {
    pub success: bool,
    pub latency_ms: u64,
    pub broker_count: usize,
    pub cluster_id: Option<String>,
    pub warnings: Vec<String>,
}

/// The name under which the client library knows a security protocol.
pub open spec fn protocol_name(p: SecurityProtocol) -> Seq<char> {
    match p {
        SecurityProtocol::Plaintext => "PLAINTEXT"@,
        SecurityProtocol::Ssl => "SSL"@,
        SecurityProtocol::SaslPlaintext => "SASL_PLAINTEXT"@,
        SecurityProtocol::SaslSsl => "SASL_SSL"@,
    }
}

/// The name under which the client library knows a SASL mechanism.
pub open spec fn mechanism_name(m: SaslMechanism) -> Seq<char> {
    match m {
        SaslMechanism::Plain => "PLAIN"@,
        SaslMechanism::ScramSha256 => "SCRAM-SHA-256"@,
        SaslMechanism::ScramSha512 => "SCRAM-SHA-512"@,
    }
}

/// Law: the protocols and mechanisms go by the names the client library
/// reads: `PLAINTEXT`, `SSL`, `SASL_PLAINTEXT`, `SASL_SSL`; `PLAIN`,
/// `SCRAM-SHA-256`, `SCRAM-SHA-512`.
pub proof fn law_client_names()
    ensures
        protocol_name(SecurityProtocol::Plaintext) == "PLAINTEXT"@,
        protocol_name(SecurityProtocol::Ssl) == "SSL"@,
        protocol_name(SecurityProtocol::SaslPlaintext) == "SASL_PLAINTEXT"@,
        protocol_name(SecurityProtocol::SaslSsl) == "SASL_SSL"@,
        mechanism_name(SaslMechanism::Plain) == "PLAIN"@,
        mechanism_name(SaslMechanism::ScramSha256) == "SCRAM-SHA-256"@,
        mechanism_name(SaslMechanism::ScramSha512) == "SCRAM-SHA-512"@,
{
}

/// The name of a security protocol.
pub fn security_protocol_str(protocol: &SecurityProtocol) -> (r: &'static str)
    ensures
        r@ == protocol_name(*protocol),
{
    match protocol {
        SecurityProtocol::Plaintext => "PLAINTEXT",
        SecurityProtocol::Ssl => "SSL",
        SecurityProtocol::SaslPlaintext => "SASL_PLAINTEXT",
        SecurityProtocol::SaslSsl => "SASL_SSL",
    }
}

/// The name of a SASL mechanism.
pub fn sasl_mechanism_str(mechanism: &SaslMechanism) -> (r: &'static str)
    ensures
        r@ == mechanism_name(*mechanism),
{
    match mechanism {
        SaslMechanism::Plain => "PLAIN",
        SaslMechanism::ScramSha256 => "SCRAM-SHA-256",
        SaslMechanism::ScramSha512 => "SCRAM-SHA-512",
    }
}

/// The servers of a list of pieces: each piece trimmed, empty ones dropped.
pub open spec fn servers_of(pieces: Seq<Seq<char>>) -> Seq<Seq<char>>
    decreases pieces.len(),
{
    if pieces.len() == 0 {
        Seq::<Seq<char>>::empty()
    } else {
        let rest = servers_of(pieces.drop_last());
        let t = spec_trim(pieces.last());
        if t.len() > 0 {
            rest.push(t)
        } else {
            rest
        }
    }
}

/// The servers named by a comma-separated list.
pub open spec fn server_list(raw: Seq<char>) -> Seq<Seq<char>> {
    servers_of(split_segments(raw, ','))
}

/// A server name as a list holds it: not empty, no white space at either end,
/// no comma.
pub open spec fn is_server_name(s: Seq<char>) -> bool {
    s.len() > 0 && is_trimmed(s) && !s.contains(',')
}

/// Every server that a list of pieces without commas yields is a server name.
pub proof fn lemma_servers_of_names(pieces: Seq<Seq<char>>)
    requires
        forall|k: int| 0 <= k < pieces.len() ==> !(#[trigger] pieces[k]).contains(','),
    ensures
        forall|k: int|
            0 <= k < servers_of(pieces).len() ==> is_server_name(#[trigger] servers_of(pieces)[k]),
    decreases pieces.len(),
{
    if pieces.len() > 0 {
        let init = pieces.drop_last();
        assert forall|k: int| 0 <= k < init.len() implies !(#[trigger] init[k]).contains(',') by {
            assert(init[k] == pieces[k]);
        }
        lemma_servers_of_names(init);
        let p = pieces.last();
        assert(!p.contains(',')) by {
            assert(pieces[pieces.len() - 1] == p);
        }
        lemma_trim_within(p);
        let t = spec_trim(p);
        let (i, j) = choose|i: int, j: int| 0 <= i <= j <= p.len() && t == #[trigger] p.subrange(i, j);
        assert(!t.contains(',')) by {
            if t.contains(',') {
                let m = choose|m: int| 0 <= m < t.len() && t[m] == ',';
                assert(p[i + m] == ',');
            }
        }
        let r = servers_of(pieces);
        let rest = servers_of(init);
        assert forall|k: int| 0 <= k < r.len() implies is_server_name(#[trigger] r[k]) by {
            if k < rest.len() {
                assert(r[k] == rest[k]);
            } else {
                assert(r[k] == t);
            }
        }
    }
}

/// The servers of a list are server names.
pub proof fn lemma_server_list_names(raw: Seq<char>)
    ensures
        forall|k: int|
            0 <= k < server_list(raw).len() ==> is_server_name(#[trigger] server_list(raw)[k]),
{
    lemma_split_segments_shape(raw, ',');
    lemma_servers_of_names(split_segments(raw, ','));
}

/// Joining server names with commas and reading the list back gives the
/// same names.
pub proof fn lemma_join_then_read(items: Seq<Seq<char>>)
    requires
        forall|k: int| 0 <= k < items.len() ==> is_server_name(#[trigger] items[k]),
    ensures
        server_list(join_with(items, ',')) == items,
    decreases items.len(),
{
    if items.len() == 0 {
        let e = Seq::<char>::empty();
        assert(join_with(items, ',') == e);
        assert(split_segments(e, ',') =~= seq![e]);
        let z = Seq::<Seq<char>>::empty();
        assert(seq![e].drop_last() =~= z);
        assert(servers_of(z) == z);
        assert(seq![e].last() == e);
        assert(spec_trim(e) =~= e);
        assert(servers_of(seq![e]) =~= Seq::<Seq<char>>::empty());
        assert(server_list(join_with(items, ',')) =~= items);
    } else if items.len() == 1 {
        let x = items[0];
        assert(is_server_name(x));
        lemma_split_append(Seq::<char>::empty(), ',', x);
        lemma_trim_of_trimmed(x);
        assert(join_with(items, ',') == x);
        assert(split_segments(Seq::<char>::empty() + seq![','] + x, ',') == split_segments(
            Seq::<char>::empty(),
            ',',
        ).push(x));
        assert(split_segments(x, ',') == seq![x]);
        let z = Seq::<Seq<char>>::empty();
        assert(seq![x].drop_last() =~= z);
        assert(servers_of(z) == z);
        assert(seq![x].last() == x);
        assert(z.push(x) =~= seq![x]);
        assert(servers_of(seq![x]) =~= seq![x]);
        assert(items =~= seq![x]);
        assert(server_list(join_with(items, ',')) =~= items);
    } else {
        let init = items.drop_last();
        let x = items.last();
        assert forall|k: int| 0 <= k < init.len() implies is_server_name(#[trigger] init[k]) by {
            assert(init[k] == items[k]);
        }
        lemma_join_then_read(init);
        assert(is_server_name(items[items.len() - 1]));
        lemma_split_append(join_with(init, ','), ',', x);
        lemma_trim_of_trimmed(x);
        let segs = split_segments(join_with(init, ','), ',').push(x);
        assert(segs.drop_last() =~= split_segments(join_with(init, ','), ','));
        assert(server_list(join_with(items, ',')) =~= items);
    }
}

/// Law: a server list written back with commas reads back as the same list.
pub proof fn law_server_list_roundtrip(raw: Seq<char>)
    ensures
        server_list(join_with(server_list(raw), ',')) == server_list(raw),
{
    lemma_server_list_names(raw);
    lemma_join_then_read(server_list(raw));
}

/// The servers named by a comma-separated list, each trimmed, empty ones
/// dropped.
pub fn split_server_list(raw: &str) -> (r: Vec<String>)
    ensures
        strings_view(r@) == server_list(raw@),
{
    let n = raw.unicode_len();
    let mut out: Vec<String> = Vec::new();
    let mut start: usize = 0;
    let mut i: usize = 0;
    assert(raw@.take(0) =~= Seq::<char>::empty());
    while i < n
        invariant
            start <= i <= n,
            n == raw@.len(),
            strings_view(out@) == servers_of(split_segments(raw@.take(i as int), ',').drop_last()),
            raw@.subrange(start as int, i as int) == split_segments(raw@.take(i as int), ',').last(),
            split_segments(raw@.take(i as int), ',').len() >= 1,
        decreases n - i,
    {
        let ghost segs = split_segments(raw@.take(i as int), ',');
        let c = raw.get_char(i);
        assert(raw@.take(i + 1).drop_last() =~= raw@.take(i as int));
        assert(raw@.take(i + 1).last() == c);
        if c == ',' {
            let piece = trim(raw.substring_char(start, i));
            if piece.unicode_len() > 0 {
                out.push(piece.to_owned());
            }
            proof {
                let segs2 = split_segments(raw@.take(i + 1), ',');
                assert(segs2 == segs.push(Seq::<char>::empty()));
                assert(segs2.drop_last() =~= segs);
                assert(segs == segs.drop_last().push(segs.last()));
                assert(strings_view(out@) =~= servers_of(segs));
                assert(raw@.subrange(i + 1, i + 1) =~= Seq::<char>::empty());
            }
            start = i + 1;
        } else {
            proof {
                let segs2 = split_segments(raw@.take(i + 1), ',');
                assert(segs2 == segs.update(segs.len() - 1, segs.last().push(c)));
                assert(segs2.drop_last() =~= segs.drop_last());
                assert(raw@.subrange(start as int, i + 1) =~= raw@.subrange(start as int, i as int).push(c));
            }
        }
        i = i + 1;
    }
    let ghost segs = split_segments(raw@.take(n as int), ',');
    let piece = trim(raw.substring_char(start, n));
    if piece.unicode_len() > 0 {
        out.push(piece.to_owned());
    }
    proof {
        assert(raw@.take(n as int) =~= raw@);
        assert(segs == segs.drop_last().push(segs.last()));
        assert(strings_view(out@) =~= servers_of(segs));
    }
    out
}

/// The servers named by a comma-separated list; an error when it names none.
pub fn parse_bootstrap_servers(raw: &str) -> (r: Result<Vec<String>, AppError>)
    ensures
        server_list(raw@).len() > 0 ==> (r matches Ok(v) && strings_view(v@) == server_list(raw@)),
        server_list(raw@).len() == 0 ==> (r matches Err(AppError::InvalidRequest(m)) && m@
            == "Bootstrap servers cannot be empty"@),
{
    let servers = split_server_list(raw);
    if servers.len() == 0 {
        return Err(AppError::InvalidRequest("Bootstrap servers cannot be empty".to_owned()));
    }
    Ok(servers)
}

/// Declares the client library's configuration map.
#[verifier::external_type_specification]
#[verifier::external_body]
pub struct ExClientConfig(ClientConfig);

/// The key/value settings that a client configuration holds.
pub uninterp spec fn client_config_entries(config: ClientConfig) -> Map<Seq<char>, Seq<char>>;

/// The settings of an empty configuration.
pub open spec fn no_settings() -> Map<Seq<char>, Seq<char>> {
    Map::empty()
}

/// An empty client configuration.
///
/// Trusted: calls `ClientConfig::new`, whose settings map starts empty.
#[verifier::external_body]
pub(crate) fn new_client_config() -> (r: ClientConfig)
    ensures
        client_config_entries(r) == no_settings(),
{
    ClientConfig::new()
}

/// Sets `key` to `value` in a client configuration.
///
/// Trusted: calls `ClientConfig::set`, which inserts the pair into its
/// settings map, replacing an earlier value of `key`.
#[verifier::external_body]
pub(crate) fn config_set(config: &mut ClientConfig, key: &str, value: &str)
    ensures
        client_config_entries(*final(config)) == client_config_entries(*old(config)).insert(
            key@,
            value@,
        ),
{
    config.set(key, value);
}

/// `m` with `key` set to the text of `v`, when there is one.
pub open spec fn insert_some(m: Map<Seq<char>, Seq<char>>, key: Seq<char>, v: Option<String>) -> Map<
    Seq<char>,
    Seq<char>,
> {
    match v {
        Some(s) => m.insert(key, s@),
        None => m,
    }
}

/// The password the store keeps for a profile's credential reference.
pub open spec fn stored_password(
    store: Map<Seq<char>, Seq<char>>,
    credential_ref: Option<String>,
) -> Option<Seq<char>> {
    match credential_ref {
        Some(r) => secret_at(store, r@),
        None => None,
    }
}

/// The settings a client for `profile` is configured with.
pub open spec fn profile_settings(profile: ConnectionProfile, password: Option<Seq<char>>) -> Map<
    Seq<char>,
    Seq<char>,
> {
    let base = Map::<Seq<char>, Seq<char>>::empty().insert(
        "bootstrap.servers"@,
        join_with(strings_view(profile.bootstrap_servers@), ','),
    ).insert("client.id"@, profile.client_id@).insert(
        "socket.timeout.ms"@,
        decimal_nat(profile.request_timeout_ms as nat),
    ).insert("security.protocol"@, protocol_name(profile.security_protocol));
    let with_mechanism = match profile.sasl_mechanism {
        Some(m) => base.insert("sasl.mechanism"@, mechanism_name(m)),
        None => base,
    };
    let with_user = insert_some(with_mechanism, "sasl.username"@, profile.username);
    let with_password = match password {
        Some(p) => with_user.insert("sasl.password"@, p),
        None => with_user,
    };
    insert_some(
        insert_some(
            insert_some(with_password, "ssl.ca.location"@, profile.ssl_ca_path),
            "ssl.certificate.location"@,
            profile.ssl_certificate_path,
        ),
        "ssl.key.location"@,
        profile.ssl_key_path,
    )
}

/// The value a settings map holds under `key`, if any.
pub open spec fn setting(m: Map<Seq<char>, Seq<char>>, key: Seq<char>) -> Option<Seq<char>> {
    if m.dom().contains(key) {
        Some(m[key])
    } else {
        None
    }
}

/// Law: the settings of a profile hold, key by key: the servers joined by
/// commas, the client id, the timeout in decimal and the protocol's name;
/// the SASL mechanism's name, user and password, and the SSL CA, client
/// certificate and client key paths, each exactly when the profile (or the
/// store, for the password) has one; and no other key.
pub proof fn law_client_settings(profile: ConnectionProfile, password: Option<Seq<char>>)
    ensures
        ({
            let m = profile_settings(profile, password);
            &&& setting(m, "bootstrap.servers"@) == Some(join_with(strings_view(profile.bootstrap_servers@), ','))
            &&& setting(m, "client.id"@) == Some(profile.client_id@)
            &&& setting(m, "socket.timeout.ms"@) == Some(decimal_nat(profile.request_timeout_ms as nat))
            &&& setting(m, "security.protocol"@) == Some(protocol_name(profile.security_protocol))
            &&& setting(m, "sasl.mechanism"@) == match profile.sasl_mechanism {
                Some(x) => Some(mechanism_name(x)),
                None => None,
            }
            &&& setting(m, "sasl.username"@) == opt_text(profile.username)
            &&& setting(m, "sasl.password"@) == password
            &&& setting(m, "ssl.ca.location"@) == opt_text(profile.ssl_ca_path)
            &&& setting(m, "ssl.certificate.location"@) == opt_text(profile.ssl_certificate_path)
            &&& setting(m, "ssl.key.location"@) == opt_text(profile.ssl_key_path)
            &&& forall|k: Seq<char>|
                #[trigger] m.dom().contains(k) ==> k == "bootstrap.servers"@ || k == "client.id"@ || k
                    == "socket.timeout.ms"@ || k == "security.protocol"@ || k == "sasl.mechanism"@ || k
                    == "sasl.username"@ || k == "sasl.password"@ || k == "ssl.ca.location"@ || k
                    == "ssl.certificate.location"@ || k == "ssl.key.location"@
        }),
{
    reveal_strlit("bootstrap.servers");
    reveal_strlit("client.id");
    reveal_strlit("socket.timeout.ms");
    reveal_strlit("security.protocol");
    reveal_strlit("sasl.mechanism");
    reveal_strlit("sasl.username");
    reveal_strlit("sasl.password");
    reveal_strlit("ssl.ca.location");
    reveal_strlit("ssl.certificate.location");
    reveal_strlit("ssl.key.location");
    assert("bootstrap.servers"@[0] != "socket.timeout.ms"@[0]);
    assert("bootstrap.servers"@[0] != "security.protocol"@[0]);
    assert("socket.timeout.ms"@[1] != "security.protocol"@[1]);
    assert("sasl.username"@[5] != "sasl.password"@[5]);
    assert("client.id"@.len() != "socket.timeout.ms"@.len());
    assert("client.id"@.len() != "security.protocol"@.len());
    assert("client.id"@.len() != "sasl.mechanism"@.len());
    assert("client.id"@.len() != "sasl.username"@.len());
    assert("client.id"@.len() != "sasl.password"@.len());
    assert("client.id"@.len() != "ssl.ca.location"@.len());
    assert("client.id"@.len() != "ssl.certificate.location"@.len());
    assert("client.id"@.len() != "ssl.key.location"@.len());
    assert("ssl.ca.location"@.len() != "ssl.certificate.location"@.len());
    assert("ssl.ca.location"@.len() != "ssl.key.location"@.len());
    let m = profile_settings(profile, password);
    assert forall|k: Seq<char>| #[trigger] m.dom().contains(k) implies k == "bootstrap.servers"@ || k
        == "client.id"@ || k == "socket.timeout.ms"@ || k == "security.protocol"@ || k
        == "sasl.mechanism"@ || k == "sasl.username"@ || k == "sasl.password"@ || k
        == "ssl.ca.location"@ || k == "ssl.certificate.location"@ || k == "ssl.key.location"@ by {
    }
}

fn set_if_some(config: &mut ClientConfig, key: &str, value: &Option<String>)
    ensures
        client_config_entries(*final(config)) == insert_some(
            client_config_entries(*old(config)),
            key@,
            *value,
        ),
{
    if let Some(v) = value {
        config_set(config, key, v.as_str());
    }
}

/// The client configuration for `profile`, with the password that
/// `credentials` keeps for it.
pub fn build_client_config(profile: &ConnectionProfile, credentials: &CredentialService) -> (r:
    ClientConfig)
    ensures
        client_config_entries(r) == profile_settings(
            *profile,
            stored_password(credentials@, profile.credential_ref),
        ),
{
    let mut config = new_client_config();
    let bootstrap = join_strings(&profile.bootstrap_servers, ',');
    config_set(&mut config, "bootstrap.servers", bootstrap.as_str());
    config_set(&mut config, "client.id", profile.client_id.as_str());
    let timeout = u64_to_string(profile.request_timeout_ms);
    config_set(&mut config, "socket.timeout.ms", timeout.as_str());
    config_set(&mut config, "security.protocol", security_protocol_str(&profile.security_protocol));
    if let Some(mechanism) = &profile.sasl_mechanism {
        config_set(&mut config, "sasl.mechanism", sasl_mechanism_str(mechanism));
    }
    set_if_some(&mut config, "sasl.username", &profile.username);
    if let Some(credential_ref) = &profile.credential_ref {
        if let Some(password) = credentials.get_secret(credential_ref.as_str()) {
            config_set(&mut config, "sasl.password", password.as_str());
        }
    }
    set_if_some(&mut config, "ssl.ca.location", &profile.ssl_ca_path);
    set_if_some(&mut config, "ssl.certificate.location", &profile.ssl_certificate_path);
    set_if_some(&mut config, "ssl.key.location", &profile.ssl_key_path);
    config
}

} // verus!
