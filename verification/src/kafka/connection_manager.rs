//! The open connections: one bundle of clients per connected profile, one of
//! them active, and how client errors are classified.
use vstd::prelude::*;
use vstd::string::*;

use rdkafka::ClientConfig;

use crate::error::AppError;
use crate::kafka::config_builder::{
    build_client_config, client_config_entries, config_set, profile_settings, stored_password,
    ConnectionProfile, TestConnectionResult,
};
use crate::security::credential::CredentialService;
use crate::text::{
    concat_text, contains, copy_opt_string, copy_strings, lowercased, spec_contains, to_lowercase,
};
use crate::text_map::TextMap;

verus! {

/// A connected profile and the clients made for it.
pub struct ClientBundle<C> {
    pub profile: ConnectionProfile,
    pub clients: C,
}

/// `a` and `b` hold the same profile.
pub open spec fn same_profile(a: ConnectionProfile, b: ConnectionProfile) -> bool {
    &&& a.id == b.id
    &&& a.name == b.name
    &&& a.bootstrap_servers@ == b.bootstrap_servers@
    &&& a.security_protocol == b.security_protocol
    &&& a.sasl_mechanism == b.sasl_mechanism
    &&& a.username == b.username
    &&& a.credential_ref == b.credential_ref
    &&& a.ssl_ca_path == b.ssl_ca_path
    &&& a.ssl_certificate_path == b.ssl_certificate_path
    &&& a.ssl_key_path == b.ssl_key_path
    &&& a.client_id == b.client_id
    &&& a.request_timeout_ms == b.request_timeout_ms
}

/// A copy of a profile.
pub fn copy_profile(p: &ConnectionProfile) -> (r: ConnectionProfile)
    ensures
        same_profile(r, *p),
{
    ConnectionProfile {
        id: p.id.clone(),
        name: p.name.clone(),
        bootstrap_servers: copy_strings(&p.bootstrap_servers),
        security_protocol: p.security_protocol,
        sasl_mechanism: p.sasl_mechanism,
        username: copy_opt_string(&p.username),
        credential_ref: copy_opt_string(&p.credential_ref),
        ssl_ca_path: copy_opt_string(&p.ssl_ca_path),
        ssl_certificate_path: copy_opt_string(&p.ssl_certificate_path),
        ssl_key_path: copy_opt_string(&p.ssl_key_path),
        client_id: p.client_id.clone(),
        request_timeout_ms: p.request_timeout_ms,
    }
}

/// The connected profiles by id, and the active one.
pub struct ConnectionManager<C> {
    active_id: Option<String>,
    bundles: TextMap<ClientBundle<C>>,
}

/// The profile of the active connection, when there is one.
pub open spec fn active_profile_of<C>(
    active: Option<Seq<char>>,
    bundles: Map<Seq<char>, ClientBundle<C>>,
) -> Option<ConnectionProfile> {
    match active {
        Some(id) => if bundles.dom().contains(id) {
            Some(bundles[id].profile)
        } else {
            None
        },
        None => None,
    }
}

impl<C> ConnectionManager<C> {
    /// The id of the active connection.
    pub closed spec fn active(&self) -> Option<Seq<char>> {
        match self.active_id {
            Some(id) => Some(id@),
            None => None,
        }
    }

    /// The connected bundles by connection id.
    pub closed spec fn bundles(&self) -> Map<Seq<char>, ClientBundle<C>> {
        self.bundles@
    }

    /// No connection.
    pub fn new() -> (r: Self)
        ensures
            r.active() is None,
            r.bundles() == Map::<Seq<char>, ClientBundle<C>>::empty(),
    {
        ConnectionManager { active_id: None, bundles: TextMap::new() }
    }

    /// The profile of the active connection, if any.
    pub fn active_profile(&self) -> (r: Option<&ConnectionProfile>)
        ensures
            match r {
                Some(p) => active_profile_of(self.active(), self.bundles()) == Some(*p),
                None => active_profile_of(self.active(), self.bundles()) is None,
            },
    {
        match &self.active_id {
            Some(id) => match self.bundles.get(id.as_str()) {
                Some(bundle) => Some(&bundle.profile),
                None => None,
            },
            None => None,
        }
    }

    /// The bundle of a connection; an error when it is not connected.
    pub fn bundle(&self, connection_id: &str) -> (r: Result<&ClientBundle<C>, AppError>)
        ensures
            self.bundles().dom().contains(connection_id@) ==> (r matches Ok(b) && *b
                == self.bundles()[connection_id@]),
            !self.bundles().dom().contains(connection_id@) ==> r == Err::<
                &ClientBundle<C>,
                AppError,
            >(AppError::NotConnected),
    {
        match self.bundles.get(connection_id) {
            Some(b) => Ok(b),
            None => Err(AppError::NotConnected),
        }
    }

    /// A copy of a connection's profile; an error when it is not connected.
    pub fn get_profile(&self, connection_id: &str) -> (r: Result<ConnectionProfile, AppError>)
        ensures
            self.bundles().dom().contains(connection_id@) ==> (r matches Ok(p) && same_profile(
                p,
                self.bundles()[connection_id@].profile,
            )),
            !self.bundles().dom().contains(connection_id@) ==> r == Err::<
                ConnectionProfile,
                AppError,
            >(AppError::NotConnected),
    {
        match self.bundles.get(connection_id) {
            Some(b) => Ok(copy_profile(&b.profile)),
            None => Err(AppError::NotConnected),
        }
    }

    /// Connects `profile` with the clients made for it, replacing an earlier
    /// connection of the same id, and makes it the active one.
    pub fn connect(&mut self, profile: ConnectionProfile, clients: C)
        ensures
            final(self).active() == Some(profile.id@),
            final(self).bundles() == old(self).bundles().insert(
                profile.id@,
                ClientBundle { profile, clients },
            ),
    {
        let id = profile.id.clone();
        let key = profile.id.clone();
        self.bundles.insert(key, ClientBundle { profile, clients });
        self.active_id = Some(id);
    }

    /// Drops a connection; when it was the active one, none is active.
    pub fn disconnect(&mut self, connection_id: &str)
        ensures
            final(self).bundles() == old(self).bundles().remove(connection_id@),
            old(self).active() == Some(connection_id@) ==> final(self).active() is None,
            old(self).active() != Some(connection_id@) ==> final(self).active() == old(self).active(),
    {
        let _ = self.bundles.remove(connection_id);
        let clear = match &self.active_id {
            Some(id) => crate::text::same_text(id.as_str(), connection_id),
            None => false,
        };
        if clear {
            self.active_id = None;
        }
    }
}

/// Law: after connecting a profile, it is the active profile and the one
/// read back under its id; after disconnecting an id, nothing is connected
/// under it and, if it was active, nothing is active.
pub proof fn law_connect_disconnect<C>(
    bundles: Map<Seq<char>, ClientBundle<C>>,
    active: Option<Seq<char>>,
    profile: ConnectionProfile,
    clients: C,
    id: Seq<char>,
)
    ensures
        ({
            let after = bundles.insert(profile.id@, ClientBundle { profile, clients });
            &&& active_profile_of(Some(profile.id@), after) == Some(profile)
            &&& after.dom().contains(profile.id@) && after[profile.id@].profile == profile
        }),
        ({
            let after = bundles.remove(id);
            let now_active = if active == Some(id) {
                None
            } else {
                active
            };
            &&& !after.dom().contains(id)
            &&& now_active != Some(id)
        }),
{
}

/// The outcome of a successful probe that took `latency_ms` and saw
/// `broker_count` brokers.
pub fn test_connection_result(latency_ms: u64, broker_count: usize) -> (r: TestConnectionResult)
    ensures
        r.success,
        r.latency_ms == latency_ms,
        r.broker_count == broker_count,
        r.cluster_id is None,
        r.warnings@.len() == 0,
{
    TestConnectionResult {
        success: true,
        latency_ms,
        broker_count,
        cluster_id: None,
        warnings: Vec::new(),
    }
}

/// The message speaks of authentication.
pub open spec fn mentions_auth(message: Seq<char>) -> bool {
    spec_contains(lowercased(message), "authentication"@) || spec_contains(
        lowercased(message),
        "sasl"@,
    )
}

/// The message speaks of a timeout.
pub open spec fn mentions_timeout(message: Seq<char>) -> bool {
    spec_contains(lowercased(message), "timed out"@) || spec_contains(
        lowercased(message),
        "timeout"@,
    )
}

/// The error a client error message stands for: authentication when it
/// speaks of authentication or SASL, else a timeout when it speaks of one,
/// else a connection failure; case is ignored.
pub fn map_kafka_error(message: String) -> (r: AppError)
    ensures
        mentions_auth(message@) ==> (r matches AppError::KafkaAuth(m) && m@ == message@),
        !mentions_auth(message@) && mentions_timeout(message@) ==> r is KafkaTimeout,
        !mentions_auth(message@) && !mentions_timeout(message@) ==> (r matches AppError::KafkaConnection(
            m,
        ) && m@ == message@),
{
    let lower = to_lowercase(message.as_str());
    if contains(lower.as_str(), "authentication") || contains(lower.as_str(), "sasl") {
        AppError::KafkaAuth(message)
    } else if contains(lower.as_str(), "timed out") || contains(lower.as_str(), "timeout") {
        AppError::KafkaTimeout
    } else {
        AppError::KafkaConnection(message)
    }
}

/// The client configuration of the administration consumer of `profile`:
/// the profile's settings, the consumer group `kafkalite-admin-` and the
/// profile id, and no automatic commits.
pub fn admin_consumer_config(profile: &ConnectionProfile, credentials: &CredentialService) -> (r:
    ClientConfig)
    ensures
        client_config_entries(r) == profile_settings(
            *profile,
            stored_password(credentials@, profile.credential_ref),
        ).insert("group.id"@, "kafkalite-admin-"@ + profile.id@).insert(
            "enable.auto.commit"@,
            "false"@,
        ),
{
    let mut config = build_client_config(profile, credentials);
    let group = concat_text("kafkalite-admin-", profile.id.as_str());
    config_set(&mut config, "group.id", group.as_str());
    config_set(&mut config, "enable.auto.commit", "false");
    config
}

} // verus!
