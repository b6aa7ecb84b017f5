//! One backend as the balancer sees it: where it is, what it weighs, and
//! whether the last health probe found it serving.

use vstd::prelude::*;

use tonic_health::pb::health_check_response::ServingStatus;

use crate::addr::SocketAddr;
use crate::model::endpoints_config::{EndpointConfig, EndpointPoolConfig};

verus! {

/// The wire code of the one health status that counts as healthy.
pub open spec fn serving_code() -> i32 {
    1
}

/// The wire code recorded for a probe that brought no answer.
pub open spec fn not_serving_code() -> i32 {
    2
}

/// `ServingStatus::try_from` of tonic-health, asked whether a wire code decodes
/// to `ServingStatus::Serving`. The enum's discriminants are those of the gRPC
/// health protocol, in which `Serving` is 1; every other code decodes to another
/// variant or to none.
#[verifier::external_body]
fn decodes_to_serving(status: i32) -> (serving: bool)
    ensures
        serving == (status == serving_code()),
{
    matches!(ServingStatus::try_from(status), Ok(ServingStatus::Serving))
}

/// The wire code of tonic-health's `ServingStatus::NotServing`, which is 2 in
/// the gRPC health protocol.
#[verifier::external_body]
fn not_serving() -> (code: i32)
    ensures
        code == not_serving_code(),
{
    ServingStatus::NotServing as i32
}

/// A backend of the roster. It starts out unhealthy and turns healthy with the
/// first probe that answers `Serving`.
pub struct WordCountServer {
    config: EndpointConfig,
    is_health: bool,
}

impl WordCountServer {
    /// The configuration the endpoint was made from.
    pub closed spec fn config(&self) -> EndpointConfig {
        self.config
    }

    /// What `health_report` answers.
    pub closed spec fn healthy(&self) -> bool {
        self.is_health
    }

    /// The weight that weighted round robin counts for this endpoint: its
    /// configured weight, or 0 where it has none.
    pub open spec fn effective_weight(&self) -> nat {
        match self.config().weight {
            Some(w) => w as nat,
            None => 0,
        }
    }

    pub fn new(config: EndpointConfig) -> (endpoint: Self)
        ensures
            endpoint.config() == config,
            !endpoint.healthy(),
    {
        WordCountServer { config, is_health: false }
    }

    pub fn name(&self) -> (name: String)
        ensures
            name@ == self.config().name@,
    {
        self.config.name()
    }

    pub fn addr(&self) -> (addr: SocketAddr)
        ensures
            addr == (SocketAddr { ip: self.config().ip, port: self.config().port }),
    {
        self.config.get_socket_addr()
    }

    pub fn weight(&self) -> (weight: Option<u8>)
        ensures
            weight == self.config().weight,
    {
        self.config.weight()
    }

    pub fn health_report(&self) -> (healthy: bool)
        ensures
            healthy == self.healthy(),
    {
        self.is_health
    }

    /// Records the status code of a health answer: the endpoint is healthy
    /// exactly if the code is that of `Serving`.
    pub fn update_health_status(&mut self, status: i32)
        ensures
            final(self).healthy() == (status == serving_code()),
            final(self).config() == old(self).config(),
    {
        self.is_health = decodes_to_serving(status);
    }

    /// Takes in the outcome of one health probe: `Some` with the status code of
    /// the answer, `None` where the probe could not be sent or brought an
    /// error. Returns whether the probe counts as a successful query.
    pub fn health_check(&mut self, probe: Option<i32>) -> (answered: bool)
        ensures
            answered == probe.is_some(),
            final(self).healthy() == (probe == Some(serving_code())),
            final(self).config() == old(self).config(),
    {
        let status = match probe {
            Some(status) => status,
            None => not_serving(),
        };
        self.update_health_status(status);
        probe.is_some()
    }
}

/// The effective weights of a snapshot, position by position.
pub open spec fn weights_of(endpoints: Seq<&WordCountServer>) -> Seq<nat> {
    endpoints.map_values(|e: &WordCountServer| e.effective_weight())
}

/// The roster that a configuration stands for: one endpoint for every entry, in
/// the order of the entries, none of them healthy yet.
pub fn endpoints(config: EndpointPoolConfig) -> (roster: Vec<WordCountServer>)
    ensures
        roster.len() == config.endpoints.len(),
        forall|i: int|
            0 <= i < roster.len() ==> (#[trigger] roster[i]).config() == config.endpoints[i]
                && !roster[i].healthy(),
{
    let configs = config.endpoint_configs();
    let mut roster: Vec<WordCountServer> = Vec::new();
    let mut i: usize = 0;
    while i < configs.len()
        invariant
            i <= configs.len(),
            roster.len() == i,
            forall|j: int|
                0 <= j < i ==> (#[trigger] roster[j]).config() == configs[j] && !roster[j].healthy(),
        decreases configs.len() - i,
    {
        roster.push(WordCountServer::new(configs[i].clone()));
        i += 1;
    }
    roster
}

} // verus!
