use vstd::prelude::*;
use vstd::string::StringExecFns;

use crate::addr::{Ipv4Addr, SocketAddr};
use crate::consts::WEIGHTED_ROUND_ROBIN;

verus! {

/// Largest weight an endpoint may carry under weighted round robin.
pub const MAX_WEIGHT: u8 = 100;

/// One configured backend: a display name, where it listens, and its share of
/// the traffic under weighted round robin.
#[derive(Debug)]
pub struct EndpointConfig {
    pub name: String,
    pub ip: Ipv4Addr,
    pub port: u16,
    pub weight: Option<u8>,
}

impl EndpointConfig {
    pub fn new(name: String, ip: Ipv4Addr, port: u16, weight: Option<u8>) -> (config: Self)
        ensures
            config == (EndpointConfig { name, ip, port, weight }),
    {
        EndpointConfig { name, ip, port, weight }
    }

    pub fn get_socket_addr(&self) -> (addr: SocketAddr)
        ensures
            addr == (SocketAddr { ip: self.ip, port: self.port }),
    {
        SocketAddr::new(self.ip, self.port)
    }

    pub fn ip(&self) -> (ip: Ipv4Addr)
        ensures
            ip == self.ip,
    {
        self.ip
    }

    pub fn port(&self) -> (port: u16)
        ensures
            port == self.port,
    {
        self.port
    }

    pub fn name(&self) -> (name: String)
        ensures
            name@ == self.name@,
    {
        self.name.clone()
    }

    pub fn weight(&self) -> (weight: Option<u8>)
        ensures
            weight == self.weight,
    {
        self.weight
    }

    /// Whether weighted round robin keeps this entry: it has a weight, and the
    /// weight is not above `MAX_WEIGHT`.
    pub open spec fn has_usable_weight(&self) -> bool {
        self.weight matches Some(w) && w <= MAX_WEIGHT
    }
}

impl Clone for EndpointConfig {
    fn clone(&self) -> (copy: Self)
        ensures
            copy == *self,
    {
        EndpointConfig { name: self.name.clone(), ip: self.ip, port: self.port, weight: self.weight }
    }
}

/// The roster as configured, in file order.
#[derive(Debug)]
pub struct EndpointPoolConfig {
    pub endpoints: Vec<EndpointConfig>,
}

impl Default for EndpointPoolConfig {
    fn default() -> (pool: Self)
        ensures
            pool.endpoints@.len() == 0,
    {
        EndpointPoolConfig { endpoints: Vec::new() }
    }
}

impl EndpointPoolConfig {
    /// The roster that takes part under `strategy`: every entry for a strategy
    /// other than weighted round robin, the entries with a usable weight for it.
    pub open spec fn filtered(endpoints: Seq<EndpointConfig>, strategy: Seq<char>) -> Seq<EndpointConfig> {
        if strategy == WEIGHTED_ROUND_ROBIN@ {
            endpoints.filter(|c: EndpointConfig| c.has_usable_weight())
        } else {
            endpoints
        }
    }

    /// Makes the roster that takes part under `strategy` out of the entries of
    /// the configuration file, keeping their order.
    pub fn load(endpoints: Vec<EndpointConfig>, strategy: &str) -> (pool: Self)
        ensures
            pool.endpoints@ == Self::filtered(endpoints@, strategy@),
    {
        let mut pool = EndpointPoolConfig { endpoints };
        pool.filter(strategy);
        pool
    }

    pub fn endpoint_configs(self) -> (configs: Vec<EndpointConfig>)
        ensures
            configs == self.endpoints,
    {
        self.endpoints
    }

    /// Drops the entries that cannot take part under `strategy`.
    pub fn filter(&mut self, strategy: &str)
        ensures
            final(self).endpoints@ == Self::filtered(old(self).endpoints@, strategy@),
    {
        self.filter_by_weight(strategy);
    }

    fn filter_by_weight(&mut self, strategy: &str)
        ensures
            final(self).endpoints@ == Self::filtered(old(self).endpoints@, strategy@),
    {
        if !(String::from_str(strategy) == String::from_str(WEIGHTED_ROUND_ROBIN)) {
            return ;
        }
        let mut kept: Vec<EndpointConfig> = Vec::new();
        let mut i: usize = 0;
        while i < self.endpoints.len()
            invariant
                i <= self.endpoints.len(),
                self.endpoints == old(self).endpoints,
                kept@ == self.endpoints@.take(i as int).filter(|c: EndpointConfig| c.has_usable_weight()),
            decreases self.endpoints.len() - i,
        {
            let config = &self.endpoints[i];
            proof {
                let pred = |c: EndpointConfig| c.has_usable_weight();
                assert(self.endpoints@.take(i + 1).drop_last() == self.endpoints@.take(i as int));
                reveal(Seq::filter);
            }
            if config.weight.is_some() && config.weight.unwrap() <= MAX_WEIGHT {
                kept.push(config.clone());
            }
            i += 1;
        }
        assert(self.endpoints@.take(i as int) == self.endpoints@);
        self.endpoints = kept;
    }
}

} // verus!
