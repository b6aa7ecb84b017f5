use vstd::prelude::*;
use vstd::string::StringExecFns;

use crate::addr::{Ipv4Addr, SocketAddr};
use crate::consts::{DEFAULT_METRICS_PORT, DEFAULT_PORT};
use crate::message::{ResponseModel, WordCountResponse};

verus! {

/// The address the balancer binds to when the configuration gives none: the
/// loopback address.
pub open spec fn default_ip_addr() -> Ipv4Addr {
    Ipv4Addr { a: 127, b: 0, c: 0, d: 1 }
}

/// The front door's settings. A field the file leaves out is `None` and read
/// as its default.
#[derive(Clone, Copy, Debug)]
pub struct ServerConfig {
    pub ip: Option<Ipv4Addr>,
    pub port: Option<u16>,
    pub metrics_port: Option<u16>,
    pub enable_fault_tolerance: Option<bool>,
}

impl ServerConfig {
    pub fn new(
        ip: Option<Ipv4Addr>,
        port: Option<u16>,
        metrics_port: Option<u16>,
        enable_fault_tolerance: Option<bool>,
    ) -> (config: Self)
        ensures
            config == (ServerConfig { ip, port, metrics_port, enable_fault_tolerance }),
    {
        ServerConfig { ip, port, metrics_port, enable_fault_tolerance }
    }

    pub fn ip(&self) -> (ip: Ipv4Addr)
        ensures
            ip == match self.ip {
                Some(ip) => ip,
                None => default_ip_addr(),
            },
    {
        match self.ip {
            Some(ip) => ip,
            None => Ipv4Addr::new(127, 0, 0, 1),
        }
    }

    pub fn port(&self) -> (port: u16)
        ensures
            port == match self.port {
                Some(port) => port,
                None => DEFAULT_PORT,
            },
    {
        match self.port {
            Some(port) => port,
            None => DEFAULT_PORT,
        }
    }

    pub fn metrics_port(&self) -> (port: u16)
        ensures
            port == match self.metrics_port {
                Some(port) => port,
                None => DEFAULT_METRICS_PORT,
            },
    {
        match self.metrics_port {
            Some(port) => port,
            None => DEFAULT_METRICS_PORT,
        }
    }

    pub fn get_socket_addr(&self) -> (addr: SocketAddr)
        ensures
            addr.ip == match self.ip {
                Some(ip) => ip,
                None => default_ip_addr(),
            },
            addr.port == match self.port {
                Some(port) => port,
                None => DEFAULT_PORT,
            },
    {
        SocketAddr::new(self.ip(), self.port())
    }

    pub fn get_metrics_addr(&self) -> (addr: SocketAddr)
        ensures
            addr.ip == match self.ip {
                Some(ip) => ip,
                None => default_ip_addr(),
            },
            addr.port == match self.metrics_port {
                Some(port) => port,
                None => DEFAULT_METRICS_PORT,
            },
    {
        SocketAddr::new(self.ip(), self.metrics_port())
    }

    /// Whether the balancer probes its endpoints. Off unless the configuration
    /// turns it on.
    pub fn fault_tolerance(&self) -> (enabled: bool)
        ensures
            enabled == (self.enable_fault_tolerance == Some(true)),
    {
        match self.enable_fault_tolerance {
            Some(enabled) => enabled,
            None => false,
        }
    }
}

impl Default for ServerConfig {
    fn default() -> (config: Self)
        ensures
            config == (ServerConfig {
                ip: None,
                port: None,
                metrics_port: None,
                enable_fault_tolerance: None,
            }),
    {
        ServerConfig { ip: None, port: None, metrics_port: None, enable_fault_tolerance: None }
    }
}

/// The status message of the response that stands for every failure at the
/// front door.
pub const FAILED_MESSAGE: &'static str = "some error occurred...";

/// The log id of that response.
pub const FAILED_LOG_ID: &'static str = "0";

/// The response that stands for every failure at the front door.
pub open spec fn failed_response() -> ResponseModel {
    ResponseModel {
        count: 0,
        status_code: -1i32,
        status_message: FAILED_MESSAGE@,
        log_id: FAILED_LOG_ID@,
    }
}

impl WordCountResponse {
    /// The response that the front door sends whenever a request could not be
    /// read, routed or served.
    pub fn failed_resp() -> (response: Self)
        ensures
            response@ == failed_response(),
    {
        WordCountResponse {
            count: 0,
            status_code: -1,
            status_message: String::from_str(FAILED_MESSAGE),
            log_id: String::from_str(FAILED_LOG_ID),
        }
    }
}

} // verus!
