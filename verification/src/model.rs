//! Configuration records of the balancer.

pub mod endpoints_config;
pub mod load_balancer_config;
pub mod server_config;
