//! The rules of a word-frequency query service: a load balancer in front of
//! counting backends that cache what they have counted.
//!
//! The library decides and leaves the doing to its caller. It picks the
//! endpoint for a request (`strategy`, `load_balancer`), keeps track of which
//! endpoints are healthy (`endpoint`), frames requests and responses and
//! leads a connection from its request to its answer (`frame`, `server`),
//! and leads a `Count` call through validation, cache and file scan
//! (`counter_server`, `read_counter`). It opens no socket and no file: the
//! caller reads and writes, and tells the library what came of it.

pub mod addr;
pub mod client;
pub mod consts;
pub mod counter_server;
pub mod endpoint;
pub mod error;
pub mod frame;
pub mod load_balancer;
pub mod message;
pub mod metrics;
pub mod model;
pub mod read_counter;
pub mod server;
pub mod strategy;
pub mod text;
