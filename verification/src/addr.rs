//! Addresses as plain values: four octets and a port.

use vstd::prelude::*;

verus! {

/// An IPv4 address, octet by octet in network order.
#[derive(Clone, Copy, Debug, PartialEq, Eq, Structural)]
pub struct Ipv4Addr {
    pub a: u8,
    pub b: u8,
    pub c: u8,
    pub d: u8,
}

impl Ipv4Addr {
    pub fn new(a: u8, b: u8, c: u8, d: u8) -> (ip: Self)
        ensures
            ip == (Ipv4Addr { a, b, c, d }),
    {
        Ipv4Addr { a, b, c, d }
    }

    /// The four octets, first one first.
    pub fn octets(&self) -> (o: [u8; 4])
        ensures
            o@ == seq![self.a, self.b, self.c, self.d],
    {
        [self.a, self.b, self.c, self.d]
    }
}

/// An IPv4 address together with a port.
#[derive(Clone, Copy, Debug, PartialEq, Eq, Structural)]
pub struct SocketAddr {
    pub ip: Ipv4Addr,
    pub port: u16,
}

impl SocketAddr {
    pub fn new(ip: Ipv4Addr, port: u16) -> (addr: Self)
        ensures
            addr == (SocketAddr { ip, port }),
    {
        SocketAddr { ip, port }
    }

    pub fn ip(&self) -> (ip: Ipv4Addr)
        ensures
            ip == self.ip,
    {
        self.ip
    }

    pub fn port(&self) -> (port: u16)
        ensures
            port == self.port,
    {
        self.port
    }
}

} // verus!
