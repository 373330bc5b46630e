//! Network addresses of peers.

use vstd::prelude::*;

verus! {

/// An IPv4 socket address. The host is the big-endian reading of the four
/// octets: `1.2.3.4` is `0x0102_0304`.
#[derive(Clone, Copy, Debug, PartialEq, Eq, Structural, Hash)]
pub struct AddressV4 {
    pub host: u32,
    pub port: u16,
}

/// An IPv6 socket address. The host is the big-endian reading of the sixteen
/// bytes.
#[derive(Clone, Copy, Debug, PartialEq, Eq, Structural, Hash)]
pub struct AddressV6 {
    pub host: u128,
    pub port: u16,
    pub flowinfo: u32,
    pub scope_id: u32,
}

/// The address of a peer, held as integers. Two addresses are the same peer
/// exactly when all their fields agree.
#[derive(Clone, Copy, Debug, PartialEq, Eq, Structural, Hash)]
pub enum PeerAddress {
    V4(AddressV4),
    V6(AddressV6),
}

/// The IPv4 host `a.b.c.d` as one integer.
pub open spec fn ipv4_host(a: u8, b: u8, c: u8, d: u8) -> int {
    a * 0x100_0000 + b * 0x1_0000 + c * 0x100 + d
}

impl PeerAddress {
    /// The TCP port that the peer listens on.
    pub open spec fn spec_port(&self) -> u16 {
        match *self {
            PeerAddress::V4(v4) => v4.port,
            PeerAddress::V6(v6) => v6.port,
        }
    }

    /// Whether the host is the unspecified one (`0.0.0.0` or `::`).
    pub open spec fn spec_has_unspecified_host(&self) -> bool {
        match *self {
            PeerAddress::V4(v4) => v4.host == 0,
            PeerAddress::V6(v6) => v6.host == 0,
        }
    }

    /// Whether a connection to the address can be attempted: the host is
    /// specified and the port is not zero.
    pub open spec fn spec_is_valid(&self) -> bool {
        !self.spec_has_unspecified_host() && self.spec_port() != 0
    }

    /// The IPv4 address `a.b.c.d:port`.
    pub fn v4(a: u8, b: u8, c: u8, d: u8, port: u16) -> (address: PeerAddress)
        ensures
            ipv4_host(a, b, c, d) <= u32::MAX,
            address == PeerAddress::V4(AddressV4 { host: ipv4_host(a, b, c, d) as u32, port }),
    {
        let high: u32 = (a as u32) * 0x100_0000 + (b as u32) * 0x1_0000;
        let low: u32 = (c as u32) * 0x100 + (d as u32);
        PeerAddress::V4(AddressV4 { host: high + low, port })
    }

    /// The TCP port that the peer listens on.
    #[verifier::when_used_as_spec(spec_port)]
    pub fn port(&self) -> (port: u16)
        ensures
            port == self.spec_port(),
    {
        match self {
            PeerAddress::V4(v4) => v4.port,
            PeerAddress::V6(v6) => v6.port,
        }
    }

    /// Whether the host is the unspecified one (`0.0.0.0` or `::`).
    #[verifier::when_used_as_spec(spec_has_unspecified_host)]
    pub fn has_unspecified_host(&self) -> (unspecified: bool)
        ensures
            unspecified == self.spec_has_unspecified_host(),
    {
        match self {
            PeerAddress::V4(v4) => v4.host == 0,
            PeerAddress::V6(v6) => v6.host == 0,
        }
    }

    /// Whether a connection to the address can be attempted.
    #[verifier::when_used_as_spec(spec_is_valid)]
    pub fn is_valid(&self) -> (valid: bool)
        ensures
            valid == self.spec_is_valid(),
    {
        !self.has_unspecified_host() && self.port() != 0
    }
}

} // verus!
