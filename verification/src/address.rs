//! Socket addresses as they travel in wire messages.

use vstd::prelude::*;

verus! {

/// An IP address, as its bytes in network order.
#[derive(Debug, Clone, Copy, PartialEq, Eq, Hash)]
pub enum IpAddress {
    V4([u8; 4]),
    V6([u8; 16]),
}

/// An IP address and a port.
#[derive(Debug, Clone, Copy, PartialEq, Eq, Hash)]
pub struct SocketAddress {
    pub ip: IpAddress,
    pub port: u16,
}

/// The mathematical value of a socket address.
pub struct SocketAddressModel {
    /// 4 or 6.
    pub family: u8,
    /// The address bytes in network order: 4 of them for family 4, 16 for
    /// family 6.
    pub octets: Seq<u8>,
    pub port: u16,
}

impl SocketAddressModel {
    /// The family is 4 or 6 and the address has that family's length.
    pub open spec fn wf(self) -> bool {
        (self.family == 4 && self.octets.len() == 4) || (self.family == 6 && self.octets.len()
            == 16)
    }
}

impl View for SocketAddress {
    type V = SocketAddressModel;

    open spec fn view(&self) -> SocketAddressModel {
        match self.ip {
            IpAddress::V4(o) => SocketAddressModel { family: 4, octets: o@, port: self.port },
            IpAddress::V6(o) => SocketAddressModel { family: 6, octets: o@, port: self.port },
        }
    }
}

} // verus!
