//! IP addresses and transport endpoints as plain values.

use vstd::prelude::*;

verus! {

/// An IP address: its octets, most significant first.
#[derive(Clone, Copy, Debug, PartialEq, Eq)]
pub enum IpAddr {
    V4([u8; 4]),
    V6([u8; 16]),
}

/// An IP address as a mathematical value.
pub enum IpView {
    V4(Seq<u8>),
    V6(Seq<u8>),
}

impl View for IpAddr {
    type V = IpView;

    open spec fn view(&self) -> IpView {
        match self {
            IpAddr::V4(octets) => IpView::V4(octets@),
            IpAddr::V6(octets) => IpView::V6(octets@),
        }
    }
}

impl IpView {
    /// The octets fill the address exactly.
    pub open spec fn well_formed(self) -> bool {
        match self {
            IpView::V4(octets) => octets.len() == 4,
            IpView::V6(octets) => octets.len() == 16,
        }
    }
}

impl IpAddr {
    /// Whether this is an IPv6 address.
    pub fn is_ipv6(&self) -> (v6: bool)
        ensures
            v6 == (self@ is V6),
    {
        match self {
            IpAddr::V4(_) => false,
            IpAddr::V6(_) => true,
        }
    }
}

/// The mathematical values of a list of addresses.
pub open spec fn ip_views(ips: Seq<IpAddr>) -> Seq<IpView> {
    ips.map_values(|ip: IpAddr| ip@)
}

/// A transport endpoint. `flowinfo` and `scope_id` belong to IPv6 and are zero for IPv4.
#[derive(Clone, Copy, Debug, PartialEq, Eq)]
pub struct SocketAddr {
    pub ip: IpAddr,
    pub port: u16,
    pub flowinfo: u32,
    pub scope_id: u32,
}

/// A transport endpoint as a mathematical value.
pub struct SocketView {
    pub ip: IpView,
    pub port: u16,
    pub flowinfo: u32,
    pub scope_id: u32,
}

impl View for SocketAddr {
    type V = SocketView;

    open spec fn view(&self) -> SocketView {
        SocketView {
            ip: self.ip@,
            port: self.port,
            flowinfo: self.flowinfo,
            scope_id: self.scope_id,
        }
    }
}

/// The endpoint at `port` of `ip`, without a flow label or a scope.
pub open spec fn endpoint(ip: IpView, port: u16) -> SocketView {
    SocketView { ip, port, flowinfo: 0, scope_id: 0 }
}

impl SocketAddr {
    /// The endpoint at `port` of `ip`.
    pub fn new(ip: IpAddr, port: u16) -> (addr: SocketAddr)
        ensures
            addr == (SocketAddr { ip, port, flowinfo: 0, scope_id: 0 }),
            addr@ == endpoint(ip@, port),
    {
        SocketAddr { ip, port, flowinfo: 0, scope_id: 0 }
    }
}

} // verus!
