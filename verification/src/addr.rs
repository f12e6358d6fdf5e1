//! From the text of an address to an endpoint.
//!
//! Reading address literals and asking the system for the addresses of a host are the caller's
//! part; what is asked for, in which order, and what the answers mean is decided here.

use vstd::prelude::*;
use vstd::string::StringExecFns;

use crate::error::{Error, ErrorKind, ErrorView};
use crate::ip;
use crate::ip::{IpAddr, SocketAddr, SocketView};
use crate::text;
use crate::time::Duration;

verus! {

/// The port of the DNS protocol.
pub const DNS_PORT: u16 = 53;

/// An endpoint, or an error, as a mathematical value.
pub open spec fn endpoint_view(found: Result<SocketAddr, Error>) -> Result<SocketView, ErrorView> {
    match found {
        Ok(addr) => Ok(addr@),
        Err(e) => Err(e@),
    }
}

/// How to come from the text of a target to its endpoint.
pub enum TargetPlan {
    /// The text is a literal, and this is the endpoint.
    Known(SocketAddr),
    /// Ask the system for the endpoints of this text.
    Lookup(String),
}

/// The text that the system is asked about for the host `target`.
pub open spec fn lookup_text(target: Seq<char>) -> Seq<char> {
    target + ":"@ + text::decimal(DNS_PORT as nat)
}

/// Decides how to come to the endpoint of `target`. `socket` is `target` read as the literal of an
/// endpoint, such as `8.8.8.8:53` or `[::1]:53`, and `ip` is `target` read as the literal of an IP
/// address, such as `8.8.8.8` or `::1`; each is `None` where `target` is no such literal. An
/// address without a port gets the port of DNS, and so does a host name.
pub fn resolve_target(target: &str, socket: Option<SocketAddr>, ip: Option<IpAddr>) -> (plan:
    TargetPlan)
    ensures
        match (socket, ip) {
            (Some(addr), _) => plan == TargetPlan::Known(addr),
            (None, Some(bare)) => plan matches TargetPlan::Known(addr) && addr@ == ip::endpoint(
                bare@,
                DNS_PORT,
            ),
            (None, None) => plan matches TargetPlan::Lookup(text) && text@ == lookup_text(target@),
        },
        socket is None && ip is Some ==> plan == TargetPlan::Known(
            SocketAddr { ip: ip->0, port: 53, flowinfo: 0, scope_id: 0 },
        ),
        socket is None && ip is None ==> plan->Lookup_0@ == target@ + ":53"@,
{
    proof {
        law_host_asked_with_port(target@);
    }
    if let Some(addr) = socket {
        return TargetPlan::Known(addr);
    }
    if let Some(bare) = ip {
        return TargetPlan::Known(SocketAddr::new(bare, DNS_PORT));
    }
    let mut with_port: String = target.to_owned();
    with_port.append(":");
    text::push_decimal(&mut with_port, DNS_PORT as u64);
    TargetPlan::Lookup(with_port)
}

/// What a lookup comes to, where `nothing` is reported of one that finds no endpoint: its first
/// endpoint, or its error.
pub open spec fn first_found(
    found: Result<Vec<SocketAddr>, Error>,
    nothing: ErrorView,
) -> Result<SocketView, ErrorView> {
    match found {
        Err(e) => Err(e@),
        Ok(addrs) => if addrs@.len() > 0 {
            Ok(addrs@[0]@)
        } else {
            Err(nothing)
        },
    }
}

/// What is reported if a lookup finds no endpoint for `target`.
pub open spec fn target_unknown(target: Seq<char>) -> ErrorView {
    ErrorView {
        kind: ErrorKind::AddrNotAvailable,
        message: "no address resolved for target: "@ + target,
    }
}

/// Takes the endpoint of `target` out of what the system found for it.
pub fn target_found(target: &str, found: Result<Vec<SocketAddr>, Error>) -> (addr: Result<
    SocketAddr,
    Error,
>)
    ensures
        endpoint_view(addr) == first_found(found, target_unknown(target@)),
        match found {
            Err(e) => addr == Err::<SocketAddr, Error>(e),
            Ok(addrs) => if addrs@.len() > 0 {
                addr == Ok::<SocketAddr, Error>(addrs@[0])
            } else {
                &&& addr matches Err(e)
                &&& e.kind == ErrorKind::AddrNotAvailable
                &&& e.message@ == "no address resolved for target: "@ + target@
            },
        },
{
    match found {
        Err(e) => Err(e),
        Ok(addrs) => if addrs.len() > 0 {
            Ok(addrs[0])
        } else {
            let mut message: String = "no address resolved for target: ".to_owned();
            message.append(target);
            Err(Error { kind: ErrorKind::AddrNotAvailable, message })
        },
    }
}

/// What is reported if a lookup finds no endpoint for `proxy`.
pub open spec fn proxy_invalid(proxy: Seq<char>) -> ErrorView {
    ErrorView {
        kind: ErrorKind::InvalidInput,
        message: "invalid proxy address: "@ + proxy,
    }
}

/// Takes the endpoint of `proxy` out of what the system found for it. The text of a proxy goes to
/// the system as it stands, so it has to name its port.
pub fn resolve_proxy(proxy: &str, found: Result<Vec<SocketAddr>, Error>) -> (addr: Result<
    SocketAddr,
    Error,
>)
    ensures
        endpoint_view(addr) == first_found(found, proxy_invalid(proxy@)),
        match found {
            Err(e) => addr == Err::<SocketAddr, Error>(e),
            Ok(addrs) => if addrs@.len() > 0 {
                addr == Ok::<SocketAddr, Error>(addrs@[0])
            } else {
                &&& addr matches Err(e)
                &&& e.kind == ErrorKind::InvalidInput
                &&& e.message@ == "invalid proxy address: "@ + proxy@
            },
        },
{
    match found {
        Err(e) => Err(e),
        Ok(addrs) => if addrs.len() > 0 {
            Ok(addrs[0])
        } else {
            let mut message: String = "invalid proxy address: ".to_owned();
            message.append(proxy);
            Err(Error { kind: ErrorKind::InvalidInput, message })
        },
    }
}

/// A connection to be made. `timeout` bounds the making of it and every later wait on it.
#[derive(Clone, Copy, Debug, PartialEq, Eq)]
pub enum Dial {
    /// Straight to the target.
    Direct { target: SocketAddr, timeout: Duration },
    /// By way of a SOCKS5 proxy.
    Proxied { proxy: SocketAddr, target: SocketAddr, timeout: Duration },
}

/// The way to `target`: through the proxy, if there is one.
pub open spec fn way_to(
    target: SocketAddr,
    proxy: Option<SocketAddr>,
    timeout: Duration,
) -> Dial {
    match proxy {
        None => Dial::Direct { target, timeout },
        Some(proxy) => Dial::Proxied { proxy, target, timeout },
    }
}

/// Chooses the way to `target`: through the proxy, if there is one.
pub fn dial(target: SocketAddr, proxy: Option<SocketAddr>, timeout: Duration) -> (way: Dial)
    ensures
        way == way_to(target, proxy, timeout),
        proxy is None ==> way == (Dial::Direct { target, timeout }),
        proxy is Some ==> way == (Dial::Proxied { proxy: proxy->0, target, timeout }),
{
    match proxy {
        None => Dial::Direct { target, timeout },
        Some(proxy) => Dial::Proxied { proxy, target, timeout },
    }
}

/// The way to `target`, by way of `proxy` if there is one, where `target_at` and `proxy_at` are what
/// the names of a target and of a proxy resolve to. The target is resolved first, and the first
/// failure is the outcome.
pub open spec fn approach(
    target: Seq<char>,
    proxy: Option<Seq<char>>,
    timeout: Duration,
    target_at: spec_fn(Seq<char>) -> Result<SocketAddr, Error>,
    proxy_at: spec_fn(Seq<char>) -> Result<SocketAddr, Error>,
) -> Result<Dial, Error> {
    match (target_at(target), proxy) {
        (Err(e), _) => Err(e),
        (Ok(addr), None) => Ok(way_to(addr, None, timeout)),
        (Ok(addr), Some(name)) => match proxy_at(name) {
            Err(e) => Err(e),
            Ok(via) => Ok(way_to(addr, Some(via), timeout)),
        },
    }
}

/// The system is asked about a host together with the port 53.
pub proof fn law_host_asked_with_port(target: Seq<char>)
    ensures
        lookup_text(target) == target + ":53"@,
{
    reveal_strlit(":");
    reveal_strlit(":53");
    reveal_with_fuel(text::numeral, 2);
    assert(lookup_text(target) =~= target + ":53"@);
}

/// The way to a target ends at the target, takes no longer than allowed, and leads through the
/// proxy exactly if there is one.
pub proof fn law_way_leads_to_target(
    target: SocketAddr,
    proxy: Option<SocketAddr>,
    timeout: Duration,
)
    ensures
        match way_to(target, proxy, timeout) {
            Dial::Direct { target: end, timeout: limit } => proxy is None && end == target && limit
                == timeout,
            Dial::Proxied { proxy: via, target: end, timeout: limit } => proxy == Some(via) && end
                == target && limit == timeout,
        },
{
}

} // verus!
