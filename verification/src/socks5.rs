//! The client side of a SOCKS5 handshake (RFC 1928): no authentication, and the CONNECT command.

use vstd::prelude::*;
use vstd::string::StringExecFns;

use crate::dns;
use crate::error::{Error, ErrorKind, ErrorView};
use crate::ip::{IpAddr, IpView, SocketAddr, SocketView};
use crate::text;
use crate::time::Duration;

verus! {

/// The protocol version that opens every message of either side, but for what follows a reply's
/// header.
pub const VERSION: u8 = 0x05;

/// The CONNECT command.
pub const CMD_CONNECT: u8 = 0x01;

/// Address type: four octets of IPv4.
pub const ATYP_V4: u8 = 0x01;

/// Address type: a length octet and a domain name.
pub const ATYP_DOMAIN: u8 = 0x03;

/// Address type: sixteen octets of IPv6.
pub const ATYP_V6: u8 = 0x04;

// ---------------------------------------------------------------------------------------------
// Messages
// ---------------------------------------------------------------------------------------------

/// The greeting: one authentication method is on offer, and it is "none".
pub open spec fn greeting() -> Seq<u8> {
    seq![VERSION, 0x01, 0x00]
}

/// An address in a request: its type, then its octets.
pub open spec fn wire_ip(ip: IpView) -> Seq<u8> {
    match ip {
        IpView::V4(octets) => seq![ATYP_V4] + octets,
        IpView::V6(octets) => seq![ATYP_V6] + octets,
    }
}

/// The request for a connection to `target`.
pub open spec fn connect_request(target: SocketView) -> Seq<u8> {
    seq![VERSION, CMD_CONNECT, 0x00] + wire_ip(target.ip) + dns::be16(target.port)
}

/// Builds the request for a connection to `target`.
pub fn build_request(target: SocketAddr) -> (req: Vec<u8>)
    ensures
        req@ == connect_request(target@),
{
    let mut req: Vec<u8> = Vec::with_capacity(22);
    req.push(VERSION);
    req.push(CMD_CONNECT);
    req.push(0x00);
    match target.ip {
        IpAddr::V4(octets) => {
            req.push(ATYP_V4);
            req.extend_from_slice(&octets);
        },
        IpAddr::V6(octets) => {
            req.push(ATYP_V6);
            req.extend_from_slice(&octets);
        },
    }
    req.push((target.port / 256) as u8);
    req.push((target.port % 256) as u8);
    assert(req@ =~= connect_request(target@));
    req
}

/// An error of category `kind` whose text is `text` and the number `n`.
pub open spec fn numbered(kind: ErrorKind, text: Seq<char>, n: u8) -> ErrorView {
    ErrorView { kind, message: text + text::decimal(n as nat) }
}

/// Builds an error of category `kind` whose text is `text` and the number `n`.
fn numbered_error(kind: ErrorKind, text: &str, n: u8) -> (error: Error)
    ensures
        error@ == numbered(kind, text@, n),
{
    let mut message: String = text.to_owned();
    text::push_decimal(&mut message, n as u64);
    Error { kind, message }
}

/// What the proxy's choice of an authentication method comes to: `None` if it chose "none", or the
/// error.
pub open spec fn method_refusal(choice: Seq<u8>) -> Option<ErrorView> {
    if choice[0] != VERSION {
        Some(
            numbered(
                ErrorKind::InvalidData,
                "invalid socks version in handshake: "@,
                choice[0],
            ),
        )
    } else if choice[1] == 0x00 {
        None
    } else if choice[1] == 0xFF {
        Some(
            ErrorView {
                kind: ErrorKind::PermissionDenied,
                message: "socks5 proxy requires authentication (not supported)"@,
            },
        )
    } else {
        Some(
            numbered(
                ErrorKind::PermissionDenied,
                "unsupported socks5 auth method: "@,
                choice[1],
            ),
        )
    }
}

/// Checks the proxy's choice of an authentication method.
pub fn check_method(choice: &[u8]) -> (refusal: Option<Error>)
    requires
        choice@.len() == 2,
    ensures
        match method_refusal(choice@) {
            None => refusal is None,
            Some(e) => refusal matches Some(r) && r@ == e,
        },
{
    if choice[0] != VERSION {
        return Some(
            numbered_error(
                ErrorKind::InvalidData,
                "invalid socks version in handshake: ",
                choice[0],
            ),
        );
    }
    match choice[1] {
        0x00 => None,
        0xFF => Some(
            Error::new(
                ErrorKind::PermissionDenied,
                "socks5 proxy requires authentication (not supported)",
            ),
        ),
        other => Some(
            numbered_error(ErrorKind::PermissionDenied, "unsupported socks5 auth method: ", other),
        ),
    }
}

/// What a proxy means by a reply code.
pub open spec fn reply_meaning(rep: u8) -> (ErrorKind, Seq<char>) {
    if rep == 0x01 {
        (ErrorKind::Other, "socks5 general failure"@)
    } else if rep == 0x02 {
        (ErrorKind::PermissionDenied, "socks5 connection not allowed"@)
    } else if rep == 0x03 {
        (ErrorKind::NetworkUnreachable, "socks5 network unreachable"@)
    } else if rep == 0x04 {
        (ErrorKind::HostUnreachable, "socks5 host unreachable"@)
    } else if rep == 0x05 {
        (ErrorKind::ConnectionRefused, "socks5 connection refused"@)
    } else if rep == 0x06 {
        (ErrorKind::TimedOut, "socks5 ttl expired"@)
    } else if rep == 0x07 {
        (ErrorKind::Unsupported, "socks5 command not supported"@)
    } else if rep == 0x08 {
        (ErrorKind::InvalidData, "socks5 address type not supported"@)
    } else {
        (ErrorKind::Other, "socks5 unknown reply code"@)
    }
}

/// What is reported of a reply with the code `rep`.
pub open spec fn reply_error_view(rep: u8) -> ErrorView {
    ErrorView {
        kind: reply_meaning(rep).0,
        message: reply_meaning(rep).1 + " (rep="@ + text::prefixed_hex(rep as nat) + ")"@,
    }
}

/// The error that stands for the reply code `rep`.
pub fn reply_error(rep: u8) -> (error: Error)
    ensures
        error@ == reply_error_view(rep),
{
    let (kind, meaning): (ErrorKind, &str) = match rep {
        0x01 => (ErrorKind::Other, "socks5 general failure"),
        0x02 => (ErrorKind::PermissionDenied, "socks5 connection not allowed"),
        0x03 => (ErrorKind::NetworkUnreachable, "socks5 network unreachable"),
        0x04 => (ErrorKind::HostUnreachable, "socks5 host unreachable"),
        0x05 => (ErrorKind::ConnectionRefused, "socks5 connection refused"),
        0x06 => (ErrorKind::TimedOut, "socks5 ttl expired"),
        0x07 => (ErrorKind::Unsupported, "socks5 command not supported"),
        0x08 => (ErrorKind::InvalidData, "socks5 address type not supported"),
        _ => (ErrorKind::Other, "socks5 unknown reply code"),
    };
    let mut message: String = meaning.to_owned();
    message.append(" (rep=");
    text::push_hex(&mut message, rep as u64);
    message.append(")");
    Error { kind, message }
}

/// What follows the header of a reply that grants the connection.
#[derive(Clone, Copy, Debug, PartialEq, Eq, Structural)]
pub enum BoundAddr {
    /// So many octets of an IP address.
    Octets(usize),
    /// A length octet and a domain name.
    Domain,
}

/// What the header of a reply comes to: what follows it, or the error.
pub open spec fn reply_verdict(header: Seq<u8>) -> Result<BoundAddr, ErrorView> {
    if header[0] != VERSION {
        Err(numbered(ErrorKind::InvalidData, "invalid socks version in reply: "@, header[0]))
    } else if header[1] != 0x00 {
        Err(reply_error_view(header[1]))
    } else if header[3] == ATYP_V4 {
        Ok(BoundAddr::Octets(4))
    } else if header[3] == ATYP_V6 {
        Ok(BoundAddr::Octets(16))
    } else if header[3] == ATYP_DOMAIN {
        Ok(BoundAddr::Domain)
    } else {
        Err(numbered(ErrorKind::InvalidData, "unknown socks5 reply ATYP: "@, header[3]))
    }
}

/// Checks the header of a reply.
pub fn check_reply(header: &[u8]) -> (verdict: Result<BoundAddr, Error>)
    requires
        header@.len() == 4,
    ensures
        match reply_verdict(header@) {
            Ok(bound) => verdict == Ok::<BoundAddr, Error>(bound),
            Err(e) => verdict matches Err(r) && r@ == e,
        },
{
    if header[0] != VERSION {
        return Err(
            numbered_error(
                ErrorKind::InvalidData,
                "invalid socks version in reply: ",
                header[0],
            ),
        );
    }
    if header[1] != 0x00 {
        return Err(reply_error(header[1]));
    }
    match header[3] {
        0x01 => Ok(BoundAddr::Octets(4)),
        0x04 => Ok(BoundAddr::Octets(16)),
        0x03 => Ok(BoundAddr::Domain),
        other => Err(
            numbered_error(ErrorKind::InvalidData, "unknown socks5 reply ATYP: ", other),
        ),
    }
}

// ---------------------------------------------------------------------------------------------
// The handshake
// ---------------------------------------------------------------------------------------------

/// What the handshake is waiting for.
#[derive(Clone, Copy, Debug, PartialEq, Eq, Structural)]
pub enum Phase {
    /// The connection to the proxy.
    Connecting,
    /// The proxy's choice of an authentication method.
    Greeted,
    /// The header of the reply to the request.
    Requested,
    /// The length of the domain name in the reply.
    BoundLen,
    /// So many octets of the address in the reply.
    BoundAddr(usize),
    /// The port in the reply.
    BoundPort,
    /// Nothing: the handshake is over.
    Over,
}

/// What happened to the last action.
pub enum Event {
    /// The connection to the proxy stands.
    Connected,
    /// As many octets as were expected have arrived.
    Received(Vec<u8>),
    /// The action failed.
    Failed(Error),
}

/// What happened to the last action, as a mathematical value.
pub enum EventView {
    Connected,
    Received(Seq<u8>),
    Failed(ErrorView),
}

impl View for Event {
    type V = EventView;

    open spec fn view(&self) -> EventView {
        match self {
            Event::Connected => EventView::Connected,
            Event::Received(octets) => EventView::Received(octets@),
            Event::Failed(e) => EventView::Failed(e@),
        }
    }
}

/// What to do next.
pub enum Action {
    /// Connect to the proxy; `timeout` bounds this and every later wait.
    Connect { proxy: SocketAddr, timeout: Duration },
    /// Send the octets in `send`, if any, then receive exactly `expect` octets.
    Exchange { send: Vec<u8>, expect: usize },
    /// The connection through the proxy stands.
    Ready,
    /// Give up and report the error.
    Fail(Error),
}

/// What to do next, as a mathematical value.
pub enum ActionView {
    Connect { proxy: SocketView, timeout: Duration },
    Exchange { send: Seq<u8>, expect: usize },
    Ready,
    Fail(ErrorView),
}

impl View for Action {
    type V = ActionView;

    open spec fn view(&self) -> ActionView {
        match self {
            Action::Connect { proxy, timeout } => ActionView::Connect {
                proxy: proxy@,
                timeout: *timeout,
            },
            Action::Exchange { send, expect } => ActionView::Exchange {
                send: send@,
                expect: *expect,
            },
            Action::Ready => ActionView::Ready,
            Action::Fail(e) => ActionView::Fail(e@),
        }
    }
}

/// The handshake with a proxy for a connection to `target`.
pub struct Handshake {
    pub phase: Phase,
    pub target: SocketAddr,
}

/// How many octets a phase waits for; none if it waits for something else.
pub open spec fn wants(phase: Phase) -> nat {
    match phase {
        Phase::Greeted => 2,
        Phase::Requested => 4,
        Phase::BoundLen => 1,
        Phase::BoundAddr(len) => len as nat,
        Phase::BoundPort => 2,
        _ => 0,
    }
}

/// Whether `event` can happen in `phase`: a failure in any but the last, otherwise what the phase
/// waits for.
pub open spec fn fits(phase: Phase, event: EventView) -> bool {
    match event {
        EventView::Failed(_) => phase != Phase::Over,
        EventView::Connected => phase == Phase::Connecting,
        EventView::Received(octets) => {
            &&& phase != Phase::Connecting
            &&& phase != Phase::Over
            &&& octets.len() == wants(phase)
        },
    }
}

/// Where `event` leads from `phase`, and what to do next.
pub open spec fn next(phase: Phase, target: SocketView, event: EventView) -> (Phase, ActionView) {
    match event {
        EventView::Failed(e) => (Phase::Over, ActionView::Fail(e)),
        EventView::Connected => (
            Phase::Greeted,
            ActionView::Exchange { send: greeting(), expect: 2 },
        ),
        EventView::Received(octets) => match phase {
            Phase::Greeted => match method_refusal(octets) {
                Some(e) => (Phase::Over, ActionView::Fail(e)),
                None => (
                    Phase::Requested,
                    ActionView::Exchange { send: connect_request(target), expect: 4 },
                ),
            },
            Phase::Requested => match reply_verdict(octets) {
                Err(e) => (Phase::Over, ActionView::Fail(e)),
                Ok(BoundAddr::Octets(len)) => receive(Phase::BoundAddr(len), len),
                Ok(BoundAddr::Domain) => receive(Phase::BoundLen, 1),
            },
            Phase::BoundLen => receive(Phase::BoundAddr(octets[0] as usize), octets[0] as usize),
            Phase::BoundAddr(_) => receive(Phase::BoundPort, 2),
            _ => (Phase::Over, ActionView::Ready),
        },
    }
}

/// Sending nothing and receiving `expect` octets in `phase`.
pub open spec fn receive(phase: Phase, expect: usize) -> (Phase, ActionView) {
    (phase, ActionView::Exchange { send: seq![], expect })
}

/// Starts a connection to `target` through `proxy`.
pub fn connect_socks5(proxy: SocketAddr, target: SocketAddr, timeout: Duration) -> (start: (
    Handshake,
    Action,
))
    ensures
        start.0 == (Handshake { phase: Phase::Connecting, target }),
        start.1@ == (ActionView::Connect { proxy: proxy@, timeout }),
{
    (Handshake { phase: Phase::Connecting, target }, Action::Connect { proxy, timeout })
}

impl Handshake {
    /// Takes in what happened to the last action and names the next one.
    pub fn step(&mut self, event: Event) -> (action: Action)
        requires
            fits(old(self).phase, event@),
        ensures
            (final(self).phase, action@) == next(old(self).phase, old(self).target@, event@),
            final(self).target == old(self).target,
    {
        match event {
            Event::Failed(e) => self.fail(e),
            Event::Connected => {
                let mut send: Vec<u8> = Vec::new();
                send.push(VERSION);
                send.push(0x01);
                send.push(0x00);
                assert(send@ =~= greeting());
                self.phase = Phase::Greeted;
                Action::Exchange { send, expect: 2 }
            },
            Event::Received(octets) => match self.phase {
                Phase::Greeted => match check_method(octets.as_slice()) {
                    Some(e) => self.fail(e),
                    None => {
                        self.phase = Phase::Requested;
                        Action::Exchange { send: build_request(self.target), expect: 4 }
                    },
                },
                Phase::Requested => match check_reply(octets.as_slice()) {
                    Err(e) => self.fail(e),
                    Ok(BoundAddr::Octets(len)) => self.receive(Phase::BoundAddr(len), len),
                    Ok(BoundAddr::Domain) => self.receive(Phase::BoundLen, 1),
                },
                Phase::BoundLen => {
                    let len: usize = octets[0] as usize;
                    self.receive(Phase::BoundAddr(len), len)
                },
                Phase::BoundAddr(_) => self.receive(Phase::BoundPort, 2),
                _ => {
                    self.phase = Phase::Over;
                    Action::Ready
                },
            },
        }
    }

    /// Ends the handshake with an error.
    fn fail(&mut self, error: Error) -> (action: Action)
        ensures
            final(self).phase == Phase::Over,
            final(self).target == old(self).target,
            action@ == ActionView::Fail(error@),
    {
        self.phase = Phase::Over;
        Action::Fail(error)
    }

    /// Moves on to `phase`, which waits for `expect` more octets.
    fn receive(&mut self, phase: Phase, expect: usize) -> (action: Action)
        ensures
            (final(self).phase, action@) == receive(phase, expect),
            final(self).target == old(self).target,
    {
        self.phase = phase;
        let send: Vec<u8> = Vec::new();
        assert(send@ =~= seq![]);
        Action::Exchange { send, expect }
    }
}

// ---------------------------------------------------------------------------------------------
// Laws
// ---------------------------------------------------------------------------------------------

/// After any event that fits, the handshake is over exactly if it says so, and otherwise it
/// expects as many octets as its new phase waits for: what it asks for is what it can take.
pub proof fn law_action_fits_phase(phase: Phase, target: SocketView, event: EventView)
    requires
        fits(phase, event),
    ensures
        match next(phase, target, event).1 {
            ActionView::Exchange { send: _, expect } => {
                &&& next(phase, target, event).0 != Phase::Over
                &&& next(phase, target, event).0 != Phase::Connecting
                &&& expect == wants(next(phase, target, event).0)
            },
            ActionView::Ready => next(phase, target, event).0 == Phase::Over,
            ActionView::Fail(_) => next(phase, target, event).0 == Phase::Over,
            ActionView::Connect { proxy: _, timeout: _ } => false,
        },
{
}

/// The request says which address and port it is for, and nothing else: its fourth octet is the
/// address type, then come the octets of the address, then those of the port.
pub proof fn law_request_names_target(target: SocketView)
    requires
        target.ip.well_formed(),
    ensures
        connect_request(target).len() == (if target.ip is V4 {
            10int
        } else {
            22int
        }),
        connect_request(target)[3] == (if target.ip is V4 {
            ATYP_V4
        } else {
            ATYP_V6
        }),
        target.ip == (if target.ip is V4 {
            IpView::V4(connect_request(target).subrange(4, 8))
        } else {
            IpView::V6(connect_request(target).subrange(4, 20))
        }),
        dns::be16_at(connect_request(target), connect_request(target).len() - 2) == target.port,
{
    match target.ip {
        IpView::V4(octets) => {
            assert(connect_request(target).subrange(4, 8) =~= octets);
        },
        IpView::V6(octets) => {
            assert(connect_request(target).subrange(4, 20) =~= octets);
        },
    }
}

/// What a handshake comes to.
pub enum Outcome {
    /// It went through, and this is what the proxy sent beyond it.
    Through(Seq<u8>),
    /// It ended with an error.
    Refused(ErrorView),
    /// The proxy sent too little.
    Starved,
}

/// How far a phase is from the end.
pub open spec fn distance(phase: Phase) -> nat {
    match phase {
        Phase::Connecting => 6,
        Phase::Greeted => 5,
        Phase::Requested => 4,
        Phase::BoundLen => 3,
        Phase::BoundAddr(_) => 2,
        Phase::BoundPort => 1,
        Phase::Over => 0,
    }
}

/// What the handshake comes to from `phase` on, where the proxy sends the octets `input` and
/// every transfer succeeds.
pub open spec fn outcome(phase: Phase, target: SocketView, input: Seq<u8>) -> Outcome
    recommends
        phase != Phase::Connecting,
        phase != Phase::Over,
    decreases distance(phase),
{
    if input.len() < wants(phase) {
        Outcome::Starved
    } else {
        let octets = input.take(wants(phase) as int);
        let left = input.skip(wants(phase) as int);
        let (then, action) = next(phase, target, EventView::Received(octets));
        match action {
            ActionView::Ready => Outcome::Through(left),
            ActionView::Fail(e) => Outcome::Refused(e),
            _ => outcome(then, target, left),
        }
    }
}

/// The length of a complete and favourable answer to the handshake at the start of `input`: the
/// choice of no authentication, a reply that grants the connection, and the address and port that
/// follow it; `None` if there is no such answer.
pub open spec fn consent_len(input: Seq<u8>) -> Option<int> {
    if input.len() >= 6 && input[0] == VERSION && input[1] == 0x00 && input[2] == VERSION
        && input[3] == 0x00 {
        let len = if input[5] == ATYP_V4 {
            Some(12int)
        } else if input[5] == ATYP_V6 {
            Some(24int)
        } else if input[5] == ATYP_DOMAIN && input.len() >= 7 {
            Some(9 + input[6])
        } else {
            None
        };
        match len {
            Some(n) if n <= input.len() => Some(n),
            _ => None,
        }
    } else {
        None
    }
}

/// The handshake goes through exactly if the proxy answers with a complete consent, and then it
/// takes in that consent and not an octet more.
pub proof fn law_through_iff_consent(target: SocketView, input: Seq<u8>)
    ensures
        (outcome(Phase::Greeted, target, input) is Through) == (consent_len(input) is Some),
        consent_len(input) matches Some(n) ==> outcome(Phase::Greeted, target, input)
            == Outcome::Through(input.skip(n)),
{
    if input.len() >= 2 {
        let choice = input.take(2);
        let reply = input.skip(2);
        assert(choice[0] == input[0] && choice[1] == input[1]);
        if method_refusal(choice) is None {
            assert(outcome(Phase::Greeted, target, input) == outcome(
                Phase::Requested,
                target,
                reply,
            ));
            if reply.len() >= 4 {
                let header = reply.take(4);
                let bound = reply.skip(4);
                assert(forall|i: int| 0 <= i < 4 ==> header[i] == input[i + 2]);
                assert(bound =~= input.skip(6));
                match reply_verdict(header) {
                    Err(_) => {},
                    Ok(BoundAddr::Octets(len)) => {
                        assert(outcome(Phase::Requested, target, reply) == outcome(
                            Phase::BoundAddr(len),
                            target,
                            bound,
                        ));
                        lemma_address_and_port(target, bound, len);
                        if bound.len() >= len + 2 {
                            assert(bound.skip(len + 2) =~= input.skip(8 + len));
                        }
                    },
                    Ok(BoundAddr::Domain) => {
                        assert(outcome(Phase::Requested, target, reply) == outcome(
                            Phase::BoundLen,
                            target,
                            bound,
                        ));
                        if bound.len() >= 1 {
                            let len = input[6] as usize;
                            assert(bound.take(1)[0] == input[6]);
                            assert(outcome(Phase::BoundLen, target, bound) == outcome(
                                Phase::BoundAddr(len),
                                target,
                                bound.skip(1),
                            ));
                            lemma_address_and_port(target, bound.skip(1), len);
                            if bound.len() >= len + 3 {
                                assert(bound.skip(1).skip(len + 2) =~= input.skip(9 + len));
                            }
                        }
                    },
                }
            }
        }
    }
}

/// The last two phases take in the address and the port.
proof fn lemma_address_and_port(target: SocketView, input: Seq<u8>, len: usize)
    ensures
        outcome(Phase::BoundAddr(len), target, input) == (if input.len() >= len + 2 {
            Outcome::Through(input.skip(len + 2))
        } else {
            Outcome::Starved
        }),
{
    if input.len() >= len {
        let left = input.skip(len as int);
        assert(outcome(Phase::BoundAddr(len), target, input) == outcome(
            Phase::BoundPort,
            target,
            left,
        ));
        if left.len() >= 2 {
            assert(left.skip(2) =~= input.skip(len + 2));
        }
    }
}

/// A reply code other than zero surfaces as the error that stands for it.
pub proof fn law_reject_surfaces(target: SocketView, input: Seq<u8>)
    requires
        input.len() >= 6,
        input[0] == VERSION,
        input[1] == 0x00,
        input[2] == VERSION,
        input[3] != 0x00,
    ensures
        outcome(Phase::Greeted, target, input) == Outcome::Refused(reply_error_view(input[3])),
{
    let reply = input.skip(2);
    let header = reply.take(4);
    assert(input.take(2)[0] == input[0] && input.take(2)[1] == input[1]);
    assert(header[0] == input[2] && header[1] == input[3]);
    assert(outcome(Phase::Greeted, target, input) == outcome(Phase::Requested, target, reply));
}

} // verus!
