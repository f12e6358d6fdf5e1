//! What holds of a SOCKS5 handshake octet by octet: what is sent, in which order, and what every
//! answer of the proxy comes to.

use vstd::prelude::*;

use crate::error::{ErrorKind, ErrorView};
use crate::ip::{IpAddr, IpView, SocketAddr, SocketView};
use crate::socks5;
use crate::socks5::{Action, ActionView, Event, EventView, Phase};
use crate::text;
use crate::time::Duration;

verus! {

/// An endpoint is shown with everything that is in it.
pub proof fn law_endpoint_shown_whole(addr: SocketAddr)
    ensures
        addr@.port == addr.port,
        addr@.flowinfo == addr.flowinfo,
        addr@.scope_id == addr.scope_id,
        match addr.ip {
            IpAddr::V4(octets) => addr@.ip == IpView::V4(octets@),
            IpAddr::V6(octets) => addr@.ip == IpView::V6(octets@),
        },
{
}

/// The request for a connection to `target`, octet by octet: version, command, a zero, the type of
/// the address, the address, the port with its more significant octet first.
pub open spec fn request_octets(target: SocketAddr) -> Seq<u8> {
    let start = match target.ip {
        IpAddr::V4(o) => seq![5u8, 1, 0, 1] + seq![o[0], o[1], o[2], o[3]],
        IpAddr::V6(o) => seq![5u8, 1, 0, 4] + seq![
            o[0],
            o[1],
            o[2],
            o[3],
            o[4],
            o[5],
            o[6],
            o[7],
            o[8],
            o[9],
            o[10],
            o[11],
            o[12],
            o[13],
            o[14],
            o[15],
        ],
    };
    start + seq![(target.port / 256) as u8, (target.port % 256) as u8]
}

/// The request for a connection holds these octets and no others.
pub proof fn law_request_octets(target: SocketAddr)
    ensures
        socks5::connect_request(target@) == request_octets(target),
{
    assert(socks5::connect_request(target@) =~= request_octets(target));
}

/// What is reported of a reply code other than zero.
pub open spec fn code_report(code: u8) -> ErrorView {
    let named = |meaning: Seq<char>|
        meaning + " (rep="@ + text::prefixed_hex(code as nat) + ")"@;
    match code {
        1 => ErrorView { kind: ErrorKind::Other, message: named("socks5 general failure"@) },
        2 => ErrorView {
            kind: ErrorKind::PermissionDenied,
            message: named("socks5 connection not allowed"@),
        },
        3 => ErrorView {
            kind: ErrorKind::NetworkUnreachable,
            message: named("socks5 network unreachable"@),
        },
        4 => ErrorView {
            kind: ErrorKind::HostUnreachable,
            message: named("socks5 host unreachable"@),
        },
        5 => ErrorView {
            kind: ErrorKind::ConnectionRefused,
            message: named("socks5 connection refused"@),
        },
        6 => ErrorView { kind: ErrorKind::TimedOut, message: named("socks5 ttl expired"@) },
        7 => ErrorView {
            kind: ErrorKind::Unsupported,
            message: named("socks5 command not supported"@),
        },
        8 => ErrorView {
            kind: ErrorKind::InvalidData,
            message: named("socks5 address type not supported"@),
        },
        _ => ErrorView { kind: ErrorKind::Other, message: named("socks5 unknown reply code"@) },
    }
}

/// Each reply code is reported as what it means, and by its number.
pub proof fn law_reply_codes_reported(code: u8)
    ensures
        socks5::reply_error_view(code) == code_report(code),
{
}

/// The actions of a handshake, in order, where `action` is the next one, the connection to the proxy
/// is made, and the proxy sends `input` and then nothing more; at most `fuel` of them.
pub open spec fn handshake_course(
    phase: Phase,
    target: SocketView,
    action: ActionView,
    input: Seq<u8>,
    fuel: nat,
) -> Seq<ActionView>
    decreases fuel,
{
    if fuel == 0 {
        seq![action]
    } else {
        match action {
            ActionView::Connect { proxy: _, timeout: _ } => {
                let (then, more) = socks5::next(phase, target, EventView::Connected);
                seq![action] + handshake_course(then, target, more, input, (fuel - 1) as nat)
            },
            ActionView::Exchange { send: _, expect } => if input.len() < expect {
                seq![action]
            } else {
                let octets = input.take(expect as int);
                let (then, more) = socks5::next(phase, target, EventView::Received(octets));
                seq![action] + handshake_course(
                    then,
                    target,
                    more,
                    input.skip(expect as int),
                    (fuel - 1) as nat,
                )
            },
            _ => seq![action],
        }
    }
}

/// Giving up with a text and a number.
pub open spec fn give_up(kind: ErrorKind, message: Seq<char>, n: u8) -> ActionView {
    ActionView::Fail(ErrorView { kind, message: message + text::decimal(n as nat) })
}

/// Waiting for octets.
pub open spec fn wait_for(expect: usize) -> ActionView {
    ActionView::Exchange { send: seq![], expect }
}

/// What follows the header of a reply that grants the connection, where `input` is what the proxy
/// sends after it: `len` octets of an address and two of a port.
pub open spec fn bound_course(len: usize, input: Seq<u8>) -> Seq<ActionView> {
    if input.len() < len {
        seq![wait_for(len)]
    } else if input.len() < len + 2 {
        seq![wait_for(len), wait_for(2)]
    } else {
        seq![wait_for(len), wait_for(2), ActionView::Ready]
    }
}

/// What follows the header of a reply, where `input` is what the proxy sends from the header on.
pub open spec fn reply_course(input: Seq<u8>) -> Seq<ActionView> {
    if input.len() < 4 {
        seq![]
    } else if input[0] != 5 {
        seq![give_up(ErrorKind::InvalidData, "invalid socks version in reply: "@, input[0])]
    } else if input[1] != 0 {
        seq![ActionView::Fail(code_report(input[1]))]
    } else if input[3] == 1 {
        bound_course(4, input.skip(4))
    } else if input[3] == 4 {
        bound_course(16, input.skip(4))
    } else if input[3] != 3 {
        seq![give_up(ErrorKind::InvalidData, "unknown socks5 reply ATYP: "@, input[3])]
    } else if input.len() < 5 {
        seq![wait_for(1)]
    } else {
        seq![wait_for(1)] + bound_course(input[4] as usize, input.skip(5))
    }
}

/// A handshake connects to the proxy, greets it with an offer of no authentication, and waits for
/// two octets. Unless these accept the offer it gives up, and says why. Then it sends the request
/// for the target and waits for four octets. Unless these grant the connection it gives up, and says
/// why. Then it takes in the address, of the length that the type calls for, and the port, and the
/// connection stands.
pub proof fn law_handshake_course(
    proxy: SocketAddr,
    target: SocketAddr,
    timeout: Duration,
    input: Seq<u8>,
)
    ensures
        ({
            let connect = ActionView::Connect { proxy: proxy@, timeout };
            let greet = ActionView::Exchange { send: seq![5u8, 1, 0], expect: 2 };
            let request = ActionView::Exchange { send: request_octets(target), expect: 4 };
            handshake_course(Phase::Connecting, target@, connect, input, 7) == if input.len() < 2 {
                seq![connect, greet]
            } else if input[0] != 5 {
                seq![
                    connect,
                    greet,
                    give_up(
                        ErrorKind::InvalidData,
                        "invalid socks version in handshake: "@,
                        input[0],
                    ),
                ]
            } else if input[1] == 0xFF {
                seq![
                    connect,
                    greet,
                    ActionView::Fail(
                        ErrorView {
                            kind: ErrorKind::PermissionDenied,
                            message: "socks5 proxy requires authentication (not supported)"@,
                        },
                    ),
                ]
            } else if input[1] != 0 {
                seq![
                    connect,
                    greet,
                    give_up(
                        ErrorKind::PermissionDenied,
                        "unsupported socks5 auth method: "@,
                        input[1],
                    ),
                ]
            } else {
                seq![connect, greet, request] + reply_course(input.skip(2))
            }
        }),
{
    let connect = ActionView::Connect { proxy: proxy@, timeout };
    let greet = ActionView::Exchange { send: seq![5u8, 1, 0], expect: 2 };
    let request = ActionView::Exchange { send: request_octets(target), expect: 4 };
    let t = target@;
    law_request_octets(target);
    assert(socks5::greeting() =~= seq![5u8, 1, 0]);
    let course = handshake_course(Phase::Connecting, t, connect, input, 7);
    assert(course == seq![connect] + handshake_course(Phase::Greeted, t, greet, input, 6));
    if input.len() < 2 {
        assert(course =~= seq![connect, greet]);
    } else {
        let choice = input.take(2);
        assert(choice[0] == input[0] && choice[1] == input[1]);
        let (then, more) = socks5::next(Phase::Greeted, t, EventView::Received(choice));
        let rest = handshake_course(then, t, more, input.skip(2), 5);
        assert(course =~= seq![connect, greet] + rest);
        if input[0] != 5 || input[1] != 0 {
            assert(rest == seq![more]);
            assert(course =~= seq![connect, greet, more]);
        } else {
            assert(more == request);
            lemma_reply_course(t, request, input.skip(2));
            assert(course =~= seq![connect, greet, request] + reply_course(input.skip(2)));
        }
    }
}

/// The handshake from the request on.
proof fn lemma_reply_course(target: SocketView, request: ActionView, input: Seq<u8>)
    requires
        request matches ActionView::Exchange { send: _, expect } && expect == 4,
    ensures
        handshake_course(Phase::Requested, target, request, input, 5) == seq![request]
            + reply_course(input),
{
    let course = handshake_course(Phase::Requested, target, request, input, 5);
    if input.len() < 4 {
        assert(course =~= seq![request] + reply_course(input));
    } else {
        let header = input.take(4);
        assert(header[0] == input[0] && header[1] == input[1] && header[3] == input[3]);
        let (then, more) = socks5::next(Phase::Requested, target, EventView::Received(header));
        let left = input.skip(4);
        let rest = handshake_course(then, target, more, left, 4);
        assert(course == seq![request] + rest);
        law_reply_codes_reported(input[1]);
        if input[0] != 5 || input[1] != 0 || input[3] != 1 && input[3] != 4 && input[3] != 3 {
            assert(rest =~= reply_course(input));
        } else if input[3] == 1 {
            lemma_bound_course(target, 4, left, 4);
        } else if input[3] == 4 {
            lemma_bound_course(target, 16, left, 4);
        } else if input.len() < 5 {
            assert(rest =~= reply_course(input));
        } else {
            let len = input[4] as usize;
            assert(left.take(1)[0] == input[4]);
            assert(left.skip(1) =~= input.skip(5));
            lemma_bound_course(target, len, input.skip(5), 3);
            assert(rest =~= reply_course(input));
        }
    }
}

/// The handshake from the address on.
proof fn lemma_bound_course(target: SocketView, len: usize, input: Seq<u8>, fuel: nat)
    requires
        fuel >= 3,
    ensures
        handshake_course(Phase::BoundAddr(len), target, wait_for(len), input, fuel)
            == bound_course(len, input),
{
    reveal_with_fuel(handshake_course, 4);
    assert(handshake_course(Phase::BoundAddr(len), target, wait_for(len), input, fuel)
        =~= bound_course(len, input));
}

/// Whatever fails, in whatever phase, ends the handshake with that failure.
pub proof fn law_failure_ends_handshake(phase: Phase, target: SocketView, e: ErrorView)
    ensures
        socks5::next(phase, target, EventView::Failed(e)) == (Phase::Over, ActionView::Fail(e)),
        phase != Phase::Over ==> socks5::fits(phase, EventView::Failed(e)),
{
}

/// In each phase the handshake takes as many octets as it has asked for.
pub proof fn law_handshake_takes_every_answer(octets: Seq<u8>, len: usize)
    ensures
        socks5::fits(Phase::Connecting, EventView::Connected),
        socks5::fits(Phase::Greeted, EventView::Received(octets)) <==> octets.len() == 2,
        socks5::fits(Phase::Requested, EventView::Received(octets)) <==> octets.len() == 4,
        socks5::fits(Phase::BoundLen, EventView::Received(octets)) <==> octets.len() == 1,
        socks5::fits(Phase::BoundAddr(len), EventView::Received(octets)) <==> octets.len() == len,
        socks5::fits(Phase::BoundPort, EventView::Received(octets)) <==> octets.len() == 2,
{
}

/// An action and an event are shown with everything that is in them.
pub proof fn law_handshake_shown_whole(action: Action, event: Event)
    ensures
        match action {
            Action::Connect { proxy, timeout } => action@ == (ActionView::Connect {
                proxy: proxy@,
                timeout,
            }),
            Action::Exchange { send, expect } => action@ == (ActionView::Exchange {
                send: send@,
                expect,
            }),
            Action::Ready => action@ == ActionView::Ready,
            Action::Fail(e) => action@ == ActionView::Fail(
                ErrorView { kind: e.kind, message: e.message@ },
            ),
        },
        match event {
            Event::Connected => event@ == EventView::Connected,
            Event::Received(octets) => event@ == EventView::Received(octets@),
            Event::Failed(e) => event@ == EventView::Failed(
                ErrorView { kind: e.kind, message: e.message@ },
            ),
        },
{
}

} // verus!
