//! What holds of queries and resolutions from their start to their end: what is asked of whom, in
//! which order, and what it comes to.

use vstd::prelude::*;

use crate::addr::Dial;
use crate::dns;
use crate::error::{Error, ErrorKind, ErrorView};
use crate::ip::{IpAddr, IpView, SocketAddr};
use crate::lookup::{
    Lookup, Query, QueryAction, QueryActionView, QueryEvent, QueryPhase, QueryView, Resolution,
    ResolutionView, ResolveAction, ResolveActionView, ResolvePhase, ResolvePhaseView,
};
use crate::time::Duration;

verus! {

// ---------------------------------------------------------------------------------------------
// A query over TCP
// ---------------------------------------------------------------------------------------------

/// The world that a query meets: what the names of servers and proxies resolve to, how connecting
/// goes, and what comes back if some octets are sent and so many are waited for.
pub struct QueryWorld {
    pub server_at: spec_fn(Seq<char>) -> Result<SocketAddr, Error>,
    pub proxy_at: spec_fn(Seq<char>) -> Result<SocketAddr, Error>,
    pub made: spec_fn(Dial) -> Result<(), Error>,
    pub exchanged: spec_fn(Seq<u8>, usize) -> Result<Vec<u8>, Error>,
}

/// What happens in `world` if `action` is performed.
pub open spec fn query_happens(world: QueryWorld, action: QueryActionView) -> QueryEvent {
    match action {
        QueryActionView::ResolveServer(server) => match (world.server_at)(server) {
            Ok(addr) => QueryEvent::Resolved(addr),
            Err(e) => QueryEvent::Failed(e),
        },
        QueryActionView::ResolveProxy(proxy) => match (world.proxy_at)(proxy) {
            Ok(addr) => QueryEvent::Resolved(addr),
            Err(e) => QueryEvent::Failed(e),
        },
        QueryActionView::Connect(way) => match (world.made)(way) {
            Ok(_) => QueryEvent::Connected,
            Err(e) => QueryEvent::Failed(e),
        },
        QueryActionView::Exchange { send, expect } => match (world.exchanged)(send, expect) {
            Ok(octets) => QueryEvent::Received(octets),
            Err(e) => QueryEvent::Failed(e),
        },
        QueryActionView::Finish(_) => arbitrary(),
    }
}

/// The actions of a query in `world`, in order, where `action` is the next one; at most `fuel` of
/// them.
pub open spec fn query_course(
    world: QueryWorld,
    query: QueryView,
    action: QueryActionView,
    fuel: nat,
) -> Seq<QueryActionView>
    decreases fuel,
{
    if action is Finish || fuel == 0 {
        seq![action]
    } else {
        let (then, more) = query.next(query_happens(world, action));
        seq![action] + query_course(world, then, more, (fuel - 1) as nat)
    }
}

/// The end of a query that an error stopped.
pub open spec fn stopped_by(e: Error) -> QueryActionView {
    QueryActionView::Finish(Err(ErrorView { kind: e.kind, message: e.message@ }))
}

/// What a query does once the connection is to be made by `way`: it connects; it sends the query
/// in a frame and waits for two octets; it waits for as many octets as these say, if that is
/// enough for a header; and it reports what is in them.
pub open spec fn query_dialogue(
    world: QueryWorld,
    way: Dial,
    domain: Seq<char>,
    qtype: u16,
) -> Seq<QueryActionView> {
    let connect = QueryActionView::Connect(way);
    let frame = dns::framed(dns::query_message(domain, qtype));
    let ask = QueryActionView::Exchange { send: frame, expect: 2 };
    match (world.made)(way) {
        Err(e) => seq![connect, stopped_by(e)],
        Ok(_) => match (world.exchanged)(frame, 2) {
            Err(e) => seq![connect, ask, stopped_by(e)],
            Ok(prefix) => {
                let len = (prefix@[0] * 256 + prefix@[1]) as usize;
                let listen = QueryActionView::Exchange { send: seq![], expect: len };
                if len < 12 {
                    seq![
                        connect,
                        ask,
                        QueryActionView::Finish(
                            Err(
                                ErrorView {
                                    kind: ErrorKind::InvalidData,
                                    message: "dns response too short"@,
                                },
                            ),
                        ),
                    ]
                } else {
                    match (world.exchanged)(seq![], len) {
                        Err(e) => seq![connect, ask, listen, stopped_by(e)],
                        Ok(msg) => seq![
                            connect,
                            ask,
                            listen,
                            QueryActionView::Finish(dns::answers(msg@, qtype)),
                        ],
                    }
                }
            },
        },
    }
}

/// A query resolves its server, then its proxy if one is named, and then talks to the server: by
/// way of the proxy with that name, if one is named, directly otherwise, and with its own timeout.
/// The first failure ends it.
pub proof fn law_query_course(
    world: QueryWorld,
    dns_server: Seq<char>,
    domain: Seq<char>,
    qtype: u16,
    timeout: Duration,
    proxy: Option<Seq<char>>,
)
    ensures
        query_course(
            world,
            QueryView { phase: QueryPhase::ResolvingServer, domain, qtype, timeout, proxy },
            QueryActionView::ResolveServer(dns_server),
            5,
        ) == match ((world.server_at)(dns_server), proxy) {
            (Err(e), _) => seq![QueryActionView::ResolveServer(dns_server), stopped_by(e)],
            (Ok(target), None) => seq![QueryActionView::ResolveServer(dns_server)]
                + query_dialogue(world, Dial::Direct { target, timeout }, domain, qtype),
            (Ok(target), Some(name)) => seq![
                QueryActionView::ResolveServer(dns_server),
                QueryActionView::ResolveProxy(name),
            ] + match (world.proxy_at)(name) {
                Err(e) => seq![stopped_by(e)],
                Ok(via) => query_dialogue(
                    world,
                    Dial::Proxied { proxy: via, target, timeout },
                    domain,
                    qtype,
                ),
            },
        },
{
    let start = QueryView { phase: QueryPhase::ResolvingServer, domain, qtype, timeout, proxy };
    let first = QueryActionView::ResolveServer(dns_server);
    let course = query_course(world, start, first, 5);
    match ((world.server_at)(dns_server), proxy) {
        (Err(e), _) => {
            lemma_course_over(world, start.next(QueryEvent::Failed(e)).0, stopped_by(e), 4);
            assert(course =~= seq![first, stopped_by(e)]);
        },
        (Ok(target), None) => {
            let way = Dial::Direct { target, timeout };
            lemma_dialogue(world, start, way, 4);
        },
        (Ok(target), Some(name)) => {
            let second = QueryActionView::ResolveProxy(name);
            let then = start.in_phase(QueryPhase::ResolvingProxy(target));
            let rest = query_course(world, then, second, 4);
            assert(course == seq![first] + rest);
            match (world.proxy_at)(name) {
                Err(e) => {
                    lemma_course_over(world, then.next(QueryEvent::Failed(e)).0, stopped_by(e), 3);
                    assert(course =~= seq![first, second] + seq![stopped_by(e)]);
                },
                Ok(via) => {
                    let way = Dial::Proxied { proxy: via, target, timeout };
                    lemma_dialogue(world, then, way, 3);
                    assert(course =~= seq![first, second] + query_dialogue(
                        world,
                        way,
                        domain,
                        qtype,
                    ));
                },
            }
        },
    }
}

/// Once the outcome is to be reported nothing else is done.
proof fn lemma_course_over(world: QueryWorld, query: QueryView, end: QueryActionView, fuel: nat)
    requires
        end is Finish,
    ensures
        query_course(world, query, end, fuel) == seq![end],
{
}

/// From the connection on a query goes as the dialogue with the server does.
proof fn lemma_dialogue(world: QueryWorld, query: QueryView, way: Dial, fuel: nat)
    requires
        fuel >= 3,
    ensures
        query_course(
            world,
            query.in_phase(QueryPhase::Connecting),
            QueryActionView::Connect(way),
            fuel,
        ) == query_dialogue(world, way, query.domain, query.qtype),
{
    let connecting = query.in_phase(QueryPhase::Connecting);
    let connect = QueryActionView::Connect(way);
    let course = query_course(world, connecting, connect, fuel);
    let less = (fuel - 1) as nat;
    match (world.made)(way) {
        Err(e) => {
            lemma_course_over(world, connecting.next(QueryEvent::Failed(e)).0, stopped_by(e), less);
            assert(course =~= seq![connect, stopped_by(e)]);
        },
        Ok(_) => {
            let waiting = query.in_phase(QueryPhase::AwaitingLength);
            let frame = dns::framed(dns::query_message(query.domain, query.qtype));
            let ask = QueryActionView::Exchange { send: frame, expect: 2 };
            assert(course == seq![connect] + query_course(world, waiting, ask, less));
            lemma_exchanges(world, waiting, frame, less);
            assert(course =~= query_dialogue(world, way, query.domain, query.qtype));
        },
    }
}

/// The exchanges with the server, from the sending of the query on.
proof fn lemma_exchanges(world: QueryWorld, query: QueryView, frame: Seq<u8>, fuel: nat)
    requires
        fuel >= 2,
        query.phase is AwaitingLength,
    ensures
        query_course(world, query, QueryActionView::Exchange { send: frame, expect: 2 }, fuel) == {
            let ask = QueryActionView::Exchange { send: frame, expect: 2 };
            match (world.exchanged)(frame, 2) {
                Err(e) => seq![ask, stopped_by(e)],
                Ok(prefix) => {
                    let len = (prefix@[0] * 256 + prefix@[1]) as usize;
                    let listen = QueryActionView::Exchange { send: seq![], expect: len };
                    if len < 12 {
                        seq![ask, QueryActionView::Finish(Err(dns::too_short()))]
                    } else {
                        match (world.exchanged)(seq![], len) {
                            Err(e) => seq![ask, listen, stopped_by(e)],
                            Ok(msg) => seq![
                                ask,
                                listen,
                                QueryActionView::Finish(dns::answers(msg@, query.qtype)),
                            ],
                        }
                    }
                },
            }
        },
{
    let ask = QueryActionView::Exchange { send: frame, expect: 2 };
    let course = query_course(world, query, ask, fuel);
    let less = (fuel - 1) as nat;
    match (world.exchanged)(frame, 2) {
        Err(e) => {
            lemma_course_over(world, query.next(QueryEvent::Failed(e)).0, stopped_by(e), less);
            assert(course =~= seq![ask, stopped_by(e)]);
        },
        Ok(prefix) => {
            let len = (prefix@[0] * 256 + prefix@[1]) as usize;
            let (then, more) = query.next(QueryEvent::Received(prefix));
            assert(course == seq![ask] + query_course(world, then, more, less));
            if len < 12 {
                lemma_course_over(world, then, more, less);
                assert(course =~= seq![ask, more]);
            } else {
                let listen = QueryActionView::Exchange { send: seq![], expect: len };
                assert(more == listen);
                let event = query_happens(world, listen);
                let (last, end) = then.next(event);
                assert(query_course(world, then, listen, less) == seq![listen] + query_course(
                    world,
                    last,
                    end,
                    (less - 1) as nat,
                ));
                lemma_course_over(world, last, end, (less - 1) as nat);
                assert(course =~= seq![ask, listen, end]);
            }
        },
    }
}

/// An action of a query and the query itself are shown with everything that is in them.
pub proof fn law_query_shown_whole(query: Query, action: QueryAction)
    ensures
        query@.phase == query.phase,
        query@.domain == query.domain@,
        query@.qtype == query.qtype,
        query@.timeout == query.timeout,
        query@.proxy is Some <==> query.proxy is Some,
        query.proxy matches Some(name) ==> query@.proxy == Some(name@),
        match action {
            QueryAction::ResolveServer(name) => action@ == QueryActionView::ResolveServer(name@),
            QueryAction::ResolveProxy(name) => action@ == QueryActionView::ResolveProxy(name@),
            QueryAction::Connect(way) => action@ == QueryActionView::Connect(way),
            QueryAction::Exchange { send, expect } => action@ == (QueryActionView::Exchange {
                send: send@,
                expect,
            }),
            QueryAction::Finish(Err(e)) => action@ == stopped_by(e),
            QueryAction::Finish(Ok(ips)) => {
                &&& action@ matches QueryActionView::Finish(Ok(shown))
                &&& shown.len() == ips@.len()
                &&& forall|i: int|
                    0 <= i < ips@.len() ==> #[trigger] shown[i] == match ips@[i] {
                        IpAddr::V4(octets) => IpView::V4(octets@),
                        IpAddr::V6(octets) => IpView::V6(octets@),
                    }
            },
        },
{
}

// ---------------------------------------------------------------------------------------------
// A resolution
// ---------------------------------------------------------------------------------------------

/// The world that a resolution meets: the outcome of every query over HTTPS, by the server, the
/// domain, the type and the timeout, and of every query over TCP, by the server, the domain, the
/// type, the timeout and the proxy.
pub struct ResolveWorld {
    pub over_doh: spec_fn(Seq<char>, Seq<char>, u16, Duration) -> Lookup,
    pub over_tcp: spec_fn(Seq<char>, Seq<char>, u16, Duration, Option<Seq<char>>) -> Lookup,
}

/// The actions of a resolution in `world`, in order, where `action` is the next one; at most
/// `fuel` queries.
pub open spec fn resolution_course(
    world: ResolveWorld,
    resolution: ResolutionView,
    action: ResolveActionView,
    fuel: nat,
) -> Seq<ResolveActionView>
    decreases fuel,
{
    if action is Finish || fuel == 0 {
        seq![action]
    } else {
        let outcome = match action {
            ResolveActionView::Doh { url, domain, qtype, timeout } => (world.over_doh)(
                url,
                domain,
                qtype,
                timeout,
            ),
            ResolveActionView::Tcp { dns_server, domain, qtype, timeout, proxy } => {
                (world.over_tcp)(dns_server, domain, qtype, timeout, proxy)
            },
            ResolveActionView::Finish(_) => arbitrary(),
        };
        let (then, more) = resolution.next(outcome);
        seq![action] + resolution_course(world, then, more, (fuel - 1) as nat)
    }
}

/// At most two seconds.
pub open spec fn two_seconds_of(timeout: Duration) -> Duration {
    if timeout.nanos < 2_000_000_000 {
        timeout
    } else {
        Duration { nanos: 2_000_000_000 }
    }
}

/// The queries for one type of record, in order: over HTTPS if there is a server for it, and over
/// TCP if there is none or if HTTPS fails.
pub open spec fn attempts(
    world: ResolveWorld,
    dns_server: Seq<char>,
    domain: Seq<char>,
    qtype: u16,
    timeout: Duration,
    proxy: Option<Seq<char>>,
    doh: Option<Seq<char>>,
) -> Seq<ResolveActionView> {
    let tcp = ResolveActionView::Tcp { dns_server, domain, qtype, timeout, proxy };
    match doh {
        None => seq![tcp],
        Some(url) => {
            let short = two_seconds_of(timeout);
            let https = ResolveActionView::Doh { url, domain, qtype, timeout: short };
            if (world.over_doh)(url, domain, qtype, short) is Ok {
                seq![https]
            } else {
                seq![https, tcp]
            }
        },
    }
}

/// What the queries for one type of record come to.
pub open spec fn attempted(
    world: ResolveWorld,
    dns_server: Seq<char>,
    domain: Seq<char>,
    qtype: u16,
    timeout: Duration,
    proxy: Option<Seq<char>>,
    doh: Option<Seq<char>>,
) -> Lookup {
    let over_tcp = (world.over_tcp)(dns_server, domain, qtype, timeout, proxy);
    match doh {
        None => over_tcp,
        Some(url) => match (world.over_doh)(url, domain, qtype, two_seconds_of(timeout)) {
            Ok(ips) => Ok(ips),
            Err(_) => over_tcp,
        },
    }
}

/// A resolution asks for the IPv4 addresses (records of type 1) and, unless that fails, for the
/// IPv6 addresses (records of type 28). Every query over TCP names the server, the domain, the
/// timeout and the proxy that the resolution was started with, and no proxy if there was none;
/// every query over HTTPS the server for HTTPS and the domain, with a timeout cut to two seconds.
/// It comes to the IPv4 addresses, followed by the IPv6 addresses if they can be had, or to the
/// failure to find IPv4 addresses.
pub proof fn law_resolution_course(
    world: ResolveWorld,
    dns_server: Seq<char>,
    domain: Seq<char>,
    timeout: Duration,
    proxy: Option<Seq<char>>,
    doh: Option<Seq<char>>,
)
    ensures
        ({
            let start = ResolutionView {
                phase: ResolvePhaseView::V4,
                via_doh: false,
                dns_server,
                domain,
                timeout,
                proxy,
                doh,
            };
            let v4 = attempted(world, dns_server, domain, 1, timeout, proxy, doh);
            let v6 = attempted(world, dns_server, domain, 28, timeout, proxy, doh);
            resolution_course(world, start.ask().0, start.ask().1, 4) == attempts(
                world,
                dns_server,
                domain,
                1,
                timeout,
                proxy,
                doh,
            ) + match v4 {
                Err(e) => seq![ResolveActionView::Finish(Err(e))],
                Ok(first) => attempts(world, dns_server, domain, 28, timeout, proxy, doh).push(
                    ResolveActionView::Finish(
                        Ok(
                            match v6 {
                                Err(_) => first@,
                                Ok(second) => first@ + second@,
                            },
                        ),
                    ),
                ),
            }
        }),
{
    reveal_with_fuel(resolution_course, 5);
    let start = ResolutionView {
        phase: ResolvePhaseView::V4,
        via_doh: false,
        dns_server,
        domain,
        timeout,
        proxy,
        doh,
    };
    let course = resolution_course(world, start.ask().0, start.ask().1, 4);
    let v4 = attempted(world, dns_server, domain, 1, timeout, proxy, doh);
    let v6 = attempted(world, dns_server, domain, 28, timeout, proxy, doh);
    let for_v4 = attempts(world, dns_server, domain, 1, timeout, proxy, doh);
    let for_v6 = attempts(world, dns_server, domain, 28, timeout, proxy, doh);
    match (v4, v6) {
        (Err(e), _) => {
            assert(course =~= for_v4 + seq![ResolveActionView::Finish(Err(e))]);
        },
        (Ok(first), Err(_)) => {
            assert(course =~= for_v4 + for_v6.push(ResolveActionView::Finish(Ok(first@))));
        },
        (Ok(first), Ok(second)) => {
            assert(course =~= for_v4 + for_v6.push(
                ResolveActionView::Finish(Ok(first@ + second@)),
            ));
        },
    }
}

/// An action of a resolution and the resolution itself are shown with everything that is in them.
pub proof fn law_resolution_shown_whole(resolution: Resolution, asked: ResolveAction)
    ensures
        match resolution.phase {
            ResolvePhase::V4 => resolution@.phase == ResolvePhaseView::V4,
            ResolvePhase::V6(ips) => resolution@.phase == ResolvePhaseView::V6(ips@),
            ResolvePhase::Over => resolution@.phase == ResolvePhaseView::Over,
        },
        resolution@.via_doh == resolution.via_doh,
        resolution@.dns_server == resolution.dns_server@,
        resolution@.domain == resolution.domain@,
        resolution@.timeout == resolution.timeout,
        resolution@.proxy is Some <==> resolution.proxy is Some,
        resolution.proxy matches Some(name) ==> resolution@.proxy == Some(name@),
        resolution@.doh is Some <==> resolution.doh is Some,
        resolution.doh matches Some(url) ==> resolution@.doh == Some(url@),
        match asked {
            ResolveAction::Doh { url, domain, qtype, timeout } => asked@ == (
            ResolveActionView::Doh { url: url@, domain: domain@, qtype, timeout }),
            ResolveAction::Tcp { dns_server, domain, qtype, timeout, proxy: None } => asked@ == (
            ResolveActionView::Tcp {
                dns_server: dns_server@,
                domain: domain@,
                qtype,
                timeout,
                proxy: None,
            }),
            ResolveAction::Tcp { dns_server, domain, qtype, timeout, proxy: Some(proxy) } => asked@
                == (ResolveActionView::Tcp {
                dns_server: dns_server@,
                domain: domain@,
                qtype,
                timeout,
                proxy: Some(proxy@),
            }),
            ResolveAction::Finish(Ok(ips)) => asked@ == ResolveActionView::Finish(Ok(ips@)),
            ResolveAction::Finish(Err(e)) => asked@ == ResolveActionView::Finish(Err(e)),
        },
{
}

/// Whatever a resolution does next, a query over TCP names the server, the domain, the timeout and
/// the proxy of the resolution, and so it stays: no step changes them.
pub proof fn law_tcp_query_as_started(resolution: ResolutionView, lookup: Lookup)
    requires
        resolution.phase !is Over,
    ensures
        resolution.ask().1 matches ResolveActionView::Tcp {
            dns_server,
            domain,
            qtype: _,
            timeout,
            proxy,
        } ==> dns_server == resolution.dns_server && domain == resolution.domain && timeout
            == resolution.timeout && proxy == resolution.proxy && resolution.doh is None,
        resolution.next(lookup).1 matches ResolveActionView::Tcp {
            dns_server,
            domain,
            qtype: _,
            timeout,
            proxy,
        } ==> dns_server == resolution.dns_server && domain == resolution.domain && timeout
            == resolution.timeout && proxy == resolution.proxy,
        resolution.next(lookup).0.dns_server == resolution.dns_server,
        resolution.next(lookup).0.domain == resolution.domain,
        resolution.next(lookup).0.timeout == resolution.timeout,
        resolution.next(lookup).0.proxy == resolution.proxy,
        resolution.next(lookup).0.doh == resolution.doh,
        resolution.ask().0.dns_server == resolution.dns_server,
        resolution.ask().0.domain == resolution.domain,
        resolution.ask().0.timeout == resolution.timeout,
        resolution.ask().0.proxy == resolution.proxy,
        resolution.ask().0.doh == resolution.doh,
{
}

/// Whatever a resolution does next, a query over HTTPS goes to the server for HTTPS, for the domain
/// of the resolution, and a query of either kind asks for IPv4 addresses as long as these are waited
/// for, and for IPv6 addresses afterwards.
pub proof fn law_query_fits_phase(resolution: ResolutionView, lookup: Lookup)
    requires
        resolution.phase !is Over,
    ensures
        resolution.ask().1 matches ResolveActionView::Doh { url, domain, qtype, timeout: _ }
            ==> resolution.doh == Some(url) && domain == resolution.domain && qtype == (
        if resolution.phase is V4 {
            1u16
        } else {
            28u16
        }),
        resolution.next(lookup).1 matches ResolveActionView::Doh { url, domain, qtype, timeout: _ }
            ==> resolution.doh == Some(url) && domain == resolution.domain && qtype == 28
            && resolution.next(lookup).0.phase is V6,
        resolution.next(lookup).1 matches ResolveActionView::Tcp {
            dns_server: _,
            domain: _,
            qtype,
            timeout: _,
            proxy: _,
        } ==> qtype == (if resolution.next(lookup).0.phase is V4 {
            1u16
        } else {
            28u16
        }),
{
}

/// Whatever a query waits for, it takes.
pub proof fn law_query_takes_every_answer(
    query: QueryView,
    addr: SocketAddr,
    octets: Vec<u8>,
    e: Error,
)
    ensures
        query.phase !is AwaitingResponse ==> query.well_formed(),
        query.phase is AwaitingResponse && 12 <= query.phase->AwaitingResponse_0 <= 65535
            ==> query.well_formed(),
        query.phase !is Over ==> query.fits(QueryEvent::Failed(e)),
        query.phase is ResolvingServer ==> query.fits(QueryEvent::Resolved(addr)),
        query.phase is ResolvingProxy ==> query.fits(QueryEvent::Resolved(addr)),
        query.phase is Connecting ==> query.fits(QueryEvent::Connected),
        query.phase is AwaitingLength && octets@.len() == 2 ==> query.fits(
            QueryEvent::Received(octets),
        ),
        query.phase is AwaitingResponse && octets@.len() == query.phase->AwaitingResponse_0
            ==> query.fits(QueryEvent::Received(octets)),
{
}

} // verus!
