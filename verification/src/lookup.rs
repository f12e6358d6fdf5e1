//! Looking up the addresses of a domain: one query over TCP or HTTPS, and the pair of queries that
//! make up a resolution.

use vstd::pervasive::unreached;
use vstd::prelude::*;

use crate::addr;
use crate::addr::Dial;
use crate::dns;
use crate::dns::{HEADER_LEN, QTYPE_A, QTYPE_AAAA};
use crate::error::{Error, ErrorView};
use crate::ip::{IpAddr, IpView, SocketAddr};
use crate::text;
use crate::time;
use crate::time::Duration;

verus! {

/// What a lookup comes to.
pub type Lookup = Result<Vec<IpAddr>, Error>;

// ---------------------------------------------------------------------------------------------
// A query over TCP
// ---------------------------------------------------------------------------------------------

/// What a query is waiting for.
#[derive(Clone, Copy, Debug)]
pub enum QueryPhase {
    /// The endpoint of the server.
    ResolvingServer,
    /// The endpoint of the proxy; that of the server is known.
    ResolvingProxy(SocketAddr),
    /// The connection to the server.
    Connecting,
    /// The two octets that say how long the response is.
    AwaitingLength,
    /// The response, which is so long.
    AwaitingResponse(usize),
    /// Nothing: the query is over.
    Over,
}

/// What happened to the last action.
pub enum QueryEvent {
    /// The endpoint asked for.
    Resolved(SocketAddr),
    /// The connection stands.
    Connected,
    /// As many octets as were expected have arrived.
    Received(Vec<u8>),
    /// The action failed.
    Failed(Error),
}

/// What to do next.
pub enum QueryAction {
    /// Find the endpoint of a server.
    ResolveServer(String),
    /// Find the endpoint of a proxy.
    ResolveProxy(String),
    /// Make this connection.
    Connect(Dial),
    /// Send the octets in `send`, if any, then receive exactly `expect` octets.
    Exchange { send: Vec<u8>, expect: usize },
    /// Report the outcome.
    Finish(Lookup),
}

/// What to do next, as a mathematical value.
pub enum QueryActionView {
    ResolveServer(Seq<char>),
    ResolveProxy(Seq<char>),
    Connect(Dial),
    Exchange { send: Seq<u8>, expect: usize },
    Finish(Result<Seq<IpView>, ErrorView>),
}

impl View for QueryAction {
    type V = QueryActionView;

    open spec fn view(&self) -> QueryActionView {
        match self {
            QueryAction::ResolveServer(server) => QueryActionView::ResolveServer(server@),
            QueryAction::ResolveProxy(proxy) => QueryActionView::ResolveProxy(proxy@),
            QueryAction::Connect(way) => QueryActionView::Connect(*way),
            QueryAction::Exchange { send, expect } => QueryActionView::Exchange {
                send: send@,
                expect: *expect,
            },
            QueryAction::Finish(lookup) => QueryActionView::Finish(dns::lookup_view(*lookup)),
        }
    }
}

/// A query for the records of type `qtype` of `domain`, by way of `proxy` if there is one.
pub struct Query {
    pub phase: QueryPhase,
    pub domain: String,
    pub qtype: u16,
    pub timeout: Duration,
    pub proxy: Option<String>,
}

/// A query as a mathematical value.
pub struct QueryView {
    pub phase: QueryPhase,
    pub domain: Seq<char>,
    pub qtype: u16,
    pub timeout: Duration,
    pub proxy: Option<Seq<char>>,
}

impl View for Query {
    type V = QueryView;

    open spec fn view(&self) -> QueryView {
        QueryView {
            phase: self.phase,
            domain: self.domain@,
            qtype: self.qtype,
            timeout: self.timeout,
            proxy: text::opt_chars(self.proxy),
        }
    }
}

impl QueryView {
    /// A response that is waited for can hold a header, and its length fits into two octets.
    pub open spec fn well_formed(self) -> bool {
        self.phase matches QueryPhase::AwaitingResponse(len) ==> HEADER_LEN <= len < 65536
    }

    /// Whether `event` can happen: a failure in any phase but the last, otherwise what the phase
    /// waits for.
    pub open spec fn fits(self, event: QueryEvent) -> bool {
        match event {
            QueryEvent::Failed(_) => self.phase !is Over,
            QueryEvent::Resolved(_) => self.phase is ResolvingServer
                || self.phase is ResolvingProxy,
            QueryEvent::Connected => self.phase is Connecting,
            QueryEvent::Received(octets) => match self.phase {
                QueryPhase::AwaitingLength => octets@.len() == 2,
                QueryPhase::AwaitingResponse(len) => octets@.len() == len,
                _ => false,
            },
        }
    }

    /// The query in another phase.
    pub open spec fn in_phase(self, phase: QueryPhase) -> QueryView {
        QueryView { phase, ..self }
    }

    /// The end of the query.
    pub open spec fn finish(self, lookup: Result<Seq<IpView>, ErrorView>) -> (
        QueryView,
        QueryActionView,
    ) {
        (self.in_phase(QueryPhase::Over), QueryActionView::Finish(lookup))
    }

    /// Making a connection.
    pub open spec fn connect(self, way: Dial) -> (QueryView, QueryActionView) {
        (self.in_phase(QueryPhase::Connecting), QueryActionView::Connect(way))
    }

    /// Where `event` leads, and what to do next: the proxy, if there is one, is resolved after the
    /// server; the query is sent in a frame; the length of the response is read, then the response
    /// itself; and any failure ends the query.
    pub open spec fn next(self, event: QueryEvent) -> (QueryView, QueryActionView) {
        match event {
            QueryEvent::Failed(e) => self.finish(Err(e@)),
            QueryEvent::Resolved(addr) => match (self.phase, self.proxy) {
                (QueryPhase::ResolvingProxy(server), _) => self.connect(
                    addr::way_to(server, Some(addr), self.timeout),
                ),
                (_, None) => self.connect(addr::way_to(addr, None, self.timeout)),
                (_, Some(proxy)) => (
                    self.in_phase(QueryPhase::ResolvingProxy(addr)),
                    QueryActionView::ResolveProxy(proxy),
                ),
            },
            QueryEvent::Connected => (
                self.in_phase(QueryPhase::AwaitingLength),
                QueryActionView::Exchange {
                    send: dns::framed(dns::query_message(self.domain, self.qtype)),
                    expect: 2,
                },
            ),
            QueryEvent::Received(octets) => if self.phase is AwaitingLength {
                let len = dns::be16_at(octets@, 0) as usize;
                if len < HEADER_LEN {
                    self.finish(Err(dns::too_short()))
                } else {
                    (
                        self.in_phase(QueryPhase::AwaitingResponse(len)),
                        QueryActionView::Exchange { send: seq![], expect: len },
                    )
                }
            } else {
                self.finish(dns::answers(octets@, self.qtype))
            },
        }
    }
}

/// Starts a query to `dns_server` for the records of type `qtype` of `domain`, through `proxy` if
/// there is one.
pub fn query(
    dns_server: &str,
    domain: &str,
    qtype: u16,
    timeout: Duration,
    proxy: Option<&str>,
) -> (start: (Query, QueryAction))
    ensures
        start.0@ == (QueryView {
            phase: QueryPhase::ResolvingServer,
            domain: domain@,
            qtype,
            timeout,
            proxy: text::opt_str_chars(proxy),
        }),
        start.1@ == QueryActionView::ResolveServer(dns_server@),
{
    (
        Query {
            phase: QueryPhase::ResolvingServer,
            domain: domain.to_owned(),
            qtype,
            timeout,
            proxy: text::opt_owned(proxy),
        },
        QueryAction::ResolveServer(dns_server.to_owned()),
    )
}

impl Query {
    /// Takes in what happened to the last action and names the next one.
    pub fn step(&mut self, event: QueryEvent) -> (action: QueryAction)
        requires
            old(self)@.well_formed(),
            old(self)@.fits(event),
        ensures
            (final(self)@, action@) == old(self)@.next(event),
            final(self)@.well_formed(),
    {
        match event {
            QueryEvent::Failed(e) => {
                self.phase = QueryPhase::Over;
                QueryAction::Finish(Err(e))
            },
            QueryEvent::Resolved(addr) => {
                if let QueryPhase::ResolvingProxy(server) = self.phase {
                    self.phase = QueryPhase::Connecting;
                    return QueryAction::Connect(addr::dial(server, Some(addr), self.timeout));
                }
                match &self.proxy {
                    None => {
                        self.phase = QueryPhase::Connecting;
                        QueryAction::Connect(addr::dial(addr, None, self.timeout))
                    },
                    Some(proxy) => {
                        let action = QueryAction::ResolveProxy(proxy.clone());
                        self.phase = QueryPhase::ResolvingProxy(addr);
                        action
                    },
                }
            },
            QueryEvent::Connected => {
                let msg: Vec<u8> = dns::build_query(self.domain.as_str(), self.qtype);
                self.phase = QueryPhase::AwaitingLength;
                QueryAction::Exchange { send: dns::tcp_frame(msg.as_slice()), expect: 2 }
            },
            QueryEvent::Received(octets) => match self.phase {
                QueryPhase::AwaitingLength => match dns::response_len(octets.as_slice()) {
                    Err(e) => {
                        self.phase = QueryPhase::Over;
                        QueryAction::Finish(Err(e))
                    },
                    Ok(len) => {
                        self.phase = QueryPhase::AwaitingResponse(len);
                        let send: Vec<u8> = Vec::new();
                        assert(send@ =~= seq![]);
                        QueryAction::Exchange { send, expect: len }
                    },
                },
                QueryPhase::AwaitingResponse(_) => {
                    self.phase = QueryPhase::Over;
                    QueryAction::Finish(dns::parse_answers(octets.as_slice(), self.qtype))
                },
                _ => unreached(),
            },
        }
    }
}

/// After any event that fits, a query that goes on asks for what its new phase waits for, and one
/// that is over says so.
pub proof fn law_query_asks_for_what_fits(query: QueryView, event: QueryEvent)
    requires
        query.well_formed(),
        query.fits(event),
    ensures
        match query.next(event).1 {
            QueryActionView::ResolveServer(_) => false,
            QueryActionView::ResolveProxy(_) => query.next(event).0.phase is ResolvingProxy,
            QueryActionView::Connect(_) => query.next(event).0.phase is Connecting,
            QueryActionView::Exchange { send: _, expect } => forall|octets: Vec<u8>|
                octets@.len() == expect ==> #[trigger] query.next(event).0.fits(
                    QueryEvent::Received(octets),
                ),
            QueryActionView::Finish(_) => query.next(event).0.phase is Over,
        },
{
}

/// A response that arrives in its frame is taken apart again: the query first waits for exactly
/// its length, then reports what it says.
pub proof fn law_query_reads_framed_response(
    query: QueryView,
    prefix: Vec<u8>,
    response: Vec<u8>,
)
    requires
        query.phase is AwaitingLength,
        HEADER_LEN <= response@.len() < 65536,
        prefix@ == dns::framed(response@).take(2),
    ensures
        ({
            let (then, action) = query.next(QueryEvent::Received(prefix));
            &&& action == (QueryActionView::Exchange {
                send: seq![],
                expect: response@.len() as usize,
            })
            &&& then.fits(QueryEvent::Received(response))
            &&& then.next(QueryEvent::Received(response)).1 == QueryActionView::Finish(
                dns::answers(response@, query.qtype),
            )
        }),
{
    let framed = dns::framed(response@);
    assert(framed.take(2)[0] == framed[0] && framed.take(2)[1] == framed[1]);
}

/// What happens if `action` is performed where `server_at` and `proxy_at` are what the names of a
/// server and of a proxy resolve to, `made` is how connecting goes, and `prefix` and `response` are
/// what the server sends.
pub open spec fn query_response(
    action: QueryActionView,
    server_at: spec_fn(Seq<char>) -> Result<SocketAddr, Error>,
    proxy_at: spec_fn(Seq<char>) -> Result<SocketAddr, Error>,
    made: spec_fn(Dial) -> Result<(), Error>,
    prefix: Result<Vec<u8>, Error>,
    response: Result<Vec<u8>, Error>,
) -> QueryEvent {
    match action {
        QueryActionView::ResolveServer(server) => match server_at(server) {
            Ok(addr) => QueryEvent::Resolved(addr),
            Err(e) => QueryEvent::Failed(e),
        },
        QueryActionView::ResolveProxy(proxy) => match proxy_at(proxy) {
            Ok(addr) => QueryEvent::Resolved(addr),
            Err(e) => QueryEvent::Failed(e),
        },
        QueryActionView::Connect(way) => match made(way) {
            Ok(_) => QueryEvent::Connected,
            Err(e) => QueryEvent::Failed(e),
        },
        QueryActionView::Exchange { send, expect: _ } => match if send.len() > 0 {
            prefix
        } else {
            response
        } {
            Ok(octets) => QueryEvent::Received(octets),
            Err(e) => QueryEvent::Failed(e),
        },
        QueryActionView::Finish(_) => arbitrary(),
    }
}

/// What a query comes to, where `action` is to be done next; at most `fuel` actions are performed.
pub open spec fn query_run(
    query: QueryView,
    action: QueryActionView,
    server_at: spec_fn(Seq<char>) -> Result<SocketAddr, Error>,
    proxy_at: spec_fn(Seq<char>) -> Result<SocketAddr, Error>,
    made: spec_fn(Dial) -> Result<(), Error>,
    prefix: Result<Vec<u8>, Error>,
    response: Result<Vec<u8>, Error>,
    fuel: nat,
) -> Option<Result<Seq<IpView>, ErrorView>>
    decreases fuel,
{
    if let QueryActionView::Finish(lookup) = action {
        Some(lookup)
    } else if fuel == 0 {
        None
    } else {
        let event = query_response(action, server_at, proxy_at, made, prefix, response);
        let (then, more) = query.next(event);
        query_run(
            then,
            more,
            server_at,
            proxy_at,
            made,
            prefix,
            response,
            (fuel - 1) as nat,
        )
    }
}

/// A query comes to what the response of the server says, unless something fails on the way: then
/// it comes to the first failure, and a response that cannot hold a header is one. It takes at most
/// five actions.
pub proof fn law_query_outcome(
    query: QueryView,
    dns_server: Seq<char>,
    server_at: spec_fn(Seq<char>) -> Result<SocketAddr, Error>,
    proxy_at: spec_fn(Seq<char>) -> Result<SocketAddr, Error>,
    made: spec_fn(Dial) -> Result<(), Error>,
    prefix: Result<Vec<u8>, Error>,
    response: Result<Vec<u8>, Error>,
)
    requires
        query.phase is ResolvingServer,
    ensures
        query_run(
            query,
            QueryActionView::ResolveServer(dns_server),
            server_at,
            proxy_at,
            made,
            prefix,
            response,
            5,
        ) == Some(
            match addr::approach(dns_server, query.proxy, query.timeout, server_at, proxy_at) {
                Err(e) => Err(e@),
                Ok(way) => match (made(way), prefix) {
                    (Err(e), _) => Err(e@),
                    (Ok(_), Err(e)) => Err(e@),
                    (Ok(_), Ok(octets)) => if dns::be16_at(octets@, 0) < HEADER_LEN {
                        Err(dns::too_short())
                    } else {
                        match response {
                            Err(e) => Err(e@),
                            Ok(msg) => dns::answers(msg@, query.qtype),
                        }
                    },
                },
            },
        ),
{
    reveal_with_fuel(query_run, 6);
}

// ---------------------------------------------------------------------------------------------
// A query over HTTPS
// ---------------------------------------------------------------------------------------------

/// The media type of DNS messages (RFC 8484).
pub const DNS_MESSAGE: &'static str = "application/dns-message";

/// A request to be posted over HTTPS. The body of the response is a DNS message without a frame.
pub struct DohRequest {
    pub url: String,
    pub content_type: String,
    pub accept: String,
    pub body: Vec<u8>,
    pub timeout: Duration,
}

/// Prepares a query over HTTPS to `doh_url` for the records of type `qtype` of `domain`. What the
/// response says is for `doh_outcome` to read.
pub fn query_doh(doh_url: &str, domain: &str, qtype: u16, timeout: Duration) -> (request:
    DohRequest)
    ensures
        request.url@ == doh_url@,
        request.content_type@ == DNS_MESSAGE@,
        request.accept@ == DNS_MESSAGE@,
        request.content_type@ == "application/dns-message"@,
        request.accept@ == "application/dns-message"@,
        request.body@ == dns::query_message(domain@, qtype),
        request.timeout == timeout,
{
    DohRequest {
        url: doh_url.to_owned(),
        content_type: DNS_MESSAGE.to_owned(),
        accept: DNS_MESSAGE.to_owned(),
        body: dns::build_query(domain, qtype),
        timeout,
    }
}

/// What a query over HTTPS for the records of type `qtype` comes to, where `reply` is the body of the
/// response, or why there is none. As over TCP, a body that cannot hold a header is refused. (No
/// vector of octets is longer than `isize::MAX`.)
pub fn doh_outcome(reply: Result<Vec<u8>, Error>, qtype: u16) -> (lookup: Lookup)
    requires
        reply matches Ok(body) ==> body@.len() <= isize::MAX,
    ensures
        dns::lookup_view(lookup) == (match reply {
            Ok(body) => dns::response_outcome(body@, qtype),
            Err(e) => Err(e@),
        }),
{
    match reply {
        Ok(body) => if body.len() < HEADER_LEN {
            Err(dns::too_short_error())
        } else {
            dns::parse_answers(body.as_slice(), qtype)
        },
        Err(e) => Err(e),
    }
}

/// What a message comes to does not depend on how it travels: over TCP, in its frame, it comes to
/// what it comes to over HTTPS.
pub proof fn law_https_reads_like_tcp(query: QueryView, prefix: Vec<u8>, response: Vec<u8>)
    requires
        query.phase is AwaitingLength,
        response@.len() < 65536,
        prefix@ == dns::framed(response@).take(2),
    ensures
        ({
            let (then, action) = query.next(QueryEvent::Received(prefix));
            let end = if action is Finish {
                action
            } else {
                then.next(QueryEvent::Received(response)).1
            };
            end == QueryActionView::Finish(dns::response_outcome(response@, query.qtype))
        }),
{
    let framed = dns::framed(response@);
    assert(framed.take(2)[0] == framed[0] && framed.take(2)[1] == framed[1]);
}

// ---------------------------------------------------------------------------------------------
// A resolution
// ---------------------------------------------------------------------------------------------

/// The longest time that a query over HTTPS may take. It is short, so that an unreachable server
/// is given up soon in favour of TCP.
pub const DOH_TIMEOUT_NANOS: u128 = 2_000_000_000;

/// What a resolution is waiting for.
pub enum ResolvePhase {
    /// The IPv4 addresses.
    V4,
    /// The IPv6 addresses; these are the IPv4 addresses.
    V6(Vec<IpAddr>),
    /// Nothing: the resolution is over.
    Over,
}

/// What a resolution is waiting for, as a mathematical value.
pub enum ResolvePhaseView {
    V4,
    V6(Seq<IpAddr>),
    Over,
}

impl View for ResolvePhase {
    type V = ResolvePhaseView;

    open spec fn view(&self) -> ResolvePhaseView {
        match self {
            ResolvePhase::V4 => ResolvePhaseView::V4,
            ResolvePhase::V6(ips) => ResolvePhaseView::V6(ips@),
            ResolvePhase::Over => ResolvePhaseView::Over,
        }
    }
}

/// What to do next.
pub enum ResolveAction {
    /// Query over HTTPS.
    Doh { url: String, domain: String, qtype: u16, timeout: Duration },
    /// Query over TCP.
    Tcp {
        dns_server: String,
        domain: String,
        qtype: u16,
        timeout: Duration,
        proxy: Option<String>,
    },
    /// Report the outcome.
    Finish(Lookup),
}

/// A list of addresses or an error, with the list as a sequence.
pub open spec fn ip_seq(lookup: Lookup) -> Result<Seq<IpAddr>, Error> {
    match lookup {
        Ok(ips) => Ok(ips@),
        Err(e) => Err(e),
    }
}

/// What to do next, as a mathematical value.
pub enum ResolveActionView {
    Doh { url: Seq<char>, domain: Seq<char>, qtype: u16, timeout: Duration },
    Tcp {
        dns_server: Seq<char>,
        domain: Seq<char>,
        qtype: u16,
        timeout: Duration,
        proxy: Option<Seq<char>>,
    },
    Finish(Result<Seq<IpAddr>, Error>),
}

impl View for ResolveAction {
    type V = ResolveActionView;

    open spec fn view(&self) -> ResolveActionView {
        match self {
            ResolveAction::Doh { url, domain, qtype, timeout } => ResolveActionView::Doh {
                url: url@,
                domain: domain@,
                qtype: *qtype,
                timeout: *timeout,
            },
            ResolveAction::Tcp { dns_server, domain, qtype, timeout, proxy } => {
                ResolveActionView::Tcp {
                    dns_server: dns_server@,
                    domain: domain@,
                    qtype: *qtype,
                    timeout: *timeout,
                    proxy: text::opt_chars(*proxy),
                }
            },
            ResolveAction::Finish(lookup) => ResolveActionView::Finish(ip_seq(*lookup)),
        }
    }
}

/// The resolution of `domain`: over HTTPS by way of `doh`, if there is such a server, with TCP to
/// `dns_server` as the fallback; otherwise over TCP from the start.
pub struct Resolution {
    pub phase: ResolvePhase,
    /// Whether the query under way goes over HTTPS.
    pub via_doh: bool,
    pub dns_server: String,
    pub domain: String,
    pub timeout: Duration,
    pub proxy: Option<String>,
    pub doh: Option<String>,
}

/// A resolution as a mathematical value.
pub struct ResolutionView {
    pub phase: ResolvePhaseView,
    pub via_doh: bool,
    pub dns_server: Seq<char>,
    pub domain: Seq<char>,
    pub timeout: Duration,
    pub proxy: Option<Seq<char>>,
    pub doh: Option<Seq<char>>,
}

impl View for Resolution {
    type V = ResolutionView;

    open spec fn view(&self) -> ResolutionView {
        ResolutionView {
            phase: self.phase@,
            via_doh: self.via_doh,
            dns_server: self.dns_server@,
            domain: self.domain@,
            timeout: self.timeout,
            proxy: text::opt_chars(self.proxy),
            doh: text::opt_chars(self.doh),
        }
    }
}

impl ResolutionView {
    /// The type of the records that are waited for.
    pub open spec fn qtype(self) -> u16 {
        if self.phase is V4 {
            QTYPE_A
        } else {
            QTYPE_AAAA
        }
    }

    /// A query over TCP.
    pub open spec fn over_tcp(self) -> (ResolutionView, ResolveActionView) {
        (
            ResolutionView { via_doh: false, ..self },
            ResolveActionView::Tcp {
                dns_server: self.dns_server,
                domain: self.domain,
                qtype: self.qtype(),
                timeout: self.timeout,
                proxy: self.proxy,
            },
        )
    }

    /// A query over HTTPS, or over TCP if there is no server for HTTPS.
    pub open spec fn ask(self) -> (ResolutionView, ResolveActionView) {
        match self.doh {
            None => self.over_tcp(),
            Some(url) => (
                ResolutionView { via_doh: true, ..self },
                ResolveActionView::Doh {
                    url,
                    domain: self.domain,
                    qtype: self.qtype(),
                    timeout: time::shorter(self.timeout, Duration { nanos: DOH_TIMEOUT_NANOS }),
                },
            ),
        }
    }

    /// The end of the resolution.
    pub open spec fn finish(self, lookup: Result<Seq<IpAddr>, Error>) -> (
        ResolutionView,
        ResolveActionView,
    ) {
        (
            ResolutionView { phase: ResolvePhaseView::Over, ..self },
            ResolveActionView::Finish(lookup),
        )
    }

    /// Where the outcome of a query leads, and what to do next. A failure over HTTPS leads to TCP.
    /// A failure to find IPv4 addresses ends the resolution; a failure to find IPv6 addresses is
    /// passed over, as many domains have none.
    pub open spec fn next(self, lookup: Lookup) -> (ResolutionView, ResolveActionView) {
        match (self.phase, lookup) {
            (_, Err(_)) if self.via_doh => self.over_tcp(),
            (ResolvePhaseView::V4, Err(e)) => self.finish(Err(e)),
            (ResolvePhaseView::V4, Ok(ips)) => ResolutionView {
                phase: ResolvePhaseView::V6(ips@),
                ..self
            }.ask(),
            (ResolvePhaseView::V6(ips), Err(_)) => self.finish(Ok(ips)),
            (ResolvePhaseView::V6(ips), Ok(more)) => self.finish(Ok(ips + more@)),
            (ResolvePhaseView::Over, _) => arbitrary(),
        }
    }
}

/// Starts the resolution of `domain`.
pub fn resolve(
    dns_server: &str,
    domain: &str,
    timeout: Duration,
    proxy: Option<&str>,
    doh: Option<&str>,
) -> (start: (Resolution, ResolveAction))
    ensures
        (start.0@, start.1@) == (ResolutionView {
            phase: ResolvePhaseView::V4,
            via_doh: false,
            dns_server: dns_server@,
            domain: domain@,
            timeout,
            proxy: text::opt_str_chars(proxy),
            doh: text::opt_str_chars(doh),
        }).ask(),
{
    let mut resolution = Resolution {
        phase: ResolvePhase::V4,
        via_doh: false,
        dns_server: dns_server.to_owned(),
        domain: domain.to_owned(),
        timeout,
        proxy: text::opt_owned(proxy),
        doh: text::opt_owned(doh),
    };
    let action = resolution.resolve_once();
    (resolution, action)
}

impl Resolution {
    /// The type of the records that are waited for.
    fn qtype(&self) -> (qtype: u16)
        ensures
            qtype == self@.qtype(),
    {
        match &self.phase {
            ResolvePhase::V4 => QTYPE_A,
            _ => QTYPE_AAAA,
        }
    }

    /// Queries over TCP.
    fn over_tcp(&mut self) -> (action: ResolveAction)
        ensures
            (final(self)@, action@) == old(self)@.over_tcp(),
    {
        self.via_doh = false;
        ResolveAction::Tcp {
            dns_server: self.dns_server.clone(),
            domain: self.domain.clone(),
            qtype: self.qtype(),
            timeout: self.timeout,
            proxy: match &self.proxy {
                None => None,
                Some(proxy) => Some(proxy.clone()),
            },
        }
    }

    /// Queries over HTTPS, or over TCP if there is no server for HTTPS.
    pub fn resolve_once(&mut self) -> (action: ResolveAction)
        ensures
            (final(self)@, action@) == old(self)@.ask(),
    {
        let qtype: u16 = self.qtype();
        match &self.doh {
            None => self.over_tcp(),
            Some(url) => {
                let action = ResolveAction::Doh {
                    url: url.clone(),
                    domain: self.domain.clone(),
                    qtype,
                    timeout: time::min(self.timeout, Duration { nanos: DOH_TIMEOUT_NANOS }),
                };
                self.via_doh = true;
                action
            },
        }
    }

    /// Takes in the outcome of the query under way and names the next action.
    pub fn step(&mut self, lookup: Lookup) -> (action: ResolveAction)
        requires
            old(self)@.phase !is Over,
        ensures
            (final(self)@, action@) == old(self)@.next(lookup),
    {
        let mut phase = ResolvePhase::Over;
        std::mem::swap(&mut phase, &mut self.phase);
        match (phase, lookup) {
            (phase, Err(_)) if self.via_doh => {
                self.phase = phase;
                self.over_tcp()
            },
            (ResolvePhase::V4, Err(e)) => ResolveAction::Finish(Err(e)),
            (ResolvePhase::V4, Ok(ips)) => {
                self.phase = ResolvePhase::V6(ips);
                self.resolve_once()
            },
            (ResolvePhase::V6(ips), Err(_)) => ResolveAction::Finish(Ok(ips)),
            (ResolvePhase::V6(ips), Ok(more)) => {
                let mut ips: Vec<IpAddr> = ips;
                let mut more: Vec<IpAddr> = more;
                ips.append(&mut more);
                ResolveAction::Finish(Ok(ips))
            },
            (ResolvePhase::Over, _) => unreached(),
        }
    }
}

/// What a resolution comes to, where `action` is to be done next, `over_doh` and `over_tcp` are the
/// outcomes of the queries for each type of record, and at most `fuel` queries are made.
pub open spec fn resolution_run(
    resolution: ResolutionView,
    action: ResolveActionView,
    over_doh: spec_fn(u16) -> Lookup,
    over_tcp: spec_fn(u16) -> Lookup,
    fuel: nat,
) -> Option<Result<Seq<IpAddr>, Error>>
    decreases fuel,
{
    if let ResolveActionView::Finish(lookup) = action {
        Some(lookup)
    } else if fuel == 0 {
        None
    } else {
        let outcome = match action {
            ResolveActionView::Doh { url: _, domain: _, qtype, timeout: _ } => over_doh(qtype),
            ResolveActionView::Tcp { dns_server: _, domain: _, qtype, timeout: _, proxy: _ } => {
                over_tcp(qtype)
            },
            ResolveActionView::Finish(_) => arbitrary(),
        };
        let (then, more) = resolution.next(outcome);
        resolution_run(then, more, over_doh, over_tcp, (fuel - 1) as nat)
    }
}

/// The outcome of the query for one type of record: that over HTTPS if there is a server for it
/// and it answers, otherwise that over TCP.
pub open spec fn one_lookup(
    doh: Option<Seq<char>>,
    qtype: u16,
    over_doh: spec_fn(u16) -> Lookup,
    over_tcp: spec_fn(u16) -> Lookup,
) -> Lookup {
    if doh is Some && over_doh(qtype) is Ok {
        over_doh(qtype)
    } else {
        over_tcp(qtype)
    }
}

/// A resolution comes to the IPv4 addresses and behind them the IPv6 addresses, to the IPv4
/// addresses alone if the others cannot be had, and to an error if the IPv4 addresses cannot be
/// had; it takes at most four queries.
pub proof fn law_resolution_outcome(
    resolution: ResolutionView,
    over_doh: spec_fn(u16) -> Lookup,
    over_tcp: spec_fn(u16) -> Lookup,
)
    requires
        resolution.phase is V4,
    ensures
        resolution_run(resolution.ask().0, resolution.ask().1, over_doh, over_tcp, 4) == Some(
            match one_lookup(resolution.doh, QTYPE_A, over_doh, over_tcp) {
                Err(e) => Err(e),
                Ok(v4) => Ok(
                    match one_lookup(resolution.doh, QTYPE_AAAA, over_doh, over_tcp) {
                        Err(_) => v4@,
                        Ok(v6) => v4@ + v6@,
                    },
                ),
            },
        ),
{
    reveal_with_fuel(resolution_run, 5);
}

/// A query over HTTPS gets at most two seconds, and no more than the resolution as a whole allows;
/// its fallback over TCP gets the whole of it.
pub proof fn law_doh_time_is_short(resolution: ResolutionView)
    ensures
        resolution.ask().1 matches ResolveActionView::Doh { url: _, domain: _, qtype: _, timeout }
            ==> timeout.nanos <= 2_000_000_000 && timeout.nanos <= resolution.timeout.nanos,
        resolution.over_tcp().1->Tcp_timeout == resolution.timeout,
{
}

} // verus!
