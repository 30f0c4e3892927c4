use url::{ParseError, Url};
use vstd::prelude::*;

use crate::config::unit_result;
use crate::machine::{
    connect_out, extends, is_connect, is_resolve, lemma_push, lemma_since_concat, lemma_since_same, since, Event, Host, Machine,
};
use crate::json::same_text;
use crate::peers::opt_text;
use crate::text::{concat3, push_str, string_from, string_of};

verus! {

/// The error type of `url::Url::parse`, carried through as it is.
#[verifier::external_type_specification]
#[verifier::external_body]
pub struct ExUrlParseError(ParseError);

/// The parts of a parsed URL that the peer checks read.
pub struct UrlParts {
    /// The scheme, in lower case, without the `:`.
    pub scheme: String,
    /// The host as the URL writes it, where it has one.
    pub host: Option<String>,
    /// The port, where the URL gives one that is not the scheme's default.
    pub port: Option<u16>,
}

/// The mathematical value of `UrlParts`.
pub struct UrlPartsView {
    pub scheme: Seq<char>,
    pub host: Option<Seq<char>>,
    pub port: Option<u16>,
}

impl View for UrlParts {
    type V = UrlPartsView;

    open spec fn view(&self) -> UrlPartsView {
        UrlPartsView { scheme: self.scheme@, host: opt_text(self.host), port: self.port }
    }
}

/// Why a text is not a URL, as `url::ParseError` tells it.
pub enum UrlParseError {
    EmptyHost,
    IdnaError,
    InvalidPort,
    InvalidIpv4Address,
    InvalidIpv6Address,
    InvalidDomainCharacter,
    RelativeUrlWithoutBase,
    RelativeUrlWithCannotBeABaseBase,
    SetHostOnCannotBeABaseUrl,
    Overflow,
    /// A kind that this version of the `url` crate does not have.
    Unrecognized,
}

/// The message of a parse error, as `url::ParseError` displays it.
pub open spec fn url_error_message(e: UrlParseError) -> Seq<char> {
    match e {
        UrlParseError::EmptyHost => "empty host"@,
        UrlParseError::IdnaError => "invalid international domain name"@,
        UrlParseError::InvalidPort => "invalid port number"@,
        UrlParseError::InvalidIpv4Address => "invalid IPv4 address"@,
        UrlParseError::InvalidIpv6Address => "invalid IPv6 address"@,
        UrlParseError::InvalidDomainCharacter => "invalid domain character"@,
        UrlParseError::RelativeUrlWithoutBase => "relative URL without a base"@,
        UrlParseError::RelativeUrlWithCannotBeABaseBase => "relative URL with a cannot-be-a-base base"@,
        UrlParseError::SetHostOnCannotBeABaseUrl => "a cannot-be-a-base URL doesn\u{2019}t have a host to set"@,
        UrlParseError::Overflow => "URLs more than 4 GB are not supported"@,
        UrlParseError::Unrecognized => "unrecognized URL parse error"@,
    }
}

impl UrlParseError {
    /// The message of this error.
    pub fn message(&self) -> (r: String)
        ensures
            r@ == url_error_message(*self),
    {
        match self {
            UrlParseError::EmptyHost => string_from("empty host"),
            UrlParseError::IdnaError => string_from("invalid international domain name"),
            UrlParseError::InvalidPort => string_from("invalid port number"),
            UrlParseError::InvalidIpv4Address => string_from("invalid IPv4 address"),
            UrlParseError::InvalidIpv6Address => string_from("invalid IPv6 address"),
            UrlParseError::InvalidDomainCharacter => string_from("invalid domain character"),
            UrlParseError::RelativeUrlWithoutBase => string_from("relative URL without a base"),
            UrlParseError::RelativeUrlWithCannotBeABaseBase => string_from(
                "relative URL with a cannot-be-a-base base",
            ),
            UrlParseError::SetHostOnCannotBeABaseUrl => string_from(
                "a cannot-be-a-base URL doesn\u{2019}t have a host to set",
            ),
            UrlParseError::Overflow => string_from("URLs more than 4 GB are not supported"),
            UrlParseError::Unrecognized => string_from("unrecognized URL parse error"),
        }
    }
}

/// What `url::Url::parse` makes of `text`: the parts of the URL, or the kind of
/// error. A function of the text alone.
pub uninterp spec fn url_parse(text: Seq<char>) -> Result<UrlPartsView, UrlParseError>;

/// The parts and errors of a parse, as values.
pub open spec fn parse_view(r: Result<UrlParts, UrlParseError>) -> Result<UrlPartsView, UrlParseError> {
    match r {
        Ok(p) => Ok(p@),
        Err(e) => Err(e),
    }
}

/// `url::Url::parse`: parses `text` as an absolute URL and gives its scheme,
/// host text (`host_str`) and explicit port (`port`), or the kind of its
/// `ParseError`. Claimed: the result is `url_parse(text)`, the same for the same
/// text.
#[verifier::external_body]
fn parse_url(text: &str) -> (r: Result<UrlParts, UrlParseError>)
    ensures
        parse_view(r) == url_parse(text@),
{
    match Url::parse(text) {
        Ok(u) => Ok(UrlParts { scheme: u.scheme().to_string(), host: u.host_str().map(|h| h.to_string()), port: u.port() }),
        Err(e) => Err(match e {
            ParseError::EmptyHost => UrlParseError::EmptyHost, ParseError::IdnaError => UrlParseError::IdnaError,
            ParseError::InvalidPort => UrlParseError::InvalidPort, ParseError::Overflow => UrlParseError::Overflow,
            ParseError::InvalidIpv4Address => UrlParseError::InvalidIpv4Address,
            ParseError::InvalidIpv6Address => UrlParseError::InvalidIpv6Address,
            ParseError::InvalidDomainCharacter => UrlParseError::InvalidDomainCharacter,
            ParseError::RelativeUrlWithoutBase => UrlParseError::RelativeUrlWithoutBase,
            ParseError::RelativeUrlWithCannotBeABaseBase => UrlParseError::RelativeUrlWithCannotBeABaseBase,
            ParseError::SetHostOnCannotBeABaseUrl => UrlParseError::SetHostOnCannotBeABaseUrl,
            _ => UrlParseError::Unrecognized,
        }),
    }
}

} // verus!

verus! {

/// The numbers of an IP address.
pub enum IpKind {
    V4(u8, u8, u8, u8),
    V6(u16, u16, u16, u16, u16, u16, u16, u16),
}

/// An IP address, with the text that writes it.
pub struct IpAddress {
    pub kind: IpKind,
    pub text: String,
}

/// A socket address as name resolution gives it.
pub struct SocketAddress {
    pub ip: IpAddress,
    pub port: u16,
    /// The IPv6 flow information (0 for IPv4).
    pub flowinfo: u32,
    /// The IPv6 scope id (0 for IPv4).
    pub scope_id: u32,
}

/// Whether a peer may not be aimed at `a`: for IPv4 a private, loopback,
/// link-local, multicast, unspecified or broadcast address; for IPv6 a
/// unique-local, link-local, loopback, multicast or unspecified one.
pub open spec fn forbidden_ip(a: IpKind) -> bool {
    match a {
        IpKind::V4(x, y, z, w) => {
            ||| x == 10
            ||| (x == 172 && 16 <= y && y <= 31)
            ||| (x == 192 && y == 168)
            ||| x == 127
            ||| (x == 169 && y == 254)
            ||| (224 <= x && x <= 239)
            ||| (x == 0 && y == 0 && z == 0 && w == 0)
            ||| (x == 255 && y == 255 && z == 255 && w == 255)
        },
        IpKind::V6(s0, s1, s2, s3, s4, s5, s6, s7) => {
            let zero6 = s1 == 0 && s2 == 0 && s3 == 0 && s4 == 0 && s5 == 0 && s6 == 0;
            ||| (s0 & 0xfe00) == 0xfc00
            ||| (s0 & 0xffc0) == 0xfe80
            ||| (s0 == 0 && zero6 && s7 == 1)
            ||| (s0 & 0xff00) == 0xff00
            ||| (s0 == 0 && zero6 && s7 == 0)
        },
    }
}

/// The message refusing the peer target `address` of `peer`.
pub open spec fn refused_target(peer: Seq<char>, address: Seq<char>) -> Seq<char> {
    "Refusing private, loopback, link-local, multicast, or unspecified peer target `"@ + address
        + "` from `"@ + peer + "`"@
}

/// What `validate_public_ip` says of `address` for `peer`.
pub open spec fn ip_verdict(peer: Seq<char>, address: IpAddress) -> Result<(), Seq<char>> {
    if forbidden_ip(address.kind) {
        Err(refused_target(peer, address.text@))
    } else {
        Ok(())
    }
}

/// Refuses a peer target that is not a public address.
pub fn validate_public_ip(peer: &str, address: &IpAddress) -> (r: Result<(), String>)
    ensures
        unit_result(r) == ip_verdict(peer@, *address),
{
    let forbidden = match address.kind {
        IpKind::V4(x, y, z, w) => {
            x == 10 || (x == 172 && 16 <= y && y <= 31) || (x == 192 && y == 168) || x == 127 || (x
                == 169 && y == 254) || (224 <= x && x <= 239) || (x == 0 && y == 0 && z == 0 && w
                == 0) || (x == 255 && y == 255 && z == 255 && w == 255)
        },
        IpKind::V6(s0, s1, s2, s3, s4, s5, s6, s7) => {
            let zero6 = s1 == 0 && s2 == 0 && s3 == 0 && s4 == 0 && s5 == 0 && s6 == 0;
            (s0 & 0xfe00) == 0xfc00 || (s0 & 0xffc0) == 0xfe80 || (s0 == 0 && zero6 && s7 == 1) || (s0
                & 0xff00) == 0xff00 || (s0 == 0 && zero6 && s7 == 0)
        },
    };
    if forbidden {
        let mut m: Vec<char> = Vec::new();
        push_str(
            &mut m,
            "Refusing private, loopback, link-local, multicast, or unspecified peer target `",
        );
        push_str(&mut m, address.text.as_str());
        push_str(&mut m, "` from `");
        push_str(&mut m, peer);
        push_str(&mut m, "`");
        assert(m@ =~= refused_target(peer@, address.text@));
        Err(string_of(&m))
    } else {
        Ok(())
    }
}

} // verus!

verus! {

/// Whether `parse`, asked to read `host` as an IP address, may have answered `out`.
pub open spec fn ip_parsed<P: Fn(String) -> Option<IpAddress>>(parse: P, host: Seq<char>, out: Option<IpAddress>) -> bool {
    exists|h: String| h@ == host && #[trigger] call_ensures(parse, (h,), out)
}

/// What a name resolution came to, as values.
pub open spec fn resolution_view(o: Result<Vec<SocketAddress>, String>) -> Result<Seq<SocketAddress>, Seq<char>> {
    match o {
        Ok(v) => Ok(v@),
        Err(e) => Err(e@),
    }
}

/// What the name resolution `e` came to, as values.
pub open spec fn resolve_out(e: Event) -> Result<Seq<SocketAddress>, Seq<char>> {
    resolution_view(e->Resolved_out)
}

/// The verdict on the resolved addresses `addrs` of `peer`: the refusal of the
/// first one that is not public, if any.
pub open spec fn addresses_verdict(peer: Seq<char>, addrs: Seq<SocketAddress>) -> Result<(), Seq<char>>
    decreases addrs.len(),
{
    if addrs.len() == 0 {
        Ok(())
    } else if ip_verdict(peer, addrs[0].ip) is Err {
        ip_verdict(peer, addrs[0].ip)
    } else {
        addresses_verdict(peer, addrs.drop_first())
    }
}

/// The message for a peer URI without a host.
pub open spec fn no_host(peer: Seq<char>) -> Seq<char> {
    "Peer URI has no host: `"@ + peer + "`"@
}

/// The message for a peer URI without a port.
pub open spec fn no_port(peer: Seq<char>) -> Seq<char> {
    "Peer URI has no port: `"@ + peer + "`"@
}

/// The message for a peer host that could not be resolved.
pub open spec fn cannot_resolve(peer: Seq<char>, error: Seq<char>) -> Seq<char> {
    "Could not resolve peer `"@ + peer + "` before applying config: "@ + error
}

/// Whether `r` is what `validate_peer_target` says of `peer`, whose URL has the
/// host `h`, once reading `h` as an IP address came to `ip`, the actions `seg`
/// being those it took: a host that is an IP address is judged alone, with no
/// name resolution; otherwise the port must be there, and exactly one name
/// resolution is asked for.
pub open spec fn target_after_ip(
    peer: Seq<char>,
    parts: UrlPartsView,
    h: Seq<char>,
    ip: Option<IpAddress>,
    seg: Seq<Event>,
    r: Result<(), Seq<char>>,
) -> bool {
    match ip {
        Some(a) => seg.len() == 0 && r == ip_verdict(peer, a),
        None => match parts.port {
            None => seg.len() == 0 && r == Err::<(), Seq<char>>(no_port(peer)),
            Some(port) => {
                &&& seg.len() == 1
                &&& is_resolve(seg[0], h, port)
                &&& r == match resolve_out(seg[0]) {
                    Err(e) => Err::<(), Seq<char>>(cannot_resolve(peer, e)),
                    Ok(addrs) => addresses_verdict(peer, addrs),
                }
            },
        },
    }
}

/// Whether `r` is what `validate_peer_target` says of `peer` with the URL parts
/// `parts`, the actions `seg` being those it took: the host must be there; a
/// host that is an IP address must be public; otherwise the port must be there,
/// the name must resolve, and every address it resolves to must be public.
pub open spec fn target_verdict<P: Fn(String) -> Option<IpAddress>>(
    parse: P,
    peer: Seq<char>,
    parts: UrlPartsView,
    seg: Seq<Event>,
    r: Result<(), Seq<char>>,
) -> bool {
    match parts.host {
        None => seg.len() == 0 && r == Err::<(), Seq<char>>(no_host(peer)),
        Some(h) => exists|ip: Option<IpAddress>|
            #[trigger] ip_parsed(parse, h, ip) && target_after_ip(peer, parts, h, ip, seg, r),
    }
}

proof fn lemma_target_verdict<P: Fn(String) -> Option<IpAddress>>(
    parse: P,
    peer: Seq<char>,
    parts: UrlPartsView,
    h: Seq<char>,
    ip: Option<IpAddress>,
    seg: Seq<Event>,
    r: Result<(), Seq<char>>,
)
    requires
        parts.host == Some(h),
        ip_parsed(parse, h, ip),
        target_after_ip(peer, parts, h, ip, seg, r),
    ensures
        target_verdict(parse, peer, parts, seg, r),
{
    assert(parts.host->Some_0 == h);
}

/// Refuses a peer whose target is not public; see `target_verdict`.
#[verifier::loop_isolation(false)]
pub fn validate_peer_target<P: Fn(String) -> Option<IpAddress>, M: Machine>(
    peer: &str,
    parsed: &UrlParts,
    parse_ip: &P,
    host: &mut Host<M>,
) -> (r: Result<(), String>)
    requires
        forall|h: String| call_requires(*parse_ip, (h,)),
    ensures
        extends(old(host).events(), final(host).events()),
        target_verdict(*parse_ip, peer@, parsed@, since(old(host).events(), final(host).events()), unit_result(r)),
{
    let ghost e0 = host.events();
    proof {
        lemma_since_same(e0);
    }
    let name = match &parsed.host {
        None => {
            return Err(concat3("Peer URI has no host: `", peer, "`"));
        },
        Some(h) => h,
    };
    let h = name.clone();
    let ghost gh = h;
    let ip = parse_ip(h);
    assert(call_ensures(*parse_ip, (gh,), ip));
    assert(ip_parsed(*parse_ip, name@, ip));
    assert(parsed@.host == Some(name@));
    match &ip {
        Some(a) => {
            let r = validate_public_ip(peer, a);
            assert(ip == Some(*a));
            proof {
                lemma_target_verdict(*parse_ip, peer@, parsed@, name@, ip, since(e0, host.events()), unit_result(r));
            }
            return r;
        },
        None => {},
    }
    let port = match parsed.port {
        None => {
            let r = Err(concat3("Peer URI has no port: `", peer, "`"));
            proof {
                lemma_target_verdict(*parse_ip, peer@, parsed@, name@, ip, since(e0, host.events()), unit_result(r));
            }
            return r;
        },
        Some(p) => p,
    };
    let out = host.resolve(name.clone(), port);
    let ghost e1 = host.events();
    proof {
        lemma_push(e0, e1.last());
    }
    let ghost gout = resolution_view(out);
    assert(resolve_out(since(e0, e1)[0]) == gout);
    let addrs = match out {
        Err(e) => {
            let mut m: Vec<char> = Vec::new();
            push_str(&mut m, "Could not resolve peer `");
            push_str(&mut m, peer);
            push_str(&mut m, "` before applying config: ");
            push_str(&mut m, e.as_str());
            assert(m@ =~= cannot_resolve(peer@, e@));
            let r = Err(string_of(&m));
            proof {
                lemma_target_verdict(*parse_ip, peer@, parsed@, name@, ip, since(e0, e1), unit_result(r));
            }
            return r;
        },
        Ok(v) => v,
    };
    let mut i: usize = 0;
    assert(addrs@.skip(0) =~= addrs@);
    while i < addrs.len()
        invariant
            i <= addrs.len(),
            addresses_verdict(peer@, addrs@) == addresses_verdict(peer@, addrs@.skip(i as int)),
        decreases addrs.len() - i,
    {
        assert(addrs@.skip(i as int)[0] == addrs@[i as int]);
        assert(addrs@.skip(i as int).drop_first() =~= addrs@.skip(i + 1));
        let v = validate_public_ip(peer, &addrs[i].ip);
        if v.is_err() {
            proof {
                lemma_target_verdict(*parse_ip, peer@, parsed@, name@, ip, since(e0, e1), unit_result(v));
            }
            return v;
        }
        i = i + 1;
    }
    let r = Ok(());
    proof {
        lemma_target_verdict(*parse_ip, peer@, parsed@, name@, ip, since(e0, e1), unit_result(r));
    }
    r
}

/// Whether `scheme` is one that a configured peer may use.
pub open spec fn allowed_peer_scheme(scheme: Seq<char>) -> bool {
    ||| scheme == "tcp"@
    ||| scheme == "tls"@
    ||| scheme == "quic"@
    ||| scheme == "ws"@
    ||| scheme == "wss"@
    ||| scheme == "socks"@
}

/// Law: a configured peer may use exactly the schemes `tcp`, `tls`, `quic`,
/// `ws`, `wss` and `socks`.
pub proof fn law_allowed_peer_schemes(scheme: Seq<char>)
    ensures
        allowed_peer_scheme(scheme) <==> {
            ||| scheme == seq!['t', 'c', 'p']
            ||| scheme == seq!['t', 'l', 's']
            ||| scheme == seq!['q', 'u', 'i', 'c']
            ||| scheme == seq!['w', 's']
            ||| scheme == seq!['w', 's', 's']
            ||| scheme == seq!['s', 'o', 'c', 'k', 's']
        },
{
    reveal_strlit("tcp");
    reveal_strlit("tls");
    reveal_strlit("quic");
    reveal_strlit("ws");
    reveal_strlit("wss");
    reveal_strlit("socks");
    assert("tcp"@ =~= seq!['t', 'c', 'p']);
    assert("tls"@ =~= seq!['t', 'l', 's']);
    assert("quic"@ =~= seq!['q', 'u', 'i', 'c']);
    assert("ws"@ =~= seq!['w', 's']);
    assert("wss"@ =~= seq!['w', 's', 's']);
    assert("socks"@ =~= seq!['s', 'o', 'c', 'k', 's']);
}

/// The message for a peer URI that is not a URL.
pub open spec fn invalid_peer(peer: Seq<char>, e: UrlParseError) -> Seq<char> {
    "Invalid peer URI `"@ + peer + "`: "@ + url_error_message(e)
}

/// The message for a peer URI whose scheme a peer may not use.
pub open spec fn unsupported_scheme(peer: Seq<char>, scheme: Seq<char>) -> Seq<char> {
    "Unsupported peer scheme `"@ + scheme + "` in `"@ + peer + "`"@
}

/// Whether `r` is what checking the peer URI `peer`, which parsed as `parsed`,
/// comes to, the actions `seg` being those taken: it must be a URL with a
/// scheme that a peer may use (nothing is asked otherwise), aimed at a public
/// target (see `target_verdict`).
pub open spec fn parsed_peer_verdict<P: Fn(String) -> Option<IpAddress>>(
    parse: P,
    peer: Seq<char>,
    parsed: Result<UrlPartsView, UrlParseError>,
    seg: Seq<Event>,
    r: Result<(), Seq<char>>,
) -> bool {
    match parsed {
        Err(e) => seg.len() == 0 && r == Err::<(), Seq<char>>(invalid_peer(peer, e)),
        Ok(parts) => if allowed_peer_scheme(parts.scheme) {
            target_verdict(parse, peer, parts, seg, r)
        } else {
            seg.len() == 0 && r == Err::<(), Seq<char>>(unsupported_scheme(peer, parts.scheme))
        },
    }
}

/// Whether `r` is what checking the one peer URI `peer` comes to, the actions
/// `seg` being those taken.
pub open spec fn uri_verdict<P: Fn(String) -> Option<IpAddress>>(
    parse: P,
    peer: Seq<char>,
    seg: Seq<Event>,
    r: Result<(), Seq<char>>,
) -> bool {
    parsed_peer_verdict(parse, peer, url_parse(peer), seg, r)
}

/// Whether `r` is what checking the peer URIs `peers` in order comes to, the
/// actions `seg` being those taken: each peer is checked after the one before
/// it was accepted; the result is the first refusal, or success when none is
/// refused.
pub open spec fn uris_verdict<P: Fn(String) -> Option<IpAddress>>(
    parse: P,
    peers: Seq<Seq<char>>,
    seg: Seq<Event>,
    r: Result<(), Seq<char>>,
) -> bool
    decreases peers.len(),
{
    if peers.len() == 0 {
        seg.len() == 0 && r == Ok::<(), Seq<char>>(())
    } else {
        exists|k: int, first: Result<(), Seq<char>>|
            0 <= k <= seg.len() && #[trigger] uri_verdict(parse, peers[0], seg.take(k), first) && if first is Err {
                k == seg.len() && r == first
            } else {
                uris_verdict(parse, peers.drop_first(), seg.skip(k), r)
            }
    }
}

/// Checking peer URIs takes no action but name lookups.
pub proof fn lemma_uris_verdict_only_resolves<P: Fn(String) -> Option<IpAddress>>(
    parse: P,
    peers: Seq<Seq<char>>,
    seg: Seq<Event>,
    r: Result<(), Seq<char>>,
)
    requires
        uris_verdict(parse, peers, seg, r),
    ensures
        forall|i: int| 0 <= i < seg.len() ==> #[trigger] seg[i] is Resolved,
    decreases peers.len(),
{
    if peers.len() > 0 {
        let (k, first) = choose|k: int, first: Result<(), Seq<char>>|
            0 <= k <= seg.len() && #[trigger] uri_verdict(parse, peers[0], seg.take(k), first) && if first is Err {
                k == seg.len() && r == first
            } else {
                uris_verdict(parse, peers.drop_first(), seg.skip(k), r)
            };
        let head = seg.take(k);
        assert(forall|i: int| 0 <= i < head.len() ==> #[trigger] head[i] is Resolved) by {
            match url_parse(peers[0]) {
                Err(_) => {},
                Ok(parts) => {
                    if allowed_peer_scheme(parts.scheme) {
                        if let Some(h) = parts.host {
                            let ip = choose|ip: Option<IpAddress>|
                                #[trigger] ip_parsed(parse, h, ip) && target_after_ip(peers[0], parts, h, ip, head, first);
                            assert(target_after_ip(peers[0], parts, h, ip, head, first));
                        }
                    }
                },
            }
        }
        if !(first is Err) {
            lemma_uris_verdict_only_resolves(parse, peers.drop_first(), seg.skip(k), r);
        }
        assert forall|i: int| 0 <= i < seg.len() implies #[trigger] seg[i] is Resolved by {
            if i < k {
                assert(head[i] == seg[i]);
            } else {
                assert(seg.skip(k)[i - k] == seg[i]);
            }
        }
    }
}

fn is_allowed_peer_scheme(scheme: &str) -> (r: bool)
    ensures
        r == allowed_peer_scheme(scheme@),
{
    same_text(scheme, "tcp") || same_text(scheme, "tls") || same_text(scheme, "quic") || same_text(
        scheme,
        "ws",
    ) || same_text(scheme, "wss") || same_text(scheme, "socks")
}

/// Checks the peer URI `peer`, given what parsing it as a URL gave.
pub fn validate_parsed_peer<P: Fn(String) -> Option<IpAddress>, M: Machine>(
    peer: &str,
    parsed: Result<UrlParts, UrlParseError>,
    parse_ip: &P,
    host: &mut Host<M>,
) -> (r: Result<(), String>)
    requires
        forall|h: String| call_requires(*parse_ip, (h,)),
    ensures
        extends(old(host).events(), final(host).events()),
        parsed_peer_verdict(
            *parse_ip,
            peer@,
            parse_view(parsed),
            since(old(host).events(), final(host).events()),
            unit_result(r),
        ),
{
    proof {
        lemma_since_same(host.events());
    }
    let parts = match parsed {
        Err(e) => {
            let msg = e.message();
            let mut m: Vec<char> = Vec::new();
            push_str(&mut m, "Invalid peer URI `");
            push_str(&mut m, peer);
            push_str(&mut m, "`: ");
            push_str(&mut m, msg.as_str());
            assert(m@ =~= invalid_peer(peer@, e));
            return Err(string_of(&m));
        },
        Ok(p) => p,
    };
    if !is_allowed_peer_scheme(parts.scheme.as_str()) {
        let mut m: Vec<char> = Vec::new();
        push_str(&mut m, "Unsupported peer scheme `");
        push_str(&mut m, parts.scheme.as_str());
        push_str(&mut m, "` in `");
        push_str(&mut m, peer);
        push_str(&mut m, "`");
        assert(m@ =~= unsupported_scheme(peer@, parts.scheme@));
        return Err(string_of(&m));
    }
    validate_peer_target(peer, &parts, parse_ip, host)
}

fn validate_peer_uri<P: Fn(String) -> Option<IpAddress>, M: Machine>(
    peer: &str,
    parse_ip: &P,
    host: &mut Host<M>,
) -> (r: Result<(), String>)
    requires
        forall|h: String| call_requires(*parse_ip, (h,)),
    ensures
        extends(old(host).events(), final(host).events()),
        uri_verdict(*parse_ip, peer@, since(old(host).events(), final(host).events()), unit_result(r)),
{
    validate_parsed_peer(peer, parse_url(peer), parse_ip, host)
}

/// Checks each of `peers` in order, stopping at the first refusal: it must be a
/// URL with a scheme a peer may use, aimed at a public address.
pub fn validate_peer_uris<P: Fn(String) -> Option<IpAddress>, M: Machine>(
    peers: &Vec<String>,
    parse_ip: &P,
    host: &mut Host<M>,
) -> (r: Result<(), String>)
    requires
        forall|h: String| call_requires(*parse_ip, (h,)),
    ensures
        extends(old(host).events(), final(host).events()),
        uris_verdict(
            *parse_ip,
            crate::command::texts(peers@),
            since(old(host).events(), final(host).events()),
            unit_result(r),
        ),
{
    let ghost all = crate::command::texts(peers@);
    let ghost e0 = host.events();
    proof {
        lemma_since_same(e0);
    }
    let mut i: usize = 0;
    assert(all.skip(0) =~= all);
    while i < peers.len()
        invariant
            i <= peers.len(),
            all == crate::command::texts(peers@),
            forall|h: String| call_requires(*parse_ip, (h,)),
            e0 == old(host).events(),
            extends(e0, host.events()),
            forall|s: Seq<Event>, r: Result<(), Seq<char>>|
                #[trigger] uris_verdict(*parse_ip, all.skip(i as int), s, r) ==> uris_verdict(
                    *parse_ip,
                    all,
                    since(e0, host.events()) + s,
                    r,
                ),
        decreases peers.len() - i,
    {
        let ghost e1 = host.events();
        let v = validate_peer_uri(peers[i].as_str(), parse_ip, host);
        let ghost e2 = host.events();
        let ghost seg = since(e1, e2);
        proof {
            lemma_since_concat(e0, e1, e2);
        }
        let ghost rest = all.skip(i as int);
        assert(rest[0] == peers@[i as int]@);
        assert(rest.drop_first() =~= all.skip(i + 1));
        if v.is_err() {
            proof {
                assert(seg.take(seg.len() as int) =~= seg);
                assert(uri_verdict(*parse_ip, rest[0], seg.take(seg.len() as int), unit_result(v)));
                assert(uris_verdict(*parse_ip, rest, seg, unit_result(v)));
                assert(since(e0, e1) + seg == since(e0, e2));
            }
            return v;
        }
        proof {
            assert forall|s: Seq<Event>, r: Result<(), Seq<char>>|
                #[trigger] uris_verdict(*parse_ip, all.skip(i + 1), s, r) implies uris_verdict(
                    *parse_ip,
                    all,
                    since(e0, e2) + s,
                    r,
                ) by {
                let t = seg + s;
                assert(t.take(seg.len() as int) =~= seg);
                assert(t.skip(seg.len() as int) =~= s);
                assert(uri_verdict(*parse_ip, rest[0], t.take(seg.len() as int), unit_result(v)));
                assert(uris_verdict(*parse_ip, rest, t, r));
                assert(since(e0, e1) + t =~= since(e0, e2) + s);
            }
        }
        i = i + 1;
    }
    proof {
        assert(all.skip(i as int) =~= Seq::<Seq<char>>::empty());
        assert(uris_verdict(*parse_ip, all.skip(i as int), Seq::<Event>::empty(), Ok(())));
        assert(since(e0, host.events()) + Seq::<Event>::empty() =~= since(e0, host.events()));
    }
    Ok(())
}

} // verus!

verus! {

/// What probing one peer found.
pub struct ProbeResult {
    pub uri: String,
    pub ok: bool,
    pub local_ms: Option<u128>,
    pub message: String,
}

/// The values of a probe result.
pub open spec fn probe_view(p: ProbeResult) -> (Seq<char>, bool, Option<u128>, Seq<char>) {
    (p.uri@, p.ok, p.local_ms, p.message@)
}

/// A copy of `a`.
pub fn copy_socket(a: &SocketAddress) -> (r: SocketAddress)
    ensures
        r == *a,
{
    let kind = match a.ip.kind {
        IpKind::V4(x, y, z, w) => IpKind::V4(x, y, z, w),
        IpKind::V6(s0, s1, s2, s3, s4, s5, s6, s7) => IpKind::V6(s0, s1, s2, s3, s4, s5, s6, s7),
    };
    SocketAddress {
        ip: IpAddress { kind, text: a.ip.text.clone() },
        port: a.port,
        flowinfo: a.flowinfo,
        scope_id: a.scope_id,
    }
}

/// Whether `r` (reached, milliseconds, message) is what trying to connect to
/// `addrs` in order comes to, `last` being the error of the attempt before, the
/// actions `seg` being those taken: one connection attempt per address, in
/// order, stopping at the first that opens; the result is that connection, or
/// the last error.
pub open spec fn connect_verdict(
    addrs: Seq<SocketAddress>,
    last: Option<Seq<char>>,
    seg: Seq<Event>,
    r: (bool, Option<u128>, Seq<char>),
) -> bool
    decreases addrs.len(),
{
    if addrs.len() == 0 {
        seg.len() == 0 && r == (false, None::<u128>, match last {
            Some(e) => e,
            None => "Connection failed."@,
        })
    } else {
        &&& seg.len() >= 1
        &&& is_connect(seg[0], addrs[0])
        &&& match connect_out(seg[0]) {
            Ok(ms) => seg.len() == 1 && r == (true, Some(ms), "TCP reachable."@),
            Err(e) => connect_verdict(addrs.drop_first(), Some(e), seg.skip(1), r),
        }
    }
}

/// Whether `r` is what the TCP probe of `uri`, with the URL parts `parts`,
/// finds, the actions `seg` being those it took: the host and port must be
/// there (nothing is asked otherwise); exactly one name resolution is asked
/// for, and it must give at least one address; then see `connect_verdict`.
pub open spec fn tcp_verdict(
    uri: Seq<char>,
    parts: UrlPartsView,
    seg: Seq<Event>,
    r: (Seq<char>, bool, Option<u128>, Seq<char>),
) -> bool {
    &&& r.0 == uri
    &&& match parts.host {
        None => seg.len() == 0 && r.1 == false && r.2 == None::<u128> && r.3 == "Missing host."@,
        Some(h) => match parts.port {
            None => seg.len() == 0 && r.1 == false && r.2 == None::<u128> && r.3 == "Missing port."@,
            Some(port) => {
                &&& seg.len() >= 1
                &&& is_resolve(seg[0], h, port)
                &&& match resolve_out(seg[0]) {
                    Err(e) => seg.len() == 1 && r.1 == false && r.2 == None::<u128> && r.3 == "DNS failed: "@ + e,
                    Ok(addrs) => if addrs.len() == 0 {
                        seg.len() == 1 && r.1 == false && r.2 == None::<u128> && r.3 == "DNS returned no addresses."@
                    } else {
                        connect_verdict(addrs, None, seg.skip(1), (r.1, r.2, r.3))
                    },
                }
            },
        },
    }
}

proof fn lemma_connect_attempts(
    addrs: Seq<SocketAddress>,
    last: Option<Seq<char>>,
    seg: Seq<Event>,
    r: (bool, Option<u128>, Seq<char>),
)
    requires
        connect_verdict(addrs, last, seg, r),
        addrs.len() > 0,
    ensures
        1 <= seg.len() <= addrs.len(),
        forall|j: int| 0 <= j < seg.len() ==> is_connect(#[trigger] seg[j], addrs[j]),
        forall|j: int| 0 <= j < seg.len() - 1 ==> #[trigger] connect_out(seg[j]) is Err,
        seg.len() < addrs.len() ==> connect_out(seg[seg.len() - 1]) is Ok,
        r.0 <==> connect_out(seg[seg.len() - 1]) is Ok,
        r.0 ==> r.1 == Some(connect_out(seg[seg.len() - 1])->Ok_0),
    decreases addrs.len(),
{
    reveal_with_fuel(connect_verdict, 2);
    match connect_out(seg[0]) {
        Ok(ms) => {},
        Err(e) => {
            let rest = seg.skip(1);
            if addrs.len() == 1 {
                assert(addrs.drop_first().len() == 0);
                assert(connect_verdict(addrs.drop_first(), Some(e), rest, r));
                assert(rest.len() == 0);
            } else {
                lemma_connect_attempts(addrs.drop_first(), Some(e), rest, r);
                assert forall|j: int| 0 <= j < seg.len() implies is_connect(#[trigger] seg[j], addrs[j]) by {
                    if j > 0 {
                        assert(rest[j - 1] == seg[j]);
                    }
                }
                assert forall|j: int| 0 <= j < seg.len() - 1 implies #[trigger] connect_out(seg[j]) is Err by {
                    if j > 0 {
                        assert(rest[j - 1] == seg[j]);
                    }
                }
                assert(rest[rest.len() - 1] == seg[seg.len() - 1]);
            }
        },
    }
}

/// Law: once the host of a TCP probe resolves to at least one address, the
/// probe tries the addresses in the order given, whatever their family: one
/// connection attempt per address, the first right after the lookup, each
/// after the one before failed, stopping only at the first that opens or
/// after the last; the peer is reachable exactly when the last attempt opened,
/// with the time that attempt took.
pub proof fn law_probe_tries_addresses_in_order(
    uri: Seq<char>,
    parts: UrlPartsView,
    seg: Seq<Event>,
    r: (Seq<char>, bool, Option<u128>, Seq<char>),
    addrs: Seq<SocketAddress>,
)
    requires
        tcp_verdict(uri, parts, seg, r),
        parts.host is Some,
        parts.port is Some,
        resolve_out(seg[0]) == Ok::<Seq<SocketAddress>, Seq<char>>(addrs),
        addrs.len() > 0,
    ensures
        2 <= seg.len() <= addrs.len() + 1,
        is_connect(seg[1], addrs[0]),
        forall|j: int| 1 <= j < seg.len() ==> is_connect(#[trigger] seg[j], addrs[j - 1]),
        forall|j: int| 1 <= j < seg.len() - 1 ==> #[trigger] connect_out(seg[j]) is Err,
        seg.len() < addrs.len() + 1 ==> connect_out(seg[seg.len() - 1]) is Ok,
        r.1 <==> connect_out(seg[seg.len() - 1]) is Ok,
        r.1 ==> r.2 == Some(connect_out(seg[seg.len() - 1])->Ok_0),
{
    let rest = seg.skip(1);
    assert(connect_verdict(addrs, None, rest, (r.1, r.2, r.3)));
    lemma_connect_attempts(addrs, None, rest, (r.1, r.2, r.3));
    assert(rest[0] == seg[1]);
    assert forall|j: int| 1 <= j < seg.len() implies is_connect(#[trigger] seg[j], addrs[j - 1]) by {
        assert(rest[j - 1] == seg[j]);
    }
    assert forall|j: int| 1 <= j < seg.len() - 1 implies #[trigger] connect_out(seg[j]) is Err by {
        assert(rest[j - 1] == seg[j]);
    }
    assert(rest[rest.len() - 1] == seg[seg.len() - 1]);
}

fn probe_result(uri: String, message: &str) -> (r: ProbeResult)
    ensures
        probe_view(r) == (uri@, false, None::<u128>, message@),
{
    ProbeResult { uri, ok: false, local_ms: None, message: string_from(message) }
}

/// Probes the peer `uri` over TCP: resolves its host and tries each address in
/// turn; see `tcp_verdict`.
#[verifier::loop_isolation(false)]
pub fn probe_tcp_uri<M: Machine>(uri: String, parsed: &UrlParts, host: &mut Host<M>) -> (r: ProbeResult)
    ensures
        extends(old(host).events(), final(host).events()),
        tcp_verdict(uri@, parsed@, since(old(host).events(), final(host).events()), probe_view(r)),
{
    let ghost e0 = host.events();
    proof {
        lemma_since_same(e0);
    }
    let name = match &parsed.host {
        None => {
            return probe_result(uri, "Missing host.");
        },
        Some(h) => h,
    };
    let port = match parsed.port {
        None => {
            return probe_result(uri, "Missing port.");
        },
        Some(p) => p,
    };
    let out = host.resolve(name.clone(), port);
    let ghost e1 = host.events();
    proof {
        lemma_push(e0, e1.last());
    }
    let ghost gout = resolution_view(out);
    assert(resolve_out(since(e0, e1)[0]) == gout);
    assert(parsed@.host == Some(name@));
    let addrs = match out {
        Err(e) => {
            let mut m: Vec<char> = Vec::new();
            push_str(&mut m, "DNS failed: ");
            push_str(&mut m, e.as_str());
            let r = ProbeResult { uri, ok: false, local_ms: None, message: string_of(&m) };
            return r;
        },
        Ok(v) => v,
    };
    if addrs.len() == 0 {
        let r = probe_result(uri, "DNS returned no addresses.");
        return r;
    }
    let ghost all = addrs@;
    let mut last: Option<String> = None;
    let mut i: usize = 0;
    assert(all.skip(0) =~= all);
    proof {
        lemma_since_same(e1);
    }
    while i < addrs.len()
        invariant
            i <= addrs.len(),
            all == addrs@,
            extends(e1, host.events()),
            forall|s: Seq<Event>, q: (bool, Option<u128>, Seq<char>)|
                #[trigger] connect_verdict(all.skip(i as int), opt_text(last), s, q) ==> connect_verdict(
                    all,
                    None,
                    since(e1, host.events()) + s,
                    q,
                ),
        decreases addrs.len() - i,
    {
        let ghost eb = host.events();
        let a = copy_socket(&addrs[i]);
        let ghost ga = a;
        let o = host.connect(a);
        let ghost ea = host.events();
        proof {
            lemma_push(eb, ea.last());
            lemma_since_concat(e1, eb, ea);
        }
        let ghost rest = all.skip(i as int);
        assert(rest[0] == ga);
        assert(is_connect(since(eb, ea)[0], rest[0]));
        assert(rest.drop_first() =~= all.skip(i + 1));
        match o {
            Ok(ms) => {
                let r = ProbeResult { uri, ok: true, local_ms: Some(ms), message: string_from("TCP reachable.") };
                proof {
                    let s1 = since(eb, ea);
                    assert(connect_verdict(rest, opt_text(last), s1, (r.ok, r.local_ms, r.message@)));
                    assert(since(e1, eb) + s1 == since(e1, ea));
                    lemma_since_concat(e0, e1, ea);
                    assert(since(e0, ea).skip(1) =~= since(e1, ea));
                    assert(since(e0, ea)[0] == since(e0, e1)[0]);
                }
                return r;
            },
            Err(e) => {
                proof {
                    assert forall|s: Seq<Event>, q: (bool, Option<u128>, Seq<char>)|
                        #[trigger] connect_verdict(all.skip(i + 1), Some(e@), s, q) implies connect_verdict(
                            all,
                            None,
                            since(e1, ea) + s,
                            q,
                        ) by {
                        let t = since(eb, ea) + s;
                        assert(t[0] == since(eb, ea)[0]);
                        assert(t.skip(1) =~= s);
                        assert(connect_verdict(rest, opt_text(last), t, q));
                        assert(since(e1, eb) + t =~= since(e1, ea) + s);
                    }
                }
                last = Some(e);
            },
        }
        i = i + 1;
    }
    let message = match last {
        Some(e) => e,
        None => string_from("Connection failed."),
    };
    let r = ProbeResult { uri, ok: false, local_ms: None, message };
    proof {
        assert(all.skip(i as int) =~= Seq::<SocketAddress>::empty());
        assert(connect_verdict(all.skip(i as int), opt_text(last), Seq::<Event>::empty(), (r.ok, r.local_ms, r.message@)));
        assert(since(e1, host.events()) + Seq::<Event>::empty() =~= since(e1, host.events()));
        lemma_since_concat(e0, e1, host.events());
        assert(since(e0, host.events()).skip(1) =~= since(e1, host.events()));
        assert(since(e0, host.events())[0] == since(e0, e1)[0]);
    }
    r
}

} // verus!

verus! {

/// Whether `scheme` is one whose peers are probed over TCP.
pub open spec fn tcp_scheme(scheme: Seq<char>) -> bool {
    scheme == "tcp"@ || scheme == "tls"@ || scheme == "ws"@ || scheme == "wss"@
}

/// Whether `r` is what probing the peer `uri`, which parsed as `parsed`, finds,
/// the actions `seg` being those taken: an invalid URI is reported; peers with a
/// TCP scheme are probed (see `tcp_verdict`); QUIC peers are skipped; other
/// schemes are not probed; nothing is asked where nothing is probed.
pub open spec fn parsed_probe_verdict(
    uri: Seq<char>,
    parsed: Result<UrlPartsView, UrlParseError>,
    seg: Seq<Event>,
    r: (Seq<char>, bool, Option<u128>, Seq<char>),
) -> bool {
    match parsed {
        Err(e) => seg.len() == 0 && r == (uri, false, None::<u128>, "Invalid URI: "@ + url_error_message(e)),
        Ok(parts) => if tcp_scheme(parts.scheme) {
            tcp_verdict(uri, parts, seg, r)
        } else if parts.scheme == "quic"@ {
            seg.len() == 0 && r == (uri, false, None::<u128>, "QUIC uses UDP; TCP probe skipped."@)
        } else {
            seg.len() == 0 && r == (uri, false, None::<u128>, "Unsupported local probe scheme: "@ + parts.scheme)
        },
    }
}

/// Whether `r` is what probing the peer `uri` finds, the actions `seg` being
/// those taken.
pub open spec fn probe_verdict(uri: Seq<char>, seg: Seq<Event>, r: (Seq<char>, bool, Option<u128>, Seq<char>)) -> bool {
    parsed_probe_verdict(uri, url_parse(uri), seg, r)
}

/// Probes the peer `uri`, given what parsing it as a URL gave.
pub fn probe_parsed<M: Machine>(uri: String, parsed: Result<UrlParts, UrlParseError>, host: &mut Host<M>) -> (r:
    ProbeResult)
    ensures
        extends(old(host).events(), final(host).events()),
        parsed_probe_verdict(
            uri@,
            parse_view(parsed),
            since(old(host).events(), final(host).events()),
            probe_view(r),
        ),
{
    proof {
        lemma_since_same(host.events());
    }
    let parts = match parsed {
        Err(e) => {
            let msg = e.message();
            let mut m: Vec<char> = Vec::new();
            push_str(&mut m, "Invalid URI: ");
            push_str(&mut m, msg.as_str());
            return ProbeResult { uri, ok: false, local_ms: None, message: string_of(&m) };
        },
        Ok(p) => p,
    };
    let s = parts.scheme.as_str();
    if same_text(s, "tcp") || same_text(s, "tls") || same_text(s, "ws") || same_text(s, "wss") {
        probe_tcp_uri(uri, &parts, host)
    } else if same_text(s, "quic") {
        probe_result(uri, "QUIC uses UDP; TCP probe skipped.")
    } else {
        let mut m: Vec<char> = Vec::new();
        push_str(&mut m, "Unsupported local probe scheme: ");
        push_str(&mut m, s);
        ProbeResult { uri, ok: false, local_ms: None, message: string_of(&m) }
    }
}

/// Probes the peer `uri` from this machine; see `probe_verdict`.
pub fn probe_peer<M: Machine>(uri: String, host: &mut Host<M>) -> (r: ProbeResult)
    ensures
        extends(old(host).events(), final(host).events()),
        probe_verdict(uri@, since(old(host).events(), final(host).events()), probe_view(r)),
{
    let parsed = parse_url(uri.as_str());
    probe_parsed(uri, parsed, host)
}

/// The most peers probed at once.
pub const MAX_PROBES: usize = 24;

/// The peers that one probe request probes: the first `MAX_PROBES` of `uris`.
pub fn probe_batch(uris: Vec<String>) -> (r: Vec<String>)
    ensures
        r@ == uris@.take(if uris@.len() < MAX_PROBES { uris@.len() as int } else { MAX_PROBES as int }),
{
    let mut uris = uris;
    if uris.len() > MAX_PROBES {
        uris.truncate(MAX_PROBES);
    }
    uris
}

/// The result reported for a peer whose probe did not finish.
pub fn probe_worker_failed(uri: String) -> (r: ProbeResult)
    ensures
        probe_view(r) == (uri@, false, None::<u128>, "Probe worker failed."@),
{
    probe_result(uri, "Probe worker failed.")
}

} // verus!

verus! {

/// Every peer of an accepted list is a URL with a scheme that a peer may use,
/// has a host, and is aimed at a public target; where its host read as an IP
/// address, that address is not a forbidden one.
pub proof fn law_accepted_peers_are_public<P: Fn(String) -> Option<IpAddress>>(
    parse: P,
    peers: Seq<Seq<char>>,
    seg: Seq<Event>,
    i: int,
)
    requires
        uris_verdict(parse, peers, seg, Ok(())),
        0 <= i < peers.len(),
    ensures
        url_parse(peers[i]) matches Ok(parts) && allowed_peer_scheme(parts.scheme) && parts.host is Some
            && exists|ip: Option<IpAddress>|
            #[trigger] ip_parsed(parse, parts.host->Some_0, ip) && (ip matches Some(a) ==> !forbidden_ip(
                a.kind,
            )),
    decreases i,
{
    let (k, first) = choose|k: int, first: Result<(), Seq<char>>|
        0 <= k <= seg.len() && #[trigger] uri_verdict(parse, peers[0], seg.take(k), first) && if first is Err {
            k == seg.len() && Ok::<(), Seq<char>>(()) == first
        } else {
            uris_verdict(parse, peers.drop_first(), seg.skip(k), Ok(()))
        };
    assert(first is Ok);
    let unit = first->Ok_0;
    assert(unit == ());
    assert(first == Ok::<(), Seq<char>>(()));
    if i > 0 {
        law_accepted_peers_are_public(parse, peers.drop_first(), seg.skip(k), i - 1);
        assert(peers.drop_first()[i - 1] == peers[i]);
    } else {
        let s0 = seg.take(k);
        assert(uri_verdict(parse, peers[0], s0, Ok(())));
        let parts = url_parse(peers[0])->Ok_0;
        assert(target_verdict(parse, peers[0], parts, s0, Ok(())));
        let h = parts.host->Some_0;
        let ip = choose|ip: Option<IpAddress>|
            #[trigger] ip_parsed(parse, h, ip) && target_after_ip(peers[0], parts, h, ip, s0, Ok(()));
        assert(ip_parsed(parse, h, ip) && (ip matches Some(a) ==> !forbidden_ip(a.kind)));
    }
}

} // verus!
