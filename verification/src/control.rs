//! What the server decides when a client asks for a tunnel, and what it tells the
//! client when a public connection arrives for one.

use vstd::prelude::*;
use vstd::string::*;
use crate::decimal::{decimal, u64_to_decimal};
use crate::protocol::{AnswerView, NewClient, Protocol, TunnelOpen, TunnelRequest};
use crate::host::{
    host_marker, host_subdomain, lemma_find_from_first, lemma_first_label_before_dot,
    lemma_trim_end_after, lossy_text, newline, trim_end, trim_start,
};
use crate::subdomain::{
    blocked_message, is_blocked, is_label_char, subdomain_error, subdomain_shape, validate_subdomain,
};
use vstd::utf8::*;

verus! {

broadcast use vstd::string::group_string_axioms;

/// An answer that refuses a tunnel with message `m`.
pub open spec fn refusal(m: Seq<char>) -> AnswerView {
    AnswerView { access_point: Seq::empty(), error_message: Some(m) }
}

/// An answer that opens a tunnel reachable at `access_point`.
pub open spec fn opening(access_point: Seq<char>) -> AnswerView {
    AnswerView { access_point, error_message: None }
}

/// Where the public reaches a tunnel for `subdomain` on a server for `domain`.
pub open spec fn access_point(subdomain: Seq<char>, domain: Seq<char>) -> Seq<char> {
    subdomain + "."@ + domain
}

/// Message for a subdomain that a live tunnel already holds.
pub open spec fn subdomain_in_use_message() -> Seq<char> {
    "subdomain already in use"@
}

/// Message for a port that a live tunnel already holds.
pub open spec fn port_in_use_message() -> Seq<char> {
    "Port already in use"@
}

/// The key under which the server registers the tunnel that `req` asks for: the
/// subdomain of an HTTP tunnel, the decimal port of a TCP tunnel.
pub open spec fn tunnel_key_of(protocol: Protocol, subdomain: Seq<char>, tcp_port: Option<u16>) -> Seq<
    char,
> {
    match protocol {
        Protocol::HTTP => subdomain,
        Protocol::TCP => decimal(tcp_port->0 as nat),
    }
}

/// The key a request registers its tunnel under: none while a live tunnel holds the
/// request's key, the request's key otherwise.
pub open spec fn planned_register(
    protocol: Protocol,
    subdomain: Seq<char>,
    tcp_port: Option<u16>,
    key_in_use: bool,
) -> Option<Seq<char>> {
    if key_in_use {
        None
    } else {
        Some(tunnel_key_of(protocol, subdomain, tcp_port))
    }
}

/// The answers the server sends for a request, in order.
pub open spec fn planned_answers(
    protocol: Protocol,
    subdomain: Seq<char>,
    domain: Seq<char>,
    key_in_use: bool,
) -> Seq<AnswerView> {
    match protocol {
        Protocol::HTTP => {
            let warning = match subdomain_error(subdomain) {
                Some(m) => seq![refusal(m)],
                None => Seq::empty(),
            };
            if key_in_use {
                warning.push(refusal(subdomain_in_use_message()))
            } else {
                warning.push(opening(access_point(subdomain, domain)))
            }
        },
        Protocol::TCP => {
            if key_in_use {
                seq![refusal(port_in_use_message())]
            } else {
                seq![opening(access_point(subdomain, domain))]
            }
        },
    }
}

/// What the control server does with one tunnel request.
pub struct TunnelPlan {
    /// Answers to send to the client, in order.
    pub answers: Vec<TunnelOpen>,
    /// The key to register the tunnel under until the client goes away; `None` when the
    /// request is refused and the connection ends after the answers.
    pub register: Option<String>,
    /// The public port to listen on for a TCP tunnel, before the answers are sent.
    pub listen_port: Option<u16>,
}

/// The key under which the tunnel that `req` asks for is registered.
pub fn tunnel_key(req: &TunnelRequest) -> (k: String)
    requires
        req.protocol == Protocol::TCP ==> req.tcp_port is Some,
    ensures
        k@ == tunnel_key_of(req.protocol, req.subdomain@, req.tcp_port),
{
    match req.protocol {
        Protocol::HTTP => req.subdomain.clone(),
        Protocol::TCP => {
            let port = match req.tcp_port {
                Some(p) => p,
                None => {
                    assert(false);
                    0
                },
            };
            u64_to_decimal(port as u64)
        },
    }
}

/// Decides what the control server does with the tunnel request `req` on a server for
/// `domain`, given whether a live tunnel already holds the request's key.
///
/// An HTTP request whose subdomain breaks the rules is first answered with the reason;
/// the request then goes on as any other. A request whose key is held is refused with
/// an "in use" answer and registers nothing. Otherwise the client is told the access
/// point, `subdomain.domain`, and the tunnel is registered under its key; a TCP tunnel
/// also listens on its port.
pub fn decide_tunnel(req: &TunnelRequest, domain: &str, key_in_use: bool) -> (plan: TunnelPlan)
    requires
        req.protocol == Protocol::TCP ==> req.tcp_port is Some,
    ensures
        plan.answers@.map_values(|a: TunnelOpen| a@) == planned_answers(
            req.protocol,
            req.subdomain@,
            domain@,
            key_in_use,
        ),
        match planned_register(req.protocol, req.subdomain@, req.tcp_port, key_in_use) {
            Some(k) => (plan.register matches Some(r) && r@ == k),
            None => plan.register is None,
        },
        key_in_use ==> plan.listen_port is None,
        plan.answers@.len() >= 1,
        !key_in_use ==> plan.answers@.last().error_message is None
            && plan.answers@.last().access_point@ == req.subdomain@ + "."@ + domain@,
        key_in_use ==> (plan.answers@.last().error_message matches Some(e) && e@ == match req.protocol {
            Protocol::HTTP => "subdomain already in use"@,
            Protocol::TCP => "Port already in use"@,
        }),
        req.protocol == Protocol::HTTP ==> match subdomain_error(req.subdomain@) {
            Some(m) => plan.answers@.len() == 2 && plan.answers@[0].access_point@ == Seq::<
                char,
            >::empty() && (plan.answers@[0].error_message matches Some(e) && e@ == m),
            None => plan.answers@.len() == 1,
        },
        req.protocol == Protocol::HTTP && is_ascii_chars(req.subdomain@) && !(3
            <= req.subdomain@.len() <= 38 && !is_blocked(req.subdomain@) && subdomain_shape(
            req.subdomain@,
        )) ==> plan.answers@.len() == 2 && plan.answers@[0].error_message is Some,
        !key_in_use && req.protocol == Protocol::TCP ==> plan.listen_port == req.tcp_port,
        req.protocol == Protocol::HTTP ==> plan.listen_port is None,
{
    let mut answers: Vec<TunnelOpen> = Vec::new();
    if req.protocol == Protocol::HTTP {
        match validate_subdomain(req.subdomain.as_str()) {
            Err(m) => answers.push(TunnelOpen::with_error(m.as_str())),
            Ok(()) => {},
        }
    }
    if key_in_use {
        let message = match req.protocol {
            Protocol::HTTP => String::from_str("subdomain already in use"),
            Protocol::TCP => String::from_str("Port already in use"),
        };
        answers.push(TunnelOpen::with_error(message.as_str()));
        assert(answers@.map_values(|a: TunnelOpen| a@) =~= planned_answers(
            req.protocol,
            req.subdomain@,
            domain@,
            key_in_use,
        ));
        return TunnelPlan { answers, register: None, listen_port: None };
    }
    let mut point = req.subdomain.clone();
    point.append(".");
    point.append(domain);
    answers.push(TunnelOpen::opened(point));
    let key = tunnel_key(req);
    let listen_port = match req.protocol {
        Protocol::HTTP => None,
        Protocol::TCP => req.tcp_port,
    };
    assert(answers@.map_values(|a: TunnelOpen| a@) =~= planned_answers(
        req.protocol,
        req.subdomain@,
        domain@,
        key_in_use,
    ));
    TunnelPlan { answers, register: Some(key), listen_port }
}

/// The announcement sent to the tunnel's client when a public HTTP request arrives for
/// `subdomain`: the bytes already read, to be replayed, and where to find the connection.
pub fn http_new_client(identifier: String, subdomain: String, buffer: Vec<u8>) -> (c: NewClient)
    ensures
        c.initial_buffer == Some(buffer),
        c.public_conn_identifier == identifier,
        c.control_server_identifier == Some(subdomain),
{
    NewClient {
        initial_buffer: Some(buffer),
        public_conn_identifier: identifier,
        control_server_identifier: Some(subdomain),
    }
}

/// The key of the tunnel that serves public TCP port `port`, and the announcement sent
/// to its client for a new connection there.
pub fn tcp_new_client(identifier: String, port: u16) -> (r: (String, NewClient))
    ensures
        r.0@ == tunnel_key_of(Protocol::TCP, Seq::empty(), Some(port)),
        r.1.initial_buffer is None,
        r.1.public_conn_identifier == identifier,
        r.1.control_server_identifier matches Some(k) && k@ == r.0@,
{
    let key = u64_to_decimal(port as u64);
    let announced = key.clone();
    (key, NewClient {
        initial_buffer: None,
        public_conn_identifier: identifier,
        control_server_identifier: Some(announced),
    })
}

/// The header line `Host: {host}` of a request for `host`, with its line end.
pub open spec fn host_line(host: Seq<char>) -> Seq<char> {
    "Host: "@ + host + "\r\n"@
}

/// A public request whose `Host` header names the access point `subdomain.domain` that
/// an HTTP tunnel was given is routed to the key the tunnel was registered under,
/// whatever comes after that line and whatever comes before it, as long as no
/// `Host: ` starts before that line. The subdomain is one the rules accept (ASCII, of the
/// subdomain shape) and the domain is ASCII text on one line.
pub proof fn law_access_point_reaches_tunnel(
    subdomain: Seq<char>,
    domain: Seq<char>,
    before: Seq<u8>,
    after: Seq<u8>,
)
    requires
        is_ascii_chars(subdomain),
        subdomain_shape(subdomain),
        is_ascii_chars(domain),
        forall|i: int| 0 <= i < domain.len() ==> #[trigger] domain[i] != '\n',
        forall|i: int|
            0 <= i < before.len() ==> #[trigger] (before + encode_utf8(
                host_line(access_point(subdomain, domain)),
            ) + after).subrange(i, i + 6) != host_marker(),
    ensures
        host_subdomain(before + encode_utf8(host_line(access_point(subdomain, domain))) + after)
            == Some(tunnel_key_of(Protocol::HTTP, subdomain, None)),
{
    reveal_strlit("Host: ");
    reveal_strlit("\r\n");
    reveal_strlit(".");
    let host = access_point(subdomain, domain);
    let line = host_line(host);
    let middle = subdomain + seq!['.'] + domain + seq!['\r'];
    assert(line =~= seq!['H', 'o', 's', 't', ':', ' '] + middle + seq!['\n']);
    assert forall|i: int| 0 <= i < middle.len() implies '\0' <= #[trigger] middle[i] <= '\u{7f}'
        && middle[i] != '\n' by {
        if i < subdomain.len() {
            assert(middle[i] == subdomain[i]);
            assert(is_label_char(subdomain[i]) || subdomain[i] == '-');
        } else if i > subdomain.len() && i < subdomain.len() + 1 + domain.len() {
            assert(middle[i] == domain[i - subdomain.len() - 1]);
        }
    }
    assert(is_ascii_chars(middle));
    assert forall|i: int| 0 <= i < line.len() implies '\0' <= #[trigger] line[i] <= '\u{7f}' by {
        if 6 <= i < 6 + middle.len() {
            assert(line[i] == middle[i - 6]);
        }
    }
    assert(is_ascii_chars(line));
    is_ascii_chars_encode_utf8(line);
    is_ascii_chars_encode_utf8(middle);
    let bytes = encode_utf8(line);
    let data = before + bytes + after;
    let k = before.len() as int;
    let nl = k + line.len() - 1;
    assert forall|j: int| 0 <= j < bytes.len() implies #[trigger] data[k + j] == bytes[j] by {}
    // The marker sits right after `before`, and no earlier one exists.
    assert(data.subrange(k, k + 6) =~= host_marker()) by {
        assert forall|j: int| 0 <= j < 6 implies data.subrange(k, k + 6)[j] == host_marker()[j] by {
            assert(data[k + j] == bytes[j]);
            assert(bytes[j] == line[j] as u8);
        }
    }
    assert forall|i: int| 0 <= i < k implies #[trigger] data.subrange(i, i + host_marker().len())
        != host_marker() by {
        assert(host_marker().len() == 6);
        assert(data.subrange(i, i + 6) != host_marker());
    }
    lemma_find_from_first(data, host_marker(), 0, k);
    // The line ends at the first newline after the marker.
    assert(data.subrange(nl, nl + 1) =~= newline()) by {
        assert(data[nl] == bytes[line.len() - 1]);
        assert(bytes[line.len() - 1] == line[line.len() - 1] as u8);
    }
    assert forall|i: int| k + 6 <= i < nl implies #[trigger] data.subrange(i, i + newline().len())
        != newline() by {
        assert(data.subrange(i, i + 1)[0] == data[i]);
        assert(data[i] == bytes[i - k]);
        assert(bytes[i - k] == line[i - k] as u8);
        assert(line[i - k] == middle[i - k - 6]);
    }
    lemma_find_from_first(data, newline(), k + 6, nl);
    // The bytes of the host are the encoding of `middle`.
    assert(data.subrange(k + 6, nl) =~= encode_utf8(middle)) by {
        assert forall|j: int| 0 <= j < middle.len() implies data.subrange(k + 6, nl)[j]
            == encode_utf8(middle)[j] by {
            assert(data[k + 6 + j] == bytes[6 + j]);
            assert(bytes[6 + j] == line[6 + j] as u8);
            assert(line[6 + j] == middle[j]);
        }
    }
    encode_utf8_valid_utf8(middle);
    encode_utf8_decode_utf8(middle);
    assert(lossy_text(encode_utf8(middle)) == middle);
    // Trimming keeps the subdomain and the dot; the first label is the subdomain.
    assert(middle[0] == subdomain[0]);
    assert(trim_start(middle) == middle);
    let head = subdomain + seq!['.'];
    let tail = domain + seq!['\r'];
    assert(middle =~= head + tail);
    assert(head.last() == '.');
    lemma_trim_end_after(head, tail);
    assert forall|i: int| 0 <= i < subdomain.len() implies #[trigger] subdomain[i] != '.' by {
        assert(is_label_char(subdomain[i]) || subdomain[i] == '-');
    }
    lemma_first_label_before_dot(subdomain, trim_end(tail));
    assert(head + trim_end(tail) =~= subdomain + seq!['.'] + trim_end(tail));
}

/// A public connection on TCP port `q` reaches the tunnel that a TCP request for port
/// `p` registered exactly when the ports are the same, whatever subdomains the requests
/// named.
pub proof fn law_tcp_port_reaches_tunnel(s: Seq<char>, t: Seq<char>, p: u16, q: u16)
    ensures
        tunnel_key_of(Protocol::TCP, s, Some(p)) == tunnel_key_of(Protocol::TCP, t, Some(q))
            <==> p == q,
{
    crate::decimal::law_decimal_distinct(p as nat, q as nat);
}

/// While a live tunnel holds a request's key, the request is told so and nothing else
/// follows; when the key is free, the last answer opens the tunnel at `subdomain.domain`.
pub proof fn law_held_key_is_refused(protocol: Protocol, subdomain: Seq<char>, domain: Seq<char>)
    ensures
        planned_answers(protocol, subdomain, domain, true).last() == refusal(
            match protocol {
                Protocol::HTTP => subdomain_in_use_message(),
                Protocol::TCP => port_in_use_message(),
            },
        ),
        planned_answers(protocol, subdomain, domain, false).last() == opening(
            access_point(subdomain, domain),
        ),
        forall|i: int|
            0 <= i < planned_answers(protocol, subdomain, domain, true).len() ==> (
            #[trigger] planned_answers(protocol, subdomain, domain, true)[i]).error_message is Some,
{
    let refused = planned_answers(protocol, subdomain, domain, true);
    assert forall|i: int| 0 <= i < refused.len() implies (#[trigger] refused[i]).error_message is Some by {
        if protocol == Protocol::HTTP && i < refused.len() - 1 {
            assert(subdomain_error(subdomain) is Some);
        }
    }
}

/// An HTTP request whose subdomain breaks a rule (its length, the block list or the
/// pattern, as [`validate_subdomain`] reports) is first answered with exactly the reason
/// for the refusal, then with the answer to the request; a subdomain that keeps the
/// rules gets that one answer alone. A blocked subdomain is always told that it is on
/// the block list.
pub proof fn law_rule_breach_is_warned_first(
    subdomain: Seq<char>,
    domain: Seq<char>,
    key_in_use: bool,
)
    ensures
        match subdomain_error(subdomain) {
            Some(m) => planned_answers(Protocol::HTTP, subdomain, domain, key_in_use).len() == 2
                && planned_answers(Protocol::HTTP, subdomain, domain, key_in_use)[0] == (AnswerView {
                access_point: Seq::empty(),
                error_message: Some(m),
            }),
            None => planned_answers(Protocol::HTTP, subdomain, domain, key_in_use).len() == 1,
        },
        is_blocked(subdomain) ==> planned_answers(Protocol::HTTP, subdomain, domain, key_in_use)[0]
            == (AnswerView { access_point: Seq::empty(), error_message: Some(blocked_message()) }),
{
    if is_blocked(subdomain) {
        reveal_strlit("www");
        reveal_strlit("uniqx");
        assert(is_ascii_chars(subdomain)) by {
            assert forall|i: int| 0 <= i < subdomain.len() implies '\0' <= #[trigger] subdomain[i]
                <= '\u{7f}' by {
                if subdomain == "www"@ {
                    assert(subdomain[i] == 'w');
                } else {
                    assert(0 <= i < 5);
                }
            }
        }
        is_ascii_chars_encode_utf8(subdomain);
    }
}

/// The keys that live tunnels hold after the server handles a request for a tunnel of
/// `protocol` on `subdomain` or `tcp_port`, when `held` were held before: the server asks
/// [`decide_tunnel`] whether the request's key is held and adds the key it plans to
/// register, if any.
pub open spec fn held_after_request(
    held: Set<Seq<char>>,
    protocol: Protocol,
    subdomain: Seq<char>,
    tcp_port: Option<u16>,
) -> Set<Seq<char>> {
    let in_use = held.contains(tunnel_key_of(protocol, subdomain, tcp_port));
    match planned_register(protocol, subdomain, tcp_port, in_use) {
        Some(k) => held.insert(k),
        None => held,
    }
}

/// The keys held after the tunnel registered under `key` is released.
pub open spec fn held_after_release(held: Set<Seq<char>>, key: Seq<char>) -> Set<Seq<char>> {
    held.remove(key)
}

/// A held key is never taken over: handling a request keeps every key held before,
/// changes nothing when the request's key was held, and leaves the request's key held
/// and no other key added. Releasing a tunnel frees its own key and leaves every other
/// key as it was.
pub proof fn law_registry_steps(
    held: Set<Seq<char>>,
    protocol: Protocol,
    subdomain: Seq<char>,
    tcp_port: Option<u16>,
    other: Seq<char>,
)
    ensures
        held.subset_of(held_after_request(held, protocol, subdomain, tcp_port)),
        held.contains(tunnel_key_of(protocol, subdomain, tcp_port)) ==> held_after_request(
            held,
            protocol,
            subdomain,
            tcp_port,
        ) == held,
        held_after_request(held, protocol, subdomain, tcp_port).contains(
            tunnel_key_of(protocol, subdomain, tcp_port),
        ),
        held_after_request(held, protocol, subdomain, tcp_port).contains(other) ==> other
            == tunnel_key_of(protocol, subdomain, tcp_port) || held.contains(other),
        !held_after_release(held, other).contains(other),
        other != tunnel_key_of(protocol, subdomain, tcp_port) ==> (held_after_release(
            held,
            tunnel_key_of(protocol, subdomain, tcp_port),
        ).contains(other) == held.contains(other)),
{
}

} // verus!
