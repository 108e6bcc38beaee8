//! What the client prints once the server has answered its tunnel request.

use vstd::prelude::*;
use vstd::string::*;
use crate::decimal::{decimal, u64_to_decimal};
use crate::protocol::{AnswerView, Protocol, TunnelOpen};

verus! {

broadcast use vstd::string::group_string_axioms;

/// The name the client prints for a protocol.
pub open spec fn protocol_name(protocol: Protocol) -> Seq<char> {
    match protocol {
        Protocol::HTTP => "HTTP"@,
        Protocol::TCP => "TCP"@,
    }
}

/// The port the client reports as the public one: the requested port, 443 when none
/// was requested.
pub open spec fn public_port(port: Option<u16>) -> nat {
    match port {
        Some(p) => p as nat,
        None => 443,
    }
}

/// What the client prints for the server's first answer: the error line for a refusal,
/// otherwise the status, the protocol and where the tunnel forwards from and to.
pub open spec fn banner_of(
    answer: AnswerView,
    protocol: Protocol,
    port: Option<u16>,
    local_host: Seq<char>,
    local_port: u16,
) -> Result<Seq<Seq<char>>, Seq<char>> {
    match answer.error_message {
        Some(m) => Err("Error: "@ + m),
        None => Ok(
            seq![
                "Status: \t Online "@,
                "Protocol: \t "@ + protocol_name(protocol),
                "Forwarded: \t "@ + answer.access_point + ":"@ + decimal(public_port(port))
                    + " -> "@ + local_host + ":"@ + decimal(local_port as nat),
            ],
        ),
    }
}

/// The line that tells where the request console is served.
pub open spec fn console_line_of(local_host: Seq<char>, console_port: u16) -> Seq<char> {
    "Console: \t http://"@ + local_host + ":"@ + decimal(console_port as nat)
}

/// The lines the client prints once the server has answered its request for a tunnel
/// of `protocol` on `port`, forwarding to `local_host:local_port`; `Err` with the error
/// line when the server refused, after which the client stops.
pub fn tunnel_banner(
    answer: &TunnelOpen,
    protocol: Protocol,
    port: Option<u16>,
    local_host: &str,
    local_port: u16,
) -> (r: Result<Vec<String>, String>)
    ensures
        match banner_of(answer@, protocol, port, local_host@, local_port) {
            Ok(lines) => (r matches Ok(v) && v@.map_values(|l: String| l@) == lines),
            Err(line) => (r matches Err(e) && e@ == line),
        },
        answer.error_message matches Some(m) ==> (r matches Err(e) && e@ == "Error: "@ + m@),
        answer.error_message is None ==> (r matches Ok(v) && v@.len() == 3 && v@[0]@
            == "Status: \t Online "@),
{
    match &answer.error_message {
        Some(m) => {
            let mut line = String::from_str("Error: ");
            line.append(m.as_str());
            Err(line)
        },
        None => {
            let status = String::from_str("Status: \t Online ");
            let mut kind = String::from_str("Protocol: \t ");
            match protocol {
                Protocol::HTTP => kind.append("HTTP"),
                Protocol::TCP => kind.append("TCP"),
            }
            let public: u16 = match port {
                Some(p) => p,
                None => 443,
            };
            let mut forwarded = String::from_str("Forwarded: \t ");
            forwarded.append(answer.access_point.as_str());
            forwarded.append(":");
            forwarded.append(u64_to_decimal(public as u64).as_str());
            forwarded.append(" -> ");
            forwarded.append(local_host);
            forwarded.append(":");
            forwarded.append(u64_to_decimal(local_port as u64).as_str());
            let mut lines: Vec<String> = Vec::new();
            lines.push(status);
            lines.push(kind);
            lines.push(forwarded);
            proof {
                let want = banner_of(answer@, protocol, port, local_host@, local_port);
                assert(want matches Ok(ls) && lines@.map_values(|l: String| l@) =~= ls);
            }
            Ok(lines)
        },
    }
}

/// Whatever the protocol, ports and local address, a refused request gives the error
/// line `Error: <message>` and nothing else, and an accepted one gives the three status
/// lines: online, the protocol, and the access point with the public port forwarded to
/// the local address.
pub proof fn law_refusal_stops_the_client(
    answer: AnswerView,
    protocol: Protocol,
    port: Option<u16>,
    local_host: Seq<char>,
    local_port: u16,
)
    ensures
        answer.error_message matches Some(m) ==> banner_of(
            answer,
            protocol,
            port,
            local_host,
            local_port,
        ) == Err::<Seq<Seq<char>>, Seq<char>>("Error: "@ + m),
        answer.error_message is None ==> (banner_of(answer, protocol, port, local_host, local_port)
            matches Ok(lines) && lines.len() == 3 && lines[0] == "Status: \t Online "@ && lines[1]
            == "Protocol: \t "@ + protocol_name(protocol) && lines[2] == "Forwarded: \t "@
            + answer.access_point + ":"@ + decimal(public_port(port)) + " -> "@ + local_host + ":"@
            + decimal(local_port as nat)),
{
}

/// The line that tells where the request console is served: `local_host` and the
/// console's port.
pub fn console_line(local_host: &str, console_port: u16) -> (r: String)
    ensures
        r@ == console_line_of(local_host@, console_port),
{
    let mut line = String::from_str("Console: \t http://");
    line.append(local_host);
    line.append(":");
    line.append(u64_to_decimal(console_port as u64).as_str());
    line
}

} // verus!
