use uniqx::control::{decide_tunnel, http_new_client, tcp_new_client, tunnel_key};
use uniqx::host::{parse_host, HostError};
use uniqx::protocol::{Protocol, TunnelOpen, TunnelRequest};
use uniqx::reply::{bad_request_response, not_found_response, render_response};

fn answers(plan: &[TunnelOpen]) -> Vec<(String, Option<String>)> {
    plan.iter().map(|a| (a.access_point.clone(), a.error_message.clone())).collect()
}

#[test]
fn tunnel_open_with_error_carries_the_message() {
    let open = TunnelOpen::with_error("subdomain already in use");
    assert_eq!(open.access_point, "");
    assert_eq!(open.error_message.as_deref(), Some("subdomain already in use"));
    let default = TunnelOpen::default();
    assert_eq!(default.access_point, "");
    assert!(default.error_message.is_none());
}

#[test]
fn reply_text_counts_body_bytes() {
    assert_eq!(
        render_response(404, "Not Found", "tunnel not found"),
        "HTTP/1.1 404 Not Found\r\nContent-Length: 16\r\n\r\ntunnel not found"
    );
    assert_eq!(
        render_response(200, "OK", "héllo"),
        "HTTP/1.1 200 OK\r\nContent-Length: 6\r\n\r\nhéllo"
    );
    assert_eq!(bad_request_response(), "HTTP/1.1 400 Bad Request\r\nContent-Length: 11\r\n\r\nBad Request");
    assert_eq!(not_found_response(), render_response(404, "Not Found", "tunnel not found"));
    assert_eq!(render_response(500, "", ""), "HTTP/1.1 500 \r\nContent-Length: 0\r\n\r\n");
}

#[test]
fn host_header_names_the_subdomain() {
    let request = b"GET /test?foo=bar HTTP/1.1\r\nHost: test.localhost:8080\r\nConnection: close\r\n\r\n";
    let (subdomain, buffer) = parse_host(request).unwrap();
    assert_eq!(subdomain, "test");
    assert_eq!(buffer, request.to_vec());
}

#[test]
fn host_value_is_trimmed_and_cut_at_the_first_dot() {
    let (subdomain, _) = parse_host(b"GET / HTTP/1.1\r\nHost:    spaced.example.com  \r\n\r\n").unwrap();
    assert_eq!(subdomain, "spaced");
    let (subdomain, _) = parse_host(b"GET / HTTP/1.1\r\nHost: localhost\r\n\r\n").unwrap();
    assert_eq!(subdomain, "localhost");
    let (subdomain, _) = parse_host(b"GET / HTTP/1.1\r\nHost: \r\n\r\n").unwrap();
    assert_eq!(subdomain, "");
}

#[test]
fn first_host_header_wins() {
    let (subdomain, _) =
        parse_host(b"GET / HTTP/1.1\r\nHost: one.example.com\r\nHost: two.example.com\r\n\r\n").unwrap();
    assert_eq!(subdomain, "one");
}

#[test]
fn host_text_is_decoded_lossily() {
    let (subdomain, _) = parse_host(b"GET / HTTP/1.1\r\nHost: a\xffb.example.com\r\n\r\n").unwrap();
    assert_eq!(subdomain, "a\u{fffd}b");
}

#[test]
fn missing_host_is_refused() {
    assert_eq!(parse_host(b"GET / HTTP/1.1\r\nAccept: */*\r\n\r\n"), Err(HostError::NoHostDetected));
    assert_eq!(parse_host(b"GET / HTTP/1.1\r\nHost: unfinished.example.com"), Err(HostError::NoHostDetected));
    assert_eq!(parse_host(b""), Err(HostError::NoHostDetected));
    assert_eq!(parse_host(b"host: lower.example.com\n"), Err(HostError::NoHostDetected));
}

fn http_request(subdomain: &str) -> TunnelRequest {
    TunnelRequest { protocol: Protocol::HTTP, subdomain: subdomain.to_owned(), tcp_port: None }
}

#[test]
fn free_http_subdomain_opens_a_tunnel() {
    let plan = decide_tunnel(&http_request("test"), "localhost", false);
    assert_eq!(answers(&plan.answers), vec![(String::from("test.localhost"), None)]);
    assert_eq!(plan.register.as_deref(), Some("test"));
    assert_eq!(plan.listen_port, None);
}

#[test]
fn held_http_subdomain_is_refused() {
    let plan = decide_tunnel(&http_request("test"), "localhost", true);
    assert_eq!(
        answers(&plan.answers),
        vec![(String::new(), Some(String::from("subdomain already in use")))]
    );
    assert!(plan.register.is_none());
    assert!(plan.listen_port.is_none());
}

#[test]
fn broken_http_subdomain_is_warned_about_then_served() {
    let plan = decide_tunnel(&http_request("ab"), "example.com", false);
    assert_eq!(
        answers(&plan.answers),
        vec![
            (String::new(), Some(String::from("subdomain length must be between 3 and 42"))),
            (String::from("ab.example.com"), None),
        ]
    );
    assert_eq!(plan.register.as_deref(), Some("ab"));
}

#[test]
fn tcp_tunnels_are_keyed_by_port() {
    let request = TunnelRequest { protocol: Protocol::TCP, subdomain: String::from("db"), tcp_port: Some(5432) };
    assert_eq!(tunnel_key(&request), "5432");
    let plan = decide_tunnel(&request, "example.com", false);
    assert_eq!(answers(&plan.answers), vec![(String::from("db.example.com"), None)]);
    assert_eq!(plan.register.as_deref(), Some("5432"));
    assert_eq!(plan.listen_port, Some(5432));
    let held = decide_tunnel(&request, "example.com", true);
    assert_eq!(answers(&held.answers), vec![(String::new(), Some(String::from("Port already in use")))]);
    assert!(held.register.is_none());
    assert!(held.listen_port.is_none());
}

#[test]
fn public_connections_are_announced() {
    let client = http_new_client(String::from("id-1"), String::from("test"), b"GET /".to_vec());
    assert_eq!(client.initial_buffer, Some(b"GET /".to_vec()));
    assert_eq!(client.public_conn_identifier, "id-1");
    assert_eq!(client.control_server_identifier.as_deref(), Some("test"));
    let (key, client) = tcp_new_client(String::from("id-2"), 64878);
    assert_eq!(key, "64878");
    assert_eq!(client.initial_buffer, None);
    assert_eq!(client.public_conn_identifier, "id-2");
    assert_eq!(client.control_server_identifier.as_deref(), Some("64878"));
}

#[test]
fn access_point_request_routes_back_to_its_tunnel() {
    let plan = decide_tunnel(&http_request("unique"), "example.com", false);
    let access_point = plan.answers[0].access_point.clone();
    let request = format!("GET / HTTP/1.1\r\nHost: {}\r\n\r\n", access_point);
    let (subdomain, _) = parse_host(request.as_bytes()).unwrap();
    assert_eq!(Some(subdomain), plan.register);
}

#[test]
fn tcp_public_port_finds_the_tunnel_key() {
    let request = TunnelRequest { protocol: Protocol::TCP, subdomain: String::from("any"), tcp_port: Some(64878) };
    let (key, _) = tcp_new_client(String::from("id"), 64878);
    assert_eq!(key, tunnel_key(&request));
    let (other, _) = tcp_new_client(String::from("id"), 6487);
    assert_ne!(other, tunnel_key(&request));
}

#[test]
fn host_value_loses_unicode_white_space_too() {
    let request = "GET / HTTP/1.1\r\nHost: \u{a0}\u{3000}wide.example.com\u{2003}\t\r\n\r\n";
    let (subdomain, _) = parse_host(request.as_bytes()).unwrap();
    assert_eq!(subdomain, "wide");
    let (subdomain, _) = parse_host("GET / HTTP/1.1\r\nHost: a\u{200b}b\r\n".as_bytes()).unwrap();
    assert_eq!(subdomain, "a\u{200b}b");
}

#[test]
fn host_follows_other_headers() {
    let request = b"GET / HTTP/1.1\r\nUser-Agent: curl/8.0\r\nAccept: */*\r\nHost: mine.example.com\r\n\r\n";
    let (subdomain, _) = parse_host(request).unwrap();
    assert_eq!(subdomain, "mine");
}

#[test]
fn first_host_marker_wins_even_inside_another_header() {
    let request = b"GET / HTTP/1.1\r\nX-Host: other\r\nHost: mine.example.com\r\n\r\n";
    let (subdomain, _) = parse_host(request).unwrap();
    assert_eq!(subdomain, "other");
}
