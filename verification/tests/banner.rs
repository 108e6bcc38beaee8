use uniqx::banner::{console_line, tunnel_banner};
use uniqx::protocol::{Protocol, TunnelOpen};

#[test]
fn opened_http_tunnel_prints_status_lines() {
    let answer = TunnelOpen::opened(String::from("demo.example.com"));
    let lines = tunnel_banner(&answer, Protocol::HTTP, None, "localhost", 3000).unwrap();
    assert_eq!(
        lines,
        vec![
            String::from("Status: \t Online "),
            String::from("Protocol: \t HTTP"),
            String::from("Forwarded: \t demo.example.com:443 -> localhost:3000"),
        ]
    );
}

#[test]
fn opened_tcp_tunnel_prints_its_port() {
    let answer = TunnelOpen::opened(String::from("db.example.com"));
    let lines = tunnel_banner(&answer, Protocol::TCP, Some(5432), "127.0.0.1", 15432).unwrap();
    assert_eq!(lines[1], "Protocol: \t TCP");
    assert_eq!(lines[2], "Forwarded: \t db.example.com:5432 -> 127.0.0.1:15432");
}

#[test]
fn refused_tunnel_prints_the_error() {
    let answer = TunnelOpen::with_error("subdomain already in use");
    let refused = tunnel_banner(&answer, Protocol::HTTP, None, "localhost", 3000);
    assert_eq!(refused, Err(String::from("Error: subdomain already in use")));
}

#[test]
fn console_line_names_host_and_port() {
    assert_eq!(console_line("localhost", 0), "Console: \t http://localhost:0");
    assert_eq!(console_line("localhost", 65535), "Console: \t http://localhost:65535");
}
