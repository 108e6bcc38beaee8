//! Constants and messages shared by the tunnel client and server.

use vstd::prelude::*;

verus! {

/// TCP port used for control connections with the server.
pub const CONTROL_PORT: u16 = 7835;

/// Maximum byte length for a JSON frame in the stream, as the protocol declares it.
/// The framing of control and event connections is built with
/// [`MAX_DELIMITED_FRAME_LENGTH`] instead, which frames carrying a replayed request
/// buffer need.
pub const MAX_FRAME_LENGTH: usize = 256;

/// Seconds to wait for network connections and initial protocol messages.
pub const NETWORK_TIMEOUT_SECS: u64 = 10;

/// Port used for the control server's TCP socket.
pub const SERVER_PORT: u16 = 9876;

/// Port used for the event server's TCP socket.
pub const EVENT_SERVER_PORT: u16 = 9875;

/// Seconds a connection stays idle before TCP starts sending keepalive probes.
pub const TCP_KEEPIDLE: u64 = 30;

/// Seconds between individual keepalive probes.
pub const TCP_KEEPINTVL: u64 = 15;

/// Number of keepalive probes sent before the connection is dropped.
pub const TCP_KEEPCNT: u32 = 6;

/// Byte that ends every message frame on a control or event connection.
pub const FRAME_DELIMITER: u8 = 0;

/// Longest message frame, in bytes, that the framing of a control or event connection
/// accepts; a longer frame ends the connection with an error.
pub const MAX_DELIMITED_FRAME_LENGTH: usize = 20000;

/// The kind of traffic a tunnel carries.
#[derive(Clone, Copy, Debug, PartialEq, Eq, Structural)]
pub enum Protocol {
    HTTP,
    TCP,
}

/// First message of a control connection: the tunnel a client asks for.
#[derive(Clone, Debug)]
pub struct TunnelRequest {
    pub protocol: Protocol,
    pub subdomain: String,
    pub tcp_port: Option<u16>,
}

/// The server's answer to a [`TunnelRequest`].
#[derive(Debug)]
pub struct TunnelOpen {
    pub access_point: String,
    pub error_message: Option<String>,
}

impl Default for TunnelOpen {
    fn default() -> (r: Self)
        ensures
            r.access_point@ == Seq::<char>::empty(),
            r.error_message is None,
    {
        TunnelOpen { access_point: String::new(), error_message: None }
    }
}

impl TunnelOpen {
    /// An answer that refuses the tunnel with the message `msg`.
    pub fn with_error(msg: &str) -> (r: Self)
        ensures
            r.access_point@ == Seq::<char>::empty(),
            r.error_message matches Some(m) && m@ == msg@,
    {
        TunnelOpen { error_message: Some(msg.to_owned()), ..Default::default() }
    }

    /// An answer that opens the tunnel, reachable at `access_point`.
    pub fn opened(access_point: String) -> (r: Self)
        ensures
            r.access_point@ == access_point@,
            r.error_message is None,
    {
        TunnelOpen { access_point, error_message: None }
    }
}

/// What an answer to a tunnel request says: where the tunnel is reached, or why it was
/// refused.
pub struct AnswerView {
    pub access_point: Seq<char>,
    pub error_message: Option<Seq<char>>,
}

impl View for TunnelOpen {
    type V = AnswerView;

    open spec fn view(&self) -> AnswerView {
        AnswerView {
            access_point: self.access_point@,
            error_message: match self.error_message {
                Some(m) => Some(m@),
                None => None,
            },
        }
    }
}

/// Announces a new public connection to the client that owns the tunnel.
pub struct NewClient {
    /// Bytes already read from the public connection, to be replayed to the client.
    pub initial_buffer: Option<Vec<u8>>,
    /// Identifies the public connection waiting on the server.
    pub public_conn_identifier: String,
    /// The key under which the tunnel is registered on the server.
    pub control_server_identifier: Option<String>,
}

/// Command-line arguments of the standalone server.
pub struct Args {
    pub domain: String,
}

} // verus!
