//! Plain HTTP replies the server writes on a public connection it cannot forward.

use vstd::prelude::*;
use vstd::string::*;
use vstd::utf8::*;
use crate::decimal::{decimal, u64_to_decimal};

verus! {

broadcast use vstd::string::group_string_axioms;

/// The text of an HTTP/1.1 reply with status `code` and reason `status`, whose body is
/// `message` and whose `Content-Length` header gives the body's length in UTF-8 bytes.
pub open spec fn response_text(code: nat, status: Seq<char>, message: Seq<char>) -> Seq<char> {
    "HTTP/1.1 "@ + decimal(code) + " "@ + status + "\r\nContent-Length: "@ + decimal(
        encode_utf8(message).len(),
    ) + "\r\n\r\n"@ + message
}

/// Writes the text of the reply that `write_response` sends: status line, a
/// `Content-Length` header, a blank line, then `message`.
pub fn render_response(status_code: u16, status: &str, message: &str) -> (r: String)
    ensures
        r@ == response_text(status_code as nat, status@, message@),
{
    let length = message.as_bytes().len();
    let code_text = u64_to_decimal(status_code as u64);
    let length_text = u64_to_decimal(length as u64);
    let mut r = String::from_str("HTTP/1.1 ");
    r.append(code_text.as_str());
    r.append(" ");
    r.append(status);
    r.append("\r\nContent-Length: ");
    r.append(length_text.as_str());
    r.append("\r\n\r\n");
    r.append(message);
    r
}

/// The reply to a public request whose `Host` header cannot be read.
pub fn bad_request_response() -> (r: String)
    ensures
        r@ == response_text(400, "Bad Request"@, "Bad Request"@),
{
    render_response(400, "Bad Request", "Bad Request")
}

/// The reply to a public request for a subdomain that no tunnel serves.
pub fn not_found_response() -> (r: String)
    ensures
        r@ == response_text(404, "Not Found"@, "tunnel not found"@),
{
    render_response(404, "Not Found", "tunnel not found")
}

} // verus!
