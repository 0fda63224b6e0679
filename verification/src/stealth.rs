//! The answer that hides the tunnel from probes and scanners.
//!
//! A request that does not hit the secret WebSocket path gets the 404 page of
//! nginx, so that the listener looks like a web server without content.

use vstd::prelude::*;
use vstd::utf8::*;

use crate::text;
use crate::text::decimal_string;

verus! {

/// The page that nginx serves where there is none.
pub const NOT_FOUND_PAGE: &'static str = "<html>\r\n<head><title>404 Not Found</title></head>\r\n<body>\r\n<center><h1>404 Not Found</h1></center>\r\n<hr><center>nginx/1.24.0</center>\r\n</body>\r\n</html>\r\n";

/// An HTTP response: its status, its headers in order, its body.
#[derive(Debug)]
pub struct HttpResponse {
    pub status: u16,
    pub headers: Vec<(&'static str, String)>,
    pub body: &'static str,
}

#[verifier::ext_equal]
pub struct Response {
    pub status: u16,
    pub headers: Seq<(Seq<char>, Seq<char>)>,
    pub body: Seq<char>,
}

/// The texts of a list of headers.
pub open spec fn header_texts(headers: Seq<(&'static str, String)>) -> Seq<(Seq<char>, Seq<char>)> {
    headers.map_values(|h: (&'static str, String)| (h.0@, h.1@))
}

impl View for HttpResponse {
    type V = Response;

    open spec fn view(&self) -> Response {
        Response {
            status: self.status,
            headers: header_texts(self.headers@),
            body: self.body@,
        }
    }
}

/// Whether a header value may hold the byte: everything but control
/// characters, of which only the tab is allowed.
pub open spec fn is_header_byte(b: u8) -> bool {
    (b >= 32 && b != 127) || b == 9
}

/// Whether `s` can be the value of a header.
pub open spec fn is_header_value(s: Seq<char>) -> bool {
    forall|i: int| 0 <= i < encode_utf8(s).len() ==> is_header_byte(#[trigger] encode_utf8(s)[i])
}

/// The 404 of nginx, with `server_name` as its `Server` header.
pub open spec fn not_found(server_name: Seq<char>) -> Response {
    Response {
        status: 404,
        headers: seq![
            ("Server"@, server_name),
            ("Content-Type"@, "text/html"@),
            ("Content-Length"@, text::decimal(encode_utf8(NOT_FOUND_PAGE@).len())),
        ],
        body: NOT_FOUND_PAGE@,
    }
}

/// Builds the 404 of nginx. The name must be one that a header can hold.
pub fn fake_404(server_name: &str) -> (r: HttpResponse)
    requires
        is_header_value(server_name@),
    ensures
        r@ == not_found(server_name@),
{
    let length = decimal_string(NOT_FOUND_PAGE.as_bytes().len());
    let mut headers: Vec<(&'static str, String)> = Vec::new();
    headers.push(("Server", server_name.to_owned()));
    headers.push(("Content-Type", "text/html".to_owned()));
    headers.push(("Content-Length", length));
    let r = HttpResponse { status: 404, headers, body: NOT_FOUND_PAGE };
    assert(r@.headers == not_found(server_name@).headers);
    r
}

// ---------------------------------------------------------------------------
// Laws
// ---------------------------------------------------------------------------

/// The page is that of nginx whatever the name: a 404 with three headers, the name
/// as it is, HTML, and a length that is the number of bytes in the body.
pub proof fn law_page_is_that_of_nginx(name: Seq<char>)
    ensures
        not_found(name).status == 404,
        not_found(name).headers.len() == 3,
        not_found(name).headers[0] == ("Server"@, name),
        not_found(name).headers[1] == ("Content-Type"@, "text/html"@),
        not_found(name).headers[2].0 == "Content-Length"@,
        text::digits_value(not_found(name).headers[2].1) == encode_utf8(not_found(name).body).len(),
        text::all_digits(not_found(name).headers[2].1),
        not_found(name).body
            == "<html>\r\n<head><title>404 Not Found</title></head>\r\n<body>\r\n<center><h1>404 Not Found</h1></center>\r\n<hr><center>nginx/1.24.0</center>\r\n</body>\r\n</html>\r\n"@,
{
    text::law_decimal_is_the_number(encode_utf8(NOT_FOUND_PAGE@).len());
}

/// A name can stand in a header if and only if none of its bytes is a control
/// character, other than a tab.
pub proof fn law_header_values_have_no_control_characters(s: Seq<char>)
    ensures
        is_header_value(s) <==> forall|i: int|
            0 <= i < encode_utf8(s).len() ==> {
                let b = #[trigger] encode_utf8(s)[i];
                b == 9 || (b >= 32 && b != 127)
            },
{
}

} // verus!
