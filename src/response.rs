use vstd::prelude::*;
use vstd::utf8::encode_utf8;
use vstd::string::*;
use crate::engine::Shortened;

verus! {

/// The result of handling one request, before it is put on the wire.
pub enum Outcome {
    /// The help page.
    Welcome,
    /// A URL was shortened to this code.
    Shortened(Shortened),
    /// A known code: redirect to this long URL.
    Redirect(String),
    /// An unknown short code.
    NotFound,
    /// A shorten request without a usable URL.
    Unprocessable,
    /// A method or path the service does not serve.
    NoRoute,
    /// No free short code could be found.
    Unavailable,
}

/// An HTTP response: status, optional `content-type` and `Location`
/// headers, and body.
pub struct HttpResponse {
    pub status: u16,
    pub content_type: Option<String>,
    pub location: Option<String>,
    pub body: Vec<u8>,
}

/// The help page, up to the host it is served from.
pub open spec fn welcome_head() -> Seq<char> {
    "\nThis URL shortening service is powered by hedge.\n\n    github.com/nerdypepper/hedge\n\nTo shorten urls:\n\n    curl -F'shorten=https://shorten.some/long/url' "@
}

/// The characters of a byte string, with each invalid UTF-8 sequence
/// replaced by U+FFFD.
pub uninterp spec fn utf8_lossy_of(bytes: Seq<u8>) -> Seq<char>;

/// Relies on `String::from_utf8_lossy`: the text of the bytes, with invalid
/// sequences replaced; the result depends on the bytes alone.
#[verifier::external_body]
fn lossy_text(bytes: &[u8]) -> (r: String)
    ensures
        r@ == utf8_lossy_of(bytes@),
{
    String::from_utf8_lossy(bytes).into_owned()
}

/// The short link for `code` on `host`, as sent back to the client.
pub open spec fn shortlink_body(host: Seq<u8>, code: Seq<char>) -> Seq<u8> {
    encode_utf8("https://"@) + host + encode_utf8("/"@) + encode_utf8(code) + encode_utf8("\n"@)
}

/// The notice sent along with a redirect to `url`.
pub open spec fn redirect_notice(url: Seq<char>) -> Seq<char> {
    "You will be redirected to: "@ + url + ". If not, click the link."@
}

/// The status code sent for an outcome.
pub open spec fn status_of(o: Outcome) -> u16 {
    match o {
        Outcome::Welcome | Outcome::Shortened(_) => 200,
        Outcome::Redirect(_) => 301,
        Outcome::NotFound | Outcome::NoRoute => 404,
        Outcome::Unprocessable => 422,
        Outcome::Unavailable => 500,
    }
}

/// The `content-type` header sent for an outcome, if any.
pub open spec fn content_type_of(o: Outcome) -> Option<Seq<char>> {
    match o {
        Outcome::Welcome => Some("text/plain"@),
        Outcome::Shortened(_) | Outcome::Redirect(_) => Some("text/html"@),
        _ => None,
    }
}

/// The `Location` header sent for an outcome, if any.
pub open spec fn location_of(o: Outcome) -> Option<Seq<char>> {
    match o {
        Outcome::Redirect(u) => Some(u@),
        _ => None,
    }
}

/// The body for an outcome served from `host`; empty for every error.
pub open spec fn body_of(o: Outcome, host: Seq<u8>) -> Seq<u8> {
    match o {
        Outcome::Welcome => encode_utf8(welcome_head() + utf8_lossy_of(host) + "\n"@),
        Outcome::Shortened(s) => shortlink_body(host, s.code@),
        Outcome::Redirect(u) => encode_utf8(redirect_notice(u@)),
        _ => Seq::empty(),
    }
}

/// Appends `bytes` to `out`.
fn push_all(out: &mut Vec<u8>, bytes: &[u8])
    ensures
        final(out)@ == old(out)@ + bytes@,
{
    let mut i: usize = 0;
    while i < bytes.len()
        invariant
            i <= bytes@.len(),
            out@ == old(out)@ + bytes@.subrange(0, i as int),
        decreases bytes@.len() - i,
    {
        out.push(bytes[i]);
        i = i + 1;
        assert(out@ =~= old(out)@ + bytes@.subrange(0, i as int));
    }
    assert(bytes@.subrange(0, i as int) =~= bytes@);
}

/// The UTF-8 bytes of a string.
fn text_bytes(s: &String) -> (r: Vec<u8>)
    ensures
        r@ == encode_utf8(s@),
{
    s.as_str().as_bytes_vec()
}

/// Puts an outcome on the wire, for a request addressed to `host`.
pub fn render(outcome: &Outcome, host: &[u8]) -> (r: HttpResponse)
    ensures
        r.status == status_of(*outcome),
        crate::store::opt_text(r.content_type) == content_type_of(*outcome),
        crate::store::opt_text(r.location) == location_of(*outcome),
        r.body@ == body_of(*outcome, host@),
{
    match outcome {
        Outcome::Welcome => {
            let mut text = String::from_str(
                "\nThis URL shortening service is powered by hedge.\n\n    github.com/nerdypepper/hedge\n\nTo shorten urls:\n\n    curl -F'shorten=https://shorten.some/long/url' ",
            );
            let h = lossy_text(host);
            text.append(h.as_str());
            text.append("\n");
            HttpResponse {
                status: 200,
                content_type: Some(String::from_str("text/plain")),
                location: None,
                body: text_bytes(&text),
            }
        },
        Outcome::Shortened(s) => {
            let mut body: Vec<u8> = Vec::new();
            push_all(&mut body, "https://".as_bytes());
            push_all(&mut body, host);
            push_all(&mut body, "/".as_bytes());
            push_all(&mut body, s.code.as_str().as_bytes());
            push_all(&mut body, "\n".as_bytes());
            HttpResponse {
                status: 200,
                content_type: Some(String::from_str("text/html")),
                location: None,
                body,
            }
        },
        Outcome::Redirect(url) => {
            let mut text = String::from_str("You will be redirected to: ");
            text.append(url.as_str());
            text.append(". If not, click the link.");
            HttpResponse {
                status: 301,
                content_type: Some(String::from_str("text/html")),
                location: Some(url.clone()),
                body: text_bytes(&text),
            }
        },
        Outcome::NotFound | Outcome::NoRoute => empty_response(404),
        Outcome::Unprocessable => empty_response(422),
        Outcome::Unavailable => empty_response(500),
    }
}

/// A response with no headers and no body.
fn empty_response(status: u16) -> (r: HttpResponse)
    ensures
        r.status == status,
        r.content_type is None,
        r.location is None,
        r.body@ == Seq::<u8>::empty(),
{
    HttpResponse { status, content_type: None, location: None, body: Vec::new() }
}

} // verus!
