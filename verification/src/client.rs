//! The Gemini client core: typed responses, request planning and the
//! bounded redirect loop.
//!
//! Network work — opening the TLS connection, writing bytes, reading bytes —
//! happens outside this crate. The functions here make every decision of a
//! fetch: what is wrong with a URL, where to connect and what to send
//! (`plan_request`), what a response buffer means (`Response::from_bytes`),
//! and whether a redirect is followed or the response returned
//! (`FetchState`). A caller runs the loop by alternating `next_request`,
//! one network exchange, and `on_response`.

use vstd::prelude::*;
use vstd::utf8::{decode_utf8, valid_utf8};
use crate::codec::{decode_header, encode_request, spec_decode, spec_request_bytes, ProtoError};
use crate::known_hosts::CertificateError;
use crate::status::Status;

verus! {

/// Most redirect hops a fetch follows when redirects are on.
pub const MAX_REDIRECT: u8 = 5;

/// What went wrong with a fetch.
#[derive(Debug)]
pub enum Error {
    /// An input/output failure, with its description.
    Io(String),
    /// A transport-library failure, with its description.
    Gio(String),
    /// The server broke the response-header grammar.
    InvalidProtocolData(ProtoError),
    /// A code path that insists on strict UTF-8 met invalid bytes.
    InvalidUtf8,
    /// The URL could not be parsed, with the parser's description.
    InvalidUrl(String),
    /// The presented certificate was rejected.
    Tls(CertificateError),
    /// The URL names no host.
    InvalidHost,
    /// A caller-enforced redirect limit was hit at this URL.
    TooManyRedirects(String),
    /// Only the gemini URL scheme is supported.
    SchemeNotSupported,
}

/// What `String::from_utf8_lossy` makes of the bytes.
pub uninterp spec fn lossy_of(bytes: Seq<u8>) -> Seq<char>;

/// Relies on `String::from_utf8_lossy`: the result is a function of the
/// bytes alone, and valid UTF-8 is decoded unchanged.
#[verifier::external_body]
fn lossy_string(bytes: &[u8]) -> (r: String)
    ensures
        r@ == lossy_of(bytes@),
        valid_utf8(bytes@) ==> r@ == decode_utf8(bytes@),
{
    String::from_utf8_lossy(bytes).into_owned()
}

/// One decoded response: the status, the meta string, and the body bytes
/// that followed the header in the buffer.
#[derive(Debug)]
pub struct Response {
    status: Status,
    meta: String,
    body: Vec<u8>,
}

impl Response {
    /// The response's status.
    pub closed spec fn spec_status(&self) -> Status {
        self.status
    }

    /// The response's meta field.
    pub closed spec fn spec_meta(&self) -> Seq<char> {
        self.meta@
    }

    /// The response's body bytes.
    pub closed spec fn spec_body(&self) -> Seq<u8> {
        self.body@
    }

    /// The status.
    pub fn status(&self) -> (r: Status)
        ensures
            r == self.spec_status(),
    {
        self.status
    }

    /// The meta field, borrowed.
    pub fn meta(&self) -> (r: &str)
        ensures
            r@ == self.spec_meta(),
    {
        self.meta.as_str()
    }

    /// The meta field, owned.
    pub fn meta_owned(self) -> (r: String)
        ensures
            r@ == self.spec_meta(),
    {
        self.meta
    }

    /// The body — only a success carries one: any other status yields
    /// nothing, a success yields every byte that followed the header.
    pub fn body(self) -> (r: Option<Vec<u8>>)
        ensures
            (self.spec_status() matches Status::Success(_)) ==> (r matches Some(b) && b@
                == self.spec_body()),
            !(self.spec_status() matches Status::Success(_)) ==> r is None,
    {
        match self.status {
            Status::Success(_) => Some(self.body),
            _ => None,
        }
    }

    /// Decode a response buffer: the header is read as `spec_decode` says,
    /// the meta bytes become a lossily decoded string, and the bytes after
    /// the terminator are kept as the body.
    pub fn from_bytes(bytes: &[u8]) -> (r: Result<Response, Error>)
        ensures
            match spec_decode(bytes@) {
                Ok((st, meta, body)) => r matches Ok(resp) && resp.spec_status() == st
                    && resp.spec_meta() == lossy_of(meta) && (valid_utf8(meta)
                    ==> resp.spec_meta() == decode_utf8(meta)) && resp.spec_body() == body,
                Err(e) => r matches Err(err) && err matches Error::InvalidProtocolData(pe) && pe
                    == e,
            },
    {
        match decode_header(bytes) {
            Ok((status, meta_bytes, body)) => {
                let meta = lossy_string(meta_bytes.as_slice());
                Ok(Response { status, meta, body })
            },
            Err(e) => Err(Error::InvalidProtocolData(e)),
        }
    }
}

/// Default port of the gemini scheme.
pub const DEFAULT_PORT: u16 = 1965;

/// What the client reads from a parsed URL: the scheme, the host if any,
/// the explicit port if any, and the normalized serialization.
#[derive(Debug, Clone)]
pub struct UrlParts {
    pub scheme: String,
    pub host: Option<String>,
    pub port: Option<u16>,
    pub serialized: String,
}

impl UrlParts {
    /// The host, as a character sequence.
    pub open spec fn spec_host(&self) -> Option<Seq<char>> {
        match self.host {
            Some(h) => Some(h@),
            None => None,
        }
    }
}

/// What `url::Url::parse` makes of the string: nothing when it rejects it,
/// else the scheme, host, port and serialization of the parsed URL.
pub uninterp spec fn url_parts_of(s: Seq<char>) -> Option<(Seq<char>, Option<Seq<char>>, Option<
    u16,
>, Seq<char>)>;

/// Relies on `url::Url::parse` and the accessors `Url::scheme`,
/// `Url::host_str`, `Url::port` and `Url::as_str`: whether the string
/// parses, and what the parts then are, is a function of the string alone.
#[verifier::external_body]
fn parse_url_parts(s: &str) -> (r: Result<UrlParts, String>)
    ensures
        match r {
            Ok(p) => url_parts_of(s@) == Some((p.scheme@, p.spec_host(), p.port, p.serialized@)),
            Err(_) => url_parts_of(s@) is None,
        },
{
    match url::Url::parse(s) {
        Ok(u) => Ok(
            UrlParts {
                scheme: u.scheme().to_string(),
                host: u.host_str().map(|h| h.to_string()),
                port: u.port(),
                serialized: u.as_str().to_string(),
            },
        ),
        Err(e) => Err(e.to_string()),
    }
}

/// Everything one request attempt needs: where to connect and the request
/// line to send.
#[derive(Debug)]
pub struct RequestPlan {
    pub host: String,
    pub port: u16,
    pub request: Vec<u8>,
    pub url: UrlParts,
}

/// Decide one hop from its URL string, before any network work: a string
/// the URL parser rejects is an invalid URL; a scheme other than gemini is
/// unsupported; a URL without a host is rejected; otherwise the plan names
/// the host, the explicit port or the gemini default, and the request line
/// built from the normalized URL.
pub fn plan_request(url_str: &str) -> (r: Result<RequestPlan, Error>)
    ensures
        match url_parts_of(url_str@) {
            None => r matches Err(e) && e matches Error::InvalidUrl(_),
            Some(t) => if t.0 != "gemini"@ {
                r matches Err(e) && e matches Error::SchemeNotSupported
            } else {
                match t.1 {
                    None => r matches Err(e) && e matches Error::InvalidHost,
                    Some(h) => r matches Ok(plan) && plan.host@ == h && plan.port == (match t.2 {
                        Some(p) => p,
                        None => DEFAULT_PORT,
                    }) && plan.request@ == spec_request_bytes(t.3) && plan.url.serialized@ == t.3,
                }
            },
        },
{
    let parts = match parse_url_parts(url_str) {
        Ok(p) => p,
        Err(msg) => {
            return Err(Error::InvalidUrl(msg));
        },
    };
    if !crate::text::string_eq_str(&parts.scheme, "gemini") {
        return Err(Error::SchemeNotSupported);
    }
    let host = match &parts.host {
        Some(h) => h.clone(),
        None => {
            return Err(Error::InvalidHost);
        },
    };
    let port = match parts.port {
        Some(p) => p,
        None => DEFAULT_PORT,
    };
    let request = encode_request(parts.serialized.as_str());
    Ok(RequestPlan { host, port, request, url: parts })
}

/// Per-client policy: whether redirects are followed.
#[derive(Debug, Copy, Clone, PartialEq, Eq, Structural)]
pub struct ClientOptions {
    pub redirect: bool,
}

impl Default for ClientOptions {
    /// Redirects are off unless asked for.
    fn default() -> (r: Self)
        ensures
            r.redirect == false,
    {
        ClientOptions { redirect: false }
    }
}

/// Builds a `Client` from options.
#[derive(Debug, Clone)]
pub struct ClientBuilder {
    options: ClientOptions,
}

impl ClientBuilder {
    /// A builder with the default options.
    pub fn new() -> (r: Self)
        ensures
            r.spec_options().redirect == false,
    {
        ClientBuilder { options: ClientOptions { redirect: false } }
    }

    /// The options built so far.
    pub closed spec fn spec_options(&self) -> ClientOptions {
        self.options
    }

    /// Set whether redirects are followed.
    pub fn redirect(self, redirect: bool) -> (r: Self)
        ensures
            r.spec_options().redirect == redirect,
    {
        let mut b = self;
        b.options.redirect = redirect;
        b
    }

    /// The finished client.
    pub fn build(self) -> (r: Client)
        ensures
            r.spec_options() == self.spec_options(),
    {
        Client { options: self.options }
    }
}

/// The Gemini client: holds the fetch policy and plans each fetch; the
/// caller performs the network exchanges it asks for.
#[derive(Debug, Clone)]
pub struct Client {
    options: ClientOptions,
}

/// How many request attempts a fetch may make: up to `MAX_REDIRECT` when
/// redirects are followed, exactly one otherwise.
pub open spec fn spec_max_attempts(options: ClientOptions) -> u8 {
    if options.redirect {
        MAX_REDIRECT
    } else {
        1
    }
}

impl Client {
    /// A client with the default options.
    pub fn new() -> (r: Self)
        ensures
            r.spec_options().redirect == false,
    {
        Client { options: ClientOptions { redirect: false } }
    }

    /// The client's options.
    pub closed spec fn spec_options(&self) -> ClientOptions {
        self.options
    }

    /// The options.
    pub fn options(&self) -> (r: ClientOptions)
        ensures
            r == self.spec_options(),
    {
        self.options
    }

    /// Begin a fetch of `url_str`: a fresh redirect-loop state with this
    /// client's hop budget.
    pub fn start_fetch(&self, url_str: &str) -> (r: FetchState)
        ensures
            r.max_attempts == spec_max_attempts(self.spec_options()),
            r.attempts == 0,
            r.url@ == url_str@,
            !r.done,
    {
        let max_attempts = if self.options.redirect {
            MAX_REDIRECT
        } else {
            1
        };
        FetchState { max_attempts, attempts: 0, url: url_str.to_owned(), done: false }
    }
}

/// The redirect loop of one fetch, as a state machine: the caller asks
/// `next_request` for the URL of the next attempt, performs the exchange,
/// and reports the outcome to `on_response`; the machine follows a redirect
/// only while attempts remain in the budget.
#[derive(Debug)]
pub struct FetchState {
    pub max_attempts: u8,
    pub attempts: u8,
    pub url: String,
    pub done: bool,
}

/// Whether another request may be made: the fetch is not finished and the
/// budget has room.
pub open spec fn spec_can_attempt(max_attempts: u8, attempts: u8, done: bool) -> bool {
    !done && attempts < max_attempts
}

/// Whether a response is followed rather than delivered: it is a redirect
/// and attempts remain in the budget.
pub open spec fn spec_follows(max_attempts: u8, attempts: u8, status: Status) -> bool {
    (status matches Status::Redirect(_)) && attempts < max_attempts
}

impl FetchState {
    /// Whether another request may be made.
    pub open spec fn can_attempt(&self) -> bool {
        spec_can_attempt(self.max_attempts, self.attempts, self.done)
    }

    /// The URL of the next attempt, counting it against the budget; nothing
    /// once the fetch is finished or the budget is spent.
    pub fn next_request(&mut self) -> (r: Option<String>)
        ensures
            final(self).max_attempts == old(self).max_attempts,
            final(self).url == old(self).url,
            final(self).done == old(self).done,
            old(self).can_attempt() ==> (r matches Some(u) && u@ == old(self).url@
                && final(self).attempts == old(self).attempts + 1),
            !old(self).can_attempt() ==> r is None && final(self).attempts == old(self).attempts,
    {
        if !self.done && self.attempts < self.max_attempts {
            self.attempts = self.attempts + 1;
            Some(self.url.clone())
        } else {
            None
        }
    }

    /// Feed back one response's status and meta: a redirect with budget left
    /// moves the fetch to the target named by the meta; anything else
    /// finishes the fetch, the response to be delivered as it stands.
    pub fn on_response(&mut self, status: Status, meta: &str)
        ensures
            final(self).max_attempts == old(self).max_attempts,
            final(self).attempts == old(self).attempts,
            old(self).done ==> *final(self) == *old(self),
            (!old(self).done && spec_follows(old(self).max_attempts, old(self).attempts, status))
                ==> (!final(self).done && final(self).url@ == meta@),
            (!old(self).done && !spec_follows(old(self).max_attempts, old(self).attempts, status))
                ==> (final(self).done && final(self).url == old(self).url),
    {
        if self.done {
            return ;
        }
        match status {
            Status::Redirect(_) => {
                if self.attempts < self.max_attempts {
                    self.url = meta.to_owned();
                } else {
                    self.done = true;
                }
            },
            _ => {
                self.done = true;
            },
        }
    }
}

/// The spec-level image of a fetch state: the same fields, with the URL as
/// a character sequence.
pub struct FetchModel {
    pub max_attempts: u8,
    pub attempts: u8,
    pub url: Seq<char>,
    pub done: bool,
}

impl FetchState {
    /// This state, at the spec level.
    pub open spec fn model(&self) -> FetchModel {
        FetchModel {
            max_attempts: self.max_attempts,
            attempts: self.attempts,
            url: self.url@,
            done: self.done,
        }
    }
}

/// One round of the redirect loop at the spec level: the attempt is counted,
/// then the response either moves the fetch to the redirect target or
/// finishes it.
pub open spec fn spec_step(m: FetchModel, status: Status, meta: Seq<char>) -> FetchModel {
    let counted = FetchModel { attempts: (m.attempts + 1) as u8, ..m };
    if spec_follows(counted.max_attempts, counted.attempts, status) {
        FetchModel { url: meta, ..counted }
    } else {
        FetchModel { done: true, ..counted }
    }
}

/// The state after driving the loop with the given responses, one round per
/// response, stopping as soon as no further attempt may be made.
pub open spec fn spec_drive(m: FetchModel, responses: Seq<(Status, Seq<char>)>) -> FetchModel
    decreases responses.len(),
{
    if responses.len() == 0 || !spec_can_attempt(m.max_attempts, m.attempts, m.done) {
        m
    } else {
        spec_drive(spec_step(m, responses[0].0, responses[0].1), responses.drop_first())
    }
}

/// Redirect bound: however many responses a fetch is driven with and
/// whatever they hold, the number of attempts never passes the budget — so a
/// client with redirects on makes at most `MAX_REDIRECT` attempts, and one
/// with redirects off at most one.
pub proof fn lemma_redirect_bound(m: FetchModel, responses: Seq<(Status, Seq<char>)>)
    requires
        m.attempts <= m.max_attempts,
    ensures
        spec_drive(m, responses).attempts <= m.max_attempts,
        spec_drive(m, responses).max_attempts == m.max_attempts,
    decreases responses.len(),
{
    if !(responses.len() == 0 || !spec_can_attempt(m.max_attempts, m.attempts, m.done)) {
        lemma_redirect_bound(spec_step(m, responses[0].0, responses[0].1), responses.drop_first());
    }
}

/// With redirects off a fetch makes exactly one attempt, whatever the
/// responses hold: the budget is one, so the first response finishes the
/// fetch.
pub proof fn lemma_single_attempt(m: FetchModel, responses: Seq<(Status, Seq<char>)>)
    requires
        m.max_attempts == 1,
        m.attempts == 0,
        !m.done,
        responses.len() > 0,
    ensures
        spec_drive(m, responses).attempts == 1,
    decreases responses.len(),
{
    let stepped = spec_step(m, responses[0].0, responses[0].1);
    assert(!spec_can_attempt(stepped.max_attempts, stepped.attempts, stepped.done));
    assert(spec_drive(stepped, responses.drop_first()) == stepped);
}

} // verus!
