//! A request client: building a request, following it, and showing the response.

use vstd::prelude::*;

use crate::json::{json_pretty, pretty_text};
use crate::rvim::fs::str_same;
use crate::text::{char_count, trim, trim_of};
use crate::utf8::{decode_lossy, lossy_text};

verus! {

/// A header: name and value.
pub type Header = (Seq<char>, Seq<char>);

pub open spec fn headers_of(s: Seq<(String, String)>) -> Seq<Header> {
    Seq::new(s.len(), |i: int| (s[i].0@, s[i].1@))
}

/// The editable request.
pub struct Request {
    pub method: String,
    pub url: String,
    pub headers: Vec<(String, String)>,
    pub body: String,
}

/// Model of the editable request.
#[verifier::ext_equal]
pub struct RequestV {
    pub method: Seq<char>,
    pub url: Seq<char>,
    pub headers: Seq<Header>,
    pub body: Seq<char>,
}

impl View for Request {
    type V = RequestV;

    open spec fn view(&self) -> RequestV {
        RequestV {
            method: self.method@,
            url: self.url@,
            headers: headers_of(self.headers@),
            body: self.body@,
        }
    }
}

impl Default for Request {
    fn default() -> (r: Request)
        ensures
            r@ == (RequestV {
                method: "GET"@,
                url: "https://api.github.com/zen"@,
                headers: seq![("Accept"@, "*/*"@)],
                body: Seq::empty(),
            }),
    {
        let mut headers: Vec<(String, String)> = Vec::new();
        headers.push(("Accept".to_string(), "*/*".to_string()));
        let body = String::new();
        assert(body@ =~= Seq::<char>::empty());
        assert(headers_of(headers@) =~= seq![("Accept"@, "*/*"@)]);
        Request {
            method: "GET".to_string(),
            url: "https://api.github.com/zen".to_string(),
            headers,
            body,
        }
    }
}

/// A request as it goes out.
pub struct HttpRequest {
    pub method: String,
    pub url: String,
    pub headers: Vec<(String, String)>,
    pub body: Vec<u8>,
    /// Zero leaves the limit to the host.
    pub timeout_ms: u32,
}

/// Model of a request as it goes out.
#[verifier::ext_equal]
pub struct HttpRequestV {
    pub method: Seq<char>,
    pub url: Seq<char>,
    pub headers: Seq<Header>,
    pub body: Seq<u8>,
    pub timeout_ms: u32,
}

impl View for HttpRequest {
    type V = HttpRequestV;

    open spec fn view(&self) -> HttpRequestV {
        HttpRequestV {
            method: self.method@,
            url: self.url@,
            headers: headers_of(self.headers@),
            body: self.body@,
            timeout_ms: self.timeout_ms,
        }
    }
}

/// The headers `[0, n)` that have a name.
pub open spec fn named(h: Seq<Header>, n: int) -> Seq<Header>
    decreases n,
{
    if n <= 0 {
        Seq::empty()
    } else if trim_of(h[n - 1].0).len() == 0 {
        named(h, n - 1)
    } else {
        named(h, n - 1).push(h[n - 1])
    }
}

impl RequestV {
    /// The request as it goes out: nameless headers left out, the address trimmed.
    pub open spec fn outgoing(self) -> HttpRequestV {
        HttpRequestV {
            method: self.method,
            url: trim_of(self.url),
            headers: named(self.headers, self.headers.len() as int),
            body: vstd::utf8::encode_utf8(self.body),
            timeout_ms: 0,
        }
    }

    /// The method carries a body.
    pub open spec fn has_body(self) -> bool {
        self.method != "GET"@ && self.method != "HEAD"@
    }
}

impl Request {
    /// The request as it goes out.
    pub fn outgoing(&self) -> (r: HttpRequest)
        ensures
            r@ == self@.outgoing(),
    {
        let ghost h = headers_of(self.headers@);
        let mut headers: Vec<(String, String)> = Vec::new();
        let mut i: usize = 0;
        assert(headers_of(headers@) =~= named(h, 0));
        while i < self.headers.len()
            invariant
                h == headers_of(self.headers@),
                i <= self.headers@.len(),
                headers_of(headers@) == named(h, i as int),
            decreases self.headers@.len() - i,
        {
            let name = self.headers[i].0.as_str();
            if char_count(trim(name).as_str()) > 0 {
                let ghost done = headers_of(headers@);
                headers.push((self.headers[i].0.clone(), self.headers[i].1.clone()));
                assert(headers_of(headers@) =~= done.push(h[i as int]));
            }
            i = i + 1;
        }
        HttpRequest {
            method: self.method.clone(),
            url: trim(self.url.as_str()),
            headers,
            body: self.body.as_str().as_bytes_vec(),
            timeout_ms: 0,
        }
    }

    /// Whether the method carries a body.
    pub fn has_body(&self) -> (r: bool)
        ensures
            r == self@.has_body(),
    {
        !str_same(self.method.as_str(), "GET") && !str_same(self.method.as_str(), "HEAD")
    }

    /// Append an empty header.
    pub fn add_header(&mut self)
        ensures
            final(self)@ == (RequestV {
                headers: old(self)@.headers.push((Seq::empty(), Seq::empty())),
                ..old(self)@
            }),
    {
        let (a, b) = (String::new(), String::new());
        assert(a@ =~= Seq::<char>::empty() && b@ =~= Seq::<char>::empty());
        self.headers.push((a, b));
        assert(self@.headers =~= old(self)@.headers.push((Seq::empty(), Seq::empty())));
    }

    /// Drop header `i`.
    pub fn remove_header(&mut self, i: usize)
        requires
            i < old(self)@.headers.len(),
        ensures
            final(self)@ == (RequestV {
                headers: old(self)@.headers.remove(i as int),
                ..old(self)@
            }),
    {
        self.headers.remove(i);
        assert(self@.headers =~= old(self)@.headers.remove(i as int));
    }
}

/// A response as it came in.
pub struct HttpResponse {
    pub status: u16,
    pub headers: Vec<(String, String)>,
    pub body: Vec<u8>,
}

impl HttpResponse {
    /// The body as text, as it is copied.
    pub fn body_text(&self) -> (r: String)
        ensures
            r@ == lossy_text(self.body@),
    {
        decode_lossy(self.body.as_slice())
    }
}

/// Where a request stands.
pub enum Response {
    Idle,
    Pending(u64),
    Done(HttpResponse),
    Failed(String),
}

/// What became of handing a request to the host.
pub enum SendReply {
    /// It is under way under this number.
    Accepted(u64),
    /// The host's number could not be read.
    BadId,
    Failed(String),
}

/// What became of asking the host for a response.
pub enum PollReply {
    Pending,
    Done(HttpResponse),
    Error(String),
    /// The reply could not be read.
    Unreadable,
    /// The call did not go through.
    Failed(String),
}

/// What a response's status means.
#[derive(Clone, Copy, Debug, PartialEq, Eq, Structural)]
pub enum StatusClass {
    Success,
    Redirect,
    Failure,
}

pub open spec fn class_of(status: int) -> StatusClass {
    if 200 <= status <= 299 {
        StatusClass::Success
    } else if 300 <= status <= 399 {
        StatusClass::Redirect
    } else {
        StatusClass::Failure
    }
}

/// What a status means.
pub fn status_class(status: u16) -> (r: StatusClass)
    ensures
        r == class_of(status as int),
{
    if 200 <= status && status <= 299 {
        StatusClass::Success
    } else if 300 <= status && status <= 399 {
        StatusClass::Redirect
    } else {
        StatusClass::Failure
    }
}

pub struct HttpClient {
    pub req: Request,
    pub resp: Response,
    pub loaded: bool,
}

impl HttpClient {
    pub fn new() -> (r: Self)
        ensures
            r.resp is Idle,
            !r.loaded,
            r.req@ == (RequestV {
                method: "GET"@,
                url: "https://api.github.com/zen"@,
                headers: seq![("Accept"@, "*/*"@)],
                body: Seq::empty(),
            }),
    {
        HttpClient { req: Request::default(), resp: Response::Idle, loaded: false }
    }

    /// Take what the host says to a request; true when it is under way, and the request is to
    /// be kept.
    pub fn sent(&mut self, reply: SendReply) -> (r: bool)
        ensures
            r == reply is Accepted,
            final(self).req == old(self).req,
            final(self).loaded == old(self).loaded,
            match reply {
                SendReply::Accepted(id) => final(self).resp == Response::Pending(id),
                SendReply::BadId => final(self).resp matches Response::Failed(e) && e@
                    == "host returned a bad request id"@,
                SendReply::Failed(e) => final(self).resp == Response::Failed(e),
            },
    {
        match reply {
            SendReply::Accepted(id) => {
                self.resp = Response::Pending(id);
                true
            },
            SendReply::BadId => {
                self.resp = Response::Failed("host returned a bad request id".to_string());
                false
            },
            SendReply::Failed(e) => {
                self.resp = Response::Failed(e);
                false
            },
        }
    }

    /// The number of a request under way.
    pub fn pending(&self) -> (r: Option<u64>)
        ensures
            r == (match self.resp {
                Response::Pending(id) => Some(id),
                _ => None,
            }),
    {
        match &self.resp {
            Response::Pending(id) => Some(*id),
            _ => None,
        }
    }

    /// Take the host's reply about a request under way; without one nothing changes.
    pub fn poll(&mut self, reply: PollReply)
        ensures
            final(self).req == old(self).req,
            final(self).loaded == old(self).loaded,
            !(old(self).resp is Pending) ==> final(self).resp == old(self).resp,
            old(self).resp is Pending ==> match reply {
                PollReply::Pending => final(self).resp == old(self).resp,
                PollReply::Done(r) => final(self).resp == Response::Done(r),
                PollReply::Error(e) => final(self).resp == Response::Failed(e),
                PollReply::Unreadable => final(self).resp matches Response::Failed(e) && e@
                    == "bad poll response"@,
                PollReply::Failed(e) => final(self).resp == Response::Failed(e),
            },
    {
        let under_way = match &self.resp {
            Response::Pending(_) => true,
            _ => false,
        };
        if !under_way {
            return ;
        }
        match reply {
            PollReply::Pending => {},
            PollReply::Done(r) => {
                self.resp = Response::Done(r);
            },
            PollReply::Error(e) => {
                self.resp = Response::Failed(e);
            },
            PollReply::Unreadable => {
                self.resp = Response::Failed("bad poll response".to_string());
            },
            PollReply::Failed(e) => {
                self.resp = Response::Failed(e);
            },
        }
    }
}

/// A body as text, laid out where it is JSON; whether it is.
pub open spec fn body_shown(raw: Seq<char>, pretty: Option<Seq<char>>) -> (Seq<char>, bool) {
    match pretty {
        Some(s) => (s, true),
        None => (raw, false),
    }
}

/// Show a body's text, or the laid out form it has.
pub fn show_body(raw: String, pretty: Option<String>) -> (r: (String, bool))
    ensures
        (r.0@, r.1) == body_shown(
            raw@,
            match pretty {
                Some(s) => Some(s@),
                None => None,
            },
        ),
{
    match pretty {
        Some(s) => (s, true),
        None => (raw, false),
    }
}

/// Decode the body to text, pretty-printing when it parses as JSON.
pub fn render_body(body: &[u8]) -> (r: (String, bool))
    ensures
        (r.0@, r.1) == body_shown(lossy_text(body@), json_pretty(lossy_text(body@))),
{
    let raw = decode_lossy(body);
    let pretty = pretty_text(raw.as_str());
    show_body(raw, pretty)
}

/// What goes out has every header whose name is not blank, in order, and no other.
pub proof fn law_headers_sent(h: Seq<Header>, n: int)
    requires
        0 <= n <= h.len(),
    ensures
        named(h, n) == h.take(n).filter(|x: Header| trim_of(x.0).len() > 0),
    decreases n,
{
    reveal(Seq::filter);
    if n > 0 {
        law_headers_sent(h, n - 1);
        assert(h.take(n).drop_last() =~= h.take(n - 1));
    }
}

} // verus!
