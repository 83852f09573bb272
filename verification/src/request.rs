//! The deferred request: a builder constructed from a snapshot of
//! `SharedServerState`'s defaults and jar, and the assembly of one
//! wire-level request out of it. Construction and every builder call are
//! synchronous and free of side effects beyond the request's own fields;
//! the network call itself is the transport's business and happens after
//! `start_send` has handed the wire-level parts out. Both `start_send` and
//! `PendingResponse::finish` consume their value, so a request is executed
//! at most once: reusing one is ruled out by ownership, not at run time.

use crate::cookies::cookie_header_text;
use crate::cookies::jar_upsert;
use crate::cookies::Cookie;
use crate::cookies::CookieJar;
use crate::errors::HarnessError;
use crate::state::opt_text;
use crate::state::SharedServerState;
use crate::wire::check_header_value;
use crate::wire::is_legal_header_value;
use crate::wire::push_str;
use vstd::prelude::*;

verus! {

use vstd::string::StringSliceAdditionalSpecFns;
use vstd::string::StrSliceExecFns;

/// The data a request accumulates, at the level contracts speak of.
pub ghost struct RequestView {
    pub method: Seq<char>,
    pub path: Seq<char>,
    pub url: Seq<char>,
    pub body: Option<Seq<u8>>,
    pub headers: Seq<(Seq<char>, Seq<char>)>,
    pub cookies: Seq<(Seq<char>, Seq<char>)>,
    pub content_type: Option<Seq<char>>,
    pub save_cookies: bool,
}

/// The scheme every request URL starts with.
pub open spec fn scheme_prefix() -> Seq<char> {
    seq!['h', 't', 't', 'p', ':', '/', '/']
}

/// The URL obtained by joining the server address and a sub-path. Three
/// cases, exactly: an empty sub-path yields the bare authority; a sub-path
/// with a leading slash is appended unchanged; any other sub-path is
/// appended behind one separating slash.
pub open spec fn joined_url(root: Seq<char>, sub: Seq<char>) -> Seq<char> {
    if sub.len() == 0 {
        scheme_prefix() + root
    } else if sub[0] == '/' {
        scheme_prefix() + root + sub
    } else {
        scheme_prefix() + root + seq!['/'] + sub
    }
}

/// Builds the absolute request URL from the server address and a sub-path,
/// per `joined_url`.
pub fn build_request_path(root_path: &str, sub_path: &str) -> (r: String)
    ensures
        r@ == joined_url(root_path@, sub_path@),
{
    let mut out = String::new();
    push_str(&mut out, "http://");
    push_str(&mut out, root_path);
    proof {
        reveal_strlit("http://");
        assert("http://"@ =~= scheme_prefix());
    }
    let n = sub_path.unicode_len();
    if n == 0 {
        proof {
            assert(out@ =~= joined_url(root_path@, sub_path@));
        }
        return out;
    }
    if sub_path.get_char(0) != '/' {
        push_str(&mut out, "/");
        proof {
            reveal_strlit("/");
            assert("/"@ =~= seq!['/']);
        }
    }
    push_str(&mut out, sub_path);
    proof {
        assert(out@ =~= joined_url(root_path@, sub_path@));
    }
    out
}

/// The JSON media type, `application/json`.
pub open spec fn json_media_type() -> Seq<char> {
    seq!['a', 'p', 'p', 'l', 'i', 'c', 'a', 't', 'i', 'o', 'n', '/', 'j', 's', 'o', 'n']
}

/// The plain-text media type, `text/plain`.
pub open spec fn text_media_type() -> Seq<char> {
    seq!['t', 'e', 'x', 't', '/', 'p', 'l', 'a', 'i', 'n']
}

/// The content type after a body method with default `dflt` ran: a content
/// type that was already set wins; only an unset one is defaulted.
pub open spec fn defaulted_content_type(
    prior: Option<Seq<char>>,
    dflt: Seq<char>,
) -> Option<Seq<char>> {
    if prior is None {
        Some(dflt)
    } else {
        prior
    }
}

/// The name of the synthesized content-type header.
pub open spec fn content_type_label() -> Seq<char> {
    seq!['c', 'o', 'n', 't', 'e', 'n', 't', '-', 't', 'y', 'p', 'e']
}

/// The name of the synthesized cookie header.
pub open spec fn cookie_label() -> Seq<char> {
    seq!['c', 'o', 'o', 'k', 'i', 'e']
}

/// The headers a request view sends: the explicit headers first, then one
/// content-type header if a content type is set, then one cookie header
/// serializing the local snapshot, if it is nonempty.
pub open spec fn assembled_headers(v: RequestView) -> Seq<(Seq<char>, Seq<char>)> {
    v.headers + (match v.content_type {
        Some(ct) => seq![(content_type_label(), ct)],
        None => Seq::<(Seq<char>, Seq<char>)>::empty(),
    }) + (if v.cookies.len() == 0 {
        Seq::<(Seq<char>, Seq<char>)>::empty()
    } else {
        seq![(cookie_label(), cookie_header_text(v.cookies))]
    })
}

/// Whether every header value the view would send is a legal wire encoding.
pub open spec fn build_ok(v: RequestView) -> bool {
    forall|i: int|
        0 <= i < assembled_headers(v).len() ==> is_legal_header_value(
            (#[trigger] assembled_headers(v)[i]).1,
        )
}

/// The views of a sequence of header pairs.
pub open spec fn pairs_view(hs: Seq<(String, String)>) -> Seq<(Seq<char>, Seq<char>)> {
    hs.map_values(|p: (String, String)| (p.0@, p.1@))
}

/// A wire-level request, ready for a transport: method, absolute URL, the
/// assembled header list, and the body bytes.
#[derive(Debug)]
pub struct WireRequest {
    pub method: String,
    pub url: String,
    pub headers: Vec<(String, String)>,
    pub body: Vec<u8>,
}

/// What remains of a request once its wire-level parts have been handed to
/// the transport: enough to process the response. Consumed by `finish`.
pub struct PendingResponse {
    pub path: String,
    pub save_cookies: bool,
    pub server: SharedServerState,
}

/// A deferred, single-use HTTP request against the server whose state
/// created it. Builder calls consume and return the value; `start_send`
/// consumes it for good.
pub struct Request {
    pub method: String,
    pub path: String,
    pub full_request_path: String,
    pub server: SharedServerState,
    pub body: Option<Vec<u8>>,
    pub headers: Vec<(String, String)>,
    pub cookies: CookieJar,
    pub content_type: Option<String>,
    pub is_saving_cookies: bool,
}

impl View for Request {
    type V = RequestView;

    open spec fn view(&self) -> RequestView {
        RequestView {
            method: self.method@,
            path: self.path@,
            url: self.full_request_path@,
            body: match self.body {
                Some(b) => Some(b@),
                None => None,
            },
            headers: pairs_view(self.headers@),
            cookies: self.cookies@,
            content_type: opt_text(self.content_type),
            save_cookies: self.is_saving_cookies,
        }
    }
}

impl Request {
    /// A request is well formed when its cookie snapshot is.
    pub open spec fn wf(&self) -> bool {
        self.cookies.wf()
    }

    /// Any cookies returned by this request's response will be saved to the
    /// server state that created it, for use by future requests.
    pub fn do_save_cookies(self) -> (r: Self)
        ensures
            r@ == (RequestView { save_cookies: true, ..self@ }),
            r.wf() == self.wf(),
            r.server.pred() == self.server.pred(),
    {
        Request { is_saving_cookies: true, ..self }
    }

    /// Cookies returned by this request's response will not be saved to the
    /// server state.
    pub fn do_not_save_cookies(self) -> (r: Self)
        ensures
            r@ == (RequestView { save_cookies: false, ..self@ }),
            r.wf() == self.wf(),
            r.server.pred() == self.server.pred(),
    {
        Request { is_saving_cookies: false, ..self }
    }

    /// Clears the local cookie snapshot. The shared server state is not
    /// touched.
    pub fn clear_cookies(self) -> (r: Self)
        ensures
            r@ == (RequestView { cookies: Seq::<(Seq<char>, Seq<char>)>::empty(), ..self@ }),
            r.wf(),
            r.server.pred() == self.server.pred(),
    {
        let mut r = self;
        r.cookies.clear();
        r
    }

    /// Upserts a cookie into the local snapshot, to be sent with this
    /// request.
    pub fn add_cookie(self, cookie: Cookie) -> (r: Self)
        requires
            self.wf(),
        ensures
            r@ == (RequestView { cookies: jar_upsert(self@.cookies, cookie@), ..self@ }),
            r.wf(),
            r.server.pred() == self.server.pred(),
    {
        let mut r = self;
        r.cookies.add(cookie);
        r
    }

    /// Appends one header to be sent with this request. Duplicates are
    /// allowed; nothing is deduplicated.
    pub fn with_header(self, name: String, value: String) -> (r: Self)
        ensures
            r@ == (RequestView { headers: self@.headers.push((name@, value@)), ..self@ }),
            r.wf() == self.wf(),
            r.server.pred() == self.server.pred(),
    {
        let mut r = self;
        r.headers.push((name, value));
        proof {
            assert(pairs_view(r.headers@) =~= pairs_view(self.headers@).push((name@, value@)));
        }
        r
    }

    /// Sets the body to the serialization of a JSON value; if no content
    /// type is set yet, it becomes the JSON media type. An explicit content
    /// type, set before or after, always wins.
    pub fn json(self, body: &serde_json::Value) -> (r: Self)
        ensures
            r@.body == Some(json_bytes_of(*body)),
            r@.content_type == defaulted_content_type(self@.content_type, json_media_type()),
            r@.method == self@.method && r@.path == self@.path && r@.url == self@.url,
            r@.headers == self@.headers && r@.cookies == self@.cookies,
            r@.save_cookies == self@.save_cookies,
            r.wf() == self.wf(),
            r.server.pred() == self.server.pred(),
    {
        let bytes = json_to_vec(body);
        let mut r = self;
        r.body = Some(bytes);
        if r.content_type.is_none() {
            r.content_type = Some("application/json".to_owned());
            proof {
                reveal_strlit("application/json");
                assert("application/json"@ =~= json_media_type());
            }
        }
        r
    }

    /// Sets raw text as the body; if no content type is set yet, it becomes
    /// the plain-text media type.
    pub fn text(self, raw_text: &str) -> (r: Self)
        ensures
            r@ == (RequestView {
                body: Some(raw_text.spec_bytes()),
                content_type: defaulted_content_type(self@.content_type, text_media_type()),
                ..self@
            }),
            r.wf() == self.wf(),
            r.server.pred() == self.server.pred(),
    {
        let body_bytes: Vec<u8> = raw_text.as_bytes_vec();
        let mut r = self;
        if r.content_type.is_none() {
            r.content_type = Some("text/plain".to_owned());
            proof {
                reveal_strlit("text/plain");
                assert("text/plain"@ =~= text_media_type());
            }
        }
        r = r.bytes(body_bytes);
        r
    }

    /// Sets raw bytes as the body. The content type is left unchanged.
    pub fn bytes(self, body_bytes: Vec<u8>) -> (r: Self)
        ensures
            r@ == (RequestView { body: Some(body_bytes@), ..self@ }),
            r.wf() == self.wf(),
            r.server.pred() == self.server.pred(),
    {
        let mut r = self;
        r.body = Some(body_bytes);
        r
    }

    /// Sets the content type to send, overriding any default a body method
    /// put there.
    pub fn content_type(self, content_type: &str) -> (r: Self)
        ensures
            r@ == (RequestView { content_type: Some(content_type@), ..self@ }),
            r.wf() == self.wf(),
            r.server.pred() == self.server.pred(),
    {
        let mut r = self;
        r.content_type = Some(content_type.to_owned());
        r
    }

    /// Assembles the wire-level request: body (empty if none was set), then
    /// the explicit headers, then one content-type header if set, then one
    /// cookie header serializing the local snapshot, if it is nonempty.
    /// Returns the wire parts and the pending half that will process the
    /// response. Fails with `RequestBuildError`, carrying the offending
    /// value, exactly when the URL is malformed or some header value to be
    /// sent is not a legal wire encoding.
    #[verifier::loop_isolation(false)]
    pub fn start_send(self) -> (r: Result<(WireRequest, PendingResponse), HarnessError>)
        ensures
            r is Ok <==> parsed_uri_ok(self@.url) && build_ok(self@),
            match r {
                Ok((wire, pending)) => {
                    &&& wire.method@ == self@.method
                    &&& wire.url@ == self@.url
                    &&& pairs_view(wire.headers@) == assembled_headers(self@)
                    &&& wire.body@ == (match self@.body {
                        Some(b) => b,
                        None => Seq::<u8>::empty(),
                    })
                    &&& pending.path@ == self@.path
                    &&& pending.save_cookies == self@.save_cookies
                    &&& pending.server.pred() == self.server.pred()
                },
                Err(e) => {
                    &&& e matches HarnessError::RequestBuildError { value }
                    &&& (!parsed_uri_ok(self@.url) ==> value@ == self@.url)
                    &&& (parsed_uri_ok(self@.url) ==> !is_legal_header_value(value@)
                        && exists|i: int|
                        0 <= i < assembled_headers(self@).len() && (#[trigger] assembled_headers(
                            self@,
                        )[i]).1 == value@)
                },
            },
    {
        let ghost v = self@;
        let ghost goal = assembled_headers(v);
        let Request {
            method,
            path,
            full_request_path,
            server,
            body,
            headers,
            cookies,
            content_type,
            is_saving_cookies,
        } = self;

        if !uri_is_valid(full_request_path.as_str()) {
            return Err(HarnessError::RequestBuildError { value: full_request_path });
        }

        let mut out: Vec<(String, String)> = headers;
        let ghost explicit = pairs_view(out@);
        let ghost ct_part = (match v.content_type {
            Some(ct) => seq![(content_type_label(), ct)],
            None => Seq::<(Seq<char>, Seq<char>)>::empty(),
        });
        let ghost cookie_part = (if v.cookies.len() == 0 {
            Seq::<(Seq<char>, Seq<char>)>::empty()
        } else {
            seq![(cookie_label(), cookie_header_text(v.cookies))]
        });
        proof {
            assert(explicit == v.headers);
            assert(goal == explicit + ct_part + cookie_part);
            assert(goal.len() == explicit.len() + ct_part.len() + cookie_part.len());
        }

        let mut i: usize = 0;
        let n = out.len();
        while i < n
            invariant
                0 <= i <= n,
                n == out@.len(),
                pairs_view(out@) == explicit,
                explicit.len() == n,
                forall|j: int| 0 <= j < i ==> is_legal_header_value((#[trigger] explicit[j]).1),
            decreases n - i,
        {
            if !check_header_value(out[i].1.as_str()) {
                proof {
                    assert(goal[i as int] == explicit[i as int]);
                    assert(!build_ok(v));
                }
                let offending = out[i].1.clone();
                return Err(HarnessError::RequestBuildError { value: offending });
            }
            proof {
                assert(explicit[i as int] == (out@[i as int].0@, out@[i as int].1@));
            }
            i += 1;
        }

        match &content_type {
            Some(ct) => {
                if !check_header_value(ct.as_str()) {
                    proof {
                        assert(goal[explicit.len() as int].1 == ct@);
                        assert(!build_ok(v));
                    }
                    return Err(HarnessError::RequestBuildError { value: ct.clone() });
                }
                out.push(("content-type".to_owned(), ct.clone()));
                proof {
                    reveal_strlit("content-type");
                    assert("content-type"@ =~= content_type_label());
                    assert(pairs_view(out@) =~= explicit.push((content_type_label(), ct@)));
                }
            },
            None => {},
        }
        if cookies.len() > 0 {
            let cookie_text = cookies.cookie_header();
            if !check_header_value(cookie_text.as_str()) {
                proof {
                    assert(goal.last().1 == cookie_header_text(v.cookies));
                    assert(!build_ok(v));
                }
                return Err(HarnessError::RequestBuildError { value: cookie_text });
            }
            out.push(("cookie".to_owned(), cookie_text));
            proof {
                reveal_strlit("cookie");
                assert("cookie"@ =~= cookie_label());
            }
        }
        proof {
            assert(pairs_view(out@) =~= goal);
            assert(build_ok(v));
        }

        let body_bytes = match body {
            Some(b) => b,
            None => Vec::new(),
        };
        proof {
            if v.body is None {
                assert(body_bytes@ =~= Seq::<u8>::empty());
            }
        }

        let wire = WireRequest { method, url: full_request_path, headers: out, body: body_bytes };
        let pending = PendingResponse { path, save_cookies: is_saving_cookies, server };
        Ok((wire, pending))
    }
}

/// The JSON text a value serializes to: a function of the value alone.
pub uninterp spec fn json_bytes_of(v: serde_json::Value) -> Seq<u8>;

/// Serializes a JSON value.
///
/// Relies on `serde_json::to_vec`: it writes the value as JSON text, and
/// the bytes depend on the value alone. On a self-describing
/// `serde_json::Value` it cannot fail — serialization fails only when a
/// `Serialize` implementation fails or a map has non-string keys, and
/// `Value`'s maps are keyed by strings — so the unwrap cannot panic.
#[verifier::external_body]
fn json_to_vec(body: &serde_json::Value) -> (r: Vec<u8>)
    ensures
        r@ == json_bytes_of(*body),
{
    serde_json::to_vec(body).expect("serializing a serde_json::Value cannot fail")
}

/// Whether a string is a well-formed request URI.
pub uninterp spec fn parsed_uri_ok(s: Seq<char>) -> bool;

/// Decides whether `s` parses as a request URI.
///
/// Relies on `hyper::Uri`'s string parse: whether a URL is well formed
/// depends on the string alone.
#[verifier::external_body]
fn uri_is_valid(s: &str) -> (r: bool)
    ensures
        r == parsed_uri_ok(s@),
{
    s.parse::<hyper::Uri>().is_ok()
}

#[verifier::external_type_specification]
#[verifier::external_body]
pub struct ExJsonValue(serde_json::Value);

} // verus!
