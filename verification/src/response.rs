//! The response half of the request lifecycle: once a transport has carried
//! the wire-level request and produced status, headers and body,
//! `PendingResponse::finish` extracts the response's `Set-Cookie` values,
//! merges them into the shared jar when cookie saving is enabled, and
//! builds the `TestResponse` the caller inspects.

use crate::cookies::merge_failure;
use crate::cookies::str_views;
use crate::errors::HarnessError;
use crate::request::pairs_view;
use crate::request::PendingResponse;
use crate::wire::str_eq;
use vstd::prelude::*;

verus! {

/// The response to one request, fully read into memory: the request's
/// original path for diagnostic context, the status code, the response
/// headers, and the body bytes.
#[derive(Debug)]
pub struct TestResponse {
    pub path: String,
    pub status: u16,
    pub headers: Vec<(String, String)>,
    pub body: Vec<u8>,
}

/// The name of the cookie-setting response header. Transports hand header
/// names over lowercased, as the wire library normalizes them.
pub open spec fn set_cookie_label() -> Seq<char> {
    seq!['s', 'e', 't', '-', 'c', 'o', 'o', 'k', 'i', 'e']
}

/// The values of the `set-cookie` headers among `hs`, in order.
pub open spec fn set_cookie_values(hs: Seq<(Seq<char>, Seq<char>)>) -> Seq<Seq<char>>
    decreases hs.len(),
{
    if hs.len() == 0 {
        Seq::empty()
    } else if hs.last().0 == set_cookie_label() {
        set_cookie_values(hs.drop_last()).push(hs.last().1)
    } else {
        set_cookie_values(hs.drop_last())
    }
}

/// The shared jar's transition for one processed response: when the request
/// saves cookies, the response's `set-cookie` values are merged; otherwise
/// the jar stays as it was. `finish` realizes the merging case through
/// `SharedServerState::add_cookies_by_header`, and does not touch the
/// shared state at all in the other.
pub open spec fn jar_after_response(
    jar: Seq<(Seq<char>, Seq<char>)>,
    save_cookies: bool,
    sc: Seq<Seq<char>>,
) -> Seq<(Seq<char>, Seq<char>)> {
    if save_cookies {
        crate::cookies::jar_after_merge(jar, sc)
    } else {
        jar
    }
}

/// Collects the values of the `set-cookie` headers, in order.
fn collect_set_cookie_values(headers: &Vec<(String, String)>) -> (r: Vec<String>)
    ensures
        str_views(r@) == set_cookie_values(pairs_view(headers@)),
{
    let ghost hs = pairs_view(headers@);
    let mut out: Vec<String> = Vec::new();
    let mut i: usize = 0;
    let n = headers.len();
    proof {
        assert(hs.take(0) =~= Seq::<(Seq<char>, Seq<char>)>::empty());
        assert(str_views(out@) =~= set_cookie_values(hs.take(0)));
    }
    while i < n
        invariant
            0 <= i <= n,
            n == headers@.len(),
            hs == pairs_view(headers@),
            hs.len() == n,
            str_views(out@) == set_cookie_values(hs.take(i as int)),
        decreases n - i,
    {
        let ghost prev = out@;
        if str_eq(headers[i].0.as_str(), "set-cookie") {
            out.push(headers[i].1.clone());
            proof {
                reveal_strlit("set-cookie");
                assert("set-cookie"@ =~= set_cookie_label());
                assert(str_views(out@) =~= str_views(prev).push(headers@[i as int].1@));
            }
        }
        proof {
            reveal_strlit("set-cookie");
            assert("set-cookie"@ =~= set_cookie_label());
            let taken = hs.take(i as int + 1);
            assert(taken.drop_last() =~= hs.take(i as int));
            assert(taken.last() == hs[i as int]);
            assert(hs[i as int] == (headers@[i as int].0@, headers@[i as int].1@));
            assert(str_views(out@) == set_cookie_values(taken));
        }
        i += 1;
    }
    proof {
        assert(hs.take(n as int) =~= hs);
    }
    out
}

impl PendingResponse {
    /// Processes the transport's response: when this request saves cookies,
    /// every `set-cookie` header value is merged into the shared jar —
    /// values merged before a failing one remain merged — and a failing
    /// value surfaces as `CookieParseError`, even though the response
    /// itself was fully received. Succeeds, returning the response value,
    /// exactly when cookie saving is off or every `set-cookie` value
    /// parses.
    pub fn finish(self, status: u16, headers: Vec<(String, String)>, body: Vec<u8>) -> (r: Result<
        TestResponse,
        HarnessError,
    >)
        ensures
            ({
                let sc = set_cookie_values(pairs_view(headers@));
                match r {
                    Ok(resp) => {
                        &&& self.save_cookies ==> merge_failure(sc) is None
                        &&& resp.path@ == self.path@
                        &&& resp.status == status
                        &&& resp.headers == headers
                        &&& resp.body == body
                    },
                    Err(e) => {
                        &&& self.save_cookies
                        &&& merge_failure(sc) matches Some(h)
                        &&& e matches HarnessError::CookieParseError { header } && header@ == h
                    },
                }
            }),
    {
        if self.save_cookies {
            let values = collect_set_cookie_values(&headers);
            match self.server.add_cookies_by_header(&values) {
                Ok(()) => {},
                Err(e) => {
                    return Err(e);
                },
            }
        }
        Ok(TestResponse { path: self.path, status, headers, body })
    }
}

} // verus!
