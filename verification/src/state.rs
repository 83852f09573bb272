//! The server-side state: a plain `InnerServer` value holding the listening
//! address, the persistent cookie jar and the default request settings, and
//! `SharedServerState`, which shares one `InnerServer` among many in-flight
//! requests behind a reader/writer lock. The lock's invariant pins the
//! address and the defaults — they are immutable after construction — and
//! keeps the jar well formed; it is held only for the duration of one state
//! operation, never across network activity.

use crate::cookies::jar_after_merge;
use crate::cookies::jar_upsert;
use crate::cookies::jar_wf;
use crate::cookies::merge_failure;
use crate::cookies::str_views;
use crate::cookies::Cookie;
use crate::cookies::CookieJar;
use crate::errors::HarnessError;
use crate::request::build_request_path;
use crate::request::joined_url;
use crate::request::pairs_view;
use crate::request::Request;
use std::sync::Arc;
use vstd::prelude::*;
use vstd::rwlock::RwLock;
use vstd::rwlock::RwLockPredicate;

verus! {

/// The view of an optional default content type.
pub open spec fn opt_text(o: Option<String>) -> Option<Seq<char>> {
    match o {
        Some(s) => Some(s@),
        None => None,
    }
}

/// The state one running server owns: its address, its cookie jar, and the
/// defaults every new request starts from.
#[derive(Debug)]
pub struct InnerServer {
    server_address: String,
    cookies: CookieJar,
    save_cookies: bool,
    default_content_type: Option<String>,
}

/// The defaults a new request is seeded with.
#[derive(Debug)]
pub struct RequestConfig {
    pub save_cookies: bool,
    pub content_type: Option<String>,
}

impl InnerServer {
    /// Well-formedness is exactly `jar_wf` of the jar's contents, visibly,
    /// so callers can apply the jar lemmas to a state's jar.
    pub open spec fn wf(&self) -> bool {
        jar_wf(self.jar())
    }

    pub closed spec fn address(&self) -> Seq<char> {
        self.server_address@
    }

    pub closed spec fn jar(&self) -> Seq<(Seq<char>, Seq<char>)> {
        self.cookies@
    }

    pub closed spec fn default_save(&self) -> bool {
        self.save_cookies
    }

    pub closed spec fn default_content_type(&self) -> Option<Seq<char>> {
        opt_text(self.default_content_type)
    }

    /// A fresh state: the given address and defaults, and an empty jar.
    pub fn new(server_address: String, default_content_type: Option<String>, save_cookies: bool)
        -> (r: InnerServer)
        ensures
            r.address() == server_address@,
            r.jar() == Seq::<(Seq<char>, Seq<char>)>::empty(),
            r.default_save() == save_cookies,
            r.default_content_type() == opt_text(default_content_type),
            r.wf(),
    {
        InnerServer {
            server_address,
            cookies: CookieJar::new(),
            save_cookies,
            default_content_type,
        }
    }

    /// The address the server listens on.
    pub fn server_address(&self) -> (r: &String)
        ensures
            r@ == self.address(),
    {
        &self.server_address
    }

    /// The jar itself, read-only.
    pub fn cookies(&self) -> (r: &CookieJar)
        ensures
            r@ == self.jar(),
    {
        &self.cookies
    }

    /// Upserts one cookie into the jar.
    pub fn add_cookie(&mut self, cookie: Cookie)
        requires
            old(self).wf(),
        ensures
            final(self).jar() == jar_upsert(old(self).jar(), cookie@),
            final(self).wf(),
            final(self).address() == old(self).address(),
            final(self).default_save() == old(self).default_save(),
            final(self).default_content_type() == old(self).default_content_type(),
    {
        self.cookies.add(cookie);
    }

    /// Upserts every cookie of `jar`, in jar iteration order.
    pub fn add_cookies(&mut self, jar: &CookieJar)
        requires
            old(self).wf(),
        ensures
            final(self).jar() == jar_merge_all(old(self).jar(), jar@),
            final(self).wf(),
            final(self).address() == old(self).address(),
            final(self).default_save() == old(self).default_save(),
            final(self).default_content_type() == old(self).default_content_type(),
    {
        let n = jar.len();
        let mut i: usize = 0;
        proof {
            assert(jar@.take(0) =~= Seq::<(Seq<char>, Seq<char>)>::empty());
        }
        while i < n
            invariant
                0 <= i <= n,
                n == jar@.len(),
                self.wf(),
                self.jar() == jar_merge_all(old(self).jar(), jar@.take(i as int)),
                self.address() == old(self).address(),
                self.default_save() == old(self).default_save(),
                self.default_content_type() == old(self).default_content_type(),
            decreases n - i,
        {
            let c = jar.get(i).clone();
            self.cookies.add(c);
            proof {
                let taken = jar@.take(i as int + 1);
                assert(taken.drop_last() =~= jar@.take(i as int));
                assert(taken.last() == jar@[i as int]);
            }
            i += 1;
        }
        proof {
            assert(jar@.take(n as int) =~= jar@);
        }
    }

    /// Merges `Set-Cookie` header values into the jar; see
    /// `CookieJar::merge_set_cookie_headers` for the stop-at-first-failure
    /// and no-rollback behaviour.
    pub fn add_cookies_by_header(&mut self, headers: &Vec<String>) -> (r: Result<
        (),
        HarnessError,
    >)
        requires
            old(self).wf(),
        ensures
            final(self).jar() == jar_after_merge(old(self).jar(), str_views(headers@)),
            final(self).wf(),
            final(self).address() == old(self).address(),
            final(self).default_save() == old(self).default_save(),
            final(self).default_content_type() == old(self).default_content_type(),
            match r {
                Ok(()) => merge_failure(str_views(headers@)) is None,
                Err(e) => {
                    &&& merge_failure(str_views(headers@)) matches Some(h)
                    &&& e matches HarnessError::CookieParseError { header } && header@ == h
                },
            },
    {
        self.cookies.merge_set_cookie_headers(headers)
    }

    /// Resets the jar to empty.
    pub fn clear_cookies(&mut self)
        ensures
            final(self).jar() == Seq::<(Seq<char>, Seq<char>)>::empty(),
            final(self).wf(),
            final(self).address() == old(self).address(),
            final(self).default_save() == old(self).default_save(),
            final(self).default_content_type() == old(self).default_content_type(),
    {
        self.cookies.clear();
    }

    /// The defaults a new request starts from.
    pub fn request_config(&self) -> (r: RequestConfig)
        ensures
            r.save_cookies == self.default_save(),
            opt_text(r.content_type) == self.default_content_type(),
    {
        let content_type = match &self.default_content_type {
            Some(s) => Some(s.clone()),
            None => None,
        };
        RequestConfig { save_cookies: self.save_cookies, content_type }
    }
}

/// The jar after upserting every pair of `src`, in order.
pub open spec fn jar_merge_all(
    jar: Seq<(Seq<char>, Seq<char>)>,
    src: Seq<(Seq<char>, Seq<char>)>,
) -> Seq<(Seq<char>, Seq<char>)>
    decreases src.len(),
{
    if src.len() == 0 {
        jar
    } else {
        jar_upsert(jar_merge_all(jar, src.drop_last()), src.last())
    }
}

/// The lock invariant of one shared server state: the inner value is well
/// formed, and its address and defaults are exactly the ones fixed at
/// construction.
pub ghost struct StatePred {
    pub address: Seq<char>,
    pub default_save: bool,
    pub default_content_type: Option<Seq<char>>,
}

impl RwLockPredicate<InnerServer> for StatePred {
    open spec fn inv(self, v: InnerServer) -> bool {
        &&& v.wf()
        &&& v.address() == self.address
        &&& v.default_save() == self.default_save
        &&& v.default_content_type() == self.default_content_type
    }
}

/// One server's shared state: an `InnerServer` behind a lock, handed around
/// by reference-counted handles. All reads and mutations of the jar happen
/// while holding the lock, so no two threads observe a torn jar; the lock is
/// held per operation only.
pub struct SharedServerState {
    state: Arc<RwLock<InnerServer, StatePred>>,
}

/// Clones the shared handle.
///
/// Relies on `Arc::clone`: the clone points at the same allocation, so it
/// carries the same shared state.
#[verifier::external_body]
fn clone_state_handle(state: &Arc<RwLock<InnerServer, StatePred>>) -> (r: Arc<
    RwLock<InnerServer, StatePred>,
>)
    ensures
        r == *state,
{
    state.clone()
}

impl Clone for SharedServerState {
    fn clone(&self) -> (r: Self)
        ensures
            r.pred() == self.pred(),
    {
        SharedServerState { state: clone_state_handle(&self.state) }
    }
}

impl SharedServerState {
    /// The invariant every value behind this handle's lock satisfies.
    pub closed spec fn pred(&self) -> StatePred {
        (*self.state).pred()
    }

    /// The address the server listens on; immutable after construction.
    pub closed spec fn address(&self) -> Seq<char> {
        self.pred().address
    }

    /// The default cookie-saving policy new requests start from.
    pub closed spec fn default_save(&self) -> bool {
        self.pred().default_save
    }

    /// The default content type new requests start from.
    pub closed spec fn default_content_type(&self) -> Option<Seq<char>> {
        self.pred().default_content_type
    }

    /// A fresh shared state: the given address (used verbatim), an empty
    /// jar, and the given defaults.
    pub fn new(server_address: String, default_content_type: Option<String>, save_cookies: bool)
        -> (r: SharedServerState)
        ensures
            r.address() == server_address@,
            r.default_save() == save_cookies,
            r.default_content_type() == opt_text(default_content_type),
    {
        let ghost pred = StatePred {
            address: server_address@,
            default_save: save_cookies,
            default_content_type: opt_text(default_content_type),
        };
        let inner = InnerServer::new(server_address, default_content_type, save_cookies);
        let lock = RwLock::new(inner, Ghost(pred));
        SharedServerState { state: Arc::new(lock) }
    }

    /// A snapshot of the server's address.
    pub fn read_address(&self) -> (r: String)
        ensures
            r@ == self.address(),
    {
        let handle = self.state.acquire_read();
        let r = handle.borrow().server_address().clone();
        handle.release_read();
        r
    }

    /// A defensive copy of the current jar: mutating it does not touch the
    /// shared state.
    pub fn read_cookies(&self) -> (r: CookieJar)
        ensures
            r.wf(),
    {
        let handle = self.state.acquire_read();
        let r = handle.borrow().cookies().clone();
        handle.release_read();
        r
    }

    /// Upserts one cookie into the shared jar.
    pub fn add_cookie(&self, cookie: Cookie) {
        let (mut inner, handle) = self.state.acquire_write();
        inner.add_cookie(cookie);
        handle.release_write(inner);
    }

    /// Upserts every cookie of `jar` into the shared jar.
    pub fn add_cookies(&self, jar: &CookieJar) {
        let (mut inner, handle) = self.state.acquire_write();
        inner.add_cookies(jar);
        handle.release_write(inner);
    }

    /// Merges `Set-Cookie` header values into the shared jar. Whether the
    /// merge succeeds depends on the headers alone; cookies merged before a
    /// failing header remain merged.
    pub fn add_cookies_by_header(&self, headers: &Vec<String>) -> (r: Result<(), HarnessError>)
        ensures
            match r {
                Ok(()) => merge_failure(str_views(headers@)) is None,
                Err(e) => {
                    &&& merge_failure(str_views(headers@)) matches Some(h)
                    &&& e matches HarnessError::CookieParseError { header } && header@ == h
                },
            },
    {
        let (mut inner, handle) = self.state.acquire_write();
        let r = inner.add_cookies_by_header(headers);
        handle.release_write(inner);
        r
    }

    /// Resets the shared jar to empty.
    pub fn clear_cookies(&self) {
        let (mut inner, handle) = self.state.acquire_write();
        inner.clear_cookies();
        handle.release_write(inner);
    }

    /// The defaults a new request starts from.
    pub fn request_config(&self) -> (r: RequestConfig)
        ensures
            r.save_cookies == self.default_save(),
            opt_text(r.content_type) == self.default_content_type(),
    {
        let handle = self.state.acquire_read();
        let r = handle.borrow().request_config();
        handle.release_read();
        r
    }

    /// One locked snapshot for a new request: the defaults and a copy of
    /// the current jar.
    pub fn request_seed(&self) -> (r: (RequestConfig, CookieJar, String))
        ensures
            r.0.save_cookies == self.default_save(),
            opt_text(r.0.content_type) == self.default_content_type(),
            r.1.wf(),
            r.2@ == self.address(),
    {
        let handle = self.state.acquire_read();
        let inner = handle.borrow();
        let config = inner.request_config();
        let cookies = inner.cookies().clone();
        let address = inner.server_address().clone();
        handle.release_read();
        (config, cookies, address)
    }

    /// A fresh deferred request for `method` and `path`: it starts from this
    /// state's defaults, a snapshot of the current jar, and the URL joined
    /// from the server address and `path`, and holds a handle back to this
    /// state for the cookie feedback at send time.
    pub fn make_request(&self, method: String, path: String) -> (r: Request)
        ensures
            r@.method == method@,
            r@.path == path@,
            r@.url == joined_url(self.address(), path@),
            r@.body is None,
            r@.headers == Seq::<(Seq<char>, Seq<char>)>::empty(),
            r@.save_cookies == self.default_save(),
            r@.content_type == self.default_content_type(),
            r.wf(),
            r.server.pred() == self.pred(),
    {
        let (config, cookies, address) = self.request_seed();
        let full_request_path = build_request_path(address.as_str(), path.as_str());
        let r = Request {
            method,
            path,
            full_request_path,
            server: self.clone(),
            body: None,
            headers: Vec::new(),
            cookies,
            content_type: config.content_type,
            is_saving_cookies: config.save_cookies,
        };
        proof {
            assert(pairs_view(r.headers@) =~= Seq::<(Seq<char>, Seq<char>)>::empty());
        }
        r
    }
}

} // verus!
