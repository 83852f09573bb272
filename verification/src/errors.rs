use vstd::prelude::*;

verus! {

/// A failure surfaced by the harness, one variant per lifecycle stage.
///
/// Construction-time failures (`BindError`, `ServerStartError`) are fatal:
/// without a server no request is possible. `StateLockError` is fatal too:
/// after a poisoned lock the shared state is assumed corrupted. The rest are
/// per-request failures that the caller inspects.
#[derive(Debug)]
pub enum HarnessError {
    /// The listening address could not be acquired.
    BindError,
    /// The serving task could not be scheduled.
    ServerStartError,
    /// The shared state's lock was poisoned by a panicked holder. The
    /// verified lock the library uses cannot poison, so the library never
    /// produces this variant; it stands for unverified shells whose locking
    /// can.
    StateLockError,
    /// A `Set-Cookie` header payload was not a valid cookie encoding.
    /// Carries the offending header value.
    CookieParseError { header: String },
    /// A header value supplied by builder calls is not a legal wire
    /// encoding. Carries the offending value.
    RequestBuildError { value: String },
    /// The transport failed: connection failure, timeout, or malformed
    /// response framing. Never retried.
    TransportError { detail: String },
}

impl HarnessError {
    /// A short label for the error kind, for test diagnostics.
    pub fn describe(&self) -> (r: &'static str)
        ensures
            r@ == match self {
                HarnessError::BindError => "bind error"@,
                HarnessError::ServerStartError => "server start error"@,
                HarnessError::StateLockError => "state lock error"@,
                HarnessError::CookieParseError { .. } => "cookie parse error"@,
                HarnessError::RequestBuildError { .. } => "request build error"@,
                HarnessError::TransportError { .. } => "transport error"@,
            },
    {
        match self {
            HarnessError::BindError => "bind error",
            HarnessError::ServerStartError => "server start error",
            HarnessError::StateLockError => "state lock error",
            HarnessError::CookieParseError { .. } => "cookie parse error",
            HarnessError::RequestBuildError { .. } => "request build error",
            HarnessError::TransportError { .. } => "transport error",
        }
    }
}

} // verus!
