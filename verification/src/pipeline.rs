//! The per-request decision pipeline: attribute the request to a user (or
//! fail), parse the call path, rewrite the upstream target, and compute the
//! metric labels every outcome must record.

use vstd::prelude::*;

use crate::auth::{authenticate, authorize, spec_authenticate, spec_authorize, spec_strip_slash};
use crate::config::{spec_lookup, Config, Credentials};
use crate::error::ProxyError;
use crate::text::{spec_decimal, u64_to_string};

verus! {

/// The index of the last occurrence of a character, or -1 when it does not
/// occur.
pub open spec fn rfind_char(s: Seq<char>, c: char) -> int
    decreases s.len(),
{
    if s.len() == 0 {
        -1
    } else if s.last() == c {
        s.len() - 1
    } else {
        rfind_char(s.drop_last(), c)
    }
}

/// What `rfind_char` returns: a valid index of the last occurrence, or -1
/// when the character is absent.
pub proof fn lemma_rfind_char(s: Seq<char>, c: char)
    ensures
        -1 <= rfind_char(s, c) < s.len(),
        rfind_char(s, c) >= 0 ==> s[rfind_char(s, c)] == c,
        forall|j: int| rfind_char(s, c) < j < s.len() ==> s[j] != c,
    decreases s.len(),
{
    if s.len() > 0 && s.last() != c {
        lemma_rfind_char(s.drop_last(), c);
        assert forall|j: int| rfind_char(s, c) < j < s.len() implies s[j] != c by {
            if j < s.len() - 1 {
                assert(s.drop_last()[j] != c);
            }
        }
    }
}

/// The (service, method) a request path names: the path with one leading
/// `/` stripped, split at its last `/`; with no `/` left, the whole path is
/// the service and the method is "unknown".
pub open spec fn spec_parse_grpc_path(path: Seq<char>) -> (Seq<char>, Seq<char>) {
    let t = spec_strip_slash(path);
    let k = rfind_char(t, '/');
    if 0 <= k < t.len() {
        (t.take(k), t.skip(k + 1))
    } else {
        (t, "unknown"@)
    }
}

/// Splits a request path into the service and method it names.
pub fn parse_grpc_path<'a>(path: &'a str) -> (r: (&'a str, &'a str))
    ensures
        r.0@ == spec_parse_grpc_path(path@).0,
        r.1@ == spec_parse_grpc_path(path@).1,
{
    let path_len = path.unicode_len();
    let trimmed: &str = if path_len > 0 && path.get_char(0) == '/' {
        let t = path.substring_char(1, path_len);
        proof {
            assert(t@ =~= spec_strip_slash(path@));
        }
        t
    } else {
        path
    };
    let n = trimmed.unicode_len();
    let ghost t = trimmed@;
    let mut i: usize = n;
    loop
        invariant
            0 <= i <= n,
            n == t.len(),
            t == trimmed@,
            forall|j: int| i <= j < n ==> t[j] != '/',
        ensures
            0 <= i <= n,
            forall|j: int| i <= j < n ==> t[j] != '/',
            i > 0 ==> t[i - 1] == '/',
            i == 0 ==> forall|j: int| 0 <= j < n ==> t[j] != '/',
        decreases i,
    {
        if i == 0 {
            break;
        }
        if trimmed.get_char(i - 1) == '/' {
            break;
        }
        i -= 1;
    }
    proof {
        lemma_rfind_char(t, '/');
        let k = rfind_char(t, '/');
        if i > 0 {
            assert(t[i - 1] == '/');
            assert(!(k < i - 1));
            assert(!(k > i - 1));
            assert(k == i - 1);
        } else {
            if k >= 0 {
                assert(t[k] != '/');
            }
        }
    }
    if i == 0 {
        (trimmed, "unknown")
    } else {
        let service = trimmed.substring_char(0, i - 1);
        let method = trimmed.substring_char(i, n);
        proof {
            assert(service@ =~= t.take(i - 1));
            assert(method@ =~= t.skip(i as int));
        }
        (service, method)
    }
}

/// The rewritten request target: plain scheme, the configured upstream
/// authority, and the original path and query unchanged.
pub fn upstream_target(upstream: &str, path: &str) -> (r: String)
    ensures
        r@ == "http://"@ + upstream@ + path@,
{
    String::from_str("http://").concat(upstream).concat(path)
}

/// Attributes a request to a user: in bypass mode every request belongs to
/// the fixed pseudo-user and no check runs; otherwise the Basic header is
/// authenticated against the store and the call is authorized against the
/// user's policy, failing with the missing-header, invalid-credentials, or
/// denial error exactly as each check fails.
pub fn decide_request(
    skip_auth: bool,
    auth_header: Option<&String>,
    path: &str,
    config: &Config,
    credentials: &Credentials,
) -> (r: Result<String, ProxyError>)
    ensures
        skip_auth ==> (r matches Ok(u) && u@ == "Anonymous"@),
        !skip_auth ==> match auth_header {
            None => r matches Err(e) && e is AuthMissing,
            Some(h) => match r {
            Ok(u) => spec_authenticate(h@, credentials@) == Some(u@) && spec_authorize(
                config@,
                u@,
                path@,
            ),
            Err(e) => match e {
                ProxyError::AuthInvalid => spec_authenticate(h@, credentials@) is None,
                ProxyError::AuthDenied(d) => spec_authenticate(h@, credentials@) matches Some(u)
                    && !spec_authorize(config@, u, path@) && (match spec_lookup(config@, u) {
                    None => d@ == "no config for user '"@ + u + "'"@,
                    Some(_) => d@ == "user '"@ + u + "' not allowed to call '"@
                        + spec_strip_slash(path@) + "'"@,
                }),
                _ => false,
            },
            },
        },
{
    if skip_auth {
        return Ok(String::from_str("Anonymous"));
    }
    let header = match auth_header {
        None => {
            return Err(ProxyError::AuthMissing);
        },
        Some(h) => h,
    };
    let username = match authenticate(header.as_str(), credentials) {
        Err(e) => {
            return Err(e);
        },
        Ok(u) => u,
    };
    match authorize(username.as_str(), path, config) {
        Err(e) => Err(e),
        Ok(()) => Ok(username),
    }
}

/// The labels of one observation of the requests counter.
#[derive(Debug)]
pub struct RequestLabels {
    pub user: String,
    pub service: String,
    pub method: String,
    pub status: String,
}

/// The labels a successfully forwarded request records: the verified user,
/// the service and method of the path, and the status header of the
/// outgoing response, defaulting to "0" when none is readable.
pub fn success_labels(username: &str, path: &str, grpc_status: Option<&String>) -> (r:
    RequestLabels)
    ensures
        r.user@ == username@,
        r.service@ == spec_parse_grpc_path(path@).0,
        r.method@ == spec_parse_grpc_path(path@).1,
        r.status@ == match grpc_status {
            Some(h) => h@,
            None => "0"@,
        },
{
    let (service, method) = parse_grpc_path(path);
    RequestLabels {
        user: String::from_str(username),
        service: String::from_str(service),
        method: String::from_str(method),
        status: match grpc_status {
            Some(h) => h.clone(),
            None => String::from_str("0"),
        },
    }
}

/// What a failed request records: auth-family failures count under the
/// unauthenticated pseudo-user together with their reason; upstream
/// failures count under the error pseudo-user and tick the upstream-error
/// counter; startup failures never reach the per-request counters.
#[derive(Debug)]
pub enum FailureObservation {
    Auth { labels: RequestLabels, reason: String },
    Upstream { labels: RequestLabels },
    NotCounted,
}

/// The metric observation a failure produces, per its family, with the
/// mapped status code as the status label.
pub fn failure_observation(err: &ProxyError, path: &str) -> (r: FailureObservation)
    ensures
        match err {
            ProxyError::AuthMissing | ProxyError::AuthInvalid | ProxyError::AuthDenied(_) => r
                matches FailureObservation::Auth { labels, reason } && labels.user@
                == "_unauthenticated"@ && labels.service@ == spec_parse_grpc_path(path@).0
                && labels.method@ == spec_parse_grpc_path(path@).1 && labels.status@
                == spec_decimal(err.spec_status() as nat) && reason@
                == err.spec_failure_reason(),
            ProxyError::UpstreamConnect(_) | ProxyError::UpstreamRequest(_) => r
                matches FailureObservation::Upstream { labels } && labels.user@ == "_error"@
                && labels.service@ == spec_parse_grpc_path(path@).0 && labels.method@
                == spec_parse_grpc_path(path@).1 && labels.status@ == spec_decimal(
                err.spec_status() as nat,
            ),
            _ => r is NotCounted,
        },
{
    match err {
        ProxyError::AuthMissing | ProxyError::AuthInvalid | ProxyError::AuthDenied(_) => {
            let (service, method) = parse_grpc_path(path);
            let labels = RequestLabels {
                user: String::from_str("_unauthenticated"),
                service: String::from_str(service),
                method: String::from_str(method),
                status: u64_to_string(err.grpc_status_code() as u64),
            };
            FailureObservation::Auth {
                labels,
                reason: String::from_str(err.auth_failure_reason()),
            }
        },
        ProxyError::UpstreamConnect(_) | ProxyError::UpstreamRequest(_) => {
            let (service, method) = parse_grpc_path(path);
            let labels = RequestLabels {
                user: String::from_str("_error"),
                service: String::from_str(service),
                method: String::from_str(method),
                status: u64_to_string(err.grpc_status_code() as u64),
            };
            FailureObservation::Upstream { labels }
        },
        _ => FailureObservation::NotCounted,
    }
}

} // verus!
