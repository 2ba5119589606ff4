//! Authentication of Basic credentials against the credential store and
//! authorization of a call path against the per-user policy.

use vstd::prelude::*;
use vstd::utf8::{decode_utf8, encode_utf8, valid_utf8};

use crate::config::{spec_lookup, Config, Credentials};
use crate::error::ProxyError;
use crate::text::{find_char, find_char_str, lemma_find_char, spec_trim, str_eq, string_from_utf8, trim_str};

verus! {

/// What base64's standard-alphabet decoding returns: a function of the
/// input characters alone, `None` on input that is not valid base64.
pub uninterp spec fn base64_decode_of(s: Seq<char>) -> Option<Seq<u8>>;

/// Relies on base64's Engine::decode with the standard alphabet: the result
/// depends on the input characters alone, and decoding fails exactly on
/// input that is not valid base64.
#[verifier::external_body]
fn base64_decode(s: &str) -> (r: Option<Vec<u8>>)
    ensures
        r is Some <==> base64_decode_of(s@) is Some,
        r matches Some(v) ==> base64_decode_of(s@) == Some(v@),
{
    base64::Engine::decode(&base64::engine::general_purpose::STANDARD, s).ok()
}

/// Whether a password's memory-hard hash, recomputed under the parameters
/// the stored PHC hash string carries, matches that string's digest: a
/// function of the password bytes and the hash string alone. False also
/// when the stored string is not a well-formed hash.
pub uninterp spec fn argon2_verifies(password: Seq<u8>, stored_hash: Seq<char>) -> bool;

/// Relies on argon2's PasswordVerifier::verify_password for &str, which
/// parses the PHC hash string, recomputes the digest from its parameters,
/// and compares with the library's constant-time comparison; the outcome
/// depends on the password bytes and the hash string alone.
#[verifier::external_body]
fn argon2_verify(password: &[u8], stored_hash: &str) -> (r: bool)
    ensures
        r == argon2_verifies(password@, stored_hash@),
{
    <argon2::Argon2 as argon2::PasswordVerifier<str>>::verify_password(
        &argon2::Argon2::default(),
        password,
        stored_hash,
    ).is_ok()
}

/// The username and password a Basic authorization header carries: the
/// header must read `Basic ` followed by base64 of UTF-8 text with a `:`;
/// the text before the first `:` names the user, the text after it is the
/// password.
pub open spec fn spec_basic_credentials(header: Seq<char>) -> Option<(Seq<char>, Seq<char>)> {
    if !(header.len() >= 6 && header.subrange(0, 6) == "Basic "@) {
        None
    } else {
        match base64_decode_of(spec_trim(header.skip(6))) {
            None => None,
            Some(bytes) => {
                if !valid_utf8(bytes) {
                    None
                } else {
                    let text = decode_utf8(bytes);
                    let k = find_char(text, ':');
                    if !(0 <= k < text.len()) {
                        None
                    } else {
                        Some((text.take(k), text.skip(k + 1)))
                    }
                }
            },
        }
    }
}

/// The username authentication returns, if any: the header must carry a
/// well-formed Basic credential pair, the username must be in the store,
/// and the password must verify against the stored hash.
pub open spec fn spec_authenticate(
    header: Seq<char>,
    creds: Seq<(Seq<char>, Seq<char>)>,
) -> Option<Seq<char>> {
    match spec_basic_credentials(header) {
        None => None,
        Some(pair) => match spec_lookup(creds, pair.0) {
            None => None,
            Some(hash) => {
                if argon2_verifies(encode_utf8(pair.1), hash) {
                    Some(pair.0)
                } else {
                    None
                }
            },
        },
    }
}

/// Verifies a Basic authorization header against the credential store and
/// returns the verified username; every failure is the same invalid-
/// credentials error.
pub fn authenticate(auth_header: &str, credentials: &Credentials) -> (r: Result<
    String,
    ProxyError,
>)
    ensures
        match r {
            Ok(u) => spec_authenticate(auth_header@, credentials@) == Some(u@),
            Err(e) => spec_authenticate(auth_header@, credentials@) is None && e
                is AuthInvalid,
        },
{
    let n = auth_header.unicode_len();
    proof {
        reveal_strlit("Basic ");
    }
    if n < 6 {
        return Err(ProxyError::AuthInvalid);
    }
    let prefix_ok = auth_header.get_char(0) == 'B' && auth_header.get_char(1) == 'a'
        && auth_header.get_char(2) == 's' && auth_header.get_char(3) == 'i'
        && auth_header.get_char(4) == 'c' && auth_header.get_char(5) == ' ';
    if !prefix_ok {
        proof {
            assert(auth_header@.subrange(0, 6) != "Basic "@) by {
                let p = auth_header@.subrange(0, 6);
                if p == "Basic "@ {
                    assert(p[0] == auth_header@[0] && p[1] == auth_header@[1] && p[2]
                        == auth_header@[2] && p[3] == auth_header@[3] && p[4]
                        == auth_header@[4] && p[5] == auth_header@[5]);
                }
            }
        }
        return Err(ProxyError::AuthInvalid);
    }
    proof {
        assert(auth_header@.subrange(0, 6) =~= "Basic "@);
    }
    let payload = trim_str(auth_header.substring_char(6, n));
    proof {
        assert(auth_header@.subrange(6, n as int) =~= auth_header@.skip(6));
    }
    let decoded = match base64_decode(payload) {
        None => {
            return Err(ProxyError::AuthInvalid);
        },
        Some(v) => v,
    };
    let ghost decoded_bytes = decoded@;
    let text = match string_from_utf8(decoded) {
        None => {
            return Err(ProxyError::AuthInvalid);
        },
        Some(t) => t,
    };
    let text_len = text.as_str().unicode_len();
    let k = match find_char_str(text.as_str(), ':') {
        None => {
            proof {
                lemma_find_char(text@, ':');
            }
            return Err(ProxyError::AuthInvalid);
        },
        Some(k) => k,
    };
    proof {
        lemma_find_char(text@, ':');
    }
    let name = text.as_str().substring_char(0, k);
    let password = text.as_str().substring_char(k + 1, text_len);
    proof {
        assert(name@ =~= decode_utf8(decoded_bytes).take(k as int));
        assert(password@ =~= decode_utf8(decoded_bytes).skip(k + 1));
    }
    let hash = match credentials.lookup(name) {
        None => {
            return Err(ProxyError::AuthInvalid);
        },
        Some(h) => h,
    };
    if argon2_verify(password.as_bytes(), hash.as_str()) {
        Ok(name.to_owned())
    } else {
        Err(ProxyError::AuthInvalid)
    }
}

/// A request path with one leading `/` stripped; no other canonicalization.
pub open spec fn spec_strip_slash(p: Seq<char>) -> Seq<char> {
    if p.len() > 0 && p[0] == '/' {
        p.skip(1)
    } else {
        p
    }
}

/// Whether an allow-list grants a call: it holds the wildcard or the exact
/// call string.
pub open spec fn spec_allowed(calls: Seq<Seq<char>>, call: Seq<char>) -> bool {
    calls.contains("*"@) || calls.contains(call)
}

/// Whether the policy lets a user make the call a path names.
pub open spec fn spec_authorize(
    policy: Seq<(Seq<char>, Seq<Seq<char>>)>,
    name: Seq<char>,
    path: Seq<char>,
) -> bool {
    match spec_lookup(policy, name) {
        None => false,
        Some(calls) => spec_allowed(calls, spec_strip_slash(path)),
    }
}

/// Checks an authenticated user's right to the call a path names; denial
/// carries a description that never says more than the user and the call.
pub fn authorize(username: &str, grpc_path: &str, config: &Config) -> (r: Result<
    (),
    ProxyError,
>)
    ensures
        r is Ok <==> spec_authorize(config@, username@, grpc_path@),
        r matches Err(e) ==> e matches ProxyError::AuthDenied(d) && (match spec_lookup(
            config@,
            username@,
        ) {
            None => d@ == "no config for user '"@ + username@ + "'"@,
            Some(_) => d@ == "user '"@ + username@ + "' not allowed to call '"@
                + spec_strip_slash(grpc_path@) + "'"@,
        }),
{
    let path_len = grpc_path.unicode_len();
    let call: &str = if path_len > 0 && grpc_path.get_char(0) == '/' {
        let c = grpc_path.substring_char(1, path_len);
        proof {
            assert(c@ =~= spec_strip_slash(grpc_path@));
        }
        c
    } else {
        grpc_path
    };
    let user_config = match config.lookup_user(username) {
        None => {
            let msg = String::from_str("no config for user '").concat(username).concat("'");
            return Err(ProxyError::AuthDenied(msg));
        },
        Some(u) => u,
    };
    let m = user_config.allowed_calls.len();
    let mut i: usize = 0;
    while i < m
        invariant
            0 <= i <= m,
            m == user_config.allowed_calls@.len(),
            forall|j: int| 0 <= j < i ==> user_config@[j] != "*"@ && user_config@[j] != call@,
            call@ == spec_strip_slash(grpc_path@),
            spec_lookup(config@, username@) == Some(user_config@),
        decreases m - i,
    {
        let allowed = &user_config.allowed_calls[i];
        if str_eq(allowed.as_str(), "*") || str_eq(allowed.as_str(), call) {
            proof {
                assert(user_config@[i as int] == allowed@);
                assert(spec_allowed(user_config@, call@));
            }
            return Ok(());
        }
        i += 1;
    }
    proof {
        assert(!spec_allowed(user_config@, call@)) by {
            if user_config@.contains("*"@) {
                let j = choose|j: int|
                    0 <= j < user_config@.len() && user_config@[j] == "*"@;
                assert(user_config@[j] != "*"@);
            }
            if user_config@.contains(call@) {
                let j = choose|j: int|
                    0 <= j < user_config@.len() && user_config@[j] == call@;
                assert(user_config@[j] != call@);
            }
        }
    }
    let msg = String::from_str("user '").concat(username).concat(
        "' not allowed to call '",
    ).concat(call).concat("'");
    Err(ProxyError::AuthDenied(msg))
}

/// For a header carrying well-formed Basic credentials whose username is
/// absent from the store, authentication fails, whatever the password.
pub proof fn lemma_unknown_user_rejected(
    header: Seq<char>,
    creds: Seq<(Seq<char>, Seq<char>)>,
)
    requires
        spec_basic_credentials(header) is Some,
        spec_lookup(creds, spec_basic_credentials(header).unwrap().0) is None,
    ensures
        spec_authenticate(header, creds) is None,
{
}

/// For a header carrying well-formed Basic credentials whose password does
/// not verify against the user's stored hash, authentication fails.
pub proof fn lemma_wrong_password_rejected(
    header: Seq<char>,
    creds: Seq<(Seq<char>, Seq<char>)>,
)
    requires
        spec_basic_credentials(header) is Some,
        spec_lookup(creds, spec_basic_credentials(header).unwrap().0) matches Some(hash)
            && !argon2_verifies(
            encode_utf8(spec_basic_credentials(header).unwrap().1),
            hash,
        ),
    ensures
        spec_authenticate(header, creds) is None,
{
}

/// A user whose allow-list holds the wildcard is authorized for every call.
pub proof fn lemma_wildcard_allows(
    policy: Seq<(Seq<char>, Seq<Seq<char>>)>,
    name: Seq<char>,
    path: Seq<char>,
)
    requires
        spec_lookup(policy, name) matches Some(calls) && calls.contains("*"@),
    ensures
        spec_authorize(policy, name, path),
{
}

/// A user whose allow-list holds the exact call is authorized for it.
pub proof fn lemma_exact_call_allows(
    policy: Seq<(Seq<char>, Seq<Seq<char>>)>,
    name: Seq<char>,
    path: Seq<char>,
)
    requires
        spec_lookup(policy, name) matches Some(calls) && calls.contains(
            spec_strip_slash(path),
        ),
    ensures
        spec_authorize(policy, name, path),
{
}

/// Without the wildcard and without the exact call in the allow-list — or
/// without any policy entry at all — authorization fails.
pub proof fn lemma_other_call_denied(
    policy: Seq<(Seq<char>, Seq<Seq<char>>)>,
    name: Seq<char>,
    path: Seq<char>,
)
    requires
        match spec_lookup(policy, name) {
            None => true,
            Some(calls) => !calls.contains("*"@) && !calls.contains(spec_strip_slash(path)),
        },
    ensures
        !spec_authorize(policy, name, path),
{
}

} // verus!
