//! The closed failure taxonomy of the proxy and its mapping to the gRPC
//! status convention.

use vstd::prelude::*;
use vstd::utf8::encode_utf8;

use crate::percent::percent_encode;
use crate::percent::percent_encoded;
use crate::text::ascii_chars_of;
use crate::text::spec_decimal;
use crate::text::u64_to_string;

verus! {

/// Every way a request (or startup) can fail. Exactly one of these is
/// produced per failed request and drives both the synthetic response and
/// the metric labels.
#[derive(Debug, PartialEq, Eq)]
pub enum ProxyError {
    ConfigLoad(String),
    CredentialsLoad(String),
    AuthMissing,
    AuthInvalid,
    AuthDenied(String),
    UpstreamConnect(String),
    UpstreamRequest(String),
    ServerBind(String),
}

impl ProxyError {
    /// The gRPC status code this failure maps to, as a total function:
    /// authentication failures are UNAUTHENTICATED (16), authorization
    /// failures PERMISSION_DENIED (7), connection failures UNAVAILABLE (14),
    /// and everything else INTERNAL (13).
    pub open spec fn spec_status(&self) -> u8 {
        match self {
            ProxyError::AuthMissing | ProxyError::AuthInvalid => 16,
            ProxyError::AuthDenied(_) => 7,
            ProxyError::UpstreamConnect(_) => 14,
            ProxyError::UpstreamRequest(_)
            | ProxyError::ConfigLoad(_)
            | ProxyError::CredentialsLoad(_)
            | ProxyError::ServerBind(_) => 13,
        }
    }

    pub fn grpc_status_code(&self) -> (r: u8)
        ensures
            r == self.spec_status(),
    {
        match self {
            ProxyError::AuthMissing | ProxyError::AuthInvalid => 16,
            ProxyError::AuthDenied(_) => 7,
            ProxyError::UpstreamConnect(_) => 14,
            ProxyError::UpstreamRequest(_)
            | ProxyError::ConfigLoad(_)
            | ProxyError::CredentialsLoad(_)
            | ProxyError::ServerBind(_) => 13,
        }
    }

    /// The label under which an authentication or authorization failure is
    /// counted; failures outside that family report "unknown".
    pub open spec fn spec_failure_reason(&self) -> Seq<char> {
        match self {
            ProxyError::AuthMissing => "missing"@,
            ProxyError::AuthInvalid => "invalid"@,
            ProxyError::AuthDenied(_) => "denied"@,
            _ => "unknown"@,
        }
    }

    pub fn auth_failure_reason(&self) -> (r: &'static str)
        ensures
            r@ == self.spec_failure_reason(),
    {
        match self {
            ProxyError::AuthMissing => "missing",
            ProxyError::AuthInvalid => "invalid",
            ProxyError::AuthDenied(_) => "denied",
            _ => "unknown",
        }
    }

    /// The human-readable description of this failure. Details never include
    /// more than the documented description strings.
    pub open spec fn spec_message(&self) -> Seq<char> {
        match self {
            ProxyError::ConfigLoad(d) => "failed to load config: "@ + d@,
            ProxyError::CredentialsLoad(d) => "failed to load credentials: "@ + d@,
            ProxyError::AuthMissing => "missing authorization header"@,
            ProxyError::AuthInvalid => "invalid credentials"@,
            ProxyError::AuthDenied(d) => "call not permitted: "@ + d@,
            ProxyError::UpstreamConnect(d) => "upstream connection failed: "@ + d@,
            ProxyError::UpstreamRequest(d) => "upstream request failed: "@ + d@,
            ProxyError::ServerBind(d) => "failed to bind server: "@ + d@,
        }
    }

    pub fn message(&self) -> (r: String)
        ensures
            r@ == self.spec_message(),
    {
        match self {
            ProxyError::ConfigLoad(d) => String::from_str("failed to load config: ").concat(
                d.as_str(),
            ),
            ProxyError::CredentialsLoad(d) => String::from_str(
                "failed to load credentials: ",
            ).concat(d.as_str()),
            ProxyError::AuthMissing => String::from_str("missing authorization header"),
            ProxyError::AuthInvalid => String::from_str("invalid credentials"),
            ProxyError::AuthDenied(d) => String::from_str("call not permitted: ").concat(
                d.as_str(),
            ),
            ProxyError::UpstreamConnect(d) => String::from_str(
                "upstream connection failed: ",
            ).concat(d.as_str()),
            ProxyError::UpstreamRequest(d) => String::from_str("upstream request failed: ").concat(
                d.as_str(),
            ),
            ProxyError::ServerBind(d) => String::from_str("failed to bind server: ").concat(
                d.as_str(),
            ),
        }
    }

    /// Renders this failure as the synthetic reply the client receives:
    /// transport status 200, a gRPC content type, the decimal status code,
    /// and the percent-encoded message.
    pub fn to_grpc_response(&self) -> (r: ErrorReply)
        ensures
            r.http_status == 200,
            r.content_type@ == "application/grpc"@,
            r.grpc_status@ == spec_decimal(self.spec_status() as nat),
            r.grpc_message@ == ascii_chars_of(percent_encoded(encode_utf8(self.spec_message()))),
    {
        let code = self.grpc_status_code();
        let msg = self.message();
        ErrorReply {
            http_status: 200,
            content_type: String::from_str("application/grpc"),
            grpc_status: u64_to_string(code as u64),
            grpc_message: percent_encode(msg.as_str()),
        }
    }
}

/// The synthetic response produced for a failed request, ready to be put on
/// the wire: the transport status is always 200 and the gRPC status travels
/// in headers, as it must when no upstream response exists.
#[derive(Debug)]
pub struct ErrorReply {
    pub http_status: u16,
    pub content_type: String,
    pub grpc_status: String,
    pub grpc_message: String,
}

/// The status mapping is total: each failure kind maps to exactly one
/// documented code, and every kind is covered.
pub proof fn lemma_status_mapping(e: &ProxyError)
    ensures
        e matches ProxyError::AuthMissing ==> e.spec_status() == 16,
        e matches ProxyError::AuthInvalid ==> e.spec_status() == 16,
        e matches ProxyError::AuthDenied(_) ==> e.spec_status() == 7,
        e matches ProxyError::UpstreamConnect(_) ==> e.spec_status() == 14,
        e matches ProxyError::UpstreamRequest(_) ==> e.spec_status() == 13,
        e matches ProxyError::ConfigLoad(_) ==> e.spec_status() == 13,
        e matches ProxyError::CredentialsLoad(_) ==> e.spec_status() == 13,
        e matches ProxyError::ServerBind(_) ==> e.spec_status() == 13,
        e.spec_status() == 16 || e.spec_status() == 7 || e.spec_status() == 14 || e.spec_status()
            == 13,
{
}

} // verus!
