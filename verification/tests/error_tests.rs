use grpc_proxier::ProxyError;

#[test]
fn status_mapping_is_total_and_exact() {
    assert_eq!(ProxyError::AuthMissing.grpc_status_code(), 16);
    assert_eq!(ProxyError::AuthInvalid.grpc_status_code(), 16);
    assert_eq!(ProxyError::AuthDenied("d".to_owned()).grpc_status_code(), 7);
    assert_eq!(
        ProxyError::UpstreamConnect("d".to_owned()).grpc_status_code(),
        14
    );
    assert_eq!(
        ProxyError::UpstreamRequest("d".to_owned()).grpc_status_code(),
        13
    );
    assert_eq!(ProxyError::ConfigLoad("d".to_owned()).grpc_status_code(), 13);
    assert_eq!(
        ProxyError::CredentialsLoad("d".to_owned()).grpc_status_code(),
        13
    );
    assert_eq!(ProxyError::ServerBind("d".to_owned()).grpc_status_code(), 13);
}

#[test]
fn auth_failure_reasons() {
    assert_eq!(ProxyError::AuthMissing.auth_failure_reason(), "missing");
    assert_eq!(ProxyError::AuthInvalid.auth_failure_reason(), "invalid");
    assert_eq!(
        ProxyError::AuthDenied("d".to_owned()).auth_failure_reason(),
        "denied"
    );
    assert_eq!(
        ProxyError::UpstreamConnect("d".to_owned()).auth_failure_reason(),
        "unknown"
    );
}

#[test]
fn messages_describe_the_failure() {
    assert_eq!(
        ProxyError::AuthMissing.message(),
        "missing authorization header".to_owned()
    );
    assert_eq!(
        ProxyError::AuthInvalid.message(),
        "invalid credentials".to_owned()
    );
    assert_eq!(
        ProxyError::AuthDenied("user 'a' not allowed to call 'b'".to_owned()).message(),
        "call not permitted: user 'a' not allowed to call 'b'".to_owned()
    );
    assert_eq!(
        ProxyError::UpstreamConnect("refused".to_owned()).message(),
        "upstream connection failed: refused".to_owned()
    );
}

#[test]
fn grpc_response_carries_status_and_encoded_message() {
    let reply = ProxyError::AuthDenied("user 'alice' not allowed to call 'pkg.Svc/Delete'".to_owned())
        .to_grpc_response();
    assert_eq!(reply.http_status, 200);
    assert_eq!(reply.content_type, "application/grpc".to_owned());
    assert_eq!(reply.grpc_status, "7".to_owned());
    assert_eq!(
        reply.grpc_message,
        "call%20not%20permitted%3A%20user%20%27alice%27%20not%20allowed%20to%20call%20%27pkg.Svc%2FDelete%27"
            .to_owned()
    );
}

#[test]
fn grpc_response_for_authentication_failure() {
    let reply = ProxyError::AuthInvalid.to_grpc_response();
    assert_eq!(reply.http_status, 200);
    assert_eq!(reply.grpc_status, "16".to_owned());
    assert_eq!(reply.grpc_message, "invalid%20credentials".to_owned());
}
