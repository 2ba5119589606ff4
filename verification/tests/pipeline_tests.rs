use argon2::Argon2;
use argon2::PasswordHasher;
use base64::engine::general_purpose::STANDARD;
use base64::Engine;

use grpc_proxier::decide_request;
use grpc_proxier::failure_observation;
use grpc_proxier::parse_grpc_path;
use grpc_proxier::success_labels;
use grpc_proxier::upstream_target;
use grpc_proxier::Config;
use grpc_proxier::Credentials;
use grpc_proxier::FailureObservation;
use grpc_proxier::ProxyError;
use grpc_proxier::UserConfig;

fn alice_setup() -> (Config, Credentials, String) {
    let hash = Argon2::default()
        .hash_password_with_salt(b"open sesame", b"0123456789abcdef")
        .expect("hashing failed");
    let credentials = Credentials {
        users: vec![("alice".to_owned(), format!("{hash}"))],
    };
    let config = Config {
        listen_address: "127.0.0.1:50051".to_owned(),
        upstream_address: "127.0.0.1:9000".to_owned(),
        metrics_address: "127.0.0.1:9090".to_owned(),
        users: vec![(
            "alice".to_owned(),
            UserConfig {
                allowed_calls: vec!["pkg.Svc/Get".to_owned()],
            },
        )],
    };
    let encoded = STANDARD.encode("alice:open sesame");
    (config, credentials, format!("Basic {encoded}"))
}

#[test]
fn path_with_service_and_method() {
    assert_eq!(parse_grpc_path("/pkg.Svc/Method"), ("pkg.Svc", "Method"));
}

#[test]
fn path_without_slash_gets_unknown_method() {
    assert_eq!(parse_grpc_path("noslash"), ("noslash", "unknown"));
}

#[test]
fn path_splits_on_last_slash() {
    assert_eq!(parse_grpc_path("/a/b/c"), ("a/b", "c"));
}

#[test]
fn empty_path_is_all_service() {
    assert_eq!(parse_grpc_path(""), ("", "unknown"));
}

#[test]
fn target_keeps_path_and_query() {
    assert_eq!(
        upstream_target("127.0.0.1:9000", "/pkg.Svc/Get?x=1"),
        "http://127.0.0.1:9000/pkg.Svc/Get?x=1".to_owned()
    );
}

#[test]
fn allowed_call_is_forwarded_and_labelled() {
    let (config, credentials, header) = alice_setup();
    let decision = decide_request(false, Some(&header), "/pkg.Svc/Get", &config, &credentials);
    assert_eq!(decision, Ok("alice".to_owned()));

    let status = "0".to_owned();
    let labels = success_labels("alice", "/pkg.Svc/Get", Some(&status));
    assert_eq!(labels.user, "alice".to_owned());
    assert_eq!(labels.service, "pkg.Svc".to_owned());
    assert_eq!(labels.method, "Get".to_owned());
    assert_eq!(labels.status, "0".to_owned());
}

#[test]
fn success_status_defaults_to_zero() {
    let labels = success_labels("alice", "/pkg.Svc/Get", None);
    assert_eq!(labels.status, "0".to_owned());
}

#[test]
fn denied_call_is_rejected_before_any_forwarding() {
    let (config, credentials, header) = alice_setup();
    let decision = decide_request(
        false,
        Some(&header),
        "/pkg.Svc/Delete",
        &config,
        &credentials,
    );
    let err = decision.expect_err("delete is not allowed");
    assert_eq!(
        err,
        ProxyError::AuthDenied("user 'alice' not allowed to call 'pkg.Svc/Delete'".to_owned())
    );

    let reply = err.to_grpc_response();
    assert_eq!(reply.grpc_status, "7".to_owned());
    assert_eq!(
        reply.grpc_message,
        "call%20not%20permitted%3A%20user%20%27alice%27%20not%20allowed%20to%20call%20%27pkg.Svc%2FDelete%27"
            .to_owned()
    );

    match failure_observation(&err, "/pkg.Svc/Delete") {
        FailureObservation::Auth { labels, reason } => {
            assert_eq!(labels.user, "_unauthenticated".to_owned());
            assert_eq!(labels.service, "pkg.Svc".to_owned());
            assert_eq!(labels.method, "Delete".to_owned());
            assert_eq!(labels.status, "7".to_owned());
            assert_eq!(reason, "denied".to_owned());
        }
        _ => panic!("a denial counts as an auth failure"),
    }
}

#[test]
fn missing_header_is_auth_missing() {
    let (config, credentials, _) = alice_setup();
    let decision = decide_request(false, None, "/pkg.Svc/Get", &config, &credentials);
    assert_eq!(decision, Err(ProxyError::AuthMissing));

    match failure_observation(&ProxyError::AuthMissing, "/pkg.Svc/Get") {
        FailureObservation::Auth { labels, reason } => {
            assert_eq!(labels.user, "_unauthenticated".to_owned());
            assert_eq!(labels.status, "16".to_owned());
            assert_eq!(reason, "missing".to_owned());
        }
        _ => panic!("a missing header counts as an auth failure"),
    }
}

#[test]
fn bypass_mode_attributes_everything_to_the_pseudo_user() {
    let (config, credentials, _) = alice_setup();
    let no_header = decide_request(true, None, "/pkg.Svc/Delete", &config, &credentials);
    assert_eq!(no_header, Ok("Anonymous".to_owned()));

    let bogus = "Basic definitely-not-valid".to_owned();
    let bad_header = decide_request(true, Some(&bogus), "/other.Svc/Drop", &config, &credentials);
    assert_eq!(bad_header, Ok("Anonymous".to_owned()));
}

#[test]
fn upstream_failures_are_labelled_as_errors() {
    let err = ProxyError::UpstreamConnect("connection refused".to_owned());
    match failure_observation(&err, "/pkg.Svc/Get") {
        FailureObservation::Upstream { labels } => {
            assert_eq!(labels.user, "_error".to_owned());
            assert_eq!(labels.service, "pkg.Svc".to_owned());
            assert_eq!(labels.method, "Get".to_owned());
            assert_eq!(labels.status, "14".to_owned());
        }
        _ => panic!("a connect failure counts as an upstream error"),
    }

    let err = ProxyError::UpstreamRequest("reset".to_owned());
    match failure_observation(&err, "/pkg.Svc/Get") {
        FailureObservation::Upstream { labels } => {
            assert_eq!(labels.status, "13".to_owned());
        }
        _ => panic!("a request failure counts as an upstream error"),
    }
}

#[test]
fn startup_failures_are_not_counted_per_request() {
    let err = ProxyError::ConfigLoad("missing file".to_owned());
    assert!(matches!(
        failure_observation(&err, "/pkg.Svc/Get"),
        FailureObservation::NotCounted
    ));
}
