use grpc_proxier::parse_credentials;
use grpc_proxier::Credentials;
use grpc_proxier::ProxyError;

#[test]
fn empty_store_has_no_users() {
    let creds = Credentials::empty();
    assert!(creds.lookup("anyone").is_none());
}

#[test]
fn parses_one_entry_per_line() {
    let creds = parse_credentials("alice:$argon2id$hash-a\nbob:$argon2id$hash-b\n").unwrap();
    assert_eq!(
        creds.lookup("alice"),
        Some(&"$argon2id$hash-a".to_owned())
    );
    assert_eq!(creds.lookup("bob"), Some(&"$argon2id$hash-b".to_owned()));
    assert_eq!(creds.lookup("carol"), None);
}

#[test]
fn blank_lines_and_comments_are_ignored() {
    let creds = parse_credentials("\n# a comment\n  \nalice:h1\n\t# indented comment\n").unwrap();
    assert_eq!(creds.users.len(), 1);
    assert_eq!(creds.lookup("alice"), Some(&"h1".to_owned()));
}

#[test]
fn lines_are_trimmed_and_split_on_first_colon() {
    let creds = parse_credentials("  alice:$a$b:c$d  \r\n").unwrap();
    assert_eq!(creds.lookup("alice"), Some(&"$a$b:c$d".to_owned()));
}

#[test]
fn later_entry_for_the_same_user_wins() {
    let creds = parse_credentials("alice:old\nalice:new\n").unwrap();
    assert_eq!(creds.lookup("alice"), Some(&"new".to_owned()));
}

#[test]
fn line_without_colon_fails_with_its_line_number() {
    let err = parse_credentials("alice:h1\n# fine\nbroken line\n").unwrap_err();
    assert_eq!(
        err,
        ProxyError::CredentialsLoad(
            "line 3: expected 'username:argon2_hash' format".to_owned()
        )
    );
}

#[test]
fn empty_text_gives_an_empty_store() {
    let creds = parse_credentials("").unwrap();
    assert!(creds.users.is_empty());
}
