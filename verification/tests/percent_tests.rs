use grpc_proxier::percent_encode;

#[test]
fn unreserved_bytes_pass_through() {
    let input = "ABCXYZabcxyz0189-_.~";
    assert_eq!(percent_encode(input), input.to_owned());
}

#[test]
fn space_becomes_percent_twenty() {
    assert_eq!(percent_encode("a b"), "a%20b".to_owned());
}

#[test]
fn reserved_punctuation_is_escaped_uppercase() {
    assert_eq!(percent_encode("a/b:c?d"), "a%2Fb%3Ac%3Fd".to_owned());
    assert_eq!(percent_encode("%"), "%25".to_owned());
}

#[test]
fn multibyte_characters_escape_each_raw_byte() {
    assert_eq!(percent_encode("café"), "caf%C3%A9".to_owned());
    assert_eq!(percent_encode("π"), "%CF%80".to_owned());
}

#[test]
fn empty_input_stays_empty() {
    assert_eq!(percent_encode(""), "".to_owned());
}

#[test]
fn mixed_input_is_byte_exact() {
    assert_eq!(
        percent_encode("user 'alice' not allowed to call 'pkg.Svc/Get'"),
        "user%20%27alice%27%20not%20allowed%20to%20call%20%27pkg.Svc%2FGet%27".to_owned()
    );
}

#[test]
fn encoding_is_reversible_on_mixed_input() {
    // Decodes by hand what the library encoded: every %XX is one raw byte,
    // everything else stands for itself.
    let plain = "mixed: letters09, spaces  , punct /?&=, non-ascii äπ€";
    let encoded = percent_encode(plain);
    let mut decoded: Vec<u8> = Vec::new();
    let bytes = encoded.as_bytes();
    let mut i = 0;
    while i < bytes.len() {
        if bytes[i] == b'%' {
            let hex = std::str::from_utf8(&bytes[i + 1..i + 3]).unwrap();
            decoded.push(u8::from_str_radix(hex, 16).unwrap());
            i += 3;
        } else {
            decoded.push(bytes[i]);
            i += 1;
        }
    }
    assert_eq!(String::from_utf8(decoded).unwrap(), plain);
}
