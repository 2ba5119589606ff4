//! Percent-encoding of failure messages for the header that carries them:
//! ASCII letters, digits and `-_.~` pass through, every other byte becomes
//! `%XX` with uppercase hex digits. The encoding is proved reversible.

use vstd::prelude::*;
use vstd::utf8::encode_utf8;

use crate::text::ascii_chars_of;
use crate::text::ascii_string;

verus! {

/// Bytes that pass through the encoding unchanged: ASCII letters, digits,
/// and `-`, `_`, `.`, `~`.
pub open spec fn is_unreserved(b: u8) -> bool {
    (65 <= b <= 90) || (97 <= b <= 122) || (48 <= b <= 57) || b == 45 || b == 95 || b == 46
        || b == 126
}

/// The uppercase hex digit for a value below sixteen.
pub open spec fn spec_hex_digit(n: u8) -> u8
    recommends
        n < 16,
{
    if n < 10 {
        (48 + n) as u8
    } else {
        (55 + n) as u8
    }
}

/// What one byte contributes to the encoded output.
pub open spec fn encode_byte(b: u8) -> Seq<u8> {
    if is_unreserved(b) {
        seq![b]
    } else {
        seq![37u8, spec_hex_digit(b / 16), spec_hex_digit(b % 16)]
    }
}

/// The percent-encoding of a byte sequence.
pub open spec fn percent_encoded(s: Seq<u8>) -> Seq<u8>
    decreases s.len(),
{
    if s.len() == 0 {
        Seq::empty()
    } else {
        encode_byte(s[0]) + percent_encoded(s.drop_first())
    }
}

/// An uppercase hex digit byte.
pub open spec fn is_hex_upper(c: u8) -> bool {
    (48 <= c <= 57) || (65 <= c <= 70)
}

/// The value of an uppercase hex digit byte.
pub open spec fn spec_unhex(c: u8) -> u8
    recommends
        is_hex_upper(c),
{
    if 48 <= c <= 57 {
        (c - 48) as u8
    } else {
        (c - 55) as u8
    }
}

/// The inverse reading of a percent-encoded byte sequence; `None` on input
/// that no encoding produces.
pub open spec fn percent_decoded(s: Seq<u8>) -> Option<Seq<u8>>
    decreases s.len(),
{
    if s.len() == 0 {
        Some(Seq::empty())
    } else if s[0] == 37 {
        if s.len() >= 3 && is_hex_upper(s[1]) && is_hex_upper(s[2]) {
            match percent_decoded(s.skip(3)) {
                Some(t) => Some(seq![(spec_unhex(s[1]) * 16 + spec_unhex(s[2])) as u8] + t),
                None => None,
            }
        } else {
            None
        }
    } else if is_unreserved(s[0]) {
        match percent_decoded(s.drop_first()) {
            Some(t) => Some(seq![s[0]] + t),
            None => None,
        }
    } else {
        None
    }
}

/// Percent-encoding is reversible: decoding the encoding of any byte
/// sequence gives that sequence back.
pub proof fn lemma_percent_roundtrip(s: Seq<u8>)
    ensures
        percent_decoded(percent_encoded(s)) == Some(s),
    decreases s.len(),
{
    if s.len() == 0 {
        assert(percent_encoded(s) =~= Seq::<u8>::empty());
        assert(percent_decoded(percent_encoded(s)) == Some(Seq::<u8>::empty()));
        assert(Seq::<u8>::empty() =~= s);
    } else {
        let b = s[0];
        let rest = s.drop_first();
        lemma_percent_roundtrip(rest);
        let enc = percent_encoded(s);
        if is_unreserved(b) {
            assert(enc[0] == b);
            assert(enc.drop_first() =~= percent_encoded(rest));
            assert(seq![b] + rest =~= s);
        } else {
            let hi = spec_hex_digit(b / 16);
            let lo = spec_hex_digit(b % 16);
            assert(enc.len() >= 3);
            assert(enc[0] == 37 && enc[1] == hi && enc[2] == lo);
            assert(is_hex_upper(hi) && is_hex_upper(lo));
            assert(enc.skip(3) =~= percent_encoded(rest));
            assert(spec_unhex(hi) == b / 16 && spec_unhex(lo) == b % 16);
            assert(b / 16 * 16 + b % 16 == b) by {
                vstd::arithmetic::div_mod::lemma_fundamental_div_mod(b as int, 16);
            }
            assert(seq![b] + rest =~= s);
        }
    }
}

/// Everything the encoding emits is an ASCII byte.
pub proof fn lemma_percent_encoded_ascii(s: Seq<u8>)
    ensures
        forall|i: int| 0 <= i < percent_encoded(s).len() ==> percent_encoded(s)[i] < 0x80,
    decreases s.len(),
{
    if s.len() > 0 {
        lemma_percent_encoded_ascii(s.drop_first());
        let head = encode_byte(s[0]);
        let tail = percent_encoded(s.drop_first());
        assert forall|i: int| 0 <= i < percent_encoded(s).len() implies percent_encoded(s)[i]
            < 0x80 by {
            assert(percent_encoded(s) == head + tail);
            if i < head.len() {
                assert(percent_encoded(s)[i] == head[i]);
            } else {
                assert(percent_encoded(s)[i] == tail[i - head.len()]);
            }
        }
    }
}

proof fn lemma_percent_encoded_snoc(s: Seq<u8>, b: u8)
    ensures
        percent_encoded(s.push(b)) == percent_encoded(s) + encode_byte(b),
    decreases s.len(),
{
    if s.len() == 0 {
        let single = s.push(b);
        assert(single.len() == 1 && single[0] == b);
        assert(single.drop_first() =~= Seq::<u8>::empty());
        assert(percent_encoded(single.drop_first()) =~= Seq::<u8>::empty());
        assert(percent_encoded(single) =~= encode_byte(b) + percent_encoded(single.drop_first()));
        assert(percent_encoded(single) =~= encode_byte(b));
        assert(percent_encoded(s) =~= Seq::<u8>::empty());
        assert(percent_encoded(s) + encode_byte(b) =~= encode_byte(b));
    } else {
        lemma_percent_encoded_snoc(s.drop_first(), b);
        assert(s.push(b)[0] == s[0]);
        assert(s.push(b).drop_first() =~= s.drop_first().push(b));
        assert(percent_encoded(s.push(b)) =~= percent_encoded(s) + encode_byte(b));
    }
}

/// Percent-encodes a byte sequence.
pub fn percent_encode_bytes(s: &Vec<u8>) -> (r: Vec<u8>)
    ensures
        r@ == percent_encoded(s@),
{
    let mut out: Vec<u8> = Vec::new();
    let mut i: usize = 0;
    while i < s.len()
        invariant
            0 <= i <= s@.len(),
            out@ == percent_encoded(s@.subrange(0, i as int)),
        decreases s@.len() - i,
    {
        let b = s[i];
        if (65 <= b && b <= 90) || (97 <= b && b <= 122) || (48 <= b && b <= 57) || b == 45 || b
            == 95 || b == 46 || b == 126 {
            out.push(b);
        } else {
            let hi = b / 16;
            let lo = b % 16;
            out.push(37);
            out.push(if hi < 10 { 48 + hi } else { 55 + hi });
            out.push(if lo < 10 { 48 + lo } else { 55 + lo });
        }
        proof {
            lemma_percent_encoded_snoc(s@.subrange(0, i as int), s@[i as int]);
            assert(s@.subrange(0, i + 1) =~= s@.subrange(0, i as int).push(s@[i as int]));
            assert(out@ =~= percent_encoded(s@.subrange(0, i + 1)));
        }
        i += 1;
    }
    proof {
        assert(s@.subrange(0, s@.len() as int) =~= s@);
    }
    out
}

/// Percent-encodes the UTF-8 bytes of a string, as the failure-message
/// header carries it.
pub fn percent_encode(s: &str) -> (r: String)
    ensures
        r@ == ascii_chars_of(percent_encoded(encode_utf8(s@))),
{
    let bytes = s.as_bytes_vec();
    let enc = percent_encode_bytes(&bytes);
    proof {
        lemma_percent_encoded_ascii(bytes@);
    }
    ascii_string(enc)
}

} // verus!
