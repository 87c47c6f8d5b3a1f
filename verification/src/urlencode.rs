//! Percent-encoding of query strings, with a proved encode/decode round
//! trip.  The encoder keeps ASCII alphanumerics and `- . _ ~` and writes
//! every other byte as `%` followed by two uppercase hex digits; the decoder
//! is lenient, passing malformed escapes through unchanged.

use vstd::prelude::*;
use vstd::utf8::{
    decode_utf8, encode_utf8, encode_utf8_decode_utf8, encode_utf8_valid_utf8, is_ascii_chars,
    is_ascii_chars_encode_utf8, valid_utf8,
};

verus! {

/// Bytes the encoder keeps verbatim: ASCII alphanumerics and `- . _ ~`.
pub open spec fn is_unreserved_byte(b: u8) -> bool {
    (0x30 <= b && b <= 0x39) || (0x41 <= b && b <= 0x5a) || (0x61 <= b && b <= 0x7a) || b == 0x2d
        || b == 0x2e || b == 0x5f || b == 0x7e
}

/// The uppercase hex digit for a value below sixteen.
pub open spec fn hex_digit_byte(d: u8) -> u8 {
    if d < 10 {
        (0x30 + d) as u8
    } else {
        (0x37 + d) as u8
    }
}

/// How one byte is encoded: itself, or a three-byte `%XX` escape.
pub open spec fn encode_byte(b: u8) -> Seq<u8> {
    if is_unreserved_byte(b) {
        seq![b]
    } else {
        seq![0x25u8, hex_digit_byte(b / 16), hex_digit_byte(b % 16)]
    }
}

/// The percent-encoding of a byte sequence.
pub open spec fn percent_encode_spec(s: Seq<u8>) -> Seq<u8>
    decreases s.len(),
{
    if s.len() == 0 {
        Seq::empty()
    } else {
        encode_byte(s[0]) + percent_encode_spec(s.drop_first())
    }
}

pub open spec fn is_hex_digit_byte(b: u8) -> bool {
    (0x30 <= b && b <= 0x39) || (0x41 <= b && b <= 0x46) || (0x61 <= b && b <= 0x66)
}

pub open spec fn hex_val(b: u8) -> u8 {
    if 0x30 <= b && b <= 0x39 {
        (b - 0x30) as u8
    } else if 0x41 <= b && b <= 0x46 {
        (b - 0x41 + 10) as u8
    } else if 0x61 <= b && b <= 0x66 {
        (b - 0x61 + 10) as u8
    } else {
        0
    }
}

/// Lenient percent-decoding: a `%` followed by two hex digits becomes one
/// byte; any malformed escape is passed through unchanged.
pub open spec fn percent_decode_spec(s: Seq<u8>) -> Seq<u8>
    decreases s.len(),
{
    if s.len() == 0 {
        Seq::empty()
    } else if s[0] != 0x25 {
        seq![s[0]] + percent_decode_spec(s.drop_first())
    } else if s.len() >= 3 && is_hex_digit_byte(s[1]) && is_hex_digit_byte(s[2]) {
        seq![(hex_val(s[1]) * 16 + hex_val(s[2])) as u8] + percent_decode_spec(s.skip(3))
    } else if s.len() >= 3 && is_hex_digit_byte(s[1]) {
        seq![0x25u8, s[1]] + percent_decode_spec(s.skip(2))
    } else if s.len() >= 2 && !is_hex_digit_byte(s[1]) {
        seq![0x25u8] + percent_decode_spec(s.skip(1))
    } else {
        s
    }
}

fn byte_is_unreserved(b: u8) -> (r: bool)
    ensures
        r == is_unreserved_byte(b),
{
    (0x30 <= b && b <= 0x39) || (0x41 <= b && b <= 0x5a) || (0x61 <= b && b <= 0x7a) || b == 0x2d
        || b == 0x2e || b == 0x5f || b == 0x7e
}

fn byte_is_hex_digit(b: u8) -> (r: bool)
    ensures
        r == is_hex_digit_byte(b),
{
    (0x30 <= b && b <= 0x39) || (0x41 <= b && b <= 0x46) || (0x61 <= b && b <= 0x66)
}

fn byte_hex_val(b: u8) -> (r: u8)
    ensures
        r == hex_val(b),
{
    if 0x30 <= b && b <= 0x39 {
        b - 0x30
    } else if 0x41 <= b && b <= 0x46 {
        b - 0x41 + 10
    } else if 0x61 <= b && b <= 0x66 {
        b - 0x61 + 10
    } else {
        0
    }
}

fn hex_digit(d: u8) -> (r: u8)
    requires
        d < 16,
    ensures
        r == hex_digit_byte(d),
{
    if d < 10 {
        0x30 + d
    } else {
        0x37 + d
    }
}

/// Percent-encodes a byte sequence.
pub fn percent_encode(s: &Vec<u8>) -> (r: Vec<u8>)
    ensures
        r@ == percent_encode_spec(s@),
{
    let mut out: Vec<u8> = Vec::new();
    let mut i: usize = 0;
    proof {
        assert(s@.skip(0) =~= s@);
        assert(out@ + percent_encode_spec(s@) =~= percent_encode_spec(s@));
    }
    while i < s.len()
        invariant
            0 <= i <= s@.len(),
            percent_encode_spec(s@) == out@ + percent_encode_spec(s@.skip(i as int)),
        decreases s@.len() - i,
    {
        let b = s[i];
        proof {
            assert(s@.skip(i as int)[0] == s@[i as int]);
            assert(s@.skip(i as int).drop_first() =~= s@.skip(i + 1));
        }
        if byte_is_unreserved(b) {
            out.push(b);
            proof {
                assert(out@ + percent_encode_spec(s@.skip(i + 1)) =~= percent_encode_spec(s@));
            }
        } else {
            out.push(0x25);
            out.push(hex_digit(b / 16));
            out.push(hex_digit(b % 16));
            proof {
                assert(out@ + percent_encode_spec(s@.skip(i + 1)) =~= percent_encode_spec(s@));
            }
        }
        i = i + 1;
    }
    proof {
        assert(s@.skip(s@.len() as int) =~= Seq::<u8>::empty());
        assert(out@ =~= percent_encode_spec(s@));
    }
    out
}

/// Percent-decodes a byte sequence, leniently.
pub fn percent_decode(s: &Vec<u8>) -> (r: Vec<u8>)
    ensures
        r@ == percent_decode_spec(s@),
{
    let mut out: Vec<u8> = Vec::new();
    let mut i: usize = 0;
    let n = s.len();
    proof {
        assert(s@.skip(0) =~= s@);
        assert(out@ + percent_decode_spec(s@) =~= percent_decode_spec(s@));
    }
    while i < n
        invariant
            0 <= i <= n,
            n == s@.len(),
            percent_decode_spec(s@) == out@ + percent_decode_spec(s@.skip(i as int)),
        decreases n - i,
    {
        let b = s[i];
        let ghost tail = s@.skip(i as int);
        proof {
            assert(tail[0] == s@[i as int]);
            assert(tail.drop_first() =~= s@.skip(i + 1));
            if i + 1 < n {
                assert(tail[1] == s@[i + 1]);
            }
            if i + 2 < n {
                assert(tail[2] == s@[i + 2]);
            }
        }
        if b != 0x25 {
            out.push(b);
            proof {
                assert(out@ + percent_decode_spec(s@.skip(i + 1)) =~= percent_decode_spec(s@));
            }
            i = i + 1;
        } else if n - i > 2 && byte_is_hex_digit(s[i + 1]) && byte_is_hex_digit(s[i + 2]) {
            let v = byte_hex_val(s[i + 1]) * 16 + byte_hex_val(s[i + 2]);
            out.push(v);
            proof {
                assert(tail.skip(3) =~= s@.skip(i + 3));
                assert(out@ + percent_decode_spec(s@.skip(i + 3)) =~= percent_decode_spec(s@));
            }
            i = i + 3;
        } else if n - i > 2 && byte_is_hex_digit(s[i + 1]) {
            out.push(0x25);
            out.push(s[i + 1]);
            proof {
                assert(tail.skip(2) =~= s@.skip(i + 2));
                assert(out@ + percent_decode_spec(s@.skip(i + 2)) =~= percent_decode_spec(s@));
            }
            i = i + 2;
        } else if n - i > 1 && !byte_is_hex_digit(s[i + 1]) {
            out.push(0x25);
            proof {
                assert(tail.skip(1) =~= s@.skip(i + 1));
                assert(out@ + percent_decode_spec(s@.skip(i + 1)) =~= percent_decode_spec(s@));
            }
            i = i + 1;
        } else {
            out.push(b);
            if n - i > 1 {
                out.push(s[i + 1]);
            }
            proof {
                assert(percent_decode_spec(tail) == tail);
                assert(tail =~= if i + 1 < n {
                    seq![s@[i as int], s@[i + 1]]
                } else {
                    seq![s@[i as int]]
                });
                assert(s@.skip(n as int) =~= Seq::<u8>::empty());
                assert(out@ + percent_decode_spec(s@.skip(n as int)) =~= percent_decode_spec(s@));
            }
            i = n;
        }
    }
    proof {
        assert(s@.skip(n as int) =~= Seq::<u8>::empty());
        assert(out@ =~= percent_decode_spec(s@));
    }
    out
}

/// Every byte the encoder emits is ASCII.
pub proof fn lemma_percent_encode_ascii(s: Seq<u8>)
    ensures
        forall|i: int|
            0 <= i < percent_encode_spec(s).len() ==> #[trigger] percent_encode_spec(s)[i] < 0x80,
    decreases s.len(),
{
    if s.len() == 0 {
    } else {
        lemma_percent_encode_ascii(s.drop_first());
        let e0 = encode_byte(s[0]);
        let e = percent_encode_spec(s);
        assert forall|i: int| 0 <= i < e.len() implies #[trigger] e[i] < 0x80 by {
            assert(e == e0 + percent_encode_spec(s.drop_first()));
            if i < e0.len() {
                assert(e[i] == e0[i]);
            } else {
                assert(e[i] == percent_encode_spec(s.drop_first())[i - e0.len()]);
            }
        }
    }
}

/// Decoding inverts encoding on every byte sequence.
pub proof fn lemma_percent_roundtrip(s: Seq<u8>)
    ensures
        percent_decode_spec(percent_encode_spec(s)) == s,
    decreases s.len(),
{
    if s.len() == 0 {
        assert(percent_decode_spec(percent_encode_spec(s)) =~= s);
    } else {
        let b = s[0];
        let e = percent_encode_spec(s);
        let rest = percent_encode_spec(s.drop_first());
        lemma_percent_roundtrip(s.drop_first());
        if is_unreserved_byte(b) {
            assert(e == seq![b] + rest);
            assert(e[0] == b && b != 0x25);
            assert(e.drop_first() =~= rest);
            assert(percent_decode_spec(e) == seq![b] + s.drop_first());
            assert(percent_decode_spec(e) =~= s);
        } else {
            let h1 = hex_digit_byte(b / 16);
            let h2 = hex_digit_byte(b % 16);
            assert(e == seq![0x25u8, h1, h2] + rest);
            assert(e[0] == 0x25 && e[1] == h1 && e[2] == h2 && e.len() >= 3);
            assert(is_hex_digit_byte(h1) && hex_val(h1) == b / 16);
            assert(is_hex_digit_byte(h2) && hex_val(h2) == b % 16);
            assert(hex_val(h1) * 16 + hex_val(h2) == b);
            assert(e.skip(3) =~= rest);
            assert(percent_decode_spec(e) == seq![b] + s.drop_first());
            assert(percent_decode_spec(e) =~= s);
        }
    }
}

/// The characters with the same code points as the given bytes.
pub open spec fn ascii_chars_of(s: Seq<u8>) -> Seq<char> {
    s.map_values(|b: u8| b as char)
}

/// Relies on `String::from_utf8`: a buffer of bytes below `0x80` is valid
/// UTF-8 and decodes to the characters with those code points.
#[verifier::external_body]
fn string_from_ascii(v: Vec<u8>) -> (r: String)
    requires
        forall|i: int| 0 <= i < v@.len() ==> v@[i] < 0x80,
    ensures
        r@ == ascii_chars_of(v@),
{
    String::from_utf8(v).unwrap_or_default()
}

/// Relies on `String::from_utf8`: it succeeds exactly on valid UTF-8 input
/// and yields its decoding.
#[verifier::external_body]
fn string_from_utf8(v: Vec<u8>) -> (r: Option<String>)
    ensures
        r is Some <==> valid_utf8(v@),
        r is Some ==> r->0@ == decode_utf8(v@),
{
    String::from_utf8(v).ok()
}

/// The encoded form of a query string: its UTF-8 bytes, percent-encoded,
/// read back as ASCII characters.
pub open spec fn encode_query_spec(q: Seq<char>) -> Seq<char> {
    ascii_chars_of(percent_encode_spec(encode_utf8(q)))
}

/// What decoding a query string yields: the percent-decoded UTF-8 bytes of
/// the input, as a string when they are valid UTF-8.
pub open spec fn decode_query_spec(t: Seq<char>) -> Option<Seq<char>> {
    if valid_utf8(percent_decode_spec(encode_utf8(t))) {
        Some(decode_utf8(percent_decode_spec(encode_utf8(t))))
    } else {
        None
    }
}

/// Percent-encodes a query string for use in a URL.
pub fn encode_query(q: &str) -> (r: String)
    ensures
        r@ == encode_query_spec(q@),
{
    let bytes = q.as_bytes_vec();
    let enc = percent_encode(&bytes);
    proof {
        lemma_percent_encode_ascii(bytes@);
    }
    string_from_ascii(enc)
}

/// Decodes a percent-encoded query string; `None` when the decoded bytes
/// are not valid UTF-8.
pub fn decode_query(t: &str) -> (r: Option<String>)
    ensures
        r is Some <==> decode_query_spec(t@) is Some,
        r is Some ==> Some(r->0@) == decode_query_spec(t@),
{
    let bytes = t.as_bytes_vec();
    let dec = percent_decode(&bytes);
    string_from_utf8(dec)
}

/// Decoding an encoded query always succeeds and returns the original
/// string, for every query string.
pub proof fn lemma_query_roundtrip(q: Seq<char>)
    ensures
        decode_query_spec(encode_query_spec(q)) == Some(q),
{
    let qb = encode_utf8(q);
    let eb = percent_encode_spec(qb);
    let enc = ascii_chars_of(eb);
    lemma_percent_encode_ascii(qb);
    assert(is_ascii_chars(enc)) by {
        assert forall|i| 0 <= i < enc.len() implies '\0' <= #[trigger] enc[i] <= '\u{7f}' by {
            assert(eb[i] < 0x80);
        }
    }
    is_ascii_chars_encode_utf8(enc);
    assert(encode_utf8(enc) =~= eb) by {
        assert forall|i: int| 0 <= i < enc.len() implies encode_utf8(enc)[i] == eb[i] by {
            assert(enc[i] as u8 == encode_utf8(enc)[i]);
            assert(eb[i] < 0x80);
            assert((eb[i] as char) as u8 == eb[i]);
        }
    }
    lemma_percent_roundtrip(qb);
    encode_utf8_valid_utf8(q);
    encode_utf8_decode_utf8(q);
}

} // verus!
