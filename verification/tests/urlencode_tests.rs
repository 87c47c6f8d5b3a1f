use libbyreads_rs::urlencode::{decode_query, encode_query, percent_decode, percent_encode};

#[test]
fn encode_query_spaces() {
    assert_eq!(encode_query("Dune Frank Herbert"), "Dune%20Frank%20Herbert");
}

#[test]
fn encode_query_keeps_unreserved() {
    assert_eq!(encode_query("AZaz09-._~"), "AZaz09-._~");
}

#[test]
fn encode_query_matches_urlencoding_crate() {
    let cases = [
        "Dune Frank Herbert",
        "A Darker Shade of Magic (Shades of Magic, #1)",
        "Crème brûlée & co",
        "100% done?",
        "",
    ];
    for c in cases {
        assert_eq!(encode_query(c), urlencoding::encode(c).into_owned(), "case {:?}", c);
    }
}

#[test]
fn decode_inverts_encode() {
    let cases = ["Dune Frank Herbert", "ünïcødé — text", "", "plain", "a+b c%d"];
    for c in cases {
        let enc = encode_query(c);
        assert_eq!(decode_query(enc.as_str()), Some(c.to_string()), "case {:?}", c);
    }
}

#[test]
fn decode_lenient_matches_urlencoding_crate() {
    let cases = ["%", "%2", "%GG", "%2Gxy", "a%%20b", "tail%A", "%41", "%61%62"];
    for c in cases {
        let expected = urlencoding::decode(c).ok().map(|s| s.into_owned());
        assert_eq!(decode_query(c), expected, "case {:?}", c);
    }
}

#[test]
fn decode_rejects_invalid_utf8() {
    assert_eq!(decode_query("%FF%FE"), None);
}

#[test]
fn byte_level_roundtrip() {
    let data: Vec<u8> = (0u8..=255).collect();
    let enc = percent_encode(&data);
    assert!(enc.iter().all(|b| *b < 0x80));
    assert_eq!(percent_decode(&enc), data);
}
