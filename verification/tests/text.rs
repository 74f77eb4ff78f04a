use pgn_evals::text::decode;

#[test]
fn decodes_well_formed_text() {
    assert_eq!(decode(b""), Some(""));
    assert_eq!(decode(b"[%eval 0.3]"), Some("[%eval 0.3]"));
    assert_eq!(decode("Réti – ♞".as_bytes()), Some("Réti – ♞"));
    assert_eq!(decode(&[0xf0, 0x9f, 0x99, 0x82]), Some("\u{1f642}"));
}

#[test]
fn refuses_ill_formed_text() {
    assert_eq!(decode(&[0xff]), None);
    assert_eq!(decode(&[b'a', 0x80]), None);
    assert_eq!(decode(&[0xc3]), None);
    assert_eq!(decode(&[0xc0, 0xaf]), None);
    assert_eq!(decode(&[0xed, 0xa0, 0x80]), None);
    assert_eq!(decode(&[0xf4, 0x90, 0x80, 0x80]), None);
}
