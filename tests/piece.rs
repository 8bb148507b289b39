use llama_rs::piece::{byte_fallback_token, byte_piece};

#[test]
fn byte_piece_hex() {
    assert_eq!(byte_piece(b"<0x41>"), Some(0x41));
    assert_eq!(byte_piece(b"<0x0A>"), Some(10));
    assert_eq!(byte_piece(b"<0xff>"), Some(255));
    assert_eq!(byte_piece(b"<0x00>"), Some(0));
}

#[test]
fn byte_piece_rejects_other_pieces() {
    assert_eq!(byte_piece(b"hello"), None);
    assert_eq!(byte_piece(b"<0x4G>"), None);
    assert_eq!(byte_piece(b"<0x41"), None);
    assert_eq!(byte_piece(b"<0x411>"), None);
    assert_eq!(byte_piece(b"[0x41]"), None);
    assert_eq!(byte_piece(b""), None);
}

#[test]
fn byte_fallback_offset() {
    assert_eq!(byte_fallback_token(0), 3);
    assert_eq!(byte_fallback_token(0xE2), 229);
    assert_eq!(byte_fallback_token(255), 258);
}
