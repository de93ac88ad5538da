use vuinputd::base64_text::decode_base64;

#[test]
fn base64_decodes_with_and_without_padding() {
    assert_eq!(decode_base64(""), Some(vec![]));
    assert_eq!(decode_base64("TWFu"), Some(b"Man".to_vec()));
    assert_eq!(decode_base64("TWE="), Some(b"Ma".to_vec()));
    assert_eq!(decode_base64("TQ=="), Some(b"M".to_vec()));
    assert_eq!(decode_base64("e30="), Some(b"{}".to_vec()));
    assert_eq!(decode_base64("+/+/"), Some(vec![0xfb, 0xff, 0xbf]));
}

#[test]
fn base64_refuses_malformed_text() {
    assert_eq!(decode_base64("TWF"), None);
    assert_eq!(decode_base64("TW=u"), None);
    assert_eq!(decode_base64("TQ==TWFu"), None);
    assert_eq!(decode_base64("T*Fu"), None);
}
