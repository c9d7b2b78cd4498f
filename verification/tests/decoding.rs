use acemcp_core::encoding::decode_file_content;

#[test]
fn valid_utf8_decodes_as_is() {
    let bytes = "héllo wörld".as_bytes().to_vec();
    assert_eq!(decode_file_content(&bytes), "héllo wörld");
}

#[test]
fn gbk_content_falls_back_to_gbk() {
    // the GBK encoding of a CJK character, not valid UTF-8
    let bytes = vec![0xD6, 0xD0, 0xCE, 0xC4];
    assert_eq!(decode_file_content(&bytes), "中文");
}

#[test]
fn latin1_content_falls_back_past_gbk() {
    // invalid as UTF-8 (truncated sequence) and as GBK (bad trail byte)
    let bytes = vec![0xC3, 0x28];
    assert_eq!(decode_file_content(&bytes), "Ã(");
}

#[test]
fn empty_input_decodes_to_empty_text() {
    assert_eq!(decode_file_content(&Vec::new()), "");
}
