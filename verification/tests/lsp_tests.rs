use harnessd::lsp::{byte_offset_for_lsp_position, file_uri_to_path, percent_decode, UriError};

#[test]
fn converts_lsp_position_to_byte_offset_for_ascii() {
    let text = "fn main() {\n    todo!();\n}\n";
    assert_eq!(byte_offset_for_lsp_position(text, 1, 4), Some(16));
}

#[test]
fn converts_lsp_position_to_byte_offset_for_utf8_and_utf16() {
    let text = "let city = \"Toronto\";\nlet emoji = \"😀\";\n";
    let emoji_offset = text.find('😀').expect("missing emoji");
    assert_eq!(
        byte_offset_for_lsp_position(text, 1, 12),
        Some(emoji_offset - 1)
    );
    assert_eq!(
        byte_offset_for_lsp_position(text, 1, 13),
        Some(emoji_offset)
    );
    assert_eq!(
        byte_offset_for_lsp_position(text, 1, 15),
        Some(emoji_offset + 4)
    );
    assert_eq!(byte_offset_for_lsp_position(text, 1, 14), None);
}

#[test]
fn positions_at_line_ends_and_past_the_text() {
    let text = "ab\r\ncd";
    assert_eq!(byte_offset_for_lsp_position(text, 0, 2), Some(2));
    assert_eq!(byte_offset_for_lsp_position(text, 0, 3), None);
    assert_eq!(byte_offset_for_lsp_position(text, 1, 2), Some(6));
    assert_eq!(byte_offset_for_lsp_position(text, 2, 0), None);
    assert_eq!(byte_offset_for_lsp_position("a\n", 1, 0), Some(2));
    assert_eq!(byte_offset_for_lsp_position("é", 0, 1), Some(2));
}

#[test]
fn decodes_file_uris() {
    assert_eq!(file_uri_to_path("file:///tmp/a%20b.rs"), Ok("/tmp/a b.rs".to_string()));
    assert_eq!(file_uri_to_path("http://x"), Err(UriError::UnsupportedScheme));
    assert_eq!(percent_decode("%zz"), Err(UriError::EscapeNotHex(0)));
    assert_eq!(percent_decode("a%2"), Err(UriError::EscapeOutOfRange));
    assert_eq!(percent_decode("%+a"), Ok("\n".to_string()));
    assert_eq!(percent_decode("%ff"), Err(UriError::InvalidUtf8));
    assert_eq!(percent_decode("%C3%A9"), Ok("é".to_string()));
}
