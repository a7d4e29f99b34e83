use ht::alis::{
    alis_magic, decode_leb128, decode_string, encode_eot, encode_exit, encode_init, encode_input,
    encode_leb128, encode_marker, encode_output, encode_resize, encode_string, encode_theme,
    parse_color, ColorError, EventType, Theme, ThemeFormat,
};

#[test]
fn test_leb128_encoding() {
    assert_eq!(encode_leb128(0), vec![0x00]);
    assert_eq!(encode_leb128(1), vec![0x01]);
    assert_eq!(encode_leb128(127), vec![0x7F]);
    assert_eq!(encode_leb128(128), vec![0x80, 0x01]);
    assert_eq!(encode_leb128(300), vec![0xAC, 0x02]);
    assert_eq!(encode_leb128(16384), vec![0x80, 0x80, 0x01]);
}

#[test]
fn test_string_encoding() {
    assert_eq!(encode_string(""), vec![0x00]);
    assert_eq!(encode_string("a"), vec![0x01, b'a']);
    assert_eq!(encode_string("hello"), vec![0x05, b'h', b'e', b'l', b'l', b'o']);
}

#[test]
fn test_color_parsing() {
    assert_eq!(parse_color("#000000").unwrap(), [0, 0, 0]);
    assert_eq!(parse_color("#FFFFFF").unwrap(), [255, 255, 255]);
    assert_eq!(parse_color("#FF0000").unwrap(), [255, 0, 0]);
    assert_eq!(parse_color("#00FF00").unwrap(), [0, 255, 0]);
    assert_eq!(parse_color("#0000FF").unwrap(), [0, 0, 255]);
    assert_eq!(parse_color("#123456").unwrap(), [0x12, 0x34, 0x56]);
}

#[test]
fn test_theme_none_encoding() {
    let encoded = encode_theme(None).unwrap();
    assert_eq!(encoded, vec![0x00]);
}

#[test]
fn test_output_event_encoding() {
    let encoded = encode_output(1, 1000, "hello");
    assert_eq!(encoded[0], EventType::Output.code());
    assert_eq!(encoded[1], 0x01); // id = 1
    assert_eq!(encoded[2], 0xE8); // rel_time = 1000
    assert_eq!(encoded[3], 0x07);
    assert_eq!(encoded[4], 0x05); // string length = 5
    assert_eq!(&encoded[5..], b"hello");
}

#[test]
fn test_resize_event_encoding() {
    let encoded = encode_resize(2, 500, 80, 24);
    assert_eq!(encoded[0], EventType::Resize.code());
    assert_eq!(encoded[1], 0x02); // id = 2
    assert_eq!(encoded[2], 0xF4); // rel_time = 500
    assert_eq!(encoded[3], 0x03);
    assert_eq!(encoded[4], 0x50); // cols = 80
    assert_eq!(encoded[5], 0x18); // rows = 24
}

#[test]
fn test_marker_event_encoding() {
    let encoded = encode_marker(3, 100, "chapter 1");
    assert_eq!(encoded[0], EventType::Marker.code());
    assert_eq!(encoded[1], 0x03); // id = 3
    assert_eq!(encoded[2], 0x64); // rel_time = 100
    assert_eq!(encoded[3], 0x09); // string length = 9
    assert_eq!(&encoded[4..], b"chapter 1");
}

#[test]
fn test_exit_event_encoding() {
    let encoded = encode_exit(4, 200, 0);
    assert_eq!(encoded[0], EventType::Exit.code());
    assert_eq!(encoded[1], 0x04); // id = 4
    assert_eq!(encoded[2], 0xC8); // rel_time = 200
    assert_eq!(encoded[3], 0x01);
    assert_eq!(encoded[4], 0x00); // status = 0
}

#[test]
fn test_eot_event_encoding() {
    let encoded = encode_eot(5, 300);
    assert_eq!(encoded[0], EventType::EOT.code());
    assert_eq!(encoded[1], 0x05); // id = 5
    assert_eq!(encoded[2], 0xAC); // rel_time = 300 (0xAC, 0x02 in LEB128)
    assert_eq!(encoded[3], 0x02);
    assert_eq!(encoded.len(), 4); // No data payload
}

#[test]
fn test_init_event_encoding() {
    let encoded = encode_init(0, 0, 80, 24, None, "test").unwrap();
    assert_eq!(encoded[0], EventType::Init.code());
    assert_eq!(encoded[1], 0x00); // last_id = 0
    assert_eq!(encoded[2], 0x00); // rel_time = 0
    assert_eq!(encoded[3], 0x50); // cols = 80
    assert_eq!(encoded[4], 0x18); // rows = 24
    assert_eq!(encoded[5], 0x00); // theme format = none
    assert_eq!(encoded[6], 0x04); // string length = 4
    assert_eq!(&encoded[7..], b"test");
}

#[test]
fn leb128_round_trips() {
    let values: [u64; 9] = [0, 1, 127, 128, 300, 16384, 1 << 35, (1 << 63) - 1, u64::MAX];
    for v in values {
        let bytes = encode_leb128(v);
        assert!(bytes.len() <= 10);
        assert_eq!(decode_leb128(&bytes), Some((v, bytes.len())));
    }
    assert_eq!(encode_leb128(u64::MAX).len(), 10);
}

#[test]
fn leb128_decode_stops_at_last_byte() {
    assert_eq!(decode_leb128(&[0xAC, 0x02, 0xFF]), Some((300, 2)));
    assert_eq!(decode_leb128(&[]), None);
    assert_eq!(decode_leb128(&[0x80, 0x80]), None);
    // Eleven bytes are refused even where the value is small.
    let mut long = vec![0x80u8; 10];
    long.push(0x00);
    assert_eq!(decode_leb128(&long), None);
    // Ten bytes whose value is past 64 bits.
    let mut big = vec![0xFFu8; 9];
    big.push(0x7F);
    assert_eq!(decode_leb128(&big), None);
}

#[test]
fn string_round_trips() {
    for s in ["", "a", "hello", "héllo wörld", "日本語", "\u{1F600} emoji", "line\nbreak"] {
        let bytes = encode_string(s);
        let (back, used) = decode_string(&bytes).unwrap();
        assert_eq!(back, s);
        assert_eq!(used, bytes.len());
    }
    let long = "x".repeat(300);
    let bytes = encode_string(&long);
    assert_eq!(&bytes[..2], &[0xAC, 0x02]);
    assert_eq!(decode_string(&bytes).unwrap().0, long);
}

#[test]
fn string_decode_refuses_bad_input() {
    assert_eq!(decode_string(&[0x05, b'a', b'b']), None);
    assert_eq!(decode_string(&[0x02, 0xFF, 0xFE]), None);
    assert_eq!(decode_string(&[0x01, b'a', b'z']), Some(("a".to_string(), 2)));
}

#[test]
fn color_errors() {
    assert_eq!(parse_color("#abc"), Err(ColorError::Format));
    assert_eq!(parse_color("zzzzzz"), Err(ColorError::Format));
    assert_eq!(parse_color("#zzzzzz"), Err(ColorError::Component));
    assert_eq!(parse_color(""), Err(ColorError::Format));
    assert_eq!(parse_color("#12345g"), Err(ColorError::Component));
    assert_eq!(parse_color("#+F+F+F"), Err(ColorError::Component));
    assert_eq!(parse_color("#abcdef"), Ok([0xAB, 0xCD, 0xEF]));
    assert_eq!(parse_color("#102030"), Ok([0x10, 0x20, 0x30]));
    assert_eq!(parse_color("##102030"), Err(ColorError::Format));
    assert_eq!(parse_color("102030"), Err(ColorError::Format));
    assert_eq!(parse_color("#1020304"), Err(ColorError::Format));
    assert_eq!(parse_color("#é02030"), Err(ColorError::Component));
}

#[test]
fn theme_with_short_palette_is_padded_to_eight() {
    let theme = Theme {
        fg: "#ffffff".to_string(),
        bg: "#000000".to_string(),
        palette: vec!["#010203".to_string(), "#a0b0c0".to_string()],
    };
    let encoded = encode_theme(Some(&theme)).unwrap();
    assert_eq!(encoded.len(), 1 + 6 + 8 * 3);
    assert_eq!(encoded[0], ThemeFormat::Palette8.code());
    assert_eq!(&encoded[1..7], &[0xFF, 0xFF, 0xFF, 0, 0, 0]);
    assert_eq!(&encoded[7..13], &[1, 2, 3, 0xA0, 0xB0, 0xC0]);
    assert!(encoded[13..].iter().all(|b| *b == 0));
}

#[test]
fn theme_with_long_palette_uses_sixteen() {
    let palette: Vec<String> = (0..20).map(|i| format!("#0000{:02x}", i)).collect();
    let theme = Theme { fg: "#111111".to_string(), bg: "#222222".to_string(), palette };
    let encoded = encode_theme(Some(&theme)).unwrap();
    assert_eq!(encoded.len(), 1 + 6 + 16 * 3);
    assert_eq!(encoded[0], ThemeFormat::Palette16.code());
    assert_eq!(&encoded[7 + 15 * 3..], &[0, 0, 15]);
}

#[test]
fn theme_without_palette_is_none() {
    let theme = Theme { fg: "bad".to_string(), bg: "#000000".to_string(), palette: vec![] };
    assert_eq!(encode_theme(Some(&theme)).unwrap(), vec![ThemeFormat::Absent.code()]);
}

#[test]
fn theme_reports_first_bad_color() {
    let theme = Theme {
        fg: "#ffffff".to_string(),
        bg: "#00000".to_string(),
        palette: vec!["#zzzzzz".to_string()],
    };
    assert_eq!(encode_theme(Some(&theme)), Err(ColorError::Format));
    let theme = Theme {
        fg: "#ffffff".to_string(),
        bg: "#000000".to_string(),
        palette: vec!["#zzzzzz".to_string()],
    };
    assert_eq!(encode_theme(Some(&theme)), Err(ColorError::Component));
    assert_eq!(encode_init(0, 0, 80, 24, Some(&theme), "x"), Err(ColorError::Component));
}

#[test]
fn alis_init_then_output_frames() {
    let init = encode_init(0, 0, 80, 24, None, "\x1b[H").unwrap();
    assert_eq!(&init[..6], &[0x01, 0x00, 0x00, 0x50, 0x18, 0x00]);
    assert_eq!(init[6], 3);
    assert_eq!(&init[7..], b"\x1b[H");
    let out = encode_output(1, 1500, "hi");
    assert_eq!(out, vec![0x6F, 0x01, 0xDC, 0x0B, 0x02, b'h', b'i']);
}

#[test]
fn input_and_negative_exit_frames() {
    assert_eq!(encode_input(7, 0, "ls"), vec![0x69, 0x07, 0x00, 0x02, b'l', b's']);
    let encoded = encode_exit(1, 0, -1);
    assert_eq!(&encoded[..3], &[0x78, 0x01, 0x00]);
    assert_eq!(decode_leb128(&encoded[3..]), Some((u64::MAX, 10)));
}

#[test]
fn magic_frame() {
    assert_eq!(alis_magic(), b"ALiS\x01".to_vec());
}
