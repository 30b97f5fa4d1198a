use userland::tools::{
    darken, fbtest_scene, glyph, hex_byte, key_event_line, keysym_to_char, lighten, read_filename, str_w1, str_w2,
    trim_crlf, viewer_filename, NameError,
};

fn buf(s: &[u8]) -> Vec<u8> {
    let mut v = s.to_vec();
    v.resize(256, 0);
    v
}

#[test]
fn trim_crlf_drops_line_ends() {
    assert_eq!(trim_crlf(b"abc\r\n", 5), 3);
    assert_eq!(trim_crlf(b"abc\r\n", 4), 3);
    assert_eq!(trim_crlf(b"\n\n", 2), 0);
    assert_eq!(trim_crlf(b"a b ", 4), 4);
}

#[test]
fn copy_tool_names() {
    let line = buf(b"notes.txt\r\n");
    let name = read_filename(&line, 11).unwrap();
    assert_eq!(&name[..9], b"notes.txt");
    assert!(name[9..].iter().all(|&b| b == 0));
    assert!(read_filename(&line, 0).is_none());
    assert!(read_filename(&line, -11).is_none());
    let long = buf(&[b'x'; 40]);
    assert!(read_filename(&long, 40).is_none());
    assert!(read_filename(&long, 32).is_none());
    assert!(read_filename(&long, 31).is_some());
    // An empty name is accepted by the copy tool.
    assert_eq!(read_filename(&buf(b"\n"), 1), Some([0u8; 32]));
}

#[test]
fn viewer_names() {
    assert_eq!(viewer_filename(&buf(b"a\n"), -1), Err(NameError::NoInput));
    assert_eq!(viewer_filename(&buf(b"\r\n"), 2), Err(NameError::BadName));
    assert_eq!(viewer_filename(&buf(&[b'y'; 40]), 40), Err(NameError::BadName));
    let name = viewer_filename(&buf(b"readme\n"), 7).unwrap();
    assert_eq!(&name[..7], b"readme\0");
}

#[test]
fn key_symbols() {
    assert_eq!(keysym_to_char(0x41), Some('A'));
    assert_eq!(keysym_to_char(0x20), Some(' '));
    assert_eq!(keysym_to_char(0xe9), Some('é'));
    assert_eq!(keysym_to_char(0x7f), None);
    assert_eq!(keysym_to_char(0xff0d), None);
}

#[test]
fn input_report() {
    assert_eq!(hex_byte(0x1c), *b"1C");
    assert_eq!(hex_byte(0x00), *b"00");
    assert_eq!(hex_byte(0xff), *b"FF");
    assert_eq!(key_event_line(0x1c, true), b"[inputtest] key=0x1C dn\r\n".to_vec());
    assert_eq!(key_event_line(0x01, false), b"[inputtest] key=0x01 up\r\n".to_vec());
}

#[test]
fn test_picture() {
    let v = fbtest_scene(1920, 1080);
    assert_eq!(v.len(), 10);
    assert_eq!(v[0], (0, 0, 1920, 1080, 0xFF1A0A2E));
    assert_eq!(v[2], (800, 450, 320, 180, 0xFF00C800));
    assert_eq!(v[3], (796, 446, 328, 4, 0xFFFFFFFF));
    assert_eq!(v[8], (1904, 1064, 16, 16, 0xFF0096FF));
    assert_eq!(v[9], (0, 1076, 1920, 4, 0xFF2D1B69));
    let small = fbtest_scene(100, 50);
    assert_eq!(small[2], (0, 0, 320, 180, 0xFF00C800));
}

#[test]
fn text_and_colours() {
    assert_eq!(str_w1("abc"), 15);
    assert_eq!(str_w2("abc"), 27);
    let mut table = [0u32; 95];
    table[33] = 0x099F96;
    assert_eq!(glyph(b'A', &table), 0x099F96);
    assert_eq!(glyph(10, &table), 0);
    assert_eq!(darken(0xFF_20_05_80, 0x10), 0x10_00_70);
    assert_eq!(lighten(0xFF_F8_05_80, 0x10), 0xFF_15_90);
}
