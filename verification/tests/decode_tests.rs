use tui_core::event::{EventKind, KeyCode, Modifiers};
use tui_core::parse::{decode_byte, decode_bytes, parse_event, parse_modifiers};

#[test]
fn bare_escape_decodes_to_escape_key() {
    let r = parse_event(&[0x1b]);
    assert!(matches!(
        r,
        Some(EventKind::Key(k)) if k.key_code == KeyCode::Escape && k.modifiers.is_empty()
    ));
}

#[test]
fn double_escape_decodes_to_escape_key() {
    let r = parse_event(&[0x1b, 0x1b]);
    assert!(matches!(
        r,
        Some(EventKind::Key(k)) if k.key_code == KeyCode::Escape && k.modifiers.is_empty()
    ));
}

#[test]
fn csi_a_decodes_to_up_without_modifiers() {
    let r = parse_event(b"\x1b[A");
    assert!(matches!(
        r,
        Some(EventKind::Key(k)) if k.key_code == KeyCode::Up && k.modifiers.is_empty()
    ));
}

#[test]
fn ctrl_c_byte_decodes_to_ctrl_char() {
    let r = parse_event(&[0x03]);
    assert!(matches!(
        r,
        Some(EventKind::Key(k)) if k.key_code == KeyCode::Char('C') && k.modifiers == Modifiers::ctrl()
    ));
}

#[test]
fn single_multibyte_char_decodes_to_that_char() {
    let bytes = "é".as_bytes();
    assert!(bytes.len() >= 2);
    let r = parse_event(bytes);
    assert!(matches!(
        r,
        Some(EventKind::Key(k)) if k.key_code == KeyCode::Char('é') && k.modifiers.is_empty()
    ));
}

#[test]
fn two_ascii_bytes_decode_to_pasted_string() {
    let r = parse_event(b"hi");
    assert!(matches!(r, Some(EventKind::String(s)) if s == "hi"));
}

#[test]
fn escape_bracket_alone_is_alt_bracket() {
    let r = parse_event(b"\x1b[");
    assert!(matches!(
        r,
        Some(EventKind::Key(k)) if k.key_code == KeyCode::Char('[') && k.modifiers == Modifiers::alt()
    ));
}

#[test]
fn vt_sequences_map_through_the_fixed_table() {
    let cases: [(&[u8], KeyCode); 8] = [
        (b"\x1b[1~", KeyCode::Home),
        (b"\x1b[2~", KeyCode::Insert),
        (b"\x1b[3~", KeyCode::Delete),
        (b"\x1b[4~", KeyCode::End),
        (b"\x1b[5~", KeyCode::PageUp),
        (b"\x1b[6~", KeyCode::PageDown),
        (b"\x1b[11~", KeyCode::Fn(1)),
        (b"\x1b[21~", KeyCode::Fn(10)),
    ];
    for (bytes, code) in cases {
        let r = parse_event(bytes);
        assert!(
            matches!(r, Some(EventKind::Key(k)) if k.key_code == code && k.modifiers.is_empty())
        );
    }
}

#[test]
fn vt_code_sixteen_is_skipped() {
    assert!(parse_event(b"\x1b[16~").is_none());
}

#[test]
fn vt_sequence_with_modifier_parameter() {
    let r = parse_event(b"\x1b[3;5~");
    assert!(matches!(
        r,
        Some(EventKind::Key(k)) if k.key_code == KeyCode::Delete && k.modifiers == Modifiers::ctrl()
    ));
}

#[test]
fn xterm_sequence_with_modifier_parameter() {
    let r = parse_event(b"\x1b[1;5A");
    assert!(matches!(
        r,
        Some(EventKind::Key(k)) if k.key_code == KeyCode::Up && k.modifiers == Modifiers::ctrl()
    ));
}

#[test]
fn xterm_letters_map_through_the_fixed_table() {
    let cases: [(&[u8], KeyCode); 6] = [
        (b"\x1b[B", KeyCode::Down),
        (b"\x1b[C", KeyCode::Right),
        (b"\x1b[D", KeyCode::Left),
        (b"\x1b[F", KeyCode::End),
        (b"\x1b[H", KeyCode::Home),
        (b"\x1b[P", KeyCode::Fn(1)),
    ];
    for (bytes, code) in cases {
        let r = parse_event(bytes);
        assert!(
            matches!(r, Some(EventKind::Key(k)) if k.key_code == code && k.modifiers.is_empty())
        );
    }
}

#[test]
fn lone_byte_after_escape_gains_alt() {
    let r = parse_event(b"\x1bx");
    assert!(matches!(
        r,
        Some(EventKind::Key(k)) if k.key_code == KeyCode::Char('x') && k.modifiers == Modifiers::alt()
    ));
}

#[test]
fn control_bytes_decode_to_named_keys() {
    assert_eq!(decode_byte(b'\t').key_code, KeyCode::Tab);
    assert_eq!(decode_byte(b'\n').key_code, KeyCode::Newline);
    assert_eq!(decode_byte(b'\r').key_code, KeyCode::Return);
    assert_eq!(decode_byte(0x7f).key_code, KeyCode::Backspace);
    let ctrl_backspace = decode_byte(0x17);
    assert_eq!(ctrl_backspace.key_code, KeyCode::Backspace);
    assert_eq!(ctrl_backspace.modifiers, Modifiers::ctrl());
}

#[test]
fn empty_chunk_is_undecodable() {
    assert!(parse_event(&[]).is_none());
    assert!(decode_bytes(&[]).is_none());
}

#[test]
fn invalid_utf8_is_undecodable() {
    assert!(parse_event(&[0xff, 0xfe]).is_none());
}

#[test]
fn modifier_parameters_are_one_based_and_masked() {
    assert_eq!(parse_modifiers(b"1"), Some(Modifiers::empty()));
    assert_eq!(parse_modifiers(b"2"), Some(Modifiers::shift()));
    assert_eq!(parse_modifiers(b"3"), Some(Modifiers::alt()));
    assert_eq!(parse_modifiers(b"5"), Some(Modifiers::ctrl()));
    assert_eq!(parse_modifiers(b"9"), Some(Modifiers::meta()));
    // 7 - 1 = 6 = ALT | CTRL
    assert_eq!(parse_modifiers(b"7"), Some(Modifiers::alt().union(Modifiers::ctrl())));
    assert!(parse_modifiers(b"").is_none());
    assert!(parse_modifiers(b"x1").is_none());
    assert!(parse_modifiers(b"300").is_none());
    // masked to the defined bits: 18 - 1 = 17, & 0x0f = 1 = SHIFT
    assert_eq!(parse_modifiers(b"18"), Some(Modifiers::shift()));
}
