use termassist::config::{KeyCode, KeyEvent, KeyMods};
use termassist::input::key_to_bytes;

fn ev(code: KeyCode, mods: KeyMods) -> KeyEvent {
    KeyEvent::new(code, mods)
}

#[test]
fn plain_chars() {
    assert_eq!(key_to_bytes(ev(KeyCode::Char('a'), KeyMods::none()), false), Some(b"a".to_vec()));
    assert_eq!(key_to_bytes(ev(KeyCode::Char('A'), KeyMods::shift()), false), Some(b"A".to_vec()));
    assert_eq!(key_to_bytes(ev(KeyCode::Char('é'), KeyMods::none()), false), Some("é".as_bytes().to_vec()));
}

#[test]
fn ctrl_and_alt_chars() {
    assert_eq!(key_to_bytes(ev(KeyCode::Char('c'), KeyMods::control()), false), Some(vec![0x03]));
    assert_eq!(key_to_bytes(ev(KeyCode::Char('x'), KeyMods::alt()), false), Some(b"\x1bx".to_vec()));
}

#[test]
fn special_keys() {
    assert_eq!(key_to_bytes(ev(KeyCode::Enter, KeyMods::none()), false), Some(vec![b'\r']));
    assert_eq!(key_to_bytes(ev(KeyCode::Backspace, KeyMods::none()), false), Some(vec![0x7f]));
    assert_eq!(key_to_bytes(ev(KeyCode::Up, KeyMods::none()), false), Some(b"\x1b[A".to_vec()));
    assert_eq!(key_to_bytes(ev(KeyCode::Up, KeyMods::none()), true), Some(b"\x1bOA".to_vec()));
    assert_eq!(key_to_bytes(ev(KeyCode::Up, KeyMods::control()), false), Some(b"\x1b[1;5A".to_vec()));
    assert_eq!(key_to_bytes(ev(KeyCode::PageDown, KeyMods::none()), false), Some(b"\x1b[6~".to_vec()));
    assert_eq!(key_to_bytes(ev(KeyCode::F(1), KeyMods::none()), false), Some(b"\x1bOP".to_vec()));
    assert_eq!(key_to_bytes(ev(KeyCode::BackTab, KeyMods::shift()), false), Some(b"\x1b[Z".to_vec()));
}

#[test]
fn more_key_encodings() {
    let ca = KeyMods::control().union(KeyMods::alt());
    assert_eq!(key_to_bytes(ev(KeyCode::Char('A'), KeyMods::control()), false), Some(vec![0x01]));
    assert_eq!(key_to_bytes(ev(KeyCode::Char('b'), ca), false), Some(vec![0x1b, 0x02]));
    assert_eq!(key_to_bytes(ev(KeyCode::Char(' '), KeyMods::control()), false), Some(vec![0x00]));
    assert_eq!(key_to_bytes(ev(KeyCode::Char('?'), KeyMods::control()), false), Some(vec![0x7f]));
    assert_eq!(key_to_bytes(ev(KeyCode::Char('1'), KeyMods::control()), false), None);
    assert_eq!(key_to_bytes(ev(KeyCode::Tab, KeyMods::none()), false), Some(vec![b'\t']));
    assert_eq!(key_to_bytes(ev(KeyCode::Esc, KeyMods::none()), false), Some(vec![0x1b]));
    assert_eq!(key_to_bytes(ev(KeyCode::Home, KeyMods::none()), true), Some(b"\x1bOH".to_vec()));
    assert_eq!(key_to_bytes(ev(KeyCode::End, KeyMods::shift()), false), Some(b"\x1b[1;2F".to_vec()));
    assert_eq!(key_to_bytes(ev(KeyCode::Left, ca), false), Some(b"\x1b[1;7D".to_vec()));
    assert_eq!(key_to_bytes(ev(KeyCode::Delete, KeyMods::none()), false), Some(b"\x1b[3~".to_vec()));
    assert_eq!(key_to_bytes(ev(KeyCode::Insert, KeyMods::shift()), false), Some(b"\x1b[2;2~".to_vec()));
    assert_eq!(key_to_bytes(ev(KeyCode::F(2), KeyMods::control()), false), Some(b"\x1b[1;5Q".to_vec()));
    assert_eq!(key_to_bytes(ev(KeyCode::F(5), KeyMods::none()), false), Some(b"\x1b[15~".to_vec()));
    assert_eq!(key_to_bytes(ev(KeyCode::F(11), KeyMods::none()), false), Some(b"\x1b[23~".to_vec()));
    assert_eq!(key_to_bytes(ev(KeyCode::F(12), KeyMods::alt()), false), Some(b"\x1b[24;3~".to_vec()));
    assert_eq!(key_to_bytes(ev(KeyCode::F(13), KeyMods::none()), false), None);
    assert_eq!(key_to_bytes(ev(KeyCode::Other, KeyMods::none()), false), None);
    assert_eq!(key_to_bytes(ev(KeyCode::Char('€'), KeyMods::alt()), false), Some(vec![0x1b, 0xe2, 0x82, 0xac]));
}
