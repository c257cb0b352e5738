use minceraft::keys::parse_action;
use minceraft::keys::parse_key;
use minceraft::keys::Action;
use minceraft::keys::Key;
use minceraft::options::apply_line;
use minceraft::options::KeyBinds;
use minceraft::text::find;
use minceraft::text::same_bytes;
use minceraft::text::trim;

fn standard() -> KeyBinds {
    KeyBinds {
        forward: Key::W,
        backward: Key::S,
        left: Key::A,
        right: Key::D,
        jump: Key::Space,
        sprint: Key::Space,
        sneak: Key::ShiftLeft,
    }
}

fn all_keys() -> Vec<Key> {
    (0..28).map(|i| Key::from_index(i).unwrap()).collect()
}

fn all_actions() -> Vec<Action> {
    (0..6).map(|i| Action::from_index(i).unwrap()).collect()
}

#[test]
fn the_standard_bindings() {
    assert_eq!(KeyBinds::default(), standard());
}

#[test]
fn keys_are_written_with_their_prefix() {
    assert_eq!(Key::A.name(), "KeyCode::A".as_bytes());
    assert_eq!(Key::W.name(), "KeyCode::W".as_bytes());
    assert_eq!(Key::Z.name(), "KeyCode::Z".as_bytes());
    assert_eq!(Key::Space.name(), "KeyCode::Space".as_bytes());
    assert_eq!(Key::ShiftLeft.name(), "KeyCode::LeftShift".as_bytes());
    for (i, letter) in ('A'..='Z').enumerate() {
        let key = Key::from_index(i as u8).unwrap();
        assert_eq!(key.name(), format!("KeyCode::{}", letter).as_bytes());
        assert_eq!(key.index() as usize, i);
    }
    assert_eq!(Key::Space.index(), 26);
    assert_eq!(Key::ShiftLeft.index(), 27);
    assert_eq!(Key::Other(0).index(), 28);
    assert_eq!(Key::Other(7).name(), "KeyCode::Other".as_bytes());
    assert!(Key::Q.has_name());
    assert!(!Key::Other(7).has_name());
    assert_eq!(Key::from_index(28), None);
    assert_eq!(Key::from_index(255), None);
}

#[test]
fn every_key_is_read_back_from_its_name() {
    for key in all_keys() {
        assert_eq!(parse_key(key.name()), Some(key));
    }
    assert_eq!(parse_key("W".as_bytes()), None);
    assert_eq!(parse_key("KeyCode::".as_bytes()), None);
    assert_eq!(parse_key("KeyCode::w".as_bytes()), None);
    assert_eq!(parse_key("KeyCode::ShiftLeft".as_bytes()), None);
    assert_eq!(parse_key("KeyCode::Escape".as_bytes()), None);
    assert_eq!(parse_key("KeyCode::Other".as_bytes()), None);
    assert_eq!(parse_key(Key::Other(3).name()), None);
    assert_eq!(parse_key("KeyCode::AA".as_bytes()), None);
    assert_eq!(parse_key(" KeyCode::A".as_bytes()), None);
    assert_eq!(parse_key("".as_bytes()), None);
}

#[test]
fn every_action_is_read_back_from_its_name() {
    let names = ["forward", "backward", "strafe_left", "strafe_right", "jump", "sprint"];
    for (action, name) in all_actions().into_iter().zip(names) {
        assert_eq!(action.name(), name.as_bytes());
        assert_eq!(parse_action(name.as_bytes()), Some(action));
    }
    assert_eq!(Action::Sprint.index(), 5);
    assert_eq!(Action::from_index(6), None);
    assert_eq!(parse_action("sneak".as_bytes()), None);
    assert_eq!(parse_action("Forward".as_bytes()), None);
    assert_eq!(parse_action("forward ".as_bytes()), None);
    assert_eq!(parse_action("".as_bytes()), None);
}

#[test]
fn bytes_are_searched_trimmed_and_compared() {
    assert_eq!(find("a=b=c".as_bytes(), 61), 1);
    assert_eq!(find("abc".as_bytes(), 61), 3);
    assert_eq!(find("".as_bytes(), 61), 0);
    assert_eq!(find("=".as_bytes(), 61), 0);
    assert_eq!(trim(" \t a b \r\n".as_bytes()), "a b".as_bytes());
    assert_eq!(trim("\x0b\x0cab".as_bytes()), "ab".as_bytes());
    assert_eq!(trim("   ".as_bytes()), "".as_bytes());
    assert_eq!(trim("".as_bytes()), "".as_bytes());
    assert_eq!(trim("ab".as_bytes()), "ab".as_bytes());
    assert_eq!(trim("\x08ab\x0e".as_bytes()), "\x08ab\x0e".as_bytes());
    let blanks = "\u{85}\u{a0}\u{1680}\u{2000}\u{2005}\u{200a}\u{2028}\u{2029}\u{202f}\u{205f}\u{3000}";
    assert_eq!(trim(format!("{}a b{}", blanks, blanks).as_bytes()), "a b".as_bytes());
    assert_eq!(trim(blanks.as_bytes()), "".as_bytes());
    let inner = "a\u{a0}b";
    assert_eq!(trim(format!(" {}\u{3000}", inner).as_bytes()), inner.as_bytes());
    for other in ["\u{200b}", "\u{180e}", "\u{feff}", "\u{e9}", "\u{2060}"] {
        let text = format!("{}ab{}", other, other);
        assert_eq!(trim(text.as_bytes()), text.as_bytes());
        assert_eq!(trim(text.as_bytes()), text.trim().as_bytes());
    }
    for code in 0..0x3100u32 {
        if let Some(c) = char::from_u32(code) {
            let text = format!("{}x{}", c, c);
            assert_eq!(trim(text.as_bytes()), text.trim().as_bytes(), "{:x}", code);
        }
    }
    assert!(same_bytes("ab".as_bytes(), "ab".as_bytes()));
    assert!(!same_bytes("ab".as_bytes(), "abc".as_bytes()));
    assert!(!same_bytes("ab".as_bytes(), "ac".as_bytes()));
    assert!(same_bytes("".as_bytes(), "".as_bytes()));
}

#[test]
fn the_standard_bindings_as_text() {
    let text = standard().format();
    let expected = "forward=KeyCode::W\nbackward=KeyCode::S\nstrafe_left=KeyCode::A\nstrafe_right=KeyCode::D\njump=KeyCode::Space\nsprint=KeyCode::Space\n";
    assert_eq!(String::from_utf8(text).unwrap(), expected);
}

#[test]
fn written_bindings_are_read_back() {
    let keys = all_keys();
    for (i, key) in keys.iter().enumerate() {
        let binds = KeyBinds {
            forward: *key,
            backward: keys[(i + 1) % 28],
            left: keys[(i + 5) % 28],
            right: keys[(i + 11) % 28],
            jump: keys[(i + 17) % 28],
            sprint: keys[(i + 23) % 28],
            sneak: keys[(i + 3) % 28],
        };
        let read = KeyBinds::parse(&binds.format());
        assert_eq!(read, KeyBinds { sneak: Key::ShiftLeft, ..binds });
        for action in all_actions() {
            assert_eq!(read.get(action), binds.get(action));
        }
    }
}

#[test]
fn a_key_without_a_name_is_written_but_not_read_back() {
    let binds = KeyBinds { forward: Key::Other(2), jump: Key::Other(9), ..standard() };
    let text = binds.format();
    let expected = "forward=KeyCode::Other\nbackward=KeyCode::S\nstrafe_left=KeyCode::A\nstrafe_right=KeyCode::D\njump=KeyCode::Other\nsprint=KeyCode::Space\n";
    assert_eq!(String::from_utf8(text.clone()).unwrap(), expected);
    assert_eq!(KeyBinds::parse(&text), standard());
    let binds = KeyBinds { forward: Key::Other(2), backward: Key::X, sneak: Key::Other(1), ..standard() };
    assert_eq!(KeyBinds::parse(&binds.format()), KeyBinds { backward: Key::X, ..standard() });
}

#[test]
fn values_are_trimmed_of_every_white_space() {
    let text = "forward=\u{a0}KeyCode::I\u{3000}\r\njump=\u{2003} KeyCode::J\u{85}\nsprint=\u{200b}KeyCode::L\n";
    let read = KeyBinds::parse(text.as_bytes());
    assert_eq!(read, KeyBinds { forward: Key::I, jump: Key::J, ..standard() });
}

#[test]
fn an_empty_file_gives_the_standard_bindings() {
    assert_eq!(KeyBinds::parse("".as_bytes()), standard());
}

#[test]
fn an_unknown_key_leaves_the_binding_alone() {
    let text = "forward=KeyCode::Escape\nbackward=KeyCode::X\njump=W\nsprint=KeyCode::Q\n";
    let read = KeyBinds::parse(text.as_bytes());
    assert_eq!(read, KeyBinds { backward: Key::X, sprint: Key::Q, ..standard() });
}

#[test]
fn an_unknown_action_is_passed_over() {
    let text = "sneak=KeyCode::C\nbackwards=KeyCode::X\n=KeyCode::Y\nleft=KeyCode::B\njump=KeyCode::J\n";
    assert_eq!(KeyBinds::parse(text.as_bytes()), KeyBinds { jump: Key::J, ..standard() });
}

#[test]
fn a_line_without_equals_ends_the_reading() {
    let text = "forward=KeyCode::I\nbackward=KeyCode::K\nnonsense\nstrafe_left=KeyCode::J\n";
    let read = KeyBinds::parse(text.as_bytes());
    assert_eq!(read, KeyBinds { forward: Key::I, backward: Key::K, ..standard() });
    let blank = "forward=KeyCode::I\n\nbackward=KeyCode::K\n";
    assert_eq!(KeyBinds::parse(blank.as_bytes()), KeyBinds { forward: Key::I, ..standard() });
    let first = "nonsense\nforward=KeyCode::I\n";
    assert_eq!(KeyBinds::parse(first.as_bytes()), standard());
}

#[test]
fn values_are_trimmed_and_names_are_not() {
    let text = "forward= \tKeyCode::I \r\n backward=KeyCode::K\nstrafe_left =KeyCode::J\njump=KeyCode ::J\nsprint=KeyCode::L";
    let read = KeyBinds::parse(text.as_bytes());
    assert_eq!(read, KeyBinds { forward: Key::I, sprint: Key::L, ..standard() });
}

#[test]
fn what_follows_a_second_equals_sign_is_ignored() {
    let text = "forward=KeyCode::I=KeyCode::O\nbackward==KeyCode::K\njump=KeyCode::J =\n";
    let read = KeyBinds::parse(text.as_bytes());
    assert_eq!(read, KeyBinds { forward: Key::I, jump: Key::J, ..standard() });
}

#[test]
fn later_lines_win() {
    let text = "jump=KeyCode::J\njump=KeyCode::U\njump=KeyCode::Nothing\n";
    assert_eq!(KeyBinds::parse(text.as_bytes()), KeyBinds { jump: Key::U, ..standard() });
}

#[test]
fn one_line_is_applied_to_the_bindings() {
    let mut binds = standard();
    assert!(apply_line("sprint=KeyCode::LeftShift".as_bytes(), &mut binds));
    assert_eq!(binds, KeyBinds { sprint: Key::ShiftLeft, ..standard() });
    assert!(apply_line("sprint=KeyCode::".as_bytes(), &mut binds));
    assert_eq!(binds, KeyBinds { sprint: Key::ShiftLeft, ..standard() });
    assert!(!apply_line("sprint".as_bytes(), &mut binds));
    assert_eq!(binds, KeyBinds { sprint: Key::ShiftLeft, ..standard() });
    assert!(!apply_line("".as_bytes(), &mut binds));
}

#[test]
fn bindings_are_set_and_read_by_action() {
    let mut binds = standard();
    binds.bind(Action::Left, Key::Q);
    binds.bind(Action::Jump, Key::J);
    assert_eq!(binds, KeyBinds { left: Key::Q, jump: Key::J, ..standard() });
    assert_eq!(binds.get(Action::Forward), Key::W);
    assert_eq!(binds.get(Action::Backward), Key::S);
    assert_eq!(binds.get(Action::Left), Key::Q);
    assert_eq!(binds.get(Action::Right), Key::D);
    assert_eq!(binds.get(Action::Jump), Key::J);
    assert_eq!(binds.get(Action::Sprint), Key::Space);
}
