//! Keys, the actions they are bound to, and how both are written in the
//! options file.

use vstd::prelude::*;
use vstd::string::StringSliceAdditionalSpecFns;
use vstd::string::is_ascii_spec_bytes;
use crate::text::is_word;
use crate::text::same_bytes;

verus! {

/// A key of the keyboard.
///
/// The letters, the space bar and the left shift key have a name in the
/// options file. Every other key is held by the number that the caller
/// knows it by, and has no name there.
#[derive(Clone, Copy, Debug, PartialEq, Eq, Hash, Structural)]
pub enum Key {
    A,
    B,
    C,
    D,
    E,
    F,
    G,
    H,
    I,
    J,
    K,
    L,
    M,
    N,
    O,
    P,
    Q,
    R,
    S,
    T,
    U,
    V,
    W,
    X,
    Y,
    Z,
    Space,
    ShiftLeft,
    Other(u32),
}

/// An action that a key can be bound to in the options file.
#[derive(Clone, Copy, Debug, PartialEq, Eq, Hash, Structural)]
pub enum Action {
    Forward,
    Backward,
    Left,
    Right,
    Jump,
    Sprint,
}

/// Number of keys with a name in the options file.
pub const KEY_COUNT: u8 = 28;

/// Number of actions.
pub const ACTION_COUNT: u8 = 6;

impl Key {
    /// Whether the key has a name in the options file.
    pub open spec fn is_named(self) -> bool {
        !(self is Other)
    }

    /// Position of the key in the list of named keys; the number of named
    /// keys for a key without a name.
    pub open spec fn ordinal(self) -> int {
        match self {
            Key::A => 0,
            Key::B => 1,
            Key::C => 2,
            Key::D => 3,
            Key::E => 4,
            Key::F => 5,
            Key::G => 6,
            Key::H => 7,
            Key::I => 8,
            Key::J => 9,
            Key::K => 10,
            Key::L => 11,
            Key::M => 12,
            Key::N => 13,
            Key::O => 14,
            Key::P => 15,
            Key::Q => 16,
            Key::R => 17,
            Key::S => 18,
            Key::T => 19,
            Key::U => 20,
            Key::V => 21,
            Key::W => 22,
            Key::X => 23,
            Key::Y => 24,
            Key::Z => 25,
            Key::Space => 26,
            Key::ShiftLeft => 27,
            Key::Other(_) => 28,
        }
    }

    /// What is written for the key in the options file. For a key without
    /// a name it is a word that names no key.
    pub open spec fn token(self) -> Seq<u8> {
        match self {
            Key::A => "KeyCode::A".spec_bytes(),
            Key::B => "KeyCode::B".spec_bytes(),
            Key::C => "KeyCode::C".spec_bytes(),
            Key::D => "KeyCode::D".spec_bytes(),
            Key::E => "KeyCode::E".spec_bytes(),
            Key::F => "KeyCode::F".spec_bytes(),
            Key::G => "KeyCode::G".spec_bytes(),
            Key::H => "KeyCode::H".spec_bytes(),
            Key::I => "KeyCode::I".spec_bytes(),
            Key::J => "KeyCode::J".spec_bytes(),
            Key::K => "KeyCode::K".spec_bytes(),
            Key::L => "KeyCode::L".spec_bytes(),
            Key::M => "KeyCode::M".spec_bytes(),
            Key::N => "KeyCode::N".spec_bytes(),
            Key::O => "KeyCode::O".spec_bytes(),
            Key::P => "KeyCode::P".spec_bytes(),
            Key::Q => "KeyCode::Q".spec_bytes(),
            Key::R => "KeyCode::R".spec_bytes(),
            Key::S => "KeyCode::S".spec_bytes(),
            Key::T => "KeyCode::T".spec_bytes(),
            Key::U => "KeyCode::U".spec_bytes(),
            Key::V => "KeyCode::V".spec_bytes(),
            Key::W => "KeyCode::W".spec_bytes(),
            Key::X => "KeyCode::X".spec_bytes(),
            Key::Y => "KeyCode::Y".spec_bytes(),
            Key::Z => "KeyCode::Z".spec_bytes(),
            Key::Space => "KeyCode::Space".spec_bytes(),
            Key::ShiftLeft => "KeyCode::LeftShift".spec_bytes(),
            Key::Other(_) => "KeyCode::Other".spec_bytes(),
        }
    }

    /// Whether the key has a name in the options file.
    pub fn has_name(self) -> (r: bool)
        ensures
            r == self.is_named(),
    {
        match self {
            Key::Other(_) => false,
            _ => true,
        }
    }

    /// Position of the key in the list of named keys; the number of named
    /// keys for a key without a name.
    pub fn index(self) -> (r: u8)
        ensures
            r == self.ordinal(),
            r <= KEY_COUNT,
            r < KEY_COUNT <==> self.is_named(),
    {
        match self {
            Key::A => 0,
            Key::B => 1,
            Key::C => 2,
            Key::D => 3,
            Key::E => 4,
            Key::F => 5,
            Key::G => 6,
            Key::H => 7,
            Key::I => 8,
            Key::J => 9,
            Key::K => 10,
            Key::L => 11,
            Key::M => 12,
            Key::N => 13,
            Key::O => 14,
            Key::P => 15,
            Key::Q => 16,
            Key::R => 17,
            Key::S => 18,
            Key::T => 19,
            Key::U => 20,
            Key::V => 21,
            Key::W => 22,
            Key::X => 23,
            Key::Y => 24,
            Key::Z => 25,
            Key::Space => 26,
            Key::ShiftLeft => 27,
            Key::Other(_) => 28,
        }
    }

    /// The named key at position `i` of the list of named keys.
    pub fn from_index(i: u8) -> (r: Option<Key>)
        ensures
            r is Some <==> i < KEY_COUNT,
            r matches Some(k) ==> k.ordinal() == i && k.is_named(),
    {
        match i {
            0 => Some(Key::A),
            1 => Some(Key::B),
            2 => Some(Key::C),
            3 => Some(Key::D),
            4 => Some(Key::E),
            5 => Some(Key::F),
            6 => Some(Key::G),
            7 => Some(Key::H),
            8 => Some(Key::I),
            9 => Some(Key::J),
            10 => Some(Key::K),
            11 => Some(Key::L),
            12 => Some(Key::M),
            13 => Some(Key::N),
            14 => Some(Key::O),
            15 => Some(Key::P),
            16 => Some(Key::Q),
            17 => Some(Key::R),
            18 => Some(Key::S),
            19 => Some(Key::T),
            20 => Some(Key::U),
            21 => Some(Key::V),
            22 => Some(Key::W),
            23 => Some(Key::X),
            24 => Some(Key::Y),
            25 => Some(Key::Z),
            26 => Some(Key::Space),
            27 => Some(Key::ShiftLeft),
            _ => None,
        }
    }

    /// What is written for the key in the options file.
    pub fn name(self) -> (r: &'static [u8])
        ensures
            r@ == self.token(),
    {
        match self {
            Key::A => "KeyCode::A".as_bytes(),
            Key::B => "KeyCode::B".as_bytes(),
            Key::C => "KeyCode::C".as_bytes(),
            Key::D => "KeyCode::D".as_bytes(),
            Key::E => "KeyCode::E".as_bytes(),
            Key::F => "KeyCode::F".as_bytes(),
            Key::G => "KeyCode::G".as_bytes(),
            Key::H => "KeyCode::H".as_bytes(),
            Key::I => "KeyCode::I".as_bytes(),
            Key::J => "KeyCode::J".as_bytes(),
            Key::K => "KeyCode::K".as_bytes(),
            Key::L => "KeyCode::L".as_bytes(),
            Key::M => "KeyCode::M".as_bytes(),
            Key::N => "KeyCode::N".as_bytes(),
            Key::O => "KeyCode::O".as_bytes(),
            Key::P => "KeyCode::P".as_bytes(),
            Key::Q => "KeyCode::Q".as_bytes(),
            Key::R => "KeyCode::R".as_bytes(),
            Key::S => "KeyCode::S".as_bytes(),
            Key::T => "KeyCode::T".as_bytes(),
            Key::U => "KeyCode::U".as_bytes(),
            Key::V => "KeyCode::V".as_bytes(),
            Key::W => "KeyCode::W".as_bytes(),
            Key::X => "KeyCode::X".as_bytes(),
            Key::Y => "KeyCode::Y".as_bytes(),
            Key::Z => "KeyCode::Z".as_bytes(),
            Key::Space => "KeyCode::Space".as_bytes(),
            Key::ShiftLeft => "KeyCode::LeftShift".as_bytes(),
            Key::Other(_) => "KeyCode::Other".as_bytes(),
        }
    }
}

impl Action {
    /// Position of the action in the list of actions.
    pub open spec fn ordinal(self) -> int {
        match self {
            Action::Forward => 0,
            Action::Backward => 1,
            Action::Left => 2,
            Action::Right => 3,
            Action::Jump => 4,
            Action::Sprint => 5,
        }
    }

    /// The action's name in the options file.
    pub open spec fn label(self) -> Seq<u8> {
        match self {
            Action::Forward => "forward".spec_bytes(),
            Action::Backward => "backward".spec_bytes(),
            Action::Left => "strafe_left".spec_bytes(),
            Action::Right => "strafe_right".spec_bytes(),
            Action::Jump => "jump".spec_bytes(),
            Action::Sprint => "sprint".spec_bytes(),
        }
    }

    /// Position of the action in the list of actions.
    pub fn index(self) -> (r: u8)
        ensures
            r == self.ordinal(),
            r < ACTION_COUNT,
    {
        match self {
            Action::Forward => 0,
            Action::Backward => 1,
            Action::Left => 2,
            Action::Right => 3,
            Action::Jump => 4,
            Action::Sprint => 5,
        }
    }

    /// The action at position `i` of the list of actions.
    pub fn from_index(i: u8) -> (r: Option<Action>)
        ensures
            r is Some <==> i < ACTION_COUNT,
            r matches Some(a) ==> a.ordinal() == i,
    {
        match i {
            0 => Some(Action::Forward),
            1 => Some(Action::Backward),
            2 => Some(Action::Left),
            3 => Some(Action::Right),
            4 => Some(Action::Jump),
            5 => Some(Action::Sprint),
            _ => None,
        }
    }

    /// The action's name in the options file.
    pub fn name(self) -> (r: &'static [u8])
        ensures
            r@ == self.label(),
    {
        match self {
            Action::Forward => "forward".as_bytes(),
            Action::Backward => "backward".as_bytes(),
            Action::Left => "strafe_left".as_bytes(),
            Action::Right => "strafe_right".as_bytes(),
            Action::Jump => "jump".as_bytes(),
            Action::Sprint => "sprint".as_bytes(),
        }
    }
}

/// Whether `k` is the key that `token` names.
pub open spec fn names(token: Seq<u8>, k: Key) -> bool {
    k.is_named() && k.token() == token
}

/// The key that `token` names, if it names one.
pub open spec fn key_of(token: Seq<u8>) -> Option<Key> {
    if exists|k: Key| names(token, k) {
        Some(choose|k: Key| names(token, k))
    } else {
        None
    }
}

/// The action that `label` names, if it names one.
pub open spec fn action_of(label: Seq<u8>) -> Option<Action> {
    if exists|a: Action| #[trigger] a.label() == label {
        Some(choose|a: Action| #[trigger] a.label() == label)
    } else {
        None
    }
}

/// Length of what is written for a key.
pub open spec fn token_length(k: Key) -> int {
    match k {
        Key::Space => 14,
        Key::ShiftLeft => 18,
        Key::Other(_) => 14,
        _ => 10,
    }
}

/// The byte that follows the prefix in what is written for a key: the
/// letter of a letter key, the initial of the other words.
pub open spec fn token_initial(k: Key) -> int {
    match k {
        Key::Space => 83,
        Key::ShiftLeft => 76,
        Key::Other(_) => 79,
        _ => 65 + k.ordinal(),
    }
}

/// What is written for a key is a word of known length and initial.
pub proof fn lemma_token_shape(k: Key)
    ensures
        is_word(k.token()),
        k.token().len() == token_length(k),
        k.token()[9] == token_initial(k),
{
    match k {
        Key::A => {
            reveal_strlit("KeyCode::A");
            is_ascii_spec_bytes("KeyCode::A");
        },
        Key::B => {
            reveal_strlit("KeyCode::B");
            is_ascii_spec_bytes("KeyCode::B");
        },
        Key::C => {
            reveal_strlit("KeyCode::C");
            is_ascii_spec_bytes("KeyCode::C");
        },
        Key::D => {
            reveal_strlit("KeyCode::D");
            is_ascii_spec_bytes("KeyCode::D");
        },
        Key::E => {
            reveal_strlit("KeyCode::E");
            is_ascii_spec_bytes("KeyCode::E");
        },
        Key::F => {
            reveal_strlit("KeyCode::F");
            is_ascii_spec_bytes("KeyCode::F");
        },
        Key::G => {
            reveal_strlit("KeyCode::G");
            is_ascii_spec_bytes("KeyCode::G");
        },
        Key::H => {
            reveal_strlit("KeyCode::H");
            is_ascii_spec_bytes("KeyCode::H");
        },
        Key::I => {
            reveal_strlit("KeyCode::I");
            is_ascii_spec_bytes("KeyCode::I");
        },
        Key::J => {
            reveal_strlit("KeyCode::J");
            is_ascii_spec_bytes("KeyCode::J");
        },
        Key::K => {
            reveal_strlit("KeyCode::K");
            is_ascii_spec_bytes("KeyCode::K");
        },
        Key::L => {
            reveal_strlit("KeyCode::L");
            is_ascii_spec_bytes("KeyCode::L");
        },
        Key::M => {
            reveal_strlit("KeyCode::M");
            is_ascii_spec_bytes("KeyCode::M");
        },
        Key::N => {
            reveal_strlit("KeyCode::N");
            is_ascii_spec_bytes("KeyCode::N");
        },
        Key::O => {
            reveal_strlit("KeyCode::O");
            is_ascii_spec_bytes("KeyCode::O");
        },
        Key::P => {
            reveal_strlit("KeyCode::P");
            is_ascii_spec_bytes("KeyCode::P");
        },
        Key::Q => {
            reveal_strlit("KeyCode::Q");
            is_ascii_spec_bytes("KeyCode::Q");
        },
        Key::R => {
            reveal_strlit("KeyCode::R");
            is_ascii_spec_bytes("KeyCode::R");
        },
        Key::S => {
            reveal_strlit("KeyCode::S");
            is_ascii_spec_bytes("KeyCode::S");
        },
        Key::T => {
            reveal_strlit("KeyCode::T");
            is_ascii_spec_bytes("KeyCode::T");
        },
        Key::U => {
            reveal_strlit("KeyCode::U");
            is_ascii_spec_bytes("KeyCode::U");
        },
        Key::V => {
            reveal_strlit("KeyCode::V");
            is_ascii_spec_bytes("KeyCode::V");
        },
        Key::W => {
            reveal_strlit("KeyCode::W");
            is_ascii_spec_bytes("KeyCode::W");
        },
        Key::X => {
            reveal_strlit("KeyCode::X");
            is_ascii_spec_bytes("KeyCode::X");
        },
        Key::Y => {
            reveal_strlit("KeyCode::Y");
            is_ascii_spec_bytes("KeyCode::Y");
        },
        Key::Z => {
            reveal_strlit("KeyCode::Z");
            is_ascii_spec_bytes("KeyCode::Z");
        },
        Key::Space => {
            reveal_strlit("KeyCode::Space");
            is_ascii_spec_bytes("KeyCode::Space");
        },
        Key::ShiftLeft => {
            reveal_strlit("KeyCode::LeftShift");
            is_ascii_spec_bytes("KeyCode::LeftShift");
        },
        Key::Other(_) => {
            reveal_strlit("KeyCode::Other");
            is_ascii_spec_bytes("KeyCode::Other");
        },
    }
}

/// No two named keys share a name, and what is written for a key without
/// a name is no key's name.
pub proof fn lemma_tokens_differ(j: Key, k: Key)
    requires
        j.is_named(),
        j.token() == k.token(),
    ensures
        j == k,
{
    lemma_token_shape(j);
    lemma_token_shape(k);
}

/// What is written for a named key names that key; what is written for a
/// key without a name names none.
pub proof fn lemma_key_of_token(k: Key)
    ensures
        k.is_named() ==> key_of(k.token()) == Some(k),
        !k.is_named() ==> key_of(k.token()) is None,
{
    if exists|j: Key| names(k.token(), j) {
        let j = choose|j: Key| names(k.token(), j);
        lemma_tokens_differ(j, k);
    }
    if k.is_named() {
        assert(names(k.token(), k));
    }
}

/// Every label is a word of its own length.
pub proof fn lemma_label_shape(a: Action)
    ensures
        is_word(a.label()),
        a.label().len() == match a {
            Action::Forward => 7int,
            Action::Backward => 8int,
            Action::Left => 11int,
            Action::Right => 12int,
            Action::Jump => 4int,
            Action::Sprint => 6int,
        },
{
    match a {
        Action::Forward => {
            reveal_strlit("forward");
            is_ascii_spec_bytes("forward");
        },
        Action::Backward => {
            reveal_strlit("backward");
            is_ascii_spec_bytes("backward");
        },
        Action::Left => {
            reveal_strlit("strafe_left");
            is_ascii_spec_bytes("strafe_left");
        },
        Action::Right => {
            reveal_strlit("strafe_right");
            is_ascii_spec_bytes("strafe_right");
        },
        Action::Jump => {
            reveal_strlit("jump");
            is_ascii_spec_bytes("jump");
        },
        Action::Sprint => {
            reveal_strlit("sprint");
            is_ascii_spec_bytes("sprint");
        },
    }
}

/// No two actions share a label.
pub proof fn lemma_labels_differ(a: Action, b: Action)
    requires
        a.label() == b.label(),
    ensures
        a == b,
{
    lemma_label_shape(a);
    lemma_label_shape(b);
}

/// An action's label names that action.
pub proof fn lemma_action_of_label(a: Action)
    ensures
        action_of(a.label()) == Some(a),
{
    let b = choose|b: Action| #[trigger] b.label() == a.label();
    lemma_labels_differ(b, a);
}

/// The key that `token` names, if it names one.
pub fn parse_key(token: &[u8]) -> (r: Option<Key>)
    ensures
        r == key_of(token@),
        r matches Some(k) ==> k.is_named(),
{
    let mut i: u8 = 0;
    while i < KEY_COUNT
        invariant
            0 <= i <= KEY_COUNT,
            forall|k: Key| k.ordinal() < i ==> !names(token@, k),
        decreases KEY_COUNT - i,
    {
        match Key::from_index(i) {
            Some(k) => {
                if same_bytes(k.name(), token) {
                    proof {
                        lemma_key_of_token(k);
                    }
                    return Some(k);
                }
                assert forall|j: Key| j.ordinal() < i + 1 implies !names(token@, j) by {
                    if j.ordinal() == i {
                        assert(j == k);
                    }
                }
            },
            None => {},
        }
        i = i + 1;
    }
    assert forall|k: Key| !names(token@, k) by {
        if k.is_named() {
            assert(k.ordinal() < KEY_COUNT);
        }
    }
    None
}

/// The action that `label` names, if it names one.
pub fn parse_action(label: &[u8]) -> (r: Option<Action>)
    ensures
        r == action_of(label@),
{
    let mut i: u8 = 0;
    while i < ACTION_COUNT
        invariant
            0 <= i <= ACTION_COUNT,
            forall|a: Action| a.ordinal() < i ==> #[trigger] a.label() != label@,
        decreases ACTION_COUNT - i,
    {
        match Action::from_index(i) {
            Some(a) => {
                if same_bytes(a.name(), label) {
                    proof {
                        lemma_action_of_label(a);
                    }
                    return Some(a);
                }
                assert forall|b: Action| b.ordinal() < i + 1 implies #[trigger] b.label()
                    != label@ by {
                    if b.ordinal() == i {
                        assert(b == a);
                    }
                }
            },
            None => {},
        }
        i = i + 1;
    }
    assert forall|a: Action| #[trigger] a.label() != label@ by {
        assert(a.ordinal() < ACTION_COUNT);
    }
    None
}

} // verus!
