//! The key bindings and their text form.
//!
//! The options file holds one assignment per line, `action=key`. Reading
//! starts from a set of bindings and takes the lines in order. A line
//! whose key is not known changes nothing; a line whose action is not
//! known changes nothing; a line without an equals sign ends the reading,
//! and what has been read up to there stands. A key without a name is
//! written as a word that names no key, so its binding is not read back.

use vstd::prelude::*;
use vstd::slice::slice_subrange;
use crate::keys::Action;
use crate::keys::Key;
use crate::keys::action_of;
use crate::keys::key_of;
use crate::keys::lemma_action_of_label;
use crate::keys::lemma_key_of_token;
use crate::keys::lemma_label_shape;
use crate::keys::lemma_token_shape;
use crate::keys::parse_action;
use crate::keys::parse_key;
use crate::text::EQUALS;
use crate::text::NEWLINE;
use crate::text::append;
use crate::text::find;
use crate::text::lemma_position;
use crate::text::lemma_position_is;
use crate::text::lemma_word_is_trimmed;
use crate::text::position;
use crate::text::trim;
use crate::text::trimmed;

verus! {

/// Which key each action is bound to.
#[derive(Clone, Copy, Debug, PartialEq, Eq, Structural)]
pub struct KeyBinds {
    pub forward: Key,
    pub backward: Key,
    pub left: Key,
    pub right: Key,
    pub jump: Key,
    pub sprint: Key,
    /// The key to descend with; it is not part of the options file.
    pub sneak: Key,
}

impl KeyBinds {
    /// The bindings that the game starts with.
    pub open spec fn standard() -> KeyBinds {
        KeyBinds {
            forward: Key::W,
            backward: Key::S,
            left: Key::A,
            right: Key::D,
            jump: Key::Space,
            sprint: Key::Space,
            sneak: Key::ShiftLeft,
        }
    }

    /// The key bound to `action`.
    pub open spec fn key(self, action: Action) -> Key {
        match action {
            Action::Forward => self.forward,
            Action::Backward => self.backward,
            Action::Left => self.left,
            Action::Right => self.right,
            Action::Jump => self.jump,
            Action::Sprint => self.sprint,
        }
    }

    /// These bindings with `action` bound to `key`.
    pub open spec fn with(self, action: Action, key: Key) -> KeyBinds {
        match action {
            Action::Forward => KeyBinds { forward: key, ..self },
            Action::Backward => KeyBinds { backward: key, ..self },
            Action::Left => KeyBinds { left: key, ..self },
            Action::Right => KeyBinds { right: key, ..self },
            Action::Jump => KeyBinds { jump: key, ..self },
            Action::Sprint => KeyBinds { sprint: key, ..self },
        }
    }

    /// The key bound to `action`.
    pub fn get(&self, action: Action) -> (r: Key)
        ensures
            r == self.key(action),
    {
        match action {
            Action::Forward => self.forward,
            Action::Backward => self.backward,
            Action::Left => self.left,
            Action::Right => self.right,
            Action::Jump => self.jump,
            Action::Sprint => self.sprint,
        }
    }

    /// Binds `action` to `key`.
    pub fn bind(&mut self, action: Action, key: Key)
        ensures
            *final(self) == old(self).with(action, key),
    {
        match action {
            Action::Forward => {
                self.forward = key;
            },
            Action::Backward => {
                self.backward = key;
            },
            Action::Left => {
                self.left = key;
            },
            Action::Right => {
                self.right = key;
            },
            Action::Jump => {
                self.jump = key;
            },
            Action::Sprint => {
                self.sprint = key;
            },
        }
    }

    /// Reads bindings from the text of an options file, starting from the
    /// standard bindings.
    pub fn parse(text: &[u8]) -> (r: KeyBinds)
        ensures
            r == parsed(text@, KeyBinds::standard()),
    {
        let mut binds: KeyBinds = KeyBinds::default();
        let mut rest: &[u8] = text;
        while rest.len() > 0
            invariant
                parsed(text@, KeyBinds::standard()) == parsed(rest@, binds),
            decreases rest@.len(),
        {
            let end: usize = find(rest, NEWLINE);
            let line: &[u8] = slice_subrange(rest, 0, end);
            assert(line@ == rest@.take(end as int));
            if !apply_line(line, &mut binds) {
                return binds;
            }
            let ghost whole = rest@;
            if end < rest.len() {
                rest = slice_subrange(rest, end + 1, rest.len());
            } else {
                rest = slice_subrange(rest, end, end);
            }
            assert(rest@ =~= after_line(whole));
        }
        binds
    }

    /// Writes the bindings as the text of an options file: one line per
    /// action, in the order of the actions.
    pub fn format(&self) -> (r: Vec<u8>)
        ensures
            r@ == formatted(*self),
    {
        let mut out: Vec<u8> = Vec::new();
        push_entry(&mut out, Action::Forward, self.forward);
        push_entry(&mut out, Action::Backward, self.backward);
        push_entry(&mut out, Action::Left, self.left);
        push_entry(&mut out, Action::Right, self.right);
        push_entry(&mut out, Action::Jump, self.jump);
        push_entry(&mut out, Action::Sprint, self.sprint);
        proof {
            let e = Seq::<u8>::empty();
            assert(out@ == e + entry(Action::Forward, self.forward) + entry(
                Action::Backward,
                self.backward,
            ) + entry(Action::Left, self.left) + entry(Action::Right, self.right) + entry(
                Action::Jump,
                self.jump,
            ) + entry(Action::Sprint, self.sprint));
            assert(out@ =~= formatted(*self));
        }
        out
    }
}

impl Default for KeyBinds {
    /// The bindings that the game starts with.
    fn default() -> (r: KeyBinds)
        ensures
            r == KeyBinds::standard(),
    {
        KeyBinds {
            forward: Key::W,
            backward: Key::S,
            left: Key::A,
            right: Key::D,
            jump: Key::Space,
            sprint: Key::Space,
            sneak: Key::ShiftLeft,
        }
    }
}

/// The text after the first newline of `text`, or nothing if `text` is a
/// single line.
pub open spec fn after_line(text: Seq<u8>) -> Seq<u8> {
    let end = position(text, NEWLINE);
    if end < text.len() {
        text.skip(end + 1)
    } else {
        Seq::empty()
    }
}

/// The value of a line: what stands between its first equals sign and its
/// second, or its end.
pub open spec fn value_of(line: Seq<u8>) -> Seq<u8> {
    let after = line.skip(position(line, EQUALS) + 1);
    after.take(position(after, EQUALS))
}

/// The bindings after one line, or `None` if the line has no equals sign.
///
/// The name before the equals sign is taken as it stands, the value after
/// it is trimmed. The binding changes if the name is an action's label and
/// the value a key's token.
pub open spec fn line_applied(line: Seq<u8>, binds: KeyBinds) -> Option<KeyBinds> {
    let eq = position(line, EQUALS);
    if eq >= line.len() {
        None
    } else {
        match (action_of(line.take(eq)), key_of(trimmed(value_of(line)))) {
            (Some(action), Some(key)) => Some(binds.with(action, key)),
            _ => Some(binds),
        }
    }
}

/// The bindings after every line of `text`, up to the first line without
/// an equals sign.
pub open spec fn parsed(text: Seq<u8>, binds: KeyBinds) -> KeyBinds
    decreases text.len(),
{
    if text.len() == 0 {
        binds
    } else {
        match line_applied(text.take(position(text, NEWLINE)), binds) {
            Some(next) => {
                proof {
                    lemma_position(text, NEWLINE);
                }
                parsed(after_line(text), next)
            },
            None => binds,
        }
    }
}

/// The line that binds `action` to `key`, with its newline.
pub open spec fn entry(action: Action, key: Key) -> Seq<u8> {
    action.label() + seq![EQUALS] + key.token() + seq![NEWLINE]
}

/// The text of an options file with the given bindings.
pub open spec fn formatted(binds: KeyBinds) -> Seq<u8> {
    entry(Action::Forward, binds.forward) + entry(Action::Backward, binds.backward) + entry(
        Action::Left,
        binds.left,
    ) + entry(Action::Right, binds.right) + entry(Action::Jump, binds.jump) + entry(
        Action::Sprint,
        binds.sprint,
    )
}

/// Applies one line to the bindings. Returns whether the line had an
/// equals sign; without one the bindings stay as they are.
pub fn apply_line(line: &[u8], binds: &mut KeyBinds) -> (ok: bool)
    ensures
        ok ==> line_applied(line@, *old(binds)) == Some(*final(binds)),
        !ok ==> line_applied(line@, *old(binds)) is None && *final(binds) == *old(binds),
{
    let eq: usize = find(line, EQUALS);
    if eq >= line.len() {
        return false;
    }
    let name: &[u8] = slice_subrange(line, 0, eq);
    let after: &[u8] = slice_subrange(line, eq + 1, line.len());
    let stop: usize = find(after, EQUALS);
    let value: &[u8] = trim(slice_subrange(after, 0, stop));
    assert(name@ == line@.take(eq as int));
    assert(after@ == line@.skip(eq + 1));
    assert(value@ == trimmed(value_of(line@)));
    match parse_key(value) {
        Some(key) => {
            match parse_action(name) {
                Some(action) => {
                    binds.bind(action, key);
                },
                None => {},
            }
        },
        None => {},
    }
    true
}

/// Appends the line that binds `action` to `key`.
fn push_entry(out: &mut Vec<u8>, action: Action, key: Key)
    ensures
        final(out)@ == old(out)@ + entry(action, key),
{
    append(out, action.name());
    out.push(EQUALS);
    append(out, key.name());
    out.push(NEWLINE);
    assert(out@ =~= old(out)@ + entry(action, key));
}

/// The bindings with `action` bound to `key` as far as the options file
/// can say so: a key without a name leaves the binding as it was.
pub open spec fn rebound(binds: KeyBinds, action: Action, key: Key) -> KeyBinds {
    if key.is_named() {
        binds.with(action, key)
    } else {
        binds
    }
}

/// What is read back from the text of `binds` when reading starts from
/// `start`: the named keys of `binds`, and the key of `start` wherever
/// `binds` has a key without a name. The key to descend with is not
/// written and stays as it was.
pub open spec fn read_back(binds: KeyBinds, start: KeyBinds) -> KeyBinds {
    KeyBinds {
        forward: rebound(start, Action::Forward, binds.forward).forward,
        backward: rebound(start, Action::Backward, binds.backward).backward,
        left: rebound(start, Action::Left, binds.left).left,
        right: rebound(start, Action::Right, binds.right).right,
        jump: rebound(start, Action::Jump, binds.jump).jump,
        sprint: rebound(start, Action::Sprint, binds.sprint).sprint,
        sneak: start.sneak,
    }
}

/// Reading the line written for `action` and `key` binds `action` to `key`
/// if the key has a name, and changes nothing if it has none; reading goes
/// on with what follows the line.
pub proof fn lemma_entry_is_read(action: Action, key: Key, rest: Seq<u8>, binds: KeyBinds)
    ensures
        parsed(entry(action, key) + rest, binds) == parsed(rest, rebound(binds, action, key)),
{
    let label = action.label();
    let token = key.token();
    let line = label + seq![EQUALS] + token;
    let text = entry(action, key) + rest;
    lemma_label_shape(action);
    lemma_token_shape(key);
    lemma_action_of_label(action);
    lemma_key_of_token(key);
    lemma_word_is_trimmed(token);
    let end = line.len() as int;
    assert forall|i: int| 0 <= i < end implies text[i] != NEWLINE by {
        if i < label.len() {
            assert(text[i] == label[i]);
        } else if i > label.len() {
            assert(text[i] == token[i - label.len() - 1]);
        }
    }
    lemma_position_is(text, NEWLINE, end);
    assert(text.take(end) =~= line);
    assert(after_line(text) =~= rest);
    let eq = label.len() as int;
    assert forall|i: int| 0 <= i < eq implies line[i] != EQUALS by {
        assert(line[i] == label[i]);
    }
    lemma_position_is(line, EQUALS, eq);
    assert(line.take(eq) =~= label);
    assert(line.skip(eq + 1) =~= token);
    lemma_position_is(token, EQUALS, token.len() as int);
    assert(token.take(token.len() as int) =~= token);
    assert(value_of(line) == token);
    assert(line_applied(line, binds) == Some(rebound(binds, action, key)));
}

/// The text of an options file, entry by entry.
proof fn lemma_formatted_unfolds(binds: KeyBinds)
    ensures
        formatted(binds) == entry(Action::Forward, binds.forward) + (entry(
            Action::Backward,
            binds.backward,
        ) + (entry(Action::Left, binds.left) + (entry(Action::Right, binds.right) + (entry(
            Action::Jump,
            binds.jump,
        ) + (entry(Action::Sprint, binds.sprint) + Seq::<u8>::empty()))))),
{
    let e1 = entry(Action::Forward, binds.forward);
    let e2 = entry(Action::Backward, binds.backward);
    let e3 = entry(Action::Left, binds.left);
    let e4 = entry(Action::Right, binds.right);
    let e5 = entry(Action::Jump, binds.jump);
    let e6 = entry(Action::Sprint, binds.sprint);
    let r6 = e6 + Seq::<u8>::empty();
    let r5 = e5 + r6;
    let r4 = e4 + r5;
    let r3 = e3 + r4;
    let r2 = e2 + r3;
    assert(r6 =~= e6);
    assert(r5 =~= e5 + e6);
    assert(r4 =~= e4 + e5 + e6);
    assert(r3 =~= e3 + e4 + e5 + e6);
    assert(r2 =~= e2 + e3 + e4 + e5 + e6);
    assert(e1 + r2 =~= e1 + e2 + e3 + e4 + e5 + e6);
}

/// Writing the bindings and reading them back gives the same binding for
/// every action whose key has a name, whatever the bindings that reading
/// starts from. An action whose key has no name keeps the binding that
/// reading started from, and so does the key to descend with, which is not
/// written.
pub proof fn lemma_round_trip(binds: KeyBinds, start: KeyBinds)
    ensures
        parsed(formatted(binds), start) == read_back(binds, start),
        forall|action: Action|
            parsed(formatted(binds), start).key(action) == if (#[trigger] binds.key(
                action,
            )).is_named() {
                binds.key(action)
            } else {
                start.key(action)
            },
{
    let e2 = entry(Action::Backward, binds.backward);
    let e3 = entry(Action::Left, binds.left);
    let e4 = entry(Action::Right, binds.right);
    let e5 = entry(Action::Jump, binds.jump);
    let e6 = entry(Action::Sprint, binds.sprint);
    let r6 = Seq::<u8>::empty();
    let r5 = e6 + r6;
    let r4 = e5 + r5;
    let r3 = e4 + r4;
    let r2 = e3 + r3;
    let r1 = e2 + r2;
    let b1 = rebound(start, Action::Forward, binds.forward);
    let b2 = rebound(b1, Action::Backward, binds.backward);
    let b3 = rebound(b2, Action::Left, binds.left);
    let b4 = rebound(b3, Action::Right, binds.right);
    let b5 = rebound(b4, Action::Jump, binds.jump);
    let b6 = rebound(b5, Action::Sprint, binds.sprint);
    lemma_formatted_unfolds(binds);
    lemma_entry_is_read(Action::Forward, binds.forward, r1, start);
    lemma_entry_is_read(Action::Backward, binds.backward, r2, b1);
    lemma_entry_is_read(Action::Left, binds.left, r3, b2);
    lemma_entry_is_read(Action::Right, binds.right, r4, b3);
    lemma_entry_is_read(Action::Jump, binds.jump, r5, b4);
    lemma_entry_is_read(Action::Sprint, binds.sprint, r6, b5);
    assert(parsed(r6, b6) == b6);
    assert(parsed(formatted(binds), start) == b6);
    assert(b6 == read_back(binds, start));
}

/// A line whose value is no key's token leaves every binding as it was.
pub proof fn lemma_unknown_key_changes_nothing(line: Seq<u8>, binds: KeyBinds)
    requires
        position(line, EQUALS) < line.len(),
        key_of(trimmed(value_of(line))) is None,
    ensures
        line_applied(line, binds) == Some(binds),
{
}

/// A line without an equals sign ends the reading: the bindings read up
/// to it stand, and nothing after it is read.
pub proof fn lemma_malformed_line_ends_reading(text: Seq<u8>, binds: KeyBinds)
    requires
        text.len() > 0,
        forall|i: int| 0 <= i < position(text, NEWLINE) ==> text[i] != EQUALS,
    ensures
        parsed(text, binds) == binds,
{
    let line = text.take(position(text, NEWLINE));
    lemma_position(text, NEWLINE);
    assert forall|i: int| 0 <= i < line.len() implies line[i] != EQUALS by {
        assert(line[i] == text[i]);
    }
    lemma_position_is(line, EQUALS, line.len() as int);
}

} // verus!
