//! The settings that the pause menu changes: field of view, the
//! keystroke display, and the key bindings.

use vstd::prelude::*;
use crate::keys::Action;
use crate::keys::Key;
use crate::options::KeyBinds;

verus! {

/// Field of view that the game starts with, in degrees.
pub const INITIAL_FOV: u32 = 100;

/// Narrowest field of view that the menu goes down to, in degrees.
pub const MIN_FOV: u32 = 30;

/// Widest field of view that the menu goes up to, in degrees.
pub const MAX_FOV: u32 = 140;

/// The settings of the game.
#[derive(Clone, Copy, Debug, PartialEq, Eq, Structural)]
pub struct GameSettings {
    /// Field of view, in degrees.
    pub fov: u32,
    pub show_keystrokes: bool,
    pub keybinds: KeyBinds,
    /// The action that the next key pressed in the pause menu is bound to.
    pub currently_binding: Option<Action>,
}

/// What the pause menu gets from the keyboard in one tick.
#[derive(Clone, Copy, Debug, PartialEq, Eq, Structural)]
pub struct MenuInput {
    /// The key that switches the keystroke display went down.
    pub toggle_keystrokes: bool,
    /// A key that went down in this tick, if any.
    pub pressed: Option<Key>,
    /// The action whose number key went down, if any.
    pub chosen: Option<Action>,
}

/// The field of view one step wider, up to the widest.
pub open spec fn widened(fov: u32) -> u32 {
    if fov >= MAX_FOV {
        MAX_FOV
    } else {
        (fov + 1) as u32
    }
}

/// The field of view one step narrower, down to the narrowest.
pub open spec fn narrowed(fov: u32) -> u32 {
    if fov <= MIN_FOV {
        MIN_FOV
    } else {
        (fov - 1) as u32
    }
}

/// The field of view after a tick with the given keys held: widened first,
/// then narrowed.
pub open spec fn adjusted_fov(fov: u32, up: bool, down: bool) -> u32 {
    let raised = if up {
        widened(fov)
    } else {
        fov
    };
    if down {
        narrowed(raised)
    } else {
        raised
    }
}

/// Whether a tick of the pause menu binds a key: an action is waiting for
/// one and a key went down.
pub open spec fn binds_key(s: GameSettings, input: MenuInput) -> bool {
    s.currently_binding is Some && input.pressed is Some
}

/// The settings after one tick of the pause menu.
///
/// The keystroke display is switched first. Then, if an action waits for a
/// key and a key went down, the key is bound and nothing waits any more;
/// otherwise a chosen action starts to wait for its key.
pub open spec fn after_menu(s: GameSettings, input: MenuInput) -> GameSettings {
    let show = s.show_keystrokes != input.toggle_keystrokes;
    if binds_key(s, input) {
        GameSettings {
            show_keystrokes: show,
            keybinds: s.keybinds.with(s.currently_binding->0, input.pressed->0),
            currently_binding: None,
            ..s
        }
    } else {
        GameSettings {
            show_keystrokes: show,
            currently_binding: if input.chosen is Some {
                input.chosen
            } else {
                s.currently_binding
            },
            ..s
        }
    }
}

impl GameSettings {
    /// The settings that the game starts with, around the given bindings.
    pub fn new(keybinds: KeyBinds) -> (r: GameSettings)
        ensures
            r == (GameSettings {
                fov: INITIAL_FOV,
                show_keystrokes: true,
                keybinds,
                currently_binding: None,
            }),
    {
        GameSettings { fov: INITIAL_FOV, show_keystrokes: true, keybinds, currently_binding: None }
    }

    /// Changes the field of view by the keys held in this tick and says
    /// whether either key was held.
    pub fn adjust_fov(&mut self, up: bool, down: bool) -> (changed: bool)
        ensures
            *final(self) == (GameSettings { fov: adjusted_fov(old(self).fov, up, down), ..*old(self) }),
            changed == (up || down),
    {
        if up {
            self.fov = if self.fov >= MAX_FOV {
                MAX_FOV
            } else {
                self.fov + 1
            };
        }
        if down {
            self.fov = if self.fov <= MIN_FOV {
                MIN_FOV
            } else {
                self.fov - 1
            };
        }
        up || down
    }

    /// Runs one tick of the pause menu and says whether a key was bound,
    /// so that the bindings are to be saved.
    pub fn pause_menu(&mut self, input: &MenuInput) -> (save: bool)
        ensures
            *final(self) == after_menu(*old(self), *input),
            save == binds_key(*old(self), *input),
    {
        if input.toggle_keystrokes {
            self.show_keystrokes = !self.show_keystrokes;
        }
        match (self.currently_binding, input.pressed) {
            (Some(action), Some(key)) => {
                self.keybinds.bind(action, key);
                self.currently_binding = None;
                true
            },
            _ => {
                match input.chosen {
                    Some(action) => {
                        self.currently_binding = Some(action);
                    },
                    None => {},
                }
                false
            },
        }
    }
}

/// The field of view stays between the narrowest and the widest once it is
/// there.
pub proof fn lemma_fov_stays_in_range(fov: u32, up: bool, down: bool)
    requires
        MIN_FOV <= fov <= MAX_FOV,
    ensures
        MIN_FOV <= adjusted_fov(fov, up, down) <= MAX_FOV,
{
}

} // verus!
