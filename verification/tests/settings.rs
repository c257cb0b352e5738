use minceraft::keys::Action;
use minceraft::keys::Key;
use minceraft::options::KeyBinds;
use minceraft::settings::GameSettings;
use minceraft::settings::MenuInput;
use minceraft::settings::INITIAL_FOV;
use minceraft::settings::MAX_FOV;
use minceraft::settings::MIN_FOV;

fn nothing() -> MenuInput {
    MenuInput { toggle_keystrokes: false, pressed: None, chosen: None }
}

#[test]
fn the_settings_at_the_start() {
    let settings = GameSettings::new(KeyBinds::default());
    assert_eq!(settings.fov, 100);
    assert!(settings.show_keystrokes);
    assert_eq!(settings.keybinds, KeyBinds::default());
    assert_eq!(settings.currently_binding, None);
    assert_eq!((INITIAL_FOV, MIN_FOV, MAX_FOV), (100, 30, 140));
}

#[test]
fn the_field_of_view_moves_by_one_degree_within_its_range() {
    let mut settings = GameSettings::new(KeyBinds::default());
    assert!(settings.adjust_fov(true, false));
    assert_eq!(settings.fov, 101);
    assert!(settings.adjust_fov(false, true));
    assert!(settings.adjust_fov(false, true));
    assert_eq!(settings.fov, 99);
    assert!(settings.adjust_fov(true, true));
    assert_eq!(settings.fov, 99);
    assert!(!settings.adjust_fov(false, false));
    assert_eq!(settings.fov, 99);
    for _ in 0..100 {
        settings.adjust_fov(true, false);
    }
    assert_eq!(settings.fov, 140);
    settings.adjust_fov(true, true);
    assert_eq!(settings.fov, 139);
    for _ in 0..200 {
        settings.adjust_fov(false, true);
    }
    assert_eq!(settings.fov, 30);
    settings.adjust_fov(true, true);
    assert_eq!(settings.fov, 30);
}

#[test]
fn a_field_of_view_out_of_range_comes_back() {
    let mut settings = GameSettings::new(KeyBinds::default());
    settings.fov = u32::MAX;
    settings.adjust_fov(true, false);
    assert_eq!(settings.fov, 140);
    settings.fov = 0;
    settings.adjust_fov(false, true);
    assert_eq!(settings.fov, 30);
}

#[test]
fn the_keystroke_display_is_switched() {
    let mut settings = GameSettings::new(KeyBinds::default());
    let toggle = MenuInput { toggle_keystrokes: true, ..nothing() };
    assert!(!settings.pause_menu(&toggle));
    assert!(!settings.show_keystrokes);
    assert!(!settings.pause_menu(&nothing()));
    assert!(!settings.show_keystrokes);
    assert!(!settings.pause_menu(&toggle));
    assert!(settings.show_keystrokes);
}

#[test]
fn a_chosen_action_takes_the_next_key() {
    let mut settings = GameSettings::new(KeyBinds::default());
    assert!(!settings.pause_menu(&MenuInput { pressed: Some(Key::Q), ..nothing() }));
    assert_eq!(settings.keybinds, KeyBinds::default());
    assert!(!settings.pause_menu(&MenuInput { chosen: Some(Action::Left), ..nothing() }));
    assert_eq!(settings.currently_binding, Some(Action::Left));
    assert!(!settings.pause_menu(&nothing()));
    assert_eq!(settings.currently_binding, Some(Action::Left));
    let press = MenuInput { pressed: Some(Key::Q), chosen: Some(Action::Jump), ..nothing() };
    assert!(settings.pause_menu(&press));
    assert_eq!(settings.keybinds, KeyBinds { left: Key::Q, ..KeyBinds::default() });
    assert_eq!(settings.currently_binding, None);
    assert!(!settings.pause_menu(&press));
    assert_eq!(settings.currently_binding, Some(Action::Jump));
    assert_eq!(settings.keybinds, KeyBinds { left: Key::Q, ..KeyBinds::default() });
}

#[test]
fn a_later_choice_replaces_an_earlier_one() {
    let mut settings = GameSettings::new(KeyBinds::default());
    settings.pause_menu(&MenuInput { chosen: Some(Action::Forward), ..nothing() });
    settings.pause_menu(&MenuInput { chosen: Some(Action::Sprint), ..nothing() });
    assert_eq!(settings.currently_binding, Some(Action::Sprint));
    let both = MenuInput { toggle_keystrokes: true, pressed: Some(Key::K), chosen: None };
    assert!(settings.pause_menu(&both));
    assert_eq!(settings.keybinds, KeyBinds { sprint: Key::K, ..KeyBinds::default() });
    assert!(!settings.show_keystrokes);
}

#[test]
fn a_number_key_is_bound_while_an_action_waits() {
    let two = Key::Other(2);
    let mut settings = GameSettings::new(KeyBinds::default());
    settings.currently_binding = Some(Action::Forward);
    let input = MenuInput { toggle_keystrokes: false, pressed: Some(two), chosen: Some(Action::Backward) };
    assert!(settings.pause_menu(&input));
    assert_eq!(settings.keybinds, KeyBinds { forward: two, ..KeyBinds::default() });
    assert_eq!(settings.currently_binding, None);
    assert!(!settings.pause_menu(&input));
    assert_eq!(settings.currently_binding, Some(Action::Backward));
    assert_eq!(settings.keybinds, KeyBinds { forward: two, ..KeyBinds::default() });
}
