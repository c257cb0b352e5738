use minceraft::height::HeightField;
use minceraft::mode::apply_keys;
use minceraft::mode::loading_tick;
use minceraft::mode::step;
use minceraft::mode::toggle_pause;
use minceraft::mode::Effect;
use minceraft::mode::Event;
use minceraft::mode::GameMode;
use minceraft::world::VoxelWorld;
use minceraft::world::WORLD_SIZE;

const ENTER_PLAY: [Effect; 4] = [
    Effect::CapturePointer,
    Effect::ClearLoadingScreen,
    Effect::ClearPauseMenu,
    Effect::ShowCrosshair,
];

const MODES: [GameMode; 4] =
    [GameMode::MainMenu, GameMode::Loading, GameMode::Playing, GameMode::Paused];

#[test]
fn the_game_starts_in_the_main_menu() {
    assert_eq!(GameMode::initial(), GameMode::MainMenu);
}

#[test]
fn start_leaves_the_main_menu_only() {
    let t = step(GameMode::MainMenu, Event::Start);
    assert_eq!(t.mode, GameMode::Loading);
    assert_eq!(t.effects, vec![Effect::ClearMainMenu]);
    for mode in [GameMode::Loading, GameMode::Playing, GameMode::Paused] {
        let t = step(mode, Event::Start);
        assert_eq!(t.mode, mode);
        assert!(t.effects.is_empty());
    }
}

#[test]
fn a_loaded_world_starts_play() {
    let t = step(GameMode::Loading, Event::Loaded);
    assert_eq!(t.mode, GameMode::Playing);
    assert_eq!(t.effects, ENTER_PLAY.to_vec());
    for mode in [GameMode::MainMenu, GameMode::Playing, GameMode::Paused] {
        let t = step(mode, Event::Loaded);
        assert_eq!(t.mode, mode);
        assert!(t.effects.is_empty());
    }
}

#[test]
fn the_pause_key_switches_between_play_and_pause() {
    let t = step(GameMode::Playing, Event::PauseKey);
    assert_eq!(t.mode, GameMode::Paused);
    assert_eq!(t.effects, vec![Effect::ReleasePointer]);
    let t = step(GameMode::Paused, Event::PauseKey);
    assert_eq!(t.mode, GameMode::Playing);
    assert_eq!(t.effects, ENTER_PLAY.to_vec());
    for mode in [GameMode::MainMenu, GameMode::Loading] {
        let t = step(mode, Event::PauseKey);
        assert_eq!(t.mode, mode);
        assert!(t.effects.is_empty());
    }
}

#[test]
fn regeneration_works_in_every_mode() {
    for mode in MODES {
        let t = step(mode, Event::Regenerate { seed: 77 });
        assert_eq!(t.mode, mode);
        assert_eq!(t.effects, vec![Effect::RegenerateWorld { seed: 77 }]);
    }
}

#[test]
fn the_chord_comes_before_the_pause_key() {
    let t = apply_keys(GameMode::Playing, true, true, true, 5);
    assert_eq!(t.mode, GameMode::Playing);
    assert_eq!(t.effects, vec![Effect::RegenerateWorld { seed: 5 }]);
    let t = apply_keys(GameMode::Playing, true, false, true, 5);
    assert_eq!(t.mode, GameMode::Paused);
    let t = apply_keys(GameMode::Playing, false, true, true, 5);
    assert_eq!(t.mode, GameMode::Paused);
    let t = apply_keys(GameMode::Playing, false, true, false, 5);
    assert_eq!(t.mode, GameMode::Playing);
    assert!(t.effects.is_empty());
    let t = apply_keys(GameMode::Paused, false, false, false, 5);
    assert_eq!(t.mode, GameMode::Paused);
    assert!(t.effects.is_empty());
}

#[test]
fn toggle_pause_without_the_chord_needs_no_seed() {
    let t = toggle_pause(GameMode::Playing, false, false, true);
    assert_eq!(t.mode, GameMode::Paused);
    assert_eq!(t.effects, vec![Effect::ReleasePointer]);
    let t = toggle_pause(GameMode::Paused, true, false, true);
    assert_eq!(t.mode, GameMode::Playing);
    assert_eq!(t.effects, ENTER_PLAY.to_vec());
    let t = toggle_pause(GameMode::MainMenu, false, false, true);
    assert_eq!(t.mode, GameMode::MainMenu);
    assert!(t.effects.is_empty());
    let t = toggle_pause(GameMode::Playing, false, true, false);
    assert_eq!(t.mode, GameMode::Playing);
    assert!(t.effects.is_empty());
}

#[test]
fn the_chord_asks_for_a_world_from_a_fresh_seed() {
    let mut seeds = Vec::new();
    for mode in MODES {
        for pause in [false, true] {
            for _ in 0..4 {
                let t = toggle_pause(mode, true, true, pause);
                assert_eq!(t.mode, mode);
                assert_eq!(t.effects.len(), 1);
                match t.effects[0] {
                    Effect::RegenerateWorld { seed } => seeds.push(seed),
                    other => panic!("unexpected effect {:?}", other),
                }
            }
        }
    }
    assert_eq!(seeds.len(), 32);
    assert!(seeds.iter().any(|s| *s != seeds[0]));
}

#[test]
fn loading_runs_until_the_world_is_complete() {
    let count = (WORLD_SIZE * WORLD_SIZE) as usize;
    let mut world = VoxelWorld::begin(HeightField::new(WORLD_SIZE, vec![0; count]).unwrap());
    let mut mode = GameMode::Loading;
    let mut ticks = 0;
    while mode == GameMode::Loading {
        let t = loading_tick(mode, &mut world);
        ticks += 1;
        if t.mode == GameMode::Loading {
            assert!(t.effects.is_empty());
            assert_eq!(world.progress().blocks_completed(), ticks * 100);
        } else {
            assert_eq!(t.mode, GameMode::Playing);
            assert_eq!(t.effects, ENTER_PLAY.to_vec());
        }
        mode = t.mode;
    }
    assert_eq!(ticks, 164);
    assert!(world.complete());
    assert_eq!(world.len(), count * 6);
}

#[test]
fn nothing_loads_outside_the_loading_mode() {
    for mode in [GameMode::MainMenu, GameMode::Playing, GameMode::Paused] {
        let mut world = VoxelWorld::begin(HeightField::new(2, vec![0; 4]).unwrap());
        let t = loading_tick(mode, &mut world);
        assert_eq!(t.mode, mode);
        assert!(t.effects.is_empty());
        assert_eq!(world.len(), 0);
        assert_eq!(world.progress().blocks_completed(), 0);
    }
}

#[test]
fn the_pointer_is_captured_in_play_only() {
    assert!(GameMode::Playing.captures_pointer());
    assert!(!GameMode::MainMenu.captures_pointer());
    assert!(!GameMode::Loading.captures_pointer());
    assert!(!GameMode::Paused.captures_pointer());
}

#[test]
fn modes_have_labels() {
    assert_eq!(GameMode::MainMenu.label(), "Main Menu");
    assert_eq!(GameMode::Loading.label(), "Loading");
    assert_eq!(GameMode::Playing.label(), "In Game");
    assert_eq!(GameMode::Paused.label(), "Paused");
}
