//! The game's modes and the transitions between them.
//!
//! A transition names the next mode and lists, in order, what the
//! surrounding program has to do for it: clear a screen, show the
//! crosshair, capture or release the pointer, rebuild the world.

use vstd::prelude::*;
use crate::terrain::terrain_between;
use crate::world::COLUMNS_PER_TICK;
use crate::world::VoxelWorld;
use crate::world::advanced;
use crate::world::generate_incremental;

verus! {

/// The mode that the game is in.
#[derive(Clone, Copy, Debug, PartialEq, Eq, Structural)]
pub enum GameMode {
    MainMenu,
    Loading,
    Playing,
    Paused,
}

/// Something for the surrounding program to do on a transition.
#[derive(Clone, Copy, Debug, PartialEq, Eq, Structural)]
pub enum Effect {
    ClearMainMenu,
    ClearLoadingScreen,
    ClearPauseMenu,
    ShowCrosshair,
    CapturePointer,
    ReleasePointer,
    /// Clear the world and rebuild all of it from the given seed.
    RegenerateWorld { seed: u32 },
}

/// What can happen to the mode.
#[derive(Clone, Copy, Debug, PartialEq, Eq, Structural)]
pub enum Event {
    /// The start button of the main menu was pressed.
    Start,
    /// The last column of the world has been generated.
    Loaded,
    /// The pause key went down.
    PauseKey,
    /// The regeneration chord was struck; the world is to be rebuilt from
    /// `seed`.
    Regenerate { seed: u32 },
}

/// The outcome of an event: the mode from now on, and what to do.
#[derive(Debug)]
pub struct Transition {
    pub mode: GameMode,
    pub effects: Vec<Effect>,
}

/// What entering play asks for, from loading or from pause.
pub open spec fn entering_play() -> Seq<Effect> {
    seq![
        Effect::CapturePointer,
        Effect::ClearLoadingScreen,
        Effect::ClearPauseMenu,
        Effect::ShowCrosshair,
    ]
}

/// The mode after `event` in `mode`.
pub open spec fn next_mode(mode: GameMode, event: Event) -> GameMode {
    match (mode, event) {
        (GameMode::MainMenu, Event::Start) => GameMode::Loading,
        (GameMode::Loading, Event::Loaded) => GameMode::Playing,
        (GameMode::Playing, Event::PauseKey) => GameMode::Paused,
        (GameMode::Paused, Event::PauseKey) => GameMode::Playing,
        _ => mode,
    }
}

/// What `event` in `mode` asks the surrounding program to do.
pub open spec fn effects_of(mode: GameMode, event: Event) -> Seq<Effect> {
    match (mode, event) {
        (_, Event::Regenerate { seed }) => seq![Effect::RegenerateWorld { seed }],
        (GameMode::MainMenu, Event::Start) => seq![Effect::ClearMainMenu],
        (GameMode::Loading, Event::Loaded) => entering_play(),
        (GameMode::Playing, Event::PauseKey) => seq![Effect::ReleasePointer],
        (GameMode::Paused, Event::PauseKey) => entering_play(),
        _ => Seq::empty(),
    }
}

/// The event that the keys of a tick stand for, if any. The regeneration
/// chord, its modifier held and its key going down, comes before the
/// pause key.
pub open spec fn key_event_of(
    modifier_held: bool,
    regenerate_tapped: bool,
    pause_tapped: bool,
    seed: u32,
) -> Option<Event> {
    if modifier_held && regenerate_tapped {
        Some(Event::Regenerate { seed })
    } else if pause_tapped {
        Some(Event::PauseKey)
    } else {
        None
    }
}

/// The outcome of an optional event: that of the event, or nothing.
pub open spec fn outcome_of(mode: GameMode, event: Option<Event>) -> (GameMode, Seq<Effect>) {
    match event {
        Some(e) => (next_mode(mode, e), effects_of(mode, e)),
        None => (mode, Seq::empty()),
    }
}

impl GameMode {
    /// The mode that the game starts in.
    pub fn initial() -> (r: GameMode)
        ensures
            r == GameMode::MainMenu,
    {
        GameMode::MainMenu
    }

    /// Whether the pointer belongs to the game in this mode.
    pub fn captures_pointer(self) -> (r: bool)
        ensures
            r <==> self == GameMode::Playing,
    {
        match self {
            GameMode::Playing => true,
            _ => false,
        }
    }

    /// Name of the mode for the window title.
    pub fn label(self) -> (r: &'static str)
        ensures
            self == GameMode::MainMenu ==> r@ == "Main Menu"@,
            self == GameMode::Loading ==> r@ == "Loading"@,
            self == GameMode::Playing ==> r@ == "In Game"@,
            self == GameMode::Paused ==> r@ == "Paused"@,
    {
        match self {
            GameMode::MainMenu => "Main Menu",
            GameMode::Loading => "Loading",
            GameMode::Playing => "In Game",
            GameMode::Paused => "Paused",
        }
    }
}

/// Draws a seed with `rand::random`, which asks the thread's generator for
/// a uniformly distributed `u32`. Nothing is claimed of the value. The
/// generator seeds itself from the operating system when a thread first
/// uses it, and panics if the system has no randomness to give.
#[verifier::external_body]
fn fresh_seed() -> (seed: u32) {
    rand::random::<u32>()
}

/// The effects of entering play.
fn enter_play() -> (r: Vec<Effect>)
    ensures
        r@ == entering_play(),
{
    let mut effects: Vec<Effect> = Vec::new();
    effects.push(Effect::CapturePointer);
    effects.push(Effect::ClearLoadingScreen);
    effects.push(Effect::ClearPauseMenu);
    effects.push(Effect::ShowCrosshair);
    effects
}

/// Applies an event to a mode.
pub fn step(mode: GameMode, event: Event) -> (r: Transition)
    ensures
        r.mode == next_mode(mode, event),
        r.effects@ == effects_of(mode, event),
{
    let mut effects: Vec<Effect> = Vec::new();
    match event {
        Event::Regenerate { seed } => {
            effects.push(Effect::RegenerateWorld { seed });
            Transition { mode, effects }
        },
        Event::Start => match mode {
            GameMode::MainMenu => {
                effects.push(Effect::ClearMainMenu);
                Transition { mode: GameMode::Loading, effects }
            },
            _ => Transition { mode, effects },
        },
        Event::Loaded => match mode {
            GameMode::Loading => Transition { mode: GameMode::Playing, effects: enter_play() },
            _ => Transition { mode, effects },
        },
        Event::PauseKey => match mode {
            GameMode::Playing => {
                effects.push(Effect::ReleasePointer);
                Transition { mode: GameMode::Paused, effects }
            },
            GameMode::Paused => Transition { mode: GameMode::Playing, effects: enter_play() },
            _ => Transition { mode, effects },
        },
    }
}

/// Applies the event that the keys of a tick stand for, with `seed` as the
/// seed of a regeneration.
pub fn apply_keys(
    mode: GameMode,
    modifier_held: bool,
    regenerate_tapped: bool,
    pause_tapped: bool,
    seed: u32,
) -> (r: Transition)
    ensures
        (r.mode, r.effects@) == outcome_of(
            mode,
            key_event_of(modifier_held, regenerate_tapped, pause_tapped, seed),
        ),
{
    if modifier_held && regenerate_tapped {
        step(mode, Event::Regenerate { seed })
    } else if pause_tapped {
        step(mode, Event::PauseKey)
    } else {
        Transition { mode, effects: Vec::new() }
    }
}

/// Handles the regeneration chord and the pause key of a tick.
///
/// The chord asks for a rebuilt world in every mode, from a seed drawn
/// afresh each time, and leaves the mode alone. Without the chord the
/// pause key switches between playing and paused.
pub fn toggle_pause(
    mode: GameMode,
    modifier_held: bool,
    regenerate_tapped: bool,
    pause_tapped: bool,
) -> (r: Transition)
    ensures
        exists|seed: u32|
            (r.mode, r.effects@) == #[trigger] outcome_of(
                mode,
                key_event_of(modifier_held, regenerate_tapped, pause_tapped, seed),
            ),
        !(modifier_held && regenerate_tapped) ==> (r.mode, r.effects@) == outcome_of(
            mode,
            key_event_of(false, false, pause_tapped, 0),
        ),
{
    let seed: u32 = if modifier_held && regenerate_tapped {
        fresh_seed()
    } else {
        0
    };
    let r = apply_keys(mode, modifier_held, regenerate_tapped, pause_tapped, seed);
    assert((r.mode, r.effects@) == outcome_of(
        mode,
        key_event_of(modifier_held, regenerate_tapped, pause_tapped, seed),
    ));
    r
}

/// Runs one tick of loading: generates the next columns of the world and,
/// once the world is complete, enters play. Outside the loading mode
/// nothing happens.
pub fn loading_tick(mode: GameMode, world: &mut VoxelWorld) -> (r: Transition)
    ensures
        final(world).wf(),
        final(world).field() == old(world).field(),
        mode != GameMode::Loading ==> {
            &&& final(world)@ == old(world)@
            &&& final(world).completed() == old(world).completed()
            &&& r.mode == mode
            &&& r.effects@ == Seq::<Effect>::empty()
        },
        mode == GameMode::Loading ==> {
            &&& final(world).completed() == advanced(
                old(world).completed(),
                COLUMNS_PER_TICK as nat,
                old(world).field().columns(),
            )
            &&& final(world)@ == old(world)@ + terrain_between(
                old(world).field(),
                old(world).completed(),
                final(world).completed(),
            )
            &&& final(world).is_complete() ==> (r.mode, r.effects@) == outcome_of(
                mode,
                Some(Event::Loaded),
            )
            &&& !final(world).is_complete() ==> (r.mode, r.effects@) == outcome_of(mode, None)
        },
{
    match mode {
        GameMode::Loading => {
            if generate_incremental(world, COLUMNS_PER_TICK) {
                step(mode, Event::Loaded)
            } else {
                Transition { mode, effects: Vec::new() }
            }
        },
        _ => {
            proof {
                use_type_invariant(&*world);
            }
            Transition { mode, effects: Vec::new() }
        },
    }
}

/// The mode changes along four arrows only: from the main menu to loading,
/// from loading to play, and between play and pause. An event that does
/// not change the mode asks for nothing, unless it is a regeneration.
pub proof fn lemma_mode_arrows(mode: GameMode, event: Event)
    ensures
        next_mode(mode, event) != mode ==> {
            ||| (mode == GameMode::MainMenu && next_mode(mode, event) == GameMode::Loading)
            ||| (mode == GameMode::Loading && next_mode(mode, event) == GameMode::Playing)
            ||| (mode == GameMode::Playing && next_mode(mode, event) == GameMode::Paused)
            ||| (mode == GameMode::Paused && next_mode(mode, event) == GameMode::Playing)
        },
        next_mode(mode, event) == mode && !(event is Regenerate) ==> effects_of(mode, event)
            == Seq::<Effect>::empty(),
{
}

/// The pointer follows the mode: a transition asks to capture the pointer
/// exactly when it enters play, and to release it exactly when it enters
/// pause.
pub proof fn lemma_pointer_follows_mode(mode: GameMode, event: Event)
    ensures
        effects_of(mode, event).contains(Effect::CapturePointer) <==> (next_mode(mode, event)
            == GameMode::Playing && mode != GameMode::Playing),
        effects_of(mode, event).contains(Effect::ReleasePointer) <==> (next_mode(mode, event)
            == GameMode::Paused && mode != GameMode::Paused),
{
    let effects = effects_of(mode, event);
    if next_mode(mode, event) == GameMode::Playing && mode != GameMode::Playing {
        assert(effects == entering_play());
        assert(effects[0] == Effect::CapturePointer);
    }
    if next_mode(mode, event) == GameMode::Paused && mode != GameMode::Paused {
        assert(effects[0] == Effect::ReleasePointer);
    }
}

/// Regeneration is always at hand: in every mode the chord asks for a
/// rebuilt world and leaves the mode as it is, whatever the pause key does.
pub proof fn lemma_regeneration_keeps_mode(mode: GameMode, pause_tapped: bool, seed: u32)
    ensures
        outcome_of(mode, key_event_of(true, true, pause_tapped, seed)) == (
            mode,
            seq![Effect::RegenerateWorld { seed }],
        ),
{
}

} // verus!
