use vstd::prelude::*;

verus! {

/// High-level phase of the application, shared by client and server.
#[derive(Clone, Copy, Debug, PartialEq, Eq, Hash, Structural)]
pub enum AppState {
    /// Main menu: nothing but UI runs.
    Menu,
    /// Waiting for a connection or for players.
    Lobby,
    /// Active combat: physics, input and gameplay sync run.
    InGame,
    /// The match is over.
    GameOver,
}

/// Position of a state along the flow Menu -> Lobby -> InGame -> GameOver.
pub open spec fn stage(s: AppState) -> nat {
    match s {
        AppState::Menu => 0,
        AppState::Lobby => 1,
        AppState::InGame => 2,
        AppState::GameOver => 3,
    }
}

/// Physics and gameplay simulation run only during a match.
pub open spec fn spec_physics_runs_in(s: AppState) -> bool {
    s == AppState::InGame
}

/// Whether the physics simulation runs in state `s`.
pub fn physics_runs_in(s: AppState) -> (runs: bool)
    ensures
        runs == spec_physics_runs_in(s),
{
    match s {
        AppState::InGame => true,
        _ => false,
    }
}

impl Default for AppState {
    /// The application starts in the menu.
    fn default() -> (s: Self)
        ensures
            s == AppState::Menu,
    {
        AppState::Menu
    }
}

/// The application only moves forward along Menu -> Lobby -> InGame, one
/// step at a time: no transition of the server or of the client goes back,
/// skips a phase, or leaves the game once it has started.
pub proof fn lemma_state_flow_advances(
    state: AppState,
    has_players: bool,
    enter_just_pressed: bool,
)
    ensures
        crate::server::spec_auto_start(state, has_players) matches Some(next) ==> stage(next) == stage(
            state,
        ) + 1 && stage(next) <= 2,
        crate::client::spec_menu_next(state, enter_just_pressed) matches Some(next) ==> stage(next)
            == stage(state) + 1 && stage(next) <= 2,
        crate::client::spec_spawn_next(state) matches Some(next) ==> stage(next) == stage(state) + 1
            && stage(next) <= 2,
{
}

/// When each transition fires: the server leaves the menu unconditionally
/// and leaves the lobby once a player is connected; the client leaves the
/// menu when Enter is pressed, and leaves the lobby when it shows its first
/// player. Nothing else moves the application.
pub proof fn lemma_state_flow_triggers(state: AppState, has_players: bool, enter_just_pressed: bool)
    ensures
        crate::server::spec_auto_start(state, has_players) is Some <==> (state == AppState::Menu || (
        state == AppState::Lobby && has_players)),
        crate::client::spec_menu_next(state, enter_just_pressed) is Some <==> (state == AppState::Menu
            && enter_just_pressed),
        crate::client::spec_spawn_next(state) is Some <==> state == AppState::Lobby,
{
}

/// Physics runs in exactly one phase, the one that the start-of-game
/// transitions of the server and of the client lead to.
pub proof fn lemma_physics_runs_in_game_only(state: AppState)
    ensures
        spec_physics_runs_in(state) <==> stage(state) == 2,
        crate::server::spec_auto_start(AppState::Lobby, true) matches Some(next)
            && spec_physics_runs_in(next),
        crate::client::spec_spawn_next(AppState::Lobby) matches Some(next) && spec_physics_runs_in(
            next,
        ),
        !spec_physics_runs_in(AppState::Menu) && !spec_physics_runs_in(AppState::Lobby),
{
}

} // verus!
