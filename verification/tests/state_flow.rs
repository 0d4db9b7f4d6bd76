use pet_pvp::app_state::{physics_runs_in, AppState};
use pet_pvp::client::{menu_logic, register_spawned, Lobby as ClientLobby};
use pet_pvp::server::{auto_start_game, handle_server_event, LastInputTicks, Lobby, ServerEvent};

#[test]
fn app_starts_in_menu() {
    assert_eq!(AppState::default(), AppState::Menu);
}

#[test]
fn server_skips_menu() {
    let lobby: Lobby<u64> = Lobby::new();
    assert_eq!(auto_start_game(AppState::Menu, &lobby), Some(AppState::Lobby));
}

#[test]
fn server_waits_in_lobby_without_players() {
    let lobby: Lobby<u64> = Lobby::new();
    assert_eq!(auto_start_game(AppState::Lobby, &lobby), None);
}

#[test]
fn server_starts_game_when_a_player_connects() {
    let mut lobby: Lobby<u64> = Lobby::new();
    let mut ticks = LastInputTicks::new();
    handle_server_event(&mut lobby, &mut ticks, ServerEvent::ClientConnected { client_id: 9, entity: 90 });
    assert_eq!(auto_start_game(AppState::Lobby, &lobby), Some(AppState::InGame));
    // The menu is left for the lobby even when players are already there.
    assert_eq!(auto_start_game(AppState::Menu, &lobby), Some(AppState::Lobby));
}

#[test]
fn server_stays_in_game_and_game_over() {
    let mut lobby: Lobby<u64> = Lobby::new();
    let mut ticks = LastInputTicks::new();
    handle_server_event(&mut lobby, &mut ticks, ServerEvent::ClientConnected { client_id: 1, entity: 2 });
    assert_eq!(auto_start_game(AppState::InGame, &lobby), None);
    assert_eq!(auto_start_game(AppState::GameOver, &lobby), None);
}

#[test]
fn enter_leaves_the_menu_only() {
    assert_eq!(menu_logic(AppState::Menu, true), Some(AppState::Lobby));
    assert_eq!(menu_logic(AppState::Menu, false), None);
    assert_eq!(menu_logic(AppState::Lobby, true), None);
    assert_eq!(menu_logic(AppState::InGame, true), None);
    assert_eq!(menu_logic(AppState::GameOver, true), None);
}

#[test]
fn first_spawned_player_starts_the_client_game() {
    let mut lobby: ClientLobby<u64> = ClientLobby::new();
    assert_eq!(register_spawned(&mut lobby, 5, 50, AppState::Lobby), Some(AppState::InGame));
    assert_eq!(lobby.player_entity(5), Some(50));
    assert_eq!(register_spawned(&mut lobby, 6, 60, AppState::InGame), None);
    assert_eq!(register_spawned(&mut lobby, 7, 70, AppState::Menu), None);
    assert_eq!(lobby.players.len(), 3);
}

#[test]
fn flow_never_goes_back() {
    // Every transition that fires moves exactly one phase forward.
    let stage = |s: AppState| match s {
        AppState::Menu => 0,
        AppState::Lobby => 1,
        AppState::InGame => 2,
        AppState::GameOver => 3,
    };
    let mut full: Lobby<u64> = Lobby::new();
    let mut ticks = LastInputTicks::new();
    handle_server_event(&mut full, &mut ticks, ServerEvent::ClientConnected { client_id: 1, entity: 1 });
    let empty: Lobby<u64> = Lobby::new();
    for s in [AppState::Menu, AppState::Lobby, AppState::InGame, AppState::GameOver] {
        for next in [
            auto_start_game(s, &full),
            auto_start_game(s, &empty),
            menu_logic(s, true),
            register_spawned(&mut ClientLobby::<u64>::new(), 1, 1, s),
        ] {
            if let Some(n) = next {
                assert_eq!(stage(n), stage(s) + 1);
                assert_ne!(n, AppState::GameOver);
            }
        }
    }
}

#[test]
fn physics_runs_only_in_game() {
    assert!(!physics_runs_in(AppState::Menu));
    assert!(!physics_runs_in(AppState::Lobby));
    assert!(physics_runs_in(AppState::InGame));
    assert!(!physics_runs_in(AppState::GameOver));
}
