use warp::in_game::InGamePlugin;
use warp::level::{update_level_selection, LevelInfo, LevelSelection};
use warp::main_menu::game_start;
use warp::pause_menu::{pause_game, unpause_game, PauseMenuPlugin};
use warp::paused::change_pause_state;
use warp::state::PauseState;
use warp::states::{GameState, InGameState};
use warp::timer::Timer;

fn level(uid: i64, iid: &str, px: i64, py: i64) -> LevelInfo {
    LevelInfo { uid, iid: iid.to_string(), px, py, px_wid: 256, px_hei: 256 }
}

#[test]
fn selection_moves_to_the_level_holding_the_player() {
    let levels = vec![level(0, "level-a", 0, 0), level(1, "level-b", 256, 0)];
    let mut selection = LevelSelection::Uid(0);
    update_level_selection(&mut selection, &levels, 300, 100);
    match &selection {
        LevelSelection::Iid(iid) => assert_eq!(iid.as_str(), "level-b"),
        _ => panic!("no level selected"),
    }
}

#[test]
fn selection_is_kept_when_the_player_is_outside_every_level() {
    let levels = vec![level(0, "level-a", 0, 0)];
    let mut selection = LevelSelection::Uid(0);
    update_level_selection(&mut selection, &levels, 5000, 5000);
    assert!(matches!(selection, LevelSelection::Uid(0)));
}

#[test]
fn already_selected_level_is_not_reselected() {
    let levels = vec![level(7, "level-a", 0, 0)];
    let mut selection = LevelSelection::Uid(7);
    update_level_selection(&mut selection, &levels, 100, 100);
    assert!(matches!(selection, LevelSelection::Uid(7)));
}

#[test]
fn boundary_positions_do_not_select_a_level() {
    let levels = vec![level(1, "level-a", 0, 0)];
    let mut selection = LevelSelection::Uid(0);
    update_level_selection(&mut selection, &levels, 0, 100);
    assert!(matches!(selection, LevelSelection::Uid(0)));
    update_level_selection(&mut selection, &levels, 256, 100);
    assert!(matches!(selection, LevelSelection::Uid(0)));
}

#[test]
fn in_game_plugin_step_follows_the_player() {
    let levels = vec![level(0, "level-a", 0, 0), level(1, "level-b", 0, 256)];
    let mut selection = LevelSelection::Uid(0);
    InGamePlugin::step(&mut selection, &levels, 100, 300);
    match &selection {
        LevelSelection::Iid(iid) => assert_eq!(iid.as_str(), "level-b"),
        _ => panic!("no level selected"),
    }
}

#[test]
fn game_starts_only_on_the_start_input() {
    assert_eq!(game_start(true), Some(GameState::Loading));
    assert_eq!(game_start(false), None);
}

#[test]
fn pause_state_toggles_on_the_matching_inputs() {
    assert_eq!(
        change_pause_state(true, false, PauseState::Paused),
        Some(PauseState::Unpaused)
    );
    assert_eq!(change_pause_state(false, true, PauseState::Unpaused), Some(PauseState::Paused));
    assert_eq!(change_pause_state(false, true, PauseState::Paused), None);
    assert_eq!(change_pause_state(true, false, PauseState::Unpaused), None);
    assert_eq!(change_pause_state(false, false, PauseState::Paused), None);
}

#[test]
fn pause_and_unpause_requests_follow_their_inputs() {
    assert_eq!(pause_game(true), Some(InGameState::Paused));
    assert_eq!(pause_game(false), None);
    assert_eq!(unpause_game(true), Some(InGameState::Playing));
    assert_eq!(unpause_game(false), None);
}

#[test]
fn pause_menu_step_lets_the_pause_request_win() {
    assert_eq!(
        PauseMenuPlugin::step(InGameState::Playing, false, true),
        Some(InGameState::Paused)
    );
    assert_eq!(
        PauseMenuPlugin::step(InGameState::Paused, true, false),
        Some(InGameState::Playing)
    );
    assert_eq!(
        PauseMenuPlugin::step(InGameState::Paused, true, true),
        Some(InGameState::Paused)
    );
    assert_eq!(PauseMenuPlugin::step(InGameState::Playing, true, false), None);
    assert_eq!(PauseMenuPlugin::step(InGameState::Playing, false, false), None);
}

#[test]
fn timers_clamp_finish_and_reset() {
    let mut t = Timer::new(200);
    t.tick(150);
    assert_eq!(t.elapsed, 150);
    assert!(!t.finished());
    t.tick(5000);
    assert_eq!(t.elapsed, 200);
    assert!(t.finished());
    t.reset();
    assert_eq!(t.elapsed, 0);
    assert!(!t.finished());
}
