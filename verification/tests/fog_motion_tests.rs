use stepworld::fog::FogGrid;
use stepworld::fog::FogLevel;
use stepworld::motion::MoveKeys;
use stepworld::motion::step_position;
use stepworld::motion::tile_of;
use stepworld::screens::CameraMode;
use stepworld::screens::Screen;
use stepworld::screens::next_camera_mode;
use stepworld::screens::step_screen;

fn no_keys() -> MoveKeys {
    MoveKeys { right: false, left: false, down: false, up: false }
}

#[test]
fn new_grid_is_fully_hidden() {
    let g = FogGrid::new(25, 15);
    assert_eq!(g.width(), 25);
    assert_eq!(g.height(), 15);
    assert_eq!(g.level_at(0, 0), Some(FogLevel::Hidden));
    assert_eq!(g.level_at(24, 14), Some(FogLevel::Hidden));
    assert_eq!(g.level_at(25, 0), None);
}

#[test]
fn update_reveals_the_square_around_the_player() {
    let mut g = FogGrid::new(25, 15);
    g.update_visibility(6, 4, 2);
    // The half-open square spans columns 4..8 and rows 2..6.
    assert_eq!(g.level_at(4, 2), Some(FogLevel::Visible));
    assert_eq!(g.level_at(7, 5), Some(FogLevel::Visible));
    assert_eq!(g.level_at(8, 5), Some(FogLevel::Hidden));
    assert_eq!(g.level_at(7, 6), Some(FogLevel::Hidden));
    assert_eq!(g.level_at(3, 2), Some(FogLevel::Hidden));
}

#[test]
fn visited_tiles_decay_to_seen_when_the_player_moves_on() {
    let mut g = FogGrid::new(25, 15);
    g.update_visibility(2, 2, 2);
    assert_eq!(g.level_at(1, 1), Some(FogLevel::Visible));
    g.update_visibility(12, 12, 2);
    assert_eq!(g.level_at(1, 1), Some(FogLevel::Seen));
    assert_eq!(g.level_at(11, 11), Some(FogLevel::Visible));
}

#[test]
fn tiles_still_in_sight_stay_visible_across_updates() {
    let mut g = FogGrid::new(25, 15);
    g.update_visibility(5, 5, 2);
    g.update_visibility(5, 5, 2);
    assert_eq!(g.level_at(4, 4), Some(FogLevel::Visible));
}

#[test]
fn reveal_clips_at_the_map_edge() {
    let mut g = FogGrid::new(25, 15);
    g.update_visibility(0, 0, 2);
    assert_eq!(g.level_at(0, 0), Some(FogLevel::Visible));
    assert_eq!(g.level_at(1, 1), Some(FogLevel::Visible));
    assert_eq!(g.level_at(2, 0), Some(FogLevel::Hidden));
}

#[test]
fn step_position_moves_by_speed_per_held_key() {
    let keys = MoveKeys { right: true, left: false, down: true, up: false };
    // The demo map: 25 by 15 tiles of 32 pixels, a 16 pixel player.
    assert_eq!(step_position(180, 130, keys, 5, 16, 800, 480), (185, 135));
}

#[test]
fn step_position_opposite_keys_cancel() {
    let keys = MoveKeys { right: true, left: true, down: false, up: true };
    assert_eq!(step_position(180, 130, keys, 5, 16, 800, 480), (180, 125));
}

#[test]
fn step_position_clamps_to_the_map() {
    let left = MoveKeys { right: false, left: true, down: false, up: false };
    assert_eq!(step_position(2, 130, left, 5, 16, 800, 480), (0, 130));
    let right = MoveKeys { right: true, left: false, down: false, up: false };
    assert_eq!(step_position(782, 130, right, 5, 16, 800, 480), (784, 130));
    assert_eq!(step_position(784, 130, right, 5, 16, 800, 480), (784, 130));
}

#[test]
fn tile_of_rounds_to_the_nearest_tile_centre() {
    assert_eq!(tile_of(180, 32), 6);
    assert_eq!(tile_of(0, 32), 0);
    assert_eq!(tile_of(15, 32), 0);
    assert_eq!(tile_of(16, 32), 1);
    assert_eq!(tile_of(130, 32), 4);
}

#[test]
fn logo_screen_waits_then_shows_the_title() {
    let (s, f) = step_screen(Screen::Logo, 119, false);
    assert_eq!((s, f), (Screen::Logo, 120));
    let (s, f) = step_screen(Screen::Logo, 120, false);
    assert_eq!((s, f), (Screen::Title, 121));
}

#[test]
fn screens_advance_on_input_and_loop() {
    assert_eq!(step_screen(Screen::Title, 121, true).0, Screen::GamePlay);
    assert_eq!(step_screen(Screen::Title, 121, false).0, Screen::Title);
    assert_eq!(step_screen(Screen::GamePlay, 121, true).0, Screen::Ending);
    assert_eq!(step_screen(Screen::Ending, 121, true).0, Screen::Title);
}

#[test]
fn camera_modes_cycle_through_all_five() {
    let mut m = CameraMode::FollowCenter;
    let mut seen = vec![m];
    for _ in 0..4 {
        m = next_camera_mode(m);
        seen.push(m);
    }
    assert_eq!(
        seen,
        vec![
            CameraMode::FollowCenter,
            CameraMode::FollowCenterClamp,
            CameraMode::FollowCenterSmooth,
            CameraMode::FollowCenterHorizontal,
            CameraMode::PlayerPush,
        ]
    );
    assert_eq!(next_camera_mode(m), CameraMode::FollowCenter);
}
