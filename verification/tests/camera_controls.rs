use bevy_garage::camera::{
    camera_switch_system, free_camera_active, free_camera_axis, grab_mouse, CameraConfig, CameraFollowView,
    CameraMode, CursorGrab, CursorState, MoveKeys, ViewKeys,
};
use bevy_garage::controls::{
    action_controls, arrow_key_controls, input_system, map_action_to_car, move_players_system,
    touch_input_system, ArrowKeys, BtnType, ButtonInteraction, ButtonLook, CarButton, ControlUpdate, GameKeys,
    PlayerInput,
};

fn no_view_keys() -> ViewKeys {
    ViewKeys { digit1: false, digit2: false, digit3: false, digit4: false, digit5: false, digit0: false }
}

fn no_arrows() -> ArrowKeys {
    ArrowKeys {
        up_pressed: false,
        up_released: false,
        down_pressed: false,
        down_released: false,
        left_pressed: false,
        left_released: false,
        right_pressed: false,
        right_released: false,
    }
}

#[test]
fn default_camera_follows_near() {
    assert_eq!(CameraConfig::default().mode, CameraMode::Follow(CameraFollowView::Near));
}

#[test]
fn next_view_cycles_through_six_views() {
    let mut config = CameraConfig::from_view(CameraFollowView::Windshield);
    let expected = [
        CameraFollowView::Driver,
        CameraFollowView::Near,
        CameraFollowView::Mid,
        CameraFollowView::Far,
        CameraFollowView::FrontWheel,
        CameraFollowView::Windshield,
    ];
    for view in expected {
        config.next_view();
        assert_eq!(config.mode, CameraMode::Follow(view));
    }
}

#[test]
fn free_camera_stays_free_on_next_view() {
    let mut config = CameraConfig::default();
    config.free();
    config.next_view();
    assert_eq!(config.mode, CameraMode::Free);
}

#[test]
fn view_setters() {
    let mut config = CameraConfig::default();
    config.driver();
    assert_eq!(config.mode, CameraMode::Follow(CameraFollowView::Driver));
    config.mid();
    assert_eq!(config.mode, CameraMode::Follow(CameraFollowView::Mid));
    config.far();
    assert_eq!(config.mode, CameraMode::Follow(CameraFollowView::Far));
    config.wheel();
    assert_eq!(config.mode, CameraMode::Follow(CameraFollowView::FrontWheel));
    config.near();
    assert_eq!(config.mode, CameraMode::Follow(CameraFollowView::Near));
}

#[test]
fn digit_keys_switch_the_camera_last_one_wins() {
    let mut config = CameraConfig::default();
    camera_switch_system(&mut config, no_view_keys());
    assert_eq!(config.mode, CameraMode::Follow(CameraFollowView::Near));
    camera_switch_system(&mut config, ViewKeys { digit1: true, ..no_view_keys() });
    assert_eq!(config.mode, CameraMode::Follow(CameraFollowView::Driver));
    camera_switch_system(&mut config, ViewKeys { digit2: true, digit4: true, ..no_view_keys() });
    assert_eq!(config.mode, CameraMode::Follow(CameraFollowView::Far));
    camera_switch_system(&mut config, ViewKeys { digit5: true, digit0: true, ..no_view_keys() });
    assert_eq!(config.mode, CameraMode::Free);
    camera_switch_system(&mut config, ViewKeys { digit3: true, ..no_view_keys() });
    assert_eq!(config.mode, CameraMode::Follow(CameraFollowView::Mid));
}

#[test]
fn mouse_grab_and_release() {
    let shown = CursorState { visible: true, grab: CursorGrab::Released };
    let locked = CursorState { visible: false, grab: CursorGrab::Locked };
    let confined = CursorState { visible: true, grab: CursorGrab::Confined };
    assert_eq!(grab_mouse(shown, true, false), locked);
    assert_eq!(grab_mouse(locked, false, true), shown);
    assert_eq!(grab_mouse(locked, true, true), shown);
    assert_eq!(grab_mouse(confined, false, false), confined);
    assert!(!free_camera_active(CursorGrab::Released));
    assert!(free_camera_active(CursorGrab::Locked));
    assert!(free_camera_active(CursorGrab::Confined));
}

#[test]
fn free_camera_axes() {
    let keys = MoveKeys { forward: true, back: false, right: false, left: true, up: true, down: true };
    assert_eq!(free_camera_axis(keys), (-1, 0, 1));
    let none = MoveKeys { forward: false, back: false, right: false, left: false, up: false, down: false };
    assert_eq!(free_camera_axis(none), (0, 0, 0));
}

#[test]
fn arrow_keys_drive() {
    let held = ArrowKeys { up_pressed: true, left_pressed: true, ..no_arrows() };
    assert_eq!(arrow_key_controls(held), ControlUpdate { gas: Some(1), brake: None, steering: Some(-1) });
    let both = ArrowKeys { left_pressed: true, right_pressed: true, down_pressed: true, ..no_arrows() };
    assert_eq!(arrow_key_controls(both), ControlUpdate { gas: None, brake: Some(1), steering: Some(1) });
    let released = ArrowKeys { up_released: true, right_pressed: true, left_released: true, ..no_arrows() };
    assert_eq!(arrow_key_controls(released), ControlUpdate { gas: Some(0), brake: None, steering: Some(0) });
    assert_eq!(arrow_key_controls(no_arrows()), ControlUpdate { gas: None, brake: None, steering: None });
}

#[test]
fn game_keys_toggle_and_respawn() {
    let keys = GameKeys { arrows: no_arrows(), r_just_pressed: true, space_just_pressed: true, shift_pressed: false, n_just_pressed: false };
    let d = input_system(keys);
    assert!(d.toggle_debug);
    assert!(!d.respawn);
    assert!(!d.toggle_brain);
    let keys = GameKeys { arrows: no_arrows(), r_just_pressed: false, space_just_pressed: true, shift_pressed: true, n_just_pressed: true };
    let d = input_system(keys);
    assert!(!d.toggle_debug);
    assert!(d.respawn);
    assert!(d.toggle_brain);
}

#[test]
fn networked_player_input() {
    let input = PlayerInput { up: true, down: false, left: true, right: true };
    assert_eq!(move_players_system(input), (1, 0, 1));
    let input = PlayerInput { up: false, down: true, left: true, right: false };
    assert_eq!(move_players_system(input), (0, 1, -1));
    assert_eq!(move_players_system(PlayerInput::default()), (0, 0, 0));
}

#[test]
fn touch_buttons() {
    let l = CarButton { btn_type: BtnType::L };
    let (look, update) = touch_input_system(l, ButtonInteraction::Clicked);
    assert_eq!(look, ButtonLook::Blue);
    assert_eq!(update, ControlUpdate { gas: None, brake: None, steering: Some(-1) });
    let (look, update) = touch_input_system(l, ButtonInteraction::Idle);
    assert_eq!(look, ButtonLook::White);
    assert_eq!(update, ControlUpdate { gas: None, brake: None, steering: Some(0) });
    let u = CarButton { btn_type: BtnType::U };
    let (look, update) = touch_input_system(u, ButtonInteraction::Hovered);
    assert_eq!(look, ButtonLook::Gray);
    assert_eq!(update, ControlUpdate { gas: None, brake: None, steering: None });
    let (_, update) = touch_input_system(u, ButtonInteraction::Clicked);
    assert_eq!(update, ControlUpdate { gas: Some(1), brake: None, steering: None });
    let d = CarButton { btn_type: BtnType::D };
    let (_, update) = touch_input_system(d, ButtonInteraction::Clicked);
    assert_eq!(update, ControlUpdate { gas: None, brake: Some(1), steering: None });
    let r = CarButton { btn_type: BtnType::R };
    let (_, update) = touch_input_system(r, ButtonInteraction::Clicked);
    assert_eq!(update, ControlUpdate { gas: None, brake: None, steering: Some(1) });
}

#[test]
fn network_actions() {
    assert_eq!(map_action_to_car(0), (1, 0, 0, 0));
    assert_eq!(map_action_to_car(1), (0, 1, 0, 0));
    assert_eq!(map_action_to_car(2), (0, 0, 1, 0));
    assert_eq!(map_action_to_car(3), (0, 0, 0, 1));
    assert_eq!(map_action_to_car(4), (1, 0, 1, 0));
    assert_eq!(map_action_to_car(5), (1, 0, 0, 1));
    assert_eq!(map_action_to_car(6), (0, 1, 1, 0));
    assert_eq!(map_action_to_car(7), (0, 1, 0, 1));
    assert_eq!(map_action_to_car(8), (0, 0, 0, 0));
    assert_eq!(action_controls(4), (1, 0, -1));
    assert_eq!(action_controls(7), (0, 1, 1));
    assert_eq!(action_controls(8), (0, 0, 0));
    for a in 0..9 {
        let (g, b, l, r) = map_action_to_car(a);
        assert!(!(g == 1 && b == 1));
        assert!(!(l == 1 && r == 1));
    }
}
