use physics_sync::components::InputState;
use physics_sync::main_state::{MainState, CAMERA_SPEED};

fn keys(up: bool, down: bool, left: bool, right: bool) -> InputState {
    InputState { up, down, left, right }
}

#[test]
fn new_session_is_empty_and_running() {
    let s = MainState::new(16000, 4);
    assert_eq!(s.entities.len(), 0);
    assert_eq!(s.bodies.len(), 0);
    assert_eq!(s.colliders.len(), 0);
    assert!(!s.paused);
    assert_eq!(s.timestep_micros, 16000);
    assert_eq!(s.frame_steps, 4);
    assert_eq!(s.camera_x, 0);
    assert_eq!(s.camera_y, 0);
    assert!(s.shown_menu.is_none());
}

#[test]
fn camera_right_and_up_moves_diagonally() {
    let mut s = MainState::new(16000, 4);
    s.move_camera(keys(true, false, false, true));
    assert_eq!(s.camera_x, CAMERA_SPEED);
    assert_eq!(s.camera_y, -CAMERA_SPEED);
}

#[test]
fn camera_no_keys_is_unchanged() {
    let mut s = MainState::new(16000, 4);
    s.move_camera(keys(false, true, true, false));
    let (x, y) = (s.camera_x, s.camera_y);
    s.move_camera(keys(false, false, false, false));
    assert_eq!(s.camera_x, x);
    assert_eq!(s.camera_y, y);
}

#[test]
fn camera_opposite_keys_cancel() {
    let mut s = MainState::new(16000, 4);
    s.move_camera(keys(true, true, true, true));
    assert_eq!(s.camera_x, 0);
    assert_eq!(s.camera_y, 0);
}

#[test]
fn step_uses_configured_timestep_each_substep() {
    let mut s = MainState::new(16000, 3);
    let cmds = s.physics_step();
    assert_eq!(cmds.len(), 3);
    for cmd in &cmds {
        assert_eq!(cmd.timestep_micros, 16000);
    }
    s.set_timestep(20000);
    s.set_frame_steps(2);
    let cmds = s.physics_step();
    assert_eq!(cmds.len(), 2);
    for cmd in &cmds {
        assert_eq!(cmd.timestep_micros, 20000);
    }
}

#[test]
fn paused_step_still_runs_with_zero_timestep() {
    let mut s = MainState::new(16000, 3);
    s.set_paused(true);
    let cmds = s.physics_step();
    assert_eq!(cmds.len(), 3);
    for cmd in &cmds {
        assert_eq!(cmd.timestep_micros, 0);
    }
    s.set_paused(false);
    let cmds = s.physics_step();
    assert_eq!(cmds[0].timestep_micros, 16000);
}

#[test]
fn step_with_zero_substeps_commands_nothing() {
    let s = MainState::new(16000, 0);
    assert!(s.physics_step().is_empty());
}

#[test]
fn spawn_hands_out_fresh_handles() {
    let mut s = MainState::new(16000, 4);
    let e0 = s.spawn_physics_entity();
    let e1 = s.spawn_physics_entity();
    assert_eq!(e0, 0);
    assert_eq!(e1, 1);
    let d1 = s.entities[e1].unwrap();
    assert_eq!(d1.physics.unwrap().body_handle, 1);
    assert_eq!(d1.collider.unwrap().coll_handle, 1);
    s.delete_entity(e0);
    // handles are never reused within a session
    let e2 = s.spawn_physics_entity();
    assert_eq!(e2, 2);
    assert_eq!(s.entities[e2].unwrap().physics.unwrap().body_handle, 2);
}

#[test]
fn delete_entity_removes_entity_body_and_collider() {
    let mut s = MainState::new(16000, 4);
    let e0 = s.spawn_physics_entity();
    let e1 = s.spawn_physics_entity();
    let d0 = s.entities[e0].unwrap();
    let b0 = d0.physics.unwrap().body_handle;
    let c0 = d0.collider.unwrap().coll_handle;
    s.delete_entity(e0);
    assert!(s.entities[e0].is_none());
    assert!(s.bodies[b0].is_none());
    assert!(!s.colliders[c0]);
    // the other entity and its physics state are untouched
    let d1 = s.entities[e1].unwrap();
    assert!(s.bodies[d1.physics.unwrap().body_handle].is_some());
    assert!(s.colliders[d1.collider.unwrap().coll_handle]);
}

#[test]
fn delete_all_leaves_no_physics_entities() {
    let mut s = MainState::new(16000, 4);
    let e0 = s.spawn_physics_entity();
    let e1 = s.spawn_physics_entity();
    let e2 = s.spawn_physics_entity();
    let plain = s.spawn_plain_entity();
    s.delete_all();
    assert!(s.entities[e0].is_none());
    assert!(s.entities[e1].is_none());
    assert!(s.entities[e2].is_none());
    for slot in &s.bodies {
        assert!(slot.is_none());
    }
    for live in &s.colliders {
        assert!(!live);
    }
    // the entity without physics survives
    let d = s.entities[plain].unwrap();
    assert!(d.physics.is_none());
    assert!(d.collider.is_none());
}

#[test]
fn delete_all_on_empty_store_is_a_noop() {
    let mut s = MainState::new(16000, 4);
    s.delete_all();
    assert_eq!(s.entities.len(), 0);
    let plain = s.spawn_plain_entity();
    s.delete_all();
    assert!(s.entities[plain].is_some());
}

#[test]
fn reactivate_all_wakes_referenced_bodies_once_and_twice() {
    let mut s = MainState::new(16000, 4);
    let e0 = s.spawn_physics_entity();
    let _e1 = s.spawn_physics_entity();
    let e2 = s.spawn_physics_entity();
    let b0 = s.entities[e0].unwrap().physics.unwrap().body_handle;
    let b2 = s.entities[e2].unwrap().physics.unwrap().body_handle;
    s.set_body_active(b0, false);
    s.set_body_active(b2, false);
    assert!(!s.body_active(b0));
    s.reactivate_all();
    let after_once: Vec<_> = s.bodies.clone();
    assert!(s.body_active(b0));
    assert!(s.body_active(b2));
    s.reactivate_all();
    assert_eq!(s.bodies, after_once);
}

#[test]
fn reactivate_all_ignores_unreferenced_slots() {
    let mut s = MainState::new(16000, 4);
    let e0 = s.spawn_physics_entity();
    let b0 = s.entities[e0].unwrap().physics.unwrap().body_handle;
    s.delete_entity(e0);
    s.reactivate_all();
    assert!(s.bodies[b0].is_none());
}

#[test]
fn sidemenu_shows_the_marked_entity() {
    let mut s = MainState::new(16000, 4);
    let _e0 = s.spawn_physics_entity();
    let e1 = s.spawn_physics_entity();
    s.set_info_displayed(e1);
    s.update_sidemenu();
    assert_eq!(s.shown_menu, Some(e1));
}

#[test]
fn sidemenu_without_marker_is_a_noop() {
    let mut s = MainState::new(16000, 4);
    let _e0 = s.spawn_physics_entity();
    s.update_sidemenu();
    assert!(s.shown_menu.is_none());
}

#[test]
fn marker_moves_to_the_last_assigned_entity() {
    let mut s = MainState::new(16000, 4);
    let e0 = s.spawn_physics_entity();
    let e1 = s.spawn_physics_entity();
    s.set_info_displayed(e0);
    s.set_info_displayed(e1);
    assert!(!s.entities[e0].unwrap().info_displayed);
    assert!(s.entities[e1].unwrap().info_displayed);
    s.update_sidemenu();
    assert_eq!(s.shown_menu, Some(e1));
}

#[test]
fn deleting_the_marked_entity_makes_the_sync_a_noop() {
    let mut s = MainState::new(16000, 4);
    let _e0 = s.spawn_physics_entity();
    let e1 = s.spawn_physics_entity();
    let _e2 = s.spawn_physics_entity();
    s.set_info_displayed(e1);
    s.delete_entity(e1);
    s.update_sidemenu();
    assert!(s.shown_menu.is_none());
}

#[test]
fn deleting_the_shown_entity_clears_the_panel() {
    let mut s = MainState::new(16000, 4);
    let e0 = s.spawn_physics_entity();
    s.set_info_displayed(e0);
    s.update_sidemenu();
    assert_eq!(s.shown_menu, Some(e0));
    s.delete_entity(e0);
    assert!(s.shown_menu.is_none());
    s.update_sidemenu();
    assert!(s.shown_menu.is_none());
}

#[test]
fn deleting_another_entity_keeps_the_panel() {
    let mut s = MainState::new(16000, 4);
    let e0 = s.spawn_physics_entity();
    let plain = s.spawn_plain_entity();
    s.set_info_displayed(plain);
    s.update_sidemenu();
    assert_eq!(s.shown_menu, Some(plain));
    s.delete_entity(e0);
    assert_eq!(s.shown_menu, Some(plain));
}

#[test]
fn delete_all_clears_a_panel_shown_for_a_physics_entity() {
    let mut s = MainState::new(16000, 4);
    let e0 = s.spawn_physics_entity();
    s.set_info_displayed(e0);
    s.update_sidemenu();
    assert_eq!(s.shown_menu, Some(e0));
    s.delete_all();
    assert!(s.shown_menu.is_none());
}
