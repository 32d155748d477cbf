use fluid_sim::layout::{find_particle_position_in_grid, SpawnPosition, NUMBER_OF_PARTICLES};
use fluid_sim::mouse_control::{mouse_input_direction, obstacle_actions, ObstacleActions, ObstacleInput};
use std::collections::HashSet;

#[test]
fn first_particle_starts_at_the_bottom_left() {
    assert_eq!(find_particle_position_in_grid(0), SpawnPosition { x: -125, y: -100, z: 1 });
}

#[test]
fn particles_fill_rows_of_twenty_five() {
    assert_eq!(find_particle_position_in_grid(24), SpawnPosition { x: 115, y: -100, z: 1 });
    assert_eq!(find_particle_position_in_grid(26), SpawnPosition { x: -115, y: -90, z: 1 });
    assert_eq!(find_particle_position_in_grid(499), SpawnPosition { x: 115, y: 90, z: 1 });
}

#[test]
fn spawn_positions_are_distinct_and_in_the_block() {
    let mut seen = HashSet::new();
    for n in 0..NUMBER_OF_PARTICLES {
        let p = find_particle_position_in_grid(n);
        assert!(-125 <= p.x && p.x <= 115 && -100 <= p.y && p.y <= 90);
        assert_eq!((p.x + 125) % 10, 0);
        assert_eq!((p.y + 100) % 10, 0);
        assert!(seen.insert((p.x, p.y)));
    }
}

#[test]
fn mouse_direction() {
    assert_eq!(mouse_input_direction(false, false, false), 0);
    assert_eq!(mouse_input_direction(true, false, false), -1);
    assert_eq!(mouse_input_direction(false, true, false), 1);
    assert_eq!(mouse_input_direction(true, true, false), 0);
    assert_eq!(mouse_input_direction(true, false, true), 0);
    assert_eq!(mouse_input_direction(false, true, true), 0);
}

fn input() -> ObstacleInput {
    ObstacleInput {
        cursor_in_window: true,
        ctrl_pressed: true,
        left_just_pressed: false,
        left_pressed: false,
        left_just_released: false,
        right_just_pressed: false,
        cursor_away_from_anchor: true,
        has_active: true,
    }
}

const NONE: ObstacleActions = ObstacleActions {
    set_anchor: false,
    despawn_active: false,
    spawn_active: false,
    remove_under_cursor: false,
    deactivate_active: false,
};

#[test]
fn left_click_with_ctrl_sets_the_anchor() {
    let a = obstacle_actions(ObstacleInput { left_just_pressed: true, left_pressed: true, ..input() });
    assert_eq!(a, ObstacleActions { set_anchor: true, ..NONE });
}

#[test]
fn dragging_redraws_the_active_obstacle() {
    let a = obstacle_actions(ObstacleInput { left_pressed: true, ..input() });
    assert_eq!(a, ObstacleActions { despawn_active: true, spawn_active: true, ..NONE });
    let a = obstacle_actions(ObstacleInput { left_pressed: true, has_active: false, ..input() });
    assert_eq!(a, ObstacleActions { spawn_active: true, ..NONE });
    let a = obstacle_actions(ObstacleInput { left_pressed: true, cursor_away_from_anchor: false, ..input() });
    assert_eq!(a, NONE);
}

#[test]
fn right_click_with_ctrl_removes_obstacles_under_the_cursor() {
    let a = obstacle_actions(ObstacleInput { right_just_pressed: true, ..input() });
    assert_eq!(a, ObstacleActions { remove_under_cursor: true, ..NONE });
    let a = obstacle_actions(ObstacleInput { right_just_pressed: true, ctrl_pressed: false, ..input() });
    assert_eq!(a, NONE);
}

#[test]
fn releasing_left_finishes_the_obstacle_without_ctrl_too() {
    let a = obstacle_actions(ObstacleInput { left_just_released: true, ctrl_pressed: false, ..input() });
    assert_eq!(a, ObstacleActions { deactivate_active: true, ..NONE });
    let a = obstacle_actions(ObstacleInput { left_just_released: true, has_active: false, ..input() });
    assert_eq!(a, NONE);
}

#[test]
fn nothing_happens_without_the_cursor() {
    let a = obstacle_actions(ObstacleInput {
        cursor_in_window: false,
        left_just_pressed: true,
        left_pressed: true,
        right_just_pressed: true,
        left_just_released: true,
        ..input()
    });
    assert_eq!(a, NONE);
}
