use vstd::prelude::*;

verus! {

/// Which way the mouse pushes the fluid this frame: `-1` for the left
/// button, `1` for the right button, their sum when both are held, and
/// nothing while the obstacle key is held. The push strength is this sign
/// times the per-frame strength.
pub fn mouse_input_direction(left_pressed: bool, right_pressed: bool, ctrl_pressed: bool) -> (d: i32)
    ensures
        d == (if right_pressed && !ctrl_pressed { 1int } else { 0int }) - (if left_pressed && !ctrl_pressed { 1int } else { 0int }),
        -1 <= d <= 1,
        ctrl_pressed ==> d == 0,
{
    let mut d: i32 = 0;
    if left_pressed && !ctrl_pressed {
        d = d - 1;
    }
    if right_pressed && !ctrl_pressed {
        d = d + 1;
    }
    d
}

/// What the input of one frame shows, for drawing and removing obstacles.
#[derive(Clone, Copy, Debug, PartialEq, Eq, Structural)]
pub struct ObstacleInput {
    /// The cursor is over the window.
    pub cursor_in_window: bool,
    /// The obstacle key (left control) is held.
    pub ctrl_pressed: bool,
    pub left_just_pressed: bool,
    pub left_pressed: bool,
    pub left_just_released: bool,
    pub right_just_pressed: bool,
    /// The cursor is somewhere else than the anchor of the obstacle being
    /// drawn.
    pub cursor_away_from_anchor: bool,
    /// An obstacle is being drawn (it is still marked active).
    pub has_active: bool,
}

/// What to do about obstacles in one frame.
#[derive(Clone, Copy, Debug, PartialEq, Eq, Structural)]
pub struct ObstacleActions {
    /// Put the anchor of a new obstacle under the cursor.
    pub set_anchor: bool,
    /// Remove the obstacle being drawn.
    pub despawn_active: bool,
    /// Draw a new active obstacle from the anchor to the cursor.
    pub spawn_active: bool,
    /// Remove every finished obstacle that the cursor is inside.
    pub remove_under_cursor: bool,
    /// Finish the obstacle being drawn: it is no longer active.
    pub deactivate_active: bool,
}

/// The obstacle actions of one frame. With the cursor over the window and
/// the obstacle key held, a left click sets the anchor, a held left button
/// away from the anchor redraws the active obstacle (removing the old one),
/// and a right click removes the obstacles under the cursor. Releasing the
/// left button finishes the active obstacle, key or no key.
pub fn obstacle_actions(input: ObstacleInput) -> (act: ObstacleActions)
    ensures
        act.set_anchor == (input.cursor_in_window && input.ctrl_pressed && input.left_just_pressed),
        act.spawn_active == (input.cursor_in_window && input.ctrl_pressed && !input.left_just_pressed
            && input.left_pressed && input.cursor_away_from_anchor),
        act.despawn_active == (act.spawn_active && input.has_active),
        act.remove_under_cursor == (input.cursor_in_window && input.ctrl_pressed && input.right_just_pressed),
        act.deactivate_active == (input.cursor_in_window && input.left_just_released && input.has_active),
        !(act.set_anchor && act.spawn_active),
        !input.cursor_in_window ==> act == (ObstacleActions {
            set_anchor: false,
            despawn_active: false,
            spawn_active: false,
            remove_under_cursor: false,
            deactivate_active: false,
        }),
{
    let mut act = ObstacleActions {
        set_anchor: false,
        despawn_active: false,
        spawn_active: false,
        remove_under_cursor: false,
        deactivate_active: false,
    };
    if input.cursor_in_window {
        if input.ctrl_pressed {
            if input.left_just_pressed {
                act.set_anchor = true;
            } else if input.left_pressed && input.cursor_away_from_anchor {
                act.despawn_active = input.has_active;
                act.spawn_active = true;
            }
            if input.right_just_pressed {
                act.remove_under_cursor = true;
            }
        }
        if input.left_just_released {
            act.deactivate_active = input.has_active;
        }
    }
    act
}

} // verus!
