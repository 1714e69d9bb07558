use vstd::prelude::*;

use crate::screen::ScreenState;

verus! {

/// The buttons and the last scroll of the mouse.
///
/// The pointer position is a pair of floating-point numbers and is kept by
/// the caller next to this state.
#[derive(Debug, Clone, Copy)]
pub struct MouseState {
    pub left_button_pressed: bool,
    pub right_button_pressed: bool,
    pub wheel_delta_x: i64,
    pub wheel_delta_y: i64,
}

impl MouseState {
    /// No button held down and no scroll.
    pub fn new() -> (m: Self)
        ensures
            !m.left_button_pressed,
            !m.right_button_pressed,
            m.wheel_delta_x == 0,
            m.wheel_delta_y == 0,
    {
        MouseState {
            left_button_pressed: false,
            right_button_pressed: false,
            wheel_delta_x: 0,
            wheel_delta_y: 0,
        }
    }

    /// Marks the left button as held down.
    pub fn press_left_button(&mut self)
        ensures
            *final(self) == (MouseState { left_button_pressed: true, ..*old(self) }),
    {
        self.left_button_pressed = true;
    }

    /// Marks the left button as up.
    pub fn release_left_button(&mut self)
        ensures
            *final(self) == (MouseState { left_button_pressed: false, ..*old(self) }),
    {
        self.left_button_pressed = false;
    }

    /// Marks the right button as held down.
    pub fn press_right_button(&mut self)
        ensures
            *final(self) == (MouseState { right_button_pressed: true, ..*old(self) }),
    {
        self.right_button_pressed = true;
    }

    /// Marks the right button as up.
    pub fn release_right_button(&mut self)
        ensures
            *final(self) == (MouseState { right_button_pressed: false, ..*old(self) }),
    {
        self.right_button_pressed = false;
    }

    /// Records the last scroll: horizontal `delta_x` and vertical `delta_y`.
    pub fn update_scroll(&mut self, delta_x: i64, delta_y: i64)
        ensures
            *final(self) == (MouseState { wheel_delta_x: delta_x, wheel_delta_y: delta_y, ..*old(self) }),
    {
        self.wheel_delta_x = delta_x;
        self.wheel_delta_y = delta_y;
    }
}

/// Pressing a button that was up and releasing it again gives back the state
/// from before, for either button.
pub proof fn law_button_release_undoes_press(m: MouseState)
    ensures
        !m.left_button_pressed ==> (MouseState {
            left_button_pressed: false,
            ..(MouseState { left_button_pressed: true, ..m })
        }) == m,
        !m.right_button_pressed ==> (MouseState {
            right_button_pressed: false,
            ..(MouseState { right_button_pressed: true, ..m })
        }) == m,
{
}

/// A rule to apply while the pointer moves: when `condition` holds of the
/// mouse and the screen, `action` changes the mouse.
pub struct ActionCondition<F, A> {
    pub condition: F,
    pub action: A,
}

impl<F, A> ActionCondition<F, A> where
    F: FnMut(&MouseState, &ScreenState) -> bool,
    A: FnMut(&mut MouseState),
 {
    /// Pairs a condition with the action it triggers.
    pub fn new(condition: F, action: A) -> (rule: Self)
        ensures
            rule.condition == condition,
            rule.action == action,
    {
        ActionCondition { condition, action }
    }
}

} // verus!
