use keyhook::{ActionCondition, Button, EventType, Key, KeyboardState, MouseState, ScreenState};

#[test]
fn new_keyboard_has_no_key_down() {
    let keyboard = KeyboardState::new();
    assert!(!keyboard.is_key_pressed(Key::KeyA));
    assert!(!keyboard.is_key_pressed(Key::Unknown(7)));
}

#[test]
fn press_then_release_a_key() {
    let mut keyboard = KeyboardState::new();
    assert_eq!(keyboard.update_state(&EventType::KeyPress(Key::KeyA)), Ok(()));
    assert!(keyboard.is_key_pressed(Key::KeyA));
    assert!(!keyboard.is_key_pressed(Key::KeyB));
    assert_eq!(keyboard.update_state(&EventType::KeyRelease(Key::KeyA)), Ok(()));
    assert!(!keyboard.is_key_pressed(Key::KeyA));
}

#[test]
fn keys_are_tracked_one_by_one() {
    let mut keyboard = KeyboardState::new();
    keyboard.update_state(&EventType::KeyPress(Key::ShiftLeft)).unwrap();
    keyboard.update_state(&EventType::KeyPress(Key::KeyS)).unwrap();
    keyboard.update_state(&EventType::KeyPress(Key::Unknown(300))).unwrap();
    keyboard.update_state(&EventType::KeyRelease(Key::KeyS)).unwrap();
    assert!(keyboard.is_key_pressed(Key::ShiftLeft));
    assert!(!keyboard.is_key_pressed(Key::KeyS));
    assert!(keyboard.is_key_pressed(Key::Unknown(300)));
    assert!(!keyboard.is_key_pressed(Key::Unknown(301)));
}

#[test]
fn pressing_twice_needs_one_release() {
    let mut keyboard = KeyboardState::new();
    keyboard.update_state(&EventType::KeyPress(Key::Space)).unwrap();
    keyboard.update_state(&EventType::KeyPress(Key::Space)).unwrap();
    keyboard.update_state(&EventType::KeyRelease(Key::Space)).unwrap();
    assert!(!keyboard.is_key_pressed(Key::Space));
}

#[test]
fn releasing_a_key_that_is_up_is_accepted() {
    let mut keyboard = KeyboardState::new();
    assert_eq!(keyboard.update_state(&EventType::KeyRelease(Key::Escape)), Ok(()));
    assert!(!keyboard.is_key_pressed(Key::Escape));
}

#[test]
fn key_follows_its_last_event() {
    let events = [
        EventType::KeyPress(Key::KeyQ),
        EventType::KeyPress(Key::KeyW),
        EventType::ButtonPress(Button::Left),
        EventType::KeyRelease(Key::KeyQ),
        EventType::Wheel { delta_x: 0, delta_y: 1 },
        EventType::KeyPress(Key::KeyQ),
        EventType::KeyRelease(Key::KeyW),
    ];
    let mut keyboard = KeyboardState::new();
    for event in events.iter() {
        let _ = keyboard.update_state(event);
    }
    assert!(keyboard.is_key_pressed(Key::KeyQ));
    assert!(!keyboard.is_key_pressed(Key::KeyW));
}

#[test]
fn other_events_are_refused_and_change_nothing() {
    let mut keyboard = KeyboardState::new();
    keyboard.update_state(&EventType::KeyPress(Key::KeyZ)).unwrap();
    let others = [
        EventType::ButtonPress(Button::Left),
        EventType::ButtonRelease(Button::Unknown(4)),
        EventType::MouseMove,
        EventType::Wheel { delta_x: -1, delta_y: 2 },
    ];
    for event in others.iter() {
        assert_eq!(
            keyboard.update_state(event),
            Err("Unsupported event type for keyboard".to_string())
        );
    }
    assert!(keyboard.is_key_pressed(Key::KeyZ));
}

#[test]
fn new_mouse_is_idle() {
    let mouse = MouseState::new();
    assert!(!mouse.left_button_pressed);
    assert!(!mouse.right_button_pressed);
    assert_eq!(mouse.wheel_delta_x, 0);
    assert_eq!(mouse.wheel_delta_y, 0);
}

#[test]
fn mouse_buttons_are_independent() {
    let mut mouse = MouseState::new();
    mouse.press_left_button();
    assert!(mouse.left_button_pressed);
    assert!(!mouse.right_button_pressed);
    mouse.press_right_button();
    mouse.release_left_button();
    assert!(!mouse.left_button_pressed);
    assert!(mouse.right_button_pressed);
    mouse.release_right_button();
    assert!(!mouse.right_button_pressed);
}

#[test]
fn scroll_keeps_the_last_deltas() {
    let mut mouse = MouseState::new();
    mouse.press_left_button();
    mouse.update_scroll(0, 1);
    mouse.update_scroll(-3, i64::MIN);
    assert_eq!(mouse.wheel_delta_x, -3);
    assert_eq!(mouse.wheel_delta_y, i64::MIN);
    assert!(mouse.left_button_pressed);
}

#[test]
fn screen_takes_the_reported_size() {
    let screen = ScreenState::new(Some((1920, 1080)));
    assert_eq!(screen.width, 1920);
    assert_eq!(screen.height, 1080);
}

#[test]
fn screen_without_a_display_is_empty() {
    let screen = ScreenState::new(None);
    assert_eq!(screen.width, 0);
    assert_eq!(screen.height, 0);
}

#[test]
fn action_condition_keeps_its_closures() {
    let mut rule = ActionCondition::new(
        |mouse: &MouseState, screen: &ScreenState| mouse.wheel_delta_y as u64 >= screen.height,
        |mouse: &mut MouseState| mouse.update_scroll(0, 0),
    );
    let screen = ScreenState::new(Some((10, 5)));
    let mut mouse = MouseState::new();
    mouse.update_scroll(0, 7);
    assert!((rule.condition)(&mouse, &screen));
    (rule.action)(&mut mouse);
    assert_eq!(mouse.wheel_delta_y, 0);
    assert!(!(rule.condition)(&mouse, &screen));
}
