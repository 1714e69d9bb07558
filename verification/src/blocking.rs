use vstd::prelude::*;

use crate::event::{EventType, Key};

verus! {

/// The Windows virtual-key code of the A key.
pub const VK_A: u32 = 0x41;

/// The X11 event type of a key press.
pub const X11_KEY_PRESS: i32 = 2;

/// The Android key code of the A key.
pub const ANDROID_KEYCODE_A: i32 = 29;

/// The key code that the iOS handler takes for the A key.
pub const IOS_KEYCODE_A: i32 = 0;

/// Whether the event is a press of the A key: the one event that the grab
/// callback keeps from reaching other programs, and that the listener
/// reports on its own.
pub fn is_key_a_press(event_type: &EventType) -> (b: bool)
    ensures
        b == (*event_type == EventType::KeyPress(Key::KeyA)),
{
    match event_type {
        EventType::KeyPress(Key::KeyA) => true,
        _ => false,
    }
}

/// Whether the Windows low-level keyboard hook blocks an event: it does for
/// the A key when the hook code says the event is to be processed
/// (non-negative); otherwise the event goes on to the next hook.
pub fn hook_blocks(n_code: i32, vk_code: u32) -> (b: bool)
    ensures
        b == (n_code >= 0 && vk_code == VK_A),
{
    n_code >= 0 && vk_code == VK_A
}

/// Whether the X11 event loop ignores an event: a key press whose key code is
/// the one that the display maps the A key to.
pub fn x11_ignores(event_type: i32, keycode: u32, a_keycode: u32) -> (b: bool)
    ensures
        b == (event_type == X11_KEY_PRESS && keycode == a_keycode),
{
    event_type == X11_KEY_PRESS && keycode == a_keycode
}

/// Whether the Android activity consumes a key event: it does for the A key.
#[allow(non_snake_case)]
pub fn Java_your_package_name_YourActivity_dispatchKeyEvent(key_code: i32) -> (b: bool)
    ensures
        b == (key_code == ANDROID_KEYCODE_A),
{
    key_code == ANDROID_KEYCODE_A
}

/// Whether the iOS key handler blocks a key press: it does for the A key.
pub fn rust_key_handler(key_code: i32) -> (b: bool)
    ensures
        b == (key_code == IOS_KEYCODE_A),
{
    key_code == IOS_KEYCODE_A
}

} // verus!
