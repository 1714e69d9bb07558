//! Input-state bookkeeping and key-blocking rules for a desktop input hook,
//! together with the argument parsing of a small command runner.
//!
//! The operating-system side (listening to, grabbing and simulating events,
//! querying the display, spawning processes) lives outside this library; the
//! functions here take the plain values that side reads and decide what to do.

mod blocking;
mod command;
mod event;
mod keyboard;
mod mouse;
mod screen;

pub use blocking::{
    hook_blocks, is_key_a_press, rust_key_handler, x11_ignores,
    Java_your_package_name_YourActivity_dispatchKeyEvent, ANDROID_KEYCODE_A, IOS_KEYCODE_A, VK_A,
    X11_KEY_PRESS,
};
pub use command::{
    commands_to_run, drop_empty, invokes, join_seq, law_drop_empty_is_filter_nonempty,
    law_drop_empty_keeps_every_nonempty_group, law_groups_hold_no_separator, law_groups_with_separators_spell_the_input,
    law_invocation_rebuilds_group,
    law_join_undoes_split, law_kept_groups_are_nonempty, law_one_group_per_separator_and_one,
    lemma_split_first_group, lemma_split_nonempty, occurrences, parse_run_plan, split_on,
    split_seq, Invocation, RunPlan,
};
pub use event::{Button, EventType, Key};
pub use keyboard::{
    is_key_event, key_event_effect, last_word_on, law_key_event_effect_per_key,
    law_key_events_are_presses_and_releases, law_key_follows_its_last_event,
    law_release_undoes_press, law_repeated_events_change_nothing, pressed_after, KeyboardState,
};
pub use mouse::{law_button_release_undoes_press, ActionCondition, MouseState};
pub use screen::ScreenState;
