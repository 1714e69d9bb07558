use vstd::prelude::*;

use crate::event::{Button, EventType, Key};

verus! {

/// The keys that are held down, as far as the key events seen so far tell.
pub struct KeyboardState {
    pressed_keys: Vec<Key>,
}

/// What a key event does to the set of pressed keys: a press adds its key,
/// a release takes it out, and any other event leaves the set as it was.
pub open spec fn key_event_effect(pressed: Set<Key>, event: EventType) -> Set<Key> {
    match event {
        EventType::KeyPress(key) => pressed.insert(key),
        EventType::KeyRelease(key) => pressed.remove(key),
        _ => pressed,
    }
}

/// Whether the keyboard state takes the event into account.
pub open spec fn is_key_event(event: EventType) -> bool {
    event is KeyPress || event is KeyRelease
}

/// Every key press and every key release is a key event; button, pointer and
/// wheel events are not.
pub proof fn law_key_events_are_presses_and_releases(key: Key, button: Button, dx: i64, dy: i64)
    ensures
        is_key_event(EventType::KeyPress(key)),
        is_key_event(EventType::KeyRelease(key)),
        !is_key_event(EventType::ButtonPress(button)),
        !is_key_event(EventType::ButtonRelease(button)),
        !is_key_event(EventType::MouseMove),
        !is_key_event(EventType::Wheel { delta_x: dx, delta_y: dy }),
{
}

/// A press marks its key down and leaves every other key as it was; a release
/// marks its key up and leaves every other key as it was; any other event
/// changes no key.
pub proof fn law_key_event_effect_per_key(pressed: Set<Key>, event: EventType, other: Key)
    ensures
        forall|k: Key| #[trigger] key_event_effect(pressed, EventType::KeyPress(k)).contains(other)
            == (other == k || pressed.contains(other)),
        forall|k: Key| #[trigger] key_event_effect(pressed, EventType::KeyRelease(k)).contains(other)
            == (other != k && pressed.contains(other)),
        !is_key_event(event) ==> key_event_effect(pressed, event) == pressed,
{
}

/// The pressed keys after the events, taken in order, starting from `start`.
pub open spec fn pressed_after(start: Set<Key>, events: Seq<EventType>) -> Set<Key>
    decreases events.len(),
{
    if events.len() == 0 {
        start
    } else {
        key_event_effect(pressed_after(start, events.drop_last()), events.last())
    }
}

/// Whether the last event among `events` that concerns `key` pressed it
/// (`Some(true)`) or released it (`Some(false)`); `None` when no event
/// concerns it.
pub open spec fn last_word_on(key: Key, events: Seq<EventType>) -> Option<bool>
    decreases events.len(),
{
    if events.len() == 0 {
        None
    } else if events.last() == EventType::KeyPress(key) {
        Some(true)
    } else if events.last() == EventType::KeyRelease(key) {
        Some(false)
    } else {
        last_word_on(key, events.drop_last())
    }
}

/// A key is held down after a run of events exactly when the last of them
/// that concerns it is a press, or, when none does, when it was held down
/// before: events of other keys, and events that are not key events, leave
/// it as it was.
pub proof fn law_key_follows_its_last_event(start: Set<Key>, events: Seq<EventType>, key: Key)
    ensures
        pressed_after(start, events).contains(key) == match last_word_on(key, events) {
            Some(pressed) => pressed,
            None => start.contains(key),
        },
    decreases events.len(),
{
    if events.len() > 0 {
        law_key_follows_its_last_event(start, events.drop_last(), key);
    }
}

/// Releasing a key that was pressed while up gives back the keys held before.
pub proof fn law_release_undoes_press(pressed: Set<Key>, key: Key)
    requires
        !pressed.contains(key),
    ensures
        key_event_effect(key_event_effect(pressed, EventType::KeyPress(key)), EventType::KeyRelease(key))
            == pressed,
{
    assert(pressed.insert(key).remove(key) =~= pressed);
}

/// Pressing a key that is already down changes nothing; so does releasing a
/// key that is already up.
pub proof fn law_repeated_events_change_nothing(pressed: Set<Key>, key: Key)
    ensures
        key_event_effect(key_event_effect(pressed, EventType::KeyPress(key)), EventType::KeyPress(key))
            == key_event_effect(pressed, EventType::KeyPress(key)),
        key_event_effect(key_event_effect(pressed, EventType::KeyRelease(key)), EventType::KeyRelease(key))
            == key_event_effect(pressed, EventType::KeyRelease(key)),
{
    assert(pressed.insert(key).insert(key) =~= pressed.insert(key));
    assert(pressed.remove(key).remove(key) =~= pressed.remove(key));
}

impl View for KeyboardState {
    type V = Set<Key>;

    closed spec fn view(&self) -> Set<Key> {
        self.pressed_keys@.to_set()
    }
}

/// The position of `key` in `keys`, if it occurs there.
fn position_of(keys: &Vec<Key>, key: Key) -> (r: Option<usize>)
    ensures
        match r {
            Some(i) => i < keys.len() && keys@[i as int] == key,
            None => !keys@.contains(key),
        },
{
    let mut i: usize = 0;
    while i < keys.len()
        invariant
            i <= keys.len(),
            forall|j: int| 0 <= j < i ==> keys@[j] != key,
        decreases keys.len() - i,
    {
        if keys[i] == key {
            return Some(i);
        }
        i = i + 1;
    }
    None
}

impl KeyboardState {
    /// No key is recorded twice.
    #[verifier::type_invariant]
    closed spec fn no_key_twice(self) -> bool {
        self.pressed_keys@.no_duplicates()
    }

    /// A keyboard with no key held down.
    pub fn new() -> (s: Self)
        ensures
            s@ == Set::<Key>::empty(),
    {
        let s = KeyboardState { pressed_keys: Vec::new() };
        assert(s@ =~= Set::<Key>::empty());
        s
    }

    /// Records that `key` went down.
    fn press(&mut self, key: Key)
        ensures
            final(self)@ == old(self)@.insert(key),
    {
        proof {
            use_type_invariant(&*self);
        }
        if position_of(&self.pressed_keys, key).is_none() {
            let mut keys: Vec<Key> = Vec::new();
            std::mem::swap(&mut keys, &mut self.pressed_keys);
            let ghost before = keys@;
            keys.push(key);
            proof {
                assert forall|x: Key| #[trigger] keys@.contains(x) <==> before.contains(x) || x == key by {
                    if x == key {
                        assert(keys@[before.len() as int] == key);
                    }
                    if before.contains(x) {
                        let j = choose|j: int| 0 <= j < before.len() && before[j] == x;
                        assert(keys@[j] == x);
                    }
                }
            }
            self.pressed_keys = keys;
        }
        assert(self@ =~= old(self)@.insert(key));
    }

    /// Records that `key` went up.
    fn release(&mut self, key: Key)
        ensures
            final(self)@ == old(self)@.remove(key),
    {
        proof {
            use_type_invariant(&*self);
        }
        let ghost before = self.pressed_keys@;
        match position_of(&self.pressed_keys, key) {
            Some(i) => {
                let mut keys: Vec<Key> = Vec::new();
                std::mem::swap(&mut keys, &mut self.pressed_keys);
                keys.remove(i);
                self.pressed_keys = keys;
                assert forall|x: Key| #[trigger] self.pressed_keys@.contains(x)
                    <==> before.contains(x) && x != key by {
                    if self.pressed_keys@.contains(x) {
                        let j = choose|j: int| 0 <= j < self.pressed_keys@.len() && self.pressed_keys@[j] == x;
                        if j < i {
                            assert(before[j] == x);
                        } else {
                            assert(before[j + 1] == x);
                        }
                    }
                    if before.contains(x) && x != key {
                        let j = choose|j: int| 0 <= j < before.len() && before[j] == x;
                        if j < i {
                            assert(self.pressed_keys@[j] == x);
                        } else {
                            assert(j != i);
                            assert(self.pressed_keys@[j - 1] == x);
                        }
                    }
                }
            },
            None => {},
        }
        assert(self@ =~= old(self)@.remove(key));
    }

    /// Takes a key event into account: a press marks its key as held down, a
    /// release marks it as up. Any other kind of event is refused with an
    /// error message, and the state is left unchanged.
    pub fn update_state(&mut self, event_type: &EventType) -> (r: Result<(), String>)
        ensures
            final(self)@ == key_event_effect(old(self)@, *event_type),
            r is Ok <==> is_key_event(*event_type),
            r matches Err(message) ==> message@ == "Unsupported event type for keyboard"@,
    {
        match event_type {
            EventType::KeyPress(key) => {
                self.press(*key);
                Ok(())
            },
            EventType::KeyRelease(key) => {
                self.release(*key);
                Ok(())
            },
            _ => Err("Unsupported event type for keyboard".to_owned()),
        }
    }

    /// Whether `key` is currently held down.
    pub fn is_key_pressed(&self, key: Key) -> (r: bool)
        ensures
            r == self@.contains(key),
    {
        position_of(&self.pressed_keys, key).is_some()
    }
}

} // verus!
