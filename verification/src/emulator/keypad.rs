//! The sixteen-key hexadecimal keypad and the host events that drive it.
use vstd::prelude::*;

verus! {

/// A key of the host keyboard, as far as the machine tells keys apart.
#[derive(Clone, Copy, Debug, PartialEq, Eq, Structural)]
pub enum Keycode {
    Num0,
    Num1,
    Num2,
    Num3,
    Num4,
    Num5,
    Num6,
    Num7,
    Num8,
    Num9,
    A,
    B,
    C,
    D,
    E,
    F,
    Space,
    Escape,
    Other,
}

/// An input event of the host, reduced to what the machine reads of it.
#[derive(Clone, Copy, Debug, PartialEq, Eq)]
pub enum Event {
    /// The host asks the machine to stop.
    Quit,
    /// A key went down; `keycode` is `None` where the host could not name it.
    KeyDown { keycode: Option<Keycode> },
    /// Anything else.
    Other,
}

/// The host key that stands for a keypad value: the digit keys for 0 to 9,
/// the letter keys A to F for 10 to 15, and the space bar for every value
/// that is not on the keypad.
pub open spec fn mapped_key(primitive_key: u8) -> Keycode {
    match primitive_key {
        0 => Keycode::Num0,
        1 => Keycode::Num1,
        2 => Keycode::Num2,
        3 => Keycode::Num3,
        4 => Keycode::Num4,
        5 => Keycode::Num5,
        6 => Keycode::Num6,
        7 => Keycode::Num7,
        8 => Keycode::Num8,
        9 => Keycode::Num9,
        10 => Keycode::A,
        11 => Keycode::B,
        12 => Keycode::C,
        13 => Keycode::D,
        14 => Keycode::E,
        15 => Keycode::F,
        _ => Keycode::Space,
    }
}

/// The keypad value of a host key, if it is one of the sixteen.
pub open spec fn keypad_value(key: Keycode) -> Option<u8> {
    match key {
        Keycode::Num0 => Some(0u8),
        Keycode::Num1 => Some(1u8),
        Keycode::Num2 => Some(2u8),
        Keycode::Num3 => Some(3u8),
        Keycode::Num4 => Some(4u8),
        Keycode::Num5 => Some(5u8),
        Keycode::Num6 => Some(6u8),
        Keycode::Num7 => Some(7u8),
        Keycode::Num8 => Some(8u8),
        Keycode::Num9 => Some(9u8),
        Keycode::A => Some(10u8),
        Keycode::B => Some(11u8),
        Keycode::C => Some(12u8),
        Keycode::D => Some(13u8),
        Keycode::E => Some(14u8),
        Keycode::F => Some(15u8),
        _ => None,
    }
}

/// The keypad value that an event delivers: that of the key, for a key
/// press on the keypad, and nothing for any other event.
pub open spec fn pressed_value(event: Event) -> Option<u8> {
    match event {
        Event::KeyDown { keycode: Some(key) } => keypad_value(key),
        _ => None,
    }
}

/// Whether `events` holds a press of `key`.
pub open spec fn key_is_down(events: Seq<Event>, key: Keycode) -> bool {
    exists|i: int|
        0 <= i < events.len() && #[trigger] events[i] == (Event::KeyDown { keycode: Some(key) })
}

/// Whether `event` asks the machine to stop: a quit signal, or a press of
/// the escape key.
pub open spec fn is_quit(event: Event) -> bool {
    event is Quit || event == (Event::KeyDown { keycode: Some(Keycode::Escape) })
}

/// Whether any of `events` asks the machine to stop.
pub open spec fn quit_requested(events: Seq<Event>) -> bool {
    exists|i: int| 0 <= i < events.len() && is_quit(#[trigger] events[i])
}

/// The keypad value of the first key press on the keypad among `events`.
pub open spec fn first_press(events: Seq<Event>) -> Option<u8>
    decreases events.len(),
{
    if events.len() == 0 {
        None
    } else if pressed_value(events[0]) is Some {
        pressed_value(events[0])
    } else {
        first_press(events.drop_first())
    }
}

/// The key of a keypad value has that value, and the key of any other
/// value is not on the keypad; a key on the keypad is the key of its
/// value.
pub proof fn lemma_keypad_mapping(primitive_key: u8, key: Keycode)
    ensures
        primitive_key < 16 ==> keypad_value(mapped_key(primitive_key)) == Some(primitive_key),
        primitive_key >= 16 ==> keypad_value(mapped_key(primitive_key)) is None,
        keypad_value(key) matches Some(value) ==> value < 16 && mapped_key(value) == key,
{
}

/// Maps a keypad value to its host key.
pub fn get_mapped_key(primitive_key: u8) -> (key: Keycode)
    ensures
        key == mapped_key(primitive_key),
{
    match primitive_key {
        0 => Keycode::Num0,
        1 => Keycode::Num1,
        2 => Keycode::Num2,
        3 => Keycode::Num3,
        4 => Keycode::Num4,
        5 => Keycode::Num5,
        6 => Keycode::Num6,
        7 => Keycode::Num7,
        8 => Keycode::Num8,
        9 => Keycode::Num9,
        10 => Keycode::A,
        11 => Keycode::B,
        12 => Keycode::C,
        13 => Keycode::D,
        14 => Keycode::E,
        15 => Keycode::F,
        _ => Keycode::Space,
    }
}

/// The keypad value of a host key, if it is one of the sixteen.
pub fn keypad_value_of(key: Keycode) -> (value: Option<u8>)
    ensures
        value == keypad_value(key),
{
    match key {
        Keycode::Num0 => Some(0),
        Keycode::Num1 => Some(1),
        Keycode::Num2 => Some(2),
        Keycode::Num3 => Some(3),
        Keycode::Num4 => Some(4),
        Keycode::Num5 => Some(5),
        Keycode::Num6 => Some(6),
        Keycode::Num7 => Some(7),
        Keycode::Num8 => Some(8),
        Keycode::Num9 => Some(9),
        Keycode::A => Some(10),
        Keycode::B => Some(11),
        Keycode::C => Some(12),
        Keycode::D => Some(13),
        Keycode::E => Some(14),
        Keycode::F => Some(15),
        _ => None,
    }
}

/// Whether `events` holds a press of `key`.
pub fn is_key_down(events: &Vec<Event>, key: Keycode) -> (down: bool)
    ensures
        down == key_is_down(events@, key),
{
    let mut i: usize = 0;
    while i < events.len()
        invariant
            i <= events@.len(),
            forall|j: int| 0 <= j < i ==> events@[j] != (Event::KeyDown { keycode: Some(key) }),
        decreases events@.len() - i,
    {
        match events[i] {
            Event::KeyDown { keycode: Some(pressed) } => {
                if pressed == key {
                    return true;
                }
            },
            _ => {},
        }
        i += 1;
    }
    false
}

/// Whether any of `events` asks the machine to stop.
pub fn is_quit_requested(events: &Vec<Event>) -> (quit: bool)
    ensures
        quit == quit_requested(events@),
{
    let mut i: usize = 0;
    while i < events.len()
        invariant
            i <= events@.len(),
            forall|j: int| 0 <= j < i ==> !is_quit(#[trigger] events@[j]),
        decreases events@.len() - i,
    {
        match events[i] {
            Event::Quit => {
                return true;
            },
            Event::KeyDown { keycode: Some(Keycode::Escape) } => {
                return true;
            },
            _ => {},
        }
        i += 1;
    }
    false
}

/// The keypad value of the first key press on the keypad among `events`.
pub fn first_key_press(events: &Vec<Event>) -> (value: Option<u8>)
    ensures
        value == first_press(events@),
{
    let mut i: usize = 0;
    assert(events@.skip(0) =~= events@);
    while i < events.len()
        invariant
            i <= events@.len(),
            first_press(events@) == first_press(events@.skip(i as int)),
        decreases events@.len() - i,
    {
        assert(events@.skip(i as int).drop_first() =~= events@.skip(i + 1));
        match events[i] {
            Event::KeyDown { keycode: Some(pressed) } => {
                let value = keypad_value_of(pressed);
                if value.is_some() {
                    return value;
                }
            },
            _ => {},
        }
        i += 1;
    }
    None
}

} // verus!
