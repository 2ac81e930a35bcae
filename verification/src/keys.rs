//! The keyboard keys that stand for the buttons of the machine.

use crate::bits::Bits;
use std::collections::HashSet;
use vstd::prelude::*;

verus! {

/// A key that a button is assigned to.
#[derive(Clone, Copy, PartialEq, Eq, Structural)]
pub enum Key {
    Space,
    Z,
    LeftControl,
    X,
    Tab,
    Return,
    Right,
    D,
    Left,
    A,
    Up,
    W,
    Down,
    S,
    E,
    Q,
}

impl Key {
    /// The number of the key.
    pub open spec fn number(self) -> u8 {
        match self {
            Key::Space => 0,
            Key::Z => 1,
            Key::LeftControl => 2,
            Key::X => 3,
            Key::Tab => 4,
            Key::Return => 5,
            Key::Right => 6,
            Key::D => 7,
            Key::Left => 8,
            Key::A => 9,
            Key::Up => 10,
            Key::W => 11,
            Key::Down => 12,
            Key::S => 13,
            Key::E => 14,
            Key::Q => 15,
        }
    }

    fn index(self) -> (r: u8)
        ensures
            r == self.number(),
    {
        match self {
            Key::Space => 0,
            Key::Z => 1,
            Key::LeftControl => 2,
            Key::X => 3,
            Key::Tab => 4,
            Key::Return => 5,
            Key::Right => 6,
            Key::D => 7,
            Key::Left => 8,
            Key::A => 9,
            Key::Up => 10,
            Key::W => 11,
            Key::Down => 12,
            Key::S => 13,
            Key::E => 14,
            Key::Q => 15,
        }
    }
}

/// The keys that are held down, by their numbers.
pub struct PressedKeys {
    pub held: HashSet<u8>,
}

impl View for PressedKeys {
    type V = Set<Key>;

    open spec fn view(&self) -> Set<Key> {
        Set::new(|key: Key| self.held@.contains(key.number()))
    }
}

impl PressedKeys {
    /// No key is held down.
    pub fn new() -> (keys: PressedKeys)
        ensures
            keys@ == Set::<Key>::empty(),
    {
        let keys = PressedKeys { held: HashSet::new() };
        assert(keys@ =~= Set::<Key>::empty());
        keys
    }

    /// Tells whether a key is held down.
    pub fn contains(&self, key: Key) -> (r: bool)
        ensures
            r == self@.contains(key),
    {
        broadcast use vstd::std_specs::hash::group_hash_axioms;

        self.held.contains(&key.index())
    }

    /// Records that a key has been pressed.
    pub fn insert(&mut self, key: Key)
        ensures
            final(self)@ == old(self)@.insert(key),
    {
        broadcast use vstd::std_specs::hash::group_hash_axioms;

        self.held.insert(key.index());
        proof {
            lemma_numbers_are_unique();
        }
        assert(self@ =~= old(self)@.insert(key));
    }

    /// Records that a key has been released.
    pub fn remove(&mut self, key: Key)
        ensures
            final(self)@ == old(self)@.remove(key),
    {
        broadcast use vstd::std_specs::hash::group_hash_axioms;

        self.held.remove(&key.index());
        proof {
            lemma_numbers_are_unique();
        }
        assert(self@ =~= old(self)@.remove(key));
    }
}

/// No two keys have the same number.
proof fn lemma_numbers_are_unique()
    ensures
        forall|a: Key, b: Key| #[trigger] a.number() == #[trigger] b.number() ==> a == b,
{
}

/// The keys that the button with this number is assigned to.
pub open spec fn keys_of(button: int) -> Seq<Key> {
    if button == 0 {
        seq![Key::Space, Key::Z]
    } else if button == 1 {
        seq![Key::LeftControl, Key::X]
    } else if button == 2 {
        seq![Key::Tab]
    } else if button == 3 {
        seq![Key::Return]
    } else if button == 4 {
        seq![Key::Right, Key::D]
    } else if button == 5 {
        seq![Key::Left, Key::A]
    } else if button == 6 {
        seq![Key::Up, Key::W]
    } else if button == 7 {
        seq![Key::Down, Key::S]
    } else if button == 8 {
        seq![Key::E]
    } else {
        seq![Key::Q]
    }
}

/// Whether one of some keys is held down.
pub open spec fn any_held(pressed: Set<Key>, keys: Seq<Key>) -> bool {
    exists|i: int| 0 <= i < keys.len() && pressed.contains(#[trigger] keys[i])
}

/// The first `count` bits of the button register. The bit of a button is clear
/// while the button is pressed.
pub open spec fn buttons_below(pressed: Set<Key>, count: nat) -> u32
    decreases count,
{
    if count == 0 {
        0
    } else {
        buttons_below(pressed, (count - 1) as nat).with_bit(
            (count - 1) as u32,
            !any_held(pressed, keys_of(count - 1)),
        )
    }
}

/// The button register.
pub open spec fn buttons(pressed: Set<Key>) -> u32 {
    buttons_below(pressed, 10)
}

/// The button register has the bit of a button clear exactly while one of its
/// keys is held down, and the bits that belong to no button clear.
pub proof fn buttons_are_low_while_pressed(pressed: Set<Key>, button: u32)
    requires
        button < 32,
    ensures
        buttons(pressed).has_bit(button) == (button < 10 && !any_held(
            pressed,
            keys_of(button as int),
        )),
{
    lemma_buttons_below(pressed, 10, button);
}

/// Which keys press which button: the two action buttons and the four directions have
/// two keys each, and the other four buttons one.
pub proof fn buttons_have_their_keys(pressed: Set<Key>)
    ensures
        buttons(pressed).has_bit(0) == !(pressed.contains(Key::Space) || pressed.contains(Key::Z)),
        buttons(pressed).has_bit(1) == !(pressed.contains(Key::LeftControl) || pressed.contains(
            Key::X,
        )),
        buttons(pressed).has_bit(2) == !pressed.contains(Key::Tab),
        buttons(pressed).has_bit(3) == !pressed.contains(Key::Return),
        buttons(pressed).has_bit(4) == !(pressed.contains(Key::Right) || pressed.contains(Key::D)),
        buttons(pressed).has_bit(5) == !(pressed.contains(Key::Left) || pressed.contains(Key::A)),
        buttons(pressed).has_bit(6) == !(pressed.contains(Key::Up) || pressed.contains(Key::W)),
        buttons(pressed).has_bit(7) == !(pressed.contains(Key::Down) || pressed.contains(Key::S)),
        buttons(pressed).has_bit(8) == !pressed.contains(Key::E),
        buttons(pressed).has_bit(9) == !pressed.contains(Key::Q),
{
    assert forall|button: u32| button < 10 implies #[trigger] buttons(pressed).has_bit(button) == !(
    pressed.contains(keys_of(button as int)[0]) || pressed.contains(
        keys_of(button as int)[keys_of(button as int).len() - 1],
    )) by {
        buttons_are_low_while_pressed(pressed, button);
    }
}

proof fn lemma_buttons_below(pressed: Set<Key>, count: nat, button: u32)
    requires
        button < 32,
        count <= 10,
    ensures
        buttons_below(pressed, count).has_bit(button) == (button < count && !any_held(
            pressed,
            keys_of(button as int),
        )),
    decreases count,
{
    if count == 0 {
        assert(0u32 & (1u32 << button) == 0) by (bit_vector);
    } else {
        lemma_buttons_below(pressed, (count - 1) as nat, button);
        crate::bits::set_bit_is_local_u32(
            buttons_below(pressed, (count - 1) as nat),
            (count - 1) as u32,
            !any_held(pressed, keys_of(count - 1)),
            button,
        );
    }
}

} // verus!
