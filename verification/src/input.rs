//! The state of the keyboard and mouse buttons.
use vstd::prelude::*;
use crate::snapshot::{
    Deserialize, Deserializer, ReadUninit, Serialize, Serializer, WireFormat, WriteUninit,
};

verus! {

/// A key of the keyboard, by its number.
#[derive(Clone, Copy, Debug, PartialEq, Eq, Structural)]
pub struct KeyCode(pub u8);

/// A mouse button, by its number.
#[derive(Clone, Copy, Debug, PartialEq, Eq, Structural)]
pub struct MouseButton(pub u8);

/// The history of a button's state, one bit per frame: bit 0 is the current
/// frame, bit 1 the previous one, and so on. A set bit means "pressed".
#[derive(Clone, Copy, Default)]
pub struct ButtonState(pub u8);

impl ButtonState {
    /// Whether the button is pressed in the current frame.
    pub open spec fn spec_pressed(self) -> bool {
        self.0 & 1 == 1
    }

    /// Whether the button was pressed in the previous frame.
    pub open spec fn spec_was_pressed(self) -> bool {
        self.0 & 2 == 2
    }

    /// Returns `true` if the button is currently pressed.
    pub fn pressed(&self) -> (r: bool)
        ensures
            r == self.spec_pressed(),
    {
        let b = self.0;
        let r = (0b01 & b) == 0b01;
        assert((0b01u8 & b) == (b & 1u8)) by (bit_vector);
        r
    }

    /// Returns `true` if the button was pressed in this frame and not in the previous one.
    pub fn just_pressed(&self) -> (r: bool)
        ensures
            r == (self.spec_pressed() && !self.spec_was_pressed()),
    {
        let b = self.0;
        let r = (0b11 & b) == 0b01;
        assert(((0b11u8 & b) == 0b01u8) == ((b & 1u8) == 1u8 && (b & 2u8) != 2u8)) by (bit_vector);
        r
    }

    /// Returns `true` if the button was released in this frame: pressed in the
    /// previous frame and not in this one.
    pub fn just_released(&self) -> (r: bool)
        ensures
            r == (!self.spec_pressed() && self.spec_was_pressed()),
    {
        let b = self.0;
        let r = (0b11 & b) == 0b10;
        assert(((0b11u8 & b) == 0b10u8) == ((b & 1u8) != 1u8 && (b & 2u8) == 2u8)) by (bit_vector);
        r
    }

    /// Sets whether the button is pressed in the current frame; the history of
    /// earlier frames stays as it was.
    pub fn set_pressed(&mut self, pressed: bool)
        ensures
            final(self).spec_pressed() == pressed,
            final(self).0 >> 1u8 == old(self).0 >> 1u8,
    {
        let b = self.0;
        let p: u8 = if pressed {
            1
        } else {
            0
        };
        let r = (b & !1u8) | p;
        assert(p <= 1 ==> (((b & !1u8) | p) & 1u8 == 1u8) == (p == 1u8)) by (bit_vector);
        assert(p <= 1 ==> ((b & !1u8) | p) >> 1u8 == b >> 1u8) by (bit_vector);
        self.0 = r;
    }
}

/// A button's state is written as its history byte.
impl WireFormat for ButtonState {
    type Model = u8;

    open spec fn model(&self) -> u8 {
        self.0
    }

    open spec fn spec_encodes(m: u8, bytes: Seq<u8>) -> bool {
        bytes == seq![m]
    }

    open spec fn spec_encodable(m: u8) -> bool {
        true
    }

    open spec fn spec_decode(bytes: Seq<u8>) -> Option<(u8, nat)> {
        if bytes.len() < 1 {
            None
        } else {
            Some((bytes[0], 1))
        }
    }

    open spec fn spec_faithful() -> bool {
        true
    }

    proof fn lemma_round_trip(m: u8, bytes: Seq<u8>, rest: Seq<u8>) {
        assert((bytes + rest)[0] == bytes[0]);
    }

    proof fn lemma_decode_bounded(bytes: Seq<u8>) {
    }
}

impl Serialize for ButtonState {
    fn serialize<W: WriteUninit>(&self, serializer: &mut Serializer<W>) -> (r:
        crate::snapshot::Result<()>) {
        self.0.serialize(serializer)
    }
}

impl Deserialize for ButtonState {
    fn deserialize<R: ReadUninit>(deserializer: &mut Deserializer<R>) -> (r:
        crate::snapshot::Result<Self>) {
        let v = u8::deserialize(deserializer)?;
        Ok(ButtonState(v))
    }
}

/// A button's state can never be "just pressed" and "just released" at once;
/// a button just pressed is pressed, and one just released is not.
pub proof fn lemma_button_transitions(b: ButtonState)
    ensures
        !((b.spec_pressed() && !b.spec_was_pressed()) && (!b.spec_pressed()
            && b.spec_was_pressed())),
        (b.spec_pressed() && !b.spec_was_pressed()) ==> b.spec_pressed(),
        (!b.spec_pressed() && b.spec_was_pressed()) ==> !b.spec_pressed(),
{
}

/// Stores the button state of every key, by key number: `N` is the
/// number of keys.
pub struct KeyboardInputState<const N: usize>(pub [ButtonState; N]);

impl<const N: usize> Default for KeyboardInputState<N> {
    /// Every key released in every frame.
    fn default() -> (r: Self)
        ensures
            forall|i: int| 0 <= i < N ==> #[trigger] r.0@[i] == ButtonState(0),
    {
        KeyboardInputState([ButtonState(0); N])
    }
}

impl<const N: usize> KeyboardInputState<N> {
    /// Every key with its state, in key order: exactly `N` of them.
    pub fn iter(&self) -> (r: Vec<(KeyCode, ButtonState)>)
        requires
            N <= 256,
        ensures
            r@.len() == N,
            forall|i: int| 0 <= i < N ==> (#[trigger] r@[i]).0 == KeyCode(i as u8) && r@[i].1
                == self.0@[i],
    {
        let mut out: Vec<(KeyCode, ButtonState)> = Vec::new();
        let mut i: usize = 0;
        while i < N
            invariant
                N <= 256,
                i <= N,
                out@.len() == i,
                forall|j: int| 0 <= j < i ==> (#[trigger] out@[j]).0 == KeyCode(j as u8) && out@[j].1
                    == self.0@[j],
            decreases N - i,
        {
            out.push((KeyCode(i as u8), self.0[i]));
            i = i + 1;
        }
        out
    }

    /// The state of the key `key`.
    pub fn get(&self, key: KeyCode) -> (r: ButtonState)
        requires
            (key.0 as int) < N,
        ensures
            r == self.0@[key.0 as int],
    {
        self.0[key.0 as usize]
    }

    /// Replaces the state of the key `key`.
    pub fn set(&mut self, key: KeyCode, state: ButtonState)
        requires
            (key.0 as int) < N,
        ensures
            final(self).0@ == old(self).0@.update(key.0 as int, state),
    {
        self.0[key.0 as usize] = state;
    }
}

/// Stores the button state of every mouse button, by mouse button number: `N` is the
/// number of mouse buttons.
pub struct MouseButtonState<const N: usize>(pub [ButtonState; N]);

impl<const N: usize> Default for MouseButtonState<N> {
    /// Every mouse button released in every frame.
    fn default() -> (r: Self)
        ensures
            forall|i: int| 0 <= i < N ==> #[trigger] r.0@[i] == ButtonState(0),
    {
        MouseButtonState([ButtonState(0); N])
    }
}

impl<const N: usize> MouseButtonState<N> {
    /// Every mouse button with its state, in button order: exactly `N` of them.
    pub fn iter(&self) -> (r: Vec<(MouseButton, ButtonState)>)
        requires
            N <= 256,
        ensures
            r@.len() == N,
            forall|i: int| 0 <= i < N ==> (#[trigger] r@[i]).0 == MouseButton(i as u8) && r@[i].1
                == self.0@[i],
    {
        let mut out: Vec<(MouseButton, ButtonState)> = Vec::new();
        let mut i: usize = 0;
        while i < N
            invariant
                N <= 256,
                i <= N,
                out@.len() == i,
                forall|j: int| 0 <= j < i ==> (#[trigger] out@[j]).0 == MouseButton(j as u8) && out@[j].1
                    == self.0@[j],
            decreases N - i,
        {
            out.push((MouseButton(i as u8), self.0[i]));
            i = i + 1;
        }
        out
    }

    /// The state of the mouse button `button`.
    pub fn get(&self, button: MouseButton) -> (r: ButtonState)
        requires
            (button.0 as int) < N,
        ensures
            r == self.0@[button.0 as int],
    {
        self.0[button.0 as usize]
    }

    /// Replaces the state of the mouse button `button`.
    pub fn set(&mut self, button: MouseButton, state: ButtonState)
        requires
            (button.0 as int) < N,
        ensures
            final(self).0@ == old(self).0@.update(button.0 as int, state),
    {
        self.0[button.0 as usize] = state;
    }
}

} // verus!
