//! The state of the keyboard and the mouse over one frame.
//!
//! An [`Inputs`] is fed the inputs of the window one by one. It keeps track
//! of what is held down, of where the cursor is, and of what came in since the
//! frame began; [`Inputs::reset`] begins the next frame. A key is named by the
//! code that the window system gives it, and a position is whatever the window
//! system hands out: this state stores it and never looks inside.
//!
//! The state is modelled by an [`InputState`]: every input takes it to
//! [`InputState::after`], and every query reads one of its fields.

use std::collections::HashMap;

use vstd::prelude::*;
use vstd::std_specs::hash::{group_hash_axioms, spec_hash_map_iter};
use vstd::std_specs::iter::IteratorSpec;

verus! {

/// Whether a key or a button went down or came up.
#[derive(Debug, Clone, Copy, PartialEq, Eq, Structural)]
pub enum ElementState {
    /// It went down.
    Pressed,
    /// It came up.
    Released,
}

/// A key of the keyboard, named by the code that the window system gives it.
#[derive(Debug, Clone, Copy, PartialEq, Eq, Structural)]
pub struct KeyCode(pub u32);

/// A button of the mouse.
#[derive(Debug, Clone, Copy, PartialEq, Eq, Structural)]
pub enum MouseButton {
    /// The left button.
    Left,
    /// The right button.
    Right,
    /// The middle button, often the wheel.
    Middle,
    /// The button that goes back.
    Back,
    /// The button that goes forward.
    Forward,
    /// Any other button, by the number that the window system gives it.
    Other(u16),
}

impl MouseButton {
    /// The code under which the state of this button is kept: the named
    /// buttons come first, the numbered ones follow.
    pub open spec fn code(self) -> u32 {
        match self {
            MouseButton::Left => 0,
            MouseButton::Right => 1,
            MouseButton::Middle => 2,
            MouseButton::Back => 3,
            MouseButton::Forward => 4,
            MouseButton::Other(number) => (5 + number) as u32,
        }
    }

    /// No two buttons share a code.
    pub proof fn lemma_code_tells_buttons_apart(self, other: MouseButton)
        requires
            self.code() == other.code(),
        ensures
            self == other,
    {
    }

    /// Computes the code of this button.
    fn to_code(self) -> (code: u32)
        ensures
            code == self.code(),
    {
        match self {
            MouseButton::Left => 0,
            MouseButton::Right => 1,
            MouseButton::Middle => 2,
            MouseButton::Back => 3,
            MouseButton::Forward => 4,
            MouseButton::Other(number) => 5 + number as u32,
        }
    }

    /// Finds the button with the given code, if there is one.
    fn from_code(code: u32) -> (button: Option<MouseButton>)
        ensures
            match button {
                Some(button) => button.code() == code,
                None => forall|button: MouseButton| button.code() != code,
            },
    {
        if code == 0 {
            Some(MouseButton::Left)
        } else if code == 1 {
            Some(MouseButton::Right)
        } else if code == 2 {
            Some(MouseButton::Middle)
        } else if code == 3 {
            Some(MouseButton::Back)
        } else if code == 4 {
            Some(MouseButton::Forward)
        } else if code <= 5 + 0xffff {
            Some(MouseButton::Other((code - 5) as u16))
        } else {
            None
        }
    }
}

/// One input of the window. `P` is the type of a position on it.
#[derive(Debug)]
pub enum EngineInput<P> {
    /// The cursor moved to the given position.
    MouseMove(P),
    /// A mouse button went down or came up.
    MouseButton(MouseButton, ElementState),
    /// The wheel was turned by the given amount.
    MouseWheel(P),
    /// A key went down or came up.
    KeyInput(KeyCode, ElementState),
}

impl<P: Copy> Clone for EngineInput<P> {
    fn clone(&self) -> (copy: Self)
        ensures
            copy == *self,
    {
        *self
    }
}

impl<P: Copy> Copy for EngineInput<P> {

}

/// What an [`Inputs`] holds.
pub struct InputState<P> {
    /// The inputs of this frame, in the order they came.
    pub raw_inputs: Seq<EngineInput<P>>,
    /// Where the cursor was last seen.
    pub mouse_position: Option<P>,
    /// How far the wheel was last turned in this frame.
    pub mouse_scroll_delta: Option<P>,
    /// The keys that are held down.
    pub keys_pressed: Set<KeyCode>,
    /// The keys that went down in this frame, in the order they did.
    pub keys_just_pressed: Seq<KeyCode>,
    /// The keys that came up in this frame, in the order they did.
    pub keys_just_released: Seq<KeyCode>,
    /// The mouse buttons that are held down.
    pub mouse_buttons_pressed: Set<MouseButton>,
    /// The mouse buttons that went down in this frame, in the order they did.
    pub mouse_buttons_just_pressed: Seq<MouseButton>,
    /// The mouse buttons that came up in this frame, in the order they did.
    pub mouse_buttons_just_released: Seq<MouseButton>,
}

impl<P> InputState<P> {
    /// The state before any input: nothing is held down and nothing is known
    /// of the cursor.
    pub open spec fn initial() -> Self {
        InputState {
            raw_inputs: Seq::empty(),
            mouse_position: None,
            mouse_scroll_delta: None,
            keys_pressed: Set::empty(),
            keys_just_pressed: Seq::empty(),
            keys_just_released: Seq::empty(),
            mouse_buttons_pressed: Set::empty(),
            mouse_buttons_just_pressed: Seq::empty(),
            mouse_buttons_just_released: Seq::empty(),
        }
    }

    /// The state after `input`: the input is recorded, and what it tells of
    /// the cursor, the wheel, a key or a button replaces what was known.
    pub open spec fn after(self, input: EngineInput<P>) -> Self {
        let seen = InputState { raw_inputs: self.raw_inputs.push(input), ..self };
        match input {
            EngineInput::MouseMove(position) => InputState {
                mouse_position: Some(position),
                ..seen
            },
            EngineInput::MouseWheel(delta) => InputState { mouse_scroll_delta: Some(delta), ..seen },
            EngineInput::MouseButton(button, ElementState::Pressed) => InputState {
                mouse_buttons_pressed: self.mouse_buttons_pressed.insert(button),
                mouse_buttons_just_pressed: self.mouse_buttons_just_pressed.push(button),
                ..seen
            },
            EngineInput::MouseButton(button, ElementState::Released) => InputState {
                mouse_buttons_pressed: self.mouse_buttons_pressed.remove(button),
                mouse_buttons_just_released: self.mouse_buttons_just_released.push(button),
                ..seen
            },
            EngineInput::KeyInput(key, ElementState::Pressed) => InputState {
                keys_pressed: self.keys_pressed.insert(key),
                keys_just_pressed: self.keys_just_pressed.push(key),
                ..seen
            },
            EngineInput::KeyInput(key, ElementState::Released) => InputState {
                keys_pressed: self.keys_pressed.remove(key),
                keys_just_released: self.keys_just_released.push(key),
                ..seen
            },
        }
    }

    /// The state at the start of the next frame: what is held down and where
    /// the cursor is stay, all that belongs to the frame is forgotten.
    pub open spec fn next_frame(self) -> Self {
        InputState {
            raw_inputs: Seq::empty(),
            mouse_position: self.mouse_position,
            mouse_scroll_delta: None,
            keys_pressed: self.keys_pressed,
            keys_just_pressed: Seq::empty(),
            keys_just_released: Seq::empty(),
            mouse_buttons_pressed: self.mouse_buttons_pressed,
            mouse_buttons_just_pressed: Seq::empty(),
            mouse_buttons_just_released: Seq::empty(),
        }
    }
}

/// The state of the keyboard and the mouse: what is held down, and what came
/// in during the current frame.
pub struct Inputs<P> {
    raw_inputs: Vec<EngineInput<P>>,
    mouse_position: Option<P>,
    mouse_scroll_delta: Option<P>,
    key_codes: HashMap<u32, bool>,
    keys_just_pressed: Vec<KeyCode>,
    keys_just_released: Vec<KeyCode>,
    mouse_buttons: HashMap<u32, bool>,
    mouse_buttons_just_pressed: Vec<MouseButton>,
    mouse_buttons_just_released: Vec<MouseButton>,
}

impl<P> View for Inputs<P> {
    type V = InputState<P>;

    closed spec fn view(&self) -> InputState<P> {
        InputState {
            raw_inputs: self.raw_inputs@,
            mouse_position: self.mouse_position,
            mouse_scroll_delta: self.mouse_scroll_delta,
            keys_pressed: Set::new(|key: KeyCode| is_down(self.key_codes@, key.0)),
            keys_just_pressed: self.keys_just_pressed@,
            keys_just_released: self.keys_just_released@,
            mouse_buttons_pressed: Set::new(
                |button: MouseButton| is_down(self.mouse_buttons@, button.code()),
            ),
            mouse_buttons_just_pressed: self.mouse_buttons_just_pressed@,
            mouse_buttons_just_released: self.mouse_buttons_just_released@,
        }
    }
}

impl<P: Copy> Default for Inputs<P> {
    fn default() -> (inputs: Self)
        ensures
            inputs@ == InputState::<P>::initial(),
    {
        Inputs::new()
    }
}

impl<P: Copy> Inputs<P> {
    /// Creates the state before any input.
    pub fn new() -> (inputs: Self)
        ensures
            inputs@ == InputState::<P>::initial(),
    {
        let inputs = Inputs {
            raw_inputs: Vec::new(),
            mouse_position: None,
            mouse_scroll_delta: None,
            key_codes: HashMap::new(),
            keys_just_pressed: Vec::new(),
            keys_just_released: Vec::new(),
            mouse_buttons: HashMap::new(),
            mouse_buttons_just_pressed: Vec::new(),
            mouse_buttons_just_released: Vec::new(),
        };
        assert(inputs@.keys_pressed =~= Set::empty());
        assert(inputs@.mouse_buttons_pressed =~= Set::empty());
        inputs
    }

    /// Applies `input` to this state and records it among the inputs of the
    /// frame.
    pub fn handle_input(&mut self, input: EngineInput<P>)
        ensures
            final(self)@ == old(self)@.after(input),
    {
        broadcast use group_hash_axioms;

        match input {
            EngineInput::MouseMove(position) => {
                self.mouse_position = Some(position);
            },
            EngineInput::MouseButton(button, state) => {
                match state {
                    ElementState::Pressed => {
                        self.mouse_buttons.insert(button.to_code(), true);
                        self.mouse_buttons_just_pressed.push(button);
                    },
                    ElementState::Released => {
                        self.mouse_buttons.insert(button.to_code(), false);
                        self.mouse_buttons_just_released.push(button);
                    },
                }
            },
            EngineInput::MouseWheel(delta) => {
                self.mouse_scroll_delta = Some(delta);
            },
            EngineInput::KeyInput(key, state) => {
                match state {
                    ElementState::Pressed => {
                        self.key_codes.insert(key.0, true);
                        self.keys_just_pressed.push(key);
                    },
                    ElementState::Released => {
                        self.key_codes.insert(key.0, false);
                        self.keys_just_released.push(key);
                    },
                }
            },
        };
        self.raw_inputs.push(input);
        assert(self@.keys_pressed =~= old(self)@.after(input).keys_pressed);
        assert(self@.mouse_buttons_pressed =~= old(self)@.after(input).mouse_buttons_pressed);
    }

    /// Begins the next frame: what is held down and where the cursor is stay,
    /// all that belongs to the frame is forgotten.
    pub fn reset(&mut self)
        ensures
            final(self)@ == old(self)@.next_frame(),
    {
        self.mouse_scroll_delta = None;
        self.raw_inputs.clear();
        self.mouse_buttons_just_pressed.clear();
        self.mouse_buttons_just_released.clear();
        self.keys_just_pressed.clear();
        self.keys_just_released.clear();
    }

    /// Returns the inputs of this frame, in the order they came.
    pub fn raw_inputs(&self) -> (inputs: &Vec<EngineInput<P>>)
        ensures
            inputs@ == self@.raw_inputs,
    {
        &self.raw_inputs
    }

    /// Returns the mouse buttons that are held down, each once, in no
    /// particular order.
    pub fn mouse_buttons_pressed(&self) -> (buttons: Vec<MouseButton>)
        ensures
            buttons@.no_duplicates(),
            buttons@.to_set() == self@.mouse_buttons_pressed,
    {
        let codes = codes_down(&self.mouse_buttons);
        let mut buttons: Vec<MouseButton> = Vec::new();
        for i in 0..codes.len()
            invariant
                codes@.no_duplicates(),
                buttons@.no_duplicates(),
                forall|j: int|
                    0 <= j < buttons@.len() ==> codes@.subrange(0, i as int).contains(
                        (#[trigger] buttons@[j]).code(),
                    ),
                forall|button: MouseButton|
                    codes@.subrange(0, i as int).contains(#[trigger] button.code())
                        ==> buttons@.contains(button),
        {
            let ghost before = buttons@;
            if let Some(button) = MouseButton::from_code(codes[i]) {
                buttons.push(button);
            }
            proof {
                let seen = codes@.subrange(0, i + 1);
                assert forall|j: int| 0 <= j < buttons@.len() implies seen.contains(
                    (#[trigger] buttons@[j]).code(),
                ) by {
                    if j < before.len() {
                        let earlier = codes@.subrange(0, i as int);
                        let k = choose|k: int|
                            0 <= k < earlier.len() && earlier[k] == before[j].code();
                        assert(seen[k] == buttons@[j].code());
                    } else {
                        assert(seen[i as int] == buttons@[j].code());
                    }
                }
                assert forall|button: MouseButton|
                    seen.contains(#[trigger] button.code()) implies buttons@.contains(button) by {
                    let j = choose|j: int| 0 <= j < seen.len() && seen[j] == button.code();
                    if j < i {
                        assert(codes@.subrange(0, i as int)[j] == button.code());
                        let k = choose|k: int| 0 <= k < before.len() && before[k] == button;
                        assert(buttons@[k] == button);
                    } else {
                        let last = buttons@[buttons@.len() - 1];
                        last.lemma_code_tells_buttons_apart(button);
                    }
                }
            }
        }
        assert(codes@.subrange(0, codes@.len() as int) =~= codes@);
        buttons
    }

    /// Returns the mouse buttons pressed in this frame, in the order they
    /// were.
    pub fn mouse_buttons_just_pressed(&self) -> (buttons: &Vec<MouseButton>)
        ensures
            buttons@ == self@.mouse_buttons_just_pressed,
    {
        &self.mouse_buttons_just_pressed
    }

    /// Returns the mouse buttons released in this frame, in the order they
    /// were.
    pub fn mouse_buttons_just_released(&self) -> (buttons: &Vec<MouseButton>)
        ensures
            buttons@ == self@.mouse_buttons_just_released,
    {
        &self.mouse_buttons_just_released
    }

    /// Returns the keys that are held down, each once, in no particular
    /// order.
    pub fn keys_pressed(&self) -> (keys: Vec<KeyCode>)
        ensures
            keys@.no_duplicates(),
            keys@.to_set() == self@.keys_pressed,
    {
        let codes = codes_down(&self.key_codes);
        let mut keys: Vec<KeyCode> = Vec::new();
        for i in 0..codes.len()
            invariant
                keys@.len() == i,
                forall|j: int| 0 <= j < i ==> keys@[j] == KeyCode(codes@[j]),
        {
            keys.push(KeyCode(codes[i]));
        }
        assert forall|key: KeyCode| self@.keys_pressed.contains(key) implies keys@.contains(key) by {
            let j = choose|j: int| 0 <= j < codes@.len() && codes@[j] == key.0;
            assert(keys@[j] == key);
        }
        keys
    }

    /// Returns the keys pressed in this frame, in the order they were.
    pub fn keys_just_pressed(&self) -> (keys: &Vec<KeyCode>)
        ensures
            keys@ == self@.keys_just_pressed,
    {
        &self.keys_just_pressed
    }

    /// Returns the keys released in this frame, in the order they were.
    pub fn keys_just_released(&self) -> (keys: &Vec<KeyCode>)
        ensures
            keys@ == self@.keys_just_released,
    {
        &self.keys_just_released
    }

    /// Returns the position of the cursor, once it is known.
    pub fn mouse_position(&self) -> (position: Option<&P>)
        ensures
            position == match self@.mouse_position {
                Some(p) => Some(&p),
                None => None,
            },
    {
        self.mouse_position.as_ref()
    }

    /// Returns how far the wheel was last turned in this frame, if it was.
    pub fn mouse_scroll_delta(&self) -> (delta: Option<&P>)
        ensures
            delta == match self@.mouse_scroll_delta {
                Some(d) => Some(&d),
                None => None,
            },
    {
        self.mouse_scroll_delta.as_ref()
    }

    /// Returns true if `key` is held down.
    pub fn is_key_down(&self, key: &KeyCode) -> (down: bool)
        ensures
            down == self@.keys_pressed.contains(*key),
    {
        broadcast use group_hash_axioms;

        match self.key_codes.get(&key.0) {
            Some(down) => *down,
            None => false,
        }
    }

    /// Returns true if `button` is held down.
    pub fn is_mouse_button_down(&self, button: &MouseButton) -> (down: bool)
        ensures
            down == self@.mouse_buttons_pressed.contains(*button),
    {
        broadcast use group_hash_axioms;

        match self.mouse_buttons.get(&button.to_code()) {
            Some(down) => *down,
            None => false,
        }
    }

    /// Returns true if `key` was pressed in this frame.
    pub fn key_just_pressed(&self, key: &KeyCode) -> (pressed: bool)
        ensures
            pressed == self@.keys_just_pressed.contains(*key),
    {
        holds_key(&self.keys_just_pressed, key)
    }

    /// Returns true if `key` was released in this frame.
    pub fn key_just_released(&self, key: &KeyCode) -> (released: bool)
        ensures
            released == self@.keys_just_released.contains(*key),
    {
        holds_key(&self.keys_just_released, key)
    }

    /// Returns true if `button` was pressed in this frame.
    pub fn mouse_button_just_pressed(&self, button: &MouseButton) -> (pressed: bool)
        ensures
            pressed == self@.mouse_buttons_just_pressed.contains(*button),
    {
        holds_button(&self.mouse_buttons_just_pressed, button)
    }

    /// Returns true if `button` was released in this frame.
    pub fn mouse_button_just_released(&self, button: &MouseButton) -> (released: bool)
        ensures
            released == self@.mouse_buttons_just_released.contains(*button),
    {
        holds_button(&self.mouse_buttons_just_released, button)
    }
}

/// Whether `states` says that `code` is down: a code is up until it is first
/// heard of.
spec fn is_down(states: Map<u32, bool>, code: u32) -> bool {
    states.contains_key(code) && states[code]
}

/// Whether entry `i` of `entries` says that `code` is down.
spec fn is_down_at(entries: Seq<(&u32, &bool)>, i: int, code: u32) -> bool {
    *entries[i].0 == code && *entries[i].1
}

/// Whether one of the first `n` of `entries` says that `code` is down.
spec fn down_before(entries: Seq<(&u32, &bool)>, n: int, code: u32) -> bool {
    exists|i: int| 0 <= i < n && #[trigger] is_down_at(entries, i, code)
}

/// Collects the codes that `states` holds as down, each once. Their order is
/// that in which the map hands out its entries.
fn codes_down(states: &HashMap<u32, bool>) -> (codes: Vec<u32>)
    ensures
        codes@.no_duplicates(),
        forall|code: u32| codes@.contains(code) <==> is_down(states@, code),
{
    broadcast use group_hash_axioms;

    let mut codes: Vec<u32> = Vec::new();
    let entries = states.iter();
    for entry in it: entries
        invariant
            it.seq() == spec_hash_map_iter(states).remaining(),
            it.seq().no_duplicates(),
            codes@.no_duplicates(),
            forall|j: int|
                0 <= j < codes@.len() ==> down_before(it.seq(), it.index(), #[trigger] codes@[j]),
            forall|i: int|
                0 <= i < it.index() && *(#[trigger] it.seq()[i]).1 ==> codes@.contains(
                    *it.seq()[i].0,
                ),
    {
        let ghost here = it.index();
        let ghost before = codes@;
        let (code, down) = entry;
        if *down {
            codes.push(*code);
        }
        proof {
            assert forall|j: int| 0 <= j < codes@.len() implies down_before(
                it.seq(),
                here + 1,
                #[trigger] codes@[j],
            ) by {
                if j < before.len() {
                    let i = choose|i: int| 0 <= i < here && is_down_at(it.seq(), i, before[j]);
                    assert(is_down_at(it.seq(), i, codes@[j]));
                } else {
                    assert(is_down_at(it.seq(), here, codes@[j]));
                }
            }
            assert forall|i: int| 0 <= i < here + 1 && *(#[trigger] it.seq()[i]).1 implies codes@.contains(
                *it.seq()[i].0,
            ) by {
                if i < here {
                    let j = choose|j: int| 0 <= j < before.len() && before[j] == *it.seq()[i].0;
                    assert(codes@[j] == *it.seq()[i].0);
                } else {
                    assert(codes@[codes@.len() - 1] == *code);
                }
            }
        }
    }
    codes
}

/// Tells whether `key` is among `keys`.
fn holds_key(keys: &Vec<KeyCode>, key: &KeyCode) -> (found: bool)
    ensures
        found == keys@.contains(*key),
{
    for i in 0..keys.len()
        invariant
            forall|j: int| 0 <= j < i ==> keys@[j] != *key,
    {
        if keys[i] == *key {
            return true;
        }
    }
    false
}

/// Tells whether `button` is among `buttons`.
fn holds_button(buttons: &Vec<MouseButton>, button: &MouseButton) -> (found: bool)
    ensures
        found == buttons@.contains(*button),
{
    for i in 0..buttons.len()
        invariant
            forall|j: int| 0 <= j < i ==> buttons@[j] != *button,
    {
        if buttons[i] == *button {
            return true;
        }
    }
    false
}

} // verus!
