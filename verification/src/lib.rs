//! A small fantasy console: a 128×128 screen of 16 colors, drawn by software
//! and driven frame by frame.
pub mod app;
pub mod draw;
pub mod editor;
pub mod font;
pub mod runtime;
pub mod screen;
pub mod text;
pub mod ui;

pub use screen::Resources;

use glium::glutin::event::{ElementState, VirtualKeyCode};
use vstd::prelude::*;

verus! {

/// `glium::glutin::event::VirtualKeyCode`, the platform's names for the keys
/// of a keyboard: an enum without fields, whose variants are read as they are
/// declared.
#[verifier::external_type_specification]
pub struct ExVirtualKeyCode(VirtualKeyCode);

/// `glium::glutin::event::ElementState`, the platform's two states of a key
/// or button: `Pressed` and `Released`.
#[verifier::external_type_specification]
pub struct ExElementState(ElementState);

/// Mouse buttons
#[derive(Clone, Copy, Debug, PartialEq, Eq, Structural)]
pub enum MouseButton {
    Left,
    Right,
    Middle,
}

/// Mouse-related events
#[derive(Clone, Copy, Debug, PartialEq, Eq, Structural)]
pub enum MouseEvent {
    /// The mouse moved; holds its new position, in screen pixels.
    Move { x: i32, y: i32 },
    /// Mouse button pressed
    Down(MouseButton),
    /// Mouse button released
    Up(MouseButton),
}

/// Keyboard keys
#[derive(Clone, Copy, Debug, PartialEq, Hash, Eq, Structural)]
pub enum Key {
    A,
    B,
    C,
    D,
    E,
    F,
    G,
    H,
    I,
    J,
    K,
    L,
    M,
    N,
    O,
    P,
    Q,
    R,
    S,
    T,
    U,
    V,
    W,
    X,
    Y,
    Z,
    Control,
}

impl Key {
    /// The key that a platform key stands for: the letters, and the left
    /// control key. Every other platform key stands for none.
    pub open spec fn of_virtual_keycode(key: VirtualKeyCode) -> Option<Key> {
        match key {
            VirtualKeyCode::A => Some(Key::A),
            VirtualKeyCode::B => Some(Key::B),
            VirtualKeyCode::C => Some(Key::C),
            VirtualKeyCode::D => Some(Key::D),
            VirtualKeyCode::E => Some(Key::E),
            VirtualKeyCode::F => Some(Key::F),
            VirtualKeyCode::G => Some(Key::G),
            VirtualKeyCode::H => Some(Key::H),
            VirtualKeyCode::I => Some(Key::I),
            VirtualKeyCode::J => Some(Key::J),
            VirtualKeyCode::K => Some(Key::K),
            VirtualKeyCode::L => Some(Key::L),
            VirtualKeyCode::M => Some(Key::M),
            VirtualKeyCode::N => Some(Key::N),
            VirtualKeyCode::O => Some(Key::O),
            VirtualKeyCode::P => Some(Key::P),
            VirtualKeyCode::Q => Some(Key::Q),
            VirtualKeyCode::R => Some(Key::R),
            VirtualKeyCode::S => Some(Key::S),
            VirtualKeyCode::T => Some(Key::T),
            VirtualKeyCode::U => Some(Key::U),
            VirtualKeyCode::V => Some(Key::V),
            VirtualKeyCode::W => Some(Key::W),
            VirtualKeyCode::X => Some(Key::X),
            VirtualKeyCode::Y => Some(Key::Y),
            VirtualKeyCode::Z => Some(Key::Z),
            VirtualKeyCode::LControl => Some(Key::Control),
            _ => None,
        }
    }

    /// The key that a platform key stands for, if any.
    pub fn from_virtual_keycode(key: VirtualKeyCode) -> (r: Option<Self>)
        ensures
            r == Key::of_virtual_keycode(key),
    {
        match key {
            VirtualKeyCode::A => Some(Self::A),
            VirtualKeyCode::B => Some(Self::B),
            VirtualKeyCode::C => Some(Self::C),
            VirtualKeyCode::D => Some(Self::D),
            VirtualKeyCode::E => Some(Self::E),
            VirtualKeyCode::F => Some(Self::F),
            VirtualKeyCode::G => Some(Self::G),
            VirtualKeyCode::H => Some(Self::H),
            VirtualKeyCode::I => Some(Self::I),
            VirtualKeyCode::J => Some(Self::J),
            VirtualKeyCode::K => Some(Self::K),
            VirtualKeyCode::L => Some(Self::L),
            VirtualKeyCode::M => Some(Self::M),
            VirtualKeyCode::N => Some(Self::N),
            VirtualKeyCode::O => Some(Self::O),
            VirtualKeyCode::P => Some(Self::P),
            VirtualKeyCode::Q => Some(Self::Q),
            VirtualKeyCode::R => Some(Self::R),
            VirtualKeyCode::S => Some(Self::S),
            VirtualKeyCode::T => Some(Self::T),
            VirtualKeyCode::U => Some(Self::U),
            VirtualKeyCode::V => Some(Self::V),
            VirtualKeyCode::W => Some(Self::W),
            VirtualKeyCode::X => Some(Self::X),
            VirtualKeyCode::Y => Some(Self::Y),
            VirtualKeyCode::Z => Some(Self::Z),
            VirtualKeyCode::LControl => Some(Self::Control),
            _ => None,
        }
    }
}

/// A key went down or up.
#[derive(Clone, Copy, Debug, PartialEq, Eq, Structural)]
pub struct KeyboardEvent {
    pub key: Key,
    pub state: KeyState,
}

/// Whether a key is up or down.
#[derive(Clone, Copy, Debug, PartialEq, Eq, Structural)]
pub enum KeyState {
    Up,
    Down,
}

impl KeyState {
    /// Whether the platform's state is the pressed one.
    pub open spec fn is_pressed(state: ElementState) -> bool {
        state is Pressed
    }

    /// Down for the platform's pressed state, up for its released state.
    pub fn from_state(state: ElementState) -> (r: Self)
        ensures
            r == if Self::is_pressed(state) {
                KeyState::Down
            } else {
                KeyState::Up
            },
    {
        match state {
            ElementState::Pressed => Self::Down,
            ElementState::Released => Self::Up,
        }
    }
}

/// What an application hears of: the mouse, the keyboard, and the start of
/// each frame with the milliseconds since the last one.
#[derive(Clone, Copy, Debug, PartialEq, Eq, Structural)]
pub enum Event {
    Mouse(MouseEvent),
    Keyboard(KeyboardEvent),
    Tick { delta_millis: i32 },
}

} // verus!
