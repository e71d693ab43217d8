use glium::glutin::event::{ElementState, VirtualKeyCode};
use runty8::{Key, KeyState};

#[test]
fn letters_map_to_their_keys() {
    assert_eq!(Key::from_virtual_keycode(VirtualKeyCode::A), Some(Key::A));
    assert_eq!(Key::from_virtual_keycode(VirtualKeyCode::Z), Some(Key::Z));
    assert_eq!(Key::from_virtual_keycode(VirtualKeyCode::LControl), Some(Key::Control));
}

#[test]
fn other_keys_map_to_none() {
    assert_eq!(Key::from_virtual_keycode(VirtualKeyCode::Escape), None);
    assert_eq!(Key::from_virtual_keycode(VirtualKeyCode::RControl), None);
    assert_eq!(Key::from_virtual_keycode(VirtualKeyCode::Key1), None);
}

#[test]
fn key_state_follows_element_state() {
    assert_eq!(KeyState::from_state(ElementState::Pressed), KeyState::Down);
    assert_eq!(KeyState::from_state(ElementState::Released), KeyState::Up);
}
