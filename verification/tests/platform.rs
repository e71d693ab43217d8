use glium::glutin::event::{ElementState, KeyboardInput, ModifiersState, VirtualKeyCode};
use runty8::runtime::state::InternalState;
use runty8::screen::{
    handle_event, handle_key, set_next_timer, to_screen, Flow, Keys, PlatformEvent, WindowSize,
    FRAMES_PER_SECOND, NANOSECONDS_PER_FRAME,
};
use runty8::{Event, Key, KeyState, KeyboardEvent, MouseButton, MouseEvent};

#[allow(deprecated)]
fn key_input(key: Option<VirtualKeyCode>, state: ElementState) -> KeyboardInput {
    KeyboardInput { scancode: 0, state, virtual_keycode: key, modifiers: ModifiersState::empty() }
}

struct Console {
    window: WindowSize,
    flow: Flow,
    state: InternalState,
    keys: Keys,
}

fn console() -> Console {
    Console {
        window: WindowSize { width: 640, height: 640 },
        flow: Flow::Run,
        state: InternalState::new(),
        keys: Keys::new(),
    }
}

fn handle(console: &mut Console, event: PlatformEvent) -> Option<Event> {
    handle_event(
        &event,
        &mut console.window,
        &mut console.flow,
        &mut console.state,
        &mut console.keys,
    )
}

#[test]
fn window_edges_map_onto_the_screen() {
    assert_eq!(to_screen(0, 640), 0);
    assert_eq!(to_screen(639, 640), 127);
    assert_eq!(to_screen(640, 640), 127);
    assert_eq!(to_screen(0, 128), 0);
    assert_eq!(to_screen(127, 128), 127);
    assert_eq!(to_screen(128, 128), 127);
    assert_eq!(to_screen(0, 1000), 0);
    assert_eq!(to_screen(999, 1000), 127);
    assert_eq!(to_screen(1000, 1000), 127);
}

#[test]
fn positions_are_scaled_and_rounded_down() {
    assert_eq!(to_screen(320, 640), 64);
    assert_eq!(to_screen(4, 640), 0);
    assert_eq!(to_screen(5, 640), 1);
    assert_eq!(to_screen(9, 640), 1);
    assert_eq!(to_screen(10, 640), 2);
    assert_eq!(to_screen(100, 300), 42);
    assert_eq!(to_screen(63, 64), 126);
}

#[test]
fn positions_outside_the_window_are_brought_onto_the_screen() {
    assert_eq!(to_screen(-1, 640), 0);
    assert_eq!(to_screen(i32::MIN, 640), 0);
    assert_eq!(to_screen(5000, 640), 127);
    assert_eq!(to_screen(i32::MAX, 1), 127);
    assert_eq!(to_screen(10, 0), 0);
}

#[test]
fn close_request_stops_the_loop() {
    let mut c = console();
    assert_eq!(handle(&mut c, PlatformEvent::CloseRequested), None);
    assert_eq!(c.flow, Flow::Exit);
}

#[test]
fn resize_changes_later_cursor_positions_and_gives_no_event() {
    let mut c = console();
    assert_eq!(handle(&mut c, PlatformEvent::CursorMoved { x: 320, y: 160 }),
        Some(Event::Mouse(MouseEvent::Move { x: 64, y: 32 })));
    assert_eq!((c.state.mouse_x, c.state.mouse_y), (64, 32));
    assert_eq!(handle(&mut c, PlatformEvent::Resized(WindowSize { width: 1280, height: 320 })), None);
    assert_eq!(c.window, WindowSize { width: 1280, height: 320 });
    assert_eq!((c.state.mouse_x, c.state.mouse_y), (64, 32));
    assert_eq!(handle(&mut c, PlatformEvent::CursorMoved { x: 320, y: 160 }),
        Some(Event::Mouse(MouseEvent::Move { x: 32, y: 64 })));
    assert_eq!((c.state.mouse_x, c.state.mouse_y), (32, 64));
    assert_eq!(c.flow, Flow::Run);
}

#[test]
fn cursor_on_the_far_corner_stays_on_the_screen() {
    let mut c = console();
    assert_eq!(handle(&mut c, PlatformEvent::CursorMoved { x: 640, y: 640 }),
        Some(Event::Mouse(MouseEvent::Move { x: 127, y: 127 })));
    assert_eq!(handle(&mut c, PlatformEvent::CursorMoved { x: 0, y: 0 }),
        Some(Event::Mouse(MouseEvent::Move { x: 0, y: 0 })));
}

#[test]
fn left_mouse_button_is_passed_on() {
    let mut c = console();
    let down = PlatformEvent::MouseInput { button: MouseButton::Left, state: ElementState::Pressed };
    assert_eq!(handle(&mut c, down), Some(Event::Mouse(MouseEvent::Down(MouseButton::Left))));
    assert_eq!(c.keys.mouse, Some(true));
    let up = PlatformEvent::MouseInput { button: MouseButton::Left, state: ElementState::Released };
    assert_eq!(handle(&mut c, up), Some(Event::Mouse(MouseEvent::Up(MouseButton::Left))));
    assert_eq!(c.keys.mouse, Some(false));
}

#[test]
fn other_mouse_buttons_are_dropped() {
    let mut c = console();
    for button in [MouseButton::Right, MouseButton::Middle] {
        for state in [ElementState::Pressed, ElementState::Released] {
            assert_eq!(handle(&mut c, PlatformEvent::MouseInput { button, state }), None);
            assert_eq!(c.keys.mouse, None);
        }
    }
}

#[test]
fn frame_timer_gives_ticks() {
    let mut c = console();
    assert_eq!(handle(&mut c, PlatformEvent::Init), None);
    assert_eq!(c.flow, Flow::WaitNextFrame);
    c.flow = Flow::Run;
    assert_eq!(handle(&mut c, PlatformEvent::ResumeTimeReached { delta_millis: 33 }),
        Some(Event::Tick { delta_millis: 33 }));
    assert_eq!(c.flow, Flow::WaitNextFrame);
}

#[test]
fn other_reports_change_nothing() {
    let mut c = console();
    assert_eq!(handle(&mut c, PlatformEvent::Other), None);
    assert_eq!(c.flow, Flow::Run);
    assert_eq!(c.window, WindowSize { width: 640, height: 640 });
    assert_eq!((c.state.mouse_x, c.state.mouse_y), (64, 64));
    assert_eq!(c.keys.mouse, None);
}

#[test]
fn frame_time_is_a_thirtieth_of_a_second() {
    assert_eq!(FRAMES_PER_SECOND, 30);
    assert_eq!(NANOSECONDS_PER_FRAME, 1_000_000_000 / 30);
    let mut flow = Flow::Exit;
    set_next_timer(&mut flow);
    assert_eq!(flow, Flow::WaitNextFrame);
}

#[test]
fn control_keys_set_their_levels() {
    let mut keys = Keys::new();
    assert_eq!(
        handle_key(&key_input(Some(VirtualKeyCode::X), ElementState::Pressed), &mut keys),
        Some(KeyboardEvent { key: Key::X, state: KeyState::Down })
    );
    assert_eq!(keys.x, Some(true));
    assert_eq!(
        handle_key(&key_input(Some(VirtualKeyCode::C), ElementState::Released), &mut keys),
        Some(KeyboardEvent { key: Key::C, state: KeyState::Up })
    );
    assert_eq!(keys.c, Some(false));
    for (code, pick) in [
        (VirtualKeyCode::Left, 0),
        (VirtualKeyCode::Up, 1),
        (VirtualKeyCode::Right, 2),
        (VirtualKeyCode::Down, 3),
        (VirtualKeyCode::Escape, 4),
    ] {
        let mut keys = Keys::new();
        assert_eq!(handle_key(&key_input(Some(code), ElementState::Pressed), &mut keys), None);
        let levels = [keys.left, keys.up, keys.right, keys.down, keys.escape];
        for (i, level) in levels.iter().enumerate() {
            assert_eq!(*level, if i == pick { Some(true) } else { None });
        }
        assert_eq!(keys.x, None);
        assert_eq!(keys.c, None);
        assert_eq!(keys.mouse, None);
    }
}

#[test]
fn several_reports_in_one_frame_leave_the_last_level() {
    let mut keys = Keys::new();
    handle_key(&key_input(Some(VirtualKeyCode::X), ElementState::Pressed), &mut keys);
    handle_key(&key_input(Some(VirtualKeyCode::X), ElementState::Released), &mut keys);
    handle_key(&key_input(Some(VirtualKeyCode::X), ElementState::Pressed), &mut keys);
    assert_eq!(keys.x, Some(true));
}

#[test]
fn letters_are_passed_on_without_touching_the_controls() {
    let mut c = console();
    let event = PlatformEvent::KeyboardInput(key_input(Some(VirtualKeyCode::A), ElementState::Pressed));
    assert_eq!(handle(&mut c, event),
        Some(Event::Keyboard(KeyboardEvent { key: Key::A, state: KeyState::Down })));
    assert_eq!(c.keys.x, None);
    assert_eq!(c.keys.left, None);
}

#[test]
fn unknown_keys_are_dropped() {
    let mut c = console();
    let unnamed = PlatformEvent::KeyboardInput(key_input(None, ElementState::Pressed));
    assert_eq!(handle(&mut c, unnamed), None);
    let f1 = PlatformEvent::KeyboardInput(key_input(Some(VirtualKeyCode::F1), ElementState::Pressed));
    assert_eq!(handle(&mut c, f1), None);
    assert_eq!(c.keys.x, None);
    assert_eq!(c.keys.escape, None);
    assert_eq!(c.flow, Flow::Run);
}
