use runty8::runtime::state::{Button, ButtonState, InternalState, Scene};
use runty8::screen::{begin_frame, Keys};
use runty8::Event;

fn tick() -> Option<Event> {
    Some(Event::Tick { delta_millis: 33 })
}

#[test]
fn button_starts_up() {
    let button = ButtonState::new();
    assert!(!button.btn());
    assert!(!button.btnp());
    assert!(!button.btnr());
}

#[test]
fn just_pressed_lasts_one_frame_while_held() {
    let mut button = ButtonState::new();
    button.update(Some(true));
    assert!(button.btn());
    assert!(button.btnp());
    for _ in 0..10 {
        button.update(Some(true));
        assert!(button.btn());
        assert!(!button.btnp());
        assert!(!button.btnr());
    }
}

#[test]
fn just_pressed_lasts_one_frame_without_repeat_events() {
    let mut button = ButtonState::new();
    button.update(Some(true));
    assert!(button.btnp());
    button.update(None);
    assert!(button.btn());
    assert!(!button.btnp());
}

#[test]
fn just_released_lasts_one_frame() {
    let mut button = ButtonState::new();
    button.update(Some(true));
    button.update(Some(true));
    button.update(Some(false));
    assert!(!button.btn());
    assert!(button.btnr());
    assert!(!button.btnp());
    button.update(Some(false));
    assert!(!button.btnr());
    button.update(None);
    assert!(!button.btnr());
    assert!(!button.btn());
}

#[test]
fn every_rising_edge_is_seen() {
    let mut button = ButtonState::new();
    let samples = [true, false, true, true, false, false, true];
    let mut pressed = 0;
    let mut released = 0;
    for sample in samples {
        button.update(Some(sample));
        if button.btnp() {
            pressed += 1;
        }
        if button.btnr() {
            released += 1;
        }
    }
    assert_eq!(pressed, 3);
    assert_eq!(released, 2);
}

#[test]
fn control_that_is_never_reported_stays_up() {
    let mut button = ButtonState::new();
    for _ in 0..5 {
        button.update(None);
        assert!(!button.btn());
        assert!(!button.btnp());
        assert!(!button.btnr());
    }
}

#[test]
fn state_starts_in_app_scene_with_mouse_in_the_middle() {
    let state = InternalState::new();
    assert_eq!(state.scene, Scene::App);
    assert_eq!((state.mouse_x, state.mouse_y), (64, 64));
    for button in [
        Button::Left,
        Button::Right,
        Button::Up,
        Button::Down,
        Button::X,
        Button::C,
        Button::Mouse,
        Button::Escape,
    ] {
        assert!(!state.btn(button));
        assert!(!state.btnp(button));
        assert!(!state.btnr(button));
    }
}

#[test]
fn update_keys_moves_each_control_on_its_own() {
    let mut state = InternalState::new();
    let mut keys = Keys::new();
    keys.left = Some(true);
    keys.mouse = Some(true);
    state.update_keys(&keys);
    assert!(state.btn(Button::Left) && state.btnp(Button::Left));
    assert!(state.btn(Button::Mouse) && state.btnp(Button::Mouse));
    assert!(!state.btn(Button::Right));
    assert!(!state.btn(Button::X));
    keys.left = Some(false);
    state.update_keys(&keys);
    assert!(state.btnr(Button::Left));
    assert!(state.btn(Button::Mouse) && !state.btnp(Button::Mouse));
    assert_eq!(*state.button(Button::Left), ButtonState { current: false, previous: true });
}

#[test]
fn scene_flips_back_and_forth() {
    let mut scene = Scene::initial();
    scene.flip();
    assert_eq!(scene, Scene::Editor);
    scene.flip();
    assert_eq!(scene, Scene::App);
}

#[test]
fn escape_flips_the_scene_once_however_long_it_is_held() {
    let mut state = InternalState::new();
    let mut keys = Keys::new();
    keys.escape = Some(true);
    begin_frame(&mut state, &keys, &tick());
    assert_eq!(state.scene, Scene::Editor);
    keys.escape = Some(false);
    begin_frame(&mut state, &keys, &tick());
    assert_eq!(state.scene, Scene::Editor);

    keys.escape = Some(true);
    for _ in 0..20 {
        begin_frame(&mut state, &keys, &tick());
        assert_eq!(state.scene, Scene::App);
    }
}

#[test]
fn only_a_tick_crosses_the_frame_boundary() {
    let mut state = InternalState::new();
    let mut keys = Keys::new();
    keys.escape = Some(true);
    keys.x = Some(true);
    begin_frame(&mut state, &keys, &None);
    assert_eq!(state.scene, Scene::App);
    assert!(!state.btn(Button::X));
    let moved = Some(Event::Mouse(runty8::MouseEvent::Move { x: 1, y: 2 }));
    begin_frame(&mut state, &keys, &moved);
    assert_eq!(state.scene, Scene::App);
    assert!(!state.btn(Button::X));
    begin_frame(&mut state, &keys, &tick());
    assert_eq!(state.scene, Scene::Editor);
    assert!(state.btnp(Button::X));
}
