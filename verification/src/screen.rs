//! The frame cycle: from platform events to messages, updates and a drawn
//! screen.
use crate::app::{apply_all, AppCompat};
use crate::editor::SpriteEditor;
use crate::runtime::draw_context::{blank_screen, DrawContext, DrawData, Picture};
use crate::runtime::flags::Flags;
use crate::runtime::map::TileMap;
use crate::runtime::sprite_sheet::{Color, SpriteSheet};
use crate::runtime::state::{Button, InternalState, Scene};
use crate::ui::{option_seq, routed, Element};
use crate::{Event, Key, KeyState, KeyboardEvent, MouseButton, MouseEvent};
use glium::glutin::event::{ElementState, KeyboardInput, ModifiersState, VirtualKeyCode};
use vstd::prelude::*;

verus! {

/// What the applications share: the sprite sheet, the flags of its sprites,
/// the tile map, and the place where the assets are kept.
pub struct Resources {
    pub assets_path: String,
    pub sprite_sheet: SpriteSheet,
    pub sprite_flags: Flags,
    pub map: TileMap,
}

/// What the resources hold.
pub struct ResourcesView {
    pub assets_path: Seq<char>,
    pub sprite_sheet: Seq<Color>,
    pub sprite_flags: Seq<u8>,
    pub map: Seq<u8>,
}

impl View for Resources {
    type V = ResourcesView;

    open spec fn view(&self) -> ResourcesView {
        ResourcesView {
            assets_path: self.assets_path@,
            sprite_sheet: self.sprite_sheet@,
            sprite_flags: self.sprite_flags@,
            map: self.map@,
        }
    }
}

impl Resources {
    /// Sheet, flags and map have their fixed sizes.
    pub open spec fn wf(&self) -> bool {
        &&& self.sprite_sheet.wf()
        &&& self.sprite_flags.wf()
        &&& self.map.wf()
    }

    /// Empty sheet, flags and map.
    pub fn new(assets_path: String) -> (r: Resources)
        ensures
            r.wf(),
            r.assets_path == assets_path,
            r.sprite_sheet@ == Seq::new(16384, |p: int| 0u8),
            r.sprite_flags@ == Seq::new(256, |i: int| 0u8),
            r.map@ == Seq::new(8192, |i: int| 0u8),
    {
        Resources {
            assets_path,
            sprite_sheet: SpriteSheet::new(),
            sprite_flags: Flags::new(),
            map: TileMap::new(),
        }
    }
}

/// The last level that the platform reported for each control; `None` until it
/// reports one.
#[derive(Clone, Copy, Debug)]
pub struct Keys {
    pub left: Option<bool>,
    pub right: Option<bool>,
    pub up: Option<bool>,
    pub down: Option<bool>,
    pub x: Option<bool>,
    pub c: Option<bool>,
    pub escape: Option<bool>,
    pub mouse: Option<bool>,
}

impl Keys {
    /// The last level reported for a control.
    pub open spec fn level(&self, button: Button) -> Option<bool> {
        match button {
            Button::Left => self.left,
            Button::Right => self.right,
            Button::Up => self.up,
            Button::Down => self.down,
            Button::X => self.x,
            Button::C => self.c,
            Button::Mouse => self.mouse,
            Button::Escape => self.escape,
        }
    }

    /// Nothing reported yet.
    pub fn new() -> (k: Keys)
        ensures
            k == (Keys {
                left: None,
                right: None,
                up: None,
                down: None,
                x: None,
                c: None,
                escape: None,
                mouse: None,
            }),
    {
        Keys {
            left: None,
            right: None,
            up: None,
            down: None,
            x: None,
            c: None,
            escape: None,
            mouse: None,
        }
    }
}

/// `glium::glutin::event::KeyboardInput`, the platform's record of a key
/// going down or up. Its public fields are read as they are declared: the
/// key's name (`virtual_keycode`), where the platform knows one, and its new
/// state (`state`).
#[verifier::external_type_specification]
pub struct ExKeyboardInput(KeyboardInput);

/// `glium::glutin::event::ModifiersState`, the type of a field of
/// `KeyboardInput`. Nothing is read of it and nothing is claimed of it.
#[verifier::external_type_specification]
#[verifier::external_body]
pub struct ExModifiersState(ModifiersState);

/// Frames per second.
pub const FRAMES_PER_SECOND: u64 = 30;

/// The time of one frame, in nanoseconds.
pub const NANOSECONDS_PER_FRAME: u64 = 33_333_333;

/// The size of the window, in the units in which the platform reports the
/// position of the cursor.
#[derive(Clone, Copy, Debug, PartialEq, Eq, Structural)]
pub struct WindowSize {
    pub width: u32,
    pub height: u32,
}

/// What the platform reports.
#[derive(Clone, Copy, Debug)]
pub enum PlatformEvent {
    /// The window is to be closed.
    CloseRequested,
    /// The window has a new size.
    Resized(WindowSize),
    /// The cursor moved to this position in the window.
    CursorMoved { x: i32, y: i32 },
    /// A mouse button went down or up.
    MouseInput { button: MouseButton, state: ElementState },
    /// A key went down or up.
    KeyboardInput(KeyboardInput),
    /// The time of the next frame has come, so many milliseconds after it
    /// was asked for.
    ResumeTimeReached { delta_millis: i32 },
    /// The event loop has started.
    Init,
    /// Anything else.
    Other,
}

/// What the event loop is to do next.
#[derive(Clone, Copy, Debug, PartialEq, Eq, Structural)]
pub enum Flow {
    /// Go on as before.
    Run,
    /// Sleep until one frame's time from now.
    WaitNextFrame,
    /// Stop.
    Exit,
}

/// A position in the window as a position on the screen: scaled to the 128
/// pixels of the screen, rounded down, and brought onto the screen where the
/// cursor is on the far edge of the window or outside it.
pub open spec fn to_screen_spec(position: int, extent: int) -> int {
    if extent <= 0 {
        0
    } else {
        let scaled = position * 128 / extent;
        if scaled < 0 {
            0
        } else if scaled > 127 {
            127
        } else {
            scaled
        }
    }
}

/// A position in the window as a position on the screen.
pub fn to_screen(position: i32, extent: u32) -> (r: i32)
    ensures
        r == to_screen_spec(position as int, extent as int),
        0 <= r <= 127,
{
    if extent == 0 || position <= 0 {
        proof {
            if extent > 0 {
                let (p, e) = (position as int, extent as int);
                vstd::arithmetic::div_mod::lemma_fundamental_div_mod(p * 128, e);
                vstd::arithmetic::div_mod::lemma_mod_bound(p * 128, e);
                let q = p * 128 / e;
                assert(q <= 0) by (nonlinear_arith)
                    requires
                        p * 128 == e * q + (p * 128) % e,
                        0 <= (p * 128) % e < e,
                        p <= 0,
                        e > 0,
                ;
            }
        }
        0
    } else {
        let scaled = (position as i64 * 128) / (extent as i64);
        if scaled > 127 {
            127
        } else {
            scaled as i32
        }
    }
}

/// Every position of the cursor is mapped to a pixel of the screen: the near
/// edge of the window to 0, and the far edge, which scales to 128, to 127.
pub proof fn lemma_to_screen_edges(position: int, extent: int)
    ensures
        0 <= to_screen_spec(position, extent) <= 127,
        to_screen_spec(0, extent) == 0,
        extent > 0 ==> extent * 128 / extent == 128,
        to_screen_spec(extent, extent) == if extent > 0 {
            127int
        } else {
            0int
        },
{
    if extent > 0 {
        vstd::arithmetic::div_mod::lemma_fundamental_div_mod_converse(extent * 128, extent, 128, 0);
    }
}

/// In a window at least as large as the screen, the last position before the
/// far edge is mapped to the last pixel.
pub proof fn lemma_to_screen_last(extent: int)
    requires
        extent >= 128,
    ensures
        to_screen_spec(extent - 1, extent) == 127,
{
    vstd::arithmetic::div_mod::lemma_fundamental_div_mod_converse(
        (extent - 1) * 128,
        extent,
        127,
        extent - 128,
    );
}

/// Whether the platform's state is the pressed one.
pub fn is_pressed(state: ElementState) -> (r: bool)
    ensures
        r == KeyState::is_pressed(state),
{
    match state {
        ElementState::Pressed => true,
        ElementState::Released => false,
    }
}

/// The levels of the controls after a key went down or up: the arrows, `X`,
/// `C` and escape are controls, and no other key.
pub open spec fn keys_after(keys: Keys, key: VirtualKeyCode, pressed: bool) -> Keys {
    match key {
        VirtualKeyCode::X => Keys { x: Some(pressed), ..keys },
        VirtualKeyCode::C => Keys { c: Some(pressed), ..keys },
        VirtualKeyCode::Left => Keys { left: Some(pressed), ..keys },
        VirtualKeyCode::Up => Keys { up: Some(pressed), ..keys },
        VirtualKeyCode::Right => Keys { right: Some(pressed), ..keys },
        VirtualKeyCode::Down => Keys { down: Some(pressed), ..keys },
        VirtualKeyCode::Escape => Keys { escape: Some(pressed), ..keys },
        _ => keys,
    }
}

/// The levels of the controls after the platform's record of a key.
pub open spec fn keys_after_input(keys: Keys, input: KeyboardInput) -> Keys {
    match input.virtual_keycode {
        Some(key) => keys_after(keys, key, KeyState::is_pressed(input.state)),
        None => keys,
    }
}

/// The event that the platform's record of a key gives to applications: none
/// for a key without a name or with a name that stands for no key.
pub open spec fn keyboard_event(input: KeyboardInput) -> Option<KeyboardEvent> {
    match input.virtual_keycode {
        Some(key) => match Key::of_virtual_keycode(key) {
            Some(key) => Some(
                KeyboardEvent {
                    key,
                    state: if KeyState::is_pressed(input.state) {
                        KeyState::Down
                    } else {
                        KeyState::Up
                    },
                },
            ),
            None => None,
        },
        None => None,
    }
}

/// Records the level of the control that a key is, if it is one, and gives
/// the event for applications, if the key stands for one of theirs.
pub fn handle_key(input: &KeyboardInput, keys: &mut Keys) -> (r: Option<KeyboardEvent>)
    ensures
        *final(keys) == keys_after_input(*old(keys), *input),
        r == keyboard_event(*input),
{
    let key = match input.virtual_keycode {
        Some(key) => key,
        None => {
            return None;
        },
    };

    let pressed = Some(is_pressed(input.state));
    match key {
        VirtualKeyCode::X => {
            keys.x = pressed;
        },
        VirtualKeyCode::C => {
            keys.c = pressed;
        },
        VirtualKeyCode::Left => {
            keys.left = pressed;
        },
        VirtualKeyCode::Up => {
            keys.up = pressed;
        },
        VirtualKeyCode::Right => {
            keys.right = pressed;
        },
        VirtualKeyCode::Down => {
            keys.down = pressed;
        },
        VirtualKeyCode::Escape => {
            keys.escape = pressed;
        },
        _ => {},
    }

    let runty8_key = match Key::from_virtual_keycode(key) {
        Some(key) => key,
        None => {
            return None;
        },
    };
    let state = KeyState::from_state(input.state);

    Some(KeyboardEvent { key: runty8_key, state })
}

/// All that handling one report of the platform decides.
pub struct Handled {
    /// The event for the applications, if any.
    pub event: Option<Event>,
    pub window_size: WindowSize,
    pub control_flow: Flow,
    pub state: InternalState,
    pub keys: Keys,
}

/// What handling a report of the platform decides:
/// - a request to close stops the event loop;
/// - a new size of the window is kept for later positions of the cursor;
/// - a move of the cursor sets the mouse position, in screen pixels, and is
///   passed on with that position;
/// - the left mouse button sets the level of the mouse control and is passed
///   on; other buttons are dropped;
/// - a key sets the level of its control and is passed on if it stands for a
///   key of the applications;
/// - the start of the event loop asks for the first frame, and the time of a
///   frame asks for the next one and is passed on as a tick;
/// - anything else changes nothing.
pub open spec fn handled(
    event: PlatformEvent,
    window_size: WindowSize,
    control_flow: Flow,
    state: InternalState,
    keys: Keys,
) -> Handled {
    let same = Handled { event: None, window_size, control_flow, state, keys };
    match event {
        PlatformEvent::CloseRequested => Handled { control_flow: Flow::Exit, ..same },
        PlatformEvent::Resized(new_size) => Handled { window_size: new_size, ..same },
        PlatformEvent::CursorMoved { x, y } => {
            let mouse_x = to_screen_spec(x as int, window_size.width as int) as i32;
            let mouse_y = to_screen_spec(y as int, window_size.height as int) as i32;
            Handled {
                event: Some(Event::Mouse(MouseEvent::Move { x: mouse_x, y: mouse_y })),
                state: InternalState { mouse_x, mouse_y, ..state },
                ..same
            }
        },
        PlatformEvent::MouseInput { button: MouseButton::Left, state: input_state } => Handled {
            event: Some(
                Event::Mouse(
                    if KeyState::is_pressed(input_state) {
                        MouseEvent::Down(MouseButton::Left)
                    } else {
                        MouseEvent::Up(MouseButton::Left)
                    },
                ),
            ),
            keys: Keys { mouse: Some(KeyState::is_pressed(input_state)), ..keys },
            ..same
        },
        PlatformEvent::MouseInput { .. } => same,
        PlatformEvent::KeyboardInput(input) => Handled {
            event: match keyboard_event(input) {
                Some(e) => Some(Event::Keyboard(e)),
                None => None,
            },
            keys: keys_after_input(keys, input),
            ..same
        },
        PlatformEvent::ResumeTimeReached { delta_millis } => Handled {
            event: Some(Event::Tick { delta_millis }),
            control_flow: Flow::WaitNextFrame,
            ..same
        },
        PlatformEvent::Init => Handled { control_flow: Flow::WaitNextFrame, ..same },
        PlatformEvent::Other => same,
    }
}

/// Handles one report of the platform.
pub fn handle_event(
    event: &PlatformEvent,
    window_size: &mut WindowSize,
    control_flow: &mut Flow,
    state: &mut InternalState,
    keys: &mut Keys,
) -> (r: Option<Event>)
    ensures
        (Handled {
            event: r,
            window_size: *final(window_size),
            control_flow: *final(control_flow),
            state: *final(state),
            keys: *final(keys),
        }) == handled(*event, *old(window_size), *old(control_flow), *old(state), *old(keys)),
{
    match event {
        PlatformEvent::CloseRequested => {
            *control_flow = Flow::Exit;

            None
        },
        PlatformEvent::Resized(new_size) => {
            *window_size = *new_size;

            None
        },
        PlatformEvent::CursorMoved { x, y } => {
            state.mouse_x = to_screen(*x, window_size.width);
            state.mouse_y = to_screen(*y, window_size.height);

            Some(Event::Mouse(MouseEvent::Move { x: state.mouse_x, y: state.mouse_y }))
        },
        PlatformEvent::MouseInput { button: MouseButton::Left, state: input_state } => {
            keys.mouse = Some(is_pressed(*input_state));

            let mouse_event = match input_state {
                ElementState::Pressed => MouseEvent::Down(MouseButton::Left),
                ElementState::Released => MouseEvent::Up(MouseButton::Left),
            };

            Some(Event::Mouse(mouse_event))
        },
        PlatformEvent::MouseInput { .. } => None,
        PlatformEvent::KeyboardInput(input) => match handle_key(input, keys) {
            Some(e) => Some(Event::Keyboard(e)),
            None => None,
        },
        PlatformEvent::ResumeTimeReached { delta_millis } => {
            set_next_timer(control_flow);

            Some(Event::Tick { delta_millis: *delta_millis })
        },
        PlatformEvent::Init => {
            set_next_timer(control_flow);

            None
        },
        PlatformEvent::Other => None,
    }
}

/// Asks the event loop to sleep until the next frame.
pub fn set_next_timer(control_flow: &mut Flow)
    ensures
        *final(control_flow) == Flow::WaitNextFrame,
{
    *control_flow = Flow::WaitNextFrame;
}

/// The input state after the part of a step that comes before the
/// applications: a tick crosses the frame boundary for every control, and
/// flips the scene if escape has just gone down. Other events leave the state
/// alone.
pub open spec fn begun(state: InternalState, keys: Keys, event: Option<Event>) -> InternalState {
    match event {
        Some(Event::Tick { .. }) => {
            let crossed = state.after_keys(keys);
            if crossed.escape.just_pressed() {
                InternalState { scene: crossed.scene.flipped(), ..crossed }
            } else {
                crossed
            }
        },
        _ => state,
    }
}

/// The input state after one tick for each entry of `frames`, in order.
pub open spec fn ticked(state: InternalState, frames: Seq<Keys>) -> InternalState
    decreases frames.len(),
{
    if frames.len() == 0 {
        state
    } else {
        begun(ticked(state, frames.drop_last()), frames.last(), Some(Event::Tick { delta_millis: 0 }))
    }
}

/// Begins a step: on a tick, crosses the frame boundary and flips the scene
/// if escape has just gone down.
pub fn begin_frame(internal_state: &mut InternalState, keys: &Keys, event: &Option<Event>)
    ensures
        *final(internal_state) == begun(*old(internal_state), *keys, *event),
{
    if let Some(Event::Tick { .. }) = event {
        internal_state.update_keys(keys);

        if internal_state.escape.btnp() {
            internal_state.scene.flip();
        }
    }
}

/// While escape is held, however long, the scene flips once: at the first
/// tick.
pub proof fn lemma_escape_flips_once(state: InternalState, frames: Seq<Keys>)
    requires
        !state.escape.held(),
        frames.len() > 0,
        forall|i: int| 0 <= i < frames.len() ==> (#[trigger] frames[i]).escape == Some(true),
    ensures
        ticked(state, frames).scene == state.scene.flipped(),
        ticked(state, frames).escape.held(),
    decreases frames.len(),
{
    let rest = frames.drop_last();
    assert(frames[frames.len() - 1].escape == Some(true));
    if rest.len() > 0 {
        assert forall|i: int| 0 <= i < rest.len() implies (#[trigger] rest[i]).escape == Some(
            true,
        ) by {
            assert(rest[i] == frames[i]);
        }
        lemma_escape_flips_once(state, rest);
    } else {
        assert(ticked(state, rest) == state);
    }
}

/// While escape is up, however long, the scene stays.
pub proof fn lemma_no_escape_no_flip(state: InternalState, frames: Seq<Keys>)
    requires
        forall|i: int| 0 <= i < frames.len() ==> (#[trigger] frames[i]).escape == Some(false),
    ensures
        ticked(state, frames).scene == state.scene,
        frames.len() > 0 ==> !ticked(state, frames).escape.held(),
    decreases frames.len(),
{
    if frames.len() > 0 {
        let rest = frames.drop_last();
        assert(frames[frames.len() - 1].escape == Some(false));
        assert forall|i: int| 0 <= i < rest.len() implies (#[trigger] rest[i]).escape == Some(
            false,
        ) by {
            assert(rest[i] == frames[i]);
        }
        lemma_no_escape_no_flip(state, rest);
    }
}

/// One press and release of escape, each however long, flips the scene
/// once.
pub proof fn lemma_escape_cycle(state: InternalState, held: Seq<Keys>, released: Seq<Keys>)
    requires
        !state.escape.held(),
        held.len() > 0,
        forall|i: int| 0 <= i < held.len() ==> (#[trigger] held[i]).escape == Some(true),
        forall|i: int| 0 <= i < released.len() ==> (#[trigger] released[i]).escape == Some(false),
    ensures
        ticked(ticked(state, held), released).scene == state.scene.flipped(),
{
    lemma_escape_flips_once(state, held);
    lemma_no_escape_no_flip(ticked(state, held), released);
}

/// The messages of a frame, in the order in which they are taken: first the
/// one that the event gives through the view, then the one that it gives by
/// subscription. A frame without an event has no messages.
pub open spec fn frame_messages<A: AppCompat>(
    model: A::Model,
    resources: ResourcesView,
    state: InternalState,
    event: Option<Event>,
) -> Seq<A::Msg> {
    match event {
        Some(event) => option_seq(
            routed(
                A::view_regions(model, resources, state),
                event,
                state.mouse_x as int,
                state.mouse_y as int,
            ),
        ) + option_seq(A::subscriptions_spec(model, event)),
        None => Seq::empty(),
    }
}

/// Model, resources and input state after a frame: the messages of the
/// frame are taken one by one.
pub open spec fn frame_after<A: AppCompat>(
    model: A::Model,
    resources: ResourcesView,
    state: InternalState,
    event: Option<Event>,
) -> (A::Model, ResourcesView, InternalState) {
    apply_all::<A>(model, frame_messages::<A>(model, resources, state, event), resources, state)
}

/// The picture with which every pass of drawing starts: a blank screen, and
/// color 0 transparent.
pub open spec fn blank_picture() -> Picture {
    Picture { screen: blank_screen(), transparent: Some(0u8) }
}

/// The screen after a frame: the view of the model as it was before the
/// frame, drawn on a blank screen with the resources and the input state as
/// the frame leaves them.
pub open spec fn frame_screen<A: AppCompat>(
    model: A::Model,
    resources: ResourcesView,
    state: InternalState,
    event: Option<Event>,
) -> Seq<Color> {
    let after = frame_after::<A>(model, resources, state, event);
    A::view_picture(model, resources, state, blank_picture(), after.1, after.2).screen
}

/// Where an event gives one message through the view and one by
/// subscription, the one of the view is taken first, and the other from what
/// the first left.
pub proof fn lemma_view_before_subscription<A: AppCompat>(
    model: A::Model,
    resources: ResourcesView,
    state: InternalState,
    event: Event,
    routed_msg: A::Msg,
    subscribed: A::Msg,
)
    requires
        routed(
            A::view_regions(model, resources, state),
            event,
            state.mouse_x as int,
            state.mouse_y as int,
        ) == Some(routed_msg),
        A::subscriptions_spec(model, event) == Some(subscribed),
    ensures
        frame_messages::<A>(model, resources, state, Some(event)) == seq![routed_msg, subscribed],
        frame_after::<A>(model, resources, state, Some(event)) == ({
            let between = A::update_spec(model, routed_msg, resources, state);
            A::update_spec(between.0, subscribed, between.1, between.2)
        }),
{
    assert(seq![routed_msg] + seq![subscribed] =~= seq![routed_msg, subscribed]);
    crate::app::lemma_apply_two::<A>(model, routed_msg, subscribed, resources, state);
}

/// What one frame of an application made: the view of the model as it was
/// before the frame, the messages that were taken, and the screen.
pub struct Frame<Msg, L> {
    pub view: Element<Msg, L>,
    pub messages: Vec<Msg>,
    pub draw_data: DrawData,
}

/// One frame of an application: view, route, drain, update, render.
pub fn refresh_app<A: AppCompat>(
    app: &mut A,
    resources: &mut Resources,
    internal_state: &mut InternalState,
    draw_data: DrawData,
    event: Option<Event>,
) -> (frame: Frame<A::Msg, A::Leaf>)
    requires
        old(app).wf(),
        old(resources).wf(),
        draw_data.wf(),
    ensures
        final(app).wf(),
        final(resources).wf(),
        frame.draw_data.wf(),
        frame.view.wf(),
        frame.view.regions() == A::view_regions(
            old(app).model(),
            old(resources)@,
            *old(internal_state),
        ),
        frame.messages@ == frame_messages::<A>(
            old(app).model(),
            old(resources)@,
            *old(internal_state),
            event,
        ),
        (final(app).model(), final(resources)@, *final(internal_state)) == frame_after::<A>(
            old(app).model(),
            old(resources)@,
            *old(internal_state),
            event,
        ),
        frame.draw_data@ == frame_screen::<A>(
            old(app).model(),
            old(resources)@,
            *old(internal_state),
            event,
        ),
{
    let ghost before = (app.model(), resources@, *internal_state);
    let view = app.view(resources, internal_state);

    let mut msg_queue: Vec<A::Msg> = Vec::new();
    if let Some(event) = event {
        view.on_event(&event, (internal_state.mouse_x, internal_state.mouse_y), &mut msg_queue);
        assert(msg_queue@ =~= option_seq(
            view.route(event, before.2.mouse_x as int, before.2.mouse_y as int),
        ));
        if let Some(sub_msg) = app.subscriptions(&event) {
            msg_queue.push(sub_msg);
        }
    }
    assert(msg_queue@ =~= frame_messages::<A>(before.0, before.1, before.2, event));

    let mut i: usize = 0;
    while i < msg_queue.len()
        invariant
            i <= msg_queue.len(),
            app.wf(),
            resources.wf(),
            (app.model(), resources@, *internal_state) == apply_all::<A>(
                before.0,
                msg_queue@.take(i as int),
                before.1,
                before.2,
            ),
        decreases msg_queue.len() - i,
    {
        proof {
            let next = msg_queue@.take(i + 1);
            assert(next.drop_last() =~= msg_queue@.take(i as int));
            assert(next.last() == msg_queue@[i as int]);
        }
        app.update(&msg_queue[i], resources, internal_state);
        i += 1;
    }
    assert(msg_queue@.take(i as int) =~= msg_queue@);

    let mut draw_context = DrawContext::new(internal_state, resources, draw_data);
    draw_context.cls();
    assert(draw_context.picture() == blank_picture());
    view.draw(&mut draw_context);
    let draw_data = draw_context.finish();

    Frame { view, messages: msg_queue, draw_data }
}

/// One frame of the application whose scene is active. The other
/// application is paused: it hears of nothing, takes no message and draws
/// nothing.
pub fn update_app<A: AppCompat>(
    app: &mut A,
    editor: &mut SpriteEditor,
    internal_state: &mut InternalState,
    resources: &mut Resources,
    draw_data: DrawData,
    event: Option<Event>,
) -> (screen: DrawData)
    requires
        old(app).wf(),
        old(editor).wf(),
        old(resources).wf(),
        draw_data.wf(),
    ensures
        final(app).wf(),
        final(editor).wf(),
        final(resources).wf(),
        screen.wf(),
        stepped::<A>(
            (old(app).model(), old(editor).model(), old(resources)@, *old(internal_state)),
            event,
            (final(app).model(), final(editor).model(), final(resources)@, *final(internal_state)),
            screen@,
        ),
{
    match internal_state.scene {
        Scene::App => {
            let frame = refresh_app(app, resources, internal_state, draw_data, event);
            frame.draw_data
        },
        Scene::Editor => {
            let frame = refresh_app(editor, resources, internal_state, draw_data, event);
            frame.draw_data
        },
    }
}

/// Whether `after` and `screen` are what one frame of the active scene leaves
/// of `before` (application, editor, resources, input state): the
/// application whose scene is active has its frame, and the other stays as it
/// is.
pub open spec fn stepped<A: AppCompat>(
    before: (A::Model, crate::editor::EditorModel, ResourcesView, InternalState),
    event: Option<Event>,
    after: (A::Model, crate::editor::EditorModel, ResourcesView, InternalState),
    screen: Seq<Color>,
) -> bool {
    match before.3.scene {
        Scene::App => {
            &&& after.1 == before.1
            &&& (after.0, after.2, after.3) == frame_after::<A>(before.0, before.2, before.3, event)
            &&& screen == frame_screen::<A>(before.0, before.2, before.3, event)
        },
        Scene::Editor => {
            &&& after.0 == before.0
            &&& (after.1, after.2, after.3) == frame_after::<SpriteEditor>(
                before.1,
                before.2,
                before.3,
                event,
            )
            &&& screen == frame_screen::<SpriteEditor>(before.1, before.2, before.3, event)
        },
    }
}

/// One step of the console, for one report of the platform that has been
/// handled: on a tick the frame boundary is crossed and escape flips the
/// scene; then the application whose scene is active has its frame.
pub fn step<A: AppCompat>(
    app: &mut A,
    editor: &mut SpriteEditor,
    internal_state: &mut InternalState,
    resources: &mut Resources,
    keys: &Keys,
    draw_data: DrawData,
    event: Option<Event>,
) -> (screen: DrawData)
    requires
        old(app).wf(),
        old(editor).wf(),
        old(resources).wf(),
        draw_data.wf(),
    ensures
        final(app).wf(),
        final(editor).wf(),
        final(resources).wf(),
        screen.wf(),
        stepped::<A>(
            (
                old(app).model(),
                old(editor).model(),
                old(resources)@,
                begun(*old(internal_state), *keys, event),
            ),
            event,
            (final(app).model(), final(editor).model(), final(resources)@, *final(internal_state)),
            screen@,
        ),
{
    begin_frame(internal_state, keys, &event);

    update_app(app, editor, internal_state, resources, draw_data, event)
}

} // verus!
