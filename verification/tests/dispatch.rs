use runty8::app::AppCompat;
use runty8::editor::SpriteEditor;
use runty8::runtime::draw_context::{DrawContext, DrawData, Picture};
use runty8::runtime::state::{InternalState, Scene};
use runty8::screen::{
    handle_event, refresh_app, step, update_app, Flow, Keys, PlatformEvent, ResourcesView,
    WindowSize,
};
use runty8::ui::{Element, Paint, Region, Regions};
use runty8::{Event, MouseButton, MouseEvent, Resources};

#[derive(Clone, Copy, Debug, PartialEq)]
enum Msg {
    Pressed,
    Other,
    Heard,
}

/// Draws its color at the top left pixel.
struct Dot {
    color: u8,
}

impl Paint for Dot {
    // The next two are read by the verifier only; nothing calls them.
    fn paintable(&self) -> bool {
        true
    }

    fn paint(&self, _: Picture, _: ResourcesView, _: InternalState) -> Picture {
        unreachable!()
    }

    fn draw<'a>(&self, draw_context: &mut DrawContext<'a>) {
        draw_context.pset(0, 0, self.color);
    }
}

/// Keeps every message that it takes, and listens to mouse presses if asked.
struct Recorder {
    log: Vec<Msg>,
    listens: bool,
}

impl AppCompat for Recorder {
    type Msg = Msg;
    type Leaf = Dot;
    type Model = ();

    // The next six are read by the verifier only; nothing calls them.
    fn model(&self) {}

    fn view_regions(_: (), _: ResourcesView, _: InternalState) -> Regions<Msg> {
        unreachable!()
    }

    fn view_picture(
        _: (),
        _: ResourcesView,
        _: InternalState,
        _: Picture,
        _: ResourcesView,
        _: InternalState,
    ) -> Picture {
        unreachable!()
    }

    fn wf(&self) -> bool {
        true
    }

    fn update_spec(_: (), _: Msg, _: ResourcesView, _: InternalState) -> ((), ResourcesView, InternalState) {
        unreachable!()
    }

    fn subscriptions_spec(_: (), _: Event) -> Option<Msg> {
        unreachable!()
    }

    fn init(_resources: &Resources, _state: &InternalState) -> Self {
        Recorder { log: vec![], listens: false }
    }

    fn view(&self, _resources: &Resources, _state: &InternalState) -> Element<Msg, Dot> {
        Element::Button {
            region: Region { x: 0, y: 0, width: 20, height: 20, on_press: Some(Msg::Pressed) },
            content: Box::new(Element::Draw(Dot { color: self.log.len() as u8 + 1 })),
        }
    }

    fn update(&mut self, msg: &Msg, resources: &mut Resources, _state: &mut InternalState) {
        // Leaves a trace of the order in the shared resources too.
        let so_far = resources.map.mget(0, 0);
        resources.map.mset(0, 0, so_far * 10 + self.log.len() as u8 + 1);
        self.log.push(*msg);
    }

    fn subscriptions(&self, event: &Event) -> Option<Msg> {
        match event {
            Event::Mouse(MouseEvent::Down(_)) if self.listens => Some(Msg::Heard),
            _ => None,
        }
    }
}

fn press() -> Event {
    Event::Mouse(MouseEvent::Down(MouseButton::Left))
}

fn region(x: i32, y: i32, width: i32, height: i32, msg: Option<Msg>) -> Region<Msg> {
    Region { x, y, width, height, on_press: msg }
}

fn button(region: Region<Msg>, content: Element<Msg, Dot>) -> Element<Msg, Dot> {
    Element::Button { region, content: Box::new(content) }
}

fn nothing() -> Element<Msg, Dot> {
    Element::Tree(vec![])
}

fn routed(tree: &Element<Msg, Dot>, event: Event, cursor: (i32, i32)) -> Vec<Msg> {
    let mut queue = vec![];
    tree.on_event(&event, cursor, &mut queue);
    queue
}

#[test]
fn region_has_its_points_and_no_others() {
    let r = region(10, 20, 5, 3, None);
    assert!(r.contains(10, 20));
    assert!(r.contains(14, 22));
    assert!(!r.contains(15, 22));
    assert!(!r.contains(14, 23));
    assert!(!r.contains(9, 20));
    assert!(!r.contains(10, 19));
}

#[test]
fn region_without_area_is_never_hit() {
    for r in [region(5, 5, 0, 10, None), region(5, 5, 10, 0, None), region(5, 5, -3, 4, None)] {
        for (x, y) in [(5, 5), (4, 5), (6, 6), (2, 6)] {
            assert!(!r.contains(x, y));
        }
    }
    let tree = button(region(5, 5, 0, 0, Some(Msg::Pressed)), nothing());
    assert!(tree.hit_test(5, 5).is_none());
    assert_eq!(routed(&tree, press(), (5, 5)), vec![]);
}

#[test]
fn region_at_the_edge_of_the_coordinates() {
    let r = region(i32::MAX - 1, i32::MAX - 1, 10, 10, None);
    assert!(r.contains(i32::MAX, i32::MAX));
    assert!(!r.contains(i32::MAX - 2, i32::MAX));
}

#[test]
fn press_inside_a_region_gives_its_message() {
    let tree = button(region(0, 0, 20, 20, Some(Msg::Pressed)), nothing());
    assert_eq!(routed(&tree, press(), (10, 10)), vec![Msg::Pressed]);
    assert_eq!(routed(&tree, press(), (19, 19)), vec![Msg::Pressed]);
    assert_eq!(routed(&tree, press(), (20, 10)), vec![]);
    assert_eq!(routed(&tree, press(), (64, 64)), vec![]);
}

#[test]
fn only_a_press_of_the_left_button_is_routed() {
    let tree = button(region(0, 0, 20, 20, Some(Msg::Pressed)), nothing());
    let others = [
        Event::Mouse(MouseEvent::Up(MouseButton::Left)),
        Event::Mouse(MouseEvent::Down(MouseButton::Right)),
        Event::Mouse(MouseEvent::Down(MouseButton::Middle)),
        Event::Mouse(MouseEvent::Move { x: 10, y: 10 }),
        Event::Tick { delta_millis: 33 },
    ];
    for event in others {
        assert_eq!(routed(&tree, event, (10, 10)), vec![]);
    }
}

#[test]
fn message_goes_to_the_end_of_the_queue() {
    let tree = button(region(0, 0, 20, 20, Some(Msg::Pressed)), nothing());
    let mut queue = vec![Msg::Other, Msg::Heard];
    tree.on_event(&press(), (1, 1), &mut queue);
    assert_eq!(queue, vec![Msg::Other, Msg::Heard, Msg::Pressed]);
}

#[test]
fn last_declared_region_wins() {
    let tree = Element::Tree(vec![
        button(region(0, 0, 20, 20, Some(Msg::Pressed)), nothing()),
        button(region(10, 10, 20, 20, Some(Msg::Other)), nothing()),
    ]);
    assert_eq!(routed(&tree, press(), (5, 5)), vec![Msg::Pressed]);
    assert_eq!(routed(&tree, press(), (15, 15)), vec![Msg::Other]);
    assert_eq!(routed(&tree, press(), (25, 25)), vec![Msg::Other]);
    assert_eq!(routed(&tree, press(), (35, 35)), vec![]);
}

#[test]
fn inner_region_wins_over_the_one_around_it() {
    let tree = button(
        region(0, 0, 50, 50, Some(Msg::Pressed)),
        Element::Tree(vec![
            Element::Draw(Dot { color: 1 }),
            button(region(10, 10, 5, 5, Some(Msg::Other)), nothing()),
        ]),
    );
    assert_eq!(routed(&tree, press(), (12, 12)), vec![Msg::Other]);
    assert_eq!(routed(&tree, press(), (30, 30)), vec![Msg::Pressed]);
    assert_eq!(tree.hit_test(12, 12).unwrap().on_press, Some(Msg::Other));
}

#[test]
fn topmost_region_without_a_message_hides_those_below() {
    let tree = Element::Tree(vec![
        button(region(0, 0, 20, 20, Some(Msg::Pressed)), nothing()),
        button(region(0, 0, 20, 20, None), nothing()),
    ]);
    assert_eq!(routed(&tree, press(), (5, 5)), vec![]);
}

#[test]
fn tree_draws_its_leaves_in_order() {
    let resources = Resources::new(String::new());
    let state = InternalState::new();
    let tree: Element<Msg, Dot> = Element::Tree(vec![
        Element::Draw(Dot { color: 3 }),
        button(region(0, 0, 1, 1, None), Element::Draw(Dot { color: 4 })),
        Element::Tree(vec![Element::Draw(Dot { color: 9 })]),
    ]);
    let mut ctx = DrawContext::new(&state, &resources, DrawData::new());
    tree.draw(&mut ctx);
    assert_eq!(ctx.pget(0, 0), 9);
}

#[test]
fn end_to_end_press_in_a_region() {
    let mut resources = Resources::new(String::new());
    let mut state = InternalState::new();
    assert_eq!(state.scene, Scene::App);
    assert_eq!((state.mouse_x, state.mouse_y), (64, 64));
    let mut app = Recorder::init(&resources, &state);

    let mut window = WindowSize { width: 128, height: 128 };
    let mut flow = Flow::Run;
    let mut keys = Keys::new();
    let moved = handle_event(
        &PlatformEvent::CursorMoved { x: 10, y: 10 },
        &mut window,
        &mut flow,
        &mut state,
        &mut keys,
    );
    let frame = refresh_app(&mut app, &mut resources, &mut state, DrawData::new(), moved);
    assert_eq!(frame.messages, vec![]);
    assert_eq!(frame.draw_data.pget(0, 0), 1);

    let pressed = handle_event(
        &PlatformEvent::MouseInput {
            button: MouseButton::Left,
            state: glium::glutin::event::ElementState::Pressed,
        },
        &mut window,
        &mut flow,
        &mut state,
        &mut keys,
    );
    assert_eq!(pressed, Some(press()));
    let frame = refresh_app(&mut app, &mut resources, &mut state, frame.draw_data, pressed);
    // Exactly one message, taken once.
    assert_eq!(frame.messages, vec![Msg::Pressed]);
    assert_eq!(app.log, vec![Msg::Pressed]);
    // The screen shows the view of the model as it was before the update.
    assert_eq!(frame.draw_data.pget(0, 0), 1);
    assert!(matches!(
        &frame.view,
        Element::Button { content, .. } if matches!(**content, Element::Draw(Dot { color: 1 }))
    ));
    // The next frame shows the update.
    let frame = refresh_app(&mut app, &mut resources, &mut state, frame.draw_data, None);
    assert_eq!(frame.messages, vec![]);
    assert_eq!(app.log, vec![Msg::Pressed]);
    assert_eq!(frame.draw_data.pget(0, 0), 2);
}

#[test]
fn message_of_the_view_is_taken_before_that_of_the_subscription() {
    let mut resources = Resources::new(String::new());
    let mut state = InternalState::new();
    state.mouse_x = 3;
    state.mouse_y = 4;
    let mut app = Recorder { log: vec![], listens: true };
    let frame = refresh_app(&mut app, &mut resources, &mut state, DrawData::new(), Some(press()));
    assert_eq!(frame.messages, vec![Msg::Pressed, Msg::Heard]);
    assert_eq!(app.log, vec![Msg::Pressed, Msg::Heard]);
    // The second update saw what the first had left: 0 -> 1 -> 12.
    assert_eq!(resources.map.mget(0, 0), 12);
}

#[test]
fn subscription_alone_gives_one_message() {
    let mut resources = Resources::new(String::new());
    let mut state = InternalState::new();
    let mut app = Recorder { log: vec![], listens: true };
    let frame = refresh_app(&mut app, &mut resources, &mut state, DrawData::new(), Some(press()));
    assert_eq!(frame.messages, vec![Msg::Heard]);
    assert_eq!(app.log, vec![Msg::Heard]);
}

#[test]
fn frame_without_an_event_takes_no_message_and_still_draws() {
    let mut resources = Resources::new(String::new());
    let mut state = InternalState::new();
    state.mouse_x = 3;
    state.mouse_y = 4;
    let mut app = Recorder { log: vec![Msg::Other, Msg::Other], listens: true };
    let mut stale = DrawData::new();
    {
        let mut ctx = DrawContext::new(&state, &resources, stale);
        ctx.rectfill(0, 0, 127, 127, 7);
        stale = ctx.finish();
    }
    let frame = refresh_app(&mut app, &mut resources, &mut state, stale, None);
    assert_eq!(frame.messages, vec![]);
    assert_eq!(app.log.len(), 2);
    // Nothing of the last frame is left on the screen.
    assert_eq!(frame.draw_data.pget(0, 0), 3);
    assert_eq!(frame.draw_data.pget(1, 0), 0);
    assert_eq!(frame.draw_data.pget(127, 127), 0);
}

#[test]
fn only_the_active_scene_has_its_frame() {
    let mut resources = Resources::new(String::new());
    let mut state = InternalState::new();
    state.mouse_x = 3;
    state.mouse_y = 4;
    let mut app = Recorder { log: vec![], listens: true };
    let mut editor = SpriteEditor::init(&resources, &state);

    let screen = update_app(
        &mut app,
        &mut editor,
        &mut state,
        &mut resources,
        DrawData::new(),
        Some(press()),
    );
    assert_eq!(app.log, vec![Msg::Pressed, Msg::Heard]);
    assert_eq!(screen.pget(0, 0), 1);

    state.scene = Scene::Editor;
    let screen = update_app(&mut app, &mut editor, &mut state, &mut resources, screen, Some(press()));
    assert_eq!(app.log, vec![Msg::Pressed, Msg::Heard]);
    // The editor drew: its top bar is red.
    assert_eq!(screen.pget(0, 0), 8);
}

#[test]
fn escape_switches_between_app_and_editor() {
    let mut resources = Resources::new(String::new());
    let mut state = InternalState::new();
    let mut app = Recorder { log: vec![], listens: false };
    let mut editor = SpriteEditor::init(&resources, &state);
    let mut keys = Keys::new();
    let tick = Some(Event::Tick { delta_millis: 33 });

    let screen = step(&mut app, &mut editor, &mut state, &mut resources, &keys, DrawData::new(), tick);
    assert_eq!(state.scene, Scene::App);
    assert_eq!(screen.pget(0, 0), 1);

    keys.escape = Some(true);
    let screen = step(&mut app, &mut editor, &mut state, &mut resources, &keys, screen, tick);
    assert_eq!(state.scene, Scene::Editor);
    assert_eq!(screen.pget(0, 0), 8);

    // Held: no second flip.
    let screen = step(&mut app, &mut editor, &mut state, &mut resources, &keys, screen, tick);
    assert_eq!(state.scene, Scene::Editor);
    keys.escape = Some(false);
    let screen = step(&mut app, &mut editor, &mut state, &mut resources, &keys, screen, tick);
    assert_eq!(state.scene, Scene::Editor);
    assert_eq!(screen.pget(0, 0), 8);
    assert_eq!(app.log, vec![]);
}
