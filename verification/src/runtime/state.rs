//! Input state with edge detection, and the active scene.
use crate::screen::Keys;
use vstd::prelude::*;

verus! {

/// The controls of the console.
#[derive(Clone, Copy, Debug, PartialEq, Eq, Structural)]
pub enum Button {
    Left,
    Right,
    Up,
    Down,
    X,
    C,
    Mouse,
    Escape,
}

/// The last two samples of one control.
#[derive(Clone, Copy, Debug, PartialEq, Eq, Structural)]
pub struct ButtonState {
    /// The level at the last frame boundary.
    pub current: bool,
    /// The level at the frame boundary before that.
    pub previous: bool,
}

impl ButtonState {
    /// The control is down.
    pub open spec fn held(&self) -> bool {
        self.current
    }

    /// The control went down at the last frame boundary.
    pub open spec fn just_pressed(&self) -> bool {
        self.current && !self.previous
    }

    /// The control went up at the last frame boundary.
    pub open spec fn just_released(&self) -> bool {
        !self.current && self.previous
    }

    /// The state after a frame boundary at which the platform last reported
    /// `raw` for this control (`None`: it never reported anything).
    pub open spec fn after(self, raw: Option<bool>) -> ButtonState {
        ButtonState {
            current: match raw {
                Some(level) => level,
                None => self.current,
            },
            previous: self.current,
        }
    }

    /// The state after one frame boundary for each sample, in order.
    pub open spec fn run(self, samples: Seq<Option<bool>>) -> ButtonState
        decreases samples.len(),
    {
        if samples.len() == 0 {
            self
        } else {
            self.run(samples.drop_last()).after(samples.last())
        }
    }

    /// The level that a control starting at `initial` has after the samples:
    /// the last one reported, if any.
    pub open spec fn level(initial: bool, samples: Seq<Option<bool>>) -> bool
        decreases samples.len(),
    {
        if samples.len() == 0 {
            initial
        } else {
            match samples.last() {
                Some(level) => level,
                None => Self::level(initial, samples.drop_last()),
            }
        }
    }

    /// A control that is up and was up.
    pub fn new() -> (s: ButtonState)
        ensures
            s == (ButtonState { current: false, previous: false }),
    {
        ButtonState { current: false, previous: false }
    }

    /// Crosses a frame boundary: the current level becomes the previous one,
    /// and `raw`, if the platform reported a level, the current one.
    pub fn update(&mut self, raw: Option<bool>)
        ensures
            *final(self) == old(self).after(raw),
    {
        self.previous = self.current;
        if let Some(level) = raw {
            self.current = level;
        }
    }

    /// Whether the control is down.
    pub fn btn(&self) -> (r: bool)
        ensures
            r == self.held(),
    {
        self.current
    }

    /// Whether the control went down at the last frame boundary.
    pub fn btnp(&self) -> (r: bool)
        ensures
            r == self.just_pressed(),
    {
        self.current && !self.previous
    }

    /// Whether the control went up at the last frame boundary.
    pub fn btnr(&self) -> (r: bool)
        ensures
            r == self.just_released(),
    {
        !self.current && self.previous
    }

    /// After any number of frames the current level is the last one reported,
    /// and the previous level is the one that was current a frame earlier.
    pub proof fn lemma_run_levels(self, samples: Seq<Option<bool>>)
        ensures
            self.run(samples).current == Self::level(self.current, samples),
            samples.len() > 0 ==> self.run(samples).previous == Self::level(
                self.current,
                samples.drop_last(),
            ),
        decreases samples.len(),
    {
        if samples.len() > 0 {
            self.lemma_run_levels(samples.drop_last());
        }
    }

    /// A control is just pressed after exactly those frames at which its level
    /// rose, and just released after exactly those at which it fell.
    pub proof fn lemma_edges(self, samples: Seq<Option<bool>>)
        requires
            samples.len() > 0,
        ensures
            self.run(samples).just_pressed() <==> Self::level(self.current, samples)
                && !Self::level(self.current, samples.drop_last()),
            self.run(samples).just_released() <==> !Self::level(self.current, samples)
                && Self::level(self.current, samples.drop_last()),
    {
        self.lemma_run_levels(samples);
    }

    /// An edge lasts one frame: a control that is just pressed is not just
    /// pressed a frame later, whatever is reported, and likewise for a
    /// release.
    pub proof fn lemma_edge_lasts_one_frame(self, next: Option<bool>)
        ensures
            self.just_pressed() ==> !self.after(next).just_pressed(),
            self.just_released() ==> !self.after(next).just_released(),
    {
    }

    /// However many frames a control stays down, it is held and not just
    /// pressed after each of them.
    pub proof fn lemma_held_is_not_pressed(self, samples: Seq<Option<bool>>)
        requires
            self.held(),
            samples.len() > 0,
            forall|i: int| 0 <= i < samples.len() ==> samples[i] != Some(false),
        ensures
            self.run(samples).held(),
            !self.run(samples).just_pressed(),
            !self.run(samples).just_released(),
        decreases samples.len(),
    {
        let rest = samples.drop_last();
        assert(samples[samples.len() - 1] != Some(false));
        if rest.len() > 0 {
            assert forall|i: int| 0 <= i < rest.len() implies rest[i] != Some(false) by {
                assert(rest[i] == samples[i]);
            }
            self.lemma_held_is_not_pressed(rest);
        } else {
            assert(self.run(rest) == self);
        }
    }

    /// However many frames a control stays up, it is neither held nor just
    /// released after each of them.
    pub proof fn lemma_up_is_not_released(self, samples: Seq<Option<bool>>)
        requires
            !self.held(),
            samples.len() > 0,
            forall|i: int| 0 <= i < samples.len() ==> samples[i] != Some(true),
        ensures
            !self.run(samples).held(),
            !self.run(samples).just_pressed(),
            !self.run(samples).just_released(),
        decreases samples.len(),
    {
        let rest = samples.drop_last();
        assert(samples[samples.len() - 1] != Some(true));
        if rest.len() > 0 {
            assert forall|i: int| 0 <= i < rest.len() implies rest[i] != Some(true) by {
                assert(rest[i] == samples[i]);
            }
            self.lemma_up_is_not_released(rest);
        } else {
            assert(self.run(rest) == self);
        }
    }
}

/// Which of the two applications owns the frame.
#[derive(Clone, Copy, Debug, PartialEq, Eq, Structural)]
pub enum Scene {
    App,
    Editor,
}

impl Scene {
    /// The other scene.
    pub open spec fn flipped(self) -> Scene {
        match self {
            Scene::App => Scene::Editor,
            Scene::Editor => Scene::App,
        }
    }

    /// The scene in which the console starts.
    pub fn initial() -> (s: Scene)
        ensures
            s == Scene::App,
    {
        Scene::App
    }

    /// Switches to the other scene.
    pub fn flip(&mut self)
        ensures
            *final(self) == old(self).flipped(),
    {
        *self = match *self {
            Scene::App => Scene::Editor,
            Scene::Editor => Scene::App,
        };
    }
}

/// What the console keeps between frames: the state of every control, the
/// mouse position in screen pixels, and the active scene.
#[derive(Clone, Copy, Debug)]
pub struct InternalState {
    pub left: ButtonState,
    pub right: ButtonState,
    pub up: ButtonState,
    pub down: ButtonState,
    pub x: ButtonState,
    pub c: ButtonState,
    pub escape: ButtonState,
    pub mouse_pressed: ButtonState,
    pub mouse_x: i32,
    pub mouse_y: i32,
    pub scene: Scene,
}

impl InternalState {
    /// The state of a control.
    pub open spec fn button_state(&self, button: Button) -> ButtonState {
        match button {
            Button::Left => self.left,
            Button::Right => self.right,
            Button::Up => self.up,
            Button::Down => self.down,
            Button::X => self.x,
            Button::C => self.c,
            Button::Mouse => self.mouse_pressed,
            Button::Escape => self.escape,
        }
    }

    /// The state after a frame boundary at which `keys` holds the last level
    /// reported for each control. Mouse position and scene stay.
    pub open spec fn after_keys(self, keys: Keys) -> InternalState {
        InternalState {
            left: self.left.after(keys.left),
            right: self.right.after(keys.right),
            up: self.up.after(keys.up),
            down: self.down.after(keys.down),
            x: self.x.after(keys.x),
            c: self.c.after(keys.c),
            escape: self.escape.after(keys.escape),
            mouse_pressed: self.mouse_pressed.after(keys.mouse),
            mouse_x: self.mouse_x,
            mouse_y: self.mouse_y,
            scene: self.scene,
        }
    }

    /// The state at start: every control up, the mouse in the middle of the
    /// screen, the application's scene active.
    pub open spec fn initial() -> InternalState {
        let up = ButtonState { current: false, previous: false };
        InternalState {
            left: up,
            right: up,
            up: up,
            down: up,
            x: up,
            c: up,
            escape: up,
            mouse_pressed: up,
            mouse_x: 64,
            mouse_y: 64,
            scene: Scene::App,
        }
    }

    /// Every control crosses a frame boundary in the same way, each with the
    /// level last reported for it; so what holds of the edges of one control
    /// holds of all.
    pub proof fn lemma_every_control(self, keys: Keys, button: Button)
        ensures
            self.after_keys(keys).button_state(button) == self.button_state(button).after(
                keys.level(button),
            ),
    {
    }

    /// The state at start.
    pub fn new() -> (s: InternalState)
        ensures
            s == InternalState::initial(),
    {
        InternalState {
            left: ButtonState::new(),
            right: ButtonState::new(),
            up: ButtonState::new(),
            down: ButtonState::new(),
            x: ButtonState::new(),
            c: ButtonState::new(),
            escape: ButtonState::new(),
            mouse_pressed: ButtonState::new(),
            mouse_x: 64,
            mouse_y: 64,
            scene: Scene::initial(),
        }
    }

    /// Crosses a frame boundary for every control.
    pub fn update_keys(&mut self, keys: &Keys)
        ensures
            *final(self) == old(self).after_keys(*keys),
    {
        self.left.update(keys.left);
        self.right.update(keys.right);
        self.up.update(keys.up);
        self.down.update(keys.down);
        self.x.update(keys.x);
        self.c.update(keys.c);
        self.escape.update(keys.escape);
        self.mouse_pressed.update(keys.mouse);
    }

    /// Whether a control is down.
    pub fn btn(&self, button: Button) -> (r: bool)
        ensures
            r == self.button_state(button).held(),
    {
        self.button(button).btn()
    }

    /// Whether a control went down at the last frame boundary.
    pub fn btnp(&self, button: Button) -> (r: bool)
        ensures
            r == self.button_state(button).just_pressed(),
    {
        self.button(button).btnp()
    }

    /// Whether a control went up at the last frame boundary.
    pub fn btnr(&self, button: Button) -> (r: bool)
        ensures
            r == self.button_state(button).just_released(),
    {
        self.button(button).btnr()
    }

    /// The state of a control.
    pub fn button(&self, button: Button) -> (s: &ButtonState)
        ensures
            *s == self.button_state(button),
    {
        match button {
            Button::Left => &self.left,
            Button::Right => &self.right,
            Button::Up => &self.up,
            Button::Down => &self.down,
            Button::X => &self.x,
            Button::C => &self.c,
            Button::Mouse => &self.mouse_pressed,
            Button::Escape => &self.escape,
        }
    }
}

} // verus!
