//! The view tree: what an application wants drawn, and which regions of the
//! screen answer to the mouse.
//!
//! A tree is built anew for every frame and never changed afterwards. Its
//! regions are taken in the order in which they are declared, a region before
//! what it contains. Where regions overlap, the last of them is on top and is
//! the only one to hear of an event.
use crate::runtime::draw_context::{
    blank_screen,
    blit_spec,
    line_spec,
    print_spec,
    pset_spec,
    rect_spec,
    rectfill_spec,
    DrawContext,
    Picture,
};
use crate::runtime::sprite_sheet::{sprite_of, Color};
use crate::runtime::state::InternalState;
use crate::screen::ResourcesView;
use crate::{Event, MouseButton, MouseEvent};
use vstd::prelude::*;

pub mod slider;

verus! {

/// Something that can draw itself.
pub trait Paint {
    /// What must hold of a value before it is drawn.
    spec fn paintable(&self) -> bool;

    /// The picture after this is drawn on `picture`.
    spec fn paint(&self, picture: Picture, resources: ResourcesView, state: InternalState) -> Picture;

    /// Draws this. The resources and the input state stay as they are.
    fn draw<'a>(&self, draw_context: &mut DrawContext<'a>)
        requires
            self.paintable(),
            old(draw_context).wf(),
        ensures
            final(draw_context).wf(),
            final(draw_context).resources() == old(draw_context).resources(),
            final(draw_context).state() == old(draw_context).state(),
            final(draw_context).picture() == self.paint(
                old(draw_context).picture(),
                old(draw_context).resources()@,
                old(draw_context).state(),
            ),
    ;
}

/// A rectangle of the screen that answers to a press of the mouse.
#[derive(Clone, Copy, Debug)]
pub struct Region<Msg> {
    pub x: i32,
    pub y: i32,
    pub width: i32,
    pub height: i32,
    /// The message that a press inside the region gives, if any.
    pub on_press: Option<Msg>,
}

impl<Msg> Region<Msg> {
    /// Whether `(x, y)` lies in the region. A region without width or without
    /// height has no points.
    pub open spec fn has(&self, x: int, y: int) -> bool {
        &&& self.x <= x < self.x + self.width
        &&& self.y <= y < self.y + self.height
    }

    /// Whether `(x, y)` lies in the region.
    pub fn contains(&self, x: i32, y: i32) -> (r: bool)
        ensures
            r == self.has(x as int, y as int),
    {
        x >= self.x && (x as i64) < self.x as i64 + self.width as i64 && y >= self.y && (y as i64)
            < self.y as i64 + self.height as i64
    }
}

/// Regions in the order in which they are declared.
pub type Regions<Msg> = Seq<Region<Msg>>;

/// The topmost region that has the point `(x, y)`: the last in the order of
/// declaration.
pub open spec fn hit<Msg>(regions: Seq<Region<Msg>>, x: int, y: int) -> Option<Region<Msg>>
    decreases regions.len(),
{
    if regions.len() == 0 {
        None
    } else if regions.last().has(x, y) {
        Some(regions.last())
    } else {
        hit(regions.drop_last(), x, y)
    }
}

/// The message that an event gives with the mouse at `(x, y)`: a press of
/// the left button gives the message of the topmost region under the mouse,
/// if that region has one. Nothing else gives a message.
pub open spec fn routed<Msg>(regions: Regions<Msg>, event: Event, x: int, y: int) -> Option<Msg> {
    match event {
        Event::Mouse(MouseEvent::Down(MouseButton::Left)) => match hit(regions, x, y) {
            Some(region) => region.on_press,
            None => None,
        },
        _ => None,
    }
}

/// Of two runs of regions, the later one is on top.
pub proof fn lemma_hit_concat<Msg>(below: Seq<Region<Msg>>, above: Seq<Region<Msg>>, x: int, y: int)
    ensures
        hit(below + above, x, y) == match hit(above, x, y) {
            Some(region) => Some(region),
            None => hit(below, x, y),
        },
    decreases above.len(),
{
    if above.len() == 0 {
        assert(below + above =~= below);
    } else {
        assert((below + above).last() == above.last());
        assert((below + above).drop_last() =~= below + above.drop_last());
        lemma_hit_concat(below, above.drop_last(), x, y);
    }
}

/// A region that is hit has the point, and no region after it has.
pub proof fn lemma_hit_is_topmost<Msg>(regions: Seq<Region<Msg>>, x: int, y: int)
    ensures
        match hit(regions, x, y) {
            Some(region) => exists|i: int|
                0 <= i < regions.len() && regions[i] == region && region.has(x, y) && forall|j: int|
                    i < j < regions.len() ==> !(#[trigger] regions[j]).has(x, y),
            None => forall|j: int| 0 <= j < regions.len() ==> !(#[trigger] regions[j]).has(x, y),
        },
    decreases regions.len(),
{
    if regions.len() > 0 {
        let last = regions.len() - 1;
        if regions.last().has(x, y) {
            assert(regions[last] == regions.last());
        } else {
            let rest = regions.drop_last();
            lemma_hit_is_topmost(rest, x, y);
            match hit(rest, x, y) {
                Some(region) => {
                    let i = choose|i: int|
                        0 <= i < rest.len() && rest[i] == region && region.has(x, y) && forall|
                            j: int,
                        |
                            i < j < rest.len() ==> !(#[trigger] rest[j]).has(x, y);
                    assert(regions[i] == region);
                    assert forall|j: int| i < j < regions.len() implies !(#[trigger] regions[j]).has(
                        x,
                        y,
                    ) by {
                        if j < last {
                            assert(rest[j] == regions[j]);
                        }
                    }
                },
                None => {
                    assert forall|j: int| 0 <= j < regions.len() implies !(#[trigger] regions[j]).has(
                        x,
                        y,
                    ) by {
                        if j < last {
                            assert(rest[j] == regions[j]);
                        }
                    }
                },
            }
        }
    }
}

/// A region without width or without height is never hit.
pub proof fn lemma_empty_region_is_never_hit<Msg>(regions: Seq<Region<Msg>>, x: int, y: int)
    ensures
        hit(regions, x, y) matches Some(region) ==> region.width > 0 && region.height > 0,
{
    lemma_hit_is_topmost(regions, x, y);
}

/// A node of the view tree.
pub enum Element<Msg, L> {
    /// Something to draw.
    Draw(L),
    /// Elements drawn one after the other, the later ones on top.
    Tree(Vec<Element<Msg, L>>),
    /// A region that answers to the mouse, with what is drawn in it.
    Button { region: Region<Msg>, content: Box<Element<Msg, L>> },
}

impl<Msg: Copy, L: Paint> Element<Msg, L> {
    /// Everything in the tree can be drawn.
    pub open spec fn wf(&self) -> bool
        decreases self,
    {
        match self {
            Element::Draw(leaf) => leaf.paintable(),
            Element::Tree(children) => Self::all_wf(children@, children@.len()),
            Element::Button { content, .. } => content.wf(),
        }
    }

    /// The first `n` of `children` can be drawn.
    pub open spec fn all_wf(children: Seq<Element<Msg, L>>, n: nat) -> bool
        decreases children, n,
    {
        if n == 0 || n > children.len() {
            true
        } else {
            Self::all_wf(children, (n - 1) as nat) && children[n - 1].wf()
        }
    }

    /// The regions of the tree in the order of declaration, a region before
    /// those inside it.
    pub open spec fn regions(&self) -> Seq<Region<Msg>>
        decreases self,
    {
        match self {
            Element::Draw(_) => Seq::empty(),
            Element::Tree(children) => Self::regions_of(children@, children@.len()),
            Element::Button { region, content } => seq![*region] + content.regions(),
        }
    }

    /// The regions of the first `n` of `children`.
    pub open spec fn regions_of(children: Seq<Element<Msg, L>>, n: nat) -> Seq<Region<Msg>>
        decreases children, n,
    {
        if n == 0 || n > children.len() {
            Seq::empty()
        } else {
            Self::regions_of(children, (n - 1) as nat) + children[n - 1].regions()
        }
    }

    /// The picture after the tree is drawn on `picture`: every leaf in the
    /// order of declaration.
    pub open spec fn paint(
        &self,
        picture: Picture,
        resources: ResourcesView,
        state: InternalState,
    ) -> Picture
        decreases self,
    {
        match self {
            Element::Draw(leaf) => leaf.paint(picture, resources, state),
            Element::Tree(children) => Self::paint_all(
                children@,
                children@.len(),
                picture,
                resources,
                state,
            ),
            Element::Button { content, .. } => content.paint(picture, resources, state),
        }
    }

    /// The picture after the first `n` of `children` are drawn on `picture`.
    pub open spec fn paint_all(
        children: Seq<Element<Msg, L>>,
        n: nat,
        picture: Picture,
        resources: ResourcesView,
        state: InternalState,
    ) -> Picture
        decreases children, n,
    {
        if n == 0 || n > children.len() {
            picture
        } else {
            children[n - 1].paint(
                Self::paint_all(children, (n - 1) as nat, picture, resources, state),
                resources,
                state,
            )
        }
    }

    /// The message that an event gives with the mouse at `(x, y)` (see
    /// `routed`).
    pub open spec fn route(&self, event: Event, x: int, y: int) -> Option<Msg> {
        routed(self.regions(), event, x, y)
    }

    /// The topmost region under `(x, y)`.
    #[verifier::loop_isolation(false)]
    pub fn hit_test(&self, x: i32, y: i32) -> (found: Option<Region<Msg>>)
        ensures
            found == hit(self.regions(), x as int, y as int),
        decreases self,
    {
        match self {
            Element::Draw(_) => None,
            Element::Tree(children) => {
                let mut found: Option<Region<Msg>> = None;
                let mut i: usize = 0;
                while i < children.len()
                    invariant
                        i <= children.len(),
                        found == hit(
                            Self::regions_of(children@, i as nat),
                            x as int,
                            y as int,
                        ),
                    decreases children.len() - i,
                {
                    proof {
                        lemma_hit_concat(
                            Self::regions_of(children@, i as nat),
                            children@[i as int].regions(),
                            x as int,
                            y as int,
                        );
                    }
                    if let Some(region) = children[i].hit_test(x, y) {
                        found = Some(region);
                    }
                    i += 1;
                }
                found
            },
            Element::Button { region, content } => {
                proof {
                    let own = seq![*region];
                    lemma_hit_concat(own, content.regions(), x as int, y as int);
                    assert(own.last() == *region);
                    assert(own.drop_last().len() == 0);
                    assert(hit(own.drop_last(), x as int, y as int) is None);
                    assert(hit(own, x as int, y as int) == if region.has(x as int, y as int) {
                        Some(*region)
                    } else {
                        None
                    });
                }
                match content.hit_test(x, y) {
                    Some(inner) => Some(inner),
                    None => if region.contains(x, y) {
                        Some(*region)
                    } else {
                        None
                    },
                }
            },
        }
    }

    /// Brings an event to the tree with the mouse at `cursor`, and puts the
    /// message that it gives, if any, at the end of the queue.
    pub fn on_event(&self, event: &Event, cursor: (i32, i32), queue: &mut Vec<Msg>)
        ensures
            final(queue)@ == old(queue)@ + option_seq(
                self.route(*event, cursor.0 as int, cursor.1 as int),
            ),
    {
        if let Event::Mouse(MouseEvent::Down(MouseButton::Left)) = event {
            if let Some(region) = self.hit_test(cursor.0, cursor.1) {
                if let Some(msg) = region.on_press {
                    queue.push(msg);
                    assert(queue@ =~= old(queue)@ + seq![msg]);
                    return ;
                }
            }
        }
        assert(queue@ =~= old(queue)@ + Seq::<Msg>::empty());
    }

    /// Draws the tree: every leaf in the order of declaration.
    #[verifier::loop_isolation(false)]
    pub fn draw<'a>(&self, draw_context: &mut DrawContext<'a>)
        requires
            self.wf(),
            old(draw_context).wf(),
        ensures
            final(draw_context).wf(),
            final(draw_context).resources() == old(draw_context).resources(),
            final(draw_context).state() == old(draw_context).state(),
            final(draw_context).picture() == self.paint(
                old(draw_context).picture(),
                old(draw_context).resources()@,
                old(draw_context).state(),
            ),
        decreases self,
    {
        match self {
            Element::Draw(leaf) => leaf.draw(draw_context),
            Element::Tree(children) => {
                let mut i: usize = 0;
                while i < children.len()
                    invariant
                        i <= children.len(),
                        Self::all_wf(children@, children@.len()),
                        draw_context.wf(),
                        draw_context.resources() == old(draw_context).resources(),
                        draw_context.state() == old(draw_context).state(),
                        draw_context.picture() == Self::paint_all(
                            children@,
                            i as nat,
                            old(draw_context).picture(),
                            old(draw_context).resources()@,
                            old(draw_context).state(),
                        ),
                    decreases children.len() - i,
                {
                    proof {
                        Self::lemma_all_wf(children@, children@.len(), i as int);
                    }
                    children[i].draw(draw_context);
                    i += 1;
                }
            },
            Element::Button { content, .. } => content.draw(draw_context),
        }
    }

    /// Each of the first `n` children can be drawn if all of them can.
    pub proof fn lemma_all_wf(children: Seq<Element<Msg, L>>, n: nat, i: int)
        requires
            Self::all_wf(children, n),
            n <= children.len(),
            0 <= i < n,
        ensures
            children[i].wf(),
        decreases n,
    {
        if i < n - 1 {
            Self::lemma_all_wf(children, (n - 1) as nat, i);
        }
    }
}

/// The sequence of what an option holds: one item or none.
pub open spec fn option_seq<T>(item: Option<T>) -> Seq<T> {
    match item {
        Some(value) => seq![value],
        None => Seq::empty(),
    }
}

/// One drawing operation with its arguments.
#[derive(Debug)]
pub enum DrawCommand {
    /// Set every pixel to color 0.
    Cls,
    /// Choose the color that sprites do not draw.
    Palt(Option<Color>),
    /// Set one pixel.
    Pset { x: i32, y: i32, color: Color },
    /// Fill a rectangle.
    RectFill { x0: i32, y0: i32, x1: i32, y1: i32, color: Color },
    /// Draw the outline of a rectangle.
    Rect { x0: i32, y0: i32, x1: i32, y1: i32, color: Color },
    /// Draw a line.
    Line { x0: i32, y0: i32, x1: i32, y1: i32, color: Color },
    /// Draw a sprite of the sheet.
    Spr { index: usize, x: i32, y: i32 },
    /// Print text.
    Print { text: String, x: i32, y: i32, color: Color },
}

impl DrawCommand {
    /// The picture after the operation.
    pub open spec fn apply(&self, picture: Picture, resources: ResourcesView) -> Picture {
        let screen = picture.screen;
        match self {
            DrawCommand::Cls => Picture { screen: blank_screen(), ..picture },
            DrawCommand::Palt(transparent) => Picture { transparent: *transparent, ..picture },
            DrawCommand::Pset { x, y, color } => Picture {
                screen: pset_spec(screen, *x as int, *y as int, *color),
                ..picture
            },
            DrawCommand::RectFill { x0, y0, x1, y1, color } => Picture {
                screen: rectfill_spec(screen, *x0 as int, *y0 as int, *x1 as int, *y1 as int, *color),
                ..picture
            },
            DrawCommand::Rect { x0, y0, x1, y1, color } => Picture {
                screen: rect_spec(screen, *x0 as int, *y0 as int, *x1 as int, *y1 as int, *color),
                ..picture
            },
            DrawCommand::Line { x0, y0, x1, y1, color } => Picture {
                screen: line_spec(screen, *x0 as int, *y0 as int, *x1 as int, *y1 as int, *color),
                ..picture
            },
            DrawCommand::Spr { index, x, y } => Picture {
                screen: blit_spec(
                    screen,
                    sprite_of(resources.sprite_sheet, *index as int),
                    *x as int,
                    *y as int,
                    picture.transparent,
                ),
                ..picture
            },
            DrawCommand::Print { text, x, y, color } => Picture {
                screen: print_spec(screen, text@, *x as int, *y as int, *color),
                ..picture
            },
        }
    }

    /// Performs the operation.
    pub fn run<'a>(&self, draw_context: &mut DrawContext<'a>)
        requires
            old(draw_context).wf(),
        ensures
            final(draw_context).wf(),
            final(draw_context).resources() == old(draw_context).resources(),
            final(draw_context).state() == old(draw_context).state(),
            final(draw_context).picture() == self.apply(
                old(draw_context).picture(),
                old(draw_context).resources()@,
            ),
    {
        match self {
            DrawCommand::Cls => draw_context.cls(),
            DrawCommand::Palt(transparent) => draw_context.palt(*transparent),
            DrawCommand::Pset { x, y, color } => draw_context.pset(*x, *y, *color),
            DrawCommand::RectFill { x0, y0, x1, y1, color } => draw_context.rectfill(
                *x0,
                *y0,
                *x1,
                *y1,
                *color,
            ),
            DrawCommand::Rect { x0, y0, x1, y1, color } => draw_context.rect(
                *x0,
                *y0,
                *x1,
                *y1,
                *color,
            ),
            DrawCommand::Line { x0, y0, x1, y1, color } => draw_context.line(
                *x0,
                *y0,
                *x1,
                *y1,
                *color,
            ),
            DrawCommand::Spr { index, x, y } => draw_context.spr(*index, *x, *y),
            DrawCommand::Print { text, x, y, color } => draw_context.print(
                text.as_str(),
                *x,
                *y,
                *color,
            ),
        }
    }
}

/// A leaf of the view tree that draws by a list of operations.
#[derive(Debug)]
pub struct DrawFn {
    pub commands: Vec<DrawCommand>,
}

impl DrawFn {
    /// The picture after the first `n` of `commands`.
    pub open spec fn run_all(
        commands: Seq<DrawCommand>,
        n: nat,
        picture: Picture,
        resources: ResourcesView,
    ) -> Picture
        decreases n,
    {
        if n == 0 || n > commands.len() {
            picture
        } else {
            commands[n - 1].apply(Self::run_all(commands, (n - 1) as nat, picture, resources), resources)
        }
    }

    /// A leaf that performs `commands` in order.
    pub fn new(commands: Vec<DrawCommand>) -> (f: DrawFn)
        ensures
            f.commands == commands,
    {
        DrawFn { commands }
    }
}

impl Paint for DrawFn {
    open spec fn paintable(&self) -> bool {
        true
    }

    open spec fn paint(&self, picture: Picture, resources: ResourcesView, state: InternalState) -> Picture {
        Self::run_all(self.commands@, self.commands@.len(), picture, resources)
    }

    fn draw<'a>(&self, draw_context: &mut DrawContext<'a>) {
        let mut i: usize = 0;
        while i < self.commands.len()
            invariant
                i <= self.commands.len(),
                draw_context.wf(),
                draw_context.resources() == old(draw_context).resources(),
                draw_context.state() == old(draw_context).state(),
                draw_context.picture() == Self::run_all(
                    self.commands@,
                    i as nat,
                    old(draw_context).picture(),
                    old(draw_context).resources()@,
                ),
            decreases self.commands.len() - i,
        {
            self.commands[i].run(draw_context);
            i += 1;
        }
    }
}

} // verus!
