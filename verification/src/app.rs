//! What an application is to the console.
use crate::runtime::draw_context::Picture;
use crate::runtime::state::InternalState;
use crate::screen::{Resources, ResourcesView};
use crate::ui::{Element, Paint, Regions};
use crate::Event;
use vstd::prelude::*;

verus! {

/// An application: a model, a view of it for every frame, and an update for
/// every message.
///
/// `model()` says what an application's state is to the contracts. What the
/// view shows and answers to, what an update does and what message an event
/// gives by subscription are functions of the model, the resources and the
/// input state.
pub trait AppCompat: Sized {
    /// The messages of the application.
    type Msg: Copy;

    /// What the leaves of its view tree draw.
    type Leaf: Paint;

    /// What the application's state is to the contracts.
    type Model;

    /// The model of this state.
    spec fn model(&self) -> Self::Model;

    /// What holds of every state of the application.
    spec fn wf(&self) -> bool;

    /// The regions of the view of a model, in the order of declaration.
    spec fn view_regions(
        model: Self::Model,
        resources: ResourcesView,
        state: InternalState,
    ) -> Regions<Self::Msg>;

    /// The picture after the view of a model is drawn on `picture`. The view
    /// is built with `resources` and `state` and drawn, maybe later, with
    /// `drawn_resources` and `drawn_state`.
    spec fn view_picture(
        model: Self::Model,
        resources: ResourcesView,
        state: InternalState,
        picture: Picture,
        drawn_resources: ResourcesView,
        drawn_state: InternalState,
    ) -> Picture;

    /// Model, resources and input state after one message.
    spec fn update_spec(
        model: Self::Model,
        msg: Self::Msg,
        resources: ResourcesView,
        state: InternalState,
    ) -> (Self::Model, ResourcesView, InternalState);

    /// The message that an event gives whatever the view is, if any.
    spec fn subscriptions_spec(model: Self::Model, event: Event) -> Option<Self::Msg>;

    /// The model at start.
    fn init(resources: &Resources, state: &InternalState) -> (app: Self)
        requires
            resources.wf(),
        ensures
            app.wf(),
    ;

    /// The view tree of the model. It may read the resources and the input
    /// state and changes nothing.
    fn view(&self, resources: &Resources, state: &InternalState) -> (view: Element<
        Self::Msg,
        Self::Leaf,
    >)
        requires
            self.wf(),
            resources.wf(),
        ensures
            view.wf(),
            view.regions() == Self::view_regions(self.model(), resources@, *state),
            forall|picture: Picture, drawn_resources: ResourcesView, drawn_state: InternalState|
                #[trigger] view.paint(picture, drawn_resources, drawn_state) == Self::view_picture(
                    self.model(),
                    resources@,
                    *state,
                    picture,
                    drawn_resources,
                    drawn_state,
                ),
    ;

    /// Takes one message. It may change the resources and the input state.
    fn update(&mut self, msg: &Self::Msg, resources: &mut Resources, state: &mut InternalState)
        requires
            old(self).wf(),
            old(resources).wf(),
        ensures
            final(self).wf(),
            final(resources).wf(),
            (final(self).model(), final(resources)@, *final(state)) == Self::update_spec(
                old(self).model(),
                *msg,
                old(resources)@,
                *old(state),
            ),
    ;

    /// The message that an event gives whatever the view is, if any.
    fn subscriptions(&self, event: &Event) -> (msg: Option<Self::Msg>)
        requires
            self.wf(),
        ensures
            msg == Self::subscriptions_spec(self.model(), *event),
    ;
}

/// Model, resources and input state after the messages are taken one by one,
/// in order, each from what the one before left.
pub open spec fn apply_all<A: AppCompat>(
    model: A::Model,
    messages: Seq<A::Msg>,
    resources: ResourcesView,
    state: InternalState,
) -> (A::Model, ResourcesView, InternalState)
    decreases messages.len(),
{
    if messages.len() == 0 {
        (model, resources, state)
    } else {
        let before = apply_all::<A>(model, messages.drop_last(), resources, state);
        A::update_spec(before.0, messages.last(), before.1, before.2)
    }
}

/// Two messages are taken in their order: the second from what the first
/// left.
pub proof fn lemma_apply_two<A: AppCompat>(
    model: A::Model,
    first: A::Msg,
    second: A::Msg,
    resources: ResourcesView,
    state: InternalState,
)
    ensures
        apply_all::<A>(model, seq![first, second], resources, state) == ({
            let between = A::update_spec(model, first, resources, state);
            A::update_spec(between.0, second, between.1, between.2)
        }),
{
    let both = seq![first, second];
    assert(both.drop_last() =~= seq![first]);
    assert(seq![first].drop_last() =~= Seq::<A::Msg>::empty());
    assert(apply_all::<A>(model, Seq::<A::Msg>::empty(), resources, state) == (
        model,
        resources,
        state,
    ));
    assert(apply_all::<A>(model, seq![first], resources, state) == A::update_spec(
        model,
        first,
        resources,
        state,
    ));
}

} // verus!
