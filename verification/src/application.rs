//! The application state, and the hooks of the embedding application.

use vstd::prelude::*;
use std::rc::Rc;
use crate::registry::WindowRegistry;
use crate::wake_policy::WakePolicy;
use crate::window::{WindowEvent, WindowId};

verus! {

/// The application state: the registry of live windows, and whether the
/// first activation has been seen.
pub struct Application<W> {
    pub(crate) windows: WindowRegistry<W>,
    pub(crate) first_activation_done: bool,
}

/// The application state as contracts speak of it.
pub struct ApplicationView<W> {
    /// The registered windows by identifier.
    pub windows: Map<WindowId, Rc<W>>,
    /// Whether the first activation has been marked.
    pub first_activation_done: bool,
}

impl<W> ApplicationView<W> {
    /// The state after `mark_first_activation`, and what the call returns.
    pub open spec fn mark_first_activation(self) -> (ApplicationView<W>, bool) {
        (
            ApplicationView { windows: self.windows, first_activation_done: true },
            !self.first_activation_done,
        )
    }

    /// What `count` calls of `mark_first_activation` return, one after
    /// another, starting in this state.
    pub open spec fn marks(self, count: nat) -> Seq<bool>
        decreases count,
    {
        if count == 0 {
            Seq::empty()
        } else {
            seq![self.mark_first_activation().1] + self.mark_first_activation().0.marks(
                (count - 1) as nat,
            )
        }
    }

    /// However often the first activation is marked, starting before any
    /// activation, the first call returns `true` and every later call
    /// returns `false`; once marked, every call returns `false`.
    pub proof fn lemma_marks_once(self, count: nat)
        ensures
            self.marks(count).len() == count,
            forall|i: int|
                0 <= i < count ==> (#[trigger] self.marks(count)[i] == (i == 0
                    && !self.first_activation_done)),
        decreases count,
    {
        if count > 0 {
            let next = self.mark_first_activation().0;
            next.lemma_marks_once((count - 1) as nat);
            assert forall|i: int| 0 <= i < count implies (#[trigger] self.marks(count)[i] == (i == 0
                && !self.first_activation_done)) by {
                if i > 0 {
                    assert(self.marks(count)[i] == next.marks((count - 1) as nat)[i - 1]);
                }
            }
        }
    }
}

impl<W> View for Application<W> {
    type V = ApplicationView<W>;

    closed spec fn view(&self) -> ApplicationView<W> {
        ApplicationView {
            windows: self.windows@,
            first_activation_done: self.first_activation_done,
        }
    }
}

impl<W> Application<W> {
    /// The registry of live windows.
    pub closed spec fn registry(&self) -> WindowRegistry<W> {
        self.windows
    }

    /// The registry holds the windows that the view shows.
    pub proof fn lemma_registry_holds_the_windows(&self)
        ensures
            self.registry()@ == self@.windows,
    {
    }

    /// The view shows the two fields.
    pub(crate) proof fn lemma_view_shows_fields(&self)
        ensures
            self.registry() == self.windows,
            self@.windows == self.windows@,
            self@.first_activation_done == self.first_activation_done,
    {
    }

    /// An application without windows that has not been activated.
    pub fn new() -> (application: Self)
        ensures
            application@.windows == Map::<WindowId, Rc<W>>::empty(),
            !application@.first_activation_done,
    {
        Application { windows: WindowRegistry::new(), first_activation_done: false }
    }

    /// Registers `window` under `id`, the identifier of the window it
    /// refers to.
    pub fn register_window(&mut self, id: WindowId, window: Rc<W>)
        ensures
            final(self)@.windows == old(self)@.windows.insert(id, window),
            final(self)@.first_activation_done == old(self)@.first_activation_done,
    {
        self.windows.register_window(id, window);
    }

    /// Whether a window is registered under `id`.
    pub fn is_registered(&self, id: WindowId) -> (registered: bool)
        ensures
            registered == self@.windows.contains_key(id),
    {
        self.windows.is_registered(id)
    }

    /// The handle registered under `id`.
    pub fn lookup(&self, id: WindowId) -> (window: &Rc<W>)
        requires
            self@.windows.contains_key(id),
        ensures
            *window == self@.windows[id],
    {
        self.windows.lookup(id)
    }

    /// Drops the registry's handle of the window registered under `id`, if
    /// there is one.
    pub fn remove(&mut self, id: WindowId)
        ensures
            final(self)@.windows == old(self)@.windows.remove(id),
            final(self)@.first_activation_done == old(self)@.first_activation_done,
    {
        self.windows.remove(id);
    }

    /// Marks the first activation. Returns whether this call was the one
    /// that marked it.
    pub fn mark_first_activation(&mut self) -> (first: bool)
        ensures
            (final(self)@, first) == old(self)@.mark_first_activation(),
            first == !old(self)@.first_activation_done,
            final(self)@.first_activation_done,
            final(self).registry() == old(self).registry(),
    {
        let first = !self.first_activation_done;
        self.first_activation_done = true;
        first
    }

    /// The registry of live windows.
    pub fn windows(&self) -> (windows: &WindowRegistry<W>)
        ensures
            *windows == self.registry(),
            windows@ == self@.windows,
    {
        &self.windows
    }
}

/// The hooks that the embedding application implements. The dispatcher
/// calls them and assumes nothing of what they do or return; what an
/// implementation ensures of them, the dispatcher's contracts hand on.
pub trait ApplicationHandler<W> {
    /// The raw form of the events that the platform delivers.
    type Event;

    /// Called once, at the first activation: rendering surfaces can now be
    /// created, and windows registered.
    fn handle_can_create_surface(&mut self, windows: &mut WindowRegistry<W>);

    /// Called for every window event, before the window itself sees it and
    /// while the window is still registered. Returns when the application
    /// next needs the loop to run.
    fn handle_window_event(
        &mut self,
        windows: &WindowRegistry<W>,
        window_id: WindowId,
        event: &WindowEvent<Self::Event>,
    ) -> WakePolicy
        requires
            windows.contains(window_id),
    ;

    /// Called once, when the loop is ending.
    fn exiting(&mut self);
}

} // verus!
