//! What the dispatcher knows of a window: its identifier, the events that
//! are addressed to it, and the operations it answers.

use vstd::prelude::*;
use crate::wake_policy::WakePolicy;

verus! {

/// The identifier that the platform gave a window. It is unique among the
/// windows that are alive.
#[derive(Clone, Copy, Debug, PartialEq, Eq, Structural)]
pub struct WindowId {
    pub raw: u64,
}

/// What the dispatcher reads of a window event: whether it is one of the
/// three notifications that the dispatcher itself reacts to.
#[derive(Clone, Copy, Debug, PartialEq, Eq, Structural)]
pub enum WindowEventKind {
    /// The window should draw itself.
    RedrawRequested,
    /// The user asked to close the window.
    CloseRequested,
    /// The platform has destroyed the window.
    Destroyed,
    /// Any other event.
    Other,
}

/// An event addressed to a window: its kind, and the raw event as the
/// platform delivered it, which the dispatcher passes on unread.
pub struct WindowEvent<E> {
    pub kind: WindowEventKind,
    pub raw: E,
}

/// The operations of a registered window that the dispatcher calls between
/// events. Nothing is assumed of what they do or return; what an
/// implementation ensures of them, the dispatcher's contracts hand on.
pub trait Window {
    /// Whether the window needs to be drawn again.
    fn needs_redraw(&self) -> bool;

    /// Asks the platform for a redraw event for this window, to arrive
    /// later.
    fn request_redraw(&self);

    /// Told once per iteration, when the events of the iteration have all
    /// been delivered.
    fn on_batch_cleared(&self);

    /// Asked once per wake-up: when the window next needs the loop to run.
    fn on_wake(&self) -> WakePolicy;

    /// Draws the window; returns when it next needs the loop to run.
    fn redraw(&self) -> WakePolicy;
}

/// The window's own processor for events whose raw form is `E`.
pub trait ProcessEvent<E> {
    /// Takes one event addressed to this window.
    fn process_event(&self, event: WindowEvent<E>);
}

/// Whether `answer` is an answer that the contract of the window's
/// `on_wake` admits.
pub open spec fn answers_wake<W: Window>(window: &W, answer: WakePolicy) -> bool {
    call_ensures(W::on_wake, (window,), answer)
}

/// Whether `answer` is an answer that the contract of the window's `redraw`
/// admits.
pub open spec fn answers_redraw<W: Window>(window: &W, answer: WakePolicy) -> bool {
    call_ensures(W::redraw, (window,), answer)
}

/// What the idle step has brought about at a window: what the window's
/// `on_batch_cleared` ensures; and, for an answer that its `needs_redraw`
/// admits, what its `request_redraw` ensures if the answer is yes.
pub open spec fn attended_at_idle<W: Window>(window: &W) -> bool {
    &&& call_ensures(W::on_batch_cleared, (window,), ())
    &&& exists|needs: bool| #[trigger]
        call_ensures(W::needs_redraw, (window,), needs) && (needs ==> call_ensures(
            W::request_redraw,
            (window,),
            (),
        ))
}

/// What the window's `process_event` ensures once it has taken `event`.
pub open spec fn processed<E, W: ProcessEvent<E>>(window: &W, event: WindowEvent<E>) -> bool {
    call_ensures(W::process_event, (window, event), ())
}

} // verus!
