//! The event dispatcher: the steps of one iteration of the platform loop.
//!
//! The embedding program owns the platform loop. It calls one step for
//! each notification of the platform, hands the committed policy to the
//! platform after the step, and ends the loop when the idle step says so.

use vstd::prelude::*;
use vstd::std_specs::iter::IteratorSpec;
use std::rc::Rc;
use crate::application::{Application, ApplicationHandler, ApplicationView};
use crate::clock::{is_reading, Clock, Instant};
use crate::exit_signal::{request_exit, ExitSignal};
use crate::registry::WindowRegistry;
use crate::wake_policy::{
    apply, apply_spec, commit_spec, fold_apply, fold_commit, sanitize, sanitize_spec,
    WakePolicy,
};
use crate::window::{
    answers_redraw, answers_wake, attended_at_idle, processed, ProcessEvent, Window, WindowEvent,
    WindowEventKind, WindowId,
};

verus! {

broadcast use vstd::std_specs::hash::group_hash_axioms;

/// What the idle step tells the embedding program to do with the loop.
#[derive(Clone, Copy, Debug, PartialEq, Eq, Structural)]
pub enum IdleOutcome {
    /// End the loop now.
    Terminate,
    /// Let the platform sleep as the committed policy says.
    Continue,
}

/// The dispatcher: the application state, the policy committed to the
/// platform, and the exit signal.
pub struct Dispatcher<W> {
    application: Application<W>,
    committed: WakePolicy,
    exit: ExitSignal,
}

/// The dispatcher as contracts speak of it.
pub struct DispatcherView<W> {
    /// The application state.
    pub application: ApplicationView<W>,
    /// The policy that is committed to the platform.
    pub committed: WakePolicy,
    /// Whether exit has been requested.
    pub exit_requested: bool,
}

/// Whether `now` can be the instant at which `policy` was sanitized: the
/// clock is read for a deadline, and `now` is then the reading; nothing
/// else is sanitized, and any instant will do.
pub open spec fn sanitize_reading<C: Clock>(clock: &C, policy: WakePolicy, now: Instant) -> bool {
    policy is At ==> is_reading(clock, now)
}

/// Whether `now` can be the instant at which `proposed` was committed over
/// `current`: the clock is read where a deadline is adopted, and `now` is
/// then the reading; elsewhere any instant will do.
pub open spec fn commit_reading<C: Clock>(
    clock: &C,
    current: WakePolicy,
    proposed: WakePolicy,
    now: Instant,
) -> bool {
    proposed.displaces(current) ==> sanitize_reading(clock, proposed, now)
}

/// Whether `answers` can be what a wake step heard when it asked `windows`
/// in `order`: `order` names every window exactly once; each answer is one
/// that the contract of its window admits; and each comes with the instant
/// at which it was committed over what the answers before it had left of
/// `Idle`.
pub open spec fn wake_answers<W: Window, C: Clock>(
    windows: Map<WindowId, Rc<W>>,
    clock: &C,
    order: Seq<WindowId>,
    answers: Seq<(WakePolicy, Instant)>,
) -> bool {
    &&& order.no_duplicates()
    &&& order.to_set() == windows.dom()
    &&& answers.len() == order.len()
    &&& forall|i: int|
        0 <= i < order.len() ==> {
            &&& answers_wake(&*windows[#[trigger] order[i]], answers[i].0)
            &&& commit_reading(
                clock,
                fold_commit(WakePolicy::Idle, answers.take(i)),
                answers[i].0,
                answers[i].1,
            )
        }
}

/// Whether the event step for an event of `kind`, addressed to the window
/// `id`, can have heard these answers in the state `before`: the answer to
/// the redraw is one that the contract of the window admits, and each
/// instant is a reading of `clock` wherever the clock had to be read.
pub open spec fn event_answers<W: Window, C: Clock>(
    before: DispatcherView<W>,
    clock: &C,
    id: WindowId,
    kind: WindowEventKind,
    entry: Instant,
    handler_answer: (WakePolicy, Instant),
    redraw_answer: (WakePolicy, Instant),
) -> bool {
    let sanitized = sanitize_spec(before.committed, entry);
    let handled = commit_spec(sanitized, handler_answer.0, handler_answer.1).0;
    &&& sanitize_reading(clock, before.committed, entry)
    &&& commit_reading(clock, sanitized, handler_answer.0, handler_answer.1)
    &&& kind == WindowEventKind::RedrawRequested ==> {
        &&& answers_redraw(&*before.application.windows[id], redraw_answer.0)
        &&& commit_reading(clock, handled, redraw_answer.0, redraw_answer.1)
    }
}

impl<W> DispatcherView<W> {
    /// The state after a wake step in which the windows answered
    /// `answers`, each answer with the instant at which it was committed.
    pub open spec fn wake(self, answers: Seq<(WakePolicy, Instant)>) -> DispatcherView<W> {
        DispatcherView { committed: fold_commit(WakePolicy::Idle, answers), ..self }
    }

    /// The committed policy after an event of `kind`: the policy in force
    /// is sanitized at `entry`; the handler's answer is committed; after a
    /// redraw request the answer of the window's redraw is committed too.
    /// Each answer comes with the instant at which it was committed.
    pub open spec fn policy_after_event(
        self,
        kind: WindowEventKind,
        entry: Instant,
        handler_answer: (WakePolicy, Instant),
        redraw_answer: (WakePolicy, Instant),
    ) -> WakePolicy {
        let sanitized = sanitize_spec(self.committed, entry);
        let handled = commit_spec(sanitized, handler_answer.0, handler_answer.1).0;
        if kind == WindowEventKind::RedrawRequested {
            commit_spec(handled, redraw_answer.0, redraw_answer.1).0
        } else {
            handled
        }
    }

    /// The state after the event step for an event of `kind` addressed to
    /// the window `id`: the policy as `policy_after_event` gives it; exit
    /// requested by a close request; the window removed once it is
    /// destroyed.
    pub open spec fn window_event(
        self,
        id: WindowId,
        kind: WindowEventKind,
        entry: Instant,
        handler_answer: (WakePolicy, Instant),
        redraw_answer: (WakePolicy, Instant),
    ) -> DispatcherView<W> {
        DispatcherView {
            application: ApplicationView {
                windows: if kind == WindowEventKind::Destroyed {
                    self.application.windows.remove(id)
                } else {
                    self.application.windows
                },
                first_activation_done: self.application.first_activation_done,
            },
            committed: self.policy_after_event(kind, entry, handler_answer, redraw_answer),
            exit_requested: self.exit_requested || kind == WindowEventKind::CloseRequested,
        }
    }

    /// What the idle step returns in this state.
    pub open spec fn idle(self) -> IdleOutcome {
        if self.exit_requested {
            IdleOutcome::Terminate
        } else {
            IdleOutcome::Continue
        }
    }

    /// The state after exit was requested.
    pub open spec fn request_exit(self) -> DispatcherView<W> {
        DispatcherView { exit_requested: true, ..self }
    }

    /// The state after exit was requested `count` times.
    pub open spec fn request_exit_times(self, count: nat) -> DispatcherView<W>
        decreases count,
    {
        if count == 0 {
            self
        } else {
            self.request_exit_times((count - 1) as nat).request_exit()
        }
    }

    /// However often exit is requested, the state is the one that a single
    /// request leaves, and in it the idle step ends the loop, whatever
    /// policy is committed.
    pub proof fn lemma_idle_terminates_after_exit_requests(self, count: nat)
        requires
            count >= 1,
        ensures
            self.request_exit_times(count) == self.request_exit(),
            self.request_exit_times(count).idle() == IdleOutcome::Terminate,
        decreases count,
    {
        if count > 1 {
            self.lemma_idle_terminates_after_exit_requests((count - 1) as nat);
        } else {
            assert(self.request_exit_times(0) == self);
        }
    }

    /// No step takes an exit request back: once exit is requested, it is
    /// still requested after a wake step and after an event step, and the
    /// idle step ends the loop.
    pub proof fn lemma_exit_request_is_kept(
        self,
        answers: Seq<(WakePolicy, Instant)>,
        id: WindowId,
        kind: WindowEventKind,
        entry: Instant,
        handler_answer: (WakePolicy, Instant),
        redraw_answer: (WakePolicy, Instant),
    )
        requires
            self.exit_requested,
        ensures
            self.idle() == IdleOutcome::Terminate,
            self.wake(answers).exit_requested,
            self.window_event(id, kind, entry, handler_answer, redraw_answer).exit_requested,
    {
    }

    /// After the event step for a close request the idle step ends the
    /// loop, whatever the windows and the handler answered and whatever
    /// policy is committed.
    pub proof fn lemma_close_request_ends_loop(
        self,
        id: WindowId,
        entry: Instant,
        handler_answer: (WakePolicy, Instant),
        redraw_answer: (WakePolicy, Instant),
    )
        ensures
            self.window_event(
                id,
                WindowEventKind::CloseRequested,
                entry,
                handler_answer,
                redraw_answer,
            ).idle() == IdleOutcome::Terminate,
    {
    }

    /// After the event step for the destruction of a window, no window is
    /// found under its identifier; an event of any other kind leaves the
    /// registry as it is. The other windows stay registered either way.
    pub proof fn lemma_destroyed_window_is_removed(
        self,
        id: WindowId,
        kind: WindowEventKind,
        entry: Instant,
        handler_answer: (WakePolicy, Instant),
        redraw_answer: (WakePolicy, Instant),
        other: WindowId,
    )
        requires
            other != id,
        ensures
            ({
                let before = self.application.windows;
                let after = self.window_event(
                    id,
                    kind,
                    entry,
                    handler_answer,
                    redraw_answer,
                ).application.windows;
                &&& kind == WindowEventKind::Destroyed ==> !after.contains_key(id)
                &&& kind != WindowEventKind::Destroyed ==> after == before
                &&& after.contains_key(other) == before.contains_key(other)
                &&& before.contains_key(other) ==> after[other] == before[other]
            }),
    {
    }

    /// While the clock stands still, the event step keeps the committed
    /// policy the strongest of everything proposed since the last wake-up,
    /// sanitized: if that holds of `proposals` before the step, it holds
    /// after it of `proposals` with the answers of the step added.
    pub proof fn lemma_committed_is_strongest_since_wake(
        self,
        proposals: Seq<WakePolicy>,
        now: Instant,
        kind: WindowEventKind,
        handler_answer: WakePolicy,
        redraw_answer: WakePolicy,
    )
        requires
            self.committed == sanitize_spec(fold_apply(WakePolicy::Idle, proposals), now),
        ensures
            self.policy_after_event(kind, now, (handler_answer, now), (redraw_answer, now))
                == sanitize_spec(
                fold_apply(
                    WakePolicy::Idle,
                    if kind == WindowEventKind::RedrawRequested {
                        proposals.push(handler_answer).push(redraw_answer)
                    } else {
                        proposals.push(handler_answer)
                    },
                ),
                now,
            ),
    {
        let before = fold_apply(WakePolicy::Idle, proposals);
        let handled = proposals.push(handler_answer);
        let drawn = handled.push(redraw_answer);
        assert(handled.drop_last() == proposals);
        assert(drawn.drop_last() == handled);
        assert(fold_apply(WakePolicy::Idle, handled) == apply_spec(before, handler_answer).0);
        assert(fold_apply(WakePolicy::Idle, drawn) == apply_spec(
            fold_apply(WakePolicy::Idle, handled),
            redraw_answer,
        ).0);
    }

    /// After a redraw request, when neither the committed deadline nor the
    /// one that the redraw answered is due and the handler asked for
    /// nothing, the earlier of the two deadlines is committed.
    pub proof fn lemma_redraw_commits_the_earlier_deadline(
        self,
        committed_until: Instant,
        entry: Instant,
        handled_at: Instant,
        redraw_until: Instant,
        drawn_at: Instant,
    )
        requires
            self.committed == WakePolicy::At(committed_until),
            !WakePolicy::At(committed_until).is_due(entry),
            !WakePolicy::At(redraw_until).is_due(drawn_at),
        ensures
            self.policy_after_event(
                WindowEventKind::RedrawRequested,
                entry,
                (WakePolicy::Idle, handled_at),
                (WakePolicy::At(redraw_until), drawn_at),
            ) == if redraw_until.nanos < committed_until.nanos {
                WakePolicy::At(redraw_until)
            } else {
                WakePolicy::At(committed_until)
            },
    {
    }
}

impl<W> View for Dispatcher<W> {
    type V = DispatcherView<W>;

    closed spec fn view(&self) -> DispatcherView<W> {
        DispatcherView {
            application: self.application@,
            committed: self.committed,
            exit_requested: self.exit.requested(),
        }
    }
}

/// Sanitizes `policy` at the instant that `clock` shows. The clock is read
/// only for a deadline. Returns the instant beside the policy.
fn sanitize_by_clock<C: Clock>(policy: WakePolicy, clock: &C) -> (result: (
    WakePolicy,
    Ghost<Instant>,
))
    ensures
        result.0 == sanitize_spec(policy, result.1@),
        sanitize_reading(clock, policy, result.1@),
{
    match policy {
        WakePolicy::At(_) => {
            let now = clock.now();
            (sanitize(policy, now), Ghost(now))
        },
        _ => (policy, Ghost(Instant { nanos: 0 })),
    }
}

/// Commits `proposed` over `current` at the instant that `clock` shows. The
/// clock is read only where a deadline is adopted. Returns the instant
/// beside the policy.
fn commit_by_clock<C: Clock>(current: WakePolicy, proposed: WakePolicy, clock: &C) -> (result: (
    WakePolicy,
    Ghost<Instant>,
))
    ensures
        result.0 == commit_spec(current, proposed, result.1@).0,
        commit_reading(clock, current, proposed, result.1@),
{
    let (adopted, changed) = apply(current, proposed);
    if changed {
        sanitize_by_clock(adopted, clock)
    } else {
        (current, Ghost(Instant { nanos: 0 }))
    }
}

impl<W> Dispatcher<W> {
    /// The registry of live windows, as the handler is handed it.
    pub closed spec fn registry(&self) -> WindowRegistry<W> {
        self.application.registry()
    }

    /// The registry holds the windows that the view shows.
    pub proof fn lemma_registry_holds_the_windows(&self)
        ensures
            self.registry()@ == self@.application.windows,
    {
        self.application.lemma_registry_holds_the_windows();
    }

    /// A dispatcher for `application`, with `Idle` committed and no exit
    /// requested.
    pub fn new(application: Application<W>) -> (dispatcher: Self)
        ensures
            dispatcher@.application == application@,
            dispatcher@.committed == WakePolicy::Idle,
            !dispatcher@.exit_requested,
    {
        Dispatcher { application, committed: WakePolicy::Idle, exit: ExitSignal::new() }
    }

    /// The policy that is committed to the platform.
    pub fn committed(&self) -> (policy: WakePolicy)
        ensures
            policy == self@.committed,
    {
        self.committed
    }

    /// Whether exit has been requested.
    pub fn is_exit_requested(&self) -> (requested: bool)
        ensures
            requested == self@.exit_requested,
    {
        self.exit.is_exit_requested()
    }

    /// The application state.
    pub fn application(&self) -> (application: &Application<W>)
        ensures
            application@ == self@.application,
    {
        &self.application
    }

    /// Requests exit: the next idle step ends the loop.
    pub fn request_exit(&mut self)
        ensures
            final(self)@ == old(self)@.request_exit(),
    {
        request_exit(&mut self.exit);
    }

    /// The wake step, at a new reason for waking: starts from `Idle`, asks
    /// every registered window once when it next needs the loop, in no
    /// particular order, and commits the answers one after another. Nothing
    /// but the committed policy changes.
    pub fn wake_step<C: Clock>(&mut self, clock: &C)
        where W: Window
        ensures
            exists|order: Seq<WindowId>, answers: Seq<(WakePolicy, Instant)>|
                {
                    &&& #[trigger] wake_answers(old(self)@.application.windows, clock, order, answers)
                    &&& final(self)@ == old(self)@.wake(answers)
                },
    {
        let mut committed = WakePolicy::Idle;
        let ghost entries = self.application.windows.windows.iter().remaining();
        let ghost mut order: Seq<WindowId> = Seq::empty();
        let ghost mut answers: Seq<(WakePolicy, Instant)> = Seq::empty();
        for entry in it: self.application.windows.windows.iter()
            invariant
                it.seq() == entries,
                entries.no_duplicates(),
                order.len() == it.index(),
                answers.len() == it.index(),
                committed == fold_commit(WakePolicy::Idle, answers),
                forall|j: int|
                    0 <= j < order.len() ==> {
                        &&& #[trigger] order[j] == (WindowId { raw: *entries[j].0 })
                        &&& answers_wake(&**entries[j].1, answers[j].0)
                        &&& commit_reading(
                            clock,
                            fold_commit(WakePolicy::Idle, answers.take(j)),
                            answers[j].0,
                            answers[j].1,
                        )
                    },
        {
            let answer = entry.1.on_wake();
            let (next, Ghost(now)) = commit_by_clock(committed, answer, clock);
            proof {
                let heard = answers.push((answer, now));
                assert(heard.drop_last() == answers);
                assert(heard.take(answers.len() as int) == answers);
                assert forall|j: int| 0 <= j < answers.len() implies heard.take(j)
                    == answers.take(j) by {
                    assert(heard.take(j) =~= answers.take(j));
                }
                order = order.push(WindowId { raw: *entry.0 });
                answers = heard;
            }
            committed = next;
        }
        self.committed = committed;
        proof {
            self.application.lemma_view_shows_fields();
            self.application.windows.lemma_walk_lists_all(entries, order);
            assert(wake_answers(old(self)@.application.windows, clock, order, answers));
            assert(self@ == old(self)@.wake(answers));
        }
    }

    /// The activation step, when rendering surfaces can be created: at the
    /// first activation calls the handler's hook, which may register
    /// windows; at any later one does nothing. Returns whether this was the
    /// first activation.
    pub fn activation_step<H: ApplicationHandler<W>>(&mut self, handler: &mut H) -> (first: bool)
        ensures
            first == !old(self)@.application.first_activation_done,
            final(self)@.application.first_activation_done,
            final(self)@.committed == old(self)@.committed,
            final(self)@.exit_requested == old(self)@.exit_requested,
            first ==> exists|hook: &mut H, windows: &mut WindowRegistry<W>|
                {
                    &&& mut_ref_current(hook) == *old(handler)
                    &&& mut_ref_future(hook) == *final(handler)
                    &&& mut_ref_current(windows) == old(self).registry()
                    &&& mut_ref_future(windows) == final(self).registry()
                    &&& #[trigger] call_ensures(H::handle_can_create_surface, (hook, windows), ())
                },
            !first ==> final(self)@ == old(self)@ && *final(handler) == *old(handler),
    {
        let first = self.application.mark_first_activation();
        if first {
            proof {
                self.application.lemma_view_shows_fields();
            }
            handler.handle_can_create_surface(&mut self.application.windows);
            proof {
                self.application.lemma_view_shows_fields();
            }
        }
        first
    }

    /// The event step, for an event addressed to the registered window
    /// `window_id`. In this order: sanitizes the committed policy; hands
    /// the event to the handler and commits its answer; on a redraw request
    /// lets the window redraw and commits its answer; on a close request
    /// requests exit; hands the event to the window's own processor; once
    /// the window is destroyed, removes it from the registry.
    ///
    /// The contract names what the step heard: the instant `entry` at which
    /// it sanitized, the handler's answer and the window's answer to the
    /// redraw, each with the instant at which it was committed. The handler
    /// was handed the registry as it was before the step, and the window
    /// that was registered then has taken the event.
    pub fn window_event_step<H: ApplicationHandler<W>, C: Clock>(
        &mut self,
        handler: &mut H,
        clock: &C,
        window_id: WindowId,
        event: WindowEvent<H::Event>,
    )
        where W: Window + ProcessEvent<H::Event>
        requires
            old(self)@.application.windows.contains_key(window_id),
        ensures
            exists|
                entry: Instant,
                handler_answer: (WakePolicy, Instant),
                redraw_answer: (WakePolicy, Instant),
            |
                {
                    &&& event_answers(
                        old(self)@,
                        clock,
                        window_id,
                        event.kind,
                        entry,
                        handler_answer,
                        redraw_answer,
                    )
                    &&& exists|hook: &mut H|
                        {
                            &&& mut_ref_current(hook) == *old(handler)
                            &&& mut_ref_future(hook) == *final(handler)
                            &&& #[trigger] call_ensures(
                                H::handle_window_event,
                                (hook, &old(self).registry(), window_id, &event),
                                handler_answer.0,
                            )
                        }
                    &&& final(self)@ == #[trigger] old(self)@.window_event(
                        window_id,
                        event.kind,
                        entry,
                        handler_answer,
                        redraw_answer,
                    )
                },
            processed(&*old(self)@.application.windows[window_id], event),
            final(self)@.exit_requested == (old(self)@.exit_requested || event.kind
                == WindowEventKind::CloseRequested),
            final(self)@.application.windows == if event.kind == WindowEventKind::Destroyed {
                old(self)@.application.windows.remove(window_id)
            } else {
                old(self)@.application.windows
            },
    {
        let kind = event.kind;
        let (sanitized, Ghost(entry)) = sanitize_by_clock(self.committed, clock);
        self.committed = sanitized;

        proof {
            self.application.lemma_view_shows_fields();
        }
        let answer = handler.handle_window_event(&self.application.windows, window_id, &event);
        let (handled, Ghost(handled_at)) = commit_by_clock(self.committed, answer, clock);
        self.committed = handled;

        let ghost mut redraw_answer = (WakePolicy::Idle, Instant { nanos: 0 });
        if kind == WindowEventKind::RedrawRequested {
            let answer = self.application.lookup(window_id).redraw();
            let (drawn, Ghost(drawn_at)) = commit_by_clock(self.committed, answer, clock);
            self.committed = drawn;
            proof {
                redraw_answer = (answer, drawn_at);
            }
        }
        if kind == WindowEventKind::CloseRequested {
            request_exit(&mut self.exit);
        }
        let destroyed = kind == WindowEventKind::Destroyed;
        self.application.lookup(window_id).process_event(event);
        if destroyed {
            self.application.remove(window_id);
        }
        assert(self@ == old(self)@.window_event(
            window_id,
            kind,
            entry,
            (answer, handled_at),
            redraw_answer,
        ));
        assert(exists|hook: &mut H|
            {
                &&& mut_ref_current(hook) == *old(handler)
                &&& mut_ref_future(hook) == *handler
                &&& #[trigger] call_ensures(
                    H::handle_window_event,
                    (hook, &old(self).registry(), window_id, &event),
                    answer,
                )
            });
    }

    /// The idle step, just before the platform would sleep. After an exit
    /// request it returns `Terminate` and touches no window. Otherwise it
    /// tells every registered window that the events of this iteration are
    /// cleared, asks it whether it needs a redraw, requests one from it if
    /// so, and returns `Continue`. The committed policy stays as it is.
    pub fn idle_step(&self) -> (outcome: IdleOutcome)
        where W: Window
        ensures
            outcome == self@.idle(),
            outcome == IdleOutcome::Continue ==> forall|id: WindowId| #[trigger]
                self@.application.windows.contains_key(id) ==> attended_at_idle(
                    &*self@.application.windows[id],
                ),
    {
        if self.exit.is_exit_requested() {
            return IdleOutcome::Terminate;
        }
        let ghost entries = self.application.windows.windows.iter().remaining();
        let ghost mut attended: int = 0;
        for entry in it: self.application.windows.windows.iter()
            invariant
                it.seq() == entries,
                attended == it.index(),
                forall|j: int| 0 <= j < attended ==> attended_at_idle(&**(#[trigger] entries[j]).1),
        {
            let window = entry.1;
            window.on_batch_cleared();
            let needs = window.needs_redraw();
            if needs {
                window.request_redraw();
            }
            proof {
                attended = attended + 1;
            }
        }
        proof {
            self.application.lemma_view_shows_fields();
            self.application.windows.lemma_view_is_stored();
            let stored = self.application.windows.windows@;
            assert forall|id: WindowId| #[trigger]
                self@.application.windows.contains_key(id) implies attended_at_idle(
                &*self@.application.windows[id],
            ) by {
                assert(stored.contains_key(id.raw));
                assert(entries.contains((&id.raw, &stored[id.raw])));
                let j = choose|j: int| 0 <= j < entries.len() && entries[j] == (&id.raw, &stored[id.raw]);
                assert(attended_at_idle(&**entries[j].1));
            }
        }
        IdleOutcome::Continue
    }

    /// Gives the application state back without a word to the handler, for
    /// a loop that ended without announcing it.
    pub fn into_application(self) -> (application: Application<W>)
        ensures
            application@ == self@.application,
    {
        self.application
    }

    /// The termination step, when the loop is ending: calls the handler's
    /// exiting hook and gives the application state back. The dispatcher
    /// is used up, so no step can follow.
    pub fn termination_step<H: ApplicationHandler<W>>(self, handler: &mut H) -> (application:
        Application<W>)
        ensures
            application@ == self@.application,
            exists|hook: &mut H|
                {
                    &&& mut_ref_current(hook) == *old(handler)
                    &&& mut_ref_future(hook) == *final(handler)
                    &&& #[trigger] call_ensures(H::exiting, (hook,), ())
                },
    {
        handler.exiting();
        self.application
    }
}

} // verus!
