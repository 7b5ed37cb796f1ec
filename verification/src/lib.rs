//! Scheduling core of a desktop windowing shell.
//!
//! The crate decides, on every iteration of a platform event loop, how the
//! process should next be woken: immediately, at an instant, or only on the
//! next external event. It merges the requests of every window and of the
//! application into one wake policy, keeps the registry of live windows, and
//! carries the exit signal to the point where the loop ends.
//!
//! The platform loop itself, the windows and the application's handler stay
//! outside. The embedding program owns the loop and calls the dispatcher's
//! step for each notification of the platform: [`Dispatcher::wake_step`] at
//! a new reason for waking, [`Dispatcher::activation_step`] when surfaces
//! can be created, [`Dispatcher::window_event_step`] for each window event,
//! [`Dispatcher::idle_step`] before the platform sleeps, and
//! [`Dispatcher::termination_step`] when the loop ends. After a step it
//! hands [`Dispatcher::committed`] to the platform.
//!
//! The dispatcher reaches the windows, the handler and the clock through
//! the traits [`Window`], [`ProcessEvent`], [`ApplicationHandler`] and
//! [`Clock`]. It assumes nothing of what they answer: the contract of a
//! step says what the dispatcher makes of any answer that the contracts of
//! their implementations admit.
//!
//! The exit signal belongs to the thread that drives the loop. A program
//! that takes exit requests from other threads keeps a flag of its own for
//! them and calls [`Dispatcher::request_exit`] on the loop thread once the
//! flag is set.

pub mod application;
pub mod clock;
pub mod dispatcher;
pub mod exit_signal;
pub mod registry;
pub mod wake_policy;
pub mod window;

pub use application::{Application, ApplicationHandler};
pub use clock::{Clock, Instant};
pub use dispatcher::{Dispatcher, IdleOutcome};
pub use exit_signal::{request_exit, ExitSignal};
pub use registry::WindowRegistry;
pub use wake_policy::{apply, commit, sanitize, WakePolicy, SANITIZE_MARGIN_NANOS};
pub use window::{ProcessEvent, Window, WindowEvent, WindowEventKind, WindowId};
