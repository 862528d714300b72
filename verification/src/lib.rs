//! App-scoped capture and input for Linux automation agents.
//!
//! A seat exposes a private Wayland socket. Applications launched with that
//! socket as `WAYLAND_DISPLAY` remain ordinary visible windows on the user's
//! compositor, while the owning process can capture their `wl_shm` frames and
//! inject input at the application boundary. The ambient desktop is never
//! captured, and privileged Wayland interfaces are never forwarded.
//!
//! This library holds the rules of the seat. Files, sockets, threads,
//! processes and the Wayland and keyboard libraries are handled around it:
//! where a rule needs the outside, it asks for an action and is told what
//! came of it.
//!
//! - Messages: [`proxy`], [`tracking`], [`forward`] and [`interfaces`] move
//!   messages between an application and the compositor.
//! - Input: [`input`], [`plan`], [`inject`], [`typing`], [`keymap`],
//!   [`keytable`] and [`run`] plan and perform synthetic input.
//! - Frames: [`capture`] picks, checks and decodes what an application shows.
//! - The seat: [`session`], [`serve`], [`seat`], [`seat_app`], [`slot`],
//!   [`teardown`] and [`identity`] open, serve and close it.
//! - The harness: [`harness`], [`launch`], [`bridge`], [`command`] and
//!   [`process`] launch applications.
//! - What holds of all of it together: [`laws`], [`forward_laws`],
//!   [`capture_laws`], [`plan_laws`], [`typing_laws`], [`input_laws`],
//!   [`key_laws`], [`launch_laws`], [`bridge_laws`], [`seat_laws`],
//!   [`harness_laws`], [`text_laws`], [`view_laws`].
pub mod bridge;
pub mod bridge_laws;
pub mod bytes;
pub mod capture;
pub mod capture_laws;
pub mod clock;
pub mod command;
pub mod error;
pub mod forward;
pub mod forward_laws;
pub mod harness;
pub mod harness_laws;
pub mod identity;
pub mod inject;
pub mod input;
pub mod input_laws;
pub mod interfaces;
pub mod key_laws;
pub mod keymap;
pub mod keytable;
pub mod launch;
pub mod launch_laws;
pub mod laws;
pub mod paths;
pub mod plan;
pub mod plan_laws;
pub mod process;
pub mod proxy;
pub mod run;
pub mod seat;
pub mod seat_app;
pub mod seat_laws;
pub mod serve;
pub mod session;
pub mod slot;
pub mod teardown;
pub mod text;
pub mod text_laws;
pub mod tracking;
pub mod typing;
pub mod typing_laws;
pub mod view_laws;

pub use bridge::XwaylandBridge;
pub use capture::CapturedFrame;
pub use error::SeatError;
pub use harness::{
    ComputerUse, ComputerUseBuilder, ControlledApp, Error, LaunchConfig, PointerButton, Transport,
};
pub use seat::AgentSeat;
pub use seat_app::SeatApp;
pub use slot::{available, seat, shutdown};
