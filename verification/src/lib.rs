//! The logic of a screen recorder for Wayland compositors.
//!
//! The compositor copies the output into hardware surfaces, a filter graph converts them, and
//! an encoder turns the result into packets. This library decides what happens next and with
//! which arguments; a driver around it talks to the compositor and to the codec library.
//!
//! - [`protocol`]: which output is recorded, and the arguments of the compositor requests.
//! - [`state`]: the recorder as a machine that takes events and answers with actions.
//! - [`moves`]: what each single event does.
//! - [`laws`]: what holds of every run of that machine.
//! - [`setup`]: the hardware contexts, the encoder and the filter graph that a recording uses.
pub mod laws;
pub mod moves;
pub mod protocol;
pub mod setup;
pub mod state;
