//! Process descriptions and the state machines that drive a process to its
//! end without performing any I/O themselves.
//!
//! A [`command::Command`] describes what to run. A coroutine from
//! [`coroutines`] owns one description, emits one [`io::ProcessIo`] request
//! and, once a runtime has answered it, ends with the outcome or an error.
//! Spawning and waiting belong to the runtime; nothing in this crate starts
//! a process.

pub mod command;
pub mod coroutines;
pub mod envs;
pub mod expand;
pub mod io;
pub mod runtimes;
pub mod status;
pub mod stdio;
pub mod text;
