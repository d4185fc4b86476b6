//! Coordination logic for a pointer auto-clicker.
//!
//! Two units run side by side: a click loop that injects button clicks at the
//! pointer and stops when the pointer is moved away, and a supervisor that
//! bounds the run time and tears the loop down. They share one one-way
//! cancellation signal. This crate holds their decisions as state machines
//! over plain values; a driver performs the display-server calls, the sleeps
//! and the thread handling that the machines ask for.

pub mod budget;
pub mod click;
pub mod click_laws;
pub mod movement;
pub mod signal;
pub mod supervisor;
pub mod supervisor_laws;
