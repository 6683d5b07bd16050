//! Bring-up and timer virtualisation for a single-core board kernel.
//!
//! The crate places the long-lived kernel objects of a board into fixed
//! memory regions, shares one hardware compare timer between many software
//! clients, routes driver numbers to driver objects, and runs a periodic
//! process-status reporter on top of the shared timer.

pub mod alarm;
pub mod arena;
pub mod chip;
pub mod debug_process_status;
pub mod dispatch;
pub mod introspection;
pub mod mux;
pub mod platform;
pub mod schedule;
pub mod text;
pub mod ticks;
