//! The runtime core of a polling-loop firmware: a fixed-capacity circular
//! buffer engine with two overflow policies, a cooperative task scheduler, a
//! reentrant message bus, and a sector-aligned persistent record store.

pub mod button;
pub mod common;
pub mod dashboard;
pub mod flash;
pub mod mq;
pub mod ring;
pub mod ring_iter;
pub mod ring_state;
pub mod run_loop;
pub mod simple_ring;
pub mod window;
