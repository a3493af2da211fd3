//! Decision logic for watching the memory controller of a cgroup (v1) for
//! out-of-memory events.
//!
//! The crate makes no system call. Each part is a state machine that tells
//! its driver what to do next and is told what came of it:
//!
//! - [`registrar`] runs the handshake that subscribes an event descriptor
//!   to the cgroup's OOM controller, and [`record`] formats what it writes;
//! - [`notifier`] drains notifications until the cgroup is removed;
//! - [`stream`] presents a non-blocking descriptor as a readiness-driven
//!   byte stream;
//! - [`cgroup`] derives the two control files from the cgroup's directory,
//!   and [`descriptor`] keeps every descriptor with exactly one owner.

pub mod cgroup;
pub mod descriptor;
pub mod notifier;
pub mod record;
pub mod registrar;
pub mod stream;
