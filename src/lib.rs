//! Raising, shaping and launching windows through a scriptable window manager.
//!
//! The window manager runs short programs that it is handed over the message bus.
//! [`script`] writes those programs from a selection and a geometry policy,
//! [`version`] tells from the manager's version how a loaded program is addressed,
//! [`process`] decides from a snapshot of the process table whether the program to
//! warp to already runs, and [`plan`] chooses what to do. [`session`] reads the
//! manager's reports and names the programs it is handed.
use vstd::prelude::*;

pub mod number;
pub mod plan;
pub mod process;
pub mod script;
pub mod session;
pub mod text;
pub mod version;

verus! {

} // verus!
