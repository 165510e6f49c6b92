//! The hardware-independent core of MonkeyOS, a small monolithic kernel.
//!
//! Everything in this crate is a pure state transition: frames, file sizes, file
//! reads, clocks and task identifiers that come from the machine are handed in as
//! arguments, and what has to be done to the machine is handed back as a value.
use vstd::prelude::*;

pub mod errno;
pub mod vfs;
pub mod ramfile;
pub mod ramfs;
pub mod procfs;
pub mod devfs;
pub mod pipe;
pub mod memset;
pub mod sigtypes;
pub mod task;
pub mod usermem;
pub mod fdtypes;
pub mod user;
pub mod ipc;
pub mod sys;
pub mod signal;
pub mod initproc;
pub mod scripts;
pub mod heap;
pub mod runtime;
pub mod kernel;
pub mod kvirtio;
