//! Hope OS user-space components: the verified core.
//!
//! Each module holds the logic of one component of the system; the
//! programs that read the disk, talk to the network or spawn processes
//! hand plain values to these functions and act on what they return.

pub mod cli;
pub mod context;
pub mod crypto;
pub mod detection;
pub mod drivers;
pub mod hex;
pub mod models;
pub mod notifications;
pub mod numfmt;
pub mod ollama;
pub mod shell;
pub mod spotlight;
pub mod text;
pub mod vault;
pub mod voice;

use vstd::prelude::*;

verus! {

/// Version of the Hope OS components.
pub const VERSION: &'static str = "0.1.0";

} // verus!
