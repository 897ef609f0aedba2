//! Host-guest data bridge: the value exchanged with a sandboxed guest module,
//! its archive encoding, bounds-checked access to guest linear memory, the
//! guest's transform step and the host's result channel.
pub mod archive;
pub mod channel;
pub mod error;
pub mod guest;
pub mod memory;
pub mod value;
