//! Firmware core for a USB-attached performance monitor gadget.
//!
//! The device receives host performance snapshots over a raw serial byte
//! link, reassembles delimited frames, decodes them, and animates a bar-graph
//! display, blanking itself when data stops arriving.  This crate holds the
//! verified core: the packet framer, the message codec, the fixed-point
//! snapshot model, the animation engine, the no-data watchdog, the monotonic
//! timer arithmetic, and the display geometry.  Hardware access and host-side
//! process plumbing live outside, and hand these functions plain values.

pub mod codec;
pub mod framer;
pub mod gfx;
pub mod host;
pub mod message;
pub mod mono;
pub mod perf;
pub mod queue;
pub mod tasks;
pub mod watchdog;
