//! A verified core for a WebAssembly-hosting micro operating system.
//!
//! Every user application runs as a sandboxed WASM guest. The kernel exposes a
//! small, fixed ABI to each guest; guests share framebuffer bytes with the
//! compositor through their own linear memory, talk TCP through per-guest
//! socket handles, and are stepped once per display tick under a bounded fuel
//! budget. This crate holds the guest execution core: the memory bridge, the
//! socket registry, the step context, the ABI stub table, the per-tick
//! scheduler logic and their supporting data types. The WASM engine itself,
//! the VirtIO devices and the in-kernel TCP stack are outside collaborators:
//! they act through the thin adapters declared here and in the host harness.

pub mod abi;
pub mod arith;
pub mod color;
pub mod compositor;
pub mod console;
pub mod demo;
pub mod fault;
pub mod framebuf;
pub mod geometry;
pub mod guest;
pub mod guestmem;
pub mod html;
pub mod input;
pub mod netpkt;
pub mod runtime;
pub mod sockets;
pub mod stats;
pub mod store;
pub mod stylesheet;
pub mod utf8;
pub mod webview;
pub mod wire;
