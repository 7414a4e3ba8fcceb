//! Runtime code-patching and symbol-resolution engine.
//!
//! The crate holds the decisions of a hot-patching engine as verified,
//! side-effect-free code: byte-pattern scanning, remote arena bookkeeping,
//! trampoline layout, hook registries and symbol tables. Reading and writing
//! the target process is left to the caller, who feeds the results back in.

pub mod allocation;
pub mod attach;
pub mod build_guide;
pub mod bytes;
pub mod callback_system;
pub mod ce_scan;
pub mod decoder;
pub mod error;
pub mod hashlink;
pub mod injection;
pub mod manager;
pub mod mem_alloc;
pub mod memory;
pub mod pattern;
pub mod scanner;
pub mod signals;
pub mod text;
pub mod winrate;
