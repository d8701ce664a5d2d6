//! A growable, contiguous buffer of fixed-size elements that a memory-managed
//! host can hand to native caller code across a foreign-function boundary and
//! later reclaim or have freed, without double-frees or leaks.
//!
//! The crate has three parts:
//! - [`buffer::GrowableBuffer`]: the buffer itself, with its capacity and
//!   reallocation bookkeeping, capture from and release to a host array, and
//!   amortized (doubling) growth under `push` / `push_all`;
//! - [`registry::Registry`]: the ownership ledger for buffers that have been
//!   handed out by handle, with the single authoritative free path, tolerant
//!   of the null handle and accounting for every deallocation;
//! - [`fstring::ForeignString`]: the buffer-of-bytes specialization that
//!   enforces terminator placement and interior-terminator validity, with
//!   host-string round-trips and display rendering.
use vstd::prelude::*;

pub mod buffer;
pub mod fstring;
pub mod registry;

verus! {

/// Marker trait for element types that are allowed to cross the foreign
/// boundary: fixed-size values with a stable layout.
pub trait C: Sized {}

impl C for libc::c_char {}

impl C for libc::c_short {}

impl C for libc::c_int {}

impl C for libc::c_long {}

impl C for libc::c_uchar {}

impl C for libc::c_ushort {}

impl C for libc::c_uint {}

impl C for libc::c_ulong {}

impl C for libc::size_t {}

impl C for libc::ssize_t {}

} // verus!
