//! A minimal, allocation-conscious byte codec.
//!
//! Three layers, leaves first: a byte-buffer primitive that copies raw bytes
//! between buffers ([`IO`] on `[u8]`), a fixed-width scalar codec that
//! transcodes integers to and from their little-endian byte image ([`IO`] on
//! the integer types), and a variable-length-quantity codec for unsigned
//! 32- and 64-bit integers ([`VLQ`]).  On top of those sits length-prefixed
//! framing for raw-byte containers ([`FricganString`] and [`VLQString`]),
//! whose length field is either a fixed-width scalar or a VLQ integer.
//!
//! Every operation borrows a caller-supplied buffer, works from offset zero,
//! never reads or writes past the buffer's declared length, and returns the
//! number of bytes transferred.  Buffer sizing is the caller's duty and is
//! enforced here as a verified precondition.
//!
//! The fixed-width codec assembles bytes explicitly in little-endian order,
//! the portable counterpart of a raw memory image on a little-endian host;
//! no byte-order normalization is performed beyond that fixed choice.

use vstd::prelude::*;

pub mod io;
pub mod strings;
pub mod unsigned;
pub mod vlq;

verus! {

pub use crate::io::IO;
pub use crate::strings::FricganString;
pub use crate::strings::VLQString;
pub use crate::unsigned::FioUnsigned;
pub use crate::vlq::VLQ;

} // verus!
