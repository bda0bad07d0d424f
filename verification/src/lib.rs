//! Read-only access to Nintendo Switch content archives (NCA) and the two
//! inner filesystem formats they carry: PFS0 (a flat partition filesystem)
//! and RomFS (a hash-accelerated directory tree).
//!
//! The container and both filesystems are read through a seekable byte
//! source; section data is decrypted on demand through an AES-128-CTR
//! random-access reader, and the container header through AES-XTS with the
//! big-endian sector tweak.

use vstd::prelude::*;

pub mod crypto;
pub mod key;
pub mod nca;
pub mod pfs0;
pub mod romfs;
pub mod util;

verus! {

/// Everything that can go wrong while opening or reading a container.
#[derive(Clone, Copy, Debug, PartialEq, Eq, Structural)]
pub enum NxError {
    /// The underlying byte source failed.
    Io,
    /// A container's magic bytes did not match.
    InvalidMagic,
    /// A section or file index was out of range.
    InvalidIndex,
    /// A path was not present in a RomFS.
    NotFound,
    /// A section of one filesystem kind was opened as the other.
    WrongType,
    /// An encryption type or structure this reader does not handle.
    Unsupported,
    /// The key database lacks the key this container needs.
    KeyNotFound,
    /// A read past the end of a file or of the source.
    UnexpectedEof,
    /// A malformed structure: bad hex, a truncated field, a bad discriminant.
    ParseError,
}

} // verus!
