//! The capabilities through which the rest of a system uses a console,
//! without knowing which device stands behind it.
use vstd::prelude::*;
use crate::device::{counter_after, device_bytes};

verus! {

/// Reports how much text a console has been given.
pub trait Statistics {
    /// The number of characters counted so far.
    spec fn chars_count(&self) -> nat;

    /// The number of characters written so far.
    fn chars_written(&self) -> (r: usize)
        ensures
            r as nat == self.chars_count(),
    ;
}

/// Sends text to a console.
///
/// The caller holds the console exclusively for the whole call, so the text
/// of one call is never interleaved with that of another.
pub trait Write: Statistics {
    /// Sends `s`, and returns the bytes to store to the output register, in
    /// order: each newline goes out as a carriage return and a newline. The
    /// counter advances by the number of characters in `s`, not by the number
    /// of bytes.
    fn write_str(&mut self, s: &str) -> (sent: Vec<u8>)
        ensures
            sent@ == device_bytes(s@),
            final(self).chars_count() == counter_after(old(self).chars_count(), s@.len()),
    ;
}

/// Reads from a console; no device here offers input.
pub trait Read {
}

/// Every capability of a console.
pub trait All: Write + Read + Statistics {
}

} // verus!
