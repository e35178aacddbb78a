use vstd::prelude::*;

verus! {

/// Why a record could not be decoded.
#[derive(Debug)]
pub enum DecodeError {
    /// The primitive codec rejected the input (too short, a bad option tag,
    /// a malformed length prefix, invalid UTF-8). Its error is kept as given.
    Codec(parity_scale_codec::Error),
    /// An evolvable field that the reading schema requires was written as
    /// absent.
    UnexpectedAbsence,
}

} // verus!
