//! The codec library's codes.
use vstd::prelude::*;

verus! {

/// The end of the file.
pub const AVERROR_EOF: i32 = -541478725;

/// The codec wants to hand out frames, or to be sent packets, first.
pub const AVERROR_EAGAIN: i32 = -11;

/// The end of the file is told by the letters of its name, the first of them lowest, and the
/// call to try again by its number; both are negative, as all failures are.
pub proof fn law_codes_are_those_of_the_library()
    ensures
        AVERROR_EOF == -('E' as int + 256 * ('O' as int) + 0x1_0000 * ('F' as int) + 0x100_0000 * (
        ' ' as int)),
        AVERROR_EAGAIN == -11,
{
}

} // verus!
