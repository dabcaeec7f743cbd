//! Common routines.

use vstd::prelude::*;
use vstd::std_specs::convert::FromSpecImpl;
use crate::ivf;
use crate::vpx;

verus! {

/// Universal error type across the submodules.
#[derive(Debug)]
pub enum Error {
    IvfError(ivf::Error),
    VpxError(vpx::Error),
}

impl From<ivf::Error> for Error {
    fn from(e: ivf::Error) -> (err: Error) {
        Error::IvfError(e)
    }
}

impl FromSpecImpl<ivf::Error> for Error {
    open spec fn obeys_from_spec() -> bool {
        true
    }

    open spec fn from_spec(e: ivf::Error) -> Error {
        Error::IvfError(e)
    }
}

impl From<vpx::Error> for Error {
    fn from(e: vpx::Error) -> (err: Error) {
        Error::VpxError(e)
    }
}

impl FromSpecImpl<vpx::Error> for Error {
    open spec fn obeys_from_spec() -> bool {
        true
    }

    open spec fn from_spec(e: vpx::Error) -> Error {
        Error::VpxError(e)
    }
}

impl Error {
    /// Describes the error in the words of the submodule that it comes from.
    pub fn message(&self) -> (text: String)
        ensures
            self matches Error::IvfError(e) ==> {
                &&& e is IoError ==> ivf::Error::io_prefix().is_prefix_of(text@)
                &&& !(e is IoError) ==> text@ == e.parse_message()
            },
            self matches Error::VpxError(e) ==> text@ == e.message_text(),
    {
        match self {
            Error::IvfError(err) => err.message(),
            Error::VpxError(err) => err.message(),
        }
    }
}

/// The number that the two bytes `b0`, `b1` spell in little-endian order.
pub open spec fn le16(b0: u8, b1: u8) -> int {
    b0 as int + 256 * (b1 as int)
}

/// The number that the four bytes `b0` .. `b3` spell in little-endian order.
pub open spec fn le32(b0: u8, b1: u8, b2: u8, b3: u8) -> int {
    b0 as int + 256 * (b1 as int) + 65536 * (b2 as int) + 16777216 * (b3 as int)
}

/// Reads a little-endian 32-bit value from the first four bytes of `buf`.
pub fn get_le32(buf: &[u8]) -> (val: u32)
    requires
        buf@.len() >= 4,
    ensures
        val as int == le32(buf@[0], buf@[1], buf@[2], buf@[3]),
{
    let b0: u32 = buf[0] as u32;
    let b1: u32 = buf[1] as u32;
    let b2: u32 = buf[2] as u32;
    let b3: u32 = buf[3] as u32;
    let mut val: u32 = b3 << 24;
    val |= b2 << 16;
    val |= b1 << 8;
    val |= b0;
    assert((((b3 << 24) | (b2 << 16)) | (b1 << 8)) | b0 == b0 + 256 * b1 + 65536 * b2 + 16777216
        * b3) by (bit_vector)
        requires
            b0 < 256,
            b1 < 256,
            b2 < 256,
            b3 < 256,
    ;
    val
}

/// Reads a little-endian 16-bit value from the first two bytes of `buf`.
pub fn get_le16(buf: &[u8]) -> (val: u16)
    requires
        buf@.len() >= 2,
    ensures
        val as int == le16(buf@[0], buf@[1]),
{
    let b0: u16 = buf[0] as u16;
    let b1: u16 = buf[1] as u16;
    let mut val: u16 = b1 << 8;
    val |= b0;
    assert((b1 << 8) | b0 == b0 + 256 * b1) by (bit_vector)
        requires
            b0 < 256,
            b1 < 256,
    ;
    val
}

} // verus!
