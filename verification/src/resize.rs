//! The resize control message: five bytes, a marker followed by the row and
//! column counts as little-endian 16-bit numbers.

use vstd::prelude::*;

verus! {

/// First byte of every resize command.
pub const RESIZE_MARKER: u8 = 0xFF;

/// Length in bytes of a resize command.
pub const RESIZE_LEN: usize = 5;

/// A terminal size in character cells.
#[derive(Clone, Copy, Debug, PartialEq, Eq, Structural)]
pub struct WindowSize {
    pub rows: u16,
    pub cols: u16,
}

/// What became of a request to set the terminal's size.
pub open spec fn resize_outcome(code: i32, errno: i32) -> Result<(), i32> {
    if code == 0 {
        Ok(())
    } else {
        Err(errno)
    }
}

/// The number that two bytes spell in little-endian order.
pub open spec fn le16(lo: u8, hi: u8) -> int {
    lo as int + 256 * (hi as int)
}

/// Whether a binary payload has the shape of a resize command.
pub open spec fn is_resize(payload: Seq<u8>) -> bool {
    payload.len() == RESIZE_LEN && payload[0] == RESIZE_MARKER
}

/// The size that a binary payload asks for, if it is a resize command.
pub open spec fn resize_of(payload: Seq<u8>) -> Option<WindowSize> {
    if is_resize(payload) {
        Some(
            WindowSize {
                rows: le16(payload[1], payload[2]) as u16,
                cols: le16(payload[3], payload[4]) as u16,
            },
        )
    } else {
        None
    }
}

/// The five bytes that ask for a given size.
pub open spec fn wire_form(size: WindowSize) -> Seq<u8> {
    seq![
        RESIZE_MARKER,
        (size.rows % 256) as u8,
        (size.rows / 256) as u8,
        (size.cols % 256) as u8,
        (size.cols / 256) as u8,
    ]
}

/// Reads two bytes as a little-endian 16-bit number.
pub fn u16_from_le(lo: u8, hi: u8) -> (r: u16)
    ensures
        r == le16(lo, hi),
{
    let high: u16 = hi as u16;
    let low: u16 = lo as u16;
    high * 256 + low
}

/// Decodes a binary payload as a resize command. Any payload of another
/// length or with another first byte is no command.
pub fn decode_resize(payload: &[u8]) -> (r: Option<WindowSize>)
    ensures
        r == resize_of(payload@),
{
    if payload.len() == RESIZE_LEN && payload[0] == RESIZE_MARKER {
        let rows: u16 = u16_from_le(payload[1], payload[2]);
        let cols: u16 = u16_from_le(payload[3], payload[4]);
        Some(WindowSize { rows, cols })
    } else {
        None
    }
}

/// Reads the return code of the request that sets the terminal's size:
/// zero is success, anything else fails with the error number that came
/// with it.
pub fn resized(code: i32, errno: i32) -> (r: Result<(), i32>)
    ensures
        r == resize_outcome(code, errno),
{
    if code == 0 {
        Ok(())
    } else {
        Err(errno)
    }
}

/// Every well-formed command decodes to the little-endian reading of its
/// bytes 1-2 as rows and 3-4 as columns.
pub proof fn lemma_resize_reads_little_endian(payload: Seq<u8>)
    requires
        payload.len() == 5,
        payload[0] == 0xFF,
    ensures
        resize_of(payload) is Some,
        resize_of(payload)->Some_0.rows == payload[1] + 256 * payload[2],
        resize_of(payload)->Some_0.cols == payload[3] + 256 * payload[4],
{
}

/// A payload of the wrong length or with the wrong marker is no command.
pub proof fn lemma_malformed_is_no_resize(payload: Seq<u8>)
    requires
        payload.len() != 5 || payload[0] != 0xFF,
    ensures
        resize_of(payload) is None,
{
}

/// Decoding inverts the wire form, and only the wire form of a size decodes
/// to it.
pub proof fn lemma_resize_wire_form(payload: Seq<u8>, size: WindowSize)
    ensures
        resize_of(wire_form(size)) == Some(size),
        resize_of(payload) == Some(size) <==> payload == wire_form(size),
{
    if resize_of(payload) == Some(size) {
        assert(payload =~= wire_form(size));
    }
}

} // verus!
