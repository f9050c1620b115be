//! The mailbox message that asks for the board's serial number.
use vstd::prelude::*;

verus! {

pub const MBOX_REQUEST: u32 = 0;
pub const MBOX_TAG_GETSERIAL: u32 = 0x10004;
pub const MBOX_TAG_LAST: u32 = 0;

/// The request for the serial number.
pub fn serial_request() -> (r: [u32; 8])
    ensures
        r@ == seq![32u32, MBOX_REQUEST, MBOX_TAG_GETSERIAL, 8, 8, 0, 0, MBOX_TAG_LAST],
{
    let r = [32u32, MBOX_REQUEST, MBOX_TAG_GETSERIAL, 8, 8, 0, 0, MBOX_TAG_LAST];
    assert(r@ =~= seq![32u32, MBOX_REQUEST, MBOX_TAG_GETSERIAL, 8, 8, 0, 0, MBOX_TAG_LAST]);
    r
}

/// The serial number in the answer `m`, low word first, when the call succeeded.
pub fn get_serial(ok: bool, m: &[u32; 8]) -> (r: Option<(u32, u32)>)
    ensures
        r == (if ok { Some((m@[5], m@[6])) } else { None }),
{
    if ok {
        Some((m[5], m[6]))
    } else {
        None
    }
}

} // verus!
