//! Mailbox messages of the firmware's property interface: the requests the kernel sends
//! and what it reads from the answers.
use vstd::prelude::*;

verus! {

pub const MBOX_REQUEST: u32 = 0;
pub const MBOX_CH_PROP: u8 = 8;
pub const MBOX_TAG_GETFWVER: u32 = 0x00001;
pub const MBOX_TAG_GETBOARDMODEL: u32 = 0x10001;
pub const MBOX_TAG_GETBOARDREV: u32 = 0x10002;
pub const MBOX_TAG_GETSERIAL: u32 = 0x10004;
pub const MBOX_TAG_GETMEM: u32 = 0x10005;
pub const MBOX_TAG_SETPOWER: u32 = 0x28001;
pub const MBOX_TAG_SETCLKRATE: u32 = 0x38002;
pub const MBOX_TAG_LAST: u32 = 0;
pub const MBOX_RESPONSE: u32 = 0x80000000;

/// The word written to the mailbox for a message at `addr` on channel `ch`: the address
/// with the channel in its low four bits. Messages must be 16-byte aligned and below 4 GiB.
pub fn mbox_word(addr: u64, ch: u8) -> (r: Option<u32>)
    ensures
        (addr & 0xf != 0 || addr > 0xffff_ffff) ==> r is None,
        !(addr & 0xf != 0 || addr > 0xffff_ffff) ==> r == Some(((addr & !0xfu64) | (ch as u64 & 0xf)) as u32),
{
    if addr & 0xf != 0 || addr > 0xffff_ffff {
        return None;
    }
    Some(((addr & !0xf) | (ch as u64 & 0xf)) as u32)
}

/// Whether the answer to the message whose second word is `code` reports success.
pub fn call_succeeded(code: u32) -> (r: bool)
    ensures
        r == (code == MBOX_RESPONSE),
{
    code == MBOX_RESPONSE
}

/// The request for the serial number.
pub fn serial_request() -> (r: [u32; 8])
    ensures
        r@ == seq![32u32, MBOX_REQUEST, MBOX_TAG_GETSERIAL, 8, 8, 0, 0, MBOX_TAG_LAST],
{
    let r = [32u32, MBOX_REQUEST, MBOX_TAG_GETSERIAL, 8, 8, 0, 0, MBOX_TAG_LAST];
    assert(r@ =~= seq![32u32, MBOX_REQUEST, MBOX_TAG_GETSERIAL, 8, 8, 0, 0, MBOX_TAG_LAST]);
    r
}

/// The serial number in the answer `m` (low word first), when the call succeeded.
pub fn get_serial(ok: bool, m: &[u32; 8]) -> (r: Option<u64>)
    ensures
        r == (if ok { Some((m@[5] as int + m@[6] as int * 0x1_0000_0000) as u64) } else { None }),
{
    if ok {
        let a = m[5] as u64;
        let b = m[6] as u64;
        assert((a | (b << 32u64)) == a + b * 0x1_0000_0000) by (bit_vector)
            requires
                a < 0x1_0000_0000,
                b < 0x1_0000_0000,
        ;
        Some(a | (b << 32))
    } else {
        None
    }
}

/// The request of seven words that asks for the value of `tag`.
pub fn len7_request(tag: u32) -> (r: [u32; 7])
    ensures
        r@ == seq![28u32, MBOX_REQUEST, tag, 4, 4, 0, MBOX_TAG_LAST],
{
    let r = [28u32, MBOX_REQUEST, tag, 4, 4, 0, MBOX_TAG_LAST];
    assert(r@ =~= seq![28u32, MBOX_REQUEST, tag, 4, 4, 0, MBOX_TAG_LAST]);
    r
}

/// The value in the answer `m` to a seven-word request, when the call succeeded.
pub fn get_len7_u32(ok: bool, m: &[u32; 7]) -> (r: Option<u32>)
    ensures
        r == (if ok { Some(m@[5]) } else { None }),
{
    if ok {
        Some(m[5])
    } else {
        None
    }
}

/// The firmware version in the answer to `len7_request(MBOX_TAG_GETFWVER)`.
pub fn get_firmware_version(ok: bool, m: &[u32; 7]) -> (r: Option<u32>)
    ensures
        r == (if ok { Some(m@[5]) } else { None }),
{
    get_len7_u32(ok, m)
}

/// The board model in the answer to `len7_request(MBOX_TAG_GETBOARDMODEL)`.
pub fn get_board_model(ok: bool, m: &[u32; 7]) -> (r: Option<u32>)
    ensures
        r == (if ok { Some(m@[5]) } else { None }),
{
    get_len7_u32(ok, m)
}

/// The board revision in the answer to `len7_request(MBOX_TAG_GETBOARDREV)`.
pub fn get_board_rev(ok: bool, m: &[u32; 7]) -> (r: Option<u32>)
    ensures
        r == (if ok { Some(m@[5]) } else { None }),
{
    get_len7_u32(ok, m)
}

/// The request for the ARM memory.
pub fn memory_request() -> (r: [u32; 8])
    ensures
        r@ == seq![32u32, MBOX_REQUEST, MBOX_TAG_GETMEM, 8, 8, 0, 0, MBOX_TAG_LAST],
{
    let r = [32u32, MBOX_REQUEST, MBOX_TAG_GETMEM, 8, 8, 0, 0, MBOX_TAG_LAST];
    assert(r@ =~= seq![32u32, MBOX_REQUEST, MBOX_TAG_GETMEM, 8, 8, 0, 0, MBOX_TAG_LAST]);
    r
}

/// The base address and size of the ARM memory in the answer `m`, when the call succeeded.
pub fn get_memory(ok: bool, m: &[u32; 8]) -> (r: Option<(u32, u32)>)
    ensures
        r == (if ok { Some((m@[5], m@[6])) } else { None }),
{
    if ok {
        Some((m[5], m[6]))
    } else {
        None
    }
}

/// The request that sets the UART clock to `clock` Hz, turbo off.
pub fn set_uart_clock(clock: u32) -> (r: [u32; 9])
    ensures
        r@ == seq![36u32, MBOX_REQUEST, MBOX_TAG_SETCLKRATE, 12, 8, 2, clock, 0, MBOX_TAG_LAST],
{
    let r = [36u32, MBOX_REQUEST, MBOX_TAG_SETCLKRATE, 12, 8, 2, clock, 0, MBOX_TAG_LAST];
    assert(r@ =~= seq![36u32, MBOX_REQUEST, MBOX_TAG_SETCLKRATE, 12, 8, 2, clock, 0, MBOX_TAG_LAST]);
    r
}

/// The request that turns device `n` off without waiting.
pub fn set_power_off(n: u32) -> (r: [u32; 8])
    ensures
        r@ == seq![32u32, MBOX_REQUEST, MBOX_TAG_SETPOWER, 8, 8, n, 0, MBOX_TAG_LAST],
{
    let r = [32u32, MBOX_REQUEST, MBOX_TAG_SETPOWER, 8, 8, n, 0, MBOX_TAG_LAST];
    assert(r@ =~= seq![32u32, MBOX_REQUEST, MBOX_TAG_SETPOWER, 8, 8, n, 0, MBOX_TAG_LAST]);
    r
}

pub const MBOX_TAG_ALLOCFB: u32 = 0x40001;
pub const MBOX_TAG_GETPITCH: u32 = 0x40008;
pub const MBOX_TAG_SETPHY_WH: u32 = 0x48003;
pub const MBOX_TAG_SETVIRT_WH: u32 = 0x48004;
pub const MBOX_TAG_SETDEPTH: u32 = 0x48005;
pub const MBOX_TAG_SETPIXELORDER: u32 = 0x48006;
pub const MBOX_TAG_SETVIRT_OFFSET: u32 = 0x48009;

/// The request that sets the display's sizes and offset, 32 bits per pixel in RGB order,
/// and allocates a frame buffer aligned to 4096 bytes.
pub fn display_request(width_phy: u32, height_phy: u32, width_virt: u32, height_virt: u32, offset_x: u32, offset_y: u32) -> (r: [u32; 35])
    ensures
        r@ == seq![140u32, MBOX_REQUEST, MBOX_TAG_SETPHY_WH, 8, 8, width_phy, height_phy, MBOX_TAG_SETVIRT_WH, 8, 8, width_virt, height_virt, MBOX_TAG_SETVIRT_OFFSET, 8, 8, offset_x, offset_y, MBOX_TAG_SETDEPTH, 4, 4, 32, MBOX_TAG_SETPIXELORDER, 4, 4, 1, MBOX_TAG_ALLOCFB, 8, 8, 4096, 0, MBOX_TAG_GETPITCH, 4, 4, 0, MBOX_TAG_LAST],
{
    let r = [140u32, MBOX_REQUEST, MBOX_TAG_SETPHY_WH, 8, 8, width_phy, height_phy, MBOX_TAG_SETVIRT_WH, 8, 8, width_virt, height_virt, MBOX_TAG_SETVIRT_OFFSET, 8, 8, offset_x, offset_y, MBOX_TAG_SETDEPTH, 4, 4, 32, MBOX_TAG_SETPIXELORDER, 4, 4, 1, MBOX_TAG_ALLOCFB, 8, 8, 4096, 0, MBOX_TAG_GETPITCH, 4, 4, 0, MBOX_TAG_LAST];
    assert(r@ =~= seq![140u32, MBOX_REQUEST, MBOX_TAG_SETPHY_WH, 8, 8, width_phy, height_phy, MBOX_TAG_SETVIRT_WH, 8, 8, width_virt, height_virt, MBOX_TAG_SETVIRT_OFFSET, 8, 8, offset_x, offset_y, MBOX_TAG_SETDEPTH, 4, 4, 32, MBOX_TAG_SETPIXELORDER, 4, 4, 1, MBOX_TAG_ALLOCFB, 8, 8, 4096, 0, MBOX_TAG_GETPITCH, 4, 4, 0, MBOX_TAG_LAST]);
    r
}

/// The frame buffer that the firmware allocated: the sizes, offset, depth and pitch it
/// reports, its bus address mapped to the ARM's view, and its length in bytes.
#[derive(Debug, Clone, Copy)]
pub struct FrameBufferInfo {
    pub size_phy: (u32, u32),
    pub size_virt: (u32, u32),
    pub offset: (u32, u32),
    pub depth: u32,
    pub pitch: u32,
    pub ptr: u32,
    pub len: u64,
}

/// The frame buffer in the answer `m` to `display_request`: there is one when the call
/// succeeded, the depth is 32 and the firmware gave an address.
pub fn set_display(ok: bool, m: &[u32; 35]) -> (r: Option<FrameBufferInfo>)
    ensures
        !(ok && m@[20] == 32 && m@[28] != 0) ==> r is None,
        (ok && m@[20] == 32 && m@[28] != 0) ==> r == Some(FrameBufferInfo {
            size_phy: (m@[5], m@[6]),
            size_virt: (m@[10], m@[11]),
            offset: (m@[15], m@[16]),
            depth: m@[20],
            pitch: m@[33],
            ptr: m@[28] & 0x3fff_ffff,
            len: (m@[33] as int * m@[11] as int) as u64,
        }),
{
    if ok && m[20] == 32 && m[28] != 0 {
        let ptr = m[28] & 0x3FFFFFFF;
        proof {
            vstd::arithmetic::mul::lemma_mul_upper_bound(m@[33] as int, u32::MAX as int, m@[11] as int, u32::MAX as int);
        }
        let len = m[33] as u64 * m[11] as u64;
        Some(FrameBufferInfo {
            size_phy: (m[5], m[6]),
            size_virt: (m[10], m[11]),
            offset: (m[15], m[16]),
            depth: m[20],
            pitch: m[33],
            ptr: ptr,
            len: len,
        })
    } else {
        None
    }
}

} // verus!
