//! What goes out of the serial port for a string.
use vstd::prelude::*;
use vstd::string::StrSliceExecFns;

verus! {

/// The codes sent for `s`: each character, with a carriage return after each line feed.
pub open spec fn uart_codes(s: Seq<char>) -> Seq<u32>
    decreases s.len(),
{
    if s.len() == 0 {
        Seq::empty()
    } else {
        let c = s.last();
        uart_codes(s.drop_last()) + if c == '\n' { seq![c as u32, '\r' as u32] } else { seq![c as u32] }
    }
}

/// The codes to send for `s`.
pub fn puts(s: &str) -> (r: Vec<u32>)
    ensures
        r@ == uart_codes(s@),
{
    let n = s.unicode_len();
    let mut out: Vec<u32> = Vec::new();
    let mut i: usize = 0;
    while i < n
        invariant
            0 <= i <= n,
            n == s@.len(),
            out@ == uart_codes(s@.subrange(0, i as int)),
        decreases n - i,
    {
        let c = s.get_char(i);
        out.push(c as u32);
        if c == '\n' {
            out.push('\r' as u32);
        }
        proof {
            let t = s@.subrange(0, i + 1);
            assert(t.drop_last() =~= s@.subrange(0, i as int));
            assert(t.last() == c);
        }
        i += 1;
    }
    assert(s@.subrange(0, n as int) =~= s@);
    out
}

/// The nibble of `h` that is printed `k`-th, the most significant first.
pub open spec fn hex_nibble(h: u64, k: int) -> u64 {
    (h >> ((60 - 4 * k) as u64)) & 0xf
}

/// The code of the hexadecimal digit `n` (below 16): `0`-`9`, then `A`-`F`.
pub open spec fn hex_digit(n: u64) -> u32 {
    if n > 9 { (n + 0x37) as u32 } else { (n + 0x30) as u32 }
}

/// The codes sent for `h` in hexadecimal: its 16 digits, the most significant first.
pub open spec fn hex_codes(h: u64) -> Seq<u32> {
    Seq::new(16, |k: int| hex_digit(hex_nibble(h, k)))
}

/// The codes to send for `h` in hexadecimal.
pub fn hex(h: u64) -> (r: Vec<u32>)
    ensures
        r@ == hex_codes(h),
{
    let mut out: Vec<u32> = Vec::new();
    let mut k: u64 = 0;
    while k < 16
        invariant
            k <= 16,
            out@ == hex_codes(h).take(k as int),
        decreases 16 - k,
    {
        let sh: u64 = 60 - 4 * k;
        let n = (h >> sh) & 0xf;
        assert(n <= 15) by (bit_vector)
            requires
                n == (h >> sh) & 0xf,
        ;
        let c: u32 = if n > 9 { (n + 0x37) as u32 } else { (n + 0x30) as u32 };
        proof {
            assert(n == hex_nibble(h, k as int));
        }
        out.push(c);
        assert(out@ =~= hex_codes(h).take(k as int + 1));
        k += 1;
    }
    assert(out@ =~= hex_codes(h));
    out
}

} // verus!
