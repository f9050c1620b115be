//! The frame buffer.
use vstd::prelude::*;

verus! {

/// A frame buffer: its sizes and offset, bits per pixel, bytes per line, base address,
/// and its bytes.
pub struct Display {
    pub size_phy: (u32, u32),
    pub size_virt: (u32, u32),
    pub offset: (u32, u32),
    pub depth: u32,
    pub pitch: u32,
    pub ptr: u32,
    pub buffer: Vec<u8>,
}

/// The position of the first byte of pixel (`x`, `y`).
pub open spec fn pixel_pos(d: &Display, x: u32, y: u32) -> int {
    y as int * d.pitch as int + x as int * (d.depth / 8) as int
}

impl Display {
    /// Writes the colour of pixel (`x`, `y`): red, green and blue in its first three bytes.
    pub fn set_pixel(&mut self, x: u32, y: u32, r: u8, g: u8, b: u8)
        requires
            y as int * old(self).pitch as int + x as int * (old(self).depth / 8) as int <= u32::MAX,
            pixel_pos(&*old(self), x, y) + 2 < old(self).buffer@.len(),
        ensures
            final(self).buffer@ == old(self).buffer@.update(pixel_pos(&*old(self), x, y), r).update(
                pixel_pos(&*old(self), x, y) + 1, g).update(pixel_pos(&*old(self), x, y) + 2, b),
            final(self).size_phy == old(self).size_phy,
            final(self).size_virt == old(self).size_virt,
            final(self).offset == old(self).offset,
            final(self).depth == old(self).depth,
            final(self).pitch == old(self).pitch,
            final(self).ptr == old(self).ptr,
    {
        let depth = self.depth;
        let bpp = depth >> 3;
        assert(depth >> 3 == depth / 8) by (bit_vector);
        proof {
            vstd::arithmetic::mul::lemma_mul_nonnegative(y as int, self.pitch as int);
            vstd::arithmetic::mul::lemma_mul_nonnegative(x as int, bpp as int);
        }
        let pos = (y * self.pitch + x * bpp) as usize;
        assert(pos as int == pixel_pos(&*old(self), x, y));
        let len = self.buffer.len();
        assert(pos + 2 < len);
        self.buffer.set(pos, r);
        self.buffer.set(pos + 1, g);
        self.buffer.set(pos + 2, b);
    }
}

} // verus!
