//! The overlay buffer: a fixed 220x36 RGBA image whose background is a
//! semi-transparent black on which the platform layer draws the status text.

use vstd::prelude::*;

verus! {

pub const OVERLAY_WIDTH: usize = 220;
pub const OVERLAY_HEIGHT: usize = 36;
/// Background alpha: 0.6 * 255.
pub const BACKGROUND_ALPHA: u8 = 153;

/// The cleared overlay: every pixel RGBA (0, 0, 0, 153).
pub open spec fn background_pixels(len: nat) -> Seq<u8> {
    Seq::new(len, |i: int| if i % 4 == 3 { BACKGROUND_ALPHA } else { 0u8 })
}

pub struct OverlayRenderer {
    width: usize,
    height: usize,
    buffer: Vec<u8>,
}

impl OverlayRenderer {
    pub closed spec fn spec_width(&self) -> usize {
        self.width
    }

    pub closed spec fn spec_height(&self) -> usize {
        self.height
    }

    pub closed spec fn spec_buffer(&self) -> Seq<u8> {
        self.buffer@
    }

    /// Creates the renderer with a zeroed 220x36 RGBA buffer.
    pub fn new() -> (r: Self)
        ensures
            r.spec_width() == OVERLAY_WIDTH,
            r.spec_height() == OVERLAY_HEIGHT,
            r.spec_buffer() == Seq::new((OVERLAY_WIDTH * OVERLAY_HEIGHT * 4) as nat, |i: int| 0u8),
    {
        let r = Self { width: 220, height: 36, buffer: vec![0u8; 220 * 36 * 4] };
        assert(r.buffer@ =~= Seq::new((OVERLAY_WIDTH * OVERLAY_HEIGHT * 4) as nat, |i: int| 0u8));
        r
    }

    /// Fills the buffer with the semi-transparent black background.
    pub fn clear_background(&mut self)
        ensures
            final(self).spec_buffer() == background_pixels(old(self).spec_buffer().len()),
            final(self).spec_width() == old(self).spec_width(),
            final(self).spec_height() == old(self).spec_height(),
    {
        let n = self.buffer.len();
        let ghost w = self.width;
        let ghost h = self.height;
        let mut i: usize = 0;
        while i < n
            invariant
                i <= n,
                n == self.buffer@.len(),
                self.width == w,
                self.height == h,
                forall|j: int| 0 <= j < i ==> #[trigger] self.buffer@[j] == background_pixels(n as nat)[j],
            decreases n - i,
        {
            if i % 4 == 3 {
                self.buffer.set(i, BACKGROUND_ALPHA);
            } else {
                self.buffer.set(i, 0);
            }
            i = i + 1;
        }
        assert(self.buffer@ =~= background_pixels(n as nat));
    }

    /// Width of the overlay in pixels.
    pub fn width(&self) -> (w: usize)
        ensures
            w == self.spec_width(),
    {
        self.width
    }

    /// Height of the overlay in pixels.
    pub fn height(&self) -> (h: usize)
        ensures
            h == self.spec_height(),
    {
        self.height
    }

    /// The RGBA pixels.
    pub fn buffer(&self) -> (b: &[u8])
        ensures
            b@ == self.spec_buffer(),
    {
        self.buffer.as_slice()
    }

    /// The RGBA pixels, for the platform layer to draw text into.
    pub fn buffer_mut(&mut self) -> (b: &mut Vec<u8>)
        ensures
            b@ == old(self).spec_buffer(),
            final(self).spec_width() == old(self).spec_width(),
            final(self).spec_height() == old(self).spec_height(),
            final(self).spec_buffer() == final(b)@,
    {
        &mut self.buffer
    }
}

} // verus!
