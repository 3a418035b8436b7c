//! An RGBA pixel buffer of known width and height.
use vstd::prelude::*;

verus! {

/// The number of bytes of one RGBA pixel.
pub const CHANNELS: usize = 4;

/// The byte length of a `width` x `height` RGBA image.
pub open spec fn rgba_len(width: int, height: int) -> int {
    width * height * 4
}

/// A width, a height and the RGBA bytes of that many pixels, row by row.
pub struct Frame {
    pub width: u32,
    pub height: u32,
    pub buffer: Vec<u8>,
}

impl Frame {
    /// The buffer holds exactly four bytes per pixel.
    pub open spec fn wf(&self) -> bool {
        self.buffer@.len() == rgba_len(self.width as int, self.height as int)
    }

    /// A zeroed (transparent black) frame of the given size.
    pub fn new(width: u32, height: u32) -> (r: Frame)
        requires
            rgba_len(width as int, height as int) <= usize::MAX,
        ensures
            r.wf(),
            r.width == width,
            r.height == height,
            r.buffer@ == Seq::new(rgba_len(width as int, height as int) as nat, |_k: int| 0u8),
    {
        let mut r = Frame { width: 0, height: 0, buffer: Vec::new() };
        r.set_size(width, height);
        proof {
            assert(r.buffer@ =~= Seq::new(rgba_len(width as int, height as int) as nat, |_k: int| 0u8));
        }
        r
    }

    /// The frame's `(width, height)`.
    pub fn size(&self) -> (r: (u32, u32))
        ensures
            r == (self.width, self.height),
    {
        (self.width, self.height)
    }

    /// Gives the frame a new size: bytes that still fit are kept, new bytes are zero.
    pub fn set_size(&mut self, width: u32, height: u32)
        requires
            rgba_len(width as int, height as int) <= usize::MAX,
        ensures
            final(self).wf(),
            final(self).width == width,
            final(self).height == height,
            final(self).buffer@ == resized(old(self).buffer@, rgba_len(width as int, height as int)),
    {
        proof {
            vstd::arithmetic::mul::lemma_mul_nonnegative(width as int, height as int);
        }
        let len = (width as usize) * (height as usize) * CHANNELS;
        self.buffer.resize(len, 0u8);
        self.width = width;
        self.height = height;
        proof {
            assert(self.buffer@ =~= resized(old(self).buffer@, len as int));
        }
    }

    /// The frame's bytes, for writing in place.
    pub fn get_mut(&mut self) -> (r: &mut Vec<u8>)
        ensures
            *r == old(self).buffer,
            *final(self) == (Frame { buffer: *final(r), ..*old(self) }),
    {
        &mut self.buffer
    }
}

/// `s` cut or zero-padded to length `len`.
pub open spec fn resized(s: Seq<u8>, len: int) -> Seq<u8> {
    Seq::new(len as nat, |k: int| if k < s.len() { s[k] } else { 0u8 })
}

} // verus!
