//! A sprite sheet: one decoded RGBA image cut into a grid of equal frames.
use crate::anim::AnimHandle;
use crate::frame::{rgba_len, Frame};
use vstd::prelude::*;

verus! {

/// Why a sprite sheet could not be made.
#[derive(Debug, Clone, Copy, PartialEq, Eq, Structural)]
pub enum LoadError {
    /// The bytes are not an image in a format that can be read.
    Decode,
    /// The pixel bytes do not hold four bytes for each pixel of the sheet.
    PixelCount,
    /// A frame size, frame count or rate is zero, or the frames do not fit in the sheet.
    Geometry,
}

/// How a sheet is cut: frame size, number of frames and playback rate.
#[derive(Debug, Clone, Copy, PartialEq, Eq, Structural)]
pub struct FrameGeometry {
    pub width: u32,
    pub height: u32,
    pub frames: u32,
    pub fps: u32,
}

#[verifier::external_type_specification]
#[verifier::external_body]
pub struct ExImageError(image::ImageError);

/// The width, height and RGBA bytes that decoding `bytes` gives, if they decode.
pub uninterp spec fn decoded_rgba(bytes: Seq<u8>) -> Option<(u32, u32, Seq<u8>)>;

/// Relies on `image::load_from_memory` (format guessed from the leading bytes) and
/// `DynamicImage::into_rgba8`: whether decoding succeeds, and what it yields,
/// depends on the bytes alone.
#[verifier::external_body]
fn decode_rgba(bytes: &[u8]) -> (r: Result<(u32, u32, Vec<u8>), image::ImageError>)
    ensures
        r is Ok <==> decoded_rgba(bytes@) is Some,
        r matches Ok(t) ==> decoded_rgba(bytes@) == Some((t.0, t.1, t.2@)),
{
    let img = image::load_from_memory(bytes)?.into_rgba8();
    Ok((img.width(), img.height(), img.into_raw()))
}

/// What a sheet holds, as plain values.
pub struct SheetView {
    pub sheet_width: nat,
    pub sheet_height: nat,
    pub pixels: Seq<u8>,
    pub width: nat,
    pub height: nat,
    pub frames: nat,
    pub fps: nat,
}

/// The frames that fit side by side in one row of the sheet.
pub open spec fn columns(v: SheetView) -> nat {
    v.sheet_width / v.width
}

/// Frames of `width` x `height` laid out row by row fit `frames` times in the sheet.
pub open spec fn grid_fits(sheet_width: nat, sheet_height: nat, width: nat, height: nat, frames: nat) -> bool {
    &&& width >= 1
    &&& height >= 1
    &&& frames >= 1
    &&& width <= sheet_width
    &&& (((frames - 1) as nat / (sheet_width / width)) + 1) * height <= sheet_height
}

/// A sheet whose bytes match its size and whose frames all lie inside it.
pub open spec fn sheet_ok(v: SheetView) -> bool {
    &&& v.pixels.len() == rgba_len(v.sheet_width as int, v.sheet_height as int)
    &&& v.pixels.len() <= usize::MAX
    &&& v.sheet_width <= u32::MAX
    &&& v.sheet_height <= u32::MAX
    &&& v.width <= u32::MAX
    &&& v.height <= u32::MAX
    &&& v.frames <= u32::MAX
    &&& 1 <= v.fps <= u32::MAX
    &&& grid_fits(v.sheet_width, v.sheet_height, v.width, v.height, v.frames)
}

/// The byte offset in the sheet of pixel `(x, y)` of frame `frame`.
pub open spec fn pixel_offset(v: SheetView, x: nat, y: nat, frame: nat) -> int {
    let sx = (frame % columns(v)) * v.width + x;
    let sy = (frame / columns(v)) * v.height + y;
    ((sy * v.sheet_width + sx) * 4) as int
}

/// The four channels of pixel `(x, y)` of frame `frame`.
pub open spec fn pixel_of(v: SheetView, x: nat, y: nat, frame: nat) -> Seq<u8> {
    let o = pixel_offset(v, x, y, frame);
    v.pixels.subrange(o, o + 4)
}

/// The error that `from_rgba` reports for these inputs, if any.
pub open spec fn rgba_error(
    sheet_width: u32,
    sheet_height: u32,
    pixel_len: nat,
    geometry: Option<FrameGeometry>,
) -> Option<LoadError> {
    if pixel_len != rgba_len(sheet_width as int, sheet_height as int) {
        Some(LoadError::PixelCount)
    } else {
        match geometry {
            None => if sheet_width == 0 || sheet_height == 0 {
                Some(LoadError::Geometry)
            } else {
                None
            },
            Some(g) => if g.fps == 0 || !grid_fits(
                sheet_width as nat,
                sheet_height as nat,
                g.width as nat,
                g.height as nat,
                g.frames as nat,
            ) {
                Some(LoadError::Geometry)
            } else {
                None
            },
        }
    }
}

/// The sheet that `from_rgba` builds: without a geometry the whole image is one
/// still frame.
pub open spec fn sheet_from(
    sheet_width: u32,
    sheet_height: u32,
    pixels: Seq<u8>,
    geometry: Option<FrameGeometry>,
) -> SheetView {
    let (w, h, n, f) = match geometry {
        None => (sheet_width as nat, sheet_height as nat, 1nat, 1nat),
        Some(g) => (g.width as nat, g.height as nat, g.frames as nat, g.fps as nat),
    };
    SheetView {
        sheet_width: sheet_width as nat,
        sheet_height: sheet_height as nat,
        pixels,
        width: w,
        height: h,
        frames: n,
        fps: f,
    }
}

/// The error that `load` reports for these bytes, if any.
pub open spec fn load_error(bytes: Seq<u8>, geometry: Option<FrameGeometry>) -> Option<LoadError> {
    match decoded_rgba(bytes) {
        None => Some(LoadError::Decode),
        Some(d) => rgba_error(d.0, d.1, d.2.len(), geometry),
    }
}

/// The sheet that `load` builds from these bytes when it succeeds.
pub open spec fn loaded_sheet(bytes: Seq<u8>, geometry: Option<FrameGeometry>) -> SheetView {
    let d = decoded_rgba(bytes)->Some_0;
    sheet_from(d.0, d.1, d.2, geometry)
}

/// A decoded sheet and how it is cut into frames.
pub struct AnimSpritesheet {
    sheet_width: u32,
    sheet_height: u32,
    pixels: Vec<u8>,
    width: u32,
    height: u32,
    frames: u32,
    fps: u32,
}

impl View for AnimSpritesheet {
    type V = SheetView;

    closed spec fn view(&self) -> SheetView {
        SheetView {
            sheet_width: self.sheet_width as nat,
            sheet_height: self.sheet_height as nat,
            pixels: self.pixels@,
            width: self.width as nat,
            height: self.height as nat,
            frames: self.frames as nat,
            fps: self.fps as nat,
        }
    }
}


/// The sheet column that shows output column `x` of a frame, mirrored or not.
pub open spec fn source_x(v: SheetView, x: nat, flipped: bool) -> nat {
    if flipped {
        (v.width - 1 - x) as nat
    } else {
        x
    }
}

/// The RGBA bytes of frame `frame`, row by row, mirrored left to right if `flipped`.
pub open spec fn drawn_bytes(v: SheetView, frame: nat, flipped: bool) -> Seq<u8> {
    Seq::new(
        rgba_len(v.width as int, v.height as int) as nat,
        |k: int| pixel_of(v, source_x(v, ((k / 4) % v.width as int) as nat, flipped), ((k / 4) / v.width as int) as nat, frame)[k % 4],
    )
}

/// Every pixel of every frame lies inside the sheet's bytes.
proof fn lemma_pixel_in_sheet(v: SheetView, x: nat, y: nat, frame: nat)
    requires
        sheet_ok(v),
        x < v.width,
        y < v.height,
        frame < v.frames,
    ensures
        columns(v) >= 1,
        (frame % columns(v)) * v.width + x < v.sheet_width,
        (frame / columns(v)) * v.height + y < v.sheet_height,
        0 <= pixel_offset(v, x, y, frame),
        pixel_offset(v, x, y, frame) + 4 <= v.pixels.len(),
{
    let w = v.width as int;
    let h = v.height as int;
    let sw = v.sheet_width as int;
    let sh = v.sheet_height as int;
    let cols = columns(v) as int;
    let f = frame as int;
    vstd::arithmetic::div_mod::lemma_fundamental_div_mod(sw, w);
    vstd::arithmetic::div_mod::lemma_mod_bound(sw, w);
    assert(cols >= 1) by {
        vstd::arithmetic::div_mod::lemma_div_is_ordered(w, sw, w);
        vstd::arithmetic::div_mod::lemma_div_by_self(w);
    }
    assert(cols * w <= sw) by (nonlinear_arith)
        requires sw == w * cols + sw % w, sw % w >= 0;
    let fx = f % cols;
    let fy = f / cols;
    vstd::arithmetic::div_mod::lemma_mod_bound(f, cols);
    vstd::arithmetic::div_mod::lemma_div_pos_is_pos(f, cols);
    assert(fx * w + x < sw) by (nonlinear_arith)
        requires 0 <= fx < cols, cols * w <= sw, 0 <= x < w;
    let last = (v.frames - 1) as int;
    assert(fy <= last / cols) by {
        vstd::arithmetic::div_mod::lemma_div_is_ordered(f, last, cols);
    }
    assert(fy * h + y < sh) by (nonlinear_arith)
        requires 0 <= fy <= last / cols, (last / cols + 1) * h <= sh, 0 <= y < h;
    let sx = fx * w + x;
    let sy = fy * h + y;
    assert(sx >= 0) by (nonlinear_arith) requires sx == fx * w + x, fx >= 0, w >= 0, x >= 0;
    assert(sy >= 0) by (nonlinear_arith) requires sy == fy * h + y, fy >= 0, h >= 0, y >= 0;
    assert((sy * sw + sx) * 4 + 4 <= sw * sh * 4 && 0 <= (sy * sw + sx) * 4) by (nonlinear_arith)
        requires 0 <= sx < sw, 0 <= sy < sh;
}

impl AnimSpritesheet {
    /// The sheet is usable: its bytes match its size and every frame lies inside it.
    pub open spec fn wf(&self) -> bool {
        sheet_ok(self@)
    }

    /// Makes a sheet of decoded RGBA pixels. Without a geometry the whole image is
    /// one still frame (played at one frame per second).
    pub fn from_rgba(
        sheet_width: u32,
        sheet_height: u32,
        pixels: Vec<u8>,
        geometry: Option<FrameGeometry>,
    ) -> (r: Result<AnimSpritesheet, LoadError>)
        ensures
            r is Err <==> rgba_error(sheet_width, sheet_height, pixels@.len(), geometry) is Some,
            r matches Err(e) ==> rgba_error(sheet_width, sheet_height, pixels@.len(), geometry) == Some(e),
            r matches Ok(s) ==> s.wf() && s@ == sheet_from(sheet_width, sheet_height, pixels@, geometry),
    {
        proof {
            assert((sheet_width as int) * (sheet_height as int) <= u64::MAX) by (nonlinear_arith)
                requires sheet_width <= u32::MAX, sheet_height <= u32::MAX, sheet_width >= 0, sheet_height >= 0;
        }
        let need: u64 = (sheet_width as u64) * (sheet_height as u64);
        let len = pixels.len();
        if need > (usize::MAX / 4) as u64 {
            proof {
                assert(rgba_len(sheet_width as int, sheet_height as int) == need * 4);
            }
            return Err(LoadError::PixelCount);
        }
        if len != (need as usize) * 4 {
            return Err(LoadError::PixelCount);
        }
        let (width, height, frames, fps) = match geometry {
            None => {
                if sheet_width == 0 || sheet_height == 0 {
                    return Err(LoadError::Geometry);
                }
                (sheet_width, sheet_height, 1u32, 1u32)
            },
            Some(g) => {
                if g.fps == 0 || g.width == 0 || g.height == 0 || g.frames == 0 || g.width > sheet_width {
                    return Err(LoadError::Geometry);
                }
                let cols = sheet_width / g.width;
                proof {
                    vstd::arithmetic::div_mod::lemma_div_is_ordered(g.width as int, sheet_width as int, g.width as int);
                    vstd::arithmetic::div_mod::lemma_div_by_self(g.width as int);
                }
                let rows = ((g.frames - 1) / cols) as u64 + 1;
                proof {
                    assert((rows as int) * (g.height as int) <= u64::MAX) by (nonlinear_arith)
                        requires rows <= u32::MAX + 1, g.height <= u32::MAX, g.height >= 0, rows >= 0;
                }
                if rows * (g.height as u64) > sheet_height as u64 {
                    return Err(LoadError::Geometry);
                }
                proof {
                    assert(grid_fits(sheet_width as nat, sheet_height as nat, g.width as nat, g.height as nat, g.frames as nat));
                }
                (g.width, g.height, g.frames, g.fps)
            },
        };
        let r = AnimSpritesheet { sheet_width, sheet_height, pixels, width, height, frames, fps };
        proof {
            assert(r@ == sheet_from(sheet_width, sheet_height, pixels@, geometry));
            if geometry is None {
                let sw = sheet_width as nat;
                vstd::arithmetic::div_mod::lemma_div_by_self(sw as int);
                assert(sw / sw == 1);
                assert((1 - 1) as nat / (sw / sw) == 0);
                let q = (1 - 1) as nat / (sw / sw);
                let sh = sheet_height as nat;
                assert((q + 1) * sh == sh) by (nonlinear_arith) requires q == 0;
                assert(grid_fits(sw, sheet_height as nat, sw, sheet_height as nat, 1));
            }
        }
        Ok(r)
    }

    /// Decodes an encoded image (PNG or another readable format) and cuts it
    /// as `from_rgba` does.
    pub fn load(bytes: &[u8], geometry: Option<FrameGeometry>) -> (r: Result<AnimSpritesheet, LoadError>)
        ensures
            r is Err <==> load_error(bytes@, geometry) is Some,
            r matches Err(e) ==> load_error(bytes@, geometry) == Some(e),
            r matches Ok(s) ==> s.wf() && s@ == loaded_sheet(bytes@, geometry),
    {
        match decode_rgba(bytes) {
            Ok((w, h, pixels)) => AnimSpritesheet::from_rgba(w, h, pixels, geometry),
            Err(_) => Err(LoadError::Decode),
        }
    }

    /// Decodes `image` and cuts it as the registration `handle` says.
    pub fn from_handle(image: &[u8], handle: &AnimHandle) -> (r: Result<AnimSpritesheet, LoadError>)
        requires
            handle.is_complete(),
        ensures
            r is Err <==> load_error(image@, handle.geometry_spec()) is Some,
            r matches Err(e) ==> load_error(image@, handle.geometry_spec()) == Some(e),
            r matches Ok(s) ==> s.wf() && s@ == loaded_sheet(image@, handle.geometry_spec()),
    {
        AnimSpritesheet::load(image, handle.geometry())
    }

    /// The width of one frame.
    pub fn width(&self) -> (r: u32)
        ensures
            r == self@.width,
    {
        self.width
    }

    /// The height of one frame.
    pub fn height(&self) -> (r: u32)
        ensures
            r == self@.height,
    {
        self.height
    }

    /// The number of frames.
    pub fn frames(&self) -> (r: u32)
        ensures
            r == self@.frames,
    {
        self.frames
    }

    /// The playback rate in frames per second.
    pub fn fps(&self) -> (r: u32)
        ensures
            r == self@.fps,
    {
        self.fps
    }

    /// The four channels of pixel `(x, y)` of frame `frame`.
    pub fn get_pixel(&self, x: u32, y: u32, frame: u32) -> (r: [u8; 4])
        requires
            self.wf(),
            frame < self@.frames,
            x < self@.width,
            y < self@.height,
        ensures
            r@ == pixel_of(self@, x as nat, y as nat, frame as nat),
    {
        proof {
            lemma_pixel_in_sheet(self@, x as nat, y as nat, frame as nat);
        }
        let cols = self.sheet_width / self.width;
        let sx = (frame % cols) * self.width + x;
        let sy = (frame / cols) * self.height + y;
        proof {
            let sw = self.sheet_width as int;
            let sh = self.sheet_height as int;
            assert((sy as int) * sw + (sx as int) < sw * sh) by (nonlinear_arith)
                requires 0 <= sx < sw, 0 <= sy < sh;
            assert((sy as int) * sw >= 0) by (nonlinear_arith) requires sy >= 0, sw >= 0;
        }
        let o = ((sy as usize) * (self.sheet_width as usize) + (sx as usize)) * 4;
        let r = [self.pixels[o], self.pixels[o + 1], self.pixels[o + 2], self.pixels[o + 3]];
        proof {
            assert(r@ =~= pixel_of(self@, x as nat, y as nat, frame as nat));
        }
        r
    }

    /// Writes frame `frame` into `buffer`, which already has the frame's size:
    /// every pixel's four channels, mirrored left to right if `flipped`.
    pub fn draw(&self, frame: u32, flipped: bool, buffer: &mut Frame)
        requires
            self.wf(),
            frame < self@.frames,
            old(buffer).wf(),
            old(buffer).width == self@.width,
            old(buffer).height == self@.height,
        ensures
            final(buffer).width == old(buffer).width,
            final(buffer).height == old(buffer).height,
            final(buffer).buffer@ == drawn_bytes(self@, frame as nat, flipped),
    {
        let w = self.width;
        let h = self.height;
        let total = buffer.buffer.len();
        proof {
            assert((w as int) * (h as int) * 4 == total);
        }
        let n = total / 4;
        let ghost v = self@;
        let ghost target = drawn_bytes(v, frame as nat, flipped);
        let mut i: usize = 0;
        while i < n
            invariant
                v == self@,
                self.wf(),
                frame < v.frames,
                w == v.width,
                h == v.height,
                n == (w as int) * (h as int),
                n * 4 <= usize::MAX,
                buffer.width == w,
                buffer.height == h,
                buffer.buffer@.len() == n * 4,
                target == drawn_bytes(v, frame as nat, flipped),
                target.len() == n * 4,
                0 <= i <= n,
                forall|k: int| 0 <= k < i * 4 ==> buffer.buffer@[k] == target[k],
            decreases n - i,
        {
            proof {
                vstd::arithmetic::div_mod::lemma_fundamental_div_mod(i as int, w as int);
                vstd::arithmetic::div_mod::lemma_mod_bound(i as int, w as int);
                vstd::arithmetic::div_mod::lemma_div_pos_is_pos(i as int, w as int);
                let q = i as int / w as int;
                assert(q < h) by (nonlinear_arith)
                    requires
                        i as int == w as int * q + i as int % w as int,
                        i as int % w as int >= 0,
                        (i as int) < (w as int) * (h as int),
                        w > 0;
            }
            let x = (i % (w as usize)) as u32;
            let y = (i / (w as usize)) as u32;
            let sx = if flipped { w - 1 - x } else { x };
            let p = self.get_pixel(sx, y, frame);
            let base = i * 4;
            let ghost before = buffer.buffer@;
            buffer.buffer.set(base, p[0]);
            buffer.buffer.set(base + 1, p[1]);
            buffer.buffer.set(base + 2, p[2]);
            buffer.buffer.set(base + 3, p[3]);
            proof {
                assert forall|k: int| 0 <= k < (i + 1) * 4 implies buffer.buffer@[k] == target[k] by {
                    if k >= i * 4 {
                        let c = k - i * 4;
                        assert(k / 4 == i);
                        assert(k % 4 == c);
                        assert(x as int == ((k / 4) % v.width as int));
                        assert(y as int == ((k / 4) / v.width as int));
                        assert(sx as nat == source_x(v, x as nat, flipped));
                        assert(target[k] == pixel_of(v, sx as nat, y as nat, frame as nat)[c]);
                        assert(buffer.buffer@[k] == p@[c]);
                    } else {
                        assert(buffer.buffer@[k] == before[k]);
                    }
                }
            }
            i = i + 1;
        }
        proof {
            assert(buffer.buffer@ =~= target);
        }
    }
}

} // verus!
