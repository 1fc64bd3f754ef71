use vstd::prelude::*;

verus! {

/// The mathematical value of a frame: its dimensions and its samples, four
/// bytes (red, green, blue, alpha) per pixel, row-major, top row first.
pub struct FrameModel {
    pub width: u32,
    pub height: u32,
    pub pixels: Seq<u8>,
}

impl FrameModel {
    /// The sample buffer holds exactly one RGBA group per pixel.
    pub open spec fn wf(self) -> bool {
        self.pixels.len() == self.width as int * self.height as int * 4
    }

    /// Channel `c` of the pixel in column `x` of row `y`.
    pub open spec fn sample(self, x: int, y: int, c: int) -> u8 {
        self.pixels[(y * self.width + x) * 4 + c]
    }
}

/// The frame that `data` gives for a `width` by `height` raster. Complete
/// groups of four bytes fill the pixels in row-major order; a trailing partial
/// group and groups beyond the raster are dropped; pixels that no group
/// reaches stay transparent black.
pub open spec fn frame_of(data: Seq<u8>, width: u32, height: u32) -> FrameModel {
    FrameModel {
        width,
        height,
        pixels: Seq::new(
            (width as int * height as int * 4) as nat,
            |k: int|
                if k < data.len() / 4 * 4 {
                    data[k]
                } else {
                    0u8
                },
        ),
    }
}

/// A decoded RGBA raster.
pub struct Frame {
    pub width: u32,
    pub height: u32,
    pub pixels: Vec<u8>,
}

impl View for Frame {
    type V = FrameModel;

    open spec fn view(&self) -> FrameModel {
        FrameModel { width: self.width, height: self.height, pixels: self.pixels@ }
    }
}

impl Frame {
    /// Builds a `width` by `height` frame from raw RGBA bytes, tolerating a
    /// buffer that is too short, too long, or not a whole number of pixels.
    pub fn from_rgba(data: &[u8], width: u32, height: u32) -> (r: Frame)
        requires
            width as int * height as int * 4 <= usize::MAX,
        ensures
            r@ == frame_of(data@, width, height),
            r@.wf(),
    {
        let n: usize = width as usize * height as usize * 4;
        let full: usize = data.len() / 4 * 4;
        let mut pixels: Vec<u8> = Vec::with_capacity(n);
        let mut k: usize = 0;
        while k < n
            invariant
                k <= n,
                n == width as int * height as int * 4,
                full == data@.len() / 4 * 4,
                full <= data@.len(),
                pixels@.len() == k,
                forall|j: int| 0 <= j < k ==> pixels@[j] == frame_of(data@, width, height).pixels[j],
            decreases n - k,
        {
            if k < full {
                pixels.push(data[k]);
            } else {
                pixels.push(0);
            }
            k += 1;
        }
        let r = Frame { width, height, pixels };
        assert(r@.pixels =~= frame_of(data@, width, height).pixels);
        r
    }
}

} // verus!
