use vstd::arithmetic::div_mod::lemma_fundamental_div_mod_converse;
use vstd::prelude::*;

use crate::encode::{png_of, write_png, StitchError};
use crate::frame::{frame_of, Frame, FrameModel};

verus! {

/// The mathematical value of the frame store: the buffered frames in
/// insertion order and the reference dimensions taken from the first of them.
pub struct StoreModel {
    pub frames: Seq<FrameModel>,
    pub width: u32,
    pub height: u32,
}

impl StoreModel {
    /// A store with no frames and zero reference dimensions.
    pub open spec fn empty() -> StoreModel {
        StoreModel { frames: Seq::empty(), width: 0, height: 0 }
    }

    /// Every frame is well formed, and the reference dimensions are those of
    /// the first frame, or zero while the store is empty.
    pub open spec fn wf(self) -> bool {
        &&& forall|i: int| 0 <= i < self.frames.len() ==> (#[trigger] self.frames[i]).wf()
        &&& if self.frames.len() == 0 {
            self.width == 0 && self.height == 0
        } else {
            self.width == self.frames[0].width && self.height == self.frames[0].height
        }
    }

    /// The store after one more frame built from `data`; the first frame into
    /// an empty store sets the reference dimensions.
    pub open spec fn add(self, data: Seq<u8>, width: u32, height: u32) -> StoreModel {
        StoreModel {
            frames: self.frames.push(frame_of(data, width, height)),
            width: if self.frames.len() == 0 { width } else { self.width },
            height: if self.frames.len() == 0 { height } else { self.height },
        }
    }

    /// The composed canvas of two or more frames fits the machine: its width
    /// in a `u32`, its samples in memory.
    pub open spec fn fits(self) -> bool {
        self.frames.len() >= 2 ==> {
            &&& self.width as int * self.frames.len() <= u32::MAX
            &&& self.width as int * self.frames.len() * self.height as int * 4 <= usize::MAX
        }
    }
}

/// Byte `k` of the composed canvas: frame `i` occupies the slot of columns
/// `[i * w, (i + 1) * w)`, where `w` is the reference width; what a frame does
/// not cover of its slot is transparent black.
pub open spec fn canvas_byte(s: StoreModel, k: int) -> u8 {
    let cw = s.width as int * s.frames.len();
    let cx = (k / 4) % cw;
    let cy = (k / 4) / cw;
    let f = s.frames[cx / s.width as int];
    let x = cx % s.width as int;
    if x < f.width && cy < f.height {
        f.sample(x, cy, k % 4)
    } else {
        0u8
    }
}

/// The canvas that the horizontal layout composes from the store's frames.
pub open spec fn composed(s: StoreModel) -> FrameModel {
    let cw = s.width as int * s.frames.len();
    FrameModel {
        width: cw as u32,
        height: s.height,
        pixels: Seq::new((cw * s.height * 4) as nat, |k: int| canvas_byte(s, k)),
    }
}

/// What encoding a frame gives.
pub open spec fn encoded(f: FrameModel) -> Option<Seq<u8>> {
    png_of(f.width, f.height, f.pixels)
}

/// What stitching the store gives: no bytes for an empty store, the single
/// frame unchanged, or else the composed canvas; `None` where the encoder
/// refuses the raster.
pub open spec fn stitch_outcome(s: StoreModel) -> Option<Seq<u8>> {
    if s.frames.len() == 0 {
        Some(Seq::empty())
    } else if s.frames.len() == 1 {
        encoded(s.frames[0])
    } else {
        encoded(composed(s))
    }
}

/// `r` is the result that `o` describes.
pub open spec fn reports(r: Result<Vec<u8>, StitchError>, o: Option<Seq<u8>>) -> bool {
    match r {
        Ok(b) => o == Some(b@),
        Err(_) => o is None,
    }
}

proof fn lemma_canvas_index(w: int, n: int, y: int, i: int, x: int, c: int)
    requires
        0 <= x < w,
        0 <= i < n,
        0 <= y,
        0 <= c < 4,
    ensures
        ((y * (w * n) + i * w + x) * 4 + c) / 4 == y * (w * n) + i * w + x,
        ((y * (w * n) + i * w + x) * 4 + c) % 4 == c,
        (y * (w * n) + i * w + x) % (w * n) == i * w + x,
        (y * (w * n) + i * w + x) / (w * n) == y,
        (i * w + x) / w == i,
        (i * w + x) % w == x,
{
    let p = y * (w * n) + i * w + x;
    lemma_fundamental_div_mod_converse(p * 4 + c, 4, p, c);
    assert(i * w + x < w * n) by (nonlinear_arith)
        requires 0 <= x < w, 0 <= i < n;
    lemma_fundamental_div_mod_converse(p, w * n, y, i * w + x);
    lemma_fundamental_div_mod_converse(i * w + x, w, i, x);
}

proof fn lemma_sample_index(w: int, h: int, x: int, y: int)
    requires
        0 <= x < w,
        0 <= y < h,
    ensures
        (y * w + x) * 4 + 3 < w * h * 4,
{
    assert(y * w + x < w * h) by (nonlinear_arith)
        requires 0 <= x < w, 0 <= y < h;
}

/// Buffers camera frames and stitches them into one PNG panorama.
pub struct PanoramaStitcher {
    frames: Vec<Frame>,
    width: u32,
    height: u32,
}

impl View for PanoramaStitcher {
    type V = StoreModel;

    closed spec fn view(&self) -> StoreModel {
        StoreModel {
            frames: self.frames@.map_values(|f: Frame| f@),
            width: self.width,
            height: self.height,
        }
    }
}

impl PanoramaStitcher {
    /// The store's invariant, stated on its model.
    pub open spec fn wf(&self) -> bool {
        self@.wf()
    }

    /// An empty stitcher.
    pub fn new() -> (r: PanoramaStitcher)
        ensures
            r@ == StoreModel::empty(),
            r.wf(),
    {
        let r = PanoramaStitcher { frames: Vec::new(), width: 0, height: 0 };
        assert(r@.frames =~= Seq::<FrameModel>::empty());
        r
    }

    /// Appends the frame that `image_data` gives for a `width` by `height`
    /// raster; the first frame into an empty store sets the reference
    /// dimensions.
    pub fn add_frame(&mut self, image_data: &[u8], width: u32, height: u32)
        requires
            old(self).wf(),
            width as int * height as int * 4 <= usize::MAX,
        ensures
            final(self)@ == old(self)@.add(image_data@, width, height),
            final(self).wf(),
    {
        if self.frames.len() == 0 {
            self.width = width;
            self.height = height;
        }
        let img = Frame::from_rgba(image_data, width, height);
        self.frames.push(img);
        assert(self@.frames =~= old(self)@.frames.push(frame_of(image_data@, width, height)));
    }

    /// The PNG encoding of the panorama of the buffered frames: no bytes for
    /// an empty store, the single frame as it is, or else the frames laid out
    /// side by side in slots of the reference width. The store is unchanged.
    pub fn stitch(&mut self) -> (r: Result<Vec<u8>, StitchError>)
        requires
            old(self).wf(),
            old(self)@.fits(),
        ensures
            *final(self) == *old(self),
            reports(r, stitch_outcome(old(self)@)),
    {
        if self.frames.len() == 0 {
            let empty: Vec<u8> = Vec::new();
            assert(empty@ =~= Seq::<u8>::empty());
            return Ok(empty);
        }
        if self.frames.len() == 1 {
            assert(self@.frames[0] == self.frames[0]@);
            return self.frame_to_png_bytes(&self.frames[0]);
        }
        let panorama = self.simple_horizontal_stitch();
        self.frames_to_png_bytes(&panorama)
    }

    /// Drops every frame and resets the reference dimensions to zero.
    pub fn clear(&mut self)
        ensures
            final(self)@ == StoreModel::empty(),
            final(self).wf(),
    {
        self.frames.clear();
        self.width = 0;
        self.height = 0;
        assert(self@.frames =~= Seq::<FrameModel>::empty());
    }

    /// The number of buffered frames.
    pub fn frame_count(&self) -> (r: usize)
        ensures
            r == self@.frames.len(),
    {
        self.frames.len()
    }

    /// The width of the first buffered frame, or zero while the store is
    /// empty.
    pub fn reference_width(&self) -> (r: u32)
        ensures
            r == self@.width,
    {
        self.width
    }

    /// The height of the first buffered frame, or zero while the store is
    /// empty.
    pub fn reference_height(&self) -> (r: u32)
        ensures
            r == self@.height,
    {
        self.height
    }

    /// Lays the buffered frames side by side, each in a slot of the reference
    /// width, on a transparent canvas of the reference height.
    pub fn simple_horizontal_stitch(&self) -> (r: Frame)
        requires
            self.wf(),
            self@.frames.len() >= 2,
            self@.fits(),
        ensures
            r@ == composed(self@),
            r@.wf(),
    {
        let ghost s = self@;
        let n: usize = self.frames.len();
        let rw: u32 = self.width;
        let rh: u32 = self.height;
        let cw: usize = rw as usize * n;
        let total: usize = cw * rh as usize * 4;
        let mut pixels: Vec<u8> = Vec::with_capacity(total);
        let mut y: u32 = 0;
        while y < rh
            invariant
                s == self@,
                s.wf(),
                n == s.frames.len(),
                rw == s.width,
                rh == s.height,
                cw == rw * n,
                cw <= u32::MAX,
                y <= rh,
                pixels@.len() == y * cw * 4,
                forall|k: int| 0 <= k < pixels@.len() ==> pixels@[k] == canvas_byte(s, k),
            decreases rh - y,
        {
            let mut i: usize = 0;
            while i < n
                invariant
                    s == self@,
                    s.wf(),
                    n == s.frames.len(),
                    rw == s.width,
                    rh == s.height,
                    cw == rw * n,
                    y < rh,
                    i <= n,
                    pixels@.len() == (y * cw + i * rw) * 4,
                    forall|k: int| 0 <= k < pixels@.len() ==> pixels@[k] == canvas_byte(s, k),
                decreases n - i,
            {
                let f = &self.frames[i];
                assert(s.frames[i as int] == f@);
                assert(f@.wf());
                let flen: usize = f.pixels.len();
                let mut x: u32 = 0;
                while x < rw
                    invariant
                        s == self@,
                        n == s.frames.len(),
                        rw == s.width,
                        cw == rw * n,
                        y < rh,
                        i < n,
                        x <= rw,
                        s.frames[i as int] == f@,
                        f@.wf(),
                        flen == f.pixels@.len(),
                        pixels@.len() == (y * cw + i * rw + x) * 4,
                        forall|k: int| 0 <= k < pixels@.len() ==> pixels@[k] == canvas_byte(s, k),
                    decreases rw - x,
                {
                    proof {
                        lemma_canvas_index(rw as int, n as int, y as int, i as int, x as int, 0);
                        lemma_canvas_index(rw as int, n as int, y as int, i as int, x as int, 1);
                        lemma_canvas_index(rw as int, n as int, y as int, i as int, x as int, 2);
                        lemma_canvas_index(rw as int, n as int, y as int, i as int, x as int, 3);
                    }
                    let ghost len0: int = pixels@.len() as int;
                    if x < f.width && y < f.height {
                        proof {
                            lemma_sample_index(f.width as int, f.height as int, x as int, y as int);
                        }
                        let base: usize = (y as usize * f.width as usize + x as usize) * 4;
                        pixels.push(f.pixels[base]);
                        pixels.push(f.pixels[base + 1]);
                        pixels.push(f.pixels[base + 2]);
                        pixels.push(f.pixels[base + 3]);
                    } else {
                        pixels.push(0);
                        pixels.push(0);
                        pixels.push(0);
                        pixels.push(0);
                    }
                    assert(pixels@[len0] == canvas_byte(s, len0));
                    assert(pixels@[len0 + 1] == canvas_byte(s, len0 + 1));
                    assert(pixels@[len0 + 2] == canvas_byte(s, len0 + 2));
                    assert(pixels@[len0 + 3] == canvas_byte(s, len0 + 3));
                    x += 1;
                    assert(pixels@.len() == (y * cw + i * rw + x) * 4) by (nonlinear_arith)
                        requires pixels@.len() == len0 + 4, len0 == (y * cw + i * rw + (x - 1)) * 4;
                }
                i += 1;
                assert(pixels@.len() == (y * cw + i * rw) * 4) by (nonlinear_arith)
                    requires pixels@.len() == (y * cw + (i - 1) * rw + rw) * 4;
            }
            y += 1;
            assert(pixels@.len() == y * cw * 4) by (nonlinear_arith)
                requires pixels@.len() == ((y - 1) * cw + n * rw) * 4, cw == rw * n;
        }
        assert(pixels@.len() == cw * rh * 4) by (nonlinear_arith)
            requires pixels@.len() == rh * cw * 4;
        let r = Frame { width: cw as u32, height: rh, pixels };
        assert(r@.pixels =~= composed(s).pixels);
        r
    }

    fn frame_to_png_bytes(&self, img: &Frame) -> (r: Result<Vec<u8>, StitchError>)
        requires
            img@.wf(),
        ensures
            reports(r, encoded(img@)),
    {
        match write_png(img.width, img.height, img.pixels.as_slice()) {
            Ok(bytes) => Ok(bytes),
            Err(_) => Err(StitchError::Encode),
        }
    }

    fn frames_to_png_bytes(&self, img: &Frame) -> (r: Result<Vec<u8>, StitchError>)
        requires
            img@.wf(),
        ensures
            reports(r, encoded(img@)),
    {
        self.frame_to_png_bytes(img)
    }
}

} // verus!
