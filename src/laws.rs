use vstd::arithmetic::div_mod::lemma_fundamental_div_mod_converse;
use vstd::prelude::*;

use crate::encode::StitchError;
use crate::frame::FrameModel;
use crate::stitcher::{composed, encoded, reports, stitch_outcome, StoreModel};

verus! {

/// The store after `add_frame` with each of `adds` in turn, from `s`; each
/// entry is the raw bytes, the width and the height of one call.
pub open spec fn after_adds(s: StoreModel, adds: Seq<(Seq<u8>, u32, u32)>) -> StoreModel
    decreases adds.len(),
{
    if adds.len() == 0 {
        s
    } else {
        let a = adds.last();
        after_adds(s, adds.drop_last()).add(a.0, a.1, a.2)
    }
}

/// Each `add_frame` buffers exactly one frame: after a run of calls the count
/// has grown by the number of calls, so from a cleared or new store it is that
/// number.
pub proof fn lemma_count_after_adds(s: StoreModel, adds: Seq<(Seq<u8>, u32, u32)>)
    ensures
        after_adds(s, adds).frames.len() == s.frames.len() + adds.len(),
        after_adds(StoreModel::empty(), adds).frames.len() == adds.len(),
    decreases adds.len(),
{
    if adds.len() > 0 {
        lemma_count_after_adds(s, adds.drop_last());
    }
}

/// After a clear, the next `add_frame` takes the reference dimensions from
/// its own frame, whatever the store held before.
pub proof fn lemma_add_after_clear(data: Seq<u8>, width: u32, height: u32)
    ensures
        StoreModel::empty().frames.len() == 0,
        StoreModel::empty().add(data, width, height).frames.len() == 1,
        StoreModel::empty().add(data, width, height).width == width,
        StoreModel::empty().add(data, width, height).height == height,
{
}

/// Stitching an empty store gives no bytes, whatever its reference
/// dimensions.
pub proof fn lemma_stitch_empty(s: StoreModel)
    requires
        s.frames.len() == 0,
    ensures
        stitch_outcome(s) == Some(Seq::<u8>::empty()),
{
}

/// Stitching a store of one frame encodes that frame as it is, at its own
/// width and height.
pub proof fn lemma_stitch_single(s: StoreModel)
    requires
        s.frames.len() == 1,
    ensures
        stitch_outcome(s) == encoded(s.frames[0]),
{
}

/// Stitching two frames of the same width `w` and height `h` encodes a
/// `2w` by `h` raster whose left half is the first frame and whose right half
/// is the second, row for row.
pub proof fn lemma_stitch_pair(s: StoreModel)
    requires
        s.wf(),
        s.fits(),
        s.frames.len() == 2,
        s.frames[0].width == s.frames[1].width,
        s.frames[0].height == s.frames[1].height,
    ensures
        stitch_outcome(s) == encoded(composed(s)),
        composed(s).width == 2 * s.frames[0].width,
        composed(s).height == s.frames[0].height,
        composed(s).wf(),
        forall|x: int, y: int, c: int|
            0 <= x < s.frames[0].width && 0 <= y < s.frames[0].height && 0 <= c < 4 ==> {
                &&& #[trigger] composed(s).sample(x, y, c) == s.frames[0].sample(x, y, c)
                &&& composed(s).sample(s.frames[0].width + x, y, c) == s.frames[1].sample(x, y, c)
            },
{
    let w = s.frames[0].width as int;
    let h = s.frames[0].height as int;
    assert(w * 2 * h * 4 == 2 * w * h * 4) by (nonlinear_arith);
    assert forall|x: int, y: int, c: int|
        0 <= x < w && 0 <= y < h && 0 <= c < 4 implies {
            &&& #[trigger] composed(s).sample(x, y, c) == s.frames[0].sample(x, y, c)
            &&& composed(s).sample(w + x, y, c) == s.frames[1].sample(x, y, c)
        } by {
        lemma_pair_sample(w, h, x, y, c, 0);
        lemma_pair_sample(w, h, x, y, c, 1);
    }
}

proof fn lemma_pair_sample(w: int, h: int, x: int, y: int, c: int, i: int)
    requires
        0 <= x < w,
        0 <= y < h,
        0 <= c < 4,
        0 <= i < 2,
    ensures
        ((y * (w * 2) + i * w + x) * 4 + c) < w * 2 * h * 4,
        ((y * (w * 2) + i * w + x) * 4 + c) / 4 == y * (w * 2) + i * w + x,
        ((y * (w * 2) + i * w + x) * 4 + c) % 4 == c,
        (y * (w * 2) + i * w + x) % (w * 2) == i * w + x,
        (y * (w * 2) + i * w + x) / (w * 2) == y,
        (i * w + x) / w == i,
        (i * w + x) % w == x,
        (y * w + x) * 4 + c < w * h * 4,
{
    let p = y * (w * 2) + i * w + x;
    lemma_fundamental_div_mod_converse(p * 4 + c, 4, p, c);
    assert(i * w + x < w * 2) by (nonlinear_arith)
        requires 0 <= x < w, 0 <= i < 2;
    lemma_fundamental_div_mod_converse(p, w * 2, y, i * w + x);
    lemma_fundamental_div_mod_converse(i * w + x, w, i, x);
    assert((y + 1) * (w * 2) <= h * (w * 2)) by (nonlinear_arith)
        requires 0 <= y < h, 0 < w;
    assert((y + 1) * (w * 2) == y * (w * 2) + w * 2) by (nonlinear_arith);
    assert(h * (w * 2) == w * 2 * h) by (nonlinear_arith);
    assert(y * w + x < w * h) by (nonlinear_arith)
        requires 0 <= x < w, 0 <= y < h;
}

/// Stitching is a function of the store alone: two stitches of one store
/// give the same bytes, or both fail.
pub proof fn lemma_stitch_repeatable(
    s: StoreModel,
    r1: Result<Vec<u8>, StitchError>,
    r2: Result<Vec<u8>, StitchError>,
)
    requires
        reports(r1, stitch_outcome(s)),
        reports(r2, stitch_outcome(s)),
    ensures
        r1 is Ok <==> r2 is Ok,
        r1 is Ok ==> r1->Ok_0@ == r2->Ok_0@,
{
}

} // verus!
