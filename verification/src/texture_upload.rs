//! Decisions of the GPU upload: whether a frame can be drawn, when the
//! texture must be recreated, where a damaged region starts in the frame, and
//! how a drawable size is reported.

use vstd::prelude::*;
use crate::protocol::Rect;

verus! {

/// What to do with a frame handed to the renderer.
#[derive(Debug, Clone, Copy, PartialEq, Eq, Structural)]
pub enum UploadPlan {
    /// Nothing is drawn: the frame is empty, or holds fewer than
    /// `width * height * 4` bytes.
    Skip,
    /// The whole frame is uploaded with rows of `bytes_per_row` bytes; a new
    /// texture is made first when the frame size differs from the last one.
    Upload { new_texture: bool, bytes_per_row: usize },
}

/// The plan for a `width` x `height` frame of `data_len` bytes when the
/// texture was last made for `last_w` x `last_h`.
pub open spec fn spec_plan_texture_upload(width: u32, height: u32, data_len: usize, last_w: u32, last_h: u32) -> UploadPlan {
    if width == 0 || height == 0 || data_len < width * height * 4 {
        UploadPlan::Skip
    } else {
        UploadPlan::Upload {
            new_texture: width != last_w || height != last_h,
            bytes_per_row: (width * 4) as usize,
        }
    }
}

/// Decides how a frame is uploaded (see `spec_plan_texture_upload`).
pub fn plan_texture_upload(width: u32, height: u32, data_len: usize, last_w: u32, last_h: u32) -> (p: UploadPlan)
    ensures
        p == spec_plan_texture_upload(width, height, data_len, last_w, last_h),
{
    if width == 0 || height == 0 {
        return UploadPlan::Skip;
    }
    let w = width as u128;
    let h = height as u128;
    assert(w * h <= 0xffff_ffff * 0xffff_ffff) by (nonlinear_arith)
        requires w <= 0xffff_ffff, h <= 0xffff_ffff;
    if (data_len as u128) < w * h * 4 {
        return UploadPlan::Skip;
    }
    assert(width * 4 <= width * height * 4) by (nonlinear_arith)
        requires height >= 1;
    UploadPlan::Upload {
        new_texture: width != last_w || height != last_h,
        bytes_per_row: width as usize * 4,
    }
}

/// A frame is uploaded exactly when it is nonempty and holds
/// `width * height * 4` bytes; its rows are then `width * 4` bytes, and a new
/// texture is made exactly when the width or the height differs from the
/// texture's.
pub proof fn lemma_upload_plan(width: u32, height: u32, data_len: usize, last_w: u32, last_h: u32)
    ensures
        (spec_plan_texture_upload(width, height, data_len, last_w, last_h) is Upload)
            == (width > 0 && height > 0 && data_len >= width * height * 4),
        spec_plan_texture_upload(width, height, data_len, last_w, last_h) matches UploadPlan::Upload {
            new_texture, bytes_per_row } ==> {
            &&& bytes_per_row == width * 4
            &&& width != last_w ==> new_texture
            &&& height != last_h ==> new_texture
            &&& width == last_w && height == last_h ==> !new_texture
        },
{
    if width > 0 && height > 0 && data_len >= width * height * 4 {
        assert(width * 4 <= width * height * 4) by (nonlinear_arith)
            requires height >= 1;
    }
}

/// Byte offset of the first pixel of `damage` in a frame whose rows are
/// `stride` bytes: `damage.y * stride + damage.x * 4`, or `None` when that
/// does not fit in `usize`.
pub fn damaged_region_offset(damage: Rect, stride: usize) -> (r: Option<usize>)
    ensures
        damage.y * stride + damage.x * 4 <= usize::MAX ==> r == Some((damage.y * stride + damage.x * 4) as usize),
        damage.y * stride + damage.x * 4 > usize::MAX ==> r is None,
{
    let y = damage.y as usize;
    let x4 = damage.x as usize * 4;
    match y.checked_mul(stride) {
        Some(row_start) => row_start.checked_add(x4),
        None => {
            assert(damage.y * stride + damage.x * 4 > usize::MAX) by (nonlinear_arith)
                requires damage.y * stride > usize::MAX, damage.x >= 0;
            None
        },
    }
}

/// The reported drawable size `(width, height, scale)`: `(0, 0, 1)` while the
/// drawable is empty; otherwise its size with the window's backing scale, or
/// 2 when there is no window.
pub open spec fn spec_drawable_size_with_scale(width: u32, height: u32, window_scale: Option<u32>) -> (u32, u32, u32) {
    if width == 0 || height == 0 {
        (0, 0, 1)
    } else {
        match window_scale {
            Some(s) => (width, height, s),
            None => (width, height, 2),
        }
    }
}

/// Decides the reported drawable size (see `spec_drawable_size_with_scale`).
pub fn drawable_size_with_scale(width: u32, height: u32, window_scale: Option<u32>) -> (r: (u32, u32, u32))
    ensures
        r == spec_drawable_size_with_scale(width, height, window_scale),
{
    if width == 0 || height == 0 {
        return (0, 0, 1);
    }
    match window_scale {
        Some(s) => (width, height, s),
        None => (width, height, 2),
    }
}

} // verus!
