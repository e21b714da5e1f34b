//! The frame shared between the stream receiver and the render loop.

use vstd::prelude::*;
use vstd::slice::slice_to_vec;
use crate::protocol::Rect;

verus! {

#[derive(Debug, Clone)]
pub struct FrameBuffer {
    pub width: u32,
    pub height: u32,
    pub stride: u32,
    pub data: Vec<u8>,
    pub dirty: bool,
    pub damage: Rect,
}

/// Mathematical value of a frame buffer.
pub struct FrameBufferView {
    pub width: u32,
    pub height: u32,
    pub stride: u32,
    pub data: Seq<u8>,
    pub dirty: bool,
    pub damage: Rect,
}

impl View for FrameBuffer {
    type V = FrameBufferView;

    open spec fn view(&self) -> FrameBufferView {
        FrameBufferView {
            width: self.width,
            height: self.height,
            stride: self.stride,
            data: self.data@,
            dirty: self.dirty,
            damage: self.damage,
        }
    }
}

/// An empty frame buffer: zero size, no data, not dirty, zero damage.
pub open spec fn empty_frame_buffer() -> FrameBufferView {
    FrameBufferView {
        width: 0,
        height: 0,
        stride: 0,
        data: Seq::empty(),
        dirty: false,
        damage: Rect { x: 0, y: 0, w: 0, h: 0 },
    }
}

/// The buffer after a new frame is stored: all fields replaced, dirty set.
pub open spec fn updated_frame_buffer(width: u32, height: u32, stride: u32, data: Seq<u8>, damage: Rect) -> FrameBufferView {
    FrameBufferView { width, height, stride, data, dirty: true, damage }
}

/// A frame handed to the renderer: size, stride, pixels and damage.
pub struct PendingFrame {
    pub width: u32,
    pub height: u32,
    pub stride: u32,
    pub data: Vec<u8>,
    pub damage: Rect,
}

impl FrameBuffer {
    /// Creates an empty frame buffer (zero dimensions, no data, not dirty, zero damage).
    pub fn new() -> (fb: Self)
        ensures
            fb@ == empty_frame_buffer(),
    {
        Self { width: 0, height: 0, stride: 0, data: Vec::new(), dirty: false, damage: Rect::zero() }
    }

    /// Replaces dimensions, pixels and damage, and marks the buffer dirty.
    pub fn update(&mut self, width: u32, height: u32, stride: u32, pixels: Vec<u8>, damage: Rect)
        ensures
            final(self)@ == updated_frame_buffer(width, height, stride, pixels@, damage),
    {
        self.width = width;
        self.height = height;
        self.stride = stride;
        self.data = pixels;
        self.dirty = true;
        self.damage = damage;
    }

    /// Hands out a copy of the frame when it is dirty and non-empty, clearing
    /// the dirty flag; otherwise returns `None` and changes nothing.
    pub fn take_frame(&mut self) -> (r: Option<PendingFrame>)
        ensures
            old(self).dirty && old(self).width > 0 && old(self).height > 0 ==> {
                &&& r matches Some(f)
                &&& f.width == old(self).width
                &&& f.height == old(self).height
                &&& f.stride == old(self).stride
                &&& f.data@ == old(self).data@
                &&& f.damage == old(self).damage
                &&& final(self)@ == (FrameBufferView { dirty: false, ..old(self)@ })
            },
            !(old(self).dirty && old(self).width > 0 && old(self).height > 0) ==> {
                &&& r is None
                &&& final(self)@ == old(self)@
            },
    {
        if self.dirty && self.width > 0 && self.height > 0 {
            self.dirty = false;
            Some(PendingFrame {
                width: self.width,
                height: self.height,
                stride: self.stride,
                data: slice_to_vec(self.data.as_slice()),
                damage: self.damage,
            })
        } else {
            None
        }
    }
}

} // verus!
