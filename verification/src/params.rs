//! The three CPU-resident parameter blocks, each carrying a dirty flag.
//!
//! Mutating any field through a setter marks the block dirty; a flush hands
//! out the pending transfer exactly when the block is dirty and clears the
//! flag, so mutations between flushes coalesce into one transfer.

use vstd::prelude::*;

use crate::helpers::Action;
use crate::layout::{ComputeUniformBufferObject, FragmentUniformBufferObject};
use crate::transform::{zoom_ok, Frac};

verus! {

/// Shape parameters feeding the compute kernel: color, action, stroke
/// width, anti-aliasing scale, dash and gap lengths.
pub struct ShapeParams {
    data: ComputeUniformBufferObject,
    dirty: bool,
}

impl ShapeParams {
    pub closed spec fn data(self) -> ComputeUniformBufferObject {
        self.data
    }

    pub closed spec fn spec_dirty(self) -> bool {
        self.dirty
    }

    pub fn is_dirty(&self) -> (r: bool)
        ensures
            r == self.spec_dirty(),
    {
        self.dirty
    }

    pub fn data_copy(&self) -> (r: ComputeUniformBufferObject)
        ensures
            r == self.data(),
    {
        self.data
    }

    /// A block with every field zeroed, clean.
    pub fn new() -> (r: Self)
        ensures
            r.data() == (ComputeUniformBufferObject {
                color_r_bits: 0u32,
                color_g_bits: 0u32,
                color_b_bits: 0u32,
                color_a_bits: 0u32,
                action: Action::Init,
                stroke_bits: 0u32,
                anti_aliasing_scale_bits: 0u32,
                dash_length_bits: 0u32,
                gap_length_bits: 0u32,
            }),
            !r.spec_dirty(),
    {
        Self {
            data: ComputeUniformBufferObject {
                color_r_bits: 0,
                color_g_bits: 0,
                color_b_bits: 0,
                color_a_bits: 0,
                action: Action::Init,
                stroke_bits: 0,
                anti_aliasing_scale_bits: 0,
                dash_length_bits: 0,
                gap_length_bits: 0,
            },
            dirty: false,
        }
    }

    pub fn set_color_bits(&mut self, r: u32, g: u32, b: u32, a: u32)
        ensures
            final(self).data() == (ComputeUniformBufferObject {
                color_r_bits: r,
                color_g_bits: g,
                color_b_bits: b,
                color_a_bits: a,
                ..old(self).data()
            }),
            final(self).spec_dirty(),
    {
        self.data.color_r_bits = r;
        self.data.color_g_bits = g;
        self.data.color_b_bits = b;
        self.data.color_a_bits = a;
        self.dirty = true;
    }

    pub fn set_action(&mut self, action: Action)
        ensures
            final(self).data() == (ComputeUniformBufferObject {
                action,
                ..old(self).data()
            }),
            final(self).spec_dirty(),
    {
        self.data.action = action;
        self.dirty = true;
    }

    pub fn set_stroke_bits(&mut self, bits: u32)
        ensures
            final(self).data() == (ComputeUniformBufferObject {
                stroke_bits: bits,
                ..old(self).data()
            }),
            final(self).spec_dirty(),
    {
        self.data.stroke_bits = bits;
        self.dirty = true;
    }

    pub fn set_anti_aliasing_scale_bits(&mut self, bits: u32)
        ensures
            final(self).data() == (ComputeUniformBufferObject {
                anti_aliasing_scale_bits: bits,
                ..old(self).data()
            }),
            final(self).spec_dirty(),
    {
        self.data.anti_aliasing_scale_bits = bits;
        self.dirty = true;
    }

    pub fn set_dash_length_bits(&mut self, bits: u32)
        ensures
            final(self).data() == (ComputeUniformBufferObject {
                dash_length_bits: bits,
                ..old(self).data()
            }),
            final(self).spec_dirty(),
    {
        self.data.dash_length_bits = bits;
        self.dirty = true;
    }

    pub fn set_gap_length_bits(&mut self, bits: u32)
        ensures
            final(self).data() == (ComputeUniformBufferObject {
                gap_length_bits: bits,
                ..old(self).data()
            }),
            final(self).spec_dirty(),
    {
        self.data.gap_length_bits = bits;
        self.dirty = true;
    }

    /// The transfer to perform before a dispatch: the block's byte image
    /// exactly when the block is dirty, and nothing otherwise. The flag is
    /// clear afterwards in either case.
    pub fn flush(&mut self) -> (r: Option<Vec<u8>>)
        ensures
            final(self).data() == old(self).data(),
            !final(self).spec_dirty(),
            old(self).spec_dirty() ==> (r matches Some(bytes) && bytes@ == old(
                self,
            ).data().spec_bytes()),
            !old(self).spec_dirty() ==> r is None,
    {
        if self.dirty {
            self.dirty = false;
            Some(self.data.as_bytes())
        } else {
            None
        }
    }
}

/// The view transform: zoom percentage and normalized-device offset, held
/// exactly. The scale handed to the render kernel is derived from the zoom
/// and the window/texture sizes (see `transform::scale_from_zoom`).
pub struct ViewTransform {
    zoom: Frac,
    offset: (Frac, Frac),
    dirty: bool,
}

impl ViewTransform {
    pub closed spec fn zoom(self) -> Frac {
        self.zoom
    }

    pub closed spec fn offset(self) -> (Frac, Frac) {
        self.offset
    }

    pub closed spec fn spec_dirty(self) -> bool {
        self.dirty
    }

    /// Zoom and offset stay within the bounds the exact transforms accept.
    pub open spec fn wf(self) -> bool {
        &&& zoom_ok(self.zoom())
        &&& self.offset().0.small()
        &&& self.offset().1.small()
    }

    pub fn is_dirty(&self) -> (r: bool)
        ensures
            r == self.spec_dirty(),
    {
        self.dirty
    }

    pub fn zoom_copy(&self) -> (r: Frac)
        ensures
            r == self.zoom(),
    {
        self.zoom
    }

    pub fn offset_copy(&self) -> (r: (Frac, Frac))
        ensures
            r == self.offset(),
    {
        self.offset
    }

    /// A transform at 100% zoom with no offset, clean.
    pub fn new() -> (r: Self)
        ensures
            r.wf(),
            r.zoom()@ == (100int, 1int),
            r.offset().0@ == (0int, 1int),
            r.offset().1@ == (0int, 1int),
            !r.spec_dirty(),
    {
        Self {
            zoom: Frac::new(100, 1),
            offset: (Frac::new(0, 1), Frac::new(0, 1)),
            dirty: false,
        }
    }

    pub fn set_zoom(&mut self, zoom: Frac)
        requires
            old(self).wf(),
            zoom_ok(zoom),
        ensures
            final(self).wf(),
            final(self).zoom() == zoom,
            final(self).offset() == old(self).offset(),
            final(self).spec_dirty(),
    {
        self.zoom = zoom;
        self.dirty = true;
    }

    pub fn set_offset(&mut self, x: Frac, y: Frac)
        requires
            old(self).wf(),
            x.small(),
            y.small(),
        ensures
            final(self).wf(),
            final(self).zoom() == old(self).zoom(),
            final(self).offset() == (x, y),
            final(self).spec_dirty(),
    {
        self.offset = (x, y);
        self.dirty = true;
    }

    /// Whether a transfer is due; the flag is clear afterwards.
    pub fn flush(&mut self) -> (r: bool)
        ensures
            final(self).zoom() == old(self).zoom(),
            final(self).offset() == old(self).offset(),
            !final(self).spec_dirty(),
            r == old(self).spec_dirty(),
    {
        let r = self.dirty;
        self.dirty = false;
        r
    }
}

/// Display parameters feeding the render kernel's fragment stage: grid
/// scale, action and the preview flag.
pub struct DisplayParams {
    data: FragmentUniformBufferObject,
    dirty: bool,
}

impl DisplayParams {
    pub closed spec fn data(self) -> FragmentUniformBufferObject {
        self.data
    }

    pub closed spec fn spec_dirty(self) -> bool {
        self.dirty
    }

    pub fn is_dirty(&self) -> (r: bool)
        ensures
            r == self.spec_dirty(),
    {
        self.dirty
    }

    pub fn data_copy(&self) -> (r: FragmentUniformBufferObject)
        ensures
            r == self.data(),
    {
        self.data
    }

    /// A block with zero grid scale, no preview, clean.
    pub fn new() -> (r: Self)
        ensures
            r.data() == (FragmentUniformBufferObject {
                grid_scale_x_bits: 0u32,
                grid_scale_y_bits: 0u32,
                action: Action::Init,
                preview: false,
            }),
            !r.spec_dirty(),
    {
        Self {
            data: FragmentUniformBufferObject {
                grid_scale_x_bits: 0,
                grid_scale_y_bits: 0,
                action: Action::Init,
                preview: false,
            },
            dirty: false,
        }
    }

    pub fn set_grid_scale_bits(&mut self, x: u32, y: u32)
        ensures
            final(self).data() == (FragmentUniformBufferObject {
                grid_scale_x_bits: x,
                grid_scale_y_bits: y,
                ..old(self).data()
            }),
            final(self).spec_dirty(),
    {
        self.data.grid_scale_x_bits = x;
        self.data.grid_scale_y_bits = y;
        self.dirty = true;
    }

    pub fn set_action(&mut self, action: Action)
        ensures
            final(self).data() == (FragmentUniformBufferObject {
                action,
                ..old(self).data()
            }),
            final(self).spec_dirty(),
    {
        self.data.action = action;
        self.dirty = true;
    }

    pub fn set_preview(&mut self, preview: bool)
        ensures
            final(self).data() == (FragmentUniformBufferObject {
                preview,
                ..old(self).data()
            }),
            final(self).spec_dirty(),
    {
        self.data.preview = preview;
        self.dirty = true;
    }

    /// The transfer to perform before presenting, exactly when dirty; the
    /// flag is clear afterwards.
    pub fn flush(&mut self) -> (r: Option<Vec<u8>>)
        ensures
            final(self).data() == old(self).data(),
            !final(self).spec_dirty(),
            old(self).spec_dirty() ==> (r matches Some(bytes) && bytes@ == old(
                self,
            ).data().spec_bytes()),
            !old(self).spec_dirty() ==> r is None,
    {
        if self.dirty {
            self.dirty = false;
            Some(self.data.as_bytes())
        } else {
            None
        }
    }
}

} // verus!
