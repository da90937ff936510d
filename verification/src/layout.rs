//! The byte-exact memory layout shared with the GPU kernels.
//!
//! Each block here is serialized to the little-endian byte image the kernel
//! binding contract fixes: the point storage block as
//! `{u32 length; 4 bytes padding; pairs of 32-bit words}`, and three uniform
//! blocks padded to 16-byte alignment. Scalar fields that the kernels read
//! as 32-bit floats are carried as their raw bit patterns (`*_bits`), so the
//! layout itself is exact and verified; producing the patterns from floats
//! is the caller's concern.

use vstd::prelude::*;

use crate::helpers::Action;

verus! {

/// Byte `i` (little-endian, `0 <= i < 4`) of a 32-bit word.
pub open spec fn le_byte(x: u32, i: int) -> u8 {
    if i == 0 {
        (x as int % 256) as u8
    } else if i == 1 {
        ((x as int / 256) % 256) as u8
    } else if i == 2 {
        ((x as int / 65536) % 256) as u8
    } else {
        ((x as int / 16777216) % 256) as u8
    }
}

/// The four little-endian bytes of a 32-bit word.
pub open spec fn u32_le(x: u32) -> Seq<u8> {
    seq![le_byte(x, 0), le_byte(x, 1), le_byte(x, 2), le_byte(x, 3)]
}

/// Appends the little-endian bytes of `x`.
fn push_u32_le(bytes: &mut Vec<u8>, x: u32)
    ensures
        final(bytes)@ == old(bytes)@ + u32_le(x),
{
    let b0: u8 = (x % 256) as u8;
    let b1: u8 = ((x / 256) % 256) as u8;
    let b2: u8 = ((x / 65536) % 256) as u8;
    let b3: u8 = ((x / 16777216) % 256) as u8;
    bytes.push(b0);
    bytes.push(b1);
    bytes.push(b2);
    bytes.push(b3);
    proof {
        assert(bytes@ =~= old(bytes)@ + u32_le(x));
    }
}

/// The storage block behind the compute kernel's first binding: a logical
/// length and the raw 32-bit patterns of the point coordinates.
pub struct StorageBufferObject {
    pub length: u32,
    pub point_bits: Vec<(u32, u32)>,
}

/// The byte image of a run of point slots, one pair of little-endian words
/// per slot.
pub open spec fn points_bytes(pts: Seq<(u32, u32)>) -> Seq<u8>
    decreases pts.len(),
{
    if pts.len() == 0 {
        Seq::empty()
    } else {
        points_bytes(pts.drop_last()) + u32_le(pts.last().0) + u32_le(pts.last().1)
    }
}

/// Each point slot takes eight bytes.
pub proof fn lemma_points_bytes_len(pts: Seq<(u32, u32)>)
    ensures
        points_bytes(pts).len() == 8 * pts.len(),
    decreases pts.len(),
{
    if pts.len() > 0 {
        lemma_points_bytes_len(pts.drop_last());
    }
}

impl StorageBufferObject {
    /// The logical length never claims more slots than are stored; only the
    /// first `length` slots are semantically valid.
    pub open spec fn wf(self) -> bool {
        self.length <= self.point_bits@.len() <= 4096
    }

    /// The byte image the storage block binding fixes: the length word,
    /// four bytes of padding, then the point slots.
    pub open spec fn spec_bytes(self) -> Seq<u8> {
        u32_le(self.length) + seq![0u8, 0u8, 0u8, 0u8] + points_bytes(self.point_bits@)
    }

    pub fn as_bytes(&self) -> (r: Vec<u8>)
        requires
            self.wf(),
        ensures
            r@ == self.spec_bytes(),
            r@.len() == 8 + 8 * self.point_bits@.len(),
    {
        let mut r: Vec<u8> = Vec::new();
        push_u32_le(&mut r, self.length);
        r.push(0u8);
        r.push(0u8);
        r.push(0u8);
        r.push(0u8);
        let ghost header = r@;
        let mut i: usize = 0;
        while i < self.point_bits.len()
            invariant
                0 <= i <= self.point_bits@.len(),
                header == u32_le(self.length) + seq![0u8, 0u8, 0u8, 0u8],
                r@ == header + points_bytes(self.point_bits@.subrange(0, i as int)),
            decreases self.point_bits@.len() - i,
        {
            let (x, y) = self.point_bits[i];
            push_u32_le(&mut r, x);
            push_u32_le(&mut r, y);
            i = i + 1;
            proof {
                let pre = self.point_bits@.subrange(0, i as int - 1);
                let cur = self.point_bits@.subrange(0, i as int);
                assert(cur.drop_last() =~= pre);
                assert(cur.last() == self.point_bits@[i as int - 1]);
                assert(r@ =~= header + points_bytes(cur));
            }
        }
        proof {
            assert(self.point_bits@.subrange(0, self.point_bits@.len() as int)
                =~= self.point_bits@);
            lemma_points_bytes_len(self.point_bits@);
        }
        r
    }
}

impl Default for StorageBufferObject {
    /// The startup image: zero logical length, with every one of the 4096
    /// point slots present and zeroed, so the GPU buffer is created at its
    /// full size.
    fn default() -> (r: Self)
        ensures
            r.wf(),
            r.length == 0,
            r.point_bits@.len() == 4096,
            forall|i: int| 0 <= i < 4096 ==> r.point_bits@[i] == (0u32, 0u32),
    {
        let mut point_bits: Vec<(u32, u32)> = Vec::new();
        let mut i: usize = 0;
        while i < 4096
            invariant
                0 <= i <= 4096,
                point_bits@.len() == i,
                forall|j: int| 0 <= j < i ==> point_bits@[j] == (0u32, 0u32),
            decreases 4096 - i,
        {
            point_bits.push((0u32, 0u32));
            i = i + 1;
        }
        Self { length: 0, point_bits }
    }
}

/// The uniform block behind the compute kernel's second binding:
/// `{color: 4 words, action, stroke, anti-aliasing scale, dash length,
/// gap length}`, padded to 48 bytes.
#[derive(Clone, Copy, PartialEq, Eq, Structural, Debug)]
pub struct ComputeUniformBufferObject {
    pub color_r_bits: u32,
    pub color_g_bits: u32,
    pub color_b_bits: u32,
    pub color_a_bits: u32,
    pub action: Action,
    pub stroke_bits: u32,
    pub anti_aliasing_scale_bits: u32,
    pub dash_length_bits: u32,
    pub gap_length_bits: u32,
}

impl ComputeUniformBufferObject {
    /// The 48-byte image the binding fixes; the action is stored as its
    /// shared integer encoding.
    pub open spec fn spec_bytes(self) -> Seq<u8> {
        u32_le(self.color_r_bits) + u32_le(self.color_g_bits) + u32_le(self.color_b_bits)
            + u32_le(self.color_a_bits) + u32_le(self.action.spec_code())
            + u32_le(self.stroke_bits) + u32_le(self.anti_aliasing_scale_bits)
            + u32_le(self.dash_length_bits) + u32_le(self.gap_length_bits)
            + seq![
            0u8,
            0u8,
            0u8,
            0u8,
            0u8,
            0u8,
            0u8,
            0u8,
            0u8,
            0u8,
            0u8,
            0u8,
        ]
    }

    #[verifier::rlimit(50)]
    pub fn as_bytes(&self) -> (r: Vec<u8>)
        ensures
            r@ == self.spec_bytes(),
            r@.len() == 48,
    {
        let mut r: Vec<u8> = Vec::new();
        push_u32_le(&mut r, self.color_r_bits);
        push_u32_le(&mut r, self.color_g_bits);
        push_u32_le(&mut r, self.color_b_bits);
        push_u32_le(&mut r, self.color_a_bits);
        push_u32_le(&mut r, self.action.code());
        push_u32_le(&mut r, self.stroke_bits);
        push_u32_le(&mut r, self.anti_aliasing_scale_bits);
        push_u32_le(&mut r, self.dash_length_bits);
        push_u32_le(&mut r, self.gap_length_bits);
        let ghost head = r@;
        let mut i: usize = 0;
        while i < 12
            invariant
                0 <= i <= 12,
                r@.len() == head.len() + i,
                r@.subrange(0, head.len() as int) == head,
                forall|j: int| head.len() <= j < r@.len() ==> r@[j] == 0u8,
            decreases 12 - i,
        {
            r.push(0u8);
            i = i + 1;
            proof {
                assert(r@.subrange(0, head.len() as int) =~= head);
            }
        }
        proof {
            assert(r@ =~= self.spec_bytes());
        }
        r
    }
}

/// The uniform block behind the render kernel's vertex stage:
/// `{scale: 2 words, offset: 2 words}`.
#[derive(Clone, Copy, PartialEq, Eq, Structural, Debug)]
pub struct VertexUniformBufferObject {
    pub scale_x_bits: u32,
    pub scale_y_bits: u32,
    pub offset_x_bits: u32,
    pub offset_y_bits: u32,
}

impl VertexUniformBufferObject {
    /// The 16-byte image the binding fixes.
    pub open spec fn spec_bytes(self) -> Seq<u8> {
        u32_le(self.scale_x_bits) + u32_le(self.scale_y_bits) + u32_le(self.offset_x_bits)
            + u32_le(self.offset_y_bits)
    }

    pub fn as_bytes(&self) -> (r: Vec<u8>)
        ensures
            r@ == self.spec_bytes(),
            r@.len() == 16,
    {
        let mut r: Vec<u8> = Vec::new();
        push_u32_le(&mut r, self.scale_x_bits);
        push_u32_le(&mut r, self.scale_y_bits);
        push_u32_le(&mut r, self.offset_x_bits);
        push_u32_le(&mut r, self.offset_y_bits);
        r
    }
}

/// The uniform block behind the render kernel's fragment stage:
/// `{grid scale: 2 words, action, preview flag as a word}`.
#[derive(Clone, Copy, PartialEq, Eq, Structural, Debug)]
pub struct FragmentUniformBufferObject {
    pub grid_scale_x_bits: u32,
    pub grid_scale_y_bits: u32,
    pub action: Action,
    pub preview: bool,
}

impl FragmentUniformBufferObject {
    /// The 16-byte image the binding fixes; the preview flag is widened to
    /// a word, one for true and zero for false.
    pub open spec fn spec_bytes(self) -> Seq<u8> {
        u32_le(self.grid_scale_x_bits) + u32_le(self.grid_scale_y_bits)
            + u32_le(self.action.spec_code()) + u32_le(if self.preview { 1u32 } else { 0u32 })
    }

    pub fn as_bytes(&self) -> (r: Vec<u8>)
        ensures
            r@ == self.spec_bytes(),
            r@.len() == 16,
    {
        let mut r: Vec<u8> = Vec::new();
        push_u32_le(&mut r, self.grid_scale_x_bits);
        push_u32_le(&mut r, self.grid_scale_y_bits);
        push_u32_le(&mut r, self.action.code());
        push_u32_le(&mut r, if self.preview { 1u32 } else { 0u32 });
        r
    }
}

} // verus!
