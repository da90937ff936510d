//! Decisions behind the GPU orchestration: startup validation, format and
//! present-mode selection, dispatch sizing, the fill staging row stride, and
//! the one-retry policy for frame acquisition. The device work itself
//! happens outside the library; these functions fix what it must do.

use vstd::prelude::*;

use crate::helpers::Size;

verus! {

/// Direction of a full-surface copy between the two canvas surfaces:
/// "front" holds the committed artwork, "back" the scratch copy.
#[derive(Clone, Copy, PartialEq, Eq, Structural, Debug)]
pub enum CopyDirection {
    BackToFront,
    FrontToBack,
}

/// What can go wrong while bringing up or driving the renderer.
#[derive(Clone, Copy, PartialEq, Eq, Structural, Debug)]
pub enum Error {
    /// No suitable GPU adapter was found.
    AdapterNotFound,
    /// No suitable GPU device was found.
    DeviceNotFound,
    /// The presentation surface could not be created.
    CreateSurface,
    /// The GPU failed to acquire a surface frame twice in a row.
    Surface,
    /// No texture format offers the required usages.
    TextureFormatNotFound,
    /// No present mode is available.
    PresentModeNotFound,
    /// The requested texture width is zero or beyond the device limit.
    TextureWidth(u32),
    /// The requested texture height is zero or beyond the device limit.
    TextureHeight(u32),
}

impl Error {
    /// A human-readable description of the failure.
    pub fn message(&self) -> (r: String)
        ensures
            r@.len() > 0,
    {
        let s: &str = match self {
            Error::AdapterNotFound => "no suitable GPU adapter found",
            Error::DeviceNotFound => "no suitable GPU device found",
            Error::CreateSurface => "unable to create a surface",
            Error::Surface => "the GPU failed to acquire a surface frame",
            Error::TextureFormatNotFound => "no suitable texture format found",
            Error::TextureWidth(_) => "texture width is invalid",
            Error::TextureHeight(_) => "texture height is invalid",
            Error::PresentModeNotFound => "no present mode found",
        };
        proof {
            reveal_strlit("no suitable GPU adapter found");
            reveal_strlit("no suitable GPU device found");
            reveal_strlit("unable to create a surface");
            reveal_strlit("the GPU failed to acquire a surface frame");
            reveal_strlit("no suitable texture format found");
            reveal_strlit("texture width is invalid");
            reveal_strlit("texture height is invalid");
            reveal_strlit("no present mode found");
        }
        s.to_string()
    }
}

/// Rejects a backing-texture size that is zero or beyond the device's
/// two-dimensional texture limit; the width is checked first.
pub fn validate_texture_size(size: Size<u32>, limit: u32) -> (r: Result<(), Error>)
    ensures
        r is Ok <==> (0 < size.width <= limit && 0 < size.height <= limit),
        (size.width == 0 || size.width > limit) ==> r == Err::<(), Error>(
            Error::TextureWidth(size.width),
        ),
        (0 < size.width <= limit && (size.height == 0 || size.height > limit)) ==> r
            == Err::<(), Error>(Error::TextureHeight(size.height)),
{
    if size.width == 0 || size.width > limit {
        Err(Error::TextureWidth(size.width))
    } else if size.height == 0 || size.height > limit {
        Err(Error::TextureHeight(size.height))
    } else {
        Ok(())
    }
}

/// The compute kernel runs on eight-by-eight workgroups: the dispatch
/// covers the texture with ceiling division on each axis.
pub fn workgroups(tex: Size<u32>) -> (r: (u32, u32))
    ensures
        r.0 == (tex.width + 7) as int / 8,
        r.1 == (tex.height + 7) as int / 8,
{
    let x = tex.width / 8 + if tex.width % 8 == 0 {
        0
    } else {
        1
    };
    let y = tex.height / 8 + if tex.height % 8 == 0 {
        0
    } else {
        1
    };
    (x, y)
}

/// Bytes per row of the fill staging buffer: the tight row size `4 * width`
/// rounded up to the 256-byte alignment buffer-to-texture copies require.
pub fn fill_buffer_row_bytes(width: u32) -> (r: u32)
    requires
        width <= crate::fill::FILL_DIM_MAX,
    ensures
        r == ((4 * width + 255) as int / 256) * 256,
        r >= 4 * width,
        r % 256 == 0,
        r <= crate::fill::FILL_STRIDE_MAX,
{
    let row = 4 * width;
    let r = (row / 256 + if row % 256 == 0 {
        0
    } else {
        1
    }) * 256;
    r
}

/// The texture formats the selection ranks; everything else ties at the
/// bottom.
#[derive(Clone, Copy, PartialEq, Eq, Structural, Debug)]
pub enum TextureFormatKind {
    Rgba8Unorm,
    Bgra8Unorm,
    Other,
}

/// Preference rank of a texture format.
pub open spec fn format_rank(f: TextureFormatKind) -> int {
    match f {
        TextureFormatKind::Rgba8Unorm => 2,
        TextureFormatKind::Bgra8Unorm => 1,
        TextureFormatKind::Other => 0,
    }
}

fn format_rank_exec(f: TextureFormatKind) -> (r: u32)
    ensures
        r == format_rank(f),
{
    match f {
        TextureFormatKind::Rgba8Unorm => 2,
        TextureFormatKind::Bgra8Unorm => 1,
        TextureFormatKind::Other => 0,
    }
}

/// Picks the index of the preferred format among the capable candidates:
/// the last entry of maximal rank, as a maximum scan keeps ties on the
/// later element. An empty candidate list is the format-not-found failure.
pub fn choose_texture_format(cands: &Vec<TextureFormatKind>) -> (r: Result<usize, Error>)
    ensures
        r is Ok <==> cands@.len() > 0,
        cands@.len() == 0 ==> r == Err::<usize, Error>(Error::TextureFormatNotFound),
        r matches Ok(i) ==> i < cands@.len() && (forall|j: int|
            0 <= j < cands@.len() ==> format_rank(#[trigger] cands@[j]) <= format_rank(
                cands@[i as int],
            )) && (forall|j: int|
            i < j < cands@.len() ==> format_rank(#[trigger] cands@[j]) < format_rank(
                cands@[i as int],
            )),
{
    if cands.len() == 0 {
        return Err(Error::TextureFormatNotFound);
    }
    let mut best: usize = 0;
    let mut k: usize = 1;
    while k < cands.len()
        invariant
            0 < cands@.len(),
            0 <= best < k <= cands@.len(),
            forall|j: int|
                0 <= j < k ==> format_rank(#[trigger] cands@[j]) <= format_rank(
                    cands@[best as int],
                ),
            forall|j: int|
                best < j < k ==> format_rank(#[trigger] cands@[j]) < format_rank(
                    cands@[best as int],
                ),
        decreases cands@.len() - k,
    {
        if format_rank_exec(cands[k]) >= format_rank_exec(cands[best]) {
            best = k;
        }
        k = k + 1;
    }
    Ok(best)
}

/// The present modes the selection ranks; everything else ties at the
/// bottom.
#[derive(Clone, Copy, PartialEq, Eq, Structural, Debug)]
pub enum PresentModeKind {
    Mailbox,
    Fifo,
    FifoRelaxed,
    Immediate,
    Other,
}

/// Preference rank of a present mode.
pub open spec fn present_mode_rank(m: PresentModeKind) -> int {
    match m {
        PresentModeKind::Mailbox => 4,
        PresentModeKind::Fifo => 3,
        PresentModeKind::FifoRelaxed => 2,
        PresentModeKind::Immediate => 1,
        PresentModeKind::Other => 0,
    }
}

fn present_mode_rank_exec(m: PresentModeKind) -> (r: u32)
    ensures
        r == present_mode_rank(m),
{
    match m {
        PresentModeKind::Mailbox => 4,
        PresentModeKind::Fifo => 3,
        PresentModeKind::FifoRelaxed => 2,
        PresentModeKind::Immediate => 1,
        PresentModeKind::Other => 0,
    }
}

/// Picks the index of the preferred present mode: the last entry of maximal
/// rank. An empty candidate list is the present-mode-not-found failure.
pub fn choose_present_mode(cands: &Vec<PresentModeKind>) -> (r: Result<usize, Error>)
    ensures
        r is Ok <==> cands@.len() > 0,
        cands@.len() == 0 ==> r == Err::<usize, Error>(Error::PresentModeNotFound),
        r matches Ok(i) ==> i < cands@.len() && (forall|j: int|
            0 <= j < cands@.len() ==> present_mode_rank(#[trigger] cands@[j])
                <= present_mode_rank(cands@[i as int])) && (forall|j: int|
            i < j < cands@.len() ==> present_mode_rank(#[trigger] cands@[j])
                < present_mode_rank(cands@[i as int])),
{
    if cands.len() == 0 {
        return Err(Error::PresentModeNotFound);
    }
    let mut best: usize = 0;
    let mut k: usize = 1;
    while k < cands.len()
        invariant
            0 < cands@.len(),
            0 <= best < k <= cands@.len(),
            forall|j: int|
                0 <= j < k ==> present_mode_rank(#[trigger] cands@[j]) <= present_mode_rank(
                    cands@[best as int],
                ),
            forall|j: int|
                best < j < k ==> present_mode_rank(#[trigger] cands@[j]) < present_mode_rank(
                    cands@[best as int],
                ),
        decreases cands@.len() - k,
    {
        if present_mode_rank_exec(cands[k]) >= present_mode_rank_exec(cands[best]) {
            best = k;
        }
        k = k + 1;
    }
    Ok(best)
}

/// What to do after one attempt to acquire a presentation frame.
#[derive(Clone, Copy, PartialEq, Eq, Structural, Debug)]
pub enum AcquireStep {
    /// The frame was acquired: render into it.
    Proceed,
    /// A first, transient failure: reconfigure the surface and retry once.
    ReconfigureAndRetry,
    /// A second consecutive failure: fatal, surfaced to the caller.
    Fail,
}

/// The frame-acquisition retry policy: a first failure is recovered by one
/// reconfigure-and-retry; a second consecutive failure is fatal.
pub fn acquire_step(succeeded: bool, prior_failures: u32) -> (r: AcquireStep)
    ensures
        succeeded ==> r == AcquireStep::Proceed,
        !succeeded && prior_failures == 0 ==> r == AcquireStep::ReconfigureAndRetry,
        !succeeded && prior_failures > 0 ==> r == AcquireStep::Fail,
{
    if succeeded {
        AcquireStep::Proceed
    } else if prior_failures == 0 {
        AcquireStep::ReconfigureAndRetry
    } else {
        AcquireStep::Fail
    }
}

} // verus!
