//! Flood fill over a CPU-mapped copy of canvas pixel memory.
//!
//! The buffer is a row-major RGBA image whose row stride may exceed
//! `4 * width` (alignment padding). Filling reads the four bytes at the
//! start pixel as the target color and repaints, with the new color, exactly
//! the pixels that match the target byte-for-byte and are 4-connected to the
//! start; every other byte of the buffer is left untouched.

use vstd::prelude::*;

use vstd::arithmetic::div_mod::{lemma_fundamental_div_mod, lemma_fundamental_div_mod_converse};
use vstd::set_lib::{lemma_int_range, lemma_len_subset, set_int_range};
use std::collections::VecDeque;

use crate::transform::lemma_mul_bounds;

verus! {

/// Largest accepted image dimension.
pub const FILL_DIM_MAX: u32 = 0x4000;

/// Largest accepted row stride in bytes.
pub const FILL_STRIDE_MAX: u32 = 0x1_0000;

/// (x, y) is a pixel of a width-by-height image.
pub open spec fn in_grid(w: int, h: int, x: int, y: int) -> bool {
    0 <= x < w && 0 <= y < h
}

/// Index of the first byte of pixel (x, y) under row stride `s`.
pub open spec fn pix_idx(s: int, x: int, y: int) -> int {
    y * s + 4 * x
}

/// The four bytes of pixel (x, y).
pub open spec fn pixel_color(b: Seq<u8>, s: int, x: int, y: int) -> Seq<u8> {
    b.subrange(pix_idx(s, x, y), pix_idx(s, x, y) + 4)
}

/// The two pixels share an edge (4-connectivity; not diagonal).
pub open spec fn adjacent(x1: int, y1: int, x2: int, y2: int) -> bool {
    (x1 == x2 && (y2 == y1 + 1 || y2 == y1 - 1)) || (y1 == y2 && (x2 == x1 + 1 || x2 == x1
        - 1))
}

/// Cell number of pixel (x, y) in row-major order.
pub open spec fn cell(w: int, x: int, y: int) -> int {
    y * w + x
}

/// The pixel column owning byte `i`.
pub open spec fn owner_x(s: int, i: int) -> int {
    (i % s) / 4
}

/// The pixel row owning byte `i`.
pub open spec fn owner_y(s: int, i: int) -> int {
    i / s
}

/// Which of its pixel's four bytes byte `i` is.
pub open spec fn owner_k(s: int, i: int) -> int {
    (i % s) % 4
}

/// A nonempty run of in-bounds, target-colored, consecutively 4-connected
/// pixels.
pub open spec fn is_fill_path(
    b: Seq<u8>,
    w: int,
    h: int,
    s: int,
    target: Seq<u8>,
    path: Seq<(int, int)>,
) -> bool {
    &&& path.len() >= 1
    &&& (forall|i: int|
        0 <= i < path.len() ==> in_grid(w, h, (#[trigger] path[i]).0, path[i].1))
    &&& (forall|i: int|
        0 <= i < path.len() ==> pixel_color(b, s, (#[trigger] path[i]).0, path[i].1)
            == target)
    &&& (forall|i: int|
        1 <= i < path.len() ==> adjacent(
            path[i - 1].0,
            path[i - 1].1,
            (#[trigger] path[i]).0,
            path[i].1,
        ))
}

/// Pixel (x, y) matches the start pixel's color and is 4-connected to the
/// start through pixels of that color.
pub open spec fn reaches(
    b: Seq<u8>,
    w: int,
    h: int,
    s: int,
    sx: int,
    sy: int,
    x: int,
    y: int,
) -> bool {
    exists|path: Seq<(int, int)>|
        {
            &&& #[trigger] is_fill_path(b, w, h, s, pixel_color(b, s, sx, sy), path)
            &&& path.first() == (sx, sy)
            &&& path.last() == (x, y)
        }
}

/// What byte `i` of the buffer holds after a successful fill: the matching
/// byte of the new color on every pixel of the start's connected component,
/// and the original byte everywhere else.
pub open spec fn fill_result_byte(
    b0: Seq<u8>,
    w: int,
    h: int,
    s: int,
    sx: int,
    sy: int,
    nc: Seq<u8>,
    i: int,
) -> u8 {
    if in_grid(w, h, owner_x(s, i), owner_y(s, i)) && reaches(
        b0,
        w,
        h,
        s,
        sx,
        sy,
        owner_x(s, i),
        owner_y(s, i),
    ) {
        nc[owner_k(s, i)]
    } else {
        b0[i]
    }
}

/// The start pixel reaches itself.
pub proof fn lemma_reaches_refl(b: Seq<u8>, w: int, h: int, s: int, sx: int, sy: int)
    requires
        in_grid(w, h, sx, sy),
    ensures
        reaches(b, w, h, s, sx, sy, sx, sy),
{
    let path: Seq<(int, int)> = seq![(sx, sy)];
    assert(is_fill_path(b, w, h, s, pixel_color(b, s, sx, sy), path));
    assert(path.first() == (sx, sy));
    assert(path.last() == (sx, sy));
}

/// Reachability extends across one edge into a target-colored pixel.
pub proof fn lemma_reaches_step(
    b: Seq<u8>,
    w: int,
    h: int,
    s: int,
    sx: int,
    sy: int,
    x: int,
    y: int,
    nx: int,
    ny: int,
)
    requires
        reaches(b, w, h, s, sx, sy, x, y),
        in_grid(w, h, nx, ny),
        pixel_color(b, s, nx, ny) == pixel_color(b, s, sx, sy),
        adjacent(x, y, nx, ny),
    ensures
        reaches(b, w, h, s, sx, sy, nx, ny),
{
    let target = pixel_color(b, s, sx, sy);
    let path = choose|path: Seq<(int, int)>|
        {
            &&& is_fill_path(b, w, h, s, target, path)
            &&& path.first() == (sx, sy)
            &&& path.last() == (x, y)
        };
    let path2 = path.push((nx, ny));
    assert forall|i: int| 0 <= i < path2.len() implies in_grid(
        w,
        h,
        (#[trigger] path2[i]).0,
        path2[i].1,
    ) by {
        if i < path.len() {
            assert(path2[i] == path[i]);
        }
    }
    assert forall|i: int| 0 <= i < path2.len() implies pixel_color(
        b,
        s,
        (#[trigger] path2[i]).0,
        path2[i].1,
    ) == target by {
        if i < path.len() {
            assert(path2[i] == path[i]);
        }
    }
    assert forall|i: int| 1 <= i < path2.len() implies adjacent(
        path2[i - 1].0,
        path2[i - 1].1,
        (#[trigger] path2[i]).0,
        path2[i].1,
    ) by {
        if i < path.len() {
            assert(path2[i] == path[i]);
            assert(path2[i - 1] == path[i - 1]);
        } else {
            assert(path2[i - 1] == path.last());
        }
    }
    assert(is_fill_path(b, w, h, s, target, path2));
    assert(path2.first() == (sx, sy));
    assert(path2.last() == (nx, ny));
}

/// Distinct in-bounds pixels have distinct cell numbers.
proof fn lemma_cell_unique(w: int, h: int, x1: int, y1: int, x2: int, y2: int)
    requires
        w > 0,
        in_grid(w, h, x1, y1),
        in_grid(w, h, x2, y2),
        cell(w, x1, y1) == cell(w, x2, y2),
    ensures
        x1 == x2 && y1 == y2,
{
    lemma_fundamental_div_mod_converse(cell(w, x1, y1), w, y1, x1);
    lemma_fundamental_div_mod_converse(cell(w, x2, y2), w, y2, x2);
}

/// Cell numbers of in-bounds pixels lie below `w * h`.
proof fn lemma_cell_bound(w: int, h: int, x: int, y: int)
    requires
        in_grid(w, h, x, y),
    ensures
        0 <= cell(w, x, y) < w * h,
    decreases h,
{
    assert(0 <= y * w + x < w * h) by (nonlinear_arith)
        requires
            0 <= x < w,
            0 <= y < h,
    ;
}

/// Byte `pix_idx(s,x,y) + k` of an in-bounds pixel decodes back to
/// (x, y, k).
proof fn lemma_owner(s: int, w: int, h: int, x: int, y: int, k: int)
    requires
        s >= 4 * w,
        w > 0,
        in_grid(w, h, x, y),
        0 <= k < 4,
    ensures
        owner_x(s, pix_idx(s, x, y) + k) == x,
        owner_y(s, pix_idx(s, x, y) + k) == y,
        owner_k(s, pix_idx(s, x, y) + k) == k,
{
    let i = pix_idx(s, x, y) + k;
    assert(i == y * s + (4 * x + k));
    lemma_fundamental_div_mod_converse(i, s, y, 4 * x + k);
    lemma_fundamental_div_mod_converse(4 * x + k, 4, x, k);
}

/// Every byte index decomposes as its owner's pixel index plus its offset.
proof fn lemma_owner_inverse(s: int, i: int)
    requires
        s > 0,
        i >= 0,
    ensures
        i == owner_y(s, i) * s + 4 * owner_x(s, i) + owner_k(s, i),
        0 <= owner_k(s, i) < 4,
        0 <= owner_x(s, i),
        0 <= owner_y(s, i),
{
    lemma_fundamental_div_mod(i, s);
    lemma_fundamental_div_mod(i % s, 4);
    assert(i == s * (i / s) + i % s);
    assert(i % s == 4 * ((i % s) / 4) + (i % s) % 4);
    assert(owner_y(s, i) * s == s * (i / s)) by (nonlinear_arith)
        requires
            owner_y(s, i) == i / s,
    ;
}

/// A queue's view holds pixel (x, y).
pub open spec fn in_queue(q: Seq<(i64, i64)>, x: int, y: int) -> bool {
    exists|j: int| 0 <= j < q.len() && (#[trigger] q[j]).0 == x && q[j].1 == y
}

proof fn lemma_in_queue_after_pop(q1: Seq<(i64, i64)>, q2: Seq<(i64, i64)>, x: int, y: int)
    requires
        q1.len() > 0,
        q2 == q1.subrange(1, q1.len() as int),
        in_queue(q1, x, y),
        !(q1[0].0 == x && q1[0].1 == y),
    ensures
        in_queue(q2, x, y),
{
    let j = choose|j: int| 0 <= j < q1.len() && (#[trigger] q1[j]).0 == x && q1[j].1 == y;
    assert(q2[j - 1] == q1[j]);
}

proof fn lemma_in_queue_after_push(q1: Seq<(i64, i64)>, q2: Seq<(i64, i64)>, x: int, y: int)
    requires
        in_queue(q1, x, y),
        q2.len() >= q1.len(),
        forall|j: int| 0 <= j < q1.len() ==> #[trigger] q2[j] == q1[j],
    ensures
        in_queue(q2, x, y),
{
    let j = choose|j: int| 0 <= j < q1.len() && (#[trigger] q1[j]).0 == x && q1[j].1 == y;
    assert(q2[j] == q1[j]);
}

/// Once the painted set contains the start and is closed under stepping to
/// adjacent target-colored pixels, it contains every endpoint of every fill
/// path — so the whole 4-connected component.
proof fn lemma_reach_closed(
    b: Seq<u8>,
    w: int,
    h: int,
    s: int,
    sx: int,
    sy: int,
    painted: Set<int>,
    path: Seq<(int, int)>,
)
    requires
        w > 0,
        painted.contains(cell(w, sx, sy)),
        forall|ax: int, ay: int, bx: int, by: int|
            in_grid(w, h, ax, ay) && painted.contains(cell(w, ax, ay)) && #[trigger] adjacent(
                ax,
                ay,
                bx,
                by,
            ) && in_grid(w, h, bx, by) && pixel_color(b, s, bx, by) == pixel_color(
                b,
                s,
                sx,
                sy,
            ) ==> painted.contains(cell(w, bx, by)),
        is_fill_path(b, w, h, s, pixel_color(b, s, sx, sy), path),
        path.first() == (sx, sy),
    ensures
        painted.contains(cell(w, path.last().0, path.last().1)),
    decreases path.len(),
{
    if path.len() == 1 {
        assert(path.last() == (sx, sy));
    } else {
        let prefix = path.drop_last();
        assert(is_fill_path(b, w, h, s, pixel_color(b, s, sx, sy), prefix)) by {
            assert forall|i: int| 0 <= i < prefix.len() implies in_grid(
                w,
                h,
                (#[trigger] prefix[i]).0,
                prefix[i].1,
            ) by {
                assert(prefix[i] == path[i]);
            }
            assert forall|i: int| 0 <= i < prefix.len() implies pixel_color(
                b,
                s,
                (#[trigger] prefix[i]).0,
                prefix[i].1,
            ) == pixel_color(b, s, sx, sy) by {
                assert(prefix[i] == path[i]);
            }
            assert forall|i: int| 1 <= i < prefix.len() implies adjacent(
                prefix[i - 1].0,
                prefix[i - 1].1,
                (#[trigger] prefix[i]).0,
                prefix[i].1,
            ) by {
                assert(prefix[i] == path[i]);
                assert(prefix[i - 1] == path[i - 1]);
            }
        }
        lemma_reach_closed(b, w, h, s, sx, sy, painted, prefix);
        let n = path.len() - 1;
        let p = path[n - 1];
        let q = path[n];
        assert(prefix.last() == p);
        assert(adjacent(p.0, p.1, q.0, q.1));
        assert(in_grid(w, h, p.0, p.1));
        assert(in_grid(w, h, q.0, q.1));
        assert(pixel_color(b, s, q.0, q.1) == pixel_color(b, s, sx, sy));
        assert(painted.contains(cell(w, q.0, q.1)));
    }
}

/// On a uniformly colored image, every in-bounds pixel is reachable from
/// every in-bounds start: filling such an image repaints all of it.
pub proof fn lemma_uniform_reaches(
    b: Seq<u8>,
    w: int,
    h: int,
    s: int,
    sx: int,
    sy: int,
    x: int,
    y: int,
)
    requires
        in_grid(w, h, sx, sy),
        in_grid(w, h, x, y),
        forall|ax: int, ay: int|
            in_grid(w, h, ax, ay) ==> #[trigger] pixel_color(b, s, ax, ay) == pixel_color(
                b,
                s,
                sx,
                sy,
            ),
    ensures
        reaches(b, w, h, s, sx, sy, x, y),
    decreases
            if x >= sx {
                x - sx
            } else {
                sx - x
            },
            if y >= sy {
                y - sy
            } else {
                sy - y
            },
{
    if x == sx && y == sy {
        lemma_reaches_refl(b, w, h, s, sx, sy);
    } else if x > sx {
        lemma_uniform_reaches(b, w, h, s, sx, sy, x - 1, y);
        lemma_reaches_step(b, w, h, s, sx, sy, x - 1, y, x, y);
    } else if x < sx {
        lemma_uniform_reaches(b, w, h, s, sx, sy, x + 1, y);
        lemma_reaches_step(b, w, h, s, sx, sy, x + 1, y, x, y);
    } else if y > sy {
        lemma_uniform_reaches(b, w, h, s, sx, sy, x, y - 1);
        lemma_reaches_step(b, w, h, s, sx, sy, x, y - 1, x, y);
    } else {
        lemma_uniform_reaches(b, w, h, s, sx, sy, x, y + 1);
        lemma_reaches_step(b, w, h, s, sx, sy, x, y + 1, x, y);
    }
}

/// Totality on a uniform image: every byte of every pixel of a uniformly
/// colored image ends as the new color, whatever in-bounds start was used.
pub proof fn lemma_fill_uniform_total(
    b0: Seq<u8>,
    w: int,
    h: int,
    s: int,
    sx: int,
    sy: int,
    nc: Seq<u8>,
    x: int,
    y: int,
    k: int,
)
    requires
        w > 0,
        4 * w <= s,
        in_grid(w, h, sx, sy),
        in_grid(w, h, x, y),
        0 <= k < 4,
        forall|ax: int, ay: int|
            in_grid(w, h, ax, ay) ==> #[trigger] pixel_color(b0, s, ax, ay) == pixel_color(
                b0,
                s,
                sx,
                sy,
            ),
    ensures
        fill_result_byte(b0, w, h, s, sx, sy, nc, pix_idx(s, x, y) + k) == nc[k],
{
    lemma_uniform_reaches(b0, w, h, s, sx, sy, x, y);
    lemma_owner(s, w, h, x, y, k);
}

/// Locality: a byte whose pixel is not part of the start's component is
/// returned unchanged by the fill.
pub proof fn lemma_fill_local(
    b0: Seq<u8>,
    w: int,
    h: int,
    s: int,
    sx: int,
    sy: int,
    nc: Seq<u8>,
    i: int,
)
    requires
        !reaches(b0, w, h, s, sx, sy, owner_x(s, i), owner_y(s, i)),
    ensures
        fill_result_byte(b0, w, h, s, sx, sy, nc, i) == b0[i],
{
}


/// The buffer reflects the painted set: painted pixels show the new color,
/// every other byte its original value.
#[verifier::opaque]
pub open spec fn buffer_shows(
    b0: Seq<u8>,
    b: Seq<u8>,
    w: int,
    h: int,
    s: int,
    nc: Seq<u8>,
    painted: Set<int>,
) -> bool {
    &&& b.len() == b0.len()
    &&& forall|i: int|
        0 <= i < b.len() ==> #[trigger] b[i] == (if in_grid(w, h, owner_x(s, i), owner_y(s, i))
            && painted.contains(cell(w, owner_x(s, i), owner_y(s, i))) {
            nc[owner_k(s, i)]
        } else {
            b0[i]
        })
}

/// Every queue entry is the start pixel or borders a painted pixel, with
/// coordinates at most one step outside the grid.
#[verifier::opaque]
pub open spec fn queue_sound(
    q: Seq<(i64, i64)>,
    w: int,
    h: int,
    sx: int,
    sy: int,
    painted: Set<int>,
) -> bool {
    &&& forall|j: int|
        0 <= j < q.len() ==> -1 <= (#[trigger] q[j]).0 as int <= w && -1 <= q[j].1 as int <= h
    &&& forall|j: int|
        0 <= j < q.len() ==> (((#[trigger] q[j]).0 as int == sx && q[j].1 as int == sy)
            || exists|ax: int, ay: int|
            in_grid(w, h, ax, ay) && #[trigger] painted.contains(cell(w, ax, ay)) && adjacent(
                ax,
                ay,
                q[j].0 as int,
                q[j].1 as int,
            ))
}

/// Every unpainted target pixel that borders a painted pixel is queued.
#[verifier::opaque]
pub open spec fn frontier_queued(
    b0: Seq<u8>,
    q: Seq<(i64, i64)>,
    w: int,
    h: int,
    s: int,
    target: Seq<u8>,
    painted: Set<int>,
) -> bool {
    forall|ax: int, ay: int, bx: int, by: int|
        in_grid(w, h, ax, ay) && painted.contains(cell(w, ax, ay)) && #[trigger] adjacent(
            ax,
            ay,
            bx,
            by,
        ) && in_grid(w, h, bx, by) && pixel_color(b0, s, bx, by) == target
            && !painted.contains(cell(w, bx, by)) ==> in_queue(q, bx, by)
}

/// Every painted pixel is reachable from the start.
#[verifier::opaque]
pub open spec fn painted_sound(
    b0: Seq<u8>,
    w: int,
    h: int,
    s: int,
    sx: int,
    sy: int,
    painted: Set<int>,
) -> bool {
    forall|ax: int, ay: int|
        in_grid(w, h, ax, ay) && #[trigger] painted.contains(cell(w, ax, ay)) ==> reaches(
            b0,
            w,
            h,
            s,
            sx,
            sy,
            ax,
            ay,
        )
}

/// The initial state of the fill: nothing painted, the start queued.
proof fn lemma_init(
    b0: Seq<u8>,
    w: int,
    h: int,
    s: int,
    sx: int,
    sy: int,
    nc: Seq<u8>,
    q: Seq<(i64, i64)>,
)
    requires
        in_grid(w, h, sx, sy),
        q.len() == 1,
        q[0].0 as int == sx,
        q[0].1 as int == sy,
    ensures
        buffer_shows(b0, b0, w, h, s, nc, Set::empty()),
        queue_sound(q, w, h, sx, sy, Set::<int>::empty()),
        frontier_queued(b0, q, w, h, s, pixel_color(b0, s, sx, sy), Set::empty()),
        painted_sound(b0, w, h, s, sx, sy, Set::empty()),
{
    reveal(buffer_shows);
    reveal(queue_sound);
    reveal(frontier_queued);
    reveal(painted_sound);
}

/// What the four bytes of an in-bounds pixel hold, depending on whether it
/// has been painted.
proof fn lemma_read_pixel(
    b0: Seq<u8>,
    buf: Seq<u8>,
    w: int,
    h: int,
    s: int,
    nc: Seq<u8>,
    painted: Set<int>,
    ox: int,
    oy: int,
)
    requires
        w > 0,
        4 * w <= s,
        b0.len() >= s * h,
        in_grid(w, h, ox, oy),
        buffer_shows(b0, buf, w, h, s, nc, painted),
    ensures
        buf.len() == b0.len(),
        pix_idx(s, ox, oy) + 4 <= s * h,
        painted.contains(cell(w, ox, oy)) ==> buf[pix_idx(s, ox, oy)] == nc[0]
            && buf[pix_idx(s, ox, oy) + 1] == nc[1] && buf[pix_idx(s, ox, oy) + 2] == nc[2]
            && buf[pix_idx(s, ox, oy) + 3] == nc[3],
        !painted.contains(cell(w, ox, oy)) ==> buf[pix_idx(s, ox, oy)] == b0[pix_idx(
            s,
            ox,
            oy,
        )] && buf[pix_idx(s, ox, oy) + 1] == b0[pix_idx(s, ox, oy) + 1] && buf[pix_idx(
            s,
            ox,
            oy,
        ) + 2] == b0[pix_idx(s, ox, oy) + 2] && buf[pix_idx(s, ox, oy) + 3] == b0[pix_idx(
            s,
            ox,
            oy,
        ) + 3],
{
    reveal(buffer_shows);
    assert(pix_idx(s, ox, oy) + 4 <= s * h) by (nonlinear_arith)
        requires
            0 <= oy < h,
            0 <= ox < w,
            4 * w <= s,
            0 <= s,
    ;
    lemma_owner(s, w, h, ox, oy, 0);
    lemma_owner(s, w, h, ox, oy, 1);
    lemma_owner(s, w, h, ox, oy, 2);
    lemma_owner(s, w, h, ox, oy, 3);

}

/// After painting one pixel, the buffer reflects the grown painted set.
#[verifier::rlimit(60)]
proof fn lemma_paint_buffer(
    b0: Seq<u8>,
    w: int,
    h: int,
    s: int,
    nc: Seq<u8>,
    buf_before: Seq<u8>,
    buf_after: Seq<u8>,
    painted: Set<int>,
    painted2: Set<int>,
    ox: int,
    oy: int,
)
    requires
        w > 0,
        4 * w <= s,
        b0.len() >= s * h,
        in_grid(w, h, ox, oy),
        nc.len() == 4,
        buffer_shows(b0, buf_before, w, h, s, nc, painted),
        buf_after == buf_before.update(pix_idx(s, ox, oy), nc[0]).update(
            pix_idx(s, ox, oy) + 1,
            nc[1],
        ).update(pix_idx(s, ox, oy) + 2, nc[2]).update(pix_idx(s, ox, oy) + 3, nc[3]),
        painted2 == painted.insert(cell(w, ox, oy)),
    ensures
        buffer_shows(b0, buf_after, w, h, s, nc, painted2),
{
    reveal(buffer_shows);
    let base = pix_idx(s, ox, oy);
    assert(base + 4 <= s * h) by (nonlinear_arith)
        requires
            0 <= oy < h,
            0 <= ox < w,
            4 * w <= s,
            0 <= s,
            base == oy * s + 4 * ox,
    ;
    lemma_owner(s, w, h, ox, oy, 0);
    lemma_owner(s, w, h, ox, oy, 1);
    lemma_owner(s, w, h, ox, oy, 2);
    lemma_owner(s, w, h, ox, oy, 3);
    assert forall|i: int| 0 <= i < buf_after.len() implies #[trigger] buf_after[i] == (
    if in_grid(w, h, owner_x(s, i), owner_y(s, i)) && painted2.contains(
        cell(w, owner_x(s, i), owner_y(s, i)),
    ) {
        nc[owner_k(s, i)]
    } else {
        b0[i]
    }) by {
        lemma_owner_inverse(s, i);
        let oxi = owner_x(s, i);
        let oyi = owner_y(s, i);
        let oki = owner_k(s, i);
        if in_grid(w, h, oxi, oyi) && cell(w, oxi, oyi) == cell(w, ox, oy) {
            lemma_cell_unique(w, h, oxi, oyi, ox, oy);
            assert(i == base + oki);
        } else {
            assert(i != base && i != base + 1 && i != base + 2 && i != base + 3) by {
                if i == base || i == base + 1 || i == base + 2 || i == base + 3 {
                    assert(oxi == ox && oyi == oy);
                }
            }
            assert(buf_after[i] == buf_before[i]);
        }
    }
}

/// After painting, queue entries still name the start or a painted pixel's
/// neighbor.
#[verifier::rlimit(60)]
proof fn lemma_paint_queue(
    w: int,
    h: int,
    sx: int,
    sy: int,
    painted: Set<int>,
    painted2: Set<int>,
    q_before: Seq<(i64, i64)>,
    q_mid: Seq<(i64, i64)>,
    q_after: Seq<(i64, i64)>,
    ox: int,
    oy: int,
)
    requires
        in_grid(w, h, ox, oy),
        queue_sound(q_before, w, h, sx, sy, painted),
        q_before.len() > 0,
        q_mid == q_before.subrange(1, q_before.len() as int),
        q_after.len() == q_mid.len() + 4,
        forall|j: int| 0 <= j < q_mid.len() ==> #[trigger] q_after[j] == q_mid[j],
        q_after[q_mid.len() as int].0 as int == ox - 1,
        q_after[q_mid.len() as int].1 as int == oy,
        q_after[q_mid.len() as int + 1].0 as int == ox + 1,
        q_after[q_mid.len() as int + 1].1 as int == oy,
        q_after[q_mid.len() as int + 2].0 as int == ox,
        q_after[q_mid.len() as int + 2].1 as int == oy - 1,
        q_after[q_mid.len() as int + 3].0 as int == ox,
        q_after[q_mid.len() as int + 3].1 as int == oy + 1,
        painted2 == painted.insert(cell(w, ox, oy)),
    ensures
        queue_sound(q_after, w, h, sx, sy, painted2),
{
    reveal(queue_sound);
    assert forall|j: int| 0 <= j < q_after.len() implies -1 <= (#[trigger] q_after[j]).0 as int
        <= w && -1 <= q_after[j].1 as int <= h by {
        if j < q_mid.len() {
            assert(q_after[j] == q_before[j + 1]);
        }
    }
    assert forall|j: int| 0 <= j < q_after.len() implies (((#[trigger] q_after[j]).0 as int
        == sx && q_after[j].1 as int == sy) || exists|ax: int, ay: int|
        in_grid(w, h, ax, ay) && #[trigger] painted2.contains(cell(w, ax, ay)) && adjacent(
            ax,
            ay,
            q_after[j].0 as int,
            q_after[j].1 as int,
        )) by {
        if j < q_mid.len() {
            assert(q_after[j] == q_before[j + 1]);
            if !(q_before[j + 1].0 as int == sx && q_before[j + 1].1 as int == sy) {
                let (ax, ay) = choose|ax: int, ay: int|
                    in_grid(w, h, ax, ay) && #[trigger] painted.contains(cell(w, ax, ay))
                        && adjacent(ax, ay, q_before[j + 1].0 as int, q_before[j + 1].1 as int);
                assert(painted2.contains(cell(w, ax, ay)));
            }
        } else {
            assert(in_grid(w, h, ox, oy) && painted2.contains(cell(w, ox, oy)) && adjacent(
                ox,
                oy,
                q_after[j].0 as int,
                q_after[j].1 as int,
            ));
        }
    }
}

/// After painting, the frontier of the grown painted set is queued.
#[verifier::rlimit(60)]
proof fn lemma_paint_frontier(
    b0: Seq<u8>,
    w: int,
    h: int,
    s: int,
    target: Seq<u8>,
    painted: Set<int>,
    painted2: Set<int>,
    q_before: Seq<(i64, i64)>,
    q_mid: Seq<(i64, i64)>,
    q_after: Seq<(i64, i64)>,
    ox: int,
    oy: int,
)
    requires
        w > 0,
        in_grid(w, h, ox, oy),
        frontier_queued(b0, q_before, w, h, s, target, painted),
        q_before.len() > 0,
        q_before[0].0 as int == ox,
        q_before[0].1 as int == oy,
        q_mid == q_before.subrange(1, q_before.len() as int),
        q_after.len() == q_mid.len() + 4,
        forall|j: int| 0 <= j < q_mid.len() ==> #[trigger] q_after[j] == q_mid[j],
        q_after[q_mid.len() as int].0 as int == ox - 1,
        q_after[q_mid.len() as int].1 as int == oy,
        q_after[q_mid.len() as int + 1].0 as int == ox + 1,
        q_after[q_mid.len() as int + 1].1 as int == oy,
        q_after[q_mid.len() as int + 2].0 as int == ox,
        q_after[q_mid.len() as int + 2].1 as int == oy - 1,
        q_after[q_mid.len() as int + 3].0 as int == ox,
        q_after[q_mid.len() as int + 3].1 as int == oy + 1,
        painted2 == painted.insert(cell(w, ox, oy)),
    ensures
        frontier_queued(b0, q_after, w, h, s, target, painted2),
{
    reveal(frontier_queued);
    assert forall|ax: int, ay: int, bx: int, by: int|
        in_grid(w, h, ax, ay) && painted2.contains(cell(w, ax, ay)) && #[trigger] adjacent(
            ax,
            ay,
            bx,
            by,
        ) && in_grid(w, h, bx, by) && pixel_color(b0, s, bx, by) == target
            && !painted2.contains(cell(w, bx, by)) implies in_queue(q_after, bx, by) by {
        let n0 = q_mid.len() as int;
        if cell(w, ax, ay) == cell(w, ox, oy) {
            lemma_cell_unique(w, h, ax, ay, ox, oy);
            if bx == ox - 1 && by == oy {
                assert(q_after[n0].0 as int == bx && q_after[n0].1 as int == by);
            } else if bx == ox + 1 && by == oy {
                assert(q_after[n0 + 1].0 as int == bx && q_after[n0 + 1].1 as int == by);
            } else if bx == ox && by == oy - 1 {
                assert(q_after[n0 + 2].0 as int == bx && q_after[n0 + 2].1 as int == by);
            } else {
                assert(bx == ox && by == oy + 1);
                assert(q_after[n0 + 3].0 as int == bx && q_after[n0 + 3].1 as int == by);
            }
        } else {
            assert(painted.contains(cell(w, ax, ay)));
            if cell(w, bx, by) == cell(w, ox, oy) {
                lemma_cell_unique(w, h, bx, by, ox, oy);
                assert(false);
            }
            assert(in_queue(q_before, bx, by));
            if q_before[0].0 as int == bx && q_before[0].1 as int == by {
                assert(false);
            }
            lemma_in_queue_after_pop(q_before, q_mid, bx, by);
            lemma_in_queue_after_push(q_mid, q_after, bx, by);
        }
    }
}

/// Painting one popped, unpainted target pixel and enqueueing its four
/// neighbors keeps every loop invariant of the fill.
#[verifier::rlimit(60)]
proof fn lemma_paint_step(
    b0: Seq<u8>,
    w: int,
    h: int,
    s: int,
    sx: int,
    sy: int,
    target: Seq<u8>,
    nc: Seq<u8>,
    buf_before: Seq<u8>,
    buf_after: Seq<u8>,
    painted: Set<int>,
    painted2: Set<int>,
    q_before: Seq<(i64, i64)>,
    q_mid: Seq<(i64, i64)>,
    q_after: Seq<(i64, i64)>,
    ox: int,
    oy: int,
)
    requires
        w > 0,
        h > 0,
        4 * w <= s,
        in_grid(w, h, sx, sy),
        in_grid(w, h, ox, oy),
        b0.len() >= s * h,
        target == pixel_color(b0, s, sx, sy),
        nc.len() == 4,
        painted.finite(),
        forall|e: int| #[trigger] painted.contains(e) ==> 0 <= e < w * h,
        buffer_shows(b0, buf_before, w, h, s, nc, painted),
        queue_sound(q_before, w, h, sx, sy, painted),
        frontier_queued(b0, q_before, w, h, s, target, painted),
        painted_sound(b0, w, h, s, sx, sy, painted),
        painted.contains(cell(w, sx, sy)) || in_queue(q_before, sx, sy),
        q_before.len() > 0,
        q_before[0].0 as int == ox,
        q_before[0].1 as int == oy,
        q_mid == q_before.subrange(1, q_before.len() as int),
        q_after.len() == q_mid.len() + 4,
        forall|j: int| 0 <= j < q_mid.len() ==> #[trigger] q_after[j] == q_mid[j],
        q_after[q_mid.len() as int].0 as int == ox - 1,
        q_after[q_mid.len() as int].1 as int == oy,
        q_after[q_mid.len() as int + 1].0 as int == ox + 1,
        q_after[q_mid.len() as int + 1].1 as int == oy,
        q_after[q_mid.len() as int + 2].0 as int == ox,
        q_after[q_mid.len() as int + 2].1 as int == oy - 1,
        q_after[q_mid.len() as int + 3].0 as int == ox,
        q_after[q_mid.len() as int + 3].1 as int == oy + 1,
        !painted.contains(cell(w, ox, oy)),
        pixel_color(b0, s, ox, oy) == target,
        buf_after == buf_before.update(pix_idx(s, ox, oy), nc[0]).update(
            pix_idx(s, ox, oy) + 1,
            nc[1],
        ).update(pix_idx(s, ox, oy) + 2, nc[2]).update(pix_idx(s, ox, oy) + 3, nc[3]),
        painted2 == painted.insert(cell(w, ox, oy)),
    ensures
        painted2.finite(),
        painted2.len() <= w * h,
        painted2.len() == painted.len() + 1,
        forall|e: int| #[trigger] painted2.contains(e) ==> 0 <= e < w * h,
        buffer_shows(b0, buf_after, w, h, s, nc, painted2),
        queue_sound(q_after, w, h, sx, sy, painted2),
        frontier_queued(b0, q_after, w, h, s, target, painted2),
        painted_sound(b0, w, h, s, sx, sy, painted2),
        painted2.contains(cell(w, sx, sy)) || in_queue(q_after, sx, sy),
        reaches(b0, w, h, s, sx, sy, ox, oy),
{
    lemma_cell_bound(w, h, ox, oy);
    lemma_int_range(0, w * h);
    lemma_len_subset(painted2, set_int_range(0, w * h));
    // the popped pixel is reachable: it is the start, or borders a painted
    // (hence reachable) pixel
    if ox == sx && oy == sy {
        lemma_reaches_refl(b0, w, h, s, sx, sy);
    } else {
        reveal(queue_sound);
        reveal(painted_sound);
        assert(!(q_before[0].0 as int == sx && q_before[0].1 as int == sy));
        let (ax, ay) = choose|ax: int, ay: int|
            in_grid(w, h, ax, ay) && #[trigger] painted.contains(cell(w, ax, ay)) && adjacent(
                ax,
                ay,
                ox,
                oy,
            );
        lemma_reaches_step(b0, w, h, s, sx, sy, ax, ay, ox, oy);
    }
    lemma_paint_buffer(b0, w, h, s, nc, buf_before, buf_after, painted, painted2, ox, oy);
    lemma_paint_queue(w, h, sx, sy, painted, painted2, q_before, q_mid, q_after, ox, oy);
    lemma_paint_frontier(
        b0,
        w,
        h,
        s,
        target,
        painted,
        painted2,
        q_before,
        q_mid,
        q_after,
        ox,
        oy,
    );
    assert(painted_sound(b0, w, h, s, sx, sy, painted2)) by {
        reveal(painted_sound);
        assert forall|ax: int, ay: int|
            in_grid(w, h, ax, ay) && #[trigger] painted2.contains(cell(w, ax, ay))
                implies reaches(b0, w, h, s, sx, sy, ax, ay) by {
            if cell(w, ax, ay) == cell(w, ox, oy) {
                lemma_cell_unique(w, h, ax, ay, ox, oy);
            } else {
                reveal(painted_sound);
                assert(painted.contains(cell(w, ax, ay)));
            }
        }
    }
    if !painted2.contains(cell(w, sx, sy)) {
        reveal(queue_sound);
        assert(in_queue(q_before, sx, sy));
        if q_before[0].0 as int == sx && q_before[0].1 as int == sy {
            assert(cell(w, ox, oy) == cell(w, sx, sy));
            assert(false);
        }
        lemma_in_queue_after_pop(q_before, q_mid, sx, sy);
        lemma_in_queue_after_push(q_mid, q_after, sx, sy);
    }
}

/// Dropping a popped entry that is out of bounds, already painted, or not
/// target-colored keeps every loop invariant of the fill.
#[verifier::rlimit(60)]
proof fn lemma_drop_step(
    b0: Seq<u8>,
    w: int,
    h: int,
    s: int,
    sx: int,
    sy: int,
    target: Seq<u8>,
    painted: Set<int>,
    q_before: Seq<(i64, i64)>,
    q_after: Seq<(i64, i64)>,
    ox: int,
    oy: int,
)
    requires
        w > 0,
        in_grid(w, h, sx, sy),
        target == pixel_color(b0, s, sx, sy),
        queue_sound(q_before, w, h, sx, sy, painted),
        frontier_queued(b0, q_before, w, h, s, target, painted),
        painted.contains(cell(w, sx, sy)) || in_queue(q_before, sx, sy),
        q_before.len() > 0,
        q_before[0].0 as int == ox,
        q_before[0].1 as int == oy,
        q_after == q_before.subrange(1, q_before.len() as int),
        !(in_grid(w, h, ox, oy) && pixel_color(b0, s, ox, oy) == target && !painted.contains(
            cell(w, ox, oy),
        )),
    ensures
        queue_sound(q_after, w, h, sx, sy, painted),
        frontier_queued(b0, q_after, w, h, s, target, painted),
        painted.contains(cell(w, sx, sy)) || in_queue(q_after, sx, sy),
{
    reveal(queue_sound);
    reveal(frontier_queued);
    assert forall|j: int| 0 <= j < q_after.len() implies -1 <= (#[trigger] q_after[j]).0 as int
        <= w && -1 <= q_after[j].1 as int <= h by {
        assert(q_after[j] == q_before[j + 1]);
    }
    assert forall|j: int| 0 <= j < q_after.len() implies (((#[trigger] q_after[j]).0 as int
        == sx && q_after[j].1 as int == sy) || exists|ax: int, ay: int|
        in_grid(w, h, ax, ay) && #[trigger] painted.contains(cell(w, ax, ay)) && adjacent(
            ax,
            ay,
            q_after[j].0 as int,
            q_after[j].1 as int,
        )) by {
        assert(q_after[j] == q_before[j + 1]);
    }
    assert forall|ax: int, ay: int, bx: int, by: int|
        in_grid(w, h, ax, ay) && painted.contains(cell(w, ax, ay)) && #[trigger] adjacent(
            ax,
            ay,
            bx,
            by,
        ) && in_grid(w, h, bx, by) && pixel_color(b0, s, bx, by) == target && !painted.contains(
            cell(w, bx, by),
        ) implies in_queue(q_after, bx, by) by {
        assert(in_queue(q_before, bx, by));
        if q_before[0].0 as int == bx && q_before[0].1 as int == by {
            assert(false);
        }
        lemma_in_queue_after_pop(q_before, q_after, bx, by);
    }
    if !painted.contains(cell(w, sx, sy)) {
        assert(in_queue(q_before, sx, sy));
        if q_before[0].0 as int == sx && q_before[0].1 as int == sy {
            assert(false);
        }
        lemma_in_queue_after_pop(q_before, q_after, sx, sy);
    }
}

/// When the queue has drained, the painted set covers the start's whole
/// component and the buffer is exactly the filled image.
#[verifier::rlimit(60)]
proof fn lemma_finish(
    b0: Seq<u8>,
    buf: Seq<u8>,
    w: int,
    h: int,
    s: int,
    sx: int,
    sy: int,
    target: Seq<u8>,
    nc: Seq<u8>,
    painted: Set<int>,
    q: Seq<(i64, i64)>,
)
    requires
        w > 0,
        s > 0,
        in_grid(w, h, sx, sy),
        target == pixel_color(b0, s, sx, sy),
        buffer_shows(b0, buf, w, h, s, nc, painted),
        frontier_queued(b0, q, w, h, s, target, painted),
        painted_sound(b0, w, h, s, sx, sy, painted),
        painted.contains(cell(w, sx, sy)),
        q.len() == 0,
    ensures
        forall|i: int|
            0 <= i < buf.len() ==> buf[i] == fill_result_byte(b0, w, h, s, sx, sy, nc, i),
{
    reveal(buffer_shows);
    reveal(frontier_queued);
    reveal(painted_sound);
    assert forall|x: int, y: int|
        in_grid(w, h, x, y) && #[trigger] reaches(b0, w, h, s, sx, sy, x, y)
            implies painted.contains(cell(w, x, y)) by {
        let path = choose|path: Seq<(int, int)>|
            {
                &&& #[trigger] is_fill_path(b0, w, h, s, pixel_color(b0, s, sx, sy), path)
                &&& path.first() == (sx, sy)
                &&& path.last() == (x, y)
            };
        assert forall|ax: int, ay: int, bx: int, by: int|
            in_grid(w, h, ax, ay) && painted.contains(cell(w, ax, ay)) && #[trigger] adjacent(
                ax,
                ay,
                bx,
                by,
            ) && in_grid(w, h, bx, by) && pixel_color(b0, s, bx, by) == pixel_color(
                b0,
                s,
                sx,
                sy,
            ) implies painted.contains(cell(w, bx, by)) by {
            if !painted.contains(cell(w, bx, by)) {
                assert(in_queue(q, bx, by));
            }
        }
        lemma_reach_closed(b0, w, h, s, sx, sy, painted, path);
    }
    assert forall|i: int| 0 <= i < buf.len() implies buf[i] == fill_result_byte(
        b0,
        w,
        h,
        s,
        sx,
        sy,
        nc,
        i,
    ) by {
        lemma_owner_inverse(s, i);
        let oxi = owner_x(s, i);
        let oyi = owner_y(s, i);
        if in_grid(w, h, oxi, oyi) {
            if painted.contains(cell(w, oxi, oyi)) {
                assert(reaches(b0, w, h, s, sx, sy, oxi, oyi));
            }
        }
    }
}

/// Breadth-first flood fill: reads the target color at the start pixel and
/// repaints the start's 4-connected component of that color with
/// `new_color`, in place.
///
/// Starting out of bounds, or at a pixel that already holds `new_color`,
/// leaves the buffer byte-for-byte unchanged. Otherwise every byte ends as
/// [`fill_result_byte`] says: the component repainted, all else kept.
#[verifier::rlimit(100)]
pub fn flood_fill(
    buffer: &mut Vec<u8>,
    width: u32,
    height: u32,
    stride: u32,
    px: u32,
    py: u32,
    new_color: [u8; 4],
)
    requires
        width <= FILL_DIM_MAX,
        height <= FILL_DIM_MAX,
        4 * width <= stride <= FILL_STRIDE_MAX,
        old(buffer).len() >= stride * height,
    ensures
        final(buffer).len() == old(buffer).len(),
        px >= width || py >= height ==> final(buffer)@ == old(buffer)@,
        (px < width && py < height && pixel_color(old(buffer)@, stride as int, px as int,
            py as int) == new_color@) ==> final(buffer)@ == old(buffer)@,
        (px < width && py < height && pixel_color(old(buffer)@, stride as int, px as int,
            py as int) != new_color@) ==> forall|i: int|
            0 <= i < final(buffer)@.len() ==> final(buffer)@[i] == fill_result_byte(
                old(buffer)@,
                width as int,
                height as int,
                stride as int,
                px as int,
                py as int,
                new_color@,
                i,
            ),
{
    if px >= width || py >= height {
        return;
    }
    let ghost b0 = buffer@;
    let ghost w = width as int;
    let ghost h = height as int;
    let ghost s = stride as int;
    let ghost sxg = px as int;
    let ghost syg = py as int;
    let ghost target = pixel_color(b0, s, sxg, syg);
    proof {
        lemma_mul_bounds(syg, s, FILL_DIM_MAX as int, FILL_STRIDE_MAX as int);
        assert(syg * s + 4 * sxg + 4 <= s * h) by (nonlinear_arith)
            requires
                0 <= syg < h,
                0 <= sxg < w,
                4 * w <= s,
                0 <= s,
        ;
        assert(b0.len() >= s * h) by (nonlinear_arith)
            requires
                b0.len() >= (stride as int) * (height as int),
                s == stride as int,
                h == height as int,
        ;
    }
    let sidx: usize = (py as usize) * (stride as usize) + 4 * (px as usize);
    let t0 = buffer[sidx];
    let t1 = buffer[sidx + 1];
    let t2 = buffer[sidx + 2];
    let t3 = buffer[sidx + 3];
    proof {
        assert(target =~= seq![t0, t1, t2, t3]);
    }
    if t0 == new_color[0] && t1 == new_color[1] && t2 == new_color[2] && t3 == new_color[3] {
        proof {
            assert(target =~= new_color@);
        }
        return;
    }
    proof {
        if target == new_color@ {
            assert(target[0] == new_color@[0] && target[1] == new_color@[1] && target[2]
                == new_color@[2] && target[3] == new_color@[3]);
            assert(false);
        }
    }
    let mut queue: VecDeque<(i64, i64)> = VecDeque::new();
    queue.push_back((px as i64, py as i64));
    let ghost mut painted: Set<int> = Set::empty();
    proof {
        assert(queue@[0] == (px as i64, py as i64));
        assert(in_queue(queue@, sxg, syg));
        lemma_int_range(0, w * h);
        lemma_len_subset(painted, set_int_range(0, w * h));
        lemma_init(b0, w, h, s, sxg, syg, new_color@, queue@);
    }
    while queue.len() != 0
        invariant
            width <= FILL_DIM_MAX,
            height <= FILL_DIM_MAX,
            4 * width <= stride <= FILL_STRIDE_MAX,
            w == width as int,
            h == height as int,
            s == stride as int,
            sxg == px as int,
            syg == py as int,
            in_grid(w, h, sxg, syg),
            target == pixel_color(b0, s, sxg, syg),
            target == seq![t0, t1, t2, t3],
            target != new_color@,
            new_color@.len() == 4,
            b0.len() >= s * h,
            painted.finite(),
            painted.len() <= w * h,
            forall|e: int| #[trigger] painted.contains(e) ==> 0 <= e < w * h,
            buffer_shows(b0, buffer@, w, h, s, new_color@, painted),
            queue_sound(queue@, w, h, sxg, syg, painted),
            frontier_queued(b0, queue@, w, h, s, target, painted),
            painted_sound(b0, w, h, s, sxg, syg, painted),
            painted.contains(cell(w, sxg, syg)) || in_queue(queue@, sxg, syg),
        decreases 5 * (w * h - painted.len()) + queue@.len(),
    {
        let ghost q_before = queue@;
        let popped = queue.pop_front();
        let c: (i64, i64) = match popped {
            Some(cc) => cc,
            None => {
                proof {
                    assert(false);
                }
                (0i64, 0i64)
            },
        };
        let cx = c.0;
        let cy = c.1;
        proof {
            assert(q_before[0] == c);
        }
        if cx >= 0 && cy >= 0 && cx < width as i64 && cy < height as i64 {
            let ghost ox = cx as int;
            let ghost oy = cy as int;
            let ghost base = pix_idx(s, ox, oy);
            proof {
                lemma_mul_bounds(oy, s, FILL_DIM_MAX as int, FILL_STRIDE_MAX as int);
                lemma_read_pixel(
                    b0,
                    buffer@,
                    w,
                    h,
                    s,
                    new_color@,
                    painted,
                    ox,
                    oy,
                );
            }
            let ux = cx as usize;
            let uy = cy as usize;
            let idx: usize = uy * (stride as usize) + 4 * ux;
            let a0 = buffer[idx];
            let a1 = buffer[idx + 1];
            let a2 = buffer[idx + 2];
            let a3 = buffer[idx + 3];
            if a0 == t0 && a1 == t1 && a2 == t2 && a3 == t3 {
                proof {
                    // an already painted pixel would show the new color,
                    // which differs from the target in some byte
                    if painted.contains(cell(w, ox, oy)) {
                        assert(buffer@[base] == new_color@[0]);
                        assert(buffer@[base + 1] == new_color@[1]);
                        assert(buffer@[base + 2] == new_color@[2]);
                        assert(buffer@[base + 3] == new_color@[3]);
                        assert(target =~= new_color@);
                        assert(false);
                    }
                    assert(pixel_color(b0, s, ox, oy) =~= seq![a0, a1, a2, a3]) by {
                        assert(b0[base] == buffer@[base]);
                        assert(b0[base + 1] == buffer@[base + 1]);
                        assert(b0[base + 2] == buffer@[base + 2]);
                        assert(b0[base + 3] == buffer@[base + 3]);
                    }
                }
                let ghost buf_before = buffer@;
                let ghost painted_before = painted;
                buffer[idx] = new_color[0];
                buffer[idx + 1] = new_color[1];
                buffer[idx + 2] = new_color[2];
                buffer[idx + 3] = new_color[3];
                let ghost q_mid = queue@;
                queue.push_back((cx - 1, cy));
                queue.push_back((cx + 1, cy));
                queue.push_back((cx, cy - 1));
                queue.push_back((cx, cy + 1));
                proof {
                    painted = painted_before.insert(cell(w, ox, oy));
                    lemma_paint_step(
                        b0,
                        w,
                        h,
                        s,
                        sxg,
                        syg,
                        target,
                        new_color@,
                        buf_before,
                        buffer@,
                        painted_before,
                        painted,
                        q_before,
                        q_mid,
                        queue@,
                        ox,
                        oy,
                    );
                }
            } else {
                proof {
                    if !painted.contains(cell(w, ox, oy)) {
                        assert(pixel_color(b0, s, ox, oy) =~= seq![a0, a1, a2, a3]) by {
                            assert(b0[base] == buffer@[base]);
                            assert(b0[base + 1] == buffer@[base + 1]);
                            assert(b0[base + 2] == buffer@[base + 2]);
                            assert(b0[base + 3] == buffer@[base + 3]);
                        }
                        if pixel_color(b0, s, ox, oy) == target {
                            assert(seq![a0, a1, a2, a3] =~= seq![t0, t1, t2, t3]);
                            assert(a0 == t0 && a1 == t1 && a2 == t2 && a3 == t3);
                            assert(false);
                        }
                    }
                    lemma_drop_step(
                        b0,
                        w,
                        h,
                        s,
                        sxg,
                        syg,
                        target,
                        painted,
                        q_before,
                        queue@,
                        ox,
                        oy,
                    );
                }
            }
        } else {
            proof {
                lemma_drop_step(
                    b0,
                    w,
                    h,
                    s,
                    sxg,
                    syg,
                    target,
                    painted,
                    q_before,
                    queue@,
                    cx as int,
                    cy as int,
                );
            }
        }
    }
    proof {
        assert(painted.contains(cell(w, sxg, syg)));
        lemma_finish(
            b0,
            buffer@,
            w,
            h,
            s,
            sxg,
            syg,
            target,
            new_color@,
            painted,
            queue@,
        );
        reveal(buffer_shows);
    }
}

} // verus!
