//! The shared point buffer: a capacity-bounded ordered sequence of
//! two-dimensional points, written by the interaction state machine and read
//! by the rasterizer.
//!
//! Coordinates are held in texture space as plain `i64` sub-pixel values (the
//! caller picks the unit; the GPU upload converts them). The backing store is
//! `smallvec::SmallVec`, kept behind trusted wrappers.

use vstd::prelude::*;

use smallvec::SmallVec;

verus! {

/// The fixed capacity of the point buffer: the number of point slots the GPU
/// storage block is sized for.
pub const POINT_CAPACITY: usize = 4096;

/// Coordinates further than this from the origin are rejected at the
/// machine's edge, so that coordinate sums and differences never overflow.
pub const COORD_LIMIT: i64 = 0x1000_0000_0000_0000;

/// A point in texture space, in sub-pixel integer units.
#[derive(Clone, Copy, PartialEq, Eq, Structural, Debug)]
pub struct Point {
    pub x: i64,
    pub y: i64,
}

impl Point {
    pub fn new(x: i64, y: i64) -> (r: Self)
        ensures
            r.x == x,
            r.y == y,
    {
        Self { x, y }
    }

    /// A point whose coordinates are small enough for exact distance sums.
    pub open spec fn bounded(self) -> bool {
        -COORD_LIMIT < self.x < COORD_LIMIT && -COORD_LIMIT < self.y < COORD_LIMIT
    }
}

/// The backing store of the point buffer: a `smallvec::SmallVec` sized so
/// that up to 4096 points live inline, held opaquely.
#[verifier::external_body]
pub struct PointStore {
    inner: SmallVec<[(i64, i64); 4096]>,
}

/// The points a backing store holds, oldest first.
pub uninterp spec fn store_points(v: PointStore) -> Seq<(i64, i64)>;

/// Relies on `smallvec::SmallVec::new`: constructs an empty vector.
#[verifier::external_body]
fn store_new() -> (r: PointStore)
    ensures
        store_points(r) == Seq::<(i64, i64)>::empty(),
{
    PointStore { inner: SmallVec::new() }
}

/// Relies on `smallvec::SmallVec::len`: the number of elements held.
#[verifier::external_body]
fn store_len(v: &PointStore) -> (r: usize)
    ensures
        r == store_points(*v).len(),
{
    v.inner.len()
}

/// Relies on `smallvec::SmallVec::push`: appends one element at the end.
#[verifier::external_body]
fn store_push(v: &mut PointStore, p: (i64, i64))
    ensures
        store_points(*final(v)) == store_points(*old(v)).push(p),
{
    v.inner.push(p)
}

/// Relies on `smallvec::SmallVec::pop`: removes and returns the last
/// element, or returns `None` when the vector is empty.
#[verifier::external_body]
fn store_pop(v: &mut PointStore) -> (r: Option<(i64, i64)>)
    ensures
        store_points(*old(v)).len() == 0 ==> {
            &&& r is None
            &&& store_points(*final(v)) == store_points(*old(v))
        },
        store_points(*old(v)).len() > 0 ==> {
            &&& r == Some(store_points(*old(v)).last())
            &&& store_points(*final(v)) == store_points(*old(v)).drop_last()
        },
{
    v.inner.pop()
}

/// Relies on `smallvec::SmallVec::clear`: removes every element.
#[verifier::external_body]
fn store_clear(v: &mut PointStore)
    ensures
        store_points(*final(v)) == Seq::<(i64, i64)>::empty(),
{
    v.inner.clear()
}

/// Relies on `smallvec::SmallVec`'s `Index` impl: returns the element at
/// `i`; panics when `i` is out of bounds, so that case is required away.
#[verifier::external_body]
fn store_get(v: &PointStore, i: usize) -> (r: (i64, i64))
    requires
        i < store_points(*v).len(),
    ensures
        r == store_points(*v)[i as int],
{
    v.inner[i]
}

/// Relies on `smallvec::SmallVec`'s `IndexMut` impl: overwrites the element
/// at `i`; panics when `i` is out of bounds, so that case is required away.
#[verifier::external_body]
fn store_set(v: &mut PointStore, i: usize, p: (i64, i64))
    requires
        i < store_points(*old(v)).len(),
    ensures
        store_points(*final(v)) == store_points(*old(v)).update(i as int, p),
{
    v.inner[i] = p;
}

/// Relies on `smallvec::SmallVec::remove`: removes the element at `i` and
/// shifts the later ones left; panics when `i` is out of bounds, so that
/// case is required away.
#[verifier::external_body]
fn store_remove(v: &mut PointStore, i: usize) -> (r: (i64, i64))
    requires
        i < store_points(*old(v)).len(),
    ensures
        r == store_points(*old(v))[i as int],
        store_points(*final(v)) == store_points(*old(v)).remove(i as int),
{
    v.inner.remove(i)
}

/// Relies on `smallvec::SmallVec::swap_remove`: removes the element at `i`,
/// moving the last element into its place; panics when `i` is out of
/// bounds, so that case is required away.
#[verifier::external_body]
fn store_swap_remove(v: &mut PointStore, i: usize) -> (r: (i64, i64))
    requires
        i < store_points(*old(v)).len(),
    ensures
        r == store_points(*old(v))[i as int],
        store_points(*final(v)) == store_points(*old(v)).update(
            i as int,
            store_points(*old(v)).last(),
        ).drop_last(),
{
    v.inner.swap_remove(i)
}

/// A capacity-bounded ordered sequence of 2D points plus a dirty flag
/// marking a pending CPU-to-GPU transfer.
///
/// Only the first `len()` entries are semantically valid; the buffer never
/// holds more than [`POINT_CAPACITY`] points.
pub struct PointBuffer {
    store: PointStore,
    dirty: bool,
}

impl PointBuffer {
    /// The points held, oldest first.
    pub closed spec fn points(self) -> Seq<Point> {
        store_points(self.store).map(|_i: int, p: (i64, i64)| Point { x: p.0, y: p.1 })
    }

    /// True while the CPU copy has changes the GPU storage block has not
    /// seen.
    pub closed spec fn spec_dirty(self) -> bool {
        self.dirty
    }

    /// Executable form of [`PointBuffer::spec_dirty`].
    pub fn is_dirty(&self) -> (r: bool)
        ensures
            r == self.spec_dirty(),
    {
        self.dirty
    }

    /// Well-formed: within capacity, every point bounded.
    pub open spec fn wf(self) -> bool {
        &&& self.points().len() <= POINT_CAPACITY
        &&& forall|i: int| 0 <= i < self.points().len() ==> #[trigger] self.points()[i].bounded()
    }

    pub fn new() -> (r: Self)
        ensures
            r.wf(),
            r.points() == Seq::<Point>::empty(),
            !r.spec_dirty(),
    {
        let r = Self { store: store_new(), dirty: false };
        proof {
            assert(r.points() =~= Seq::<Point>::empty());
        }
        r
    }

    pub fn len(&self) -> (r: usize)
        ensures
            r == self.points().len(),
    {
        store_len(&self.store)
    }

    pub fn get(&self, i: usize) -> (r: Point)
        requires
            i < self.points().len(),
        ensures
            r == self.points()[i as int],
    {
        let p = store_get(&self.store, i);
        Point { x: p.0, y: p.1 }
    }

    /// Appends a point when there is room; a full buffer is left unchanged.
    /// Returns whether the point was stored.
    pub fn push(&mut self, p: Point) -> (ok: bool)
        requires
            old(self).wf(),
            p.bounded(),
        ensures
            final(self).wf(),
            ok == (old(self).points().len() < POINT_CAPACITY),
            ok ==> final(self).points() == old(self).points().push(p),
            !ok ==> final(self).points() == old(self).points(),
            final(self).spec_dirty() == (old(self).spec_dirty() || ok),
    {
        if store_len(&self.store) < POINT_CAPACITY {
            store_push(&mut self.store, (p.x, p.y));
            self.dirty = true;
            proof {
                assert(self.points() =~= old(self).points().push(p));
            }
            true
        } else {
            false
        }
    }

    /// Removes the newest point, if any.
    pub fn pop(&mut self) -> (r: Option<Point>)
        requires
            old(self).wf(),
        ensures
            final(self).wf(),
            old(self).points().len() == 0 ==> {
                &&& r is None
                &&& final(self).points() == old(self).points()
                &&& final(self).spec_dirty() == old(self).spec_dirty()
            },
            old(self).points().len() > 0 ==> {
                &&& r == Some(old(self).points().last())
                &&& final(self).points() == old(self).points().drop_last()
                &&& final(self).spec_dirty()
            },
    {
        let r = store_pop(&mut self.store);
        match r {
            Some(p) => {
                self.dirty = true;
                proof {
                    assert(self.points() =~= old(self).points().drop_last());
                }
                Some(Point { x: p.0, y: p.1 })
            },
            None => None,
        }
    }

    /// Removes every point.
    pub fn clear(&mut self)
        ensures
            final(self).wf(),
            final(self).points() == Seq::<Point>::empty(),
            final(self).spec_dirty(),
    {
        store_clear(&mut self.store);
        self.dirty = true;
        proof {
            assert(self.points() =~= Seq::<Point>::empty());
        }
    }

    /// Overwrites the point at `i`.
    pub fn set(&mut self, i: usize, p: Point)
        requires
            old(self).wf(),
            i < old(self).points().len(),
            p.bounded(),
        ensures
            final(self).wf(),
            final(self).points() == old(self).points().update(i as int, p),
            final(self).spec_dirty(),
    {
        store_set(&mut self.store, i, (p.x, p.y));
        self.dirty = true;
        proof {
            assert(self.points() =~= old(self).points().update(i as int, p));
        }
    }

    /// Removes the point at `i`, keeping the order of the rest.
    pub fn remove(&mut self, i: usize) -> (r: Point)
        requires
            old(self).wf(),
            i < old(self).points().len(),
        ensures
            final(self).wf(),
            r == old(self).points()[i as int],
            final(self).points() == old(self).points().remove(i as int),
            final(self).spec_dirty(),
    {
        let p = store_remove(&mut self.store, i);
        self.dirty = true;
        proof {
            assert(self.points() =~= old(self).points().remove(i as int));
        }
        Point { x: p.0, y: p.1 }
    }

    /// Removes the point at `i`, moving the newest point into its place.
    pub fn swap_remove(&mut self, i: usize) -> (r: Point)
        requires
            old(self).wf(),
            i < old(self).points().len(),
        ensures
            final(self).wf(),
            r == old(self).points()[i as int],
            final(self).points() == old(self).points().update(
                i as int,
                old(self).points().last(),
            ).drop_last(),
            final(self).spec_dirty(),
    {
        let p = store_swap_remove(&mut self.store, i);
        self.dirty = true;
        proof {
            assert(self.points() =~= old(self).points().update(
                i as int,
                old(self).points().last(),
            ).drop_last());
        }
        Point { x: p.0, y: p.1 }
    }

    /// Marks the pending-transfer flag after an upload: the GPU storage
    /// block now matches the CPU copy.
    pub fn mark_flushed(&mut self)
        ensures
            final(self).wf() == old(self).wf(),
            final(self).points() == old(self).points(),
            !final(self).spec_dirty(),
    {
        self.dirty = false;
    }
}

/// The capacity bound is kept under any append: pushing into a well-formed
/// buffer never yields more than [`POINT_CAPACITY`] points, whatever was
/// pushed before.
pub proof fn lemma_point_buffer_bound(pre: PointBuffer, post: PointBuffer, p: Point, ok: bool)
    requires
        pre.wf(),
        ok ==> post.points() == pre.points().push(p),
        !ok ==> post.points() == pre.points(),
        ok == (pre.points().len() < POINT_CAPACITY),
    ensures
        post.points().len() <= POINT_CAPACITY,
{
}

} // verus!
