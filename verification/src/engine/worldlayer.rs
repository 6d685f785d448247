//! A rectangular grid of values, and the writes staged against one.
use vstd::prelude::*;
use crate::datatypes::Coordinate;
use crate::error::{Result, Status};
use super::update::{Delta, Updatable, UpdatableContainer, UpdatableContainerDelta};

verus! {

/// `c` lies in the rectangle `[0, dims.x) x [0, dims.y)`.
pub open spec fn in_bounds_of(dims: Coordinate, c: Coordinate) -> bool {
    0 <= c.x < dims.x && 0 <= c.y < dims.y
}

/// Row-major position of `c` in a grid of size `dims`.
pub open spec fn index_of(dims: Coordinate, c: Coordinate) -> int {
    c.x + c.y * dims.x
}

/// The value at the last write to `key` in `writes`, if any.
pub open spec fn last_write<K, T>(writes: Seq<(K, T)>, key: K) -> Option<T>
    decreases writes.len(),
{
    if writes.len() == 0 {
        None
    } else if writes.last().0 == key {
        Some(writes.last().1)
    } else {
        last_write(writes.drop_last(), key)
    }
}

/// Every key written lies in the grid.
pub open spec fn all_in_bounds<T>(dims: Coordinate, writes: Seq<(Coordinate, T)>) -> bool {
    forall|i: int| 0 <= i < writes.len() ==> in_bounds_of(dims, #[trigger] writes[i].0)
}

/// The cells after writing `writes` in order, stopping at the first key
/// outside the grid.
pub open spec fn apply_writes<T>(cells: Seq<T>, dims: Coordinate, writes: Seq<(Coordinate, T)>) -> Seq<T>
    decreases writes.len(),
{
    if writes.len() == 0 {
        cells
    } else if !in_bounds_of(dims, writes[0].0) {
        cells
    } else {
        apply_writes(cells.update(index_of(dims, writes[0].0), writes[0].1), dims, writes.drop_first())
    }
}

/// A cell of a `w` by `h` grid has its row-major position in the grid.
pub proof fn lemma_index_in_range(dims: Coordinate, c: Coordinate)
    requires
        in_bounds_of(dims, c),
    ensures
        0 <= index_of(dims, c) < dims.x * dims.y,
        index_of(dims, c) <= i32::MAX || dims.x * dims.y > i32::MAX,
{
    assert(0 <= c.x + c.y * dims.x < dims.x * dims.y) by (nonlinear_arith)
        requires
            0 <= c.x < dims.x,
            0 <= c.y < dims.y,
    ;
}

/// Two cells of a grid with the same row-major position are the same cell.
pub proof fn lemma_index_injective(dims: Coordinate, a: Coordinate, b: Coordinate)
    requires
        in_bounds_of(dims, a),
        in_bounds_of(dims, b),
        index_of(dims, a) == index_of(dims, b),
    ensures
        a == b,
{
    assert(a.y == b.y) by (nonlinear_arith)
        requires
            0 <= a.x < dims.x,
            0 <= b.x < dims.x,
            0 <= a.y,
            0 <= b.y,
            a.x + a.y * dims.x == b.x + b.y * dims.x,
    {
        if a.y < b.y {
            assert(b.y * dims.x >= (a.y + 1) * dims.x);
        } else if a.y > b.y {
            assert(a.y * dims.x >= (b.y + 1) * dims.x);
        }
    }
}

/// A read after a write to a layer gives the value written, and the other
/// cells read as before.
pub proof fn lemma_set_then_get<T: Copy>(before: WorldLayer<T>, after: WorldLayer<T>, key: Coordinate, value: T, other: Coordinate)
    requires
        before.sized(),
        before.spec_in_bounds(key),
        after.dims() == before.dims(),
        after.cells() == before.cells().update(index_of(before.dims(), key), value),
    ensures
        after.spec_get(key) == Ok::<T, Status>(value),
        other != key ==> after.spec_get(other) == before.spec_get(other),
{
    lemma_index_in_range(before.dims(), key);
    if other != key && before.spec_in_bounds(other) {
        lemma_index_in_range(before.dims(), other);
        if index_of(before.dims(), other) == index_of(before.dims(), key) {
            lemma_index_injective(before.dims(), other, key);
        }
    }
}

/// Overwrites one element of a vector.
fn set_cell<T>(v: &mut Vec<T>, i: usize, x: T)
    requires
        i < old(v)@.len(),
    ensures
        final(v)@ == old(v)@.update(i as int, x),
    no_unwind
{
    v[i] = x;
}

/// A grid of `dimensions.x` by `dimensions.y` cells.
#[derive(Debug)]
pub struct WorldLayer<DataType: Copy> {
    dimensions: Coordinate,
    data: Vec<DataType>,
}

impl<DataType: Copy> WorldLayer<DataType> {
    #[verifier::type_invariant]
    spec fn well_formed(self) -> bool {
        &&& self.dimensions.x >= 0
        &&& self.dimensions.y >= 0
        &&& self.dimensions.x * self.dimensions.y <= i32::MAX
        &&& self.data@.len() == self.dimensions.x * self.dimensions.y
    }

    /// The size of the grid.
    pub closed spec fn dims(self) -> Coordinate {
        self.dimensions
    }

    /// The cells in row-major order.
    pub closed spec fn cells(self) -> Seq<DataType> {
        self.data@
    }

    /// The grid holds one cell per coordinate in its rectangle.
    pub open spec fn sized(self) -> bool {
        &&& self.dims().x >= 0
        &&& self.dims().y >= 0
        &&& self.dims().x * self.dims().y <= i32::MAX
        &&& self.cells().len() == self.dims().x * self.dims().y
    }

    pub open spec fn spec_in_bounds(self, c: Coordinate) -> bool {
        in_bounds_of(self.dims(), c)
    }

    /// The value at `c`, or `OutOfBounds`.
    pub open spec fn spec_get(self, c: Coordinate) -> Result<DataType> {
        if self.spec_in_bounds(c) {
            Ok(self.cells()[index_of(self.dims(), c)])
        } else {
            Err(Status::OutOfBounds)
        }
    }

    pub fn in_bounds(&self, location: &Coordinate) -> (r: bool)
        ensures
            r == self.spec_in_bounds(*location),
    {
        location.x >= 0 && location.x < self.dimensions.x && location.y >= 0 && location.y
            < self.dimensions.y
    }

    /// Row-major position of `location`, or `OutOfBounds`.
    pub fn coord_to_idx(&self, location: &Coordinate) -> (r: Result<usize>)
        ensures
            match r {
                Ok(i) => self.spec_in_bounds(*location) && i == index_of(self.dims(), *location)
                    && i < self.cells().len(),
                Err(e) => !self.spec_in_bounds(*location) && e == Status::OutOfBounds,
            },
    {
        proof {
            use_type_invariant(self);
        }
        if self.in_bounds(location) {
            proof {
                lemma_index_in_range(self.dimensions, *location);
            }
            Ok((location.x + location.y * self.dimensions.x) as usize)
        } else {
            Err(Status::OutOfBounds)
        }
    }

    /// A grid of the given size with every cell set to `default`.
    pub fn new(dimensions: Coordinate, default: DataType) -> (r: WorldLayer<DataType>)
        requires
            dimensions.x >= 0,
            dimensions.y >= 0,
            dimensions.x * dimensions.y <= i32::MAX,
        ensures
            r.sized(),
            r.dims() == dimensions,
            r.cells().len() == dimensions.x * dimensions.y,
            forall|i: int| 0 <= i < r.cells().len() ==> r.cells()[i] == default,
    {
        assert(dimensions.x * dimensions.y >= 0) by (nonlinear_arith)
            requires
                dimensions.x >= 0,
                dimensions.y >= 0,
        ;
        let n: usize = (dimensions.x * dimensions.y) as usize;
        let mut data: Vec<DataType> = Vec::new();
        let mut i: usize = 0;
        while i < n
            invariant
                i <= n,
                data@.len() == i,
                forall|j: int| 0 <= j < i ==> data@[j] == default,
            decreases n - i,
        {
            data.push(default);
            i = i + 1;
        }
        WorldLayer { dimensions, data }
    }

    /// A separate grid with the same size and cells.
    pub fn snapshot(&self) -> (r: WorldLayer<DataType>)
        ensures
            r.sized(),
            r.dims() == self.dims(),
            r.cells() == self.cells(),
    {
        proof {
            use_type_invariant(self);
        }
        let mut data: Vec<DataType> = Vec::new();
        let mut i: usize = 0;
        while i < self.data.len()
            invariant
                i <= self.data@.len(),
                data@ == self.data@.take(i as int),
            decreases self.data@.len() - i,
        {
            data.push(self.data[i]);
            i = i + 1;
            assert(data@ =~= self.data@.take(i as int));
        }
        assert(data@ =~= self.data@);
        WorldLayer { dimensions: self.dimensions, data }
    }

    pub fn get_dimensions(&self) -> (r: Coordinate)
        ensures
            r == self.dims(),
    {
        self.dimensions
    }
}

impl<DataType: Copy> Updatable for WorldLayer<DataType> {}

impl<DataType: Copy> UpdatableContainer for WorldLayer<DataType> {
    type CoordinateType = Coordinate;
    type DataType = DataType;

    fn get(&self, key: &Coordinate) -> (r: Result<&DataType>)
        ensures
            match r {
                Ok(v) => self.spec_get(*key) == Ok::<DataType, Status>(*v),
                Err(e) => self.spec_get(*key) == Err::<DataType, Status>(e),
            },
    {
        let idx = self.coord_to_idx(key)?;
        Ok(&self.data[idx])
    }

    fn mut_set(&mut self, key: &Coordinate, value: &DataType) -> (r: Result<()>)
        ensures
            old(self).sized(),
            final(self).sized(),
            final(self).dims() == old(self).dims(),
            match r {
                Ok(_) => old(self).spec_in_bounds(*key) && final(self).cells() == old(self).cells().update(
                    index_of(old(self).dims(), *key),
                    *value,
                ),
                Err(e) => !old(self).spec_in_bounds(*key) && e == Status::OutOfBounds && final(self).cells()
                    == old(self).cells(),
            },
    {
        proof {
            use_type_invariant(&*self);
        }
        let idx = self.coord_to_idx(key)?;
        let v: DataType = *value;
        set_cell(&mut self.data, idx, v);
        Ok(())
    }
}

/// Writes staged against a `WorldLayer`, in the order they were made.
#[derive(Debug)]
pub struct WorldLayerDelta<DataType: Copy> {
    writes: Vec<(Coordinate, DataType)>,
}

impl<DataType: Copy> WorldLayerDelta<DataType> {
    /// The staged writes, oldest first.
    pub closed spec fn writes(self) -> Seq<(Coordinate, DataType)> {
        self.writes@
    }

    /// The value a read of `key` through this delta gives.
    pub open spec fn spec_read(self, source: WorldLayer<DataType>, key: Coordinate) -> Result<DataType> {
        match last_write(self.writes(), key) {
            Some(v) => Ok(v),
            None => source.spec_get(key),
        }
    }

    /// Applying this delta to `target` would succeed.
    pub open spec fn applies_to(self, target: WorldLayer<DataType>) -> bool {
        all_in_bounds(target.dims(), self.writes())
    }
}

impl<DataType: Copy> Updatable for WorldLayerDelta<DataType> {}

impl<DataType: Copy> Delta for WorldLayerDelta<DataType> {
    type Target = WorldLayer<DataType>;

    fn new() -> (r: Self)
        ensures
            r.writes() == Seq::<(Coordinate, DataType)>::empty(),
    {
        WorldLayerDelta { writes: Vec::new() }
    }

    /// Writes each staged value, in order; stops with `OutOfBounds` at the
    /// first key outside the target.
    fn apply(&self, target: &mut WorldLayer<DataType>) -> (r: Result<()>)
        ensures
            old(target).sized(),
            final(target).sized(),
            final(target).dims() == old(target).dims(),
            final(target).cells() == apply_writes(old(target).cells(), old(target).dims(), self.writes()),
            r is Ok <==> self.applies_to(*old(target)),
            r matches Err(e) ==> e == Status::OutOfBounds,
    {
        proof {
            use_type_invariant(&*target);
        }
        let ghost w = self.writes@;
        let ghost dims = target.dims();
        let ghost start = target.cells();
        let mut i: usize = 0;
        assert(w.skip(0) =~= w);
        while i < self.writes.len()
            invariant
                w == self.writes@,
                start == old(target).cells(),
                dims == old(target).dims(),
                old(target).sized(),
                i <= w.len(),
                target.dims() == dims,
                apply_writes(start, dims, w) == apply_writes(target.cells(), dims, w.skip(i as int)),
                forall|j: int| 0 <= j < i ==> in_bounds_of(dims, #[trigger] w[j].0),
            decreases w.len() - i,
        {
            let (k, v) = self.writes[i];
            assert(w.skip(i as int).drop_first() =~= w.skip(i + 1));
            assert(w.skip(i as int)[0] == w[i as int]);
            proof {
                use_type_invariant(&*target);
            }
            let res = target.mut_set(&k, &v);
            if res.is_err() {
                assert(!all_in_bounds(dims, w));
                return Err(Status::OutOfBounds);
            }
            i = i + 1;
        }
        assert(w.skip(i as int) =~= Seq::<(Coordinate, DataType)>::empty());
        proof {
            use_type_invariant(&*target);
        }
        Ok(())
    }
}

impl<DataType: Copy> UpdatableContainerDelta for WorldLayerDelta<DataType> {
    type CoordinateType = Coordinate;
    type DataType = DataType;
    type Target = WorldLayer<DataType>;

    fn get<'a>(&'a self, source: &'a WorldLayer<DataType>, key: &Coordinate) -> (r: Result<&'a DataType>)
        ensures
            match r {
                Ok(v) => self.spec_read(*source, *key) == Ok::<DataType, Status>(*v),
                Err(e) => self.spec_read(*source, *key) == Err::<DataType, Status>(e),
            },
    {
        let cached = self.get_cached(key)?;
        match cached {
            Some(val) => Ok(val),
            None => source.get(key),
        }
    }

    /// Stages a write; a later read of `key` through this delta gives
    /// `value`.
    fn set(&mut self, key: &Coordinate, value: &DataType) -> (r: Result<()>)
        ensures
            r is Ok,
            final(self).writes() == old(self).writes().push((*key, *value)),
    {
        let v: DataType = *value;
        self.writes.push((*key, v));
        Ok(())
    }

    fn get_cached(&self, key: &Coordinate) -> (r: Result<Option<&DataType>>)
        ensures
            match r {
                Ok(Some(v)) => last_write(self.writes(), *key) == Some(*v),
                Ok(None) => last_write(self.writes(), *key) is None,
                Err(_) => false,
            },
    {
        let mut i: usize = self.writes.len();
        assert(self.writes@.take(i as int) =~= self.writes@);
        while i > 0
            invariant
                i <= self.writes@.len(),
                last_write(self.writes@, *key) == last_write(self.writes@.take(i as int), *key),
            decreases i,
        {
            let ghost t = self.writes@.take(i as int);
            assert(t.drop_last() =~= self.writes@.take(i - 1));
            if self.writes[i - 1].0 == *key {
                return Ok(Some(&self.writes[i - 1].1));
            }
            i = i - 1;
        }
        Ok(None)
    }
}

/// A read through a delta of a key that was just written gives the value
/// written; reads of other keys are unaffected.
pub proof fn lemma_read_your_write<T: Copy>(
    writes: Seq<(Coordinate, T)>,
    key: Coordinate,
    value: T,
    other: Coordinate,
)
    ensures
        last_write(writes.push((key, value)), key) == Some(value),
        other != key ==> last_write(writes.push((key, value)), other) == last_write(writes, other),
{
    assert(writes.push((key, value)).drop_last() =~= writes);
}

/// The last write to a key is the last write after the first staged write,
/// or else that first write if it was to the key.
pub proof fn lemma_last_write_front<T>(w: Seq<(Coordinate, T)>, key: Coordinate)
    requires
        w.len() > 0,
    ensures
        last_write(w, key) == match last_write(w.drop_first(), key) {
            Some(v) => Some(v),
            None => if w[0].0 == key {
                Some(w[0].1)
            } else {
                None
            },
        },
    decreases w.len(),
{
    if w.len() == 1 {
        assert(w.drop_last() =~= Seq::<(Coordinate, T)>::empty());
        assert(w.drop_first() =~= Seq::<(Coordinate, T)>::empty());
    } else {
        assert(w.drop_last().drop_first() =~= w.drop_first().drop_last());
        assert(w.drop_first().last() == w.last());
        lemma_last_write_front(w.drop_last(), key);
    }
}

/// Writing a sequence of in-bounds keys leaves at each cell the last value
/// written to it, or its old value.
pub proof fn lemma_apply_writes_cell<T>(cells: Seq<T>, dims: Coordinate, w: Seq<(Coordinate, T)>, key: Coordinate)
    requires
        all_in_bounds(dims, w),
        in_bounds_of(dims, key),
        cells.len() == dims.x * dims.y,
    ensures
        apply_writes(cells, dims, w).len() == cells.len(),
        apply_writes(cells, dims, w)[index_of(dims, key)] == match last_write(w, key) {
            Some(v) => v,
            None => cells[index_of(dims, key)],
        },
    decreases w.len(),
{
    lemma_index_in_range(dims, key);
    if w.len() > 0 {
        lemma_index_in_range(dims, w[0].0);
        let next = cells.update(index_of(dims, w[0].0), w[0].1);
        assert forall|i: int| 0 <= i < w.drop_first().len() implies in_bounds_of(
            dims,
            #[trigger] w.drop_first()[i].0,
        ) by {
            assert(w.drop_first()[i] == w[i + 1]);
        }
        lemma_apply_writes_cell(next, dims, w.drop_first(), key);
        lemma_last_write_front(w, key);
        if w[0].0 != key && index_of(dims, w[0].0) == index_of(dims, key) {
            lemma_index_injective(dims, w[0].0, key);
        }
    }
}

/// The engine's central promise: once a delta whose writes all fall in the
/// grid is applied, every cell of the grid holds what a read of it through
/// the delta gave before.
pub proof fn lemma_apply_agrees_with_reads<T: Copy>(
    delta: WorldLayerDelta<T>,
    before: WorldLayer<T>,
    after: WorldLayer<T>,
    key: Coordinate,
)
    requires
        before.sized(),
        delta.applies_to(before),
        after.dims() == before.dims(),
        after.cells() == apply_writes(before.cells(), before.dims(), delta.writes()),
    ensures
        after.spec_get(key) == delta.spec_read(before, key),
{
    if before.spec_in_bounds(key) {
        lemma_apply_writes_cell(before.cells(), before.dims(), delta.writes(), key);
    } else {
        assert forall|v: T| last_write(delta.writes(), key) != Some(v) by {
            lemma_last_write_in_writes(delta.writes(), key);
        }
    }
}

/// A key that has a last write is among the keys written.
pub proof fn lemma_last_write_in_writes<T>(w: Seq<(Coordinate, T)>, key: Coordinate)
    ensures
        last_write(w, key) is Some ==> exists|i: int| 0 <= i < w.len() && #[trigger] w[i].0 == key,
    decreases w.len(),
{
    if w.len() > 0 {
        lemma_last_write_in_writes(w.drop_last(), key);
        if last_write(w.drop_last(), key) is Some && w.last().0 != key {
            let i = choose|i: int| 0 <= i < w.drop_last().len() && #[trigger] w.drop_last()[i].0 == key;
            assert(w[i].0 == key);
        }
        if w.last().0 == key {
            assert(w[w.len() - 1].0 == key);
        }
    }
}

} // verus!
