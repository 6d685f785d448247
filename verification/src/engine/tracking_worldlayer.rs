//! A grid whose values may carry an id, with an index from each id to the
//! cell that holds it.
use vstd::prelude::*;
use std::collections::{HashMap, HashSet};
use crate::datatypes::Coordinate;
use crate::error::{Result, Status};
use super::update::{Delta, Updatable, UpdatableContainer, UpdatableContainerDelta};
use super::worldlayer::{WorldLayer, WorldLayerDelta, last_write, index_of};

verus! {

broadcast use vstd::std_specs::hash::group_hash_axioms;

/// The id of a tracked value.
#[derive(Debug, Hash, Clone, Copy, PartialEq, Eq, Structural)]
pub struct TrackableId(pub usize);

/// A value that may carry an id.
pub trait Trackable {
    spec fn spec_id(&self) -> Option<TrackableId>;

    fn get_id(&self) -> (r: Option<TrackableId>)
        ensures
            r == self.spec_id(),
    ;
}

impl<T: Trackable> Trackable for Option<T> {
    open spec fn spec_id(&self) -> Option<TrackableId> {
        match self {
            None => None,
            Some(x) => x.spec_id(),
        }
    }

    fn get_id(&self) -> (r: Option<TrackableId>) {
        match self {
            None => None,
            Some(foo) => foo.get_id(),
        }
    }
}

/// The index after writing each `(id, cell)` pair in order: the id maps to
/// the cell and is no longer recycled.
pub open spec fn index_after_writes(
    m: Map<usize, Coordinate>,
    s: Set<usize>,
    w: Seq<(usize, Coordinate)>,
) -> (Map<usize, Coordinate>, Set<usize>)
    decreases w.len(),
{
    if w.len() == 0 {
        (m, s)
    } else {
        index_after_writes(m.insert(w[0].0, w[0].1), s.remove(w[0].0), w.drop_first())
    }
}

/// The index after removing each id in order, and whether every id was
/// present when its turn came; removal stops at the first absent id.
pub open spec fn index_after_removals(
    m: Map<usize, Coordinate>,
    s: Set<usize>,
    r: Seq<usize>,
) -> (Map<usize, Coordinate>, Set<usize>, bool)
    decreases r.len(),
{
    if r.len() == 0 {
        (m, s, true)
    } else if !m.contains_key(r[0]) {
        (m, s, false)
    } else {
        index_after_removals(m.remove(r[0]), s.insert(r[0]), r.drop_first())
    }
}

/// Where each tracked id is, and the ids that have been removed.
pub struct Index {
    data: HashMap<usize, Coordinate>,
    recycle: HashSet<usize>,
}

impl Index {
    /// The cell of each id.
    pub closed spec fn locations(self) -> Map<usize, Coordinate> {
        self.data@
    }

    /// The ids that were removed and not set again.
    pub closed spec fn recycled(self) -> Set<usize> {
        self.recycle@
    }

    /// The id the next new value receives.
    pub open spec fn spec_next_id(self) -> int {
        (self.locations().len() + self.recycled().len()) as int
    }

    pub fn new() -> (r: Index)
        ensures
            r.locations() == Map::<usize, Coordinate>::empty(),
            r.recycled() == Set::<usize>::empty(),
    {
        Index { data: HashMap::new(), recycle: HashSet::new() }
    }

    /// The number of ids ever handed out: each id is either placed or
    /// recycled.
    pub fn get_next_id(&self) -> (r: TrackableId)
        requires
            self.spec_next_id() <= usize::MAX,
        ensures
            r.0 == self.spec_next_id(),
    {
        TrackableId(self.data.len() + self.recycle.len())
    }

    /// There is an id left to hand out.
    pub fn next_id_fits(&self) -> (r: bool)
        ensures
            r == (self.spec_next_id() <= usize::MAX),
    {
        self.data.len().checked_add(self.recycle.len()).is_some()
    }

    /// Forgets where `key` is and marks it recycled; `OutOfBounds` if it is
    /// not placed.
    pub fn remove(&mut self, key: TrackableId) -> (r: Result<()>)
        ensures
            match r {
                Ok(_) => old(self).locations().contains_key(key.0) && final(self).locations()
                    == old(self).locations().remove(key.0) && final(self).recycled() == old(self).recycled().insert(key.0),
                Err(e) => !old(self).locations().contains_key(key.0) && e == Status::OutOfBounds
                    && final(self).locations() == old(self).locations() && final(self).recycled()
                    == old(self).recycled(),
            },
    {
        match self.data.remove(&key.0) {
            None => Err(Status::OutOfBounds),
            Some(_) => {
                self.recycle.insert(key.0);
                Ok(())
            },
        }
    }
}

impl Updatable for Index {}

/// The ids of `(m, s)` were handed out one by one: each id below the count
/// `m.len() + s.len()` is either placed (in `m`) or recycled (in `s`), never
/// both, and no other id is either.
pub open spec fn dense_ids(m: Map<usize, Coordinate>, s: Set<usize>) -> bool {
    &&& m.dom().finite()
    &&& s.finite()
    &&& forall|i: usize| #[trigger] m.contains_key(i) ==> !s.contains(i)
    &&& forall|i: usize|
        #![trigger m.contains_key(i)]
        #![trigger s.contains(i)]
        (m.contains_key(i) || s.contains(i)) <==> i < m.len() + s.len()
}

/// The ids of an index were handed out one by one.
pub open spec fn ids_dense(idx: Index) -> bool {
    dense_ids(idx.locations(), idx.recycled())
}

/// Placing the next id, or an id already handed out, keeps the ids dense;
/// only the next id moves the count on.
pub proof fn lemma_place_dense(m: Map<usize, Coordinate>, s: Set<usize>, id: usize, c: Coordinate)
    requires
        dense_ids(m, s),
        id <= m.len() + s.len(),
    ensures
        dense_ids(m.insert(id, c), s.remove(id)),
        m.insert(id, c).len() + s.remove(id).len() == if id == m.len() + s.len() {
            m.len() + s.len() + 1
        } else {
            m.len() + s.len()
        },
{
    let dom = m.dom();
    assert(m.insert(id, c).dom() =~= dom.insert(id));
    if dom.contains(id) {
        assert(dom.insert(id) =~= dom);
        assert(s.remove(id) =~= s);
    } else if s.contains(id) {
        assert(s.remove(id).len() == s.len() - 1);
    } else {
        assert(s.remove(id) =~= s);
    }
}

/// Removing a placed id keeps the ids dense and the count as it was.
pub proof fn lemma_remove_dense(m: Map<usize, Coordinate>, s: Set<usize>, id: usize)
    requires
        dense_ids(m, s),
        m.contains_key(id),
    ensures
        dense_ids(m.remove(id), s.insert(id)),
        m.remove(id).len() + s.insert(id).len() == m.len() + s.len(),
{
    assert(m.remove(id).dom() =~= m.dom().remove(id));
}

/// An index that has handed out no id is dense.
pub proof fn lemma_empty_index_dense(idx: Index)
    requires
        idx.locations() == Map::<usize, Coordinate>::empty(),
        idx.recycled() == Set::<usize>::empty(),
    ensures
        ids_dense(idx),
        idx.spec_next_id() == 0,
{
}

/// In a dense index the next id is neither placed nor recycled: a new value
/// never takes an id in use.
pub proof fn lemma_next_id_fresh(idx: Index)
    requires
        ids_dense(idx),
        idx.spec_next_id() <= usize::MAX,
    ensures
        !idx.locations().contains_key(idx.spec_next_id() as usize),
        !idx.recycled().contains(idx.spec_next_id() as usize),
{
}

/// Placing the next id, or an id already handed out, keeps an index dense;
/// only the next id moves the count on.
pub proof fn lemma_place_keeps_dense(before: Index, after: Index, id: usize, c: Coordinate)
    requires
        ids_dense(before),
        id <= before.spec_next_id(),
        after.locations() == before.locations().insert(id, c),
        after.recycled() == before.recycled().remove(id),
    ensures
        ids_dense(after),
        after.spec_next_id() == if id == before.spec_next_id() {
            before.spec_next_id() + 1
        } else {
            before.spec_next_id()
        },
{
    lemma_place_dense(before.locations(), before.recycled(), id, c);
}

/// Removing a placed id keeps an index dense and the count as it was.
pub proof fn lemma_remove_keeps_dense(before: Index, after: Index, id: usize)
    requires
        ids_dense(before),
        before.locations().contains_key(id),
        after.locations() == before.locations().remove(id),
        after.recycled() == before.recycled().insert(id),
    ensures
        ids_dense(after),
        after.spec_next_id() == before.spec_next_id(),
{
    lemma_remove_dense(before.locations(), before.recycled(), id);
}

impl UpdatableContainer for Index {
    type CoordinateType = TrackableId;
    type DataType = Coordinate;

    fn get(&self, key: &TrackableId) -> (r: Result<&Coordinate>)
        ensures
            match r {
                Ok(c) => self.locations().contains_key(key.0) && *c == self.locations()[key.0],
                Err(e) => !self.locations().contains_key(key.0) && e == Status::OutOfBounds,
            },
    {
        match self.data.get(&key.0) {
            Some(c) => Ok(c),
            None => Err(Status::OutOfBounds),
        }
    }

    fn mut_set(&mut self, key: &TrackableId, value: &Coordinate) -> (r: Result<()>)
        ensures
            r is Ok,
            final(self).locations() == old(self).locations().insert(key.0, *value),
            final(self).recycled() == old(self).recycled().remove(key.0),
    {
        self.data.insert(key.0, *value);
        self.recycle.remove(&key.0);
        Ok(())
    }
}

/// One more than the largest id placed by `w`, or 0 when `w` places none.
pub open spec fn ids_bound(w: Seq<(usize, Coordinate)>) -> int
    decreases w.len(),
{
    if w.len() == 0 {
        0
    } else {
        let rest = ids_bound(w.drop_last());
        if w.last().0 + 1 > rest {
            w.last().0 + 1
        } else {
            rest
        }
    }
}

/// Index changes staged against an `Index`: placements, then removals.
#[derive(Debug)]
pub struct IndexDelta {
    data: Vec<(usize, Coordinate)>,
    recycle: Vec<usize>,
}

impl IndexDelta {
    /// Staged placements, oldest first.
    pub closed spec fn writes(self) -> Seq<(usize, Coordinate)> {
        self.data@
    }

    /// Staged removals, oldest first.
    pub closed spec fn removals(self) -> Seq<usize> {
        self.recycle@
    }

    /// The index that applying this delta to `(m, s)` gives, and whether
    /// it succeeds.
    pub open spec fn spec_applied(self, m: Map<usize, Coordinate>, s: Set<usize>) -> (
        Map<usize, Coordinate>,
        Set<usize>,
        bool,
    ) {
        let written = index_after_writes(m, s, self.writes());
        index_after_removals(written.0, written.1, self.removals())
    }

    /// Stages the removal of `id`.
    pub fn remove(&mut self, id: TrackableId)
        ensures
            final(self).writes() == old(self).writes(),
            final(self).removals() == old(self).removals().push(id.0),
    {
        self.recycle.push(id.0);
    }

    /// The largest id placed by this delta, plus one (0 if none).
    pub fn next_unused_id(&self) -> (r: usize)
        requires
            forall|i: int| 0 <= i < self.writes().len() ==> #[trigger] self.writes()[i].0 < usize::MAX,
        ensures
            r == ids_bound(self.writes()),
            forall|i: int| 0 <= i < self.writes().len() ==> #[trigger] self.writes()[i].0 < r,
    {
        let mut r: usize = 0;
        let mut i: usize = 0;
        while i < self.data.len()
            invariant
                i <= self.data@.len(),
                forall|j: int| 0 <= j < self.data@.len() ==> #[trigger] self.writes()[j].0 < usize::MAX,
                forall|j: int| 0 <= j < i ==> #[trigger] self.data@[j].0 < r,
                r == ids_bound(self.data@.take(i as int)),
            decreases self.data@.len() - i,
        {
            assert(self.writes()[i as int].0 < usize::MAX);
            assert(self.data@.take(i + 1).drop_last() =~= self.data@.take(i as int));
            if self.data[i].0 >= r {
                r = self.data[i].0 + 1;
            }
            i = i + 1;
        }
        assert(self.data@.take(i as int) =~= self.data@);
        r
    }
}

impl Updatable for IndexDelta {}

impl Delta for IndexDelta {
    type Target = Index;

    fn new() -> (r: Self)
        ensures
            r.writes() == Seq::<(usize, Coordinate)>::empty(),
            r.removals() == Seq::<usize>::empty(),
    {
        IndexDelta { data: Vec::new(), recycle: Vec::new() }
    }

    /// Places each staged id, then removes each staged removal; stops with
    /// `OutOfBounds` at the first removal of an id that is not placed.
    fn apply(&self, target: &mut Index) -> (r: Result<()>)
        ensures
            ({
                let res = self.spec_applied(old(target).locations(), old(target).recycled());
                &&& final(target).locations() == res.0
                &&& final(target).recycled() == res.1
                &&& (r is Ok <==> res.2)
            }),
            r matches Err(e) ==> e == Status::OutOfBounds,
    {
        let ghost w = self.data@;
        let ghost rm = self.recycle@;
        let ghost m0 = target.locations();
        let ghost s0 = target.recycled();
        let mut i: usize = 0;
        assert(w.skip(0) =~= w);
        while i < self.data.len()
            invariant
                w == self.data@,
                m0 == old(target).locations(),
                s0 == old(target).recycled(),
                i <= w.len(),
                index_after_writes(m0, s0, w) == index_after_writes(
                    target.locations(),
                    target.recycled(),
                    w.skip(i as int),
                ),
            decreases w.len() - i,
        {
            let (k, v) = self.data[i];
            assert(w.skip(i as int).drop_first() =~= w.skip(i + 1));
            let _ = target.mut_set(&TrackableId(k), &v);
            i = i + 1;
        }
        assert(w.skip(i as int) =~= Seq::<(usize, Coordinate)>::empty());
        let ghost m1 = target.locations();
        let ghost s1 = target.recycled();
        let mut j: usize = 0;
        assert(rm.skip(0) =~= rm);
        while j < self.recycle.len()
            invariant
                rm == self.recycle@,
                w == self.data@,
                m0 == old(target).locations(),
                s0 == old(target).recycled(),
                index_after_writes(m0, s0, w) == (m1, s1),
                j <= rm.len(),
                index_after_removals(m1, s1, rm) == index_after_removals(
                    target.locations(),
                    target.recycled(),
                    rm.skip(j as int),
                ),
            decreases rm.len() - j,
        {
            let id = self.recycle[j];
            assert(rm.skip(j as int).drop_first() =~= rm.skip(j + 1));
            let res = target.remove(TrackableId(id));
            if res.is_err() {
                return Err(Status::OutOfBounds);
            }
            j = j + 1;
        }
        assert(rm.skip(j as int) =~= Seq::<usize>::empty());
        Ok(())
    }
}

impl UpdatableContainerDelta for IndexDelta {
    type CoordinateType = TrackableId;
    type DataType = Coordinate;
    type Target = Index;

    fn get<'a>(&'a self, source: &'a Index, key: &TrackableId) -> (r: Result<&'a Coordinate>)
        ensures
            match r {
                Ok(c) => match last_write(self.writes(), key.0) {
                    Some(v) => *c == v,
                    None => source.locations().contains_key(key.0) && *c == source.locations()[key.0],
                },
                Err(e) => last_write(self.writes(), key.0) is None && !source.locations().contains_key(
                    key.0,
                ) && e == Status::OutOfBounds,
            },
    {
        let cached = self.get_cached(key)?;
        match cached {
            Some(val) => Ok(val),
            None => source.get(key),
        }
    }

    fn set(&mut self, key: &TrackableId, value: &Coordinate) -> (r: Result<()>)
        ensures
            r is Ok,
            final(self).writes() == old(self).writes().push((key.0, *value)),
            final(self).removals() == old(self).removals(),
    {
        self.data.push((key.0, *value));
        Ok(())
    }

    fn get_cached(&self, key: &TrackableId) -> (r: Result<Option<&Coordinate>>)
        ensures
            match r {
                Ok(Some(v)) => last_write(self.writes(), key.0) == Some(*v),
                Ok(None) => last_write(self.writes(), key.0) is None,
                Err(_) => false,
            },
    {
        let mut i: usize = self.data.len();
        assert(self.data@.take(i as int) =~= self.data@);
        while i > 0
            invariant
                i <= self.data@.len(),
                last_write(self.data@, key.0) == last_write(self.data@.take(i as int), key.0),
            decreases i,
        {
            let ghost t = self.data@.take(i as int);
            assert(t.drop_last() =~= self.data@.take(i - 1));
            if self.data[i - 1].0 == key.0 {
                return Ok(Some(&self.data[i - 1].1));
            }
            i = i - 1;
        }
        Ok(None)
    }
}

/// A grid of possibly-identified values together with the index of where
/// each id is.
pub struct TrackableWorldLayer<DataType: Copy + Trackable> {
    pub layer: WorldLayer<DataType>,
    pub index: Index,
}

impl<T: Copy + Trackable> TrackableWorldLayer<T> {
    /// A grid filled with `default`, with an empty index.
    pub fn new(dimensions: Coordinate, default: T) -> (r: TrackableWorldLayer<T>)
        requires
            dimensions.x >= 0,
            dimensions.y >= 0,
            dimensions.x * dimensions.y <= i32::MAX,
        ensures
            r.layer.sized(),
            r.layer.dims() == dimensions,
            forall|i: int| 0 <= i < r.layer.cells().len() ==> r.layer.cells()[i] == default,
            r.index.locations() == Map::<usize, Coordinate>::empty(),
            r.index.recycled() == Set::<usize>::empty(),
    {
        TrackableWorldLayer { layer: WorldLayer::new(dimensions, default), index: Index::new() }
    }

    pub fn in_bounds(&self, location: &Coordinate) -> (r: bool)
        ensures
            r == self.layer.spec_in_bounds(*location),
    {
        self.layer.in_bounds(location)
    }

    /// The cell where `id` was last placed; `OutOfBounds` if it is not.
    pub fn get_location(&self, id: &TrackableId) -> (r: Result<&Coordinate>)
        ensures
            match r {
                Ok(c) => self.index.locations().contains_key(id.0) && *c == self.index.locations()[id.0],
                Err(e) => !self.index.locations().contains_key(id.0) && e == Status::OutOfBounds,
            },
    {
        self.index.get(id)
    }

    /// The id the next new value receives.
    pub fn next_id(&self) -> (r: TrackableId)
        requires
            self.index.spec_next_id() <= usize::MAX,
        ensures
            r.0 == self.index.spec_next_id(),
    {
        self.index.get_next_id()
    }
}

impl<T: Copy + Trackable> Updatable for TrackableWorldLayer<T> {}

impl<T: Copy + Trackable> UpdatableContainer for TrackableWorldLayer<T> {
    type CoordinateType = Coordinate;
    type DataType = T;

    fn get(&self, key: &Coordinate) -> (r: Result<&T>)
        ensures
            match r {
                Ok(v) => self.layer.spec_get(*key) == Ok::<T, Status>(*v),
                Err(e) => self.layer.spec_get(*key) == Err::<T, Status>(e),
            },
    {
        self.layer.get(key)
    }

    /// Writes `object` at `coordinate` and, if it carries an id, records
    /// that the id is there.
    fn mut_set(&mut self, coordinate: &Coordinate, object: &T) -> (r: Result<()>)
        ensures
            old(self).layer.sized(),
            final(self).layer.sized(),
            final(self).layer.dims() == old(self).layer.dims(),
            match r {
                Ok(_) => {
                    &&& old(self).layer.spec_in_bounds(*coordinate)
                    &&& final(self).layer.cells() == old(self).layer.cells().update(
                        index_of(old(self).layer.dims(), *coordinate),
                        *object,
                    )
                    &&& match object.spec_id() {
                        Some(id) => final(self).index.locations() == old(self).index.locations().insert(
                            id.0,
                            *coordinate,
                        ) && final(self).index.recycled() == old(self).index.recycled().remove(
                            id.0,
                        ),
                        None => final(self).index.locations() == old(self).index.locations()
                            && final(self).index.recycled() == old(self).index.recycled(),
                    }
                },
                Err(e) => {
                    &&& !old(self).layer.spec_in_bounds(*coordinate)
                    &&& e == Status::OutOfBounds
                    &&& final(self).layer.cells() == old(self).layer.cells()
                    &&& final(self).index.locations() == old(self).index.locations()
                    &&& final(self).index.recycled() == old(self).index.recycled()
                },
            },
    {
        self.layer.mut_set(coordinate, object)?;
        if let Some(id) = object.get_id() {
            self.index.mut_set(&id, coordinate)?;
        }
        Ok(())
    }
}

/// Writes staged against a `TrackableWorldLayer`, with the index changes
/// they imply.
#[derive(Debug)]
pub struct TrackableWorldLayerDelta<DataType: Copy + Trackable> {
    pub layer: WorldLayerDelta<DataType>,
    pub index: IndexDelta,
}

impl<T: Copy + Trackable> TrackableWorldLayerDelta<T> {
    /// Applying this delta to `target` would succeed.
    pub open spec fn applies_to(self, target: TrackableWorldLayer<T>) -> bool {
        self.layer.applies_to(target.layer) && self.index.spec_applied(
            target.index.locations(),
            target.index.recycled(),
        ).2
    }

    /// Where `id` is as seen through this delta; `OutOfBounds` if nowhere.
    pub fn get_location<'a>(&'a self, source: &'a TrackableWorldLayer<T>, id: &TrackableId) -> (r: Result<
        &'a Coordinate,
    >)
        ensures
            match r {
                Ok(c) => match last_write(self.index.writes(), id.0) {
                    Some(v) => *c == v,
                    None => source.index.locations().contains_key(id.0) && *c
                        == source.index.locations()[id.0],
                },
                Err(e) => last_write(self.index.writes(), id.0) is None
                    && !source.index.locations().contains_key(id.0) && e == Status::OutOfBounds,
            },
    {
        self.index.get(&source.index, id)
    }

    /// An id that neither the source nor this delta has handed out.
    pub fn get_next_id(&self, source: &TrackableWorldLayer<T>) -> (r: TrackableId)
        requires
            source.index.spec_next_id() <= usize::MAX,
            forall|i: int|
                0 <= i < self.index.writes().len() ==> #[trigger] self.index.writes()[i].0 < usize::MAX,
        ensures
            r.0 == if ids_bound(self.index.writes()) > source.index.spec_next_id() {
                ids_bound(self.index.writes())
            } else {
                source.index.spec_next_id()
            },
            r.0 >= source.index.spec_next_id(),
            forall|i: int| 0 <= i < self.index.writes().len() ==> #[trigger] self.index.writes()[i].0 != r.0,
    {
        let base = source.next_id();
        let staged = self.index.next_unused_id();
        if staged > base.0 {
            TrackableId(staged)
        } else {
            base
        }
    }

    /// Stages the removal of `id` from the index.
    pub fn remove(&mut self, id: TrackableId)
        ensures
            final(self).layer.writes() == old(self).layer.writes(),
            final(self).index.writes() == old(self).index.writes(),
            final(self).index.removals() == old(self).index.removals().push(id.0),
    {
        self.index.remove(id);
    }
}

impl<T: Copy + Trackable> Updatable for TrackableWorldLayerDelta<T> {}

impl<T: Copy + Trackable> Delta for TrackableWorldLayerDelta<T> {
    type Target = TrackableWorldLayer<T>;

    fn new() -> (r: Self)
        ensures
            r.layer.writes() == Seq::<(Coordinate, T)>::empty(),
            r.index.writes() == Seq::<(usize, Coordinate)>::empty(),
            r.index.removals() == Seq::<usize>::empty(),
    {
        TrackableWorldLayerDelta { layer: WorldLayerDelta::new(), index: IndexDelta::new() }
    }

    /// Applies the grid writes, then (if they all fell in the grid) the
    /// index changes.
    fn apply(&self, target: &mut TrackableWorldLayer<T>) -> (r: Result<()>)
        ensures
            old(target).layer.sized(),
            final(target).layer.sized(),
            final(target).layer.dims() == old(target).layer.dims(),
            final(target).layer.cells() == super::worldlayer::apply_writes(
                old(target).layer.cells(),
                old(target).layer.dims(),
                self.layer.writes(),
            ),
            ({
                let res = self.index.spec_applied(
                    old(target).index.locations(),
                    old(target).index.recycled(),
                );
                if self.layer.applies_to(old(target).layer) {
                    final(target).index.locations() == res.0 && final(target).index.recycled()
                        == res.1
                } else {
                    final(target).index.locations() == old(target).index.locations()
                        && final(target).index.recycled() == old(target).index.recycled()
                }
            }),
            r is Ok <==> self.applies_to(*old(target)),
            r matches Err(e) ==> e == Status::OutOfBounds,
    {
        self.layer.apply(&mut target.layer)?;
        self.index.apply(&mut target.index)?;
        Ok(())
    }
}

impl<T: Copy + Trackable> UpdatableContainerDelta for TrackableWorldLayerDelta<T> {
    type CoordinateType = Coordinate;
    type DataType = T;
    type Target = TrackableWorldLayer<T>;

    fn get<'a>(&'a self, source: &'a TrackableWorldLayer<T>, key: &Coordinate) -> (r: Result<&'a T>)
        ensures
            match r {
                Ok(v) => self.layer.spec_read(source.layer, *key) == Ok::<T, Status>(*v),
                Err(e) => self.layer.spec_read(source.layer, *key) == Err::<T, Status>(e),
            },
    {
        self.layer.get(&source.layer, key)
    }

    /// Stages `object` at `coordinate` and, if it carries an id, stages that
    /// the id is there.
    fn set(&mut self, coordinate: &Coordinate, object: &T) -> (r: Result<()>)
        ensures
            r is Ok,
            final(self).layer.writes() == old(self).layer.writes().push((*coordinate, *object)),
            final(self).index.removals() == old(self).index.removals(),
            match object.spec_id() {
                Some(id) => final(self).index.writes() == old(self).index.writes().push(
                    (id.0, *coordinate),
                ),
                None => final(self).index.writes() == old(self).index.writes(),
            },
    {
        self.layer.set(coordinate, object)?;
        if let Some(id) = object.get_id() {
            self.index.set(&id, coordinate)?;
        }
        Ok(())
    }

    fn get_cached(&self, key: &Coordinate) -> (r: Result<Option<&T>>)
        ensures
            match r {
                Ok(Some(v)) => last_write(self.layer.writes(), *key) == Some(*v),
                Ok(None) => last_write(self.layer.writes(), *key) is None,
                Err(_) => false,
            },
    {
        self.layer.get_cached(key)
    }
}

} // verus!
