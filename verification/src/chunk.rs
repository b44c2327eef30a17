//! Chunk indexer and instance store.
//!
//! A chunk is a fixed-size axis-aligned spatial bucket. A position maps
//! to the chunk holding it by floor division of each coordinate by the
//! chunk size, so negative coordinates bucket correctly: `-0.1` lands in
//! chunk `-1`, not `0`. The store is a map from chunk coordinate to the
//! instances that fell into that chunk; its keys are unique and no chunk
//! is ever empty.

use vstd::prelude::*;
use crate::fixed::{Vec2Fx, Vec3Fx, floor_div};

verus! {

/// The integer coordinate of one spatial chunk.
#[derive(Clone, Copy, PartialEq, Eq, Structural, Debug)]
pub struct ChunkCoord {
    pub x: i64,
    pub y: i64,
    pub z: i64,
}

/// One placed grass blade: world-space position, face normal of the
/// source triangle, and interpolated texture coordinate.
#[derive(Clone, Copy, PartialEq, Eq, Structural, Debug)]
pub struct InstanceRecord {
    pub position: Vec3Fx,
    pub normal: Vec3Fx,
    pub uv: Vec2Fx,
}

/// The chunk that holds a position: floor division of each component by
/// the chunk size.
pub open spec fn chunk_of_spec(p: Vec3Fx, chunk_size: i64) -> ChunkCoord {
    ChunkCoord {
        x: (p.x as int / chunk_size as int) as i64,
        y: (p.y as int / chunk_size as int) as i64,
        z: (p.z as int / chunk_size as int) as i64,
    }
}

/// Maps a position to its chunk coordinate. Uses floor division, not
/// truncation, so a slightly negative position falls into the chunk at
/// `-1` rather than sharing chunk `0` with slightly positive ones.
pub fn chunk_of(p: Vec3Fx, chunk_size: i64) -> (c: ChunkCoord)
    requires
        chunk_size > 0,
    ensures
        c == chunk_of_spec(p, chunk_size),
{
    let x = floor_div(p.x, chunk_size);
    let y = floor_div(p.y, chunk_size);
    let z = floor_div(p.z, chunk_size);
    ChunkCoord { x, y, z }
}

/// Chunk consistency: two positions whose coordinates floor-divide
/// equally by the chunk size always land in the same chunk.
pub proof fn lemma_chunk_consistency(p: Vec3Fx, q: Vec3Fx, chunk_size: i64)
    requires
        chunk_size > 0,
        p.x as int / chunk_size as int == q.x as int / chunk_size as int,
        p.y as int / chunk_size as int == q.y as int / chunk_size as int,
        p.z as int / chunk_size as int == q.z as int / chunk_size as int,
    ensures
        chunk_of_spec(p, chunk_size) == chunk_of_spec(q, chunk_size),
{
}

struct ChunkEntry {
    coord: ChunkCoord,
    instances: Vec<InstanceRecord>,
}

spec fn unique_coords(s: Seq<ChunkEntry>) -> bool {
    forall|i: int, j: int|
        0 <= i < j < s.len() ==> s[i].coord != s[j].coord
}

spec fn has_entry(s: Seq<ChunkEntry>, c: ChunkCoord) -> bool {
    exists|i: int| 0 <= i < s.len() && s[i].coord == c
}

spec fn entry_index(s: Seq<ChunkEntry>, c: ChunkCoord) -> int {
    choose|i: int| 0 <= i < s.len() && s[i].coord == c
}

spec fn entries_view(s: Seq<ChunkEntry>) -> Map<ChunkCoord, Seq<InstanceRecord>> {
    Map::new(|c: ChunkCoord| has_entry(s, c), |c: ChunkCoord| s[entry_index(s, c)].instances@)
}

spec fn entries_total(s: Seq<ChunkEntry>) -> nat
    decreases s.len(),
{
    if s.len() == 0 {
        0
    } else {
        entries_total(s.drop_last()) + s.last().instances@.len()
    }
}

proof fn lemma_entry_index(s: Seq<ChunkEntry>, c: ChunkCoord)
    requires
        unique_coords(s),
        has_entry(s, c),
    ensures
        0 <= entry_index(s, c) < s.len(),
        s[entry_index(s, c)].coord == c,
        forall|j: int| 0 <= j < s.len() && s[j].coord == c ==> j == entry_index(s, c),
{
    let i = entry_index(s, c);
    assert(0 <= i < s.len() && s[i].coord == c);
    assert forall|j: int| 0 <= j < s.len() && s[j].coord == c implies j == i by {
        if j < i {
            assert(s[j].coord != s[i].coord);
        } else if i < j {
            assert(s[i].coord != s[j].coord);
        }
    }
}

proof fn lemma_total_update(s: Seq<ChunkEntry>, i: int, e: ChunkEntry)
    requires
        0 <= i < s.len(),
        e.instances@.len() == s[i].instances@.len() + 1,
    ensures
        entries_total(s.update(i, e)) == entries_total(s) + 1,
    decreases s.len(),
{
    let s2 = s.update(i, e);
    if i == s.len() - 1 {
        assert(s2.drop_last() =~= s.drop_last());
    } else {
        assert(s2.drop_last() =~= s.drop_last().update(i, e));
        lemma_total_update(s.drop_last(), i, e);
    }
}

/// The instance store: a mapping from chunk coordinate to the ordered
/// collection of instances that chunk owns. Keys are unique and every
/// stored collection is non-empty.
pub struct ChunkMap {
    entries: Vec<ChunkEntry>,
}

impl View for ChunkMap {
    type V = Map<ChunkCoord, Seq<InstanceRecord>>;

    closed spec fn view(&self) -> Map<ChunkCoord, Seq<InstanceRecord>> {
        entries_view(self.entries@)
    }
}

impl ChunkMap {
    /// Keys unique; no chunk holds an empty collection.
    pub closed spec fn wf(self) -> bool {
        &&& unique_coords(self.entries@)
        &&& forall|i: int| 0 <= i < self.entries@.len() ==> self.entries@[i].instances@.len() > 0
    }

    /// The number of instances in the whole store.
    pub closed spec fn total(self) -> nat {
        entries_total(self.entries@)
    }

    /// The number of chunks in the store.
    pub closed spec fn chunk_count(self) -> nat {
        self.entries@.len()
    }

    /// A store with no chunks holds no instances, and the other way
    /// round.
    pub proof fn lemma_total_zero(self)
        requires
            self.wf(),
        ensures
            self.total() == 0 <==> self.chunk_count() == 0,
            self.chunk_count() == 0 <==> self@ =~= Map::<ChunkCoord, Seq<InstanceRecord>>::empty(),
    {
        if self.entries@.len() == 0 {
            assert(self@ =~= Map::<ChunkCoord, Seq<InstanceRecord>>::empty());
        } else {
            let c = self.entries@.last().coord;
            assert(entries_total(self.entries@) >= self.entries@.last().instances@.len());
            assert(has_entry(self.entries@, c));
            assert(self@.dom().contains(c));
            assert(!(self@ =~= Map::<ChunkCoord, Seq<InstanceRecord>>::empty()));
        }
    }

    /// The empty store.
    pub fn new() -> (m: ChunkMap)
        ensures
            m.wf(),
            m@ =~= Map::<ChunkCoord, Seq<InstanceRecord>>::empty(),
            m.total() == 0,
            m.chunk_count() == 0,
    {
        ChunkMap { entries: Vec::new() }
    }

    /// Appends one instance to the collection of the given chunk,
    /// creating the chunk if it does not exist yet. Exactly one instance
    /// is added; every other chunk is untouched.
    pub fn insert(&mut self, coord: ChunkCoord, rec: InstanceRecord)
        requires
            old(self).wf(),
        ensures
            final(self).wf(),
            final(self)@ == old(self)@.insert(
                coord,
                if old(self)@.contains_key(coord) {
                    old(self)@[coord].push(rec)
                } else {
                    seq![rec]
                },
            ),
            final(self).total() == old(self).total() + 1,
    {
        let ghost s0 = self.entries@;
        let n = self.entries.len();
        let mut found: usize = n;
        let mut i: usize = 0;
        while i < n
            invariant
                0 <= i <= n,
                n == self.entries@.len(),
                self.entries@ == s0,
                found == n || (found < n && s0[found as int].coord == coord),
                found == n ==> forall|j: int| 0 <= j < i ==> s0[j].coord != coord,
            decreases n - i,
        {
            if self.entries[i].coord == coord {
                found = i;
            }
            i = i + 1;
        }
        if found < n {
            let mut entry = self.entries.remove(found);
            entry.instances.push(rec);
            self.entries.insert(found, entry);
            proof {
                let s2 = self.entries@;
                let e2 = s2[found as int];
                assert(s2 =~= s0.update(found as int, e2));
                lemma_total_update(s0, found as int, e2);
                assert(has_entry(s0, coord));
                lemma_entry_index(s0, coord);
                assert(entry_index(s0, coord) == found as int);
                assert(unique_coords(s2));
                assert forall|c: ChunkCoord| true implies #[trigger] has_entry(s2, c) == has_entry(
                    s0,
                    c,
                ) by {
                    if has_entry(s2, c) {
                        let k = entry_index(s2, c);
                        assert(0 <= k < s0.len() && s0[k].coord == c);
                    }
                    if has_entry(s0, c) {
                        let k = entry_index(s0, c);
                        assert(0 <= k < s2.len() && s2[k].coord == c);
                    }
                }
                assert forall|c: ChunkCoord| has_entry(s2, c) implies entries_view(s2)[c]
                    == entries_view(s0).insert(coord, s0[found as int].instances@.push(rec))[c] by {
                    lemma_entry_index(s2, c);
                    lemma_entry_index(s0, c);
                    if c == coord {
                        assert(s2[found as int].coord == c);
                        assert(entry_index(s2, c) == found as int);
                    } else {
                        let k = entry_index(s2, c);
                        assert(k != found as int);
                        assert(s0[k].coord == c);
                        assert(entry_index(s0, c) == k);
                    }
                }
                assert(entries_view(s2) =~= entries_view(s0).insert(
                    coord,
                    s0[found as int].instances@.push(rec),
                ));
            }
        } else {
            let mut instances = Vec::new();
            instances.push(rec);
            let entry = ChunkEntry { coord, instances };
            self.entries.push(entry);
            proof {
                let s2 = self.entries@;
                assert(s2.drop_last() =~= s0);
                assert(!has_entry(s0, coord));
                assert(unique_coords(s2)) by {
                    assert forall|a: int, b: int| 0 <= a < b < s2.len() implies s2[a].coord
                        != s2[b].coord by {
                        if b == s2.len() - 1 {
                            assert(s0[a].coord != coord);
                        }
                    }
                }
                assert forall|c: ChunkCoord| has_entry(s2, c) implies entries_view(s2)[c]
                    == entries_view(s0).insert(coord, seq![rec])[c] by {
                    lemma_entry_index(s2, c);
                    let k = entry_index(s2, c);
                    if c == coord {
                        assert(k == s2.len() - 1);
                        assert(s2[k].instances@ =~= seq![rec]);
                    } else {
                        assert(k < s2.len() - 1);
                        assert(0 <= k < s0.len() && s0[k].coord == c);
                        lemma_entry_index(s0, c);
                        assert(entry_index(s0, c) == k);
                    }
                }
                assert forall|c: ChunkCoord| true implies #[trigger] has_entry(s2, c) == (
                has_entry(s0, c) || c == coord) by {
                    if has_entry(s0, c) {
                        let k = entry_index(s0, c);
                        assert(0 <= k < s2.len() && s2[k].coord == c);
                    }
                    if c == coord {
                        assert(s2[s2.len() - 1].coord == c);
                    }
                    if has_entry(s2, c) && c != coord {
                        let k = entry_index(s2, c);
                        assert(0 <= k < s0.len() && s0[k].coord == c);
                    }
                }
                assert(entries_view(s2) =~= entries_view(s0).insert(coord, seq![rec]));
            }
        }
    }

    /// The instances of one chunk, or `None` when no instance fell into
    /// that chunk.
    pub fn get(&self, coord: ChunkCoord) -> (r: Option<&Vec<InstanceRecord>>)
        requires
            self.wf(),
        ensures
            match r {
                Some(v) => self@.contains_key(coord) && v@ == self@[coord],
                None => !self@.contains_key(coord),
            },
    {
        let n = self.entries.len();
        let mut i: usize = 0;
        while i < n
            invariant
                0 <= i <= n,
                n == self.entries@.len(),
                self.wf(),
                forall|j: int| 0 <= j < i ==> self.entries@[j].coord != coord,
            decreases n - i,
        {
            if self.entries[i].coord == coord {
                proof {
                    assert(has_entry(self.entries@, coord));
                    lemma_entry_index(self.entries@, coord);
                }
                return Some(&self.entries[i].instances);
            }
            i = i + 1;
        }
        proof {
            if has_entry(self.entries@, coord) {
                let k = entry_index(self.entries@, coord);
                assert(0 <= k < n && self.entries@[k].coord == coord);
            }
        }
        None
    }

    /// The number of chunks.
    pub fn num_chunks(&self) -> (r: usize)
        ensures
            r == self.chunk_count(),
    {
        self.entries.len()
    }

    /// The coordinates of all chunks, in store order.
    pub fn coords(&self) -> (r: Vec<ChunkCoord>)
        requires
            self.wf(),
        ensures
            r@.len() == self.chunk_count(),
            forall|i: int| 0 <= i < r@.len() ==> self@.contains_key(#[trigger] r@[i]),
    {
        let n = self.entries.len();
        let mut out: Vec<ChunkCoord> = Vec::new();
        let mut i: usize = 0;
        while i < n
            invariant
                0 <= i <= n,
                n == self.entries@.len(),
                self.wf(),
                out@.len() == i,
                forall|j: int| 0 <= j < i ==> out@[j] == self.entries@[j].coord,
                forall|j: int| 0 <= j < i ==> self@.contains_key(#[trigger] out@[j]),
            decreases n - i,
        {
            let c = self.entries[i].coord;
            proof {
                assert(self.entries@[i as int].coord == c);
                assert(has_entry(self.entries@, c));
            }
            out.push(c);
            i = i + 1;
        }
        out
    }

    /// The total number of instances across all chunks.
    pub fn total_instances(&self) -> (r: u128)
        ensures
            r == self.total(),
    {
        let n = self.entries.len();
        let mut sum: u128 = 0;
        let mut i: usize = 0;
        proof {
            assert(self.entries@.subrange(0, 0) =~= Seq::<ChunkEntry>::empty());
        }
        while i < n
            invariant
                0 <= i <= n,
                n == self.entries@.len(),
                sum == entries_total(self.entries@.subrange(0, i as int)),
                sum <= i * 0xffff_ffff_ffff_ffffu64,
            decreases n - i,
        {
            let k = self.entries[i].instances.len();
            proof {
                let pre = self.entries@.subrange(0, i as int);
                let post = self.entries@.subrange(0, i + 1);
                assert(post.drop_last() =~= pre);
                assert(post.last() == self.entries@[i as int]);
                assert((i + 1) * 0xffff_ffff_ffff_ffffu64 == i * 0xffff_ffff_ffff_ffffu64
                    + 0xffff_ffff_ffff_ffffu64) by (nonlinear_arith);
                vstd::arithmetic::mul::lemma_mul_inequality(
                    (i + 1) as int,
                    0xffff_ffff_ffff_ffffu64 as int,
                    0xffff_ffff_ffff_ffffu64 as int,
                );
            }
            sum = sum + (k as u128);
            i = i + 1;
        }
        proof {
            assert(self.entries@.subrange(0, n as int) =~= self.entries@);
        }
        sum
    }
}

} // verus!
