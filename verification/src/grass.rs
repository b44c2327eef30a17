//! Grass configuration and the generation orchestrator.
//!
//! [`generate_grass`] walks the index list of a source mesh three
//! indices at a time, scales each triangle into world space, asks the
//! density estimator for an instance count, samples that many surface
//! points, and buckets every instance into its spatial chunk. The
//! sampled points are random, but the instance count of every triangle
//! is not: the total size of the resulting chunk map is proved exactly,
//! and every stored instance is proved to sit in the chunk it is keyed
//! under.

use vstd::prelude::*;
use crate::fixed::{Vec2Fx, Vec3Fx, COORD_LIMIT, SCALE, WORLD_LIMIT, floor_div};
use crate::density::{count_spec, instance_count, lemma_degenerate_triangle, norm_sq};
use crate::sampler::{face_normal, sample};
use crate::chunk::{ChunkCoord, ChunkMap, InstanceRecord, chunk_of, chunk_of_spec};
use crate::mesh::MeshData;

verus! {

/// An RGBA color in fixed-point channels: `SCALE` stands for a channel
/// value of `1.0`.
#[derive(Clone, Copy, PartialEq, Eq, Structural, Debug)]
pub struct ColorFx {
    pub r: u32,
    pub g: u32,
    pub b: u32,
    pub a: u32,
}

/// The grass color palette: ambient occlusion, two blend colors, and
/// the blade tip color.
#[derive(Clone, Copy, PartialEq, Eq, Structural, Debug)]
pub struct GrassColor {
    pub ao: ColorFx,
    pub color_1: ColorFx,
    pub color_2: ColorFx,
    pub tip: ColorFx,
}

impl GrassColor {
    /// The palette as a flat 16-channel blob, in palette order, for the
    /// shading collaborator.
    pub fn to_array(&self) -> (r: [u32; 16])
        ensures
            r@ =~= seq![
                self.ao.r, self.ao.g, self.ao.b, self.ao.a,
                self.color_1.r, self.color_1.g, self.color_1.b, self.color_1.a,
                self.color_2.r, self.color_2.g, self.color_2.b, self.color_2.a,
                self.tip.r, self.tip.g, self.tip.b, self.tip.a,
            ],
    {
        [
            self.ao.r, self.ao.g, self.ao.b, self.ao.a,
            self.color_1.r, self.color_1.g, self.color_1.b, self.color_1.a,
            self.color_2.r, self.color_2.g, self.color_2.b, self.color_2.a,
            self.tip.r, self.tip.g, self.tip.b, self.tip.a,
        ]
    }
}

/// The default palette: a dark ambient-occlusion tone, two green blend
/// colors, and a light tip.
pub open spec fn default_color() -> GrassColor {
    GrassColor {
        ao: ColorFx { r: 10, g: 20, b: 50, a: 1000 },
        color_1: ColorFx { r: 100, g: 230, b: 90, a: 1000 },
        color_2: ColorFx { r: 120, g: 390, b: 150, a: 1000 },
        tip: ColorFx { r: 700, g: 700, b: 700, a: 1000 },
    }
}

impl Default for GrassColor {
    fn default() -> (c: GrassColor)
        ensures
            c == default_color(),
    {
        GrassColor {
            ao: ColorFx { r: 10, g: 20, b: 50, a: 1000 },
            color_1: ColorFx { r: 100, g: 230, b: 90, a: 1000 },
            color_2: ColorFx { r: 120, g: 390, b: 150, a: 1000 },
            tip: ColorFx { r: 700, g: 700, b: 700, a: 1000 },
        }
    }
}

/// The shape of one grass blade, in fixed-point units.
#[derive(Clone, Copy, PartialEq, Eq, Structural, Debug)]
pub struct Blade {
    pub length: i64,
    pub width: i64,
    pub tilt: i64,
    pub tilt_variance: i64,
    pub bend: i64,
}

/// The default blade shape: world length `1.5`, width `1.0`, a
/// moderate tilt and bend.
pub open spec fn default_blade() -> Blade {
    Blade { length: 1500, width: 1000, tilt: 500, tilt_variance: 200, bend: 500 }
}

impl Default for Blade {
    fn default() -> (b: Blade)
        ensures
            b == default_blade(),
    {
        Blade { length: 1500, width: 1000, tilt: 500, tilt_variance: 200, bend: 500 }
    }
}

/// One grass entity: the scene node it grows on, the target density in
/// blades per unit world area, and its appearance parameters. Changing
/// the density calls for regeneration; changing color or blade shape
/// only refreshes the appearance blob.
#[derive(Clone, Copy, PartialEq, Eq, Structural, Debug)]
pub struct Grass {
    pub entity: Option<u64>,
    pub density: u32,
    pub color: GrassColor,
    pub blade: Blade,
}

impl Grass {
    /// One generation pass for this entity's parameters; see
    /// [`generate_grass`].
    pub fn generate_grass(&self, mesh: &MeshData, scale: Vec3Fx, chunk_size: i64) -> (out:
        ChunkMap)
        requires
            mesh.wf(),
            scale.in_bounds(COORD_LIMIT as int),
            chunk_size > 0,
        ensures
            out.wf(),
            consistent_with(out@, chunk_size),
            records_in_bounds(out@),
            out.total() == mesh_total_spec(*mesh, scale, self.density),
    {
        generate_grass(self, mesh, scale, chunk_size)
    }
}

impl Default for Grass {
    fn default() -> (g: Grass)
        ensures
            g.entity is None,
            g.density == 0,
            g.color == default_color(),
            g.blade == default_blade(),
    {
        Grass {
            entity: None,
            density: 0,
            color: GrassColor::default(),
            blade: Blade::default(),
        }
    }
}

/// One component of a mesh-local value brought into world space:
/// `p * s / SCALE`, rounded toward negative infinity.
pub open spec fn scale_component(p: int, s: int) -> int {
    (p * s) / SCALE as int
}

/// A mesh-local vertex scaled into world space, componentwise.
pub open spec fn scaled_vertex(p: Vec3Fx, s: Vec3Fx) -> Vec3Fx {
    Vec3Fx {
        x: scale_component(p.x as int, s.x as int) as i64,
        y: scale_component(p.y as int, s.y as int) as i64,
        z: scale_component(p.z as int, s.z as int) as i64,
    }
}

fn scale_mul_div(a: i64, b: i64) -> (r: i64)
    requires
        -COORD_LIMIT <= a <= COORD_LIMIT,
        -COORD_LIMIT <= b <= COORD_LIMIT,
    ensures
        r == scale_component(a as int, b as int),
        -WORLD_LIMIT <= r <= WORLD_LIMIT,
{
    proof {
        assert(-1_000_000_000_000 <= (a as int) * (b as int) <= 1_000_000_000_000)
            by (nonlinear_arith)
            requires
                -1_000_000 <= a <= 1_000_000,
                -1_000_000 <= b <= 1_000_000,
        ;
    }
    let m = a * b;
    let q = floor_div(m, 1000);
    proof {
        vstd::arithmetic::div_mod::lemma_fundamental_div_mod_converse(
            -1_000_000_000_000,
            1000,
            -1_000_000_000,
            0,
        );
        vstd::arithmetic::div_mod::lemma_fundamental_div_mod_converse(
            1_000_000_000_000,
            1000,
            1_000_000_000,
            0,
        );
        vstd::arithmetic::div_mod::lemma_div_is_ordered(-1_000_000_000_000, m as int, 1000);
        vstd::arithmetic::div_mod::lemma_div_is_ordered(m as int, 1_000_000_000_000, 1000);
    }
    q
}

/// A vertex brought into world space by the entity transform's scale.
pub fn scale_vertex(p: Vec3Fx, s: Vec3Fx) -> (r: Vec3Fx)
    requires
        p.in_bounds(COORD_LIMIT as int),
        s.in_bounds(COORD_LIMIT as int),
    ensures
        r == scaled_vertex(p, s),
        r.in_bounds(WORLD_LIMIT as int),
{
    let x = scale_mul_div(p.x, s.x);
    let y = scale_mul_div(p.y, s.y);
    let z = scale_mul_div(p.z, s.z);
    Vec3Fx { x, y, z }
}

/// The triangle `t` of the index list has all three indices within both
/// attribute lists.
pub open spec fn tri_valid(
    positions: Seq<Vec3Fx>,
    uvs: Seq<Vec2Fx>,
    indices: Seq<u32>,
    t: int,
) -> bool {
    &&& indices[3 * t] < positions.len() && indices[3 * t] < uvs.len()
    &&& indices[3 * t + 1] < positions.len() && indices[3 * t + 1] < uvs.len()
    &&& indices[3 * t + 2] < positions.len() && indices[3 * t + 2] < uvs.len()
}

/// Corner `k` of triangle `t`, in world space.
pub open spec fn tri_vertex(
    positions: Seq<Vec3Fx>,
    indices: Seq<u32>,
    scale: Vec3Fx,
    t: int,
    k: int,
) -> Vec3Fx {
    scaled_vertex(positions[indices[3 * t + k] as int], scale)
}

/// The number of instances triangle `t` receives: its density-scaled
/// count when its indices are in range, and zero when they are not
/// (the triangle is skipped rather than failing the pass).
pub open spec fn tri_count(
    positions: Seq<Vec3Fx>,
    uvs: Seq<Vec2Fx>,
    indices: Seq<u32>,
    scale: Vec3Fx,
    density: u32,
    t: int,
) -> nat {
    if tri_valid(positions, uvs, indices, t) {
        count_spec(
            tri_vertex(positions, indices, scale, t, 0),
            tri_vertex(positions, indices, scale, t, 1),
            tri_vertex(positions, indices, scale, t, 2),
            density,
        )
    } else {
        0
    }
}

/// The number of instances of the first `n` triangles together.
pub open spec fn total_count(
    positions: Seq<Vec3Fx>,
    uvs: Seq<Vec2Fx>,
    indices: Seq<u32>,
    scale: Vec3Fx,
    density: u32,
    n: int,
) -> nat
    decreases n,
{
    if n <= 0 {
        0
    } else {
        total_count(positions, uvs, indices, scale, density, n - 1) + tri_count(
            positions,
            uvs,
            indices,
            scale,
            density,
            n - 1,
        )
    }
}

/// The number of instances one full generation pass produces for a
/// mesh: zero when an attribute is missing, else the sum over all whole
/// index triples.
pub open spec fn mesh_total_spec(mesh: MeshData, scale: Vec3Fx, density: u32) -> nat {
    if mesh.complete() {
        total_count(
            mesh.positions->Some_0@,
            mesh.uvs->Some_0@,
            mesh.indices->Some_0@,
            scale,
            density,
            mesh.indices->Some_0@.len() as int / 3,
        )
    } else {
        0
    }
}

/// Every instance stored under a chunk coordinate really lies in that
/// chunk.
pub open spec fn consistent_with(
    m: Map<ChunkCoord, Seq<InstanceRecord>>,
    chunk_size: i64,
) -> bool {
    forall|c: ChunkCoord, i: int|
        m.contains_key(c) && 0 <= i < m[c].len() ==> chunk_of_spec(
            (#[trigger] m[c][i]).position,
            chunk_size,
        ) == c
}

/// Every stored instance carries a world-space position and UV within
/// the fixed-point working range, and a normal no component of which
/// exceeds `SCALE` in magnitude.
pub open spec fn records_in_bounds(m: Map<ChunkCoord, Seq<InstanceRecord>>) -> bool {
    forall|c: ChunkCoord, i: int|
        m.contains_key(c) && 0 <= i < m[c].len() ==> (#[trigger] m[c][i]).position.in_bounds(
            WORLD_LIMIT as int,
        ) && m[c][i].normal.in_bounds(SCALE as int) && m[c][i].uv.in_bounds(WORLD_LIMIT as int)
}

/// One full generation pass: walks the index list in groups of three,
/// places `ceil(density * area)` instances on each triangle, and
/// buckets them by chunk. Missing attributes yield an empty map;
/// triangles with out-of-range indices are skipped; a trailing partial
/// index group is ignored.
pub fn generate_grass(grass: &Grass, mesh: &MeshData, scale: Vec3Fx, chunk_size: i64) -> (out:
    ChunkMap)
    requires
        mesh.wf(),
        scale.in_bounds(COORD_LIMIT as int),
        chunk_size > 0,
    ensures
        out.wf(),
        consistent_with(out@, chunk_size),
        records_in_bounds(out@),
        out.total() == mesh_total_spec(*mesh, scale, grass.density),
        mesh_total_spec(*mesh, scale, grass.density) == 0 ==> out@ =~= Map::<
            ChunkCoord,
            Seq<InstanceRecord>,
        >::empty(),
        !mesh.complete() ==> out@ =~= Map::<ChunkCoord, Seq<InstanceRecord>>::empty(),
{
    let mut out = ChunkMap::new();
    let density = grass.density;

    let positions = match &mesh.positions {
        Some(p) => p,
        None => {
            proof {
                out.lemma_total_zero();
            }
            return out;
        },
    };
    let uvs = match &mesh.uvs {
        Some(u) => u,
        None => {
            proof {
                out.lemma_total_zero();
            }
            return out;
        },
    };
    let indices = match &mesh.indices {
        Some(ix) => ix,
        None => {
            proof {
                out.lemma_total_zero();
            }
            return out;
        },
    };

    let n_idx = indices.len();
    let n_tris = n_idx / 3;
    proof {
        vstd::arithmetic::div_mod::lemma_fundamental_div_mod(n_idx as int, 3);
    }
    let mut t: usize = 0;
    while t < n_tris
        invariant
            t <= n_tris,
            n_tris == indices@.len() as int / 3,
            3 * n_tris <= indices@.len(),
            indices@.len() <= usize::MAX,
            mesh.complete(),
            positions@ == mesh.positions->Some_0@,
            uvs@ == mesh.uvs->Some_0@,
            indices@ == mesh.indices->Some_0@,
            mesh.wf(),
            scale.in_bounds(COORD_LIMIT as int),
            chunk_size > 0,
            out.wf(),
            consistent_with(out@, chunk_size),
            records_in_bounds(out@),
            out.total() == total_count(positions@, uvs@, indices@, scale, density, t as int),
        decreases n_tris - t,
    {
        let i0 = indices[3 * t];
        let i1 = indices[3 * t + 1];
        let i2 = indices[3 * t + 2];
        let np = positions.len();
        let nu = uvs.len();
        let ok = (i0 as usize) < np && (i1 as usize) < np && (i2 as usize) < np
            && (i0 as usize) < nu && (i1 as usize) < nu && (i2 as usize) < nu;
        if ok {
            proof {
                assert(mesh.positions->Some_0@[i0 as int].in_bounds(COORD_LIMIT as int));
                assert(mesh.positions->Some_0@[i1 as int].in_bounds(COORD_LIMIT as int));
                assert(mesh.positions->Some_0@[i2 as int].in_bounds(COORD_LIMIT as int));
                assert(mesh.uvs->Some_0@[i0 as int].in_bounds(COORD_LIMIT as int));
                assert(mesh.uvs->Some_0@[i1 as int].in_bounds(COORD_LIMIT as int));
                assert(mesh.uvs->Some_0@[i2 as int].in_bounds(COORD_LIMIT as int));
            }
            let v0 = scale_vertex(positions[i0 as usize], scale);
            let v1 = scale_vertex(positions[i1 as usize], scale);
            let v2 = scale_vertex(positions[i2 as usize], scale);
            proof {
                assert(v0 == tri_vertex(positions@, indices@, scale, t as int, 0));
                assert(v1 == tri_vertex(positions@, indices@, scale, t as int, 1));
                assert(v2 == tri_vertex(positions@, indices@, scale, t as int, 2));
            }
            let count = instance_count(v0, v1, v2, density);
            if count > 0 {
                proof {
                    if norm_sq(v0, v1, v2) == 0 {
                        lemma_degenerate_triangle(v0, v1, v2, density);
                    }
                }
                let nrm = face_normal(v0, v1, v2);
                let t0 = uvs[i0 as usize];
                let t1 = uvs[i1 as usize];
                let t2 = uvs[i2 as usize];
                let samples = sample(v0, v1, v2, t0, t1, t2, count);
                let ghost base = out.total();
                let n_samples = samples.len();
                let mut j: usize = 0;
                while j < n_samples
                    invariant
                        j <= n_samples,
                        n_samples == samples@.len(),
                        chunk_size > 0,
                        nrm.in_bounds(SCALE as int),
                        forall|i: int|
                            0 <= i < samples@.len() ==> (#[trigger] samples@[i]).0.in_bounds(
                                WORLD_LIMIT as int,
                            ) && samples@[i].1.in_bounds(WORLD_LIMIT as int),
                        out.wf(),
                        consistent_with(out@, chunk_size),
                        records_in_bounds(out@),
                        out.total() == base + j,
                    decreases n_samples - j,
                {
                    let s = samples[j];
                    let rec = InstanceRecord { position: s.0, normal: nrm, uv: s.1 };
                    let c = chunk_of(rec.position, chunk_size);
                    let ghost prev = out@;
                    out.insert(c, rec);
                    proof {
                        assert forall|c2: ChunkCoord, i: int|
                            out@.contains_key(c2) && 0 <= i < out@[c2].len() implies chunk_of_spec(
                            (#[trigger] out@[c2][i]).position,
                            chunk_size,
                        ) == c2 by {
                            if c2 == c {
                                if prev.contains_key(c) {
                                    assert(out@[c2] == prev[c].push(rec));
                                    if i < prev[c].len() {
                                        assert(out@[c2][i] == prev[c][i]);
                                    } else {
                                        assert(out@[c2][i] == rec);
                                    }
                                } else {
                                    assert(out@[c2] == seq![rec]);
                                    assert(out@[c2][i] == rec);
                                }
                            } else {
                                assert(out@[c2] == prev[c2]);
                                assert(prev.contains_key(c2));
                            }
                        }
                        assert forall|c2: ChunkCoord, i: int|
                            out@.contains_key(c2) && 0 <= i < out@[c2].len() implies (
                        #[trigger] out@[c2][i]).position.in_bounds(WORLD_LIMIT as int)
                            && out@[c2][i].normal.in_bounds(SCALE as int)
                            && out@[c2][i].uv.in_bounds(WORLD_LIMIT as int) by {
                            if c2 == c {
                                if prev.contains_key(c) {
                                    assert(out@[c2] == prev[c].push(rec));
                                    if i < prev[c].len() {
                                        assert(out@[c2][i] == prev[c][i]);
                                    } else {
                                        assert(out@[c2][i] == rec);
                                    }
                                } else {
                                    assert(out@[c2] == seq![rec]);
                                    assert(out@[c2][i] == rec);
                                }
                            } else {
                                assert(out@[c2] == prev[c2]);
                                assert(prev.contains_key(c2));
                            }
                        }
                    }
                    j = j + 1;
                }
                proof {
                    assert(tri_valid(positions@, uvs@, indices@, t as int));
                    assert(out.total() == base + tri_count(
                        positions@,
                        uvs@,
                        indices@,
                        scale,
                        density,
                        t as int,
                    ));
                }
            } else {
                proof {
                    assert(tri_valid(positions@, uvs@, indices@, t as int));
                    assert(tri_count(positions@, uvs@, indices@, scale, density, t as int) == 0);
                }
            }
        } else {
            proof {
                assert(!tri_valid(positions@, uvs@, indices@, t as int));
                assert(tri_count(positions@, uvs@, indices@, scale, density, t as int) == 0);
            }
        }
        t = t + 1;
    }
    proof {
        if mesh_total_spec(*mesh, scale, grass.density) == 0 {
            out.lemma_total_zero();
        }
    }
    out
}

/// The default edge length of a spatial chunk: 30 world units.
pub const DEFAULT_CHUNK_SIZE: i64 = 30_000;

/// A grass entity's chunked instance store, together with the chunk
/// size all its chunks were generated with. Regeneration replaces the
/// whole store; nothing of an earlier pass survives.
pub struct GrassChunks {
    chunk_size: i64,
    chunks: ChunkMap,
}

impl GrassChunks {
    /// The chunk size is positive, the store is well formed, and every
    /// instance sits in the chunk it is keyed under.
    pub closed spec fn wf(self) -> bool {
        &&& self.chunk_size > 0
        &&& self.chunks.wf()
        &&& consistent_with(self.chunks@, self.chunk_size)
        &&& records_in_bounds(self.chunks@)
    }

    /// The chunk size of this store.
    pub closed spec fn spec_chunk_size(self) -> i64 {
        self.chunk_size
    }

    /// The store's contents, chunk by chunk.
    pub closed spec fn chunk_view(self) -> Map<ChunkCoord, Seq<InstanceRecord>> {
        self.chunks@
    }

    /// The number of instances across all chunks.
    pub closed spec fn total(self) -> nat {
        self.chunks.total()
    }

    /// An empty store for the given chunk size.
    pub fn new(chunk_size: i64) -> (g: GrassChunks)
        requires
            chunk_size > 0,
        ensures
            g.wf(),
            g.spec_chunk_size() == chunk_size,
            g.total() == 0,
            g.chunk_view() =~= Map::<ChunkCoord, Seq<InstanceRecord>>::empty(),
    {
        GrassChunks { chunk_size, chunks: ChunkMap::new() }
    }

    /// The chunk size all chunks of this store were generated with.
    pub fn chunk_size(&self) -> (r: i64)
        ensures
            r == self.spec_chunk_size(),
    {
        self.chunk_size
    }

    /// Read access to the chunk map, for rendering and inspection.
    pub fn chunks(&self) -> (r: &ChunkMap)
        requires
            self.wf(),
        ensures
            r.wf(),
            r@ == self.chunk_view(),
            r.total() == self.total(),
            consistent_with(r@, self.spec_chunk_size()),
            records_in_bounds(r@),
    {
        &self.chunks
    }

    /// One full regeneration pass: the store's contents are replaced
    /// wholesale by a fresh pass over the mesh, so the new total
    /// reflects the new density only - no instance of an earlier pass
    /// remains.
    pub fn regenerate(&mut self, grass: &Grass, mesh: &MeshData, scale: Vec3Fx)
        requires
            old(self).wf(),
            mesh.wf(),
            scale.in_bounds(COORD_LIMIT as int),
        ensures
            final(self).wf(),
            final(self).spec_chunk_size() == old(self).spec_chunk_size(),
            final(self).total() == mesh_total_spec(*mesh, scale, grass.density),
    {
        self.chunks = generate_grass(grass, mesh, scale, self.chunk_size);
    }
}

impl Default for GrassChunks {
    /// An empty store with the default chunk size.
    fn default() -> (g: GrassChunks)
        ensures
            g.wf(),
            g.spec_chunk_size() == DEFAULT_CHUNK_SIZE,
            g.total() == 0,
    {
        GrassChunks { chunk_size: DEFAULT_CHUNK_SIZE, chunks: ChunkMap::new() }
    }
}

} // verus!
