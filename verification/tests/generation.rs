use procedural_grass::chunk::{chunk_of, ChunkCoord};
use procedural_grass::fixed::{Vec2Fx, Vec3Fx};
use procedural_grass::grass::{generate_grass, Blade, GrassChunks, GrassColor, Grass, DEFAULT_CHUNK_SIZE};
use procedural_grass::mesh::MeshData;

fn v(x: i64, y: i64, z: i64) -> Vec3Fx {
    Vec3Fx { x, y, z }
}

fn uv(x: i64, y: i64) -> Vec2Fx {
    Vec2Fx { x, y }
}

fn unit_scale() -> Vec3Fx {
    v(1000, 1000, 1000)
}

fn grass_with_density(density: u32) -> Grass {
    Grass { density, ..Default::default() }
}

// A flat quad of 2 x 2 world units: two triangles, combined area 4.0.
fn quad_mesh() -> MeshData {
    MeshData {
        positions: Some(vec![v(0, 0, 0), v(2000, 0, 0), v(0, 0, 2000), v(2000, 0, 2000)]),
        uvs: Some(vec![uv(0, 0), uv(1000, 0), uv(0, 1000), uv(1000, 1000)]),
        indices: Some(vec![0, 1, 2, 1, 3, 2]),
    }
}

#[test]
fn quad_places_forty_blades_in_one_chunk() {
    let grass = grass_with_density(10);
    let out = grass.generate_grass(&quad_mesh(), unit_scale(), 30000);
    // Area 4.0 at density 10: two triangles of exactly 20 blades each.
    assert_eq!(out.total_instances(), 40);
    assert_eq!(out.num_chunks(), 1);
    let coords = out.coords();
    assert_eq!(coords[0], ChunkCoord { x: 0, y: 0, z: 0 });
}

#[test]
fn every_instance_sits_in_its_chunk() {
    let grass = grass_with_density(40);
    // A small chunk size forces several chunks.
    let chunk_size = 500;
    let out = generate_grass(&grass, &quad_mesh(), unit_scale(), chunk_size);
    assert_eq!(out.total_instances(), 160);
    let coords = out.coords();
    assert!(coords.len() > 1);
    for c in coords {
        let instances = out.get(c).expect("listed chunk exists");
        assert!(!instances.is_empty());
        for inst in instances.iter() {
            assert_eq!(chunk_of(inst.position, chunk_size), c);
            assert!(inst.position.x >= 0 && inst.position.x <= 2000);
            assert_eq!(inst.position.y, 0);
            assert!(inst.position.z >= 0 && inst.position.z <= 2000);
        }
    }
}

#[test]
fn missing_attributes_yield_empty_map() {
    let grass = grass_with_density(10);
    let mut no_indices = quad_mesh();
    no_indices.indices = None;
    let out = generate_grass(&grass, &no_indices, unit_scale(), 30000);
    assert_eq!(out.total_instances(), 0);
    assert_eq!(out.num_chunks(), 0);

    let mut no_positions = quad_mesh();
    no_positions.positions = None;
    let out = generate_grass(&grass, &no_positions, unit_scale(), 30000);
    assert_eq!(out.num_chunks(), 0);

    let mut no_uvs = quad_mesh();
    no_uvs.uvs = None;
    let out = generate_grass(&grass, &no_uvs, unit_scale(), 30000);
    assert_eq!(out.num_chunks(), 0);
}

#[test]
fn degenerate_triangle_yields_nothing() {
    let grass = grass_with_density(1000);
    let mesh = MeshData {
        positions: Some(vec![v(5, 5, 5), v(5, 5, 5), v(5, 5, 5)]),
        uvs: Some(vec![uv(0, 0), uv(0, 0), uv(0, 0)]),
        indices: Some(vec![0, 1, 2]),
    };
    let out = generate_grass(&grass, &mesh, unit_scale(), 30000);
    assert_eq!(out.total_instances(), 0);
    assert_eq!(out.num_chunks(), 0);
}

#[test]
fn out_of_range_index_skips_only_that_triangle() {
    let grass = grass_with_density(10);
    let mut mesh = quad_mesh();
    // Second triangle points past the attribute lists: it is skipped,
    // the first still produces its 20 blades.
    mesh.indices = Some(vec![0, 1, 2, 1, 9, 2]);
    let out = generate_grass(&grass, &mesh, unit_scale(), 30000);
    assert_eq!(out.total_instances(), 20);
}

#[test]
fn trailing_partial_group_is_ignored() {
    let grass = grass_with_density(10);
    let mut mesh = quad_mesh();
    mesh.indices = Some(vec![0, 1, 2, 1]);
    let out = generate_grass(&grass, &mesh, unit_scale(), 30000);
    assert_eq!(out.total_instances(), 20);
}

#[test]
fn non_uniform_scale_scales_the_area() {
    let grass = grass_with_density(10);
    // Doubling x and z quadruples each triangle's area: 80 blades each.
    let out = generate_grass(&grass, &quad_mesh(), v(2000, 1000, 2000), 30000);
    assert_eq!(out.total_instances(), 160);
}

#[test]
fn regeneration_replaces_the_store() {
    let mesh = quad_mesh();
    let mut store = GrassChunks::new(30000);
    assert_eq!(store.chunk_size(), 30000);

    let mut grass = grass_with_density(10);
    store.regenerate(&grass, &mesh, unit_scale());
    assert_eq!(store.chunks().total_instances(), 40);

    // Lower the density and regenerate: the new total reflects the new
    // density only, nothing of the first pass remains.
    grass.density = 3;
    store.regenerate(&grass, &mesh, unit_scale());
    assert_eq!(store.chunks().total_instances(), 12);
    assert_eq!(store.chunk_size(), 30000);
}

#[test]
fn default_parameters() {
    let grass = Grass::default();
    assert_eq!(grass.density, 0);
    assert!(grass.entity.is_none());
    assert_eq!(grass.blade, Blade { length: 1500, width: 1000, tilt: 500, tilt_variance: 200, bend: 500 });
    let palette = GrassColor::default().to_array();
    assert_eq!(
        palette,
        [10, 20, 50, 1000, 100, 230, 90, 1000, 120, 390, 150, 1000, 700, 700, 700, 1000]
    );
    let store = GrassChunks::default();
    assert_eq!(store.chunk_size(), DEFAULT_CHUNK_SIZE);
    assert_eq!(store.chunks().num_chunks(), 0);
}
