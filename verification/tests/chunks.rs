use procedural_grass::chunk::{chunk_of, ChunkCoord, ChunkMap, InstanceRecord};
use procedural_grass::fixed::{Vec2Fx, Vec3Fx};

fn v(x: i64, y: i64, z: i64) -> Vec3Fx {
    Vec3Fx { x, y, z }
}

fn rec(x: i64, y: i64, z: i64) -> InstanceRecord {
    InstanceRecord {
        position: v(x, y, z),
        normal: v(0, 1000, 0),
        uv: Vec2Fx { x: 0, y: 0 },
    }
}

#[test]
fn negative_position_buckets_below_zero() {
    // -0.1 world units with a chunk size of 30 world units: chunk -1.
    let c = chunk_of(v(-100, 0, -100), 30000);
    assert_eq!(c, ChunkCoord { x: -1, y: 0, z: -1 });
}

#[test]
fn positive_positions_bucket_at_zero() {
    let c = chunk_of(v(100, 0, 29999), 30000);
    assert_eq!(c, ChunkCoord { x: 0, y: 0, z: 0 });
    let d = chunk_of(v(30000, 0, 0), 30000);
    assert_eq!(d, ChunkCoord { x: 1, y: 0, z: 0 });
}

#[test]
fn equal_floors_mean_equal_chunks() {
    let a = chunk_of(v(100, 200, 300), 30000);
    let b = chunk_of(v(29999, 29999, 29999), 30000);
    assert_eq!(a, b);
    let c = chunk_of(v(-1, -1, -1), 30000);
    let d = chunk_of(v(-30000, -30000, -30000), 30000);
    assert_eq!(c, d);
    assert_ne!(a, c);
}

#[test]
fn empty_map_has_no_chunks() {
    let m = ChunkMap::new();
    assert_eq!(m.num_chunks(), 0);
    assert_eq!(m.total_instances(), 0);
    assert!(m.get(ChunkCoord { x: 0, y: 0, z: 0 }).is_none());
}

#[test]
fn insert_groups_by_coordinate() {
    let mut m = ChunkMap::new();
    let a = ChunkCoord { x: 0, y: 0, z: 0 };
    let b = ChunkCoord { x: -1, y: 0, z: 2 };
    m.insert(a, rec(1, 1, 1));
    m.insert(b, rec(-5, 2, 70));
    m.insert(a, rec(2, 2, 2));
    assert_eq!(m.num_chunks(), 2);
    assert_eq!(m.total_instances(), 3);
    let in_a = m.get(a).expect("chunk a exists");
    assert_eq!(in_a.len(), 2);
    assert_eq!(in_a[0].position, v(1, 1, 1));
    assert_eq!(in_a[1].position, v(2, 2, 2));
    let in_b = m.get(b).expect("chunk b exists");
    assert_eq!(in_b.len(), 1);
    assert!(m.get(ChunkCoord { x: 9, y: 9, z: 9 }).is_none());
    let coords = m.coords();
    assert_eq!(coords.len(), 2);
    assert!(coords.contains(&a) && coords.contains(&b));
}
