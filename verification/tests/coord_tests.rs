use hexboard::coord::{neighbors, Vec3};

fn v(x: i32, y: i32, z: i32) -> Vec3 {
    Vec3 { x, y, z }
}

fn cube_dist(a: Vec3, b: Vec3) -> i64 {
    let dx = (a.x as i64 - b.x as i64).abs();
    let dy = (a.y as i64 - b.y as i64).abs();
    let dz = (a.z as i64 - b.z as i64).abs();
    dx.max(dy).max(dz)
}

#[test]
fn neighbors_of_origin_exact_order() {
    let ns = neighbors(v(0, 0, 0));
    let expected = vec![
        v(1, -1, 0),
        v(1, 0, -1),
        v(0, 1, -1),
        v(-1, 1, 0),
        v(-1, 0, 1),
        v(0, -1, 1),
    ];
    assert_eq!(ns, expected);
}

#[test]
fn neighbors_are_distinct_valid_and_adjacent() {
    let c = v(2, -3, 1);
    let ns = neighbors(c);
    assert_eq!(ns.len(), 6);
    for i in 0..6 {
        for j in 0..6 {
            if i != j {
                assert_ne!(ns[i], ns[j]);
            }
        }
    }
    for n in &ns {
        assert_eq!(n.x + n.y + n.z, 0);
        assert_eq!(cube_dist(c, *n), 1);
    }
}

#[test]
fn no_self_adjacency() {
    for c in [v(0, 0, 0), v(5, -2, -3), v(-7, 7, 0)] {
        for n in neighbors(c) {
            assert_ne!(n, c);
        }
    }
}

#[test]
fn neighbor_relation_is_symmetric() {
    let c = v(4, -1, -3);
    for n in neighbors(c) {
        assert!(neighbors(n).contains(&c));
    }
}

#[test]
fn vec3_new_accepts_cube_constraint() {
    let c = Vec3::new(2, -5, 3).unwrap();
    assert_eq!(c, v(2, -5, 3));
}

#[test]
fn vec3_new_rejects_malformed() {
    assert!(Vec3::new(1, 1, 1).is_none());
    assert!(Vec3::new(i32::MAX, i32::MAX, i32::MAX).is_none());
}
