use cg8::mesh::{octahedron_indices, OCTAHEDRON_CORNERS};

#[test]
fn octahedron_index_list() {
    let expected: Vec<u32> = vec![
        4, 0, 1, 5, 1, 0, 4, 1, 2, 5, 2, 1, 4, 2, 3, 5, 3, 2, 4, 3, 0, 5, 0, 3,
    ];
    assert_eq!(octahedron_indices(), expected);
}

#[test]
fn octahedron_indices_name_existing_corners() {
    assert!(octahedron_indices().iter().all(|&i| i < OCTAHEDRON_CORNERS));
}
