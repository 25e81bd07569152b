use hilen::mesh::{
    append, capsule, CAPSULE_CAP_STEPS, CAPSULE_SIDES, flat_quad, flat_triangle, grid_indices, icosphere, index, keep_linked, knot, rock,
    terrain_indices, twisted_star, vase, Corner, MeshData, KNOT_SEGMENTS, KNOT_SIDES, ROCK_FACES,
    STAR_CORNERS, STAR_LAYERS, VASE_SIDES, VASE_STEPS,
};

#[test]
fn index_keeps_the_value() {
    assert_eq!(index(0), 0);
    assert_eq!(index(65_535), 65_535);
    keep_linked();
}

#[test]
fn flat_triangle_uses_its_own_vertices() {
    let mut mesh: MeshData<char> = MeshData::new();
    flat_triangle(&mut mesh, ['a', 'b', 'c']);
    flat_triangle(&mut mesh, ['d', 'e', 'f']);
    assert_eq!(mesh.vertices, vec!['a', 'b', 'c', 'd', 'e', 'f']);
    assert_eq!(mesh.indices, vec![0, 1, 2, 3, 4, 5]);
}

#[test]
fn flat_quad_is_two_triangles_over_four_corners() {
    let mut mesh: MeshData<u8> = MeshData::new();
    flat_triangle(&mut mesh, [9, 9, 9]);
    flat_quad(&mut mesh, [1, 2, 3, 4]);
    assert_eq!(mesh.vertices, vec![9, 9, 9, 1, 2, 3, 4]);
    assert_eq!(mesh.indices, vec![0, 1, 2, 3, 4, 5, 5, 4, 6]);
}

#[test]
fn append_moves_the_part_past_the_mesh() {
    let mut mesh: MeshData<u8> = MeshData::new();
    flat_triangle(&mut mesh, [1, 2, 3]);
    let mut part: MeshData<u8> = MeshData::new();
    flat_quad(&mut part, [4, 5, 6, 7]);
    append(&mut mesh, &part);
    assert_eq!(mesh.vertices, vec![1, 2, 3, 4, 5, 6, 7]);
    assert_eq!(mesh.indices, vec![0, 1, 2, 3, 4, 5, 5, 4, 6]);
}

#[test]
fn grid_wraps_columns_and_optionally_rows() {
    let mut open: MeshData<()> = MeshData::new();
    grid_indices(&mut open, 2, 3, false);
    assert_eq!(
        open.indices,
        vec![0, 3, 1, 1, 3, 4, 1, 4, 2, 2, 4, 5, 2, 5, 0, 0, 5, 3]
    );
    let mut closed: MeshData<()> = MeshData::new();
    grid_indices(&mut closed, 2, 2, true);
    assert_eq!(
        closed.indices,
        vec![0, 2, 1, 1, 2, 3, 1, 3, 0, 0, 3, 2, 2, 0, 3, 3, 0, 1, 3, 1, 2, 2, 1, 0]
    );
}

#[test]
fn knot_and_vase_close_their_grids() {
    let knot = knot(vec![0u8; KNOT_SEGMENTS * KNOT_SIDES]);
    assert_eq!(knot.indices.len(), 6 * KNOT_SEGMENTS * KNOT_SIDES);
    assert!(knot.indices.iter().all(|&i| (i as usize) < knot.vertices.len()));
    // The last ring joins the first.
    let last = &knot.indices[knot.indices.len() - 6..];
    assert_eq!(last, &[6399, 19, 6380, 6380, 19, 0]);

    let vase = vase(vec![0u8; (VASE_STEPS + 1) * VASE_SIDES]);
    assert_eq!(vase.indices.len(), 6 * VASE_STEPS * VASE_SIDES);
    assert_eq!(*vase.indices.iter().max().unwrap() as usize, vase.vertices.len() - 1);
}

#[test]
fn capsule_joins_its_rings_pole_to_pole() {
    let rings = 2 * (CAPSULE_CAP_STEPS + 1);
    let vertices: Vec<u32> = (0..(rings * CAPSULE_SIDES) as u32).collect();
    let mesh = capsule(vertices);
    assert_eq!(mesh.indices.len(), 6 * (rings - 1) * CAPSULE_SIDES);
    assert_eq!(&mesh.indices[0..6], &[0, 24, 1, 1, 24, 25]);
    // Around the ring, the last side joins the first.
    assert_eq!(&mesh.indices[6 * 23..6 * 24], &[23, 47, 0, 0, 47, 24]);
    assert_eq!(*mesh.indices.iter().max().unwrap() as usize, mesh.vertices.len() - 1);
}

#[test]
fn terrain_cells_are_counter_clockwise() {
    assert_eq!(terrain_indices(3), vec![
        0, 3, 1, 1, 3, 4, 1, 4, 2, 2, 4, 5, 3, 6, 4, 4, 6, 7, 4, 7, 5, 5, 7, 8
    ]);
    let big = terrain_indices(281);
    assert_eq!(big.len(), 6 * 280 * 280);
    assert_eq!(*big.iter().max().unwrap(), 281 * 281 - 1);
    assert!(terrain_indices(1).is_empty());
}

#[test]
fn icosphere_counts_and_indices() {
    let (corners, faces) = icosphere(0);
    assert_eq!(corners.len(), 12);
    assert_eq!(faces.len(), 20);
    assert_eq!(faces[0], (0, 11, 5));
    let (corners, faces) = icosphere(1);
    assert_eq!(faces.len(), 80);
    assert_eq!(corners.len(), 12 + 60);
    assert_eq!(corners[12], Corner::Middle(0, 11));
    assert_eq!(faces[0], (0, 12, 14));
    assert_eq!(faces[3], (12, 13, 14));
    let (corners, faces) = icosphere(3);
    assert_eq!(faces.len(), 1280);
    assert!(faces.iter().all(|&(a, b, c)| a < corners.len() && b < corners.len() && c < corners.len()));
    assert!(corners.iter().enumerate().all(|(m, c)| match c {
        Corner::Base(i) => *i < 12 && m < 12,
        Corner::Middle(p, q) => *p < m && *q < m,
    }));
}

#[test]
fn star_and_rock_are_flat_faces() {
    let sides = vec![[1u8, 2, 3, 4]; STAR_LAYERS * STAR_CORNERS];
    let caps = vec![[5u8, 6, 7]; 2 * STAR_CORNERS];
    let star = twisted_star(&sides, &caps);
    assert_eq!(star.vertices.len(), 4 * 400 + 3 * 20);
    assert_eq!(&star.indices[..6], &[0, 1, 2, 2, 1, 3]);
    assert_eq!(&star.indices[6 * 400..6 * 400 + 3], &[1600, 1601, 1602]);
    let rock = rock(&vec![[0u8, 1, 2]; ROCK_FACES]);
    assert_eq!(rock.indices.len(), 3 * ROCK_FACES);
    assert_eq!(rock.indices[3 * ROCK_FACES - 1] as usize, 3 * ROCK_FACES - 1);
}
