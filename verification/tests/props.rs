use hilen::mesh::{icosphere, MeshData};
use hilen::pixels::U8Color;
use hilen::props::{
    axe, campfire, flat_mesh, frustum, ground, on_edge, pine, stump, vertex, AxeHead, FrustumPart,
    PineTier, Stone, Vertex3D, AXE_OUTLINE, AXE_STRAP_TURNS, FIRE_FLAMES, FIRE_LOGS, FIRE_STONES,
    GROUND_CELLS, STONE_CORNERS, STONE_FACES,
    PINE_SIDES, PINE_TIERS, PINE_TRUNK_SIDES, STUMP_BANDS, STUMP_SIDES,
};

/// Paints a face by tagging each corner with what paints the face.
fn tag(face: (char, u32, u32, u32)) -> ((char, u32), (char, u32), (char, u32)) {
    let (c, a, b, d) = face;
    ((c, a), (c, b), (c, d))
}

fn corners(mesh: &MeshData<(char, u32)>) -> Vec<u32> {
    mesh.vertices.iter().map(|v| v.1).collect()
}

#[test]
fn vertex_keeps_position_normal_and_color() {
    let color = U8Color::const_rgb(1, 2, 3);
    let v: Vertex3D<[f32; 3], [f32; 2]> = vertex([1.0, 2.0, 3.0], [0.0, 1.0, 0.0], color);
    assert_eq!(v.pos, [1.0, 2.0, 3.0]);
    assert_eq!(v.normal, [0.0, 1.0, 0.0]);
    assert_eq!(v.uv, [0.0, 0.0]);
    assert_eq!(v.color, color);
}

#[test]
fn frustum_sides_wrap_and_caps_follow_each_side() {
    let low = vec![0, 1, 2];
    let high = vec![10, 11, 12];
    let side = vec!['a', 'b', 'c'];
    let mesh = frustum(&low, &high, true, &side, Some((99, 't')), Some((98, 'u')), &tag);
    assert_eq!(mesh.vertices.len(), 3 * 3 * 4);
    assert_eq!(mesh.indices, (0..36).collect::<Vec<u32>>());
    // The last side wraps to the first corners.
    assert_eq!(
        &mesh.vertices[24..33],
        &[
            ('c', 2),
            ('c', 12),
            ('c', 0),
            ('c', 0),
            ('c', 12),
            ('c', 10),
            ('t', 99),
            ('t', 10),
            ('t', 12),
        ]
    );
    assert_eq!(&corners(&mesh)[0..12], &[0, 10, 1, 1, 10, 11, 99, 11, 10, 98, 0, 1]);
}

#[test]
fn a_cone_has_one_triangle_per_side() {
    let low = vec![0, 1, 2, 3, 4];
    let high = vec![7, 7, 7, 7, 7];
    let side = vec!['s'; 5];
    let mesh = frustum(&low, &high, false, &side, None, None, &tag);
    assert_eq!(corners(&mesh), vec![0, 7, 1, 1, 7, 2, 2, 7, 3, 3, 7, 4, 4, 7, 0]);
}

#[test]
fn flat_mesh_of_nothing_is_empty() {
    let faces: Vec<(char, u32, u32, u32)> = Vec::new();
    let mesh = flat_mesh(&faces, &tag);
    assert!(mesh.vertices.is_empty());
    assert!(mesh.indices.is_empty());
}

#[test]
fn stump_has_bark_bands_and_heart() {
    let low: Vec<u32> = (0..11).collect();
    let rings: Vec<Vec<u32>> = (0..6).map(|r| (0..11).map(|k| 100 * (r + 1) + k).collect()).collect();
    let side = vec!['b'; STUMP_SIDES];
    let bands: Vec<Vec<(char, char)>> = (0..STUMP_BANDS).map(|_| vec![('o', 'i'); STUMP_SIDES]).collect();
    let mesh = stump(&low, &rings, &side, &bands, 7, 'h', &tag);
    let faces = 2 * 11 + 2 * 11 * 5 + 11;
    assert_eq!(mesh.vertices.len(), 3 * faces);
    // The first band runs from ring 1 inside out to the rim.
    assert_eq!(&corners(&mesh)[66..72], &[200, 101, 100, 200, 201, 101]);
    assert_eq!(mesh.vertices[66].0, 'o');
    assert_eq!(mesh.vertices[69].0, 'i');
    // The heart fans from the middle to the innermost ring.
    let heart = 3 * (2 * 11 + 2 * 11 * 5);
    assert_eq!(&corners(&mesh)[heart..heart + 3], &[7, 601, 600]);
    assert_eq!(mesh.vertices[heart].0, 'h');
    assert_eq!(*mesh.indices.last().unwrap(), (3 * faces - 1) as u32);
}

#[test]
fn pine_tiers_have_a_slope_and_an_underside_per_side() {
    let low: Vec<u32> = (0..6).collect();
    let high: Vec<u32> = (10..16).collect();
    let bark = vec!['b'; PINE_TRUNK_SIDES];
    let tiers: Vec<PineTier<u32, char>> = (0..PINE_TIERS as u32)
        .map(|t| PineTier {
            hem: (0..8).map(|k| 1000 * (t + 1) + k).collect(),
            apex: 50 + t,
            under: 60 + t,
            needles: vec!['n'; PINE_SIDES],
            shadow: 's',
        })
        .collect();
    let mesh = pine(&low, &high, &bark, &tiers, &tag);
    assert_eq!(mesh.vertices.len(), 3 * (2 * 6 + 2 * 8 * 4));
    let first_tier = 3 * 2 * 6;
    assert_eq!(
        &corners(&mesh)[first_tier..first_tier + 6],
        &[1000, 50, 1001, 60, 1000, 1001]
    );
    assert_eq!(mesh.vertices[first_tier + 3].0, 's');
    let last = mesh.vertices.len() - 3;
    assert_eq!(&corners(&mesh)[last..], &[63, 4007, 4000]);
}

#[test]
fn ground_flips_the_diagonal_from_cell_to_cell() {
    let side = GROUND_CELLS + 1;
    let points: Vec<u32> = (0..(side * side) as u32).collect();
    let mesh = ground(&points, &|(a, b, c): (u32, u32, u32)| (a, b, c));
    assert_eq!(mesh.vertices.len(), 3 * 2 * GROUND_CELLS * GROUND_CELLS);
    let side = side as u32;
    // The first cell splits from its lower left corner.
    assert_eq!(&mesh.vertices[0..6], &[0, side, 1, 1, side, side + 1]);
    // The next one along the row splits the other way.
    assert_eq!(&mesh.vertices[6..12], &[1, side + 1, side + 2, 1, side + 2, 2]);
    // The first cell of the next row is odd too.
    let next_row = 3 * 2 * GROUND_CELLS;
    assert_eq!(
        &mesh.vertices[next_row..next_row + 3],
        &[side, 2 * side, 2 * side + 1]
    );
}

fn part(base: u32, sides: u32, side: char, top: Option<(u32, char)>, bottom: Option<(u32, char)>) -> FrustumPart<u32, char> {
    FrustumPart {
        low: (0..sides).map(|k| base + k).collect(),
        high: (0..sides).map(|k| base + 100 + k).collect(),
        side: vec![side; sides as usize],
        top_cap: top,
        bottom_cap: bottom,
    }
}

#[test]
fn campfire_lays_its_parts_in_order() {
    let ash = part(0, 9, 'a', Some((99, 't')), None);
    let stones: Vec<Stone<u32, char>> = (0..FIRE_STONES as u32)
        .map(|i| Stone {
            corners: (0..STONE_CORNERS as u32).map(|c| 1000 * (i + 1) + c).collect(),
            flipped: (0..STONE_FACES).map(|f| i == 0 && f == 0).collect(),
            grey: vec!['g'; STONE_FACES],
        })
        .collect();
    let logs: Vec<FrustumPart<u32, char>> =
        (0..FIRE_LOGS as u32).map(|i| part(20_000 + 1000 * i, 6, 'l', Some((1, 'c')), Some((2, 'w')))).collect();
    let flames: Vec<FrustumPart<u32, char>> =
        (0..FIRE_FLAMES as u32).map(|i| part(30_000 + 1000 * i, 5, 'f', None, None)).collect();
    let mesh = campfire(&ash, &stones, &logs, &flames, &tag);
    assert_eq!(mesh.vertices.len(), 2646);
    assert_eq!(mesh.indices, (0..2646).collect::<Vec<u32>>());
    assert_eq!(&corners(&mesh)[0..3], &[0, 100, 1]);
    // The first stone's first face is turned over, its second is not.
    let (_, ico) = icosphere(1);
    let at = |c: usize| 1000 + c as u32;
    let ((a, b, c), (d, e, f)) = (ico[0], ico[1]);
    assert_eq!(&corners(&mesh)[81..87], &[at(a), at(c), at(b), at(d), at(e), at(f)]);
    assert_eq!(mesh.vertices[81].0, 'g');
    // A log's side, then both its caps.
    let log = 3 * (27 + 9 * 80);
    assert_eq!(&corners(&mesh)[log..log + 12], &[20_000, 20_100, 20_001, 20_001, 20_100, 20_101, 1, 20_101, 20_100, 2, 20_000, 20_001]);
    // A flame is a cone: one triangle a side.
    let flame = 3 * (27 + 9 * 80 + 5 * 24);
    assert_eq!(&corners(&mesh)[flame..flame + 6], &[30_000, 30_100, 30_001, 30_001, 30_101, 30_002]);
}

#[test]
fn only_the_middle_segments_are_honed() {
    let honed: Vec<usize> = (0..AXE_OUTLINE).filter(|&k| on_edge(k)).collect();
    assert_eq!(honed, vec![4, 5, 6]);
}

#[test]
fn axe_puts_the_head_after_the_handle() {
    let knob = part(0, 8, 'k', None, Some((7, 'b')));
    let shaft = part(200, 8, 's', Some((8, 't')), None);
    let straps: Vec<FrustumPart<u32, char>> =
        (0..AXE_STRAP_TURNS as u32).map(|t| part(1000 * (t + 1), 8, 'w', None, None)).collect();
    let head = AxeHead {
        front: (0..10).collect(),
        back: (20..30).collect(),
        front_center: 100,
        back_center: 200,
        front_paint: vec!['f'; AXE_OUTLINE],
        back_paint: vec!['g'; AXE_OUTLINE],
        honed_rim: 'H',
        rim: 'r',
    };
    let mesh = axe(&knob, &shaft, &straps, &head, &tag);
    assert_eq!(mesh.vertices.len(), 648);
    assert_eq!(mesh.indices, (0..648).collect::<Vec<u32>>());
    // The knob's first side, then its bottom cap.
    assert_eq!(&corners(&mesh)[0..9], &[0, 100, 1, 1, 100, 101, 7, 0, 1]);
    // The shaft's first side, then its top cap.
    assert_eq!(&corners(&mesh)[72..81], &[200, 300, 201, 201, 300, 301, 8, 301, 300]);
    let handle = 3 * (24 + 24 + 16 * AXE_STRAP_TURNS);
    let first = &corners(&mesh)[handle..handle + 12];
    assert_eq!(first, &[100, 0, 1, 200, 21, 20, 0, 20, 1, 1, 20, 21]);
    assert_eq!(mesh.vertices[handle + 6].0, 'r');
    // Segment four starts the honed edge.
    assert_eq!(mesh.vertices[handle + 12 * 4 + 6].0, 'H');
    // The last segment closes the outline.
    let last = handle + 12 * 9;
    assert_eq!(&corners(&mesh)[last..last + 3], &[100, 9, 0]);
}
