//! Meshes built in code: vertices and the triangle list over them. The
//! vertex type is left open, so the positions, normals and colors are
//! worked out by the caller, and what is proved here is how vertices
//! and triangles are put together: every triangle refers to vertices the
//! mesh holds, in the order the builders give.

use vstd::prelude::*;
use vstd::arithmetic::power::pow;

verus! {

/// Vertices and triangles, three indices into the vertices each.
pub struct MeshData<V> {
    pub vertices: Vec<V>,
    pub indices: Vec<u32>,
}

/// Every index refers to a vertex of the mesh.
pub open spec fn indices_valid(vertex_count: int, indices: Seq<u32>) -> bool {
    forall|i: int| 0 <= i < indices.len() ==> #[trigger] indices[i] < vertex_count
}

impl<V> MeshData<V> {
    pub open spec fn valid(&self) -> bool {
        indices_valid(self.vertices.len() as int, self.indices@)
    }

    /// An empty mesh.
    pub fn new() -> (m: Self)
        ensures
            m.vertices@.len() == 0,
            m.indices@.len() == 0,
            m.valid(),
    {
        MeshData { vertices: Vec::new(), indices: Vec::new() }
    }
}

/// A vertex position as a mesh index. A test shape has few vertices, a
/// count past `u32::MAX` is a bug.
pub fn index(i: usize) -> (r: u32)
    requires
        i <= u32::MAX,
    ensures
        r == i,
{
    i as u32
}

/// A triangle with its own three vertices, so it shades flat: the
/// vertices go after the mesh's, and one triangle over them.
pub fn flat_triangle<V: Copy>(mesh: &mut MeshData<V>, corners: [V; 3])
    requires
        old(mesh).vertices.len() + 2 <= u32::MAX,
    ensures
        final(mesh).vertices@ == old(mesh).vertices@ + corners@,
        final(mesh).indices@ == old(mesh).indices@ + seq![
            old(mesh).vertices.len() as u32,
            (old(mesh).vertices.len() + 1) as u32,
            (old(mesh).vertices.len() + 2) as u32,
        ],
{
    let first = index(mesh.vertices.len());
    mesh.vertices.push(corners[0]);
    mesh.vertices.push(corners[1]);
    mesh.vertices.push(corners[2]);
    mesh.indices.push(first);
    mesh.indices.push(first + 1);
    mesh.indices.push(first + 2);
    assert(mesh.vertices@ =~= old(mesh).vertices@ + corners@);
}

/// A quad `[low, high, low next, high next]` whose four corners share
/// one normal, so it reads as one facet: two triangles over four new
/// vertices.
pub fn flat_quad<V: Copy>(mesh: &mut MeshData<V>, corners: [V; 4])
    requires
        old(mesh).vertices.len() + 3 <= u32::MAX,
    ensures
        final(mesh).vertices@ == old(mesh).vertices@ + corners@,
        final(mesh).indices@ == old(mesh).indices@ + seq![
            old(mesh).vertices.len() as u32,
            (old(mesh).vertices.len() + 1) as u32,
            (old(mesh).vertices.len() + 2) as u32,
            (old(mesh).vertices.len() + 2) as u32,
            (old(mesh).vertices.len() + 1) as u32,
            (old(mesh).vertices.len() + 3) as u32,
        ],
{
    let first = index(mesh.vertices.len());
    mesh.vertices.push(corners[0]);
    mesh.vertices.push(corners[1]);
    mesh.vertices.push(corners[2]);
    mesh.vertices.push(corners[3]);
    mesh.indices.push(first);
    mesh.indices.push(first + 1);
    mesh.indices.push(first + 2);
    mesh.indices.push(first + 2);
    mesh.indices.push(first + 1);
    mesh.indices.push(first + 3);
    assert(mesh.vertices@ =~= old(mesh).vertices@ + corners@);
}

/// `indices` moved past `offset` vertices.
pub open spec fn shifted(indices: Seq<u32>, offset: int) -> Seq<u32> {
    indices.map_values(|i: u32| (i + offset) as u32)
}

/// Adds `part` after the mesh's own vertices and triangles. The caller
/// has already moved the part's vertices where they go.
pub fn append<V: Copy>(mesh: &mut MeshData<V>, part: &MeshData<V>)
    requires
        old(mesh).vertices.len() <= u32::MAX,
        forall|i: int|
            0 <= i < part.indices@.len() ==> old(mesh).vertices.len() + #[trigger] part.indices@[i]
                <= u32::MAX,
    ensures
        final(mesh).vertices@ == old(mesh).vertices@ + part.vertices@,
        final(mesh).indices@ == old(mesh).indices@ + shifted(
            part.indices@,
            old(mesh).vertices.len() as int,
        ),
{
    let first = index(mesh.vertices.len());
    let ghost vs = mesh.vertices@;
    let ghost is = mesh.indices@;
    let mut k: usize = 0;
    while k < part.vertices.len()
        invariant
            k <= part.vertices.len(),
            mesh.vertices@ == vs + part.vertices@.take(k as int),
            mesh.indices@ == is,
        decreases part.vertices.len() - k,
    {
        mesh.vertices.push(part.vertices[k]);
        assert(vs + part.vertices@.take(k + 1) =~= (vs + part.vertices@.take(k as int)).push(
            part.vertices@[k as int],
        ));
        k = k + 1;
    }
    assert(part.vertices@.take(k as int) =~= part.vertices@);
    let mut j: usize = 0;
    while j < part.indices.len()
        invariant
            j <= part.indices.len(),
            first == vs.len(),
            forall|i: int|
                0 <= i < part.indices@.len() ==> first + #[trigger] part.indices@[i] <= u32::MAX,
            mesh.vertices@ == vs + part.vertices@,
            mesh.indices@ == is + shifted(part.indices@.take(j as int), first as int),
        decreases part.indices.len() - j,
    {
        let i = part.indices[j];
        assert(first + part.indices@[j as int] <= u32::MAX);
        mesh.indices.push(first + i);
        assert(is + shifted(part.indices@.take(j + 1), first as int) =~= (is + shifted(
            part.indices@.take(j as int),
            first as int,
        )).push((first + i) as u32));
        j = j + 1;
    }
    assert(part.indices@.take(j as int) =~= part.indices@);
}

/// Appending keeps every triangle on the mesh's vertices, when the part's
/// triangles are on the part's.
pub proof fn law_append_keeps_indices_valid<V>(
    vertices: Seq<V>,
    indices: Seq<u32>,
    part_vertices: Seq<V>,
    part_indices: Seq<u32>,
)
    requires
        indices_valid(vertices.len() as int, indices),
        indices_valid(part_vertices.len() as int, part_indices),
        forall|i: int|
            0 <= i < part_indices.len() ==> vertices.len() + #[trigger] part_indices[i] <= u32::MAX,
    ensures
        indices_valid(
            (vertices + part_vertices).len() as int,
            indices + shifted(part_indices, vertices.len() as int),
        ),
{
    let all = indices + shifted(part_indices, vertices.len() as int);
    assert forall|i: int| 0 <= i < all.len() implies #[trigger] all[i] < (vertices
        + part_vertices).len() by {
        if i >= indices.len() {
            let k = i - indices.len();
            assert(part_indices[k] < part_vertices.len());
        }
    }
}

/// A flat triangle keeps every triangle on the mesh's vertices.
pub proof fn law_flat_triangle_keeps_indices_valid(vertex_count: int, indices: Seq<u32>)
    requires
        indices_valid(vertex_count, indices),
        0 <= vertex_count,
        vertex_count + 2 <= u32::MAX,
    ensures
        indices_valid(
            vertex_count + 3,
            indices + seq![vertex_count as u32, (vertex_count + 1) as u32, (vertex_count + 2) as u32],
        ),
{
    let t = indices + seq![vertex_count as u32, (vertex_count + 1) as u32, (vertex_count + 2) as u32];
    assert forall|i: int| 0 <= i < t.len() implies #[trigger] t[i] < vertex_count + 3 by {
        if i < indices.len() {
            assert(t[i] == indices[i]);
        }
    }
}

/// A flat quad keeps every triangle on the mesh's vertices.
pub proof fn law_flat_quad_keeps_indices_valid(vertex_count: int, indices: Seq<u32>)
    requires
        indices_valid(vertex_count, indices),
        0 <= vertex_count,
        vertex_count + 3 <= u32::MAX,
    ensures
        indices_valid(
            vertex_count + 4,
            indices + seq![
                vertex_count as u32,
                (vertex_count + 1) as u32,
                (vertex_count + 2) as u32,
                (vertex_count + 2) as u32,
                (vertex_count + 1) as u32,
                (vertex_count + 3) as u32,
            ],
        ),
{
    let q = indices + seq![
        vertex_count as u32,
        (vertex_count + 1) as u32,
        (vertex_count + 2) as u32,
        (vertex_count + 2) as u32,
        (vertex_count + 1) as u32,
        (vertex_count + 3) as u32,
    ];
    assert forall|i: int| 0 <= i < q.len() implies #[trigger] q[i] < vertex_count + 4 by {
        if i < indices.len() {
            assert(q[i] == indices[i]);
        }
    }
}

/// How many rows of quads a grid of `rows` vertex rows has: one less,
/// unless the last row wraps around to the first.
pub open spec fn grid_row_count(rows: int, wrap_rows: bool) -> int {
    if wrap_rows {
        rows
    } else {
        rows - 1
    }
}

/// The vertex at row `r` and column `c` of a grid, both wrapping.
pub open spec fn grid_at(rows: int, columns: int, r: int, c: int) -> int {
    (r % rows) * columns + c % columns
}

/// The two triangles of the quad at `row` and `column`.
pub open spec fn grid_quad(rows: int, columns: int, row: int, column: int) -> Seq<u32> {
    let a = grid_at(rows, columns, row, column) as u32;
    let b = grid_at(rows, columns, row + 1, column) as u32;
    let c = grid_at(rows, columns, row, column + 1) as u32;
    let d = grid_at(rows, columns, row + 1, column + 1) as u32;
    seq![a, b, c, c, b, d]
}

/// Where index `j` of the quad at `row` and `column` lands, the grid's
/// indices starting at `start`.
pub open spec fn grid_slot(start: int, columns: int, row: int, column: int, j: int) -> int {
    start + 6 * (row * columns + column) + j
}

/// Whether the grid's indices fit a `u32`.
pub open spec fn grid_fits(rows: int, columns: int, wrap_rows: bool) -> bool {
    grid_row_count(rows, wrap_rows) <= 0 || columns == 0 || rows * columns <= u32::MAX + 1
}

proof fn lemma_grid_at_bound(rows: int, columns: int, r: int, c: int)
    requires
        rows > 0,
        columns > 0,
        r >= 0,
        c >= 0,
    ensures
        0 <= grid_at(rows, columns, r, c) < rows * columns,
{
    let rr = r % rows;
    let cc = c % columns;
    assert(0 <= rr < rows);
    assert(0 <= cc < columns);
    assert(0 <= rr * columns <= (rows - 1) * columns) by (nonlinear_arith)
        requires
            0 <= rr < rows,
            columns > 0,
    ;
    assert((rows - 1) * columns + columns == rows * columns) by (nonlinear_arith);
}

proof fn lemma_grid_slot_unique(columns: int, r: int, c: int, row: int, column: int)
    requires
        0 <= c < columns,
        0 <= column < columns,
        r >= 0,
        row >= 0,
        r * columns + c == row * columns + column,
    ensures
        r == row,
        c == column,
{
    if r < row {
        assert(r * columns + columns <= row * columns) by (nonlinear_arith)
            requires
                r < row,
                columns > 0,
        ;
    } else if r > row {
        assert(row * columns + columns <= r * columns) by (nonlinear_arith)
            requires
                row < r,
                columns > 0,
        ;
    }
}

/// The vertex at row `r` and column `c`, as a mesh index.
fn grid_at_exec(rows: usize, columns: usize, r: usize, c: usize) -> (v: u32)
    requires
        rows > 0,
        columns > 0,
        rows * columns <= u32::MAX + 1,
    ensures
        v == grid_at(rows as int, columns as int, r as int, c as int),
{
    proof {
        lemma_grid_at_bound(rows as int, columns as int, r as int, c as int);
        let rr = r % rows;
        assert(0 <= rr * columns <= rows * columns) by (nonlinear_arith)
            requires
                0 <= rr < rows,
                columns > 0,
        ;
    }
    index((r % rows) * columns + c % columns)
}

/// Appends to `v` the two triangles `a b c` and `c b d` of a quad.
fn push_quad(v: &mut Vec<u32>, a: u32, b: u32, c: u32, d: u32)
    ensures
        final(v)@ == old(v)@ + seq![a, b, c, c, b, d],
{
    v.push(a);
    v.push(b);
    v.push(c);
    v.push(c);
    v.push(b);
    v.push(d);
    assert(v@ =~= old(v)@ + seq![a, b, c, c, b, d]);
}

/// Smooth quads over a grid of `rows` by `columns` vertices, wrapping
/// around the columns, and around the rows when `wrap_rows`. Rows run
/// along the first surface direction and columns along the second.
pub fn grid_indices<V>(mesh: &mut MeshData<V>, rows: usize, columns: usize, wrap_rows: bool)
    requires
        wrap_rows || rows >= 1,
        grid_fits(rows as int, columns as int, wrap_rows),
    ensures
        final(mesh).vertices@ == old(mesh).vertices@,
        final(mesh).indices@.len() == old(mesh).indices@.len() + 6 * (grid_row_count(
            rows as int,
            wrap_rows,
        ) * columns),
        final(mesh).indices@.take(old(mesh).indices@.len() as int) == old(mesh).indices@,
        forall|row: int, column: int, j: int|
            0 <= row < grid_row_count(rows as int, wrap_rows) && 0 <= column < columns && 0 <= j
                < 6 ==> #[trigger] final(mesh).indices@[grid_slot(
                old(mesh).indices@.len() as int,
                columns as int,
                row,
                column,
                j,
            )] == grid_quad(rows as int, columns as int, row, column)[j],
{
    let row_count = if wrap_rows {
        rows
    } else {
        rows - 1
    };
    let ghost start = mesh.indices@.len() as int;
    let ghost before = mesh.indices@;
    let ghost cols = columns as int;
    let mut row: usize = 0;
    while row < row_count
        invariant
            row <= row_count,
            row_count == grid_row_count(rows as int, wrap_rows),
            row_count > 0 && columns > 0 ==> rows > 0 && rows * columns <= u32::MAX + 1,
            row_count <= rows,
            cols == columns as int,
            start == before.len(),
            mesh.vertices@ == old(mesh).vertices@,
            mesh.indices@.len() == start + 6 * (row * cols),
            mesh.indices@.take(start) == before,
            forall|r: int, c: int, j: int|
                0 <= r && 0 <= c < columns && 0 <= j < 6 && r * cols + c < row * cols
                    ==> #[trigger] mesh.indices@[grid_slot(start, cols, r, c, j)] == grid_quad(
                    rows as int,
                    cols,
                    r,
                    c,
                )[j],
        decreases row_count - row,
    {
        let mut column: usize = 0;
        while column < columns
            invariant
                row < row_count,
                column <= columns,
                row_count <= rows,
                row_count == grid_row_count(rows as int, wrap_rows),
                cols == columns as int,
                rows > 0,
                columns > 0 ==> rows * columns <= u32::MAX + 1,
                start == before.len(),
                mesh.vertices@ == old(mesh).vertices@,
                mesh.indices@.len() == start + 6 * (row * cols + column),
                mesh.indices@.take(start) == before,
                forall|r: int, c: int, j: int|
                    0 <= r && 0 <= c < columns && 0 <= j < 6 && r * cols + c < row * cols + column
                        ==> #[trigger] mesh.indices@[grid_slot(start, cols, r, c, j)] == grid_quad(
                        rows as int,
                        cols,
                        r,
                        c,
                    )[j],
            decreases columns - column,
        {
            let a = grid_at_exec(rows, columns, row, column);
            let b = grid_at_exec(rows, columns, row + 1, column);
            let c = grid_at_exec(rows, columns, row, column + 1);
            let d = grid_at_exec(rows, columns, row + 1, column + 1);
            let ghost prev = mesh.indices@;
            push_quad(&mut mesh.indices, a, b, c, d);
            proof {
                let q = row * cols + column;
                assert(0 <= row * cols) by (nonlinear_arith)
                    requires
                        0 <= row,
                        0 <= cols,
                ;
                assert(mesh.indices@.take(start) =~= prev.take(start));
                assert forall|r: int, cc: int, j: int|
                    0 <= r && 0 <= cc < columns && 0 <= j < 6 && r * cols + cc < q + 1
                        implies #[trigger] mesh.indices@[grid_slot(start, cols, r, cc, j)] == grid_quad(
                        rows as int,
                        cols,
                        r,
                        cc,
                    )[j] by {
                    assert(0 <= r * cols) by (nonlinear_arith)
                        requires
                            0 <= r,
                            0 <= cols,
                    ;
                    if r * cols + cc < q {
                        assert(mesh.indices@[grid_slot(start, cols, r, cc, j)] == prev[grid_slot(start, cols, r, cc, j)]);
                    } else {
                        lemma_grid_slot_unique(cols, r, cc, row as int, column as int);
                    }
                }
            }
            column = column + 1;
        }
        proof {
            assert(row * cols + cols == (row + 1) * cols) by (nonlinear_arith);
        }
        row = row + 1;
    }
    proof {
        assert forall|r: int, c: int, j: int|
            0 <= r < row_count && 0 <= c < columns && 0 <= j < 6
                implies #[trigger] mesh.indices@[grid_slot(start, cols, r, c, j)] == grid_quad(
                rows as int,
                cols,
                r,
                c,
            )[j] by {
            assert(r * cols + c < row_count * cols) by (nonlinear_arith)
                requires
                    0 <= r < row_count,
                    0 <= c < cols,
            ;
        }
    }
}

/// Every index of the grid's quads is a vertex of the grid.
pub proof fn law_grid_indices_in_grid(rows: int, columns: int, row: int, column: int, j: int)
    requires
        rows > 0,
        columns > 0,
        0 <= row,
        0 <= column,
        0 <= j < 6,
        rows * columns <= u32::MAX + 1,
    ensures
        grid_quad(rows, columns, row, column)[j] < rows * columns,
{
    lemma_grid_at_bound(rows, columns, row, column);
    lemma_grid_at_bound(rows, columns, row + 1, column);
    lemma_grid_at_bound(rows, columns, row, column + 1);
    lemma_grid_at_bound(rows, columns, row + 1, column + 1);
}

/// A corner of the subdivided icosahedron: one of its twelve corners,
/// or the middle of two earlier corners pushed out onto the sphere.
#[derive(Clone, Copy, Debug, PartialEq, Eq, Structural)]
pub enum Corner {
    Base(usize),
    Middle(usize, usize),
}

/// The twelve corners of the icosahedron.
pub open spec fn base_corners() -> Seq<Corner> {
    Seq::new(12, |i: int| Corner::Base(i as usize))
}

/// The twenty faces of the icosahedron, corner indices wound outward.
pub open spec fn base_faces() -> Seq<(usize, usize, usize)> {
    seq![
        (0, 11, 5),
        (0, 5, 1),
        (0, 1, 7),
        (0, 7, 10),
        (0, 10, 11),
        (1, 5, 9),
        (5, 11, 4),
        (11, 10, 2),
        (10, 7, 6),
        (7, 1, 8),
        (3, 9, 4),
        (3, 4, 2),
        (3, 2, 6),
        (3, 6, 8),
        (3, 8, 9),
        (4, 9, 5),
        (2, 4, 11),
        (6, 2, 10),
        (8, 6, 7),
        (9, 8, 1),
    ]
}

/// The corners one split adds: the middles of each face's three edges,
/// `ab`, `bc`, `ca`, face by face.
pub open spec fn split_corners(faces: Seq<(usize, usize, usize)>) -> Seq<Corner> {
    Seq::new(
        3 * faces.len(),
        |k: int|
            {
                let f = faces[k / 3];
                if k % 3 == 0 {
                    Corner::Middle(f.0, f.1)
                } else if k % 3 == 1 {
                    Corner::Middle(f.1, f.2)
                } else {
                    Corner::Middle(f.2, f.0)
                }
            },
    )
}

/// The faces after one split, each face cut into four by its edge
/// middles, which start at corner `n`.
pub open spec fn split_faces(n: int, faces: Seq<(usize, usize, usize)>) -> Seq<(usize, usize, usize)> {
    Seq::new(
        4 * faces.len(),
        |k: int|
            {
                let i = k / 4;
                let f = faces[i];
                let ab = (n + 3 * i) as usize;
                let bc = (n + 3 * i + 1) as usize;
                let ca = (n + 3 * i + 2) as usize;
                if k % 4 == 0 {
                    (f.0, ab, ca)
                } else if k % 4 == 1 {
                    (f.1, bc, ab)
                } else if k % 4 == 2 {
                    (f.2, ca, bc)
                } else {
                    (ab, bc, ca)
                }
            },
    )
}

/// The corners and faces after `splits` splits.
pub open spec fn icosphere_level(splits: nat) -> (Seq<Corner>, Seq<(usize, usize, usize)>)
    decreases splits,
{
    if splits == 0 {
        (base_corners(), base_faces())
    } else {
        let (corners, faces) = icosphere_level((splits - 1) as nat);
        (corners + split_corners(faces), split_faces(corners.len() as int, faces))
    }
}

/// How many corners and faces an icosahedron split `splits` times has.
pub proof fn lemma_icosphere_sizes(splits: nat)
    ensures
        icosphere_level(splits).1.len() == 20 * pow(4, splits),
        icosphere_level(splits).0.len() == 12 + 20 * (pow(4, splits) - 1),
    decreases splits,
{
    reveal(pow);
    if splits > 0 {
        lemma_icosphere_sizes((splits - 1) as nat);
    }
}

/// Splits the faces in `faces`, whose corners are `corners`: pushes
/// each face's three edge middles and the four faces it becomes.
fn split_once(corners: &mut Vec<Corner>, faces: &Vec<(usize, usize, usize)>) -> (split: Vec<(usize, usize, usize)>)
    requires
        old(corners).len() + 3 * faces.len() <= usize::MAX,
    ensures
        final(corners)@ == old(corners)@ + split_corners(faces@),
        split@ == split_faces(old(corners).len() as int, faces@),
{
    let n = corners.len();
    let ghost before = corners@;
    let mut split: Vec<(usize, usize, usize)> = Vec::new();
    let mut i: usize = 0;
    while i < faces.len()
        invariant
            i <= faces.len(),
            n == before.len(),
            n + 3 * faces.len() <= usize::MAX,
            corners@ == before + split_corners(faces@).take(3 * i),
            split@ == split_faces(n as int, faces@).take(4 * i),
        decreases faces.len() - i,
    {
        let (a, b, c) = faces[i];
        let ab = n + 3 * i;
        let bc = ab + 1;
        let ca = ab + 2;
        corners.push(Corner::Middle(a, b));
        corners.push(Corner::Middle(b, c));
        corners.push(Corner::Middle(c, a));
        split.push((a, ab, ca));
        split.push((b, bc, ab));
        split.push((c, ca, bc));
        split.push((ab, bc, ca));
        proof {
            let sc = split_corners(faces@);
            assert(sc.take(3 * i + 3) =~= sc.take(3 * i).push(sc[3 * i]).push(sc[3 * i + 1]).push(
                sc[3 * i + 2],
            ));
            assert(before + sc.take(3 * i + 3) =~= (before + sc.take(3 * i)).push(sc[3 * i]).push(
                sc[3 * i + 1],
            ).push(sc[3 * i + 2]));
            let sf = split_faces(n as int, faces@);
            assert(sf.take(4 * i + 4) =~= sf.take(4 * i).push(sf[4 * i]).push(sf[4 * i + 1]).push(
                sf[4 * i + 2],
            ).push(sf[4 * i + 3]));
        }
        i = i + 1;
    }
    proof {
        assert(split_corners(faces@).take(3 * i) =~= split_corners(faces@));
        assert(split_faces(n as int, faces@).take(4 * i) =~= split_faces(n as int, faces@));
    }
    split
}

/// An icosahedron whose faces are split in four `splits` times, each
/// new corner the middle of an edge. Faces are corner indices, wound
/// outward. Where the corners lie on the sphere is the caller's to
/// work out from what each `Corner` names.
pub fn icosphere(splits: usize) -> (r: (Vec<Corner>, Vec<(usize, usize, usize)>))
    requires
        12 + 20 * pow(4, splits as nat) <= usize::MAX,
    ensures
        (r.0@, r.1@) == icosphere_level(splits as nat),
{
    let mut corners: Vec<Corner> = Vec::new();
    let mut k: usize = 0;
    while k < 12
        invariant
            k <= 12,
            corners@ == base_corners().take(k as int),
        decreases 12 - k,
    {
        corners.push(Corner::Base(k));
        assert(corners@ =~= base_corners().take(k + 1));
        k = k + 1;
    }
    assert(corners@ =~= base_corners());
    let mut faces: Vec<(usize, usize, usize)> = vec![
        (0, 11, 5),
        (0, 5, 1),
        (0, 1, 7),
        (0, 7, 10),
        (0, 10, 11),
        (1, 5, 9),
        (5, 11, 4),
        (11, 10, 2),
        (10, 7, 6),
        (7, 1, 8),
        (3, 9, 4),
        (3, 4, 2),
        (3, 2, 6),
        (3, 6, 8),
        (3, 8, 9),
        (4, 9, 5),
        (2, 4, 11),
        (6, 2, 10),
        (8, 6, 7),
        (9, 8, 1),
    ];
    assert(faces@ =~= base_faces());
    let mut done: usize = 0;
    while done < splits
        invariant
            done <= splits,
            12 + 20 * pow(4, splits as nat) <= usize::MAX,
            (corners@, faces@) == icosphere_level(done as nat),
        decreases splits - done,
    {
        proof {
            lemma_icosphere_sizes(done as nat);
            lemma_icosphere_sizes((done + 1) as nat);
            vstd::arithmetic::power::lemma_pow_increases(4, (done + 1) as nat, splits as nat);
        }
        let split = split_once(&mut corners, &faces);
        faces = split;
        done = done + 1;
    }
    (corners, faces)
}

/// Every face of a split icosahedron names corners it has, and every
/// edge middle lies between two corners made before it.
pub proof fn law_icosphere_is_well_formed(splits: nat)
    ensures
        ({
            let (corners, faces) = icosphere_level(splits);
            &&& forall|i: int|
                0 <= i < faces.len() ==> (#[trigger] faces[i]).0 < corners.len() && faces[i].1
                    < corners.len() && faces[i].2 < corners.len()
            &&& forall|m: int|
                0 <= m < corners.len() ==> (#[trigger] corners[m] matches Corner::Middle(p, q) ==> p
                    < m && q < m)
        }),
    decreases splits,
{
    if splits > 0 {
        law_icosphere_is_well_formed((splits - 1) as nat);
        let (cs, fs) = icosphere_level((splits - 1) as nat);
        let (corners, faces) = icosphere_level(splits);
        let n = cs.len() as int;
        assert forall|i: int| 0 <= i < faces.len() implies (#[trigger] faces[i]).0 < corners.len()
            && faces[i].1 < corners.len() && faces[i].2 < corners.len() by {
            let f = fs[i / 4];
            assert(0 <= i / 4 < fs.len());
            assert(3 * (i / 4) + 2 < 3 * fs.len());
        }
        assert forall|m: int| 0 <= m < corners.len() implies (#[trigger] corners[m] matches Corner::Middle(p, q)
            ==> p < m && q < m) by {
            if m >= n {
                let k = m - n;
                assert(corners[m] == split_corners(fs)[k]);
                assert(0 <= k / 3 < fs.len());
                let f = fs[k / 3];
            }
        }
    }
}

/// Segments along the knot's curve.
pub const KNOT_SEGMENTS: usize = 320;
/// Corners around the knot's tube.
pub const KNOT_SIDES: usize = 20;

/// A trefoil knot as a tube: `vertices` holds a ring of `KNOT_SIDES`
/// vertices for each of the `KNOT_SEGMENTS` steps along the curve, ring
/// after ring, and the tube closes on itself, the last ring joined to
/// the first.
pub fn knot<V>(vertices: Vec<V>) -> (mesh: MeshData<V>)
    requires
        vertices.len() == KNOT_SEGMENTS * KNOT_SIDES,
    ensures
        mesh.valid(),
        mesh.vertices@ == vertices@,
        mesh.indices@.len() == 6 * KNOT_SEGMENTS * KNOT_SIDES,
        forall|row: int, column: int, j: int|
            0 <= row < KNOT_SEGMENTS && 0 <= column < KNOT_SIDES && 0 <= j < 6
                ==> #[trigger] mesh.indices@[grid_slot(0, KNOT_SIDES as int, row, column, j)]
                == grid_quad(KNOT_SEGMENTS as int, KNOT_SIDES as int, row, column)[j],
{
    let mut mesh = MeshData { vertices, indices: Vec::new() };
    grid_indices(&mut mesh, KNOT_SEGMENTS, KNOT_SIDES, true);
    proof {
        assert(mesh.indices@.take(0) =~= Seq::<u32>::empty());
        law_grid_mesh_is_valid(KNOT_SEGMENTS as int, KNOT_SIDES as int, true, mesh.indices@);
    }
    mesh
}

/// Steps up the vase's profile.
pub const VASE_STEPS: usize = 160;
/// Corners around the vase.
pub const VASE_SIDES: usize = 64;

/// A vase turned on a lathe: `vertices` holds a ring of `VASE_SIDES`
/// vertices for each of the `VASE_STEPS + 1` points of the profile,
/// ring after ring; the rings are joined in order, the profile does not
/// close on itself.
pub fn vase<V>(vertices: Vec<V>) -> (mesh: MeshData<V>)
    requires
        vertices.len() == (VASE_STEPS + 1) * VASE_SIDES,
    ensures
        mesh.valid(),
        mesh.vertices@ == vertices@,
        mesh.indices@.len() == 6 * VASE_STEPS * VASE_SIDES,
        forall|row: int, column: int, j: int|
            0 <= row < VASE_STEPS && 0 <= column < VASE_SIDES && 0 <= j < 6
                ==> #[trigger] mesh.indices@[grid_slot(0, VASE_SIDES as int, row, column, j)]
                == grid_quad((VASE_STEPS + 1) as int, VASE_SIDES as int, row, column)[j],
{
    let mut mesh = MeshData { vertices, indices: Vec::new() };
    grid_indices(&mut mesh, VASE_STEPS + 1, VASE_SIDES, false);
    proof {
        law_grid_mesh_is_valid((VASE_STEPS + 1) as int, VASE_SIDES as int, false, mesh.indices@);
    }
    mesh
}

/// Corners around the capsule.
pub const CAPSULE_SIDES: usize = 24;
/// Steps from a pole to the equator of each half ball of the capsule.
pub const CAPSULE_CAP_STEPS: usize = 8;

/// A capsule standing on its axis: `vertices` holds a ring of
/// `CAPSULE_SIDES` vertices for each point of its profile, pole to pole,
/// `CAPSULE_CAP_STEPS + 1` for the lower half ball, then as many for the
/// upper one; the rings are joined in order, the profile does not close
/// on itself.
pub fn capsule<V>(vertices: Vec<V>) -> (mesh: MeshData<V>)
    requires
        vertices.len() == 2 * (CAPSULE_CAP_STEPS + 1) * CAPSULE_SIDES,
    ensures
        mesh.valid(),
        mesh.vertices@ == vertices@,
        mesh.indices@.len() == 6 * (2 * CAPSULE_CAP_STEPS + 1) * CAPSULE_SIDES,
        forall|row: int, column: int, j: int|
            0 <= row < 2 * CAPSULE_CAP_STEPS + 1 && 0 <= column < CAPSULE_SIDES && 0 <= j < 6
                ==> #[trigger] mesh.indices@[grid_slot(0, CAPSULE_SIDES as int, row, column, j)]
                == grid_quad((2 * (CAPSULE_CAP_STEPS + 1)) as int, CAPSULE_SIDES as int, row, column)[j],
{
    let mut mesh = MeshData { vertices, indices: Vec::new() };
    grid_indices(&mut mesh, 2 * (CAPSULE_CAP_STEPS + 1), CAPSULE_SIDES, false);
    proof {
        law_grid_mesh_is_valid((2 * (CAPSULE_CAP_STEPS + 1)) as int, CAPSULE_SIDES as int, false, mesh.indices@);
    }
    mesh
}

/// The indices a grid gives, laid out quad by quad from the start,
/// are all vertices of a grid of `rows` by `columns`.
pub proof fn law_grid_mesh_is_valid(rows: int, columns: int, wrap_rows: bool, indices: Seq<u32>)
    requires
        rows > 0,
        columns > 0,
        rows * columns <= u32::MAX + 1,
        indices.len() == 6 * (grid_row_count(rows, wrap_rows) * columns),
        forall|row: int, column: int, j: int|
            0 <= row < grid_row_count(rows, wrap_rows) && 0 <= column < columns && 0 <= j < 6
                ==> #[trigger] indices[grid_slot(0, columns, row, column, j)] == grid_quad(
                rows,
                columns,
                row,
                column,
            )[j],
    ensures
        indices_valid(rows * columns, indices),
{
    let rc = grid_row_count(rows, wrap_rows);
    assert forall|k: int| 0 <= k < indices.len() implies #[trigger] indices[k] < rows * columns by {
        let q = k / 6;
        let j = k % 6;
        let row = q / columns;
        let column = q % columns;
        vstd::arithmetic::div_mod::lemma_fundamental_div_mod(q, columns);
        assert(0 <= q < rc * columns);
        assert(0 <= row) by (nonlinear_arith)
            requires
                row == q / columns,
                q >= 0,
                columns > 0,
        ;
        assert(row < rc) by (nonlinear_arith)
            requires
                q == columns * row + column,
                0 <= column,
                q < rc * columns,
                columns > 0,
        ;
        assert(row * columns == columns * row) by (nonlinear_arith);
        assert(grid_slot(0, columns, row, column, j) == k);
        law_grid_indices_in_grid(rows, columns, row, column, j);
    }
}

/// The quad of the terrain grid at `row` and `column`, `side` vertices
/// along each side, counter clockwise seen from above.
pub open spec fn terrain_quad(side: int, row: int, column: int) -> Seq<u32> {
    let i = row * side + column;
    seq![i as u32, (i + side) as u32, (i + 1) as u32, (i + 1) as u32, (i + side) as u32, (i + side
        + 1) as u32]
}

/// The triangles of a terrain grid of `side` by `side` vertices laid out
/// row after row, a row one step along z: two per grid cell, cell after
/// cell.
pub fn terrain_indices(side: u32) -> (r: Vec<u32>)
    requires
        side >= 1,
        side * side <= u32::MAX + 1,
    ensures
        r@.len() == 6 * ((side - 1) * (side - 1)),
        forall|row: int, column: int, j: int|
            0 <= row < side - 1 && 0 <= column < side - 1 && 0 <= j < 6 ==> #[trigger] r@[grid_slot(
                0,
                side - 1,
                row,
                column,
                j,
            )] == terrain_quad(side as int, row, column)[j],
        indices_valid(side * side, r@),
{
    let cells = side - 1;
    let ghost s = side as int;
    let ghost c = cells as int;
    let mut out: Vec<u32> = Vec::new();
    let mut row: u32 = 0;
    while row < cells
        invariant
            cells == side - 1,
            s == side as int,
            c == cells as int,
            side * side <= u32::MAX + 1,
            row <= cells,
            out@.len() == 6 * (row * c),
            forall|r: int, cc: int, j: int|
                0 <= r && 0 <= cc < c && 0 <= j < 6 && r * c + cc < row * c ==> #[trigger] out@[grid_slot(
                    0,
                    c,
                    r,
                    cc,
                    j,
                )] == terrain_quad(s, r, cc)[j],
            indices_valid(s * s, out@),
        decreases cells - row,
    {
        let mut column: u32 = 0;
        while column < cells
            invariant
                cells == side - 1,
                s == side as int,
                c == cells as int,
                side * side <= u32::MAX + 1,
                row < cells,
                column <= cells,
                out@.len() == 6 * (row * c + column),
                forall|r: int, cc: int, j: int|
                    0 <= r && 0 <= cc < c && 0 <= j < 6 && r * c + cc < row * c + column
                        ==> #[trigger] out@[grid_slot(0, c, r, cc, j)] == terrain_quad(s, r, cc)[j],
                indices_valid(s * s, out@),
            decreases cells - column,
        {
            proof {
                assert(row * s + column + s + 1 <= s * s - 1) by (nonlinear_arith)
                    requires
                        row + 2 <= s,
                        column + 2 <= s,
                ;
                assert(0 <= row * s) by (nonlinear_arith)
                    requires
                        0 <= row,
                        0 <= s,
                ;
            }
            let i = row * side + column;
            let ghost prev = out@;
            push_quad(&mut out, i, i + side, i + 1, i + side + 1);
            proof {
                let q = row * c + column;
                assert(0 <= row * c) by (nonlinear_arith)
                    requires
                        0 <= row,
                        0 <= c,
                ;
                assert forall|r: int, cc: int, j: int|
                    0 <= r && 0 <= cc < c && 0 <= j < 6 && r * c + cc < q + 1
                        implies #[trigger] out@[grid_slot(0, c, r, cc, j)] == terrain_quad(s, r, cc)[j] by {
                    assert(0 <= r * c) by (nonlinear_arith)
                        requires
                            0 <= r,
                            0 <= c,
                    ;
                    if r * c + cc < q {
                        assert(out@[grid_slot(0, c, r, cc, j)] == prev[grid_slot(0, c, r, cc, j)]);
                    } else {
                        lemma_grid_slot_unique(c, r, cc, row as int, column as int);
                    }
                }
                assert forall|k: int| 0 <= k < out@.len() implies #[trigger] out@[k] < s * s by {
                    if k < prev.len() {
                        assert(out@[k] == prev[k]);
                    }
                }
            }
            column = column + 1;
        }
        proof {
            assert(row * c + c == (row + 1) * c) by (nonlinear_arith);
        }
        row = row + 1;
    }
    proof {
        assert forall|r: int, cc: int, j: int|
            0 <= r < c && 0 <= cc < c && 0 <= j < 6 implies #[trigger] out@[grid_slot(0, c, r, cc, j)]
            == terrain_quad(s, r, cc)[j] by {
            assert(r * c + cc < c * c) by (nonlinear_arith)
                requires
                    0 <= r < c,
                    0 <= cc < c,
            ;
        }
    }
    out
}

/// `std::hint::black_box` on nothing: the optimizer sees a use it cannot
/// remove. Nothing is stated.
#[verifier::external_body]
fn black_box_unit() {
    std::hint::black_box(())
}

/// Names the scene test crate so a linker keeps it. Every scene test
/// registers itself when the crate loads and nothing calls it by name,
/// so a linker would otherwise drop it and every test with it.
pub fn keep_linked() {
    black_box_unit();
}

/// The corners of the quads `quads`, quad after quad.
pub open spec fn quad_corners<V>(quads: Seq<[V; 4]>) -> Seq<V> {
    Seq::new(4 * quads.len(), |k: int| quads[k / 4]@[k % 4])
}

/// The corners of the triangles `triangles`, triangle after triangle.
pub open spec fn triangle_corners<V>(triangles: Seq<[V; 3]>) -> Seq<V> {
    Seq::new(3 * triangles.len(), |k: int| triangles[k / 3]@[k % 3])
}

/// Where each of a flat quad's six indices points among its corners.
pub open spec fn quad_pattern(j: int) -> int {
    if j == 0 {
        0
    } else if j == 1 {
        1
    } else if j == 2 {
        2
    } else if j == 3 {
        2
    } else if j == 4 {
        1
    } else {
        3
    }
}

/// The indices of `quads` flat quads, then `triangles` flat triangles,
/// each over its own corners.
pub open spec fn faces_indices(quads: int, triangles: int) -> Seq<u32> {
    Seq::new((6 * quads) as nat, |k: int| (4 * (k / 6) + quad_pattern(k % 6)) as u32) + Seq::new(
        (3 * triangles) as nat,
        |k: int| (4 * quads + k) as u32,
    )
}

/// A mesh of flat faces: the quads in order, then the triangles, each
/// face on its own corners so it shades flat.
pub fn flat_faces<V: Copy>(quads: &Vec<[V; 4]>, triangles: &Vec<[V; 3]>) -> (mesh: MeshData<V>)
    requires
        4 * quads.len() + 3 * triangles.len() <= u32::MAX,
    ensures
        mesh.vertices@ == quad_corners(quads@) + triangle_corners(triangles@),
        mesh.indices@ == faces_indices(quads.len() as int, triangles.len() as int),
        mesh.valid(),
{
    let mut mesh = MeshData::new();
    let mut q: usize = 0;
    while q < quads.len()
        invariant
            q <= quads.len(),
            4 * quads.len() + 3 * triangles.len() <= u32::MAX,
            mesh.vertices@ == quad_corners(quads@.take(q as int)),
            mesh.indices@ == faces_indices(q as int, 0),
        decreases quads.len() - q,
    {
        let ghost vs = mesh.vertices@;
        let ghost is = mesh.indices@;
        flat_quad(&mut mesh, quads[q]);
        proof {
            assert(quad_corners(quads@.take(q + 1)) =~= vs + quads@[q as int]@);
            assert(faces_indices(q + 1, 0) =~= is + seq![
                (4 * q) as u32,
                (4 * q + 1) as u32,
                (4 * q + 2) as u32,
                (4 * q + 2) as u32,
                (4 * q + 1) as u32,
                (4 * q + 3) as u32,
            ]);
        }
        q = q + 1;
    }
    assert(quads@.take(q as int) =~= quads@);
    let mut t: usize = 0;
    while t < triangles.len()
        invariant
            t <= triangles.len(),
            q == quads.len(),
            4 * quads.len() + 3 * triangles.len() <= u32::MAX,
            mesh.vertices@ == quad_corners(quads@) + triangle_corners(triangles@.take(t as int)),
            mesh.indices@ == faces_indices(q as int, t as int),
        decreases triangles.len() - t,
    {
        let ghost vs = mesh.vertices@;
        let ghost is = mesh.indices@;
        flat_triangle(&mut mesh, triangles[t]);
        proof {
            assert(triangle_corners(triangles@.take(t + 1)) =~= triangle_corners(
                triangles@.take(t as int),
            ) + triangles@[t as int]@);
            assert(quad_corners(quads@) + triangle_corners(triangles@.take(t + 1)) =~= vs
                + triangles@[t as int]@);
            assert(faces_indices(q as int, t + 1) =~= is + seq![
                (4 * q + 3 * t) as u32,
                (4 * q + 3 * t + 1) as u32,
                (4 * q + 3 * t + 2) as u32,
            ]);
        }
        t = t + 1;
    }
    assert(triangles@.take(t as int) =~= triangles@);
    proof {
        let ix = mesh.indices@;
        assert forall|k: int| 0 <= k < ix.len() implies #[trigger] ix[k] < mesh.vertices.len() by {
            if k < 6 * q {
                assert(ix[k] == (4 * (k / 6) + quad_pattern(k % 6)) as u32);
            }
        }
    }
    mesh
}

/// Layers the star's column is pushed up in.
pub const STAR_LAYERS: usize = 40;
/// Corners of the star's outline, five points and five notches.
pub const STAR_CORNERS: usize = 10;

/// A five pointed star pushed up in thin layers, each turned a little
/// more than the one below: `sides` holds, layer after layer, the flat
/// quad of each of the outline's sides, and `caps` the bottom and top
/// cap triangles of each side, bottom then top.
pub fn twisted_star<V: Copy>(sides: &Vec<[V; 4]>, caps: &Vec<[V; 3]>) -> (mesh: MeshData<V>)
    requires
        sides.len() == STAR_LAYERS * STAR_CORNERS,
        caps.len() == 2 * STAR_CORNERS,
    ensures
        mesh.vertices@ == quad_corners(sides@) + triangle_corners(caps@),
        mesh.indices@ == faces_indices(sides.len() as int, caps.len() as int),
        mesh.valid(),
{
    flat_faces(sides, caps)
}

/// Faces of the rock: an icosahedron split three times.
pub const ROCK_FACES: usize = 1280;

/// A boulder: one flat triangle per face of an icosahedron split three
/// times, each wound to look out.
pub fn rock<V: Copy>(triangles: &Vec<[V; 3]>) -> (mesh: MeshData<V>)
    requires
        triangles.len() == ROCK_FACES,
    ensures
        mesh.vertices@ == triangle_corners(triangles@),
        mesh.indices@ == faces_indices(0, ROCK_FACES as int),
        mesh.valid(),
{
    let none: Vec<[V; 4]> = Vec::new();
    let mesh = flat_faces(&none, triangles);
    assert(quad_corners(none@) + triangle_corners(triangles@) =~= triangle_corners(triangles@));
    mesh
}

} // verus!
