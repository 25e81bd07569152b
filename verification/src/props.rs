//! The low poly props of the vertex colored scene. Every face is a flat
//! triangle on three vertices of its own; which corners make a face, in
//! which order, and what paints it is decided here, while the painting
//! itself (a normal and a shaded color for the three corners) is the
//! caller's `paint`.

use vstd::prelude::*;
use crate::mesh::{
    MeshData, faces_indices, icosphere, icosphere_level, indices_valid, law_icosphere_is_well_formed,
    lemma_icosphere_sizes,
};
use crate::pixels::U8Color;

verus! {

/// A vertex of a lit, textured, vertex colored mesh.
#[derive(Clone, Copy, Debug, PartialEq)]
pub struct Vertex3D<P, T> {
    pub pos: P,
    pub normal: P,
    pub uv: T,
    pub color: U8Color,
}

/// A vertex at `pos` facing `normal` in `color`, with the default
/// texture coordinate.
pub fn vertex<P, T: Default>(pos: P, normal: P, color: U8Color) -> (v: Vertex3D<P, T>)
    ensures
        v.pos == pos,
        v.normal == normal,
        v.color == color,
{
    Vertex3D { pos, normal, uv: T::default(), color }
}

/// The indices `start`, `start + 1`, ... `count` of them.
pub open spec fn run_indices(start: int, count: int) -> Seq<u32> {
    Seq::new(count as nat, |k: int| (start + k) as u32)
}

/// From `start` on, `vertices` holds the faces painted in order, three
/// vertices each.
pub open spec fn painted<T, V, F: Fn(T) -> (V, V, V)>(
    vertices: Seq<V>,
    start: int,
    faces: Seq<T>,
    paint: F,
) -> bool {
    forall|s: int|
        0 <= s < faces.len() ==> call_ensures(
            paint,
            (#[trigger] faces[s],),
            (vertices[start + 3 * s], vertices[start + 3 * s + 1], vertices[start + 3 * s + 2]),
        )
}

/// `paint` can paint every face.
pub open spec fn paints_all<T, V, F: Fn(T) -> (V, V, V)>(faces: Seq<T>, paint: F) -> bool {
    forall|s: int| 0 <= s < faces.len() ==> call_requires(paint, (#[trigger] faces[s],))
}

/// Paints the faces one by one onto the end of the mesh, each a flat
/// triangle on three new vertices.
pub fn paint_faces<T: Copy, V, F: Fn(T) -> (V, V, V)>(
    mesh: &mut MeshData<V>,
    faces: &Vec<T>,
    paint: &F,
)
    requires
        old(mesh).vertices.len() + 3 * faces.len() <= u32::MAX,
        paints_all(faces@, *paint),
    ensures
        final(mesh).vertices@.len() == old(mesh).vertices@.len() + 3 * faces.len(),
        final(mesh).vertices@.take(old(mesh).vertices.len() as int) == old(mesh).vertices@,
        final(mesh).indices@ == old(mesh).indices@ + run_indices(
            old(mesh).vertices.len() as int,
            3 * faces.len(),
        ),
        painted(final(mesh).vertices@, old(mesh).vertices.len() as int, faces@, *paint),
{
    let ghost start = old(mesh).vertices.len() as int;
    let ghost vs = old(mesh).vertices@;
    let ghost is = old(mesh).indices@;
    let mut s: usize = 0;
    while s < faces.len()
        invariant
            s <= faces.len(),
            start == vs.len(),
            start + 3 * faces.len() <= u32::MAX,
            paints_all(faces@, *paint),
            mesh.vertices@.len() == start + 3 * s,
            mesh.vertices@.take(start) == vs,
            mesh.indices@ == is + run_indices(start, 3 * s),
            painted(mesh.vertices@, start, faces@.take(s as int), *paint),
        decreases faces.len() - s,
    {
        let face = faces[s];
        assert(call_requires(*paint, (faces@[s as int],)));
        let (a, b, c) = paint(face);
        let ghost before = mesh.vertices@;
        let first = mesh.vertices.len() as u32;
        mesh.vertices.push(a);
        mesh.vertices.push(b);
        mesh.vertices.push(c);
        mesh.indices.push(first);
        mesh.indices.push(first + 1);
        mesh.indices.push(first + 2);
        proof {
            assert(mesh.vertices@.take(start) =~= vs) by {
                assert(before.take(start) =~= vs);
            }
            assert(is + run_indices(start, 3 * (s + 1)) =~= (is + run_indices(start, 3 * s)).push(
                first,
            ).push((first + 1) as u32).push((first + 2) as u32));
            let done = faces@.take(s + 1);
            assert forall|t: int| 0 <= t < done.len() implies call_ensures(
                *paint,
                (#[trigger] done[t],),
                (
                    mesh.vertices@[start + 3 * t],
                    mesh.vertices@[start + 3 * t + 1],
                    mesh.vertices@[start + 3 * t + 2],
                ),
            ) by {
                if t < s {
                    assert(faces@.take(s as int)[t] == done[t]);
                    assert(mesh.vertices@[start + 3 * t] == before[start + 3 * t]);
                    assert(mesh.vertices@[start + 3 * t + 1] == before[start + 3 * t + 1]);
                    assert(mesh.vertices@[start + 3 * t + 2] == before[start + 3 * t + 2]);
                }
            }
        }
        s = s + 1;
    }
    assert(faces@.take(s as int) =~= faces@);
}


/// A mesh painted from nothing holds its faces' triangles only, each on
/// vertices it has.
pub proof fn lemma_painted_from_empty_is_valid(count: int)
    requires
        0 <= count,
    ensures
        indices_valid(3 * count, run_indices(0, 3 * count)),
        run_indices(0, 3 * count) == faces_indices(0, count),
{
    assert(run_indices(0, 3 * count) =~= faces_indices(0, count));
}

/// Paints the faces onto an empty mesh.
pub fn flat_mesh<T: Copy, V, F: Fn(T) -> (V, V, V)>(faces: &Vec<T>, paint: &F) -> (mesh: MeshData<V>)
    requires
        3 * faces.len() <= u32::MAX,
        paints_all(faces@, *paint),
    ensures
        mesh.vertices@.len() == 3 * faces.len(),
        mesh.indices@ == faces_indices(0, faces.len() as int),
        painted(mesh.vertices@, 0, faces@, *paint),
        mesh.valid(),
{
    let mut mesh = MeshData::new();
    paint_faces(&mut mesh, faces, paint);
    proof {
        lemma_painted_from_empty_is_valid(faces.len() as int);
        assert(mesh.indices@ =~= run_indices(0, 3 * faces.len()));
    }
    mesh
}

/// A face to paint: what paints it, then its three corners, counter
/// clockwise seen from outside.
pub type Face<C, P> = (C, P, P, P);

/// The side after side `k` of a ring of `n`, wrapping to the first.
pub open spec fn next_side(k: int, n: int) -> int {
    (k + 1) % n
}

/// The faces at side `k` of a frustum between the rings `low` and
/// `high`: the lower triangle of the side, the upper one unless the top
/// is a point, then the top cap's and the bottom cap's triangles where
/// there is a cap.
pub open spec fn frustum_side<P, C>(
    low: Seq<P>,
    high: Seq<P>,
    has_top: bool,
    side: Seq<C>,
    top_cap: Option<(P, C)>,
    bottom_cap: Option<(P, C)>,
    k: int,
) -> Seq<Face<C, P>> {
    let next = next_side(k, low.len() as int);
    seq![(side[k], low[k], high[k], low[next])] + (if has_top {
        seq![(side[k], low[next], high[k], high[next])]
    } else {
        Seq::empty()
    }) + (match top_cap {
        Some((apex, c)) => seq![(c, apex, high[next], high[k])],
        None => Seq::empty(),
    }) + (match bottom_cap {
        Some((base, c)) => seq![(c, base, low[k], low[next])],
        None => Seq::empty(),
    })
}

/// The faces of the first `count` sides of a frustum, side by side.
pub open spec fn frustum_sides<P, C>(
    low: Seq<P>,
    high: Seq<P>,
    has_top: bool,
    side: Seq<C>,
    top_cap: Option<(P, C)>,
    bottom_cap: Option<(P, C)>,
    count: nat,
) -> Seq<Face<C, P>>
    decreases count,
{
    if count == 0 {
        Seq::empty()
    } else {
        frustum_sides(low, high, has_top, side, top_cap, bottom_cap, (count - 1) as nat)
            + frustum_side(low, high, has_top, side, top_cap, bottom_cap, count - 1)
    }
}

/// How many faces each side of a frustum has.
pub open spec fn faces_per_side<P, C>(has_top: bool, top_cap: Option<(P, C)>, bottom_cap: Option<(P, C)>) -> int {
    1 + (if has_top { 1int } else { 0 }) + (if top_cap is Some { 1int } else { 0 }) + (if bottom_cap is Some { 1int } else { 0 })
}

/// Each side of a frustum gives the same number of faces.
pub proof fn lemma_frustum_sides_len<P, C>(
    low: Seq<P>,
    high: Seq<P>,
    has_top: bool,
    side: Seq<C>,
    top_cap: Option<(P, C)>,
    bottom_cap: Option<(P, C)>,
    count: nat,
)
    ensures
        frustum_sides(low, high, has_top, side, top_cap, bottom_cap, count).len() == count
            * faces_per_side(has_top, top_cap, bottom_cap),
    decreases count,
{
    if count > 0 {
        lemma_frustum_sides_len(low, high, has_top, side, top_cap, bottom_cap, (count - 1) as nat);
        assert(frustum_side(low, high, has_top, side, top_cap, bottom_cap, count - 1).len()
            == faces_per_side(has_top, top_cap, bottom_cap));
        assert(count * faces_per_side(has_top, top_cap, bottom_cap) == (count - 1) * faces_per_side(
            has_top,
            top_cap,
            bottom_cap,
        ) + faces_per_side(has_top, top_cap, bottom_cap)) by (nonlinear_arith);
    } else {
        assert(count * faces_per_side(has_top, top_cap, bottom_cap) == 0) by (nonlinear_arith)
            requires
                count == 0,
        ;
    }
}

/// The faces of a frustum, side after side.
pub fn frustum_faces<P: Copy, C: Copy>(
    low: &Vec<P>,
    high: &Vec<P>,
    has_top: bool,
    side: &Vec<C>,
    top_cap: Option<(P, C)>,
    bottom_cap: Option<(P, C)>,
) -> (faces: Vec<Face<C, P>>)
    requires
        low.len() == high.len(),
        low.len() == side.len(),
    ensures
        faces@ == frustum_sides(
            low@,
            high@,
            has_top,
            side@,
            top_cap,
            bottom_cap,
            low.len() as nat,
        ),
{
    let n = low.len();
    let mut faces: Vec<Face<C, P>> = Vec::new();
    let mut k: usize = 0;
    while k < n
        invariant
            n == low.len(),
            n == high.len(),
            n == side.len(),
            k <= n,
            faces@ == frustum_sides(low@, high@, has_top, side@, top_cap, bottom_cap, k as nat),
        decreases n - k,
    {
        let next = (k + 1) % n;
        let color = side[k];
        let ghost before = faces@;
        faces.push((color, low[k], high[k], low[next]));
        if has_top {
            faces.push((color, low[next], high[k], high[next]));
        }
        match top_cap {
            Some((apex, c)) => {
                faces.push((c, apex, high[next], high[k]));
            },
            None => {},
        }
        match bottom_cap {
            Some((base, c)) => {
                faces.push((c, base, low[k], low[next]));
            },
            None => {},
        }
        assert(faces@ =~= before + frustum_side(
            low@,
            high@,
            has_top,
            side@,
            top_cap,
            bottom_cap,
            k as int,
        ));
        k = k + 1;
    }
    faces
}

/// A prism between the rings `low` and `high`, or a cone where the top
/// is a point: each side painted in its color from `side`, and a flat
/// cap at each end that has one, from its middle point.
pub fn frustum<P: Copy, C: Copy, V, F: Fn(Face<C, P>) -> (V, V, V)>(
    low: &Vec<P>,
    high: &Vec<P>,
    has_top: bool,
    side: &Vec<C>,
    top_cap: Option<(P, C)>,
    bottom_cap: Option<(P, C)>,
    paint: &F,
) -> (mesh: MeshData<V>)
    requires
        low.len() == high.len(),
        low.len() == side.len(),
        12 * low.len() <= u32::MAX,
        forall|f: Face<C, P>| #[trigger] call_requires(*paint, (f,)),
    ensures
        ({
            let faces = frustum_sides(
                low@,
                high@,
                has_top,
                side@,
                top_cap,
                bottom_cap,
                low.len() as nat,
            );
            &&& mesh.vertices@.len() == 3 * faces.len()
            &&& mesh.indices@ == faces_indices(0, faces.len() as int)
            &&& painted(mesh.vertices@, 0, faces, *paint)
            &&& mesh.valid()
        }),
{
    let faces = frustum_faces(low, high, has_top, side, top_cap, bottom_cap);
    proof {
        lemma_frustum_sides_len(low@, high@, has_top, side@, top_cap, bottom_cap, low.len() as nat);
        assert(low.len() * faces_per_side(has_top, top_cap, bottom_cap) <= 4 * low.len())
            by (nonlinear_arith)
            requires
                faces_per_side(has_top, top_cap, bottom_cap) <= 4,
        ;
    }
    flat_mesh(&faces, paint)
}


/// The two faces at side `k` of a flat band between the rings `inside`
/// and `outside`, each painted from `colors[k]`.
pub open spec fn band_side<P, C>(inside: Seq<P>, outside: Seq<P>, colors: Seq<(C, C)>, k: int) -> Seq<Face<C, P>> {
    let next = next_side(k, inside.len() as int);
    seq![
        (colors[k].0, inside[k], outside[next], outside[k]),
        (colors[k].1, inside[k], inside[next], outside[next]),
    ]
}

/// The faces of the first `count` sides of a band.
pub open spec fn band_sides<P, C>(inside: Seq<P>, outside: Seq<P>, colors: Seq<(C, C)>, count: nat) -> Seq<Face<C, P>>
    decreases count,
{
    if count == 0 {
        Seq::empty()
    } else {
        band_sides(inside, outside, colors, (count - 1) as nat) + band_side(inside, outside, colors, count - 1)
    }
}

/// A band has two faces a side.
pub proof fn lemma_band_sides_len<P, C>(inside: Seq<P>, outside: Seq<P>, colors: Seq<(C, C)>, count: nat)
    ensures
        band_sides(inside, outside, colors, count).len() == 2 * count,
    decreases count,
{
    if count > 0 {
        lemma_band_sides_len(inside, outside, colors, (count - 1) as nat);
    }
}

/// Adds the faces of a flat band between two rings of equal size.
fn push_band<P: Copy, C: Copy>(faces: &mut Vec<Face<C, P>>, inside: &Vec<P>, outside: &Vec<P>, colors: &Vec<(C, C)>)
    requires
        inside.len() == outside.len(),
        inside.len() == colors.len(),
    ensures
        final(faces)@ == old(faces)@ + band_sides(inside@, outside@, colors@, inside.len() as nat),
{
    let n = inside.len();
    let ghost start = faces@;
    let mut k: usize = 0;
    while k < n
        invariant
            n == inside.len(),
            n == outside.len(),
            n == colors.len(),
            k <= n,
            faces@ == start + band_sides(inside@, outside@, colors@, k as nat),
        decreases n - k,
    {
        let next = (k + 1) % n;
        let (outer, inner) = colors[k];
        faces.push((outer, inside[k], outside[next], outside[k]));
        faces.push((inner, inside[k], inside[next], outside[next]));
        assert(faces@ =~= start + band_sides(inside@, outside@, colors@, (k + 1) as nat));
        k = k + 1;
    }
}

/// The face at side `k` of a flat fan from `center` out to `ring`.
pub open spec fn fan_side<P, C>(center: P, ring: Seq<P>, color: C, k: int) -> Seq<Face<C, P>> {
    seq![(color, center, ring[next_side(k, ring.len() as int)], ring[k])]
}

/// The faces of the first `count` sides of a fan.
pub open spec fn fan_sides<P, C>(center: P, ring: Seq<P>, color: C, count: nat) -> Seq<Face<C, P>>
    decreases count,
{
    if count == 0 {
        Seq::empty()
    } else {
        fan_sides(center, ring, color, (count - 1) as nat) + fan_side(center, ring, color, count - 1)
    }
}

/// A fan has one face a side.
pub proof fn lemma_fan_sides_len<P, C>(center: P, ring: Seq<P>, color: C, count: nat)
    ensures
        fan_sides(center, ring, color, count).len() == count,
    decreases count,
{
    if count > 0 {
        lemma_fan_sides_len(center, ring, color, (count - 1) as nat);
    }
}

/// Adds the faces of a flat fan from `center` out to `ring`, all in one
/// color.
fn push_fan<P: Copy, C: Copy>(faces: &mut Vec<Face<C, P>>, center: P, ring: &Vec<P>, color: C)
    ensures
        final(faces)@ == old(faces)@ + fan_sides(center, ring@, color, ring.len() as nat),
{
    let n = ring.len();
    let ghost start = faces@;
    let mut k: usize = 0;
    while k < n
        invariant
            n == ring.len(),
            k <= n,
            faces@ == start + fan_sides(center, ring@, color, k as nat),
        decreases n - k,
    {
        let next = (k + 1) % n;
        faces.push((color, center, ring[next], ring[k]));
        assert(faces@ =~= start + fan_sides(center, ring@, color, (k + 1) as nat));
        k = k + 1;
    }
}

/// Sides of the chopping stump.
pub const STUMP_SIDES: usize = 11;
/// Rings on the stump's cut top.
pub const STUMP_BANDS: usize = 5;

/// The faces of the growth ring bands on the stump's top, band `b`
/// between ring `b + 1` inside and ring `b` outside, for the first
/// `count` bands.
pub open spec fn stump_bands<P, C>(rings: Seq<Vec<P>>, colors: Seq<Vec<(C, C)>>, count: nat) -> Seq<Face<C, P>>
    decreases count,
{
    if count == 0 {
        Seq::empty()
    } else {
        let b = count - 1;
        stump_bands(rings, colors, (count - 1) as nat) + band_sides(
            rings[b + 1]@,
            rings[b]@,
            colors[b]@,
            STUMP_SIDES as nat,
        )
    }
}

/// The faces of the stump: the bark sides, the growth ring bands from
/// the rim in, then the heart.
pub open spec fn stump_faces<P, C>(
    low: Seq<P>,
    rings: Seq<Vec<P>>,
    side: Seq<C>,
    bands: Seq<Vec<(C, C)>>,
    center: P,
    heart: C,
) -> Seq<Face<C, P>> {
    frustum_sides(low, rings[0]@, true, side, None, None, STUMP_SIDES as nat) + stump_bands(
        rings,
        bands,
        STUMP_BANDS as nat,
    ) + fan_sides(center, rings[STUMP_BANDS as int]@, heart, STUMP_SIDES as nat)
}

/// A chopping stump: bark down the sides from `low` up to the rim,
/// `rings[0]`, each side painted from `side`; the growth rings on the cut
/// top, band `b` from `rings[b]` in to `rings[b + 1]` painted from
/// `bands[b]`; and the heart, a fan from `center` to the innermost ring.
pub fn stump<P: Copy, C: Copy, V, F: Fn(Face<C, P>) -> (V, V, V)>(
    low: &Vec<P>,
    rings: &Vec<Vec<P>>,
    side: &Vec<C>,
    bands: &Vec<Vec<(C, C)>>,
    center: P,
    heart: C,
    paint: &F,
) -> (mesh: MeshData<V>)
    requires
        low.len() == STUMP_SIDES,
        side.len() == STUMP_SIDES,
        rings.len() == STUMP_BANDS + 1,
        bands.len() == STUMP_BANDS,
        forall|r: int| 0 <= r < rings.len() ==> (#[trigger] rings[r]).len() == STUMP_SIDES,
        forall|b: int| 0 <= b < bands.len() ==> (#[trigger] bands[b]).len() == STUMP_SIDES,
        forall|f: Face<C, P>| #[trigger] call_requires(*paint, (f,)),
    ensures
        ({
            let faces = stump_faces(low@, rings@, side@, bands@, center, heart);
            &&& mesh.vertices@.len() == 3 * faces.len()
            &&& mesh.indices@ == faces_indices(0, faces.len() as int)
            &&& painted(mesh.vertices@, 0, faces, *paint)
            &&& mesh.valid()
        }),
{
    let mut faces = frustum_faces(low, &rings[0], true, side, None, None);
    let ghost body = faces@;
    let mut b: usize = 0;
    while b < STUMP_BANDS
        invariant
            b <= STUMP_BANDS,
            rings.len() == STUMP_BANDS + 1,
            bands.len() == STUMP_BANDS,
            forall|r: int| 0 <= r < rings.len() ==> (#[trigger] rings[r]).len() == STUMP_SIDES,
            forall|c: int| 0 <= c < bands.len() ==> (#[trigger] bands[c]).len() == STUMP_SIDES,
            faces@ == body + stump_bands(rings@, bands@, b as nat),
        decreases STUMP_BANDS - b,
    {
        push_band(&mut faces, &rings[b + 1], &rings[b], &bands[b]);
        assert(faces@ =~= body + stump_bands(rings@, bands@, (b + 1) as nat));
        b = b + 1;
    }
    push_fan(&mut faces, center, &rings[STUMP_BANDS], heart);
    proof {
        let fs = stump_faces(low@, rings@, side@, bands@, center, heart);
        assert(faces@ =~= fs);
        lemma_frustum_sides_len(low@, rings@[0]@, true, side@, None::<(P, C)>, None::<(P, C)>, STUMP_SIDES as nat);
        lemma_fan_sides_len(center, rings@[STUMP_BANDS as int]@, heart, STUMP_SIDES as nat);
        lemma_stump_bands_len(rings@, bands@, STUMP_BANDS as nat);
    }
    flat_mesh(&faces, paint)
}

/// The growth ring bands have two faces a side each.
pub proof fn lemma_stump_bands_len<P, C>(rings: Seq<Vec<P>>, colors: Seq<Vec<(C, C)>>, count: nat)
    ensures
        stump_bands(rings, colors, count).len() == 2 * STUMP_SIDES * count,
    decreases count,
{
    if count > 0 {
        lemma_stump_bands_len(rings, colors, (count - 1) as nat);
        lemma_band_sides_len(rings[count as int]@, rings[count - 1]@, colors[count - 1]@, STUMP_SIDES as nat);
        assert(2 * STUMP_SIDES * count == 2 * STUMP_SIDES * (count - 1) + 2 * STUMP_SIDES)
            by (nonlinear_arith);
    } else {
        assert(2 * STUMP_SIDES * count == 0) by (nonlinear_arith)
            requires
                count == 0,
        ;
    }
}


/// Sides of the pine's trunk.
pub const PINE_TRUNK_SIDES: usize = 6;
/// Tiers of needles on the pine.
pub const PINE_TIERS: usize = 4;
/// Corners of each tier's ragged hem.
pub const PINE_SIDES: usize = 8;

/// A tier of needles: a cone from the ragged `hem` up to `apex`, each
/// slope painted from `needles`, over an underside from `under` painted
/// `shadow`.
pub struct PineTier<P, C> {
    pub hem: Vec<P>,
    pub apex: P,
    pub under: P,
    pub needles: Vec<C>,
    pub shadow: C,
}

/// The faces at side `k` of a tier: the slope, then the underside.
pub open spec fn tier_side<P, C>(tier: PineTier<P, C>, k: int) -> Seq<Face<C, P>> {
    let hem = tier.hem@;
    let next = next_side(k, hem.len() as int);
    seq![
        (tier.needles@[k], hem[k], tier.apex, hem[next]),
        (tier.shadow, tier.under, hem[k], hem[next]),
    ]
}

/// The faces of the first `count` sides of a tier.
pub open spec fn tier_sides<P, C>(tier: PineTier<P, C>, count: nat) -> Seq<Face<C, P>>
    decreases count,
{
    if count == 0 {
        Seq::empty()
    } else {
        tier_sides(tier, (count - 1) as nat) + tier_side(tier, count - 1)
    }
}

/// The faces of the first `count` tiers, the lowest first.
pub open spec fn pine_tiers<P, C>(tiers: Seq<PineTier<P, C>>, count: nat) -> Seq<Face<C, P>>
    decreases count,
{
    if count == 0 {
        Seq::empty()
    } else {
        pine_tiers(tiers, (count - 1) as nat) + tier_sides(tiers[count - 1], PINE_SIDES as nat)
    }
}

/// The faces of the pine: the trunk, then the tiers from the lowest up.
pub open spec fn pine_faces<P, C>(
    trunk_low: Seq<P>,
    trunk_high: Seq<P>,
    bark: Seq<C>,
    tiers: Seq<PineTier<P, C>>,
) -> Seq<Face<C, P>> {
    frustum_sides(trunk_low, trunk_high, true, bark, None, None, PINE_TRUNK_SIDES as nat)
        + pine_tiers(tiers, PINE_TIERS as nat)
}

/// Each tier of needles has two faces a side.
pub proof fn lemma_pine_tiers_len<P, C>(tiers: Seq<PineTier<P, C>>, count: nat)
    ensures
        pine_tiers(tiers, count).len() == 2 * PINE_SIDES * count,
    decreases count,
{
    if count > 0 {
        lemma_pine_tiers_len(tiers, (count - 1) as nat);
        lemma_tier_sides_len(tiers[count - 1], PINE_SIDES as nat);
        assert(2 * PINE_SIDES * count == 2 * PINE_SIDES * (count - 1) + 2 * PINE_SIDES)
            by (nonlinear_arith);
    } else {
        assert(2 * PINE_SIDES * count == 0) by (nonlinear_arith)
            requires
                count == 0,
        ;
    }
}

/// A tier has two faces a side.
pub proof fn lemma_tier_sides_len<P, C>(tier: PineTier<P, C>, count: nat)
    ensures
        tier_sides(tier, count).len() == 2 * count,
    decreases count,
{
    if count > 0 {
        lemma_tier_sides_len(tier, (count - 1) as nat);
    }
}

/// Adds the faces of one tier of needles.
fn push_tier<P: Copy, C: Copy>(faces: &mut Vec<Face<C, P>>, tier: &PineTier<P, C>)
    requires
        tier.needles.len() == tier.hem.len(),
    ensures
        final(faces)@ == old(faces)@ + tier_sides(*tier, tier.hem.len() as nat),
{
    let n = tier.hem.len();
    let ghost start = faces@;
    let mut k: usize = 0;
    while k < n
        invariant
            n == tier.hem.len(),
            n == tier.needles.len(),
            k <= n,
            faces@ == start + tier_sides(*tier, k as nat),
        decreases n - k,
    {
        let next = (k + 1) % n;
        faces.push((tier.needles[k], tier.hem[k], tier.apex, tier.hem[next]));
        faces.push((tier.shadow, tier.under, tier.hem[k], tier.hem[next]));
        assert(faces@ =~= start + tier_sides(*tier, (k + 1) as nat));
        k = k + 1;
    }
}

/// A pine: a short trunk from `trunk_low` up to `trunk_high`, each side
/// painted from `bark`, under the tiers of needles from the lowest up.
pub fn pine<P: Copy, C: Copy, V, F: Fn(Face<C, P>) -> (V, V, V)>(
    trunk_low: &Vec<P>,
    trunk_high: &Vec<P>,
    bark: &Vec<C>,
    tiers: &Vec<PineTier<P, C>>,
    paint: &F,
) -> (mesh: MeshData<V>)
    requires
        trunk_low.len() == PINE_TRUNK_SIDES,
        trunk_high.len() == PINE_TRUNK_SIDES,
        bark.len() == PINE_TRUNK_SIDES,
        tiers.len() == PINE_TIERS,
        forall|t: int|
            0 <= t < tiers.len() ==> (#[trigger] tiers[t]).hem.len() == PINE_SIDES
                && tiers[t].needles.len() == PINE_SIDES,
        forall|f: Face<C, P>| #[trigger] call_requires(*paint, (f,)),
    ensures
        ({
            let faces = pine_faces(trunk_low@, trunk_high@, bark@, tiers@);
            &&& mesh.vertices@.len() == 3 * faces.len()
            &&& mesh.indices@ == faces_indices(0, faces.len() as int)
            &&& painted(mesh.vertices@, 0, faces, *paint)
            &&& mesh.valid()
        }),
{
    let mut faces = frustum_faces(trunk_low, trunk_high, true, bark, None, None);
    let ghost trunk = faces@;
    let mut t: usize = 0;
    while t < PINE_TIERS
        invariant
            t <= PINE_TIERS,
            tiers.len() == PINE_TIERS,
            forall|u: int|
                0 <= u < tiers.len() ==> (#[trigger] tiers[u]).hem.len() == PINE_SIDES
                    && tiers[u].needles.len() == PINE_SIDES,
            faces@ == trunk + pine_tiers(tiers@, t as nat),
        decreases PINE_TIERS - t,
    {
        push_tier(&mut faces, &tiers[t]);
        assert(faces@ =~= trunk + pine_tiers(tiers@, (t + 1) as nat));
        t = t + 1;
    }
    proof {
        lemma_frustum_sides_len(trunk_low@, trunk_high@, true, bark@, None::<(P, C)>, None::<(P, C)>, PINE_TRUNK_SIDES as nat);
        lemma_pine_tiers_len(tiers@, PINE_TIERS as nat);
    }
    flat_mesh(&faces, paint)
}

/// Cells along each side of the ground.
pub const GROUND_CELLS: usize = 96;

/// The ground's grid point at `column` and `row`, the points laid out
/// row after row.
pub open spec fn ground_point<P>(points: Seq<P>, column: int, row: int) -> P {
    points[row * (GROUND_CELLS + 1) + column]
}

/// The two triangles of the ground's cell at `row` and `column`. The
/// diagonal flips from cell to cell, so the facets do not line up into
/// stripes.
pub open spec fn ground_cell<P>(points: Seq<P>, row: int, column: int) -> Seq<(P, P, P)> {
    let a = ground_point(points, column, row);
    let b = ground_point(points, column, row + 1);
    let c = ground_point(points, column + 1, row);
    let d = ground_point(points, column + 1, row + 1);
    if (row + column) % 2 == 0 {
        seq![(a, b, c), (c, b, d)]
    } else {
        seq![(a, b, d), (a, d, c)]
    }
}

/// The triangles of the first `count` cells of row `row`.
pub open spec fn ground_row<P>(points: Seq<P>, row: int, count: nat) -> Seq<(P, P, P)>
    decreases count,
{
    if count == 0 {
        Seq::empty()
    } else {
        ground_row(points, row, (count - 1) as nat) + ground_cell(points, row, count - 1)
    }
}

/// The triangles of the first `count` rows of cells.
pub open spec fn ground_rows<P>(points: Seq<P>, count: nat) -> Seq<(P, P, P)>
    decreases count,
{
    if count == 0 {
        Seq::empty()
    } else {
        ground_rows(points, (count - 1) as nat) + ground_row(points, count - 1, GROUND_CELLS as nat)
    }
}

/// A row of ground cells has two triangles a cell.
pub proof fn lemma_ground_row_len<P>(points: Seq<P>, row: int, columns: nat)
    ensures
        ground_row(points, row, columns).len() == 2 * columns,
    decreases columns,
{
    if columns > 0 {
        lemma_ground_row_len(points, row, (columns - 1) as nat);
    }
}

/// The ground has two triangles a cell, row after row.
pub proof fn lemma_ground_rows_len<P>(points: Seq<P>, rows: nat)
    ensures
        ground_rows(points, rows).len() == 2 * GROUND_CELLS * rows,
    decreases rows,
{
    if rows > 0 {
        lemma_ground_rows_len(points, (rows - 1) as nat);
        lemma_ground_row_len(points, rows - 1, GROUND_CELLS as nat);
        assert(2 * GROUND_CELLS * rows == 2 * GROUND_CELLS * (rows - 1) + 2 * GROUND_CELLS)
            by (nonlinear_arith);
    } else {
        assert(2 * GROUND_CELLS * rows == 0) by (nonlinear_arith)
            requires
                rows == 0,
        ;
    }
}

/// The ground's triangles, cell after cell along each row, row after row.
pub fn ground_faces<P: Copy>(points: &Vec<P>) -> (faces: Vec<(P, P, P)>)
    requires
        points.len() == (GROUND_CELLS + 1) * (GROUND_CELLS + 1),
    ensures
        faces@ == ground_rows(points@, GROUND_CELLS as nat),
{
    let mut faces: Vec<(P, P, P)> = Vec::new();
    let mut row: usize = 0;
    while row < GROUND_CELLS
        invariant
            points.len() == (GROUND_CELLS + 1) * (GROUND_CELLS + 1),
            row <= GROUND_CELLS,
            faces@ == ground_rows(points@, row as nat),
        decreases GROUND_CELLS - row,
    {
        let ghost done = faces@;
        let mut column: usize = 0;
        while column < GROUND_CELLS
            invariant
                points.len() == (GROUND_CELLS + 1) * (GROUND_CELLS + 1),
                row < GROUND_CELLS,
                column <= GROUND_CELLS,
                faces@ == done + ground_row(points@, row as int, column as nat),
            decreases GROUND_CELLS - column,
        {
            assert((row + 1) * (GROUND_CELLS + 1) + column + 1 < (GROUND_CELLS + 1) * (GROUND_CELLS
                + 1)) by (nonlinear_arith)
                requires
                    row < GROUND_CELLS,
                    column < GROUND_CELLS,
            ;
            assert((row + 1) * (GROUND_CELLS + 1) == row * (GROUND_CELLS + 1) + GROUND_CELLS + 1)
                by (nonlinear_arith);
            let here = row * (GROUND_CELLS + 1) + column;
            let above = (row + 1) * (GROUND_CELLS + 1) + column;
            let a = points[here];
            let b = points[above];
            let c = points[here + 1];
            let d = points[above + 1];
            if (row + column) % 2 == 0 {
                faces.push((a, b, c));
                faces.push((c, b, d));
            } else {
                faces.push((a, b, d));
                faces.push((a, d, c));
            }
            assert(faces@ =~= done + ground_row(points@, row as int, (column + 1) as nat));
            column = column + 1;
        }
        assert(faces@ =~= ground_rows(points@, (row + 1) as nat));
        row = row + 1;
    }
    faces
}

/// Faceted grass: the ground's grid of points, `GROUND_CELLS` cells a
/// side, points laid out row after row, two flat triangles a cell, each
/// painted by `paint`, which picks the color from where the triangle
/// lies.
pub fn ground<P: Copy, V, F: Fn((P, P, P)) -> (V, V, V)>(points: &Vec<P>, paint: &F) -> (mesh: MeshData<V>)
    requires
        points.len() == (GROUND_CELLS + 1) * (GROUND_CELLS + 1),
        forall|t: (P, P, P)| #[trigger] call_requires(*paint, (t,)),
    ensures
        ({
            let faces = ground_rows(points@, GROUND_CELLS as nat);
            &&& mesh.vertices@.len() == 3 * faces.len()
            &&& mesh.indices@ == faces_indices(0, faces.len() as int)
            &&& painted(mesh.vertices@, 0, faces, *paint)
            &&& mesh.valid()
        }),
{
    let faces = ground_faces(points);
    proof {
        lemma_ground_rows_len(points@, GROUND_CELLS as nat);
    }
    flat_mesh(&faces, paint)
}


/// Corners of the axe head's outline seen from the side.
pub const AXE_OUTLINE: usize = 10;
/// Turns of the leather strap around the grip.
pub const AXE_STRAP_TURNS: usize = 8;

/// The outline segments from corner 4 up to corner 7 are the honed edge.
pub open spec fn honed(k: int) -> bool {
    4 <= k < 7
}

/// Whether the outline segment from corner `k` to the next is part of
/// the honed edge.
pub fn on_edge(k: usize) -> (r: bool)
    ensures
        r == honed(k as int),
{
    4 <= k && k < 7
}

/// The axe's head: its outline on the front face and on the back face,
/// corner by corner, the point on each face every corner is in plain
/// sight of, what paints each segment's front and back, and the rim
/// along the honed edge and elsewhere.
pub struct AxeHead<P, C> {
    pub front: Vec<P>,
    pub back: Vec<P>,
    pub front_center: P,
    pub back_center: P,
    pub front_paint: Vec<C>,
    pub back_paint: Vec<C>,
    pub honed_rim: C,
    pub rim: C,
}

/// The faces at outline segment `k`: the front fan triangle, the back
/// one wound the other way, and the two rim triangles between them.
pub open spec fn head_side<P, C>(head: AxeHead<P, C>, k: int) -> Seq<Face<C, P>> {
    let next = next_side(k, head.front@.len() as int);
    let (front, back) = (head.front@, head.back@);
    let rim = if honed(k) {
        head.honed_rim
    } else {
        head.rim
    };
    seq![
        (head.front_paint@[k], head.front_center, front[k], front[next]),
        (head.back_paint@[k], head.back_center, back[next], back[k]),
        (rim, front[k], back[k], front[next]),
        (rim, front[next], back[k], back[next]),
    ]
}

/// The faces of the first `count` outline segments.
pub open spec fn head_sides<P, C>(head: AxeHead<P, C>, count: nat) -> Seq<Face<C, P>>
    decreases count,
{
    if count == 0 {
        Seq::empty()
    } else {
        head_sides(head, (count - 1) as nat) + head_side(head, count - 1)
    }
}

/// Each outline segment of the axe head gives four faces.
pub proof fn lemma_head_sides_len<P, C>(head: AxeHead<P, C>, count: nat)
    ensures
        head_sides(head, count).len() == 4 * count,
    decreases count,
{
    if count > 0 {
        lemma_head_sides_len(head, (count - 1) as nat);
    }
}

/// The faces of the axe's head, segment after segment.
pub fn head_faces<P: Copy, C: Copy>(head: &AxeHead<P, C>) -> (faces: Vec<Face<C, P>>)
    requires
        head.front.len() == AXE_OUTLINE,
        head.back.len() == AXE_OUTLINE,
        head.front_paint.len() == AXE_OUTLINE,
        head.back_paint.len() == AXE_OUTLINE,
    ensures
        faces@ == head_sides(*head, AXE_OUTLINE as nat),
{
    let mut faces: Vec<Face<C, P>> = Vec::new();
    let mut k: usize = 0;
    while k < AXE_OUTLINE
        invariant
            head.front.len() == AXE_OUTLINE,
            head.back.len() == AXE_OUTLINE,
            head.front_paint.len() == AXE_OUTLINE,
            head.back_paint.len() == AXE_OUTLINE,
            k <= AXE_OUTLINE,
            faces@ == head_sides(*head, k as nat),
        decreases AXE_OUTLINE - k,
    {
        let next = (k + 1) % AXE_OUTLINE;
        let rim = if on_edge(k) {
            head.honed_rim
        } else {
            head.rim
        };
        faces.push((head.front_paint[k], head.front_center, head.front[k], head.front[next]));
        faces.push((head.back_paint[k], head.back_center, head.back[next], head.back[k]));
        faces.push((rim, head.front[k], head.back[k], head.front[next]));
        faces.push((rim, head.front[next], head.back[k], head.back[next]));
        assert(faces@ =~= head_sides(*head, (k + 1) as nat));
        k = k + 1;
    }
    faces
}


/// A prism or cone part of a prop: the corners of its bottom and top
/// rings, each already where it goes, what paints each side, and the
/// middle point and paint of each cap it has.
pub struct FrustumPart<P, C> {
    pub low: Vec<P>,
    pub high: Vec<P>,
    pub side: Vec<C>,
    pub top_cap: Option<(P, C)>,
    pub bottom_cap: Option<(P, C)>,
}

/// The faces of a part, side after side; `has_top` unless its top is a
/// point.
pub open spec fn part_faces<P, C>(part: FrustumPart<P, C>, has_top: bool) -> Seq<Face<C, P>> {
    frustum_sides(
        part.low@,
        part.high@,
        has_top,
        part.side@,
        part.top_cap,
        part.bottom_cap,
        part.low.len() as nat,
    )
}

/// A part of `sides` sides with a top cap and a bottom cap or not, as
/// asked.
pub open spec fn part_shaped<P, C>(part: FrustumPart<P, C>, sides: nat, top_cap: bool, bottom_cap: bool) -> bool {
    &&& part.low.len() == sides
    &&& part.high.len() == sides
    &&& part.side.len() == sides
    &&& (part.top_cap is Some) == top_cap
    &&& (part.bottom_cap is Some) == bottom_cap
}

/// How many faces a part of that shape has.
pub open spec fn part_size(sides: nat, has_top: bool, top_cap: bool, bottom_cap: bool) -> int {
    sides * (1 + (if has_top { 1int } else { 0 }) + (if top_cap { 1int } else { 0 }) + (if bottom_cap {
        1int
    } else {
        0
    }))
}

/// The faces of the first `count` parts, part after part.
pub open spec fn parts_faces<P, C>(parts: Seq<FrustumPart<P, C>>, has_top: bool, count: nat) -> Seq<Face<C, P>>
    decreases count,
{
    if count == 0 {
        Seq::empty()
    } else {
        parts_faces(parts, has_top, (count - 1) as nat) + part_faces(parts[count - 1], has_top)
    }
}

/// A part of a shape has as many faces as that shape gives.
pub proof fn lemma_part_len<P, C>(part: FrustumPart<P, C>, has_top: bool, sides: nat, top_cap: bool, bottom_cap: bool)
    requires
        part_shaped(part, sides, top_cap, bottom_cap),
    ensures
        part_faces(part, has_top).len() == part_size(sides, has_top, top_cap, bottom_cap),
{
    lemma_frustum_sides_len(
        part.low@,
        part.high@,
        has_top,
        part.side@,
        part.top_cap,
        part.bottom_cap,
        part.low.len() as nat,
    );
}

/// Parts of one shape have that many faces each.
pub proof fn lemma_parts_len<P, C>(
    parts: Seq<FrustumPart<P, C>>,
    has_top: bool,
    count: nat,
    sides: nat,
    top_cap: bool,
    bottom_cap: bool,
)
    requires
        count <= parts.len(),
        forall|i: int| 0 <= i < count ==> part_shaped(#[trigger] parts[i], sides, top_cap, bottom_cap),
    ensures
        parts_faces(parts, has_top, count).len() == count * part_size(sides, has_top, top_cap, bottom_cap),
    decreases count,
{
    let size = part_size(sides, has_top, top_cap, bottom_cap);
    if count > 0 {
        lemma_parts_len(parts, has_top, (count - 1) as nat, sides, top_cap, bottom_cap);
        lemma_part_len(parts[count - 1], has_top, sides, top_cap, bottom_cap);
        assert(count * size == (count - 1) * size + size) by (nonlinear_arith);
    } else {
        assert(count * size == 0) by (nonlinear_arith)
            requires
                count == 0,
        ;
    }
}

/// Adds `more` after `faces`.
fn extend_faces<T: Copy>(faces: &mut Vec<T>, more: &Vec<T>)
    ensures
        final(faces)@ == old(faces)@ + more@,
{
    let ghost start = faces@;
    let mut i: usize = 0;
    while i < more.len()
        invariant
            i <= more.len(),
            faces@ == start + more@.take(i as int),
        decreases more.len() - i,
    {
        faces.push(more[i]);
        assert(faces@ =~= start + more@.take(i + 1));
        i = i + 1;
    }
    assert(more@.take(i as int) =~= more@);
}

/// Adds the faces of a part.
fn push_part<P: Copy, C: Copy>(faces: &mut Vec<Face<C, P>>, part: &FrustumPart<P, C>, has_top: bool)
    requires
        part.low.len() == part.high.len(),
        part.low.len() == part.side.len(),
    ensures
        final(faces)@ == old(faces)@ + part_faces(*part, has_top),
{
    let more = frustum_faces(&part.low, &part.high, has_top, &part.side, part.top_cap, part.bottom_cap);
    extend_faces(faces, &more);
}

/// Adds the faces of the first `count` parts.
fn push_parts<P: Copy, C: Copy>(
    faces: &mut Vec<Face<C, P>>,
    parts: &Vec<FrustumPart<P, C>>,
    has_top: bool,
    count: usize,
)
    requires
        count <= parts.len(),
        forall|i: int|
            0 <= i < count ==> (#[trigger] parts[i]).low.len() == parts[i].high.len()
                && parts[i].low.len() == parts[i].side.len(),
    ensures
        final(faces)@ == old(faces)@ + parts_faces(parts@, has_top, count as nat),
{
    let ghost start = faces@;
    let mut k: usize = 0;
    while k < count
        invariant
            k <= count <= parts.len(),
            forall|i: int|
                0 <= i < count ==> (#[trigger] parts[i]).low.len() == parts[i].high.len()
                    && parts[i].low.len() == parts[i].side.len(),
            faces@ == start + parts_faces(parts@, has_top, k as nat),
        decreases count - k,
    {
        push_part(faces, &parts[k], has_top);
        assert(faces@ =~= start + parts_faces(parts@, has_top, (k + 1) as nat));
        k = k + 1;
    }
}

/// Sides of every part of the axe's handle.
pub const AXE_SIDES: usize = 8;

/// The faces of the axe: the knob, the shaft, the strap turns, then the
/// head.
pub open spec fn axe_faces<P, C>(
    knob: FrustumPart<P, C>,
    shaft: FrustumPart<P, C>,
    straps: Seq<FrustumPart<P, C>>,
    head: AxeHead<P, C>,
) -> Seq<Face<C, P>> {
    part_faces(knob, true) + part_faces(shaft, true) + parts_faces(straps, true, AXE_STRAP_TURNS as nat)
        + head_sides(head, AXE_OUTLINE as nat)
}

/// A bearded axe standing on its handle: the knob with its bottom cap, the
/// shaft with its top cap, a turn of the leather strap around the grip
/// for each of `straps`, all of `AXE_SIDES` sides and their corners
/// already placed, then the head. 216 flat triangles, painted in that
/// order.
pub fn axe<P: Copy, C: Copy, V, F: Fn(Face<C, P>) -> (V, V, V)>(
    knob: &FrustumPart<P, C>,
    shaft: &FrustumPart<P, C>,
    straps: &Vec<FrustumPart<P, C>>,
    head: &AxeHead<P, C>,
    paint: &F,
) -> (mesh: MeshData<V>)
    requires
        part_shaped(*knob, AXE_SIDES as nat, false, true),
        part_shaped(*shaft, AXE_SIDES as nat, true, false),
        straps.len() == AXE_STRAP_TURNS,
        forall|i: int| 0 <= i < straps.len() ==> part_shaped(#[trigger] straps[i], AXE_SIDES as nat, false, false),
        head.front.len() == AXE_OUTLINE,
        head.back.len() == AXE_OUTLINE,
        head.front_paint.len() == AXE_OUTLINE,
        head.back_paint.len() == AXE_OUTLINE,
        forall|f: Face<C, P>| #[trigger] call_requires(*paint, (f,)),
    ensures
        ({
            let faces = axe_faces(*knob, *shaft, straps@, *head);
            &&& faces.len() == 216
            &&& mesh.vertices@.len() == 648
            &&& mesh.indices@ == run_indices(0, 648)
            &&& painted(mesh.vertices@, 0, faces, *paint)
            &&& mesh.valid()
        }),
{
    let mut faces: Vec<Face<C, P>> = Vec::new();
    push_part(&mut faces, knob, true);
    push_part(&mut faces, shaft, true);
    push_parts(&mut faces, straps, true, AXE_STRAP_TURNS);
    let head_part = head_faces(head);
    extend_faces(&mut faces, &head_part);
    proof {
        lemma_part_len(*knob, true, AXE_SIDES as nat, false, true);
        lemma_part_len(*shaft, true, AXE_SIDES as nat, true, false);
        lemma_parts_len(straps@, true, AXE_STRAP_TURNS as nat, AXE_SIDES as nat, false, false);
        lemma_head_sides_len(*head, AXE_OUTLINE as nat);
        assert(faces@ =~= axe_faces(*knob, *shaft, straps@, *head));
    }
    let mesh = flat_mesh(&faces, paint);
    proof {
        lemma_painted_from_empty_is_valid(216);
    }
    mesh
}

/// Corners of a stone: an icosahedron split once, its edge middles made
/// once per face.
pub const STONE_CORNERS: usize = 72;
/// Faces of a stone.
pub const STONE_FACES: usize = 80;

/// A fist sized stone: the corners of an icosahedron split once, pushed
/// in and out and placed, and for each face whether it is turned over so
/// it looks out, and its grey.
pub struct Stone<P, C> {
    pub corners: Vec<P>,
    pub flipped: Vec<bool>,
    pub grey: Vec<C>,
}

/// The stone's face `f` of the split icosahedron's `faces`, wound the
/// other way when it is turned over.
pub open spec fn stone_face<P, C>(stone: Stone<P, C>, faces: Seq<(usize, usize, usize)>, f: int) -> Face<C, P> {
    let (a, b, c) = faces[f];
    let k = stone.corners@;
    if stone.flipped@[f] {
        (stone.grey@[f], k[a as int], k[c as int], k[b as int])
    } else {
        (stone.grey@[f], k[a as int], k[b as int], k[c as int])
    }
}

/// The faces of a stone, in the order of the icosahedron's.
pub open spec fn stone_faces<P, C>(stone: Stone<P, C>, faces: Seq<(usize, usize, usize)>) -> Seq<Face<C, P>> {
    Seq::new(faces.len(), |f: int| stone_face(stone, faces, f))
}

/// The faces of the first `count` stones, stone after stone.
pub open spec fn stones_faces<P, C>(stones: Seq<Stone<P, C>>, faces: Seq<(usize, usize, usize)>, count: nat) -> Seq<
    Face<C, P>,
>
    decreases count,
{
    if count == 0 {
        Seq::empty()
    } else {
        stones_faces(stones, faces, (count - 1) as nat) + stone_faces(stones[count - 1], faces)
    }
}

/// Every stone has a face for each of the icosahedron's.
pub proof fn lemma_stones_faces_len<P, C>(stones: Seq<Stone<P, C>>, faces: Seq<(usize, usize, usize)>, count: nat)
    ensures
        stones_faces(stones, faces, count).len() == count * faces.len(),
    decreases count,
{
    if count > 0 {
        lemma_stones_faces_len(stones, faces, (count - 1) as nat);
        assert(count * faces.len() == (count - 1) * faces.len() + faces.len()) by (nonlinear_arith);
    } else {
        assert(count * faces.len() == 0) by (nonlinear_arith)
            requires
                count == 0,
        ;
    }
}

/// Adds the faces of a stone.
fn push_stone<P: Copy, C: Copy>(out: &mut Vec<Face<C, P>>, stone: &Stone<P, C>, faces: &Vec<(usize, usize, usize)>)
    requires
        stone.flipped.len() == faces.len(),
        stone.grey.len() == faces.len(),
        forall|f: int|
            0 <= f < faces.len() ==> (#[trigger] faces[f]).0 < stone.corners.len() && faces[f].1
                < stone.corners.len() && faces[f].2 < stone.corners.len(),
    ensures
        final(out)@ == old(out)@ + stone_faces(*stone, faces@),
{
    let ghost start = out@;
    let mut f: usize = 0;
    while f < faces.len()
        invariant
            f <= faces.len(),
            stone.flipped.len() == faces.len(),
            stone.grey.len() == faces.len(),
            forall|g: int|
                0 <= g < faces.len() ==> (#[trigger] faces[g]).0 < stone.corners.len() && faces[g].1
                    < stone.corners.len() && faces[g].2 < stone.corners.len(),
            out@ == start + stone_faces(*stone, faces@).take(f as int),
        decreases faces.len() - f,
    {
        let (a, b, c) = faces[f];
        assert(faces@[f as int].0 < stone.corners.len());
        let grey = stone.grey[f];
        if stone.flipped[f] {
            out.push((grey, stone.corners[a], stone.corners[c], stone.corners[b]));
        } else {
            out.push((grey, stone.corners[a], stone.corners[b], stone.corners[c]));
        }
        assert(out@ =~= start + stone_faces(*stone, faces@).take(f + 1));
        f = f + 1;
    }
    assert(stone_faces(*stone, faces@).take(f as int) =~= stone_faces(*stone, faces@));
}

/// The faces of the campfire: the ash bed, the stones, the logs, then the
/// flames.
pub open spec fn campfire_faces<P, C>(
    ash: FrustumPart<P, C>,
    stones: Seq<Stone<P, C>>,
    logs: Seq<FrustumPart<P, C>>,
    flames: Seq<FrustumPart<P, C>>,
) -> Seq<Face<C, P>> {
    part_faces(ash, true) + stones_faces(stones, icosphere_level(1).1, FIRE_STONES as nat) + parts_faces(
        logs,
        true,
        FIRE_LOGS as nat,
    ) + parts_faces(flames, false, FIRE_FLAMES as nat)
}

/// Sides of the ash bed.
pub const ASH_SIDES: usize = 9;
/// Sides of each log.
pub const LOG_SIDES: usize = 6;
/// Sides of each flame.
pub const FLAME_SIDES: usize = 5;
/// Fist sized stones around the fire.
pub const FIRE_STONES: usize = 9;
/// Logs leaned into the teepee.
pub const FIRE_LOGS: usize = 5;
/// Flames inside it.
pub const FIRE_FLAMES: usize = 3;

/// A fire ring: the ash bed with its top cap, the stones around it, the
/// logs leaned into a teepee with both ends capped, and the flames inside,
/// cones without caps, every corner already placed. 882 flat triangles,
/// painted in that order.
pub fn campfire<P: Copy, C: Copy, V, F: Fn(Face<C, P>) -> (V, V, V)>(
    ash: &FrustumPart<P, C>,
    stones: &Vec<Stone<P, C>>,
    logs: &Vec<FrustumPart<P, C>>,
    flames: &Vec<FrustumPart<P, C>>,
    paint: &F,
) -> (mesh: MeshData<V>)
    requires
        part_shaped(*ash, ASH_SIDES as nat, true, false),
        stones.len() == FIRE_STONES,
        forall|i: int|
            0 <= i < stones.len() ==> (#[trigger] stones[i]).corners.len() == STONE_CORNERS
                && stones[i].flipped.len() == STONE_FACES && stones[i].grey.len() == STONE_FACES,
        logs.len() == FIRE_LOGS,
        forall|i: int| 0 <= i < logs.len() ==> part_shaped(#[trigger] logs[i], LOG_SIDES as nat, true, true),
        flames.len() == FIRE_FLAMES,
        forall|i: int|
            0 <= i < flames.len() ==> part_shaped(#[trigger] flames[i], FLAME_SIDES as nat, false, false),
        forall|f: Face<C, P>| #[trigger] call_requires(*paint, (f,)),
    ensures
        ({
            let faces = campfire_faces(*ash, stones@, logs@, flames@);
            &&& faces.len() == 882
            &&& mesh.vertices@.len() == 2646
            &&& mesh.indices@ == run_indices(0, 2646)
            &&& painted(mesh.vertices@, 0, faces, *paint)
            &&& mesh.valid()
        }),
{
    proof {
        vstd::arithmetic::power::lemma_pow1(4);
    }
    let (_, ico) = icosphere(1);
    proof {
        lemma_icosphere_sizes(1);
        law_icosphere_is_well_formed(1);
        assert(ico@.len() == STONE_FACES);
        assert(icosphere_level(1).0.len() == STONE_CORNERS);
    }
    let mut faces: Vec<Face<C, P>> = Vec::new();
    push_part(&mut faces, ash, true);
    let ghost before_stones = faces@;
    let mut k: usize = 0;
    while k < FIRE_STONES
        invariant
            k <= FIRE_STONES,
            stones.len() == FIRE_STONES,
            ico@ == icosphere_level(1).1,
            ico@.len() == STONE_FACES,
            forall|f: int|
                0 <= f < ico@.len() ==> (#[trigger] ico@[f]).0 < STONE_CORNERS && ico@[f].1
                    < STONE_CORNERS && ico@[f].2 < STONE_CORNERS,
            forall|i: int|
                0 <= i < stones.len() ==> (#[trigger] stones[i]).corners.len() == STONE_CORNERS
                    && stones[i].flipped.len() == STONE_FACES && stones[i].grey.len() == STONE_FACES,
            faces@ == before_stones + stones_faces(stones@, ico@, k as nat),
        decreases FIRE_STONES - k,
    {
        assert(stones[k as int].corners.len() == STONE_CORNERS);
        push_stone(&mut faces, &stones[k], &ico);
        assert(faces@ =~= before_stones + stones_faces(stones@, ico@, (k + 1) as nat));
        k = k + 1;
    }
    push_parts(&mut faces, logs, true, FIRE_LOGS);
    push_parts(&mut faces, flames, false, FIRE_FLAMES);
    proof {
        lemma_part_len(*ash, true, ASH_SIDES as nat, true, false);
        lemma_stones_faces_len(stones@, ico@, FIRE_STONES as nat);
        lemma_parts_len(logs@, true, FIRE_LOGS as nat, LOG_SIDES as nat, true, true);
        lemma_parts_len(flames@, false, FIRE_FLAMES as nat, FLAME_SIDES as nat, false, false);
        assert(faces@ =~= campfire_faces(*ash, stones@, logs@, flames@));
    }
    let mesh = flat_mesh(&faces, paint);
    proof {
        lemma_painted_from_empty_is_valid(882);
    }
    mesh
}

} // verus!
