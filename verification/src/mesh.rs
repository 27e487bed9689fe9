//! The static meshes of the globe view, as lattices of parameter steps.
//!
//! A vertex says how many steps it stands along each of the mesh's two
//! parameters; a triangle is three indices into the vertices. The last column
//! of every lattice repeats the first, so that the azimuth never wraps within a
//! triangle.
use vstd::arithmetic::div_mod::lemma_fundamental_div_mod_converse;
use vstd::prelude::*;

verus! {

pub const SPHERE_LON: u32 = 64;

pub const SPHERE_LAT: u32 = 32;

pub const CONE_RADIAL: u32 = 48;

/// Steps along the cone's slant, for a smooth length-wise alpha ramp.
pub const CONE_AXIAL: u32 = 10;

/// Steps across the spherical leading-edge cap.
pub const CONE_CAP: u32 = 6;

pub const RING_RADIAL: u32 = 128;

/// Steps across the ring, enough that its inner and outer edges are round.
pub const RING_ACROSS: u32 = 6;

/// A vertex of a lattice.
#[derive(Clone, Copy, Debug, PartialEq, Eq, Structural)]
pub struct Vertex {
    /// Steps round.
    pub i: u32,
    /// Steps along.
    pub j: u32,
    /// Whether it belongs to the cone's leading edge.
    pub cap: bool,
}

/// A lattice of `rows` by `cols` cells, row by row.
pub open spec fn lattice(cols: int, rows: int, cap: bool) -> Seq<Vertex> {
    Seq::new(
        ((rows + 1) * (cols + 1)) as nat,
        |k: int| Vertex { i: (k % (cols + 1)) as u32, j: (k / (cols + 1)) as u32, cap },
    )
}

/// The corner of its lattice cell that index `k` of a strip names, counted from
/// the cell's first vertex: two triangles per cell.
pub open spec fn corner(cols: int, k: int) -> int {
    let row = cols + 1;
    if k == 0 {
        0
    } else if k == 1 || k == 4 {
        row
    } else if k == 2 || k == 3 {
        1
    } else {
        row + 1
    }
}

/// The indices of a lattice whose first vertex is number `base`: two triangles
/// for every cell, row by row.
pub open spec fn strip(base: int, cols: int, rows: int) -> Seq<u32> {
    Seq::new(
        (6 * (rows * cols)) as nat,
        |k: int|
            (base + (k / 6) / cols * (cols + 1) + (k / 6) % cols + corner(cols, k % 6)) as u32,
    )
}

proof fn lemma_strip_room(cols: int, rows: int, j: int, i: int)
    requires
        0 < cols <= 1000,
        0 < rows <= 1000,
        0 <= j < rows,
        0 <= i < cols,
    ensures
        0 <= j * cols,
        j * cols + i < rows * cols <= 1_000_000,
        0 <= j * (cols + 1),
        j * (cols + 1) + i + cols + 2 < (rows + 1) * (cols + 1),
        (rows + 1) * (cols + 1) <= 1_100_000,
        (j * cols + i) / cols == j,
        (j * cols + i) % cols == i,
{
    lemma_fundamental_div_mod_converse(j * cols + i, cols, j, i);
    assert(0 <= j * cols) by (nonlinear_arith)
        requires
            0 <= j,
            0 < cols,
    ;
    assert(j * cols + i < rows * cols) by (nonlinear_arith)
        requires
            0 <= j < rows,
            0 <= i < cols,
    ;
    assert(rows * cols <= 1_000_000) by (nonlinear_arith)
        requires
            0 < cols <= 1000,
            0 < rows <= 1000,
    ;
    assert(j * (cols + 1) == j * cols + j) by (nonlinear_arith);
    assert((rows + 1) * (cols + 1) == rows * cols + rows + cols + 1) by (nonlinear_arith);
    assert(j * (cols + 1) + (cols + 1) <= rows * (cols + 1)) by (nonlinear_arith)
        requires
            0 <= j < rows,
            0 < cols,
    ;
    assert(rows * (cols + 1) + (cols + 1) == (rows + 1) * (cols + 1)) by (nonlinear_arith);
}

/// Append a lattice to the vertices.
fn push_lattice(verts: &mut Vec<Vertex>, cols: u32, rows: u32, cap: bool)
    requires
        0 < cols <= 1000,
        0 < rows <= 1000,
    ensures
        final(verts)@ == old(verts)@ + lattice(cols as int, rows as int, cap),
{
    let ghost start = verts@;
    let row: u32 = cols + 1;
    let mut j: u32 = 0;
    while j <= rows
        invariant
            0 < cols <= 1000,
            0 < rows <= 1000,
            row == cols + 1,
            j <= rows + 1,
            verts@.len() == start.len() + j * row,
            forall|k: int| 0 <= k < start.len() ==> verts@[k] == start[k],
            forall|k: int|
                start.len() <= k < verts@.len() ==> (#[trigger] verts@[k]) == lattice(
                    cols as int,
                    rows as int,
                    cap,
                )[k - start.len()],
        decreases rows + 1 - j,
    {
        let mut i: u32 = 0;
        while i <= cols
            invariant
                0 < cols <= 1000,
                0 < rows <= 1000,
                row == cols + 1,
                j <= rows,
                i <= cols + 1,
                verts@.len() == start.len() + j * row + i,
                forall|k: int| 0 <= k < start.len() ==> verts@[k] == start[k],
                forall|k: int|
                    start.len() <= k < verts@.len() ==> (#[trigger] verts@[k]) == lattice(
                        cols as int,
                        rows as int,
                        cap,
                    )[k - start.len()],
            decreases cols + 1 - i,
        {
            verts.push(Vertex { i, j, cap });
            proof {
                let k = j * row + i;
                lemma_fundamental_div_mod_converse(k, row as int, j as int, i as int);
                assert(0 <= j * row) by (nonlinear_arith)
                    requires
                        0 <= j,
                        0 <= row,
                ;
                assert(j * row + i < (rows + 1) * (cols + 1)) by (nonlinear_arith)
                    requires
                        j <= rows,
                        i <= cols,
                        row == cols + 1,
                ;
                assert(lattice(cols as int, rows as int, cap)[k] == Vertex { i, j, cap });
            }
            i = i + 1;
        }
        proof {
            assert((j + 1) * row == j * row + row) by (nonlinear_arith);
        }
        j = j + 1;
    }
    proof {
        assert(j * row == (rows + 1) * (cols + 1)) by (nonlinear_arith)
            requires
                j == rows + 1,
                row == cols + 1,
        ;
        assert(verts@ =~= start + lattice(cols as int, rows as int, cap));
    }
}

/// Append the triangles of a lattice whose first vertex is number `base`.
fn push_strip(idx: &mut Vec<u32>, base: u32, cols: u32, rows: u32)
    requires
        base <= 1_000_000,
        0 < cols <= 1000,
        0 < rows <= 1000,
    ensures
        final(idx)@ == old(idx)@ + strip(base as int, cols as int, rows as int),
{
    let ghost start = idx@;
    let row: u32 = cols + 1;
    let mut j: u32 = 0;
    while j < rows
        invariant
            base <= 1_000_000,
            0 < cols <= 1000,
            0 < rows <= 1000,
            row == cols + 1,
            j <= rows,
            idx@.len() == start.len() + 6 * (j * cols),
            forall|k: int| 0 <= k < start.len() ==> idx@[k] == start[k],
            forall|k: int|
                start.len() <= k < idx@.len() ==> (#[trigger] idx@[k]) == strip(
                    base as int,
                    cols as int,
                    rows as int,
                )[k - start.len()],
        decreases rows - j,
    {
        let mut i: u32 = 0;
        while i < cols
            invariant
                base <= 1_000_000,
                0 < cols <= 1000,
                0 < rows <= 1000,
                row == cols + 1,
                j < rows,
                i <= cols,
                idx@.len() == start.len() + 6 * (j * cols + i),
                forall|k: int| 0 <= k < start.len() ==> idx@[k] == start[k],
                forall|k: int|
                    start.len() <= k < idx@.len() ==> (#[trigger] idx@[k]) == strip(
                        base as int,
                        cols as int,
                        rows as int,
                    )[k - start.len()],
            decreases cols - i,
        {
            proof {
                lemma_strip_room(cols as int, rows as int, j as int, i as int);
            }
            let a: u32 = base + j * row + i;
            let ghost q = j * cols + i;
            let ghost s = strip(base as int, cols as int, rows as int);
            assert(forall|c: int|
                0 <= c < 6 ==> #[trigger] s[6 * q + c] == (a + corner(cols as int, c)) as u32) by {
                assert forall|c: int| 0 <= c < 6 implies #[trigger] s[6 * q + c] == (a + corner(
                    cols as int,
                    c,
                )) as u32 by {
                    let k = 6 * q + c;
                    assert(k / 6 == q && k % 6 == c);
                }
            }
            idx.push(a);
            idx.push(a + row);
            idx.push(a + 1);
            idx.push(a + 1);
            idx.push(a + row);
            idx.push(a + row + 1);
            proof {
                assert(s[6 * q + 0] == a);
                assert(s[6 * q + 1] == (a + row) as u32);
                assert(s[6 * q + 2] == (a + 1) as u32);
                assert(s[6 * q + 3] == (a + 1) as u32);
                assert(s[6 * q + 4] == (a + row) as u32);
                assert(s[6 * q + 5] == (a + row + 1) as u32);
            }
            i = i + 1;
        }
        proof {
            assert((j + 1) * cols == j * cols + cols) by (nonlinear_arith);
        }
        j = j + 1;
    }
    assert(idx@ =~= start + strip(base as int, cols as int, rows as int));
}

/// The unit sphere: `i` of [`SPHERE_LON`] steps of longitude east from the
/// antimeridian, `j` of [`SPHERE_LAT`] steps of latitude south from the pole.
pub fn sphere() -> (r: (Vec<Vertex>, Vec<u32>))
    ensures
        r.0@ == lattice(SPHERE_LON as int, SPHERE_LAT as int, false),
        r.1@ == strip(0, SPHERE_LON as int, SPHERE_LAT as int),
{
    let mut verts: Vec<Vertex> = Vec::new();
    let mut idx: Vec<u32> = Vec::new();
    push_lattice(&mut verts, SPHERE_LON, SPHERE_LAT, false);
    push_strip(&mut idx, 0, SPHERE_LON, SPHERE_LAT);
    assert(verts@ =~= lattice(SPHERE_LON as int, SPHERE_LAT as int, false));
    assert(idx@ =~= strip(0, SPHERE_LON as int, SPHERE_LAT as int));
    (verts, idx)
}

/// Vertices of the cone's lateral strip.
pub open spec fn lateral_len() -> int {
    (CONE_AXIAL + 1) * (CONE_RADIAL + 1)
}

/// A mass ejection's cone in parametric form: the ruled lateral surface from
/// the apex outwards, then the spherical cap of the leading edge.
pub fn cone() -> (r: (Vec<Vertex>, Vec<u32>))
    ensures
        r.0@ == lattice(CONE_RADIAL as int, CONE_AXIAL as int, false) + lattice(
            CONE_RADIAL as int,
            CONE_CAP as int,
            true,
        ),
        r.1@ == strip(0, CONE_RADIAL as int, CONE_AXIAL as int) + strip(
            lateral_len(),
            CONE_RADIAL as int,
            CONE_CAP as int,
        ),
{
    let mut verts: Vec<Vertex> = Vec::new();
    let mut idx: Vec<u32> = Vec::new();
    push_lattice(&mut verts, CONE_RADIAL, CONE_AXIAL, false);
    push_strip(&mut idx, 0, CONE_RADIAL, CONE_AXIAL);
    assert(verts@ =~= lattice(CONE_RADIAL as int, CONE_AXIAL as int, false));
    assert(idx@ =~= strip(0, CONE_RADIAL as int, CONE_AXIAL as int));
    let base: u32 = verts.len() as u32;
    push_lattice(&mut verts, CONE_RADIAL, CONE_CAP, true);
    push_strip(&mut idx, base, CONE_RADIAL, CONE_CAP);
    (verts, idx)
}

/// A planet's ring system: `i` of [`RING_RADIAL`] steps round, `j` of
/// [`RING_ACROSS`] steps from the inner edge to the outer one.
pub fn ring() -> (r: (Vec<Vertex>, Vec<u32>))
    ensures
        r.0@ == lattice(RING_RADIAL as int, RING_ACROSS as int, false),
        r.1@ == strip(0, RING_RADIAL as int, RING_ACROSS as int),
{
    let mut verts: Vec<Vertex> = Vec::new();
    let mut idx: Vec<u32> = Vec::new();
    push_lattice(&mut verts, RING_RADIAL, RING_ACROSS, false);
    push_strip(&mut idx, 0, RING_RADIAL, RING_ACROSS);
    assert(verts@ =~= lattice(RING_RADIAL as int, RING_ACROSS as int, false));
    assert(idx@ =~= strip(0, RING_RADIAL as int, RING_ACROSS as int));
    (verts, idx)
}

/// Corner offsets of a quad, -1 or 1 in both axes, as two triangles.
pub fn quad() -> (r: Vec<(i32, i32)>)
    ensures
        r@ == seq![
            (-1i32, -1i32),
            (1i32, -1i32),
            (-1i32, 1i32),
            (-1i32, 1i32),
            (1i32, -1i32),
            (1i32, 1i32),
        ],
{
    let mut r: Vec<(i32, i32)> = Vec::new();
    r.push((-1, -1));
    r.push((1, -1));
    r.push((-1, 1));
    r.push((-1, 1));
    r.push((1, -1));
    r.push((1, 1));
    r
}

/// Every index of a strip names a vertex of its lattice.
pub proof fn law_strip_within_lattice(base: int, cols: int, rows: int, k: int)
    requires
        0 <= base <= 1_000_000,
        0 < cols <= 1000,
        0 < rows <= 1000,
        0 <= k < strip(base, cols, rows).len(),
    ensures
        base <= strip(base, cols, rows)[k] < base + lattice(cols, rows, false).len(),
{
    lemma_cell(cols, rows, k);
    let i = k / 6 % cols;
    let j = k / 6 / cols;
    lemma_strip_room(cols, rows, j, i);
    let at = base + j * (cols + 1) + i + corner(cols, k % 6);
    assert(0 <= corner(cols, k % 6) <= cols + 2);
    assert(base <= at < base + (rows + 1) * (cols + 1));
    assert(strip(base, cols, rows)[k] == at as u32);
}

/// The cell of an index.
proof fn lemma_cell(cols: int, rows: int, k: int)
    requires
        0 < cols <= 1000,
        0 < rows <= 1000,
        0 <= k < 6 * (rows * cols),
    ensures
        0 <= k / 6 / cols < rows,
        0 <= k / 6 % cols < cols,
{
    let q = k / 6;
    assert(0 <= q < rows * cols);
    assert(0 <= q / cols < rows && 0 <= q % cols < cols) by (nonlinear_arith)
        requires
            0 <= q < rows * cols,
            0 < cols,
    ;
}

/// No triangle wraps round the seam: the vertices that its indices name are at
/// most one step round and one step along from the cell's first vertex. The first
/// triangle of a cell has its near corner and the two beside it, the second those
/// two and the far corner, so that together they fill the cell.
pub proof fn law_no_triangle_spans_the_seam(cols: int, rows: int, k: int)
    requires
        0 < cols <= 1000,
        0 < rows <= 1000,
        0 <= k < strip(0, cols, rows).len(),
    ensures
        ({
            let v = lattice(cols, rows, false)[strip(0, cols, rows)[k] as int];
            &&& k / 6 % cols <= v.i <= k / 6 % cols + 1
            &&& k / 6 / cols <= v.j <= k / 6 / cols + 1
            &&& v.i > k / 6 % cols <==> k % 6 == 2 || k % 6 == 3 || k % 6 == 5
            &&& v.j > k / 6 / cols <==> k % 6 == 1 || k % 6 == 4 || k % 6 == 5
        }),
{
    lemma_cell(cols, rows, k);
    let i = k / 6 % cols;
    let j = k / 6 / cols;
    lemma_strip_room(cols, rows, j, i);
    law_strip_within_lattice(0, cols, rows, k);
    let row = cols + 1;
    let c = corner(cols, k % 6);
    assert(j * row + row == (j + 1) * row) by (nonlinear_arith);
    if c == 0 {
        lemma_fundamental_div_mod_converse(j * row + i, row, j, i);
    } else if c == 1 {
        lemma_fundamental_div_mod_converse(j * row + i + 1, row, j, i + 1);
    } else if c == row {
        lemma_fundamental_div_mod_converse(j * row + i + row, row, j + 1, i);
    } else {
        lemma_fundamental_div_mod_converse(j * row + i + row + 1, row, j + 1, i + 1);
    }
}

/// The cap of the cone has its own vertices: its indices start where the vertices of
/// the lateral surface end.
pub proof fn law_cap_follows_the_lateral_surface()
    ensures
        lateral_len() == lattice(CONE_RADIAL as int, CONE_AXIAL as int, false).len(),
{
}

/// The sphere has 64 by 32 cells, the cone 48 by 10 and its cap 48 by 6, and the ring
/// 128 by 6, with two triangles to each.
pub proof fn law_meshes_have_their_cells()
    ensures
        strip(0, SPHERE_LON as int, SPHERE_LAT as int).len() == 3 * 2 * 64 * 32,
        strip(0, CONE_RADIAL as int, CONE_AXIAL as int).len() == 3 * 2 * 48 * 10,
        strip(lateral_len(), CONE_RADIAL as int, CONE_CAP as int).len() == 3 * 2 * 48 * 6,
        strip(0, RING_RADIAL as int, RING_ACROSS as int).len() == 3 * 2 * 128 * 6,
        lattice(SPHERE_LON as int, SPHERE_LAT as int, false).len() == 65 * 33,
        lattice(CONE_RADIAL as int, CONE_AXIAL as int, false).len() == 49 * 11,
        lattice(RING_RADIAL as int, RING_ACROSS as int, false).len() == 129 * 7,
{
}

} // verus!
