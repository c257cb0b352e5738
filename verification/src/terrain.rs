//! The voxels that a height field stands for.
//!
//! Every column of the field is filled from the floor layer up to its
//! terrain height; the topmost voxel of a column is its surface. The
//! terrain is the columns' voxels in column order, each column bottom-up.

use vstd::prelude::*;
use crate::height::HeightField;
use crate::height::column_number;
use crate::height::column_x;
use crate::height::column_z;
use crate::height::lemma_column_on_grid;
use crate::height::lemma_number_of_column;

verus! {

/// Lowest layer of every column.
pub const FLOOR: i32 = -5;

/// A unit cube at an integer lattice point.
#[derive(Clone, Copy, Debug, PartialEq, Eq, Structural)]
pub struct Voxel {
    pub x: i32,
    pub y: i32,
    pub z: i32,
    /// Set on the topmost voxel of a column.
    pub surface: bool,
}

impl Voxel {
    /// Whether the voxel sits at the lattice point `(x, y, z)`.
    pub open spec fn at(self, x: int, y: int, z: int) -> bool {
        self.x == x && self.y == y && self.z == z
    }
}

/// The voxels of one column of height `h`, bottom-up.
pub open spec fn column_voxels(x: i32, z: i32, h: i32) -> Seq<Voxel> {
    Seq::new(
        (h - FLOOR + 1) as nat,
        |k: int| Voxel { x, y: (FLOOR + k) as i32, z, surface: FLOOR + k == h },
    )
}

/// The voxels of column number `c` of a field.
pub open spec fn column_of(field: HeightField, c: int) -> Seq<Voxel> {
    column_voxels(
        column_x(field.width() as int, c) as i32,
        column_z(field.width() as int, c) as i32,
        field.column_height(c) as i32,
    )
}

/// The voxels of the first `n` columns of a field.
pub open spec fn terrain(field: HeightField, n: nat) -> Seq<Voxel>
    decreases n,
{
    if n == 0 {
        Seq::empty()
    } else {
        terrain(field, (n - 1) as nat) + column_of(field, n - 1)
    }
}

/// The voxels of every column of a field.
pub open spec fn full_terrain(field: HeightField) -> Seq<Voxel> {
    terrain(field, field.columns())
}

/// The voxels of the columns numbered `from` up to, not including, `to`.
pub open spec fn terrain_between(field: HeightField, from: nat, to: nat) -> Seq<Voxel>
    decreases to,
{
    if to <= from {
        Seq::empty()
    } else {
        terrain_between(field, from, (to - 1) as nat) + column_of(field, to - 1)
    }
}

/// Whether some voxel of `voxels` sits at the lattice point `(x, y, z)`.
pub open spec fn occupies(voxels: Seq<Voxel>, x: int, y: int, z: int) -> bool {
    exists|i: int| 0 <= i < voxels.len() && (#[trigger] voxels[i]).at(x, y, z)
}

/// Whether `v` is a surface voxel of the column `(x, z)`.
pub open spec fn tops(v: Voxel, x: int, z: int) -> bool {
    v.surface && v.x == x && v.z == z
}

/// The voxel `k` layers above the floor in column number `c`.
pub open spec fn layer(field: HeightField, c: int, k: int) -> Voxel {
    Voxel {
        x: column_x(field.width() as int, c) as i32,
        y: (FLOOR + k) as i32,
        z: column_z(field.width() as int, c) as i32,
        surface: FLOOR + k == field.column_height(c),
    }
}

/// Number of layers in column number `c`.
pub open spec fn layers(field: HeightField, c: int) -> int {
    field.column_height(c) - FLOOR + 1
}

/// The terrain of the first `to` columns is that of the first `from`
/// followed by the columns in between.
pub proof fn lemma_terrain_split(field: HeightField, from: nat, to: nat)
    requires
        from <= to,
    ensures
        terrain(field, to) == terrain(field, from) + terrain_between(field, from, to),
    decreases to,
{
    if to == from {
        assert(terrain_between(field, from, to) =~= Seq::empty());
        assert(terrain(field, to) =~= terrain(field, from) + Seq::empty());
    } else {
        lemma_terrain_split(field, from, (to - 1) as nat);
        assert(terrain(field, to) =~= terrain(field, from) + terrain_between(field, from, to));
    }
}

/// A column on the grid keeps its coordinates in `i32` and has the layers
/// `layer(field, c, 0)`, `layer(field, c, 1)`, and so on.
proof fn lemma_column_layers(field: HeightField, c: int)
    requires
        field.wf(),
        0 <= c < field.columns(),
    ensures
        column_of(field, c).len() == layers(field, c),
        layers(field, c) >= 6,
        forall|k: int|
            0 <= k < layers(field, c) ==> (#[trigger] column_of(field, c)[k]) == layer(
                field,
                c,
                k,
            ),
        column_x(field.width() as int, c) as i32 == column_x(field.width() as int, c),
        column_z(field.width() as int, c) as i32 == column_z(field.width() as int, c),
{
    let w = field.width() as int;
    assert(w > 0) by (nonlinear_arith)
        requires
            0 <= w,
            0 <= c < w * w,
    ;
    lemma_column_on_grid(w, c);
    field.lemma_width_bound();
}

/// The terrain grows column by column.
proof fn lemma_terrain_grows(field: HeightField, m: nat, n: nat)
    requires
        field.wf(),
        m <= n <= field.columns(),
    ensures
        terrain(field, m).len() <= terrain(field, n).len(),
        forall|i: int|
            0 <= i < terrain(field, m).len() ==> (#[trigger] terrain(field, n)[i]) == terrain(
                field,
                m,
            )[i],
    decreases n,
{
    if m < n {
        lemma_terrain_grows(field, m, (n - 1) as nat);
        lemma_column_layers(field, n - 1);
    }
}

/// Layer `k` of column `c` stands in the terrain right after the first `c`
/// columns.
proof fn lemma_layer_in_terrain(field: HeightField, n: nat, c: int, k: int)
    requires
        field.wf(),
        0 <= c < n <= field.columns(),
        0 <= k < layers(field, c),
    ensures
        terrain(field, c as nat).len() + k < terrain(field, n).len(),
        terrain(field, n)[terrain(field, c as nat).len() + k] == layer(field, c, k),
{
    lemma_column_layers(field, c);
    lemma_terrain_grows(field, (c + 1) as nat, n);
    let start = terrain(field, c as nat).len() as int;
    assert(terrain(field, (c + 1) as nat) == terrain(field, c as nat) + column_of(field, c));
    assert(terrain(field, (c + 1) as nat)[start + k] == column_of(field, c)[k]);
}

/// Finds the column and the layer of the terrain's `i`-th voxel.
proof fn lemma_locate(field: HeightField, n: nat, i: int) -> (r: (int, int))
    requires
        field.wf(),
        n <= field.columns(),
        0 <= i < terrain(field, n).len(),
    ensures
        0 <= r.0 < n,
        0 <= r.1 < layers(field, r.0),
        i == terrain(field, r.0 as nat).len() + r.1,
        terrain(field, n)[i] == layer(field, r.0, r.1),
    decreases n,
{
    let before = terrain(field, (n - 1) as nat);
    lemma_column_layers(field, n - 1);
    if i < before.len() {
        let r = lemma_locate(field, (n - 1) as nat, i);
        lemma_layer_in_terrain(field, n, r.0, r.1);
        r
    } else {
        lemma_layer_in_terrain(field, n, n - 1, i - before.len());
        (n - 1, i - before.len())
    }
}

/// Layers of the terrain coincide only if column and layer do.
proof fn lemma_layers_differ(field: HeightField, c1: int, k1: int, c2: int, k2: int)
    requires
        field.wf(),
        0 <= c1 < field.columns(),
        0 <= c2 < field.columns(),
        0 <= k1 < layers(field, c1),
        0 <= k2 < layers(field, c2),
        layer(field, c1, k1).x == layer(field, c2, k2).x,
        layer(field, c1, k1).y == layer(field, c2, k2).y,
        layer(field, c1, k1).z == layer(field, c2, k2).z,
    ensures
        c1 == c2,
        k1 == k2,
{
    let w = field.width() as int;
    lemma_column_layers(field, c1);
    lemma_column_layers(field, c2);
    assert(w > 0) by (nonlinear_arith)
        requires
            0 <= w,
            0 <= c1 < w * w,
    ;
    lemma_column_on_grid(w, c1);
    lemma_column_on_grid(w, c2);
}

/// Which lattice points the terrain occupies: within the first `n` columns
/// of the grid, every layer from the floor up to the column's height, and
/// nothing else.
pub proof fn lemma_terrain_occupancy(field: HeightField, n: nat, x: int, y: int, z: int)
    requires
        field.wf(),
        n <= field.columns(),
    ensures
        occupies(terrain(field, n), x, y, z) <==> {
            &&& field.covers(x, z)
            &&& column_number(field.width() as int, x, z) < n
            &&& FLOOR <= y <= field.height_at(x, z)
        },
{
    let w = field.width() as int;
    let t = terrain(field, n);
    if occupies(t, x, y, z) {
        let i = choose|i: int| 0 <= i < t.len() && (#[trigger] t[i]).at(x, y, z);
        let (c, k) = lemma_locate(field, n, i);
        lemma_column_layers(field, c);
        assert(w > 0) by (nonlinear_arith)
            requires
                0 <= w,
                0 <= c < w * w,
        ;
        lemma_column_on_grid(w, c);
    }
    if field.covers(x, z) && column_number(w, x, z) < n && FLOOR <= y <= field.height_at(x, z) {
        let c = column_number(w, x, z);
        assert(w > 0);
        lemma_number_of_column(w, x, z);
        lemma_column_layers(field, c);
        let k = y - FLOOR;
        lemma_layer_in_terrain(field, n, c, k);
        let i = terrain(field, c as nat).len() + k;
        assert(t[i].at(x, y, z));
    }
}

/// No lattice point is occupied twice: two voxels of the terrain at the
/// same point are one voxel.
pub proof fn lemma_terrain_distinct(field: HeightField, n: nat, i: int, j: int)
    requires
        field.wf(),
        n <= field.columns(),
        0 <= i < terrain(field, n).len(),
        0 <= j < terrain(field, n).len(),
        terrain(field, n)[i].x == terrain(field, n)[j].x,
        terrain(field, n)[i].y == terrain(field, n)[j].y,
        terrain(field, n)[i].z == terrain(field, n)[j].z,
    ensures
        i == j,
{
    let (c1, k1) = lemma_locate(field, n, i);
    let (c2, k2) = lemma_locate(field, n, j);
    lemma_layers_differ(field, c1, k1, c2, k2);
}

/// Every voxel of the terrain lies in a column of the grid between the
/// floor and the column's height, and is tagged as surface exactly if it
/// is the topmost of its column.
pub proof fn lemma_terrain_voxel(field: HeightField, n: nat, i: int)
    requires
        field.wf(),
        n <= field.columns(),
        0 <= i < terrain(field, n).len(),
    ensures
        ({
            let v = terrain(field, n)[i];
            &&& field.covers(v.x as int, v.z as int)
            &&& column_number(field.width() as int, v.x as int, v.z as int) < n
            &&& FLOOR <= v.y <= field.height_at(v.x as int, v.z as int)
            &&& v.surface <==> v.y == field.height_at(v.x as int, v.z as int)
        }),
{
    let w = field.width() as int;
    let (c, k) = lemma_locate(field, n, i);
    lemma_column_layers(field, c);
    assert(w > 0) by (nonlinear_arith)
        requires
            0 <= w,
            0 <= c < w * w,
    ;
    lemma_column_on_grid(w, c);
}

/// Every generated column has exactly one surface voxel, and it is the
/// column's topmost.
pub proof fn lemma_one_surface_per_column(field: HeightField, n: nat, x: int, z: int) -> (top: int)
    requires
        field.wf(),
        n <= field.columns(),
        field.covers(x, z),
        column_number(field.width() as int, x, z) < n,
    ensures
        0 <= top < terrain(field, n).len(),
        tops(terrain(field, n)[top], x, z),
        terrain(field, n)[top].y == field.height_at(x, z),
        forall|j: int|
            0 <= j < terrain(field, n).len() && tops(#[trigger] terrain(field, n)[j], x, z) ==> j
                == top,
{
    let w = field.width() as int;
    let t = terrain(field, n);
    let c = column_number(w, x, z);
    lemma_number_of_column(w, x, z);
    lemma_column_layers(field, c);
    let k = field.column_height(c) - FLOOR;
    lemma_layer_in_terrain(field, n, c, k);
    let top = terrain(field, c as nat).len() + k;
    assert forall|j: int| 0 <= j < t.len() && tops(#[trigger] t[j], x, z) implies j == top by {
        lemma_terrain_voxel(field, n, j);
        lemma_terrain_distinct(field, n, j, top);
    }
    top
}

} // verus!
