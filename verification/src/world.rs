//! The voxel world and its generation, all at once or a few columns per
//! tick.

use vstd::prelude::*;
use crate::height::HeightField;
use crate::height::column_number;
use crate::height::lemma_number_of_column;
use crate::terrain::FLOOR;
use crate::terrain::Voxel;
use crate::terrain::column_of;
use crate::terrain::column_voxels;
use crate::terrain::full_terrain;
use crate::terrain::lemma_terrain_occupancy;
use crate::terrain::lemma_terrain_split;
use crate::terrain::occupies;
use crate::terrain::terrain;
use crate::terrain::terrain_between;
use crate::units::magnitude;

verus! {

/// Width of the world that the game loads, in columns.
pub const WORLD_SIZE: u32 = 128;

/// Columns generated per tick while the world loads.
pub const COLUMNS_PER_TICK: usize = 100;

/// Seed of the world that the game loads first.
pub const INITIAL_SEED: u32 = 42;

/// Columns done after one more generation step of at most `budget`
/// columns.
pub open spec fn advanced(completed: nat, budget: nat, total: nat) -> nat {
    if completed + budget < total {
        completed + budget
    } else {
        total
    }
}

/// Columns done after `calls` generation steps of at most `budget` columns
/// each, starting with none.
pub open spec fn completed_after(total: nat, budget: nat, calls: nat) -> nat
    decreases calls,
{
    if calls == 0 {
        0
    } else {
        advanced(completed_after(total, budget, (calls - 1) as nat), budget, total)
    }
}

/// Number of steps of `budget` columns that `total` columns take:
/// `total / budget`, rounded up.
pub open spec fn calls_needed(total: nat, budget: nat) -> nat {
    ((total + budget - 1) as int / (budget as int)) as nat
}

/// How far the generation of a world has come.
#[derive(Clone, Copy, Debug)]
pub struct LoadingProgress {
    blocks_completed: usize,
    total_blocks: usize,
}

impl LoadingProgress {
    #[verifier::type_invariant]
    spec fn inv(self) -> bool {
        self.blocks_completed <= self.total_blocks
    }

    /// Columns generated so far.
    pub closed spec fn completed(self) -> nat {
        self.blocks_completed as nat
    }

    /// Columns of the whole world.
    pub closed spec fn total(self) -> nat {
        self.total_blocks as nat
    }

    /// Columns generated so far.
    pub fn blocks_completed(&self) -> (r: usize)
        ensures
            r == self.completed(),
            r <= self.total(),
    {
        proof {
            use_type_invariant(self);
        }
        self.blocks_completed
    }

    /// Columns of the whole world.
    pub fn total_blocks(&self) -> (r: usize)
        ensures
            r == self.total(),
    {
        self.total_blocks
    }

    /// Whether every column has been generated.
    pub fn is_done(&self) -> (r: bool)
        ensures
            r <==> self.completed() >= self.total(),
    {
        self.blocks_completed >= self.total_blocks
    }

    /// Share of the columns generated so far, in whole percent, rounded
    /// down. A world without columns reports zero.
    pub fn percentage(&self) -> (r: u8)
        ensures
            self.total() == 0 ==> r == 0,
            self.total() > 0 ==> r == (self.completed() * 100) as int / (self.total() as int),
            r <= 100,
    {
        proof {
            use_type_invariant(self);
        }
        if self.total_blocks == 0 {
            0
        } else {
            let done: u128 = self.blocks_completed as u128;
            let all: u128 = self.total_blocks as u128;
            let share: u128 = done * 100 / all;
            assert(share <= 100) by (nonlinear_arith)
                requires
                    share == (done * 100) as int / (all as int),
                    0 <= done <= all,
                    all > 0,
            ;
            share as u8
        }
    }
}

/// The set of occupied lattice points.
///
/// A world is generated from a height field, column by column. It holds
/// every voxel of the columns done so far and nothing else, so each column
/// is filled from the floor up to its height, its topmost voxel is its
/// only surface voxel, and no lattice point is occupied twice.
pub struct VoxelWorld {
    field: HeightField,
    completed: usize,
    voxels: Vec<Voxel>,
}

impl View for VoxelWorld {
    type V = Seq<Voxel>;

    /// The voxels of the world, in generation order.
    closed spec fn view(&self) -> Seq<Voxel> {
        self.voxels@
    }
}

impl VoxelWorld {
    /// The height field that the world is generated from.
    pub closed spec fn field(self) -> HeightField {
        self.field
    }

    /// Number of columns generated so far.
    pub closed spec fn completed(self) -> nat {
        self.completed as nat
    }

    /// Validity of a world: it holds exactly the terrain of the columns
    /// generated so far. Every world in hand is valid.
    #[verifier::type_invariant]
    pub open spec fn wf(self) -> bool {
        &&& self.field().wf()
        &&& self.completed() <= self.field().columns()
        &&& self@ == terrain(self.field(), self.completed())
    }

    /// Whether every column of the field has been generated.
    pub open spec fn is_complete(self) -> bool {
        self.completed() == self.field().columns()
    }

    /// Whether the lattice point `(x, y, z)` is occupied.
    pub open spec fn occupied(self, x: int, y: int, z: int) -> bool {
        occupies(self@, x, y, z)
    }

    /// A world over `field` with no column generated yet.
    pub fn begin(field: HeightField) -> (world: VoxelWorld)
        ensures
            world.wf(),
            world.field() == field,
            world.completed() == 0,
            world@ == Seq::<Voxel>::empty(),
    {
        let count: usize = field.column_count();
        VoxelWorld { field, completed: 0, voxels: Vec::new() }
    }

    /// How far generation has come.
    pub fn progress(&self) -> (r: LoadingProgress)
        ensures
            r.completed() == self.completed(),
            r.total() == self.field().columns(),
    {
        proof {
            use_type_invariant(self);
        }
        LoadingProgress {
            blocks_completed: self.completed,
            total_blocks: self.field.column_count(),
        }
    }

    /// Whether every column of the field has been generated.
    pub fn complete(&self) -> (r: bool)
        ensures
            r <==> self.is_complete(),
    {
        proof {
            use_type_invariant(self);
        }
        self.completed == self.field.column_count()
    }

    /// The height field that the world is generated from.
    pub fn height_field(&self) -> (r: &HeightField)
        ensures
            *r == self.field(),
    {
        &self.field
    }

    /// The voxels of the world, in generation order.
    pub fn voxels(&self) -> (r: &Vec<Voxel>)
        ensures
            r@ == self@,
            self.wf(),
    {
        proof {
            use_type_invariant(self);
        }
        &self.voxels
    }

    /// Number of voxels in the world.
    pub fn len(&self) -> (r: usize)
        ensures
            r == self@.len(),
    {
        self.voxels.len()
    }

    /// The voxels within `reach` lattice steps of `(x, y, z)` along every
    /// axis, in generation order.
    pub fn voxels_near(&self, x: i32, y: i32, z: i32, reach: u32) -> (r: Vec<Voxel>)
        ensures
            r@ == self@.filter(|v: Voxel| is_near(v, x as int, y as int, z as int, reach as int)),
    {
        let ghost keep = |v: Voxel| is_near(v, x as int, y as int, z as int, reach as int);
        let mut found: Vec<Voxel> = Vec::new();
        let mut i: usize = 0;
        proof {
            reveal(Seq::filter);
            assert(self.voxels@.take(0) == Seq::<Voxel>::empty());
        }
        while i < self.voxels.len()
            invariant
                0 <= i <= self.voxels@.len(),
                keep == |v: Voxel| is_near(v, x as int, y as int, z as int, reach as int),
                found@ == self.voxels@.take(i as int).filter(keep),
            decreases self.voxels.len() - i,
        {
            let v: Voxel = self.voxels[i];
            let close: bool = apart(v.x, x) <= reach as i64 && apart(v.y, y) <= reach as i64
                && apart(v.z, z) <= reach as i64;
            if close {
                found.push(v);
            }
            i = i + 1;
            proof {
                reveal(Seq::filter);
                assert(self.voxels@.take(i as int).drop_last() == self.voxels@.take(i - 1));
            }
        }
        assert(self.voxels@.take(i as int) == self.voxels@);
        found
    }

    /// Whether the lattice point `(x, y, z)` is occupied: whether it lies
    /// in a generated column, between the floor and the column's height.
    pub fn query_occupied(&self, x: i32, y: i32, z: i32) -> (r: bool)
        ensures
            r <==> self.occupied(x as int, y as int, z as int),
            r <==> {
                &&& self.field().covers(x as int, z as int)
                &&& column_number(self.field().width() as int, x as int, z as int)
                    < self.completed()
                &&& FLOOR <= y <= self.field().height_at(x as int, z as int)
            },
    {
        proof {
            use_type_invariant(self);
            lemma_terrain_occupancy(self.field, self.completed as nat, x as int, y as int, z as int);
        }
        match self.field.locate(x, z) {
            Some(c) => {
                if c < self.completed {
                    let (_, _, h) = self.field.column(c);
                    FLOOR <= y && y <= h
                } else {
                    false
                }
            },
            None => false,
        }
    }
}

/// Whether `v` lies within `reach` lattice steps of `(x, y, z)` along every
/// axis.
pub open spec fn is_near(v: Voxel, x: int, y: int, z: int, reach: int) -> bool {
    &&& magnitude(v.x - x) <= reach
    &&& magnitude(v.y - y) <= reach
    &&& magnitude(v.z - z) <= reach
}

/// Number of lattice steps between two coordinates.
fn apart(a: i32, b: i32) -> (r: i64)
    ensures
        r == magnitude(a - b),
{
    let d: i64 = a as i64 - b as i64;
    if d >= 0 {
        d
    } else {
        -d
    }
}

/// Appends the voxels of one column of height `h`, bottom-up.
fn push_column(voxels: &mut Vec<Voxel>, x: i32, z: i32, h: i32)
    requires
        h >= 0,
    ensures
        final(voxels)@ == old(voxels)@ + column_voxels(x, z, h),
{
    let count: i64 = h as i64 - FLOOR as i64 + 1;
    let mut k: i64 = 0;
    while k < count
        invariant
            0 <= k <= count,
            count == h - FLOOR + 1,
            h >= 0,
            voxels@ == old(voxels)@ + column_voxels(x, z, h).take(k as int),
        decreases count - k,
    {
        let y: i32 = (FLOOR as i64 + k) as i32;
        voxels.push(Voxel { x, y, z, surface: y == h });
        k = k + 1;
        assert(column_voxels(x, z, h).take(k as int) == column_voxels(x, z, h).take(k - 1).push(
            column_voxels(x, z, h)[k - 1],
        ));
    }
    assert(column_voxels(x, z, h).take(count as int) == column_voxels(x, z, h));
}

/// Appends the voxels of the columns numbered `from` up to, not including,
/// `to`.
fn push_columns(field: &HeightField, voxels: &mut Vec<Voxel>, from: usize, to: usize)
    requires
        field.wf(),
        from <= to <= field.columns(),
    ensures
        final(voxels)@ == old(voxels)@ + terrain_between(*field, from as nat, to as nat),
{
    let mut c: usize = from;
    assert(terrain_between(*field, from as nat, from as nat) == Seq::<Voxel>::empty());
    while c < to
        invariant
            field.wf(),
            from <= c <= to <= field.columns(),
            voxels@ == old(voxels)@ + terrain_between(*field, from as nat, c as nat),
        decreases to - c,
    {
        let (x, z, h) = field.column(c);
        push_column(voxels, x, z, h);
        c = c + 1;
        assert(terrain_between(*field, from as nat, c as nat) == terrain_between(
            *field,
            from as nat,
            (c - 1) as nat,
        ) + column_of(*field, c - 1));
    }
}

/// Generates the whole world of a height field at once: every column of
/// the grid, filled from the floor up to its height.
pub fn generate_full(field: HeightField) -> (world: VoxelWorld)
    ensures
        world.wf(),
        world.field() == field,
        world.is_complete(),
        world@ == full_terrain(field),
{
    let count: usize = field.column_count();
    let mut voxels: Vec<Voxel> = Vec::new();
    push_columns(&field, &mut voxels, 0, count);
    proof {
        lemma_terrain_split(field, 0, count as nat);
    }
    VoxelWorld { field, completed: count, voxels }
}

/// Generates up to `budget` further columns of a world and reports whether
/// the world is complete. Columns are taken in column order, so a world
/// that loads in steps ends as the world generated at once.
pub fn generate_incremental(world: &mut VoxelWorld, budget: usize) -> (done: bool)
    ensures
        final(world).wf(),
        final(world).field() == old(world).field(),
        final(world).completed() == advanced(
            old(world).completed(),
            budget as nat,
            old(world).field().columns(),
        ),
        old(world).completed() <= final(world).completed() <= old(world).field().columns(),
        final(world)@ == old(world)@ + terrain_between(
            old(world).field(),
            old(world).completed(),
            final(world).completed(),
        ),
        done <==> final(world).is_complete(),
{
    proof {
        use_type_invariant(&*world);
    }
    let mut taken: VoxelWorld = VoxelWorld::begin(HeightField::empty());
    std::mem::swap(world, &mut taken);
    let VoxelWorld { field, completed, mut voxels } = taken;
    let count: usize = field.column_count();
    let target: usize = if budget < count - completed {
        completed + budget
    } else {
        count
    };
    push_columns(&field, &mut voxels, completed, target);
    proof {
        lemma_terrain_split(field, completed as nat, target as nat);
    }
    *world = VoxelWorld { field, completed: target, voxels };
    target == count
}

/// Replaces a world by the complete world of another height field. The
/// old voxels go and the new ones come in one step.
pub fn regenerate(world: &mut VoxelWorld, field: HeightField)
    ensures
        final(world).wf(),
        final(world).field() == field,
        final(world).is_complete(),
        final(world)@ == full_terrain(field),
{
    *world = generate_full(field);
}

/// Which lattice points a world occupies: in every generated column of its
/// grid the layers from the floor up to the column's height, and nothing
/// else. A complete world has generated every column of the grid.
pub proof fn lemma_world_occupancy(world: VoxelWorld, x: int, y: int, z: int)
    requires
        world.wf(),
    ensures
        world.occupied(x, y, z) <==> {
            &&& world.field().covers(x, z)
            &&& column_number(world.field().width() as int, x, z) < world.completed()
            &&& FLOOR <= y <= world.field().height_at(x, z)
        },
        world.is_complete() ==> (world.occupied(x, y, z) <==> world.field().covers(x, z) && FLOOR
            <= y <= world.field().height_at(x, z)),
{
    lemma_terrain_occupancy(world.field(), world.completed(), x, y, z);
    if world.field().covers(x, z) {
        let w = world.field().width() as int;
        assert(w > 0);
        lemma_number_of_column(w, x, z);
    }
}

/// Loading finishes at the call that `total / budget`, rounded up, names,
/// and at no earlier one.
pub proof fn lemma_loading_takes_ceil_calls(total: nat, budget: nat, calls: nat)
    requires
        budget > 0,
    ensures
        completed_after(total, budget, calls) == total <==> calls >= calls_needed(total, budget),
{
    lemma_completed_after(total, budget, calls);
    let b = budget as int;
    let t = total as int;
    let n = calls as int;
    let q = (t + b - 1) / b;
    assert(n * b >= t <==> n >= q) by (nonlinear_arith)
        requires
            b > 0,
            t >= 0,
            n >= 0,
            q == (t + b - 1) / b,
    ;
}

/// After `calls` steps, `calls * budget` columns are done, or all of them.
pub proof fn lemma_completed_after(total: nat, budget: nat, calls: nat)
    ensures
        completed_after(total, budget, calls) == if calls * budget < total {
            calls * budget
        } else {
            total
        },
    decreases calls,
{
    if calls > 0 {
        lemma_completed_after(total, budget, (calls - 1) as nat);
        assert(calls * budget == (calls - 1) * budget + budget) by (nonlinear_arith);
    } else {
        assert(calls * budget == 0) by (nonlinear_arith)
            requires
                calls == 0,
        ;
    }
}

/// A world that has loaded step by step is the world generated at once:
/// once every column is done, the voxels are those of the full terrain.
pub proof fn lemma_loaded_world_is_full(world: VoxelWorld)
    requires
        world.wf(),
        world.is_complete(),
    ensures
        world@ == full_terrain(world.field()),
{
}

} // verus!
