//! The height field: one terrain height per column of a square grid.
//!
//! A grid of width `w` covers the columns `(x, z)` with
//! `-(w / 2) <= x, z < w - w / 2`. Columns are numbered row by row:
//! column `c` lies at `x = c % w - w / 2`, `z = c / w - w / 2`.

use vstd::prelude::*;
use vstd::arithmetic::div_mod::lemma_fundamental_div_mod;
use vstd::arithmetic::div_mod::lemma_fundamental_div_mod_converse;
use vstd::arithmetic::div_mod::lemma_mod_pos_bound;
use vstd::arithmetic::div_mod::lemma_div_pos_is_pos;

verus! {

/// `x` coordinate of column number `c` in a grid of width `w`.
pub open spec fn column_x(w: int, c: int) -> int {
    c % w - w / 2
}

/// `z` coordinate of column number `c` in a grid of width `w`.
pub open spec fn column_z(w: int, c: int) -> int {
    c / w - w / 2
}

/// Whether the column `(x, z)` lies on a grid of width `w`.
pub open spec fn in_grid(w: int, x: int, z: int) -> bool {
    &&& -(w / 2) <= x < w - w / 2
    &&& -(w / 2) <= z < w - w / 2
}

/// Number of the column `(x, z)` in a grid of width `w`.
pub open spec fn column_number(w: int, x: int, z: int) -> int {
    (z + w / 2) * w + (x + w / 2)
}

/// Terrain height that a floored noise sample stands for: the sample
/// itself, but never below zero.
pub open spec fn height_of(sample: int) -> int {
    if sample < 0 {
        0
    } else {
        sample
    }
}

/// Every column number below `w * w` names a column on the grid, and
/// `column_number` leads back from its coordinates to it.
pub proof fn lemma_column_on_grid(w: int, c: int)
    requires
        0 < w,
        0 <= c < w * w,
    ensures
        in_grid(w, column_x(w, c), column_z(w, c)),
        column_number(w, column_x(w, c), column_z(w, c)) == c,
{
    lemma_fundamental_div_mod(c, w);
    lemma_mod_pos_bound(c, w);
    lemma_div_pos_is_pos(c, w);
    let q = c / w;
    let r = c % w;
    assert(q < w) by (nonlinear_arith)
        requires
            0 < w,
            0 <= r,
            c == w * q + r,
            c < w * w,
    ;
    assert(q * w == w * q) by (nonlinear_arith);
}

/// Every column on the grid has a number below `w * w`, and `column_x`
/// and `column_z` lead back from the number to its coordinates.
pub proof fn lemma_number_of_column(w: int, x: int, z: int)
    requires
        0 < w,
        in_grid(w, x, z),
    ensures
        0 <= column_number(w, x, z) < w * w,
        column_x(w, column_number(w, x, z)) == x,
        column_z(w, column_number(w, x, z)) == z,
{
    let q = z + w / 2;
    let r = x + w / 2;
    let c = column_number(w, x, z);
    assert(0 <= q * w + r < w * w) by (nonlinear_arith)
        requires
            0 < w,
            0 <= q < w,
            0 <= r < w,
    ;
    lemma_fundamental_div_mod_converse(c, w, q, r);
}

/// Coordinates of column number `c` in a grid of width `width`: where the
/// noise for the column's sample is to be taken.
pub fn column_position(width: u32, c: usize) -> (r: (i32, i32))
    requires
        c < (width as int) * (width as int),
    ensures
        r.0 == column_x(width as int, c as int),
        r.1 == column_z(width as int, c as int),
        in_grid(width as int, r.0 as int, r.1 as int),
{
    proof {
        let w = width as int;
        assert(0 < w) by (nonlinear_arith)
            requires
                0 <= w,
                0 <= c < w * w,
        ;
        lemma_column_on_grid(w, c as int);
    }
    let w: u64 = width as u64;
    let n: u64 = c as u64;
    let half: i64 = (w / 2) as i64;
    let x: i64 = (n % w) as i64 - half;
    let z: i64 = (n / w) as i64 - half;
    (x as i32, z as i32)
}

/// A terrain height is never negative, whatever the sample.
pub proof fn lemma_height_is_not_negative(sample: int)
    ensures
        height_of(sample) >= 0,
        sample >= 0 ==> height_of(sample) == sample,
{
}

/// Floored noise samples over a square grid of columns.
///
/// The field holds one sample per column, in column order. A sample is the
/// coherent noise at the column, scaled to block heights and rounded down;
/// the terrain height of the column is that sample clamped at zero.
pub struct HeightField {
    width: u32,
    samples: Vec<i32>,
}

impl HeightField {
    /// Width of the grid, in columns.
    pub closed spec fn width(self) -> nat {
        self.width as nat
    }

    /// The samples, in column order.
    pub closed spec fn samples(self) -> Seq<i32> {
        self.samples@
    }

    /// Validity of a field: it holds exactly one sample per column. Every
    /// field in hand is valid.
    #[verifier::type_invariant]
    pub open spec fn wf(self) -> bool {
        self.samples().len() == self.width() * self.width()
    }

    /// Number of columns on the grid.
    pub open spec fn columns(self) -> nat {
        self.width() * self.width()
    }

    /// Whether the column `(x, z)` lies on this field's grid.
    pub open spec fn covers(self, x: int, z: int) -> bool {
        in_grid(self.width() as int, x, z)
    }

    /// Terrain height of column number `c`.
    pub open spec fn column_height(self, c: int) -> int {
        height_of(self.samples()[c] as int)
    }

    /// Terrain height of the column `(x, z)`.
    pub open spec fn height_at(self, x: int, z: int) -> int {
        self.column_height(column_number(self.width() as int, x, z))
    }

    /// A grid is at most `u32::MAX` columns wide.
    pub proof fn lemma_width_bound(self)
        ensures
            self.width() <= u32::MAX,
    {
    }

    /// Builds a field from its samples. The samples are taken if there is
    /// exactly one per column of a grid of the given width.
    pub fn new(width: u32, samples: Vec<i32>) -> (r: Option<HeightField>)
        ensures
            r is Some <==> samples@.len() == (width as int) * (width as int),
            r matches Some(f) ==> f.wf() && f.width() == width && f.samples() == samples@,
    {
        let wide: u64 = width as u64;
        assert(wide * wide <= 0xffff_ffff * 0xffff_ffff) by (nonlinear_arith)
            requires
                wide <= 0xffff_ffff,
        ;
        let count: u64 = wide * wide;
        if samples.len() as u64 == count {
            Some(HeightField { width, samples })
        } else {
            None
        }
    }

    /// Width of the grid, in columns.
    pub fn side(&self) -> (r: u32)
        ensures
            r == self.width(),
    {
        self.width
    }

    /// Number of columns on the grid.
    pub fn column_count(&self) -> (r: usize)
        ensures
            r == self.columns(),
            self.wf(),
    {
        proof {
            use_type_invariant(self);
        }
        self.samples.len()
    }

    /// Coordinates and terrain height of column number `c`.
    pub fn column(&self, c: usize) -> (r: (i32, i32, i32))
        requires
            c < self.columns(),
        ensures
            r.0 == column_x(self.width() as int, c as int),
            r.1 == column_z(self.width() as int, c as int),
            r.2 == self.column_height(c as int),
            r.2 >= 0,
    {
        proof {
            use_type_invariant(self);
        }
        let (x, z) = column_position(self.width, c);
        let sample: i32 = self.samples[c];
        let h: i32 = if sample < 0 {
            0
        } else {
            sample
        };
        (x, z, h)
    }

    /// A field over the grid without columns.
    pub fn empty() -> (r: HeightField)
        ensures
            r.wf(),
            r.width() == 0,
            r.samples() == Seq::<i32>::empty(),
    {
        HeightField { width: 0, samples: Vec::new() }
    }

    /// Number of the column `(x, z)`, if the grid has that column.
    pub fn locate(&self, x: i32, z: i32) -> (r: Option<usize>)
        ensures
            r is Some <==> self.covers(x as int, z as int),
            r matches Some(c) ==> c == column_number(self.width() as int, x as int, z as int) && c
                < self.columns(),
    {
        proof {
            use_type_invariant(self);
        }
        let w: i64 = self.width as i64;
        let half: i64 = w / 2;
        let col: i64 = x as i64 + half;
        let row: i64 = z as i64 + half;
        if 0 <= col && col < w && 0 <= row && row < w {
            proof {
                lemma_number_of_column(w as int, x as int, z as int);
            }
            let side: u64 = w as u64;
            let across: u64 = col as u64;
            let down: u64 = row as u64;
            assert(down * side + across == column_number(w as int, x as int, z as int));
            assert(side * side == self.samples@.len());
            assert(0 <= down * side) by (nonlinear_arith)
                requires
                    0 <= down,
                    0 <= side,
            ;
            let count: usize = self.samples.len();
            assert(down * side + across < count);
            Some((down * side + across) as usize)
        } else {
            None
        }
    }

    /// Terrain height of the column `(x, z)`, if the grid has that column.
    /// A height is never negative.
    pub fn height(&self, x: i32, z: i32) -> (r: Option<i32>)
        ensures
            r is Some <==> self.covers(x as int, z as int),
            r matches Some(h) ==> h == self.height_at(x as int, z as int) && h >= 0,
    {
        match self.locate(x, z) {
            Some(c) => {
                let (_, _, h) = self.column(c);
                Some(h)
            },
            None => None,
        }
    }
}

} // verus!
