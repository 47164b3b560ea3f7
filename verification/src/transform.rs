//! Points and affine maps in fixed-point arithmetic.
//!
//! Coordinates are 32-bit integers in a unit that the host chooses. The linear
//! part of a map has 16 fractional bits, so `FIXED_ONE` stands for 1. A result
//! is rounded down and then held to the 32-bit range.

use vstd::prelude::*;

verus! {

/// The fixed-point value of 1 in the linear part of an `Affine3`.
pub const FIXED_ONE: i32 = 65536;

/// A point or a displacement in surface space.
#[derive(Clone, Copy, Debug, PartialEq, Eq, Hash, Structural)]
pub struct Vec3 {
    pub x: i32,
    pub y: i32,
    pub z: i32,
}

/// One output coordinate of an affine map: three fixed-point weights for the
/// input coordinates and an offset in coordinate units.
#[derive(Clone, Copy, Debug, PartialEq, Eq, Hash, Structural)]
pub struct AffineRow {
    pub x: i32,
    pub y: i32,
    pub z: i32,
    pub offset: i32,
}

/// An affine map of surface space, one row for each output coordinate.
#[derive(Clone, Copy, Debug, PartialEq, Eq, Hash, Structural)]
pub struct Affine3 {
    pub row_x: AffineRow,
    pub row_y: AffineRow,
    pub row_z: AffineRow,
}

/// `v` held to the range of `i32`.
pub open spec fn clamp_i32(v: int) -> i32 {
    if v < i32::MIN {
        i32::MIN
    } else if v > i32::MAX {
        i32::MAX
    } else {
        v as i32
    }
}

proof fn lemma_product_bound(a: int, b: int)
    requires
        -0x8000_0000 <= a <= 0x8000_0000,
        -0x8000_0000 <= b <= 0x8000_0000,
    ensures
        -0x4000_0000_0000_0000 <= a * b <= 0x4000_0000_0000_0000,
{
    assert(-0x4000_0000_0000_0000 <= a * b <= 0x4000_0000_0000_0000) by (nonlinear_arith)
        requires
            -0x8000_0000 <= a <= 0x8000_0000,
            -0x8000_0000 <= b <= 0x8000_0000,
    ;
}

/// The product of two 32-bit values, which always fits in 64 bits.
fn wide_product(a: i32, b: i32) -> (p: i64)
    ensures
        p == a * b,
{
    proof {
        lemma_product_bound(a as int, b as int);
    }
    (a as i64) * (b as i64)
}

/// `v` divided by `FIXED_ONE`, rounded down.
fn fixed_floor(v: i128) -> (q: i128)
    requires
        -0x1_0000_0000_0000_0000 <= v <= 0x1_0000_0000_0000_0000,
    ensures
        q == v / 65536,
{
    if v >= 0 {
        ((v as u128) / 65536) as i128
    } else {
        let n: u128 = (-v) as u128;
        let up: u128 = (n + 65535) / 65536;
        -(up as i128)
    }
}

fn clamp_to_i32(v: i128) -> (r: i32)
    ensures
        r == clamp_i32(v as int),
{
    if v < -0x8000_0000 {
        -0x8000_0000
    } else if v > 0x7fff_ffff {
        0x7fff_ffff
    } else {
        v as i32
    }
}

/// `v` moved up by `d`, held to the 32-bit range.
pub fn offset_by(v: i32, d: u16) -> (r: i32)
    ensures
        r == clamp_i32(v + d),
{
    clamp_to_i32(v as i128 + d as i128)
}

impl AffineRow {
    /// The row's output for the point `p`: the weighted sum of the
    /// coordinates, rounded down to a whole unit, plus the offset, held to the
    /// 32-bit range.
    pub open spec fn apply_spec(self, p: Vec3) -> i32 {
        clamp_i32((self.x * p.x + self.y * p.y + self.z * p.z) / 65536 + self.offset)
    }

    pub fn apply(&self, p: Vec3) -> (r: i32)
        ensures
            r == self.apply_spec(p),
    {
        let sx: i64 = wide_product(self.x, p.x);
        let sy: i64 = wide_product(self.y, p.y);
        let sz: i64 = wide_product(self.z, p.z);
        proof {
            lemma_product_bound(self.x as int, p.x as int);
            lemma_product_bound(self.y as int, p.y as int);
            lemma_product_bound(self.z as int, p.z as int);
        }
        let sum: i128 = sx as i128 + sy as i128 + sz as i128;
        let whole: i128 = fixed_floor(sum);
        clamp_to_i32(whole + self.offset as i128)
    }
}

impl AffineRow {
    /// The row without its offset.
    pub open spec fn linear(self) -> AffineRow {
        AffineRow { offset: 0, ..self }
    }

    /// The row of the map that applies `inner` first and this row to the
    /// result.
    pub open spec fn after_spec(self, inner: Affine3) -> AffineRow {
        AffineRow {
            x: self.linear().apply_spec(inner.column_x()),
            y: self.linear().apply_spec(inner.column_y()),
            z: self.linear().apply_spec(inner.column_z()),
            offset: self.apply_spec(inner.offsets()),
        }
    }

    fn after(&self, inner: &Affine3) -> (r: AffineRow)
        ensures
            r == self.after_spec(*inner),
    {
        let linear = AffineRow { x: self.x, y: self.y, z: self.z, offset: 0 };
        AffineRow {
            x: linear.apply(Vec3 { x: inner.row_x.x, y: inner.row_y.x, z: inner.row_z.x }),
            y: linear.apply(Vec3 { x: inner.row_x.y, y: inner.row_y.y, z: inner.row_z.y }),
            z: linear.apply(Vec3 { x: inner.row_x.z, y: inner.row_y.z, z: inner.row_z.z }),
            offset: self.apply(Vec3 { x: inner.row_x.offset, y: inner.row_y.offset, z: inner.row_z.offset }),
        }
    }
}

impl Affine3 {
    /// The map that leaves every point where it is.
    pub open spec fn identity_spec() -> Affine3 {
        Affine3 {
            row_x: AffineRow { x: 65536, y: 0, z: 0, offset: 0 },
            row_y: AffineRow { x: 0, y: 65536, z: 0, offset: 0 },
            row_z: AffineRow { x: 0, y: 0, z: 65536, offset: 0 },
        }
    }

    pub fn identity() -> (t: Affine3)
        ensures
            t == Affine3::identity_spec(),
    {
        Affine3 {
            row_x: AffineRow { x: FIXED_ONE, y: 0, z: 0, offset: 0 },
            row_y: AffineRow { x: 0, y: FIXED_ONE, z: 0, offset: 0 },
            row_z: AffineRow { x: 0, y: 0, z: FIXED_ONE, offset: 0 },
        }
    }

    /// The map that moves every point by `d`.
    pub open spec fn translation_spec(d: Vec3) -> Affine3 {
        Affine3 {
            row_x: AffineRow { x: 65536, y: 0, z: 0, offset: d.x },
            row_y: AffineRow { x: 0, y: 65536, z: 0, offset: d.y },
            row_z: AffineRow { x: 0, y: 0, z: 65536, offset: d.z },
        }
    }

    pub fn translation(d: Vec3) -> (t: Affine3)
        ensures
            t == Affine3::translation_spec(d),
    {
        Affine3 {
            row_x: AffineRow { x: FIXED_ONE, y: 0, z: 0, offset: d.x },
            row_y: AffineRow { x: 0, y: FIXED_ONE, z: 0, offset: d.y },
            row_z: AffineRow { x: 0, y: 0, z: FIXED_ONE, offset: d.z },
        }
    }

    /// The weights of the input coordinate `x` in the three rows.
    pub open spec fn column_x(self) -> Vec3 {
        Vec3 { x: self.row_x.x, y: self.row_y.x, z: self.row_z.x }
    }

    /// The weights of the input coordinate `y` in the three rows.
    pub open spec fn column_y(self) -> Vec3 {
        Vec3 { x: self.row_x.y, y: self.row_y.y, z: self.row_z.y }
    }

    /// The weights of the input coordinate `z` in the three rows.
    pub open spec fn column_z(self) -> Vec3 {
        Vec3 { x: self.row_x.z, y: self.row_y.z, z: self.row_z.z }
    }

    /// The three offsets as a displacement.
    pub open spec fn offsets(self) -> Vec3 {
        Vec3 { x: self.row_x.offset, y: self.row_y.offset, z: self.row_z.offset }
    }

    /// The map that applies `self` first and `outer` to the result. Each
    /// weight is the fixed-point product of a row of `outer` with a column
    /// of `self`, and each offset is the image of the offsets of `self`
    /// under `outer`; both are rounded down and held to the 32-bit range as
    /// in `apply`.
    pub open spec fn then_spec(self, outer: Affine3) -> Affine3 {
        Affine3 {
            row_x: outer.row_x.after_spec(self),
            row_y: outer.row_y.after_spec(self),
            row_z: outer.row_z.after_spec(self),
        }
    }

    pub fn then(&self, outer: &Affine3) -> (t: Affine3)
        ensures
            t == self.then_spec(*outer),
    {
        Affine3 { row_x: outer.row_x.after(self), row_y: outer.row_y.after(self), row_z: outer.row_z.after(self) }
    }

    /// The image of `p`.
    pub open spec fn apply_spec(self, p: Vec3) -> Vec3 {
        Vec3 { x: self.row_x.apply_spec(p), y: self.row_y.apply_spec(p), z: self.row_z.apply_spec(p) }
    }

    pub fn apply(&self, p: Vec3) -> (r: Vec3)
        ensures
            r == self.apply_spec(p),
    {
        Vec3 { x: self.row_x.apply(p), y: self.row_y.apply(p), z: self.row_z.apply(p) }
    }
}

/// The identity map moves no point.
pub proof fn lemma_identity_applies(p: Vec3)
    ensures
        Affine3::identity_spec().apply_spec(p) == p,
{
    assert((65536 * p.x) / 65536 == p.x);
    assert((65536 * p.y) / 65536 == p.y);
    assert((65536 * p.z) / 65536 == p.z);
}

/// A translation adds its displacement, coordinate by coordinate, and holds
/// each sum to the 32-bit range.
pub proof fn lemma_translation_applies(d: Vec3, p: Vec3)
    ensures
        Affine3::translation_spec(d).apply_spec(p) == (Vec3 {
            x: clamp_i32(p.x + d.x),
            y: clamp_i32(p.y + d.y),
            z: clamp_i32(p.z + d.z),
        }),
{
    assert((65536 * p.x) / 65536 == p.x);
    assert((65536 * p.y) / 65536 == p.y);
    assert((65536 * p.z) / 65536 == p.z);
}

/// Composing with the identity, before or after, changes nothing.
pub proof fn lemma_identity_composes(t: Affine3)
    ensures
        t.then_spec(Affine3::identity_spec()) == t,
        Affine3::identity_spec().then_spec(t) == t,
{
    let id = Affine3::identity_spec();
    lemma_identity_applies(t.column_x());
    lemma_identity_applies(t.column_y());
    lemma_identity_applies(t.column_z());
    lemma_identity_applies(t.offsets());
    assert((65536 * t.row_x.x) / 65536 == t.row_x.x);
    assert((65536 * t.row_x.y) / 65536 == t.row_x.y);
    assert((65536 * t.row_x.z) / 65536 == t.row_x.z);
    assert((65536 * t.row_y.x) / 65536 == t.row_y.x);
    assert((65536 * t.row_y.y) / 65536 == t.row_y.y);
    assert((65536 * t.row_y.z) / 65536 == t.row_y.z);
    assert((65536 * t.row_z.x) / 65536 == t.row_z.x);
    assert((65536 * t.row_z.y) / 65536 == t.row_z.y);
    assert((65536 * t.row_z.z) / 65536 == t.row_z.z);
    assert(t.then_spec(id).row_x == t.row_x);
    assert(t.then_spec(id).row_y == t.row_y);
    assert(t.then_spec(id).row_z == t.row_z);
    lemma_row_after_identity(t.row_x);
    lemma_row_after_identity(t.row_y);
    lemma_row_after_identity(t.row_z);
}

proof fn lemma_row_after_identity(row: AffineRow)
    ensures
        row.after_spec(Affine3::identity_spec()) == row,
{
    let id = Affine3::identity_spec();
    assert((row.x * 65536 + row.y * 0 + row.z * 0) / 65536 == row.x);
    assert((row.x * 0 + row.y * 65536 + row.z * 0) / 65536 == row.y);
    assert((row.x * 0 + row.y * 0 + row.z * 65536) / 65536 == row.z);
    assert((row.x * 0 + row.y * 0 + row.z * 0) / 65536 + row.offset == row.offset);
    assert(row.linear().apply_spec(id.column_x()) == row.x);
    assert(row.linear().apply_spec(id.column_y()) == row.y);
    assert(row.linear().apply_spec(id.column_z()) == row.z);
    assert(row.apply_spec(id.offsets()) == row.offset);
}

/// Two translations compose to the translation by the sum of their
/// displacements, each coordinate held to the 32-bit range.
pub proof fn lemma_translations_compose(a: Vec3, b: Vec3)
    ensures
        Affine3::translation_spec(a).then_spec(Affine3::translation_spec(b)) == Affine3::translation_spec(
            Vec3 { x: clamp_i32(a.x + b.x), y: clamp_i32(a.y + b.y), z: clamp_i32(a.z + b.z) },
        ),
{
    let ta = Affine3::translation_spec(a);
    let tb = Affine3::translation_spec(b);
    lemma_translation_applies(b, a);
    assert((65536 * 65536) / 65536 == 65536) by (nonlinear_arith);
    assert((65536 * a.x) / 65536 == a.x);
    assert((65536 * a.y) / 65536 == a.y);
    assert((65536 * a.z) / 65536 == a.z);
    let c = ta.then_spec(tb);
    assert(c.row_x == (AffineRow { x: 65536, y: 0, z: 0, offset: clamp_i32(a.x + b.x) }));
    assert(c.row_y == (AffineRow { x: 0, y: 65536, z: 0, offset: clamp_i32(a.y + b.y) }));
    assert(c.row_z == (AffineRow { x: 0, y: 0, z: 65536, offset: clamp_i32(a.z + b.z) }));
}

} // verus!
