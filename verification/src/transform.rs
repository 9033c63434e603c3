//! Up-axis conversion of positions and normals.
//!
//! Only the turn from a Z-up source to Y-up is supported: `(x, y, z)` becomes
//! `(x, z, -y)`. It moves and negates numbers and so is exact. Scaling is a
//! product of numbers and is the caller's to compute.
//!
//! A matrix that works on Z-up vectors is turned by the same change of
//! basis: its rows and columns for y and z change places, and what crosses
//! between z and the other axes changes its sign.

use vstd::prelude::*;
use crate::model::{DaeConvertConfig, Mat4, UpAxisConversion, Vec3};
use crate::scalar::{lemma_negated_twice, Scalar};

verus! {

/// `(x, y, z)` turned from Z-up to Y-up: `(x, z, -y)`.
pub open spec fn z_up_to_y_up(v: Vec3) -> Vec3 {
    [v[0], v[2], v[1].negated()]
}

/// The turn back: `(x, y, z)` becomes `(x, -z, y)`.
pub open spec fn y_up_to_z_up(v: Vec3) -> Vec3 {
    [v[0], v[2].negated(), v[1]]
}

/// A vector after the conversion that `axis` asks for.
pub open spec fn converted(v: Vec3, axis: UpAxisConversion) -> Vec3 {
    match axis {
        UpAxisConversion::ZUp => z_up_to_y_up(v),
        UpAxisConversion::YUp => v,
        UpAxisConversion::NoConversion => v,
    }
}

/// Every vector of a list after the conversion that `axis` asks for.
pub open spec fn all_converted(vectors: Seq<Vec3>, axis: UpAxisConversion) -> Seq<Vec3> {
    Seq::new(vectors.len(), |i: int| converted(vectors[i], axis))
}

/// Turning a vector to Y-up and back gives the vector, bit for bit.
pub proof fn lemma_up_axis_round_trip(v: Vec3)
    ensures
        y_up_to_z_up(z_up_to_y_up(v)) == v,
{
    lemma_negated_twice(v[1]);
    let w = y_up_to_z_up(z_up_to_y_up(v));
    assert(w@ =~= v@);
    assert(w =~= v);
}

/// Converts one vector.
pub fn convert_vector(v: Vec3, axis: UpAxisConversion) -> (r: Vec3)
    ensures
        r == converted(v, axis),
{
    match axis {
        UpAxisConversion::ZUp => [v[0], v[2], v[1].negate()],
        UpAxisConversion::YUp => v,
        UpAxisConversion::NoConversion => v,
    }
}

/// Turns a vector back from Y-up to Z-up.
pub fn restore_vector(v: Vec3) -> (r: Vec3)
    ensures
        r == y_up_to_z_up(v),
{
    [v[0], v[2].negate(), v[1]]
}

fn convert_all(vectors: &[Vec3], axis: UpAxisConversion) -> (r: Vec<Vec3>)
    ensures
        r@ == all_converted(vectors@, axis),
{
    let mut out: Vec<Vec3> = Vec::new();
    let n = vectors.len();
    let mut i: usize = 0;
    while i < n
        invariant
            i <= n,
            n == vectors@.len(),
            out@.len() == i,
            forall|k: int| 0 <= k < i ==> out@[k] == converted(vectors@[k], axis),
        decreases n - i,
    {
        out.push(convert_vector(vectors[i], axis));
        i += 1;
    }
    proof {
        assert(out@ =~= all_converted(vectors@, axis));
    }
    out
}

/// Applies the up-axis conversion of `config` to positions that the caller
/// has already multiplied by its scale factor.
pub fn apply_transforms(scaled_vertices: &[Vec3], config: &DaeConvertConfig) -> (r: Vec<Vec3>)
    ensures
        r@ == all_converted(scaled_vertices@, config.up_axis_conversion),
{
    convert_all(scaled_vertices, config.up_axis_conversion)
}

/// Applies the up-axis conversion of `config` to normals. Normals are
/// directions: no scale applies to them.
pub fn apply_normal_transforms(normals: &[Vec3], config: &DaeConvertConfig) -> (r: Vec<Vec3>)
    ensures
        r@ == all_converted(normals@, config.up_axis_conversion),
{
    convert_all(normals, config.up_axis_conversion)
}

/// The row or column that takes the place of `i` when a matrix is turned:
/// y and z change places.
pub open spec fn turned_axis(i: int) -> int {
    if i == 1 {
        2
    } else if i == 2 {
        1
    } else {
        i
    }
}

/// The entry in column `c` and row `r` of a matrix turned from Z-up to
/// Y-up: the entry of the rows and columns that take their place, negated
/// if exactly one of `c` and `r` is the z axis.
pub open spec fn turned_entry(m: Mat4, c: int, r: int) -> Scalar {
    let e = m[turned_axis(c)][turned_axis(r)];
    if (c == 2) != (r == 2) {
        e.negated()
    } else {
        e
    }
}

/// A column of a matrix turned from Z-up to Y-up.
pub open spec fn turned_column(m: Mat4, c: int) -> [Scalar; 4] {
    [turned_entry(m, c, 0), turned_entry(m, c, 1), turned_entry(m, c, 2), turned_entry(m, c, 3)]
}

/// A matrix turned from Z-up to Y-up.
pub open spec fn matrix_z_up_to_y_up(m: Mat4) -> Mat4 {
    [turned_column(m, 0), turned_column(m, 1), turned_column(m, 2), turned_column(m, 3)]
}

/// A matrix after the conversion that `axis` asks for.
pub open spec fn converted_matrix(m: Mat4, axis: UpAxisConversion) -> Mat4 {
    match axis {
        UpAxisConversion::ZUp => matrix_z_up_to_y_up(m),
        UpAxisConversion::YUp => m,
        UpAxisConversion::NoConversion => m,
    }
}

/// The translation of a matrix: the first three entries of its last column.
pub open spec fn translation_of(m: Mat4) -> Vec3 {
    [m[3][0], m[3][1], m[3][2]]
}

/// A turned matrix moves by the turned translation.
pub proof fn lemma_translation_turned(m: Mat4)
    ensures
        translation_of(matrix_z_up_to_y_up(m)) == z_up_to_y_up(translation_of(m)),
{
    let a = translation_of(matrix_z_up_to_y_up(m));
    let b = z_up_to_y_up(translation_of(m));
    assert(a@ =~= b@);
    assert(a =~= b);
}

/// Converts one matrix.
pub fn convert_matrix(m: &Mat4, axis: UpAxisConversion) -> (r: Mat4)
    ensures
        r == converted_matrix(*m, axis),
{
    match axis {
        UpAxisConversion::ZUp => {
            let r: Mat4 = [
                [m[0][0], m[0][2], m[0][1].negate(), m[0][3]],
                [m[2][0], m[2][2], m[2][1].negate(), m[2][3]],
                [m[1][0].negate(), m[1][2].negate(), m[1][1], m[1][3].negate()],
                [m[3][0], m[3][2], m[3][1].negate(), m[3][3]],
            ];
            proof {
                let want = matrix_z_up_to_y_up(*m);
                assert(r[0] =~= want[0]);
                assert(r[1] =~= want[1]);
                assert(r[2] =~= want[2]);
                assert(r[3] =~= want[3]);
                assert(r =~= want);
            }
            r
        },
        UpAxisConversion::YUp => *m,
        UpAxisConversion::NoConversion => *m,
    }
}

} // verus!
