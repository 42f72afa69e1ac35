//! Chromatic adaptation: carrying XYZ values from one reference white to
//! another through a cone-response space.
//!
//! Each method's inverse matrix is held exactly, as the adjugate over the
//! determinant of its integer cone matrix. The back-transform divides by the
//! determinant only once, at the end; adapting to the very illuminant the
//! color came from therefore returns the input bit for bit.

use vstd::prelude::*;

use crate::illuminant::{spec_white_point, Illuminant};
use crate::xyz::Xyz;

verus! {

/// A row of a 3x3 integer matrix.
pub type Row3 = (i64, i64, i64);

/// A 3x3 integer matrix as three rows.
pub type Mat3 = (Row3, Row3, Row3);

/// The scale of the cone matrices: entries are in units of 1e-5.
pub const CONE_SCALE: i64 = 100000;

/// A strategy for chromatic adaptation.
#[derive(Clone, Copy, Debug, PartialEq, Eq, Structural)]
pub enum ChromaticAdaptationMethod {
    Bradford,
    VonKries,
    XyzScaling,
}

/// The cone-response matrix of a method, at `CONE_SCALE`.
pub open spec fn spec_cone_matrix(m: ChromaticAdaptationMethod) -> Mat3 {
    match m {
        ChromaticAdaptationMethod::Bradford => (
            (89510i64, 26640i64, -16140i64),
            (-75020i64, 171350i64, 3670i64),
            (3890i64, -6850i64, 102960i64),
        ),
        ChromaticAdaptationMethod::VonKries => (
            (40024i64, 70760i64, -8081i64),
            (-22630i64, 116532i64, 4570i64),
            (0i64, 0i64, 91822i64),
        ),
        ChromaticAdaptationMethod::XyzScaling => (
            (100000i64, 0i64, 0i64),
            (0i64, 100000i64, 0i64),
            (0i64, 0i64, 100000i64),
        ),
    }
}

/// The adjugate of the cone matrix: its exact inverse times the determinant.
pub open spec fn spec_cone_adjugate(m: ChromaticAdaptationMethod) -> Mat3 {
    match m {
        ChromaticAdaptationMethod::Bradford => (
            (17667335500i64, -2632295400i64, 2863357800i64),
            (7738335500i64, 9278734200i64, 882321100i64),
            (-152664500i64, 716773100i64, 17336071300i64),
        ),
        ChromaticAdaptationMethod::VonKries => (
            (10700201304i64, -6497324720i64, 1265068292i64),
            (2077931860i64, 3675083728i64, -36650i64),
            (0i64, 0i64, 6265375568i64),
        ),
        ChromaticAdaptationMethod::XyzScaling => (
            (10000000000i64, 0i64, 0i64),
            (0i64, 10000000000i64, 0i64),
            (0i64, 0i64, 10000000000i64),
        ),
    }
}

/// The determinant of the cone matrix.
pub open spec fn spec_cone_determinant(m: ChromaticAdaptationMethod) -> int {
    match m {
        ChromaticAdaptationMethod::Bradford => 1790016463355000int,
        ChromaticAdaptationMethod::VonKries => 575299315404896int,
        ChromaticAdaptationMethod::XyzScaling => 1000000000000000int,
    }
}

/// The dot product of a matrix row with a vector.
pub open spec fn spec_dot(row: Row3, v: (int, int, int)) -> int {
    row.0 * v.0 + row.1 * v.1 + row.2 * v.2
}

/// A matrix applied to a vector.
pub open spec fn spec_apply(m: Mat3, v: (int, int, int)) -> (int, int, int) {
    (spec_dot(m.0, v), spec_dot(m.1, v), spec_dot(m.2, v))
}

/// Division truncating toward zero, as the machine division does.
pub open spec fn spec_tdiv(n: int, d: int) -> int {
    if n >= 0 {
        n / d
    } else {
        -((-n) / d)
    }
}

/// One cone component scaled by the ratio of the destination and source
/// white responses; a degenerate source response of zero (which no real
/// white point produces) leaves the component unchanged.
pub open spec fn spec_ratio_scale(w: int, dst: int, src: int) -> int {
    if src <= 0 {
        w
    } else {
        spec_tdiv(w * dst, src)
    }
}

/// The cone response of an illuminant's white point under a method.
pub open spec fn spec_cone_white(m: ChromaticAdaptationMethod, i: Illuminant) -> (int, int, int) {
    let wp = spec_white_point(i);
    spec_apply(spec_cone_matrix(m), (wp.x as int, wp.y as int, wp.z as int))
}

/// An XYZ color adapted from the source to the destination illuminant: into
/// cone space, scaled by the white-response ratios, and back through the
/// exact inverse.
pub open spec fn spec_adapt(
    m: ChromaticAdaptationMethod,
    src: Illuminant,
    dst: Illuminant,
    v: Xyz,
) -> (int, int, int) {
    let w = spec_apply(spec_cone_matrix(m), (v.x as int, v.y as int, v.z as int));
    let cs = spec_cone_white(m, src);
    let cd = spec_cone_white(m, dst);
    let w1 = (
        spec_ratio_scale(w.0, cd.0, cs.0),
        spec_ratio_scale(w.1, cd.1, cs.1),
        spec_ratio_scale(w.2, cd.2, cs.2),
    );
    let adj = spec_cone_adjugate(m);
    let det = spec_cone_determinant(m);
    (
        spec_tdiv(spec_dot(adj.0, w1), det),
        spec_tdiv(spec_dot(adj.1, w1), det),
        spec_tdiv(spec_dot(adj.2, w1), det),
    )
}

impl ChromaticAdaptationMethod {
    /// The cone-response matrix, with every entry within twice the scale.
    pub fn cone_matrix(&self) -> (r: Mat3)
        ensures
            r == spec_cone_matrix(*self),
            row_bounded(r.0, 2 * CONE_SCALE as int),
            row_bounded(r.1, 2 * CONE_SCALE as int),
            row_bounded(r.2, 2 * CONE_SCALE as int),
    {
        match *self {
            ChromaticAdaptationMethod::Bradford => (
                (89510i64, 26640i64, -16140i64),
                (-75020i64, 171350i64, 3670i64),
                (3890i64, -6850i64, 102960i64),
            ),
            ChromaticAdaptationMethod::VonKries => (
                (40024i64, 70760i64, -8081i64),
                (-22630i64, 116532i64, 4570i64),
                (0i64, 0i64, 91822i64),
            ),
            ChromaticAdaptationMethod::XyzScaling => (
                (100000i64, 0i64, 0i64),
                (0i64, 100000i64, 0i64),
                (0i64, 0i64, 100000i64),
            ),
        }
    }

    /// The adjugate of the cone matrix and its determinant.
    pub fn cone_inverse(&self) -> (r: (Mat3, i64))
        ensures
            r.0 == spec_cone_adjugate(*self),
            r.1 == spec_cone_determinant(*self),
            row_bounded(r.0.0, 20000000000),
            row_bounded(r.0.1, 20000000000),
            row_bounded(r.0.2, 20000000000),
            500000000000000 <= r.1 <= 2000000000000000,
    {
        match *self {
            ChromaticAdaptationMethod::Bradford => (
                (
                    (17667335500i64, -2632295400i64, 2863357800i64),
                    (7738335500i64, 9278734200i64, 882321100i64),
                    (-152664500i64, 716773100i64, 17336071300i64),
                ),
                1790016463355000i64,
            ),
            ChromaticAdaptationMethod::VonKries => (
                (
                    (10700201304i64, -6497324720i64, 1265068292i64),
                    (2077931860i64, 3675083728i64, -36650i64),
                    (0i64, 0i64, 6265375568i64),
                ),
                575299315404896i64,
            ),
            ChromaticAdaptationMethod::XyzScaling => (
                (
                    (10000000000i64, 0i64, 0i64),
                    (0i64, 10000000000i64, 0i64),
                    (0i64, 0i64, 10000000000i64),
                ),
                1000000000000000i64,
            ),
        }
    }
}

impl Default for ChromaticAdaptationMethod {
    /// The Bradford transform.
    fn default() -> (r: Self)
        ensures
            r == ChromaticAdaptationMethod::Bradford,
    {
        ChromaticAdaptationMethod::Bradford
    }
}

/// Every entry of the row lies within `b` in magnitude.
pub open spec fn row_bounded(row: Row3, b: int) -> bool {
    -b <= row.0 <= b && -b <= row.1 <= b && -b <= row.2 <= b
}

/// Truncating division of a bounded dividend by a positive divisor.
pub(crate) fn tdiv(n: i128, d: i128) -> (r: i128)
    requires
        d > 0,
        -0x40000000000000000000000000000000 < n < 0x40000000000000000000000000000000,
    ensures
        r == spec_tdiv(n as int, d as int),
{
    if n >= 0 {
        (((n as u128)) / (d as u128)) as i128
    } else {
        -((((-n) as u128) / (d as u128)) as i128)
    }
}

/// Truncating division keeps a quotient bound: `|n| <= b * d` gives
/// `|n / d| <= b`.
pub(crate) proof fn lemma_tdiv_bound(n: int, d: int, b: int)
    requires
        d > 0,
        b >= 0,
        -(b * d) <= n <= b * d,
    ensures
        -b <= spec_tdiv(n, d) <= b,
{
    if n >= 0 {
        vstd::arithmetic::div_mod::lemma_div_is_ordered(n, b * d, d);
        assert((b * d) / d == b) by (nonlinear_arith)
            requires
                d > 0,
        ;
        vstd::arithmetic::div_mod::lemma_div_pos_is_pos(n, d);
    } else {
        vstd::arithmetic::div_mod::lemma_div_is_ordered(-n, b * d, d);
        assert((b * d) / d == b) by (nonlinear_arith)
            requires
                d > 0,
        ;
        vstd::arithmetic::div_mod::lemma_div_pos_is_pos(-n, d);
    }
}

/// The dot product of a row and vector bounded by `rb` and `vb` stays within
/// `3 * rb * vb`.
proof fn lemma_dot_bound(row: Row3, v: (int, int, int), rb: int, vb: int)
    requires
        row_bounded(row, rb),
        rb >= 0,
        vb >= 0,
        -vb <= v.0 <= vb,
        -vb <= v.1 <= vb,
        -vb <= v.2 <= vb,
    ensures
        -3 * (rb * vb) <= spec_dot(row, v) <= 3 * (rb * vb),
{
    assert(-(rb * vb) <= row.0 * v.0 <= rb * vb) by (nonlinear_arith)
        requires
            -rb <= row.0 <= rb && -vb <= v.0 <= vb && rb >= 0 && vb >= 0,
    ;
    assert(-(rb * vb) <= row.1 * v.1 <= rb * vb) by (nonlinear_arith)
        requires
            -rb <= row.1 <= rb && -vb <= v.1 <= vb && rb >= 0 && vb >= 0,
    ;
    assert(-(rb * vb) <= row.2 * v.2 <= rb * vb) by (nonlinear_arith)
        requires
            -rb <= row.2 <= rb && -vb <= v.2 <= vb && rb >= 0 && vb >= 0,
    ;
}

/// The cone response of a matrix row on a vector, in 128-bit arithmetic.
pub(crate) fn dot(row: Row3, v: (i128, i128, i128), vb: Ghost<int>, rb: Ghost<int>) -> (r: i128)
    requires
        row_bounded(row, rb@),
        rb@ >= 0,
        vb@ >= 0,
        -vb@ <= v.0 <= vb@,
        -vb@ <= v.1 <= vb@,
        -vb@ <= v.2 <= vb@,
        3 * (rb@ * vb@) < 0x10000000000000000000000000000000,
    ensures
        r == spec_dot(row, (v.0 as int, v.1 as int, v.2 as int)),
        -3 * (rb@ * vb@) <= r <= 3 * (rb@ * vb@),
{
    proof {
        lemma_dot_bound(row, (v.0 as int, v.1 as int, v.2 as int), rb@, vb@);
        assert(-(rb@ * vb@) <= (row.0 as int) * v.0 <= rb@ * vb@) by (nonlinear_arith)
            requires
                -rb@ <= row.0 <= rb@ && -vb@ <= v.0 <= vb@ && rb@ >= 0 && vb@ >= 0,
        ;
        assert(-(rb@ * vb@) <= (row.1 as int) * v.1 <= rb@ * vb@) by (nonlinear_arith)
            requires
                -rb@ <= row.1 <= rb@ && -vb@ <= v.1 <= vb@ && rb@ >= 0 && vb@ >= 0,
        ;
        assert(-(rb@ * vb@) <= (row.2 as int) * v.2 <= rb@ * vb@) by (nonlinear_arith)
            requires
                -rb@ <= row.2 <= rb@ && -vb@ <= v.2 <= vb@ && rb@ >= 0 && vb@ >= 0,
        ;
    }
    (row.0 as i128) * v.0 + (row.1 as i128) * v.1 + (row.2 as i128) * v.2
}

/// The cone response of an illuminant's white point, each component between
/// a quarter and four times the white scale.
fn cone_white(m: ChromaticAdaptationMethod, i: Illuminant) -> (r: (i128, i128, i128))
    ensures
        (r.0 as int, r.1 as int, r.2 as int) == spec_cone_white(m, i),
        76500000000 <= r.0 <= 1224000000000,
        76500000000 <= r.1 <= 1224000000000,
        76500000000 <= r.2 <= 1224000000000,
{
    let mat = m.cone_matrix();
    let wp = i.white_point();
    let v = (wp.x() as i128, wp.y() as i128, wp.z() as i128);
    let r0 = dot(mat.0, v, Ghost(4000000int), Ghost(200000int));
    let r1 = dot(mat.1, v, Ghost(4000000int), Ghost(200000int));
    let r2 = dot(mat.2, v, Ghost(4000000int), Ghost(200000int));
    (r0, r1, r2)
}

/// Adapts an XYZ color from the source to the destination illuminant with
/// the chosen method. The result follows the exact fixed-point formula; in
/// particular, adapting to the source illuminant itself is the identity.
pub fn adapt(
    v: Xyz,
    src: Illuminant,
    dst: Illuminant,
    method: ChromaticAdaptationMethod,
) -> (r: Xyz)
    requires
        v.wf(),
    ensures
        (r.x as int, r.y as int, r.z as int) == spec_adapt(method, src, dst, v),
{
    let mat = method.cone_matrix();
    let vv = (v.x() as i128, v.y() as i128, v.z() as i128);
    let w0 = dot(mat.0, vv, Ghost(6120000int), Ghost(200000int));
    let w1 = dot(mat.1, vv, Ghost(6120000int), Ghost(200000int));
    let w2 = dot(mat.2, vv, Ghost(6120000int), Ghost(200000int));
    let cs = cone_white(method, src);
    let cd = cone_white(method, dst);
    let a0 = ratio_scale(w0, cd.0, cs.0);
    let a1 = ratio_scale(w1, cd.1, cs.1);
    let a2 = ratio_scale(w2, cd.2, cs.2);
    let (adj, det) = method.cone_inverse();
    let av = (a0, a1, a2);
    let o0 = back_component(adj.0, av, det);
    let o1 = back_component(adj.1, av, det);
    let o2 = back_component(adj.2, av, det);
    Xyz { x: o0, y: o1, z: o2 }
}

/// One cone component scaled by the white-response ratio.
fn ratio_scale(w: i128, dst: i128, src: i128) -> (r: i128)
    requires
        -3700000000000 <= w <= 3700000000000,
        76500000000 <= dst <= 1224000000000,
        76500000000 <= src <= 1224000000000,
    ensures
        r == spec_ratio_scale(w as int, dst as int, src as int),
        -64000000000000 <= r <= 64000000000000,
    {
        proof {
            assert(-(3700000000000int * 1224000000000int) <= (w as int) * (dst as int) <= 3700000000000int
                * 1224000000000int) by (nonlinear_arith)
                requires
                    -3700000000000 <= w <= 3700000000000 && 76500000000 <= dst <= 1224000000000,
            ;
            assert(3700000000000int * 1224000000000int <= 64000000000000int * (src as int))
                by (nonlinear_arith)
                requires
                    src >= 76500000000,
            ;
            lemma_tdiv_bound((w as int) * (dst as int), src as int, 64000000000000int);
        }
        tdiv(w * dst, src)
    }

/// One output component: the adjugate row applied to the scaled cone
/// vector, divided by the determinant.
fn back_component(row: Row3, v: (i128, i128, i128), det: i64) -> (r: i64)
    requires
        row_bounded(row, 20000000000),
        -64000000000000 <= v.0 <= 64000000000000,
        -64000000000000 <= v.1 <= 64000000000000,
        -64000000000000 <= v.2 <= 64000000000000,
        500000000000000 <= det <= 2000000000000000,
    ensures
        r as int == spec_tdiv(spec_dot(row, (v.0 as int, v.1 as int, v.2 as int)), det as int),
{
    let d = dot(row, v, Ghost(64000000000000int), Ghost(20000000000int));
    proof {
        assert(3 * (20000000000int * 64000000000000int) <= 8000000000int * (det as int))
            by (nonlinear_arith)
            requires
                det >= 500000000000000,
        ;
        lemma_tdiv_bound(d as int, det as int, 8000000000int);
    }
    let q = tdiv(d, det as i128);
    q as i64
}

/// Adapting a color to the very illuminant it is already under returns it
/// unchanged, whatever the method: the white-response ratios are all one and
/// the exact inverse cancels the cone matrix.
pub proof fn lemma_adaptation_identity(
    m: ChromaticAdaptationMethod,
    i: Illuminant,
    v: Xyz,
)
    ensures
        spec_adapt(m, i, i, v) == (v.x as int, v.y as int, v.z as int),
{
    let mat = spec_cone_matrix(m);
    let w = spec_apply(mat, (v.x as int, v.y as int, v.z as int));
    let c = spec_cone_white(m, i);
    lemma_ratio_identity(w.0, c.0);
    lemma_ratio_identity(w.1, c.1);
    lemma_ratio_identity(w.2, c.2);
    let adj = spec_cone_adjugate(m);
    let det = spec_cone_determinant(m);
    lemma_adjugate_cancels(m, (v.x as int, v.y as int, v.z as int));
    lemma_exact_div(v.x as int, det);
    lemma_exact_div(v.y as int, det);
    lemma_exact_div(v.z as int, det);
}

/// Scaling by a ratio of a value with itself changes nothing.
proof fn lemma_ratio_identity(w: int, c: int)
    ensures
        spec_ratio_scale(w, c, c) == w,
{
    if c > 0 {
        if w >= 0 {
            vstd::arithmetic::div_mod::lemma_div_multiples_vanish(w, c);
        } else {
            vstd::arithmetic::div_mod::lemma_div_multiples_vanish(-w, c);
            assert(-(w * c) == (-w) * c) by (nonlinear_arith);
        }
    }
}

/// The adjugate row times the cone image of a vector gives the determinant
/// times the matching component: `adj * M == det * I`.
proof fn lemma_adjugate_cancels(m: ChromaticAdaptationMethod, v: (int, int, int))
    ensures
        spec_dot(spec_cone_adjugate(m).0, spec_apply(spec_cone_matrix(m), v))
            == spec_cone_determinant(m) * v.0,
        spec_dot(spec_cone_adjugate(m).1, spec_apply(spec_cone_matrix(m), v))
            == spec_cone_determinant(m) * v.1,
        spec_dot(spec_cone_adjugate(m).2, spec_apply(spec_cone_matrix(m), v))
            == spec_cone_determinant(m) * v.2,
{
    let mat = spec_cone_matrix(m);
    let adj = spec_cone_adjugate(m);
    let det = spec_cone_determinant(m);
    lemma_adjugate_row(adj.0, mat, v, (det, 0, 0));
    lemma_adjugate_row(adj.1, mat, v, (0, det, 0));
    lemma_adjugate_row(adj.2, mat, v, (0, 0, det));
}

/// A row whose products with the matrix columns are known combines linearly
/// over any vector.
proof fn lemma_adjugate_row(row: Row3, mat: Mat3, v: (int, int, int), cols: (int, int, int))
    requires
        row.0 * mat.0.0 + row.1 * mat.1.0 + row.2 * mat.2.0 == cols.0,
        row.0 * mat.0.1 + row.1 * mat.1.1 + row.2 * mat.2.1 == cols.1,
        row.0 * mat.0.2 + row.1 * mat.1.2 + row.2 * mat.2.2 == cols.2,
    ensures
        spec_dot(row, spec_apply(mat, v)) == cols.0 * v.0 + cols.1 * v.1 + cols.2 * v.2,
{
    lemma_distribute3(row.0 as int, mat.0.0 as int, mat.0.1 as int, mat.0.2 as int, v);
    lemma_distribute3(row.1 as int, mat.1.0 as int, mat.1.1 as int, mat.1.2 as int, v);
    lemma_distribute3(row.2 as int, mat.2.0 as int, mat.2.1 as int, mat.2.2 as int, v);
    lemma_collect3(row.0 * mat.0.0, row.1 * mat.1.0, row.2 * mat.2.0, v.0);
    lemma_collect3(row.0 * mat.0.1, row.1 * mat.1.1, row.2 * mat.2.1, v.1);
    lemma_collect3(row.0 * mat.0.2, row.1 * mat.1.2, row.2 * mat.2.2, v.2);
}

/// A factor distributes over a three-term dot product.
proof fn lemma_distribute3(a: int, b0: int, b1: int, b2: int, v: (int, int, int))
    ensures
        a * (b0 * v.0 + b1 * v.1 + b2 * v.2) == (a * b0) * v.0 + (a * b1) * v.1 + (a * b2) * v.2,
{
    vstd::arithmetic::mul::lemma_mul_is_distributive_add(a, b0 * v.0 + b1 * v.1, b2 * v.2);
    vstd::arithmetic::mul::lemma_mul_is_distributive_add(a, b0 * v.0, b1 * v.1);
    vstd::arithmetic::mul::lemma_mul_is_associative(a, b0, v.0);
    vstd::arithmetic::mul::lemma_mul_is_associative(a, b1, v.1);
    vstd::arithmetic::mul::lemma_mul_is_associative(a, b2, v.2);
}

/// Three products with a common factor collect into one.
proof fn lemma_collect3(c0: int, c1: int, c2: int, x: int)
    ensures
        c0 * x + c1 * x + c2 * x == (c0 + c1 + c2) * x,
{
    vstd::arithmetic::mul::lemma_mul_is_distributive_add_other_way(x, c0 + c1, c2);
    vstd::arithmetic::mul::lemma_mul_is_distributive_add_other_way(x, c0, c1);
}

/// Dividing an exact multiple of the determinant recovers the factor.
proof fn lemma_exact_div(x: int, det: int)
    requires
        det > 0,
    ensures
        spec_tdiv(det * x, det) == x,
{
    if x >= 0 {
        assert(det * x >= 0) by (nonlinear_arith)
            requires
                det > 0 && x >= 0,
        ;
        vstd::arithmetic::div_mod::lemma_div_multiples_vanish(x, det);
    } else {
        assert(det * x < 0) by (nonlinear_arith)
            requires
                det > 0 && x < 0,
        ;
        assert(-(det * x) == det * (-x)) by (nonlinear_arith);
        vstd::arithmetic::div_mod::lemma_div_multiples_vanish(-x, det);
    }
}

} // verus!
