//! Vectors of the plane: the exact ones that contracts speak of, and the
//! fixed-point ones that the simulation stores.

use vstd::prelude::*;
use crate::scalar::{
    ceil_sqrt, isqrt_ceil, lemma_ceil_sqrt, lemma_quotient_magnitude, magnitude, quotient, SCALE,
};

verus! {

/// By how much a short vector is magnified before its length is taken, and
/// the length from which on a vector is taken as it is. The length of every
/// vector is thus known to a billionth of its own size or better.
pub const FINE: i64 = 1_000_000_000;

/// A vector of the plane with whole-number coordinates of any size.
pub struct Vector {
    pub x: int,
    pub y: int,
}

impl Vector {
    /// The vector of length zero.
    pub open spec fn zero() -> Vector {
        Vector { x: 0, y: 0 }
    }

    /// The sum of two vectors.
    pub open spec fn plus(self, other: Vector) -> Vector {
        Vector { x: self.x + other.x, y: self.y + other.y }
    }

    /// The difference of two vectors.
    pub open spec fn minus(self, other: Vector) -> Vector {
        Vector { x: self.x - other.x, y: self.y - other.y }
    }

    /// The square of the vector's length.
    pub open spec fn norm_squared(self) -> int {
        self.x * self.x + self.y * self.y
    }

    /// The scalar product with `other`.
    pub open spec fn dot(self, other: Vector) -> int {
        self.x * other.x + self.y * other.y
    }

    /// Both coordinates divided by `divisor`, each rounded toward zero.
    pub open spec fn divided_by(self, divisor: int) -> Vector {
        Vector { x: quotient(self.x, divisor), y: quotient(self.y, divisor) }
    }

    /// The vector itself where it is at least [`FINE`] long, else the vector
    /// magnified by [`FINE`]. It points the way `self` does.
    pub open spec fn magnified(self) -> Vector {
        if self.norm_squared() < FINE * FINE {
            Vector { x: self.x * FINE, y: self.y * FINE }
        } else {
            self
        }
    }

    /// The vector that points the way `self` does and has the length
    /// `length`: each coordinate of the magnified vector times `length`,
    /// divided by the magnified vector's length rounded up, rounded toward
    /// zero. The zero vector stays what it is.
    pub open spec fn stretched_to(self, length: int) -> Vector {
        if self == Vector::zero() {
            Vector::zero()
        } else {
            let large = self.magnified();
            Vector { x: large.x * length, y: large.y * length }.divided_by(
                ceil_sqrt(large.norm_squared()),
            )
        }
    }

    /// The vector of length one that points the way `self` does, or the zero
    /// vector where `self` has no direction. Length one means [`SCALE`], and
    /// rounding may take up to two millionths off it.
    pub open spec fn unit_or_zero(self) -> Vector {
        self.stretched_to(SCALE as int)
    }

    /// Whether both coordinates lie between `-bound` and `bound`.
    pub open spec fn within(self, bound: int) -> bool {
        -bound <= self.x <= bound && -bound <= self.y <= bound
    }
}

/// A fixed-point vector of the plane.
#[derive(Clone, Copy, Debug, PartialEq, Eq, Structural)]
pub struct Vec2 {
    pub x: i64,
    pub y: i64,
}

impl View for Vec2 {
    type V = Vector;

    open spec fn view(&self) -> Vector {
        Vector { x: self.x as int, y: self.y as int }
    }
}

/// The magnified form of a vector other than zero is at least [`FINE`] long
/// and has the signs of the vector on both axes.
pub proof fn lemma_magnified(v: Vector)
    requires
        v != Vector::zero(),
    ensures
        v.magnified().norm_squared() >= FINE * FINE,
        ceil_sqrt(v.magnified().norm_squared()) >= FINE,
        v.x > 0 <==> v.magnified().x > 0,
        v.x < 0 <==> v.magnified().x < 0,
        v.y > 0 <==> v.magnified().y > 0,
        v.y < 0 <==> v.magnified().y < 0,
{
    let fine: int = FINE as int;
    let norm: int = v.norm_squared();
    assert(norm >= 1) by (nonlinear_arith)
        requires
            norm == v.x * v.x + v.y * v.y,
            v.x != 0 || v.y != 0,
    ;
    let large = v.magnified();
    if norm < FINE * FINE {
        assert(large.norm_squared() == norm * (fine * fine)) by (nonlinear_arith)
            requires
                large.norm_squared() == (v.x * fine) * (v.x * fine) + (v.y * fine) * (v.y * fine),
                norm == v.x * v.x + v.y * v.y,
        ;
        assert(norm * (fine * fine) >= fine * fine) by (nonlinear_arith)
            requires
                norm >= 1,
        ;
        assert((v.x > 0 <==> v.x * fine > 0) && (v.x < 0 <==> v.x * fine < 0))
            by (nonlinear_arith)
            requires
                fine > 0,
        ;
        assert((v.y > 0 <==> v.y * fine > 0) && (v.y < 0 <==> v.y * fine < 0))
            by (nonlinear_arith)
            requires
                fine > 0,
        ;
    }
    let wide: int = large.norm_squared();
    lemma_ceil_sqrt(wide);
    let root: int = ceil_sqrt(wide);
    assert(root >= fine) by (nonlinear_arith)
        requires
            0 <= root,
            0 < fine,
            fine * fine <= root * root,
    ;
}

/// A stretched vector is no longer than the length asked for, and neither of
/// its coordinates has changed its sign.
pub proof fn lemma_stretched_to(v: Vector, length: int)
    requires
        0 <= length,
    ensures
        v.stretched_to(length).norm_squared() <= length * length,
        v.stretched_to(length).within(length),
        v.x >= 0 ==> v.stretched_to(length).x >= 0,
        v.x <= 0 ==> v.stretched_to(length).x <= 0,
        v.y >= 0 ==> v.stretched_to(length).y >= 0,
        v.y <= 0 ==> v.stretched_to(length).y <= 0,
{
    let out = v.stretched_to(length);
    if v == Vector::zero() {
        assert(length * length >= 0) by (nonlinear_arith);
        assert(out == Vector::zero());
        assert(out.norm_squared() == 0) by (nonlinear_arith)
            requires
                out.norm_squared() == out.x * out.x + out.y * out.y,
                out.x == 0,
                out.y == 0,
        ;
    } else {
        lemma_magnified(v);
        let large = v.magnified();
        let norm: int = large.norm_squared();
        lemma_ceil_sqrt(norm);
        let root: int = ceil_sqrt(norm);
        lemma_quotient_magnitude(large.x * length, root);
        lemma_quotient_magnitude(large.y * length, root);
        assert((large.x >= 0 ==> large.x * length >= 0) && (large.x <= 0 ==> large.x * length
            <= 0)) by (nonlinear_arith)
            requires
                0 <= length,
        ;
        assert((large.y >= 0 ==> large.y * length >= 0) && (large.y <= 0 ==> large.y * length
            <= 0)) by (nonlinear_arith)
            requires
                0 <= length,
        ;
        let a: int = magnitude(large.x);
        let b: int = magnitude(large.y);
        let p: int = magnitude(out.x);
        let q: int = magnitude(out.y);
        assert(magnitude(large.x * length) == a * length) by (nonlinear_arith)
            requires
                0 <= length,
                a == magnitude(large.x),
        ;
        assert(magnitude(large.y * length) == b * length) by (nonlinear_arith)
            requires
                0 <= length,
                b == magnitude(large.y),
        ;
        assert(a * a + b * b == norm) by (nonlinear_arith)
            requires
                norm == large.x * large.x + large.y * large.y,
                a == magnitude(large.x),
                b == magnitude(large.y),
        ;
        assert(p * p + q * q == out.norm_squared()) by (nonlinear_arith)
            requires
                out.norm_squared() == out.x * out.x + out.y * out.y,
                p == magnitude(out.x),
                q == magnitude(out.y),
        ;
        lemma_scaled_down_pair(a, b, p, q, root, length);
        assert(out.norm_squared() <= length * length);
    }
}

/// If `p` and `q` are `a` and `b` scaled by `length / root` and rounded down,
/// and `root` is at least as long as `(a, b)`, then `(p, q)` is no longer than
/// `length`.
proof fn lemma_scaled_down_pair(a: int, b: int, p: int, q: int, root: int, length: int)
    requires
        0 <= a,
        0 <= b,
        0 <= p,
        0 <= q,
        0 < root,
        0 <= length,
        a * a + b * b <= root * root,
        p * root <= a * length,
        q * root <= b * length,
    ensures
        p * p + q * q <= length * length,
        p <= length,
        q <= length,
{
    assert((p * root) * (p * root) <= (a * length) * (a * length)) by (nonlinear_arith)
        requires
            0 <= p * root <= a * length,
    ;
    assert((q * root) * (q * root) <= (b * length) * (b * length)) by (nonlinear_arith)
        requires
            0 <= q * root <= b * length,
    ;
    assert((p * p + q * q) * (root * root) == (p * root) * (p * root) + (q * root) * (q * root))
        by (nonlinear_arith);
    assert((a * length) * (a * length) + (b * length) * (b * length) == (a * a + b * b) * (length
        * length)) by (nonlinear_arith);
    assert((a * a + b * b) * (length * length) <= (root * root) * (length * length))
        by (nonlinear_arith)
        requires
            a * a + b * b <= root * root,
            0 <= length * length,
    ;
    assert(0 <= length * length) by (nonlinear_arith);
    let s: int = p * p + q * q;
    let r2: int = root * root;
    let l2: int = length * length;
    assert(s * r2 <= l2 * r2) by (nonlinear_arith)
        requires
            s * r2 <= r2 * l2,
    ;
    assert(r2 > 0) by (nonlinear_arith)
        requires
            r2 == root * root,
            0 < root,
    ;
    assert(s <= l2) by (nonlinear_arith)
        requires
            s * r2 <= l2 * r2,
            r2 > 0,
    ;
    assert(p * p <= s && q * q <= s) by (nonlinear_arith)
        requires
            s == p * p + q * q,
    ;
    assert(p <= length) by (nonlinear_arith)
        requires
            p * p <= length * length,
            0 <= p,
            0 <= length,
    ;
    assert(q <= length) by (nonlinear_arith)
        requires
            q * q <= length * length,
            0 <= q,
            0 <= length,
    ;
}

/// If `p` and `q` are `a` and `b` scaled by `length / root` and rounded down,
/// and `root` is the length of `(a, b)` rounded up and at least twice
/// `length`, then `(p, q)` is shorter than `length` by two at most.
proof fn lemma_scaled_pair_reaches(a: int, b: int, p: int, q: int, root: int, length: int)
    requires
        0 <= a,
        0 <= b,
        0 <= p,
        0 <= q,
        2 <= length,
        2 * length <= root,
        (root - 1) * (root - 1) < a * a + b * b,
        a * length < (p + 1) * root,
        b * length < (q + 1) * root,
    ensures
        (length - 2) * (length - 2) <= p * p + q * q,
{
    let reach: int = (p + 1) * (p + 1) + (q + 1) * (q + 1);
    let square: int = length * length;
    let wide: int = root * root;
    let under: int = (root - 1) * (root - 1);
    let span: int = a * a + b * b;
    assert(0 <= a * length) by (nonlinear_arith)
        requires
            0 <= a,
            0 <= length,
    ;
    assert(0 <= b * length) by (nonlinear_arith)
        requires
            0 <= b,
            0 <= length,
    ;
    assert(0 <= square) by (nonlinear_arith)
        requires
            square == length * length,
    ;
    assert(0 < wide) by (nonlinear_arith)
        requires
            wide == root * root,
            0 < root,
    ;
    assert((a * length) * (a * length) < ((p + 1) * root) * ((p + 1) * root))
        by (nonlinear_arith)
        requires
            0 <= a * length < (p + 1) * root,
    ;
    assert((b * length) * (b * length) < ((q + 1) * root) * ((q + 1) * root))
        by (nonlinear_arith)
        requires
            0 <= b * length < (q + 1) * root,
    ;
    assert(reach * wide == ((p + 1) * root) * ((p + 1) * root) + ((q + 1) * root) * ((q + 1)
        * root)) by (nonlinear_arith)
        requires
            reach == (p + 1) * (p + 1) + (q + 1) * (q + 1),
            wide == root * root,
    ;
    assert((a * length) * (a * length) + (b * length) * (b * length) == span * square)
        by (nonlinear_arith)
        requires
            square == length * length,
            span == a * a + b * b,
    ;
    assert(under * square <= span * square) by (nonlinear_arith)
        requires
            under < span,
            0 <= square,
    ;
    assert(under * square < reach * wide);
    assert(wide >= (2 * root - 1) * length) by (nonlinear_arith)
        requires
            wide == root * root,
            2 <= length,
            2 * length <= root,
    ;
    assert(under * square - (square - length) * wide == length * (wide - (2 * root - 1) * length))
        by (nonlinear_arith)
        requires
            under == (root - 1) * (root - 1),
            square == length * length,
            wide == root * root,
    ;
    assert(length * (wide - (2 * root - 1) * length) >= 0) by (nonlinear_arith)
        requires
            length >= 0,
            wide - (2 * root - 1) * length >= 0,
    ;
    assert((square - length) * wide < reach * wide);
    assert(square - length < reach) by (nonlinear_arith)
        requires
            (square - length) * wide < reach * wide,
            0 < wide,
    ;
    let short: int = length - 2;
    let held: int = p * p + q * q;
    if held < short * short {
        assert((p + q) * (p + q) <= 2 * held) by (nonlinear_arith)
            requires
                held == p * p + q * q,
        ;
        assert(2 * (p + q) <= 3 * short + 1) by (nonlinear_arith)
            requires
                0 <= p + q,
                0 <= short,
                (p + q) * (p + q) <= 2 * (short * short) - 2,
        ;
        assert(reach == held + 2 * (p + q) + 2) by (nonlinear_arith)
            requires
                reach == (p + 1) * (p + 1) + (q + 1) * (q + 1),
                held == p * p + q * q,
        ;
        assert(short * short + 3 * short + 2 == square - length) by (nonlinear_arith)
            requires
                short == length - 2,
                square == length * length,
        ;
        assert(false);
    }
}

/// A vector other than zero, stretched to a length from two to half of
/// [`FINE`], comes out shorter than that length by two at most, and it makes
/// an acute angle with the vector it comes from.
pub proof fn lemma_stretched_reaches(v: Vector, length: int)
    requires
        v != Vector::zero(),
        2 <= length,
        2 * length <= FINE,
    ensures
        (length - 2) * (length - 2) <= v.stretched_to(length).norm_squared(),
        length >= 3 ==> v.stretched_to(length) != Vector::zero(),
        length >= 3 ==> v.stretched_to(length).dot(v) > 0,
{
    let out = v.stretched_to(length);
    lemma_magnified(v);
    lemma_stretched_to(v, length);
    let large = v.magnified();
    let norm: int = large.norm_squared();
    lemma_ceil_sqrt(norm);
    let root: int = ceil_sqrt(norm);
    lemma_quotient_magnitude(large.x * length, root);
    lemma_quotient_magnitude(large.y * length, root);
    let a: int = magnitude(large.x);
    let b: int = magnitude(large.y);
    let p: int = magnitude(out.x);
    let q: int = magnitude(out.y);
    assert(magnitude(large.x * length) == a * length) by (nonlinear_arith)
        requires
            0 <= length,
            a == magnitude(large.x),
    ;
    assert(magnitude(large.y * length) == b * length) by (nonlinear_arith)
        requires
            0 <= length,
            b == magnitude(large.y),
    ;
    assert(a * a + b * b == norm) by (nonlinear_arith)
        requires
            norm == large.x * large.x + large.y * large.y,
            a == magnitude(large.x),
            b == magnitude(large.y),
    ;
    assert(p * p + q * q == out.norm_squared()) by (nonlinear_arith)
        requires
            out.norm_squared() == out.x * out.x + out.y * out.y,
            p == magnitude(out.x),
            q == magnitude(out.y),
    ;
    lemma_scaled_pair_reaches(a, b, p, q, root, length);
    if length >= 3 {
        assert(0 < (length - 2) * (length - 2)) by (nonlinear_arith)
            requires
                length >= 3,
        ;
        assert(out.x != 0 || out.y != 0) by (nonlinear_arith)
            requires
                0 < out.x * out.x + out.y * out.y,
        ;
        assert(out.x * v.x >= 0 && (out.x != 0 ==> out.x * v.x > 0)) by (nonlinear_arith)
            requires
                v.x >= 0 ==> out.x >= 0,
                v.x <= 0 ==> out.x <= 0,
        ;
        assert(out.y * v.y >= 0 && (out.y != 0 ==> out.y * v.y > 0)) by (nonlinear_arith)
            requires
                v.y >= 0 ==> out.y >= 0,
                v.y <= 0 ==> out.y <= 0,
        ;
    }
}

/// The unit vector of a vector other than zero has, up to rounding, the
/// length one: its length is at most [`SCALE`] and at least two millionths
/// less.
pub proof fn lemma_unit_has_length_one(v: Vector)
    requires
        v != Vector::zero(),
    ensures
        (SCALE - 2) * (SCALE - 2) <= v.unit_or_zero().norm_squared() <= SCALE * SCALE,
        v.unit_or_zero().dot(v) > 0,
{
    lemma_stretched_to(v, SCALE as int);
    lemma_stretched_reaches(v, SCALE as int);
}

/// A vector along the first axis is stretched to exactly the length asked
/// for; so is one along the second axis.
pub proof fn lemma_stretched_along_axis(v: Vector, length: int)
    requires
        0 <= length,
        v.x == 0 || v.y == 0,
    ensures
        v.x > 0 ==> v.stretched_to(length) == (Vector { x: length, y: 0 }),
        v.x < 0 ==> v.stretched_to(length) == (Vector { x: -length, y: 0 }),
        v.y > 0 ==> v.stretched_to(length) == (Vector { x: 0, y: length }),
        v.y < 0 ==> v.stretched_to(length) == (Vector { x: 0, y: -length }),
{
    if v != Vector::zero() {
        lemma_magnified(v);
        let large = v.magnified();
        assert(large.x == 0 || large.y == 0);
        let side: int = if large.x != 0 {
            magnitude(large.x)
        } else {
            magnitude(large.y)
        };
        let norm: int = large.norm_squared();
        assert(norm == side * side) by (nonlinear_arith)
            requires
                norm == large.x * large.x + large.y * large.y,
                large.x == 0 || large.y == 0,
                side == (if large.x != 0 {
                    magnitude(large.x)
                } else {
                    magnitude(large.y)
                }),
        ;
        assert(norm > 0) by (nonlinear_arith)
            requires
                norm == side * side,
                side > 0,
        ;
        lemma_ceil_sqrt(norm);
        let root: int = ceil_sqrt(norm);
        assert(root == side) by (nonlinear_arith)
            requires
                side > 0,
                root > 0,
                side * side <= root * root,
                (root - 1) * (root - 1) < side * side,
        ;
        assert((side * length) / side == length) by (nonlinear_arith)
            requires
                side > 0,
                0 <= length,
        ;
        assert(0 * length == 0) by (nonlinear_arith);
        assert(0int / side == 0) by (nonlinear_arith)
            requires
                side > 0,
        ;
        assert(side * length >= 0) by (nonlinear_arith)
            requires
                side > 0,
                0 <= length,
        ;
        if large.x > 0 {
            assert(large.x * length == side * length);
        } else if large.x < 0 {
            assert(-(large.x * length) == side * length) by (nonlinear_arith)
                requires
                    side == -large.x,
            ;
        } else if large.y > 0 {
            assert(large.y * length == side * length);
        } else {
            assert(-(large.y * length) == side * length) by (nonlinear_arith)
                requires
                    side == -large.y,
            ;
        }
    }
}

impl Vec2 {
    /// The vector with the given coordinates.
    pub fn new(x: i64, y: i64) -> (v: Vec2)
        ensures
            v == (Vec2 { x, y }),
    {
        Vec2 { x, y }
    }

    /// The vector of length zero.
    pub fn zero() -> (v: Vec2)
        ensures
            v == (Vec2 { x: 0, y: 0 }),
            v@ == Vector::zero(),
    {
        Vec2 { x: 0, y: 0 }
    }

    /// The square of the vector's length.
    pub fn norm_squared(self) -> (norm: u128)
        ensures
            norm == self@.norm_squared(),
    {
        let a: u128 = if self.x < 0 {
            (-(self.x as i128)) as u128
        } else {
            self.x as u128
        };
        let b: u128 = if self.y < 0 {
            (-(self.y as i128)) as u128
        } else {
            self.y as u128
        };
        assert(a * a == self.x * self.x) by (nonlinear_arith)
            requires
                a == self.x || a == -self.x,
        ;
        assert(b * b == self.y * self.y) by (nonlinear_arith)
            requires
                b == self.y || b == -self.y,
        ;
        assert(a * a <= 0x8000_0000_0000_0000 * 0x8000_0000_0000_0000) by (nonlinear_arith)
            requires
                0 <= a <= 0x8000_0000_0000_0000,
        ;
        assert(b * b <= 0x8000_0000_0000_0000 * 0x8000_0000_0000_0000) by (nonlinear_arith)
            requires
                0 <= b <= 0x8000_0000_0000_0000,
        ;
        a * a + b * b
    }

    /// The vector itself where it is at least [`FINE`] long, else the vector
    /// magnified by [`FINE`]; with it the square of its length.
    fn magnified(self) -> (large: (i128, i128, u128))
        ensures
            large.0 == self@.magnified().x,
            large.1 == self@.magnified().y,
            large.2 == self@.magnified().norm_squared(),
            -0x8000_0000_0000_0000 <= large.0 <= 0x8000_0000_0000_0000,
            -0x8000_0000_0000_0000 <= large.1 <= 0x8000_0000_0000_0000,
    {
        let norm: u128 = self.norm_squared();
        if norm < 1_000_000_000_000_000_000 {
            let ghost fine: int = FINE as int;
            let ghost x: int = self.x as int;
            let ghost y: int = self.y as int;
            assert(-1_000_000_000 < x < 1_000_000_000) by (nonlinear_arith)
                requires
                    x * x + y * y < 1_000_000_000_000_000_000,
            ;
            assert(-1_000_000_000 < y < 1_000_000_000) by (nonlinear_arith)
                requires
                    x * x + y * y < 1_000_000_000_000_000_000,
            ;
            assert((x * fine) * (x * fine) + (y * fine) * (y * fine) == (x * x + y * y) * (fine
                * fine)) by (nonlinear_arith);
            assert(fine * fine == 1_000_000_000_000_000_000);
            assert(norm * 1_000_000_000_000_000_000 <= 1_000_000_000_000_000_000
                * 1_000_000_000_000_000_000) by (nonlinear_arith)
                requires
                    norm <= 1_000_000_000_000_000_000,
            ;
            (
                self.x as i128 * (FINE as i128),
                self.y as i128 * (FINE as i128),
                norm * 1_000_000_000_000_000_000,
            )
        } else {
            (self.x as i128, self.y as i128, norm)
        }
    }

    /// The vector that points the way `self` does and has the length
    /// `length`.
    pub fn stretched_to(self, length: i64) -> (out: Vec2)
        requires
            0 <= length,
        ensures
            out@ == self@.stretched_to(length as int),
    {
        if self.x == 0 && self.y == 0 {
            return Vec2::zero();
        }
        let (x, y, norm) = self.magnified();
        let root: i128 = isqrt_ceil(norm) as i128;
        proof {
            lemma_magnified(self@);
            lemma_ceil_sqrt(norm as int);
            lemma_stretched_to(self@, length as int);
        }
        assert(-0x8000_0000_0000_0000 * 0x8000_0000_0000_0000 <= x * length
            <= 0x8000_0000_0000_0000 * 0x8000_0000_0000_0000) by (nonlinear_arith)
            requires
                -0x8000_0000_0000_0000 <= x <= 0x8000_0000_0000_0000,
                0 <= length <= 0x8000_0000_0000_0000,
        ;
        assert(-0x8000_0000_0000_0000 * 0x8000_0000_0000_0000 <= y * length
            <= 0x8000_0000_0000_0000 * 0x8000_0000_0000_0000) by (nonlinear_arith)
            requires
                -0x8000_0000_0000_0000 <= y <= 0x8000_0000_0000_0000,
                0 <= length <= 0x8000_0000_0000_0000,
        ;
        Vec2 { x: ((x * length as i128) / root) as i64, y: ((y * length as i128) / root) as i64 }
    }
}

/// The vector of length one that points the way `vec` does, or the zero
/// vector where `vec` has no direction. A vector other than zero comes out
/// with a length between `SCALE - 2` and `SCALE`.
pub fn normalize_or_zero(vec: Vec2) -> (unit: Vec2)
    ensures
        unit@ == vec@.unit_or_zero(),
        unit@.norm_squared() <= SCALE * SCALE,
        vec@ != Vector::zero() ==> (SCALE - 2) * (SCALE - 2) <= unit@.norm_squared(),
        vec@ != Vector::zero() ==> unit@.dot(vec@) > 0,
        vec@ == Vector::zero() ==> unit@ == Vector::zero(),
{
    proof {
        lemma_stretched_to(vec@, SCALE as int);
        if vec@ != Vector::zero() {
            lemma_unit_has_length_one(vec@);
        }
    }
    vec.stretched_to(SCALE)
}

} // verus!
