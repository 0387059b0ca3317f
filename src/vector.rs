use vstd::prelude::*;

verus! {

/// Scale applied to each coordinate before rounding it into a weld key:
/// points that agree to about `1 / WELD_PRECISION` of a unit share a vertex.
/// This is the welding tolerance; raise it to weld less eagerly.
pub const WELD_PRECISION: u32 = 10000;

/// The quantized location of a point: each coordinate multiplied by the
/// weld precision and rounded to the nearest integer.
#[derive(Clone, Copy, Debug, PartialEq, Eq, Structural)]
pub struct WeldKey {
    pub x: i32,
    pub y: i32,
    pub z: i32,
}

/// A coordinate of the form `units + phis * φ`, where `φ = (1 + √5) / 2` is
/// the golden ratio. The corners of the base icosahedron have such
/// coordinates.
#[derive(Clone, Copy, Debug, PartialEq, Eq, Structural)]
pub struct GoldenCoord {
    pub units: i8,
    pub phis: i8,
}

/// The coordinate arithmetic the mesh builders need.
///
/// Each operation's result is named by a spec function of its arguments, and
/// the contracts of the mesh builders are stated over these names. That is
/// all an implementation promises: that each operation is a function of its
/// arguments. No property of the arithmetic itself (that a normalized vector
/// has unit length, say) is assumed.
pub trait MeshVector: Sized + Copy {
    /// The number type of a radius.
    type Scalar: Copy;

    spec fn spec_from_golden(x: GoldenCoord, y: GoldenCoord, z: GoldenCoord) -> Self;

    spec fn spec_zero() -> Self;

    spec fn spec_plus(self, other: Self) -> Self;

    spec fn spec_minus(self, other: Self) -> Self;

    spec fn spec_negated(self) -> Self;

    spec fn spec_divided_by(self, count: usize) -> Self;

    spec fn spec_lerp(self, other: Self, num: usize, den: usize) -> Self;

    spec fn spec_on_sphere(self, radius: Self::Scalar) -> Self;

    spec fn spec_normalized(self) -> Self;

    spec fn spec_cross(self, other: Self) -> Self;

    spec fn spec_dot_is_negative(self, other: Self) -> bool;

    spec fn spec_le_bytes(self) -> [u8; 12];

    spec fn spec_weld_key(self, precision: u32) -> WeldKey;

    /// The point with the given coordinates.
    fn from_golden(x: GoldenCoord, y: GoldenCoord, z: GoldenCoord) -> (r: Self)
        ensures
            r == Self::spec_from_golden(x, y, z),
    ;

    /// The zero vector.
    fn zero() -> (r: Self)
        ensures
            r == Self::spec_zero(),
    ;

    /// Component-wise sum.
    fn plus(&self, other: &Self) -> (r: Self)
        ensures
            r == self.spec_plus(*other),
    ;

    /// Component-wise difference `self - other`.
    fn minus(&self, other: &Self) -> (r: Self)
        ensures
            r == self.spec_minus(*other),
    ;

    /// The vector pointing the opposite way.
    fn negated(&self) -> (r: Self)
        ensures
            r == self.spec_negated(),
    ;

    /// Every component divided by `count`.
    fn divided_by(&self, count: usize) -> (r: Self)
        ensures
            r == self.spec_divided_by(count),
    ;

    /// The point a fraction `num / den` of the way from `self` to `other`.
    fn lerp(&self, other: &Self, num: usize, den: usize) -> (r: Self)
        ensures
            r == self.spec_lerp(*other, num, den),
    ;

    /// The point of length `radius` in the direction of `self`.
    fn on_sphere(&self, radius: Self::Scalar) -> (r: Self)
        ensures
            r == self.spec_on_sphere(radius),
    ;

    /// The vector of unit length in the direction of `self`.
    fn normalized(&self) -> (r: Self)
        ensures
            r == self.spec_normalized(),
    ;

    /// The cross product `self × other`.
    fn cross(&self, other: &Self) -> (r: Self)
        ensures
            r == self.spec_cross(*other),
    ;

    /// Whether the dot product of `self` and `other` is negative.
    fn dot_is_negative(&self, other: &Self) -> (r: bool)
        ensures
            r == self.spec_dot_is_negative(*other),
    ;

    /// The coordinates as three little-endian single-precision numbers.
    fn le_bytes(&self) -> (r: [u8; 12])
        ensures
            r == self.spec_le_bytes(),
    ;

    /// The weld key of the point at the given precision.
    fn weld_key(&self, precision: u32) -> (r: WeldKey)
        ensures
            r == self.spec_weld_key(precision),
    ;
}

} // verus!
