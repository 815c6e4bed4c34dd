//! Implementation of the **Vector** types over integer scalars.
use vstd::prelude::*;

verus! {

/// A 2-dimensional vector.
#[derive(Copy, Clone, Debug, PartialEq, Eq, Structural)]
pub struct Vector2<S> {
    pub x: S,
    pub y: S,
}

/// A 3-dimensional vector.
#[derive(Copy, Clone, Debug, PartialEq, Eq, Structural)]
pub struct Vector3<S> {
    pub x: S,
    pub y: S,
    pub z: S,
}

/// A 4-dimensional vector.
#[derive(Copy, Clone, Debug, PartialEq, Eq, Structural)]
pub struct Vector4<S> {
    pub x: S,
    pub y: S,
    pub z: S,
    pub w: S,
}

impl<S> Vector2<S> {

    /// Construct a new vector where each component is the result of applying the given
    /// operation to each of the components of this vector.
    pub fn map<U, F>(self, f: F) -> (r: Vector2<U>)
        where
            F: Fn(S) -> U,
        requires
            call_requires(f, (self.x,)),
            call_requires(f, (self.y,)),
        ensures
            call_ensures(f, (self.x,), r.x),
            call_ensures(f, (self.y,), r.y),
    {
        let x = f(self.x);
        let y = f(self.y);
        Vector2 { x, y }
    }

    /// Construct a new vector where each component is the result of applying the given
    /// operation to each pair of components of the given vectors.
    pub fn zip_map<T, U, F>(self, other: Vector2<T>, f: F) -> (r: Vector2<U>)
        where
            F: Fn(S, T) -> U,
        requires
            call_requires(f, (self.x, other.x)),
            call_requires(f, (self.y, other.y)),
        ensures
            call_ensures(f, (self.x, other.x), r.x),
            call_ensures(f, (self.y, other.y), r.y),
    {
        let x = f(self.x, other.x);
        let y = f(self.y, other.y);
        Vector2 { x, y }
    }
    /// Construct a new vector, using the provided values.
    pub fn new(x: S, y: S) -> (r: Self)
        ensures
            r.x == x,
            r.y == y,
    {
        Vector2 { x, y }
    }

    /// Construct a vector using the given value for each field.
    pub fn from_value(scalar: S) -> (r: Self)
        where
            S: Copy,
        ensures
            r.x == scalar,
            r.y == scalar,
    {
        Vector2 { x: scalar, y: scalar }
    }

    /// The number of dimensions in the vector.
    pub fn len(&self) -> (r: usize)
        ensures
            r == 2,
    {
        2
    }

    /// Create a `Vector3`, using the `x` and `y` values from this vector, and the
    /// provided `z`.
    pub fn extend(self, z: S) -> (r: Vector3<S>)
        ensures
            r.x == self.x,
            r.y == self.y,
            r.z == z,
    {
        Vector3::new(self.x, self.y, z)
    }
}

impl<S> Vector3<S> {

    /// Construct a new vector where each component is the result of applying the given
    /// operation to each of the components of this vector.
    pub fn map<U, F>(self, f: F) -> (r: Vector3<U>)
        where
            F: Fn(S) -> U,
        requires
            call_requires(f, (self.x,)),
            call_requires(f, (self.y,)),
            call_requires(f, (self.z,)),
        ensures
            call_ensures(f, (self.x,), r.x),
            call_ensures(f, (self.y,), r.y),
            call_ensures(f, (self.z,), r.z),
    {
        let x = f(self.x);
        let y = f(self.y);
        let z = f(self.z);
        Vector3 { x, y, z }
    }

    /// Construct a new vector where each component is the result of applying the given
    /// operation to each pair of components of the given vectors.
    pub fn zip_map<T, U, F>(self, other: Vector3<T>, f: F) -> (r: Vector3<U>)
        where
            F: Fn(S, T) -> U,
        requires
            call_requires(f, (self.x, other.x)),
            call_requires(f, (self.y, other.y)),
            call_requires(f, (self.z, other.z)),
        ensures
            call_ensures(f, (self.x, other.x), r.x),
            call_ensures(f, (self.y, other.y), r.y),
            call_ensures(f, (self.z, other.z), r.z),
    {
        let x = f(self.x, other.x);
        let y = f(self.y, other.y);
        let z = f(self.z, other.z);
        Vector3 { x, y, z }
    }
    /// Construct a new vector, using the provided values.
    pub fn new(x: S, y: S, z: S) -> (r: Self)
        ensures
            r.x == x,
            r.y == y,
            r.z == z,
    {
        Vector3 { x, y, z }
    }

    /// Construct a vector using the given value for each field.
    pub fn from_value(scalar: S) -> (r: Self)
        where
            S: Copy,
        ensures
            r.x == scalar,
            r.y == scalar,
            r.z == scalar,
    {
        Vector3 { x: scalar, y: scalar, z: scalar }
    }

    /// The number of dimensions in the vector.
    pub fn len(&self) -> (r: usize)
        ensures
            r == 3,
    {
        3
    }

    /// Create a `Vector4`, using the `x`, `y` and `z` values from this vector, and the
    /// provided `w`.
    pub fn extend(self, w: S) -> (r: Vector4<S>)
        ensures
            r.x == self.x,
            r.y == self.y,
            r.z == self.z,
            r.w == w,
    {
        Vector4::new(self.x, self.y, self.z, w)
    }

    /// Create a `Vector2`, dropping the `z` value.
    pub fn truncate(self) -> (r: Vector2<S>)
        ensures
            r.x == self.x,
            r.y == self.y,
    {
        Vector2::new(self.x, self.y)
    }
}

impl<S> Vector4<S> {

    /// Construct a new vector where each component is the result of applying the given
    /// operation to each of the components of this vector.
    pub fn map<U, F>(self, f: F) -> (r: Vector4<U>)
        where
            F: Fn(S) -> U,
        requires
            call_requires(f, (self.x,)),
            call_requires(f, (self.y,)),
            call_requires(f, (self.z,)),
            call_requires(f, (self.w,)),
        ensures
            call_ensures(f, (self.x,), r.x),
            call_ensures(f, (self.y,), r.y),
            call_ensures(f, (self.z,), r.z),
            call_ensures(f, (self.w,), r.w),
    {
        let x = f(self.x);
        let y = f(self.y);
        let z = f(self.z);
        let w = f(self.w);
        Vector4 { x, y, z, w }
    }

    /// Construct a new vector where each component is the result of applying the given
    /// operation to each pair of components of the given vectors.
    pub fn zip_map<T, U, F>(self, other: Vector4<T>, f: F) -> (r: Vector4<U>)
        where
            F: Fn(S, T) -> U,
        requires
            call_requires(f, (self.x, other.x)),
            call_requires(f, (self.y, other.y)),
            call_requires(f, (self.z, other.z)),
            call_requires(f, (self.w, other.w)),
        ensures
            call_ensures(f, (self.x, other.x), r.x),
            call_ensures(f, (self.y, other.y), r.y),
            call_ensures(f, (self.z, other.z), r.z),
            call_ensures(f, (self.w, other.w), r.w),
    {
        let x = f(self.x, other.x);
        let y = f(self.y, other.y);
        let z = f(self.z, other.z);
        let w = f(self.w, other.w);
        Vector4 { x, y, z, w }
    }
    /// Construct a new vector, using the provided values.
    pub fn new(x: S, y: S, z: S, w: S) -> (r: Self)
        ensures
            r.x == x,
            r.y == y,
            r.z == z,
            r.w == w,
    {
        Vector4 { x, y, z, w }
    }

    /// Construct a vector using the given value for each field.
    pub fn from_value(scalar: S) -> (r: Self)
        where
            S: Copy,
        ensures
            r.x == scalar,
            r.y == scalar,
            r.z == scalar,
            r.w == scalar,
    {
        Vector4 { x: scalar, y: scalar, z: scalar, w: scalar }
    }

    /// The number of dimensions in the vector.
    pub fn len(&self) -> (r: usize)
        ensures
            r == 4,
    {
        4
    }

    /// Create a `Vector3`, dropping the `w` value.
    pub fn truncate(self) -> (r: Vector3<S>)
        ensures
            r.x == self.x,
            r.y == self.y,
            r.z == self.z,
    {
        Vector3::new(self.x, self.y, self.z)
    }

    /// Create a `Vector3`, dropping the nth element.
    ///
    /// Any `n` outside `0..=3` is out of range; `requires` rules it out.
    pub fn truncate_n(&self, n: isize) -> (r: Vector3<S>)
        where
            S: Copy,
        requires
            0 <= n <= 3,
        ensures
            n == 0 ==> (r == Vector3::<S> { x: self.y, y: self.z, z: self.w }),
            n == 1 ==> (r == Vector3::<S> { x: self.x, y: self.z, z: self.w }),
            n == 2 ==> (r == Vector3::<S> { x: self.x, y: self.y, z: self.w }),
            n == 3 ==> (r == Vector3::<S> { x: self.x, y: self.y, z: self.z }),
    {
        if n == 0 {
            Vector3::new(self.y, self.z, self.w)
        } else if n == 1 {
            Vector3::new(self.x, self.z, self.w)
        } else if n == 2 {
            Vector3::new(self.x, self.y, self.w)
        } else {
            Vector3::new(self.x, self.y, self.z)
        }
    }
}

/// The integer scalar used by the arithmetic on vectors.
pub type Scalar = i64;

/// Whether `v` fits the scalar type.
pub open spec fn in_scalar_range(v: int) -> bool {
    i64::MIN <= v <= i64::MAX
}

/// The perpendicular dot product of two 2D vectors.
pub open spec fn spec_perp_dot(a: Vector2<Scalar>, b: Vector2<Scalar>) -> int {
    a.x * b.y - a.y * b.x
}

/// The cross product of two 3D vectors, as mathematical integers.
pub open spec fn spec_cross(a: Vector3<Scalar>, b: Vector3<Scalar>) -> (int, int, int) {
    (a.y * b.z - a.z * b.y, a.z * b.x - a.x * b.z, a.x * b.y - a.y * b.x)
}

impl Vector2<Scalar> {
    /// A zeroed vector.
    pub fn zero() -> (r: Self)
        ensures
            r.x == 0 && r.y == 0,
    {
        Vector2 { x: 0, y: 0 }
    }

    /// Whether or not the vector is zeroed.
    pub fn is_zero(&self) -> (r: bool)
        ensures
            r == (self.x == 0 && self.y == 0),
    {
        self.x == 0 && self.y == 0
    }

    /// A vector with `1` for each element.
    pub fn one() -> (r: Self)
        ensures
            r.x == 1 && r.y == 1,
    {
        Vector2 { x: 1, y: 1 }
    }

    /// Whether or not each element in the vector is equal to `1`.
    pub fn is_one(&self) -> (r: bool)
        ensures
            r == (self.x == 1 && self.y == 1),
    {
        self.x == 1 && self.y == 1
    }

    /// A unit vector in the `x` direction.
    pub fn unit_x() -> (r: Self)
        ensures
            r.x == 1 && r.y == 0,
    {
        Vector2::new(1, 0)
    }

    /// A unit vector in the `y` direction.
    pub fn unit_y() -> (r: Self)
        ensures
            r.x == 0 && r.y == 1,
    {
        Vector2::new(0, 1)
    }

    /// Sum the fields of the vector.
    pub fn sum(self) -> (r: Scalar)
        requires
            in_scalar_range(self.x + self.y),
        ensures
            r == self.x + self.y,
    {
        self.x + self.y
    }

    /// The product of the fields of the vector.
    pub fn product(self) -> (r: Scalar)
        requires
            in_scalar_range(self.x * self.y),
        ensures
            r == self.x * self.y,
    {
        self.x * self.y
    }

    /// The perpendicular dot product of the vector and `other`.
    pub fn perp_dot(self, other: Vector2<Scalar>) -> (r: Scalar)
        requires
            in_scalar_range(self.x * other.y),
            in_scalar_range(self.y * other.x),
            in_scalar_range(spec_perp_dot(self, other)),
        ensures
            r == spec_perp_dot(self, other),
    {
        (self.x * other.y) - (self.y * other.x)
    }
}

impl Vector3<Scalar> {
    /// A zeroed vector.
    pub fn zero() -> (r: Self)
        ensures
            r.x == 0 && r.y == 0 && r.z == 0,
    {
        Vector3 { x: 0, y: 0, z: 0 }
    }

    /// Whether or not the vector is zeroed.
    pub fn is_zero(&self) -> (r: bool)
        ensures
            r == (self.x == 0 && self.y == 0 && self.z == 0),
    {
        self.x == 0 && self.y == 0 && self.z == 0
    }

    /// A vector with `1` for each element.
    pub fn one() -> (r: Self)
        ensures
            r.x == 1 && r.y == 1 && r.z == 1,
    {
        Vector3 { x: 1, y: 1, z: 1 }
    }

    /// Whether or not each element in the vector is equal to `1`.
    pub fn is_one(&self) -> (r: bool)
        ensures
            r == (self.x == 1 && self.y == 1 && self.z == 1),
    {
        self.x == 1 && self.y == 1 && self.z == 1
    }

    /// A unit vector in the `x` direction.
    pub fn unit_x() -> (r: Self)
        ensures
            r.x == 1 && r.y == 0 && r.z == 0,
    {
        Vector3::new(1, 0, 0)
    }

    /// A unit vector in the `y` direction.
    pub fn unit_y() -> (r: Self)
        ensures
            r.x == 0 && r.y == 1 && r.z == 0,
    {
        Vector3::new(0, 1, 0)
    }

    /// A unit vector in the `z` direction.
    pub fn unit_z() -> (r: Self)
        ensures
            r.x == 0 && r.y == 0 && r.z == 1,
    {
        Vector3::new(0, 0, 1)
    }

    /// Sum the fields of the vector.
    pub fn sum(self) -> (r: Scalar)
        requires
            in_scalar_range(self.x + self.y),
            in_scalar_range(self.x + self.y + self.z),
        ensures
            r == self.x + self.y + self.z,
    {
        self.x + self.y + self.z
    }

    /// The product of the fields of the vector.
    pub fn product(self) -> (r: Scalar)
        requires
            in_scalar_range(self.x * self.y),
            in_scalar_range(self.x * self.y * self.z),
        ensures
            r == self.x * self.y * self.z,
    {
        self.x * self.y * self.z
    }

    /// Returns the cross product of the vector and `other`.
    pub fn cross(self, other: Vector3<Scalar>) -> (r: Vector3<Scalar>)
        requires
            in_scalar_range(self.y * other.z),
            in_scalar_range(self.z * other.y),
            in_scalar_range(self.z * other.x),
            in_scalar_range(self.x * other.z),
            in_scalar_range(self.x * other.y),
            in_scalar_range(self.y * other.x),
            in_scalar_range(spec_cross(self, other).0),
            in_scalar_range(spec_cross(self, other).1),
            in_scalar_range(spec_cross(self, other).2),
        ensures
            r.x == spec_cross(self, other).0,
            r.y == spec_cross(self, other).1,
            r.z == spec_cross(self, other).2,
    {
        Vector3::new(
            (self.y * other.z) - (self.z * other.y),
            (self.z * other.x) - (self.x * other.z),
            (self.x * other.y) - (self.y * other.x),
        )
    }
}

impl Vector4<Scalar> {
    /// A zeroed vector.
    pub fn zero() -> (r: Self)
        ensures
            r.x == 0 && r.y == 0 && r.z == 0 && r.w == 0,
    {
        Vector4 { x: 0, y: 0, z: 0, w: 0 }
    }

    /// Whether or not the vector is zeroed.
    pub fn is_zero(&self) -> (r: bool)
        ensures
            r == (self.x == 0 && self.y == 0 && self.z == 0 && self.w == 0),
    {
        self.x == 0 && self.y == 0 && self.z == 0 && self.w == 0
    }

    /// A vector with `1` for each element.
    pub fn one() -> (r: Self)
        ensures
            r.x == 1 && r.y == 1 && r.z == 1 && r.w == 1,
    {
        Vector4 { x: 1, y: 1, z: 1, w: 1 }
    }

    /// Whether or not each element in the vector is equal to `1`.
    pub fn is_one(&self) -> (r: bool)
        ensures
            r == (self.x == 1 && self.y == 1 && self.z == 1 && self.w == 1),
    {
        self.x == 1 && self.y == 1 && self.z == 1 && self.w == 1
    }

    /// A unit vector in the `x` direction.
    pub fn unit_x() -> (r: Self)
        ensures
            r.x == 1 && r.y == 0 && r.z == 0 && r.w == 0,
    {
        Vector4::new(1, 0, 0, 0)
    }

    /// A unit vector in the `y` direction.
    pub fn unit_y() -> (r: Self)
        ensures
            r.x == 0 && r.y == 1 && r.z == 0 && r.w == 0,
    {
        Vector4::new(0, 1, 0, 0)
    }

    /// A unit vector in the `z` direction.
    pub fn unit_z() -> (r: Self)
        ensures
            r.x == 0 && r.y == 0 && r.z == 1 && r.w == 0,
    {
        Vector4::new(0, 0, 1, 0)
    }

    /// A unit vector in the `w` direction.
    pub fn unit_w() -> (r: Self)
        ensures
            r.x == 0 && r.y == 0 && r.z == 0 && r.w == 1,
    {
        Vector4::new(0, 0, 0, 1)
    }

    /// Sum the fields of the vector.
    pub fn sum(self) -> (r: Scalar)
        requires
            in_scalar_range(self.x + self.y),
            in_scalar_range(self.x + self.y + self.z),
            in_scalar_range(self.x + self.y + self.z + self.w),
        ensures
            r == self.x + self.y + self.z + self.w,
    {
        self.x + self.y + self.z + self.w
    }

    /// The product of the fields of the vector.
    pub fn product(self) -> (r: Scalar)
        requires
            in_scalar_range(self.x * self.y),
            in_scalar_range(self.x * self.y * self.z),
            in_scalar_range(self.x * self.y * self.z * self.w),
        ensures
            r == self.x * self.y * self.z * self.w,
    {
        self.x * self.y * self.z * self.w
    }
}

/// Construct a 2-dimensional vector.
pub fn vec2<S>(x: S, y: S) -> (r: Vector2<S>)
    ensures
        r.x == x && r.y == y,
{
    Vector2 { x, y }
}

/// Construct a 3-dimensional vector.
pub fn vec3<S>(x: S, y: S, z: S) -> (r: Vector3<S>)
    ensures
        r.x == x && r.y == y && r.z == z,
{
    Vector3 { x, y, z }
}

/// Construct a 4-dimensional vector.
pub fn vec4<S>(x: S, y: S, z: S, w: S) -> (r: Vector4<S>)
    ensures
        r.x == x && r.y == y && r.z == z && r.w == w,
{
    Vector4 { x, y, z, w }
}

/// The perpendicular dot product is antisymmetric, and zero for a vector with itself.
pub proof fn lemma_perp_dot_antisymmetric(a: Vector2<Scalar>, b: Vector2<Scalar>)
    ensures
        spec_perp_dot(a, b) == -spec_perp_dot(b, a),
        spec_perp_dot(a, a) == 0,
{
    assert(a.x * b.y == b.y * a.x) by (nonlinear_arith);
    assert(a.y * b.x == b.x * a.y) by (nonlinear_arith);
    assert(a.x * a.y == a.y * a.x) by (nonlinear_arith);
}

/// The cross product is anticommutative and orthogonal to both of its operands.
pub proof fn lemma_cross_properties(a: Vector3<Scalar>, b: Vector3<Scalar>)
    ensures
        spec_cross(a, b).0 == -spec_cross(b, a).0,
        spec_cross(a, b).1 == -spec_cross(b, a).1,
        spec_cross(a, b).2 == -spec_cross(b, a).2,
        a.x * spec_cross(a, b).0 + a.y * spec_cross(a, b).1 + a.z * spec_cross(a, b).2 == 0,
        b.x * spec_cross(a, b).0 + b.y * spec_cross(a, b).1 + b.z * spec_cross(a, b).2 == 0,
{
    let (ax, ay, az, bx, by, bz) = (a.x as int, a.y as int, a.z as int, b.x as int, b.y as int, b.z as int);
    assert(ax * (ay * bz - az * by) + ay * (az * bx - ax * bz) + az * (ax * by - ay * bx) == 0)
        by (nonlinear_arith);
    assert(bx * (ay * bz - az * by) + by * (az * bx - ax * bz) + bz * (ax * by - ay * bx) == 0)
        by (nonlinear_arith);
    assert(ay * bz - az * by == -(by * az - bz * ay)) by (nonlinear_arith);
    assert(az * bx - ax * bz == -(bz * ax - bx * az)) by (nonlinear_arith);
    assert(ax * by - ay * bx == -(bx * ay - by * ax)) by (nonlinear_arith);
}

} // verus!
