//! Points, vectors and planar polygons in space.
use crate::scalar::{lit, lt, minus, num, over, plus, root, times, Scalar};
use vstd::prelude::*;

verus! {

/// A point in world coordinates [m].
#[derive(Clone, Copy, Debug)]
pub struct Point3D<T> {
    pub x: T,
    pub y: T,
    pub z: T,
}

/// A direction or displacement.
#[derive(Clone, Copy, Debug)]
pub struct Vec3<T> {
    pub x: T,
    pub y: T,
    pub z: T,
}

impl<T: Scalar> Point3D<T> {
    #[verifier::allow_in_spec]
    pub fn new(x: T, y: T, z: T) -> Self
        returns
            (Point3D { x, y, z }),
    {
        Point3D { x, y, z }
    }

    /// The displacement that leads from `origin` to this point.
    #[verifier::allow_in_spec]
    pub fn from(&self, origin: &Point3D<T>) -> Vec3<T>
        returns
            (Vec3 {
                x: self.x.difference(origin.x),
                y: self.y.difference(origin.y),
                z: self.z.difference(origin.z),
            }),
    {
        Vec3 {
            x: minus(self.x, origin.x),
            y: minus(self.y, origin.y),
            z: minus(self.z, origin.z),
        }
    }

    /// The point reached by going `length` times along `direction`.
    #[verifier::allow_in_spec]
    pub fn along(&self, direction: &Vec3<T>, length: T) -> Point3D<T>
        returns
            (Point3D {
                x: self.x.sum(length.product(direction.x)),
                y: self.y.sum(length.product(direction.y)),
                z: self.z.sum(length.product(direction.z)),
            }),
    {
        Point3D {
            x: plus(self.x, times(length, direction.x)),
            y: plus(self.y, times(length, direction.y)),
            z: plus(self.z, times(length, direction.z)),
        }
    }

    /// The point reached by going `length` times against `direction`.
    #[verifier::allow_in_spec]
    pub fn against(&self, direction: &Vec3<T>, length: T) -> Point3D<T>
        returns
            (Point3D {
                x: self.x.difference(length.product(direction.x)),
                y: self.y.difference(length.product(direction.y)),
                z: self.z.difference(length.product(direction.z)),
            }),
    {
        Point3D {
            x: minus(self.x, times(length, direction.x)),
            y: minus(self.y, times(length, direction.y)),
            z: minus(self.z, times(length, direction.z)),
        }
    }
}

impl<T: Scalar> Vec3<T> {
    #[verifier::allow_in_spec]
    pub fn new(x: T, y: T, z: T) -> Self
        returns
            (Vec3 { x, y, z }),
    {
        Vec3 { x, y, z }
    }

    #[verifier::allow_in_spec]
    pub fn dot(&self, other: &Vec3<T>) -> T
        returns
            self.x.product(other.x).sum(self.y.product(other.y)).sum(self.z.product(other.z)),
    {
        plus(plus(times(self.x, other.x), times(self.y, other.y)), times(self.z, other.z))
    }

    #[verifier::allow_in_spec]
    pub fn cross(&self, other: &Vec3<T>) -> Vec3<T>
        returns
            (Vec3 {
                x: self.y.product(other.z).difference(self.z.product(other.y)),
                y: self.z.product(other.x).difference(self.x.product(other.z)),
                z: self.x.product(other.y).difference(self.y.product(other.x)),
            }),
    {
        Vec3 {
            x: minus(times(self.y, other.z), times(self.z, other.y)),
            y: minus(times(self.z, other.x), times(self.x, other.z)),
            z: minus(times(self.x, other.y), times(self.y, other.x)),
        }
    }

    #[verifier::allow_in_spec]
    pub fn length(&self) -> T
        returns
            self.x.product(self.x).sum(self.y.product(self.y)).sum(
                self.z.product(self.z),
            ).square_root(),
    {
        root(plus(plus(times(self.x, self.x), times(self.y, self.y)), times(self.z, self.z)))
    }

    /// The vector of length one in the same direction; the zero vector where the
    /// length is too small to give a direction.
    #[verifier::allow_in_spec]
    pub fn normalize(&self) -> Vec3<T>
        returns
            (if self.length().below(T::fraction(1, 10_000_000_000)) {
                Vec3 { x: T::fraction(0, 1), y: T::fraction(0, 1), z: T::fraction(0, 1) }
            } else {
                Vec3 {
                    x: self.x.quotient(self.length()),
                    y: self.y.quotient(self.length()),
                    z: self.z.quotient(self.length()),
                }
            }),
    {
        let length = self.length();
        if lt(length, lit(1, 10_000_000_000)) {
            Vec3 { x: num(0), y: num(0), z: num(0) }
        } else {
            Vec3 { x: over(self.x, length), y: over(self.y, length), z: over(self.z, length) }
        }
    }
}

/// The index after `i` on a ring of `n` vertices.
pub open spec fn after_on_ring(i: int, n: int) -> int {
    if i + 1 < n {
        i + 1
    } else {
        0
    }
}

/// The index before `i` on a ring of `n` vertices.
pub open spec fn before_on_ring(i: int, n: int) -> int {
    if i > 0 {
        i - 1
    } else {
        n - 1
    }
}

pub fn following(i: usize, n: usize) -> (r: usize)
    requires
        i < n,
    ensures
        r == after_on_ring(i as int, n as int),
        r < n,
{
    if i + 1 < n {
        i + 1
    } else {
        0
    }
}

pub fn preceding(i: usize, n: usize) -> (r: usize)
    requires
        i < n,
    ensures
        r == before_on_ring(i as int, n as int),
        r < n,
{
    if i > 0 {
        i - 1
    } else {
        n - 1
    }
}

/// What the edge from `a` to `b` adds to Newell's normal.
pub open spec fn newell_term<T: Scalar>(acc: Vec3<T>, a: Point3D<T>, b: Point3D<T>) -> Vec3<T> {
    Vec3 {
        x: plus(acc.x, times(minus(a.y, b.y), plus(a.z, b.z))),
        y: plus(acc.y, times(minus(a.z, b.z), plus(a.x, b.x))),
        z: plus(acc.z, times(minus(a.x, b.x), plus(a.y, b.y))),
    }
}

/// Newell's normal summed over the first `edges` edges of the polygon.
pub open spec fn newell_sum<T: Scalar>(vertices: Seq<Point3D<T>>, edges: nat) -> Vec3<T>
    decreases edges,
{
    if edges == 0 {
        Vec3 { x: num(0), y: num(0), z: num(0) }
    } else {
        let i = edges - 1;
        newell_term(
            newell_sum(vertices, i as nat),
            vertices[i],
            vertices[after_on_ring(i, vertices.len() as int)],
        )
    }
}

/// The normal of a polygon by Newell's method; its length is twice the area.
pub fn newell_normal<T: Scalar>(vertices: &[Point3D<T>]) -> (r: Vec3<T>)
    ensures
        r == newell_sum(vertices@, vertices@.len()),
{
    let n: usize = vertices.len();
    let mut acc: Vec3<T> = Vec3 { x: num(0), y: num(0), z: num(0) };
    for i in 0..n
        invariant
            n == vertices@.len(),
            acc == newell_sum(vertices@, i as nat),
    {
        let a = vertices[i];
        let b = vertices[following(i, n)];
        acc = Vec3 {
            x: plus(acc.x, times(minus(a.y, b.y), plus(a.z, b.z))),
            y: plus(acc.y, times(minus(a.z, b.z), plus(a.x, b.x))),
            z: plus(acc.z, times(minus(a.x, b.x), plus(a.y, b.y))),
        };
    }
    acc
}

/// The area that [`polygon_area`] computes.
pub open spec fn area_of<T: Scalar>(vertices: Seq<Point3D<T>>) -> T {
    over(newell_sum(vertices, vertices.len()).length(), num(2))
}

/// The area of a planar polygon in space.
pub fn polygon_area<T: Scalar>(vertices: &[Point3D<T>]) -> (r: T)
    ensures
        r == area_of(vertices@),
{
    over(newell_normal(vertices).length(), num(2))
}

} // verus!
