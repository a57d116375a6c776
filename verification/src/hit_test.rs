//! Whether a point picks a geometry.
//!
//! Two tests come from the caller: `within` says whether a point lies inside
//! a geometry that encloses an area, `near` whether a point lies within the
//! caller's tolerance of a point or a line. This module decides, kind by
//! kind, which of the two is asked, and looks through collections.

use crate::geometry::{Coord, Geometry};
use vstd::prelude::*;

verus! {

/// `g` encloses an area: a polygon, a multi-polygon, a rectangle or a
/// triangle.
pub open spec fn is_areal<T>(g: Geometry<T>) -> bool {
    g is Polygon || g is MultiPolygon || g is Rect || g is Triangle
}

/// Both tests can be asked about any geometry and any point.
pub open spec fn are_tests<T, W, N>(within: W, near: N) -> bool where
    W: Fn(&Geometry<T>, &Coord<T>) -> bool,
    N: Fn(&Geometry<T>, &Coord<T>) -> bool,
 {
    &&& forall|g: &Geometry<T>, p: &Coord<T>| call_requires(within, (g, p))
    &&& forall|g: &Geometry<T>, p: &Coord<T>| call_requires(near, (g, p))
}

/// `hit` is a possible answer to "does `point` pick `g`?": for a geometry
/// that encloses an area an answer of `within`, for a point or a line an
/// answer of `near`; a collection is picked when one of its members is, and
/// missed when all of them are.
pub open spec fn picks<T, W, N>(
    within: W,
    near: N,
    g: Geometry<T>,
    point: Coord<T>,
    hit: bool,
) -> bool where W: Fn(&Geometry<T>, &Coord<T>) -> bool, N: Fn(&Geometry<T>, &Coord<T>) -> bool
    decreases g,
{
    match g {
        Geometry::GeometryCollection(members) => if hit {
            exists|i: int|
                0 <= i < members@.len() && picks(within, near, #[trigger] members@[i], point, true)
        } else {
            forall|i: int|
                0 <= i < members@.len() ==> picks(
                    within,
                    near,
                    #[trigger] members@[i],
                    point,
                    false,
                )
        },
        _ => if is_areal(g) {
            call_ensures(within, (&g, &point), hit)
        } else {
            call_ensures(near, (&g, &point), hit)
        },
    }
}

/// Asks whether `point` picks `geometry`. The members of a collection are
/// asked in order, up to the first that is picked.
pub fn geometry_hit<T, W, N>(
    geometry: &Geometry<T>,
    point: &Coord<T>,
    within: &W,
    near: &N,
) -> (hit: bool) where
    W: Fn(&Geometry<T>, &Coord<T>) -> bool,
    N: Fn(&Geometry<T>, &Coord<T>) -> bool,

    requires
        are_tests(*within, *near),
    ensures
        picks(*within, *near, *geometry, *point, hit),
    decreases *geometry,
{
    match geometry {
        Geometry::GeometryCollection(members) => {
            let mut i: usize = 0;
            while i < members.len()
                invariant
                    are_tests(*within, *near),
                    i <= members.len(),
                    *geometry is GeometryCollection,
                    geometry->GeometryCollection_0 == *members,
                    forall|k: int|
                        0 <= k < i ==> picks(*within, *near, #[trigger] members@[k], *point, false),
                decreases members.len() - i,
            {
                proof {
                    vstd::std_specs::vec::axiom_vec_index_decreases(*members, i as int);
                    assert(decreases_to!(*geometry => geometry->GeometryCollection_0));
                }
                if geometry_hit(&members[i], point, within, near) {
                    return true;
                }
                i += 1;
            }
            false
        },
        Geometry::Polygon(_) => within(geometry, point),
        Geometry::MultiPolygon(_) => within(geometry, point),
        Geometry::Rect(_, _) => within(geometry, point),
        Geometry::Triangle(_, _, _) => within(geometry, point),
        Geometry::Point(_) => near(geometry, point),
        Geometry::Line(_, _) => near(geometry, point),
        Geometry::LineString(_) => near(geometry, point),
        Geometry::MultiPoint(_) => near(geometry, point),
        Geometry::MultiLineString(_) => near(geometry, point),
    }
}

} // verus!
