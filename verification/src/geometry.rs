//! Planar geometries as a closed tagged union, and their reprojection.
//!
//! The coordinate scalar `T` is never inspected here: geometries are built,
//! taken apart and rebuilt, and every coordinate is handed to a caller-supplied
//! transform. All arithmetic on coordinates belongs to that transform.

use vstd::prelude::*;

verus! {

/// One position: a pair of scalars.
#[derive(Debug, Clone, Copy, PartialEq)]
pub struct Coord<T> {
    pub x: T,
    pub y: T,
}

/// An outer ring and the rings of its holes.
#[derive(Debug, PartialEq)]
pub struct Polygon<T> {
    pub exterior: Vec<Coord<T>>,
    pub interiors: Vec<Vec<Coord<T>>>,
}

/// A geometry of one of ten kinds. A collection may hold collections.
#[derive(Debug, PartialEq)]
pub enum Geometry<T> {
    Point(Coord<T>),
    Line(Coord<T>, Coord<T>),
    LineString(Vec<Coord<T>>),
    Polygon(Polygon<T>),
    MultiPoint(Vec<Coord<T>>),
    MultiLineString(Vec<Vec<Coord<T>>>),
    MultiPolygon(Vec<Polygon<T>>),
    Rect(Coord<T>, Coord<T>),
    Triangle(Coord<T>, Coord<T>, Coord<T>),
    GeometryCollection(Vec<Geometry<T>>),
}

/// The geometries of `g` that are not collections, in document order:
/// `g` itself, or the leaves of all its members, however deeply nested.
pub open spec fn leaves<T>(g: Geometry<T>) -> Seq<Geometry<T>>
    decreases g,
{
    match g {
        Geometry::GeometryCollection(members) => leaves_of(members@),
        _ => seq![g],
    }
}

/// The leaves of every geometry of `s`, concatenated in order.
pub open spec fn leaves_of<T>(s: Seq<Geometry<T>>) -> Seq<Geometry<T>>
    decreases s,
{
    if s.len() == 0 {
        Seq::empty()
    } else {
        leaves_of(s.drop_last()) + leaves(s.last())
    }
}

/// `f` accepts every coordinate.
pub open spec fn is_total<T, F: Fn(&Coord<T>) -> Coord<T>>(f: F) -> bool {
    forall|c: &Coord<T>| call_requires(f, (c,))
}

/// `dst` is a value that `f` may return for `src`.
pub open spec fn coord_maps<T, F: Fn(&Coord<T>) -> Coord<T>>(
    f: F,
    src: Coord<T>,
    dst: Coord<T>,
) -> bool {
    call_ensures(f, (&src,), dst)
}

/// `dst` has the length of `src`, and each of its coordinates is an image
/// under `f` of the coordinate at the same index.
pub open spec fn ring_maps<T, F: Fn(&Coord<T>) -> Coord<T>>(
    f: F,
    src: Seq<Coord<T>>,
    dst: Seq<Coord<T>>,
) -> bool {
    &&& dst.len() == src.len()
    &&& forall|i: int| 0 <= i < src.len() ==> coord_maps(f, #[trigger] src[i], dst[i])
}

/// Ring by ring, `dst` is an image of `src` under `f`.
pub open spec fn rings_map<T, F: Fn(&Coord<T>) -> Coord<T>>(
    f: F,
    src: Seq<Vec<Coord<T>>>,
    dst: Seq<Vec<Coord<T>>>,
) -> bool {
    &&& dst.len() == src.len()
    &&& forall|i: int| 0 <= i < src.len() ==> ring_maps(f, (#[trigger] src[i])@, dst[i]@)
}

/// The outer ring and every hole of `dst` are images of those of `src`.
pub open spec fn polygon_maps<T, F: Fn(&Coord<T>) -> Coord<T>>(
    f: F,
    src: Polygon<T>,
    dst: Polygon<T>,
) -> bool {
    &&& ring_maps(f, src.exterior@, dst.exterior@)
    &&& rings_map(f, src.interiors@, dst.interiors@)
}

/// Polygon by polygon, `dst` is an image of `src` under `f`.
pub open spec fn polygons_map<T, F: Fn(&Coord<T>) -> Coord<T>>(
    f: F,
    src: Seq<Polygon<T>>,
    dst: Seq<Polygon<T>>,
) -> bool {
    &&& dst.len() == src.len()
    &&& forall|i: int| 0 <= i < src.len() ==> polygon_maps(f, #[trigger] src[i], dst[i])
}

/// `dst` is `src` reprojected through `f`: the same kind, the same shape at
/// every level of nesting, and each coordinate an image under `f` of the
/// coordinate in the same place.
pub open spec fn geometry_maps<T, F: Fn(&Coord<T>) -> Coord<T>>(
    f: F,
    src: Geometry<T>,
    dst: Geometry<T>,
) -> bool
    decreases src,
{
    match src {
        Geometry::Point(c) => dst matches Geometry::Point(d) && coord_maps(f, c, d),
        Geometry::Line(a, b) => dst matches Geometry::Line(p, q) && coord_maps(f, a, p)
            && coord_maps(f, b, q),
        Geometry::LineString(r) => dst matches Geometry::LineString(s) && ring_maps(f, r@, s@),
        Geometry::Polygon(p) => dst matches Geometry::Polygon(q) && polygon_maps(f, p, q),
        Geometry::MultiPoint(r) => dst matches Geometry::MultiPoint(s) && ring_maps(f, r@, s@),
        Geometry::MultiLineString(r) => dst matches Geometry::MultiLineString(s) && rings_map(
            f,
            r@,
            s@,
        ),
        Geometry::MultiPolygon(p) => dst matches Geometry::MultiPolygon(q) && polygons_map(
            f,
            p@,
            q@,
        ),
        Geometry::Rect(a, b) => dst matches Geometry::Rect(p, q) && coord_maps(f, a, p)
            && coord_maps(f, b, q),
        Geometry::Triangle(a, b, c) => dst matches Geometry::Triangle(p, q, r) && coord_maps(
            f,
            a,
            p,
        ) && coord_maps(f, b, q) && coord_maps(f, c, r),
        Geometry::GeometryCollection(members) => dst matches Geometry::GeometryCollection(
            images,
        ) && images@.len() == members@.len() && forall|i: int|
            0 <= i < members@.len() ==> geometry_maps(f, #[trigger] members@[i], images@[i]),
    }
}

/// Applies `f` to each coordinate of a ring.
pub fn reproject_ring<T, F: Fn(&Coord<T>) -> Coord<T>>(
    ring: &Vec<Coord<T>>,
    f: &F,
) -> (out: Vec<Coord<T>>)
    requires
        is_total(*f),
    ensures
        ring_maps(*f, ring@, out@),
{
    let mut out: Vec<Coord<T>> = Vec::new();
    let mut i: usize = 0;
    while i < ring.len()
        invariant
            is_total(*f),
            i <= ring.len(),
            out@.len() == i,
            forall|k: int| 0 <= k < i ==> coord_maps(*f, #[trigger] ring@[k], out@[k]),
        decreases ring.len() - i,
    {
        let image = f(&ring[i]);
        out.push(image);
        i += 1;
    }
    out
}

/// Applies `f` to each coordinate of each ring.
pub fn reproject_rings<T, F: Fn(&Coord<T>) -> Coord<T>>(
    rings: &Vec<Vec<Coord<T>>>,
    f: &F,
) -> (out: Vec<Vec<Coord<T>>>)
    requires
        is_total(*f),
    ensures
        rings_map(*f, rings@, out@),
{
    let mut out: Vec<Vec<Coord<T>>> = Vec::new();
    let mut i: usize = 0;
    while i < rings.len()
        invariant
            is_total(*f),
            i <= rings.len(),
            out@.len() == i,
            forall|k: int| 0 <= k < i ==> ring_maps(*f, (#[trigger] rings@[k])@, out@[k]@),
        decreases rings.len() - i,
    {
        let image = reproject_ring(&rings[i], f);
        out.push(image);
        i += 1;
    }
    out
}

/// Applies `f` to each coordinate of a polygon.
pub fn reproject_polygon<T, F: Fn(&Coord<T>) -> Coord<T>>(
    polygon: &Polygon<T>,
    f: &F,
) -> (out: Polygon<T>)
    requires
        is_total(*f),
    ensures
        polygon_maps(*f, *polygon, out),
{
    Polygon {
        exterior: reproject_ring(&polygon.exterior, f),
        interiors: reproject_rings(&polygon.interiors, f),
    }
}

/// Applies `f` to each coordinate of each polygon.
pub fn reproject_polygons<T, F: Fn(&Coord<T>) -> Coord<T>>(
    polygons: &Vec<Polygon<T>>,
    f: &F,
) -> (out: Vec<Polygon<T>>)
    requires
        is_total(*f),
    ensures
        polygons_map(*f, polygons@, out@),
{
    let mut out: Vec<Polygon<T>> = Vec::new();
    let mut i: usize = 0;
    while i < polygons.len()
        invariant
            is_total(*f),
            i <= polygons.len(),
            out@.len() == i,
            forall|k: int| 0 <= k < i ==> polygon_maps(*f, #[trigger] polygons@[k], out@[k]),
        decreases polygons.len() - i,
    {
        let image = reproject_polygon(&polygons[i], f);
        out.push(image);
        i += 1;
    }
    out
}

/// Rebuilds `geometry` with every coordinate replaced by its image under
/// `f`. Kind and shape are kept; nothing else is read from the coordinates.
pub fn reproject<T, F: Fn(&Coord<T>) -> Coord<T>>(
    geometry: &Geometry<T>,
    f: &F,
) -> (out: Geometry<T>)
    requires
        is_total(*f),
    ensures
        geometry_maps(*f, *geometry, out),
    decreases *geometry,
{
    match geometry {
        Geometry::Point(c) => Geometry::Point(f(c)),
        Geometry::Line(a, b) => Geometry::Line(f(a), f(b)),
        Geometry::LineString(r) => Geometry::LineString(reproject_ring(r, f)),
        Geometry::Polygon(p) => Geometry::Polygon(reproject_polygon(p, f)),
        Geometry::MultiPoint(r) => Geometry::MultiPoint(reproject_ring(r, f)),
        Geometry::MultiLineString(r) => Geometry::MultiLineString(reproject_rings(r, f)),
        Geometry::MultiPolygon(p) => Geometry::MultiPolygon(reproject_polygons(p, f)),
        Geometry::Rect(a, b) => Geometry::Rect(f(a), f(b)),
        Geometry::Triangle(a, b, c) => Geometry::Triangle(f(a), f(b), f(c)),
        Geometry::GeometryCollection(members) => {
            let mut images: Vec<Geometry<T>> = Vec::new();
            let mut i: usize = 0;
            while i < members.len()
                invariant
                    is_total(*f),
                    i <= members.len(),
                    images@.len() == i,
                    *geometry is GeometryCollection,
                    geometry->GeometryCollection_0 == *members,
                    forall|k: int|
                        0 <= k < i ==> geometry_maps(*f, #[trigger] members@[k], images@[k]),
                decreases members.len() - i,
            {
                proof {
                    vstd::std_specs::vec::axiom_vec_index_decreases(*members, i as int);
                    assert(decreases_to!(*geometry => geometry->GeometryCollection_0));
                }
                let image = reproject(&members[i], f);
                images.push(image);
                i += 1;
            }
            Geometry::GeometryCollection(images)
        },
    }
}

/// No leaf is a collection.
pub proof fn lemma_leaves_are_not_collections<T>(g: Geometry<T>, i: int)
    requires
        0 <= i < leaves(g).len(),
    ensures
        !(leaves(g)[i] is GeometryCollection),
    decreases g,
{
    match g {
        Geometry::GeometryCollection(members) => {
            lemma_leaves_of_are_not_collections(members@, i);
        },
        _ => {},
    }
}

/// No leaf of a sequence of geometries is a collection.
pub proof fn lemma_leaves_of_are_not_collections<T>(s: Seq<Geometry<T>>, i: int)
    requires
        0 <= i < leaves_of(s).len(),
    ensures
        !(leaves_of(s)[i] is GeometryCollection),
    decreases s,
{
    if s.len() > 0 {
        let head = leaves_of(s.drop_last());
        if i < head.len() {
            lemma_leaves_of_are_not_collections(s.drop_last(), i);
        } else {
            lemma_leaves_are_not_collections(s.last(), i - head.len());
        }
    }
}

} // verus!
