//! A bit mask that records which kinds of geometry a collection holds.

use crate::geometry::{geometry_maps, leaves, leaves_of, Coord, Geometry};
use vstd::prelude::*;
use vstd::string::StringExecFns;

verus! {

/// The bit of each kind of geometry. A collection has no bit of its own.
pub const POINT: u16 = 0b000000001;

pub const LINE: u16 = 0b000000010;

pub const LINE_STRING: u16 = 0b000000100;

pub const POLYGON: u16 = 0b000001000;

pub const MULTI_POINT: u16 = 0b000010000;

pub const MULTI_LINE_STRING: u16 = 0b000100000;

pub const MULTI_POLYGON: u16 = 0b001000000;

pub const RECT: u16 = 0b010000000;

pub const TRIANGLE: u16 = 0b100000000;

/// Every kind at once.
pub const ALL: u16 = 0b111111111;

/// The kinds that enclose an area, and so can be filled.
pub const FILLED: u16 = 0b111001000;

/// The set of geometry kinds found in some geometries, one bit per kind.
#[derive(Clone, Copy, Debug, PartialEq, Eq, Structural)]
pub struct GeomType {
    pub bits: u16,
}

/// The bit of the kind of `g`, or, for a collection, the bits of all that it
/// holds at any depth.
pub open spec fn mask_of<T>(g: Geometry<T>) -> u16
    decreases g,
{
    match g {
        Geometry::Point(_) => POINT,
        Geometry::Line(_, _) => LINE,
        Geometry::LineString(_) => LINE_STRING,
        Geometry::Polygon(_) => POLYGON,
        Geometry::MultiPoint(_) => MULTI_POINT,
        Geometry::MultiLineString(_) => MULTI_LINE_STRING,
        Geometry::MultiPolygon(_) => MULTI_POLYGON,
        Geometry::Rect(_, _) => RECT,
        Geometry::Triangle(_, _, _) => TRIANGLE,
        Geometry::GeometryCollection(members) => mask_of_all(members@),
    }
}

/// The union of the masks of the geometries of `s`.
pub open spec fn mask_of_all<T>(s: Seq<Geometry<T>>) -> u16
    decreases s,
{
    if s.len() == 0 {
        0u16
    } else {
        mask_of_all(s.drop_last()) | mask_of(s.last())
    }
}

/// `bits` names exactly one kind.
pub open spec fn is_single_kind(bits: u16) -> bool {
    bits == POINT || bits == LINE || bits == LINE_STRING || bits == POLYGON || bits == MULTI_POINT
        || bits == MULTI_LINE_STRING || bits == MULTI_POLYGON || bits == RECT || bits == TRIANGLE
}

/// The display name of the single kind `bits`.
pub open spec fn kind_name(bits: u16) -> Seq<char> {
    if bits == POINT {
        "Point"@
    } else if bits == LINE {
        "Line"@
    } else if bits == LINE_STRING {
        "LineString"@
    } else if bits == POLYGON {
        "Polygon"@
    } else if bits == MULTI_POINT {
        "MultiPoint"@
    } else if bits == MULTI_LINE_STRING {
        "MultiLineString"@
    } else if bits == MULTI_POLYGON {
        "MultiPolygon"@
    } else if bits == RECT {
        "Rectangle"@
    } else {
        "Triangle"@
    }
}

impl GeomType {
    /// No kind at all.
    pub fn empty() -> (t: GeomType)
        ensures
            t.bits == 0,
    {
        GeomType { bits: 0 }
    }

    /// The mask `bits`, cut down to the nine kinds.
    pub fn from_bits_truncate(bits: u16) -> (t: GeomType)
        ensures
            t.bits == bits & ALL,
    {
        GeomType { bits: bits & ALL }
    }

    pub fn bits(&self) -> (b: u16)
        ensures
            b == self.bits,
    {
        self.bits
    }

    pub fn is_empty(&self) -> (b: bool)
        ensures
            b == (self.bits == 0),
    {
        self.bits == 0
    }

    /// The kinds of `self` together with those of `other`.
    pub fn union(self, other: GeomType) -> (t: GeomType)
        ensures
            t.bits == self.bits | other.bits,
    {
        GeomType { bits: self.bits | other.bits }
    }

    /// Whether every kind of `other` is among those of `self`.
    pub fn contains(&self, other: GeomType) -> (b: bool)
        ensures
            b == (self.bits & other.bits == other.bits),
    {
        self.bits & other.bits == other.bits
    }

    /// Whether some kind of `self` encloses an area: polygons, rectangles and
    /// triangles do, points and lines do not.
    pub fn has_fill(&self) -> (b: bool)
        ensures
            b == (self.bits & FILLED != 0),
    {
        self.bits & FILLED != 0
    }

    /// Whether `self` names exactly one kind.
    pub fn is_single(&self) -> (b: bool)
        ensures
            b == is_single_kind(self.bits),
    {
        let bits: u16 = self.bits;
        bits == POINT || bits == LINE || bits == LINE_STRING || bits == POLYGON || bits
            == MULTI_POINT || bits == MULTI_LINE_STRING || bits == MULTI_POLYGON || bits == RECT
            || bits == TRIANGLE
    }

    /// The display name of a single kind, such as "LineString". A mask of
    /// several kinds, or of none, has no name.
    pub fn to_string(&self) -> (s: String)
        requires
            is_single_kind(self.bits),
        ensures
            s@ == kind_name(self.bits),
    {
        let bits: u16 = self.bits;
        if bits == POINT {
            String::from_str("Point")
        } else if bits == LINE {
            String::from_str("Line")
        } else if bits == LINE_STRING {
            String::from_str("LineString")
        } else if bits == POLYGON {
            String::from_str("Polygon")
        } else if bits == MULTI_POINT {
            String::from_str("MultiPoint")
        } else if bits == MULTI_LINE_STRING {
            String::from_str("MultiLineString")
        } else if bits == MULTI_POLYGON {
            String::from_str("MultiPolygon")
        } else if bits == RECT {
            String::from_str("Rectangle")
        } else {
            String::from_str("Triangle")
        }
    }
}

/// The kinds present in one geometry; a collection contributes the kinds of
/// its members and no bit of its own.
pub fn geom_type_of<T>(geometry: &Geometry<T>) -> (t: GeomType)
    ensures
        t.bits == mask_of(*geometry),
    decreases *geometry,
{
    match geometry {
        Geometry::Point(_) => GeomType { bits: POINT },
        Geometry::Line(_, _) => GeomType { bits: LINE },
        Geometry::LineString(_) => GeomType { bits: LINE_STRING },
        Geometry::Polygon(_) => GeomType { bits: POLYGON },
        Geometry::MultiPoint(_) => GeomType { bits: MULTI_POINT },
        Geometry::MultiLineString(_) => GeomType { bits: MULTI_LINE_STRING },
        Geometry::MultiPolygon(_) => GeomType { bits: MULTI_POLYGON },
        Geometry::Rect(_, _) => GeomType { bits: RECT },
        Geometry::Triangle(_, _, _) => GeomType { bits: TRIANGLE },
        Geometry::GeometryCollection(members) => {
            let mut acc: u16 = 0;
            let mut i: usize = 0;
            while i < members.len()
                invariant
                    i <= members.len(),
                    *geometry is GeometryCollection,
                    geometry->GeometryCollection_0 == *members,
                    acc == mask_of_all(members@.take(i as int)),
                decreases members.len() - i,
            {
                proof {
                    vstd::std_specs::vec::axiom_vec_index_decreases(*members, i as int);
                    assert(decreases_to!(*geometry => geometry->GeometryCollection_0));
                    assert(members@.take(i + 1).drop_last() =~= members@.take(i as int));
                }
                let part = geom_type_of(&members[i]);
                acc = acc | part.bits;
                i += 1;
            }
            proof {
                assert(members@.take(i as int) =~= members@);
            }
            GeomType { bits: acc }
        },
    }
}

/// The kinds present in `geometries`: the union, over all of them, of one
/// bit per kind, nested collections flattened into the same mask.
pub fn determine<T>(geometries: &Vec<Geometry<T>>) -> (t: GeomType)
    ensures
        t.bits == mask_of_all(geometries@),
{
    let mut acc: u16 = 0;
    let mut i: usize = 0;
    while i < geometries.len()
        invariant
            i <= geometries.len(),
            acc == mask_of_all(geometries@.take(i as int)),
        decreases geometries.len() - i,
    {
        proof {
            assert(geometries@.take(i + 1).drop_last() =~= geometries@.take(i as int));
        }
        let part = geom_type_of(&geometries[i]);
        acc = acc | part.bits;
        i += 1;
    }
    proof {
        assert(geometries@.take(i as int) =~= geometries@);
    }
    GeomType { bits: acc }
}

/// A geometry that is not a collection has exactly one kind.
pub proof fn lemma_leaf_has_a_single_kind<T>(g: Geometry<T>)
    requires
        !(g is GeometryCollection),
    ensures
        is_single_kind(mask_of(g)),
{
}

/// The kinds of two sequences taken together are the union of the kinds of
/// each.
pub proof fn lemma_mask_of_concat<T>(a: Seq<Geometry<T>>, b: Seq<Geometry<T>>)
    ensures
        mask_of_all(a + b) == mask_of_all(a) | mask_of_all(b),
    decreases b.len(),
{
    let x = mask_of_all(a);
    if b.len() == 0 {
        assert(a + b =~= a);
        assert(x | 0u16 == x) by (bit_vector);
    } else {
        lemma_mask_of_concat(a, b.drop_last());
        assert((a + b).drop_last() =~= a + b.drop_last());
        assert((a + b).last() == b.last());
        let y = mask_of_all(b.drop_last());
        let z = mask_of(b.last());
        assert((x | y) | z == x | (y | z)) by (bit_vector);
    }
}

/// Taking collections apart changes no kind: the leaves of some geometries
/// have the kinds of the geometries themselves.
pub proof fn lemma_leaves_keep_kinds<T>(s: Seq<Geometry<T>>)
    ensures
        mask_of_all(leaves_of(s)) == mask_of_all(s),
    decreases s,
{
    if s.len() > 0 {
        lemma_leaves_keep_kinds(s.drop_last());
        lemma_leaf_kinds(s.last());
        lemma_mask_of_concat(leaves_of(s.drop_last()), leaves(s.last()));
    }
}

/// The leaves of one geometry have the kinds of the geometry.
pub proof fn lemma_leaf_kinds<T>(g: Geometry<T>)
    ensures
        mask_of_all(leaves(g)) == mask_of(g),
    decreases g,
{
    match g {
        Geometry::GeometryCollection(members) => {
            lemma_leaves_keep_kinds(members@);
        },
        _ => {
            let one = leaves(g);
            assert(one =~= seq![g]);
            assert(one.drop_last() =~= Seq::<Geometry<T>>::empty());
            assert(mask_of_all(one.drop_last()) == 0u16);
            assert(one.last() == g);
            let m = mask_of(g);
            assert(0u16 | m == m) by (bit_vector);
        },
    }
}

/// Reprojection changes no kind.
pub proof fn lemma_reprojection_keeps_kinds<T, F: Fn(&Coord<T>) -> Coord<T>>(
    f: F,
    src: Geometry<T>,
    dst: Geometry<T>,
)
    requires
        geometry_maps(f, src, dst),
    ensures
        mask_of(dst) == mask_of(src),
    decreases src,
{
    match src {
        Geometry::GeometryCollection(members) => {
            let images = dst->GeometryCollection_0;
            lemma_reprojection_keeps_all_kinds(f, members@, images@);
        },
        _ => {},
    }
}

/// Reprojection of each geometry of a sequence changes no kind.
pub proof fn lemma_reprojection_keeps_all_kinds<T, F: Fn(&Coord<T>) -> Coord<T>>(
    f: F,
    src: Seq<Geometry<T>>,
    dst: Seq<Geometry<T>>,
)
    requires
        src.len() == dst.len(),
        forall|i: int| 0 <= i < src.len() ==> geometry_maps(f, #[trigger] src[i], dst[i]),
    ensures
        mask_of_all(dst) == mask_of_all(src),
    decreases src,
{
    if src.len() > 0 {
        assert forall|i: int| 0 <= i < src.drop_last().len() implies geometry_maps(
            f,
            #[trigger] src.drop_last()[i],
            dst.drop_last()[i],
        ) by {
            assert(geometry_maps(f, src[i], dst[i]));
        }
        lemma_reprojection_keeps_all_kinds(f, src.drop_last(), dst.drop_last());
        assert(geometry_maps(f, src[src.len() - 1], dst[src.len() - 1]));
        lemma_reprojection_keeps_kinds(f, src.last(), dst.last());
    }
}

} // verus!
