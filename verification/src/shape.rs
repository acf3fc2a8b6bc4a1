use vstd::prelude::*;
use crate::error::{BragiError, ShapeReason};

verus! {

/// A geometry. A position is a list of numbers: longitude, latitude, and
/// whatever follows them (an altitude).
#[derive(Clone, Debug, PartialEq, Eq)]
pub enum Geometry {
    Point(Vec<i32>),
    MultiPoint(Vec<Vec<i32>>),
    LineString(Vec<Vec<i32>>),
    MultiLineString(Vec<Vec<Vec<i32>>>),
    Polygon(Vec<Vec<Vec<i32>>>),
    MultiPolygon(Vec<Vec<Vec<Vec<i32>>>>),
    GeometryCollection,
}

/// A feature: its geometry, if it has one; what else it carries is not kept.
#[derive(Clone, Debug, PartialEq, Eq)]
pub struct Feature {
    pub geometry: Option<Geometry>,
}

/// A geometry document.
#[derive(Clone, Debug, PartialEq, Eq)]
pub enum GeoJson {
    Geometry(Geometry),
    Feature(Feature),
    FeatureCollection(Vec<Feature>),
}

/// The body of a query that is restricted to a shape.
#[derive(Clone, Debug, PartialEq, Eq)]
pub struct JsonParams {
    pub shape: GeoJson,
}

/// The ring as the index takes it: latitude first. A position with fewer
/// than two numbers is left out; numbers behind the second are dropped.
pub open spec fn es_ring(ring: Seq<Vec<i32>>) -> Seq<(i32, i32)>
    decreases ring.len(),
{
    if ring.len() == 0 {
        Seq::empty()
    } else {
        let before = es_ring(ring.drop_last());
        let c = ring.last()@;
        if c.len() >= 2 {
            before.push((c[1], c[0]))
        } else {
            before
        }
    }
}

/// The shape filter that a document gives, or why it gives none.
pub open spec fn es_shape(shape: GeoJson) -> Result<Seq<(i32, i32)>, BragiError> {
    match shape {
        GeoJson::Feature(f) => match f.geometry {
            Some(Geometry::Polygon(rings)) => if rings@.len() == 1 {
                Ok(es_ring(rings@[0]@))
            } else {
                Err(BragiError::InvalidShape(ShapeReason::PolygonWithHoles))
            },
            Some(_) => Err(BragiError::InvalidShape(ShapeReason::OnlyPolygon)),
            None => Err(BragiError::InvalidShape(ShapeReason::NoGeometry)),
        },
        _ => Err(BragiError::InvalidShape(ShapeReason::OnlyFeature)),
    }
}

/// Where every position has its two numbers, the ring keeps its length and
/// each position comes out with latitude and longitude exchanged.
pub proof fn lemma_es_ring_swaps(ring: Seq<Vec<i32>>)
    requires
        forall|i: int| 0 <= i < ring.len() ==> (#[trigger] ring[i])@.len() >= 2,
    ensures
        es_ring(ring).len() == ring.len(),
        forall|i: int|
            0 <= i < ring.len() ==> #[trigger] es_ring(ring)[i] == (ring[i]@[1], ring[i]@[0]),
    decreases ring.len(),
{
    if ring.len() > 0 {
        let head = ring.drop_last();
        assert forall|i: int| 0 <= i < head.len() implies (#[trigger] head[i])@.len() >= 2 by {
            assert(head[i] == ring[i]);
        }
        lemma_es_ring_swaps(head);
        assert forall|i: int| 0 <= i < ring.len() implies #[trigger] es_ring(ring)[i] == (
            ring[i]@[1],
            ring[i]@[0],
        ) by {
            if i < head.len() {
                assert(head[i] == ring[i]);
            }
        }
    }
}

/// Turns a ring of positions into the ring that the index takes.
pub fn swap_ring(ring: &Vec<Vec<i32>>) -> (out: Vec<(i32, i32)>)
    ensures
        out@ == es_ring(ring@),
{
    let mut out: Vec<(i32, i32)> = Vec::new();
    let n: usize = ring.len();
    let mut i: usize = 0;
    while i < n
        invariant
            i <= n,
            n == ring@.len(),
            out@ == es_ring(ring@.subrange(0, i as int)),
        decreases n - i,
    {
        assert(ring@.subrange(0, i + 1).drop_last() =~= ring@.subrange(0, i as int));
        let c = &ring[i];
        if c.len() >= 2 {
            out.push((c[1], c[0]));
        }
        i += 1;
    }
    assert(ring@.subrange(0, n as int) =~= ring@);
    out
}

impl JsonParams {
    /// The shape filter of the body: the one ring of the polygon of its
    /// feature, latitude first. Anything but a feature, a feature without
    /// geometry, a geometry that is no polygon and a polygon that does not
    /// have exactly one ring are refused, each for its own reason.
    pub fn get_es_shape(&self) -> (r: Result<Vec<(i32, i32)>, BragiError>)
        ensures
            match r {
                Ok(ring) => es_shape(self.shape) == Ok::<Seq<(i32, i32)>, BragiError>(ring@),
                Err(e) => es_shape(self.shape) == Err::<Seq<(i32, i32)>, BragiError>(e),
            },
    {
        match &self.shape {
            GeoJson::Feature(f) => match &f.geometry {
                Some(geom) => match geom {
                    Geometry::Polygon(rings) => if rings.len() == 1 {
                        Ok(swap_ring(&rings[0]))
                    } else {
                        Err(BragiError::InvalidShape(ShapeReason::PolygonWithHoles))
                    },
                    _ => Err(BragiError::InvalidShape(ShapeReason::OnlyPolygon)),
                },
                None => Err(BragiError::InvalidShape(ShapeReason::NoGeometry)),
            },
            _ => Err(BragiError::InvalidShape(ShapeReason::OnlyFeature)),
        }
    }
}

} // verus!
