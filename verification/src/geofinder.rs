use vstd::prelude::*;
use crate::admin::{Admin, AdminRegion, crosses, encloses, following, ring_parity};
use crate::coord::Coord;

verus! {

/// An axis-aligned box of positions.
#[derive(Clone, Copy, Debug, PartialEq, Eq, Structural)]
pub struct BBox {
    pub min_lon: i32,
    pub max_lon: i32,
    pub min_lat: i32,
    pub max_lat: i32,
}

impl BBox {
    /// Whether `p` lies in the box, its border included.
    pub open spec fn holds(self, p: Coord) -> bool {
        self.min_lon <= p.lon <= self.max_lon && self.min_lat <= p.lat <= self.max_lat
    }

    /// Whether every vertex of the ring lies in the box.
    pub open spec fn covers_ring(self, ring: Seq<Coord>) -> bool {
        forall|j: int| 0 <= j < ring.len() ==> self.holds(#[trigger] ring[j])
    }

    /// Whether every vertex of the first `k` rings lies in the box.
    pub open spec fn covers(self, rings: Seq<Seq<Coord>>, k: int) -> bool {
        forall|i: int| 0 <= i < k ==> self.covers_ring(#[trigger] rings[i])
    }

    /// Decides whether `p` lies in the box.
    pub fn has(&self, p: Coord) -> (r: bool)
        ensures
            r == self.holds(p),
    {
        self.min_lon <= p.lon && p.lon <= self.max_lon && self.min_lat <= p.lat && p.lat
            <= self.max_lat
    }

    /// Whether the box lies within `other`, side by side.
    pub open spec fn within(self, other: BBox) -> bool {
        other.min_lon <= self.min_lon && self.max_lon <= other.max_lon && other.min_lat
            <= self.min_lat && self.max_lat <= other.max_lat
    }

    /// The least box around a boundary: it covers every vertex and lies
    /// within every box that does. Where the boundary has no vertex it holds
    /// no position.
    pub fn around(boundary: &Vec<Vec<Coord>>) -> (b: BBox)
        ensures
            b.covers(Seq::new(boundary@.len(), |i: int| boundary@[i]@), boundary@.len() as int),
            forall|c: BBox|
                c.covers(Seq::new(boundary@.len(), |i: int| boundary@[i]@), boundary@.len() as int)
                    ==> b.within(c),
    {
        let ghost rings = Seq::new(boundary@.len(), |i: int| boundary@[i]@);
        let mut b = BBox { min_lon: i32::MAX, max_lon: i32::MIN, min_lat: i32::MAX, max_lat: i32::MIN };
        let n: usize = boundary.len();
        let mut i: usize = 0;
        while i < n
            invariant
                i <= n,
                n == boundary@.len(),
                rings == Seq::new(boundary@.len(), |i: int| boundary@[i]@),
                b.covers(rings, i as int),
                forall|c: BBox| c.covers(rings, i as int) ==> b.within(c),
            decreases n - i,
        {
            let ring = &boundary[i];
            assert(rings[i as int] == ring@);
            let m: usize = ring.len();
            let mut j: usize = 0;
            while j < m
                invariant
                    j <= m,
                    m == ring@.len(),
                    b.covers(rings, i as int),
                    forall|t: int| 0 <= t < j ==> b.holds(#[trigger] ring@[t]),
                    forall|c: BBox|
                        c.covers(rings, i as int) && (forall|t: int|
                            0 <= t < j ==> c.holds(#[trigger] ring@[t])) ==> b.within(c),
                decreases m - j,
            {
                let c: Coord = ring[j];
                let ghost before = b;
                if c.lon < b.min_lon {
                    b.min_lon = c.lon;
                }
                if c.lon > b.max_lon {
                    b.max_lon = c.lon;
                }
                if c.lat < b.min_lat {
                    b.min_lat = c.lat;
                }
                if c.lat > b.max_lat {
                    b.max_lat = c.lat;
                }
                proof {
                    lemma_grown(before, b, rings, i as int);
                    assert forall|c: BBox|
                        c.covers(rings, i as int) && (forall|t: int|
                            0 <= t < j + 1 ==> c.holds(#[trigger] ring@[t])) implies b.within(
                        c,
                    ) by {
                        assert(c.holds(ring@[j as int]));
                        assert(before.within(c));
                    }
                }
                j += 1;
            }
            proof {
                assert forall|c: BBox| c.covers(rings, i + 1) implies b.within(c) by {
                    assert(c.covers_ring(rings[i as int]));
                    assert(c.covers(rings, i as int));
                }
            }
            i += 1;
        }
        b
    }
}

/// A box that grows still covers what it covered.
proof fn lemma_grown(small: BBox, large: BBox, rings: Seq<Seq<Coord>>, k: int)
    requires
        small.covers(rings, k),
        large.min_lon <= small.min_lon,
        large.max_lon >= small.max_lon,
        large.min_lat <= small.min_lat,
        large.max_lat >= small.max_lat,
    ensures
        large.covers(rings, k),
        forall|p: Coord| small.holds(p) ==> large.holds(p),
{
    assert forall|i: int| 0 <= i < k implies large.covers_ring(#[trigger] rings[i]) by {
        assert(small.covers_ring(rings[i]));
    }
}

/// West of both ends, the half-line meets an edge exactly when the ends lie
/// on different sides of its latitude.
proof fn lemma_edge_west(a: Coord, b: Coord, p: Coord)
    requires
        p.lon < a.lon,
        p.lon < b.lon,
    ensures
        crosses(a, b, p) == ((a.lat > p.lat) != (b.lat > p.lat)),
{
    let rise: int = b.lat - a.lat;
    let run: int = b.lon - a.lon;
    let dx: int = p.lon - a.lon;
    let dy: int = p.lat - a.lat;
    if (a.lat > p.lat) != (b.lat > p.lat) {
        if b.lat > a.lat {
            assert(dx * rise < dy * run) by (nonlinear_arith)
                requires
                    dx < 0,
                    dx < run,
                    rise > 0,
                    0 <= dy < rise,
            {
                if run >= 0 {
                    assert(dx * rise < 0);
                    assert(dy * run >= 0);
                } else {
                    assert((run - dx) * rise > 0);
                    assert(run * (rise - dy) < 0);
                }
            }
        } else {
            assert(dx * rise > dy * run) by (nonlinear_arith)
                requires
                    dx < 0,
                    dx < run,
                    rise < 0,
                    rise <= dy < 0,
            {
                if run >= 0 {
                    assert(dx * rise > 0);
                    assert(dy * run <= 0);
                } else {
                    assert((dy - rise) * run <= 0);
                    assert((run - dx) * rise < 0);
                }
            }
        }
    }
}

/// East of both ends, the half-line meets no edge.
proof fn lemma_edge_east(a: Coord, b: Coord, p: Coord)
    requires
        p.lon > a.lon,
        p.lon > b.lon,
    ensures
        !crosses(a, b, p),
{
    let rise: int = b.lat - a.lat;
    let run: int = b.lon - a.lon;
    let dx: int = p.lon - a.lon;
    let dy: int = p.lat - a.lat;
    if (a.lat > p.lat) != (b.lat > p.lat) {
        if b.lat > a.lat {
            assert(dx * rise >= dy * run) by (nonlinear_arith)
                requires
                    dx > 0,
                    dx > run,
                    rise > 0,
                    0 <= dy < rise,
            {
                if run <= 0 {
                    assert(dx * rise > 0);
                    assert(dy * run <= 0);
                } else {
                    assert((rise - dy) * run > 0);
                    assert((dx - run) * rise > 0);
                }
            }
        } else {
            assert(dx * rise <= dy * run) by (nonlinear_arith)
                requires
                    dx > 0,
                    dx > run,
                    rise < 0,
                    rise <= dy < 0,
            {
                if run <= 0 {
                    assert(dx * rise < 0);
                    assert(dy * run >= 0);
                } else {
                    assert((dy - rise) * run >= 0);
                    assert((dx - run) * rise < 0);
                }
            }
        }
    }
}

/// Vertex `k` of a closed ring, where vertex `len` is the first again.
pub open spec fn vertex(ring: Seq<Coord>, k: int) -> Coord {
    if k == ring.len() {
        ring[0]
    } else {
        ring[k]
    }
}

/// What the first `k` edges of a ring inside a box add up to for a
/// position outside of it.
proof fn lemma_ring_prefix(ring: Seq<Coord>, b: BBox, p: Coord, k: nat)
    requires
        b.covers_ring(ring),
        !b.holds(p),
        k <= ring.len(),
    ensures
        ring_parity(ring, p, k) == if p.lon < b.min_lon && k > 0 {
            (ring[0].lat > p.lat) != (vertex(ring, k as int).lat > p.lat)
        } else {
            false
        },
    decreases k,
{
    if k > 0 {
        lemma_ring_prefix(ring, b, p, (k - 1) as nat);
        let u = ring[k - 1];
        let v = following(ring, k - 1);
        assert(v == vertex(ring, k as int));
        assert(b.holds(u));
        assert(b.holds(ring[0]));
        assert(b.holds(v));
        if p.lon < b.min_lon {
            lemma_edge_west(u, v, p);
        } else if p.lon > b.max_lon {
            lemma_edge_east(u, v, p);
        } else {
            assert((u.lat > p.lat) == (v.lat > p.lat));
        }
    }
}

/// A boundary encloses no position outside a box that covers its vertices.
pub proof fn lemma_outside_box(rings: Seq<Seq<Coord>>, b: BBox, p: Coord, k: nat)
    requires
        b.covers(rings, rings.len() as int),
        !b.holds(p),
        k <= rings.len(),
    ensures
        !encloses(rings, p, k),
    decreases k,
{
    if k > 0 {
        lemma_outside_box(rings, b, p, (k - 1) as nat);
        let ring = rings[k - 1];
        assert(b.covers_ring(ring));
        lemma_ring_prefix(ring, b, p, ring.len());
    }
}

/// The regions that enclose `p`, in the order of `regions`.
pub open spec fn containing(regions: Seq<AdminRegion>, p: Coord) -> Seq<Admin>
    decreases regions.len(),
{
    if regions.len() == 0 {
        Seq::empty()
    } else {
        let before = containing(regions.drop_last(), p);
        if regions.last().contains(p) {
            before.push(regions.last().admin)
        } else {
            before
        }
    }
}

/// Whether `admin` is a region among `regions` that encloses `p`.
pub open spec fn is_around(regions: Seq<AdminRegion>, p: Coord, admin: Admin) -> bool {
    exists|i: int|
        0 <= i < regions.len() && (#[trigger] regions[i]).contains(p) && regions[i].admin == admin
}

/// What is found around a position is a region that encloses it, and every
/// region that encloses it is found, whatever its level and whatever else
/// is found at that level.
pub proof fn lemma_containing(regions: Seq<AdminRegion>, p: Coord)
    ensures
        forall|j: int|
            0 <= j < containing(regions, p).len() ==> is_around(
                regions,
                p,
                #[trigger] containing(regions, p)[j],
            ),
        forall|i: int|
            0 <= i < regions.len() && (#[trigger] regions[i]).contains(p) ==> containing(
                regions,
                p,
            ).contains(regions[i].admin),
    decreases regions.len(),
{
    if regions.len() > 0 {
        let head = regions.drop_last();
        let found = containing(regions, p);
        let before = containing(head, p);
        lemma_containing(head, p);
        assert forall|j: int| 0 <= j < found.len() implies is_around(
            regions,
            p,
            #[trigger] found[j],
        ) by {
            if j < before.len() {
                assert(found[j] == before[j]);
                assert(is_around(head, p, before[j]));
                let i = choose|i: int|
                    0 <= i < head.len() && (#[trigger] head[i]).contains(p) && head[i].admin
                        == before[j];
                assert(regions[i] == head[i]);
            } else {
                assert(regions[regions.len() - 1].admin == found[j]);
            }
        }
        assert forall|i: int| 0 <= i < regions.len() && (#[trigger] regions[i]).contains(
            p,
        ) implies found.contains(regions[i].admin) by {
            if i < head.len() {
                assert(head[i] == regions[i]);
                assert(before.contains(head[i].admin));
                let t = choose|t: int| 0 <= t < before.len() && before[t] == head[i].admin;
                assert(found[t] == regions[i].admin);
            } else {
                assert(found[found.len() - 1] == regions[i].admin);
            }
        }
    }
}

/// Finds the administrative regions around a position. Each region is kept
/// with a box around its boundary, which spares the exact test for the
/// positions outside of it.
pub struct AdminGeoFinder {
    regions: Vec<AdminRegion>,
    boxes: Vec<BBox>,
}

impl View for AdminGeoFinder {
    type V = Seq<AdminRegion>;

    closed spec fn view(&self) -> Seq<AdminRegion> {
        self.regions@
    }
}

impl AdminGeoFinder {
    /// Every region has its box, and the box covers the region's boundary.
    #[verifier::type_invariant]
    closed spec fn wf(self) -> bool {
        &&& self.boxes@.len() == self.regions@.len()
        &&& forall|i: int|
            0 <= i < self.regions@.len() ==> (#[trigger] self.boxes@[i]).covers(
                self.regions@[i].rings(),
                self.regions@[i].rings().len() as int,
            )
    }

    /// Indexes the regions, which keep their order.
    pub fn build(regions: Vec<AdminRegion>) -> (g: AdminGeoFinder)
        ensures
            g@ == regions@,
    {
        let mut boxes: Vec<BBox> = Vec::new();
        let n: usize = regions.len();
        let mut i: usize = 0;
        while i < n
            invariant
                i <= n,
                n == regions@.len(),
                boxes@.len() == i,
                forall|t: int|
                    0 <= t < i ==> (#[trigger] boxes@[t]).covers(
                        regions@[t].rings(),
                        regions@[t].rings().len() as int,
                    ),
            decreases n - i,
        {
            let b = BBox::around(&regions[i].boundary);
            boxes.push(b);
            i += 1;
        }
        AdminGeoFinder { regions, boxes }
    }

    /// The number of regions indexed.
    pub fn len(&self) -> (n: usize)
        ensures
            n == self@.len(),
    {
        self.regions.len()
    }

    /// Every region whose boundary encloses `coord`, at whatever level, in
    /// the order in which the regions were given.
    pub fn get(&self, coord: &Coord) -> (found: Vec<Admin>)
        ensures
            found@ == containing(self@, *coord),
    {
        proof {
            use_type_invariant(self);
        }
        let p: Coord = *coord;
        let mut found: Vec<Admin> = Vec::new();
        let n: usize = self.regions.len();
        let mut i: usize = 0;
        while i < n
            invariant
                i <= n,
                n == self.regions@.len(),
                self.wf(),
                found@ == containing(self.regions@.subrange(0, i as int), p),
            decreases n - i,
        {
            let region = &self.regions[i];
            let ghost next = self.regions@.subrange(0, i + 1);
            assert(next.drop_last() =~= self.regions@.subrange(0, i as int));
            assert(next.last() == *region);
            let inside: bool = if self.boxes[i].has(p) {
                region.covers(p)
            } else {
                proof {
                    lemma_outside_box(region.rings(), self.boxes@[i as int], p, region.rings().len());
                }
                false
            };
            if inside {
                found.push(region.admin.clone());
            }
            i += 1;
        }
        assert(self.regions@.subrange(0, n as int) =~= self.regions@);
        found
    }
}

} // verus!
