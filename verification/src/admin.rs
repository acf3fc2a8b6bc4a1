use vstd::prelude::*;
use crate::coord::Coord;

verus! {

/// The administrative level of a city or municipality.
pub const CITY_LEVEL: u32 = 8;

/// An administrative region, as the enrichment of an address reads it.
#[derive(Debug, PartialEq, Eq)]
pub struct Admin {
    pub id: String,
    pub name: String,
    /// Depth in the administrative hierarchy.
    pub level: u32,
    /// Ranking score.
    pub weight: u64,
    /// Municipality code; empty where the region has none.
    pub insee: String,
}

impl Clone for Admin {
    fn clone(&self) -> (r: Self)
        ensures
            r == *self,
    {
        Admin {
            id: self.id.clone(),
            name: self.name.clone(),
            level: self.level,
            weight: self.weight,
            insee: self.insee.clone(),
        }
    }
}

/// An administrative region with the rings of its boundary.
#[derive(Debug, PartialEq, Eq)]
pub struct AdminRegion {
    pub admin: Admin,
    /// Closed rings; the last vertex of each is joined to its first.
    pub boundary: Vec<Vec<Coord>>,
}

impl AdminRegion {
    /// The rings of the boundary as sequences of vertices.
    pub open spec fn rings(self) -> Seq<Seq<Coord>> {
        Seq::new(self.boundary@.len(), |i: int| self.boundary@[i]@)
    }

    /// Whether the boundary encloses `p`.
    pub open spec fn contains(self, p: Coord) -> bool {
        encloses(self.rings(), p, self.rings().len())
    }

    /// Decides whether the boundary encloses `p`.
    pub fn covers(&self, p: Coord) -> (r: bool)
        ensures
            r == self.contains(p),
    {
        let n: usize = self.boundary.len();
        let mut inside: bool = false;
        let mut k: usize = 0;
        while k < n
            invariant
                k <= n,
                n == self.boundary@.len(),
                inside == encloses(self.rings(), p, k as nat),
            decreases n - k,
        {
            assert(self.rings()[k as int] == self.boundary@[k as int]@);
            if ring_is_odd(&self.boundary[k], p) {
                inside = !inside;
            }
            k += 1;
        }
        inside
    }
}

/// Whether the half-line that leaves `p` towards greater longitudes meets
/// the edge from `a` to `b`. An edge counts the end with the lesser latitude
/// and not the other, so that a vertex on the half-line is met once.
pub open spec fn crosses(a: Coord, b: Coord, p: Coord) -> bool {
    let east = (p.lon - a.lon) * (b.lat - a.lat);
    let north = (p.lat - a.lat) * (b.lon - a.lon);
    (a.lat > p.lat) != (b.lat > p.lat) && if b.lat > a.lat {
        east < north
    } else {
        east > north
    }
}

/// The vertex that follows vertex `k` on a closed ring.
pub open spec fn following(ring: Seq<Coord>, k: int) -> Coord {
    if k + 1 == ring.len() {
        ring[0]
    } else {
        ring[k + 1]
    }
}

/// Whether the half-line from `p` meets an odd number of the first `k`
/// edges of the ring.
pub open spec fn ring_parity(ring: Seq<Coord>, p: Coord, k: nat) -> bool
    decreases k,
{
    if k == 0 {
        false
    } else {
        ring_parity(ring, p, (k - 1) as nat) != crosses(
            ring[k - 1],
            following(ring, k - 1),
            p,
        )
    }
}

/// Even-odd rule over the first `k` rings: `p` is enclosed when the
/// half-line from it meets an odd number of edges in all.
pub open spec fn encloses(rings: Seq<Seq<Coord>>, p: Coord, k: nat) -> bool
    decreases k,
{
    if k == 0 {
        false
    } else {
        encloses(rings, p, (k - 1) as nat) != ring_parity(rings[k - 1], p, rings[k - 1].len())
    }
}

/// Decides whether the half-line from `p` meets the edge from `a` to `b`.
pub fn edge_crosses(a: Coord, b: Coord, p: Coord) -> (r: bool)
    ensures
        r == crosses(a, b, p),
{
    if (a.lat > p.lat) == (b.lat > p.lat) {
        return false;
    }
    let rise: i128 = (b.lat as i128) - (a.lat as i128);
    let run: i128 = (b.lon as i128) - (a.lon as i128);
    let dx: i128 = (p.lon as i128) - (a.lon as i128);
    let dy: i128 = (p.lat as i128) - (a.lat as i128);
    assert(-0x1_0000_0000_0000_0000 <= dx * rise <= 0x1_0000_0000_0000_0000) by (nonlinear_arith)
        requires
            -0x1_0000_0000 <= dx <= 0x1_0000_0000,
            -0x1_0000_0000 <= rise <= 0x1_0000_0000,
    ;
    assert(-0x1_0000_0000_0000_0000 <= dy * run <= 0x1_0000_0000_0000_0000) by (nonlinear_arith)
        requires
            -0x1_0000_0000 <= dy <= 0x1_0000_0000,
            -0x1_0000_0000 <= run <= 0x1_0000_0000,
    ;
    let east: i128 = dx * rise;
    let north: i128 = dy * run;
    if b.lat > a.lat {
        east < north
    } else {
        east > north
    }
}

/// Decides whether the half-line from `p` meets the ring an odd number of
/// times.
pub fn ring_is_odd(ring: &Vec<Coord>, p: Coord) -> (odd: bool)
    ensures
        odd == ring_parity(ring@, p, ring@.len()),
{
    let n: usize = ring.len();
    let mut odd: bool = false;
    let mut k: usize = 0;
    while k < n
        invariant
            k <= n,
            n == ring@.len(),
            odd == ring_parity(ring@, p, k as nat),
        decreases n - k,
    {
        let a: Coord = ring[k];
        let b: Coord = if k + 1 == n {
            ring[0]
        } else {
            ring[k + 1]
        };
        if edge_crosses(a, b, p) {
            odd = !odd;
        }
        k += 1;
    }
    odd
}

} // verus!
