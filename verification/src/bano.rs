use vstd::prelude::*;
use vstd::string::*;
use crate::admin::{Admin, AdminRegion, CITY_LEVEL};
use crate::coord::{decimal, degrees_text, Coord};
use crate::error::ImportError;
use crate::geofinder::{containing, AdminGeoFinder};
use crate::text::str_eq;

verus! {

/// A raw address record.
#[derive(Clone, Debug, PartialEq, Eq)]
pub struct Bano {
    /// Composite identifier: its first five characters are the municipality
    /// code, its first ten the street code.
    pub id: String,
    /// House number.
    pub nb: String,
    pub street: String,
    pub zip: String,
    pub city: String,
    pub src: String,
    pub lat: i32,
    pub lon: i32,
}

/// A street, as it is indexed inside an address.
#[derive(Clone, Debug, PartialEq, Eq)]
pub struct Street {
    pub id: String,
    pub name: String,
    pub label: String,
    pub administrative_regions: Vec<Admin>,
    pub weight: u64,
    pub zip_codes: Vec<String>,
    pub coord: Coord,
}

/// An address, as it is indexed.
#[derive(Clone, Debug, PartialEq, Eq)]
pub struct Addr {
    pub id: String,
    pub name: String,
    pub house_number: String,
    pub street: Street,
    pub label: String,
    pub coord: Coord,
    pub weight: u64,
    pub zip_codes: Vec<String>,
}

/// A text without its leading zeros.
pub open spec fn trim_zeros(s: Seq<char>) -> Seq<char>
    decreases s.len(),
{
    if s.len() > 0 && s[0] == '0' {
        trim_zeros(s.skip(1))
    } else {
        s
    }
}

/// The municipality code that an identifier holds.
pub open spec fn insee_of(id: Seq<char>) -> Seq<char> {
    trim_zeros(id.subrange(0, 5))
}

/// The street code that an identifier holds.
pub open spec fn fantoir_of(id: Seq<char>) -> Seq<char> {
    id.subrange(0, 10)
}

/// The regions of `chain` that are not at `level`, in their order.
pub open spec fn without_level(chain: Seq<Admin>, level: u32) -> Seq<Admin>
    decreases chain.len(),
{
    if chain.len() == 0 {
        Seq::empty()
    } else {
        let before = without_level(chain.drop_last(), level);
        if chain.last().level != level {
            before.push(chain.last())
        } else {
            before
        }
    }
}

/// The regions of an address: those found around it, where the region
/// named by the municipality code, if there is one, replaces all that were
/// found at its level.
pub open spec fn chain_of(found: Seq<Admin>, named: Option<Admin>) -> Seq<Admin> {
    match named {
        Some(admin) => without_level(found, admin.level).push(admin),
        None => found,
    }
}

/// The weight of the first city in the chain, or zero without one.
pub open spec fn weight_of(chain: Seq<Admin>) -> u64
    decreases chain.len(),
{
    if chain.len() == 0 {
        0
    } else if chain[0].level == CITY_LEVEL {
        chain[0].weight
    } else {
        weight_of(chain.skip(1))
    }
}

/// The entry of a table under a key, if it has one.
pub open spec fn entry(table: Map<Seq<char>, Admin>, key: Seq<char>) -> Option<Admin> {
    if table.contains_key(key) {
        Some(table[key])
    } else {
        None
    }
}

/// Whether `addr` is the indexed form of `raw`, given the regions found
/// around its position and the region that its municipality code names.
pub open spec fn is_enriched(raw: Bano, chain: Seq<Admin>, addr: Addr) -> bool {
    let coord = Coord { lon: raw.lon, lat: raw.lat };
    let name = raw.nb@ + " "@ + raw.street@;
    &&& addr.id@ == "addr:"@ + decimal(raw.lon as int) + ";"@ + decimal(raw.lat as int)
    &&& addr.name@ == name
    &&& addr.house_number@ == raw.nb@
    &&& addr.label@ == name + " ("@ + raw.city@ + ")"@
    &&& addr.coord == coord
    &&& addr.weight == weight_of(chain)
    &&& addr.zip_codes@.len() == 1
    &&& addr.zip_codes@[0]@ == raw.zip@
    &&& addr.street.id@ == "street:"@ + fantoir_of(raw.id@)
    &&& addr.street.name@ == raw.street@
    &&& addr.street.label@ == raw.street@ + " ("@ + raw.city@ + ")"@
    &&& addr.street.administrative_regions@ == chain
    &&& addr.street.weight == weight_of(chain)
    &&& addr.street.zip_codes@.len() == 1
    &&& addr.street.zip_codes@[0]@ == raw.zip@
    &&& addr.street.coord == coord
}

/// What the import makes of `raw`: nothing where the identifier is too
/// short, else the address with its chain of regions.
pub open spec fn import_of(
    raw: Bano,
    table: Map<Seq<char>, Admin>,
    regions: Seq<AdminRegion>,
    out: Result<Addr, ImportError>,
) -> bool {
    match out {
        Ok(addr) => raw.id@.len() >= 10 && is_enriched(
            raw,
            chain_of(
                containing(regions, Coord { lon: raw.lon, lat: raw.lat }),
                entry(table, insee_of(raw.id@)),
            ),
            addr,
        ),
        Err(e) => raw.id@.len() < 10 && e == ImportError::MalformedIdentifier,
    }
}

/// The weight of a chain is that of its first city.
pub proof fn lemma_weight_of_city(chain: Seq<Admin>, i: int)
    requires
        0 <= i < chain.len(),
        chain[i].level == CITY_LEVEL,
        forall|j: int| 0 <= j < i ==> (#[trigger] chain[j]).level != CITY_LEVEL,
    ensures
        weight_of(chain) == chain[i].weight,
    decreases i,
{
    if i > 0 {
        let rest = chain.skip(1);
        assert(chain[0].level != CITY_LEVEL);
        assert forall|j: int| 0 <= j < i - 1 implies (#[trigger] rest[j]).level != CITY_LEVEL by {
            assert(rest[j] == chain[j + 1]);
        }
        lemma_weight_of_city(rest, i - 1);
    }
}

/// A chain without a city weighs nothing.
pub proof fn lemma_weight_without_city(chain: Seq<Admin>)
    requires
        forall|j: int| 0 <= j < chain.len() ==> (#[trigger] chain[j]).level != CITY_LEVEL,
    ensures
        weight_of(chain) == 0,
    decreases chain.len(),
{
    if chain.len() > 0 {
        let rest = chain.skip(1);
        assert(chain[0].level != CITY_LEVEL);
        assert forall|j: int| 0 <= j < rest.len() implies (#[trigger] rest[j]).level
            != CITY_LEVEL by {
            assert(rest[j] == chain[j + 1]);
        }
        lemma_weight_without_city(rest);
    }
}

/// Taking a level out of a chain leaves no region at that level, nothing
/// that was not in the chain, and every region of the chain at another level.
pub proof fn lemma_without_level(chain: Seq<Admin>, level: u32)
    ensures
        forall|j: int|
            0 <= j < without_level(chain, level).len() ==> (#[trigger] without_level(
                chain,
                level,
            )[j]).level != level && chain.contains(without_level(chain, level)[j]),
        forall|i: int|
            0 <= i < chain.len() && (#[trigger] chain[i]).level != level ==> without_level(
                chain,
                level,
            ).contains(chain[i]),
    decreases chain.len(),
{
    if chain.len() > 0 {
        let head = chain.drop_last();
        let kept = without_level(chain, level);
        let before = without_level(head, level);
        lemma_without_level(head, level);
        assert forall|j: int| 0 <= j < kept.len() implies (#[trigger] kept[j]).level != level
            && chain.contains(kept[j]) by {
            if j < before.len() {
                assert(kept[j] == before[j]);
                assert(head.contains(before[j]));
                let t = choose|t: int| 0 <= t < head.len() && head[t] == before[j];
                assert(chain[t] == kept[j]);
            } else {
                assert(kept[j] == chain[chain.len() - 1]);
            }
        }
        assert forall|i: int| 0 <= i < chain.len() && (#[trigger] chain[i]).level
            != level implies kept.contains(chain[i]) by {
            if i < head.len() {
                assert(head[i] == chain[i]);
                assert(before.contains(head[i]));
                let t = choose|t: int| 0 <= t < before.len() && before[t] == head[i];
                assert(kept[t] == chain[i]);
            } else {
                assert(kept[kept.len() - 1] == chain[i]);
            }
        }
    }
}

/// Where the municipality code names a region, the chain ends with that
/// region, holds no other region at its level, and holds every region that
/// was found at another level.
pub proof fn lemma_override_wins(found: Seq<Admin>, admin: Admin)
    ensures
        chain_of(found, Some(admin)).len() >= 1,
        chain_of(found, Some(admin)).last() == admin,
        forall|j: int|
            0 <= j < chain_of(found, Some(admin)).len() - 1 ==> (#[trigger] chain_of(
                found,
                Some(admin),
            )[j]).level != admin.level && found.contains(chain_of(found, Some(admin))[j]),
        forall|i: int|
            0 <= i < found.len() && (#[trigger] found[i]).level != admin.level ==> chain_of(
                found,
                Some(admin),
            ).contains(found[i]),
{
    let kept = without_level(found, admin.level);
    let chain = chain_of(found, Some(admin));
    lemma_without_level(found, admin.level);
    assert forall|j: int| 0 <= j < chain.len() - 1 implies (#[trigger] chain[j]).level
        != admin.level && found.contains(chain[j]) by {
        assert(chain[j] == kept[j]);
    }
    assert forall|i: int| 0 <= i < found.len() && (#[trigger] found[i]).level
        != admin.level implies chain.contains(found[i]) by {
        assert(kept.contains(found[i]));
        let t = choose|t: int| 0 <= t < kept.len() && kept[t] == found[i];
        assert(chain[t] == found[i]);
    }
}

/// The regions keyed by municipality code.
pub struct AdminFromInsee {
    entries: Vec<(String, Admin)>,
}

/// The table that a list of entries stands for: a later entry replaces an
/// earlier one under the same key.
pub open spec fn table_of(entries: Seq<(String, Admin)>) -> Map<Seq<char>, Admin>
    decreases entries.len(),
{
    if entries.len() == 0 {
        Map::empty()
    } else {
        table_of(entries.drop_last()).insert(entries.last().0@, entries.last().1)
    }
}

/// The table of the regions that have a municipality code.
pub open spec fn by_insee(regions: Seq<AdminRegion>) -> Map<Seq<char>, Admin>
    decreases regions.len(),
{
    if regions.len() == 0 {
        Map::empty()
    } else {
        let before = by_insee(regions.drop_last());
        let admin = regions.last().admin;
        if admin.insee@.len() == 0 {
            before
        } else {
            before.insert(admin.insee@, admin)
        }
    }
}

impl View for AdminFromInsee {
    type V = Map<Seq<char>, Admin>;

    closed spec fn view(&self) -> Map<Seq<char>, Admin> {
        table_of(self.entries@)
    }
}

impl AdminFromInsee {
    pub fn new() -> (t: AdminFromInsee)
        ensures
            t@ == Map::<Seq<char>, Admin>::empty(),
    {
        AdminFromInsee { entries: Vec::new() }
    }

    /// Puts `admin` under `insee`, in place of what was there.
    pub fn insert(&mut self, insee: String, admin: Admin)
        ensures
            final(self)@ == old(self)@.insert(insee@, admin),
    {
        let ghost before = self.entries@;
        self.entries.push((insee, admin));
        assert(self.entries@.drop_last() =~= before);
    }

    /// The region under `insee`, if there is one.
    pub fn get(&self, insee: &str) -> (r: Option<&Admin>)
        ensures
            match r {
                Some(admin) => entry(self@, insee@) == Some(*admin),
                None => entry(self@, insee@).is_none(),
            },
    {
        let n: usize = self.entries.len();
        let mut best: Option<&Admin> = None;
        let mut i: usize = 0;
        while i < n
            invariant
                i <= n,
                n == self.entries@.len(),
                match best {
                    Some(admin) => entry(table_of(self.entries@.subrange(0, i as int)), insee@)
                        == Some(*admin),
                    None => entry(
                        table_of(self.entries@.subrange(0, i as int)),
                        insee@,
                    ).is_none(),
                },
            decreases n - i,
        {
            assert(self.entries@.subrange(0, i + 1).drop_last() =~= self.entries@.subrange(
                0,
                i as int,
            ));
            if str_eq(self.entries[i].0.as_str(), insee) {
                best = Some(&self.entries[i].1);
            }
            i += 1;
        }
        assert(self.entries@.subrange(0, n as int) =~= self.entries@);
        best
    }
}

/// The table of the regions that have a municipality code; of two regions
/// with the same code the later one stays.
pub fn admins_by_insee(regions: &Vec<AdminRegion>) -> (t: AdminFromInsee)
    ensures
        t@ == by_insee(regions@),
{
    let mut t = AdminFromInsee::new();
    let n: usize = regions.len();
    let mut i: usize = 0;
    while i < n
        invariant
            i <= n,
            n == regions@.len(),
            t@ == by_insee(regions@.subrange(0, i as int)),
        decreases n - i,
    {
        assert(regions@.subrange(0, i + 1).drop_last() =~= regions@.subrange(0, i as int));
        let admin = &regions[i].admin;
        if !admin.insee.as_str().is_empty() {
            t.insert(admin.insee.clone(), admin.clone());
        }
        i += 1;
    }
    assert(regions@.subrange(0, n as int) =~= regions@);
    t
}

/// Copies the regions of `chain` that are not at `level`.
pub fn retain_other_levels(chain: &Vec<Admin>, level: u32) -> (kept: Vec<Admin>)
    ensures
        kept@ == without_level(chain@, level),
{
    let mut kept: Vec<Admin> = Vec::new();
    let n: usize = chain.len();
    let mut i: usize = 0;
    while i < n
        invariant
            i <= n,
            n == chain@.len(),
            kept@ == without_level(chain@.subrange(0, i as int), level),
        decreases n - i,
    {
        assert(chain@.subrange(0, i + 1).drop_last() =~= chain@.subrange(0, i as int));
        if chain[i].level != level {
            kept.push(chain[i].clone());
        }
        i += 1;
    }
    assert(chain@.subrange(0, n as int) =~= chain@);
    kept
}

/// The weight of the first city in the chain, or zero without one.
pub fn city_weight(chain: &Vec<Admin>) -> (w: u64)
    ensures
        w == weight_of(chain@),
{
    let n: usize = chain.len();
    let mut i: usize = 0;
    assert(chain@.skip(0) =~= chain@);
    while i < n
        invariant
            i <= n,
            n == chain@.len(),
            weight_of(chain@) == weight_of(chain@.skip(i as int)),
        decreases n - i,
    {
        if chain[i].level == CITY_LEVEL {
            return chain[i].weight;
        }
        assert(chain@.skip(i as int).skip(1) =~= chain@.skip(i + 1));
        i += 1;
    }
    0
}

impl Bano {
    /// The municipality code: the first five characters of the identifier
    /// without their leading zeros.
    pub fn insee(&self) -> (r: &str)
        requires
            self.id@.len() >= 5,
        ensures
            r@ == insee_of(self.id@),
    {
        let id = self.id.as_str();
        let ghost head = self.id@.subrange(0, 5);
        let mut k: usize = 0;
        assert(head.skip(0) =~= head);
        while k < 5 && id.get_char(k) == '0'
            invariant
                k <= 5,
                id@ == self.id@,
                id@.len() >= 5,
                head == self.id@.subrange(0, 5),
                trim_zeros(head) == trim_zeros(head.skip(k as int)),
            decreases 5 - k,
        {
            assert(head.skip(k as int).skip(1) =~= head.skip(k + 1));
            k += 1;
        }
        assert(head.skip(k as int) =~= id@.subrange(k as int, 5));
        id.substring_char(k, 5)
    }

    /// The street code: the first ten characters of the identifier.
    pub fn fantoir(&self) -> (r: &str)
        requires
            self.id@.len() >= 10,
        ensures
            r@ == fantoir_of(self.id@),
    {
        self.id.as_str().substring_char(0, 10)
    }

    /// The indexed address of this record. The regions are those that the
    /// finder gives for the record's position; where the table names a
    /// region for the record's municipality code, that region replaces the
    /// ones found at its level. A record whose identifier has fewer than ten
    /// characters is refused.
    pub fn enrich(&self, admins_from_insee: &AdminFromInsee, admins_geofinder: &AdminGeoFinder) -> (r:
        Result<Addr, ImportError>)
        ensures
            import_of(*self, admins_from_insee@, admins_geofinder@, r),
    {
        if self.id.as_str().unicode_len() < 10 {
            return Err(ImportError::MalformedIdentifier);
        }
        let mut street_label = self.street.clone();
        street_label.append(" (");
        street_label.append(self.city.as_str());
        street_label.append(")");
        let mut addr_name = self.nb.clone();
        addr_name.append(" ");
        addr_name.append(self.street.as_str());
        let mut addr_label = addr_name.clone();
        addr_label.append(" (");
        addr_label.append(self.city.as_str());
        addr_label.append(")");
        let mut street_id = String::from_str("street:");
        street_id.append(self.fantoir());
        let coord = Coord::new(self.lon, self.lat);
        let mut admins = admins_geofinder.get(&coord);
        match admins_from_insee.get(self.insee()) {
            Some(admin) => {
                admins = retain_other_levels(&admins, admin.level);
                admins.push(admin.clone());
            },
            None => {},
        }
        let weight = city_weight(&admins);
        let mut addr_id = String::from_str("addr:");
        addr_id.append(degrees_text(self.lon).as_str());
        addr_id.append(";");
        addr_id.append(degrees_text(self.lat).as_str());
        let mut street_zip: Vec<String> = Vec::new();
        street_zip.push(self.zip.clone());
        let mut addr_zip: Vec<String> = Vec::new();
        addr_zip.push(self.zip.clone());
        let street = Street {
            id: street_id,
            name: self.street.clone(),
            label: street_label,
            administrative_regions: admins,
            weight,
            zip_codes: street_zip,
            coord,
        };
        Ok(
            Addr {
                id: addr_id,
                name: addr_name,
                house_number: self.nb.clone(),
                street,
                label: addr_label,
                coord,
                weight,
                zip_codes: addr_zip,
            },
        )
    }

    /// The indexed address of this record, which is used up; see `enrich`.
    pub fn into_addr(self, admins_from_insee: &AdminFromInsee, admins_geofinder: &AdminGeoFinder) -> (r:
        Result<Addr, ImportError>)
        ensures
            import_of(self, admins_from_insee@, admins_geofinder@, r),
    {
        self.enrich(admins_from_insee, admins_geofinder)
    }
}

/// Imports the records against the regions that the index holds. Without
/// regions (`None`: the index has none yet) every address gets an empty
/// chain and weight zero. Each record gives its address or its refusal, in
/// the order of the records.
pub fn index_bano(admins: Option<Vec<AdminRegion>>, records: &Vec<Bano>) -> (out: Vec<
    Result<Addr, ImportError>,
>)
    ensures
        out@.len() == records@.len(),
        forall|i: int|
            0 <= i < records@.len() ==> import_of(
                records@[i],
                by_insee(regions_or_none(admins)),
                regions_or_none(admins),
                #[trigger] out@[i],
            ),
{
    let regions: Vec<AdminRegion> = match admins {
        Some(found) => found,
        None => Vec::new(),
    };
    let admins_by_insee = admins_by_insee(&regions);
    let admins_geofinder = AdminGeoFinder::build(regions);
    let mut out: Vec<Result<Addr, ImportError>> = Vec::new();
    let n: usize = records.len();
    let mut i: usize = 0;
    while i < n
        invariant
            i <= n,
            n == records@.len(),
            admins_geofinder@ == regions_or_none(admins),
            admins_by_insee@ == by_insee(regions_or_none(admins)),
            out@.len() == i,
            forall|j: int|
                0 <= j < i ==> import_of(
                    records@[j],
                    by_insee(regions_or_none(admins)),
                    regions_or_none(admins),
                    #[trigger] out@[j],
                ),
        decreases n - i,
    {
        let r = records[i].enrich(&admins_by_insee, &admins_geofinder);
        out.push(r);
        i += 1;
    }
    out
}

/// The regions that an import works with.
pub open spec fn regions_or_none(admins: Option<Vec<AdminRegion>>) -> Seq<AdminRegion> {
    match admins {
        Some(found) => found@,
        None => Seq::empty(),
    }
}

} // verus!
