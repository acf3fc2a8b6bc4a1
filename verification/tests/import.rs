use geocoder::admin::{edge_crosses, ring_is_odd, Admin, AdminRegion};
use geocoder::bano::{admins_by_insee, city_weight, index_bano, retain_other_levels, AdminFromInsee, Bano};
use geocoder::coord::{degrees_text, Coord};
use geocoder::error::ImportError;
use geocoder::geofinder::{AdminGeoFinder, BBox};
use geocoder::pool::{nb_threads, nb_threads_among};

const DEG: i32 = 10_000_000;

fn admin(id: &str, level: u32, weight: u64, insee: &str) -> Admin {
    Admin {
        id: id.to_string(),
        name: id.to_string(),
        level,
        weight,
        insee: insee.to_string(),
    }
}

fn square(west: i32, south: i32, east: i32, north: i32) -> Vec<Coord> {
    vec![
        Coord::new(west * DEG, south * DEG),
        Coord::new(east * DEG, south * DEG),
        Coord::new(east * DEG, north * DEG),
        Coord::new(west * DEG, north * DEG),
        Coord::new(west * DEG, south * DEG),
    ]
}

fn region(id: &str, level: u32, weight: u64, insee: &str, ring: Vec<Coord>) -> AdminRegion {
    AdminRegion { admin: admin(id, level, weight, insee), boundary: vec![ring] }
}

fn record(id: &str) -> Bano {
    Bano {
        id: id.to_string(),
        nb: "12".to_string(),
        street: "Rue A".to_string(),
        zip: "75001".to_string(),
        city: "Paris".to_string(),
        src: "x".to_string(),
        lat: 488_500_000,
        lon: 23_500_000,
    }
}

#[test]
fn insee_strips_leading_zero() {
    assert_eq!(record("0123456789").insee(), "1234");
    assert_eq!(record("7505600012").insee(), "75056");
    assert_eq!(record("0000000012").insee(), "");
    assert_eq!(record("0010000012").insee(), "100");
}

#[test]
fn fantoir_is_first_ten_characters() {
    assert_eq!(record("0123456789").fantoir(), "0123456789");
    assert_eq!(record("0123456789-extra").fantoir(), "0123456789");
}

#[test]
fn short_identifier_is_malformed() {
    let finder = AdminGeoFinder::build(vec![]);
    let table = AdminFromInsee::new();
    assert_eq!(record("012345678").enrich(&table, &finder), Err(ImportError::MalformedIdentifier));
    assert_eq!(record("").into_addr(&table, &finder), Err(ImportError::MalformedIdentifier));
    assert!(record("0123456789").enrich(&table, &finder).is_ok());
}

#[test]
fn degrees_are_written_as_decimals() {
    assert_eq!(degrees_text(0), "0");
    assert_eq!(degrees_text(23_500_000), "2.35");
    assert_eq!(degrees_text(488_500_000), "48.85");
    assert_eq!(degrees_text(-5_000_000), "-0.5");
    assert_eq!(degrees_text(1), "0.0000001");
    assert_eq!(degrees_text(-1_800_000_000), "-180");
    assert_eq!(degrees_text(100_000_010), "10.000001");
    assert_eq!(degrees_text(i32::MIN), "-214.7483648");
    assert_eq!(degrees_text(i32::MAX), "214.7483647");
}

#[test]
fn edge_is_met_east_of_the_position_only() {
    let p = Coord::new(0, 0);
    assert!(edge_crosses(Coord::new(5, -5), Coord::new(5, 5), p));
    assert!(!edge_crosses(Coord::new(-5, -5), Coord::new(-5, 5), p));
    assert!(!edge_crosses(Coord::new(5, 1), Coord::new(5, 5), p));
    assert!(edge_crosses(Coord::new(5, 5), Coord::new(5, -5), p));
    assert!(edge_crosses(Coord::new(-1, -5), Coord::new(9, 5), p));
    assert!(edge_crosses(Coord::new(i32::MAX, i32::MIN), Coord::new(i32::MAX, i32::MAX), p));
}

#[test]
fn ring_parity_tells_inside_from_outside() {
    let ring = square(2, 48, 3, 49);
    assert!(ring_is_odd(&ring, Coord::new(23_500_000, 488_500_000)));
    assert!(!ring_is_odd(&ring, Coord::new(13_500_000, 488_500_000)));
    assert!(!ring_is_odd(&ring, Coord::new(33_500_000, 488_500_000)));
    assert!(!ring_is_odd(&ring, Coord::new(23_500_000, 498_500_000)));
    assert!(!ring_is_odd(&vec![], Coord::new(0, 0)));
}

#[test]
fn box_surrounds_the_boundary() {
    let b = BBox::around(&vec![square(2, 48, 3, 49), square(-1, 10, 0, 11)]);
    assert_eq!(
        b,
        BBox { min_lon: -1 * DEG, max_lon: 3 * DEG, min_lat: 10 * DEG, max_lat: 49 * DEG }
    );
    assert!(b.has(Coord::new(0, 20 * DEG)));
    assert!(!b.has(Coord::new(4 * DEG, 20 * DEG)));
    assert!(!BBox::around(&vec![]).has(Coord::new(0, 0)));
}

#[test]
fn finder_returns_every_region_around_the_position() {
    let finder = AdminGeoFinder::build(vec![
        region("country", 2, 1, "", square(-5, 42, 8, 51)),
        region("elsewhere", 8, 7, "11111", square(10, 10, 11, 11)),
        region("paris", 8, 42, "75056", square(2, 48, 3, 49)),
        region("twin", 8, 5, "75057", square(2, 48, 3, 49)),
    ]);
    assert_eq!(finder.len(), 4);
    let found = finder.get(&Coord::new(23_500_000, 488_500_000));
    let ids: Vec<&str> = found.iter().map(|a| a.id.as_str()).collect();
    assert_eq!(ids, vec!["country", "paris", "twin"]);
    let found = finder.get(&Coord::new(105_000_000, 105_000_000));
    assert_eq!(found, vec![admin("elsewhere", 8, 7, "11111")]);
    assert!(finder.get(&Coord::new(-100 * DEG, 0)).is_empty());
}

#[test]
fn hole_is_not_part_of_the_region() {
    let holed = AdminRegion {
        admin: admin("ring", 6, 1, ""),
        boundary: vec![square(0, 0, 10, 10), square(4, 4, 6, 6)],
    };
    assert!(holed.covers(Coord::new(1 * DEG, 1 * DEG)));
    assert!(!holed.covers(Coord::new(5 * DEG, 5 * DEG)));
    assert!(!holed.covers(Coord::new(11 * DEG, 5 * DEG)));
}

#[test]
fn weight_is_that_of_the_first_city() {
    assert_eq!(city_weight(&vec![admin("a", 2, 9, ""), admin("b", 8, 42, ""), admin("c", 8, 3, "")]), 42);
    assert_eq!(city_weight(&vec![admin("a", 2, 9, ""), admin("b", 7, 42, "")]), 0);
    assert_eq!(city_weight(&vec![]), 0);
}

#[test]
fn other_levels_are_kept_in_order() {
    let chain = vec![admin("a", 2, 9, ""), admin("b", 8, 42, ""), admin("c", 4, 3, ""), admin("d", 8, 1, "")];
    assert_eq!(retain_other_levels(&chain, 8), vec![admin("a", 2, 9, ""), admin("c", 4, 3, "")]);
    assert_eq!(retain_other_levels(&chain, 5), chain);
}

#[test]
fn table_keeps_the_later_of_two_regions() {
    let mut table = AdminFromInsee::new();
    assert_eq!(table.get("1234"), None);
    table.insert("1234".to_string(), admin("first", 8, 1, "1234"));
    table.insert("99".to_string(), admin("other", 8, 2, "99"));
    table.insert("1234".to_string(), admin("second", 8, 3, "1234"));
    assert_eq!(table.get("1234"), Some(&admin("second", 8, 3, "1234")));
    assert_eq!(table.get("99"), Some(&admin("other", 8, 2, "99")));
    assert_eq!(table.get("123"), None);
}

#[test]
fn regions_without_code_are_not_in_the_table() {
    let table = admins_by_insee(&vec![
        region("country", 2, 1, "", square(-5, 42, 8, 51)),
        region("paris", 8, 42, "75056", square(2, 48, 3, 49)),
    ]);
    assert_eq!(table.get(""), None);
    assert_eq!(table.get("75056"), Some(&admin("paris", 8, 42, "75056")));
}

#[test]
fn override_replaces_the_regions_of_its_level() {
    let finder = AdminGeoFinder::build(vec![
        region("country", 2, 1, "", square(-5, 42, 8, 51)),
        region("paris", 8, 42, "75056", square(2, 48, 3, 49)),
        region("twin", 8, 5, "75057", square(2, 48, 3, 49)),
    ]);
    let mut table = AdminFromInsee::new();
    table.insert("1234".to_string(), admin("named", 8, 77, "1234"));
    let addr = record("0123456789").into_addr(&table, &finder).unwrap();
    assert_eq!(
        addr.street.administrative_regions,
        vec![admin("country", 2, 1, ""), admin("named", 8, 77, "1234")]
    );
    assert_eq!(addr.weight, 77);
    assert_eq!(addr.street.weight, 77);

    let addr = record("9999956789").into_addr(&table, &finder).unwrap();
    assert_eq!(
        addr.street.administrative_regions,
        vec![admin("country", 2, 1, ""), admin("paris", 8, 42, "75056"), admin("twin", 8, 5, "75057")]
    );
    assert_eq!(addr.weight, 42);
}

#[test]
fn import_end_to_end() {
    let regions = vec![region("Paris", 8, 42, "", square(2, 48, 3, 49))];
    let out = index_bano(Some(regions), &vec![record("0123456789")]);
    assert_eq!(out.len(), 1);
    let addr = out[0].clone().unwrap();
    assert_eq!(addr.weight, 42);
    assert_eq!(addr.id, "addr:2.35;48.85");
    assert_eq!(addr.label, "12 Rue A (Paris)");
    assert_eq!(addr.name, "12 Rue A");
    assert_eq!(addr.house_number, "12");
    assert_eq!(addr.coord, Coord::new(23_500_000, 488_500_000));
    assert_eq!(addr.zip_codes, vec!["75001".to_string()]);
    assert_eq!(addr.street.id, "street:0123456789");
    assert_eq!(addr.street.name, "Rue A");
    assert_eq!(addr.street.label, "Rue A (Paris)");
    assert_eq!(addr.street.weight, 42);
    assert_eq!(addr.street.zip_codes, vec!["75001".to_string()]);
    assert_eq!(addr.street.coord, Coord::new(23_500_000, 488_500_000));
    assert_eq!(addr.street.administrative_regions, vec![admin("Paris", 8, 42, "")]);
}

#[test]
fn import_without_regions_gives_weight_zero() {
    let out = index_bano(None, &vec![record("0123456789"), record("short")]);
    assert_eq!(out.len(), 2);
    let addr = out[0].clone().unwrap();
    assert_eq!(addr.weight, 0);
    assert!(addr.street.administrative_regions.is_empty());
    assert_eq!(out[1], Err(ImportError::MalformedIdentifier));
}

#[test]
fn workers_default_to_the_processing_units() {
    assert_eq!(nb_threads_among(Some(3), 8), 3);
    assert_eq!(nb_threads_among(None, 8), 8);
    assert_eq!(nb_threads_among(Some(0), 8), 0);
    assert_eq!(nb_threads(Some(3)), 3);
    assert_eq!(nb_threads(None), num_cpus::get());
}
