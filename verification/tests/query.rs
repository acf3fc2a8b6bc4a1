use geocoder::autocomplete::{
    autocomplete, call_autocomplete, default_limit, find_label, get_timeout, pick_label,
    post_autocomplete, render, Context, Params, Place,
};
use geocoder::coord::{make_coord, Coord};
use geocoder::error::{BragiError, ParamReason, ShapeReason};
use geocoder::place_type::Type;
use geocoder::shape::{swap_ring, Feature, GeoJson, Geometry, JsonParams};
use geocoder::text::str_eq;

fn context(max: Option<u64>) -> Context {
    Context { es_cnx_string: "http://localhost:9200/munin".to_string(), max_es_timeout: max }
}

fn ring() -> Vec<Vec<i32>> {
    vec![vec![20, 480], vec![30, 480], vec![30, 490, 7], vec![20, 480]]
}

fn feature(geometry: Option<Geometry>) -> JsonParams {
    JsonParams { shape: GeoJson::Feature(Feature { geometry }) }
}

#[test]
fn coord_takes_both_angles_or_none() {
    let mut p = Params::new("rue".to_string());
    assert_eq!(p.coord(), Ok(None));
    p.lon = Some(23_500_000);
    p.lat = Some(488_500_000);
    assert_eq!(p.coord(), Ok(Some(Coord::new(23_500_000, 488_500_000))));
    p.lon = Some(-1_800_000_000);
    p.lat = Some(900_000_000);
    assert_eq!(p.coord(), Ok(Some(Coord::new(-1_800_000_000, 900_000_000))));
}

#[test]
fn coord_refuses_one_angle_alone() {
    let mut p = Params::new("rue".to_string());
    p.lon = Some(23_500_000);
    let e = p.coord().unwrap_err();
    assert_eq!(e, BragiError::InvalidParam(ParamReason::IncompleteCoord));
    assert_eq!(
        e.message(),
        "you should provide a 'lon' AND a 'lat' parameter if you provide one of them"
    );
    p.lon = None;
    p.lat = Some(488_500_000);
    assert_eq!(p.coord(), Err(BragiError::InvalidParam(ParamReason::IncompleteCoord)));
    assert_eq!(
        call_autocomplete(&p, &context(None), None),
        Err(BragiError::InvalidParam(ParamReason::IncompleteCoord))
    );
}

#[test]
fn coord_refuses_angles_off_the_globe() {
    assert_eq!(
        make_coord(0, 900_000_001),
        Err(BragiError::InvalidParam(ParamReason::InvalidLatitude))
    );
    assert_eq!(
        make_coord(-1_800_000_001, 0),
        Err(BragiError::InvalidParam(ParamReason::InvalidLongitude))
    );
    assert_eq!(
        make_coord(i64::MAX, i64::MIN),
        Err(BragiError::InvalidParam(ParamReason::InvalidLatitude))
    );
    assert_eq!(ParamReason::InvalidLatitude.message(), "lat is not a valid latitude");
    assert_eq!(ParamReason::InvalidLongitude.message(), "lon is not a valid longitude");
}

#[test]
fn shape_of_one_ring_is_swapped() {
    let body = feature(Some(Geometry::Polygon(vec![ring()])));
    assert_eq!(body.get_es_shape(), Ok(vec![(480, 20), (480, 30), (490, 30), (480, 20)]));
}

#[test]
fn shape_drops_positions_without_two_numbers() {
    assert_eq!(swap_ring(&vec![vec![1, 2], vec![3], vec![], vec![4, 5, 6, 7]]), vec![(2, 1), (5, 4)]);
    assert_eq!(swap_ring(&vec![]), vec![]);
}

#[test]
fn shape_with_holes_is_refused() {
    let body = feature(Some(Geometry::Polygon(vec![ring(), ring()])));
    let e = body.get_es_shape().unwrap_err();
    assert_eq!(e, BragiError::InvalidShape(ShapeReason::PolygonWithHoles));
    assert_eq!(e.message(), "only polygon without holes are supported");
    let body = feature(Some(Geometry::Polygon(vec![])));
    assert_eq!(body.get_es_shape(), Err(BragiError::InvalidShape(ShapeReason::PolygonWithHoles)));
}

#[test]
fn shape_that_is_no_polygon_is_refused() {
    let body = feature(Some(Geometry::LineString(ring())));
    let e = body.get_es_shape().unwrap_err();
    assert_eq!(e, BragiError::InvalidShape(ShapeReason::OnlyPolygon));
    assert_eq!(e.message(), "only polygon are supported");
}

#[test]
fn shape_that_is_no_feature_is_refused() {
    let body = JsonParams { shape: GeoJson::FeatureCollection(vec![]) };
    let e = body.get_es_shape().unwrap_err();
    assert_eq!(e, BragiError::InvalidShape(ShapeReason::OnlyFeature));
    assert_eq!(e.message(), "only feature is supported");
    let body = JsonParams { shape: GeoJson::Geometry(Geometry::Polygon(vec![ring()])) };
    assert_eq!(body.get_es_shape(), Err(BragiError::InvalidShape(ShapeReason::OnlyFeature)));
}

#[test]
fn shape_without_geometry_is_refused() {
    let e = feature(None).get_es_shape().unwrap_err();
    assert_eq!(e, BragiError::InvalidShape(ShapeReason::NoGeometry));
    assert_eq!(e.message(), "no geometry");
}

#[test]
fn pagination_defaults() {
    assert_eq!(default_limit(), 10);
    let p = Params::new("rue".to_string());
    let q = autocomplete(&p, &context(None)).unwrap();
    assert_eq!(q.limit, 10);
    assert_eq!(q.offset, 0);
    assert_eq!(q.q, "rue");
    assert_eq!(q.cnx, "http://localhost:9200/munin");
    assert_eq!(q.shape, None);
    assert_eq!(q.coord, None);
    assert!(q.types.is_empty());
    assert!(q.langs.is_empty());
    assert!(q.pt_datasets.is_empty());
    assert!(!q.all_data);
}

#[test]
fn timeout_is_clamped() {
    assert_eq!(get_timeout(&Some(5000), &Some(1000)), Some(1000));
    assert_eq!(get_timeout(&Some(500), &Some(1000)), Some(500));
    assert_eq!(get_timeout(&Some(500), &None), Some(500));
    assert_eq!(get_timeout(&None, &Some(1000)), Some(1000));
    assert_eq!(get_timeout(&None, &None), None);
    let mut p = Params::new("rue".to_string());
    p.timeout = Some(5000);
    assert_eq!(p.timeout(), Some(5000));
    assert_eq!(autocomplete(&p, &context(Some(1000))).unwrap().timeout, Some(1000));
    p.timeout = None;
    assert_eq!(autocomplete(&p, &context(Some(1000))).unwrap().timeout, Some(1000));
}

#[test]
fn query_carries_the_request() {
    let mut p = Params::new("gare".to_string());
    p.pt_dataset = vec!["fr".to_string(), "be".to_string()];
    p.all_data = true;
    p.limit = 3;
    p.offset = 6;
    p.lon = Some(23_500_000);
    p.lat = Some(488_500_000);
    p.types = vec![Type::StopArea, Type::City];
    p.lang = Some("fr".to_string());
    assert_eq!(p.langs(), vec!["fr"]);
    assert_eq!(p.types_as_str(), vec!["public_transport:stop_area", "city"]);
    let body = feature(Some(Geometry::Polygon(vec![ring()])));
    let q = post_autocomplete(&p, &context(None), &body).unwrap();
    assert_eq!(q.q, "gare");
    assert_eq!(q.pt_datasets, vec!["fr".to_string(), "be".to_string()]);
    assert!(q.all_data);
    assert_eq!(q.limit, 3);
    assert_eq!(q.offset, 6);
    assert_eq!(q.coord, Some(Coord::new(23_500_000, 488_500_000)));
    assert_eq!(q.shape, Some(vec![(480, 20), (480, 30), (490, 30), (480, 20)]));
    assert_eq!(q.types, vec!["public_transport:stop_area", "city"]);
    assert_eq!(q.langs, vec!["fr".to_string()]);
    assert_eq!(q.timeout, None);
}

#[test]
fn refused_shape_fails_the_request() {
    let p = Params::new("gare".to_string());
    let body = feature(Some(Geometry::Point(vec![1, 2])));
    assert_eq!(
        post_autocomplete(&p, &context(None), &body),
        Err(BragiError::InvalidShape(ShapeReason::OnlyPolygon))
    );
}

#[test]
fn type_names_are_fixed() {
    assert_eq!(Type::City.as_str(), "city");
    assert_eq!(Type::House.as_str(), "house");
    assert_eq!(Type::Poi.as_str(), "poi");
    assert_eq!(Type::StopArea.as_str(), "public_transport:stop_area");
    assert_eq!(Type::Street.as_str(), "street");
    assert_eq!(Type::from_name("poi"), Some(Type::Poi));
    assert_eq!(Type::from_name("public_transport:stop_area"), Some(Type::StopArea));
    assert_eq!(Type::from_name("zone"), None);
    assert_eq!(Type::from_name(""), None);
    assert!(str_eq("street", "street"));
    assert!(!str_eq("street", "streets"));
    assert!(!str_eq("house", "mouse"));
}

#[test]
fn label_comes_in_the_first_language_that_has_one() {
    let place = Place {
        id: "admin:1".to_string(),
        label: "Londres".to_string(),
        labels: vec![
            ("en".to_string(), "London".to_string()),
            ("it".to_string(), "Londra".to_string()),
            ("en".to_string(), "Londinium".to_string()),
        ],
    };
    assert_eq!(find_label(&place.labels, "it"), Some(&"Londra".to_string()));
    assert_eq!(find_label(&place.labels, "en"), Some(&"London".to_string()));
    assert_eq!(find_label(&place.labels, "de"), None);
    assert_eq!(pick_label(&place, &vec!["de", "it", "en"]), "Londra");
    assert_eq!(pick_label(&place, &vec!["en", "it"]), "London");
    assert_eq!(pick_label(&place, &vec!["de"]), "Londres");
    assert_eq!(pick_label(&place, &vec![]), "Londres");
}

#[test]
fn answer_is_marked_with_the_preferred_language() {
    let hits = vec![
        Place {
            id: "admin:1".to_string(),
            label: "Londres".to_string(),
            labels: vec![("en".to_string(), "London".to_string())],
        },
        Place { id: "admin:2".to_string(), label: "Douvres".to_string(), labels: vec![] },
    ];
    let shown = render(&hits, &vec!["en"]);
    assert_eq!(shown.features.len(), 2);
    assert_eq!(shown.features[0].id, "admin:1");
    assert_eq!(shown.features[0].label, "London");
    assert_eq!(shown.features[0].lang, Some("en".to_string()));
    assert_eq!(shown.features[1].label, "Douvres");
    assert_eq!(shown.features[1].lang, Some("en".to_string()));
    let shown = render(&hits, &vec![]);
    assert_eq!(shown.features[0].label, "Londres");
    assert_eq!(shown.features[0].lang, None);
}
