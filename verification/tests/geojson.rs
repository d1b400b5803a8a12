use console_gis::data::geojson::{collect_features, parse_geometry, GeoError, GeoGeometry, GeoLayer};
use console_gis::data::export::{export_document, geometry_json};
use console_gis::data::json::Json;
use console_gis::tui::app::split_layer_entries;

/// The library's JSON tree for a parsed document, numbers as `f64`.
fn to_json(v: &serde_json::Value) -> Json<f64> {
    match v {
        serde_json::Value::Null => Json::Null,
        serde_json::Value::Bool(b) => Json::Bool(*b),
        serde_json::Value::Number(n) => Json::Number(n.as_f64().unwrap()),
        serde_json::Value::String(s) => Json::Str(s.clone()),
        serde_json::Value::Array(a) => Json::Array(a.iter().map(to_json).collect()),
        serde_json::Value::Object(m) => {
            Json::Object(m.iter().map(|(k, v)| (k.clone(), to_json(v))).collect())
        }
    }
}

fn doc(json: &str) -> Json<f64> {
    let val: serde_json::Value = serde_json::from_str(json).unwrap();
    to_json(&val)
}

fn parse(json: &str) -> GeoLayer<f64> {
    let mut features = Vec::new();
    collect_features(&doc(json), &Vec::new(), &mut features).unwrap();
    GeoLayer { source: "test".into(), features }
}

#[test]
fn point_feature() {
    let layer = parse(
        r#"{
            "type": "Feature",
            "geometry": { "type": "Point", "coordinates": [-0.1278, 51.5074] },
            "properties": { "name": "London" }
        }"#,
    );
    assert_eq!(layer.features.len(), 1);
    let feat = &layer.features[0];
    assert_eq!(feat.name, "London");
    if let GeoGeometry::Point((lon, lat)) = feat.geometry {
        assert!((lon - (-0.1278)).abs() < 1e-6);
        assert!((lat - 51.5074).abs() < 1e-6);
    } else {
        panic!("expected Point");
    }
}

#[test]
fn feature_collection() {
    let layer = parse(
        r#"{
            "type": "FeatureCollection",
            "features": [
                {
                    "type": "Feature",
                    "geometry": { "type": "Point", "coordinates": [2.3522, 48.8566] },
                    "properties": { "name": "Paris" }
                },
                {
                    "type": "Feature",
                    "geometry": {
                        "type": "LineString",
                        "coordinates": [[0,0],[1,1],[2,2]]
                    },
                    "properties": {}
                }
            ]
        }"#,
    );
    assert_eq!(layer.features.len(), 2);
    assert_eq!(layer.points().len(), 1);
    assert_eq!(layer.lines().len(), 1);
}

#[test]
fn polygon_segments() {
    let layer = parse(
        r#"{
            "type": "Feature",
            "geometry": {
                "type": "Polygon",
                "coordinates": [[[0,0],[1,0],[1,1],[0,1],[0,0]]]
            },
            "properties": {}
        }"#,
    );
    // A 5-point closed ring produces 4 window pairs + 1 close segment = 5
    let segs: Vec<_> = layer.segments();
    assert_eq!(segs.len(), 5);
}

#[test]
fn bare_geometry() {
    let layer = parse(r#"{"type":"Point","coordinates":[10.0,20.0]}"#);
    assert_eq!(layer.features.len(), 1);
}

#[test]
fn ring_segments_join_consecutive_points_and_close() {
    let layer = parse(
        r#"{"type":"Polygon","coordinates":[[[0,0],[4,0],[4,3]]]}"#,
    );
    let segs = layer.segments();
    assert_eq!(
        segs,
        vec![((0.0, 0.0), (4.0, 0.0)), ((4.0, 0.0), (4.0, 3.0)), ((4.0, 3.0), (0.0, 0.0))]
    );
}

#[test]
fn line_string_segments_stay_open() {
    let layer = parse(r#"{"type":"LineString","coordinates":[[0,0],[1,1],[2,2]]}"#);
    assert_eq!(layer.segments(), vec![((0.0, 0.0), (1.0, 1.0)), ((1.0, 1.0), (2.0, 2.0))]);
}

#[test]
fn missing_features_array_is_an_error() {
    let mut out = Vec::new();
    let r = collect_features(&doc(r#"{"type":"FeatureCollection"}"#), &Vec::new(), &mut out);
    assert_eq!(r, Err(GeoError::MissingFeatures));
    assert_eq!(GeoError::MissingFeatures.message(), "FeatureCollection missing 'features' array");
    assert!(out.is_empty());
}

#[test]
fn missing_geometries_array_is_an_error() {
    let r = GeoLayer::from_json("x".to_string(), &doc(r#"{"type":"GeometryCollection"}"#));
    assert!(matches!(r, Err(GeoError::MissingGeometries)));
    assert_eq!(GeoError::MissingGeometries.message(), "GeometryCollection missing 'geometries'");
}

#[test]
fn features_before_an_error_are_kept() {
    let mut out = Vec::new();
    let r = collect_features(
        &doc(
            r#"{"type":"FeatureCollection","features":[
                {"type":"Point","coordinates":[1,2]},
                {"type":"FeatureCollection"},
                {"type":"Point","coordinates":[3,4]}
            ]}"#,
        ),
        &Vec::new(),
        &mut out,
    );
    assert_eq!(r, Err(GeoError::MissingFeatures));
    assert_eq!(out.len(), 1);
}

#[test]
fn null_geometry_and_short_lines_are_skipped() {
    let layer = parse(
        r#"{"type":"FeatureCollection","features":[
            {"type":"Feature","geometry":null,"properties":{"name":"nothing"}},
            {"type":"Feature","geometry":{"type":"LineString","coordinates":[[0,0]]}},
            {"type":"Feature","geometry":{"type":"Polygon","coordinates":[[[0,0],[1,1]]]}}
        ]}"#,
    );
    assert_eq!(layer.features.len(), 1);
    match &layer.features[0].geometry {
        GeoGeometry::Polygon(rings) => assert!(rings.is_empty()),
        _ => panic!("expected Polygon"),
    }
}

#[test]
fn name_falls_back_through_keys() {
    let layer = parse(
        r#"{"type":"FeatureCollection","features":[
            {"type":"Feature","geometry":{"type":"Point","coordinates":[0,0]},
             "properties":{"name":"","title":"Summit","id":"x1"}},
            {"type":"Feature","geometry":{"type":"Point","coordinates":[0,0]},
             "properties":{"label":7,"id":"x2"}},
            {"type":"Feature","geometry":{"type":"Point","coordinates":[0,0]},
             "properties":{"height":3}}
        ]}"#,
    );
    assert_eq!(layer.features[0].name, "Summit");
    assert_eq!(layer.features[1].name, "x2");
    assert_eq!(layer.features[2].name, "");
}

#[test]
fn elevation_is_ignored_and_bad_coordinates_skipped() {
    let layer = parse(
        r#"{"type":"MultiPoint","coordinates":[[1,2,300],["a",1],[3],[5,6]]}"#,
    );
    assert_eq!(layer.all_point_coords(), vec![(1.0, 2.0), (5.0, 6.0)]);
}

#[test]
fn collections_contribute_points_and_segments() {
    let layer = parse(
        r#"{"type":"GeometryCollection","geometries":[
            {"type":"Point","coordinates":[1,2]},
            {"type":"LineString","coordinates":[[0,0],[0,1]]},
            {"type":"Unknown"}
        ]}"#,
    );
    assert_eq!(layer.features.len(), 1);
    match &layer.features[0].geometry {
        GeoGeometry::Collection(children) => assert_eq!(children.len(), 2),
        _ => panic!("expected Collection"),
    }
    assert_eq!(layer.all_point_coords(), vec![(1.0, 2.0)]);
    assert_eq!(layer.segments(), vec![((0.0, 0.0), (0.0, 1.0))]);
    assert_eq!(layer.points().len(), 0);
}

#[test]
fn multipolygon_drops_polygons_without_rings() {
    let g = parse_geometry(&doc(
        r#"{"type":"MultiPolygon","coordinates":[
            [[[0,0],[1,0],[1,1]]],
            [[[0,0],[1,1]]]
        ]}"#,
    ));
    match g {
        Some(GeoGeometry::MultiPolygon(polys)) => {
            assert_eq!(polys.len(), 1);
            assert_eq!(polys[0].len(), 1);
            assert_eq!(polys[0][0].len(), 3);
        }
        _ => panic!("expected MultiPolygon"),
    }
}

#[test]
fn point_markers_use_name_or_default_label() {
    let layer = parse(
        r#"{"type":"FeatureCollection","features":[
            {"type":"Feature","geometry":{"type":"Point","coordinates":[-0.1,51.5]},
             "properties":{"name":"London"}},
            {"type":"Feature","geometry":{"type":"MultiPoint","coordinates":[[1,2],[3,4]]}},
            {"type":"Feature","geometry":{"type":"LineString","coordinates":[[0,0],[1,1]]}}
        ]}"#,
    );
    let m = layer.point_markers();
    assert_eq!(
        m,
        vec![
            (51.5, -0.1, "London".to_string()),
            (2.0, 1.0, "GeoJSON".to_string()),
            (4.0, 3.0, "GeoJSON".to_string()),
        ]
    );
    assert_eq!(layer.polygons().len(), 0);
}

#[test]
fn split_by_geometry_type_groups_features() {
    let layer = parse(
        r#"{"type":"FeatureCollection","features":[
            {"type":"Feature","geometry":{"type":"Polygon","coordinates":[[[0,0],[1,0],[1,1]]]}},
            {"type":"Feature","geometry":{"type":"Point","coordinates":[1,1]}},
            {"type":"Feature","geometry":{"type":"LineString","coordinates":[[0,0],[1,1]]}},
            {"type":"Feature","geometry":{"type":"MultiPoint","coordinates":[[2,2]]}}
        ]}"#,
    );
    let parts = layer.split_by_geometry_type();
    assert_eq!(parts.len(), 3);
    assert_eq!(parts[0].features.len(), 2);
    assert_eq!(parts[1].features.len(), 1);
    assert_eq!(parts[2].features.len(), 1);
    assert!(parts.iter().all(|p| p.source == "test"));
    assert!(matches!(parts[2].features[0].geometry, GeoGeometry::Polygon(_)));

    let only_points = parse(r#"{"type":"Point","coordinates":[1,2]}"#).split_by_geometry_type();
    assert_eq!(only_points.len(), 1);
}

#[test]
fn kind_counts_tally_each_geometry_kind() {
    let layer = parse(
        r#"{
            "type": "FeatureCollection",
            "features": [
                { "type": "Feature", "geometry": { "type": "Point", "coordinates": [1, 2] }, "properties": {} },
                { "type": "Feature", "geometry": { "type": "Point", "coordinates": [3, 4] }, "properties": {} },
                { "type": "Feature", "geometry": { "type": "LineString", "coordinates": [[0,0],[1,1]] }, "properties": {} },
                { "type": "Feature", "geometry": { "type": "Polygon", "coordinates": [[[0,0],[1,0],[1,1],[0,0]]] }, "properties": {} },
                { "type": "Feature", "geometry": { "type": "MultiPoint", "coordinates": [[0,0]] }, "properties": {} }
            ]
        }"#,
    );
    let c = layer.kind_counts();
    assert_eq!(c.points, 2);
    assert_eq!(c.multi_points, 1);
    assert_eq!(c.line_strings, 1);
    assert_eq!(c.multi_line_strings, 0);
    assert_eq!(c.polygons, 1);
    assert_eq!(c.multi_polygons, 0);
    assert_eq!(c.collections, 0);
}

#[test]
fn property_keys_are_distinct_in_first_seen_order() {
    let layer = parse(
        r#"{
            "type": "FeatureCollection",
            "features": [
                { "type": "Feature", "geometry": { "type": "Point", "coordinates": [1, 2] },
                  "properties": { "name": "A", "pop": 3 } },
                { "type": "Feature", "geometry": { "type": "Point", "coordinates": [3, 4] },
                  "properties": { "name": "B", "id": 7 } }
            ]
        }"#,
    );
    assert_eq!(layer.property_keys(), vec!["name".to_string(), "pop".to_string(), "id".to_string()]);
    let empty = parse(r#"{ "type": "Feature", "geometry": { "type": "Point", "coordinates": [0, 0] }, "properties": {} }"#);
    assert!(empty.property_keys().is_empty());
}

#[test]
fn split_import_names_and_colours_sub_layers() {
    let mut layer = parse(
        r#"{
            "type": "FeatureCollection",
            "features": [
                { "type": "Feature", "geometry": { "type": "Polygon", "coordinates": [[[0,0],[1,0],[1,1],[0,0]]] }, "properties": {} },
                { "type": "Feature", "geometry": { "type": "Point", "coordinates": [1, 2] }, "properties": {} },
                { "type": "Feature", "geometry": { "type": "LineString", "coordinates": [[0,0],[1,1]] }, "properties": {} }
            ]
        }"#,
    );
    layer.source = "/data/rivers.geojson".to_string();
    assert_eq!(layer.family_label(), "Lines");
    let entries = split_layer_entries(layer, 4);
    assert_eq!(entries.len(), 3);
    assert_eq!(entries[0].label, "rivers (Points)");
    assert_eq!(entries[1].label, "rivers (Lines)");
    assert_eq!(entries[2].label, "rivers (Polygons)");
    assert_eq!(entries[0].color_index, 4);
    assert_eq!(entries[1].color_index, 0);
    assert_eq!(entries[2].color_index, 1);
    assert!(entries.iter().all(|e| e.visible && e.layer.source == "/data/rivers.geojson"));
    assert_eq!(entries[0].layer.family_label(), "Points");
    assert_eq!(entries[2].layer.family_label(), "Polygons");
    let empty: GeoLayer<f64> = GeoLayer { source: "e.json".into(), features: Vec::new() };
    assert_eq!(empty.family_label(), "Points");
    assert!(split_layer_entries(empty, 0).is_empty());
}

fn value_of(j: &Json<f64>) -> serde_json::Value {
    match j {
        Json::Null => serde_json::Value::Null,
        Json::Bool(b) => serde_json::Value::Bool(*b),
        Json::Number(n) => serde_json::Value::from(*n),
        Json::Str(s) => serde_json::Value::String(s.clone()),
        Json::Array(a) => serde_json::Value::Array(a.iter().map(value_of).collect()),
        Json::Object(fs) => {
            let mut m = serde_json::Map::new();
            for (k, v) in fs {
                m.insert(k.clone(), value_of(v));
            }
            serde_json::Value::Object(m)
        }
    }
}

#[test]
fn exported_document_shape() {
    let g: GeoGeometry<f64> = GeoGeometry::Polygon(vec![vec![(0.0, 0.0), (1.0, 0.0), (1.0, 1.0), (0.0, 0.0)]]);
    let doc = export_document(geometry_json(&g), "  Lake  ");
    let expected: serde_json::Value = serde_json::from_str(
        r#"{"type":"FeatureCollection","features":[{"type":"Feature",
            "geometry":{"type":"Polygon","coordinates":[[[0.0,0.0],[1.0,0.0],[1.0,1.0],[0.0,0.0]]]},
            "properties":{"name":"Lake"}}]}"#,
    )
    .unwrap();
    assert_eq!(value_of(&doc), expected);
    let unnamed = export_document(geometry_json(&GeoGeometry::Point((2.5, -1.0))), "   ");
    let expected: serde_json::Value = serde_json::from_str(
        r#"{"type":"FeatureCollection","features":[{"type":"Feature",
            "geometry":{"type":"Point","coordinates":[2.5,-1.0]},"properties":{}}]}"#,
    )
    .unwrap();
    assert_eq!(value_of(&unnamed), expected);
}

#[test]
fn exported_shapes_import_again() {
    let shapes: Vec<GeoGeometry<f64>> = vec![
        GeoGeometry::Point((3.0, 4.0)),
        GeoGeometry::MultiPoint(vec![(1.0, 2.0), (3.0, 4.0)]),
        GeoGeometry::LineString(vec![(0.0, 0.0), (5.0, 5.0), (6.0, 1.0)]),
        GeoGeometry::MultiLineString(vec![vec![(0.0, 0.0), (1.0, 1.0)], vec![(2.0, 2.0), (3.0, 3.0)]]),
        GeoGeometry::MultiPolygon(vec![vec![vec![(0.0, 0.0), (1.0, 0.0), (1.0, 1.0), (0.0, 0.0)]]]),
    ];
    for g in shapes {
        let doc = export_document(geometry_json(&g), "Shape");
        let mut features = Vec::new();
        collect_features(&doc, &Vec::new(), &mut features).unwrap();
        assert_eq!(features.len(), 1);
        assert_eq!(features[0].name, "Shape");
        assert_eq!(format!("{:?}", features[0].geometry), format!("{:?}", g));
    }
}
