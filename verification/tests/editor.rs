use console_gis::data::geojson::{GeoGeometry, GeoLayer};
use console_gis::data::markers::{bumped_counter, marker_key, stored_counter};
use console_gis::tui::app::{
    layer_color_index, saved_layer_entries, saved_layer_plan, LayerEntry, SavedLayerEntry,
};
use console_gis::tui::views::vertices::VertexLine::{Current, Part, Vertex};
use console_gis::tui::views::vertices::{export_message_is_alarm, vertex_message_is_alarm};
use console_gis::tui::app::{
    file_stem, bool_true, CalcMode, CalcState, ShapeEditorState, ShapeEditorStep, ShapeType,
};

fn editor(type_idx: usize) -> ShapeEditorState<f64> {
    let mut s = ShapeEditorState::new();
    s.type_idx = type_idx;
    s.step = ShapeEditorStep::AddVertices;
    s
}

#[test]
fn fresh_editor_is_empty() {
    let s: ShapeEditorState<f64> = ShapeEditorState::new();
    assert_eq!(s.step, ShapeEditorStep::SelectType);
    assert_eq!(s.total_coords(), 0);
    assert!(s.all_coords().is_empty());
    assert_eq!(s.current_type(), ShapeType::Point);
}

#[test]
fn push_vertex_clears_inputs_and_scrolls() {
    let mut s = editor(2);
    s.lat_buf = "51.5".to_string();
    s.lon_buf = "-0.1".to_string();
    s.coord_field = 1;
    s.message = Some("old".to_string());
    s.push_vertex((51.5, -0.1));
    s.push_vertex((48.8, 2.3));
    assert_eq!(s.current, vec![(51.5, -0.1), (48.8, 2.3)]);
    assert!(s.lat_buf.is_empty() && s.lon_buf.is_empty());
    assert_eq!(s.coord_field, 0);
    assert_eq!(s.message, None);
    assert_eq!(s.vert_scroll, 1);
    assert_eq!(s.total_coords(), 2);
}

#[test]
fn finish_part_needs_enough_vertices() {
    let mut s = editor(3); // MultiLineString
    s.push_vertex((0.0, 0.0));
    let r = s.finish_part();
    assert_eq!(r, Err("Need ≥2 coordinates to finish a MultiLineString.".to_string()));
    assert_eq!(s.current.len(), 1);
    s.push_vertex((1.0, 1.0));
    assert_eq!(s.finish_part(), Ok(()));
    assert_eq!(s.parts, vec![vec![(0.0, 0.0), (1.0, 1.0)]]);
    assert!(s.current.is_empty());

    let mut p = editor(1); // MultiPoint
    assert_eq!(p.finish_part(), Err("Need ≥1 coordinate to finish a MultiPoint.".to_string()));
}

#[test]
fn undo_removes_last_vertex_across_parts() {
    let mut s = editor(3);
    s.push_vertex((0.0, 0.0));
    s.push_vertex((1.0, 1.0));
    s.finish_part().unwrap();
    s.push_vertex((2.0, 2.0));
    assert_eq!(s.all_coords(), vec![(0.0, 0.0), (1.0, 1.0), (2.0, 2.0)]);
    s.undo_vertex();
    assert_eq!(s.all_coords(), vec![(0.0, 0.0), (1.0, 1.0)]);
    assert_eq!(s.vert_scroll, 1);
    s.undo_vertex();
    assert_eq!(s.parts, vec![vec![(0.0, 0.0)]]);
    s.undo_vertex();
    assert!(s.parts.is_empty());
    assert_eq!(s.vert_scroll, 0);
    s.undo_vertex();
    assert_eq!(s.total_coords(), 0);
}

#[test]
fn reset_returns_to_a_fresh_editor() {
    let mut s = editor(4);
    s.push_vertex((1.0, 2.0));
    s.name_buf = "x".to_string();
    s.reset();
    assert_eq!(s.type_idx, 0);
    assert_eq!(s.step, ShapeEditorStep::SelectType);
    assert!(s.current.is_empty() && s.name_buf.is_empty());
}

#[test]
fn export_point_swaps_to_lon_lat() {
    let mut s = editor(0);
    assert_eq!(s.export_geometry().err(), Some("Need ≥1 coordinate for Point.".to_string()));
    s.push_vertex((51.5, -0.1));
    match s.export_geometry() {
        Ok(GeoGeometry::Point(c)) => assert_eq!(c, (-0.1, 51.5)),
        _ => panic!("expected Point"),
    }
}

#[test]
fn export_line_and_polygon_rules() {
    let mut l = editor(2);
    l.push_vertex((0.0, 1.0));
    assert_eq!(l.export_geometry().err(), Some("Need ≥2 coordinates for LineString.".to_string()));
    l.push_vertex((2.0, 3.0));
    match l.export_geometry() {
        Ok(GeoGeometry::LineString(pts)) => assert_eq!(pts, vec![(1.0, 0.0), (3.0, 2.0)]),
        _ => panic!("expected LineString"),
    }

    let mut m = editor(3); // MultiLineString: parts shorter than 2 are dropped
    m.push_vertex((0.0, 0.0));
    m.finish_part().unwrap_err();
    m.push_vertex((1.0, 1.0));
    m.finish_part().unwrap();
    m.push_vertex((5.0, 5.0));
    match m.export_geometry() {
        Ok(GeoGeometry::MultiLineString(lines)) => {
            assert_eq!(lines, vec![vec![(0.0, 0.0), (1.0, 1.0)]])
        }
        _ => panic!("expected MultiLineString"),
    }

    let mut p = editor(4);
    p.push_vertex((0.0, 0.0));
    p.push_vertex((0.0, 1.0));
    p.push_vertex((1.0, 1.0));
    match p.export_geometry() {
        Ok(GeoGeometry::Polygon(rings)) => {
            assert_eq!(rings, vec![vec![(0.0, 0.0), (1.0, 0.0), (1.0, 1.0)]])
        }
        _ => panic!("expected Polygon"),
    }

    let mut mp = editor(5);
    mp.push_vertex((0.0, 0.0));
    mp.push_vertex((0.0, 1.0));
    mp.finish_part().unwrap_err();
    mp.push_vertex((1.0, 1.0));
    mp.finish_part().unwrap();
    mp.push_vertex((9.0, 9.0));
    match mp.export_geometry() {
        Ok(GeoGeometry::MultiPolygon(polys)) => {
            assert_eq!(polys, vec![vec![vec![(0.0, 0.0), (1.0, 0.0), (1.0, 1.0)]]])
        }
        _ => panic!("expected MultiPolygon"),
    }
}

#[test]
fn export_refuses_polygon_without_long_ring() {
    let mut s = editor(5);
    s.push_vertex((0.0, 0.0));
    s.push_vertex((1.0, 1.0));
    s.finish_part().unwrap_err();
    assert_eq!(s.export_geometry().err(), Some("Need ≥3 coordinates for MultiPolygon.".to_string()));

    let mut m = editor(3);
    m.push_vertex((0.0, 0.0));
    m.finish_part().unwrap_err();
    m.current.clear();
    m.parts = vec![vec![(0.0, 0.0)], vec![(1.0, 1.0)]];
    assert_eq!(
        m.export_geometry().err(),
        Some("Need ≥1 finished line with ≥2 points.".to_string())
    );
}

#[test]
fn shape_types_in_menu_order() {
    let all = ShapeType::all();
    assert_eq!(all.len(), 6);
    assert_eq!(ShapeType::at(4), ShapeType::Polygon);
    assert_eq!(ShapeType::Polygon.name(), "Polygon");
    assert_eq!(ShapeType::MultiPolygon.key(), '6');
    assert_eq!(ShapeType::LineString.min_coords_per_part(), 2);
    assert!(ShapeType::MultiPoint.is_multi());
    assert!(!ShapeType::Polygon.is_multi());
    assert_eq!(ShapeType::Point.hint(), "Enter one coordinate, then N to continue.");
}

#[test]
fn calculator_modes_and_fields() {
    let mut c: CalcState<f64> = CalcState::new();
    assert_eq!(c.current_mode(), CalcMode::LatLonToTile);
    assert_eq!(c.fields.len(), 3);
    c.fields[0] = "51".to_string();
    c.field_idx = 2;
    c.focus_right = true;
    c.set_mode(5);
    assert_eq!(c.current_mode(), CalcMode::DmsToDD);
    assert_eq!(c.fields.len(), 8);
    assert!(c.fields.iter().all(|f| f.is_empty()));
    assert_eq!(c.field_idx, 0);
    assert!(c.focus_right);
    c.set_mode(9);
    assert_eq!(c.mode_idx, 5);
    assert_eq!(CalcMode::DmsToDD.field_labels()[3], "N or S");
    assert_eq!(CalcMode::Distance.name(), "Haversine Distance");
    assert_eq!(CalcMode::DestinationPoint.key(), '9');
    assert_eq!(CalcMode::all().len(), 9);
}

#[test]
fn file_stem_strips_directory_and_extension() {
    assert_eq!(file_stem("/data/cities.geojson"), "cities");
    assert_eq!(file_stem("C:\\maps\\rivers.json"), "rivers");
    assert_eq!(file_stem("notes.txt"), "notes.txt");
    assert_eq!(file_stem("dir/"), "");
    assert!(bool_true());
}

#[test]
fn layer_entries_and_palette() {
    let layer: GeoLayer<f64> = GeoLayer { source: "/tmp/rivers.geojson".to_string(), features: Vec::new() };
    let e = LayerEntry::new(layer, 3);
    assert_eq!(e.label, "rivers");
    assert!(e.visible);
    assert_eq!(e.color_index, 3);
    let layer: GeoLayer<f64> = GeoLayer { source: "a/b.json".to_string(), features: Vec::new() };
    let r = LayerEntry::restored(layer, false, "", 1);
    assert_eq!(r.label, "b");
    assert!(!r.visible);
    let layer: GeoLayer<f64> = GeoLayer { source: "a/b.json".to_string(), features: Vec::new() };
    let w = LayerEntry::with_label(layer, "B (Lines)".to_string(), 4);
    assert_eq!(w.label, "B (Lines)");
    assert_eq!(layer_color_index(7), 2);
    assert_eq!(layer_color_index(256), 0);
    assert_eq!(layer_color_index(260), 4);
}

#[test]
fn hemisphere_letters() {
    assert_eq!(CalcState::<f64>::hem("N"), Some(false));
    assert_eq!(CalcState::<f64>::hem(" e\t"), Some(false));
    assert_eq!(CalcState::<f64>::hem("s"), Some(true));
    assert_eq!(CalcState::<f64>::hem("\u{3000}W\n"), Some(true));
    assert_eq!(CalcState::<f64>::hem("NE"), None);
    assert_eq!(CalcState::<f64>::hem("   "), None);
    assert_eq!(CalcState::<f64>::hem("x"), None);
    for s in ["north", "", "n n", "Ｎ"] {
        let lib = CalcState::<f64>::hem(s);
        let std_way = match s.trim().to_ascii_uppercase().as_str() {
            "N" | "E" => Some(false),
            "S" | "W" => Some(true),
            _ => None,
        };
        assert_eq!(lib, std_way, "{s:?}");
    }
}

#[test]
fn vertex_list_headings_and_rows() {
    let mut s: ShapeEditorState<f64> = ShapeEditorState::new();
    s.parts = vec![vec![(0.0, 0.0), (1.0, 1.0)], vec![(2.0, 2.0)]];
    s.current = vec![(3.0, 3.0), (4.0, 4.0)];
    assert_eq!(
        s.vertex_list(10, 30),
        vec![
            (10, Part(0)), (11, Vertex(0)), (12, Vertex(1)), (13, Part(1)), (14, Vertex(2)),
            (15, Current), (16, Vertex(3)), (17, Vertex(4)),
        ]
    );
    assert_eq!(s.vertex_list(10, 14), vec![(10, Part(0)), (11, Vertex(0))]);
    assert_eq!(s.vertex_list(10, 13), vec![]);
    s.vert_scroll = 2;
    assert_eq!(s.vertex_list(10, 14), vec![(10, Part(1)), (11, Vertex(2))]);
    s.vert_scroll = 9;
    assert_eq!(s.vertex_scroll(), 4);
    assert_eq!(s.vertex_list(10, 30), vec![(10, Vertex(4))]);
}

#[test]
fn saved_layers_come_back_from_entries_or_paths() {
    let entries = vec![SavedLayerEntry {
        path: "a.geojson".to_string(),
        visible: false,
        label: "A".to_string(),
        color_index: 3,
    }];
    let paths = vec!["x.json".to_string(), "y.json".to_string()];
    let plan = saved_layer_plan(&entries, &paths);
    assert_eq!(plan.len(), 1);
    assert_eq!(plan[0].path, "a.geojson");
    assert!(!plan[0].visible);
    assert_eq!(plan[0].label, "A");
    assert_eq!(plan[0].color_index, 3);
    let legacy = saved_layer_plan(&Vec::new(), &paths);
    assert_eq!(legacy.len(), 2);
    assert_eq!(legacy[1].path, "y.json");
    assert!(legacy[1].visible);
    assert_eq!(legacy[1].label, "");
    assert_eq!(legacy[0].color_index, 0);
    assert_eq!(legacy[1].color_index, 1);
}

#[test]
fn id_counter_bytes() {
    assert_eq!(stored_counter(None), 0);
    assert_eq!(bumped_counter(None), 1u64.to_be_bytes().to_vec());
    let seven = 7u64.to_be_bytes();
    assert_eq!(stored_counter(Some(&seven)), 7);
    assert_eq!(bumped_counter(Some(&seven)), 8u64.to_be_bytes().to_vec());
    let big = 0x0102_0304_0506_0708u64.to_be_bytes();
    assert_eq!(stored_counter(Some(&big)), 0x0102_0304_0506_0708);
    let long = [0u8, 0, 0, 0, 0, 0, 1, 0, 99, 99];
    assert_eq!(stored_counter(Some(&long)), 256);
    assert_eq!(bumped_counter(Some(&long)), 257u64.to_be_bytes().to_vec());
}

#[test]
fn saved_layers_round_trip() {
    let a: GeoLayer<f64> = GeoLayer { source: "/m/a.geojson".to_string(), features: Vec::new() };
    let b: GeoLayer<f64> = GeoLayer { source: "/m/b.json".to_string(), features: Vec::new() };
    let mut eb = LayerEntry::with_label(b, "Bees".to_string(), 2);
    eb.visible = false;
    let layers = vec![LayerEntry::new(a, 1), eb];
    let saved = saved_layer_entries(&layers);
    assert_eq!(saved.len(), 2);
    assert_eq!(saved[0].path, "/m/a.geojson");
    assert_eq!(saved[0].label, "a");
    assert!(saved[0].visible);
    assert_eq!(saved[1].label, "Bees");
    assert!(!saved[1].visible);
    assert_eq!(saved[1].color_index, 2);
    let back = saved_layer_plan(&saved, &vec!["old.json".to_string()]);
    assert_eq!(back.len(), 2);
    for (x, y) in back.iter().zip(saved.iter()) {
        assert_eq!((&x.path, x.visible, &x.label, x.color_index), (&y.path, y.visible, &y.label, y.color_index));
    }
}

#[test]
fn marker_keys_are_big_endian_ids() {
    assert_eq!(marker_key(0), vec![0u8; 8]);
    assert_eq!(marker_key(258), vec![0, 0, 0, 0, 0, 0, 1, 2]);
    assert_eq!(marker_key(u64::MAX), vec![255u8; 8]);
    assert!(marker_key(9) < marker_key(10));
    assert!(marker_key(255) < marker_key(256));
}

#[test]
fn vertex_heading_counts_vertices_and_parts() {
    let mut s: ShapeEditorState<f64> = ShapeEditorState::new();
    s.type_idx = 1; // MultiPoint
    assert_eq!(s.vertex_heading(), "Vertices (0)");
    s.parts = vec![vec![(0.0, 0.0)]];
    s.current = vec![(1.0, 1.0), (2.0, 2.0)];
    assert_eq!(s.vertex_heading(), "Vertices (3)  ·  1 part finished");
    s.parts.push(vec![(3.0, 3.0)]);
    assert_eq!(s.vertex_heading(), "Vertices (4)  ·  2 parts finished");
    s.type_idx = 0; // Point
    assert_eq!(s.vertex_heading(), "Vertices (4)");
}

#[test]
fn messages_that_report_problems() {
    assert!(vertex_message_is_alarm("Error: bad"));
    assert!(vertex_message_is_alarm("Need 2 coordinates"));
    assert!(vertex_message_is_alarm("Invalid latitude"));
    assert!(!vertex_message_is_alarm("Added vertex"));
    assert!(!vertex_message_is_alarm("an Error later"));
    assert!(export_message_is_alarm("Write error: denied"));
    assert!(export_message_is_alarm("Error"));
    assert!(!export_message_is_alarm("Exported to a.geojson"));
}

#[test]
fn unsigned_fields_read_like_str_parse() {
    for text in ["7", " 42 ", "+9", "0007", "4294967295", "4294967296", "", "+", "-1", "1 2", "x", "٣", "\t18\n"] {
        assert_eq!(CalcState::<f64>::pu(text), text.trim().parse::<u32>().ok(), "{text:?}");
        assert_eq!(CalcState::<f64>::p8(text), text.trim().parse::<u8>().ok(), "{text:?}");
    }
    assert_eq!(CalcState::<f64>::p8("255"), Some(255));
    assert_eq!(CalcState::<f64>::p8("256"), None);
    assert_eq!(CalcState::<f64>::pu(" 20 "), Some(20));
}

#[test]
fn undo_after_commit_restores_editor() {
    let mut s = editor(3);
    s.push_vertex((1.0, 2.0));
    s.push_vertex((3.0, 4.0));
    s.finish_part().unwrap();
    s.push_vertex((5.0, 6.0));
    let (parts, current, total) = (s.parts.clone(), s.current.clone(), s.total_coords());
    s.push_vertex((7.0, 8.0));
    s.undo_vertex();
    assert_eq!(s.parts, parts);
    assert_eq!(s.current, current);
    assert_eq!(s.total_coords(), total);
}
