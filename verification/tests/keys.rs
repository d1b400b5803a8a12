use console_gis::data::markers::ascii_symbol;
use console_gis::tui::app::{
    CalcMode, CalcResult, CalcState, MarkerInput, MarkerInputStep, ShapeEditorState,
    ShapeEditorStep, ShapeType,
};
use console_gis::data::geojson::GeoLayer;
use console_gis::tui::app::{clear_warning, LayerEntry};
use console_gis::tui::keys::{
    globe_key, map_key, ViewKeyAction, bookmark_key, calc_key, confirms, import_key, layers_key, marker_input_key, marker_list_key,
    menu_key, selected_row, selection_after_delete, shape_editor_key, zoom_explorer_key, zoom_in, zoom_out,
    BookmarkKeyAction, CalcKeyAction, ImportKeyAction, Key, LayersKeyAction, MarkerKeyAction,
    MarkerListAction, MenuKeyAction, ShapeKeyAction, ZoomKeyAction, route_key, diagnostics_key, KeyRoute,
};
use console_gis::tui::screen::View;
use console_gis::tui::views::menu::menu_items;

fn type_str(ed: &mut ShapeEditorState<f64>, s: &str) {
    for c in s.chars() {
        assert_eq!(shape_editor_key(ed, Key::Char(c)), ShapeKeyAction::Stay);
    }
}

#[test]
fn shape_editor_select_type_keys() {
    let mut ed: ShapeEditorState<f64> = ShapeEditorState::new();
    assert_eq!(shape_editor_key(&mut ed, Key::Up), ShapeKeyAction::Stay);
    assert_eq!(ed.type_idx, 0);
    for _ in 0..10 {
        shape_editor_key(&mut ed, Key::Down);
    }
    assert_eq!(ed.type_idx, 5);
    assert_eq!(shape_editor_key(&mut ed, Key::Char('3')), ShapeKeyAction::Stay);
    assert_eq!(ed.type_idx, 2);
    assert_eq!(ed.step, ShapeEditorStep::AddVertices);
    assert_eq!(ed.current_type(), ShapeType::LineString);

    let mut q: ShapeEditorState<f64> = ShapeEditorState::new();
    assert_eq!(shape_editor_key(&mut q, Key::Char('q')), ShapeKeyAction::ToMenu);
    assert_eq!(shape_editor_key(&mut q, Key::Esc), ShapeKeyAction::ToMenu);
    shape_editor_key(&mut q, Key::Char('9'));
    assert_eq!(q.step, ShapeEditorStep::SelectType);
    shape_editor_key(&mut q, Key::Tab);
    assert_eq!(q.step, ShapeEditorStep::AddVertices);
}

#[test]
fn shape_editor_vertex_entry() {
    let mut ed: ShapeEditorState<f64> = ShapeEditorState::new();
    shape_editor_key(&mut ed, Key::Char('1'));
    type_str(&mut ed, "51.5x");
    shape_editor_key(&mut ed, Key::Backspace);
    assert_eq!(ed.lat_buf, "51.5");
    assert_eq!(shape_editor_key(&mut ed, Key::Enter), ShapeKeyAction::Stay);
    assert_eq!(ed.coord_field, 1);
    type_str(&mut ed, "-0.1");
    assert_eq!(ed.lon_buf, "-0.1");
    assert_eq!(shape_editor_key(&mut ed, Key::Enter), ShapeKeyAction::CommitVertex);
    // the application parses the fields, then:
    ed.push_vertex((51.5, -0.1));
    ed.after_vertex_commit();
    assert_eq!(ed.step, ShapeEditorStep::EnterName);
}

#[test]
fn shape_editor_f_u_n_keys() {
    let mut ed: ShapeEditorState<f64> = ShapeEditorState::new();
    shape_editor_key(&mut ed, Key::Char('3'));
    shape_editor_key(&mut ed, Key::Char('f'));
    assert_eq!(ed.message.as_deref(), Some("F is only for multi-geometry types."));
    shape_editor_key(&mut ed, Key::Char('n'));
    assert_eq!(ed.message.as_deref(), Some("Need ≥2 coordinates for LineString."));
    ed.push_vertex((0.0, 0.0));
    ed.push_vertex((1.0, 1.0));
    shape_editor_key(&mut ed, Key::Char('u'));
    assert_eq!(ed.current, vec![(0.0, 0.0)]);
    ed.push_vertex((2.0, 2.0));
    shape_editor_key(&mut ed, Key::Up);
    assert_eq!(ed.vert_scroll, 0);
    shape_editor_key(&mut ed, Key::Down);
    shape_editor_key(&mut ed, Key::Down);
    assert_eq!(ed.vert_scroll, 1);
    shape_editor_key(&mut ed, Key::Char('N'));
    assert_eq!(ed.step, ShapeEditorStep::EnterName);
    assert_eq!(ed.message, None);

    let mut m: ShapeEditorState<f64> = ShapeEditorState::new();
    shape_editor_key(&mut m, Key::Char('2'));
    shape_editor_key(&mut m, Key::Char('F'));
    assert_eq!(m.message.as_deref(), Some("Need ≥1 coordinate to finish a MultiPoint."));
    m.push_vertex((1.0, 2.0));
    shape_editor_key(&mut m, Key::Char('F'));
    assert_eq!(m.parts, vec![vec![(1.0, 2.0)]]);
}

#[test]
fn shape_editor_name_and_export_steps() {
    let mut ed: ShapeEditorState<f64> = ShapeEditorState::new();
    ed.step = ShapeEditorStep::EnterName;
    type_str(&mut ed, "Park");
    shape_editor_key(&mut ed, Key::Char('\u{7}'));
    assert_eq!(ed.name_buf, "Park");
    shape_editor_key(&mut ed, Key::Tab);
    assert_eq!(ed.step, ShapeEditorStep::EnterExportPath);
    type_str(&mut ed, "out.geojson");
    assert_eq!(ed.export_buf, "out.geojson");
    assert_eq!(shape_editor_key(&mut ed, Key::Enter), ShapeKeyAction::Export);
    assert_eq!(shape_editor_key(&mut ed, Key::Esc), ShapeKeyAction::Stay);
    assert_eq!(ed.step, ShapeEditorStep::EnterName);
    shape_editor_key(&mut ed, Key::Tab);
    assert_eq!(shape_editor_key(&mut ed, Key::Char('Q')), ShapeKeyAction::ToMenu);
    assert_eq!(ed.step, ShapeEditorStep::SelectType);
    assert!(ed.name_buf.is_empty() && ed.export_buf.is_empty());
}

fn calc() -> CalcState<f64> {
    CalcState::new()
}

#[test]
fn calculator_navigation_keys() {
    let mut c = calc();
    assert_eq!(calc_key(&mut c, Key::Down), CalcKeyAction::Stay);
    assert_eq!(c.current_mode(), CalcMode::TileToLatLon);
    assert_eq!(calc_key(&mut c, Key::Esc), CalcKeyAction::ToMenu);
    calc_key(&mut c, Key::Char('6'));
    assert_eq!(c.current_mode(), CalcMode::DmsToDD);
    calc_key(&mut c, Key::Enter);
    assert!(c.focus_right);
    for _ in 0..7 {
        calc_key(&mut c, Key::Enter);
    }
    assert_eq!(c.field_idx, 7);
    assert_eq!(calc_key(&mut c, Key::Enter), CalcKeyAction::Compute);
    calc_key(&mut c, Key::Tab);
    assert_eq!(c.field_idx, 0);
    calc_key(&mut c, Key::Up);
    assert_eq!(c.field_idx, 0);
    calc_key(&mut c, Key::Esc);
    assert!(!c.focus_right);
    calc_key(&mut c, Key::Up);
    assert_eq!(c.current_mode(), CalcMode::DdToDms);
}

#[test]
fn calculator_typing_and_result_actions() {
    let mut c = calc();
    calc_key(&mut c, Key::Tab);
    calc_key(&mut c, Key::Char('5'));
    calc_key(&mut c, Key::Char('p'));
    assert_eq!(c.fields[0], "5p");
    calc_key(&mut c, Key::Backspace);
    assert_eq!(c.fields[0], "5");
    calc_key(&mut c, Key::Esc);
    assert_eq!(calc_key(&mut c, Key::Char('p')), CalcKeyAction::Stay);
    c.result = Some(CalcResult { lines: vec!["x".to_string()], latlon: Some((51.5, -0.1)) });
    assert_eq!(calc_key(&mut c, Key::Char('P')), CalcKeyAction::PlaceMarker(51.5, -0.1));
    assert_eq!(calc_key(&mut c, Key::Char('g')), CalcKeyAction::ShowOnGlobe(51.5, -0.1));
    assert_eq!(calc_key(&mut c, Key::Char('M')), CalcKeyAction::ShowOnMap(51.5, -0.1));
    assert_eq!(calc_key(&mut c, Key::Char('Q')), CalcKeyAction::ToMenu);
    calc_key(&mut c, Key::Tab);
    calc_key(&mut c, Key::Char('1'));
    assert!(c.result.is_none());
    assert_eq!(c.fields[0], "51");
}

#[test]
fn marker_overlay_keys() {
    let mut mi = MarkerInput::new(1.0, 2.0, None);
    assert_eq!(marker_input_key(&mut mi, Key::Char('★')), MarkerKeyAction::Stay);
    assert_eq!(mi.symbol_buf, "★");
    assert_eq!(mi.step, MarkerInputStep::Label);
    marker_input_key(&mut mi, Key::Tab);
    assert_eq!(mi.label_buf, "Marker");
    marker_input_key(&mut mi, Key::Backspace);
    marker_input_key(&mut mi, Key::Char('s'));
    assert_eq!(mi.label_buf, "Markes");
    marker_input_key(&mut mi, Key::Enter);
    assert_eq!(mi.step, MarkerInputStep::Blink);
    assert_eq!(marker_input_key(&mut mi, Key::Char('Y')), MarkerKeyAction::Commit);
    assert!(mi.blink);
    assert_eq!(mi.commit_symbol(), "★");
    assert_eq!(mi.commit_label(), "Markes");

    let mut d = MarkerInput::new(0.0, 0.0, Some(7));
    marker_input_key(&mut d, Key::Enter);
    assert_eq!(d.symbol_buf, "●");
    marker_input_key(&mut d, Key::Enter);
    assert_eq!(marker_input_key(&mut d, Key::Enter), MarkerKeyAction::Commit);
    assert!(!d.blink);
    assert_eq!(d.commit_label(), "Marker");
    assert_eq!(d.edit_id, Some(7));

    let mut e = MarkerInput::new(0.0, 0.0, None);
    assert_eq!(marker_input_key(&mut e, Key::Esc), MarkerKeyAction::Cancel);
    assert_eq!(e.commit_symbol(), "●");
}

#[test]
fn ascii_symbols_for_vt100() {
    assert_eq!(ascii_symbol("A"), 'A');
    assert_eq!(ascii_symbol("★"), '*');
    assert_eq!(ascii_symbol(""), '*');
    assert_eq!(ascii_symbol(" x"), '*');
    assert_eq!(ascii_symbol("#1"), '#');
}

#[test]
fn menu_keys() {
    let items = menu_items();
    let mut sel = 0usize;
    assert_eq!(menu_key(&mut sel, &items, Key::Up), MenuKeyAction::Stay);
    assert_eq!(sel, 0);
    for _ in 0..20 {
        menu_key(&mut sel, &items, Key::Down);
    }
    assert_eq!(sel, 7);
    assert_eq!(menu_key(&mut sel, &items, Key::Enter), MenuKeyAction::Open(View::ShapeEditor));
    assert_eq!(menu_key(&mut sel, &items, Key::Char('2')), MenuKeyAction::Open(View::FlatMap));
    assert_eq!(menu_key(&mut sel, &items, Key::Char('Q')), MenuKeyAction::Quit);
    assert_eq!(menu_key(&mut sel, &items, Key::Char('z')), MenuKeyAction::Stay);
}

fn entry(name: &str) -> LayerEntry<f64> {
    LayerEntry::new(GeoLayer { source: name.to_string(), features: Vec::new() }, 0)
}

#[test]
fn layer_manager_keys() {
    let mut sel = 0usize;
    let mut layers = vec![entry("a.json"), entry("b.json")];
    let mut topo = true;
    let mut info = false;
    layers_key(&mut sel, &mut layers, &mut topo, &mut info, Key::Enter);
    assert!(!topo);
    layers_key(&mut sel, &mut layers, &mut topo, &mut info, Key::Down);
    layers_key(&mut sel, &mut layers, &mut topo, &mut info, Key::Down);
    layers_key(&mut sel, &mut layers, &mut topo, &mut info, Key::Down);
    assert_eq!(sel, 2);
    layers_key(&mut sel, &mut layers, &mut topo, &mut info, Key::Char(' '));
    assert!(!layers[1].visible);
    layers_key(&mut sel, &mut layers, &mut topo, &mut info, Key::Char('d'));
    assert_eq!(layers.len(), 1);
    assert_eq!(layers[0].label, "a");
    assert_eq!(sel, 1);
    layers_key(&mut sel, &mut layers, &mut topo, &mut info, Key::Char('i'));
    assert!(info);
    let act = layers_key(&mut sel, &mut layers, &mut topo, &mut info, Key::Char('q'));
    assert_eq!(act, LayersKeyAction::Back);
}

#[test]
fn import_overlay_keys() {
    let mut buf = String::new();
    let mut err = Some("old".to_string());
    for c in "a.geojson".chars() {
        import_key(&mut buf, &mut err, Key::Char(c));
    }
    assert_eq!(buf, "a.geojon");
    assert_eq!(import_key(&mut buf, &mut err, Key::Char('S')), ImportKeyAction::LoadSplit);
    import_key(&mut buf, &mut err, Key::Backspace);
    assert_eq!(buf, "a.geojo");
    assert_eq!(import_key(&mut buf, &mut err, Key::Enter), ImportKeyAction::Load);
    assert_eq!(import_key(&mut buf, &mut err, Key::Tab), ImportKeyAction::Stay);
    assert!(buf.is_empty() && err.is_none());
    err = Some("e".to_string());
    assert_eq!(import_key(&mut buf, &mut err, Key::Esc), ImportKeyAction::Close);
    assert!(err.is_none());
}

#[test]
fn bookmark_overlay_keys() {
    let mut buf = String::new();
    assert_eq!(bookmark_key(&mut buf, Key::Char(' ')), BookmarkKeyAction::Stay);
    assert_eq!(bookmark_key(&mut buf, Key::Enter), BookmarkKeyAction::Save("Bookmark".to_string()));
    assert!(buf.is_empty());
    for c in "Home".chars() {
        bookmark_key(&mut buf, Key::Char(c));
    }
    assert_eq!(bookmark_key(&mut buf, Key::Tab), BookmarkKeyAction::FillPosition);
    bookmark_key(&mut buf, Key::Backspace);
    assert_eq!(bookmark_key(&mut buf, Key::Enter), BookmarkKeyAction::Save("Hom".to_string()));
    bookmark_key(&mut buf, Key::Char('x'));
    assert_eq!(bookmark_key(&mut buf, Key::Esc), BookmarkKeyAction::Close);
    assert!(buf.is_empty());
}

#[test]
fn marker_list_keys_and_selection() {
    let mut sel = 0usize;
    assert_eq!(marker_list_key(&mut sel, 0, Key::Char('d')), MarkerListAction::Stay);
    assert_eq!(marker_list_key(&mut sel, 3, Key::Char('D')), MarkerListAction::ConfirmDelete);
    marker_list_key(&mut sel, 3, Key::Down);
    marker_list_key(&mut sel, 3, Key::Down);
    marker_list_key(&mut sel, 3, Key::Down);
    assert_eq!(sel, 2);
    assert_eq!(marker_list_key(&mut sel, 3, Key::Char('q')), MarkerListAction::ToMenu);
    assert_eq!(marker_list_key(&mut sel, 3, Key::Char('Q')), MarkerListAction::Stay);
    assert_eq!(marker_list_key(&mut sel, 3, Key::Char('x')), MarkerListAction::ConfirmClear);
    assert_eq!(marker_list_key(&mut sel, 3, Key::Char('g')), MarkerListAction::ShowOnGlobe);
    assert_eq!(marker_list_key(&mut sel, 3, Key::Char('P')), MarkerListAction::ShowOnMap);
    assert_eq!(marker_list_key(&mut sel, 3, Key::Char('e')), MarkerListAction::Edit);
    assert_eq!(selected_row(5, 3), 2);
    assert_eq!(selected_row(1, 3), 1);
    assert_eq!(selected_row(4, 0), 0);
    assert_eq!(selection_after_delete(2, 2), 1);
    assert_eq!(selection_after_delete(2, 0), 2);
    assert!(confirms(Key::Char('Y')));
    assert!(!confirms(Key::Enter));
}

#[test]
fn zoom_explorer_keys() {
    let mut z = 19u8;
    zoom_explorer_key(&mut z, Key::Up);
    zoom_explorer_key(&mut z, Key::Char('+'));
    assert_eq!(z, 20);
    zoom_explorer_key(&mut z, Key::Char('-'));
    assert_eq!(z, 19);
    let mut zero = 0u8;
    zoom_explorer_key(&mut zero, Key::Down);
    assert_eq!(zero, 0);
    assert_eq!(zoom_explorer_key(&mut zero, Key::Esc), ZoomKeyAction::ToMenu);
}

#[test]
fn globe_and_map_key_actions() {
    assert_eq!(globe_key(false, Key::Char('a')), ViewKeyAction::West);
    assert_eq!(globe_key(false, Key::Char('A')), ViewKeyAction::Stay);
    assert_eq!(globe_key(false, Key::Char(' ')), ViewKeyAction::ToggleAnimation);
    assert_eq!(globe_key(false, Key::Char('W')), ViewKeyAction::ZoomIn);
    assert_eq!(globe_key(false, Key::Char('+')), ViewKeyAction::Stay);
    assert_eq!(globe_key(false, Key::Char('q')), ViewKeyAction::ToMenu);
    assert_eq!(globe_key(false, Key::Char('T')), ViewKeyAction::ToggleTopo);
    assert_eq!(globe_key(true, Key::Enter), ViewKeyAction::PlaceHere);
    assert_eq!(globe_key(true, Key::Char('q')), ViewKeyAction::Stay);
    assert_eq!(globe_key(true, Key::Esc), ViewKeyAction::CancelPlacing);
    assert_eq!(map_key(false, Key::Char('+')), ViewKeyAction::ZoomIn);
    assert_eq!(map_key(false, Key::Char('-')), ViewKeyAction::ZoomOut);
    assert_eq!(map_key(false, Key::Char(' ')), ViewKeyAction::Stay);
    assert_eq!(map_key(false, Key::Char('x')), ViewKeyAction::ConfirmClear);
    assert_eq!(map_key(false, Key::Up), ViewKeyAction::North);
    assert_eq!(map_key(true, Key::Char('d')), ViewKeyAction::East);
    assert_eq!(map_key(false, Key::Char('i')), ViewKeyAction::OpenImport);
    assert_eq!(map_key(false, Key::Char('L')), ViewKeyAction::OpenLayers);
    assert_eq!(map_key(false, Key::Char('m')), ViewKeyAction::StartPlacing);
}

#[test]
fn keys_go_to_the_topmost_prompt() {
    assert_eq!(route_key(true, true, true, true, View::Calculator, true, true), KeyRoute::ConfirmDelete);
    assert_eq!(route_key(false, true, true, true, View::Globe, true, true), KeyRoute::ConfirmClear);
    assert_eq!(route_key(false, false, true, true, View::Globe, false, true), KeyRoute::Bookmark);
    assert_eq!(route_key(false, false, false, true, View::ShapeEditor, false, false), KeyRoute::MarkerInput);
    assert_eq!(route_key(false, false, false, false, View::Calculator, true, true), KeyRoute::Calculator);
    assert_eq!(route_key(false, false, false, false, View::ShapeEditor, true, false), KeyRoute::ShapeEditor);
    assert_eq!(route_key(false, false, false, false, View::Layers, true, false), KeyRoute::CloseLayerInfo);
    assert_eq!(route_key(false, false, false, false, View::Layers, false, true), KeyRoute::Layers);
    assert_eq!(route_key(false, false, false, false, View::FlatMap, false, true), KeyRoute::Import);
    assert_eq!(route_key(false, false, false, false, View::Menu, false, false), KeyRoute::View);
}

#[test]
fn diagnostics_keys() {
    assert!(diagnostics_key(Key::Esc));
    assert!(diagnostics_key(Key::Char('q')));
    assert!(!diagnostics_key(Key::Char('x')));
    assert!(!diagnostics_key(Key::Enter));
}

#[test]
fn marker_overlay_lines() {
    let mut mi: MarkerInput<f64> = MarkerInput::new(1.0, 2.0, None);
    mi.symbol_buf = "★".to_string();
    assert_eq!(mi.prompt_title(), " Marker symbol  (any character · Tab=● · Esc=cancel) ");
    assert_eq!(mi.input_line(), " > ★█");
    mi.step = MarkerInputStep::Label;
    mi.label_buf = "Home".to_string();
    assert_eq!(mi.input_line(), " > Home█");
    assert_eq!(mi.prompt_title(), " Marker label   (free text · Tab=\"Marker\" · Enter=next · Esc=cancel) ");
    mi.step = MarkerInputStep::Blink;
    assert_eq!(mi.input_line(), format!(" > blink: {}  [Y/N]", "off"));
    mi.blink = true;
    assert_eq!(mi.input_line(), format!(" > blink: {}  [Y/N]", "ON "));
    assert_eq!(mi.prompt_title(), " Blink marker?  (Y=yes · N/Enter=no · Esc=cancel) ");
}

#[test]
fn clear_warning_counts_markers() {
    assert_eq!(
        clear_warning(1),
        " ⚠  CLEAR ALL MARKERS — delete 1 marker permanently? This cannot be undone."
    );
    assert_eq!(
        clear_warning(12),
        " ⚠  CLEAR ALL MARKERS — delete 12 markers permanently? This cannot be undone."
    );
}

#[test]
fn space_twice_restores_layer_visibility() {
    let mut sel = 1usize;
    let mut layers = vec![entry("a.json"), entry("b.json")];
    let mut topo = true;
    let mut info = false;
    assert!(layers[0].visible);
    layers_key(&mut sel, &mut layers, &mut topo, &mut info, Key::Char(' '));
    assert!(!layers[0].visible);
    layers_key(&mut sel, &mut layers, &mut topo, &mut info, Key::Char(' '));
    assert!(layers[0].visible && layers[1].visible);
    assert_eq!(sel, 1);
    assert!(topo && !info);
}

#[test]
fn layer_selection_stays_on_a_row() {
    let mut sel = 0usize;
    let mut layers = vec![entry("a.json"), entry("b.json")];
    let mut topo = true;
    let mut info = false;
    for _ in 0..5 {
        layers_key(&mut sel, &mut layers, &mut topo, &mut info, Key::Down);
        assert!(sel <= layers.len());
    }
    assert_eq!(sel, 2);
    layers_key(&mut sel, &mut layers, &mut topo, &mut info, Key::Char('d'));
    assert!(sel <= layers.len());
    layers_key(&mut sel, &mut layers, &mut topo, &mut info, Key::Char('d'));
    assert_eq!(layers.len(), 0);
    assert_eq!(sel, 0);
}

#[test]
fn zoom_in_then_out_comes_back() {
    assert_eq!(zoom_in(5), 6);
    assert_eq!(zoom_out(zoom_in(5)), 5);
    assert_eq!(zoom_in(zoom_out(7)), 7);
    assert_eq!(zoom_in(20), 20);
    assert_eq!(zoom_out(0), 0);
}
