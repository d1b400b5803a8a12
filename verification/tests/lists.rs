use console_gis::data::geojson::GeoLayer;
use console_gis::tui::app::LayerEntry;
use console_gis::tui::views::layers::{
    globe_layer_info, map_layer_info, layer_list_rows, layer_name, layer_row_text, layers_title, shown_layer_count,
};
use console_gis::tui::views::layers::LayerRow::{Layer, NoLayers, Separator, Topo};
use console_gis::tui::views::list::{follow_scroll, scroll_percent};
use console_gis::tui::views::markers::{label_width, marker_scroll};

fn entry(visible: bool) -> LayerEntry<f64> {
    let layer: GeoLayer<f64> = GeoLayer { source: "a/b.json".to_string(), features: Vec::new() };
    LayerEntry::restored(layer, visible, "", 0)
}

#[test]
fn scroll_follows_the_selection() {
    assert_eq!(follow_scroll(5, 3), 3);
    assert_eq!(follow_scroll(2, 3), 0);
    assert_eq!(follow_scroll(3, 3), 1);
    assert_eq!(follow_scroll(0, 0), 1);
}

#[test]
fn scroll_percent_of_the_span() {
    assert_eq!(scroll_percent(2, 10, 4), 33);
    assert_eq!(scroll_percent(6, 10, 4), 100);
    assert_eq!(scroll_percent(0, 3, 5), 0);
}

#[test]
fn layer_list_rows_follow_the_selection() {
    assert_eq!(layer_list_rows(2, 0, 10), vec![Topo, Separator, Layer(0), Layer(1)]);
    assert_eq!(layer_list_rows(0, 0, 10), vec![Topo, Separator, NoLayers]);
    assert_eq!(layer_list_rows(5, 4, 3), vec![Separator, Layer(0), Layer(1)]);
    assert_eq!(layer_list_rows(5, 5, 3), vec![Separator, Layer(1), Layer(2)]);
    assert_eq!(layer_list_rows(3, 0, 0), vec![]);
    assert_eq!(layer_list_rows(3, 0, 1), vec![Topo]);
    assert_eq!(layer_list_rows(3, 0, 2), vec![Topo, Separator]);
}

#[test]
fn layer_counts_and_title() {
    let layers = vec![entry(true), entry(false)];
    assert_eq!(shown_layer_count(&layers, false), 1);
    assert_eq!(shown_layer_count(&layers, true), 2);
    assert_eq!(layers_title(&layers, false), " Layers  │  3 layers  │  1 visible ");
    assert_eq!(layers_title::<f64>(&[], true), " Layers  │  1 layer  │  1 visible ");
}

#[test]
fn layer_names_are_cut_after_29_bytes() {
    assert_eq!(layer_name("rivers"), "rivers");
    let long = "abcdefghijklmnopqrstuvwxyz0123456789";
    assert_eq!(layer_name(long), format!("{}…", &long[..29]));
    let wide = format!("a{}", "é".repeat(15));
    assert_eq!(layer_name(&wide), format!("a{}…", "é".repeat(14)));
    let exact = "x".repeat(30);
    assert_eq!(layer_name(&exact), exact);
}

#[test]
fn layer_row_text_matches_the_table_columns() {
    assert_eq!(
        layer_row_text(true, 0, true, true, "Topography  (built-in)", None),
        format!("{}  {:>2}  {}  {}  {:<30}  {}", "►", 0, "●", "■", "Topography  (built-in)", "-")
    );
    assert_eq!(
        layer_row_text(false, 12, false, false, "rivers", Some(140)),
        format!("{}  {:>2}  {}  {}  {:<30}  {}", " ", 12, " ", "#", "rivers", 140)
    );
    assert_eq!(
        layer_row_text(true, 3, false, true, "x", Some(0)),
        format!("{}  {:>2}  {}  {}  {:<30}  {}", "►", 3, "·", "■", "x", 0)
    );
    assert_eq!(layer_row_text(false, 7, true, false, "n", Some(1)), "    7  *  #  n                               1");
}

#[test]
fn marker_table_label_width_and_scroll() {
    assert_eq!(label_width(100, 40), 62);
    assert_eq!(label_width(60, 20), 22);
    assert_eq!(label_width(40, 10), 8);
    assert_eq!(marker_scroll(0, 5, 3), 0);
    assert_eq!(marker_scroll(10, 20, 3), 7);
    assert_eq!(marker_scroll(10, 1, 3), 0);
    assert_eq!(marker_scroll(10, 4, 3), 2);
}

#[test]
fn status_bar_layer_notes() {
    let none: Vec<LayerEntry<f64>> = Vec::new();
    assert_eq!(map_layer_info(&none), "");
    assert_eq!(globe_layer_info(&none), "");
    let one = vec![entry(false)];
    assert_eq!(map_layer_info(&one), "  │  0/1 layer");
    assert_eq!(globe_layer_info(&one), "  │  1 layer");
    let three = vec![entry(true), entry(false), entry(true)];
    assert_eq!(map_layer_info(&three), "  │  2/3 layers");
    assert_eq!(globe_layer_info(&three), "  │  3 layers");
}
