//! Application state of the TUI that is independent of the terminal:
//! views, the shape editor's geometry types, calculator modes and the saved
//! layer list.
use vstd::prelude::*;
use crate::text::{
    decimal, parse_unsigned, parsed_unsigned, push_decimal, push_str, string_from, trim_bounds,
    trimmed,
};
use crate::data::export::{export_jv, export_props, geometry_jv, lemma_export_reads_back};
use crate::data::json::JsonV;
use crate::data::geojson::{
    family_name, features_of, geom_wf, split_groups, FeatV, GeoError, GeoGeometry, GeoLayer, GeomV,
    geom_view, line_views, poly_views,
};

verus! {

/// Which field is currently being entered in the marker input overlay.
#[derive(Debug, Clone, Copy, PartialEq, Eq, Structural)]
pub enum MarkerInputStep {
    Symbol,
    Label,
    /// Yes/No prompt for the blink attribute.
    Blink,
}

/// State for the two/three-step marker placement or edit overlay; the
/// position is of type `N`.
pub struct MarkerInput<N> {
    /// Geographic position — set at placement time, unchanged during edit.
    pub lat: N,
    pub lon: N,
    /// Current text in the symbol input box.
    pub symbol_buf: String,
    /// Current text in the label input box.
    pub label_buf: String,
    /// Whether blink is toggled on.
    pub blink: bool,
    /// Which step we are on.
    pub step: MarkerInputStep,
    /// `Some(id)` when editing an existing marker; `None` when inserting new.
    pub edit_id: Option<u64>,
}

/// Mathematical model of a [`MarkerInput`].
pub struct MarkerInputV<N> {
    pub lat: N,
    pub lon: N,
    pub symbol: Seq<char>,
    pub label: Seq<char>,
    pub blink: bool,
    pub step: MarkerInputStep,
    pub edit_id: Option<u64>,
}

impl<N> View for MarkerInput<N> {
    type V = MarkerInputV<N>;

    open spec fn view(&self) -> MarkerInputV<N> {
        MarkerInputV {
            lat: self.lat,
            lon: self.lon,
            symbol: self.symbol_buf@,
            label: self.label_buf@,
            blink: self.blink,
            step: self.step,
            edit_id: self.edit_id,
        }
    }
}

/// The symbol a committed marker gets: the one entered, or `●`.
pub open spec fn committed_symbol(symbol: Seq<char>) -> Seq<char> {
    if symbol.len() == 0 { "●"@ } else { symbol }
}

/// The label a committed marker gets: the one entered, or `Marker`.
pub open spec fn committed_label(label: Seq<char>) -> Seq<char> {
    if label.len() == 0 { "Marker"@ } else { label }
}

impl<N: Copy> MarkerInput<N> {
    /// A new overlay at `(lat, lon)` on the symbol step; `edit_id` names the
    /// marker being edited.
    pub fn new(lat: N, lon: N, edit_id: Option<u64>) -> (m: Self)
        ensures
            m@ == (MarkerInputV {
                lat,
                lon,
                symbol: Seq::empty(),
                label: Seq::empty(),
                blink: false,
                step: MarkerInputStep::Symbol,
                edit_id,
            }),
    {
        MarkerInput {
            lat,
            lon,
            symbol_buf: String::new(),
            label_buf: String::new(),
            blink: false,
            step: MarkerInputStep::Symbol,
            edit_id,
        }
    }

    /// The symbol to store: the one entered, or `●` when none was.
    pub fn commit_symbol(&self) -> (s: String)
        ensures
            s@ == committed_symbol(self.symbol_buf@),
    {
        if self.symbol_buf.as_str().unicode_len() == 0 {
            string_from("●")
        } else {
            self.symbol_buf.clone()
        }
    }

    /// The label to store: the one entered, or `Marker` when none was.
    pub fn commit_label(&self) -> (s: String)
        ensures
            s@ == committed_label(self.label_buf@),
    {
        if self.label_buf.as_str().unicode_len() == 0 {
            string_from("Marker")
        } else {
            self.label_buf.clone()
        }
    }
}

/// The marker overlay's prompt line for each step.
pub open spec fn marker_prompt_title(step: MarkerInputStep) -> Seq<char> {
    match step {
        MarkerInputStep::Symbol => " Marker symbol  (any character · Tab=● · Esc=cancel) "@,
        MarkerInputStep::Label => " Marker label   (free text · Tab=\"Marker\" · Enter=next · Esc=cancel) "@,
        MarkerInputStep::Blink => " Blink marker?  (Y=yes · N/Enter=no · Esc=cancel) "@,
    }
}

/// The marker overlay's input line: the text being typed with a cursor, or
/// the blink setting.
pub open spec fn marker_input_line<N>(m: MarkerInputV<N>) -> Seq<char> {
    match m.step {
        MarkerInputStep::Symbol => " > "@ + m.symbol + "█"@,
        MarkerInputStep::Label => " > "@ + m.label + "█"@,
        MarkerInputStep::Blink => if m.blink {
            " > blink: ON   [Y/N]"@
        } else {
            " > blink: off  [Y/N]"@
        },
    }
}

impl<N: Copy> MarkerInput<N> {
    /// The overlay's prompt line.
    pub fn prompt_title(&self) -> (s: &'static str)
        ensures
            s@ == marker_prompt_title(self.step),
    {
        match self.step {
            MarkerInputStep::Symbol => " Marker symbol  (any character · Tab=● · Esc=cancel) ",
            MarkerInputStep::Label => " Marker label   (free text · Tab=\"Marker\" · Enter=next · Esc=cancel) ",
            MarkerInputStep::Blink => " Blink marker?  (Y=yes · N/Enter=no · Esc=cancel) ",
        }
    }

    /// The overlay's input line.
    pub fn input_line(&self) -> (s: String)
        ensures
            s@ == marker_input_line(self@),
    {
        match self.step {
            MarkerInputStep::Symbol => {
                let mut s = string_from(" > ");
                push_str(&mut s, self.symbol_buf.as_str());
                push_str(&mut s, "█");
                s
            },
            MarkerInputStep::Label => {
                let mut s = string_from(" > ");
                push_str(&mut s, self.label_buf.as_str());
                push_str(&mut s, "█");
                s
            },
            MarkerInputStep::Blink => if self.blink {
                string_from(" > blink: ON   [Y/N]")
            } else {
                string_from(" > blink: off  [Y/N]")
            },
        }
    }
}

/// The warning shown before all markers are cleared.
pub open spec fn clear_warning_text(count: nat) -> Seq<char> {
    " ⚠  CLEAR ALL MARKERS — delete "@ + decimal(count) + (if count == 1 {
        " marker"@
    } else {
        " markers"@
    }) + " permanently? This cannot be undone."@
}

/// The warning shown before `count` markers are cleared.
pub fn clear_warning(count: usize) -> (s: String)
    ensures
        s@ == clear_warning_text(count as nat),
{
    let mut s = string_from(" ⚠  CLEAR ALL MARKERS — delete ");
    crate::text::push_count(&mut s, count);
    if count == 1 {
        push_str(&mut s, " marker");
    } else {
        push_str(&mut s, " markers");
    }
    push_str(&mut s, " permanently? This cannot be undone.");
    s
}

// ── Shape editor ──────────────────────────────────────────────────────────────

/// Geometry type being constructed.
#[derive(Debug, Clone, Copy, PartialEq, Eq, Structural)]
pub enum ShapeType {
    Point,
    MultiPoint,
    LineString,
    MultiLineString,
    Polygon,
    MultiPolygon,
}

/// Number of geometry types.
pub const SHAPE_TYPE_COUNT: usize = 6;

/// Geometry types in menu order.
pub open spec fn shape_type_at(i: int) -> ShapeType {
    if i == 0 {
        ShapeType::Point
    } else if i == 1 {
        ShapeType::MultiPoint
    } else if i == 2 {
        ShapeType::LineString
    } else if i == 3 {
        ShapeType::MultiLineString
    } else if i == 4 {
        ShapeType::Polygon
    } else {
        ShapeType::MultiPolygon
    }
}

/// Name of each geometry type (as GeoJSON spells it).
pub open spec fn shape_type_name(t: ShapeType) -> Seq<char> {
    match t {
        ShapeType::Point => "Point"@,
        ShapeType::MultiPoint => "MultiPoint"@,
        ShapeType::LineString => "LineString"@,
        ShapeType::MultiLineString => "MultiLineString"@,
        ShapeType::Polygon => "Polygon"@,
        ShapeType::MultiPolygon => "MultiPolygon"@,
    }
}

/// Editor hint for each geometry type.
pub open spec fn shape_type_hint(t: ShapeType) -> Seq<char> {
    match t {
        ShapeType::Point => "Enter one coordinate, then N to continue."@,
        ShapeType::MultiPoint => "Add points. F=finish adding · N=next step"@,
        ShapeType::LineString => "Add ≥2 coords for the line. N=next step"@,
        ShapeType::MultiLineString => "Add coords. F=finish line · N=done adding lines"@,
        ShapeType::Polygon => "Add ≥3 coords for the ring. N=next step"@,
        ShapeType::MultiPolygon => "Add coords. F=finish polygon · N=done"@,
    }
}

/// Minimum coordinates per part: 1 for points, 2 for lines, 3 for polygons.
pub open spec fn shape_min_coords(t: ShapeType) -> nat {
    match t {
        ShapeType::Point | ShapeType::MultiPoint => 1,
        ShapeType::LineString | ShapeType::MultiLineString => 2,
        ShapeType::Polygon | ShapeType::MultiPolygon => 3,
    }
}

/// Whether a geometry type has several parts.
pub open spec fn shape_is_multi(t: ShapeType) -> bool {
    t == ShapeType::MultiPoint || t == ShapeType::MultiLineString || t == ShapeType::MultiPolygon
}

/// Selection key of each geometry type, `1`–`6`.
pub open spec fn shape_type_key(t: ShapeType) -> char {
    match t {
        ShapeType::Point => '1',
        ShapeType::MultiPoint => '2',
        ShapeType::LineString => '3',
        ShapeType::MultiLineString => '4',
        ShapeType::Polygon => '5',
        ShapeType::MultiPolygon => '6',
    }
}

impl ShapeType {
    /// All geometry types, in menu order.
    pub fn all() -> (v: Vec<ShapeType>)
        ensures
            v@.len() == SHAPE_TYPE_COUNT,
            forall|i: int| 0 <= i < SHAPE_TYPE_COUNT ==> v@[i] == shape_type_at(i),
    {
        let mut v = Vec::new();
        v.push(ShapeType::Point);
        v.push(ShapeType::MultiPoint);
        v.push(ShapeType::LineString);
        v.push(ShapeType::MultiLineString);
        v.push(ShapeType::Polygon);
        v.push(ShapeType::MultiPolygon);
        v
    }

    /// The geometry type at position `i` of the menu.
    pub fn at(i: usize) -> (t: ShapeType)
        requires
            i < SHAPE_TYPE_COUNT,
        ensures
            t == shape_type_at(i as int),
    {
        match i {
            0 => ShapeType::Point,
            1 => ShapeType::MultiPoint,
            2 => ShapeType::LineString,
            3 => ShapeType::MultiLineString,
            4 => ShapeType::Polygon,
            _ => ShapeType::MultiPolygon,
        }
    }

    pub fn name(self) -> (s: &'static str)
        ensures
            s@ == shape_type_name(self),
    {
        match self {
            ShapeType::Point => "Point",
            ShapeType::MultiPoint => "MultiPoint",
            ShapeType::LineString => "LineString",
            ShapeType::MultiLineString => "MultiLineString",
            ShapeType::Polygon => "Polygon",
            ShapeType::MultiPolygon => "MultiPolygon",
        }
    }

    pub fn key(self) -> (c: char)
        ensures
            c == shape_type_key(self),
    {
        match self {
            ShapeType::Point => '1',
            ShapeType::MultiPoint => '2',
            ShapeType::LineString => '3',
            ShapeType::MultiLineString => '4',
            ShapeType::Polygon => '5',
            ShapeType::MultiPolygon => '6',
        }
    }

    /// Minimum coordinates required to form a valid geometry.
    pub fn min_coords_per_part(self) -> (n: usize)
        ensures
            n == shape_min_coords(self),
    {
        match self {
            ShapeType::Point | ShapeType::MultiPoint => 1,
            ShapeType::LineString | ShapeType::MultiLineString => 2,
            ShapeType::Polygon | ShapeType::MultiPolygon => 3,
        }
    }

    /// Whether the type supports multiple parts (F to finish part).
    pub fn is_multi(self) -> (b: bool)
        ensures
            b == shape_is_multi(self),
    {
        match self {
            ShapeType::MultiPoint | ShapeType::MultiLineString | ShapeType::MultiPolygon => true,
            _ => false,
        }
    }

    pub fn hint(self) -> (s: &'static str)
        ensures
            s@ == shape_type_hint(self),
    {
        match self {
            ShapeType::Point => "Enter one coordinate, then N to continue.",
            ShapeType::MultiPoint => "Add points. F=finish adding · N=next step",
            ShapeType::LineString => "Add ≥2 coords for the line. N=next step",
            ShapeType::MultiLineString => "Add coords. F=finish line · N=done adding lines",
            ShapeType::Polygon => "Add ≥3 coords for the ring. N=next step",
            ShapeType::MultiPolygon => "Add coords. F=finish polygon · N=done",
        }
    }
}

/// Which step the shape editor is on.
#[derive(Debug, Clone, Copy, PartialEq, Eq, Structural)]
pub enum ShapeEditorStep {
    SelectType,
    AddVertices,
    EnterName,
    EnterExportPath,
}

/// The coordinates of a list of parts, in order.
pub open spec fn concat_parts<N>(ps: Seq<Seq<(N, N)>>) -> Seq<(N, N)>
    decreases ps.len(),
{
    if ps.len() == 0 {
        Seq::empty()
    } else {
        concat_parts(ps.drop_last()) + ps.last()
    }
}

/// No part is empty.
pub open spec fn parts_nonempty<N>(ps: Seq<Seq<(N, N)>>) -> bool {
    forall|i: int| 0 <= i < ps.len() ==> #[trigger] ps[i].len() > 0
}

/// The parts and current part after undoing one vertex: the last vertex of
/// the current part goes; with none there, the last vertex of the last
/// finished part goes, and that part with it when it empties.
pub open spec fn undo_parts<N>(parts: Seq<Seq<(N, N)>>, current: Seq<(N, N)>) -> (
    Seq<Seq<(N, N)>>,
    Seq<(N, N)>,
) {
    if current.len() > 0 {
        (parts, current.drop_last())
    } else if parts.len() > 0 {
        let last = parts.last();
        if last.len() <= 1 {
            (parts.drop_last(), current)
        } else {
            (parts.drop_last().push(last.drop_last()), current)
        }
    } else {
        (parts, current)
    }
}

/// `n - 1`, or 0 for 0.
pub open spec fn minus_one(n: nat) -> nat {
    if n == 0 { 0 } else { (n - 1) as nat }
}

/// `Need ≥{min} coordinate{s} {what} {name}.`
pub open spec fn need_coords_text(t: ShapeType, what: Seq<char>) -> Seq<char> {
    "Need ≥"@ + decimal(shape_min_coords(t)) + " coordinate"@ + (if shape_min_coords(t) == 1 {
        ""@
    } else {
        "s"@
    }) + what + shape_type_name(t) + "."@
}

/// Message for finishing a part with too few vertices.
pub open spec fn finish_part_error(t: ShapeType) -> Seq<char> {
    need_coords_text(t, " to finish a "@)
}

/// Message for exporting a shape with too few vertices in all.
pub open spec fn too_few_coords_error(t: ShapeType) -> Seq<char> {
    need_coords_text(t, " for "@)
}

/// A vertex `(lat, lon)` as a GeoJSON position `(lon, lat)`.
/// A vertex, entered as (lat, lon), as a GeoJSON position (lon, lat).
pub open spec fn lon_lat<N>(c: (N, N)) -> (N, N) {
    (c.1, c.0)
}

/// A part's vertices as GeoJSON positions.
pub open spec fn part_lon_lat<N>(p: Seq<(N, N)>) -> Seq<(N, N)> {
    p.map_values(|c: (N, N)| lon_lat(c))
}

/// The parts an export takes: the finished parts, then the current part when
/// it has vertices.
pub open spec fn export_parts<N>(parts: Seq<Seq<(N, N)>>, current: Seq<(N, N)>) -> Seq<Seq<(N, N)>> {
    if current.len() > 0 {
        parts.push(current)
    } else {
        parts
    }
}

/// The parts with at least `min` vertices, as GeoJSON positions.
pub open spec fn long_parts<N>(ps: Seq<Seq<(N, N)>>, min: nat) -> Seq<Seq<(N, N)>>
    decreases ps.len(),
{
    if ps.len() == 0 {
        Seq::empty()
    } else {
        let rest = long_parts(ps.drop_last(), min);
        if ps.last().len() >= min {
            rest.push(part_lon_lat(ps.last()))
        } else {
            rest
        }
    }
}

/// The geometry an export of the editor's vertices gives, or the message
/// that refuses it.  Rings are as entered (see `export_geometry`).
pub open spec fn export_result<N>(t: ShapeType, parts: Seq<Seq<(N, N)>>, current: Seq<(N, N)>) -> Result<
    GeomV<N>,
    Seq<char>,
> {
    let all = export_parts(parts, current);
    if concat_parts(all).len() < shape_min_coords(t) {
        Err(too_few_coords_error(t))
    } else {
        match t {
            ShapeType::Point => Ok(GeomV::Point(lon_lat(all[0][0]))),
            ShapeType::MultiPoint => Ok(GeomV::MultiPoint(part_lon_lat(concat_parts(all)))),
            ShapeType::LineString => Ok(GeomV::LineString(part_lon_lat(concat_parts(all)))),
            ShapeType::MultiLineString => if long_parts(all, 2).len() == 0 {
                Err("Need ≥1 finished line with ≥2 points."@)
            } else {
                Ok(GeomV::MultiLineString(long_parts(all, 2)))
            },
            ShapeType::Polygon => if long_parts(all, 3).len() == 0 {
                Err("Need ≥3 coordinates for a polygon ring."@)
            } else {
                Ok(GeomV::Polygon(long_parts(all, 3)))
            },
            ShapeType::MultiPolygon => if long_parts(all, 3).len() == 0 {
                Err("Need ≥1 polygon with ≥3 coordinates."@)
            } else {
                Ok(
                    GeomV::MultiPolygon(
                        long_parts(all, 3).map_values(|r: Seq<(N, N)>| seq![r]),
                    ),
                )
            },
        }
    }
}

/// Every part `long_parts` keeps has at least `min` vertices.
proof fn lemma_long_parts_min<N>(ps: Seq<Seq<(N, N)>>, min: nat)
    ensures
        forall|i: int| 0 <= i < long_parts(ps, min).len() ==> #[trigger] long_parts(ps, min)[i].len() >= min,
    decreases ps.len(),
{
    if ps.len() > 0 {
        let rest = long_parts(ps.drop_last(), min);
        lemma_long_parts_min(ps.drop_last(), min);
        assert(part_lon_lat(ps.last()).len() == ps.last().len());
        assert forall|i: int| 0 <= i < long_parts(ps, min).len() implies #[trigger] long_parts(
            ps,
            min,
        )[i].len() >= min by {
            if i < rest.len() {
                assert(long_parts(ps, min)[i] == rest[i]);
            }
        }
    }
}

/// `r` is the part `p` with each vertex `(lat, lon)` written `(lon, lat)`.
pub open spec fn is_lon_lat_of<N>(r: Seq<(N, N)>, p: Seq<(N, N)>) -> bool {
    &&& r.len() == p.len()
    &&& forall|j: int| 0 <= j < p.len() ==> #[trigger] r[j] == (p[j].1, p[j].0)
}

/// `long_parts` keeps exactly the parts that `pred` picks, in order.
proof fn lemma_long_parts_filter<N>(ps: Seq<Seq<(N, N)>>, min: nat, pred: spec_fn(Seq<(N, N)>) -> bool)
    requires
        forall|p: Seq<(N, N)>| #[trigger] pred(p) == (p.len() >= min),
    ensures
        long_parts(ps, min).len() == ps.filter(pred).len(),
        forall|i: int|
            0 <= i < ps.filter(pred).len() ==> is_lon_lat_of(#[trigger] long_parts(ps, min)[i], ps.filter(pred)[i]),
    decreases ps.len(),
{
    reveal(Seq::filter);
    if ps.len() > 0 {
        let rest = ps.drop_last();
        lemma_long_parts_filter(rest, min, pred);
        let f0 = rest.filter(pred);
        assert(ps.filter(pred) == if pred(ps.last()) { f0.push(ps.last()) } else { f0 });
        let l0 = long_parts(rest, min);
        assert forall|i: int| 0 <= i < ps.filter(pred).len() implies is_lon_lat_of(
            #[trigger] long_parts(ps, min)[i],
            ps.filter(pred)[i],
        ) by {
            if i < f0.len() {
                assert(long_parts(ps, min)[i] == l0[i]);
                assert(ps.filter(pred)[i] == f0[i]);
            } else {
                assert(long_parts(ps, min)[i] == part_lon_lat(ps.last()));
                assert(ps.filter(pred)[i] == ps.last());
            }
        }
    }
}

/// A part with `min` vertices or more makes all the vertices at least `min`.
proof fn lemma_long_part_counts<N>(ps: Seq<Seq<(N, N)>>, min: nat)
    requires
        long_parts(ps, min).len() > 0,
    ensures
        concat_parts(ps).len() >= min,
    decreases ps.len(),
{
    if ps.last().len() < min {
        lemma_long_part_counts(ps.drop_last(), min);
    }
}

/// An export keeps every entered part that is long enough, in entry order:
/// for a MultiLineString each part of two vertices or more becomes one line,
/// for a Polygon each part of three or more one ring, and for a MultiPolygon
/// each part of three or more one single-ring polygon, with the vertices
/// written `(lon, lat)`.  The export is refused exactly when no part is long
/// enough.
pub proof fn lemma_export_keeps_long_parts<N>(t: ShapeType, parts: Seq<Seq<(N, N)>>, current: Seq<(N, N)>)
    ensures
        ({
            let entered = if current.len() > 0 { parts.push(current) } else { parts };
            let lines = entered.filter(|p: Seq<(N, N)>| p.len() >= 2);
            let rings = entered.filter(|p: Seq<(N, N)>| p.len() >= 3);
            &&& t == ShapeType::MultiLineString ==> {
                &&& lines.len() == 0 ==> export_result(t, parts, current) is Err
                &&& lines.len() > 0 ==> (export_result(t, parts, current) matches Ok(
                    GeomV::MultiLineString(ls),
                ) && ls.len() == lines.len() && forall|i: int|
                    0 <= i < ls.len() ==> is_lon_lat_of(#[trigger] ls[i], lines[i]))
            }
            &&& t == ShapeType::Polygon ==> {
                &&& rings.len() == 0 ==> export_result(t, parts, current) is Err
                &&& rings.len() > 0 ==> (export_result(t, parts, current) matches Ok(GeomV::Polygon(rs))
                    && rs.len() == rings.len() && forall|i: int|
                    0 <= i < rs.len() ==> is_lon_lat_of(#[trigger] rs[i], rings[i]))
            }
            &&& t == ShapeType::MultiPolygon ==> {
                &&& rings.len() == 0 ==> export_result(t, parts, current) is Err
                &&& rings.len() > 0 ==> (export_result(t, parts, current) matches Ok(
                    GeomV::MultiPolygon(ps),
                ) && ps.len() == rings.len() && forall|i: int|
                    0 <= i < ps.len() ==> #[trigger] ps[i].len() == 1 && is_lon_lat_of(ps[i][0], rings[i]))
            }
        }),
{
    let entered = if current.len() > 0 { parts.push(current) } else { parts };
    assert(entered == export_parts(parts, current));
    let p2 = |p: Seq<(N, N)>| p.len() >= 2;
    let p3 = |p: Seq<(N, N)>| p.len() >= 3;
    lemma_long_parts_filter(entered, 2, p2);
    lemma_long_parts_filter(entered, 3, p3);
    if long_parts(entered, 2).len() > 0 {
        lemma_long_part_counts(entered, 2);
    }
    if long_parts(entered, 3).len() > 0 {
        lemma_long_part_counts(entered, 3);
    }
    if t == ShapeType::MultiPolygon && long_parts(entered, 3).len() > 0 {
        let ps = long_parts(entered, 3).map_values(|r: Seq<(N, N)>| seq![r]);
        assert forall|i: int| 0 <= i < ps.len() implies #[trigger] ps[i].len() == 1 && is_lon_lat_of(
            ps[i][0],
            entered.filter(p3)[i],
        ) by {
            assert(ps[i] == seq![long_parts(entered, 3)[i]]);
        }
    }
}

/// Every shape the editor exports is one the GeoJSON reader accepts as it
/// is: lines of two points or more, polygon rings of three or more, and no
/// collection.
pub proof fn lemma_exports_are_well_formed<N>(t: ShapeType, parts: Seq<Seq<(N, N)>>, current: Seq<(N, N)>)
    ensures
        export_result(t, parts, current) matches Ok(g) ==> geom_wf(g) && !(g is Collection),
{
    let all = export_parts(parts, current);
    lemma_long_parts_min(all, 2);
    lemma_long_parts_min(all, 3);
    if let Ok(g) = export_result(t, parts, current) {
        match t {
            ShapeType::MultiPolygon => {
                let ps = long_parts(all, 3).map_values(|r: Seq<(N, N)>| seq![r]);
                assert forall|i: int| 0 <= i < ps.len() implies #[trigger] ps[i].len() > 0 && forall|j: int|
                    0 <= j < ps[i].len() ==> #[trigger] ps[i][j].len() >= 3 by {
                    assert(ps[i] == seq![long_parts(all, 3)[i]]);
                }
            },
            _ => {},
        }
    }
}

/// What the editor exports can be imported again: the document written for
/// an exported shape reads back as exactly that shape, under the name it
/// was given.
pub proof fn lemma_editor_export_reads_back<N>(
    t: ShapeType,
    parts: Seq<Seq<(N, N)>>,
    current: Seq<(N, N)>,
    name: Seq<char>,
    parent: Seq<(Seq<char>, JsonV<N>)>,
)
    requires
        export_result(t, parts, current) is Ok,
    ensures
        features_of(export_jv(geometry_jv(export_result(t, parts, current)->Ok_0), name), parent) == (
            seq![
                FeatV {
                    geometry: export_result(t, parts, current)->Ok_0,
                    name: name,
                    properties: export_props::<N>(name),
                },
            ],
            None::<GeoError>,
        ),
{
    lemma_exports_are_well_formed(t, parts, current);
    lemma_export_reads_back(export_result(t, parts, current)->Ok_0, name, parent);
}

/// All mutable state for the interactive shape editor.  Vertices are
/// `(lat, lon)` pairs of type `N`.
pub struct ShapeEditorState<N> {
    pub step: ShapeEditorStep,
    pub type_idx: usize,
    pub lat_buf: String,
    pub lon_buf: String,
    /// 0 = lat field focused, 1 = lon field focused.
    pub coord_field: usize,
    /// Finalized parts (for multi-geometries each F press appends one here).
    pub parts: Vec<Vec<(N, N)>>,
    /// Current part still being edited.
    pub current: Vec<(N, N)>,
    /// Scroll offset for the vertex list display.
    pub vert_scroll: usize,
    pub name_buf: String,
    pub export_buf: String,
    /// Feedback from the last export attempt.
    pub message: Option<String>,
}

/// Mathematical model of a [`ShapeEditorState`].
pub struct ShapeEditorV<N> {
    pub step: ShapeEditorStep,
    pub type_idx: nat,
    pub lat: Seq<char>,
    pub lon: Seq<char>,
    pub coord_field: nat,
    pub parts: Seq<Seq<(N, N)>>,
    pub current: Seq<(N, N)>,
    pub vert_scroll: nat,
    pub name: Seq<char>,
    pub export: Seq<char>,
    pub message: Option<Seq<char>>,
}

pub open spec fn opt_text(m: Option<String>) -> Option<Seq<char>> {
    match m {
        Some(s) => Some(s@),
        None => None,
    }
}

impl<N> View for ShapeEditorState<N> {
    type V = ShapeEditorV<N>;

    open spec fn view(&self) -> ShapeEditorV<N> {
        ShapeEditorV {
            step: self.step,
            type_idx: self.type_idx as nat,
            lat: self.lat_buf@,
            lon: self.lon_buf@,
            coord_field: self.coord_field as nat,
            parts: self.parts@.map_values(|p: Vec<(N, N)>| p@),
            current: self.current@,
            vert_scroll: self.vert_scroll as nat,
            name: self.name_buf@,
            export: self.export_buf@,
            message: opt_text(self.message),
        }
    }
}

/// All vertices in display order: finished parts, then the current part.
pub open spec fn editor_coords<N>(v: ShapeEditorV<N>) -> Seq<(N, N)> {
    concat_parts(v.parts) + v.current
}

/// A fresh editor.
pub open spec fn fresh_editor<N>() -> ShapeEditorV<N> {
    ShapeEditorV {
        step: ShapeEditorStep::SelectType,
        type_idx: 0,
        lat: Seq::empty(),
        lon: Seq::empty(),
        coord_field: 0,
        parts: Seq::empty(),
        current: Seq::empty(),
        vert_scroll: 0,
        name: Seq::empty(),
        export: Seq::empty(),
        message: None,
    }
}

/// A validated vertex added to the current part: input fields cleared, the
/// lat field focused, the message dropped, the vertex list scrolled to the new
/// vertex.
pub open spec fn after_push<N>(v: ShapeEditorV<N>, c: (N, N)) -> ShapeEditorV<N> {
    ShapeEditorV {
        lat: Seq::empty(),
        lon: Seq::empty(),
        coord_field: 0,
        current: v.current.push(c),
        vert_scroll: editor_coords(v).len(),
        message: None,
        ..v
    }
}

/// The current part finished: it joins the finished parts.
pub open spec fn after_finish<N>(v: ShapeEditorV<N>) -> ShapeEditorV<N> {
    ShapeEditorV { parts: v.parts.push(v.current), current: Seq::empty(), message: None, ..v }
}

/// One vertex undone; the vertex list scrolled to the last vertex.
pub open spec fn after_undo<N>(v: ShapeEditorV<N>) -> ShapeEditorV<N> {
    let (p, c) = undo_parts(v.parts, v.current);
    ShapeEditorV {
        parts: p,
        current: c,
        vert_scroll: minus_one((concat_parts(p) + c).len()),
        message: None,
        ..v
    }
}

impl<N: Copy> ShapeEditorState<N> {
    /// The finished parts as sequences.
    pub open spec fn parts_view(&self) -> Seq<Seq<(N, N)>> {
        self@.parts
    }

    /// All vertices in display order: finished parts, then the current part.
    pub open spec fn coords(&self) -> Seq<(N, N)> {
        editor_coords(self@)
    }

    pub fn new() -> (s: Self)
        ensures
            s@ == fresh_editor::<N>(),
    {
        let s = ShapeEditorState {
            step: ShapeEditorStep::SelectType,
            type_idx: 0,
            lat_buf: String::new(),
            lon_buf: String::new(),
            coord_field: 0,
            parts: Vec::new(),
            current: Vec::new(),
            vert_scroll: 0,
            name_buf: String::new(),
            export_buf: String::new(),
            message: None,
        };
        assert(s@.parts =~= Seq::<Seq<(N, N)>>::empty());
        assert(s@ =~= fresh_editor::<N>());
        s
    }

    /// The geometry type selected.
    pub fn current_type(&self) -> (t: ShapeType)
        requires
            self.type_idx < SHAPE_TYPE_COUNT,
        ensures
            t == shape_type_at(self.type_idx as int),
    {
        ShapeType::at(self.type_idx)
    }

    /// Reset to a fresh state for re-use.
    pub fn reset(&mut self)
        ensures
            final(self)@ == fresh_editor::<N>(),
    {
        *self = Self::new();
    }

    /// Total accumulated coordinate count across all parts + current.
    pub fn total_coords(&self) -> (n: usize)
        requires
            self.coords().len() <= usize::MAX,
        ensures
            n == self.coords().len(),
    {
        let ghost pv = self.parts_view();
        let mut n: usize = 0;
        let mut i: usize = 0;
        proof {
            lemma_concat_prefix_len(pv, 0);
        }
        while i < self.parts.len()
            invariant
                i <= self.parts@.len(),
                pv == self.parts_view(),
                pv.len() == self.parts@.len(),
                concat_parts(pv).len() + self.current@.len() <= usize::MAX,
                n == concat_parts(pv.subrange(0, i as int)).len(),
            decreases self.parts@.len() - i,
        {
            proof {
                lemma_concat_prefix_len(pv, i as int + 1);
                assert(pv.subrange(0, i as int + 1).drop_last() =~= pv.subrange(0, i as int));
                assert(pv[i as int] == self.parts@[i as int]@);
            }
            n = n + self.parts[i].len();
            i = i + 1;
        }
        assert(pv.subrange(0, pv.len() as int) =~= pv);
        n + self.current.len()
    }

    /// Add a vertex that has passed validation to the current part; clear the
    /// input fields and scroll the vertex list to the bottom.
    pub fn push_vertex(&mut self, c: (N, N))
        requires
            old(self).coords().len() < usize::MAX,
        ensures
            final(self)@ == after_push(old(self)@, c),
            final(self).coords() == old(self).coords().push(c),
    {
        self.current.push(c);
        self.lat_buf = String::new();
        self.lon_buf = String::new();
        self.coord_field = 0;
        self.message = None;
        assert(self.coords() =~= old(self).coords().push(c));
        let total = self.total_coords();
        self.vert_scroll = total - 1;
        assert(self@ =~= after_push(old(self)@, c));
    }

    /// Finish the current part and start a new one (multi-geometry types
    /// only).  Refused, with nothing changed, while the current part has fewer
    /// vertices than the type needs.
    pub fn finish_part(&mut self) -> (r: Result<(), String>)
        requires
            old(self).type_idx < SHAPE_TYPE_COUNT,
        ensures
            ({
                let t = shape_type_at(old(self).type_idx as int);
                if old(self).current@.len() < shape_min_coords(t) {
                    &&& r is Err
                    &&& r->Err_0@ == finish_part_error(t)
                    &&& *final(self) == *old(self)
                } else {
                    &&& r is Ok
                    &&& final(self)@ == after_finish(old(self)@)
                }
            }),
    {
        let t = self.current_type();
        let min = t.min_coords_per_part();
        if self.current.len() < min {
            return Err(need_coords(t, " to finish a "));
        }
        let mut part: Vec<(N, N)> = Vec::new();
        std::mem::swap(&mut part, &mut self.current);
        self.parts.push(part);
        self.message = None;
        assert(self.parts_view() =~= old(self).parts_view().push(old(self).current@));
        assert(self@ =~= after_finish(old(self)@));
        Ok(())
    }

    /// Remove the last coordinate (from `current`, or from the last part).
    pub fn undo_vertex(&mut self)
        requires
            old(self).coords().len() <= usize::MAX,
        ensures
            final(self)@ == after_undo(old(self)@),
    {
        let ghost pv = self.parts_view();
        if self.current.len() > 0 {
            self.current.pop();
        } else if self.parts.len() > 0 {
            let mut last = self.parts.pop().unwrap();
            last.pop();
            if last.len() > 0 {
                self.parts.push(last);
                assert(self.parts_view() =~= pv.drop_last().push(pv.last().drop_last()));
            } else {
                assert(self.parts_view() =~= pv.drop_last());
            }
        }
        proof {
            lemma_undo_len(pv, old(self).current@);
        }
        let total = self.total_coords();
        self.vert_scroll = if total > 0 { total - 1 } else { 0 };
        self.message = None;
        assert(self@ =~= after_undo(old(self)@));
    }

    /// After a vertex was added: a Point needs only the one, so the editor
    /// moves on to the name.
    pub fn after_vertex_commit(&mut self)
        requires
            old(self).type_idx < SHAPE_TYPE_COUNT,
            old(self).coords().len() <= usize::MAX,
        ensures
            final(self)@ == if shape_type_at(old(self).type_idx as int) == ShapeType::Point
                && old(self).coords().len() >= 1 {
                ShapeEditorV { step: ShapeEditorStep::EnterName, ..old(self)@ }
            } else {
                old(self)@
            },
    {
        if self.current_type() == ShapeType::Point && self.total_coords() >= 1 {
            self.step = ShapeEditorStep::EnterName;
        }
    }

    /// All coords in display order: finalized parts + current.
    pub fn all_coords(&self) -> (v: Vec<(N, N)>)
        ensures
            v@ == self.coords(),
    {
        let ghost pv = self.parts_view();
        let mut v: Vec<(N, N)> = Vec::new();
        let mut i: usize = 0;
        while i < self.parts.len()
            invariant
                i <= self.parts@.len(),
                pv == self.parts_view(),
                pv.len() == self.parts@.len(),
                v@ == concat_parts(pv.subrange(0, i as int)),
            decreases self.parts@.len() - i,
        {
            assert(pv.subrange(0, i as int + 1).drop_last() =~= pv.subrange(0, i as int));
            assert(pv[i as int] == self.parts@[i as int]@);
            append_copy(&mut v, &self.parts[i]);
            i = i + 1;
        }
        assert(pv.subrange(0, pv.len() as int) =~= pv);
        append_copy(&mut v, &self.current);
        v
    }

    /// The geometry of the vertices entered, as GeoJSON positions, or the
    /// message that refuses the export: too few vertices in all for the
    /// type, or no part long enough for a line, ring or polygon.
    ///
    /// Rings are given as entered; the exporter closes each (repeating its
    /// first position when the last differs), a comparison of coordinates it
    /// makes itself.
    pub fn export_geometry(&self) -> (r: Result<GeoGeometry<N>, String>)
        requires
            self.type_idx < SHAPE_TYPE_COUNT,
            parts_nonempty(self.parts_view()),
        ensures
            match export_result(shape_type_at(self.type_idx as int), self.parts_view(), self.current@) {
                Ok(g) => r is Ok && geom_view(r->Ok_0) == g,
                Err(m) => r is Err && r->Err_0@ == m,
            },
    {
        let t = self.current_type();
        let ghost all = export_parts(self.parts_view(), self.current@);
        let mut all_parts: Vec<Vec<(N, N)>> = Vec::new();
        let mut i: usize = 0;
        while i < self.parts.len()
            invariant
                i <= self.parts@.len(),
                all_parts@.map_values(|p: Vec<(N, N)>| p@) == self.parts_view().subrange(0, i as int),
            decreases self.parts@.len() - i,
        {
            let p = copy_part(&self.parts[i]);
            let ghost before = all_parts@;
            all_parts.push(p);
            assert(self.parts_view()[i as int] == self.parts@[i as int]@);
            assert(all_parts@.map_values(|p: Vec<(N, N)>| p@) =~= before.map_values(|p: Vec<(N, N)>| p@).push(
                self.parts@[i as int]@,
            ));
            assert(all_parts@.map_values(|p: Vec<(N, N)>| p@) =~= self.parts_view().subrange(
                0,
                i as int + 1,
            ));
            i = i + 1;
        }
        assert(self.parts_view().subrange(0, self.parts@.len() as int) =~= self.parts_view());
        if self.current.len() > 0 {
            let p = copy_part(&self.current);
            all_parts.push(p);
        }
        assert(all_parts@.map_values(|p: Vec<(N, N)>| p@) =~= all);
        build_export(t, &all_parts)
    }
}



/// Undo removes exactly the last vertex in display order (nothing when there
/// is none), and keeps every finished part non-empty.
pub proof fn lemma_undo_removes_last_vertex<N>(parts: Seq<Seq<(N, N)>>, current: Seq<(N, N)>)
    requires
        parts_nonempty(parts),
    ensures
        concat_parts(undo_parts(parts, current).0) + undo_parts(parts, current).1 == if (
        concat_parts(parts) + current).len() > 0 {
            (concat_parts(parts) + current).drop_last()
        } else {
            concat_parts(parts) + current
        },
        parts_nonempty(undo_parts(parts, current).0),
{
    let all = concat_parts(parts) + current;
    if current.len() > 0 {
        assert(concat_parts(parts) + current.drop_last() =~= all.drop_last());
    } else if parts.len() > 0 {
        let dl = parts.drop_last();
        let last = parts.last();
        assert(last.len() > 0);
        assert(all =~= concat_parts(dl) + last);
        if last.len() <= 1 {
            assert(concat_parts(dl) + current =~= all.drop_last());
        } else {
            let p2 = dl.push(last.drop_last());
            assert(p2.drop_last() =~= dl);
            assert(concat_parts(p2) + current =~= all.drop_last());
            assert forall|i: int| 0 <= i < p2.len() implies #[trigger] p2[i].len() > 0 by {
                if i < dl.len() {
                    assert(p2[i] == parts[i]);
                }
            }
        }
        assert forall|i: int| 0 <= i < dl.len() implies #[trigger] dl[i].len() > 0 by {
            assert(dl[i] == parts[i]);
        }
    } else {
        assert(all =~= Seq::<(N, N)>::empty() + current);
    }
}

/// Undoing right after adding a vertex gives back the parts as they were.
pub proof fn lemma_undo_after_push<N>(parts: Seq<Seq<(N, N)>>, current: Seq<(N, N)>, c: (N, N))
    ensures
        undo_parts(parts, current.push(c)) == (parts, current),
{
    assert(current.push(c).drop_last() =~= current);
}

/// Undoing right after a vertex was committed gives the editor back its
/// finished parts, its current part and its vertex count as they were before
/// the commit.
pub proof fn lemma_undo_after_commit<N>(v: ShapeEditorV<N>, c: (N, N))
    ensures
        after_undo(after_push(v, c)).parts == v.parts,
        after_undo(after_push(v, c)).current == v.current,
        editor_coords(after_undo(after_push(v, c))).len() == editor_coords(v).len(),
{
    lemma_undo_after_push(v.parts, v.current, c);
}

/// Finishing a part keeps the vertices in display order, and a finished part
/// is never empty.
pub proof fn lemma_finish_part_keeps_vertices<N>(parts: Seq<Seq<(N, N)>>, current: Seq<(N, N)>)
    requires
        parts_nonempty(parts),
        current.len() > 0,
    ensures
        concat_parts(parts.push(current)) + Seq::<(N, N)>::empty() == concat_parts(parts) + current,
        parts_nonempty(parts.push(current)),
{
    let p2 = parts.push(current);
    assert(p2.drop_last() =~= parts);
    assert(concat_parts(p2) + Seq::<(N, N)>::empty() =~= concat_parts(parts) + current);
    assert forall|i: int| 0 <= i < p2.len() implies #[trigger] p2[i].len() > 0 by {
        if i < parts.len() {
            assert(p2[i] == parts[i]);
        }
    }
}

/// The export geometry of the parts `all` for type `t`.
fn build_export<N: Copy>(t: ShapeType, all: &Vec<Vec<(N, N)>>) -> (r: Result<GeoGeometry<N>, String>)
    requires
        parts_nonempty(all@.map_values(|p: Vec<(N, N)>| p@)),
    ensures
        ({
            let av = all@.map_values(|p: Vec<(N, N)>| p@);
            let total = concat_parts(av).len();
            if total < shape_min_coords(t) {
                r is Err && r->Err_0@ == too_few_coords_error(t)
            } else {
                match t {
                    ShapeType::Point => r is Ok && geom_view(r->Ok_0) == GeomV::Point(lon_lat(av[0][0])),
                    ShapeType::MultiPoint => r is Ok && geom_view(r->Ok_0) == GeomV::MultiPoint(
                        part_lon_lat(concat_parts(av)),
                    ),
                    ShapeType::LineString => r is Ok && geom_view(r->Ok_0) == GeomV::LineString(
                        part_lon_lat(concat_parts(av)),
                    ),
                    ShapeType::MultiLineString => if long_parts(av, 2).len() == 0 {
                        r is Err && r->Err_0@ == "Need ≥1 finished line with ≥2 points."@
                    } else {
                        r is Ok && geom_view(r->Ok_0) == GeomV::MultiLineString(long_parts(av, 2))
                    },
                    ShapeType::Polygon => if long_parts(av, 3).len() == 0 {
                        r is Err && r->Err_0@ == "Need ≥3 coordinates for a polygon ring."@
                    } else {
                        r is Ok && geom_view(r->Ok_0) == GeomV::Polygon(long_parts(av, 3))
                    },
                    ShapeType::MultiPolygon => if long_parts(av, 3).len() == 0 {
                        r is Err && r->Err_0@ == "Need ≥1 polygon with ≥3 coordinates."@
                    } else {
                        r is Ok && geom_view(r->Ok_0) == GeomV::MultiPolygon(
                            long_parts(av, 3).map_values(|r: Seq<(N, N)>| seq![r]),
                        )
                    },
                }
            }
        }),
{
    let ghost av = all@.map_values(|p: Vec<(N, N)>| p@);
    let flat = flat_lon_lat(all);
    let total = flat.len();
    let min = t.min_coords_per_part();
    if total < min {
        return Err(need_coords(t, " for "));
    }
    match t {
        ShapeType::Point => {
            proof {
                if av.len() == 0 {
                    assert(concat_parts(av).len() == 0);
                }
                assert(av[0].len() > 0);
                assert(all@[0]@ == av[0]);
            }
            let c = all[0][0];
            Ok(GeoGeometry::Point((c.1, c.0)))
        },
        ShapeType::MultiPoint => Ok(GeoGeometry::MultiPoint(flat)),
        ShapeType::LineString => Ok(GeoGeometry::LineString(flat)),
        ShapeType::MultiLineString => {
            let lines = long_parts_exec(all, 2);
            if lines.len() == 0 {
                Err(string_from("Need ≥1 finished line with ≥2 points."))
            } else {
                Ok(GeoGeometry::MultiLineString(lines))
            }
        },
        ShapeType::Polygon => {
            let rings = long_parts_exec(all, 3);
            if rings.len() == 0 {
                Err(string_from("Need ≥3 coordinates for a polygon ring."))
            } else {
                Ok(GeoGeometry::Polygon(rings))
            }
        },
        ShapeType::MultiPolygon => {
            let polys = long_polys_exec(all);
            assert(poly_views(polys@).len() == polys@.len());
            assert(long_parts(av, 3).map_values(|r: Seq<(N, N)>| seq![r]).len() == long_parts(av, 3).len());
            if polys.len() == 0 {
                Err(string_from("Need ≥1 polygon with ≥3 coordinates."))
            } else {
                Ok(GeoGeometry::MultiPolygon(polys))
            }
        },
    }
}

/// All vertices of the parts, in order, as GeoJSON positions.
fn flat_lon_lat<N: Copy>(all: &Vec<Vec<(N, N)>>) -> (v: Vec<(N, N)>)
    ensures
        v@ == part_lon_lat(concat_parts(all@.map_values(|p: Vec<(N, N)>| p@))),
{
    let ghost av = all@.map_values(|p: Vec<(N, N)>| p@);
    let mut v: Vec<(N, N)> = Vec::new();
    let mut i: usize = 0;
    assert(av.subrange(0, 0) =~= Seq::<Seq<(N, N)>>::empty());
    while i < all.len()
        invariant
            i <= all@.len(),
            av == all@.map_values(|p: Vec<(N, N)>| p@),
            v@ == part_lon_lat(concat_parts(av.subrange(0, i as int))),
        decreases all@.len() - i,
    {
        let p = &all[i];
        let ghost before = v@;
        let mut j: usize = 0;
        while j < p.len()
            invariant
                j <= p@.len(),
                v@ == before + part_lon_lat(p@.subrange(0, j as int)),
            decreases p@.len() - j,
        {
            let c = p[j];
            v.push((c.1, c.0));
            assert(v@ =~= before + part_lon_lat(p@.subrange(0, j as int + 1)));
            j = j + 1;
        }
        assert(p@.subrange(0, p@.len() as int) =~= p@);
        assert(av.subrange(0, i as int + 1).drop_last() =~= av.subrange(0, i as int));
        assert(av[i as int] == p@);
        assert(part_lon_lat(concat_parts(av.subrange(0, i as int + 1))) =~= part_lon_lat(
            concat_parts(av.subrange(0, i as int)),
        ) + part_lon_lat(p@));
        i = i + 1;
    }
    assert(av.subrange(0, av.len() as int) =~= av);
    v
}

/// A part as GeoJSON positions.
fn lon_lat_copy<N: Copy>(p: &Vec<(N, N)>) -> (q: Vec<(N, N)>)
    ensures
        q@ == part_lon_lat(p@),
{
    let mut q: Vec<(N, N)> = Vec::new();
    let mut j: usize = 0;
    while j < p.len()
        invariant
            j <= p@.len(),
            q@ == part_lon_lat(p@.subrange(0, j as int)),
        decreases p@.len() - j,
    {
        let c = p[j];
        q.push((c.1, c.0));
        assert(q@ =~= part_lon_lat(p@.subrange(0, j as int + 1)));
        j = j + 1;
    }
    assert(p@.subrange(0, p@.len() as int) =~= p@);
    q
}

/// A copy of a part.
fn copy_part<N: Copy>(p: &Vec<(N, N)>) -> (q: Vec<(N, N)>)
    ensures
        q@ == p@,
{
    let mut q: Vec<(N, N)> = Vec::new();
    append_copy(&mut q, p);
    assert(q@ =~= p@);
    q
}

/// The parts with at least `min` vertices, as GeoJSON positions.
fn long_parts_exec<N: Copy>(all: &Vec<Vec<(N, N)>>, min: usize) -> (ls: Vec<Vec<(N, N)>>)
    ensures
        line_views(ls@) == long_parts(all@.map_values(|p: Vec<(N, N)>| p@), min as nat),
{
    let ghost av = all@.map_values(|p: Vec<(N, N)>| p@);
    let mut ls: Vec<Vec<(N, N)>> = Vec::new();
    let mut i: usize = 0;
    assert(av.subrange(0, 0) =~= Seq::<Seq<(N, N)>>::empty());
    while i < all.len()
        invariant
            i <= all@.len(),
            av == all@.map_values(|p: Vec<(N, N)>| p@),
            line_views(ls@) == long_parts(av.subrange(0, i as int), min as nat),
        decreases all@.len() - i,
    {
        let p = &all[i];
        assert(av.subrange(0, i as int + 1).drop_last() =~= av.subrange(0, i as int));
        assert(av[i as int] == p@);
        if p.len() >= min {
            let q = lon_lat_copy(p);
            let ghost before = ls@;
            ls.push(q);
            assert(line_views(ls@) =~= line_views(before).push(part_lon_lat(p@)));
        }
        i = i + 1;
    }
    assert(av.subrange(0, av.len() as int) =~= av);
    ls
}

/// The parts with at least three vertices, each as a one-ring polygon of
/// GeoJSON positions.
fn long_polys_exec<N: Copy>(all: &Vec<Vec<(N, N)>>) -> (ps: Vec<Vec<Vec<(N, N)>>>)
    ensures
        poly_views(ps@) == long_parts(all@.map_values(|p: Vec<(N, N)>| p@), 3).map_values(
            |r: Seq<(N, N)>| seq![r],
        ),
{
    let ghost av = all@.map_values(|p: Vec<(N, N)>| p@);
    let ghost w = |r: Seq<(N, N)>| seq![r];
    let mut ps: Vec<Vec<Vec<(N, N)>>> = Vec::new();
    let mut i: usize = 0;
    assert(av.subrange(0, 0) =~= Seq::<Seq<(N, N)>>::empty());
    assert(poly_views(ps@) =~= long_parts(av.subrange(0, 0), 3).map_values(w));
    while i < all.len()
        invariant
            i <= all@.len(),
            av == all@.map_values(|p: Vec<(N, N)>| p@),
            w == (|r: Seq<(N, N)>| seq![r]),
            poly_views(ps@) == long_parts(av.subrange(0, i as int), 3).map_values(w),
        decreases all@.len() - i,
    {
        let p = &all[i];
        assert(av.subrange(0, i as int + 1).drop_last() =~= av.subrange(0, i as int));
        assert(av[i as int] == p@);
        if p.len() >= 3 {
            let q = lon_lat_copy(p);
            let mut one: Vec<Vec<(N, N)>> = Vec::new();
            one.push(q);
            assert(line_views(one@) =~= seq![part_lon_lat(p@)]);
            let ghost before = ps@;
            ps.push(one);
            assert(poly_views(ps@) =~= poly_views(before).push(seq![part_lon_lat(p@)]));
            assert(long_parts(av.subrange(0, i as int + 1), 3) == long_parts(av.subrange(0, i as int), 3).push(
                part_lon_lat(p@),
            ));
            assert(long_parts(av.subrange(0, i as int + 1), 3).map_values(w) =~= long_parts(
                av.subrange(0, i as int),
                3,
            ).map_values(w).push(seq![part_lon_lat(p@)]));
        }
        i = i + 1;
    }
    assert(av.subrange(0, av.len() as int) =~= av);
    ps
}

/// Append a copy of `src` to `dst`.
fn append_copy<N: Copy>(dst: &mut Vec<(N, N)>, src: &Vec<(N, N)>)
    ensures
        final(dst)@ == old(dst)@ + src@,
{
    let ghost d0 = dst@;
    let mut i: usize = 0;
    while i < src.len()
        invariant
            i <= src@.len(),
            d0 == old(dst)@,
            dst@ == d0 + src@.subrange(0, i as int),
        decreases src@.len() - i,
    {
        dst.push(src[i]);
        assert(dst@ =~= d0 + src@.subrange(0, i as int + 1));
        i = i + 1;
    }
    assert(src@.subrange(0, src@.len() as int) =~= src@);
}

/// The message refusing an export with too few vertices for type `t`.
pub(crate) fn too_few_coords(t: ShapeType) -> (s: String)
    ensures
        s@ == too_few_coords_error(t),
{
    need_coords(t, " for ")
}

/// `Need ≥{min} coordinate{s}{what}{name}.`
fn need_coords(t: ShapeType, what: &str) -> (s: String)
    ensures
        s@ == need_coords_text(t, what@),
{
    let min = t.min_coords_per_part();
    let mut s = string_from("Need ≥");
    push_decimal(&mut s, min as u32);
    push_str(&mut s, " coordinate");
    if min != 1 {
        push_str(&mut s, "s");
    } else {
        proof {
            reveal_strlit("");
        }
        assert(s@ =~= s@ + ""@);
    }
    push_str(&mut s, what);
    push_str(&mut s, t.name());
    push_str(&mut s, ".");
    s
}

/// The first `i` parts hold no more vertices than all of them.
pub proof fn lemma_concat_prefix_len<N>(ps: Seq<Seq<(N, N)>>, i: int)
    requires
        0 <= i <= ps.len(),
    ensures
        concat_parts(ps.subrange(0, i)).len() <= concat_parts(ps).len(),
    decreases ps.len(),
{
    if i < ps.len() {
        assert(ps.drop_last().subrange(0, i) =~= ps.subrange(0, i));
        lemma_concat_prefix_len(ps.drop_last(), i);
    } else {
        assert(ps.subrange(0, i) =~= ps);
    }
}

proof fn lemma_undo_len<N>(parts: Seq<Seq<(N, N)>>, current: Seq<(N, N)>)
    ensures
        concat_parts(undo_parts(parts, current).0).len() + undo_parts(parts, current).1.len()
            <= concat_parts(parts).len() + current.len(),
{
    if current.len() == 0 && parts.len() > 0 {
        let last = parts.last();
        if last.len() > 1 {
            let p2 = parts.drop_last().push(last.drop_last());
            assert(p2.drop_last() =~= parts.drop_last());
        }
    }
}

// ── Calculator ────────────────────────────────────────────────────────────────

/// The nine built-in calculators, in menu order.
#[derive(Debug, Clone, Copy, PartialEq, Eq, Structural)]
pub enum CalcMode {
    LatLonToTile,
    TileToLatLon,
    Wgs84ToMercator,
    MercatorToWgs84,
    DdToDms,
    DmsToDD,
    Distance,
    Bearing,
    DestinationPoint,
}

/// Number of calculators.
pub const CALC_MODE_COUNT: usize = 9;

/// Calculators in menu order.
pub open spec fn calc_mode_at(i: int) -> CalcMode {
    if i == 0 {
        CalcMode::LatLonToTile
    } else if i == 1 {
        CalcMode::TileToLatLon
    } else if i == 2 {
        CalcMode::Wgs84ToMercator
    } else if i == 3 {
        CalcMode::MercatorToWgs84
    } else if i == 4 {
        CalcMode::DdToDms
    } else if i == 5 {
        CalcMode::DmsToDD
    } else if i == 6 {
        CalcMode::Distance
    } else if i == 7 {
        CalcMode::Bearing
    } else {
        CalcMode::DestinationPoint
    }
}

/// Menu position of each calculator.
pub open spec fn calc_mode_index(m: CalcMode) -> int {
    match m {
        CalcMode::LatLonToTile => 0,
        CalcMode::TileToLatLon => 1,
        CalcMode::Wgs84ToMercator => 2,
        CalcMode::MercatorToWgs84 => 3,
        CalcMode::DdToDms => 4,
        CalcMode::DmsToDD => 5,
        CalcMode::Distance => 6,
        CalcMode::Bearing => 7,
        CalcMode::DestinationPoint => 8,
    }
}

/// Title of each calculator.
pub open spec fn calc_mode_name(m: CalcMode) -> Seq<char> {
    match m {
        CalcMode::LatLonToTile => "Lat/Lon → Slippy Tile"@,
        CalcMode::TileToLatLon => "Slippy Tile → Lat/Lon"@,
        CalcMode::Wgs84ToMercator => "WGS-84 → Web Mercator"@,
        CalcMode::MercatorToWgs84 => "Web Mercator → WGS-84"@,
        CalcMode::DdToDms => "DD → DMS / DDM"@,
        CalcMode::DmsToDD => "DMS → Decimal Degrees"@,
        CalcMode::Distance => "Haversine Distance"@,
        CalcMode::Bearing => "Bearing"@,
        CalcMode::DestinationPoint => "Destination Point"@,
    }
}

/// Input field labels of each calculator.
pub open spec fn calc_mode_fields(m: CalcMode) -> Seq<Seq<char>> {
    match m {
        CalcMode::LatLonToTile => seq!["Latitude"@, "Longitude"@, "Zoom (0-20)"@],
        CalcMode::TileToLatLon => seq!["Tile X"@, "Tile Y"@, "Zoom (0-20)"@],
        CalcMode::Wgs84ToMercator => seq!["Latitude"@, "Longitude"@],
        CalcMode::MercatorToWgs84 => seq!["X (metres)"@, "Y (metres)"@],
        CalcMode::DdToDms => seq!["Latitude (DD)"@, "Longitude (DD)"@],
        CalcMode::DmsToDD => seq!["Lat deg"@, "Lat min"@, "Lat sec"@, "N or S"@, "Lon deg"@, "Lon min"@, "Lon sec"@, "E or W"@],
        CalcMode::Distance => seq!["Lat 1"@, "Lon 1"@, "Lat 2"@, "Lon 2"@],
        CalcMode::Bearing => seq!["Lat 1"@, "Lon 1"@, "Lat 2"@, "Lon 2"@],
        CalcMode::DestinationPoint => seq!["Latitude"@, "Longitude"@, "Bearing (°)"@, "Distance (m)"@],
    }
}

impl CalcMode {
    /// All calculators, in menu order.
    pub fn all() -> (v: Vec<CalcMode>)
        ensures
            v@.len() == CALC_MODE_COUNT,
            forall|i: int| 0 <= i < CALC_MODE_COUNT ==> v@[i] == calc_mode_at(i),
    {
        let mut v = Vec::new();
        v.push(CalcMode::LatLonToTile);
        v.push(CalcMode::TileToLatLon);
        v.push(CalcMode::Wgs84ToMercator);
        v.push(CalcMode::MercatorToWgs84);
        v.push(CalcMode::DdToDms);
        v.push(CalcMode::DmsToDD);
        v.push(CalcMode::Distance);
        v.push(CalcMode::Bearing);
        v.push(CalcMode::DestinationPoint);
        v
    }

    /// The calculator at position `i` of the menu.
    pub fn at(i: usize) -> (m: CalcMode)
        requires
            i < CALC_MODE_COUNT,
        ensures
            m == calc_mode_at(i as int),
            calc_mode_index(m) == i,
    {
        match i {
            0 => CalcMode::LatLonToTile,
            1 => CalcMode::TileToLatLon,
            2 => CalcMode::Wgs84ToMercator,
            3 => CalcMode::MercatorToWgs84,
            4 => CalcMode::DdToDms,
            5 => CalcMode::DmsToDD,
            6 => CalcMode::Distance,
            7 => CalcMode::Bearing,
            _ => CalcMode::DestinationPoint,
        }
    }

    pub fn name(self) -> (s: &'static str)
        ensures
            s@ == calc_mode_name(self),
    {
        match self {
            CalcMode::LatLonToTile => "Lat/Lon → Slippy Tile",
            CalcMode::TileToLatLon => "Slippy Tile → Lat/Lon",
            CalcMode::Wgs84ToMercator => "WGS-84 → Web Mercator",
            CalcMode::MercatorToWgs84 => "Web Mercator → WGS-84",
            CalcMode::DdToDms => "DD → DMS / DDM",
            CalcMode::DmsToDD => "DMS → Decimal Degrees",
            CalcMode::Distance => "Haversine Distance",
            CalcMode::Bearing => "Bearing",
            CalcMode::DestinationPoint => "Destination Point",
        }
    }

    /// Selection key: `1`–`9` in menu order.
    pub fn key(self) -> (c: char)
        ensures
            c == crate::text::digit_char(calc_mode_index(self) + 1),
    {
        match self {
            CalcMode::LatLonToTile => '1',
            CalcMode::TileToLatLon => '2',
            CalcMode::Wgs84ToMercator => '3',
            CalcMode::MercatorToWgs84 => '4',
            CalcMode::DdToDms => '5',
            CalcMode::DmsToDD => '6',
            CalcMode::Distance => '7',
            CalcMode::Bearing => '8',
            CalcMode::DestinationPoint => '9',
        }
    }

    /// Labels of the input fields, in entry order.
    pub fn field_labels(self) -> (v: Vec<&'static str>)
        ensures
            v@.len() == calc_mode_fields(self).len(),
            forall|i: int| 0 <= i < v@.len() ==> #[trigger] v@[i]@ == calc_mode_fields(self)[i],
    {
        let mut v: Vec<&'static str> = Vec::new();
        match self {
            CalcMode::LatLonToTile => {
                v.push("Latitude");
                v.push("Longitude");
                v.push("Zoom (0-20)");
            },
            CalcMode::TileToLatLon => {
                v.push("Tile X");
                v.push("Tile Y");
                v.push("Zoom (0-20)");
            },
            CalcMode::Wgs84ToMercator => {
                v.push("Latitude");
                v.push("Longitude");
            },
            CalcMode::MercatorToWgs84 => {
                v.push("X (metres)");
                v.push("Y (metres)");
            },
            CalcMode::DdToDms => {
                v.push("Latitude (DD)");
                v.push("Longitude (DD)");
            },
            CalcMode::DmsToDD => {
                v.push("Lat deg");
                v.push("Lat min");
                v.push("Lat sec");
                v.push("N or S");
                v.push("Lon deg");
                v.push("Lon min");
                v.push("Lon sec");
                v.push("E or W");
            },
            CalcMode::Distance => {
                v.push("Lat 1");
                v.push("Lon 1");
                v.push("Lat 2");
                v.push("Lon 2");
            },
            CalcMode::Bearing => {
                v.push("Lat 1");
                v.push("Lon 1");
                v.push("Lat 2");
                v.push("Lon 2");
            },
            CalcMode::DestinationPoint => {
                v.push("Latitude");
                v.push("Longitude");
                v.push("Bearing (°)");
                v.push("Distance (m)");
            },
        }
        v
    }
}

// ── Layers ───────────────────────────────────────────────────────────────────


/// Computed result from a calculator.
pub struct CalcResult<N> {
    /// Lines of formatted output.
    pub lines: Vec<String>,
    /// Geographic point embedded in the result (enables place/go-to actions).
    pub latlon: Option<(N, N)>,
}

/// Mutable state for the calculator view.
pub struct CalcState<N> {
    /// Menu position of the selected calculator.
    pub mode_idx: usize,
    /// Per-field text buffers.
    pub fields: Vec<String>,
    /// Which field index has focus (when `focus_right` is true).
    pub field_idx: usize,
    /// If true the right panel (inputs) has keyboard focus; left panel otherwise.
    pub focus_right: bool,
    /// Most recent successful result.
    pub result: Option<CalcResult<N>>,
    /// Error message from the last failed compute.
    pub error: Option<String>,
}

/// Mathematical model of a [`CalcState`]; a result is modelled by its lines
/// and its point.
pub struct CalcV<N> {
    pub mode_idx: nat,
    pub fields: Seq<Seq<char>>,
    pub field_idx: nat,
    pub focus_right: bool,
    pub result: Option<(Seq<Seq<char>>, Option<(N, N)>)>,
    pub error: Option<Seq<char>>,
}

pub open spec fn texts(v: Seq<String>) -> Seq<Seq<char>> {
    v.map_values(|s: String| s@)
}

impl<N> View for CalcState<N> {
    type V = CalcV<N>;

    open spec fn view(&self) -> CalcV<N> {
        CalcV {
            mode_idx: self.mode_idx as nat,
            fields: texts(self.fields@),
            field_idx: self.field_idx as nat,
            focus_right: self.focus_right,
            result: match self.result {
                Some(r) => Some((texts(r.lines@), r.latlon)),
                None => None,
            },
            error: opt_text(self.error),
        }
    }
}

/// Calculator `i` selected with empty inputs, the first focused, no result
/// and no error.
pub open spec fn calc_with_mode<N>(v: CalcV<N>, i: nat) -> CalcV<N> {
    CalcV {
        mode_idx: i,
        fields: Seq::new(calc_mode_fields(calc_mode_at(i as int)).len(), |k: int| Seq::<char>::empty()),
        field_idx: 0,
        result: None,
        error: None,
        ..v
    }
}

/// A calculator state the key handler accepts: a calculator of the menu,
/// one buffer per field, the focus on one of them.
pub open spec fn calc_wf<N>(v: CalcV<N>) -> bool {
    &&& v.mode_idx < CALC_MODE_COUNT
    &&& v.fields.len() == calc_mode_fields(calc_mode_at(v.mode_idx as int)).len()
    &&& v.field_idx < v.fields.len()
}

impl<N> CalcState<N> {
    /// Fresh inputs for calculator `m`: one empty buffer per field, the first
    /// focused, no result and no error.
    pub open spec fn fields_reset_for(&self, m: CalcMode) -> bool {
        &&& self.fields@.len() == calc_mode_fields(m).len()
        &&& forall|i: int| 0 <= i < self.fields@.len() ==> #[trigger] self.fields@[i]@.len() == 0
        &&& self.field_idx == 0
        &&& self.result is None
        &&& self.error is None
    }

    pub fn new() -> (s: Self)
        ensures
            s.mode_idx == 0,
            s.focus_right == false,
            s.fields_reset_for(calc_mode_at(0)),
    {
        let mut s = CalcState {
            mode_idx: 0,
            fields: Vec::new(),
            field_idx: 0,
            focus_right: false,
            result: None,
            error: None,
        };
        s.reset_fields();
        s
    }

    /// The selected calculator.
    pub fn current_mode(&self) -> (m: CalcMode)
        requires
            self.mode_idx < CALC_MODE_COUNT,
        ensures
            m == calc_mode_at(self.mode_idx as int),
    {
        CalcMode::at(self.mode_idx)
    }

    /// Select calculator `idx` and clear its inputs; an index past the menu
    /// changes nothing.
    pub fn set_mode(&mut self, idx: usize)
        ensures
            idx < CALC_MODE_COUNT ==> final(self).mode_idx == idx && final(self).fields_reset_for(
                calc_mode_at(idx as int),
            ) && final(self).focus_right == old(self).focus_right,
            idx < CALC_MODE_COUNT ==> final(self)@ == calc_with_mode(old(self)@, idx as nat),
            idx >= CALC_MODE_COUNT ==> *final(self) == *old(self),
    {
        if idx < CALC_MODE_COUNT {
            self.mode_idx = idx;
            self.reset_fields();
            assert forall|k: int| 0 <= k < self.fields@.len() implies #[trigger] texts(self.fields@)[k]
                =~= Seq::<char>::empty() by {
                assert(self.fields@[k]@.len() == 0);
            }
            assert(texts(self.fields@) =~= Seq::new(
                calc_mode_fields(calc_mode_at(idx as int)).len(),
                |k: int| Seq::<char>::empty(),
            ));
            assert(self@ =~= calc_with_mode(old(self)@, idx as nat));
        }
    }

    fn reset_fields(&mut self)
        requires
            old(self).mode_idx < CALC_MODE_COUNT,
        ensures
            final(self).mode_idx == old(self).mode_idx,
            final(self).focus_right == old(self).focus_right,
            final(self).fields_reset_for(calc_mode_at(old(self).mode_idx as int)),
    {
        let n = self.current_mode().field_labels().len();
        let mut fields: Vec<String> = Vec::new();
        let mut i: usize = 0;
        while i < n
            invariant
                i <= n,
                fields@.len() == i,
                forall|k: int| 0 <= k < i ==> #[trigger] fields@[k]@.len() == 0,
            decreases n - i,
        {
            fields.push(String::new());
            i = i + 1;
        }
        self.fields = fields;
        self.field_idx = 0;
        self.result = None;
        self.error = None;
    }
}


/// A hemisphere letter (any case, white space around it ignored): `N` or
/// `E` is the positive side (`false`), `S` or `W` the negative (`true`).
pub open spec fn hemisphere_of(s: Seq<char>) -> Option<bool> {
    let t = trimmed(s);
    if t.len() == 1 && (t[0] == 'N' || t[0] == 'n' || t[0] == 'E' || t[0] == 'e') {
        Some(false)
    } else if t.len() == 1 && (t[0] == 'S' || t[0] == 's' || t[0] == 'W' || t[0] == 'w') {
        Some(true)
    } else {
        None
    }
}

impl<N> CalcState<N> {
    /// A field read as an unsigned 32-bit number; white space around it is
    /// ignored.
    pub fn pu(s: &str) -> (r: Option<u32>)
        ensures
            r == match parsed_unsigned(trimmed(s@), u32::MAX as nat) {
                Some(v) => Some(v as u32),
                None => None::<u32>,
            },
    {
        let (a, b) = trim_bounds(s);
        match parse_unsigned(s.substring_char(a, b), u32::MAX as u64) {
            Some(v) => Some(v as u32),
            None => None,
        }
    }

    /// A field read as an unsigned 8-bit number; white space around it is
    /// ignored.
    pub fn p8(s: &str) -> (r: Option<u8>)
        ensures
            r == match parsed_unsigned(trimmed(s@), u8::MAX as nat) {
                Some(v) => Some(v as u8),
                None => None::<u8>,
            },
    {
        let (a, b) = trim_bounds(s);
        match parse_unsigned(s.substring_char(a, b), u8::MAX as u64) {
            Some(v) => Some(v as u8),
            None => None,
        }
    }
}

impl<N> CalcState<N> {
    /// Parse a hemisphere letter: 'N'/'E' → false (positive), 'S'/'W' → true
    /// (negative).
    pub fn hem(s: &str) -> (r: Option<bool>)
        ensures
            r == hemisphere_of(s@),
    {
        let (a, b) = trim_bounds(s);
        if b - a != 1 {
            return None;
        }
        let c = s.get_char(a);
        assert(trimmed(s@)[0] == c);
        if c == 'N' || c == 'n' || c == 'E' || c == 'e' {
            Some(false)
        } else if c == 'S' || c == 's' || c == 'W' || c == 'w' {
            Some(true)
        } else {
            None
        }
    }
}

/// A GeoJSON layer plus display metadata owned by the application.
#[verifier::reject_recursive_types(N)]
pub struct LayerEntry<N> {
    pub layer: GeoLayer<N>,
    pub visible: bool,
    /// Display name shown in the layer manager (defaults to filename stem).
    pub label: String,
    /// Index (0–4) into the 5-colour palette, locked when the layer is added.
    pub color_index: u8,
}

impl<N: Copy> LayerEntry<N> {
    /// A visible layer named after its file.
    pub fn new(layer: GeoLayer<N>, color_index: u8) -> (e: Self)
        ensures
            e.layer == layer,
            e.visible,
            e.label@ == path_stem(layer.source@),
            e.color_index == color_index,
    {
        let label = file_stem(layer.source.as_str());
        LayerEntry { layer, visible: true, label, color_index }
    }

    /// A visible layer with the given name.
    pub fn with_label(layer: GeoLayer<N>, label: String, color_index: u8) -> (e: Self)
        ensures
            e.layer == layer,
            e.visible,
            e.label@ == label@,
            e.color_index == color_index,
    {
        LayerEntry { layer, visible: true, label, color_index }
    }

    /// A layer restored from a saved entry: its saved name, or the file's
    /// when none was saved.
    pub fn restored(layer: GeoLayer<N>, visible: bool, label: &str, color_index: u8) -> (e: Self)
        ensures
            e.layer == layer,
            e.visible == visible,
            e.label@ == if label@.len() == 0 { path_stem(layer.source@) } else { label@ },
            e.color_index == color_index,
    {
        let label = if label.unicode_len() == 0 {
            file_stem(layer.source.as_str())
        } else {
            string_from(label)
        };
        LayerEntry { layer, visible, label, color_index }
    }
}

/// Palette slot of the next layer when `count` layers are loaded: the count
/// cut to a byte, modulo the five colours.
pub fn layer_color_index(count: usize) -> (c: u8)
    ensures
        c == (count % 256) % 5,
{
    let b = (count % 256) as u8;
    b % 5
}

/// Per-layer metadata saved across sessions.
#[derive(Debug, Clone, Default)]
pub struct SavedLayerEntry {
    pub path: String,
    pub visible: bool,
    pub label: String,
    pub color_index: u8,
}

/// The layer entries an import split by geometry adds after `existing`
/// layers: one per sub-layer, visible, named after the file's stem and what
/// it holds (`rivers (Lines)`), coloured by its place in the layer list.
pub fn split_layer_entries<N: Copy>(layer: GeoLayer<N>, existing: usize) -> (v: Vec<LayerEntry<N>>)
    requires
        existing + 3 <= usize::MAX,
    ensures
        v@.len() == split_groups(layer.features@).len(),
        forall|k: int|
            0 <= k < v@.len() ==> {
                &&& (#[trigger] v@[k]).layer.features@ == split_groups(layer.features@)[k]
                &&& v@[k].layer.source@ == layer.source@
                &&& v@[k].visible
                &&& v@[k].label@ == path_stem(layer.source@) + " ("@ + family_name(
                    split_groups(layer.features@)[k],
                ) + ")"@
                &&& v@[k].color_index == ((existing + k) % 256) % 5
            },
{
    let ghost groups = split_groups(layer.features@);
    let ghost src = layer.source@;
    let stem = file_stem(layer.source.as_str());
    let mut subs = layer.split_by_geometry_type();
    let ghost subs0 = subs@;
    let n = subs.len();
    let mut v: Vec<LayerEntry<N>> = Vec::new();
    let mut k: usize = 0;
    while k < n
        invariant
            n == subs0.len(),
            n == groups.len(),
            groups == split_groups(layer.features@),
            n <= 3,
            existing + 3 <= usize::MAX,
            k <= n,
            subs@ == subs0.subrange(k as int, n as int),
            forall|j: int|
                0 <= j < n ==> (#[trigger] subs0[j]).features@ == groups[j] && subs0[j].source@ == src,
            v@.len() == k,
            stem@ == path_stem(src),
            forall|j: int|
                0 <= j < k ==> {
                    &&& (#[trigger] v@[j]).layer.features@ == groups[j]
                    &&& v@[j].layer.source@ == src
                    &&& v@[j].visible
                    &&& v@[j].label@ == path_stem(src) + " ("@ + family_name(groups[j]) + ")"@
                    &&& v@[j].color_index == ((existing + j) % 256) % 5
                },
        decreases n - k,
    {
        let sl = subs.remove(0);
        proof {
            assert(sl == subs0[k as int]);
            assert(subs@ =~= subs0.subrange(k as int + 1, n as int));
        }
        let mut label = string_from(stem.as_str());
        push_str(&mut label, " (");
        push_str(&mut label, sl.family_label());
        push_str(&mut label, ")");
        let e = LayerEntry::with_label(sl, label, layer_color_index(existing + k));
        v.push(e);
        k = k + 1;
    }
    v
}

/// What a session records of a layer: its file, whether it is shown, its
/// name and its colour.
pub open spec fn saved_meta(e: SavedLayerEntry) -> (Seq<char>, bool, Seq<char>, u8) {
    (e.path@, e.visible, e.label@, e.color_index)
}

/// What a session records of a loaded layer.
pub open spec fn layer_meta<N>(e: LayerEntry<N>) -> (Seq<char>, bool, Seq<char>, u8) {
    (e.layer.source@, e.visible, e.label@, e.color_index)
}

/// The layers a saved session brings back, in order: its layer entries; or,
/// from a session that has none, its plain paths, each shown, named after
/// its file (an empty name) and coloured by its position.
pub open spec fn layer_plan(entries: Seq<(Seq<char>, bool, Seq<char>, u8)>, paths: Seq<Seq<char>>) -> Seq<
    (Seq<char>, bool, Seq<char>, u8),
> {
    if entries.len() > 0 {
        entries
    } else {
        Seq::new(paths.len(), |i: int| (paths[i], true, Seq::empty(), ((i % 256) % 5) as u8))
    }
}

/// Which layers a saved session brings back.
pub fn saved_layer_plan(entries: &Vec<SavedLayerEntry>, paths: &Vec<String>) -> (plan: Vec<
    SavedLayerEntry,
>)
    ensures
        plan@.map_values(|e: SavedLayerEntry| saved_meta(e)) == layer_plan(
            entries@.map_values(|e: SavedLayerEntry| saved_meta(e)),
            paths@.map_values(|p: String| p@),
        ),
{
    let ghost want = layer_plan(
        entries@.map_values(|e: SavedLayerEntry| saved_meta(e)),
        paths@.map_values(|p: String| p@),
    );
    let mut plan: Vec<SavedLayerEntry> = Vec::new();
    if entries.len() > 0 {
        let mut i: usize = 0;
        while i < entries.len()
            invariant
                i <= entries@.len(),
                entries@.len() > 0,
                want == entries@.map_values(|e: SavedLayerEntry| saved_meta(e)),
                plan@.len() == i,
                forall|k: int| 0 <= k < i ==> saved_meta(#[trigger] plan@[k]) == want[k],
            decreases entries@.len() - i,
        {
            let e = &entries[i];
            plan.push(
                SavedLayerEntry {
                    path: string_from(e.path.as_str()),
                    visible: e.visible,
                    label: string_from(e.label.as_str()),
                    color_index: e.color_index,
                },
            );
            i = i + 1;
        }
    } else {
        let mut i: usize = 0;
        while i < paths.len()
            invariant
                i <= paths@.len(),
                entries@.len() == 0,
                want == layer_plan(
                    entries@.map_values(|e: SavedLayerEntry| saved_meta(e)),
                    paths@.map_values(|p: String| p@),
                ),
                plan@.len() == i,
                forall|k: int| 0 <= k < i ==> saved_meta(#[trigger] plan@[k]) == want[k],
            decreases paths@.len() - i,
        {
            let label = String::new();
            proof {
                assert(label@ =~= Seq::<char>::empty());
            }
            plan.push(
                SavedLayerEntry {
                    path: string_from(paths[i].as_str()),
                    visible: true,
                    label,
                    color_index: layer_color_index(i),
                },
            );
            i = i + 1;
        }
    }
    assert(plan@.map_values(|e: SavedLayerEntry| saved_meta(e)) =~= want);
    plan
}

/// What a session saves of the loaded layers, in order.
pub fn saved_layer_entries<N>(layers: &[LayerEntry<N>]) -> (v: Vec<SavedLayerEntry>)
    ensures
        v@.map_values(|e: SavedLayerEntry| saved_meta(e)) == layers@.map_values(
            |e: LayerEntry<N>| layer_meta(e),
        ),
{
    let mut v: Vec<SavedLayerEntry> = Vec::new();
    let mut i: usize = 0;
    while i < layers.len()
        invariant
            i <= layers@.len(),
            v@.len() == i,
            forall|k: int| 0 <= k < i ==> saved_meta(#[trigger] v@[k]) == layer_meta(layers@[k]),
        decreases layers@.len() - i,
    {
        let e = &layers[i];
        v.push(
            SavedLayerEntry {
                path: string_from(e.layer.source.as_str()),
                visible: e.visible,
                label: string_from(e.label.as_str()),
                color_index: e.color_index,
            },
        );
        i = i + 1;
    }
    assert(v@.map_values(|e: SavedLayerEntry| saved_meta(e)) =~= layers@.map_values(
        |e: LayerEntry<N>| layer_meta(e),
    ));
    v
}

/// Saving the loaded layers and planning their return gives back each
/// layer's file, visibility, name and colour, in order, whatever legacy
/// paths the session also holds.
pub proof fn lemma_saved_layers_come_back<N>(layers: Seq<LayerEntry<N>>, paths: Seq<Seq<char>>)
    requires
        layers.len() > 0,
    ensures
        layer_plan(layers.map_values(|e: LayerEntry<N>| layer_meta(e)), paths) == layers.map_values(
            |e: LayerEntry<N>| layer_meta(e),
        ),
{
}

/// Default visibility of a saved layer entry.
pub fn bool_true() -> (b: bool)
    ensures
        b,
{
    true
}

/// Path separators: `/` and `\`.
pub open spec fn is_path_sep(c: char) -> bool {
    c == '/' || c == '\\'
}

/// Position just after the last path separator of `s` (0 when there is none).
pub open spec fn after_last_sep(s: Seq<char>) -> int
    decreases s.len(),
{
    if s.len() == 0 {
        0
    } else if is_path_sep(s.last()) {
        s.len() as int
    } else {
        after_last_sep(s.drop_last())
    }
}

/// `s` ends with `t`.
pub open spec fn seq_ends_with(s: Seq<char>, t: Seq<char>) -> bool {
    t.len() <= s.len() && s.subrange(s.len() - t.len(), s.len() as int) == t
}

/// File name of a path without directory and without a `.geojson` or (else)
/// `.json` extension.
pub open spec fn path_stem(path: Seq<char>) -> Seq<char> {
    let base = path.subrange(after_last_sep(path), path.len() as int);
    if seq_ends_with(base, ".geojson"@) {
        base.subrange(0, base.len() - 8)
    } else if seq_ends_with(base, ".json"@) {
        base.subrange(0, base.len() - 5)
    } else {
        base
    }
}

proof fn lemma_after_last_sep(s: Seq<char>)
    ensures
        0 <= after_last_sep(s) <= s.len(),
        forall|k: int| after_last_sep(s) <= k < s.len() ==> !is_path_sep(#[trigger] s[k]),
        after_last_sep(s) > 0 ==> is_path_sep(s[after_last_sep(s) - 1]),
    decreases s.len(),
{
    if s.len() > 0 && !is_path_sep(s.last()) {
        lemma_after_last_sep(s.drop_last());
        assert forall|k: int| after_last_sep(s) <= k < s.len() implies !is_path_sep(#[trigger] s[k]) by {
            if k < s.len() - 1 {
                assert(s[k] == s.drop_last()[k]);
            }
        }
    }
}

/// Does `base` end with `t`?
fn ends_with_str(base: &str, n: usize, t: &str) -> (b: bool)
    requires
        n == base@.len(),
    ensures
        b == seq_ends_with(base@, t@),
{
    let m = t.unicode_len();
    if m > n {
        return false;
    }
    let tail = base.substring_char(n - m, n);
    let r = crate::text::str_equal(tail, t);
    r
}

/// Extract the filename stem (no directory, no `.geojson`/`.json` extension).
pub fn file_stem(path: &str) -> (stem: String)
    ensures
        stem@ == path_stem(path@),
{
    let n = path.unicode_len();
    // start of the last path component
    let mut i: usize = n;
    while i > 0 && !(path.get_char(i - 1) == '/' || path.get_char(i - 1) == '\\')
        invariant
            n == path@.len(),
            i <= n,
            forall|k: int| i <= k < n ==> !is_path_sep(#[trigger] path@[k]),
        decreases i,
    {
        i = i - 1;
    }
    proof {
        lemma_after_last_sep(path@);
        lemma_last_sep_unique(path@, i as int);
        reveal_strlit(".geojson");
        reveal_strlit(".json");
    }
    let base = path.substring_char(i, n);
    let bl = n - i;
    if ends_with_str(base, bl, ".geojson") {
        string_from(base.substring_char(0, bl - 8))
    } else if ends_with_str(base, bl, ".json") {
        string_from(base.substring_char(0, bl - 5))
    } else {
        string_from(base)
    }
}

/// A position with no separator after it, preceded by a separator or at 0,
/// is the position after the last separator.
proof fn lemma_last_sep_unique(s: Seq<char>, i: int)
    requires
        0 <= i <= s.len(),
        forall|k: int| i <= k < s.len() ==> !is_path_sep(#[trigger] s[k]),
        i > 0 ==> is_path_sep(s[i - 1]),
    ensures
        after_last_sep(s) == i,
    decreases s.len(),
{
    if s.len() > 0 {
        if i == s.len() {
        } else {
            assert(!is_path_sep(s[s.len() - 1]));
            let t = s.drop_last();
            assert forall|k: int| i <= k < t.len() implies !is_path_sep(#[trigger] t[k]) by {
                assert(t[k] == s[k]);
            }
            if i > 0 {
                assert(t[i - 1] == s[i - 1]);
            }
            lemma_last_sep_unique(t, i);
        }
    }
}

} // verus!
