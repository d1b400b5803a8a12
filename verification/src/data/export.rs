//! Writing GeoJSON: a geometry, and a one-feature collection around it, as
//! JSON trees.
use vstd::prelude::*;
use crate::data::geojson::{
    coord_of, coords_of, features_in, features_of, geom_view, geom_wf, geometry_of, line_of,
    line_views, lines_of, name_from, name_keys, name_of, poly_of, poly_views, polys_of, props_of,
    type_of, Coord, FeatV, GeoGeometry, GeomV,
};
use crate::data::json::{
    json_view, json_views, lemma_json_views, lemma_member_index, lemma_member_views, member,
    member_index, member_views, Json, JsonV,
};
use crate::text::{string_from, trim_bounds, trimmed};

verus! {

/// A position: the array `[x, y]`.
pub open spec fn position_jv<N>(c: Coord<N>) -> JsonV<N> {
    JsonV::Array(seq![JsonV::Number(c.0), JsonV::Number(c.1)])
}

/// A list of positions.
pub open spec fn positions_jv<N>(ps: Seq<Coord<N>>) -> JsonV<N> {
    JsonV::Array(ps.map_values(|c: Coord<N>| position_jv(c)))
}

/// A list of position lists (lines, or the rings of a polygon).
pub open spec fn lines_jv<N>(ls: Seq<Seq<Coord<N>>>) -> JsonV<N> {
    JsonV::Array(ls.map_values(|l: Seq<Coord<N>>| positions_jv(l)))
}

/// A list of polygons, each a list of rings.
pub open spec fn polys_jv<N>(ps: Seq<Seq<Seq<Coord<N>>>>) -> JsonV<N> {
    JsonV::Array(ps.map_values(|p: Seq<Seq<Coord<N>>>| lines_jv(p)))
}

/// The GeoJSON type name of a geometry.
pub open spec fn geometry_type_name<N>(g: GeomV<N>) -> Seq<char> {
    match g {
        GeomV::Point(_) => "Point"@,
        GeomV::MultiPoint(_) => "MultiPoint"@,
        GeomV::LineString(_) => "LineString"@,
        GeomV::MultiLineString(_) => "MultiLineString"@,
        GeomV::Polygon(_) => "Polygon"@,
        GeomV::MultiPolygon(_) => "MultiPolygon"@,
        GeomV::Collection(_) => "GeometryCollection"@,
    }
}

/// The `coordinates` of a geometry; a collection writes none.
pub open spec fn geometry_coords_jv<N>(g: GeomV<N>) -> JsonV<N> {
    match g {
        GeomV::Point(c) => position_jv(c),
        GeomV::MultiPoint(ps) => positions_jv(ps),
        GeomV::LineString(ps) => positions_jv(ps),
        GeomV::MultiLineString(ls) => lines_jv(ls),
        GeomV::Polygon(rs) => lines_jv(rs),
        GeomV::MultiPolygon(ps) => polys_jv(ps),
        GeomV::Collection(_) => JsonV::Array(Seq::empty()),
    }
}

/// A geometry object: `{"type": …, "coordinates": …}`.
pub open spec fn geometry_jv<N>(g: GeomV<N>) -> JsonV<N> {
    JsonV::Object(
        seq![
            ("type"@, JsonV::Str(geometry_type_name(g))),
            ("coordinates"@, geometry_coords_jv(g)),
        ],
    )
}

/// A position as JSON.
fn position_json<N: Copy>(c: Coord<N>) -> (j: Json<N>)
    ensures
        json_view(j) == position_jv(c),
{
    let mut v: Vec<Json<N>> = Vec::new();
    v.push(Json::Number(c.0));
    v.push(Json::Number(c.1));
    proof {
        lemma_json_views(v@);
        assert(json_views(v@) =~= seq![JsonV::Number(c.0), JsonV::Number(c.1)]);
    }
    Json::Array(v)
}

/// A list of positions as JSON.
fn positions_json<N: Copy>(ps: &Vec<Coord<N>>) -> (j: Json<N>)
    ensures
        json_view(j) == positions_jv(ps@),
{
    let mut v: Vec<Json<N>> = Vec::new();
    let mut i: usize = 0;
    while i < ps.len()
        invariant
            i <= ps@.len(),
            v@.len() == i,
            forall|k: int| 0 <= k < i ==> #[trigger] json_view(v@[k]) == position_jv(ps@[k]),
        decreases ps@.len() - i,
    {
        v.push(position_json(ps[i]));
        i = i + 1;
    }
    proof {
        lemma_json_views(v@);
        assert(json_views(v@) =~= ps@.map_values(|c: Coord<N>| position_jv(c)));
    }
    Json::Array(v)
}

/// A list of position lists as JSON.
fn lines_json<N: Copy>(ls: &Vec<Vec<Coord<N>>>) -> (j: Json<N>)
    ensures
        json_view(j) == lines_jv(line_views(ls@)),
{
    let mut v: Vec<Json<N>> = Vec::new();
    let mut i: usize = 0;
    while i < ls.len()
        invariant
            i <= ls@.len(),
            v@.len() == i,
            forall|k: int| 0 <= k < i ==> #[trigger] json_view(v@[k]) == positions_jv(ls@[k]@),
        decreases ls@.len() - i,
    {
        v.push(positions_json(&ls[i]));
        i = i + 1;
    }
    proof {
        lemma_json_views(v@);
        assert(json_views(v@) =~= line_views(ls@).map_values(|l: Seq<Coord<N>>| positions_jv(l)));
    }
    Json::Array(v)
}

/// A list of polygons as JSON.
fn polys_json<N: Copy>(ps: &Vec<Vec<Vec<Coord<N>>>>) -> (j: Json<N>)
    ensures
        json_view(j) == polys_jv(poly_views(ps@)),
{
    let mut v: Vec<Json<N>> = Vec::new();
    let mut i: usize = 0;
    while i < ps.len()
        invariant
            i <= ps@.len(),
            v@.len() == i,
            forall|k: int| 0 <= k < i ==> #[trigger] json_view(v@[k]) == lines_jv(line_views(ps@[k]@)),
        decreases ps@.len() - i,
    {
        v.push(lines_json(&ps[i]));
        i = i + 1;
    }
    proof {
        lemma_json_views(v@);
        assert(json_views(v@) =~= poly_views(ps@).map_values(|p: Seq<Seq<Coord<N>>>| lines_jv(p)));
    }
    Json::Array(v)
}

/// A two-member object.
fn object2<N>(k1: &str, v1: Json<N>, k2: &str, v2: Json<N>) -> (j: Json<N>)
    ensures
        json_view(j) == JsonV::Object(seq![(k1@, json_view(v1)), (k2@, json_view(v2))]),
{
    let ghost (g1, g2) = (json_view(v1), json_view(v2));
    let mut fs: Vec<(String, Json<N>)> = Vec::new();
    fs.push((string_from(k1), v1));
    fs.push((string_from(k2), v2));
    proof {
        lemma_member_views(fs@);
        assert(member_views(fs@) =~= seq![(k1@, g1), (k2@, g2)]);
    }
    Json::Object(fs)
}

/// A geometry as a GeoJSON geometry object, its positions written as they
/// are.
pub fn geometry_json<N: Copy>(g: &GeoGeometry<N>) -> (j: Json<N>)
    ensures
        json_view(j) == geometry_jv(geom_view(*g)),
{
    let (name, coords) = match g {
        GeoGeometry::Point(c) => ("Point", position_json(*c)),
        GeoGeometry::MultiPoint(ps) => ("MultiPoint", positions_json(ps)),
        GeoGeometry::LineString(ps) => ("LineString", positions_json(ps)),
        GeoGeometry::MultiLineString(ls) => ("MultiLineString", lines_json(ls)),
        GeoGeometry::Polygon(rs) => ("Polygon", lines_json(rs)),
        GeoGeometry::MultiPolygon(ps) => ("MultiPolygon", polys_json(ps)),
        GeoGeometry::Collection(_) => {
            let empty: Vec<Json<N>> = Vec::new();
            proof {
                assert(json_views(empty@) =~= Seq::<JsonV<N>>::empty());
            }
            ("GeometryCollection", Json::Array(empty))
        },
    };
    let ghost name_v = name@;
    let tj = Json::Str(string_from(name));
    object2("type", tj, "coordinates", coords)
}

/// The properties of an exported feature: its name, when it has one.
pub open spec fn export_props<N>(name: Seq<char>) -> Seq<(Seq<char>, JsonV<N>)> {
    if name.len() == 0 {
        Seq::empty()
    } else {
        seq![("name"@, JsonV::Str(name))]
    }
}

/// A feature: `{"type": "Feature", "geometry": …, "properties": …}`.
pub open spec fn feature_jv<N>(geometry: JsonV<N>, name: Seq<char>) -> JsonV<N> {
    JsonV::Object(
        seq![
            ("type"@, JsonV::Str("Feature"@)),
            ("geometry"@, geometry),
            ("properties"@, JsonV::Object(export_props(name))),
        ],
    )
}

/// The exported document: a feature collection holding one feature.
pub open spec fn export_jv<N>(geometry: JsonV<N>, name: Seq<char>) -> JsonV<N> {
    JsonV::Object(
        seq![
            ("type"@, JsonV::Str("FeatureCollection"@)),
            ("features"@, JsonV::Array(seq![feature_jv(geometry, name)])),
        ],
    )
}

/// A three-member object.
fn object3<N>(k1: &str, v1: Json<N>, k2: &str, v2: Json<N>, k3: &str, v3: Json<N>) -> (j: Json<N>)
    ensures
        json_view(j) == JsonV::Object(
            seq![(k1@, json_view(v1)), (k2@, json_view(v2)), (k3@, json_view(v3))],
        ),
{
    let ghost (g1, g2, g3) = (json_view(v1), json_view(v2), json_view(v3));
    let mut fs: Vec<(String, Json<N>)> = Vec::new();
    fs.push((string_from(k1), v1));
    fs.push((string_from(k2), v2));
    fs.push((string_from(k3), v3));
    proof {
        lemma_member_views(fs@);
        assert(member_views(fs@) =~= seq![(k1@, g1), (k2@, g2), (k3@, g3)]);
    }
    Json::Object(fs)
}

/// A one-entry array.
fn array1<N>(v: Json<N>) -> (j: Json<N>)
    ensures
        json_view(j) == JsonV::Array(seq![json_view(v)]),
{
    let ghost g = json_view(v);
    let mut list: Vec<Json<N>> = Vec::new();
    list.push(v);
    proof {
        lemma_json_views(list@);
        assert(json_views(list@) =~= seq![g]);
    }
    Json::Array(list)
}

/// The properties object of an exported feature named `name`.
fn export_properties<N>(name: &str) -> (j: Json<N>)
    ensures
        json_view(j) == JsonV::Object(export_props::<N>(name@)),
{
    let mut props: Vec<(String, Json<N>)> = Vec::new();
    if name.unicode_len() > 0 {
        props.push((string_from("name"), Json::Str(string_from(name))));
    }
    proof {
        lemma_member_views(props@);
        assert(member_views(props@) =~= export_props::<N>(name@));
    }
    Json::Object(props)
}

/// The document a shape is exported as: a feature collection with one
/// feature of geometry `geometry`, named `name` without its surrounding
/// white space when anything remains of it.
pub fn export_document<N>(geometry: Json<N>, name: &str) -> (doc: Json<N>)
    ensures
        json_view(doc) == export_jv(json_view(geometry), trimmed(name@)),
{
    let (a, b) = trim_bounds(name);
    let props = export_properties(name.substring_char(a, b));
    let feature = object3("type", Json::Str(string_from("Feature")), "geometry", geometry, "properties", props);
    object2("type", Json::Str(string_from("FeatureCollection")), "features", array1(feature))
}

// ── Reading back what was written ───────────────────────────────────────────

/// Keeping what `f` makes of each `h(x)` gives back `xs` where `f` undoes `h`.
proof fn lemma_filter_map_undoes<A, B>(xs: Seq<B>, h: spec_fn(B) -> A, f: spec_fn(A) -> Option<B>)
    requires
        forall|i: int| 0 <= i < xs.len() ==> f(h(#[trigger] xs[i])) == Some(xs[i]),
    ensures
        xs.map_values(h).filter_map(f) == xs,
    decreases xs.len(),
{
    if xs.len() == 0 {
        assert(xs.map_values(h) =~= Seq::<A>::empty());
        assert(xs.map_values(h).filter_map(f) =~= xs);
    } else {
        let pre = xs.drop_last();
        assert forall|i: int| 0 <= i < pre.len() implies f(h(#[trigger] pre[i])) == Some(pre[i]) by {
            assert(pre[i] == xs[i]);
        }
        lemma_filter_map_undoes(pre, h, f);
        assert(xs.map_values(h).drop_last() =~= pre.map_values(h));
        assert(xs.map_values(h).last() == h(xs.last()));
        assert(pre + seq![xs.last()] =~= xs);
    }
}

/// Reading a written list of positions gives the positions back.
proof fn lemma_positions_read_back<N>(ps: Seq<Coord<N>>)
    ensures
        coords_of(ps.map_values(|c: Coord<N>| position_jv(c))) == ps,
{
    lemma_filter_map_undoes(ps, |c: Coord<N>| position_jv(c), |e: JsonV<N>| coord_of(e));
}

/// Reading written lines back keeps every line of at least `min` points.
proof fn lemma_lines_read_back<N>(ls: Seq<Seq<Coord<N>>>, min: nat)
    requires
        forall|i: int| 0 <= i < ls.len() ==> #[trigger] ls[i].len() >= min,
    ensures
        lines_of(ls.map_values(|l: Seq<Coord<N>>| positions_jv(l)), min) == ls,
{
    assert forall|i: int| 0 <= i < ls.len() implies (|e: JsonV<N>| line_of(e, min))(
        (|l: Seq<Coord<N>>| positions_jv(l))(#[trigger] ls[i]),
    ) == Some(ls[i]) by {
        lemma_positions_read_back(ls[i]);
    }
    lemma_filter_map_undoes(ls, |l: Seq<Coord<N>>| positions_jv(l), |e: JsonV<N>| line_of(e, min));
}

/// Reading written polygons back gives them back when each has a ring and
/// every ring has at least three points.
proof fn lemma_polys_read_back<N>(ps: Seq<Seq<Seq<Coord<N>>>>)
    requires
        forall|i: int|
            0 <= i < ps.len() ==> #[trigger] ps[i].len() > 0 && forall|j: int|
                0 <= j < ps[i].len() ==> #[trigger] ps[i][j].len() >= 3,
    ensures
        polys_of(ps.map_values(|p: Seq<Seq<Coord<N>>>| lines_jv(p))) == ps,
{
    assert forall|i: int| 0 <= i < ps.len() implies (|e: JsonV<N>| poly_of(e))(
        (|p: Seq<Seq<Coord<N>>>| lines_jv(p))(#[trigger] ps[i]),
    ) == Some(ps[i]) by {
        lemma_lines_read_back(ps[i], 3);
    }
    lemma_filter_map_undoes(ps, |p: Seq<Seq<Coord<N>>>| lines_jv(p), |e: JsonV<N>| poly_of(e));
}

/// Reading a written geometry gives it back: every well-formed geometry but
/// a collection, which is written without its members, survives the round
/// trip unchanged.
pub proof fn lemma_geometry_reads_back<N>(g: GeomV<N>)
    requires
        geom_wf(g),
        !(g is Collection),
    ensures
        geometry_of(geometry_jv(g)) == Some(g),
{
    let v = geometry_jv(g);
    let fs = seq![("type"@, JsonV::<N>::Str(geometry_type_name(g))), ("coordinates"@, geometry_coords_jv(g))];
    reveal_strlit("type");
    reveal_strlit("coordinates");
    reveal_strlit("Point");
    reveal_strlit("MultiPoint");
    reveal_strlit("LineString");
    reveal_strlit("MultiLineString");
    reveal_strlit("Polygon");
    reveal_strlit("MultiPolygon");
    reveal_strlit("GeometryCollection");
    assert("type"@.len() == 4 && "coordinates"@.len() == 11);
    assert("Point"@.len() == 5 && "MultiPoint"@.len() == 10 && "LineString"@.len() == 10);
    assert("MultiLineString"@.len() == 15 && "Polygon"@.len() == 7 && "MultiPolygon"@.len() == 12);
    assert("MultiPoint"@[0] == 'M' && "LineString"@[0] == 'L');
    assert(fs[0].0 != "coordinates"@);
    lemma_member_index(fs, "type"@);
    lemma_member_index(fs, "coordinates"@);
    assert(member(v, "type"@) == JsonV::<N>::Str(geometry_type_name(g)));
    assert(member(v, "coordinates"@) == geometry_coords_jv(g));
    match g {
        GeomV::Point(c) => {},
        GeomV::MultiPoint(ps) => {
            lemma_positions_read_back(ps);
        },
        GeomV::LineString(ps) => {
            lemma_positions_read_back(ps);
        },
        GeomV::MultiLineString(ls) => {
            lemma_lines_read_back(ls, 2);
        },
        GeomV::Polygon(rs) => {
            lemma_lines_read_back(rs, 3);
        },
        GeomV::MultiPolygon(ps) => {
            lemma_polys_read_back(ps);
        },
        GeomV::Collection(_) => {},
    }
}

/// With no properties, no key gives a name.
proof fn lemma_no_props_no_name<N>(keys: Seq<Seq<char>>)
    ensures
        name_from(Seq::<(Seq<char>, JsonV<N>)>::empty(), keys) == Seq::<char>::empty(),
    decreases keys.len(),
{
    if keys.len() > 0 {
        lemma_no_props_no_name::<N>(keys.subrange(1, keys.len() as int));
    }
}

/// An exported feature reads back with the name it was given.
proof fn lemma_export_name_reads_back<N>(name: Seq<char>)
    ensures
        name_of(export_props::<N>(name)) == name,
{
    if name.len() == 0 {
        lemma_no_props_no_name::<N>(name_keys());
        assert(name =~= Seq::<char>::empty());
    } else {
        let props = export_props::<N>(name);
        reveal_strlit("name");
        lemma_member_index(props, "name"@);
        assert(name_keys()[0] == "name"@);
    }
}

/// Reading the exported document back gives exactly one feature: the
/// exported geometry, under the exported name, with that name as its only
/// property (none when the name is empty); nothing goes wrong on the way.
/// So a well-formed shape other than a collection can be imported again as
/// it was exported.
pub proof fn lemma_export_reads_back<N>(
    g: GeomV<N>,
    name: Seq<char>,
    parent: Seq<(Seq<char>, JsonV<N>)>,
)
    requires
        geom_wf(g),
        !(g is Collection),
    ensures
        features_of(export_jv(geometry_jv(g), name), parent) == (
            seq![FeatV { geometry: g, name: name, properties: export_props::<N>(name) }],
            None::<crate::data::geojson::GeoError>,
        ),
{
    let gv = geometry_jv(g);
    let feat = feature_jv(gv, name);
    let doc = export_jv(gv, name);
    reveal_strlit("type");
    reveal_strlit("features");
    reveal_strlit("geometry");
    reveal_strlit("properties");
    reveal_strlit("Feature");
    reveal_strlit("FeatureCollection");
    reveal_strlit("GeometryCollection");
    assert("type"@.len() == 4 && "features"@.len() == 8 && "geometry"@.len() == 8);
    assert("properties"@.len() == 10 && "Feature"@.len() == 7 && "FeatureCollection"@.len() == 17);
    assert("GeometryCollection"@.len() == 18);
    assert("features"@[0] == 'f' && "geometry"@[0] == 'g');
    let dfs = seq![("type"@, JsonV::<N>::Str("FeatureCollection"@)), ("features"@, JsonV::Array(seq![feat]))];
    lemma_member_index(dfs, "type"@);
    lemma_member_index(dfs, "features"@);
    assert(type_of(doc) == "FeatureCollection"@);
    assert(member(doc, "features"@) == JsonV::<N>::Array(seq![feat]));
    let ffs = seq![
        ("type"@, JsonV::<N>::Str("Feature"@)),
        ("geometry"@, gv),
        ("properties"@, JsonV::<N>::Object(export_props::<N>(name))),
    ];
    lemma_member_index(ffs, "type"@);
    lemma_member_index(ffs, "geometry"@);
    lemma_member_index(ffs, "properties"@);
    assert(type_of(feat) == "Feature"@);
    assert(member(feat, "geometry"@) == gv);
    assert(props_of(feat) == export_props::<N>(name));
    lemma_geometry_reads_back(g);
    lemma_export_name_reads_back::<N>(name);
    let one = seq![FeatV { geometry: g, name: name, properties: export_props::<N>(name) }];
    assert(features_of(feat, parent) == (one, None::<crate::data::geojson::GeoError>));
    let s = seq![feat];
    assert(s.subrange(0, 0) =~= Seq::<JsonV<N>>::empty());
    assert(features_in(s.subrange(0, 0), parent) == (
        Seq::<FeatV<N>>::empty(),
        None::<crate::data::geojson::GeoError>,
    ));
    assert(s[s.len() - 1] == feat);
    assert(Seq::<FeatV<N>>::empty() + one =~= one);
    assert(features_in(s, parent) == (one, None::<crate::data::geojson::GeoError>));
}

} // verus!
