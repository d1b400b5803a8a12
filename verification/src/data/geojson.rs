//! GeoJSON importer (RFC 7946).
//!
//! Supports FeatureCollection, Feature and bare geometries: Point,
//! MultiPoint, LineString, MultiLineString, Polygon, MultiPolygon and
//! GeometryCollection.  Coordinates are `[longitude, latitude, elevation?]`;
//! the elevation is ignored.
//!
//! The reader works on a [`Json`] tree whose numbers are of type `N`; the
//! application reads the file and hands in the tree with floating-point
//! numbers.  Every function here is stated over the model [`JsonV`] of that
//! tree: [`geometry_of`] says which geometry a JSON value denotes and
//! [`features_of`] which features a document yields.
use vstd::prelude::*;
use crate::data::json::{
    Json, JsonV, json_view, json_views, member_views, member, json_member,
    lemma_json_views, lemma_member_decreases, members_clone,
};
use crate::text::{str_equal, string_from};

verus! {

/// A (longitude, latitude) coordinate pair.
pub type Coord<N> = (N, N);

/// All GeoJSON geometry variants.
#[verifier::reject_recursive_types(N)]
#[derive(Debug)]
pub enum GeoGeometry<N> {
    Point(Coord<N>),
    MultiPoint(Vec<Coord<N>>),
    LineString(Vec<Coord<N>>),
    MultiLineString(Vec<Vec<Coord<N>>>),
    /// Rings: outer boundary first, then optional interior holes.
    Polygon(Vec<Vec<Coord<N>>>),
    MultiPolygon(Vec<Vec<Vec<Coord<N>>>>),
    /// Mixed collection of geometries.
    Collection(Vec<GeoGeometry<N>>),
}

/// Mathematical model of a [`GeoGeometry`].
#[verifier::reject_recursive_types(N)]
pub enum GeomV<N> {
    Point(Coord<N>),
    MultiPoint(Seq<Coord<N>>),
    LineString(Seq<Coord<N>>),
    MultiLineString(Seq<Seq<Coord<N>>>),
    Polygon(Seq<Seq<Coord<N>>>),
    MultiPolygon(Seq<Seq<Seq<Coord<N>>>>),
    Collection(Seq<GeomV<N>>),
}

pub open spec fn line_views<N>(ls: Seq<Vec<Coord<N>>>) -> Seq<Seq<Coord<N>>> {
    ls.map_values(|l: Vec<Coord<N>>| l@)
}

pub open spec fn poly_views<N>(ps: Seq<Vec<Vec<Coord<N>>>>) -> Seq<Seq<Seq<Coord<N>>>> {
    ps.map_values(|p: Vec<Vec<Coord<N>>>| line_views(p@))
}

/// The model of a geometry.
pub open spec fn geom_view<N>(g: GeoGeometry<N>) -> GeomV<N>
    decreases g,
{
    match g {
        GeoGeometry::Point(c) => GeomV::Point(c),
        GeoGeometry::MultiPoint(v) => GeomV::MultiPoint(v@),
        GeoGeometry::LineString(v) => GeomV::LineString(v@),
        GeoGeometry::MultiLineString(ls) => GeomV::MultiLineString(line_views(ls@)),
        GeoGeometry::Polygon(rs) => GeomV::Polygon(line_views(rs@)),
        GeoGeometry::MultiPolygon(ps) => GeomV::MultiPolygon(poly_views(ps@)),
        GeoGeometry::Collection(cs) => GeomV::Collection(geom_views(cs@)),
    }
}

/// Models of a sequence of geometries.
pub open spec fn geom_views<N>(s: Seq<GeoGeometry<N>>) -> Seq<GeomV<N>>
    decreases s,
{
    if s.len() == 0 {
        Seq::empty()
    } else {
        geom_views(s.subrange(0, s.len() - 1)).push(geom_view(s[s.len() - 1]))
    }
}

/// The views of a list of geometries, one per geometry, in order.
pub proof fn lemma_geom_views<N>(s: Seq<GeoGeometry<N>>)
    ensures
        geom_views(s).len() == s.len(),
        forall|i: int| 0 <= i < s.len() ==> #[trigger] geom_views(s)[i] == geom_view(s[i]),
    decreases s.len(),
{
    if s.len() > 0 {
        let t = s.subrange(0, s.len() - 1);
        lemma_geom_views(t);
        assert forall|i: int| 0 <= i < s.len() implies #[trigger] geom_views(s)[i] == geom_view(
            s[i],
        ) by {
            if i < s.len() - 1 {
                assert(t[i] == s[i]);
            }
        }
    }
}

// ── What a JSON value denotes ────────────────────────────────────────────────

/// `[lon, lat, ...]`: an array whose first two entries are numbers.
pub open spec fn coord_of<N>(v: JsonV<N>) -> Option<Coord<N>> {
    match v {
        JsonV::Array(a) => if a.len() >= 2 {
            match (a[0], a[1]) {
                (JsonV::Number(x), JsonV::Number(y)) => Some((x, y)),
                _ => None,
            }
        } else {
            None
        },
        _ => None,
    }
}

/// The coordinates among the entries of an array; other entries are skipped.
pub open spec fn coords_of<N>(a: Seq<JsonV<N>>) -> Seq<Coord<N>> {
    a.filter_map(|e: JsonV<N>| coord_of(e))
}

/// An array entry read as a point list with at least `min` points.
pub open spec fn line_of<N>(e: JsonV<N>, min: nat) -> Option<Seq<Coord<N>>> {
    match e {
        JsonV::Array(a) => if coords_of(a).len() >= min {
            Some(coords_of(a))
        } else {
            None
        },
        _ => None,
    }
}

/// The point lists (of at least `min` points) among the entries of an array.
pub open spec fn lines_of<N>(a: Seq<JsonV<N>>, min: nat) -> Seq<Seq<Coord<N>>> {
    a.filter_map(|e: JsonV<N>| line_of(e, min))
}

/// An array entry read as a polygon: at least one ring of three points.
pub open spec fn poly_of<N>(e: JsonV<N>) -> Option<Seq<Seq<Coord<N>>>> {
    match e {
        JsonV::Array(a) => if lines_of(a, 3).len() > 0 {
            Some(lines_of(a, 3))
        } else {
            None
        },
        _ => None,
    }
}

/// The polygons among the entries of an array.
pub open spec fn polys_of<N>(a: Seq<JsonV<N>>) -> Seq<Seq<Seq<Coord<N>>>> {
    a.filter_map(|e: JsonV<N>| poly_of(e))
}

/// `v.as_array()`.
pub open spec fn array_of<N>(v: JsonV<N>) -> Option<Seq<JsonV<N>>> {
    match v {
        JsonV::Array(a) => Some(a),
        _ => None,
    }
}

/// The geometry object `v` denotes, if it is one.
pub open spec fn geometry_of<N>(v: JsonV<N>) -> Option<GeomV<N>>
    decreases v,
{
    match member(v, "type"@) {
        JsonV::Str(t) => {
            let c = member(v, "coordinates"@);
            if t == "Point"@ {
                match coord_of(c) {
                    Some(p) => Some(GeomV::Point(p)),
                    None => None,
                }
            } else if t == "MultiPoint"@ {
                match c {
                    JsonV::Array(a) => Some(GeomV::MultiPoint(coords_of(a))),
                    _ => None,
                }
            } else if t == "LineString"@ {
                match c {
                    JsonV::Array(a) => if coords_of(a).len() >= 2 {
                        Some(GeomV::LineString(coords_of(a)))
                    } else {
                        None
                    },
                    _ => None,
                }
            } else if t == "MultiLineString"@ {
                match c {
                    JsonV::Array(a) => Some(GeomV::MultiLineString(lines_of(a, 2))),
                    _ => None,
                }
            } else if t == "Polygon"@ {
                match c {
                    JsonV::Array(a) => Some(GeomV::Polygon(lines_of(a, 3))),
                    _ => None,
                }
            } else if t == "MultiPolygon"@ {
                match c {
                    JsonV::Array(a) => Some(GeomV::MultiPolygon(polys_of(a))),
                    _ => None,
                }
            } else if t == "GeometryCollection"@ {
                match member(v, "geometries"@) {
                    JsonV::Array(gs) => {
                        proof {
                            lemma_member_decreases(v, "geometries"@);
                        }
                        Some(GeomV::Collection(geoms_of(gs)))
                    },
                    _ => None,
                }
            } else {
                None
            }
        },
        _ => None,
    }
}

/// The geometries among the entries of an array; other entries are skipped.
pub open spec fn geoms_of<N>(s: Seq<JsonV<N>>) -> Seq<GeomV<N>>
    decreases s,
{
    if s.len() == 0 {
        Seq::empty()
    } else {
        let rest = geoms_of(s.subrange(0, s.len() - 1));
        match geometry_of(s[s.len() - 1]) {
            Some(g) => rest.push(g),
            None => rest,
        }
    }
}

// ── Parsing ──────────────────────────────────────────────────────────────────

/// Parse `[lon, lat]` or `[lon, lat, elev]` from the entries of a JSON array.
fn parse_coord<N: Copy>(arr: &[Json<N>]) -> (r: Option<Coord<N>>)
    ensures
        r == coord_of(JsonV::Array(json_views(arr@))),
{
    proof {
        lemma_json_views(arr@);
    }
    if arr.len() < 2 {
        return None;
    }
    match (&arr[0], &arr[1]) {
        (Json::Number(x), Json::Number(y)) => Some((*x, *y)),
        _ => None,
    }
}

/// `v.as_array()` by reference.
fn as_array<N>(v: &Json<N>) -> (r: Option<&Vec<Json<N>>>)
    ensures
        match r {
            Some(a) => *v == Json::Array(*a) && array_of(json_view(*v)) == Some(json_views(a@)),
            None => array_of(json_view(*v)) is None,
        },
{
    match v {
        Json::Array(a) => Some(a),
        _ => None,
    }
}

/// The coordinates among the entries of a JSON array.
fn parse_coord_list<N: Copy>(arr: &[Json<N>]) -> (pts: Vec<Coord<N>>)
    ensures
        pts@ == coords_of(json_views(arr@)),
{
    proof {
        lemma_json_views(arr@);
    }
    let ghost f = |e: JsonV<N>| coord_of(e);
    let mut pts: Vec<Coord<N>> = Vec::new();
    let mut i: usize = 0;
    while i < arr.len()
        invariant
            i <= arr@.len(),
            json_views(arr@).len() == arr@.len(),
            forall|k: int| 0 <= k < arr@.len() ==> #[trigger] json_views(arr@)[k] == json_view(arr@[k]),
            f == (|e: JsonV<N>| coord_of(e)),
            pts@ == json_views(arr@).subrange(0, i as int).filter_map(f),
        decreases arr@.len() - i,
    {
        let ghost s = json_views(arr@).subrange(0, i as int + 1);
        assert(s.drop_last() =~= json_views(arr@).subrange(0, i as int));
        assert(s.last() == json_view(arr@[i as int]));
        match as_array(&arr[i]) {
            Some(a) => {
                let c = parse_coord(a.as_slice());
                if let Some(p) = c {
                    pts.push(p);
                }
            },
            None => {},
        }
        i = i + 1;
    }
    assert(json_views(arr@).subrange(0, arr@.len() as int) =~= json_views(arr@));
    pts
}

/// `v[key].as_array()` by reference.
fn member_array<'a, N>(v: &'a Json<N>, key: &str) -> (r: Option<&'a Vec<Json<N>>>)
    ensures
        match r {
            Some(a) => array_of(member(json_view(*v), key@)) == Some(json_views(a@))
                && decreases_to!(*v => *a),
            None => array_of(member(json_view(*v), key@)) is None,
        },
{
    match json_member(v, key) {
        Some(x) => match as_array(x) {
            Some(a) => {
                proof {
                    assert(decreases_to!(*x => (*x)->Array_0));
                }
                Some(a)
            },
            None => None,
        },
        None => None,
    }
}

/// The point lists of at least `min` points among the entries of a JSON array.
fn parse_lines<N: Copy>(arr: &[Json<N>], min: usize) -> (ls: Vec<Vec<Coord<N>>>)
    ensures
        line_views(ls@) == lines_of(json_views(arr@), min as nat),
{
    proof {
        lemma_json_views(arr@);
    }
    let ghost f = |e: JsonV<N>| line_of(e, min as nat);
    let mut ls: Vec<Vec<Coord<N>>> = Vec::new();
    let mut i: usize = 0;
    while i < arr.len()
        invariant
            i <= arr@.len(),
            json_views(arr@).len() == arr@.len(),
            forall|k: int| 0 <= k < arr@.len() ==> #[trigger] json_views(arr@)[k] == json_view(arr@[k]),
            f == (|e: JsonV<N>| line_of(e, min as nat)),
            line_views(ls@) == json_views(arr@).subrange(0, i as int).filter_map(f),
        decreases arr@.len() - i,
    {
        let ghost s = json_views(arr@).subrange(0, i as int + 1);
        assert(s.drop_last() =~= json_views(arr@).subrange(0, i as int));
        assert(s.last() == json_view(arr@[i as int]));
        let ghost before = ls@;
        match as_array(&arr[i]) {
            Some(a) => {
                let pts = parse_coord_list(a.as_slice());
                if pts.len() >= min {
                    ls.push(pts);
                    assert(line_views(ls@) =~= line_views(before).push(pts@));
                }
            },
            None => {},
        }
        i = i + 1;
    }
    assert(json_views(arr@).subrange(0, arr@.len() as int) =~= json_views(arr@));
    ls
}

/// The polygons (non-empty lists of rings of at least three points) among the
/// entries of a JSON array.
fn parse_polys<N: Copy>(arr: &[Json<N>]) -> (ps: Vec<Vec<Vec<Coord<N>>>>)
    ensures
        poly_views(ps@) == polys_of(json_views(arr@)),
{
    proof {
        lemma_json_views(arr@);
    }
    let ghost f = |e: JsonV<N>| poly_of(e);
    let mut ps: Vec<Vec<Vec<Coord<N>>>> = Vec::new();
    let mut i: usize = 0;
    while i < arr.len()
        invariant
            i <= arr@.len(),
            json_views(arr@).len() == arr@.len(),
            forall|k: int| 0 <= k < arr@.len() ==> #[trigger] json_views(arr@)[k] == json_view(arr@[k]),
            f == (|e: JsonV<N>| poly_of(e)),
            poly_views(ps@) == json_views(arr@).subrange(0, i as int).filter_map(f),
        decreases arr@.len() - i,
    {
        let ghost s = json_views(arr@).subrange(0, i as int + 1);
        assert(s.drop_last() =~= json_views(arr@).subrange(0, i as int));
        assert(s.last() == json_view(arr@[i as int]));
        let ghost before = ps@;
        match as_array(&arr[i]) {
            Some(a) => {
                let rings = parse_lines(a.as_slice(), 3);
                if rings.len() > 0 {
                    ps.push(rings);
                    assert(poly_views(ps@) =~= poly_views(before).push(line_views(rings@)));
                }
            },
            None => {},
        }
        i = i + 1;
    }
    assert(json_views(arr@).subrange(0, arr@.len() as int) =~= json_views(arr@));
    ps
}

/// Parse a GeoJSON geometry object.
pub fn parse_geometry<N: Copy>(val: &Json<N>) -> (r: Option<GeoGeometry<N>>)
    ensures
        match r {
            Some(g) => geometry_of(json_view(*val)) == Some(geom_view(g)),
            None => geometry_of(json_view(*val)) is None,
        },
    decreases val, 1nat,
{
    let t: &str = match json_member(val, "type") {
        Some(x) => match x {
            Json::Str(s) => s.as_str(),
            _ => {
                return None;
            },
        },
        None => {
            return None;
        },
    };
    if str_equal(t, "Point") {
        match member_array(val, "coordinates") {
            Some(a) => match parse_coord(a.as_slice()) {
                Some(p) => Some(GeoGeometry::Point(p)),
                None => None,
            },
            None => None,
        }
    } else if str_equal(t, "MultiPoint") {
        match member_array(val, "coordinates") {
            Some(a) => Some(GeoGeometry::MultiPoint(parse_coord_list(a.as_slice()))),
            None => None,
        }
    } else if str_equal(t, "LineString") {
        match member_array(val, "coordinates") {
            Some(a) => {
                let pts = parse_coord_list(a.as_slice());
                if pts.len() >= 2 {
                    Some(GeoGeometry::LineString(pts))
                } else {
                    None
                }
            },
            None => None,
        }
    } else if str_equal(t, "MultiLineString") {
        match member_array(val, "coordinates") {
            Some(a) => Some(GeoGeometry::MultiLineString(parse_lines(a.as_slice(), 2))),
            None => None,
        }
    } else if str_equal(t, "Polygon") {
        match member_array(val, "coordinates") {
            Some(a) => Some(GeoGeometry::Polygon(parse_lines(a.as_slice(), 3))),
            None => None,
        }
    } else if str_equal(t, "MultiPolygon") {
        match member_array(val, "coordinates") {
            Some(a) => Some(GeoGeometry::MultiPolygon(parse_polys(a.as_slice()))),
            None => None,
        }
    } else if str_equal(t, "GeometryCollection") {
        match member_array(val, "geometries") {
            Some(gs) => {
                let children = parse_geometry_list(val, gs);
                Some(GeoGeometry::Collection(children))
            },
            None => None,
        }
    } else {
        None
    }
}

/// The geometries among the entries `gs` of a member of `val`.
fn parse_geometry_list<N: Copy>(val: &Json<N>, gs: &Vec<Json<N>>) -> (children: Vec<GeoGeometry<N>>)
    requires
        decreases_to!(*val => *gs),
    ensures
        geom_views(children@) == geoms_of(json_views(gs@)),
    decreases val, 0nat,
{
    proof {
        lemma_json_views(gs@);
    }
    let mut children: Vec<GeoGeometry<N>> = Vec::new();
    let mut i: usize = 0;
    while i < gs.len()
        invariant
            decreases_to!(*val => *gs),
            i <= gs@.len(),
            json_views(gs@).len() == gs@.len(),
            forall|k: int| 0 <= k < gs@.len() ==> #[trigger] json_views(gs@)[k] == json_view(gs@[k]),
            geom_views(children@) == geoms_of(json_views(gs@).subrange(0, i as int)),
        decreases gs@.len() - i,
    {
        let ghost s = json_views(gs@).subrange(0, i as int + 1);
        assert(s.subrange(0, s.len() - 1) =~= json_views(gs@).subrange(0, i as int));
        assert(s[s.len() - 1] == json_view(gs@[i as int]));
        let ghost before = children@;
        proof {
            assert(decreases_to!(*gs => gs[i as int]));
        }
        match parse_geometry(&gs[i]) {
            Some(g) => {
                children.push(g);
                assert(children@.subrange(0, children@.len() - 1) =~= before);
            },
            None => {},
        }
        i = i + 1;
    }
    assert(json_views(gs@).subrange(0, gs@.len() as int) =~= json_views(gs@));
    children
}

// ── Features ─────────────────────────────────────────────────────────────────

/// Why a GeoJSON document was refused.
#[derive(Debug, Clone, Copy, PartialEq, Eq, Structural)]
pub enum GeoError {
    /// A FeatureCollection without a `features` array.
    MissingFeatures,
    /// A top-level GeometryCollection without a `geometries` array.
    MissingGeometries,
}

pub open spec fn geo_error_text(e: GeoError) -> Seq<char> {
    match e {
        GeoError::MissingFeatures => "FeatureCollection missing 'features' array"@,
        GeoError::MissingGeometries => "GeometryCollection missing 'geometries'"@,
    }
}

impl GeoError {
    /// The error's message.
    pub fn message(&self) -> (s: String)
        ensures
            s@ == geo_error_text(*self),
    {
        match self {
            GeoError::MissingFeatures => string_from("FeatureCollection missing 'features' array"),
            GeoError::MissingGeometries => string_from("GeometryCollection missing 'geometries'"),
        }
    }
}

/// A single GeoJSON feature with geometry and properties.
#[verifier::reject_recursive_types(N)]
pub struct GeoFeature<N> {
    pub geometry: GeoGeometry<N>,
    /// Best-effort label: the first non-empty string among the properties
    /// `name`, `Name`, `NAME`, `title`, `label`, `id`; else empty.
    pub name: String,
    pub properties: Vec<(String, Json<N>)>,
}

/// Model of a [`GeoFeature`].
#[verifier::reject_recursive_types(N)]
pub struct FeatV<N> {
    pub geometry: GeomV<N>,
    pub name: Seq<char>,
    pub properties: Seq<(Seq<char>, JsonV<N>)>,
}

pub open spec fn feat_view<N>(f: GeoFeature<N>) -> FeatV<N> {
    FeatV { geometry: geom_view(f.geometry), name: f.name@, properties: member_views(f.properties@) }
}

pub open spec fn feat_views<N>(s: Seq<GeoFeature<N>>) -> Seq<FeatV<N>> {
    s.map_values(|f: GeoFeature<N>| feat_view(f))
}

/// The property keys tried, in order, for a feature's name.
pub open spec fn name_keys() -> Seq<Seq<char>> {
    seq!["name"@, "Name"@, "NAME"@, "title"@, "label"@, "id"@]
}

/// The first key of `keys` whose property is a non-empty string gives the
/// name; none gives the empty name.
pub open spec fn name_from<N>(props: Seq<(Seq<char>, JsonV<N>)>, keys: Seq<Seq<char>>) -> Seq<char>
    decreases keys.len(),
{
    if keys.len() == 0 {
        Seq::empty()
    } else {
        match member(JsonV::Object(props), keys[0]) {
            JsonV::Str(s) => if s.len() > 0 {
                s
            } else {
                name_from(props, keys.subrange(1, keys.len() as int))
            },
            _ => name_from(props, keys.subrange(1, keys.len() as int)),
        }
    }
}

pub open spec fn name_of<N>(props: Seq<(Seq<char>, JsonV<N>)>) -> Seq<char> {
    name_from(props, name_keys())
}

/// The value of property `key` when it is a non-empty string.
pub open spec fn text_property<N>(props: Seq<(Seq<char>, JsonV<N>)>, key: Seq<char>) -> Option<Seq<char>> {
    match member(JsonV::Object(props), key) {
        JsonV::Str(s) => if s.len() > 0 { Some(s) } else { None },
        _ => None,
    }
}

/// A feature is named by the first of its properties `name`, `Name`, `NAME`,
/// `title`, `label`, `id` (in that order) that holds a non-empty string, and
/// has the empty name when none does.
pub proof fn lemma_feature_name_order<N>(props: Seq<(Seq<char>, JsonV<N>)>)
    ensures
        name_of(props) == if text_property(props, "name"@) is Some {
            text_property(props, "name"@)->0
        } else if text_property(props, "Name"@) is Some {
            text_property(props, "Name"@)->0
        } else if text_property(props, "NAME"@) is Some {
            text_property(props, "NAME"@)->0
        } else if text_property(props, "title"@) is Some {
            text_property(props, "title"@)->0
        } else if text_property(props, "label"@) is Some {
            text_property(props, "label"@)->0
        } else if text_property(props, "id"@) is Some {
            text_property(props, "id"@)->0
        } else {
            Seq::empty()
        },
{
    let ks = name_keys();
    let k1 = ks.subrange(1, 6);
    let k2 = k1.subrange(1, 5);
    let k3 = k2.subrange(1, 4);
    let k4 = k3.subrange(1, 3);
    let k5 = k4.subrange(1, 2);
    let k6 = k5.subrange(1, 1);
    assert(k1 =~= seq!["Name"@, "NAME"@, "title"@, "label"@, "id"@]);
    assert(k2 =~= seq!["NAME"@, "title"@, "label"@, "id"@]);
    assert(k3 =~= seq!["title"@, "label"@, "id"@]);
    assert(k4 =~= seq!["label"@, "id"@]);
    assert(k5 =~= seq!["id"@]);
    assert(k6 =~= Seq::<Seq<char>>::empty());
    assert(name_from(props, k6) == Seq::<char>::empty());
    assert(name_from(props, k5) == if text_property(props, "id"@) is Some {
        text_property(props, "id"@)->0
    } else {
        Seq::<char>::empty()
    });
    assert(name_from(props, k4) == if text_property(props, "label"@) is Some {
        text_property(props, "label"@)->0
    } else {
        name_from(props, k5)
    });
    assert(name_from(props, k3) == if text_property(props, "title"@) is Some {
        text_property(props, "title"@)->0
    } else {
        name_from(props, k4)
    });
    assert(name_from(props, k2) == if text_property(props, "NAME"@) is Some {
        text_property(props, "NAME"@)->0
    } else {
        name_from(props, k3)
    });
    assert(name_from(props, k1) == if text_property(props, "Name"@) is Some {
        text_property(props, "Name"@)->0
    } else {
        name_from(props, k2)
    });
    assert(name_from(props, ks) == if text_property(props, "name"@) is Some {
        text_property(props, "name"@)->0
    } else {
        name_from(props, k1)
    });
}

/// `v["type"].as_str().unwrap_or("")`.
pub open spec fn type_of<N>(v: JsonV<N>) -> Seq<char> {
    match member(v, "type"@) {
        JsonV::Str(t) => t,
        _ => Seq::empty(),
    }
}

/// `v["properties"]` when it is an object, else no properties.
pub open spec fn props_of<N>(v: JsonV<N>) -> Seq<(Seq<char>, JsonV<N>)> {
    match member(v, "properties"@) {
        JsonV::Object(ps) => ps,
        _ => Seq::empty(),
    }
}

/// The features a GeoJSON value yields, in document order, together with the
/// error that stopped the walk, if any.  Features found before an error are
/// kept.  `parent` are the properties given to bare geometries.
pub open spec fn features_of<N>(v: JsonV<N>, parent: Seq<(Seq<char>, JsonV<N>)>) -> (
    Seq<FeatV<N>>,
    Option<GeoError>,
)
    decreases v,
{
    let t = type_of(v);
    if t == "FeatureCollection"@ {
        match member(v, "features"@) {
            JsonV::Array(fs) => {
                proof {
                    lemma_member_decreases(v, "features"@);
                }
                features_in(fs, parent)
            },
            _ => (Seq::empty(), Some(GeoError::MissingFeatures)),
        }
    } else if t == "Feature"@ {
        let g = member(v, "geometry"@);
        if g is Null {
            (Seq::empty(), None)
        } else {
            match geometry_of(g) {
                Some(geom) => (
                    seq![FeatV { geometry: geom, name: name_of(props_of(v)), properties: props_of(v) }],
                    None,
                ),
                None => (Seq::empty(), None),
            }
        }
    } else if t == "GeometryCollection"@ {
        match member(v, "geometries"@) {
            JsonV::Array(gs) => if geoms_of(gs).len() > 0 {
                (
                    seq![
                        FeatV {
                            geometry: GeomV::Collection(geoms_of(gs)),
                            name: Seq::empty(),
                            properties: parent,
                        },
                    ],
                    None,
                )
            } else {
                (Seq::empty(), None)
            },
            _ => (Seq::empty(), Some(GeoError::MissingGeometries)),
        }
    } else {
        match geometry_of(v) {
            Some(g) => (seq![FeatV { geometry: g, name: Seq::empty(), properties: parent }], None),
            None => (Seq::empty(), None),
        }
    }
}

/// The features of the entries of an array, walked in order; the first error
/// stops the walk.
pub open spec fn features_in<N>(s: Seq<JsonV<N>>, parent: Seq<(Seq<char>, JsonV<N>)>) -> (
    Seq<FeatV<N>>,
    Option<GeoError>,
)
    decreases s,
{
    if s.len() == 0 {
        (Seq::empty(), None)
    } else {
        let (a, e) = features_in(s.subrange(0, s.len() - 1), parent);
        if e is Some {
            (a, e)
        } else {
            let (b, e2) = features_of(s[s.len() - 1], parent);
            (a + b, e2)
        }
    }
}

/// Once the walk over a prefix has stopped, the walk over the whole stops
/// there too.
proof fn lemma_features_in_stop<N>(s: Seq<JsonV<N>>, k: int, parent: Seq<(Seq<char>, JsonV<N>)>)
    requires
        0 <= k <= s.len(),
        features_in(s.subrange(0, k), parent).1 is Some,
    ensures
        features_in(s, parent) == features_in(s.subrange(0, k), parent),
    decreases s.len(),
{
    if s.len() > k {
        let t = s.subrange(0, s.len() - 1);
        assert(t.subrange(0, k) =~= s.subrange(0, k));
        lemma_features_in_stop(t, k, parent);
    } else {
        assert(s.subrange(0, k) =~= s);
    }
}

/// Extract a human-readable name from a feature's properties.
fn extract_name<N>(props: &Vec<(String, Json<N>)>) -> (name: String)
    ensures
        name@ == name_of(member_views(props@)),
{
    let keys: Vec<&str> = vec!["name", "Name", "NAME", "title", "label", "id"];
    let ghost ks = keys@.map_values(|k: &str| k@);
    assert(ks =~= name_keys());
    assert(ks.subrange(0, 6) =~= ks);
    let ghost pv = member_views(props@);
    let mut k: usize = 0;
    while k < keys.len()
        invariant
            k <= keys@.len(),
            keys@.len() == 6,
            ks == keys@.map_values(|k: &str| k@),
            pv == member_views(props@),
            name_from(pv, ks.subrange(k as int, 6)) == name_of(pv),
            ks =~= name_keys(),
        decreases keys@.len() - k,
    {
        let ghost rest = ks.subrange(k as int, 6);
        assert(rest[0] == keys@[k as int]@);
        assert(rest.subrange(1, rest.len() as int) =~= ks.subrange(k as int + 1, 6));
        match crate::data::json::members_get(props, keys[k]) {
            Some(v) => {
                match v {
                    Json::Str(s) => {
                        if s.as_str().unicode_len() > 0 {
                            return s.clone();
                        }
                    },
                    _ => {},
                }
            },
            None => {
                proof {
                    assert(member(JsonV::Object(pv), rest[0]) == JsonV::<N>::Null);
                }
            },
        }
        k = k + 1;
    }
    assert(ks.subrange(6, 6) =~= Seq::<Seq<char>>::empty());
    String::new()
}

/// Recursively collect the features of a GeoJSON value into `out`.
///
/// `out` gains the features [`features_of`] gives, also when the walk stops
/// on an error, which is then returned.
pub fn collect_features<N: Copy>(
    val: &Json<N>,
    parent_props: &Vec<(String, Json<N>)>,
    out: &mut Vec<GeoFeature<N>>,
) -> (r: Result<(), GeoError>)
    ensures
        feat_views(final(out)@) == feat_views(old(out)@) + features_of(
            json_view(*val),
            member_views(parent_props@),
        ).0,
        match features_of(json_view(*val), member_views(parent_props@)).1 {
            None => r is Ok,
            Some(e) => r == Err::<(), GeoError>(e),
        },
    decreases val, 1nat,
{
    let ghost v = json_view(*val);
    let ghost pv = member_views(parent_props@);
    let ghost out0 = out@;
    let t: &str = match json_member(val, "type") {
        Some(x) => match x {
            Json::Str(s) => s.as_str(),
            _ => "",
        },
        None => "",
    };
    proof {
        reveal_strlit("");
    }
    assert(t@ == type_of(v));
    if str_equal(t, "FeatureCollection") {
        match member_array(val, "features") {
            Some(feats) => collect_feature_list(val, feats, parent_props, out),
            None => Err(GeoError::MissingFeatures),
        }
    } else if str_equal(t, "Feature") {
        let g = match json_member(val, "geometry") {
            Some(g) => g,
            None => {
                return Ok(());
            },
        };
        if let Json::Null = g {
            return Ok(());
        }
        match parse_geometry(g) {
            Some(geom) => {
                let props = match json_member(val, "properties") {
                    Some(p) => match p {
                        Json::Object(ps) => members_clone(ps),
                        _ => Vec::new(),
                    },
                    None => Vec::new(),
                };
                proof {
                    assert(member_views(Seq::<(String, Json<N>)>::empty()) =~= Seq::empty());
                    assert(member_views(props@) == props_of(v));
                }
                let name = extract_name(&props);
                let f = GeoFeature { geometry: geom, name, properties: props };
                let ghost fv = feat_view(f);
                out.push(f);
                assert(feat_views(out@) =~= feat_views(out0) + seq![fv]);
                Ok(())
            },
            None => {
                assert(feat_views(out@) =~= feat_views(out0) + Seq::<FeatV<N>>::empty());
                Ok(())
            },
        }
    } else if str_equal(t, "GeometryCollection") {
        match member_array(val, "geometries") {
            Some(gs) => {
                let children = parse_geometry_list(val, gs);
                if children.len() > 0 {
                    proof {
                        lemma_geom_views(children@);
                    }
                    let f = GeoFeature {
                        geometry: GeoGeometry::Collection(children),
                        name: String::new(),
                        properties: members_clone(parent_props),
                    };
                    let ghost fv = feat_view(f);
                    out.push(f);
                    assert(feat_views(out@) =~= feat_views(out0) + seq![fv]);
                } else {
                    proof {
                        lemma_geom_views(children@);
                    }
                    assert(feat_views(out@) =~= feat_views(out0) + Seq::<FeatV<N>>::empty());
                }
                Ok(())
            },
            None => Err(GeoError::MissingGeometries),
        }
    } else {
        match parse_geometry(val) {
            Some(geom) => {
                let f = GeoFeature {
                    geometry: geom,
                    name: String::new(),
                    properties: members_clone(parent_props),
                };
                let ghost fv = feat_view(f);
                out.push(f);
                assert(feat_views(out@) =~= feat_views(out0) + seq![fv]);
                Ok(())
            },
            None => {
                assert(feat_views(out@) =~= feat_views(out0) + Seq::<FeatV<N>>::empty());
                Ok(())
            },
        }
    }
}

/// Collect the features of the entries `feats` of a member of `val`, in
/// order, stopping at the first error.
fn collect_feature_list<N: Copy>(
    val: &Json<N>,
    feats: &Vec<Json<N>>,
    parent_props: &Vec<(String, Json<N>)>,
    out: &mut Vec<GeoFeature<N>>,
) -> (r: Result<(), GeoError>)
    requires
        decreases_to!(*val => *feats),
    ensures
        feat_views(final(out)@) == feat_views(old(out)@) + features_in(
            json_views(feats@),
            member_views(parent_props@),
        ).0,
        match features_in(json_views(feats@), member_views(parent_props@)).1 {
            None => r is Ok,
            Some(e) => r == Err::<(), GeoError>(e),
        },
    decreases val, 0nat,
{
    proof {
        lemma_json_views(feats@);
    }
    let ghost pv = member_views(parent_props@);
    let ghost fs = json_views(feats@);
    let ghost out0 = out@;
    assert(fs.subrange(0, 0) =~= Seq::<JsonV<N>>::empty());
    assert(feat_views(out@) =~= feat_views(out0) + Seq::<FeatV<N>>::empty());
    let mut k: usize = 0;
    while k < feats.len()
        invariant
            decreases_to!(*val => *feats),
            out0 == old(out)@,
            k <= feats@.len(),
            fs == json_views(feats@),
            pv == member_views(parent_props@),
            fs.len() == feats@.len(),
            forall|i: int| 0 <= i < feats@.len() ==> #[trigger] fs[i] == json_view(feats@[i]),
            feat_views(out@) == feat_views(out0) + features_in(fs.subrange(0, k as int), pv).0,
            features_in(fs.subrange(0, k as int), pv).1 is None,
        decreases feats@.len() - k,
    {
        let ghost s = fs.subrange(0, k as int + 1);
        assert(s.subrange(0, s.len() - 1) =~= fs.subrange(0, k as int));
        assert(s[s.len() - 1] == json_view(feats@[k as int]));
        let ghost mid = out@;
        proof {
            assert(decreases_to!(*feats => feats[k as int]));
        }
        let r = collect_features(&feats[k], parent_props, out);
        assert(feat_views(out@) =~= feat_views(out0) + features_in(s, pv).0);
        match r {
            Ok(()) => {},
            Err(e) => {
                proof {
                    lemma_features_in_stop(fs, k as int + 1, pv);
                    assert(features_in(fs, pv) == features_in(s, pv));
                    assert(json_views(feats@) == fs);
                    assert(member_views(parent_props@) == pv);
                }
                return Err(e);
            },
        }
        k = k + 1;
    }
    assert(fs.subrange(0, feats@.len() as int) =~= fs);
    Ok(())
}

/// An imported GeoJSON file, normalised to a flat feature list.
#[verifier::reject_recursive_types(N)]
pub struct GeoLayer<N> {
    /// Source file name (for display in the status bar).
    pub source: String,
    pub features: Vec<GeoFeature<N>>,
}

impl<N: Copy> GeoLayer<N> {
    /// The layer a parsed GeoJSON document yields, or the error that stopped
    /// the walk.
    pub fn from_json(source: String, val: &Json<N>) -> (r: Result<GeoLayer<N>, GeoError>)
        ensures
            match features_of(json_view(*val), Seq::empty()).1 {
                None => r is Ok && r->Ok_0.source@ == source@ && feat_views(r->Ok_0.features@)
                    == features_of(json_view(*val), Seq::empty()).0,
                Some(e) => r == Err::<GeoLayer<N>, GeoError>(e),
            },
    {
        let mut features: Vec<GeoFeature<N>> = Vec::new();
        let none: Vec<(String, Json<N>)> = Vec::new();
        assert(member_views(none@) =~= Seq::empty());
        assert(feat_views(features@) =~= Seq::empty());
        match collect_features(val, &none, &mut features) {
            Ok(()) => {
                assert(feat_views(features@) =~= features_of(json_view(*val), Seq::empty()).0);
                Ok(GeoLayer { source, features })
            },
            Err(e) => Err(e),
        }
    }
}

// ── Geometry helpers ─────────────────────────────────────────────────────────

/// Consecutive pairs of a point list, closed back to the first point when
/// `close` holds and there are more than two points.
pub open spec fn ring_segs<N>(pts: Seq<Coord<N>>, close: bool) -> Seq<(Coord<N>, Coord<N>)> {
    let w = Seq::new(
        if pts.len() >= 2 { (pts.len() - 1) as nat } else { 0nat },
        |i: int| (pts[i], pts[i + 1]),
    );
    if close && pts.len() > 2 {
        w.push((pts[pts.len() - 1], pts[0]))
    } else {
        w
    }
}

/// The segments of a list of point lists.
pub open spec fn rings_segs<N>(rs: Seq<Seq<Coord<N>>>, close: bool) -> Seq<(Coord<N>, Coord<N>)> {
    rs.flat_map(|r: Seq<Coord<N>>| ring_segs(r, close))
}

/// The segments of a geometry: lines open, polygon rings closed, points none.
pub open spec fn geom_segments<N>(g: GeomV<N>) -> Seq<(Coord<N>, Coord<N>)>
    decreases g,
{
    match g {
        GeomV::LineString(p) => ring_segs(p, false),
        GeomV::MultiLineString(ls) => rings_segs(ls, false),
        GeomV::Polygon(rs) => rings_segs(rs, true),
        GeomV::MultiPolygon(ps) => ps.flat_map(|p: Seq<Seq<Coord<N>>>| rings_segs(p, true)),
        GeomV::Collection(cs) => geoms_segments(cs),
        _ => Seq::empty(),
    }
}

/// The segments of a sequence of geometries, in order.
pub open spec fn geoms_segments<N>(s: Seq<GeomV<N>>) -> Seq<(Coord<N>, Coord<N>)>
    decreases s,
{
    if s.len() == 0 {
        Seq::empty()
    } else {
        geoms_segments(s.subrange(0, s.len() - 1)) + geom_segments(s[s.len() - 1])
    }
}

/// The points of a geometry: points and multi-points, also inside
/// collections.
pub open spec fn geom_points<N>(g: GeomV<N>) -> Seq<Coord<N>>
    decreases g,
{
    match g {
        GeomV::Point(c) => seq![c],
        GeomV::MultiPoint(v) => v,
        GeomV::Collection(cs) => geoms_points(cs),
        _ => Seq::empty(),
    }
}

/// The points of a sequence of geometries, in order.
pub open spec fn geoms_points<N>(s: Seq<GeomV<N>>) -> Seq<Coord<N>>
    decreases s,
{
    if s.len() == 0 {
        Seq::empty()
    } else {
        geoms_points(s.subrange(0, s.len() - 1)) + geom_points(s[s.len() - 1])
    }
}

/// Append the segments of one point list to `out`.
fn push_ring_segs<N: Copy>(out: &mut Vec<(Coord<N>, Coord<N>)>, pts: &[Coord<N>], close: bool)
    ensures
        final(out)@ == old(out)@ + ring_segs(pts@, close),
{
    let ghost out0 = out@;
    let ghost n = pts@.len();
    let mut i: usize = 1;
    while i < pts.len()
        invariant
            1 <= i,
            i <= n || (n == 0 && i == 1),
            n == pts@.len(),
            out0 == old(out)@,
            out@ == out0 + Seq::new((i - 1) as nat, |j: int| (pts@[j], pts@[j + 1])),
        decreases n - i,
    {
        let ghost before = out@;
        out.push((pts[i - 1], pts[i]));
        assert(Seq::new(i as nat, |j: int| (pts@[j], pts@[j + 1])) =~= Seq::new(
            (i - 1) as nat,
            |j: int| (pts@[j], pts@[j + 1]),
        ).push((pts@[i - 1], pts@[i as int])));
        assert(out@ =~= out0 + Seq::new(i as nat, |j: int| (pts@[j], pts@[j + 1])));
        i = i + 1;
    }
    let ghost w = Seq::new(
        if n >= 2 { (n - 1) as nat } else { 0nat },
        |j: int| (pts@[j], pts@[j + 1]),
    );
    assert(((i - 1) as nat) == (if n >= 2 { (n - 1) as nat } else { 0nat }));
    assert(Seq::new((i - 1) as nat, |j: int| (pts@[j], pts@[j + 1])) =~= w);
    assert(out@ =~= out0 + w);
    if close && pts.len() > 2 {
        out.push((pts[pts.len() - 1], pts[0]));
        assert(out@ =~= out0 + w.push((pts@[n - 1], pts@[0])));
    }
}

/// Append the segments of each point list of `rings` to `out`.
fn push_rings_segs<N: Copy>(out: &mut Vec<(Coord<N>, Coord<N>)>, rings: &Vec<Vec<Coord<N>>>, close: bool)
    ensures
        final(out)@ == old(out)@ + rings_segs(line_views(rings@), close),
{
    let ghost out0 = out@;
    let ghost rv = line_views(rings@);
    let ghost f = |r: Seq<Coord<N>>| ring_segs(r, close);
    assert(rv.subrange(0, 0) =~= Seq::<Seq<Coord<N>>>::empty());
    assert(out@ =~= out0 + rv.subrange(0, 0).flat_map(f));
    let mut i: usize = 0;
    while i < rings.len()
        invariant
            i <= rings@.len(),
            rv == line_views(rings@),
            out0 == old(out)@,
            f == (|r: Seq<Coord<N>>| ring_segs(r, close)),
            out@ == out0 + rv.subrange(0, i as int).flat_map(f),
        decreases rings@.len() - i,
    {
        push_ring_segs(out, rings[i].as_slice(), close);
        proof {
            assert(rv.subrange(0, i as int + 1) =~= rv.subrange(0, i as int).push(rings@[i as int]@));
            rv.subrange(0, i as int).lemma_flat_map_push(f, rings@[i as int]@);
        }
        assert(out@ =~= out0 + rv.subrange(0, i as int + 1).flat_map(f));
        i = i + 1;
    }
    assert(rv.subrange(0, rings@.len() as int) =~= rv);
}

/// All segments of a geometry.
fn geometry_segments<N: Copy>(g: &GeoGeometry<N>) -> (out: Vec<(Coord<N>, Coord<N>)>)
    ensures
        out@ == geom_segments(geom_view(*g)),
    decreases g,
{
    let mut out: Vec<(Coord<N>, Coord<N>)> = Vec::new();
    match g {
        GeoGeometry::LineString(pts) => {
            push_ring_segs(&mut out, pts.as_slice(), false);
        },
        GeoGeometry::MultiLineString(lines) => {
            push_rings_segs(&mut out, lines, false);
        },
        GeoGeometry::Polygon(rings) => {
            push_rings_segs(&mut out, rings, true);
        },
        GeoGeometry::MultiPolygon(polys) => {
            let ghost pv = poly_views(polys@);
            let ghost f = |p: Seq<Seq<Coord<N>>>| rings_segs(p, true);
            assert(pv.subrange(0, 0) =~= Seq::<Seq<Seq<Coord<N>>>>::empty());
            assert(out@ =~= pv.subrange(0, 0).flat_map(f));
            let mut i: usize = 0;
            while i < polys.len()
                invariant
                    i <= polys@.len(),
                    pv == poly_views(polys@),
                    f == (|p: Seq<Seq<Coord<N>>>| rings_segs(p, true)),
                    out@ == pv.subrange(0, i as int).flat_map(f),
                decreases polys@.len() - i,
            {
                push_rings_segs(&mut out, &polys[i], true);
                proof {
                    assert(pv.subrange(0, i as int + 1) =~= pv.subrange(0, i as int).push(
                        line_views(polys@[i as int]@),
                    ));
                    pv.subrange(0, i as int).lemma_flat_map_push(f, line_views(polys@[i as int]@));
                }
                assert(out@ =~= pv.subrange(0, i as int + 1).flat_map(f));
                i = i + 1;
            }
            assert(pv.subrange(0, polys@.len() as int) =~= pv);
        },
        GeoGeometry::Collection(children) => {
            proof {
                lemma_geom_views(children@);
            }
            let ghost cv = geom_views(children@);
            let mut i: usize = 0;
            assert(cv.subrange(0, 0) =~= Seq::<GeomV<N>>::empty());
            while i < children.len()
                invariant
                    *g == GeoGeometry::Collection(*children),
                    i <= children@.len(),
                    cv == geom_views(children@),
                    cv.len() == children@.len(),
                    forall|k: int| 0 <= k < children@.len() ==> #[trigger] cv[k] == geom_view(children@[k]),
                    out@ == geoms_segments(cv.subrange(0, i as int)),
                decreases children@.len() - i,
            {
                proof {
                    assert(decreases_to!(*g => (*g)->Collection_0));
                    assert(decreases_to!(*children => children[i as int]));
                }
                let mut part = geometry_segments(&children[i]);
                let ghost s = cv.subrange(0, i as int + 1);
                assert(s.subrange(0, s.len() - 1) =~= cv.subrange(0, i as int));
                out.append(&mut part);
                i = i + 1;
            }
            assert(cv.subrange(0, children@.len() as int) =~= cv);
        },
        _ => {},
    }
    out
}

/// All points of a geometry.
fn geometry_points<N: Copy>(g: &GeoGeometry<N>) -> (out: Vec<Coord<N>>)
    ensures
        out@ == geom_points(geom_view(*g)),
    decreases g,
{
    let mut out: Vec<Coord<N>> = Vec::new();
    match g {
        GeoGeometry::Point(c) => {
            out.push(*c);
            assert(out@ =~= seq![*c]);
        },
        GeoGeometry::MultiPoint(v) => {
            let mut i: usize = 0;
            while i < v.len()
                invariant
                    i <= v@.len(),
                    out@ == v@.subrange(0, i as int),
                decreases v@.len() - i,
            {
                out.push(v[i]);
                assert(out@ =~= v@.subrange(0, i as int + 1));
                i = i + 1;
            }
            assert(v@.subrange(0, v@.len() as int) =~= v@);
        },
        GeoGeometry::Collection(children) => {
            proof {
                lemma_geom_views(children@);
            }
            let ghost cv = geom_views(children@);
            let mut i: usize = 0;
            assert(cv.subrange(0, 0) =~= Seq::<GeomV<N>>::empty());
            while i < children.len()
                invariant
                    *g == GeoGeometry::Collection(*children),
                    i <= children@.len(),
                    cv == geom_views(children@),
                    cv.len() == children@.len(),
                    forall|k: int| 0 <= k < children@.len() ==> #[trigger] cv[k] == geom_view(children@[k]),
                    out@ == geoms_points(cv.subrange(0, i as int)),
                decreases children@.len() - i,
            {
                proof {
                    assert(decreases_to!(*g => (*g)->Collection_0));
                    assert(decreases_to!(*children => children[i as int]));
                }
                let mut part = geometry_points(&children[i]);
                let ghost s = cv.subrange(0, i as int + 1);
                assert(s.subrange(0, s.len() - 1) =~= cv.subrange(0, i as int));
                out.append(&mut part);
                i = i + 1;
            }
            assert(cv.subrange(0, children@.len() as int) =~= cv);
        },
        _ => {},
    }
    out
}

// ── Layer queries ────────────────────────────────────────────────────────────

/// Point-like geometries: Point and MultiPoint.
pub open spec fn point_like<N>(g: GeoGeometry<N>) -> bool {
    g is Point || g is MultiPoint
}

/// Line-like geometries: LineString and MultiLineString.
pub open spec fn line_like<N>(g: GeoGeometry<N>) -> bool {
    g is LineString || g is MultiLineString
}

/// Polygon geometries: Polygon and MultiPolygon.
pub open spec fn polygon_like<N>(g: GeoGeometry<N>) -> bool {
    g is Polygon || g is MultiPolygon
}

/// The three families of geometry a layer is queried by.
enum Family {
    Points,
    Lines,
    Polygons,
}

spec fn in_family<N>(g: GeoGeometry<N>, fam: Family) -> bool {
    match fam {
        Family::Points => point_like(g),
        Family::Lines => line_like(g),
        Family::Polygons => polygon_like(g),
    }
}

/// The segments of all features, in order.
pub open spec fn layer_segments<N>(fs: Seq<GeoFeature<N>>) -> Seq<(Coord<N>, Coord<N>)> {
    fs.flat_map(|f: GeoFeature<N>| geom_segments(geom_view(f.geometry)))
}

/// The points of all features, in order.
pub open spec fn layer_points<N>(fs: Seq<GeoFeature<N>>) -> Seq<Coord<N>> {
    fs.flat_map(|f: GeoFeature<N>| geom_points(geom_view(f.geometry)))
}

/// The marker label of a feature: its name, or `GeoJSON` when it has none.
pub open spec fn marker_label<N>(f: GeoFeature<N>) -> Seq<char> {
    if f.name@.len() == 0 {
        "GeoJSON"@
    } else {
        f.name@
    }
}

/// The markers a feature gives, as `(lat, lon, label)`: one per point of a
/// Point or MultiPoint geometry, none for the others.
pub open spec fn feature_markers<N>(f: GeoFeature<N>) -> Seq<(N, N, Seq<char>)> {
    match f.geometry {
        GeoGeometry::Point(c) => seq![(c.1, c.0, marker_label(f))],
        GeoGeometry::MultiPoint(v) => v@.map_values(|c: Coord<N>| (c.1, c.0, marker_label(f))),
        _ => Seq::empty(),
    }
}

pub open spec fn marker_views<N>(ms: Seq<(N, N, String)>) -> Seq<(N, N, Seq<char>)> {
    ms.map_values(|m: (N, N, String)| (m.0, m.1, m.2@))
}

impl<N: Copy> GeoLayer<N> {
    fn select(&self, fam: Family) -> (r: Vec<&GeoFeature<N>>)
        ensures
            r@.map_values(|f: &GeoFeature<N>| *f) == self.features@.filter(
                |f: GeoFeature<N>| in_family(f.geometry, fam),
            ),
    {
        let ghost p = |f: GeoFeature<N>| in_family(f.geometry, fam);
        let mut r: Vec<&GeoFeature<N>> = Vec::new();
        let mut i: usize = 0;
        proof {
            reveal(Seq::filter);
            assert(self.features@.subrange(0, 0) =~= Seq::<GeoFeature<N>>::empty());
            assert(r@.map_values(|f: &GeoFeature<N>| *f) =~= Seq::<GeoFeature<N>>::empty());
        }
        while i < self.features.len()
            invariant
                i <= self.features@.len(),
                p == (|f: GeoFeature<N>| in_family(f.geometry, fam)),
                r@.map_values(|f: &GeoFeature<N>| *f) == self.features@.subrange(0, i as int).filter(p),
            decreases self.features@.len() - i,
        {
            let f = &self.features[i];
            proof {
                assert(self.features@.subrange(0, i as int + 1) =~= self.features@.subrange(
                    0,
                    i as int,
                ).push(*f));
                self.features@.subrange(0, i as int).lemma_filter_push(*f, p);
            }
            let ghost before = r@;
            let keep = match fam {
                Family::Points => match &f.geometry {
                    GeoGeometry::Point(_) | GeoGeometry::MultiPoint(_) => true,
                    _ => false,
                },
                Family::Lines => match &f.geometry {
                    GeoGeometry::LineString(_) | GeoGeometry::MultiLineString(_) => true,
                    _ => false,
                },
                Family::Polygons => match &f.geometry {
                    GeoGeometry::Polygon(_) | GeoGeometry::MultiPolygon(_) => true,
                    _ => false,
                },
            };
            if keep {
                r.push(f);
                assert(r@.map_values(|f: &GeoFeature<N>| *f) =~= before.map_values(
                    |f: &GeoFeature<N>| *f,
                ).push(*f));
            }
            i = i + 1;
        }
        assert(self.features@.subrange(0, self.features@.len() as int) =~= self.features@);
        r
    }

    /// The point-like features (Point and MultiPoint), in order.
    pub fn points(&self) -> (r: Vec<&GeoFeature<N>>)
        ensures
            r@.map_values(|f: &GeoFeature<N>| *f) == self.features@.filter(
                |f: GeoFeature<N>| point_like(f.geometry),
            ),
    {
        let r = self.select(Family::Points);
        assert((|f: GeoFeature<N>| in_family(f.geometry, Family::Points)) =~= (|f: GeoFeature<N>|
            point_like(f.geometry)));
        r
    }

    /// The line-like features (LineString and MultiLineString), in order.
    pub fn lines(&self) -> (r: Vec<&GeoFeature<N>>)
        ensures
            r@.map_values(|f: &GeoFeature<N>| *f) == self.features@.filter(
                |f: GeoFeature<N>| line_like(f.geometry),
            ),
    {
        let r = self.select(Family::Lines);
        assert((|f: GeoFeature<N>| in_family(f.geometry, Family::Lines)) =~= (|f: GeoFeature<N>|
            line_like(f.geometry)));
        r
    }

    /// The polygon features (Polygon and MultiPolygon), in order.
    pub fn polygons(&self) -> (r: Vec<&GeoFeature<N>>)
        ensures
            r@.map_values(|f: &GeoFeature<N>| *f) == self.features@.filter(
                |f: GeoFeature<N>| polygon_like(f.geometry),
            ),
    {
        let r = self.select(Family::Polygons);
        assert((|f: GeoFeature<N>| in_family(f.geometry, Family::Polygons)) =~= (|f: GeoFeature<N>|
            polygon_like(f.geometry)));
        r
    }

    /// All line segments of all LineString, MultiLineString, Polygon and
    /// MultiPolygon geometries (also inside collections), as pairs of points.
    pub fn segments(&self) -> (r: Vec<(Coord<N>, Coord<N>)>)
        ensures
            r@ == layer_segments(self.features@),
    {
        let ghost f = |f: GeoFeature<N>| geom_segments(geom_view(f.geometry));
        let mut r: Vec<(Coord<N>, Coord<N>)> = Vec::new();
        let mut i: usize = 0;
        assert(self.features@.subrange(0, 0) =~= Seq::<GeoFeature<N>>::empty());
        assert(r@ =~= self.features@.subrange(0, 0).flat_map(f));
        while i < self.features.len()
            invariant
                i <= self.features@.len(),
                f == (|f: GeoFeature<N>| geom_segments(geom_view(f.geometry))),
                r@ == self.features@.subrange(0, i as int).flat_map(f),
            decreases self.features@.len() - i,
        {
            let mut part = geometry_segments(&self.features[i].geometry);
            proof {
                assert(self.features@.subrange(0, i as int + 1) =~= self.features@.subrange(
                    0,
                    i as int,
                ).push(self.features@[i as int]));
                self.features@.subrange(0, i as int).lemma_flat_map_push(f, self.features@[i as int]);
            }
            r.append(&mut part);
            i = i + 1;
        }
        assert(self.features@.subrange(0, self.features@.len() as int) =~= self.features@);
        r
    }

    /// All individual points of all point-like geometries (also inside
    /// collections).
    pub fn all_point_coords(&self) -> (r: Vec<Coord<N>>)
        ensures
            r@ == layer_points(self.features@),
    {
        let ghost f = |f: GeoFeature<N>| geom_points(geom_view(f.geometry));
        let mut r: Vec<Coord<N>> = Vec::new();
        let mut i: usize = 0;
        assert(self.features@.subrange(0, 0) =~= Seq::<GeoFeature<N>>::empty());
        assert(r@ =~= self.features@.subrange(0, 0).flat_map(f));
        while i < self.features.len()
            invariant
                i <= self.features@.len(),
                f == (|f: GeoFeature<N>| geom_points(geom_view(f.geometry))),
                r@ == self.features@.subrange(0, i as int).flat_map(f),
            decreases self.features@.len() - i,
        {
            let mut part = geometry_points(&self.features[i].geometry);
            proof {
                assert(self.features@.subrange(0, i as int + 1) =~= self.features@.subrange(
                    0,
                    i as int,
                ).push(self.features@[i as int]));
                self.features@.subrange(0, i as int).lemma_flat_map_push(f, self.features@[i as int]);
            }
            r.append(&mut part);
            i = i + 1;
        }
        assert(self.features@.subrange(0, self.features@.len() as int) =~= self.features@);
        r
    }

    /// The markers that importing the point features gives, as
    /// `(lat, lon, label)`: one per point of each top-level Point or
    /// MultiPoint feature, labelled with the feature's name or `GeoJSON`.
    pub fn point_markers(&self) -> (r: Vec<(N, N, String)>)
        ensures
            marker_views(r@) == self.features@.flat_map(|f: GeoFeature<N>| feature_markers(f)),
    {
        let ghost fm = |f: GeoFeature<N>| feature_markers(f);
        let mut r: Vec<(N, N, String)> = Vec::new();
        let mut i: usize = 0;
        assert(self.features@.subrange(0, 0) =~= Seq::<GeoFeature<N>>::empty());
        assert(marker_views(r@) =~= self.features@.subrange(0, 0).flat_map(fm));
        while i < self.features.len()
            invariant
                i <= self.features@.len(),
                fm == (|f: GeoFeature<N>| feature_markers(f)),
                marker_views(r@) == self.features@.subrange(0, i as int).flat_map(fm),
            decreases self.features@.len() - i,
        {
            let feat = &self.features[i];
            let ghost before = marker_views(r@);
            let label: String = if feat.name.as_str().unicode_len() == 0 {
                string_from("GeoJSON")
            } else {
                feat.name.clone()
            };
            assert(label@ == marker_label(*feat));
            match &feat.geometry {
                GeoGeometry::Point(c) => {
                    r.push((c.1, c.0, label));
                    assert(marker_views(r@) =~= before + feature_markers(*feat));
                },
                GeoGeometry::MultiPoint(pts) => {
                    let mut j: usize = 0;
                    while j < pts.len()
                        invariant
                            j <= pts@.len(),
                            label@ == marker_label(*feat),
                            feat.geometry == GeoGeometry::MultiPoint(*pts),
                            marker_views(r@) == before + pts@.subrange(0, j as int).map_values(
                                |c: Coord<N>| (c.1, c.0, marker_label(*feat)),
                            ),
                        decreases pts@.len() - j,
                    {
                        let ghost mid = r@;
                        r.push((pts[j].1, pts[j].0, label.clone()));
                        assert(marker_views(r@) =~= marker_views(mid).push(
                            (pts@[j as int].1, pts@[j as int].0, marker_label(*feat)),
                        ));
                        assert(pts@.subrange(0, j as int + 1).map_values(
                            |c: Coord<N>| (c.1, c.0, marker_label(*feat)),
                        ) =~= pts@.subrange(0, j as int).map_values(
                            |c: Coord<N>| (c.1, c.0, marker_label(*feat)),
                        ).push((pts@[j as int].1, pts@[j as int].0, marker_label(*feat))));
                        assert(marker_views(r@) =~= before + pts@.subrange(0, j as int + 1).map_values(
                            |c: Coord<N>| (c.1, c.0, marker_label(*feat)),
                        ));
                        j = j + 1;
                    }
                    assert(pts@.subrange(0, pts@.len() as int) =~= pts@);
                },
                _ => {
                    assert(marker_views(r@) =~= before + feature_markers(*feat));
                },
            }
            proof {
                assert(self.features@.subrange(0, i as int + 1) =~= self.features@.subrange(
                    0,
                    i as int,
                ).push(*feat));
                self.features@.subrange(0, i as int).lemma_flat_map_push(fm, *feat);
            }
            i = i + 1;
        }
        assert(self.features@.subrange(0, self.features@.len() as int) =~= self.features@);
        r
    }
}


/// Neither point-like nor polygon: lines and collections.
pub open spec fn other_like<N>(g: GeoGeometry<N>) -> bool {
    !point_like(g) && !polygon_like(g)
}

/// The sub-layers a split gives: the point features, then the line and other
/// features, then the polygon features, each in order and only when there
/// are any; each keeps the source.
pub open spec fn split_groups<N>(fs: Seq<GeoFeature<N>>) -> Seq<Seq<GeoFeature<N>>> {
    let pts = fs.filter(|f: GeoFeature<N>| point_like(f.geometry));
    let oth = fs.filter(|f: GeoFeature<N>| other_like(f.geometry));
    let pol = fs.filter(|f: GeoFeature<N>| polygon_like(f.geometry));
    let a = if pts.len() > 0 { seq![pts] } else { Seq::empty() };
    let b = if oth.len() > 0 { a.push(oth) } else { a };
    if pol.len() > 0 { b.push(pol) } else { b }
}

impl<N: Copy> GeoLayer<N> {
    /// Split the layer into one sub-layer per kind of geometry: points,
    /// lines (and anything else), polygons; empty kinds give no sub-layer.
    pub fn split_by_geometry_type(self) -> (r: Vec<GeoLayer<N>>)
        ensures
            r@.len() == split_groups(self.features@).len(),
            forall|k: int|
                0 <= k < r@.len() ==> #[trigger] r@[k].features@ == split_groups(self.features@)[k]
                    && r@[k].source@ == self.source@,
    {
        let ghost fs = self.features@;
        let ghost pp = |f: GeoFeature<N>| point_like(f.geometry);
        let ghost po = |f: GeoFeature<N>| other_like(f.geometry);
        let ghost pg = |f: GeoFeature<N>| polygon_like(f.geometry);
        let GeoLayer { source, mut features } = self;
        let mut pts: Vec<GeoFeature<N>> = Vec::new();
        let mut oth: Vec<GeoFeature<N>> = Vec::new();
        let mut pol: Vec<GeoFeature<N>> = Vec::new();
        let mut i: usize = 0;
        let n = features.len();
        proof {
            reveal(Seq::filter);
            assert(fs.subrange(0, 0) =~= Seq::<GeoFeature<N>>::empty());
        }
        while features.len() > 0
            invariant
                fs.len() == n,
                fs.len() == i + features@.len(),
                features@ == fs.subrange(i as int, fs.len() as int),
                pp == (|f: GeoFeature<N>| point_like(f.geometry)),
                po == (|f: GeoFeature<N>| other_like(f.geometry)),
                pg == (|f: GeoFeature<N>| polygon_like(f.geometry)),
                pts@ == fs.subrange(0, i as int).filter(pp),
                oth@ == fs.subrange(0, i as int).filter(po),
                pol@ == fs.subrange(0, i as int).filter(pg),
            decreases features@.len(),
        {
            let f = features.remove(0);
            proof {
                assert(f == fs[i as int]);
                assert(fs.subrange(0, i as int + 1) =~= fs.subrange(0, i as int).push(f));
                fs.subrange(0, i as int).lemma_filter_push(f, pp);
                fs.subrange(0, i as int).lemma_filter_push(f, po);
                fs.subrange(0, i as int).lemma_filter_push(f, pg);
                assert(features@ =~= fs.subrange(i as int + 1, fs.len() as int));
            }
            let kind: u8 = match &f.geometry {
                GeoGeometry::Point(_) | GeoGeometry::MultiPoint(_) => 0,
                GeoGeometry::Polygon(_) | GeoGeometry::MultiPolygon(_) => 2,
                _ => 1,
            };
            if kind == 0 {
                pts.push(f);
            } else if kind == 1 {
                oth.push(f);
            } else {
                pol.push(f);
            }
            i = i + 1;
        }
        assert(fs.subrange(0, fs.len() as int) =~= fs);
        let ghost a = if pts@.len() > 0 { seq![pts@] } else { Seq::empty() };
        let ghost b = if oth@.len() > 0 { a.push(oth@) } else { a };
        let mut r: Vec<GeoLayer<N>> = Vec::new();
        if pts.len() > 0 {
            r.push(GeoLayer { source: source.clone(), features: pts });
        }
        if oth.len() > 0 {
            r.push(GeoLayer { source: source.clone(), features: oth });
        }
        if pol.len() > 0 {
            r.push(GeoLayer { source: source.clone(), features: pol });
        }
        r
    }
}


/// What a sub-layer holds, by name: `Points` when every feature is a point
/// or multipoint, `Polygons` when every one is a polygon or multipolygon,
/// `Lines` otherwise.
pub open spec fn family_name<N>(fs: Seq<GeoFeature<N>>) -> Seq<char> {
    if forall|i: int| 0 <= i < fs.len() ==> point_like(#[trigger] fs[i].geometry) {
        "Points"@
    } else if forall|i: int| 0 <= i < fs.len() ==> polygon_like(#[trigger] fs[i].geometry) {
        "Polygons"@
    } else {
        "Lines"@
    }
}

impl<N: Copy> GeoLayer<N> {
    /// The name of what the layer holds: points, polygons or lines.
    pub fn family_label(&self) -> (s: &'static str)
        ensures
            s@ == family_name(self.features@),
    {
        let mut all_points = true;
        let mut all_polygons = true;
        let mut i: usize = 0;
        while i < self.features.len()
            invariant
                i <= self.features@.len(),
                all_points == forall|k: int| 0 <= k < i ==> point_like(#[trigger] self.features@[k].geometry),
                all_polygons == forall|k: int|
                    0 <= k < i ==> polygon_like(#[trigger] self.features@[k].geometry),
            decreases self.features@.len() - i,
        {
            match &self.features[i].geometry {
                GeoGeometry::Point(_) | GeoGeometry::MultiPoint(_) => {
                    all_polygons = false;
                },
                GeoGeometry::Polygon(_) | GeoGeometry::MultiPolygon(_) => {
                    all_points = false;
                },
                _ => {
                    all_points = false;
                    all_polygons = false;
                },
            }
            i = i + 1;
        }
        if all_points {
            "Points"
        } else if all_polygons {
            "Polygons"
        } else {
            "Lines"
        }
    }
}

// ── Layer summary ────────────────────────────────────────────────────────────

/// How many features of a layer have each kind of geometry.
#[derive(Debug, Clone, Copy, PartialEq, Eq, Structural)]
pub struct KindCounts {
    pub points: usize,
    pub multi_points: usize,
    pub line_strings: usize,
    pub multi_line_strings: usize,
    pub polygons: usize,
    pub multi_polygons: usize,
    pub collections: usize,
}

/// Kind of a geometry: 0 Point, 1 MultiPoint, 2 LineString,
/// 3 MultiLineString, 4 Polygon, 5 MultiPolygon, 6 Collection.
pub open spec fn geometry_kind<N>(g: GeoGeometry<N>) -> int {
    match g {
        GeoGeometry::Point(_) => 0,
        GeoGeometry::MultiPoint(_) => 1,
        GeoGeometry::LineString(_) => 2,
        GeoGeometry::MultiLineString(_) => 3,
        GeoGeometry::Polygon(_) => 4,
        GeoGeometry::MultiPolygon(_) => 5,
        GeoGeometry::Collection(_) => 6,
    }
}

/// Number of the features whose geometry is of kind `k`.
pub open spec fn count_kind<N>(fs: Seq<GeoFeature<N>>, k: int) -> nat {
    fs.filter(|f: GeoFeature<N>| geometry_kind(f.geometry) == k).len()
}

/// The property keys of the features, each once, in order of first
/// appearance.
pub open spec fn distinct_keys(ks: Seq<Seq<char>>) -> Seq<Seq<char>>
    decreases ks.len(),
{
    if ks.len() == 0 {
        Seq::empty()
    } else {
        let d = distinct_keys(ks.drop_last());
        if d.contains(ks.last()) { d } else { d.push(ks.last()) }
    }
}

/// The property keys of the features, in order, repeats included.
pub open spec fn all_property_keys<N>(fs: Seq<GeoFeature<N>>) -> Seq<Seq<char>> {
    fs.flat_map(|f: GeoFeature<N>| f.properties@.map_values(|p: (String, Json<N>)| p.0@))
}

impl<N: Copy> GeoLayer<N> {
    /// How many features have each kind of geometry.
    pub fn kind_counts(&self) -> (c: KindCounts)
        ensures
            c.points == count_kind(self.features@, 0),
            c.multi_points == count_kind(self.features@, 1),
            c.line_strings == count_kind(self.features@, 2),
            c.multi_line_strings == count_kind(self.features@, 3),
            c.polygons == count_kind(self.features@, 4),
            c.multi_polygons == count_kind(self.features@, 5),
            c.collections == count_kind(self.features@, 6),
    {
        let mut c = KindCounts {
            points: 0,
            multi_points: 0,
            line_strings: 0,
            multi_line_strings: 0,
            polygons: 0,
            multi_polygons: 0,
            collections: 0,
        };
        let ghost fs = self.features@;
        let mut i: usize = 0;
        proof {
            reveal(Seq::filter);
            assert(fs.subrange(0, 0) =~= Seq::<GeoFeature<N>>::empty());
        }
        while i < self.features.len()
            invariant
                i <= fs.len(),
                fs == self.features@,
                c.points == count_kind(fs.subrange(0, i as int), 0),
                c.multi_points == count_kind(fs.subrange(0, i as int), 1),
                c.line_strings == count_kind(fs.subrange(0, i as int), 2),
                c.multi_line_strings == count_kind(fs.subrange(0, i as int), 3),
                c.polygons == count_kind(fs.subrange(0, i as int), 4),
                c.multi_polygons == count_kind(fs.subrange(0, i as int), 5),
                c.collections == count_kind(fs.subrange(0, i as int), 6),
                forall|k: int| 0 <= k <= 6 ==> #[trigger] count_kind(fs.subrange(0, i as int), k) <= i,
            decreases fs.len() - i,
        {
            let f = &self.features[i];
            proof {
                assert(fs.subrange(0, i as int + 1) =~= fs.subrange(0, i as int).push(*f));
                assert forall|k: int| 0 <= k <= 6 implies count_kind(fs.subrange(0, i as int + 1), k)
                    == count_kind(fs.subrange(0, i as int), k) + if geometry_kind(f.geometry) == k {
                    1int
                } else {
                    0int
                } by {
                    fs.subrange(0, i as int).lemma_filter_push(
                        *f,
                        |g: GeoFeature<N>| geometry_kind(g.geometry) == k,
                    );
                }
            }
            match &f.geometry {
                GeoGeometry::Point(_) => c.points = c.points + 1,
                GeoGeometry::MultiPoint(_) => c.multi_points = c.multi_points + 1,
                GeoGeometry::LineString(_) => c.line_strings = c.line_strings + 1,
                GeoGeometry::MultiLineString(_) => c.multi_line_strings = c.multi_line_strings + 1,
                GeoGeometry::Polygon(_) => c.polygons = c.polygons + 1,
                GeoGeometry::MultiPolygon(_) => c.multi_polygons = c.multi_polygons + 1,
                GeoGeometry::Collection(_) => c.collections = c.collections + 1,
            }
            i = i + 1;
        }
        assert(fs.subrange(0, fs.len() as int) =~= fs);
        c
    }

    /// The property keys of all features, each once, in order of first
    /// appearance.
    pub fn property_keys(&self) -> (keys: Vec<String>)
        ensures
            keys@.map_values(|k: String| k@) == distinct_keys(all_property_keys(self.features@)),
    {
        let ghost fs = self.features@;
        let ghost fk = |f: GeoFeature<N>| f.properties@.map_values(|p: (String, Json<N>)| p.0@);
        let mut keys: Vec<String> = Vec::new();
        let ghost mut seen: Seq<Seq<char>> = Seq::empty();
        let mut i: usize = 0;
        assert(fs.subrange(0, 0) =~= Seq::<GeoFeature<N>>::empty());
        assert(fs.subrange(0, 0).flat_map(fk) =~= Seq::<Seq<char>>::empty());
        while i < self.features.len()
            invariant
                i <= fs.len(),
                fs == self.features@,
                fk == (|f: GeoFeature<N>| f.properties@.map_values(|p: (String, Json<N>)| p.0@)),
                seen == fs.subrange(0, i as int).flat_map(fk),
                keys@.map_values(|k: String| k@) == distinct_keys(seen),
            decreases fs.len() - i,
        {
            let props = &self.features[i].properties;
            let ghost before = seen;
            let mut j: usize = 0;
            while j < props.len()
                invariant
                    j <= props@.len(),
                    seen == before + props@.subrange(0, j as int).map_values(
                        |p: (String, Json<N>)| p.0@,
                    ),
                    keys@.map_values(|k: String| k@) == distinct_keys(seen),
                decreases props@.len() - j,
            {
                let k = &props[j].0;
                let ghost seen2 = seen.push(k@);
                proof {
                    assert(seen2.drop_last() =~= seen);
                    assert(seen2 =~= before + props@.subrange(0, j as int + 1).map_values(
                        |p: (String, Json<N>)| p.0@,
                    ));
                }
                if !contains_string(&keys, k.as_str()) {
                    let ghost kv = keys@;
                    keys.push(k.clone());
                    assert(keys@.map_values(|k: String| k@) =~= kv.map_values(|k: String| k@).push(
                        k@,
                    ));
                }
                proof {
                    seen = seen2;
                }
                j = j + 1;
            }
            proof {
                assert(props@.subrange(0, props@.len() as int) =~= props@);
                assert(fs.subrange(0, i as int + 1) =~= fs.subrange(0, i as int).push(fs[i as int]));
                fs.subrange(0, i as int).lemma_flat_map_push(fk, fs[i as int]);
                assert(seen =~= fs.subrange(0, i as int + 1).flat_map(fk));
            }
            i = i + 1;
        }
        assert(fs.subrange(0, fs.len() as int) =~= fs);
        keys
    }
}

/// Is `k` among the strings of `v`?
fn contains_string(v: &Vec<String>, k: &str) -> (b: bool)
    ensures
        b == v@.map_values(|s: String| s@).contains(k@),
{
    let mut i: usize = 0;
    while i < v.len()
        invariant
            i <= v@.len(),
            forall|j: int| 0 <= j < i ==> v@[j]@ != k@,
        decreases v@.len() - i,
    {
        if str_equal(v[i].as_str(), k) {
            assert(v@.map_values(|s: String| s@)[i as int] == k@);
            return true;
        }
        i = i + 1;
    }
    proof {
        let m = v@.map_values(|s: String| s@);
        if m.contains(k@) {
            let j = choose|j: int| 0 <= j < m.len() && m[j] == k@;
            assert(v@[j]@ == k@);
        }
    }
    false
}

// ── Laws ─────────────────────────────────────────────────────────────────────

/// A geometry as the reader produces it: every line has at least two points,
/// every polygon ring at least three, every polygon of a MultiPolygon at
/// least one ring, and so on inside collections.
pub open spec fn geom_wf<N>(g: GeomV<N>) -> bool
    decreases g,
{
    match g {
        GeomV::LineString(p) => p.len() >= 2,
        GeomV::MultiLineString(ls) => forall|i: int| 0 <= i < ls.len() ==> #[trigger] ls[i].len() >= 2,
        GeomV::Polygon(rs) => forall|i: int| 0 <= i < rs.len() ==> #[trigger] rs[i].len() >= 3,
        GeomV::MultiPolygon(ps) => forall|i: int|
            0 <= i < ps.len() ==> #[trigger] ps[i].len() > 0 && forall|j: int|
                0 <= j < ps[i].len() ==> #[trigger] ps[i][j].len() >= 3,
        GeomV::Collection(cs) => geoms_wf(cs),
        _ => true,
    }
}

/// Every geometry of the sequence is well formed.
pub open spec fn geoms_wf<N>(s: Seq<GeomV<N>>) -> bool
    decreases s,
{
    if s.len() == 0 {
        true
    } else {
        geoms_wf(s.subrange(0, s.len() - 1)) && geom_wf(s[s.len() - 1])
    }
}

proof fn lemma_lines_of_min<N>(a: Seq<JsonV<N>>, min: nat)
    ensures
        forall|i: int| 0 <= i < lines_of(a, min).len() ==> #[trigger] lines_of(a, min)[i].len() >= min,
{
    let f = |e: JsonV<N>| line_of(e, min);
    assert forall|i: int| 0 <= i < lines_of(a, min).len() implies #[trigger] lines_of(a, min)[i].len()
        >= min by {
        let x = lines_of(a, min)[i];
        assert(a.filter_map(f).contains(x));
        a.lemma_filter_map_contains(f, x);
        let t = choose|t: JsonV<N>| a.contains(t) && f(t) == Some(x);
        assert(line_of(t, min) == Some(x));
    }
}

proof fn lemma_polys_of_wf<N>(a: Seq<JsonV<N>>)
    ensures
        forall|i: int|
            0 <= i < polys_of(a).len() ==> #[trigger] polys_of(a)[i].len() > 0 && forall|j: int|
                0 <= j < polys_of(a)[i].len() ==> #[trigger] polys_of(a)[i][j].len() >= 3,
{
    let f = |e: JsonV<N>| poly_of(e);
    assert forall|i: int| 0 <= i < polys_of(a).len() implies #[trigger] polys_of(a)[i].len() > 0
        && forall|j: int| 0 <= j < polys_of(a)[i].len() ==> #[trigger] polys_of(a)[i][j].len() >= 3 by {
        let x = polys_of(a)[i];
        assert(a.filter_map(f).contains(x));
        a.lemma_filter_map_contains(f, x);
        let t = choose|t: JsonV<N>| a.contains(t) && f(t) == Some(x);
        assert(poly_of(t) == Some(x));
        lemma_lines_of_min(t->Array_0, 3);
    }
}

/// Every geometry the reader accepts is well formed: lines have at least two
/// points, polygon rings at least three, polygons of a MultiPolygon at least
/// one ring, recursively inside collections.
pub proof fn lemma_parsed_geometry_well_formed<N>(v: JsonV<N>)
    ensures
        geometry_of(v) matches Some(g) ==> geom_wf(g),
    decreases v,
{
    match member(v, "type"@) {
        JsonV::Str(t) => {
            let c = member(v, "coordinates"@);
            if c is Array {
                lemma_lines_of_min(c->Array_0, 2);
                lemma_lines_of_min(c->Array_0, 3);
                lemma_polys_of_wf(c->Array_0);
            }
            if t == "GeometryCollection"@ && member(v, "geometries"@) is Array {
                lemma_member_decreases(v, "geometries"@);
                lemma_parsed_geometries_well_formed(member(v, "geometries"@)->Array_0);
            }
        },
        _ => {},
    }
}

/// The geometries the reader accepts from an array are all well formed.
pub proof fn lemma_parsed_geometries_well_formed<N>(s: Seq<JsonV<N>>)
    ensures
        geoms_wf(geoms_of(s)),
    decreases s,
{
    if s.len() > 0 {
        let t = s.subrange(0, s.len() - 1);
        lemma_parsed_geometries_well_formed(t);
        lemma_parsed_geometry_well_formed(s[s.len() - 1]);
        let rest = geoms_of(t);
        match geometry_of(s[s.len() - 1]) {
            Some(g) => {
                assert(rest.push(g).subrange(0, rest.len() as int) =~= rest);
            },
            None => {},
        }
    }
}

/// Every feature a GeoJSON document yields has a well-formed geometry.
pub proof fn lemma_features_well_formed<N>(v: JsonV<N>, parent: Seq<(Seq<char>, JsonV<N>)>)
    ensures
        forall|i: int|
            0 <= i < features_of(v, parent).0.len() ==> geom_wf(
                #[trigger] features_of(v, parent).0[i].geometry,
            ),
    decreases v,
{
    let t = type_of(v);
    if t == "FeatureCollection"@ {
        if member(v, "features"@) is Array {
            lemma_member_decreases(v, "features"@);
            lemma_features_in_well_formed(member(v, "features"@)->Array_0, parent);
        }
    } else if t == "Feature"@ {
        lemma_parsed_geometry_well_formed(member(v, "geometry"@));
    } else if t == "GeometryCollection"@ {
        if member(v, "geometries"@) is Array {
            lemma_parsed_geometries_well_formed(member(v, "geometries"@)->Array_0);
        }
    } else {
        lemma_parsed_geometry_well_formed(v);
    }
}

/// Every feature the entries of an array yield has a well-formed geometry.
pub proof fn lemma_features_in_well_formed<N>(s: Seq<JsonV<N>>, parent: Seq<(Seq<char>, JsonV<N>)>)
    ensures
        forall|i: int|
            0 <= i < features_in(s, parent).0.len() ==> geom_wf(
                #[trigger] features_in(s, parent).0[i].geometry,
            ),
    decreases s,
{
    if s.len() > 0 {
        let t = s.subrange(0, s.len() - 1);
        lemma_features_in_well_formed(t, parent);
        lemma_features_well_formed(s[s.len() - 1], parent);
        let (a, e) = features_in(t, parent);
        if e is None {
            let (b, e2) = features_of(s[s.len() - 1], parent);
            assert forall|i: int| 0 <= i < (a + b).len() implies geom_wf(#[trigger] (a + b)[i].geometry) by {
                if i >= a.len() {
                    assert((a + b)[i] == b[i - a.len()]);
                }
            }
        }
    }
}

/// The lines of a MultiLineString stay open, as a LineString does: a line of
/// `n` points gives the `n − 1` segments joining each point to the next and
/// none from its last point back to its first; a MultiLineString of one line
/// gives the segments of that line, and one more line adds that line's own
/// segments after the others.
pub proof fn lemma_lines_stay_open<N>(ls: Seq<Seq<Coord<N>>>, l: Seq<Coord<N>>)
    ensures
        geom_segments(GeomV::LineString(l)).len() == if l.len() >= 2 { l.len() - 1 } else { 0 },
        forall|i: int|
            0 <= i < l.len() - 1 ==> #[trigger] geom_segments(GeomV::LineString(l))[i] == (l[i], l[i + 1]),
        geom_segments(GeomV::MultiLineString(seq![l])) == geom_segments(GeomV::LineString(l)),
        geom_segments(GeomV::MultiLineString(ls.push(l))) == geom_segments(GeomV::MultiLineString(ls))
            + geom_segments(GeomV::LineString(l)),
{
    let f = |r: Seq<Coord<N>>| ring_segs(r, false);
    ls.lemma_flat_map_push(f, l);
    Seq::<Seq<Coord<N>>>::empty().lemma_flat_map_push(f, l);
    assert(Seq::<Seq<Coord<N>>>::empty().push(l) =~= seq![l]);
    assert(Seq::<Seq<Coord<N>>>::empty().flat_map(f) =~= Seq::<(Coord<N>, Coord<N>)>::empty());
    assert(Seq::<(Coord<N>, Coord<N>)>::empty() + ring_segs(l, false) =~= ring_segs(l, false));
}

/// A point list of `n` points has `n - 1` segments open, and `n` closed when
/// `n > 2`; segment `i` joins point `i` to point `i + 1`, and the closing
/// segment joins the last point to the first.
pub proof fn lemma_ring_segment_count<N>(pts: Seq<Coord<N>>, close: bool)
    ensures
        ring_segs(pts, close).len() == if close && pts.len() > 2 {
            pts.len() as int
        } else if pts.len() >= 2 {
            pts.len() - 1
        } else {
            0
        },
        forall|i: int| 0 <= i < pts.len() - 1 ==> #[trigger] ring_segs(pts, close)[i] == (pts[i], pts[i + 1]),
        close && pts.len() > 2 ==> ring_segs(pts, close)[pts.len() - 1] == (pts[pts.len() - 1], pts[0]),
{
}

} // verus!
