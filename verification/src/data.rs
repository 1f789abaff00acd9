//! The map dataset: OSM nodes, ways and relations, GPX tracks, and the
//! geographic bounds of what has been added. Coordinates are IEEE-754
//! binary64 values held by their bit patterns.
use vstd::prelude::*;
use std::collections::HashMap;
use crate::floats::{f64_is_nan, f64_min, f64_max, f64_eq, f64_le, f64_infinity, f64_neg_infinity, f64_bits_min, f64_bits_max, f64_bits_eq, f64_bits_lt};
use crate::tags::{StrMap, Tags, tag_texts, distinct_keys, entries_map, key_index, lemma_key_index, lemma_entry_in_map};
use vstd::std_specs::hash::spec_hash_map_iter;
use vstd::std_specs::iter::IteratorSpec;

verus! {

broadcast use vstd::std_specs::hash::group_hash_axioms;

/// Geographic bounds of the map area (binary64 bit patterns).
#[derive(Clone, Copy)]
pub struct MapBounds {
    pub min_lat: u64,
    pub max_lat: u64,
    pub min_lon: u64,
    pub max_lon: u64,
}

/// An OSM node: a point with coordinates and tags.
#[derive(Clone)]
pub struct Node {
    pub id: i64,
    pub lat: u64,
    pub lon: u64,
    pub tags: Tags,
}

/// An OSM way: a line or area through node references, with tags.
#[derive(Clone)]
pub struct Way {
    pub id: i64,
    pub nodes: Vec<i64>,
    pub tags: Tags,
    pub is_closed: bool,
}

/// An OSM relation between several elements.
#[derive(Clone)]
pub struct Relation {
    pub id: i64,
    pub members: Vec<RelationMember>,
    pub tags: Tags,
}

/// One member of a relation.
#[derive(Clone)]
pub struct RelationMember {
    pub element_type: ElementType,
    pub id: i64,
    pub role: String,
}

/// The kind of an OSM element.
#[derive(Clone, Copy, Debug, PartialEq, Eq, Structural)]
pub enum ElementType {
    Node,
    Way,
    Relation,
}

/// A GPX track: a name and its segments.
#[derive(Clone)]
pub struct GpxTrack {
    pub name: Option<String>,
    pub segments: Vec<GpxSegment>,
}

/// A run of consecutive track points.
#[derive(Clone)]
pub struct GpxSegment {
    pub points: Vec<GpxPoint>,
}

/// An instant in UTC: seconds since the Unix epoch and nanoseconds.
#[derive(Clone, Copy, Debug, PartialEq, Eq, Structural)]
pub struct GpxTime {
    pub seconds: i64,
    pub nanos: u32,
}

/// One track point; coordinates and elevation are binary64 bit patterns.
#[derive(Clone, Copy)]
pub struct GpxPoint {
    pub lat: u64,
    pub lon: u64,
    pub elevation: Option<u64>,
    pub time: Option<GpxTime>,
}

/// The projection used to turn geographic coordinates into map coordinates.
#[derive(Clone, Copy, Debug, PartialEq, Eq, Structural)]
pub enum ProjectionSystem {
    WebMercator,
    Utm { zone: u8, north: bool },
    LatLon,
}

/// A coordinate pair: `x` is the longitude, `y` the latitude.
#[derive(Clone, Copy, Debug, PartialEq, Eq, Structural)]
pub struct Coord {
    pub x: u64,
    pub y: u64,
}

/// The geometry of a way: an open line, or a polygon whose exterior ring is closed.
#[derive(Clone)]
pub enum Geometry {
    LineString(Vec<Coord>),
    Polygon { exterior: Vec<Coord>, interiors: Vec<Vec<Coord>> },
}

/// A complete map dataset.
#[derive(Clone)]
pub struct MapData {
    pub bounds: MapBounds,
    pub nodes: HashMap<i64, Node>,
    pub ways: HashMap<i64, Way>,
    pub relations: HashMap<i64, Relation>,
    pub gpx_tracks: Vec<GpxTrack>,
}

// ---------------------------------------------------------------------------
// Specifications
// ---------------------------------------------------------------------------

/// The bounds that hold as well the point (`lat`, `lon`), as `f64::min` and
/// `f64::max` widen them.
pub open spec fn bounds_with(b: MapBounds, lat: u64, lon: u64) -> MapBounds {
    MapBounds {
        min_lat: f64_min(b.min_lat, lat),
        max_lat: f64_max(b.max_lat, lat),
        min_lon: f64_min(b.min_lon, lon),
        max_lon: f64_max(b.max_lon, lon),
    }
}

/// The bounds of an empty dataset: minima at +inf, maxima at -inf.
pub open spec fn empty_bounds() -> MapBounds {
    MapBounds {
        min_lat: f64_infinity(),
        max_lat: f64_neg_infinity(),
        min_lon: f64_infinity(),
        max_lon: f64_neg_infinity(),
    }
}

/// The bounds after widening `b` by each of `pts` in turn.
pub open spec fn bounds_with_points(b: MapBounds, pts: Seq<GpxPoint>) -> MapBounds
    decreases pts.len(),
{
    if pts.len() == 0 {
        b
    } else {
        bounds_with(bounds_with_points(b, pts.drop_last()), pts.last().lat, pts.last().lon)
    }
}

/// All points of a list of segments, in order.
pub open spec fn segment_points(segs: Seq<GpxSegment>) -> Seq<GpxPoint>
    decreases segs.len(),
{
    if segs.len() == 0 {
        Seq::empty()
    } else {
        segment_points(segs.drop_last()) + segs.last().points@
    }
}

/// The coordinates of the referenced nodes that are in `nodes`, in order.
pub open spec fn way_coords(nodes: Map<i64, Node>, refs: Seq<i64>) -> Seq<Coord>
    decreases refs.len(),
{
    if refs.len() == 0 {
        Seq::empty()
    } else {
        let rest = way_coords(nodes, refs.drop_last());
        let id = refs.last();
        if nodes.contains_key(id) {
            rest.push(Coord { x: nodes[id].lon, y: nodes[id].lat })
        } else {
            rest
        }
    }
}

/// Equality of coordinates as `==` on their `f64` fields sees it.
pub open spec fn coord_eq(a: Coord, b: Coord) -> bool {
    f64_eq(a.x, b.x) && f64_eq(a.y, b.y)
}

/// The ring closed as `geo_types` closes a polygon's exterior: the first
/// coordinate is appended unless the ring is empty or already ends where it starts.
pub open spec fn closed_ring(c: Seq<Coord>) -> Seq<Coord> {
    if c.len() == 0 || coord_eq(c[0], c.last()) {
        c
    } else {
        c.push(c[0])
    }
}

/// Whether a way with tags `tags` passes the filter: some key of the filter
/// is a tag of the way, and the filter lists no values for it or lists the tag's value.
pub open spec fn passes_filter(tags: Map<Seq<char>, String>, filter: Map<Seq<char>, Vec<String>>) -> bool {
    exists|k: Seq<char>|
        #![trigger filter.dom().contains(k), tags.dom().contains(k)]
        filter.dom().contains(k) && tags.dom().contains(k) && (filter[k]@.len() == 0 || exists|
            i: int,
        | 0 <= i < filter[k]@.len() && (#[trigger] filter[k]@[i])@ == tags[k]@)
}

/// A node as plain values.
pub struct NodeView {
    pub id: i64,
    pub lat: u64,
    pub lon: u64,
    pub tags: Map<Seq<char>, Seq<char>>,
}

/// A way as plain values.
pub struct WayView {
    pub id: i64,
    pub nodes: Seq<i64>,
    pub tags: Map<Seq<char>, Seq<char>>,
    pub is_closed: bool,
}

/// A relation member as plain values.
pub struct MemberView {
    pub element_type: ElementType,
    pub id: i64,
    pub role: Seq<char>,
}

/// A relation as plain values.
pub struct RelationView {
    pub id: i64,
    pub members: Seq<MemberView>,
    pub tags: Map<Seq<char>, Seq<char>>,
}

impl View for Node {
    type V = NodeView;

    open spec fn view(&self) -> NodeView {
        NodeView { id: self.id, lat: self.lat, lon: self.lon, tags: tag_texts(self.tags@) }
    }
}

impl View for Way {
    type V = WayView;

    open spec fn view(&self) -> WayView {
        WayView {
            id: self.id,
            nodes: self.nodes@,
            tags: tag_texts(self.tags@),
            is_closed: self.is_closed,
        }
    }
}

impl View for RelationMember {
    type V = MemberView;

    open spec fn view(&self) -> MemberView {
        MemberView { element_type: self.element_type, id: self.id, role: self.role@ }
    }
}

/// The views of a list of members.
pub open spec fn member_views(m: Seq<RelationMember>) -> Seq<MemberView> {
    m.map_values(|x: RelationMember| x@)
}

impl View for Relation {
    type V = RelationView;

    open spec fn view(&self) -> RelationView {
        RelationView { id: self.id, members: member_views(self.members@), tags: tag_texts(self.tags@) }
    }
}

/// A GPX track as plain values: its name and the points of each segment.
pub struct GpxTrackView {
    pub name: Option<Seq<char>>,
    pub segments: Seq<Seq<GpxPoint>>,
}

impl View for GpxTrack {
    type V = GpxTrackView;

    open spec fn view(&self) -> GpxTrackView {
        GpxTrackView {
            name: match self.name {
                Some(n) => Some(n@),
                None => None,
            },
            segments: self.segments@.map_values(|s: GpxSegment| s.points@),
        }
    }
}

/// The OSM content of a dataset as plain values.
pub struct DataView {
    pub nodes: Map<i64, NodeView>,
    pub ways: Map<i64, WayView>,
    pub relations: Map<i64, RelationView>,
    pub bounds: MapBounds,
    pub track_count: nat,
}

/// The OSM content of `m`.
pub open spec fn data_view(m: MapData) -> DataView {
    DataView {
        nodes: m.nodes@.map_values(|n: Node| n@),
        ways: m.ways@.map_values(|w: Way| w@),
        relations: m.relations@.map_values(|r: Relation| r@),
        bounds: m.bounds,
        track_count: m.gpx_tracks@.len(),
    }
}

/// The content of a new dataset.
pub open spec fn empty_data() -> DataView {
    DataView {
        nodes: Map::empty(),
        ways: Map::empty(),
        relations: Map::empty(),
        bounds: empty_bounds(),
        track_count: 0,
    }
}

/// The content after `add_node`.
pub open spec fn with_node(d: DataView, n: NodeView) -> DataView {
    DataView { nodes: d.nodes.insert(n.id, n), bounds: bounds_with(d.bounds, n.lat, n.lon), ..d }
}

/// The content after `add_way`.
pub open spec fn with_way(d: DataView, w: WayView) -> DataView {
    DataView { ways: d.ways.insert(w.id, w), ..d }
}

/// The content after `add_relation`.
pub open spec fn with_relation(d: DataView, r: RelationView) -> DataView {
    DataView { relations: d.relations.insert(r.id, r), ..d }
}

// ---------------------------------------------------------------------------
// Executable functions
// ---------------------------------------------------------------------------

impl MapBounds {
    /// Whether the latitude range is empty: no point has been added yet, or
    /// only NaN coordinates.
    pub fn is_empty(&self) -> (b: bool)
        ensures
            b == !f64_le(self.min_lat, self.max_lat),
    {
        !(f64_bits_lt(self.min_lat, self.max_lat) || f64_bits_eq(self.min_lat, self.max_lat))
    }
}

impl MapData {
    /// An empty dataset whose bounds contain nothing.
    pub fn new() -> (m: Self)
        ensures
            m.bounds == empty_bounds(),
            m.nodes@ == Map::<i64, Node>::empty(),
            m.ways@ == Map::<i64, Way>::empty(),
            m.relations@ == Map::<i64, Relation>::empty(),
            m.gpx_tracks@.len() == 0,
    {
        MapData {
            bounds: MapBounds {
                min_lat: 0x7FF0_0000_0000_0000u64,
                max_lat: 0xFFF0_0000_0000_0000u64,
                min_lon: 0x7FF0_0000_0000_0000u64,
                max_lon: 0xFFF0_0000_0000_0000u64,
            },
            nodes: HashMap::new(),
            ways: HashMap::new(),
            relations: HashMap::new(),
            gpx_tracks: Vec::new(),
        }
    }

    /// Widens the bounds to hold the point (`lat`, `lon`).
    fn update_bounds(&mut self, lat: u64, lon: u64)
        ensures
            final(self).bounds == bounds_with(old(self).bounds, lat, lon),
            final(self).nodes == old(self).nodes,
            final(self).ways == old(self).ways,
            final(self).relations == old(self).relations,
            final(self).gpx_tracks == old(self).gpx_tracks,
    {
        self.bounds.min_lat = f64_bits_min(self.bounds.min_lat, lat);
        self.bounds.max_lat = f64_bits_max(self.bounds.max_lat, lat);
        self.bounds.min_lon = f64_bits_min(self.bounds.min_lon, lon);
        self.bounds.max_lon = f64_bits_max(self.bounds.max_lon, lon);
    }

    /// Adds a node under its id, replacing any node with that id, and widens
    /// the bounds to hold it.
    pub fn add_node(&mut self, node: Node)
        ensures
            final(self).nodes@ == old(self).nodes@.insert(node.id, node),
            final(self).bounds == bounds_with(old(self).bounds, node.lat, node.lon),
            final(self).ways == old(self).ways,
            final(self).relations == old(self).relations,
            final(self).gpx_tracks == old(self).gpx_tracks,
    {
        self.update_bounds(node.lat, node.lon);
        self.nodes.insert(node.id, node);
    }

    /// Adds a way under its id, replacing any way with that id.
    pub fn add_way(&mut self, way: Way)
        ensures
            final(self).ways@ == old(self).ways@.insert(way.id, way),
            final(self).bounds == old(self).bounds,
            final(self).nodes == old(self).nodes,
            final(self).relations == old(self).relations,
            final(self).gpx_tracks == old(self).gpx_tracks,
    {
        self.ways.insert(way.id, way);
    }

    /// Adds a relation under its id, replacing any relation with that id.
    pub fn add_relation(&mut self, relation: Relation)
        ensures
            final(self).relations@ == old(self).relations@.insert(relation.id, relation),
            final(self).bounds == old(self).bounds,
            final(self).nodes == old(self).nodes,
            final(self).ways == old(self).ways,
            final(self).gpx_tracks == old(self).gpx_tracks,
    {
        self.relations.insert(relation.id, relation);
    }

    /// Appends a GPX track and widens the bounds by each of its points in order.
    pub fn add_gpx_track(&mut self, track: GpxTrack)
        ensures
            final(self).gpx_tracks@ == old(self).gpx_tracks@.push(track),
            final(self).bounds == bounds_with_points(
                old(self).bounds,
                segment_points(track.segments@),
            ),
            final(self).nodes == old(self).nodes,
            final(self).ways == old(self).ways,
            final(self).relations == old(self).relations,
    {
        let ghost b0 = self.bounds;
        let ns = track.segments.len();
        for si in 0..ns
            invariant
                ns == track.segments@.len(),
                self.bounds == bounds_with_points(
                    b0,
                    segment_points(track.segments@.take(si as int)),
                ),
                self.nodes == old(self).nodes,
                self.ways == old(self).ways,
                self.relations == old(self).relations,
                self.gpx_tracks == old(self).gpx_tracks,
        {
            let seg = &track.segments[si as usize];
            let np = seg.points.len();
            let ghost before = segment_points(track.segments@.take(si as int));
            for pi in 0..np
                invariant
                    np == seg.points@.len(),
                    self.bounds == bounds_with_points(b0, before + seg.points@.take(pi as int)),
                    self.nodes == old(self).nodes,
                    self.ways == old(self).ways,
                    self.relations == old(self).relations,
                    self.gpx_tracks == old(self).gpx_tracks,
            {
                let p = seg.points[pi];
                proof {
                    let s1 = before + seg.points@.take(pi + 1);
                    assert(s1.drop_last() =~= before + seg.points@.take(pi as int));
                }
                self.update_bounds(p.lat, p.lon);
            }
            proof {
                assert(track.segments@.take(si + 1).drop_last() =~= track.segments@.take(
                    si as int,
                ));
                assert(seg.points@.take(np as int) =~= seg.points@);
            }
        }
        proof {
            assert(track.segments@.take(ns as int) =~= track.segments@);
        }
        self.gpx_tracks.push(track);
    }

    /// The geometry of `way`: the coordinates (longitude, latitude) of its
    /// nodes that are in the dataset, in order; a polygon with a closed ring
    /// when the way is closed and has more than two of them, else a line;
    /// `None` when none of its nodes is in the dataset.
    pub fn get_way_geometry(&self, way: &Way) -> (r: Option<Geometry>)
        ensures
            ({
                let c = way_coords(self.nodes@, way.nodes@);
                match r {
                    None => c.len() == 0,
                    Some(Geometry::LineString(v)) => c.len() > 0 && !(way.is_closed && c.len()
                        > 2) && v@ == c,
                    Some(Geometry::Polygon { exterior, interiors }) => way.is_closed && c.len()
                        > 2 && exterior@ == closed_ring(c) && interiors@.len() == 0,
                }
            }),
    {
        let mut coords: Vec<Coord> = Vec::new();
        let n = way.nodes.len();
        for i in 0..n
            invariant
                n == way.nodes@.len(),
                coords@ == way_coords(self.nodes@, way.nodes@.take(i as int)),
        {
            let id = way.nodes[i];
            proof {
                assert(way.nodes@.take(i + 1).drop_last() =~= way.nodes@.take(i as int));
            }
            match self.nodes.get(&id) {
                Some(node) => {
                    coords.push(Coord { x: node.lon, y: node.lat });
                },
                None => {},
            }
        }
        proof {
            assert(way.nodes@.take(n as int) =~= way.nodes@);
        }
        if coords.len() == 0 {
            return None;
        }
        if way.is_closed && coords.len() > 2 {
            let first = coords[0];
            let last = coords[coords.len() - 1];
            if !(f64_bits_eq(first.x, last.x) && f64_bits_eq(first.y, last.y)) {
                coords.push(first);
            }
            Some(Geometry::Polygon { exterior: coords, interiors: Vec::new() })
        } else {
            Some(Geometry::LineString(coords))
        }
    }
}

/// Whether `way_tags` pass `filter` (see `passes_filter`).
pub fn matches_tag_filter(way_tags: &Tags, filter: &StrMap<Vec<String>>) -> (b: bool)
    ensures
        b == passes_filter(way_tags@, filter@),
{
    let entries = filter.entries();
    let n = entries.len();
    for i in 0..n
        invariant
            n == entries@.len(),
            distinct_keys(entries@),
            filter@ == entries_map(entries@),
            forall|j: int|
                0 <= j < i ==> !({
                    let k = (#[trigger] entries@[j]).0@;
                    way_tags@.dom().contains(k) && (entries@[j].1@.len() == 0 || exists|t: int|
                        0 <= t < entries@[j].1@.len() && (#[trigger] entries@[j].1@[t])@
                            == way_tags@[k]@)
                }),
    {
        let key = &entries[i].0;
        let values = &entries[i].1;
        proof {
            lemma_entry_in_map(entries@, i as int);
        }
        match way_tags.get(key.as_str()) {
            Some(value) => {
                assert(filter@.dom().contains(key@) && way_tags@.dom().contains(key@));
                assert(filter@[key@] == *values);
                if values.len() == 0 {
                    return true;
                }
                let m = values.len();
                for t in 0..m
                    invariant
                        m == values@.len(),
                        filter@.dom().contains(key@) && way_tags@.dom().contains(key@),
                        filter@[key@] == *values,
                        *value == way_tags@[key@],
                        forall|u: int| 0 <= u < t ==> (#[trigger] values@[u])@ != value@,
                {
                    if values[t] == *value {
                        assert(filter@[key@]@[t as int]@ == way_tags@[key@]@);
                        return true;
                    }
                }
            },
            None => {},
        }
    }
    proof {
        if passes_filter(way_tags@, filter@) {
            let k = choose|k: Seq<char>|
                #![trigger filter@.dom().contains(k), way_tags@.dom().contains(k)]
                filter@.dom().contains(k) && way_tags@.dom().contains(k) && (filter@[k]@.len()
                    == 0 || exists|i: int|
                    0 <= i < filter@[k]@.len() && (#[trigger] filter@[k]@[i])@ == way_tags@[k]@);
            lemma_key_index(entries@, k);
            let j = key_index(entries@, k)->0;
            assert(entries@[j].0@ == k);
        }
    }
    false
}

/// `r` lists the ways of `ways` under the keys `ks`, which are distinct and
/// are exactly the keys whose ways pass `filter`.
pub open spec fn selected_ways(
    ways: Map<i64, Way>,
    filter: Map<Seq<char>, Vec<String>>,
    ks: Seq<i64>,
    r: Seq<&Way>,
) -> bool {
    &&& ks.len() == r.len()
    &&& ks.no_duplicates()
    &&& forall|i: int|
        0 <= i < ks.len() ==> ways.contains_key(#[trigger] ks[i]) && ways[ks[i]] == *r[i]
            && passes_filter(r[i].tags@, filter)
    &&& forall|k: i64|
        ways.contains_key(k) && passes_filter(#[trigger] ways[k].tags@, filter) ==> ks.contains(k)
}

impl MapData {
    /// The ways whose tags pass `tag_filter`, one for each key of `ways`, in
    /// no particular order.
    pub fn get_ways_by_tags(&self, tag_filter: &StrMap<Vec<String>>) -> (r: Vec<&Way>)
        ensures
            exists|ks: Seq<i64>|
                #[trigger] selected_ways(self.ways@, tag_filter@, ks, r@),
    {
        let mut out: Vec<&Way> = Vec::new();
        let ghost mut keys: Seq<i64> = Seq::empty();
        let ghost mut pos: Seq<int> = Seq::empty();
        for (k, way) in it: self.ways.iter()
            invariant
                out@.len() == keys.len(),
                keys.no_duplicates(),
                it.seq() == spec_hash_map_iter(&self.ways).remaining(),
                it.seq().no_duplicates(),
                forall|i: int|
                    0 <= i < keys.len() ==> self.ways@.contains_key(#[trigger] keys[i])
                        && self.ways@[keys[i]] == *out@[i] && passes_filter(
                        out@[i].tags@,
                        tag_filter@,
                    ),
                pos.len() == keys.len(),
                forall|i: int|
                    0 <= i < keys.len() ==> 0 <= #[trigger] pos[i] < it.index() && *it.seq()[pos[i]].0
                        == keys[i],
                forall|t: int|
                    0 <= t < it.index() && passes_filter((*it.seq()[t].1).tags@, tag_filter@)
                        ==> keys.contains(*(#[trigger] it.seq()[t]).0),
        {
            let ghost idx = it.index();
            let ghost keys0 = keys;
            proof {
                assert(it.seq()[idx] == (k, way));
                assert(self.ways@.contains_key(*k) && self.ways@[*k] == *way);
            }
            if matches_tag_filter(&way.tags, tag_filter) {
                proof {
                    if keys.contains(*k) {
                        let i = keys.index_of(*k);
                        let t = pos[i];
                        assert(self.ways@[*it.seq()[t].0] == *it.seq()[t].1);
                        assert(it.seq()[t] == it.seq()[idx]);
                    }
                }
                out.push(way);
                proof {
                    keys = keys.push(*k);
                    pos = pos.push(idx);
                    assert(keys[keys.len() - 1] == *k);
                }
            }
            proof {
                assert forall|t: int|
                    0 <= t < idx + 1 && passes_filter((*it.seq()[t].1).tags@, tag_filter@)
                    implies keys.contains(*(#[trigger] it.seq()[t]).0) by {
                    if t == idx {
                        assert(keys[keys.len() - 1] == *k);
                    } else {
                        let j = keys0.index_of(*it.seq()[t].0);
                        assert(keys[j] == keys0[j]);
                    }
                }
            }
        }
        proof {
            assert(selected_ways(self.ways@, tag_filter@, keys, out@));
        }
        out
    }
}

impl Default for MapData {
    fn default() -> (m: Self)
        ensures
            m.bounds == empty_bounds(),
            m.nodes@ == Map::<i64, Node>::empty(),
            m.ways@ == Map::<i64, Way>::empty(),
            m.relations@ == Map::<i64, Relation>::empty(),
            m.gpx_tracks@.len() == 0,
    {
        Self::new()
    }
}

/// Geometry utilities.
pub struct GeometryUtils;

/// The smallest and largest `x` and `y` of the coordinates, folded from the
/// first with `f64::min` and `f64::max`.
pub open spec fn extent(c: Seq<Coord>) -> (Coord, Coord)
    decreases c.len(),
{
    if c.len() <= 1 {
        (c[0], c[0])
    } else {
        let (lo, hi) = extent(c.drop_last());
        let p = c.last();
        (
            Coord { x: f64_min(lo.x, p.x), y: f64_min(lo.y, p.y) },
            Coord { x: f64_max(hi.x, p.x), y: f64_max(hi.y, p.y) },
        )
    }
}

impl GeometryUtils {
    /// The bounding box of the coordinates: its lower-left and upper-right
    /// corners, or `None` when there are none.
    pub fn bounding_box(coords: &[Coord]) -> (r: Option<(Coord, Coord)>)
        ensures
            coords@.len() == 0 ==> r is None,
            coords@.len() > 0 ==> r == Some(extent(coords@)),
    {
        let n = coords.len();
        if n == 0 {
            return None;
        }
        let mut lo = coords[0];
        let mut hi = coords[0];
        proof {
            assert(coords@.take(1).len() == 1);
        }
        for i in 1..n
            invariant
                n == coords@.len(),
                n > 0,
                (lo, hi) == extent(coords@.take(i as int)),
        {
            let p = coords[i];
            proof {
                assert(coords@.take(i + 1).drop_last() =~= coords@.take(i as int));
                assert(coords@.take(i + 1).last() == p);
            }
            lo = Coord { x: f64_bits_min(lo.x, p.x), y: f64_bits_min(lo.y, p.y) };
            hi = Coord { x: f64_bits_max(hi.x, p.x), y: f64_bits_max(hi.y, p.y) };
        }
        proof {
            assert(coords@.take(n as int) =~= coords@);
        }
        Some((lo, hi))
    }
}

/// Coordinate projection: the system in use.
pub struct Projector {
    system: ProjectionSystem,
}

impl Projector {
    /// A projector for `system`.
    pub fn new(system: ProjectionSystem) -> (p: Self)
        ensures
            p.system() == system,
    {
        Projector { system }
    }

    pub closed spec fn system(self) -> ProjectionSystem {
        self.system
    }

    /// The projection system in use.
    pub fn projection_system(&self) -> (s: ProjectionSystem)
        ensures
            s == self.system(),
    {
        self.system
    }
}

/// Utility functions for coordinate systems.
pub struct CoordinateUtils;

impl CoordinateUtils {
    /// Whether latitude `lat` lies in the northern hemisphere: `lat >= 0.0`
    /// (so false for NaN, true for -0.0).
    pub fn is_northern_hemisphere(lat: u64) -> (b: bool)
        ensures
            b == f64_le(0, lat),
    {
        f64_bits_lt(0, lat) || f64_bits_eq(0, lat)
    }
}

// ---------------------------------------------------------------------------
// Laws
// ---------------------------------------------------------------------------

/// After a point is added, the bounds hold it: its latitude and longitude,
/// when they are numbers, lie between the new minima and maxima.
pub proof fn law_bounds_hold_added_point(b: MapBounds, lat: u64, lon: u64)
    requires
        !f64_is_nan(lat),
        !f64_is_nan(lon),
    ensures
        f64_le(bounds_with(b, lat, lon).min_lat, lat),
        f64_le(lat, bounds_with(b, lat, lon).max_lat),
        f64_le(bounds_with(b, lat, lon).min_lon, lon),
        f64_le(lon, bounds_with(b, lat, lon).max_lon),
{
}

/// Adding a point never shrinks the bounds: every point they held, they still hold.
pub proof fn law_bounds_only_grow(b: MapBounds, lat: u64, lon: u64, p: u64, q: u64)
    requires
        f64_le(b.min_lat, p) && f64_le(p, b.max_lat),
        f64_le(b.min_lon, q) && f64_le(q, b.max_lon),
    ensures
        f64_le(bounds_with(b, lat, lon).min_lat, p) && f64_le(p, bounds_with(b, lat, lon).max_lat),
        f64_le(bounds_with(b, lat, lon).min_lon, q) && f64_le(q, bounds_with(b, lat, lon).max_lon),
{
}

/// The exterior ring of a polygon ends where it starts, when its first
/// coordinate is a number.
pub proof fn law_closed_ring_is_closed(c: Seq<Coord>)
    requires
        c.len() > 0,
        !f64_is_nan(c[0].x) && !f64_is_nan(c[0].y),
    ensures
        coord_eq(closed_ring(c)[0], closed_ring(c).last()),
        closed_ring(c).len() >= c.len(),
        closed_ring(c).take(c.len() as int) == c,
{
    assert(closed_ring(c).take(c.len() as int) =~= c);
}

} // verus!
