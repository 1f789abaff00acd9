//! What an SVG export draws for each element, and in which layer: the
//! decisions of the export, apart from projecting coordinates. Widths, radii
//! and opacities are binary32 bit patterns.
use vstd::prelude::*;
use crate::data::{Coord, MapData, Node, Way, way_coords};
use crate::export::{tag_of, water_feature, labeled_road, important_poi, is_water_feature,
    is_important_poi, should_label_road};
use crate::map_style::{MapStyle, class_color, road_style_of, poi_style_of, road_label_size,
    place_label_size};
use crate::parsers::owned;
use crate::stylesheet::opt_text;
use crate::tags::{StrMap, tag_texts};
use crate::text::{trim, chars_of, trim_chars};

verus! {

/// The layers of an exported map.
#[derive(Clone, Copy, Debug, PartialEq, Eq, Structural)]
pub enum SvgLayer {
    Water,
    Landuse,
    Aeroway,
    Buildings,
    Railway,
    Roads,
    Boundaries,
    Pois,
    Labels,
}

/// One shape drawn along the path of a way.
pub enum WayPaint {
    /// A water area.
    Water { color: String, opacity: u32 },
    /// A filled area of land use, leisure, natural or airport ground.
    Area { layer: SvgLayer, fill: String },
    /// A building outline.
    Building { fill: String, stroke: String, stroke_width: u32 },
    /// The main line of a railway.
    RailLine { color: String, width: u32 },
    /// The dashes over a railway line.
    RailDashes { color: String, width: u32, pattern: String },
    /// The border under a road: it is as wide as the road plus twice the border.
    RoadBorder { color: String, road_width: u32, border_width: u32 },
    /// A road line.
    Road { color: String, width: u32 },
    /// The name of a road, placed along it.
    RoadLabel { name: String, font_size: u32 },
    /// An administrative boundary.
    Boundary { color: String, width: u32, dash: String, opacity: u32 },
}

/// A way's shape as plain values.
pub enum WayPaintView {
    Water { color: Seq<char>, opacity: u32 },
    Area { layer: SvgLayer, fill: Seq<char> },
    Building { fill: Seq<char>, stroke: Seq<char>, stroke_width: u32 },
    RailLine { color: Seq<char>, width: u32 },
    RailDashes { color: Seq<char>, width: u32, pattern: Seq<char> },
    RoadBorder { color: Seq<char>, road_width: u32, border_width: u32 },
    Road { color: Seq<char>, width: u32 },
    RoadLabel { name: Seq<char>, font_size: u32 },
    Boundary { color: Seq<char>, width: u32, dash: Seq<char>, opacity: u32 },
}

impl View for WayPaint {
    type V = WayPaintView;

    open spec fn view(&self) -> WayPaintView {
        match self {
            WayPaint::Water { color, opacity } => WayPaintView::Water { color: color@, opacity: *opacity },
            WayPaint::Area { layer, fill } => WayPaintView::Area { layer: *layer, fill: fill@ },
            WayPaint::Building { fill, stroke, stroke_width } => WayPaintView::Building {
                fill: fill@,
                stroke: stroke@,
                stroke_width: *stroke_width,
            },
            WayPaint::RailLine { color, width } => WayPaintView::RailLine { color: color@, width: *width },
            WayPaint::RailDashes { color, width, pattern } => WayPaintView::RailDashes {
                color: color@,
                width: *width,
                pattern: pattern@,
            },
            WayPaint::RoadBorder { color, road_width, border_width } => WayPaintView::RoadBorder {
                color: color@,
                road_width: *road_width,
                border_width: *border_width,
            },
            WayPaint::Road { color, width } => WayPaintView::Road { color: color@, width: *width },
            WayPaint::RoadLabel { name, font_size } => WayPaintView::RoadLabel {
                name: name@,
                font_size: *font_size,
            },
            WayPaint::Boundary { color, width, dash, opacity } => WayPaintView::Boundary {
                color: color@,
                width: *width,
                dash: dash@,
                opacity: *opacity,
            },
        }
    }
}

/// One mark drawn at the position of a node.
pub enum NodeMark {
    /// The point of an amenity, with its name beside it when the amenity is
    /// an important one.
    Poi { color: String, radius: u32, label: Option<String> },
    /// The name of a place.
    PlaceLabel { name: String, font_size: u32 },
}

/// A node's mark as plain values.
pub enum NodeMarkView {
    Poi { color: Seq<char>, radius: u32, label: Option<Seq<char>> },
    PlaceLabel { name: Seq<char>, font_size: u32 },
}

impl View for NodeMark {
    type V = NodeMarkView;

    open spec fn view(&self) -> NodeMarkView {
        match self {
            NodeMark::Poi { color, radius, label } => NodeMarkView::Poi {
                color: color@,
                radius: *radius,
                label: opt_text(*label),
            },
            NodeMark::PlaceLabel { name, font_size } => NodeMarkView::PlaceLabel {
                name: name@,
                font_size: *font_size,
            },
        }
    }
}

/// The shapes as plain values.
pub open spec fn paint_views(v: Seq<WayPaint>) -> Seq<WayPaintView> {
    v.map_values(|p: WayPaint| p@)
}

/// The marks as plain values.
pub open spec fn mark_views(v: Seq<NodeMark>) -> Seq<NodeMarkView> {
    v.map_values(|m: NodeMark| m@)
}

/// Whether binary32 bits `b` stand for a number above zero: the sign is
/// clear, and the bits are neither zero nor a NaN.
pub open spec fn f32_positive(b: u32) -> bool {
    0 < b && b <= 0x7F80_0000
}

/// The layer that a way's shape is drawn in.
pub open spec fn paint_layer(p: WayPaintView) -> SvgLayer {
    match p {
        WayPaintView::Water { .. } => SvgLayer::Water,
        WayPaintView::Area { layer, .. } => layer,
        WayPaintView::Building { .. } => SvgLayer::Buildings,
        WayPaintView::RailLine { .. } => SvgLayer::Railway,
        WayPaintView::RailDashes { .. } => SvgLayer::Railway,
        WayPaintView::RoadBorder { .. } => SvgLayer::Roads,
        WayPaintView::Road { .. } => SvgLayer::Roads,
        WayPaintView::RoadLabel { .. } => SvgLayer::Labels,
        WayPaintView::Boundary { .. } => SvgLayer::Boundaries,
    }
}

/// Water, in the style's water color and opacity.
pub open spec fn water_part(w: Way, s: MapStyle) -> Seq<WayPaintView> {
    if water_feature(w) {
        seq![WayPaintView::Water { color: s.water.color@, opacity: s.water.opacity }]
    } else {
        seq![]
    }
}

/// A filled area in `layer` when the way has tag `key` and the class map has
/// a color for its value.
pub open spec fn class_part(
    w: Way,
    key: Seq<char>,
    colors: Map<Seq<char>, String>,
    layer: SvgLayer,
) -> Seq<WayPaintView> {
    match tag_of(w.tags, key) {
        Some(v) => match class_color(colors, v) {
            Some(c) => seq![WayPaintView::Area { layer, fill: c }],
            None => seq![],
        },
        None => seq![],
    }
}

/// Airport ground, when the way has an `aeroway` tag.
pub open spec fn aeroway_part(w: Way, s: MapStyle) -> Seq<WayPaintView> {
    if tag_texts(w.tags@).dom().contains("aeroway"@) {
        seq![WayPaintView::Area { layer: SvgLayer::Aeroway, fill: s.aeroway.default@ }]
    } else {
        seq![]
    }
}

/// A building, when the way has a `building` tag.
pub open spec fn building_part(w: Way, s: MapStyle) -> Seq<WayPaintView> {
    if tag_texts(w.tags@).dom().contains("building"@) {
        seq![
            WayPaintView::Building {
                fill: s.buildings.fill@,
                stroke: s.buildings.stroke@,
                stroke_width: s.buildings.stroke_width,
            },
        ]
    } else {
        seq![]
    }
}

/// A railway line and its dashes, when the way is `railway=rail`.
pub open spec fn railway_part(w: Way, s: MapStyle) -> Seq<WayPaintView> {
    if tag_of(w.tags, "railway"@) == Some("rail"@) {
        seq![
            WayPaintView::RailLine { color: s.railway.rail_color@, width: s.railway.rail_width },
            WayPaintView::RailDashes {
                color: s.railway.rail_dash_color@,
                width: s.railway.rail_dash_width,
                pattern: s.railway.rail_dash_pattern@,
            },
        ]
    } else {
        seq![]
    }
}

/// The name label of a road of class `h`: when the class is labeled and the
/// name is not blank.
pub open spec fn road_label_part(w: Way, s: MapStyle, h: Seq<char>) -> Seq<WayPaintView> {
    match tag_of(w.tags, "name"@) {
        Some(n) => if labeled_road(h) && trim(n).len() > 0 {
            seq![WayPaintView::RoadLabel { name: n, font_size: road_label_size(s, h) }]
        } else {
            seq![]
        },
        None => seq![],
    }
}

/// A road of class `h`: its border when the class has a border color and a
/// border width above zero, the road itself, then its label.
pub open spec fn road_body(w: Way, s: MapStyle, h: Seq<char>) -> Seq<WayPaintView> {
    let st = road_style_of(s, h);
    let border = if st.2.len() > 0 && f32_positive(st.3) {
        seq![WayPaintView::RoadBorder { color: st.2, road_width: st.1, border_width: st.3 }]
    } else {
        seq![]
    };
    border + seq![WayPaintView::Road { color: st.0, width: st.1 }] + road_label_part(w, s, h)
}

/// A road, when the way has a `highway` tag.
pub open spec fn road_part(w: Way, s: MapStyle) -> Seq<WayPaintView> {
    match tag_of(w.tags, "highway"@) {
        Some(h) => road_body(w, s, h),
        None => seq![],
    }
}

/// An administrative boundary, when the way is `boundary=administrative`.
pub open spec fn boundary_part(w: Way, s: MapStyle) -> Seq<WayPaintView> {
    if tag_of(w.tags, "boundary"@) == Some("administrative"@) {
        seq![
            WayPaintView::Boundary {
                color: s.boundaries.administrative_color@,
                width: s.boundaries.administrative_width,
                dash: s.boundaries.administrative_dash@,
                opacity: s.boundaries.administrative_opacity,
            },
        ]
    } else {
        seq![]
    }
}

/// Everything drawn along a way, in drawing order.
pub open spec fn way_plan(w: Way, s: MapStyle) -> Seq<WayPaintView> {
    water_part(w, s) + class_part(w, "landuse"@, s.landuse@, SvgLayer::Landuse) + class_part(
        w,
        "leisure"@,
        s.leisure@,
        SvgLayer::Landuse,
    ) + class_part(w, "natural"@, s.natural@, SvgLayer::Landuse) + aeroway_part(w, s)
        + building_part(w, s) + railway_part(w, s) + road_part(w, s) + boundary_part(w, s)
}

/// The point of an amenity, when the node has an `amenity` tag.
pub open spec fn poi_part(n: Node, s: MapStyle) -> Seq<NodeMarkView> {
    match tag_of(n.tags, "amenity"@) {
        Some(a) => {
            let st = poi_style_of(s, a);
            let label = if important_poi(a) {
                tag_of(n.tags, "name"@)
            } else {
                None
            };
            seq![NodeMarkView::Poi { color: st.0, radius: st.1, label }]
        },
        None => seq![],
    }
}

/// The name of a place, when the node has a `place` tag and a name.
pub open spec fn place_part(n: Node, s: MapStyle) -> Seq<NodeMarkView> {
    match tag_of(n.tags, "place"@) {
        Some(p) => match tag_of(n.tags, "name"@) {
            Some(name) => seq![NodeMarkView::PlaceLabel { name, font_size: place_label_size(s, p) }],
            None => seq![],
        },
        None => seq![],
    }
}

/// Everything drawn at a node that lies in the picture, in drawing order.
pub open spec fn node_plan(n: Node, s: MapStyle) -> Seq<NodeMarkView> {
    poi_part(n, s) + place_part(n, s)
}

/// The layers from back to front.
pub open spec fn layer_stack() -> Seq<SvgLayer> {
    seq![
        SvgLayer::Water,
        SvgLayer::Landuse,
        SvgLayer::Aeroway,
        SvgLayer::Buildings,
        SvgLayer::Railway,
        SvgLayer::Roads,
        SvgLayer::Boundaries,
        SvgLayer::Pois,
        SvgLayer::Labels,
    ]
}

fn push_paint(v: &mut Vec<WayPaint>, p: WayPaint)
    ensures
        paint_views(final(v)@) == paint_views(old(v)@).push(p@),
{
    v.push(p);
    assert(paint_views(v@) =~= paint_views(old(v)@).push(p@));
}

fn push_mark(v: &mut Vec<NodeMark>, m: NodeMark)
    ensures
        mark_views(final(v)@) == mark_views(old(v)@).push(m@),
{
    v.push(m);
    assert(mark_views(v@) =~= mark_views(old(v)@).push(m@));
}

/// The layers of an exported map, from back to front.
pub fn layer_order() -> (r: Vec<SvgLayer>)
    ensures
        r@ == layer_stack(),
{
    let r = vec![
        SvgLayer::Water,
        SvgLayer::Landuse,
        SvgLayer::Aeroway,
        SvgLayer::Buildings,
        SvgLayer::Railway,
        SvgLayer::Roads,
        SvgLayer::Boundaries,
        SvgLayer::Pois,
        SvgLayer::Labels,
    ];
    assert(r@ =~= layer_stack());
    r
}

/// The layer that a way's shape is drawn in.
pub fn layer_of(p: &WayPaint) -> (l: SvgLayer)
    ensures
        l == paint_layer(p@),
{
    match p {
        WayPaint::Water { .. } => SvgLayer::Water,
        WayPaint::Area { layer, .. } => *layer,
        WayPaint::Building { .. } => SvgLayer::Buildings,
        WayPaint::RailLine { .. } => SvgLayer::Railway,
        WayPaint::RailDashes { .. } => SvgLayer::Railway,
        WayPaint::RoadBorder { .. } => SvgLayer::Roads,
        WayPaint::Road { .. } => SvgLayer::Roads,
        WayPaint::RoadLabel { .. } => SvgLayer::Labels,
        WayPaint::Boundary { .. } => SvgLayer::Boundaries,
    }
}

fn str_is(s: &str, lit: &str) -> (b: bool)
    ensures
        b == (s@ == lit@),
{
    owned(s) == owned(lit)
}

/// The tag value of `key`, copied.
fn tag_value(tags: &StrMap<String>, key: &str) -> (r: Option<String>)
    ensures
        opt_text(r) == (if tag_texts(tags@).dom().contains(key@) {
            Some(tag_texts(tags@)[key@])
        } else {
            None
        }),
{
    match tags.get(key) {
        Some(v) => Some(owned(v.as_str())),
        None => None,
    }
}

fn push_class(
    out: &mut Vec<WayPaint>,
    w: &Way,
    key: &str,
    colors: &StrMap<String>,
    layer: SvgLayer,
)
    ensures
        paint_views(final(out)@) == paint_views(old(out)@) + class_part(*w, key@, colors@, layer),
{
    let ghost before = paint_views(out@);
    match w.tags.get(key) {
        Some(v) => match colors.get(v.as_str()) {
            Some(c) => {
                push_paint(out, WayPaint::Area { layer, fill: owned(c.as_str()) });
            },
            None => {},
        },
        None => {},
    }
    assert(paint_views(out@) =~= before + class_part(*w, key@, colors@, layer));
}

fn push_road(out: &mut Vec<WayPaint>, w: &Way, style: &MapStyle, highway: &str)
    ensures
        paint_views(final(out)@) == paint_views(old(out)@) + road_body(*w, *style, highway@),
{
    let ghost before = paint_views(out@);
    let (color, width, border_color, border_width) = style.get_road_style(highway);
    if !border_color.is_empty() && 0 < border_width && border_width <= 0x7F80_0000 {
        push_paint(
            out,
            WayPaint::RoadBorder { color: owned(border_color), road_width: width, border_width },
        );
    }
    push_paint(out, WayPaint::Road { color: owned(color), width });
    let ghost mid = paint_views(out@);
    match w.tags.get("name") {
        Some(name) => {
            let chars = chars_of(name.as_str());
            let trimmed = trim_chars(chars.as_slice());
            if should_label_road(highway) && trimmed.len() > 0 {
                let size = style.get_road_label_font_size(highway);
                push_paint(out, WayPaint::RoadLabel { name: owned(name.as_str()), font_size: size });
            }
        },
        None => {},
    }
    assert(paint_views(out@) =~= mid + road_label_part(*w, *style, highway@));
    assert(paint_views(out@) =~= before + road_body(*w, *style, highway@));
}

fn push_water(out: &mut Vec<WayPaint>, way: &Way, style: &MapStyle)
    ensures
        paint_views(final(out)@) == paint_views(old(out)@) + water_part(*way, *style),
{
    let ghost before = paint_views(out@);
    if is_water_feature(way) {
        push_paint(
            out,
            WayPaint::Water { color: owned(style.water.color.as_str()), opacity: style.water.opacity },
        );
    }
    assert(paint_views(out@) =~= before + water_part(*way, *style));
}

fn push_aeroway(out: &mut Vec<WayPaint>, way: &Way, style: &MapStyle)
    ensures
        paint_views(final(out)@) == paint_views(old(out)@) + aeroway_part(*way, *style),
{
    let ghost before = paint_views(out@);
    if way.tags.contains_key("aeroway") {
        push_paint(
            out,
            WayPaint::Area { layer: SvgLayer::Aeroway, fill: owned(style.aeroway.default.as_str()) },
        );
    }
    assert(paint_views(out@) =~= before + aeroway_part(*way, *style));
}

fn push_building(out: &mut Vec<WayPaint>, way: &Way, style: &MapStyle)
    ensures
        paint_views(final(out)@) == paint_views(old(out)@) + building_part(*way, *style),
{
    let ghost before = paint_views(out@);
    if way.tags.contains_key("building") {
        push_paint(
            out,
            WayPaint::Building {
                fill: owned(style.buildings.fill.as_str()),
                stroke: owned(style.buildings.stroke.as_str()),
                stroke_width: style.buildings.stroke_width,
            },
        );
    }
    assert(paint_views(out@) =~= before + building_part(*way, *style));
}

fn push_railway(out: &mut Vec<WayPaint>, way: &Way, style: &MapStyle)
    ensures
        paint_views(final(out)@) == paint_views(old(out)@) + railway_part(*way, *style),
{
    let ghost before = paint_views(out@);
    let is_rail = match way.tags.get("railway") {
        Some(r) => str_is(r.as_str(), "rail"),
        None => false,
    };
    if is_rail {
        push_paint(
            out,
            WayPaint::RailLine {
                color: owned(style.railway.rail_color.as_str()),
                width: style.railway.rail_width,
            },
        );
        push_paint(
            out,
            WayPaint::RailDashes {
                color: owned(style.railway.rail_dash_color.as_str()),
                width: style.railway.rail_dash_width,
                pattern: owned(style.railway.rail_dash_pattern.as_str()),
            },
        );
    }
    assert(paint_views(out@) =~= before + railway_part(*way, *style));
}

fn push_highway(out: &mut Vec<WayPaint>, way: &Way, style: &MapStyle)
    ensures
        paint_views(final(out)@) == paint_views(old(out)@) + road_part(*way, *style),
{
    let ghost before = paint_views(out@);
    match way.tags.get("highway") {
        Some(h) => {
            push_road(out, way, style, h.as_str());
        },
        None => {},
    }
    assert(paint_views(out@) =~= before + road_part(*way, *style));
}

fn push_boundary(out: &mut Vec<WayPaint>, way: &Way, style: &MapStyle)
    ensures
        paint_views(final(out)@) == paint_views(old(out)@) + boundary_part(*way, *style),
{
    let ghost before = paint_views(out@);
    let is_admin = match way.tags.get("boundary") {
        Some(b) => str_is(b.as_str(), "administrative"),
        None => false,
    };
    if is_admin {
        push_paint(
            out,
            WayPaint::Boundary {
                color: owned(style.boundaries.administrative_color.as_str()),
                width: style.boundaries.administrative_width,
                dash: owned(style.boundaries.administrative_dash.as_str()),
                opacity: style.boundaries.administrative_opacity,
            },
        );
    }
    assert(paint_views(out@) =~= before + boundary_part(*way, *style));
}

/// Everything an SVG export draws along a way, in drawing order: water,
/// land use, leisure and natural areas, airport ground, a building, a
/// railway, a road with its border and label, an administrative boundary.
/// The shapes land in the layers that `layer_of` gives; a shape is drawn only
/// where the way's path can be built.
pub fn plan_way(way: &Way, style: &MapStyle) -> (r: Vec<WayPaint>)
    ensures
        paint_views(r@) == way_plan(*way, *style),
{
    let mut out: Vec<WayPaint> = Vec::new();
    assert(paint_views(out@) =~= Seq::<WayPaintView>::empty());
    push_water(&mut out, way, style);
    push_class(&mut out, way, "landuse", &style.landuse, SvgLayer::Landuse);
    push_class(&mut out, way, "leisure", &style.leisure, SvgLayer::Landuse);
    push_class(&mut out, way, "natural", &style.natural, SvgLayer::Landuse);
    push_aeroway(&mut out, way, style);
    push_building(&mut out, way, style);
    push_railway(&mut out, way, style);
    push_highway(&mut out, way, style);
    push_boundary(&mut out, way, style);
    assert(paint_views(out@) =~= way_plan(*way, *style));
    out
}

/// Everything an SVG export draws at a node that lies in the picture, in
/// drawing order: the point of an amenity (in the points layer, its name in
/// the labels layer), then the name of a place (in the labels layer).
pub fn plan_node(node: &Node, style: &MapStyle) -> (r: Vec<NodeMark>)
    ensures
        mark_views(r@) == node_plan(*node, *style),
{
    let mut out: Vec<NodeMark> = Vec::new();
    match node.tags.get("amenity") {
        Some(a) => {
            let (color, radius) = style.get_poi_style(a.as_str());
            let label = if is_important_poi(a.as_str()) {
                tag_value(&node.tags, "name")
            } else {
                None
            };
            push_mark(&mut out, NodeMark::Poi { color: owned(color), radius, label });
        },
        None => {},
    }
    assert(mark_views(out@) =~= poi_part(*node, *style));
    let ghost p1 = mark_views(out@);
    match node.tags.get("place") {
        Some(p) => match node.tags.get("name") {
            Some(name) => {
                let size = style.get_place_label_font_size(p.as_str());
                push_mark(&mut out, NodeMark::PlaceLabel { name: owned(name.as_str()), font_size: size });
            },
            None => {},
        },
        None => {},
    }
    assert(mark_views(out@) =~= p1 + place_part(*node, *style));
    out
}


/// The points of a way's SVG path: the coordinates of its nodes that the map
/// has, in order, and whether the path is closed (a closed way with more than
/// two such points). There is no path with fewer than two points.
pub open spec fn path_points(nodes: Map<i64, Node>, w: Way) -> Option<(Seq<Coord>, bool)> {
    let c = way_coords(nodes, w.nodes@);
    if c.len() < 2 {
        None
    } else {
        Some((c, w.is_closed && c.len() > 2))
    }
}

/// The node a road's label is placed at: the middle node of the way when the
/// map has it, else its first node when the map has that; none for a way of
/// fewer than two nodes.
pub open spec fn label_node(nodes: Map<i64, Node>, w: Way) -> Option<i64> {
    if w.nodes@.len() < 2 {
        None
    } else if nodes.dom().contains(w.nodes@[(w.nodes@.len() / 2) as int]) {
        Some(w.nodes@[(w.nodes@.len() / 2) as int])
    } else if nodes.dom().contains(w.nodes@[0]) {
        Some(w.nodes@[0])
    } else {
        None
    }
}

/// The points of a way's SVG path (see `path_points`).
pub fn svg_path_points(map_data: &MapData, way: &Way) -> (r: Option<(Vec<Coord>, bool)>)
    ensures
        match r {
            Some((v, closed)) => path_points(map_data.nodes@, *way) == Some((v@, closed)),
            None => path_points(map_data.nodes@, *way) is None,
        },
{
    let mut coords: Vec<Coord> = Vec::new();
    let n = way.nodes.len();
    for i in 0..n
        invariant
            n == way.nodes@.len(),
            coords@ == way_coords(map_data.nodes@, way.nodes@.take(i as int)),
    {
        let id = way.nodes[i];
        proof {
            assert(way.nodes@.take(i + 1).drop_last() =~= way.nodes@.take(i as int));
        }
        match map_data.nodes.get(&id) {
            Some(node) => {
                coords.push(Coord { x: node.lon, y: node.lat });
            },
            None => {},
        }
    }
    proof {
        assert(way.nodes@.take(n as int) =~= way.nodes@);
    }
    if coords.len() < 2 {
        return None;
    }
    let closed = way.is_closed && coords.len() > 2;
    Some((coords, closed))
}

/// The node a road's label is placed at (see `label_node`).
pub fn road_label_node(map_data: &MapData, way: &Way) -> (r: Option<i64>)
    ensures
        r == label_node(map_data.nodes@, *way),
{
    let n = way.nodes.len();
    if n < 2 {
        return None;
    }
    let mid = way.nodes[n / 2];
    if map_data.nodes.contains_key(&mid) {
        return Some(mid);
    }
    let first = way.nodes[0];
    if map_data.nodes.contains_key(&first) {
        Some(first)
    } else {
        None
    }
}


/// The position of a layer in the stack, counted from the back.
pub open spec fn layer_rank(l: SvgLayer) -> int {
    match l {
        SvgLayer::Water => 0,
        SvgLayer::Landuse => 1,
        SvgLayer::Aeroway => 2,
        SvgLayer::Buildings => 3,
        SvgLayer::Railway => 4,
        SvgLayer::Roads => 5,
        SvgLayer::Boundaries => 6,
        SvgLayer::Pois => 7,
        SvgLayer::Labels => 8,
    }
}

/// Every layer has exactly one place in the stack, so every shape of every
/// element is drawn; points of interest are drawn after roads and before
/// text labels, and water lies beneath everything else.
pub proof fn law_layer_stack(l: SvgLayer, m: SvgLayer)
    ensures
        0 <= layer_rank(l) < layer_stack().len(),
        layer_stack()[layer_rank(l)] == l,
        layer_rank(l) == layer_rank(m) ==> l == m,
        layer_rank(SvgLayer::Roads) < layer_rank(SvgLayer::Pois) < layer_rank(SvgLayer::Labels),
        layer_rank(SvgLayer::Water) <= layer_rank(l),
{
}


/// The id and the Inkscape label of a layer's group.
pub open spec fn layer_names(l: SvgLayer) -> (Seq<char>, Seq<char>) {
    match l {
        SvgLayer::Water => ("water"@, "Water"@),
        SvgLayer::Landuse => ("landuse"@, "Land Use"@),
        SvgLayer::Aeroway => ("aeroway"@, "Aeroway"@),
        SvgLayer::Buildings => ("buildings"@, "Buildings"@),
        SvgLayer::Railway => ("railway"@, "Railway"@),
        SvgLayer::Roads => ("roads"@, "Roads"@),
        SvgLayer::Boundaries => ("boundaries"@, "Boundaries"@),
        SvgLayer::Pois => ("pois"@, "Points of Interest"@),
        SvgLayer::Labels => ("labels"@, "Labels"@),
    }
}

/// The id and the Inkscape label of a layer's group (see `layer_names`).
pub fn layer_id(l: SvgLayer) -> (r: (&'static str, &'static str))
    ensures
        (r.0@, r.1@) == layer_names(l),
{
    match l {
        SvgLayer::Water => ("water", "Water"),
        SvgLayer::Landuse => ("landuse", "Land Use"),
        SvgLayer::Aeroway => ("aeroway", "Aeroway"),
        SvgLayer::Buildings => ("buildings", "Buildings"),
        SvgLayer::Railway => ("railway", "Railway"),
        SvgLayer::Roads => ("roads", "Roads"),
        SvgLayer::Boundaries => ("boundaries", "Boundaries"),
        SvgLayer::Pois => ("pois", "Points of Interest"),
        SvgLayer::Labels => ("labels", "Labels"),
    }
}

/// The position of a layer in the stack, from the back (see `layer_rank`).
pub fn layer_position(l: SvgLayer) -> (r: usize)
    ensures
        r == layer_rank(l),
{
    match l {
        SvgLayer::Water => 0,
        SvgLayer::Landuse => 1,
        SvgLayer::Aeroway => 2,
        SvgLayer::Buildings => 3,
        SvgLayer::Railway => 4,
        SvgLayer::Roads => 5,
        SvgLayer::Boundaries => 6,
        SvgLayer::Pois => 7,
        SvgLayer::Labels => 8,
    }
}


/// Whether a shape is a road border.
pub open spec fn is_border(p: WayPaintView) -> bool {
    p is RoadBorder
}

/// Whether every border in `v` is followed by a road line.
pub open spec fn borders_followed_by_roads(v: Seq<WayPaintView>) -> bool {
    forall|i: int| 0 <= i < v.len() && #[trigger] is_border(v[i]) ==> i + 1 < v.len() && v[i + 1] is Road
}

/// Whether `v` holds no border.
pub open spec fn no_borders(v: Seq<WayPaintView>) -> bool {
    forall|i: int| 0 <= i < v.len() ==> !#[trigger] is_border(v[i])
}

proof fn lemma_concat_borders(a: Seq<WayPaintView>, b: Seq<WayPaintView>)
    requires
        borders_followed_by_roads(a),
        borders_followed_by_roads(b),
    ensures
        borders_followed_by_roads(a + b),
{
    assert forall|i: int| 0 <= i < (a + b).len() && #[trigger] is_border((a + b)[i]) implies i + 1 < (a
        + b).len() && (a + b)[i + 1] is Road by {
        if i < a.len() {
            assert(is_border(a[i]));
        } else {
            assert((a + b)[i] == b[i - a.len()]);
            assert(is_border(b[i - a.len()]));
            assert((a + b)[i + 1] == b[i - a.len() + 1]);
        }
    }
}

proof fn lemma_no_borders(v: Seq<WayPaintView>)
    requires
        no_borders(v),
    ensures
        borders_followed_by_roads(v),
{
}

/// A road's border is always drawn just before the road line itself, so the
/// road is painted over its border.
pub proof fn law_border_under_road(w: Way, s: MapStyle)
    ensures
        borders_followed_by_roads(way_plan(w, s)),
{
    let parts = seq![
        water_part(w, s),
        class_part(w, "landuse"@, s.landuse@, SvgLayer::Landuse),
        class_part(w, "leisure"@, s.leisure@, SvgLayer::Landuse),
        class_part(w, "natural"@, s.natural@, SvgLayer::Landuse),
        aeroway_part(w, s),
        building_part(w, s),
        railway_part(w, s),
    ];
    assert forall|k: int| 0 <= k < parts.len() implies borders_followed_by_roads(#[trigger] parts[k]) by {
        assert(no_borders(parts[k]));
        lemma_no_borders(parts[k]);
    }
    let mut acc = water_part(w, s);
    assert(borders_followed_by_roads(parts[0]));
    lemma_concat_borders(acc, parts[1]);
    acc = acc + parts[1];
    lemma_concat_borders(acc, parts[2]);
    acc = acc + parts[2];
    lemma_concat_borders(acc, parts[3]);
    acc = acc + parts[3];
    lemma_concat_borders(acc, parts[4]);
    acc = acc + parts[4];
    lemma_concat_borders(acc, parts[5]);
    acc = acc + parts[5];
    lemma_concat_borders(acc, parts[6]);
    acc = acc + parts[6];
    match tag_of(w.tags, "highway"@) {
        Some(h) => {
            let st = road_style_of(s, h);
            let border = if st.2.len() > 0 && f32_positive(st.3) {
                seq![WayPaintView::RoadBorder { color: st.2, road_width: st.1, border_width: st.3 }]
            } else {
                seq![]
            };
            let road = seq![WayPaintView::Road { color: st.0, width: st.1 }];
            let label = road_label_part(w, s, h);
            assert(no_borders(label));
            assert(borders_followed_by_roads(border + road + label)) by {
                let v = border + road + label;
                assert forall|i: int| 0 <= i < v.len() && #[trigger] is_border(v[i]) implies i + 1
                    < v.len() && v[i + 1] is Road by {
                    if i >= border.len() + 1 {
                        assert(v[i] == label[i - border.len() - 1]);
                    } else if i == border.len() {
                        assert(v[i] == road[0]);
                    } else {
                        assert(v[i + 1] == road[0]);
                    }
                }
            }
            assert(road_part(w, s) == border + road + label);
        },
        None => {
            assert(no_borders(road_part(w, s)));
        },
    }
    lemma_concat_borders(acc, road_part(w, s));
    acc = acc + road_part(w, s);
    assert(no_borders(boundary_part(w, s)));
    lemma_concat_borders(acc, boundary_part(w, s));
    acc = acc + boundary_part(w, s);
    assert(acc =~= way_plan(w, s));
}

/// Whether a shape is a road's name label.
pub open spec fn is_road_label(p: WayPaintView) -> bool {
    p is RoadLabel
}

/// Whether `v` holds a road's name label.
pub open spec fn has_road_label(v: Seq<WayPaintView>) -> bool {
    exists|i: int| 0 <= i < v.len() && #[trigger] is_road_label(v[i])
}

/// Whether every road label in `v` shows the name `n`.
pub open spec fn labels_show(v: Seq<WayPaintView>, n: Seq<char>) -> bool {
    forall|i: int| 0 <= i < v.len() && #[trigger] is_road_label(v[i]) ==> v[i]->RoadLabel_name == n
}

proof fn lemma_concat_labels(a: Seq<WayPaintView>, b: Seq<WayPaintView>, n: Seq<char>)
    ensures
        has_road_label(a + b) <==> (has_road_label(a) || has_road_label(b)),
        labels_show(a, n) && labels_show(b, n) ==> labels_show(a + b, n),
{
    if has_road_label(a + b) {
        let i = choose|i: int| 0 <= i < (a + b).len() && #[trigger] is_road_label((a + b)[i]);
        if i < a.len() {
            assert(is_road_label(a[i]));
        } else {
            assert((a + b)[i] == b[i - a.len()]);
            assert(is_road_label(b[i - a.len()]));
        }
    }
    if has_road_label(a) {
        let i = choose|i: int| 0 <= i < a.len() && #[trigger] is_road_label(a[i]);
        assert((a + b)[i] == a[i]);
        assert(is_road_label((a + b)[i]));
    }
    if has_road_label(b) {
        let i = choose|i: int| 0 <= i < b.len() && #[trigger] is_road_label(b[i]);
        assert((a + b)[a.len() + i] == b[i]);
        assert(is_road_label((a + b)[a.len() + i]));
    }
    if labels_show(a, n) && labels_show(b, n) {
        assert forall|i: int| 0 <= i < (a + b).len() && #[trigger] is_road_label((a + b)[i]) implies (a
            + b)[i]->RoadLabel_name == n by {
            if i < a.len() {
                assert(is_road_label(a[i]));
            } else {
                assert((a + b)[i] == b[i - a.len()]);
                assert(is_road_label(b[i - a.len()]));
            }
        }
    }
}

/// Whether a way is a road of a labeled class with a name that is not blank.
pub open spec fn named_labeled_road(w: Way) -> bool {
    match tag_of(w.tags, "highway"@) {
        Some(h) => (h == "motorway"@ || h == "trunk"@ || h == "primary"@ || h == "secondary"@ || h
            == "tertiary"@ || h == "motorway_link"@ || h == "trunk_link"@ || h == "primary_link"@ || h
            == "secondary_link"@ || h == "residential"@ || h == "unclassified"@ || h == "service"@)
            && match tag_of(w.tags, "name"@) {
            Some(n) => trim(n).len() > 0,
            None => false,
        },
        None => false,
    }
}

/// An SVG export labels a way with its name exactly when the way is a road of
/// a labeled class (motorway, trunk, primary, secondary, tertiary, the first
/// four's link roads, residential, unclassified, service) whose name is not
/// blank; the label shows the way's name, in the road label size of its class.
pub proof fn law_road_labels(w: Way, s: MapStyle)
    ensures
        has_road_label(way_plan(w, s)) <==> named_labeled_road(w),
        named_labeled_road(w) ==> way_plan(w, s).contains(
            WayPaintView::RoadLabel {
                name: tag_of(w.tags, "name"@)->0,
                font_size: road_label_size(s, tag_of(w.tags, "highway"@)->0),
            },
        ),
        labels_show(way_plan(w, s), tag_of(w.tags, "name"@)->0),
{
    let n = tag_of(w.tags, "name"@)->0;
    let parts = seq![
        water_part(w, s),
        class_part(w, "landuse"@, s.landuse@, SvgLayer::Landuse),
        class_part(w, "leisure"@, s.leisure@, SvgLayer::Landuse),
        class_part(w, "natural"@, s.natural@, SvgLayer::Landuse),
        aeroway_part(w, s),
        building_part(w, s),
        railway_part(w, s),
        boundary_part(w, s),
    ];
    assert forall|k: int| 0 <= k < parts.len() implies !has_road_label(#[trigger] parts[k])
        && labels_show(parts[k], n) by {
        assert(forall|i: int| 0 <= i < parts[k].len() ==> !#[trigger] is_road_label(parts[k][i]));
    }
    let mut acc = parts[0];
    lemma_concat_labels(acc, parts[1], n);
    acc = acc + parts[1];
    lemma_concat_labels(acc, parts[2], n);
    acc = acc + parts[2];
    lemma_concat_labels(acc, parts[3], n);
    acc = acc + parts[3];
    lemma_concat_labels(acc, parts[4], n);
    acc = acc + parts[4];
    lemma_concat_labels(acc, parts[5], n);
    acc = acc + parts[5];
    lemma_concat_labels(acc, parts[6], n);
    acc = acc + parts[6];
    let road = road_part(w, s);
    match tag_of(w.tags, "highway"@) {
        Some(h) => {
            crate::export::law_labeled_road_classes(h);
            let st = road_style_of(s, h);
            let border = if st.2.len() > 0 && f32_positive(st.3) {
                seq![WayPaintView::RoadBorder { color: st.2, road_width: st.1, border_width: st.3 }]
            } else {
                seq![]
            };
            let line = seq![WayPaintView::Road { color: st.0, width: st.1 }];
            let label = road_label_part(w, s, h);
            assert(!has_road_label(border) && labels_show(border, n)) by {
                assert(forall|i: int| 0 <= i < border.len() ==> !#[trigger] is_road_label(border[i]));
            }
            assert(!has_road_label(line) && labels_show(line, n)) by {
                assert(!is_road_label(line[0]));
            }
            assert(labels_show(label, n));
            assert(has_road_label(label) <==> named_labeled_road(w)) by {
                if named_labeled_road(w) {
                    assert(is_road_label(label[0]));
                }
            }
            lemma_concat_labels(border, line, n);
            lemma_concat_labels(border + line, label, n);
            assert(road == border + line + label);
            if named_labeled_road(w) {
                let lab = WayPaintView::RoadLabel { name: n, font_size: road_label_size(s, h) };
                let whole = acc + road + parts[7];
                assert(whole[(acc.len() + border.len() + 1) as int] == lab);
            }
        },
        None => {
            assert(road == Seq::<WayPaintView>::empty());
            assert(!has_road_label(road) && labels_show(road, n));
        },
    }
    lemma_concat_labels(acc, road, n);
    lemma_concat_labels(acc + road, parts[7], n);
    assert(way_plan(w, s) == acc + road + parts[7]);
}

} // verus!
