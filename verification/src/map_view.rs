//! What the map view decides about map elements: which nodes can be
//! selected, their point-of-interest type, the style section an element's
//! tags point to, and how stylesheet selectors match ways and nodes.
use vstd::prelude::*;
use crate::data::{Node, Way};
use crate::parsers::owned;
use crate::stylesheet::{
    FeatureSelector, ElementType as SelectorElement, SelectorView, char_index_of_byte, utf8_len,
    hex_slices_ok, hex_piece, utf8_len_is, hex_piece_of, lemma_index_prefix, lemma_len_is,
    char_index,
};
use crate::tags::{Tags, tag_texts};
use crate::export::tag_of;
use crate::map_style::{MapStyle, class_color, road_style_of, poi_style_of};
use crate::gui::GuiState;
use crate::stylesheet::opt_text;
use crate::text::{strip_prefixes, parse_u8_spec, chars_of, string_of, strip_prefixes_of, parse_u8_radix};

verus! {

/// The kind of a selected element.
#[derive(Clone, Copy, Debug, PartialEq, Eq, Structural)]
pub enum ElementType {
    Way,
    Node,
    Relation,
}

/// Where an element's style lives: its category, subcategory and the
/// section of the style file.
pub struct StyleInfo {
    pub category: String,
    pub subcategory: String,
    pub toml_section: String,
}

/// A selected map element and the style information of its tags.
pub struct SelectedElement {
    pub element_type: ElementType,
    pub element_id: i64,
    pub tags: Tags,
    pub style_info: StyleInfo,
}

/// Style information as plain values.
pub struct StyleInfoView {
    pub category: Seq<char>,
    pub subcategory: Seq<char>,
    pub toml_section: Seq<char>,
}

impl View for StyleInfo {
    type V = StyleInfoView;

    open spec fn view(&self) -> StyleInfoView {
        StyleInfoView {
            category: self.category@,
            subcategory: self.subcategory@,
            toml_section: self.toml_section@,
        }
    }
}

/// The style information of `c`, `s`, `t`.
pub open spec fn info(c: Seq<char>, s: Seq<char>, t: Seq<char>) -> StyleInfoView {
    StyleInfoView { category: c, subcategory: s, toml_section: t }
}

/// The style information that tags point to: the first of road, building,
/// natural, land use, leisure, water, amenity, shop, tourism, railway,
/// aeroway and boundary that applies, else a generic element.
pub open spec fn style_info_of(tags: Map<Seq<char>, Seq<char>>) -> StyleInfoView {
    if tags.dom().contains("highway"@) {
        info("road"@, tags["highway"@], "roads."@ + tags["highway"@])
    } else if tags.dom().contains("building"@) {
        info("building"@, tags["building"@], "buildings"@)
    } else if tags.dom().contains("natural"@) {
        info("natural"@, tags["natural"@], "natural"@)
    } else if tags.dom().contains("landuse"@) {
        info("landuse"@, tags["landuse"@], "landuse"@)
    } else if tags.dom().contains("leisure"@) {
        info("leisure"@, tags["leisure"@], "leisure"@)
    } else if tags.dom().contains("waterway"@) {
        info("water"@, tags["waterway"@], "water"@)
    } else if tags.dom().contains("amenity"@) {
        info("poi"@, tags["amenity"@], "pois."@ + tags["amenity"@])
    } else if tags.dom().contains("shop"@) {
        info("poi"@, "shop_"@ + tags["shop"@], "pois.shop_"@ + tags["shop"@])
    } else if tags.dom().contains("tourism"@) {
        info("poi"@, "tourism_"@ + tags["tourism"@], "pois.tourism_"@ + tags["tourism"@])
    } else if tags.dom().contains("railway"@) {
        info("railway"@, tags["railway"@], "railway"@)
    } else if tags.dom().contains("aeroway"@) {
        info("aeroway"@, tags["aeroway"@], "aeroway"@)
    } else if tags.dom().contains("admin_level"@) {
        info("boundary"@, "administrative"@, "boundaries"@)
    } else {
        info("unknown"@, "generic"@, "unknown"@)
    }
}

/// The point-of-interest type of a node's tags.
pub open spec fn poi_type_of(tags: Map<Seq<char>, Seq<char>>) -> Option<Seq<char>> {
    if tags.dom().contains("amenity"@) {
        Some(tags["amenity"@])
    } else if tags.dom().contains("shop"@) {
        Some("shop_"@ + tags["shop"@])
    } else if tags.dom().contains("tourism"@) {
        Some("tourism_"@ + tags["tourism"@])
    } else if tags.dom().contains("leisure"@) {
        Some("leisure_"@ + tags["leisure"@])
    } else if tags.dom().contains("office"@) {
        Some("office_"@ + tags["office"@])
    } else if tags.dom().contains("healthcare"@) {
        Some("healthcare_"@ + tags["healthcare"@])
    } else if tags.dom().contains("public_transport"@) {
        Some("public_transport"@)
    } else if tags.dom().contains("place"@) {
        Some("place_"@ + tags["place"@])
    } else {
        None
    }
}

/// Whether a node with these tags can be selected: it is a point of
/// interest or feature, or it has a name and another tag.
pub open spec fn selectable(tags: Map<Seq<char>, Seq<char>>) -> bool {
    ||| tags.dom().contains("amenity"@)
    ||| tags.dom().contains("shop"@)
    ||| tags.dom().contains("tourism"@)
    ||| tags.dom().contains("leisure"@)
    ||| tags.dom().contains("office"@)
    ||| tags.dom().contains("craft"@)
    ||| tags.dom().contains("emergency"@)
    ||| tags.dom().contains("historic"@)
    ||| tags.dom().contains("natural"@)
    ||| tags.dom().contains("barrier"@)
    ||| (tags.dom().contains("name"@) && tags.dom().len() > 1)
}

/// Whether a selector picks an element of kind `et` with these tags for the
/// map view: a tag selector as in styling, an element-type selector naming
/// `et`; a zoom range never.
pub open spec fn view_selector_matches(s: SelectorView, tags: Map<Seq<char>, Seq<char>>, et: SelectorElement) -> bool {
    match s {
        SelectorView::Tag { key, value } => tags.dom().contains(key) && match value {
            Some(v) => tags[key] == v,
            None => true,
        },
        SelectorView::ElementType(t) => t == et,
        SelectorView::ZoomRange { .. } => false,
    }
}

/// Whether some selector picks the element.
pub open spec fn view_selectors_match(s: Seq<SelectorView>, tags: Map<Seq<char>, Seq<char>>, et: SelectorElement) -> bool {
    exists|i: int| 0 <= i < s.len() && #[trigger] view_selector_matches(s[i], tags, et)
}

/// The gray used when a color text is not `#RRGGBB`.
pub open spec fn gray() -> (u8, u8, u8) {
    (128, 128, 128)
}

/// The channels of a `#RRGGBB` text (any number of leading `#`), or gray.
pub open spec fn rgb_of_hex(text: Seq<char>) -> (u8, u8, u8) {
    let h = strip_prefixes(text, "#"@);
    if utf8_len(h) == 6 {
        match (
            parse_u8_spec(hex_piece(h, 0), 16),
            parse_u8_spec(hex_piece(h, 1), 16),
            parse_u8_spec(hex_piece(h, 2), 16),
        ) {
            (Some(r), Some(g), Some(b)) => (r, g, b),
            _ => gray(),
        }
    } else {
        gray()
    }
}

/// Whether slicing the text into two-byte pieces does not panic.
pub open spec fn hex_rgb_slices_ok(text: Seq<char>) -> bool {
    let h = strip_prefixes(text, "#"@);
    utf8_len(h) == 6 ==> hex_slices_ok(h, 3)
}

// ---------------------------------------------------------------------------
// Executable functions
// ---------------------------------------------------------------------------

/// The text `a` followed by `b`.
fn concat(a: &str, b: &String) -> (r: String)
    ensures
        r@ == a@ + b@,
{
    let mut cs = chars_of(a);
    let mut rest = chars_of(b.as_str());
    cs.append(&mut rest);
    string_of(cs.as_slice())
}

/// The tag value of `key`.
fn tag<'a>(tags: &'a Tags, key: &str) -> (r: Option<&'a String>)
    ensures
        match r {
            Some(v) => tag_texts(tags@).dom().contains(key@) && v@ == tag_texts(tags@)[key@],
            None => !tag_texts(tags@).dom().contains(key@),
        },
{
    tags.get(key)
}

fn make_info(c: &str, s: String, t: String) -> (r: StyleInfo)
    ensures
        r@ == info(c@, s@, t@),
{
    StyleInfo { category: owned(c), subcategory: s, toml_section: t }
}

/// The style information that an element's tags point to.
pub fn determine_style_info(tags: &Tags) -> (r: StyleInfo)
    ensures
        r@ == style_info_of(tag_texts(tags@)),
{
    if let Some(v) = tag(tags, "highway") {
        return make_info("road", v.clone(), concat("roads.", v));
    }
    if let Some(v) = tag(tags, "building") {
        return make_info("building", v.clone(), owned("buildings"));
    }
    if let Some(v) = tag(tags, "natural") {
        return make_info("natural", v.clone(), owned("natural"));
    }
    if let Some(v) = tag(tags, "landuse") {
        return make_info("landuse", v.clone(), owned("landuse"));
    }
    if let Some(v) = tag(tags, "leisure") {
        return make_info("leisure", v.clone(), owned("leisure"));
    }
    if let Some(v) = tag(tags, "waterway") {
        return make_info("water", v.clone(), owned("water"));
    }
    if let Some(v) = tag(tags, "amenity") {
        return make_info("poi", v.clone(), concat("pois.", v));
    }
    if let Some(v) = tag(tags, "shop") {
        return make_info("poi", concat("shop_", v), concat("pois.shop_", v));
    }
    if let Some(v) = tag(tags, "tourism") {
        return make_info("poi", concat("tourism_", v), concat("pois.tourism_", v));
    }
    if let Some(v) = tag(tags, "railway") {
        return make_info("railway", v.clone(), owned("railway"));
    }
    if let Some(v) = tag(tags, "aeroway") {
        return make_info("aeroway", v.clone(), owned("aeroway"));
    }
    if tags.contains_key("admin_level") {
        return make_info("boundary", owned("administrative"), owned("boundaries"));
    }
    make_info("unknown", owned("generic"), owned("unknown"))
}

/// The point-of-interest type of a node.
pub fn get_poi_type(node: &Node) -> (r: Option<String>)
    ensures
        match r {
            Some(t) => poi_type_of(tag_texts(node.tags@)) == Some(t@),
            None => poi_type_of(tag_texts(node.tags@)) is None,
        },
{
    let tags = &node.tags;
    if let Some(v) = tag(tags, "amenity") {
        return Some(v.clone());
    }
    if let Some(v) = tag(tags, "shop") {
        return Some(concat("shop_", v));
    }
    if let Some(v) = tag(tags, "tourism") {
        return Some(concat("tourism_", v));
    }
    if let Some(v) = tag(tags, "leisure") {
        return Some(concat("leisure_", v));
    }
    if let Some(v) = tag(tags, "office") {
        return Some(concat("office_", v));
    }
    if let Some(v) = tag(tags, "healthcare") {
        return Some(concat("healthcare_", v));
    }
    if tags.contains_key("public_transport") {
        return Some(owned("public_transport"));
    }
    if let Some(v) = tag(tags, "place") {
        return Some(concat("place_", v));
    }
    None
}

/// Whether a node can be selected in the map view.
pub fn is_selectable_node(node: &Node) -> (b: bool)
    ensures
        b == selectable(tag_texts(node.tags@)),
{
    let t = &node.tags;
    proof {
        assert(tag_texts(t@).dom() == t@.dom());
    }
    t.contains_key("amenity") || t.contains_key("shop") || t.contains_key("tourism")
        || t.contains_key("leisure") || t.contains_key("office") || t.contains_key("craft")
        || t.contains_key("emergency") || t.contains_key("historic") || t.contains_key("natural")
        || t.contains_key("barrier") || (t.contains_key("name") && t.len() > 1)
}

/// Whether a selector picks an element.
fn selectors_match(tags: &Tags, selectors: &[FeatureSelector], et: SelectorElement) -> (b: bool)
    ensures
        b == view_selectors_match(
            selectors@.map_values(|s: FeatureSelector| s@),
            tag_texts(tags@),
            et,
        ),
{
    let ghost sv = selectors@.map_values(|s: FeatureSelector| s@);
    let n = selectors.len();
    for i in 0..n
        invariant
            n == selectors@.len(),
            sv == selectors@.map_values(|s: FeatureSelector| s@),
            forall|j: int| 0 <= j < i ==> !#[trigger] view_selector_matches(sv[j], tag_texts(tags@), et),
    {
        let hit = match &selectors[i] {
            FeatureSelector::Tag { key, value } => match tag(tags, key.as_str()) {
                Some(tv) => match value {
                    Some(expected) => *tv == *expected,
                    None => true,
                },
                None => false,
            },
            FeatureSelector::ElementType(t) => *t == et,
            FeatureSelector::ZoomRange { .. } => false,
        };
        assert(sv[i as int] == selectors@[i as int]@);
        if hit {
            assert(view_selector_matches(sv[i as int], tag_texts(tags@), et));
            return true;
        }
    }
    false
}

/// Whether some selector picks the way.
pub fn matches_way_selectors(way: &Way, selectors: &[FeatureSelector]) -> (b: bool)
    ensures
        b == view_selectors_match(
            selectors@.map_values(|s: FeatureSelector| s@),
            tag_texts(way.tags@),
            SelectorElement::Way,
        ),
{
    selectors_match(&way.tags, selectors, SelectorElement::Way)
}

/// Whether some selector picks the node.
pub fn matches_node_selectors(node: &Node, selectors: &[FeatureSelector]) -> (b: bool)
    ensures
        b == view_selectors_match(
            selectors@.map_values(|s: FeatureSelector| s@),
            tag_texts(node.tags@),
            SelectorElement::Node,
        ),
{
    selectors_match(&node.tags, selectors, SelectorElement::Node)
}

/// Whether `hex_to_rgb` slices `hex` safely (`hex_rgb_slices_ok`).
pub fn rgb_slices_ok(hex: &str) -> (b: bool)
    ensures
        b == hex_rgb_slices_ok(hex@),
{
    let cs = chars_of(hex);
    let mark = chars_of("#");
    let h = strip_prefixes_of(cs.as_slice(), mark.as_slice());
    if !utf8_len_is(h.as_slice(), 6) {
        return true;
    }
    let a = char_index(h.as_slice(), 2).is_some();
    let b = char_index(h.as_slice(), 4).is_some();
    proof {
        assert(hex_slices_ok(h@, 3) == (char_index_of_byte(h@, 2) is Some && char_index_of_byte(
            h@,
            4,
        ) is Some)) by {
            assert(char_index_of_byte(h@, 2 * 1) is Some == char_index_of_byte(h@, 2) is Some);
            assert(char_index_of_byte(h@, 2 * 2) is Some == char_index_of_byte(h@, 4) is Some);
        }
    }
    a && b
}

/// The channels of a `#RRGGBB` color text, or gray when it is not one.
pub fn hex_to_rgb(hex: &str) -> (r: (u8, u8, u8))
    requires
        hex_rgb_slices_ok(hex@),
    ensures
        r == rgb_of_hex(hex@),
{
    let cs = chars_of(hex);
    let mark = chars_of("#");
    let h = strip_prefixes_of(cs.as_slice(), mark.as_slice());
    if !utf8_len_is(h.as_slice(), 6) {
        return (128, 128, 128);
    }
    proof {
        lemma_index_prefix(h@, 0, 0);
        lemma_len_is(h@, 6);
        assert(char_index_of_byte(h@, 2 * 1) is Some);
        assert(char_index_of_byte(h@, 2 * 2) is Some);
    }
    let p0 = hex_piece_of(h.as_slice(), 0);
    let p1 = hex_piece_of(h.as_slice(), 1);
    let p2 = hex_piece_of(h.as_slice(), 2);
    match (
        parse_u8_radix(p0.as_slice(), 16),
        parse_u8_radix(p1.as_slice(), 16),
        parse_u8_radix(p2.as_slice(), 16),
    ) {
        (Some(r), Some(g), Some(b)) => (r, g, b),
        _ => (128, 128, 128),
    }
}

/// The label of a geocoding result's place type.
pub open spec fn place_type_label_of(t: Seq<char>) -> Seq<char> {
    if t == "city"@ || t == "town"@ || t == "village"@ {
        "Settlement"@
    } else if t == "house"@ || t == "building"@ {
        "Building"@
    } else if t == "road"@ || t == "street"@ {
        "Street"@
    } else if t == "country"@ {
        "Country"@
    } else if t == "state"@ {
        "State"@
    } else if t == "county"@ {
        "County"@
    } else if t == "postcode"@ {
        "Postal Code"@
    } else if t == "amenity"@ {
        "Amenity"@
    } else if t == "shop"@ {
        "Shop"@
    } else if t == "leisure"@ {
        "Leisure"@
    } else if t == "tourism"@ {
        "Tourism"@
    } else {
        "Other"@
    }
}

fn text_is(s: &str, lit: &str) -> (b: bool)
    ensures
        b == (s@ == lit@),
{
    owned(s) == owned(lit)
}

/// The label of a geocoding result's place type (a Nominatim `type`).
pub fn place_type_label(place_type: &str) -> (r: String)
    ensures
        r@ == place_type_label_of(place_type@),
{
    let t = place_type;
    if text_is(t, "city") || text_is(t, "town") || text_is(t, "village") {
        owned("Settlement")
    } else if text_is(t, "house") || text_is(t, "building") {
        owned("Building")
    } else if text_is(t, "road") || text_is(t, "street") {
        owned("Street")
    } else if text_is(t, "country") {
        owned("Country")
    } else if text_is(t, "state") {
        owned("State")
    } else if text_is(t, "county") {
        owned("County")
    } else if text_is(t, "postcode") {
        owned("Postal Code")
    } else if text_is(t, "amenity") {
        owned("Amenity")
    } else if text_is(t, "shop") {
        owned("Shop")
    } else if text_is(t, "leisure") {
        owned("Leisure")
    } else if text_is(t, "tourism") {
        owned("Tourism")
    } else {
        owned("Other")
    }
}


/// The color text and line width (binary32 bits) that the map view draws a
/// way with: a road's style, a building's fill and stroke width, water for
/// waterways (width 2) and natural water (width 1), else the color of its
/// land use, leisure or natural class (width 1); `None` stands for the
/// default gray, with width 1.
pub open spec fn way_view_style(w: Way, s: MapStyle) -> (Option<Seq<char>>, u32) {
    match tag_of(w.tags, "highway"@) {
        Some(h) => (Some(road_style_of(s, h).0), road_style_of(s, h).1),
        None => if tag_texts(w.tags@).dom().contains("building"@) {
            (Some(s.buildings.fill@), s.buildings.stroke_width)
        } else if tag_texts(w.tags@).dom().contains("waterway"@) {
            (Some(s.water.color@), 0x4000_0000)
        } else if tag_of(w.tags, "natural"@) == Some("water"@) {
            (Some(s.water.color@), 0x3F80_0000)
        } else {
            let landuse = match tag_of(w.tags, "landuse"@) {
                Some(v) => class_color(s.landuse@, v),
                None => None,
            };
            let leisure = match tag_of(w.tags, "leisure"@) {
                Some(v) => class_color(s.leisure@, v),
                None => None,
            };
            let natural = match tag_of(w.tags, "natural"@) {
                Some(v) => class_color(s.natural@, v),
                None => None,
            };
            if landuse is Some {
                (landuse, 0x3F80_0000)
            } else if leisure is Some {
                (leisure, 0x3F80_0000)
            } else {
                (natural, 0x3F80_0000)
            }
        },
    }
}

/// The color text and radius (binary32 bits) that the map view draws a node
/// with: the point style of its amenity, else of its shop, else of its
/// tourism value; `None` stands for the default gray, with radius 1.
pub open spec fn node_view_style(n: Node, s: MapStyle) -> (Option<Seq<char>>, u32) {
    match tag_of(n.tags, "amenity"@) {
        Some(a) => (Some(poi_style_of(s, a).0), poi_style_of(s, a).1),
        None => match tag_of(n.tags, "shop"@) {
            Some(a) => (Some(poi_style_of(s, a).0), poi_style_of(s, a).1),
            None => match tag_of(n.tags, "tourism"@) {
                Some(a) => (Some(poi_style_of(s, a).0), poi_style_of(s, a).1),
                None => (None, 0x3F80_0000),
            },
        },
    }
}

/// The color a class map gives to the value of tag `key`.
fn class_color_of(tags: &Tags, key: &str, colors: &crate::tags::StrMap<String>) -> (r: Option<String>)
    ensures
        crate::stylesheet::opt_text(r) == match tag_of(*tags, key@) {
            Some(v) => class_color(colors@, v),
            None => None,
        },
{
    match tags.get(key) {
        Some(v) => match colors.get(v.as_str()) {
            Some(c) => Some(owned(c.as_str())),
            None => None,
        },
        None => None,
    }
}

/// The color text and line width of a way in the map view (see `way_view_style`).
pub fn get_way_style(way: &Way, style: &MapStyle) -> (r: (Option<String>, u32))
    ensures
        (crate::stylesheet::opt_text(r.0), r.1) == way_view_style(*way, *style),
{
    match way.tags.get("highway") {
        Some(h) => {
            let (color, width, _, _) = style.get_road_style(h.as_str());
            return (Some(owned(color)), width);
        },
        None => {},
    }
    if way.tags.contains_key("building") {
        return (Some(owned(style.buildings.fill.as_str())), style.buildings.stroke_width);
    }
    if way.tags.contains_key("waterway") {
        return (Some(owned(style.water.color.as_str())), 0x4000_0000);
    }
    let natural_water = match way.tags.get("natural") {
        Some(n) => text_is(n.as_str(), "water"),
        None => false,
    };
    if natural_water {
        return (Some(owned(style.water.color.as_str())), 0x3F80_0000);
    }
    let landuse = class_color_of(&way.tags, "landuse", &style.landuse);
    if landuse.is_some() {
        return (landuse, 0x3F80_0000);
    }
    let leisure = class_color_of(&way.tags, "leisure", &style.leisure);
    if leisure.is_some() {
        return (leisure, 0x3F80_0000);
    }
    let natural = class_color_of(&way.tags, "natural", &style.natural);
    (natural, 0x3F80_0000)
}

/// The color text and radius of a node in the map view (see `node_view_style`).
pub fn get_node_style(node: &Node, style: &MapStyle) -> (r: (Option<String>, u32))
    ensures
        (crate::stylesheet::opt_text(r.0), r.1) == node_view_style(*node, *style),
{
    let key = if node.tags.contains_key("amenity") {
        "amenity"
    } else if node.tags.contains_key("shop") {
        "shop"
    } else if node.tags.contains_key("tourism") {
        "tourism"
    } else {
        return (None, 0x3F80_0000);
    };
    match node.tags.get(key) {
        Some(v) => {
            let (color, radius) = style.get_poi_style(v.as_str());
            (Some(owned(color)), radius)
        },
        None => (None, 0x3F80_0000),
    }
}


/// One shape the map view draws along a way, in one of its drawing passes.
pub enum ViewPaint {
    /// A closed water area: the style's water color and opacity.
    Water { color: String, opacity: u32 },
    /// A closed land use, leisure or natural area.
    Area { fill: String },
    /// A closed building; `None` stands for the default gray.
    Building { color: Option<String>, stroke_width: u32 },
    /// The casing of a road: its border color and width.
    RoadCasing { color: String, width: u32 },
    /// A road line; `None` stands for the default gray.
    RoadFill { color: Option<String>, width: u32 },
    /// A railway, drawn dashed.
    Rail { color: String, width: u32 },
}

/// A map-view shape as plain values.
pub enum ViewPaintView {
    Water { color: Seq<char>, opacity: u32 },
    Area { fill: Seq<char> },
    Building { color: Option<Seq<char>>, stroke_width: u32 },
    RoadCasing { color: Seq<char>, width: u32 },
    RoadFill { color: Option<Seq<char>>, width: u32 },
    Rail { color: Seq<char>, width: u32 },
}

impl View for ViewPaint {
    type V = ViewPaintView;

    open spec fn view(&self) -> ViewPaintView {
        match self {
            ViewPaint::Water { color, opacity } => ViewPaintView::Water { color: color@, opacity: *opacity },
            ViewPaint::Area { fill } => ViewPaintView::Area { fill: fill@ },
            ViewPaint::Building { color, stroke_width } => ViewPaintView::Building {
                color: opt_text(*color),
                stroke_width: *stroke_width,
            },
            ViewPaint::RoadCasing { color, width } => ViewPaintView::RoadCasing { color: color@, width: *width },
            ViewPaint::RoadFill { color, width } => ViewPaintView::RoadFill { color: opt_text(*color), width: *width },
            ViewPaint::Rail { color, width } => ViewPaintView::Rail { color: color@, width: *width },
        }
    }
}

/// The drawing pass of a map-view shape: water, areas, buildings, road
/// casings, road fills, railways.
pub open spec fn view_pass(p: ViewPaintView) -> nat {
    match p {
        ViewPaintView::Water { .. } => 0,
        ViewPaintView::Area { .. } => 1,
        ViewPaintView::Building { .. } => 2,
        ViewPaintView::RoadCasing { .. } => 3,
        ViewPaintView::RoadFill { .. } => 4,
        ViewPaintView::Rail { .. } => 5,
    }
}

/// Whether a way's tags make it water in the map view.
pub open spec fn view_water_tags(t: Map<Seq<char>, Seq<char>>) -> bool {
    (t.dom().contains("natural"@) && t["natural"@] == "water"@) || t.dom().contains("waterway"@)
        || t.dom().contains("water"@)
}

/// The fill of a closed area: the color of its land use class when it has
/// a land use tag, else of its leisure class when it has a leisure tag, else
/// of its natural class.
pub open spec fn view_area_fill(w: Way, s: MapStyle) -> Option<Seq<char>> {
    match tag_of(w.tags, "landuse"@) {
        Some(v) => class_color(s.landuse@, v),
        None => match tag_of(w.tags, "leisure"@) {
            Some(v) => class_color(s.leisure@, v),
            None => match tag_of(w.tags, "natural"@) {
                Some(v) => class_color(s.natural@, v),
                None => None,
            },
        },
    }
}

/// The shapes the map view draws along a way, in pass order, given the
/// layers that are shown.
pub open spec fn view_plan(w: Way, s: MapStyle, g: GuiState) -> Seq<ViewPaintView> {
    let t = tag_texts(w.tags@);
    let water = if g.show_water && w.is_closed && view_water_tags(t) {
        seq![ViewPaintView::Water { color: s.water.color@, opacity: s.water.opacity }]
    } else {
        seq![]
    };
    let area = if g.show_landuse && w.is_closed {
        match view_area_fill(w, s) {
            Some(c) => seq![ViewPaintView::Area { fill: c }],
            None => seq![],
        }
    } else {
        seq![]
    };
    let building = if g.show_buildings && w.is_closed && t.dom().contains("building"@) {
        seq![ViewPaintView::Building { color: way_view_style(w, s).0, stroke_width: way_view_style(w, s).1 }]
    } else {
        seq![]
    };
    let roads = match tag_of(w.tags, "highway"@) {
        Some(h) => if g.show_roads {
            let st = road_style_of(s, h);
            let casing = if f32_above_zero(st.3) && st.2.len() > 0 {
                seq![ViewPaintView::RoadCasing { color: st.2, width: st.3 }]
            } else {
                seq![]
            };
            casing + seq![ViewPaintView::RoadFill { color: way_view_style(w, s).0, width: way_view_style(w, s).1 }]
        } else {
            seq![]
        },
        None => seq![],
    };
    let rail = if g.show_roads && t.dom().contains("railway"@) {
        seq![ViewPaintView::Rail { color: s.railway.rail_color@, width: s.railway.rail_width }]
    } else {
        seq![]
    };
    water + area + building + roads + rail
}

/// Whether binary32 bits `b` stand for a number above zero.
pub open spec fn f32_above_zero(b: u32) -> bool {
    0 < b && b <= 0x7F80_0000
}

/// The shapes as plain values.
pub open spec fn view_paint_views(v: Seq<ViewPaint>) -> Seq<ViewPaintView> {
    v.map_values(|p: ViewPaint| p@)
}

fn push_view(v: &mut Vec<ViewPaint>, p: ViewPaint)
    ensures
        view_paint_views(final(v)@) == view_paint_views(old(v)@).push(p@),
{
    v.push(p);
    assert(view_paint_views(v@) =~= view_paint_views(old(v)@).push(p@));
}

fn area_fill(way: &Way, style: &MapStyle) -> (r: Option<String>)
    ensures
        opt_text(r) == view_area_fill(*way, *style),
{
    if way.tags.contains_key("landuse") {
        class_color_of(&way.tags, "landuse", &style.landuse)
    } else if way.tags.contains_key("leisure") {
        class_color_of(&way.tags, "leisure", &style.leisure)
    } else {
        class_color_of(&way.tags, "natural", &style.natural)
    }
}

/// The shapes the map view draws along a way (see `view_plan`); each is
/// drawn in its pass (`view_pass`), for the ways in view.
pub fn plan_view_way(way: &Way, style: &MapStyle, gui: &GuiState) -> (r: Vec<ViewPaint>)
    ensures
        view_paint_views(r@) == view_plan(*way, *style, *gui),
{
    let mut out: Vec<ViewPaint> = Vec::new();
    let is_water = match way.tags.get("natural") {
        Some(n) => text_is(n.as_str(), "water"),
        None => false,
    } || way.tags.contains_key("waterway") || way.tags.contains_key("water");
    if gui.show_water && way.is_closed && is_water {
        push_view(&mut out, ViewPaint::Water { color: owned(style.water.color.as_str()), opacity: style.water.opacity });
    }
    let ghost p1 = view_paint_views(out@);
    if gui.show_landuse && way.is_closed {
        match area_fill(way, style) {
            Some(c) => push_view(&mut out, ViewPaint::Area { fill: c }),
            None => {},
        }
    }
    let ghost p2 = view_paint_views(out@);
    if gui.show_buildings && way.is_closed && way.tags.contains_key("building") {
        let (color, width) = get_way_style(way, style);
        push_view(&mut out, ViewPaint::Building { color, stroke_width: width });
    }
    let ghost p3 = view_paint_views(out@);
    match way.tags.get("highway") {
        Some(h) => if gui.show_roads {
            let (_, _, border_color, border_width) = style.get_road_style(h.as_str());
            if 0 < border_width && border_width <= 0x7F80_0000 && !border_color.is_empty() {
                push_view(&mut out, ViewPaint::RoadCasing { color: owned(border_color), width: border_width });
            }
            let (color, width) = get_way_style(way, style);
            push_view(&mut out, ViewPaint::RoadFill { color, width });
        },
        None => {},
    }
    let ghost p4 = view_paint_views(out@);
    if gui.show_roads && way.tags.contains_key("railway") {
        push_view(
            &mut out,
            ViewPaint::Rail { color: owned(style.railway.rail_color.as_str()), width: style.railway.rail_width },
        );
    }
    assert(view_paint_views(out@) =~= view_plan(*way, *style, *gui));
    out
}

/// The drawing pass of a map-view shape (see `view_pass`).
pub fn pass_of(p: &ViewPaint) -> (r: usize)
    ensures
        r == view_pass(p@),
{
    match p {
        ViewPaint::Water { .. } => 0,
        ViewPaint::Area { .. } => 1,
        ViewPaint::Building { .. } => 2,
        ViewPaint::RoadCasing { .. } => 3,
        ViewPaint::RoadFill { .. } => 4,
        ViewPaint::Rail { .. } => 5,
    }
}

/// The point the map view draws for a node, when points are shown and the
/// node is a point of interest: the point style of its type.
pub open spec fn view_point(n: Node, s: MapStyle, g: GuiState) -> Option<(Seq<char>, u32)> {
    if g.show_pois {
        match poi_type_of(tag_texts(n.tags@)) {
            Some(t) => Some(poi_style_of(s, t)),
            None => None,
        }
    } else {
        None
    }
}

/// The color text and radius of the point drawn for a node (see `view_point`).
pub fn plan_view_node(node: &Node, style: &MapStyle, gui: &GuiState) -> (r: Option<(String, u32)>)
    ensures
        match r {
            Some((c, rad)) => view_point(*node, *style, *gui) == Some((c@, rad)),
            None => view_point(*node, *style, *gui) is None,
        },
{
    if !gui.show_pois {
        return None;
    }
    match get_poi_type(node) {
        Some(t) => {
            let (color, radius) = style.get_poi_style(t.as_str());
            Some((owned(color), radius))
        },
        None => None,
    }
}

/// The font size (binary32 bits) and color of a way's name label: larger
/// and lighter for major roads, gray for buildings and others.
pub open spec fn view_label_style(w: Way) -> (u32, (u8, u8, u8)) {
    match tag_of(w.tags, "highway"@) {
        Some(h) => if h == "motorway"@ || h == "trunk"@ {
            (0x4130_0000, (255, 255, 255))
        } else if h == "primary"@ {
            (0x4120_0000, (0, 0, 0))
        } else if h == "secondary"@ || h == "tertiary"@ {
            (0x4110_0000, (60, 60, 60))
        } else {
            (0x4100_0000, (80, 80, 80))
        },
        None => if tag_texts(w.tags@).dom().contains("building"@) {
            (0x4100_0000, (100, 100, 100))
        } else {
            (0x4100_0000, (80, 80, 80))
        },
    }
}

/// The font size and color of a way's name label (see `view_label_style`).
pub fn get_label_style(way: &Way) -> (r: (u32, (u8, u8, u8)))
    ensures
        r == view_label_style(*way),
{
    match way.tags.get("highway") {
        Some(h) => {
            let h = h.as_str();
            if text_is(h, "motorway") || text_is(h, "trunk") {
                (0x4130_0000, (255, 255, 255))
            } else if text_is(h, "primary") {
                (0x4120_0000, (0, 0, 0))
            } else if text_is(h, "secondary") || text_is(h, "tertiary") {
                (0x4110_0000, (60, 60, 60))
            } else {
                (0x4100_0000, (80, 80, 80))
            }
        },
        None => if way.tags.contains_key("building") {
            (0x4100_0000, (100, 100, 100))
        } else {
            (0x4100_0000, (80, 80, 80))
        },
    }
}

/// The label of a geocoding result's place type: cities, towns and villages
/// are settlements; houses and buildings are buildings; roads and streets are
/// streets; countries, states, counties, postcodes, amenities, shops, leisure
/// and tourism have labels of their own; every other type is "Other".
pub proof fn law_place_type_labels(t: Seq<char>)
    ensures
        (t == "city"@ || t == "town"@ || t == "village"@) ==> place_type_label_of(t) == "Settlement"@,
        (t == "house"@ || t == "building"@) ==> place_type_label_of(t) == "Building"@,
        (t == "road"@ || t == "street"@) ==> place_type_label_of(t) == "Street"@,
        t == "country"@ ==> place_type_label_of(t) == "Country"@,
        t == "state"@ ==> place_type_label_of(t) == "State"@,
        t == "county"@ ==> place_type_label_of(t) == "County"@,
        t == "postcode"@ ==> place_type_label_of(t) == "Postal Code"@,
        t == "amenity"@ ==> place_type_label_of(t) == "Amenity"@,
        t == "shop"@ ==> place_type_label_of(t) == "Shop"@,
        t == "leisure"@ ==> place_type_label_of(t) == "Leisure"@,
        t == "tourism"@ ==> place_type_label_of(t) == "Tourism"@,
        !(t == "city"@ || t == "town"@ || t == "village"@ || t == "house"@ || t == "building"@
            || t == "road"@ || t == "street"@ || t == "country"@ || t == "state"@ || t == "county"@
            || t == "postcode"@ || t == "amenity"@ || t == "shop"@ || t == "leisure"@ || t
            == "tourism"@) ==> place_type_label_of(t) == "Other"@,
{
    reveal_strlit("city");
    reveal_strlit("town");
    reveal_strlit("village");
    reveal_strlit("house");
    reveal_strlit("building");
    reveal_strlit("road");
    reveal_strlit("street");
    reveal_strlit("country");
    reveal_strlit("state");
    reveal_strlit("county");
    reveal_strlit("postcode");
    reveal_strlit("amenity");
    reveal_strlit("shop");
    reveal_strlit("leisure");
    reveal_strlit("tourism");
    // Literals of one length differ in their first letter.
    assert("city"@.len() == 4 && "city"@[0] == 'c');
    assert("town"@.len() == 4 && "town"@[0] == 't');
    assert("village"@.len() == 7 && "village"@[0] == 'v');
    assert("house"@.len() == 5 && "house"@[0] == 'h');
    assert("building"@.len() == 8 && "building"@[0] == 'b');
    assert("road"@.len() == 4 && "road"@[0] == 'r');
    assert("street"@.len() == 6 && "street"@[0] == 's');
    assert("country"@.len() == 7 && "country"@[0] == 'c');
    assert("state"@.len() == 5 && "state"@[0] == 's');
    assert("county"@.len() == 6 && "county"@[0] == 'c');
    assert("postcode"@.len() == 8 && "postcode"@[0] == 'p');
    assert("amenity"@.len() == 7 && "amenity"@[0] == 'a');
    assert("shop"@.len() == 4 && "shop"@[0] == 's');
    assert("leisure"@.len() == 7 && "leisure"@[0] == 'l');
    assert("tourism"@.len() == 7 && "tourism"@[0] == 't');
    if t == "city"@ {
        assert(t.len() == 4 && t[0] == 'c');
    } else if t == "town"@ {
        assert(t.len() == 4 && t[0] == 't');
    } else if t == "village"@ {
        assert(t.len() == 7 && t[0] == 'v');
    } else if t == "house"@ {
        assert(t.len() == 5 && t[0] == 'h');
    } else if t == "building"@ {
        assert(t.len() == 8 && t[0] == 'b');
    } else if t == "road"@ {
        assert(t.len() == 4 && t[0] == 'r');
    } else if t == "street"@ {
        assert(t.len() == 6 && t[0] == 's');
    } else if t == "country"@ {
        assert(t.len() == 7 && t[0] == 'c');
    } else if t == "state"@ {
        assert(t.len() == 5 && t[0] == 's');
    } else if t == "county"@ {
        assert(t.len() == 6 && t[0] == 'c');
    } else if t == "postcode"@ {
        assert(t.len() == 8 && t[0] == 'p');
    } else if t == "amenity"@ {
        assert(t.len() == 7 && t[0] == 'a');
    } else if t == "shop"@ {
        assert(t.len() == 4 && t[0] == 's');
    } else if t == "leisure"@ {
        assert(t.len() == 7 && t[0] == 'l');
    } else if t == "tourism"@ {
        assert(t.len() == 7 && t[0] == 't');
    }
}

/// A node's point-of-interest type comes from the first of these tags that
/// it has: `amenity` (its value), then `shop`, `tourism`, `leisure`,
/// `office` and `healthcare` (the key, `_` and the value), then
/// `public_transport` (just that word), then `place` (`place_` and the
/// value). A node with none of them is not a point of interest.
pub proof fn law_poi_types(tags: Map<Seq<char>, Seq<char>>)
    ensures
        tags.dom().contains("amenity"@) ==> poi_type_of(tags) == Some(tags["amenity"@]),
        !tags.dom().contains("amenity"@) && tags.dom().contains("shop"@) ==> poi_type_of(tags)
            == Some("shop_"@ + tags["shop"@]),
        !tags.dom().contains("amenity"@) && !tags.dom().contains("shop"@) && tags.dom().contains(
            "tourism"@,
        ) ==> poi_type_of(tags) == Some("tourism_"@ + tags["tourism"@]),
        !tags.dom().contains("amenity"@) && !tags.dom().contains("shop"@) && !tags.dom().contains(
            "tourism"@,
        ) && tags.dom().contains("leisure"@) ==> poi_type_of(tags) == Some(
            "leisure_"@ + tags["leisure"@],
        ),
        !tags.dom().contains("amenity"@) && !tags.dom().contains("shop"@) && !tags.dom().contains(
            "tourism"@,
        ) && !tags.dom().contains("leisure"@) && tags.dom().contains("office"@) ==> poi_type_of(tags)
            == Some("office_"@ + tags["office"@]),
        !tags.dom().contains("amenity"@) && !tags.dom().contains("shop"@) && !tags.dom().contains(
            "tourism"@,
        ) && !tags.dom().contains("leisure"@) && !tags.dom().contains("office"@)
            && tags.dom().contains("healthcare"@) ==> poi_type_of(tags) == Some(
            "healthcare_"@ + tags["healthcare"@],
        ),
        !tags.dom().contains("amenity"@) && !tags.dom().contains("shop"@) && !tags.dom().contains(
            "tourism"@,
        ) && !tags.dom().contains("leisure"@) && !tags.dom().contains("office"@)
            && !tags.dom().contains("healthcare"@) && tags.dom().contains("public_transport"@)
            ==> poi_type_of(tags) == Some("public_transport"@),
        !tags.dom().contains("amenity"@) && !tags.dom().contains("shop"@) && !tags.dom().contains(
            "tourism"@,
        ) && !tags.dom().contains("leisure"@) && !tags.dom().contains("office"@)
            && !tags.dom().contains("healthcare"@) && !tags.dom().contains("public_transport"@)
            && tags.dom().contains("place"@) ==> poi_type_of(tags) == Some("place_"@ + tags["place"@]),
        poi_type_of(tags) is Some <==> (tags.dom().contains("amenity"@) || tags.dom().contains(
            "shop"@,
        ) || tags.dom().contains("tourism"@) || tags.dom().contains("leisure"@) || tags.dom().contains(
            "office"@,
        ) || tags.dom().contains("healthcare"@) || tags.dom().contains("public_transport"@)
            || tags.dom().contains("place"@)),
{
}

/// The map view draws a point for a node exactly when points are shown and
/// the node has one of the tags that give a point-of-interest type; the
/// point then has the style of that type.
pub proof fn law_view_points(n: Node, s: MapStyle, g: GuiState)
    ensures
        view_point(n, s, g) is Some <==> g.show_pois && (tag_texts(n.tags@).dom().contains(
            "amenity"@,
        ) || tag_texts(n.tags@).dom().contains("shop"@) || tag_texts(n.tags@).dom().contains(
            "tourism"@,
        ) || tag_texts(n.tags@).dom().contains("leisure"@) || tag_texts(n.tags@).dom().contains(
            "office"@,
        ) || tag_texts(n.tags@).dom().contains("healthcare"@) || tag_texts(n.tags@).dom().contains(
            "public_transport"@,
        ) || tag_texts(n.tags@).dom().contains("place"@)),
        g.show_pois && poi_type_of(tag_texts(n.tags@)) is Some ==> view_point(n, s, g) == Some(
            poi_style_of(s, poi_type_of(tag_texts(n.tags@))->0),
        ),
{
    law_poi_types(tag_texts(n.tags@));
}

} // verus!
