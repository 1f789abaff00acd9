//! Map styles as read from a style file: colors and widths by feature class,
//! and the look of labels. Widths, radii and opacities are binary32 bit patterns.
use vstd::prelude::*;
use crate::tags::StrMap;

verus! {

/// The background.
pub struct BackgroundStyle {
    pub color: String,
}

/// Water areas.
pub struct WaterStyle {
    pub color: String,
    pub opacity: u32,
}

/// Airport features.
pub struct AerowayStyle {
    pub default: String,
}

/// Buildings.
pub struct BuildingStyle {
    pub fill: String,
    pub stroke: String,
    pub stroke_width: u32,
}

/// One road class.
pub struct RoadStyle {
    pub color: String,
    pub width: u32,
    pub border_color: String,
    pub border_width: u32,
}

/// Railways.
pub struct RailwayStyle {
    pub rail_color: String,
    pub rail_width: u32,
    pub rail_dash_color: String,
    pub rail_dash_width: u32,
    pub rail_dash_pattern: String,
}

/// Administrative boundaries.
pub struct BoundaryStyle {
    pub administrative_color: String,
    pub administrative_width: u32,
    pub administrative_dash: String,
    pub administrative_opacity: u32,
}

/// One kind of point of interest.
pub struct PoiStyle {
    pub color: String,
    pub radius: u32,
}

/// Labels.
pub struct LabelStyle {
    pub font_family: String,
    pub road_label_stroke: String,
    pub road_label_stroke_width: u32,
    pub poi_label_stroke: String,
    pub poi_label_stroke_width: u32,
    pub place_label_stroke: String,
    pub place_label_stroke_width: u32,
}

/// A complete map style.
pub struct MapStyle {
    pub background: BackgroundStyle,
    pub water: WaterStyle,
    pub landuse: StrMap<String>,
    pub leisure: StrMap<String>,
    pub natural: StrMap<String>,
    pub aeroway: AerowayStyle,
    pub buildings: BuildingStyle,
    pub roads: StrMap<RoadStyle>,
    pub railway: RailwayStyle,
    pub boundaries: BoundaryStyle,
    pub pois: StrMap<PoiStyle>,
    pub labels: LabelStyle,
    pub road_label_fonts: StrMap<u32>,
    pub place_label_fonts: StrMap<u32>,
}

/// The style of a road class: the class's own, else a light gray line one
/// wide with no border.
pub open spec fn road_style_of(s: MapStyle, highway: Seq<char>) -> (Seq<char>, u32, Seq<char>, u32) {
    if s.roads@.dom().contains(highway) {
        let r = s.roads@[highway];
        (r.color@, r.width, r.border_color@, r.border_width)
    } else {
        ("#e0e0e0"@, 0x3F80_0000, ""@, 0)
    }
}

/// The style of an amenity: its own, else the `default` one, else a gray
/// point of radius 2.5.
pub open spec fn poi_style_of(s: MapStyle, amenity: Seq<char>) -> (Seq<char>, u32) {
    if s.pois@.dom().contains(amenity) {
        (s.pois@[amenity].color@, s.pois@[amenity].radius)
    } else if s.pois@.dom().contains("default"@) {
        (s.pois@["default"@].color@, s.pois@["default"@].radius)
    } else {
        ("#95a5a6"@, 0x4020_0000)
    }
}

/// The color that a class map gives, if any.
pub open spec fn class_color(m: Map<Seq<char>, String>, k: Seq<char>) -> Option<Seq<char>> {
    if m.dom().contains(k) {
        Some(m[k]@)
    } else {
        None
    }
}

/// The label size of a road class: its own, else 8.
pub open spec fn road_label_size(s: MapStyle, highway: Seq<char>) -> u32 {
    if s.road_label_fonts@.dom().contains(highway) {
        s.road_label_fonts@[highway]
    } else {
        8
    }
}

/// The label size of a place class: its own, else the `default` one, else 9.
pub open spec fn place_label_size(s: MapStyle, place: Seq<char>) -> u32 {
    if s.place_label_fonts@.dom().contains(place) {
        s.place_label_fonts@[place]
    } else if s.place_label_fonts@.dom().contains("default"@) {
        s.place_label_fonts@["default"@]
    } else {
        9
    }
}

/// The text of an optional string slice.
pub open spec fn opt_str(o: Option<&str>) -> Option<Seq<char>> {
    match o {
        Some(t) => Some(t@),
        None => None,
    }
}

impl MapStyle {
    /// The color, width, border color and border width of a road class.
    pub fn get_road_style(&self, highway: &str) -> (r: (&str, u32, &str, u32))
        ensures
            (r.0@, r.1, r.2@, r.3) == road_style_of(*self, highway@),
    {
        match self.roads.get(highway) {
            Some(style) => (style.color.as_str(), style.width, style.border_color.as_str(), style.border_width),
            None => ("#e0e0e0", 0x3F80_0000u32, "", 0u32),
        }
    }

    /// The color and radius of an amenity's point.
    pub fn get_poi_style(&self, amenity: &str) -> (r: (&str, u32))
        ensures
            (r.0@, r.1) == poi_style_of(*self, amenity@),
    {
        match self.pois.get(amenity) {
            Some(style) => (style.color.as_str(), style.radius),
            None => match self.pois.get("default") {
                Some(style) => (style.color.as_str(), style.radius),
                None => ("#95a5a6", 0x4020_0000u32),
            },
        }
    }

    /// The color of a land use class.
    pub fn get_landuse_color(&self, landuse: &str) -> (r: Option<&str>)
        ensures
            opt_str(r) == class_color(self.landuse@, landuse@),
    {
        match self.landuse.get(landuse) {
            Some(c) => Some(c.as_str()),
            None => None,
        }
    }

    /// The color of a leisure class.
    pub fn get_leisure_color(&self, leisure: &str) -> (r: Option<&str>)
        ensures
            opt_str(r) == class_color(self.leisure@, leisure@),
    {
        match self.leisure.get(leisure) {
            Some(c) => Some(c.as_str()),
            None => None,
        }
    }

    /// The color of a natural feature class.
    pub fn get_natural_color(&self, natural: &str) -> (r: Option<&str>)
        ensures
            opt_str(r) == class_color(self.natural@, natural@),
    {
        match self.natural.get(natural) {
            Some(c) => Some(c.as_str()),
            None => None,
        }
    }

    /// The label font size of a road class.
    pub fn get_road_label_font_size(&self, highway: &str) -> (r: u32)
        ensures
            r == road_label_size(*self, highway@),
    {
        match self.road_label_fonts.get(highway) {
            Some(v) => *v,
            None => 8,
        }
    }

    /// The label font size of a place class.
    pub fn get_place_label_font_size(&self, place: &str) -> (r: u32)
        ensures
            r == place_label_size(*self, place@),
    {
        match self.place_label_fonts.get(place) {
            Some(v) => *v,
            None => match self.place_label_fonts.get("default") {
                Some(v) => *v,
                None => 9,
            },
        }
    }
}

} // verus!
