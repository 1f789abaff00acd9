//! Style management: the stylesheets in use, the default stylesheet, and
//! how rules select and style map elements.
use vstd::prelude::*;
use crate::parsers::owned;
use crate::stylesheet::{
    Color, DrawMode, ElementType, FeatureSelector, RenderStyle, StyleRule, StyleSheet,
    StyleVariable, RuleView, SelectorView, StyleView, SheetView, default_style, rule_views,
    selector_views, opt_text,
};
use crate::tags::{StrMap, Tags, tag_texts};
use crate::data::{MapData, MapBounds, Node, Way, Coord, Geometry, way_coords, closed_ring};
use vstd::std_specs::hash::spec_hash_map_iter;
use vstd::std_specs::iter::IteratorSpec;
use std::collections::HashMap;

verus! {

broadcast use vstd::std_specs::hash::group_hash_axioms;

/// The stylesheets in use and which of them is active.
pub struct StyleManager {
    stylesheets: Vec<StyleSheet>,
    active_stylesheet: Option<usize>,
}

/// Further stylesheet management: loading from elsewhere and validation.
pub struct AdvancedStyleManager;

/// A rule with one tag selector and a style that differs from the default
/// in its draw mode, colors and line width.
pub open spec fn rule_view(
    key: Seq<char>,
    value: Option<Seq<char>>,
    mode: DrawMode,
    line: Option<Color>,
    fill: Option<Color>,
    width: u32,
) -> RuleView {
    RuleView {
        selectors: seq![SelectorView::Tag { key, value }],
        style: StyleView {
            draw_mode: mode,
            line_color: line,
            fill_color: fill,
            line_width: width,
            ..default_style()
        },
    }
}

/// The rules of the default stylesheet, in order: water, waterways,
/// buildings, roads by class, parks, woods, land uses, railways, points of
/// interest, and a fallback for other roads. Widths are binary32 bit patterns.
pub open spec fn default_rules() -> Seq<RuleView> {
    seq![
        rule_view("natural"@, Some("water"@), DrawMode::Fill, Some(Color { r: 140, g: 181, b: 193, a: 255 }), Some(Color { r: 170, g: 211, b: 223, a: 255 }), 0x3F80_0000),
        rule_view("waterway"@, None, DrawMode::Line, Some(Color { r: 170, g: 211, b: 223, a: 255 }), None, 0x4000_0000),
        rule_view("building"@, None, DrawMode::Both, Some(Color { r: 180, g: 180, b: 180, a: 255 }), Some(Color { r: 218, g: 218, b: 218, a: 255 }), 0x3F00_0000),
        rule_view("highway"@, Some("motorway"@), DrawMode::Line, Some(Color { r: 231, g: 114, b: 0, a: 255 }), None, 0x40C0_0000),
        rule_view("highway"@, Some("trunk"@), DrawMode::Line, Some(Color { r: 255, g: 156, b: 0, a: 255 }), None, 0x40A0_0000),
        rule_view("highway"@, Some("primary"@), DrawMode::Line, Some(Color { r: 255, g: 205, b: 0, a: 255 }), None, 0x4080_0000),
        rule_view("highway"@, Some("secondary"@), DrawMode::Line, Some(Color { r: 255, g: 230, b: 100, a: 255 }), None, 0x4060_0000),
        rule_view("highway"@, Some("tertiary"@), DrawMode::Line, Some(Color { r: 255, g: 245, b: 150, a: 255 }), None, 0x4040_0000),
        rule_view("highway"@, Some("residential"@), DrawMode::Line, Some(Color { r: 255, g: 255, b: 255, a: 255 }), None, 0x4020_0000),
        rule_view("highway"@, Some("service"@), DrawMode::Line, Some(Color { r: 240, g: 240, b: 240, a: 255 }), None, 0x3FC0_0000),
        rule_view("highway"@, Some("footway"@), DrawMode::Line, Some(Color { r: 200, g: 200, b: 200, a: 255 }), None, 0x3F80_0000),
        rule_view("leisure"@, Some("park"@), DrawMode::Fill, Some(Color { r: 174, g: 215, b: 144, a: 255 }), Some(Color { r: 194, g: 235, b: 164, a: 255 }), 0x3F00_0000),
        rule_view("natural"@, Some("wood"@), DrawMode::Fill, Some(Color { r: 0, g: 0, b: 0, a: 255 }), Some(Color { r: 173, g: 209, b: 158, a: 255 }), 0x3F80_0000),
        rule_view("landuse"@, Some("forest"@), DrawMode::Fill, Some(Color { r: 0, g: 0, b: 0, a: 255 }), Some(Color { r: 173, g: 209, b: 158, a: 255 }), 0x3F80_0000),
        rule_view("landuse"@, Some("grass"@), DrawMode::Fill, Some(Color { r: 0, g: 0, b: 0, a: 255 }), Some(Color { r: 194, g: 235, b: 164, a: 255 }), 0x3F80_0000),
        rule_view("landuse"@, Some("commercial"@), DrawMode::Fill, Some(Color { r: 0, g: 0, b: 0, a: 255 }), Some(Color { r: 255, g: 230, b: 230, a: 255 }), 0x3F80_0000),
        rule_view("landuse"@, Some("industrial"@), DrawMode::Fill, Some(Color { r: 0, g: 0, b: 0, a: 255 }), Some(Color { r: 230, g: 220, b: 240, a: 255 }), 0x3F80_0000),
        rule_view("landuse"@, Some("residential"@), DrawMode::Fill, Some(Color { r: 0, g: 0, b: 0, a: 255 }), Some(Color { r: 255, g: 255, b: 230, a: 255 }), 0x3F80_0000),
        rule_view("railway"@, None, DrawMode::Line, Some(Color { r: 100, g: 100, b: 100, a: 255 }), None, 0x4000_0000),
        rule_view("amenity"@, None, DrawMode::Point, Some(Color { r: 220, g: 20, b: 60, a: 255 }), None, 0x4080_0000),
        rule_view("shop"@, None, DrawMode::Point, Some(Color { r: 30, g: 144, b: 255, a: 255 }), None, 0x4060_0000),
        rule_view("tourism"@, None, DrawMode::Point, Some(Color { r: 50, g: 205, b: 50, a: 255 }), None, 0x4060_0000),
        rule_view("highway"@, None, DrawMode::Line, Some(Color { r: 200, g: 200, b: 200, a: 255 }), None, 0x3FC0_0000),
    ]
}

/// Builds a rule with one tag selector (see `rule_view`).
fn make_rule(
    key: &str,
    value: Option<&str>,
    mode: DrawMode,
    line: Option<Color>,
    fill: Option<Color>,
    width: u32,
) -> (r: StyleRule)
    ensures
        r@ == rule_view(
            key@,
            match value {
                Some(v) => Some(v@),
                None => None,
            },
            mode,
            line,
            fill,
            width,
        ),
{
    let v = match value {
        Some(t) => Some(owned(t)),
        None => None,
    };
    let mut selectors: Vec<FeatureSelector> = Vec::new();
    selectors.push(FeatureSelector::Tag { key: owned(key), value: v });
    let mut style = RenderStyle::default();
    style.draw_mode = mode;
    style.line_color = line;
    style.fill_color = fill;
    style.line_width = width;
    let r = StyleRule { selectors, style };
    assert(selector_views(r.selectors@) =~= seq![
        SelectorView::Tag {
            key: key@,
            value: match value {
                Some(v) => Some(v@),
                None => None,
            },
        },
    ]);
    r
}


// ---------------------------------------------------------------------------
// Matching rules to elements
// ---------------------------------------------------------------------------

/// Whether a selector matches an element with tags `tags` of kind `et`.
pub open spec fn selector_matches(s: SelectorView, tags: Map<Seq<char>, Seq<char>>, et: ElementType) -> bool {
    match s {
        SelectorView::Tag { key, value } => tags.dom().contains(key) && match value {
            Some(v) => tags[key] == v,
            None => true,
        },
        SelectorView::ElementType(t) => t == et,
        SelectorView::ZoomRange { .. } => true,
    }
}

/// Whether some selector of the rule matches.
pub open spec fn rule_matches(r: RuleView, tags: Map<Seq<char>, Seq<char>>, et: ElementType) -> bool {
    exists|i: int| 0 <= i < r.selectors.len() && #[trigger] selector_matches(r.selectors[i], tags, et)
}

/// The text label of an element: the value of the tag that the style names.
pub open spec fn text_for(tags: Map<Seq<char>, Seq<char>>, style: StyleView) -> Option<Seq<char>> {
    match style.text_field {
        Some(f) => if tags.dom().contains(f) {
            Some(tags[f])
        } else {
            None
        },
        None => None,
    }
}

/// The drawing order of an element by its tags: buildings 100, land use
/// 50, roads 80 to 40 by class, waterways 30, natural features 20,
/// amenities 200, anything else 0.
pub open spec fn z_index(tags: Map<Seq<char>, Seq<char>>) -> i32 {
    if tags.dom().contains("building"@) {
        100
    } else if tags.dom().contains("landuse"@) {
        50
    } else if tags.dom().contains("highway"@) {
        let h = tags["highway"@];
        if h == "motorway"@ || h == "trunk"@ {
            80
        } else if h == "primary"@ {
            70
        } else if h == "secondary"@ {
            60
        } else if h == "tertiary"@ {
            50
        } else {
            40
        }
    } else if tags.dom().contains("waterway"@) {
        30
    } else if tags.dom().contains("natural"@) {
        20
    } else if tags.dom().contains("amenity"@) {
        200
    } else {
        0
    }
}

/// The tag value of `key`, as text.
fn tag_value<'a>(tags: &'a Tags, key: &str) -> (r: Option<&'a String>)
    ensures
        match r {
            Some(v) => tag_texts(tags@).dom().contains(key@) && v@ == tag_texts(tags@)[key@],
            None => !tag_texts(tags@).dom().contains(key@),
        },
{
    tags.get(key)
}

/// Whether the string is the text `lit`.
fn string_is(s: &String, lit: &str) -> (b: bool)
    ensures
        b == (s@ == lit@),
{
    *s == owned(lit)
}

impl StyleManager {
    /// The default stylesheet: `default_rules` and no variables.
    pub fn create_default_stylesheet() -> (s: StyleSheet)
        ensures
            s@ == (SheetView { rules: default_rules(), variables: Map::empty() }),
    {
        let mut rules: Vec<StyleRule> = Vec::new();
        rules.push(make_rule("natural", Some("water"), DrawMode::Fill, Some(Color::new(140, 181, 193, 255)), Some(Color::new(170, 211, 223, 255)), 0x3F80_0000u32));
        rules.push(make_rule("waterway", None, DrawMode::Line, Some(Color::new(170, 211, 223, 255)), None, 0x4000_0000u32));
        rules.push(make_rule("building", None, DrawMode::Both, Some(Color::new(180, 180, 180, 255)), Some(Color::new(218, 218, 218, 255)), 0x3F00_0000u32));
        rules.push(make_rule("highway", Some("motorway"), DrawMode::Line, Some(Color::new(231, 114, 0, 255)), None, 0x40C0_0000u32));
        rules.push(make_rule("highway", Some("trunk"), DrawMode::Line, Some(Color::new(255, 156, 0, 255)), None, 0x40A0_0000u32));
        rules.push(make_rule("highway", Some("primary"), DrawMode::Line, Some(Color::new(255, 205, 0, 255)), None, 0x4080_0000u32));
        rules.push(make_rule("highway", Some("secondary"), DrawMode::Line, Some(Color::new(255, 230, 100, 255)), None, 0x4060_0000u32));
        rules.push(make_rule("highway", Some("tertiary"), DrawMode::Line, Some(Color::new(255, 245, 150, 255)), None, 0x4040_0000u32));
        rules.push(make_rule("highway", Some("residential"), DrawMode::Line, Some(Color::new(255, 255, 255, 255)), None, 0x4020_0000u32));
        rules.push(make_rule("highway", Some("service"), DrawMode::Line, Some(Color::new(240, 240, 240, 255)), None, 0x3FC0_0000u32));
        rules.push(make_rule("highway", Some("footway"), DrawMode::Line, Some(Color::new(200, 200, 200, 255)), None, 0x3F80_0000u32));
        rules.push(make_rule("leisure", Some("park"), DrawMode::Fill, Some(Color::new(174, 215, 144, 255)), Some(Color::new(194, 235, 164, 255)), 0x3F00_0000u32));
        rules.push(make_rule("natural", Some("wood"), DrawMode::Fill, Some(Color::new(0, 0, 0, 255)), Some(Color::new(173, 209, 158, 255)), 0x3F80_0000u32));
        rules.push(make_rule("landuse", Some("forest"), DrawMode::Fill, Some(Color::new(0, 0, 0, 255)), Some(Color::new(173, 209, 158, 255)), 0x3F80_0000u32));
        rules.push(make_rule("landuse", Some("grass"), DrawMode::Fill, Some(Color::new(0, 0, 0, 255)), Some(Color::new(194, 235, 164, 255)), 0x3F80_0000u32));
        rules.push(make_rule("landuse", Some("commercial"), DrawMode::Fill, Some(Color::new(0, 0, 0, 255)), Some(Color::new(255, 230, 230, 255)), 0x3F80_0000u32));
        rules.push(make_rule("landuse", Some("industrial"), DrawMode::Fill, Some(Color::new(0, 0, 0, 255)), Some(Color::new(230, 220, 240, 255)), 0x3F80_0000u32));
        rules.push(make_rule("landuse", Some("residential"), DrawMode::Fill, Some(Color::new(0, 0, 0, 255)), Some(Color::new(255, 255, 230, 255)), 0x3F80_0000u32));
        rules.push(make_rule("railway", None, DrawMode::Line, Some(Color::new(100, 100, 100, 255)), None, 0x4000_0000u32));
        rules.push(make_rule("amenity", None, DrawMode::Point, Some(Color::new(220, 20, 60, 255)), None, 0x4080_0000u32));
        rules.push(make_rule("shop", None, DrawMode::Point, Some(Color::new(30, 144, 255, 255)), None, 0x4060_0000u32));
        rules.push(make_rule("tourism", None, DrawMode::Point, Some(Color::new(50, 205, 50, 255)), None, 0x4060_0000u32));
        rules.push(make_rule("highway", None, DrawMode::Line, Some(Color::new(200, 200, 200, 255)), None, 0x3FC0_0000u32));
        let s = StyleSheet { rules, variables: StrMap::new() };
        assert(rule_views(s.rules@) =~= default_rules());
        assert(s@.variables =~= Map::empty());
        s
    }

    /// Whether one of the rule's selectors matches an element with `tags` of kind `element_type`.
    pub fn matches_rule(&self, rule: &StyleRule, tags: &Tags, element_type: &ElementType) -> (b: bool)
        ensures
            b == rule_matches(rule@, tag_texts(tags@), *element_type),
    {
        let n = rule.selectors.len();
        for i in 0..n
            invariant
                n == rule.selectors@.len(),
                forall|j: int|
                    0 <= j < i ==> !#[trigger] selector_matches(
                        rule@.selectors[j],
                        tag_texts(tags@),
                        *element_type,
                    ),
        {
            let hit = match &rule.selectors[i] {
                FeatureSelector::Tag { key, value } => match tag_value(tags, key.as_str()) {
                    Some(tag_value) => match value {
                        Some(expected) => *tag_value == *expected,
                        None => true,
                    },
                    None => false,
                },
                FeatureSelector::ElementType(t) => *t == *element_type,
                FeatureSelector::ZoomRange { .. } => true,
            };
            assert(rule@.selectors[i as int] == rule.selectors@[i as int]@);
            if hit {
                assert(selector_matches(rule@.selectors[i as int], tag_texts(tags@), *element_type));
                return true;
            }
        }
        false
    }

    /// The text label of an element with `tags` under `style`.
    pub fn extract_text(&self, tags: &Tags, style: &RenderStyle) -> (r: Option<String>)
        ensures
            match r {
                Some(t) => text_for(tag_texts(tags@), style@) == Some(t@),
                None => text_for(tag_texts(tags@), style@) is None,
            },
    {
        match &style.text_field {
            Some(field) => match tag_value(tags, field.as_str()) {
                Some(v) => Some(v.clone()),
                None => None,
            },
            None => None,
        }
    }

    /// The drawing order of an element with `tags` (see `z_index`).
    pub fn calculate_z_index(&self, tags: &Tags) -> (z: i32)
        ensures
            z == z_index(tag_texts(tags@)),
    {
        if tags.contains_key("building") {
            100
        } else if tags.contains_key("landuse") {
            50
        } else if tags.contains_key("highway") {
            match tag_value(tags, "highway") {
                Some(h) => if string_is(h, "motorway") || string_is(h, "trunk") {
                    80
                } else if string_is(h, "primary") {
                    70
                } else if string_is(h, "secondary") {
                    60
                } else if string_is(h, "tertiary") {
                    50
                } else {
                    40
                },
                None => 40,
            }
        } else if tags.contains_key("waterway") {
            30
        } else if tags.contains_key("natural") {
            20
        } else if tags.contains_key("amenity") {
            200
        } else {
            0
        }
    }
}

// ---------------------------------------------------------------------------
// The stylesheets in use
// ---------------------------------------------------------------------------

impl StyleManager {
    #[verifier::type_invariant]
    spec fn active_in_range(self) -> bool {
        match self.active_stylesheet {
            Some(i) => i < self.stylesheets@.len(),
            None => true,
        }
    }

    /// The stylesheets, in the order they were added.
    pub closed spec fn sheets(self) -> Seq<SheetView> {
        self.stylesheets@.map_values(|s: StyleSheet| s@)
    }

    /// The index of the active stylesheet, if one is active.
    pub closed spec fn active(self) -> Option<usize> {
        self.active_stylesheet
    }

    /// A manager holding the default stylesheet, which is active.
    pub fn new() -> (m: Self)
        ensures
            m.sheets() == seq![SheetView { rules: default_rules(), variables: Map::empty() }],
            m.active() == Some(0usize),
    {
        let mut v: Vec<StyleSheet> = Vec::new();
        v.push(Self::create_default_stylesheet());
        let m = StyleManager { stylesheets: v, active_stylesheet: Some(0) };
        assert(m.sheets() =~= seq![SheetView { rules: default_rules(), variables: Map::empty() }]);
        m
    }

    /// Adds a stylesheet at the end and returns its index.
    pub fn add_stylesheet(&mut self, stylesheet: StyleSheet) -> (i: usize)
        requires
            old(self).sheets().len() < usize::MAX,
        ensures
            final(self).sheets() == old(self).sheets().push(stylesheet@),
            i == old(self).sheets().len(),
            final(self).active() == old(self).active(),
    {
        proof {
            use_type_invariant(&*self);
        }
        let ghost s0 = self.stylesheets@;
        let active = self.active_stylesheet;
        self.active_stylesheet = None;
        let mut v: Vec<StyleSheet> = Vec::new();
        std::mem::swap(&mut v, &mut self.stylesheets);
        v.push(stylesheet);
        let n = v.len();
        self.stylesheets = v;
        self.active_stylesheet = active;
        assert(self.stylesheets@.map_values(|s: StyleSheet| s@) =~= s0.map_values(|s: StyleSheet| s@).push(
            stylesheet@,
        ));
        n - 1
    }

    /// Makes the stylesheet at `index` active, if there is one there.
    pub fn set_active_stylesheet(&mut self, index: usize)
        ensures
            final(self).sheets() == old(self).sheets(),
            final(self).active() == if index < old(self).sheets().len() {
                Some(index)
            } else {
                old(self).active()
            },
    {
        if index < self.stylesheets.len() {
            self.active_stylesheet = Some(index);
        }
    }

    /// The active stylesheet, to change in place, if one is active; the other
    /// stylesheets and which one is active stay as they are.
    pub fn get_active_stylesheet_mut(&mut self) -> (r: Option<&mut StyleSheet>)
        ensures
            match old(self).active() {
                Some(i) => match r {
                    Some(e) => (*e)@ == old(self).sheets()[i as int] && final(self).sheets() == old(
                        self,
                    ).sheets().update(i as int, (*final(e))@),
                    None => false,
                },
                None => r is None && final(self).sheets() == old(self).sheets(),
            },
            final(self).active() == old(self).active(),
    {
        proof {
            use_type_invariant(&*self);
        }
        match self.active_stylesheet {
            Some(i) => Some(&mut self.stylesheets[i]),
            None => None,
        }
    }

    /// The active stylesheet, if one is active.
    pub fn get_active_stylesheet(&self) -> (r: Option<&StyleSheet>)
        ensures
            match self.active() {
                Some(i) => r is Some && r->0@ == self.sheets()[i as int],
                None => r is None,
            },
    {
        proof {
            use_type_invariant(self);
        }
        match self.active_stylesheet {
            Some(i) => Some(&self.stylesheets[i]),
            None => None,
        }
    }
}

impl AdvancedStyleManager {
    /// An advanced style manager.
    pub fn new() -> (m: Self) {
        AdvancedStyleManager
    }

    /// Loading a stylesheet from a URL is not supported: an empty stylesheet.
    pub fn load_stylesheet_from_url(&self, url: &str) -> (r: Result<StyleSheet, String>)
        ensures
            r is Ok && r->Ok_0@.rules.len() == 0 && r->Ok_0@.variables == Map::<
                Seq<char>,
                crate::stylesheet::VariableView,
            >::empty(),
    {
        Ok(StyleSheet::default())
    }

    /// Validating a stylesheet finds no problem.
    pub fn validate_stylesheet(&self, stylesheet: &StyleSheet) -> (r: Result<Vec<String>, String>)
        ensures
            r is Ok && r->Ok_0@.len() == 0,
    {
        Ok(Vec::new())
    }
}

impl Default for StyleManager {
    fn default() -> (m: Self)
        ensures
            m.sheets() == seq![SheetView { rules: default_rules(), variables: Map::empty() }],
            m.active() == Some(0usize),
    {
        Self::new()
    }
}

impl Default for AdvancedStyleManager {
    fn default() -> (m: Self) {
        Self::new()
    }
}

// ---------------------------------------------------------------------------
// Applying styles
// ---------------------------------------------------------------------------

/// Simplified geometry for rendering.
pub enum FeatureGeometry {
    Point(Coord),
    LineString(Vec<Coord>),
    Polygon { exterior: Vec<Coord>, holes: Vec<Vec<Coord>> },
}

/// A feature with its style applied.
pub struct StyledFeature {
    pub geometry: FeatureGeometry,
    pub style: RenderStyle,
    pub text: Option<String>,
    pub z_index: i32,
}

/// A map with styles applied: features in drawing order, and the bounds.
pub struct StyledMap {
    pub features: Vec<StyledFeature>,
    pub bounds: MapBounds,
}

/// Why styles could not be applied.
#[derive(Clone, Copy, Debug, PartialEq, Eq, Structural)]
pub enum StyleError {
    NoActiveStylesheet,
}

pub enum GeometryView {
    Point(Coord),
    LineString(Seq<Coord>),
    Polygon { exterior: Seq<Coord>, holes: Seq<Seq<Coord>> },
}

pub struct FeatureView {
    pub geometry: GeometryView,
    pub style: StyleView,
    pub text: Option<Seq<char>>,
    pub z_index: i32,
}

impl View for FeatureGeometry {
    type V = GeometryView;

    open spec fn view(&self) -> GeometryView {
        match self {
            FeatureGeometry::Point(c) => GeometryView::Point(*c),
            FeatureGeometry::LineString(v) => GeometryView::LineString(v@),
            FeatureGeometry::Polygon { exterior, holes } => GeometryView::Polygon {
                exterior: exterior@,
                holes: holes@.map_values(|h: Vec<Coord>| h@),
            },
        }
    }
}

impl View for StyledFeature {
    type V = FeatureView;

    open spec fn view(&self) -> FeatureView {
        FeatureView {
            geometry: self.geometry@,
            style: self.style@,
            text: opt_text(self.text),
            z_index: self.z_index,
        }
    }
}

/// The views of a list of features.
pub open spec fn feature_views(f: Seq<StyledFeature>) -> Seq<FeatureView> {
    f.map_values(|x: StyledFeature| x@)
}

/// The index of the first rule that matches, if any.
pub open spec fn first_match(rules: Seq<RuleView>, tags: Map<Seq<char>, Seq<char>>, et: ElementType) -> Option<int>
    decreases rules.len(),
{
    if rules.len() == 0 {
        None
    } else {
        match first_match(rules.drop_last(), tags, et) {
            Some(i) => Some(i),
            None => if rule_matches(rules.last(), tags, et) {
                Some(rules.len() - 1)
            } else {
                None
            },
        }
    }
}

/// The feature of an element: its geometry, styled by the first rule that matches it.
pub open spec fn styled(
    rules: Seq<RuleView>,
    tags: Map<Seq<char>, Seq<char>>,
    et: ElementType,
    g: GeometryView,
) -> Option<FeatureView> {
    match first_match(rules, tags, et) {
        Some(i) => Some(
            FeatureView {
                geometry: g,
                style: rules[i].style,
                text: text_for(tags, rules[i].style),
                z_index: z_index(tags),
            },
        ),
        None => None,
    }
}

/// The rendering geometry of a way (see `MapData::get_way_geometry`).
pub open spec fn way_geometry_view(nodes: Map<i64, Node>, w: Way) -> Option<GeometryView> {
    let c = way_coords(nodes, w.nodes@);
    if c.len() == 0 {
        None
    } else if w.is_closed && c.len() > 2 {
        Some(GeometryView::Polygon { exterior: closed_ring(c), holes: Seq::empty() })
    } else {
        Some(GeometryView::LineString(c))
    }
}

/// The feature of a way, if it has a geometry and a rule matches it.
pub open spec fn way_feature(rules: Seq<RuleView>, nodes: Map<i64, Node>, w: Way) -> Seq<FeatureView> {
    match way_geometry_view(nodes, w) {
        Some(g) => match styled(rules, tag_texts(w.tags@), ElementType::Way, g) {
            Some(f) => seq![f],
            None => Seq::empty(),
        },
        None => Seq::empty(),
    }
}

/// The feature of a node, if it has tags and a rule matches it.
pub open spec fn node_feature(rules: Seq<RuleView>, n: Node) -> Seq<FeatureView> {
    if n.tags@.dom().len() == 0 {
        Seq::empty()
    } else {
        match styled(
            rules,
            tag_texts(n.tags@),
            ElementType::Node,
            GeometryView::Point(Coord { x: n.lon, y: n.lat }),
        ) {
            Some(f) => seq![f],
            None => Seq::empty(),
        }
    }
}

/// The features of the ways `ws`, in order.
pub open spec fn way_features(rules: Seq<RuleView>, nodes: Map<i64, Node>, ws: Seq<Way>) -> Seq<FeatureView>
    decreases ws.len(),
{
    if ws.len() == 0 {
        Seq::empty()
    } else {
        way_features(rules, nodes, ws.drop_last()) + way_feature(rules, nodes, ws.last())
    }
}

/// The features of the nodes `ns`, in order.
pub open spec fn node_features(rules: Seq<RuleView>, ns: Seq<Node>) -> Seq<FeatureView>
    decreases ns.len(),
{
    if ns.len() == 0 {
        Seq::empty()
    } else {
        node_features(rules, ns.drop_last()) + node_feature(rules, ns.last())
    }
}

/// Where a feature of drawing order `z` goes in a sorted list: after every
/// feature whose order is at most `z`.
pub open spec fn insert_pos(sorted: Seq<FeatureView>, z: i32) -> int
    decreases sorted.len(),
{
    if sorted.len() == 0 || sorted.last().z_index <= z {
        sorted.len() as int
    } else {
        insert_pos(sorted.drop_last(), z)
    }
}

/// The features sorted by drawing order, stably (`sort_by_key`).
pub open spec fn sort_by_z(s: Seq<FeatureView>) -> Seq<FeatureView>
    decreases s.len(),
{
    if s.len() == 0 {
        Seq::empty()
    } else {
        let sorted = sort_by_z(s.drop_last());
        sorted.insert(insert_pos(sorted, s.last().z_index), s.last())
    }
}

/// `ks` lists each key of `m` once.
pub open spec fn key_order<V>(ks: Seq<i64>, m: Map<i64, V>) -> bool {
    &&& ks.no_duplicates()
    &&& forall|k: i64| #[trigger] ks.contains(k) <==> m.contains_key(k)
}

/// The values of `m` under the keys `ks`, in order.
pub open spec fn values_in<V>(m: Map<i64, V>, ks: Seq<i64>) -> Seq<V> {
    ks.map_values(|k: i64| m[k])
}

/// The keys that a map's iterator yields list each key of the map once.
proof fn lemma_iter_keys<V>(m: &HashMap<i64, V>, ks: Seq<i64>)
    requires
        ks.len() == spec_hash_map_iter(m).remaining().len(),
        spec_hash_map_iter(m).remaining().no_duplicates(),
        forall|t: int| 0 <= t < ks.len() ==> ks[t] == *(#[trigger] spec_hash_map_iter(m).remaining()[t]).0,
    ensures
        key_order(ks, m@),
{
    let v = spec_hash_map_iter(m).remaining();
    assert forall|a: int, b: int| 0 <= a < ks.len() && 0 <= b < ks.len() && a != b implies ks[a] != ks[b] by {
        if ks[a] == ks[b] {
            assert(m@[*v[a].0] == *v[a].1);
            assert(m@[*v[b].0] == *v[b].1);
            assert(v[a] == v[b]);
        }
    }
    assert forall|k: i64| #[trigger] ks.contains(k) <==> m@.contains_key(k) by {
        if ks.contains(k) {
            let i = ks.index_of(k);
            assert(m@.contains_key(*v[i].0));
        }
        if m@.contains_key(k) {
            assert(v.contains((&k, &m@[k])));
            let i = v.index_of((&k, &m@[k]));
            assert(ks[i] == k);
        }
    }
}

/// A copy of a style.
fn copy_style(s: &RenderStyle) -> (r: RenderStyle)
    ensures
        r@ == s@,
{
    RenderStyle {
        draw_mode: s.draw_mode,
        line_color: s.line_color,
        fill_color: s.fill_color,
        line_width: s.line_width,
        font_family: match &s.font_family {
            Some(f) => Some(f.clone()),
            None => None,
        },
        font_size: s.font_size,
        text_field: match &s.text_field {
            Some(f) => Some(f.clone()),
            None => None,
        },
        min_zoom: s.min_zoom,
        max_zoom: s.max_zoom,
    }
}

/// A copy of a geometry.
fn copy_geometry(g: &FeatureGeometry) -> (r: FeatureGeometry)
    ensures
        r@ == g@,
{
    match g {
        FeatureGeometry::Point(c) => FeatureGeometry::Point(*c),
        FeatureGeometry::LineString(v) => FeatureGeometry::LineString(v.clone()),
        FeatureGeometry::Polygon { exterior, holes } => {
            let mut hs: Vec<Vec<Coord>> = Vec::new();
            let n = holes.len();
            for i in 0..n
                invariant
                    n == holes@.len(),
                    hs@.len() == i,
                    forall|j: int| 0 <= j < i ==> (#[trigger] hs@[j])@ == holes@[j]@,
            {
                hs.push(holes[i].clone());
            }
            assert(hs@.map_values(|h: Vec<Coord>| h@) =~= holes@.map_values(|h: Vec<Coord>| h@));
            FeatureGeometry::Polygon { exterior: exterior.clone(), holes: hs }
        },
    }
}

/// Once a rule has matched, the first match stays.
proof fn lemma_first_match_kept(rules: Seq<RuleView>, j: int, tags: Map<Seq<char>, Seq<char>>, et: ElementType)
    requires
        0 <= j <= rules.len(),
        first_match(rules.take(j), tags, et) is Some,
    ensures
        first_match(rules, tags, et) == first_match(rules.take(j), tags, et),
    decreases rules.len() - j,
{
    if j == rules.len() {
        assert(rules.take(j) =~= rules);
    } else {
        assert(rules.take(j + 1).drop_last() =~= rules.take(j));
        lemma_first_match_kept(rules, j + 1, tags, et);
    }
}

impl StyleManager {
    /// The feature of an element with `tags` of kind `et` and geometry `g`:
    /// styled by the first rule of `rules` that matches it, if any.
    fn style_element(
        &self,
        rules: &Vec<StyleRule>,
        tags: &Tags,
        et: ElementType,
        g: &FeatureGeometry,
    ) -> (r: Option<StyledFeature>)
        ensures
            match styled(rule_views(rules@), tag_texts(tags@), et, g@) {
                Some(f) => r is Some && r->0@ == f,
                None => r is None,
            },
    {
        let ghost rv = rule_views(rules@);
        let n = rules.len();
        for i in 0..n
            invariant
                n == rules@.len(),
                rv == rule_views(rules@),
                first_match(rv.take(i as int), tag_texts(tags@), et) is None,
        {
            proof {
                assert(rv.take(i + 1).drop_last() =~= rv.take(i as int));
                assert(rv.take(i + 1).last() == rules@[i as int]@);
            }
            if self.matches_rule(&rules[i], tags, &et) {
                proof {
                    lemma_first_match_kept(rv, i + 1, tag_texts(tags@), et);
                }
                let style = copy_style(&rules[i].style);
                let text = self.extract_text(tags, &style);
                let z_index = self.calculate_z_index(tags);
                return Some(StyledFeature { geometry: copy_geometry(g), style, text, z_index });
            }
        }
        proof {
            assert(rv.take(n as int) =~= rv);
        }
        None
    }
}

/// Inserting into a sorted list of features.
fn insert_sorted(sorted: &mut Vec<StyledFeature>, f: StyledFeature)
    ensures
        feature_views(final(sorted)@) == feature_views(old(sorted)@).insert(
            insert_pos(feature_views(old(sorted)@), f@.z_index),
            f@,
        ),
{
    let ghost v0 = feature_views(sorted@);
    let mut p = sorted.len();
    proof {
        assert(v0.take(p as int) =~= v0);
    }
    while p > 0 && sorted[p - 1].z_index > f.z_index
        invariant
            p <= sorted@.len(),
            v0 == feature_views(sorted@),
            insert_pos(v0, f@.z_index) == insert_pos(v0.take(p as int), f@.z_index),
        decreases p,
    {
        proof {
            assert(v0.take(p as int).drop_last() =~= v0.take(p - 1));
        }
        p = p - 1;
    }
    let ghost vf = f@;
    sorted.insert(p, f);
    proof {
        assert(feature_views(sorted@) =~= v0.insert(p as int, vf));
    }
}

/// The features at the positions `order`, in that order.
pub open spec fn features_at(features: Seq<StyledFeature>, order: Seq<usize>) -> Seq<FeatureView> {
    order.map_values(|k: usize| features[k as int]@)
}

/// The positions of `features` in drawing order: the order in which a stable
/// sort by `z_index` (`sort_by_key`) would put them, without moving them.
pub fn drawing_order(features: &Vec<StyledFeature>) -> (order: Vec<usize>)
    ensures
        forall|t: int| 0 <= t < order@.len() ==> #[trigger] order@[t] < features@.len(),
        features_at(features@, order@) == sort_by_z(feature_views(features@)),
{
    let ghost all = feature_views(features@);
    let mut order: Vec<usize> = Vec::new();
    let n = features.len();
    for i in 0..n
        invariant
            n == features@.len(),
            all == feature_views(features@),
            forall|t: int| 0 <= t < order@.len() ==> #[trigger] order@[t] < n,
            features_at(features@, order@) == sort_by_z(all.take(i as int)),
    {
        let ghost v0 = features_at(features@, order@);
        let z = features[i].z_index;
        let mut p = order.len();
        proof {
            assert(v0.take(p as int) =~= v0);
        }
        while p > 0 && features[order[p - 1]].z_index > z
            invariant
                p <= order@.len(),
                n == features@.len(),
                forall|t: int| 0 <= t < order@.len() ==> #[trigger] order@[t] < n,
                v0 == features_at(features@, order@),
                insert_pos(v0, z) == insert_pos(v0.take(p as int), z),
            decreases p,
        {
            proof {
                assert(v0.take(p as int).drop_last() =~= v0.take(p - 1));
            }
            p = p - 1;
        }
        proof {
            if p > 0 {
                assert(v0.take(p as int).last() == v0[p - 1]);
            }
        }
        order.insert(p, i);
        proof {
            assert(features_at(features@, order@) =~= v0.insert(p as int, features@[i as int]@));
            assert(all.take(i + 1).drop_last() =~= all.take(i as int));
            assert(all.take(i + 1).last() == features@[i as int]@);
        }
    }
    proof {
        assert(all.take(n as int) =~= all);
    }
    order
}

impl StyleManager {
    /// Styles the ways and tagged nodes of `map_data` with the active
    /// stylesheet: each way with a geometry, then each node with tags, gets
    /// the style of the first rule that matches it (elements no rule matches
    /// are left out); the features are then sorted stably by drawing order.
    /// Ways and nodes are taken in the order of their maps, which is unspecified.
    pub fn apply_styles(&self, map_data: &MapData) -> (r: Result<StyledMap, StyleError>)
        ensures
            match self.active() {
                None => r == Err::<StyledMap, StyleError>(StyleError::NoActiveStylesheet),
                Some(i) => r is Ok && r->Ok_0.bounds == map_data.bounds && exists|
                    wk: Seq<i64>,
                    nk: Seq<i64>,
                |
                    #![trigger key_order(wk, map_data.ways@), key_order(nk, map_data.nodes@)]
                    key_order(wk, map_data.ways@) && key_order(nk, map_data.nodes@) && feature_views(
                        r->Ok_0.features@,
                    ) == sort_by_z(
                        way_features(
                            self.sheets()[i as int].rules,
                            map_data.nodes@,
                            values_in(map_data.ways@, wk),
                        ) + node_features(
                            self.sheets()[i as int].rules,
                            values_in(map_data.nodes@, nk),
                        ),
                    ),
            },
    {
        let stylesheet = match self.get_active_stylesheet() {
            Some(s) => s,
            None => return Err(StyleError::NoActiveStylesheet),
        };
        let rules = &stylesheet.rules;
        let ghost rv = rule_views(rules@);
        let mut unsorted: Vec<StyledFeature> = Vec::new();
        let ghost mut wk: Seq<i64> = Seq::empty();
        for (k, way) in it: map_data.ways.iter()
            invariant
                rv == rule_views(rules@),
                it.seq() == spec_hash_map_iter(&map_data.ways).remaining(),
                it.seq().no_duplicates(),
                wk.len() == it.index(),
                forall|t: int| 0 <= t < wk.len() ==> wk[t] == *(#[trigger] it.seq()[t]).0,
                feature_views(unsorted@) == way_features(rv, map_data.nodes@, values_in(map_data.ways@, wk)),
        {
            let ghost idx = it.index();
            proof {
                assert(it.seq()[idx] == (k, way));
                assert(map_data.ways@.contains_key(*k) && map_data.ways@[*k] == *way);
            }
            let ghost u0 = feature_views(unsorted@);
            match map_data.get_way_geometry(way) {
                Some(geometry) => {
                    let g = match geometry {
                        Geometry::LineString(v) => FeatureGeometry::LineString(v),
                        Geometry::Polygon { exterior, interiors } => FeatureGeometry::Polygon {
                            exterior,
                            holes: interiors,
                        },
                    };
                    proof {
                        assert(way_geometry_view(map_data.nodes@, *way) == Some(g@)) by {
                            if g is Polygon {
                                assert(g@->holes =~= Seq::<Seq<Coord>>::empty());
                            }
                        }
                    }
                    match self.style_element(rules, &way.tags, ElementType::Way, &g) {
                        Some(f) => {
                            unsorted.push(f);
                        },
                        None => {},
                    }
                },
                None => {},
            }
            proof {
                let wk2 = wk.push(*k);
                assert(values_in(map_data.ways@, wk2).drop_last() =~= values_in(map_data.ways@, wk));
                assert(values_in(map_data.ways@, wk2).last() == *way);
                assert(feature_views(unsorted@) =~= u0 + way_feature(rv, map_data.nodes@, *way));
                wk = wk2;
            }
        }
        let ghost mut nk: Seq<i64> = Seq::empty();
        let ghost wf = feature_views(unsorted@);
        for (k, node) in it: map_data.nodes.iter()
            invariant
                rv == rule_views(rules@),
                it.seq() == spec_hash_map_iter(&map_data.nodes).remaining(),
                it.seq().no_duplicates(),
                nk.len() == it.index(),
                forall|t: int| 0 <= t < nk.len() ==> nk[t] == *(#[trigger] it.seq()[t]).0,
                feature_views(unsorted@) == wf + node_features(rv, values_in(map_data.nodes@, nk)),
        {
            let ghost idx = it.index();
            proof {
                assert(it.seq()[idx] == (k, node));
                assert(map_data.nodes@.contains_key(*k) && map_data.nodes@[*k] == *node);
            }
            let ghost u0 = feature_views(unsorted@);
            if !node.tags.is_empty() {
                let g = FeatureGeometry::Point(Coord { x: node.lon, y: node.lat });
                match self.style_element(rules, &node.tags, ElementType::Node, &g) {
                    Some(f) => {
                        unsorted.push(f);
                    },
                    None => {},
                }
            }
            proof {
                let nk2 = nk.push(*k);
                assert(values_in(map_data.nodes@, nk2).drop_last() =~= values_in(map_data.nodes@, nk));
                assert(values_in(map_data.nodes@, nk2).last() == *node);
                assert(feature_views(unsorted@) =~= u0 + node_feature(rv, *node));
                nk = nk2;
            }
        }
        let ghost all = feature_views(unsorted@);
        let mut features: Vec<StyledFeature> = Vec::new();
        let n = unsorted.len();
        let mut source = unsorted;
        let mut taken: usize = 0;
        proof {
            assert(all.skip(0) =~= all);
        }
        while source.len() > 0
            invariant
                taken + source@.len() == n,
                all.len() == n,
                feature_views(source@) == all.skip(taken as int),
                feature_views(features@) == sort_by_z(all.take(taken as int)),
            decreases source@.len(),
        {
            let ghost s0 = source@;
            let f = source.remove(0);
            proof {
                assert(feature_views(s0)[0] == s0[0]@);
                assert(all.skip(taken as int)[0] == all[taken as int]);
                assert(f@ == all[taken as int]);
                assert(all.take(taken + 1).drop_last() =~= all.take(taken as int));
                assert(all.take(taken + 1).last() == f@);
                assert forall|t: int| 0 <= t < source@.len() implies feature_views(source@)[t] == all.skip(taken + 1)[t] by {
                    assert(source@[t] == s0[t + 1]);
                    assert(feature_views(s0)[t + 1] == all.skip(taken as int)[t + 1]);
                }
                assert(feature_views(source@) =~= all.skip(taken + 1));
            }
            insert_sorted(&mut features, f);
            taken = taken + 1;
        }
        proof {
            assert(all.take(n as int) =~= all);
            lemma_iter_keys(&map_data.ways, wk);
            lemma_iter_keys(&map_data.nodes, nk);
        }
        Ok(StyledMap { features, bounds: map_data.bounds })
    }
}

/// Features in nondecreasing drawing order.
pub open spec fn z_sorted(s: Seq<FeatureView>) -> bool {
    forall|i: int, j: int| 0 <= i < j < s.len() ==> (#[trigger] s[i]).z_index <= (#[trigger] s[j]).z_index
}

/// Where a feature goes in a sorted list: after the features ordered at or
/// before it, before those ordered after it.
proof fn lemma_insert_pos(s: Seq<FeatureView>, z: i32)
    requires
        z_sorted(s),
    ensures
        0 <= insert_pos(s, z) <= s.len(),
        forall|k: int| 0 <= k < insert_pos(s, z) ==> (#[trigger] s[k]).z_index <= z,
        forall|k: int| insert_pos(s, z) <= k < s.len() ==> (#[trigger] s[k]).z_index > z,
    decreases s.len(),
{
    if s.len() > 0 && s.last().z_index > z {
        let d = s.drop_last();
        assert(z_sorted(d)) by {
            assert forall|i: int, j: int| 0 <= i < j < d.len() implies (#[trigger] d[i]).z_index <= (#[trigger] d[j]).z_index by {
                assert(d[i] == s[i] && d[j] == s[j]);
            }
        }
        lemma_insert_pos(d, z);
        assert forall|k: int| 0 <= k < insert_pos(s, z) implies (#[trigger] s[k]).z_index <= z by {
            assert(s[k] == d[k]);
        }
        assert forall|k: int| insert_pos(s, z) <= k < s.len() implies (#[trigger] s[k]).z_index > z by {
            if k < s.len() - 1 {
                assert(s[k] == d[k]);
            }
        }
    } else if s.len() > 0 {
        assert forall|k: int| 0 <= k < s.len() implies (#[trigger] s[k]).z_index <= z by {
            if k < s.len() - 1 {
                assert(s[k].z_index <= s[s.len() - 1].z_index);
            }
        }
    }
}

/// Styled features come out in drawing order, as a rearrangement of the
/// features found: each of them once, none added.
pub proof fn law_features_sorted_by_z(s: Seq<FeatureView>)
    ensures
        z_sorted(sort_by_z(s)),
        sort_by_z(s).to_multiset() == s.to_multiset(),
    decreases s.len(),
{
    broadcast use vstd::seq_lib::to_multiset_insert, vstd::seq_lib::to_multiset_build;

    if s.len() > 0 {
        let d = s.drop_last();
        law_features_sorted_by_z(d);
        let sorted = sort_by_z(d);
        let x = s.last();
        lemma_insert_pos(sorted, x.z_index);
        let p = insert_pos(sorted, x.z_index);
        let r = sorted.insert(p, x);
        assert forall|i: int, j: int| 0 <= i < j < r.len() implies (#[trigger] r[i]).z_index <= (#[trigger] r[j]).z_index by {
            if j < p {
                assert(r[i] == sorted[i] && r[j] == sorted[j]);
            } else if j == p {
                assert(r[i] == sorted[i]);
            } else if i < p {
                assert(r[i] == sorted[i] && r[j] == sorted[j - 1]);
            } else if i == p {
                assert(r[j] == sorted[j - 1]);
            } else {
                assert(r[i] == sorted[i - 1] && r[j] == sorted[j - 1]);
            }
        }
        assert(s =~= d.push(x));
        vstd::seq_lib::to_multiset_insert(sorted, p, x);
        vstd::seq_lib::to_multiset_build(d, x);
        assert(sort_by_z(s) == r);
        assert(r.to_multiset() == sorted.to_multiset().insert(x));
        assert(s.to_multiset() == d.to_multiset().insert(x));
    } else {
        assert(sort_by_z(s) =~= s);
    }
}

/// A stylesheet just added sits at the index `add_stylesheet` returns, so
/// `set_active_stylesheet` with that index makes it the active one.
pub proof fn law_added_stylesheet_can_be_activated(sheets: Seq<SheetView>, s: SheetView)
    ensures
        sheets.len() < sheets.push(s).len(),
        sheets.push(s)[sheets.len() as int] == s,
        forall|i: int| 0 <= i < sheets.len() ==> sheets.push(s)[i] == sheets[i],
{
}

} // verus!
