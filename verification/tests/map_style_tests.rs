use mapscow_mule::data::{Node, Way};
use mapscow_mule::map_style::{
    AerowayStyle, BackgroundStyle, BoundaryStyle, BuildingStyle, LabelStyle, MapStyle, PoiStyle, RailwayStyle,
    RoadStyle, WaterStyle,
};
use mapscow_mule::svg_layers::{
    layer_id, layer_of, layer_order, layer_position, plan_node, plan_way, road_label_node, svg_path_points, NodeMark, SvgLayer, WayPaint,
};
use mapscow_mule::data::MapData;
use mapscow_mule::tags::{StrMap, Tags};
use mapscow_mule::rendering::ElementStyle;
use mapscow_mule::stylesheet::{Color, RenderStyle, StylesheetParser};
use mapscow_mule::map_view::{
    get_label_style, get_node_style, get_way_style, hex_to_rgb, pass_of, plan_view_node, plan_view_way, rgb_slices_ok,
    ViewPaint,
};
use mapscow_mule::gui::GuiState;
use mapscow_mule::gui::style_display_name;

fn tags(pairs: &[(&str, &str)]) -> Tags {
    let mut t = StrMap::new();
    for (k, v) in pairs {
        t.insert(k.to_string(), v.to_string());
    }
    t
}

fn way(t: &[(&str, &str)]) -> Way {
    Way { id: 7, nodes: vec![1, 2], tags: tags(t), is_closed: false }
}

fn node(t: &[(&str, &str)]) -> Node {
    Node { id: 3, lat: 0, lon: 0, tags: tags(t) }
}

fn style() -> MapStyle {
    let mut landuse = StrMap::new();
    landuse.insert("forest".to_string(), "#cdebb0".to_string());
    let mut leisure = StrMap::new();
    leisure.insert("park".to_string(), "#c8facc".to_string());
    let mut natural = StrMap::new();
    natural.insert("wood".to_string(), "#aed1a0".to_string());
    let mut roads = StrMap::new();
    roads.insert(
        "primary".to_string(),
        RoadStyle {
            color: "#fcd6a4".to_string(),
            width: 4.0f32.to_bits(),
            border_color: "#a06b00".to_string(),
            border_width: 1.0f32.to_bits(),
        },
    );
    roads.insert(
        "path".to_string(),
        RoadStyle {
            color: "#fa8072".to_string(),
            width: 1.0f32.to_bits(),
            border_color: "#ffffff".to_string(),
            border_width: 0.0f32.to_bits(),
        },
    );
    let mut pois = StrMap::new();
    pois.insert("hospital".to_string(), PoiStyle { color: "#d32f2f".to_string(), radius: 4.0f32.to_bits() });
    let mut road_label_fonts = StrMap::new();
    road_label_fonts.insert("primary".to_string(), 12u32);
    let mut place_label_fonts = StrMap::new();
    place_label_fonts.insert("city".to_string(), 18u32);
    place_label_fonts.insert("default".to_string(), 11u32);
    MapStyle {
        background: BackgroundStyle { color: "#f8f4f0".to_string() },
        water: WaterStyle { color: "#aad3df".to_string(), opacity: 0.9f32.to_bits() },
        landuse,
        leisure,
        natural,
        aeroway: AerowayStyle { default: "#e9e7e2".to_string() },
        buildings: BuildingStyle {
            fill: "#d9d0c9".to_string(),
            stroke: "#bca9a9".to_string(),
            stroke_width: 0.5f32.to_bits(),
        },
        roads,
        railway: RailwayStyle {
            rail_color: "#707070".to_string(),
            rail_width: 2.0f32.to_bits(),
            rail_dash_color: "#ffffff".to_string(),
            rail_dash_width: 1.0f32.to_bits(),
            rail_dash_pattern: "4,4".to_string(),
        },
        boundaries: BoundaryStyle {
            administrative_color: "#9e1a99".to_string(),
            administrative_width: 1.5f32.to_bits(),
            administrative_dash: "6,3".to_string(),
            administrative_opacity: 0.6f32.to_bits(),
        },
        pois,
        labels: LabelStyle {
            font_family: "Arial".to_string(),
            road_label_stroke: "#ffffff".to_string(),
            road_label_stroke_width: 2.0f32.to_bits(),
            poi_label_stroke: "#ffffff".to_string(),
            poi_label_stroke_width: 1.5f32.to_bits(),
            place_label_stroke: "#ffffff".to_string(),
            place_label_stroke_width: 3.0f32.to_bits(),
        },
        road_label_fonts,
        place_label_fonts,
    }
}

#[test]
fn road_style_of_known_and_unknown_class() {
    let s = style();
    let (c, w, bc, bw) = s.get_road_style("primary");
    assert_eq!((c, f32::from_bits(w), bc, f32::from_bits(bw)), ("#fcd6a4", 4.0, "#a06b00", 1.0));
    let (c, w, bc, bw) = s.get_road_style("footway");
    assert_eq!((c, f32::from_bits(w), bc, f32::from_bits(bw)), ("#e0e0e0", 1.0, "", 0.0));
}

#[test]
fn poi_style_falls_back_to_default_then_gray() {
    let mut s = style();
    let (c, r) = s.get_poi_style("hospital");
    assert_eq!((c, f32::from_bits(r)), ("#d32f2f", 4.0));
    let (c, r) = s.get_poi_style("cafe");
    assert_eq!((c, f32::from_bits(r)), ("#95a5a6", 2.5));
    s.pois.insert("default".to_string(), PoiStyle { color: "#123456".to_string(), radius: 3.0f32.to_bits() });
    let (c, r) = s.get_poi_style("cafe");
    assert_eq!((c, f32::from_bits(r)), ("#123456", 3.0));
}

#[test]
fn class_colors_and_label_sizes() {
    let s = style();
    assert_eq!(s.get_landuse_color("forest"), Some("#cdebb0"));
    assert_eq!(s.get_landuse_color("farmland"), None);
    assert_eq!(s.get_leisure_color("park"), Some("#c8facc"));
    assert_eq!(s.get_natural_color("wood"), Some("#aed1a0"));
    assert_eq!(s.get_natural_color("scrub"), None);
    assert_eq!(s.get_road_label_font_size("primary"), 12);
    assert_eq!(s.get_road_label_font_size("service"), 8);
    assert_eq!(s.get_place_label_font_size("city"), 18);
    assert_eq!(s.get_place_label_font_size("village"), 11);
    let mut t = style();
    t.place_label_fonts = StrMap::new();
    assert_eq!(t.get_place_label_font_size("village"), 9);
}

#[test]
fn layers_go_from_water_to_labels() {
    assert_eq!(
        layer_order(),
        vec![
            SvgLayer::Water,
            SvgLayer::Landuse,
            SvgLayer::Aeroway,
            SvgLayer::Buildings,
            SvgLayer::Railway,
            SvgLayer::Roads,
            SvgLayer::Boundaries,
            SvgLayer::Pois,
            SvgLayer::Labels,
        ]
    );
}

#[test]
fn primary_road_gets_border_road_and_label() {
    let s = style();
    let plan = plan_way(&way(&[("highway", "primary"), ("name", "Main Street")]), &s);
    assert_eq!(plan.len(), 3);
    match &plan[0] {
        WayPaint::RoadBorder { color, road_width, border_width } => {
            assert_eq!(color, "#a06b00");
            assert_eq!(f32::from_bits(*road_width), 4.0);
            assert_eq!(f32::from_bits(*border_width), 1.0);
        }
        _ => panic!("expected a road border"),
    }
    match &plan[1] {
        WayPaint::Road { color, width } => {
            assert_eq!(color, "#fcd6a4");
            assert_eq!(f32::from_bits(*width), 4.0);
        }
        _ => panic!("expected a road"),
    }
    match &plan[2] {
        WayPaint::RoadLabel { name, font_size } => {
            assert_eq!(name, "Main Street");
            assert_eq!(*font_size, 12);
        }
        _ => panic!("expected a road label"),
    }
    assert_eq!(layer_of(&plan[0]), SvgLayer::Roads);
    assert_eq!(layer_of(&plan[2]), SvgLayer::Labels);
}

#[test]
fn zero_border_and_blank_name_draw_only_the_road() {
    let s = style();
    let plan = plan_way(&way(&[("highway", "path"), ("name", "   ")]), &s);
    assert_eq!(plan.len(), 1);
    assert!(matches!(&plan[0], WayPaint::Road { color, .. } if color == "#fa8072"));
    // A footway is not a labeled class, and has the default style without a border.
    let plan = plan_way(&way(&[("highway", "footway"), ("name", "Alley")]), &s);
    assert_eq!(plan.len(), 1);
    assert!(matches!(&plan[0], WayPaint::Road { color, .. } if color == "#e0e0e0"));
}

#[test]
fn areas_buildings_railways_and_boundaries() {
    let s = style();
    let plan = plan_way(&way(&[("natural", "water")]), &s);
    assert_eq!(plan.len(), 1);
    assert!(matches!(&plan[0], WayPaint::Water { color, .. } if color == "#aad3df"));
    let plan = plan_way(&way(&[("landuse", "forest"), ("leisure", "park"), ("building", "yes")]), &s);
    assert_eq!(plan.len(), 3);
    assert!(matches!(&plan[0], WayPaint::Area { layer: SvgLayer::Landuse, fill } if fill == "#cdebb0"));
    assert!(matches!(&plan[1], WayPaint::Area { layer: SvgLayer::Landuse, fill } if fill == "#c8facc"));
    assert!(matches!(&plan[2], WayPaint::Building { fill, .. } if fill == "#d9d0c9"));
    let plan = plan_way(&way(&[("landuse", "farmland"), ("aeroway", "runway")]), &s);
    assert_eq!(plan.len(), 1);
    assert!(matches!(&plan[0], WayPaint::Area { layer: SvgLayer::Aeroway, fill } if fill == "#e9e7e2"));
    let plan = plan_way(&way(&[("railway", "rail")]), &s);
    assert_eq!(plan.len(), 2);
    assert!(matches!(&plan[1], WayPaint::RailDashes { pattern, .. } if pattern == "4,4"));
    assert!(plan_way(&way(&[("railway", "tram")]), &s).is_empty());
    let plan = plan_way(&way(&[("boundary", "administrative")]), &s);
    assert!(matches!(&plan[0], WayPaint::Boundary { dash, .. } if dash == "6,3"));
    assert!(plan_way(&way(&[("boundary", "protected_area")]), &s).is_empty());
}

#[test]
fn node_marks_for_amenities_and_places() {
    let s = style();
    let marks = plan_node(&node(&[("amenity", "hospital"), ("name", "St. Mary")]), &s);
    assert_eq!(marks.len(), 1);
    match &marks[0] {
        NodeMark::Poi { color, radius, label } => {
            assert_eq!(color, "#d32f2f");
            assert_eq!(f32::from_bits(*radius), 4.0);
            assert_eq!(label.as_deref(), Some("St. Mary"));
        }
        _ => panic!("expected a point"),
    }
    let marks = plan_node(&node(&[("amenity", "cafe"), ("name", "Corner")]), &s);
    assert!(matches!(&marks[0], NodeMark::Poi { label: None, .. }));
    let marks = plan_node(&node(&[("place", "town"), ("name", "Riverton")]), &s);
    assert_eq!(marks.len(), 1);
    assert!(matches!(&marks[0], NodeMark::PlaceLabel { name, font_size: 11 } if name == "Riverton"));
    assert!(plan_node(&node(&[("place", "town")]), &s).is_empty());
}

#[test]
fn element_style_copies_render_style() {
    let mut rs = RenderStyle::default();
    rs.line_color = Some(Color::new(1, 2, 3, 255));
    rs.line_width = 2.5f32.to_bits();
    rs.font_family = Some("Serif".to_string());
    let e = ElementStyle::from_render_style(&rs);
    assert_eq!(e.stroke_color, Some(Color::new(1, 2, 3, 255)));
    assert_eq!(e.fill_color, None);
    assert_eq!(f32::from_bits(e.stroke_width), 2.5);
    assert_eq!(f32::from_bits(e.stroke_opacity), 1.0);
    assert_eq!(f32::from_bits(e.fill_opacity), 1.0);
    assert!(e.stroke_dash.is_empty());
    assert_eq!(e.font_family.as_deref(), Some("Serif"));
    assert_eq!(f32::from_bits(e.font_size), 12.0);
    assert_eq!(e.font_weight, 400);
    assert_eq!(e.point_radius, None);
    assert_eq!(rs.point_radius().map(f32::from_bits), Some(3.0));
}

#[test]
fn slicing_checks() {
    assert!(rgb_slices_ok("#ff8000"));
    assert_eq!(hex_to_rgb("#ff8000"), (255, 128, 0));
    // Six bytes whose second piece would split a two-byte character.
    assert!(!rgb_slices_ok("#aé€"));
    assert!(rgb_slices_ok("#abc"));
    let p = StylesheetParser::new();
    let f32_bits = |s: &str| s.parse::<f32>().ok().map(f32::to_bits);
    let ok = p.parse_string_checked("features ways highway\nline-color: #ff0000\n", None, &f32_bits);
    assert!(matches!(ok, Some(Ok(_))));
    assert!(p.parse_string_checked("define c #aé€\n", None, &f32_bits).is_none());
    assert!(matches!(p.parse_string_checked("// #aé€\n", None, &f32_bits), Some(Ok(_))));
    // A bad color text after a failing line is never reached.
    let failed = p.parse_string_checked("features\ndefine c #aé€\n", None, &f32_bits);
    assert!(matches!(failed, Some(Err(_))));
    // Without a current rule a property line is not read.
    assert!(matches!(p.parse_string_checked("line-color: #aé€\n", None, &f32_bits), Some(Ok(_))));
}

fn map_with_nodes(ids: &[i64]) -> MapData {
    let mut m = MapData::new();
    for &id in ids {
        m.add_node(Node { id, lat: (id as f64).to_bits(), lon: (2.0 * id as f64).to_bits(), tags: tags(&[]) });
    }
    m
}

#[test]
fn path_points_skip_missing_nodes_and_close_areas() {
    let m = map_with_nodes(&[1, 2, 3]);
    let open = Way { id: 1, nodes: vec![1, 9, 2], tags: tags(&[]), is_closed: false };
    let (pts, closed) = svg_path_points(&m, &open).unwrap();
    assert_eq!(pts.len(), 2);
    assert!(!closed);
    assert_eq!(f64::from_bits(pts[1].x), 4.0);
    assert_eq!(f64::from_bits(pts[1].y), 2.0);
    let area = Way { id: 2, nodes: vec![1, 2, 3, 1], tags: tags(&[]), is_closed: true };
    let (pts, closed) = svg_path_points(&m, &area).unwrap();
    assert_eq!(pts.len(), 4);
    assert!(closed);
    let short = Way { id: 3, nodes: vec![1, 8, 9], tags: tags(&[]), is_closed: false };
    assert!(svg_path_points(&m, &short).is_none());
    let tiny_area = Way { id: 4, nodes: vec![1, 2], tags: tags(&[]), is_closed: true };
    assert_eq!(svg_path_points(&m, &tiny_area).map(|(_, c)| c), Some(false));
}

#[test]
fn road_labels_sit_at_the_middle_node() {
    let m = map_with_nodes(&[1, 2, 3]);
    let w = Way { id: 1, nodes: vec![1, 2, 3], tags: tags(&[]), is_closed: false };
    assert_eq!(road_label_node(&m, &w), Some(2));
    let w = Way { id: 1, nodes: vec![1, 7, 3], tags: tags(&[]), is_closed: false };
    assert_eq!(road_label_node(&m, &w), Some(1));
    let w = Way { id: 1, nodes: vec![8, 7, 3], tags: tags(&[]), is_closed: false };
    assert_eq!(road_label_node(&m, &w), None);
    let w = Way { id: 1, nodes: vec![2], tags: tags(&[]), is_closed: false };
    assert_eq!(road_label_node(&m, &w), None);
}

#[test]
fn style_names_for_the_menu() {
    assert_eq!(style_display_name("google-maps"), "Google Maps");
    assert_eq!(style_display_name("osm-default"), "OSM Default");
    assert_eq!(style_display_name("modern-clean"), "Modern Clean");
    assert_eq!(style_display_name("night_mode--v2"), "Night Mode V2");
    assert_eq!(style_display_name("ßtrasse"), "SStrasse");
    assert_eq!(style_display_name(""), "");
}

#[test]
fn map_view_styles_of_ways_and_nodes() {
    let s = style();
    let (c, w) = get_way_style(&way(&[("highway", "primary"), ("building", "yes")]), &s);
    assert_eq!((c.as_deref(), f32::from_bits(w)), (Some("#fcd6a4"), 4.0));
    let (c, w) = get_way_style(&way(&[("building", "yes")]), &s);
    assert_eq!((c.as_deref(), f32::from_bits(w)), (Some("#d9d0c9"), 0.5));
    let (c, w) = get_way_style(&way(&[("waterway", "river")]), &s);
    assert_eq!((c.as_deref(), f32::from_bits(w)), (Some("#aad3df"), 2.0));
    let (c, w) = get_way_style(&way(&[("natural", "water")]), &s);
    assert_eq!((c.as_deref(), f32::from_bits(w)), (Some("#aad3df"), 1.0));
    let (c, _) = get_way_style(&way(&[("landuse", "farmland"), ("leisure", "park")]), &s);
    assert_eq!(c.as_deref(), Some("#c8facc"));
    let (c, _) = get_way_style(&way(&[("natural", "wood")]), &s);
    assert_eq!(c.as_deref(), Some("#aed1a0"));
    let (c, w) = get_way_style(&way(&[("barrier", "fence")]), &s);
    assert_eq!((c, f32::from_bits(w)), (None, 1.0));
    let (c, r) = get_node_style(&node(&[("amenity", "hospital")]), &s);
    assert_eq!((c.as_deref(), f32::from_bits(r)), (Some("#d32f2f"), 4.0));
    let (c, r) = get_node_style(&node(&[("shop", "bakery")]), &s);
    assert_eq!((c.as_deref(), f32::from_bits(r)), (Some("#95a5a6"), 2.5));
    let (c, r) = get_node_style(&node(&[("name", "x")]), &s);
    assert_eq!((c, f32::from_bits(r)), (None, 1.0));
}

#[test]
fn layer_group_names_and_positions() {
    assert_eq!(layer_id(SvgLayer::Pois), ("pois", "Points of Interest"));
    assert_eq!(layer_id(SvgLayer::Landuse), ("landuse", "Land Use"));
    for (i, l) in layer_order().into_iter().enumerate() {
        assert_eq!(layer_position(l), i);
    }
}

fn closed(t: &[(&str, &str)]) -> Way {
    Way { id: 8, nodes: vec![1, 2, 3, 1], tags: tags(t), is_closed: true }
}

#[test]
fn map_view_passes() {
    let s = style();
    let mut g = GuiState::new();
    let plan = plan_view_way(&closed(&[("natural", "water")]), &s, &g);
    assert_eq!(plan.len(), 1);
    assert!(matches!(&plan[0], ViewPaint::Water { color, .. } if color == "#aad3df"));
    assert_eq!(pass_of(&plan[0]), 0);
    // An open way is no area.
    assert!(plan_view_way(&way(&[("natural", "water")]), &s, &g).is_empty());
    // Land use wins over leisure; a land use class without a color draws nothing.
    let plan = plan_view_way(&closed(&[("landuse", "forest"), ("leisure", "park")]), &s, &g);
    assert!(matches!(&plan[0], ViewPaint::Area { fill } if fill == "#cdebb0"));
    assert!(plan_view_way(&closed(&[("landuse", "farmland"), ("leisure", "park")]), &s, &g).is_empty());
    let plan = plan_view_way(&closed(&[("building", "yes")]), &s, &g);
    assert!(matches!(&plan[0], ViewPaint::Building { color: Some(c), .. } if c == "#d9d0c9"));
    assert_eq!(pass_of(&plan[0]), 2);
    let plan = plan_view_way(&way(&[("highway", "primary")]), &s, &g);
    assert_eq!(plan.len(), 2);
    assert!(matches!(&plan[0], ViewPaint::RoadCasing { color, width } if color == "#a06b00" && f32::from_bits(*width) == 1.0));
    assert!(matches!(&plan[1], ViewPaint::RoadFill { color: Some(c), .. } if c == "#fcd6a4"));
    let plan = plan_view_way(&way(&[("railway", "tram")]), &s, &g);
    assert!(matches!(&plan[0], ViewPaint::Rail { color, .. } if color == "#707070"));
    assert_eq!(pass_of(&plan[0]), 5);
    g.hide_all_layers();
    assert!(plan_view_way(&way(&[("highway", "primary")]), &s, &g).is_empty());
    assert!(plan_view_node(&node(&[("amenity", "hospital")]), &s, &g).is_none());
    g.show_all_layers();
    let (c, r) = plan_view_node(&node(&[("amenity", "hospital")]), &s, &g).unwrap();
    assert_eq!((c.as_str(), f32::from_bits(r)), ("#d32f2f", 4.0));
    let (c, _) = plan_view_node(&node(&[("shop", "bakery")]), &s, &g).unwrap();
    assert_eq!(c, "#95a5a6");
    assert!(plan_view_node(&node(&[("name", "x")]), &s, &g).is_none());
}

#[test]
fn map_view_label_styles() {
    assert_eq!(get_label_style(&way(&[("highway", "motorway")])), (11.0f32.to_bits(), (255, 255, 255)));
    assert_eq!(get_label_style(&way(&[("highway", "primary")])), (10.0f32.to_bits(), (0, 0, 0)));
    assert_eq!(get_label_style(&way(&[("highway", "tertiary")])), (9.0f32.to_bits(), (60, 60, 60)));
    assert_eq!(get_label_style(&way(&[("highway", "path")])), (8.0f32.to_bits(), (80, 80, 80)));
    assert_eq!(get_label_style(&way(&[("building", "yes")])), (8.0f32.to_bits(), (100, 100, 100)));
    assert_eq!(get_label_style(&way(&[])), (8.0f32.to_bits(), (80, 80, 80)));
}
