use mapscow_mule::config::AppConfig;
use mapscow_mule::data::{
    Coord, CoordinateUtils, GeometryUtils, GpxPoint, GpxSegment, GpxTrack, MapData, Node, ProjectionSystem, Projector, Way,
};
use mapscow_mule::export::{
    is_important_poi, is_water_feature, should_label_road, ExportError, ExportFormat, ExportOptions, Exporter,
};
use mapscow_mule::gui::{GuiState, LayersPanel, Tool};
use mapscow_mule::map_view::{
    determine_style_info, get_poi_type, hex_to_rgb, is_selectable_node, matches_node_selectors,
    matches_way_selectors, place_type_label,
};
use mapscow_mule::stylesheet::{Color, ElementType, FeatureSelector};
use mapscow_mule::tags::{StrMap, Tags};

fn tags(pairs: &[(&str, &str)]) -> Tags {
    let mut t = StrMap::new();
    for (k, v) in pairs {
        t.insert(k.to_string(), v.to_string());
    }
    t
}

fn node(t: &[(&str, &str)]) -> Node {
    Node { id: 1, lat: 0, lon: 0, tags: tags(t) }
}

fn way(t: &[(&str, &str)]) -> Way {
    Way { id: 1, nodes: vec![], tags: tags(t), is_closed: false }
}

#[test]
fn tags_insert_replaces_value() {
    let mut t = tags(&[("a", "1"), ("b", "2")]);
    t.insert("a".into(), "3".into());
    assert_eq!(t.len(), 2);
    assert_eq!(t.get("a").unwrap(), "3");
    assert_eq!(t.get("b").unwrap(), "2");
    assert!(t.get("c").is_none());
    assert!(t.contains_key("b"));
}

#[test]
fn export_options_defaults_and_builders() {
    let o = ExportOptions::new(ExportFormat::Png, "out/map.png".into());
    assert_eq!((o.width, o.height), (1024, 768));
    assert_eq!(o.dpi, 300.0f32.to_bits());
    assert_eq!(o.quality, Some(90));
    assert_eq!(o.compression, Some(6));
    let o = o.with_size(10, 20).with_dpi(72.0f32.to_bits()).with_quality(50).with_background(Color::new(1, 2, 3, 4));
    assert_eq!((o.width, o.height), (10, 20));
    assert_eq!(o.dpi, 72.0f32.to_bits());
    assert_eq!(o.quality, Some(50));
    assert_eq!(o.background_color, Some(Color::new(1, 2, 3, 4)));
}

#[test]
fn export_extensions_and_support() {
    assert_eq!(Exporter::get_extension(ExportFormat::Svg), "svg");
    assert_eq!(Exporter::get_extension(ExportFormat::Png), "png");
    assert_eq!(Exporter::get_extension(ExportFormat::Jpeg), "jpg");
    assert_eq!(Exporter::get_extension(ExportFormat::Pdf), "pdf");
    assert!(Exporter::format_support(ExportFormat::Svg).is_ok());
    assert!(matches!(Exporter::format_support(ExportFormat::Pdf), Err(ExportError::Unsupported(ExportFormat::Pdf))));
}

#[test]
fn export_validation() {
    let e = Exporter::new();
    let o = ExportOptions::new(ExportFormat::Svg, "out/map.svg".into());
    assert!(e.validate_options(&o, Some(("out".into(), true))).is_ok());
    assert!(e.validate_options(&o, None).is_ok());
    match e.validate_options(&o, Some(("out".into(), false))) {
        Err(ExportError::MissingDirectory(p)) => assert_eq!(p, "out"),
        _ => panic!("expected a missing directory"),
    }
    let o2 = ExportOptions::new(ExportFormat::Svg, "x".into()).with_size(0, 5);
    assert!(matches!(e.validate_options(&o2, None), Err(ExportError::EmptySize)));
    for bad in [0.0f32, -0.0, -3.0, f32::NEG_INFINITY] {
        let o3 = ExportOptions::new(ExportFormat::Svg, "x".into()).with_dpi(bad.to_bits());
        assert!(matches!(e.validate_options(&o3, None), Err(ExportError::InvalidDpi)), "dpi {}", bad);
    }
    for good in [f32::NAN, 1e-40, 96.0, f32::INFINITY] {
        let o4 = ExportOptions::new(ExportFormat::Svg, "x".into()).with_dpi(good.to_bits());
        assert!(e.validate_options(&o4, None).is_ok(), "dpi {}", good);
    }
}

#[test]
fn svg_feature_rules() {
    assert!(is_water_feature(&way(&[("natural", "coastline")])));
    assert!(!is_water_feature(&way(&[("natural", "wood"), ("waterway", "river")])));
    assert!(is_water_feature(&way(&[("waterway", "river")])));
    assert!(is_important_poi("fire_station"));
    assert!(!is_important_poi("cafe"));
    assert!(should_label_road("secondary_link"));
    assert!(!should_label_road("footway"));
}

#[test]
fn style_info_categories() {
    let i = determine_style_info(&tags(&[("highway", "primary"), ("building", "yes")]));
    assert_eq!((i.category.as_str(), i.subcategory.as_str(), i.toml_section.as_str()), ("road", "primary", "roads.primary"));
    let i = determine_style_info(&tags(&[("building", "house")]));
    assert_eq!((i.category.as_str(), i.subcategory.as_str(), i.toml_section.as_str()), ("building", "house", "buildings"));
    let i = determine_style_info(&tags(&[("waterway", "canal")]));
    assert_eq!((i.category.as_str(), i.subcategory.as_str(), i.toml_section.as_str()), ("water", "canal", "water"));
    let i = determine_style_info(&tags(&[("shop", "bakery")]));
    assert_eq!((i.category.as_str(), i.subcategory.as_str(), i.toml_section.as_str()), ("poi", "shop_bakery", "pois.shop_bakery"));
    let i = determine_style_info(&tags(&[("admin_level", "8")]));
    assert_eq!((i.category.as_str(), i.subcategory.as_str(), i.toml_section.as_str()), ("boundary", "administrative", "boundaries"));
    let i = determine_style_info(&tags(&[]));
    assert_eq!((i.category.as_str(), i.subcategory.as_str(), i.toml_section.as_str()), ("unknown", "generic", "unknown"));
}

#[test]
fn poi_types_and_selection() {
    assert_eq!(get_poi_type(&node(&[("amenity", "cafe"), ("shop", "x")])).as_deref(), Some("cafe"));
    assert_eq!(get_poi_type(&node(&[("tourism", "museum")])).as_deref(), Some("tourism_museum"));
    assert_eq!(get_poi_type(&node(&[("public_transport", "stop")])).as_deref(), Some("public_transport"));
    assert_eq!(get_poi_type(&node(&[("place", "city")])).as_deref(), Some("place_city"));
    assert_eq!(get_poi_type(&node(&[("name", "x")])), None);
    assert!(is_selectable_node(&node(&[("barrier", "gate")])));
    assert!(!is_selectable_node(&node(&[("name", "x")])));
    assert!(is_selectable_node(&node(&[("name", "x"), ("ref", "1")])));
}

#[test]
fn map_view_selectors() {
    let sels = vec![
        FeatureSelector::ZoomRange { min: None, max: None },
        FeatureSelector::Tag { key: "landuse".into(), value: None },
    ];
    assert!(matches_way_selectors(&way(&[("landuse", "x")]), &sels));
    assert!(!matches_way_selectors(&way(&[("building", "x")]), &sels));
    let by_type = vec![FeatureSelector::ElementType(ElementType::Node)];
    assert!(matches_node_selectors(&node(&[]), &by_type));
    assert!(!matches_way_selectors(&way(&[]), &by_type));
}

#[test]
fn hex_colors_for_the_map_view() {
    assert_eq!(hex_to_rgb("#FF8000"), (255, 128, 0));
    assert_eq!(hex_to_rgb("##00ff10"), (0, 255, 16));
    assert_eq!(hex_to_rgb("#FF80"), (128, 128, 128));
    assert_eq!(hex_to_rgb("#GG8000"), (128, 128, 128));
    assert_eq!(hex_to_rgb("#é1234"), (128, 128, 128));
}

#[test]
fn geocoding_place_labels() {
    assert_eq!(place_type_label("village"), "Settlement");
    assert_eq!(place_type_label("postcode"), "Postal Code");
    assert_eq!(place_type_label("volcano"), "Other");
}

#[test]
fn gui_state_and_layers() {
    let mut s = GuiState::new();
    assert_eq!(s.current_tool, Tool::Pan);
    assert_eq!(s.selected_style, "google-maps");
    assert!(!s.show_gpx && s.show_roads);
    s.hide_all_layers();
    assert!(!s.show_roads && !s.show_pois && !s.show_all_road_names);
    s.show_all_layers();
    assert!(s.show_roads && s.show_gpx && s.show_all_road_names);
    assert!(!LayersPanel::new().is_open);
}

#[test]
fn recent_files_are_most_recent_first() {
    let mut c = AppConfig::default();
    assert_eq!(c.window.width, 1200);
    assert_eq!(c.export.default_dpi, 300.0f32.to_bits());
    for i in 0..12 {
        c.add_recent_file(format!("f{}.osm", i));
    }
    assert_eq!(c.recent_files.len(), 10);
    assert_eq!(c.recent_files[0], "f11.osm");
    c.add_recent_file("f5.osm".into());
    assert_eq!(c.recent_files[0], "f5.osm");
    assert_eq!(c.recent_files.iter().filter(|f| *f == "f5.osm").count(), 1);
    assert_eq!(c.recent_files.len(), 10);
    assert_eq!(c.map.background_color, (240, 248, 255, 255));
    assert_eq!(c.export.default_dpi, 300.0f32.to_bits());
    assert_eq!(c.window.height, 800);
}

#[test]
fn bounding_box_and_hemisphere() {
    let c = |x: f64, y: f64| Coord { x: x.to_bits(), y: y.to_bits() };
    assert!(GeometryUtils::bounding_box(&[]).is_none());
    let (lo, hi) = GeometryUtils::bounding_box(&[c(1.0, 5.0), c(-2.0, 7.0), c(3.0, -1.0)]).unwrap();
    assert_eq!(lo, c(-2.0, -1.0));
    assert_eq!(hi, c(3.0, 7.0));
    assert!(CoordinateUtils::is_northern_hemisphere(0.0f64.to_bits()));
    assert!(CoordinateUtils::is_northern_hemisphere((-0.0f64).to_bits()));
    assert!(!CoordinateUtils::is_northern_hemisphere((-1.0f64).to_bits()));
    assert!(!CoordinateUtils::is_northern_hemisphere(f64::NAN.to_bits()));
    let p = Projector::new(ProjectionSystem::Utm { zone: 31, north: true });
    assert_eq!(p.projection_system(), ProjectionSystem::Utm { zone: 31, north: true });
}

#[test]
fn gpx_track_widens_bounds() {
    let mut m = MapData::new();
    let p = |lat: f64, lon: f64| GpxPoint { lat: lat.to_bits(), lon: lon.to_bits(), elevation: None, time: None };
    let track = GpxTrack {
        name: Some("ride".to_string()),
        segments: vec![GpxSegment { points: vec![p(48.5, 2.25), p(48.75, 2.0)] }, GpxSegment { points: vec![p(49.0, 2.5)] }],
    };
    m.add_gpx_track(track);
    assert_eq!(m.gpx_tracks.len(), 1);
    assert_eq!(f64::from_bits(m.bounds.min_lat), 48.5);
    assert_eq!(f64::from_bits(m.bounds.max_lat), 49.0);
    assert_eq!(f64::from_bits(m.bounds.min_lon), 2.0);
    assert_eq!(f64::from_bits(m.bounds.max_lon), 2.5);
    assert!(m.nodes.is_empty());
}
