use mapscow_mule::data::{MapData, Node, Way};
use mapscow_mule::stylesheet::{Color, DrawMode, ElementType, FeatureSelector, RenderStyle, StyleRule, StyleSheet};
use mapscow_mule::styles::{
    drawing_order, AdvancedStyleManager, FeatureGeometry, StyleError, StyleManager, StyledFeature,
};
use mapscow_mule::tags::{StrMap, Tags};

fn tags(pairs: &[(&str, &str)]) -> Tags {
    let mut t = StrMap::new();
    for (k, v) in pairs {
        t.insert(k.to_string(), v.to_string());
    }
    t
}

fn node(id: i64, lat: f64, lon: f64, t: &[(&str, &str)]) -> Node {
    Node { id, lat: lat.to_bits(), lon: lon.to_bits(), tags: tags(t) }
}

#[test]
fn default_stylesheet_has_its_rules() {
    let m = StyleManager::new();
    let sheet = m.get_active_stylesheet().unwrap();
    assert_eq!(sheet.rules.len(), 23);
    let water = &sheet.rules[0];
    assert_eq!(water.style.draw_mode, DrawMode::Fill);
    assert_eq!(water.style.fill_color, Some(Color::new(170, 211, 223, 255)));
    assert_eq!(water.style.line_color, Some(Color::new(140, 181, 193, 255)));
    let forest = &sheet.rules[12];
    assert_eq!(forest.style.line_color, Some(Color::new(0, 0, 0, 255)));
    assert_eq!(forest.style.fill_color, Some(Color::new(173, 209, 158, 255)));
    let motorway = &sheet.rules[3];
    assert_eq!(motorway.style.line_width, 6.0f32.to_bits());
    let last = &sheet.rules[22];
    match &last.selectors[0] {
        FeatureSelector::Tag { key, value } => {
            assert_eq!(key, "highway");
            assert!(value.is_none());
        }
        _ => panic!("expected a tag selector"),
    }
}

#[test]
fn z_index_by_feature_kind() {
    let m = StyleManager::new();
    assert_eq!(m.calculate_z_index(&tags(&[("building", "yes"), ("amenity", "x")])), 100);
    assert_eq!(m.calculate_z_index(&tags(&[("landuse", "grass")])), 50);
    assert_eq!(m.calculate_z_index(&tags(&[("highway", "trunk")])), 80);
    assert_eq!(m.calculate_z_index(&tags(&[("highway", "primary")])), 70);
    assert_eq!(m.calculate_z_index(&tags(&[("highway", "secondary")])), 60);
    assert_eq!(m.calculate_z_index(&tags(&[("highway", "tertiary")])), 50);
    assert_eq!(m.calculate_z_index(&tags(&[("highway", "path")])), 40);
    assert_eq!(m.calculate_z_index(&tags(&[("waterway", "river")])), 30);
    assert_eq!(m.calculate_z_index(&tags(&[("natural", "tree")])), 20);
    assert_eq!(m.calculate_z_index(&tags(&[("amenity", "cafe")])), 200);
    assert_eq!(m.calculate_z_index(&tags(&[("name", "x")])), 0);
}

#[test]
fn rule_matching_and_text() {
    let m = StyleManager::new();
    let rule = StyleRule {
        selectors: vec![
            FeatureSelector::Tag { key: "highway".into(), value: Some("primary".into()) },
            FeatureSelector::ElementType(ElementType::Node),
        ],
        style: RenderStyle::default(),
    };
    assert!(m.matches_rule(&rule, &tags(&[("highway", "primary")]), &ElementType::Way));
    assert!(!m.matches_rule(&rule, &tags(&[("highway", "secondary")]), &ElementType::Way));
    assert!(m.matches_rule(&rule, &tags(&[]), &ElementType::Node));
    let zoom = StyleRule { selectors: vec![FeatureSelector::ZoomRange { min: None, max: Some(3) }], style: RenderStyle::default() };
    assert!(m.matches_rule(&zoom, &tags(&[]), &ElementType::Way));
    let mut style = RenderStyle::default();
    assert_eq!(m.extract_text(&tags(&[("name", "Main St")]), &style), None);
    style.text_field = Some("name".into());
    assert_eq!(m.extract_text(&tags(&[("name", "Main St")]), &style).as_deref(), Some("Main St"));
    assert_eq!(m.extract_text(&tags(&[("ref", "A1")]), &style), None);
}

#[test]
fn managing_stylesheets() {
    let mut m = StyleManager::new();
    let i = m.add_stylesheet(StyleSheet::default());
    assert_eq!(i, 1);
    assert_eq!(m.get_active_stylesheet().unwrap().rules.len(), 23);
    m.set_active_stylesheet(1);
    assert_eq!(m.get_active_stylesheet().unwrap().rules.len(), 0);
    m.set_active_stylesheet(7);
    assert_eq!(m.get_active_stylesheet().unwrap().rules.len(), 0);
}

#[test]
fn apply_styles_sorts_features_by_z_index() {
    let m = StyleManager::new();
    let mut map = MapData::new();
    map.add_node(node(1, 48.0, 2.0, &[]));
    map.add_node(node(2, 48.1, 2.0, &[]));
    map.add_node(node(3, 48.1, 2.1, &[]));
    map.add_node(node(4, 48.2, 2.2, &[("amenity", "cafe")]));
    map.add_node(node(5, 48.2, 2.3, &[("name", "nothing matches")]));
    map.add_way(Way { id: 10, nodes: vec![1, 2, 3, 1], tags: tags(&[("building", "yes")]), is_closed: true });
    map.add_way(Way { id: 11, nodes: vec![1, 2], tags: tags(&[("highway", "primary")]), is_closed: false });
    map.add_way(Way { id: 12, nodes: vec![1, 3], tags: tags(&[("highway", "motorway")]), is_closed: false });
    map.add_way(Way { id: 13, nodes: vec![77], tags: tags(&[("highway", "motorway")]), is_closed: false });
    let styled = m.apply_styles(&map).ok().unwrap();
    let z: Vec<i32> = styled.features.iter().map(|f| f.z_index).collect();
    assert_eq!(z, vec![70, 80, 100, 200]);
    match &styled.features[2].geometry {
        FeatureGeometry::Polygon { exterior, holes } => {
            assert_eq!(exterior.len(), 4);
            assert!(holes.is_empty());
        }
        _ => panic!("expected a polygon"),
    }
    match &styled.features[3].geometry {
        FeatureGeometry::Point(c) => assert_eq!(c.y, 48.2f64.to_bits()),
        _ => panic!("expected a point"),
    }
    assert_eq!(styled.features[3].style.draw_mode, DrawMode::Point);
    assert_eq!(styled.bounds.max_lon, 2.3f64.to_bits());
}

#[test]
fn apply_styles_needs_a_stylesheet_rule() {
    let mut m = StyleManager::new();
    let i = m.add_stylesheet(StyleSheet::default());
    m.set_active_stylesheet(i);
    let mut map = MapData::new();
    map.add_node(node(4, 48.2, 2.2, &[("amenity", "cafe")]));
    assert!(m.apply_styles(&map).ok().unwrap().features.is_empty());
    assert!(!matches!(m.apply_styles(&map), Err(StyleError::NoActiveStylesheet)));
}

#[test]
fn advanced_manager_loads_empty_and_validates() {
    let m = AdvancedStyleManager::new();
    let sheet = m.load_stylesheet_from_url("https://example.org/style.yaml").unwrap();
    assert!(sheet.rules.is_empty());
    assert_eq!(sheet.variables.len(), 0);
    assert!(m.validate_stylesheet(&StyleManager::create_default_stylesheet()).unwrap().is_empty());
}

fn feature(z: i32, text: &str) -> StyledFeature {
    StyledFeature {
        geometry: FeatureGeometry::LineString(Vec::new()),
        style: RenderStyle::default(),
        text: Some(text.to_string()),
        z_index: z,
    }
}

#[test]
fn drawing_order_is_a_stable_sort_by_z_index() {
    let fs = vec![feature(200, "a"), feature(70, "b"), feature(200, "c"), feature(-5, "d"), feature(70, "e")];
    let order = drawing_order(&fs);
    assert_eq!(order, vec![3, 1, 4, 0, 2]);
    assert!(drawing_order(&Vec::new()).is_empty());
}

#[test]
fn active_stylesheet_changes_in_place() {
    let mut m = StyleManager::new();
    let i = m.add_stylesheet(StyleSheet::default());
    m.get_active_stylesheet_mut().unwrap().rules.truncate(5);
    assert_eq!(m.get_active_stylesheet().unwrap().rules.len(), 5);
    m.set_active_stylesheet(i);
    assert_eq!(m.get_active_stylesheet_mut().unwrap().rules.len(), 0);
    m.set_active_stylesheet(0);
    assert_eq!(m.get_active_stylesheet().unwrap().rules.len(), 5);
}
