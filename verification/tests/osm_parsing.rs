use mapscow_mule::data::{Coord, ElementType, Geometry, MapData};
use mapscow_mule::osm::OsmParser;
use mapscow_mule::parsers::ParseError;
use mapscow_mule::tags::StrMap;

fn f64_bits(s: &str) -> Option<u64> {
    s.parse::<f64>().ok().map(f64::to_bits)
}

fn bits(x: f64) -> u64 {
    x.to_bits()
}

const SAMPLE: &str = r#"<?xml version="1.0" encoding="UTF-8"?>
<osm version="0.6">
  <node id="1" lat="48.85" lon="2.35"/>
  <node id="2" lat="48.86" lon="2.36">
    <tag k="amenity" v="cafe"/>
    <tag k="name" v="Chez &amp; Moi"/>
  </node>
  <node id="3" lat="48.87" lon="2.34"/>
  <way id="10">
    <nd ref="1"/>
    <nd ref="2"/>
    <nd ref="3"/>
    <nd ref="1"/>
    <tag k="building" v="yes"/>
  </way>
  <way id="11">
    <nd ref="1"/>
    <nd ref="2"/>
    <nd ref="99"/>
    <tag k="highway" v="primary"/>
  </way>
  <relation id="20">
    <member type="way" ref="10" role="outer"/>
    <member type="node" ref="2"/>
    <tag k="type" v="multipolygon"/>
  </relation>
</osm>"#;

fn parse(content: &str) -> Result<MapData, ParseError> {
    OsmParser::new().parse_string(content, &f64_bits)
}

#[test]
fn osm_sample_nodes_ways_relations() {
    let map = parse(SAMPLE).ok().unwrap();
    assert_eq!(map.nodes.len(), 3);
    assert_eq!(map.ways.len(), 2);
    assert_eq!(map.relations.len(), 1);
    let n2 = &map.nodes[&2];
    assert_eq!(n2.lat, bits(48.86));
    assert_eq!(n2.lon, bits(2.36));
    assert_eq!(n2.tags.get("amenity").unwrap(), "cafe");
    assert_eq!(n2.tags.get("name").unwrap(), "Chez &amp; Moi");
    assert!(map.nodes[&1].tags.is_empty());
}

#[test]
fn osm_way_closed_when_first_is_last() {
    let map = parse(SAMPLE).ok().unwrap();
    let w10 = &map.ways[&10];
    assert_eq!(w10.nodes, vec![1, 2, 3, 1]);
    assert!(w10.is_closed);
    assert!(!map.ways[&11].is_closed);
}

#[test]
fn osm_relation_members() {
    let map = parse(SAMPLE).ok().unwrap();
    let r = &map.relations[&20];
    assert_eq!(r.members.len(), 2);
    assert_eq!(r.members[0].element_type, ElementType::Way);
    assert_eq!(r.members[0].id, 10);
    assert_eq!(r.members[0].role, "outer");
    assert_eq!(r.members[1].element_type, ElementType::Node);
    assert_eq!(r.members[1].role, "");
}

#[test]
fn osm_bounds_cover_nodes() {
    let map = parse(SAMPLE).ok().unwrap();
    assert_eq!(map.bounds.min_lat, bits(48.85));
    assert_eq!(map.bounds.max_lat, bits(48.87));
    assert_eq!(map.bounds.min_lon, bits(2.34));
    assert_eq!(map.bounds.max_lon, bits(2.36));
}

#[test]
fn osm_empty_dataset_bounds_are_infinite() {
    let map = MapData::new();
    assert_eq!(map.bounds.min_lat, f64::INFINITY.to_bits());
    assert_eq!(map.bounds.max_lat, f64::NEG_INFINITY.to_bits());
    assert!(map.bounds.is_empty());
}

#[test]
fn osm_way_geometry_polygon_and_line() {
    let map = parse(SAMPLE).ok().unwrap();
    match map.get_way_geometry(&map.ways[&10]).unwrap() {
        Geometry::Polygon { exterior, interiors } => {
            assert_eq!(exterior.len(), 4);
            assert_eq!(exterior[0], exterior[3]);
            assert_eq!(exterior[0], Coord { x: bits(2.35), y: bits(48.85) });
            assert!(interiors.is_empty());
        }
        _ => panic!("expected a polygon"),
    }
    match map.get_way_geometry(&map.ways[&11]).unwrap() {
        Geometry::LineString(coords) => {
            assert_eq!(coords.len(), 2);
            assert_eq!(coords[1], Coord { x: bits(2.36), y: bits(48.86) });
        }
        _ => panic!("expected a line"),
    }
}

#[test]
fn osm_geometry_closes_open_ring() {
    let content = r#"<osm>
      <node id="1" lat="1" lon="1"/><node id="2" lat="2" lon="1"/><node id="3" lat="2" lon="2"/>
      <way id="5"><nd ref="1"/><nd ref="2"/><nd ref="3"/><nd ref="7"/><nd ref="1"/></way>
      <way id="6"><nd ref="1"/><nd ref="2"/><nd ref="3"/></way>
    </osm>"#;
    let mut map = parse(content).ok().unwrap();
    let mut w = map.ways[&6].clone();
    w.is_closed = true;
    match map.get_way_geometry(&w).unwrap() {
        Geometry::Polygon { exterior, .. } => {
            assert_eq!(exterior.len(), 4);
            assert_eq!(exterior[3], exterior[0]);
        }
        _ => panic!("expected a polygon"),
    }
    map.nodes.clear();
    assert!(map.get_way_geometry(&w).is_none());
}

#[test]
fn osm_ways_by_tags() {
    let map = parse(SAMPLE).ok().unwrap();
    let mut filter: StrMap<Vec<String>> = StrMap::new();
    filter.insert("highway".to_string(), vec!["primary".to_string(), "secondary".to_string()]);
    let found = map.get_ways_by_tags(&filter);
    assert_eq!(found.len(), 1);
    assert_eq!(found[0].id, 11);

    let mut any_building: StrMap<Vec<String>> = StrMap::new();
    any_building.insert("building".to_string(), Vec::new());
    let found = map.get_ways_by_tags(&any_building);
    assert_eq!(found.len(), 1);
    assert_eq!(found[0].id, 10);

    let mut none: StrMap<Vec<String>> = StrMap::new();
    none.insert("highway".to_string(), vec!["motorway".to_string()]);
    assert!(map.get_ways_by_tags(&none).is_empty());
}

#[test]
fn osm_missing_lat_is_an_error() {
    let r = parse(r#"<osm><node id="1" lon="2"/></osm>"#);
    match r {
        Err(ParseError::MissingField(f)) => assert_eq!(f, "lat"),
        _ => panic!("expected a missing field"),
    }
}

#[test]
fn osm_missing_way_id_is_an_error() {
    match parse(r#"<osm><way version="2"><nd ref="1"/></way></osm>"#) {
        Err(ParseError::MissingField(f)) => assert_eq!(f, "id"),
        _ => panic!("expected a missing id"),
    }
}

#[test]
fn osm_out_of_range_coordinate_is_an_error() {
    match parse(r#"<osm><node id="1" lat="91.5" lon="2"/></osm>"#) {
        Err(ParseError::InvalidCoordinate { lat, lon }) => {
            assert_eq!(lat, bits(91.5));
            assert_eq!(lon, bits(2.0));
        }
        _ => panic!("expected an invalid coordinate"),
    }
}

#[test]
fn osm_bad_number_texts_are_errors() {
    match parse(r#"<osm><node id="x1" lat="1" lon="2"/></osm>"#) {
        Err(ParseError::InvalidInteger(t)) => assert_eq!(t, "x1"),
        _ => panic!("expected an invalid integer"),
    }
    match parse(r#"<osm><node id="1" lat="north" lon="2"/></osm>"#) {
        Err(ParseError::InvalidFloat(t)) => assert_eq!(t, "north"),
        _ => panic!("expected an invalid float"),
    }
}

#[test]
fn osm_unknown_member_type_is_an_error() {
    let content = r#"<osm><relation id="1"><member type="area" ref="3"/></relation></osm>"#;
    match parse(content) {
        Err(ParseError::InvalidFormat(m)) => assert_eq!(m, "Unknown element type: area"),
        _ => panic!("expected an invalid format"),
    }
}

#[test]
fn osm_malformed_xml_is_an_error() {
    match parse("<osm><node id=\"1\" lat=\"1\" lon=\"2\"></way></osm>") {
        Err(ParseError::Xml(m)) => assert!(m.starts_with("XML error at position ")),
        _ => panic!("expected an XML error"),
    }
}

#[test]
fn osm_tag_without_value_is_an_error() {
    match parse(r#"<osm><node id="1" lat="1" lon="2"><tag k="a"/></node></osm>"#) {
        Err(ParseError::MissingField(f)) => assert_eq!(f, "v"),
        _ => panic!("expected a missing value"),
    }
}

#[test]
fn osm_parsing_stops_at_end_of_osm() {
    let map = parse(r#"<osm><node id="1" lat="1" lon="2"/></osm><node id="2" lat="1" lon="2"/>"#);
    assert_eq!(map.ok().unwrap().nodes.len(), 1);
}

#[test]
fn osm_parser_metadata_setting() {
    assert!(!OsmParser::new().with_metadata(true).with_metadata(false).parse_string("<osm/>", &f64_bits).is_err());
}
