use mapscow_mule::gpx::GpxParser;
use mapscow_mule::parsers::ParseError;

fn f64_bits(s: &str) -> Option<u64> {
    s.parse::<f64>().ok().map(f64::to_bits)
}

const GPX: &str = r#"<?xml version="1.0" encoding="UTF-8"?>
<gpx version="1.1" creator="test" xmlns="http://www.topografix.com/GPX/1/1">
  <trk>
    <name>Morning walk</name>
    <trkseg>
      <trkpt lat="48.85" lon="2.35"><ele>35.5</ele><time>2024-01-01T10:00:00Z</time></trkpt>
      <trkpt lat="48.86" lon="2.36"></trkpt>
    </trkseg>
  </trk>
</gpx>"#;

#[test]
fn gpx_document_read_by_gpx_crate() {
    let tracks = GpxParser::new().parse_string(GPX, &f64_bits).ok().unwrap();
    assert_eq!(tracks.len(), 1);
    assert_eq!(tracks[0].name.as_deref(), Some("Morning walk"));
    let pts = &tracks[0].segments[0].points;
    assert_eq!(pts.len(), 2);
    assert_eq!(pts[0].lat, 48.85f64.to_bits());
    assert_eq!(pts[0].lon, 2.35f64.to_bits());
    assert_eq!(pts[0].elevation, Some(35.5f64.to_bits()));
    assert!(pts[0].time.is_some());
    assert!(pts[1].time.is_none());
    assert!(pts[1].elevation.is_none());
}

const ODD: &str = r#"<track-file>
  <trk>
    <name>  Evening ride </name>
    <trkseg>
      <trkpt lat="45.5" lon="6.25"><ele> 1200.25 </ele><time>2024-05-01T18:30:00+02:00</time></trkpt>
      <trkpt lat="45.6" lon="6.3"><ele>high</ele></trkpt>
      <trkpt lon="6.3"/>
    </trkseg>
  </trk>
</track-file>"#;

#[test]
fn gpx_fallback_reader() {
    let tracks = GpxParser::new().parse_gpx_manual(ODD, &f64_bits).ok().unwrap();
    assert_eq!(tracks.len(), 1);
    assert_eq!(tracks[0].name.as_deref(), Some("Evening ride"));
    let pts = &tracks[0].segments[0].points;
    assert_eq!(pts.len(), 2);
    assert_eq!(pts[0].elevation, Some(1200.25f64.to_bits()));
    let t = pts[0].time.unwrap();
    assert_eq!(t.seconds, 1714581000);
    assert_eq!(t.nanos, 0);
    assert!(pts[1].elevation.is_none());
    assert!(pts[1].time.is_none());
}

#[test]
fn gpx_fallback_used_when_gpx_crate_refuses() {
    let direct = GpxParser::new().parse_string(ODD, &f64_bits).ok().unwrap();
    assert_eq!(direct.len(), 1);
    assert_eq!(direct[0].segments[0].points.len(), 2);
}

#[test]
fn gpx_fallback_rejects_out_of_range_point() {
    let doc = r#"<t><trk><trkseg><trkpt lat="95" lon="6.3"></trkpt></trkseg></trk></t>"#;
    match GpxParser::new().parse_gpx_manual(doc, &f64_bits) {
        Err(ParseError::InvalidCoordinate { lat, .. }) => assert_eq!(lat, 95.0f64.to_bits()),
        _ => panic!("expected an invalid coordinate"),
    }
}

#[test]
fn gpx_fallback_malformed_xml() {
    match GpxParser::new().parse_gpx_manual("<t><trk></t>", &f64_bits) {
        Err(ParseError::Xml(m)) => assert!(m.starts_with("XML error at position")),
        _ => panic!("expected an XML error"),
    }
}
