use mapscow_mule::dialogs::FileFilters;
use mapscow_mule::geocoding::{places_from_results, NominatimResult};

fn f64_bits(s: &str) -> Option<u64> {
    s.parse::<f64>().ok().map(f64::to_bits)
}

fn record(name: &str, lat: &str, lon: &str, kind: &str, importance: Option<f32>) -> NominatimResult {
    NominatimResult {
        place_id: 1,
        licence: "ODbL".to_string(),
        osm_type: "node".to_string(),
        osm_id: 2,
        lat: lat.to_string(),
        lon: lon.to_string(),
        display_name: name.to_string(),
        kind: kind.to_string(),
        importance: importance.map(f32::to_bits),
        icon: None,
    }
}

#[test]
fn search_results_become_places() {
    let results = vec![
        record("Paris, France", "48.8566", "2.3522", "city", Some(0.9)),
        record("Nowhere", "north", "2.0", "village", None),
        record("Half", "1.5", "east", "road", None),
        record("Big Ben, London", "51.5007", "-0.1246", "attraction", None),
    ];
    let places = places_from_results(&results, &f64_bits);
    assert_eq!(places.len(), 2);
    assert_eq!(places[0].display_name, "Paris, France");
    assert_eq!(f64::from_bits(places[0].lat), 48.8566);
    assert_eq!(f64::from_bits(places[0].lon), 2.3522);
    assert_eq!(places[0].place_type, "Settlement");
    assert_eq!(f32::from_bits(places[0].importance), 0.9);
    assert_eq!(places[1].place_type, "Other");
    assert_eq!(f32::from_bits(places[1].importance), 0.0);
    assert_eq!(f64::from_bits(places[1].lon), -0.1246);
}

#[test]
fn dialog_file_filters() {
    use_filters();
}

fn use_filters() {
    assert_eq!(FileFilters::OSM.0, "OpenStreetMap files");
    assert_eq!(FileFilters::OSM.1, &["osm", "osm.xml"]);
    assert_eq!(FileFilters::JPEG.1, &["jpg", "jpeg"]);
    assert_eq!(FileFilters::STYLESHEET.1, &["yaml", "yml", "mss"]);
    assert_eq!(FileFilters::PDF.0, "PDF documents");
}
