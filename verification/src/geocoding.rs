//! Search results of a Nominatim geocoding query, turned into places the map
//! can center on. Coordinates are binary64 bit patterns, importances
//! binary32 bit patterns.
use vstd::prelude::*;
use crate::map_view::{place_type_label, place_type_label_of};
use crate::parsers::owned;

verus! {

/// One record of a Nominatim search answer.
pub struct NominatimResult {
    pub place_id: u64,
    pub licence: String,
    pub osm_type: String,
    pub osm_id: u64,
    pub lat: String,
    pub lon: String,
    pub display_name: String,
    /// The record's `type`.
    pub kind: String,
    pub importance: Option<u32>,
    pub icon: Option<String>,
}

/// A place found by a search.
pub struct GeocodeResult {
    pub display_name: String,
    pub lat: u64,
    pub lon: u64,
    pub place_type: String,
    pub importance: u32,
}

/// A found place as plain values.
pub struct GeocodeView {
    pub display_name: Seq<char>,
    pub lat: u64,
    pub lon: u64,
    pub place_type: Seq<char>,
    pub importance: u32,
}

impl View for GeocodeResult {
    type V = GeocodeView;

    open spec fn view(&self) -> GeocodeView {
        GeocodeView {
            display_name: self.display_name@,
            lat: self.lat,
            lon: self.lon,
            place_type: self.place_type@,
            importance: self.importance,
        }
    }
}

/// The found places as plain values.
pub open spec fn geocode_views(v: Seq<GeocodeResult>) -> Seq<GeocodeView> {
    v.map_values(|g: GeocodeResult| g@)
}

/// The place a record stands for, at the decoded coordinates; a record
/// without an importance has importance 0.
pub open spec fn place_of(r: NominatimResult, lat: u64, lon: u64) -> GeocodeView {
    GeocodeView {
        display_name: r.display_name@,
        lat,
        lon,
        place_type: place_type_label_of(r.kind@),
        importance: match r.importance {
            Some(i) => i,
            None => 0,
        },
    }
}

/// The places of the records whose latitude and longitude both decode, in
/// order; `decs[i]` is how the coordinates of record `i` decoded.
pub open spec fn places_of(rs: Seq<NominatimResult>, decs: Seq<(Option<u64>, Option<u64>)>) -> Seq<
    GeocodeView,
>
    decreases rs.len(),
{
    if rs.len() == 0 {
        seq![]
    } else {
        let prev = places_of(rs.drop_last(), decs.drop_last());
        match decs.last() {
            (Some(lat), Some(lon)) => prev.push(place_of(rs.last(), lat, lon)),
            _ => prev,
        }
    }
}

/// `v` is a value that `parse_f64` returned for `text`.
pub open spec fn decoded_text<F: Fn(&str) -> Option<u64>>(parse_f64: F, text: Seq<char>, v: Option<u64>) -> bool {
    exists|t: &str| t@ == text && #[trigger] call_ensures(parse_f64, (t,), v)
}

/// `decs` holds, for each record, what `parse_f64` gave for its latitude,
/// and, where that decoded, for its longitude (which is not read otherwise).
pub open spec fn decoded_coordinates<F: Fn(&str) -> Option<u64>>(
    parse_f64: F,
    rs: Seq<NominatimResult>,
    decs: Seq<(Option<u64>, Option<u64>)>,
) -> bool {
    &&& decs.len() == rs.len()
    &&& forall|i: int|
        0 <= i < rs.len() ==> {
            &&& decoded_text(parse_f64, #[trigger] rs[i].lat@, decs[i].0)
            &&& decs[i].0 is Some ==> decoded_text(parse_f64, rs[i].lon@, decs[i].1)
            &&& decs[i].0 is None ==> decs[i].1 is None
        }
}

/// The places of a search answer: each record whose coordinates decode
/// (through `parse_f64`, the caller's `str::parse::<f64>`) becomes a place
/// with the label of its type; the others are dropped.
pub fn places_from_results<F: Fn(&str) -> Option<u64>>(results: &Vec<NominatimResult>, parse_f64: &F) -> (r:
    Vec<GeocodeResult>)
    requires
        forall|s: &str| #[trigger] parse_f64.requires((s,)),
    ensures
        exists|decs: Seq<(Option<u64>, Option<u64>)>|
            #![trigger places_of(results@, decs)]
            decoded_coordinates(*parse_f64, results@, decs) && geocode_views(r@) == places_of(
                results@,
                decs,
            ),
{
    let mut out: Vec<GeocodeResult> = Vec::new();
    let ghost mut decs: Seq<(Option<u64>, Option<u64>)> = seq![];
    let n = results.len();
    for i in 0..n
        invariant
            n == results@.len(),
            forall|s: &str| #[trigger] parse_f64.requires((s,)),
            decoded_coordinates(*parse_f64, results@.take(i as int), decs),
            geocode_views(out@) == places_of(results@.take(i as int), decs),
    {
        let rec = &results[i];
        let lat_text = rec.lat.as_str();
        let lon_text = rec.lon.as_str();
        let lat = parse_f64(lat_text);
        let lon = match lat {
            Some(_) => parse_f64(lon_text),
            None => None,
        };
        let ghost before = geocode_views(out@);
        proof {
            assert(call_ensures(*parse_f64, (lat_text,), lat));
        }
        match (lat, lon) {
            (Some(la), Some(lo)) => {
                let importance = match rec.importance {
                    Some(v) => v,
                    None => 0,
                };
                out.push(
                    GeocodeResult {
                        display_name: owned(rec.display_name.as_str()),
                        lat: la,
                        lon: lo,
                        place_type: place_type_label(rec.kind.as_str()),
                        importance,
                    },
                );
            },
            _ => {},
        }
        proof {
            let ts = results@.take(i + 1);
            let d2 = decs.push((lat, lon));
            assert(ts.drop_last() =~= results@.take(i as int));
            assert(d2.drop_last() =~= decs);
            assert(ts.last() == results@[i as int]);
            assert(decoded_text(*parse_f64, results@[i as int].lat@, lat));
            if lat is Some {
                assert(call_ensures(*parse_f64, (lon_text,), lon));
                assert(decoded_text(*parse_f64, results@[i as int].lon@, lon));
            }
            assert forall|j: int| 0 <= j < ts.len() implies {
                &&& decoded_text(*parse_f64, #[trigger] ts[j].lat@, d2[j].0)
                &&& d2[j].0 is Some ==> decoded_text(*parse_f64, ts[j].lon@, d2[j].1)
                &&& d2[j].0 is None ==> d2[j].1 is None
            } by {
                if j < i {
                    assert(ts[j] == results@.take(i as int)[j]);
                    assert(d2[j] == decs[j]);
                }
            }
            assert(geocode_views(out@) =~= places_of(ts, d2));
            decs = d2;
        }
    }
    proof {
        assert(results@.take(n as int) =~= results@);
    }
    out
}

} // verus!
