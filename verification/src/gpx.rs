//! The GPX parser: the `gpx` crate's reading of a document, and, where that
//! fails, a state machine over XML events that reads tracks, segments and
//! track points.
use vstd::prelude::*;
use crate::data::{GpxTrack, GpxSegment, GpxPoint, GpxTime, GpxTrackView};
use crate::osm::{out_of_range, float_of, attr_text, attr_float, decoded_by, read_attr_float,
    attribute_error, record, decode_element_coordinates, coordinates_covered, coordinate_text_at,
    recorded};
use crate::parsers::{ParseError, ParseErrorView, utf8_text, owned};
use crate::floats::f64_bits_lt;
use crate::tags::StrMap;
use crate::text::{trim, chars_of, string_of, trim_chars};
use crate::xml::{XmlAttribute, XmlElement, XmlEvent, is_named, name_is, xml_error_message,
    xml_error_text, read_xml_events, event_views, xml_events_from};

verus! {

/// GPX file parser.
pub struct GpxParser;

/// A track point as the `gpx` crate reads it: coordinates and elevation
/// (binary64 bit patterns) and whether it carries a time.
#[derive(Clone, Copy, Debug, PartialEq, Eq, Structural)]
pub struct GpxPointData {
    pub lat: u64,
    pub lon: u64,
    pub elevation: Option<u64>,
    pub has_time: bool,
}

/// A track as the `gpx` crate reads it.
pub struct GpxTrackData {
    pub name: Option<String>,
    pub segments: Vec<Vec<GpxPointData>>,
}

/// A track as the `gpx` crate reads it, as plain values.
pub struct GpxTrackDataView {
    pub name: Option<Seq<char>>,
    pub segments: Seq<Seq<GpxPointData>>,
}

impl View for GpxTrackData {
    type V = GpxTrackDataView;

    open spec fn view(&self) -> GpxTrackDataView {
        GpxTrackDataView {
            name: match self.name {
                Some(n) => Some(n@),
                None => None,
            },
            segments: self.segments@.map_values(|s: Vec<GpxPointData>| s@),
        }
    }
}

/// The views of a list of tracks.
pub open spec fn track_data_views(v: Seq<GpxTrackData>) -> Seq<GpxTrackDataView> {
    v.map_values(|t: GpxTrackData| t@)
}

/// What `gpx::read` gives for a document: its tracks, or `None` when it
/// does not read it.
pub uninterp spec fn gpx_read(content: Seq<char>) -> Option<Seq<GpxTrackDataView>>;

/// `gpx::read` on the document's bytes: for each track its name and, for each
/// segment, each point's coordinates, elevation and whether it has a time.
#[verifier::external_body]
fn read_gpx_tracks(content: &str) -> (r: Option<Vec<GpxTrackData>>)
    ensures
        match r {
            Some(v) => gpx_read(content@) == Some(track_data_views(v@)),
            None => gpx_read(content@) is None,
        },
{
    gpx::read(content.as_bytes()).ok().map(|g| g.tracks.into_iter().map(|t| GpxTrackData {
        name: t.name,
        segments: t.segments.into_iter().map(|s| s.points.iter().map(|w| GpxPointData {
            lat: w.point().y().to_bits(),
            lon: w.point().x().to_bits(),
            elevation: w.elevation.map(|e| e.to_bits()),
            has_time: w.time.is_some(),
        }).collect()).collect(),
    }).collect())
}

/// `chrono::Utc::now`: the current time. Nothing is known of it.
#[verifier::external_body]
fn utc_now() -> GpxTime {
    let t = chrono::Utc::now();
    GpxTime { seconds: t.timestamp(), nanos: t.timestamp_subsec_nanos() }
}

/// The instant that an RFC 3339 date-time text denotes, if it is one.
pub uninterp spec fn rfc3339_instant(s: Seq<char>) -> Option<GpxTime>;

/// `chrono::DateTime::parse_from_rfc3339`, taken in UTC.
#[verifier::external_body]
fn parse_rfc3339(s: &str) -> (r: Option<GpxTime>)
    ensures
        r == rfc3339_instant(s@),
{
    chrono::DateTime::parse_from_rfc3339(s).ok().map(
        |t| GpxTime { seconds: t.timestamp(), nanos: t.timestamp_subsec_nanos() },
    )
}

/// A point read by the `gpx` crate is a point with its coordinates and
/// elevation, and a time exactly when it has one.
pub open spec fn point_from_data(p: GpxPoint, d: GpxPointData) -> bool {
    p.lat == d.lat && p.lon == d.lon && p.elevation == d.elevation && (p.time is Some
        == d.has_time)
}

/// The tracks `t` are the tracks `d` read by the `gpx` crate.
pub open spec fn tracks_from_data(t: Seq<GpxTrackView>, d: Seq<GpxTrackDataView>) -> bool {
    t.len() == d.len() && forall|i: int| 0 <= i < t.len() ==> track_matches(#[trigger] t[i], d[i])
}

/// The views of a list of tracks.
pub open spec fn track_views(v: Seq<GpxTrack>) -> Seq<GpxTrackView> {
    v.map_values(|t: GpxTrack| t@)
}

// ---------------------------------------------------------------------------
// The fallback reader
// ---------------------------------------------------------------------------

/// The text gathered before event `i` since the last end tag.
pub open spec fn pending_text(evs: Seq<XmlEvent>, i: int) -> Seq<char>
    decreases i,
{
    if i <= 0 || i > evs.len() {
        Seq::empty()
    } else {
        match evs[i - 1] {
            XmlEvent::End(_) => Seq::empty(),
            XmlEvent::Text(Ok(s)) => pending_text(evs, i - 1) + s@,
            _ => pending_text(evs, i - 1),
        }
    }
}

/// The elevation text that event `i` ends, if it ends an `ele` element.
pub open spec fn elevation_text_at(evs: Seq<XmlEvent>, i: int) -> Option<Seq<char>> {
    if 0 <= i < evs.len() {
        match evs[i] {
            XmlEvent::End(name) => if is_named(name@, "ele"@) {
                Some(trim(pending_text(evs, i)))
            } else {
                None
            },
            _ => None,
        }
    } else {
        None
    }
}

/// Every coordinate text of the track points and every elevation text is recorded in `dec`.
pub open spec fn numbers_covered(evs: Seq<XmlEvent>, dec: Map<Seq<char>, Option<u64>>) -> bool {
    &&& coordinates_covered(evs, "trkpt"@, dec)
    &&& forall|i: int| recorded(dec, #[trigger] elevation_text_at(evs, i))
}

/// The reader's state between events.
pub struct GpxState {
    pub tracks: Seq<GpxTrackView>,
    pub track: Option<GpxTrackView>,
    pub segment: Option<Seq<GpxPoint>>,
    pub point: Option<GpxPoint>,
    pub text: Seq<char>,
}

/// What one event does.
pub enum GpxStep {
    Go(GpxState),
    Stop,
    Fail(ParseErrorView),
}

/// The `lat` and `lon` attributes of a track point, read in order; the last
/// of each wins and the first error stops the reading.
pub open spec fn trkpt_attrs(
    attrs: Seq<Result<XmlAttribute, String>>,
    dec: Map<Seq<char>, Option<u64>>,
) -> Result<(Option<u64>, Option<u64>), ParseErrorView>
    decreases attrs.len(),
{
    if attrs.len() == 0 {
        Ok((None, None))
    } else {
        match trkpt_attrs(attrs.drop_last(), dec) {
            Err(e) => Err(e),
            Ok((lat, lon)) => match attrs.last() {
                Err(m) => Err(ParseErrorView::Attribute(m@)),
                Ok(a) => if is_named(a.key@, "lat"@) {
                    match attr_float(a, dec) {
                        Ok(v) => Ok((Some(v), lon)),
                        Err(e) => Err(e),
                    }
                } else if is_named(a.key@, "lon"@) {
                    match attr_float(a, dec) {
                        Ok(v) => Ok((lat, Some(v))),
                        Err(e) => Err(e),
                    }
                } else {
                    Ok((lat, lon))
                },
            },
        }
    }
}

/// The state after an end tag, before its text is cleared.
pub open spec fn gpx_end(st: GpxState, name: Seq<u8>, dec: Map<Seq<char>, Option<u64>>) -> GpxState {
    let t = trim(st.text);
    if is_named(name, "name"@) {
        GpxState {
            track: match st.track {
                Some(tr) => Some(GpxTrackView { name: Some(t), ..tr }),
                None => None,
            },
            ..st
        }
    } else if is_named(name, "ele"@) {
        GpxState {
            point: match st.point {
                Some(p) => Some(
                    match float_of(dec, t) {
                        Some(e) => GpxPoint { elevation: Some(e), ..p },
                        None => p,
                    },
                ),
                None => None,
            },
            ..st
        }
    } else if is_named(name, "time"@) {
        GpxState {
            point: match st.point {
                Some(p) => Some(
                    match rfc3339_instant(t) {
                        Some(tm) => GpxPoint { time: Some(tm), ..p },
                        None => p,
                    },
                ),
                None => None,
            },
            ..st
        }
    } else if is_named(name, "trkpt"@) {
        GpxState {
            point: None,
            segment: match (st.point, st.segment) {
                (Some(p), Some(s)) => Some(s.push(p)),
                _ => st.segment,
            },
            ..st
        }
    } else if is_named(name, "trkseg"@) {
        GpxState {
            segment: None,
            track: match (st.segment, st.track) {
                (Some(s), Some(tr)) => Some(GpxTrackView { segments: tr.segments.push(s), ..tr }),
                _ => st.track,
            },
            ..st
        }
    } else if is_named(name, "trk"@) {
        GpxState {
            track: None,
            tracks: match st.track {
                Some(tr) => st.tracks.push(tr),
                None => st.tracks,
            },
            ..st
        }
    } else {
        st
    }
}

/// What one event does to the state.
pub open spec fn gpx_step(st: GpxState, ev: XmlEvent, dec: Map<Seq<char>, Option<u64>>) -> GpxStep {
    match ev {
        XmlEvent::Start(e) => if is_named(e.name@, "trk"@) {
            GpxStep::Go(GpxState { track: Some(GpxTrackView { name: None, segments: Seq::empty() }), ..st })
        } else if is_named(e.name@, "trkseg"@) {
            GpxStep::Go(GpxState { segment: Some(Seq::empty()), ..st })
        } else if is_named(e.name@, "trkpt"@) {
            match trkpt_attrs(e.attributes@, dec) {
                Err(x) => GpxStep::Fail(x),
                Ok((Some(lat), Some(lon))) => if out_of_range(lat, lon) {
                    GpxStep::Fail(ParseErrorView::InvalidCoordinate { lat, lon })
                } else {
                    GpxStep::Go(
                        GpxState {
                            point: Some(GpxPoint { lat, lon, elevation: None, time: None }),
                            ..st
                        },
                    )
                },
                Ok(_) => GpxStep::Go(st),
            }
        } else {
            GpxStep::Go(st)
        },
        XmlEvent::End(name) => GpxStep::Go(GpxState { text: Seq::empty(), ..gpx_end(st, name@, dec) }),
        XmlEvent::Text(t) => match t {
            Ok(s) => GpxStep::Go(GpxState { text: st.text + s@, ..st }),
            Err(m) => GpxStep::Fail(ParseErrorView::Xml(m@)),
        },
        XmlEvent::Eof => GpxStep::Stop,
        XmlEvent::Error { position, message } => GpxStep::Fail(
            ParseErrorView::Xml(xml_error_message(position, message@)),
        ),
        _ => GpxStep::Go(st),
    }
}

/// Runs the events from state `st`: the tracks completed once an event
/// stops the run or the events run out, or the first failure.
pub open spec fn gpx_run(evs: Seq<XmlEvent>, dec: Map<Seq<char>, Option<u64>>, st: GpxState) -> Result<
    Seq<GpxTrackView>,
    ParseErrorView,
>
    decreases evs.len(),
{
    if evs.len() == 0 {
        Ok(st.tracks)
    } else {
        match gpx_step(st, evs[0], dec) {
            GpxStep::Stop => Ok(st.tracks),
            GpxStep::Fail(e) => Err(e),
            GpxStep::Go(s2) => gpx_run(evs.drop_first(), dec, s2),
        }
    }
}

/// The state before the first event.
pub open spec fn gpx_initial() -> GpxState {
    GpxState { tracks: Seq::empty(), track: None, segment: None, point: None, text: Seq::empty() }
}

/// What reading `evs` gives, with `dec` recording how decimal texts decode.
pub open spec fn gpx_parse(evs: Seq<XmlEvent>, dec: Map<Seq<char>, Option<u64>>) -> Result<
    Seq<GpxTrackView>,
    ParseErrorView,
> {
    gpx_run(evs, dec, gpx_initial())
}

/// `r` is the outcome that `expected` describes.
pub open spec fn tracks_outcome(r: Result<Vec<GpxTrack>, ParseError>, expected: Result<Seq<GpxTrackView>, ParseErrorView>) -> bool {
    match expected {
        Ok(t) => r is Ok && track_views(r->Ok_0@) == t,
        Err(e) => r is Err && r->Err_0@ == e,
    }
}

// ---------------------------------------------------------------------------
// Executable functions
// ---------------------------------------------------------------------------

/// The tracks the `gpx` crate read, as the library's tracks: a point that
/// has a time gets the current time (the time itself is not carried over).
pub fn tracks_from_gpx_data(data: Vec<GpxTrackData>) -> (r: Vec<GpxTrack>)
    ensures
        tracks_from_data(track_views(r@), track_data_views(data@)),
{
    let mut out: Vec<GpxTrack> = Vec::new();
    let nt = data.len();
    for i in 0..nt
        invariant
            nt == data@.len(),
            out@.len() == i,
            forall|a: int| 0 <= a < i ==> #[trigger] track_matches((out@[a])@, (data@[a])@),
    {
        let t = &data[i];
        let mut segments: Vec<GpxSegment> = Vec::new();
        let ns = t.segments.len();
        for j in 0..ns
            invariant
                ns == t.segments@.len(),
                segments@.len() == j,
                forall|b: int|
                    0 <= b < j ==> #[trigger] segment_matches(segments@[b].points@, t.segments@[b]@),
        {
            let s = &t.segments[j];
            let mut points: Vec<GpxPoint> = Vec::new();
            let np = s.len();
            for k in 0..np
                invariant
                    np == s@.len(),
                    points@.len() == k,
                    forall|c: int| 0 <= c < k ==> point_from_data(#[trigger] points@[c], s@[c]),
            {
                let d = s[k];
                let time = if d.has_time {
                    Some(utc_now())
                } else {
                    None
                };
                points.push(GpxPoint { lat: d.lat, lon: d.lon, elevation: d.elevation, time });
            }
            segments.push(GpxSegment { points });
        }
        let name = match &t.name {
            Some(n) => Some(n.clone()),
            None => None,
        };
        let track = GpxTrack { name, segments };
        proof {
            assert(track_matches(track@, t@));
        }
        out.push(track);
    }
    proof {
        assert forall|a: int| 0 <= a < out@.len() implies track_matches(
            #[trigger] track_views(out@)[a],
            track_data_views(data@)[a],
        ) by {
            assert(track_views(out@)[a] == (out@[a])@);
            assert(track_data_views(data@)[a] == (data@[a])@);
        }
    }
    out
}

/// A segment's points are those the `gpx` crate read.
pub open spec fn segment_matches(p: Seq<GpxPoint>, d: Seq<GpxPointData>) -> bool {
    p.len() == d.len() && forall|k: int| 0 <= k < p.len() ==> point_from_data(#[trigger] p[k], d[k])
}

/// A track is the track the `gpx` crate read.
pub open spec fn track_matches(t: GpxTrackView, d: GpxTrackDataView) -> bool {
    &&& t.name == d.name
    &&& t.segments.len() == d.segments.len()
    &&& forall|j: int| 0 <= j < t.segments.len() ==> segment_matches(#[trigger] t.segments[j], d.segments[j])
}

/// Once reading a track point's attributes has failed, the failure stands.
proof fn lemma_trkpt_attrs_err(attrs: Seq<Result<XmlAttribute, String>>, j: int, dec: Map<Seq<char>, Option<u64>>)
    requires
        0 <= j <= attrs.len(),
        trkpt_attrs(attrs.take(j), dec) is Err,
    ensures
        trkpt_attrs(attrs, dec) == trkpt_attrs(attrs.take(j), dec),
    decreases attrs.len() - j,
{
    if j == attrs.len() {
        assert(attrs.take(j) =~= attrs);
    } else {
        assert(attrs.take(j + 1).drop_last() =~= attrs.take(j));
        lemma_trkpt_attrs_err(attrs, j + 1, dec);
    }
}

/// The reader's state between events, as executable values.
struct GpxCursor {
    tracks: Vec<GpxTrack>,
    track: Option<GpxTrack>,
    segment: Option<GpxSegment>,
    point: Option<GpxPoint>,
    text: Vec<char>,
}

/// The state that a cursor holds.
spec fn cursor_state(c: GpxCursor) -> GpxState {
    GpxState {
        tracks: track_views(c.tracks@),
        track: match c.track {
            Some(t) => Some(t@),
            None => None,
        },
        segment: match c.segment {
            Some(s) => Some(s.points@),
            None => None,
        },
        point: c.point,
        text: c.text@,
    }
}

/// What reading one event led to.
enum GpxOutcome {
    Continue,
    Stop,
    Fail(ParseError),
}

impl GpxParser {
    /// A GPX parser.
    pub fn new() -> (p: Self) {
        GpxParser
    }

    /// The `lat` and `lon` of a track point.
    fn parse_trkpt(&self, element: &XmlElement, decoded: &StrMap<Option<u64>>) -> (r: Result<
        (Option<u64>, Option<u64>),
        ParseError,
    >)
        ensures
            match trkpt_attrs(element.attributes@, decoded@) {
                Ok(v) => r == Ok::<(Option<u64>, Option<u64>), ParseError>(v),
                Err(e) => r is Err && r->Err_0@ == e,
            },
    {
        let attrs = &element.attributes;
        let mut lat: Option<u64> = None;
        let mut lon: Option<u64> = None;
        let n = attrs.len();
        for i in 0..n
            invariant
                n == attrs@.len(),
                attrs@ == element.attributes@,
                trkpt_attrs(attrs@.take(i as int), decoded@) == Ok::<
                    (Option<u64>, Option<u64>),
                    ParseErrorView,
                >((lat, lon)),
        {
            proof {
                assert(attrs@.take(i + 1).drop_last() =~= attrs@.take(i as int));
            }
            match &attrs[i] {
                Err(m) => {
                    proof {
                        lemma_trkpt_attrs_err(attrs@, i + 1, decoded@);
                    }
                    return Err(attribute_error(m));
                },
                Ok(a) => {
                    let is_lat = name_is(a.key.as_slice(), "lat");
                    if is_lat || name_is(a.key.as_slice(), "lon") {
                        match read_attr_float(a, decoded) {
                            Ok(v) => {
                                if is_lat {
                                    lat = Some(v);
                                } else {
                                    lon = Some(v);
                                }
                            },
                            Err(e) => {
                                proof {
                                    lemma_trkpt_attrs_err(attrs@, i + 1, decoded@);
                                }
                                return Err(e);
                            },
                        }
                    }
                },
            }
        }
        proof {
            assert(attrs@.take(n as int) =~= attrs@);
        }
        Ok((lat, lon))
    }

    /// Applies a start event.
    fn start_event(&self, e: &XmlElement, decoded: &StrMap<Option<u64>>, st: &mut GpxCursor) -> (r:
        GpxOutcome)
        ensures
            match gpx_step(cursor_state(*old(st)), XmlEvent::Start(*e), decoded@) {
                GpxStep::Go(s2) => r is Continue && cursor_state(*final(st)) == s2,
                GpxStep::Stop => r is Stop,
                GpxStep::Fail(x) => r is Fail && r->Fail_0@ == x,
            },
    {
        if name_is(e.name.as_slice(), "trk") {
            st.track = Some(GpxTrack { name: None, segments: Vec::new() });
            proof {
                assert(st.track->0@.segments =~= Seq::<Seq<GpxPoint>>::empty());
            }
            GpxOutcome::Continue
        } else if name_is(e.name.as_slice(), "trkseg") {
            st.segment = Some(GpxSegment { points: Vec::new() });
            GpxOutcome::Continue
        } else if name_is(e.name.as_slice(), "trkpt") {
            match self.parse_trkpt(e, decoded) {
                Err(x) => GpxOutcome::Fail(x),
                Ok((Some(lat), Some(lon))) => {
                    if f64_bits_lt(lat, 0xC056_8000_0000_0000u64) || f64_bits_lt(
                        0x4056_8000_0000_0000u64,
                        lat,
                    ) || f64_bits_lt(lon, 0xC066_8000_0000_0000u64) || f64_bits_lt(
                        0x4066_8000_0000_0000u64,
                        lon,
                    ) {
                        GpxOutcome::Fail(ParseError::InvalidCoordinate { lat, lon })
                    } else {
                        st.point = Some(GpxPoint { lat, lon, elevation: None, time: None });
                        GpxOutcome::Continue
                    }
                },
                Ok(_) => GpxOutcome::Continue,
            }
        } else {
            GpxOutcome::Continue
        }
    }

    /// Applies an end event.
    fn end_event(&self, name: &Vec<u8>, decoded: &StrMap<Option<u64>>, st: &mut GpxCursor)
        ensures
            cursor_state(*final(st)) == (GpxState {
                text: Seq::empty(),
                ..gpx_end(cursor_state(*old(st)), name@, decoded@)
            }),
    {
        let t = trim_chars(st.text.as_slice());
        if name_is(name.as_slice(), "name") {
            match st.track.take() {
                Some(mut tr) => {
                    tr.name = Some(string_of(t.as_slice()));
                    st.track = Some(tr);
                },
                None => {},
            }
        } else if name_is(name.as_slice(), "ele") {
            match st.point {
                Some(p) => {
                    let ts = string_of(t.as_slice());
                    match decoded.get(ts.as_str()) {
                        Some(Some(e)) => {
                            st.point = Some(GpxPoint { elevation: Some(*e), ..p });
                        },
                        _ => {},
                    }
                },
                None => {},
            }
        } else if name_is(name.as_slice(), "time") {
            match st.point {
                Some(p) => {
                    let ts = string_of(t.as_slice());
                    match parse_rfc3339(ts.as_str()) {
                        Some(tm) => {
                            st.point = Some(GpxPoint { time: Some(tm), ..p });
                        },
                        None => {},
                    }
                },
                None => {},
            }
        } else if name_is(name.as_slice(), "trkpt") {
            match st.point.take() {
                Some(p) => match st.segment.take() {
                    Some(mut s) => {
                        s.points.push(p);
                        st.segment = Some(s);
                    },
                    None => {},
                },
                None => {},
            }
        } else if name_is(name.as_slice(), "trkseg") {
            match st.segment.take() {
                Some(s) => match st.track.take() {
                    Some(mut tr) => {
                        let ghost s0 = tr@.segments;
                        tr.segments.push(s);
                        proof {
                            assert(tr@.segments =~= s0.push(s.points@));
                        }
                        st.track = Some(tr);
                    },
                    None => {},
                },
                None => {},
            }
        } else if name_is(name.as_slice(), "trk") {
            match st.track.take() {
                Some(tr) => {
                    let ghost t0 = track_views(st.tracks@);
                    st.tracks.push(tr);
                    proof {
                        assert(track_views(st.tracks@) =~= t0.push(tr@));
                    }
                },
                None => {},
            }
        }
        st.text = Vec::new();
    }

    /// Reads the tracks from `events`, in order, until the end of input or
    /// the first error. Decimal texts (coordinates, elevations) decode as
    /// `decoded` records; a text it lacks does not decode.
    pub fn parse_gpx_events(&self, events: &Vec<XmlEvent>, decoded: &StrMap<Option<u64>>) -> (r:
        Result<Vec<GpxTrack>, ParseError>)
        ensures
            tracks_outcome(r, gpx_parse(events@, decoded@)),
    {
        let mut st = GpxCursor {
            tracks: Vec::new(),
            track: None,
            segment: None,
            point: None,
            text: Vec::new(),
        };
        proof {
            assert(track_views(st.tracks@) =~= Seq::<GpxTrackView>::empty());
            assert(cursor_state(st) == gpx_initial());
            assert(events@.skip(0) =~= events@);
        }
        let n = events.len();
        for i in 0..n
            invariant
                n == events@.len(),
                gpx_parse(events@, decoded@) == gpx_run(events@.skip(i as int), decoded@, cursor_state(st)),
        {
            let ghost rest = events@.skip(i as int);
            proof {
                assert(rest[0] == events@[i as int]);
                assert(rest.drop_first() =~= events@.skip(i + 1));
            }
            let out = match &events[i] {
                XmlEvent::Start(e) => self.start_event(e, decoded, &mut st),
                XmlEvent::End(name) => {
                    self.end_event(name, decoded, &mut st);
                    GpxOutcome::Continue
                },
                XmlEvent::Text(t) => match t {
                    Ok(s) => {
                        let mut cs = chars_of(s.as_str());
                        st.text.append(&mut cs);
                        GpxOutcome::Continue
                    },
                    Err(m) => GpxOutcome::Fail(ParseError::Xml(m.clone())),
                },
                XmlEvent::Eof => GpxOutcome::Stop,
                XmlEvent::Error { position, message } => GpxOutcome::Fail(
                    ParseError::Xml(xml_error_text(*position, message)),
                ),
                _ => GpxOutcome::Continue,
            };
            match out {
                GpxOutcome::Continue => {},
                GpxOutcome::Stop => {
                    return Ok(st.tracks);
                },
                GpxOutcome::Fail(x) => {
                    return Err(x);
                },
            }
        }
        proof {
            assert(events@.skip(n as int).len() == 0);
        }
        Ok(st.tracks)
    }
}

impl GpxParser {
    /// Records, for every `lat` and `lon` text of the `trkpt` start elements
    /// of `events` and every elevation text, the value that `parse_f64` decodes it to.
    fn decode_numbers<F: Fn(&str) -> Option<u64>>(events: &Vec<XmlEvent>, parse_f64: &F) -> (r:
        StrMap<Option<u64>>)
        requires
            forall|s: &str| #[trigger] parse_f64.requires((s,)),
        ensures
            decoded_by(r@, *parse_f64),
            numbers_covered(events@, r@),
    {
        let mut table = decode_element_coordinates(events, "trkpt", parse_f64);
        let mut text: Vec<char> = Vec::new();
        let n = events.len();
        for i in 0..n
            invariant
                n == events@.len(),
                forall|s: &str| #[trigger] parse_f64.requires((s,)),
                decoded_by(table@, *parse_f64),
                coordinates_covered(events@, "trkpt"@, table@),
                text@ == pending_text(events@, i as int),
                forall|a: int| 0 <= a < i ==> recorded(table@, #[trigger] elevation_text_at(events@, a)),
        {
            let ghost t0 = table@;
            match &events[i] {
                XmlEvent::Text(Ok(s)) => {
                    let mut cs = chars_of(s.as_str());
                    text.append(&mut cs);
                },
                XmlEvent::End(name) => {
                    if name_is(name.as_slice(), "ele") {
                        let t = trim_chars(text.as_slice());
                        record(&mut table, string_of(t.as_slice()), parse_f64);
                    }
                    text = Vec::new();
                },
                _ => {},
            }
            proof {
                assert forall|a: int, b: int| recorded(table@, #[trigger] coordinate_text_at(events@, a, b, "trkpt"@)) by {
                    assert(recorded(t0, coordinate_text_at(events@, a, b, "trkpt"@)));
                }
                assert forall|a: int| 0 <= a < i + 1 implies recorded(table@, #[trigger] elevation_text_at(events@, a)) by {
                    if a < i {
                        assert(recorded(t0, elevation_text_at(events@, a)));
                    }
                }
            }
        }
        table
    }

    /// Reads the tracks of a GPX document with the fallback reader: its XML
    /// events (`parse_gpx_events`), with decimal texts decoded by `parse_f64`
    /// (the caller's `str::parse::<f64>`).
    pub fn parse_gpx_manual<F: Fn(&str) -> Option<u64>>(&self, content: &str, parse_f64: &F) -> (r:
        Result<Vec<GpxTrack>, ParseError>)
        requires
            forall|s: &str| #[trigger] parse_f64.requires((s,)),
        ensures
            exists|evs: Seq<XmlEvent>, dec: Map<Seq<char>, Option<u64>>|
                #![trigger gpx_parse(evs, dec)]
                event_views(evs) == xml_events_from(content@, 0, content.len() as nat) && decoded_by(
                    dec,
                    *parse_f64,
                ) && numbers_covered(evs, dec) && tracks_outcome(r, gpx_parse(evs, dec)),
    {
        let events = read_xml_events(content);
        let decoded = Self::decode_numbers(&events, parse_f64);
        let r = self.parse_gpx_events(&events, &decoded);
        assert(event_views(events@) == xml_events_from(content@, 0, content.len() as nat) && decoded_by(
            decoded@,
            *parse_f64,
        ) && numbers_covered(events@, decoded@) && tracks_outcome(r, gpx_parse(events@, decoded@)));
        r
    }

    /// Reads the tracks of a GPX document: as the `gpx` crate reads it, or,
    /// when it does not, with the fallback reader (`parse_gpx_manual`).
    pub fn parse_string<F: Fn(&str) -> Option<u64>>(&self, content: &str, parse_f64: &F) -> (r: Result<
        Vec<GpxTrack>,
        ParseError,
    >)
        requires
            forall|s: &str| #[trigger] parse_f64.requires((s,)),
        ensures
            match gpx_read(content@) {
                Some(d) => r is Ok && tracks_from_data(track_views(r->Ok_0@), d),
                None => exists|evs: Seq<XmlEvent>, dec: Map<Seq<char>, Option<u64>>|
                    #![trigger gpx_parse(evs, dec)]
                    event_views(evs) == xml_events_from(content@, 0, content.len() as nat)
                        && decoded_by(dec, *parse_f64) && numbers_covered(evs, dec) && tracks_outcome(
                        r,
                        gpx_parse(evs, dec),
                    ),
            },
    {
        match read_gpx_tracks(content) {
            Some(data) => Ok(tracks_from_gpx_data(data)),
            None => self.parse_gpx_manual(content, parse_f64),
        }
    }
}

impl Default for GpxParser {
    fn default() -> (p: Self) {
        Self::new()
    }
}

// ---------------------------------------------------------------------------
// Laws
// ---------------------------------------------------------------------------

/// Every point of the segment lies in [-90, 90] x [-180, 180].
pub open spec fn segment_in_range(s: Seq<GpxPoint>) -> bool {
    forall|k: int| 0 <= k < s.len() ==> !out_of_range((#[trigger] s[k]).lat, s[k].lon)
}

/// Every point of the track lies in range.
pub open spec fn track_in_range(t: GpxTrackView) -> bool {
    forall|j: int| 0 <= j < t.segments.len() ==> segment_in_range(#[trigger] t.segments[j])
}

/// Every point of the tracks lies in range.
pub open spec fn tracks_in_range(ts: Seq<GpxTrackView>) -> bool {
    forall|i: int| 0 <= i < ts.len() ==> track_in_range(#[trigger] ts[i])
}

/// Every point held by the reader lies in range.
pub open spec fn state_in_range(st: GpxState) -> bool {
    &&& tracks_in_range(st.tracks)
    &&& (st.track matches Some(t) ==> track_in_range(t))
    &&& (st.segment matches Some(s) ==> segment_in_range(s))
    &&& (st.point matches Some(p) ==> !out_of_range(p.lat, p.lon))
}

proof fn lemma_gpx_step_in_range(st: GpxState, ev: XmlEvent, dec: Map<Seq<char>, Option<u64>>)
    requires
        state_in_range(st),
    ensures
        gpx_step(st, ev, dec) matches GpxStep::Go(s2) ==> state_in_range(s2),
{
    match ev {
        XmlEvent::End(name) => {
            let e = gpx_end(st, name@, dec);
            if is_named(name@, "trkpt"@) {
                if let (Some(p), Some(sg)) = (st.point, st.segment) {
                    assert(segment_in_range(sg.push(p))) by {
                        assert forall|k: int| 0 <= k < sg.push(p).len() implies !out_of_range(
                            (#[trigger] sg.push(p)[k]).lat,
                            sg.push(p)[k].lon,
                        ) by {
                            if k < sg.len() {
                                assert(sg.push(p)[k] == sg[k]);
                            }
                        }
                    }
                }
            } else if is_named(name@, "trkseg"@) {
                if let (Some(sg), Some(t)) = (st.segment, st.track) {
                    let segs = t.segments.push(sg);
                    assert forall|j: int| 0 <= j < segs.len() implies segment_in_range(#[trigger] segs[j]) by {
                        if j < t.segments.len() {
                            assert(segs[j] == t.segments[j]);
                        }
                    }
                }
            } else if is_named(name@, "trk"@) {
                if let Some(t) = st.track {
                    let ts = st.tracks.push(t);
                    assert forall|i: int| 0 <= i < ts.len() implies track_in_range(#[trigger] ts[i]) by {
                        if i < st.tracks.len() {
                            assert(ts[i] == st.tracks[i]);
                        }
                    }
                }
            }
        },
        XmlEvent::Start(e) => {
            if is_named(e.name@, "trk"@) {
                let t = GpxTrackView { name: None, segments: Seq::<Seq<GpxPoint>>::empty() };
                assert(track_in_range(t));
            } else if is_named(e.name@, "trkseg"@) {
                assert(segment_in_range(Seq::<GpxPoint>::empty()));
            }
        },
        _ => {},
    }
}

proof fn lemma_gpx_run_in_range(evs: Seq<XmlEvent>, dec: Map<Seq<char>, Option<u64>>, st: GpxState)
    requires
        state_in_range(st),
    ensures
        gpx_run(evs, dec, st) is Ok ==> tracks_in_range(gpx_run(evs, dec, st)->Ok_0),
    decreases evs.len(),
{
    if evs.len() > 0 {
        lemma_gpx_step_in_range(st, evs[0], dec);
        match gpx_step(st, evs[0], dec) {
            GpxStep::Go(s2) => {
                lemma_gpx_run_in_range(evs.drop_first(), dec, s2);
            },
            _ => {},
        }
    }
}

/// The fallback reader never yields a track point outside
/// [-90, 90] x [-180, 180]: a point out of range fails the whole reading.
pub proof fn law_read_points_in_range(evs: Seq<XmlEvent>, dec: Map<Seq<char>, Option<u64>>)
    ensures
        gpx_parse(evs, dec) is Ok ==> tracks_in_range(gpx_parse(evs, dec)->Ok_0),
{
    assert(state_in_range(gpx_initial()));
    lemma_gpx_run_in_range(evs, dec, gpx_initial());
}

} // verus!
