//! The OSM XML parser: a state machine over XML events that builds a
//! `MapData` from `node`, `way` and `relation` elements.
use vstd::prelude::*;
use crate::data::{
    MapData, Node, Way, Relation, RelationMember, ElementType, NodeView, WayView, RelationView,
    MemberView, DataView, data_view, empty_data, with_node, with_way, with_relation, member_views,
};
use crate::floats::{f64_lt, f64_bits_lt};
use crate::parsers::{ParseError, ParseErrorView, utf8_of, utf8_text, owned};
use crate::tags::{StrMap, Tags, tag_texts, clone_tags};
use crate::text::{parse_i64_spec, parse_i64_dec, chars_of};
use crate::xml::{XmlAttribute, XmlElement, XmlEvent, is_named, name_is, xml_error_message,
    xml_error_text, read_xml_events, event_views, xml_events_from};

verus! {

/// OSM XML parser.
pub struct OsmParser {
    /// Whether to include metadata (user, timestamp, etc.).
    include_metadata: bool,
}

/// The element whose start has been read and whose end is awaited.
#[derive(Clone, Copy, Debug, PartialEq, Eq, Structural)]
pub enum OsmElement {
    Node { id: i64, lat: u64, lon: u64 },
    Way { id: i64 },
    Relation { id: i64 },
}

/// The parser's state between events.
pub struct OsmState {
    pub cur: Option<OsmElement>,
    pub tags: Map<Seq<char>, Seq<char>>,
    pub way_nodes: Seq<i64>,
    pub members: Seq<MemberView>,
}

/// An element that parsing adds to the dataset.
pub enum OsmItem {
    Node(NodeView),
    Way(WayView),
    Relation(RelationView),
}

/// What one event does: go on from a new state, having completed an element
/// or not; stop; or fail.
pub enum OsmStep {
    Go(OsmState, Option<OsmItem>),
    Stop,
    Fail(ParseErrorView),
}

// ---------------------------------------------------------------------------
// Specifications
// ---------------------------------------------------------------------------

/// The binary64 bit patterns of -90, 90, -180 and 180.
pub open spec fn neg_90() -> u64 { 0xC056_8000_0000_0000 }
pub open spec fn pos_90() -> u64 { 0x4056_8000_0000_0000 }
pub open spec fn neg_180() -> u64 { 0xC066_8000_0000_0000 }
pub open spec fn pos_180() -> u64 { 0x4066_8000_0000_0000 }

/// `lat < -90.0 || lat > 90.0 || lon < -180.0 || lon > 180.0`.
pub open spec fn out_of_range(lat: u64, lon: u64) -> bool {
    f64_lt(lat, neg_90()) || f64_lt(pos_90(), lat) || f64_lt(lon, neg_180()) || f64_lt(pos_180(), lon)
}

/// The value a decimal text decodes to, as the table of decoded texts records it.
pub open spec fn float_of(dec: Map<Seq<char>, Option<u64>>, t: Seq<char>) -> Option<u64> {
    if dec.dom().contains(t) {
        dec[t]
    } else {
        None
    }
}

/// The text of an attribute's value.
pub open spec fn attr_text(a: XmlAttribute) -> Result<Seq<char>, ParseErrorView> {
    match utf8_of(a.value@) {
        Some(t) => Ok(t),
        None => Err(ParseErrorView::Utf8),
    }
}

/// An attribute's value read as an `i64`.
pub open spec fn attr_int(a: XmlAttribute) -> Result<i64, ParseErrorView> {
    match attr_text(a) {
        Ok(t) => match parse_i64_spec(t) {
            Some(v) => Ok(v),
            None => Err(ParseErrorView::InvalidInteger(t)),
        },
        Err(e) => Err(e),
    }
}

/// An attribute's value read as an `f64`.
pub open spec fn attr_float(a: XmlAttribute, dec: Map<Seq<char>, Option<u64>>) -> Result<u64, ParseErrorView> {
    match attr_text(a) {
        Ok(t) => match float_of(dec, t) {
            Some(v) => Ok(v),
            None => Err(ParseErrorView::InvalidFloat(t)),
        },
        Err(e) => Err(e),
    }
}

/// The attributes `id`, `lat`, `lon` of a node, read in order; the last of
/// each wins and the first error stops the reading.
pub open spec fn node_attrs(
    attrs: Seq<Result<XmlAttribute, String>>,
    dec: Map<Seq<char>, Option<u64>>,
) -> Result<(Option<i64>, Option<u64>, Option<u64>), ParseErrorView>
    decreases attrs.len(),
{
    if attrs.len() == 0 {
        Ok((None, None, None))
    } else {
        match node_attrs(attrs.drop_last(), dec) {
            Err(e) => Err(e),
            Ok((id, lat, lon)) => match attrs.last() {
                Err(m) => Err(ParseErrorView::Attribute(m@)),
                Ok(a) => if is_named(a.key@, "id"@) {
                    match attr_int(a) {
                        Ok(v) => Ok((Some(v), lat, lon)),
                        Err(e) => Err(e),
                    }
                } else if is_named(a.key@, "lat"@) {
                    match attr_float(a, dec) {
                        Ok(v) => Ok((id, Some(v), lon)),
                        Err(e) => Err(e),
                    }
                } else if is_named(a.key@, "lon"@) {
                    match attr_float(a, dec) {
                        Ok(v) => Ok((id, lat, Some(v))),
                        Err(e) => Err(e),
                    }
                } else {
                    Ok((id, lat, lon))
                },
            },
        }
    }
}

/// The start of a node: its id and coordinates, which must all be given
/// and lie in range.
pub open spec fn node_start(
    attrs: Seq<Result<XmlAttribute, String>>,
    dec: Map<Seq<char>, Option<u64>>,
) -> Result<OsmElement, ParseErrorView> {
    match node_attrs(attrs, dec) {
        Err(e) => Err(e),
        Ok((None, _, _)) => Err(ParseErrorView::MissingField("id"@)),
        Ok((Some(_), None, _)) => Err(ParseErrorView::MissingField("lat"@)),
        Ok((Some(_), Some(_), None)) => Err(ParseErrorView::MissingField("lon"@)),
        Ok((Some(id), Some(lat), Some(lon))) => if out_of_range(lat, lon) {
            Err(ParseErrorView::InvalidCoordinate { lat, lon })
        } else {
            Ok(OsmElement::Node { id, lat, lon })
        },
    }
}

/// The value of the first attribute named `key`, read as an `i64`; an
/// attribute error before it stops the search.
pub open spec fn first_int_attr(attrs: Seq<Result<XmlAttribute, String>>, key: Seq<char>) -> Result<
    Option<i64>,
    ParseErrorView,
>
    decreases attrs.len(),
{
    if attrs.len() == 0 {
        Ok(None)
    } else {
        match first_int_attr(attrs.drop_last(), key) {
            Err(e) => Err(e),
            Ok(Some(v)) => Ok(Some(v)),
            Ok(None) => match attrs.last() {
                Err(m) => Err(ParseErrorView::Attribute(m@)),
                Ok(a) => if is_named(a.key@, key) {
                    match attr_int(a) {
                        Ok(v) => Ok(Some(v)),
                        Err(e) => Err(e),
                    }
                } else {
                    Ok(None)
                },
            },
        }
    }
}

/// The id of a way or relation start: the first `id` attribute, which must be given.
pub open spec fn id_start(attrs: Seq<Result<XmlAttribute, String>>) -> Result<i64, ParseErrorView> {
    match first_int_attr(attrs, "id"@) {
        Err(e) => Err(e),
        Ok(None) => Err(ParseErrorView::MissingField("id"@)),
        Ok(Some(v)) => Ok(v),
    }
}

/// The `k` and `v` attributes of a tag, read in order; the last of each wins.
pub open spec fn tag_attrs(attrs: Seq<Result<XmlAttribute, String>>) -> Result<
    (Option<Seq<char>>, Option<Seq<char>>),
    ParseErrorView,
>
    decreases attrs.len(),
{
    if attrs.len() == 0 {
        Ok((None, None))
    } else {
        match tag_attrs(attrs.drop_last()) {
            Err(e) => Err(e),
            Ok((k, v)) => match attrs.last() {
                Err(m) => Err(ParseErrorView::Attribute(m@)),
                Ok(a) => if is_named(a.key@, "k"@) {
                    match attr_text(a) {
                        Ok(t) => Ok((Some(t), v)),
                        Err(e) => Err(e),
                    }
                } else if is_named(a.key@, "v"@) {
                    match attr_text(a) {
                        Ok(t) => Ok((k, Some(t))),
                        Err(e) => Err(e),
                    }
                } else {
                    Ok((k, v))
                },
            },
        }
    }
}

/// A tag's key and value, which must both be given.
pub open spec fn tag_kv(attrs: Seq<Result<XmlAttribute, String>>) -> Result<
    (Seq<char>, Seq<char>),
    ParseErrorView,
> {
    match tag_attrs(attrs) {
        Err(e) => Err(e),
        Ok((None, _)) => Err(ParseErrorView::MissingField("k"@)),
        Ok((Some(_), None)) => Err(ParseErrorView::MissingField("v"@)),
        Ok((Some(k), Some(v))) => Ok((k, v)),
    }
}

/// The element type that a member's `type` text names.
pub open spec fn element_type_of(t: Seq<char>) -> Result<ElementType, ParseErrorView> {
    if t == "node"@ {
        Ok(ElementType::Node)
    } else if t == "way"@ {
        Ok(ElementType::Way)
    } else if t == "relation"@ {
        Ok(ElementType::Relation)
    } else {
        Err(ParseErrorView::InvalidFormat("Unknown element type: "@ + t))
    }
}

/// The `type`, `ref` and `role` attributes of a member, read in order; the
/// last of each wins and the role defaults to the empty text.
pub open spec fn member_attrs(attrs: Seq<Result<XmlAttribute, String>>) -> Result<
    (Option<ElementType>, Option<i64>, Seq<char>),
    ParseErrorView,
>
    decreases attrs.len(),
{
    if attrs.len() == 0 {
        Ok((None, None, Seq::empty()))
    } else {
        match member_attrs(attrs.drop_last()) {
            Err(e) => Err(e),
            Ok((ty, id, role)) => match attrs.last() {
                Err(m) => Err(ParseErrorView::Attribute(m@)),
                Ok(a) => if is_named(a.key@, "type"@) {
                    match attr_text(a) {
                        Ok(t) => match element_type_of(t) {
                            Ok(x) => Ok((Some(x), id, role)),
                            Err(e) => Err(e),
                        },
                        Err(e) => Err(e),
                    }
                } else if is_named(a.key@, "ref"@) {
                    match attr_int(a) {
                        Ok(v) => Ok((ty, Some(v), role)),
                        Err(e) => Err(e),
                    }
                } else if is_named(a.key@, "role"@) {
                    match attr_text(a) {
                        Ok(t) => Ok((ty, id, t)),
                        Err(e) => Err(e),
                    }
                } else {
                    Ok((ty, id, role))
                },
            },
        }
    }
}

/// A relation member, when both its type and reference are given.
pub open spec fn member_of(attrs: Seq<Result<XmlAttribute, String>>) -> Result<
    Option<MemberView>,
    ParseErrorView,
> {
    match member_attrs(attrs) {
        Err(e) => Err(e),
        Ok((Some(t), Some(id), role)) => Ok(Some(MemberView { element_type: t, id, role })),
        Ok(_) => Ok(None),
    }
}

/// The text of an optional string.
pub open spec fn opt_chars(s: Option<String>) -> Option<Seq<char>> {
    match s {
        Some(t) => Some(t@),
        None => None,
    }
}

/// Whether a way through `nodes` is closed: it has more than two node
/// references and the first is the last.
pub open spec fn way_is_closed(nodes: Seq<i64>) -> bool {
    nodes.len() > 2 && nodes[0] == nodes.last()
}

/// The state before the first event.
pub open spec fn initial_state() -> OsmState {
    OsmState { cur: None, tags: Map::empty(), way_nodes: Seq::empty(), members: Seq::empty() }
}

/// The node completed by a self-closing `node` element.
pub open spec fn bare_node(el: OsmElement) -> Option<OsmItem> {
    match el {
        OsmElement::Node { id, lat, lon } => Some(
            OsmItem::Node(NodeView { id, lat, lon, tags: Map::empty() }),
        ),
        _ => None,
    }
}

/// What one event does to the state.
pub open spec fn osm_step(st: OsmState, ev: XmlEvent, dec: Map<Seq<char>, Option<u64>>) -> OsmStep {
    match ev {
        XmlEvent::Start(e) => if is_named(e.name@, "node"@) {
            match node_start(e.attributes@, dec) {
                Ok(el) => OsmStep::Go(OsmState { cur: Some(el), tags: Map::empty(), ..st }, None),
                Err(x) => OsmStep::Fail(x),
            }
        } else if is_named(e.name@, "way"@) {
            match id_start(e.attributes@) {
                Ok(id) => OsmStep::Go(
                    OsmState {
                        cur: Some(OsmElement::Way { id }),
                        tags: Map::empty(),
                        way_nodes: Seq::empty(),
                        ..st
                    },
                    None,
                ),
                Err(x) => OsmStep::Fail(x),
            }
        } else if is_named(e.name@, "relation"@) {
            match id_start(e.attributes@) {
                Ok(id) => OsmStep::Go(
                    OsmState {
                        cur: Some(OsmElement::Relation { id }),
                        tags: Map::empty(),
                        members: Seq::empty(),
                        ..st
                    },
                    None,
                ),
                Err(x) => OsmStep::Fail(x),
            }
        } else {
            OsmStep::Go(st, None)
        },
        XmlEvent::Empty(e) => if is_named(e.name@, "tag"@) {
            match tag_kv(e.attributes@) {
                Ok((k, v)) => OsmStep::Go(OsmState { tags: st.tags.insert(k, v), ..st }, None),
                Err(x) => OsmStep::Fail(x),
            }
        } else if is_named(e.name@, "nd"@) {
            match first_int_attr(e.attributes@, "ref"@) {
                Ok(Some(r)) => OsmStep::Go(OsmState { way_nodes: st.way_nodes.push(r), ..st }, None),
                Ok(None) => OsmStep::Go(st, None),
                Err(x) => OsmStep::Fail(x),
            }
        } else if is_named(e.name@, "member"@) {
            match member_of(e.attributes@) {
                Ok(Some(m)) => OsmStep::Go(OsmState { members: st.members.push(m), ..st }, None),
                Ok(None) => OsmStep::Go(st, None),
                Err(x) => OsmStep::Fail(x),
            }
        } else if is_named(e.name@, "node"@) {
            match st.cur {
                Some(el) => OsmStep::Go(OsmState { cur: None, ..st }, bare_node(el)),
                None => match node_start(e.attributes@, dec) {
                    Ok(el) => OsmStep::Go(st, bare_node(el)),
                    Err(x) => OsmStep::Fail(x),
                },
            }
        } else {
            OsmStep::Go(st, None)
        },
        XmlEvent::End(name) => if is_named(name@, "node"@) {
            OsmStep::Go(
                OsmState { cur: None, ..st },
                match st.cur {
                    Some(OsmElement::Node { id, lat, lon }) => Some(
                        OsmItem::Node(NodeView { id, lat, lon, tags: st.tags }),
                    ),
                    _ => None,
                },
            )
        } else if is_named(name@, "way"@) {
            OsmStep::Go(
                OsmState { cur: None, ..st },
                match st.cur {
                    Some(OsmElement::Way { id }) => Some(
                        OsmItem::Way(
                            WayView {
                                id,
                                nodes: st.way_nodes,
                                tags: st.tags,
                                is_closed: way_is_closed(st.way_nodes),
                            },
                        ),
                    ),
                    _ => None,
                },
            )
        } else if is_named(name@, "relation"@) {
            OsmStep::Go(
                OsmState { cur: None, ..st },
                match st.cur {
                    Some(OsmElement::Relation { id }) => Some(
                        OsmItem::Relation(RelationView { id, members: st.members, tags: st.tags }),
                    ),
                    _ => None,
                },
            )
        } else if is_named(name@, "osm"@) {
            OsmStep::Stop
        } else {
            OsmStep::Go(st, None)
        },
        XmlEvent::Eof => OsmStep::Stop,
        XmlEvent::Error { position, message } => OsmStep::Fail(
            ParseErrorView::Xml(xml_error_message(position, message@)),
        ),
        _ => OsmStep::Go(st, None),
    }
}

/// The dataset content after adding an element.
pub open spec fn with_item(d: DataView, it: OsmItem) -> DataView {
    match it {
        OsmItem::Node(n) => with_node(d, n),
        OsmItem::Way(w) => with_way(d, w),
        OsmItem::Relation(r) => with_relation(d, r),
    }
}

/// The dataset content after adding an element, if there is one.
pub open spec fn with_opt_item(d: DataView, it: Option<OsmItem>) -> DataView {
    match it {
        Some(i) => with_item(d, i),
        None => d,
    }
}

/// Runs the events from state `st` on dataset content `d`: the content once
/// an event stops the run or the events run out, or the first failure.
pub open spec fn osm_run(
    evs: Seq<XmlEvent>,
    dec: Map<Seq<char>, Option<u64>>,
    st: OsmState,
    d: DataView,
) -> Result<DataView, ParseErrorView>
    decreases evs.len(),
{
    if evs.len() == 0 {
        Ok(d)
    } else {
        match osm_step(st, evs[0], dec) {
            OsmStep::Stop => Ok(d),
            OsmStep::Fail(e) => Err(e),
            OsmStep::Go(st2, it) => osm_run(evs.drop_first(), dec, st2, with_opt_item(d, it)),
        }
    }
}

/// What parsing `evs` gives, with `dec` recording how decimal texts decode.
pub open spec fn osm_parse(evs: Seq<XmlEvent>, dec: Map<Seq<char>, Option<u64>>) -> Result<
    DataView,
    ParseErrorView,
> {
    osm_run(evs, dec, initial_state(), empty_data())
}

/// `r` is the outcome that `expected` describes.
pub open spec fn parse_outcome(r: Result<MapData, ParseError>, expected: Result<DataView, ParseErrorView>) -> bool {
    match expected {
        Ok(d) => r is Ok && data_view(r->Ok_0) == d,
        Err(e) => r is Err && r->Err_0@ == e,
    }
}

// ---------------------------------------------------------------------------
// Executable functions
// ---------------------------------------------------------------------------

/// The text of an attribute's value.
pub(crate) fn read_attr_text(a: &XmlAttribute) -> (r: Result<String, ParseError>)
    ensures
        match attr_text(*a) {
            Ok(t) => r is Ok && r->Ok_0@ == t,
            Err(e) => r is Err && r->Err_0@ == e,
        },
{
    match utf8_text(a.value.as_slice()) {
        Some(t) => Ok(t),
        None => Err(ParseError::Utf8),
    }
}

/// An attribute's value read as an `i64`.
fn read_attr_int(a: &XmlAttribute) -> (r: Result<i64, ParseError>)
    ensures
        match attr_int(*a) {
            Ok(v) => r == Ok::<i64, ParseError>(v),
            Err(e) => r is Err && r->Err_0@ == e,
        },
{
    let t = read_attr_text(a)?;
    let cs = chars_of(t.as_str());
    match parse_i64_dec(cs.as_slice()) {
        Some(v) => Ok(v),
        None => Err(ParseError::InvalidInteger(t)),
    }
}

/// An attribute's value read as an `f64`, through the table of decoded texts.
pub(crate) fn read_attr_float(a: &XmlAttribute, decoded: &StrMap<Option<u64>>) -> (r: Result<u64, ParseError>)
    ensures
        match attr_float(*a, decoded@) {
            Ok(v) => r == Ok::<u64, ParseError>(v),
            Err(e) => r is Err && r->Err_0@ == e,
        },
{
    let t = read_attr_text(a)?;
    match decoded.get(t.as_str()) {
        Some(Some(v)) => Ok(*v),
        _ => Err(ParseError::InvalidFloat(t)),
    }
}

/// The error for an attribute that could not be read.
pub(crate) fn attribute_error(m: &String) -> (r: ParseError)
    ensures
        r@ == ParseErrorView::Attribute(m@),
{
    ParseError::Attribute(m.clone())
}

/// The error for a missing attribute.
fn missing(field: &str) -> (r: ParseError)
    ensures
        r@ == ParseErrorView::MissingField(field@),
{
    ParseError::MissingField(owned(field))
}

impl OsmParser {
    /// A parser that leaves metadata out.
    pub fn new() -> (p: Self)
        ensures
            !p.includes_metadata(),
    {
        OsmParser { include_metadata: false }
    }

    /// Whether metadata (user, timestamp, ...) is to be included.
    pub closed spec fn includes_metadata(self) -> bool {
        self.include_metadata
    }

    /// This parser, set to include metadata or not.
    pub fn with_metadata(self, enabled: bool) -> (p: Self)
        ensures
            p.includes_metadata() == enabled,
    {
        let mut s = self;
        s.include_metadata = enabled;
        s
    }

    /// The start of a node element: its id and in-range coordinates.
    pub fn parse_node_start(&self, element: &XmlElement, decoded: &StrMap<Option<u64>>) -> (r: Result<
        OsmElement,
        ParseError,
    >)
        ensures
            match node_start(element.attributes@, decoded@) {
                Ok(el) => r == Ok::<OsmElement, ParseError>(el),
                Err(e) => r is Err && r->Err_0@ == e,
            },
    {
        let attrs = &element.attributes;
        let mut id: Option<i64> = None;
        let mut lat: Option<u64> = None;
        let mut lon: Option<u64> = None;
        let n = attrs.len();
        for i in 0..n
            invariant
                n == attrs@.len(),
                attrs@ == element.attributes@,
                node_attrs(attrs@.take(i as int), decoded@) == Ok::<
                    (Option<i64>, Option<u64>, Option<u64>),
                    ParseErrorView,
                >((id, lat, lon)),
        {
            proof {
                assert(attrs@.take(i + 1).drop_last() =~= attrs@.take(i as int));
            }
            match &attrs[i] {
                Err(m) => {
                    proof {
                        lemma_node_attrs_err(attrs@, i + 1, decoded@);
                    }
                    return Err(attribute_error(m));
                },
                Ok(a) => {
                    let step = if name_is(a.key.as_slice(), "id") {
                        match read_attr_int(a) {
                            Ok(v) => {
                                id = Some(v);
                                Ok(())
                            },
                            Err(e) => Err(e),
                        }
                    } else if name_is(a.key.as_slice(), "lat") {
                        match read_attr_float(a, decoded) {
                            Ok(v) => {
                                lat = Some(v);
                                Ok(())
                            },
                            Err(e) => Err(e),
                        }
                    } else if name_is(a.key.as_slice(), "lon") {
                        match read_attr_float(a, decoded) {
                            Ok(v) => {
                                lon = Some(v);
                                Ok(())
                            },
                            Err(e) => Err(e),
                        }
                    } else {
                        Ok(())
                    };
                    if let Err(e) = step {
                        proof {
                            lemma_node_attrs_err(attrs@, i + 1, decoded@);
                        }
                        return Err(e);
                    }
                },
            }
        }
        proof {
            assert(attrs@.take(n as int) =~= attrs@);
        }
        let id = match id {
            Some(v) => v,
            None => return Err(missing("id")),
        };
        let lat = match lat {
            Some(v) => v,
            None => return Err(missing("lat")),
        };
        let lon = match lon {
            Some(v) => v,
            None => return Err(missing("lon")),
        };
        if f64_bits_lt(lat, 0xC056_8000_0000_0000u64) || f64_bits_lt(0x4056_8000_0000_0000u64, lat)
            || f64_bits_lt(lon, 0xC066_8000_0000_0000u64) || f64_bits_lt(
            0x4066_8000_0000_0000u64,
            lon,
        ) {
            return Err(ParseError::InvalidCoordinate { lat, lon });
        }
        Ok(OsmElement::Node { id, lat, lon })
    }

    /// The first attribute named `key`, read as an `i64`.
    fn first_int(&self, element: &XmlElement, key: &str) -> (r: Result<Option<i64>, ParseError>)
        ensures
            match first_int_attr(element.attributes@, key@) {
                Ok(v) => r == Ok::<Option<i64>, ParseError>(v),
                Err(e) => r is Err && r->Err_0@ == e,
            },
    {
        let attrs = &element.attributes;
        let n = attrs.len();
        for i in 0..n
            invariant
                n == attrs@.len(),
                attrs@ == element.attributes@,
                first_int_attr(attrs@.take(i as int), key@) == Ok::<Option<i64>, ParseErrorView>(
                    None,
                ),
        {
            proof {
                assert(attrs@.take(i + 1).drop_last() =~= attrs@.take(i as int));
            }
            match &attrs[i] {
                Err(m) => {
                    proof {
                        lemma_first_int_err(attrs@, i + 1, key@);
                    }
                    return Err(attribute_error(m));
                },
                Ok(a) => {
                    if name_is(a.key.as_slice(), key) {
                        let v = match read_attr_int(a) {
                            Ok(v) => v,
                            Err(e) => {
                                proof {
                                    lemma_first_int_err(attrs@, i + 1, key@);
                                }
                                return Err(e);
                            },
                        };
                        proof {
                            lemma_first_int_found(attrs@, i as int, key@, v);
                        }
                        return Ok(Some(v));
                    }
                },
            }
        }
        proof {
            assert(attrs@.take(n as int) =~= attrs@);
        }
        Ok(None)
    }

    /// The id of a way start.
    pub fn parse_way_start(&self, element: &XmlElement) -> (r: Result<OsmElement, ParseError>)
        ensures
            match id_start(element.attributes@) {
                Ok(id) => r == Ok::<OsmElement, ParseError>(OsmElement::Way { id }),
                Err(e) => r is Err && r->Err_0@ == e,
            },
    {
        match self.first_int(element, "id")? {
            Some(id) => Ok(OsmElement::Way { id }),
            None => Err(missing("id")),
        }
    }

    /// The id of a relation start.
    pub fn parse_relation_start(&self, element: &XmlElement) -> (r: Result<OsmElement, ParseError>)
        ensures
            match id_start(element.attributes@) {
                Ok(id) => r == Ok::<OsmElement, ParseError>(OsmElement::Relation { id }),
                Err(e) => r is Err && r->Err_0@ == e,
            },
    {
        match self.first_int(element, "id")? {
            Some(id) => Ok(OsmElement::Relation { id }),
            None => Err(missing("id")),
        }
    }

    /// The node reference of an `nd` element, if it has one.
    pub fn parse_node_ref(&self, element: &XmlElement) -> (r: Result<Option<i64>, ParseError>)
        ensures
            match first_int_attr(element.attributes@, "ref"@) {
                Ok(v) => r == Ok::<Option<i64>, ParseError>(v),
                Err(e) => r is Err && r->Err_0@ == e,
            },
    {
        self.first_int(element, "ref")
    }

    /// The key and value of a `tag` element.
    pub fn parse_tag(&self, element: &XmlElement) -> (r: Result<(String, String), ParseError>)
        ensures
            match tag_kv(element.attributes@) {
                Ok((k, v)) => match r {
                    Ok((a, b)) => a@ == k && b@ == v,
                    Err(_) => false,
                },
                Err(e) => r is Err && r->Err_0@ == e,
            },
    {
        let attrs = &element.attributes;
        let mut key: Option<String> = None;
        let mut value: Option<String> = None;
        let n = attrs.len();
        for i in 0..n
            invariant
                n == attrs@.len(),
                attrs@ == element.attributes@,
                tag_attrs(attrs@.take(i as int)) == Ok::<
                    (Option<Seq<char>>, Option<Seq<char>>),
                    ParseErrorView,
                >((opt_chars(key), opt_chars(value))),
        {
            proof {
                assert(attrs@.take(i + 1).drop_last() =~= attrs@.take(i as int));
            }
            match &attrs[i] {
                Err(m) => {
                    proof {
                        lemma_tag_attrs_err(attrs@, i + 1);
                    }
                    return Err(attribute_error(m));
                },
                Ok(a) => {
                    let is_k = name_is(a.key.as_slice(), "k");
                    if is_k || name_is(a.key.as_slice(), "v") {
                        match read_attr_text(a) {
                            Ok(t) => {
                                if is_k {
                                    key = Some(t);
                                } else {
                                    value = Some(t);
                                }
                            },
                            Err(e) => {
                                proof {
                                    lemma_tag_attrs_err(attrs@, i + 1);
                                }
                                return Err(e);
                            },
                        }
                    }
                },
            }
        }
        proof {
            assert(attrs@.take(n as int) =~= attrs@);
        }
        let key = match key {
            Some(k) => k,
            None => return Err(missing("k")),
        };
        let value = match value {
            Some(v) => v,
            None => return Err(missing("v")),
        };
        Ok((key, value))
    }

    /// A relation member, when its `type` and `ref` are both given.
    pub fn parse_relation_member(&self, element: &XmlElement) -> (r: Result<
        Option<RelationMember>,
        ParseError,
    >)
        ensures
            match member_of(element.attributes@) {
                Ok(Some(m)) => r is Ok && r->Ok_0 is Some && r->Ok_0->0@ == m,
                Ok(None) => r is Ok && r->Ok_0 is None,
                Err(e) => r is Err && r->Err_0@ == e,
            },
    {
        let attrs = &element.attributes;
        let mut ty: Option<ElementType> = None;
        let mut id: Option<i64> = None;
        let mut role = String::new();
        let n = attrs.len();
        for i in 0..n
            invariant
                n == attrs@.len(),
                attrs@ == element.attributes@,
                member_attrs(attrs@.take(i as int)) == Ok::<
                    (Option<ElementType>, Option<i64>, Seq<char>),
                    ParseErrorView,
                >((ty, id, role@)),
        {
            proof {
                assert(attrs@.take(i + 1).drop_last() =~= attrs@.take(i as int));
            }
            match &attrs[i] {
                Err(m) => {
                    proof {
                        lemma_member_attrs_err(attrs@, i + 1);
                    }
                    return Err(attribute_error(m));
                },
                Ok(a) => {
                    let step = if name_is(a.key.as_slice(), "type") {
                        match read_attr_text(a) {
                            Ok(t) => match element_type_from(&t) {
                                Ok(x) => {
                                    ty = Some(x);
                                    Ok(())
                                },
                                Err(e) => Err(e),
                            },
                            Err(e) => Err(e),
                        }
                    } else if name_is(a.key.as_slice(), "ref") {
                        match read_attr_int(a) {
                            Ok(v) => {
                                id = Some(v);
                                Ok(())
                            },
                            Err(e) => Err(e),
                        }
                    } else if name_is(a.key.as_slice(), "role") {
                        match read_attr_text(a) {
                            Ok(t) => {
                                role = t;
                                Ok(())
                            },
                            Err(e) => Err(e),
                        }
                    } else {
                        Ok(())
                    };
                    if let Err(e) = step {
                        proof {
                            lemma_member_attrs_err(attrs@, i + 1);
                        }
                        return Err(e);
                    }
                },
            }
        }
        proof {
            assert(attrs@.take(n as int) =~= attrs@);
        }
        match (ty, id) {
            (Some(element_type), Some(id)) => Ok(Some(RelationMember { element_type, id, role })),
            _ => Ok(None),
        }
    }
}

/// The parser's state between events, as executable values.
struct OsmCursor {
    cur: Option<OsmElement>,
    tags: Tags,
    way_nodes: Vec<i64>,
    members: Vec<RelationMember>,
}

/// The state that a cursor holds.
spec fn cursor_state(c: OsmCursor) -> OsmState {
    OsmState {
        cur: c.cur,
        tags: tag_texts(c.tags@),
        way_nodes: c.way_nodes@,
        members: member_views(c.members@),
    }
}

/// What reading one event led to.
enum EventOutcome {
    Continue,
    Stop,
    Fail(ParseError),
}

/// A copy of a list of relation members.
fn copy_members(v: &Vec<RelationMember>) -> (r: Vec<RelationMember>)
    ensures
        member_views(r@) == member_views(v@),
{
    let mut out: Vec<RelationMember> = Vec::new();
    let n = v.len();
    for i in 0..n
        invariant
            n == v@.len(),
            out@.len() == i,
            forall|j: int| 0 <= j < i ==> (#[trigger] out@[j])@ == v@[j]@,
    {
        let m = &v[i];
        out.push(RelationMember { element_type: m.element_type, id: m.id, role: m.role.clone() });
    }
    assert(member_views(out@) =~= member_views(v@));
    out
}

/// Adding a value under a key commutes with taking views.
proof fn lemma_insert_views_node(m: Map<i64, Node>, n: Node)
    ensures
        m.insert(n.id, n).map_values(|x: Node| x@) == m.map_values(|x: Node| x@).insert(n.id, n@),
{
    assert(m.insert(n.id, n).map_values(|x: Node| x@) =~= m.map_values(|x: Node| x@).insert(
        n.id,
        n@,
    ));
}

proof fn lemma_insert_views_way(m: Map<i64, Way>, w: Way)
    ensures
        m.insert(w.id, w).map_values(|x: Way| x@) == m.map_values(|x: Way| x@).insert(w.id, w@),
{
    assert(m.insert(w.id, w).map_values(|x: Way| x@) =~= m.map_values(|x: Way| x@).insert(w.id, w@));
}

proof fn lemma_insert_views_relation(m: Map<i64, Relation>, r: Relation)
    ensures
        m.insert(r.id, r).map_values(|x: Relation| x@) == m.map_values(|x: Relation| x@).insert(
            r.id,
            r@,
        ),
{
    assert(m.insert(r.id, r).map_values(|x: Relation| x@) =~= m.map_values(|x: Relation| x@).insert(
        r.id,
        r@,
    ));
}

/// Adds a node and records it in the dataset's content.
fn add_node_item(map: &mut MapData, node: Node)
    ensures
        data_view(*final(map)) == with_node(data_view(*old(map)), node@),
{
    proof {
        lemma_insert_views_node(map.nodes@, node);
    }
    map.add_node(node);
}

fn add_way_item(map: &mut MapData, way: Way)
    ensures
        data_view(*final(map)) == with_way(data_view(*old(map)), way@),
{
    proof {
        lemma_insert_views_way(map.ways@, way);
    }
    map.add_way(way);
}

fn add_relation_item(map: &mut MapData, relation: Relation)
    ensures
        data_view(*final(map)) == with_relation(data_view(*old(map)), relation@),
{
    proof {
        lemma_insert_views_relation(map.relations@, relation);
    }
    map.add_relation(relation);
}

/// Empty tags.
fn no_tags() -> (t: Tags)
    ensures
        tag_texts(t@) == Map::<Seq<char>, Seq<char>>::empty(),
{
    let t = StrMap::new();
    assert(tag_texts(t@) =~= Map::<Seq<char>, Seq<char>>::empty());
    t
}

impl OsmParser {
    /// Applies a start event.
    fn start_event(
        &self,
        e: &XmlElement,
        decoded: &StrMap<Option<u64>>,
        st: &mut OsmCursor,
    ) -> (r: EventOutcome)
        ensures
            match osm_step(cursor_state(*old(st)), XmlEvent::Start(*e), decoded@) {
                OsmStep::Go(s2, it) => r is Continue && cursor_state(*final(st)) == s2 && it is None,
                OsmStep::Stop => r is Stop,
                OsmStep::Fail(x) => r is Fail && r->Fail_0@ == x,
            },
    {
        if name_is(e.name.as_slice(), "node") {
            match self.parse_node_start(e, decoded) {
                Ok(el) => {
                    st.cur = Some(el);
                    st.tags = no_tags();
                    EventOutcome::Continue
                },
                Err(x) => EventOutcome::Fail(x),
            }
        } else if name_is(e.name.as_slice(), "way") {
            match self.parse_way_start(e) {
                Ok(el) => {
                    st.cur = Some(el);
                    st.tags = no_tags();
                    st.way_nodes = Vec::new();
                    EventOutcome::Continue
                },
                Err(x) => EventOutcome::Fail(x),
            }
        } else if name_is(e.name.as_slice(), "relation") {
            match self.parse_relation_start(e) {
                Ok(el) => {
                    st.cur = Some(el);
                    st.tags = no_tags();
                    st.members = Vec::new();
                    proof {
                        assert(member_views(st.members@) =~= Seq::<MemberView>::empty());
                    }
                    EventOutcome::Continue
                },
                Err(x) => EventOutcome::Fail(x),
            }
        } else {
            EventOutcome::Continue
        }
    }

    /// Applies an empty-element event.
    fn empty_event(
        &self,
        e: &XmlElement,
        decoded: &StrMap<Option<u64>>,
        st: &mut OsmCursor,
        map: &mut MapData,
    ) -> (r: EventOutcome)
        ensures
            match osm_step(cursor_state(*old(st)), XmlEvent::Empty(*e), decoded@) {
                OsmStep::Go(s2, it) => r is Continue && cursor_state(*final(st)) == s2 && data_view(
                    *final(map),
                ) == with_opt_item(data_view(*old(map)), it),
                OsmStep::Stop => r is Stop,
                OsmStep::Fail(x) => r is Fail && r->Fail_0@ == x,
            },
    {
        if name_is(e.name.as_slice(), "tag") {
            match self.parse_tag(e) {
                Ok((k, v)) => {
                    let ghost t0 = st.tags@;
                    st.tags.insert(k, v);
                    proof {
                        assert(tag_texts(st.tags@) =~= tag_texts(t0).insert(k@, v@));
                    }
                    EventOutcome::Continue
                },
                Err(x) => EventOutcome::Fail(x),
            }
        } else if name_is(e.name.as_slice(), "nd") {
            match self.parse_node_ref(e) {
                Ok(Some(r)) => {
                    st.way_nodes.push(r);
                    EventOutcome::Continue
                },
                Ok(None) => EventOutcome::Continue,
                Err(x) => EventOutcome::Fail(x),
            }
        } else if name_is(e.name.as_slice(), "member") {
            match self.parse_relation_member(e) {
                Ok(Some(m)) => {
                    let ghost m0 = st.members@;
                    st.members.push(m);
                    proof {
                        assert(member_views(st.members@) =~= member_views(m0).push(m@));
                    }
                    EventOutcome::Continue
                },
                Ok(None) => EventOutcome::Continue,
                Err(x) => EventOutcome::Fail(x),
            }
        } else if name_is(e.name.as_slice(), "node") {
            match st.cur.take() {
                Some(el) => {
                    match el {
                        OsmElement::Node { id, lat, lon } => {
                            add_node_item(map, Node { id, lat, lon, tags: no_tags() });
                        },
                        _ => {},
                    }
                    EventOutcome::Continue
                },
                None => match self.parse_node_start(e, decoded) {
                    Ok(el) => {
                        match el {
                            OsmElement::Node { id, lat, lon } => {
                                add_node_item(map, Node { id, lat, lon, tags: no_tags() });
                            },
                            _ => {},
                        }
                        EventOutcome::Continue
                    },
                    Err(x) => EventOutcome::Fail(x),
                },
            }
        } else {
            EventOutcome::Continue
        }
    }

    /// Applies an end event.
    fn end_event(
        &self,
        name: &Vec<u8>,
        decoded: &StrMap<Option<u64>>,
        st: &mut OsmCursor,
        map: &mut MapData,
    ) -> (r: EventOutcome)
        ensures
            match osm_step(cursor_state(*old(st)), XmlEvent::End(*name), decoded@) {
                OsmStep::Go(s2, it) => r is Continue && cursor_state(*final(st)) == s2 && data_view(
                    *final(map),
                ) == with_opt_item(data_view(*old(map)), it),
                OsmStep::Stop => r is Stop && *final(map) == *old(map),
                OsmStep::Fail(x) => r is Fail && r->Fail_0@ == x,
            },
    {
        if name_is(name.as_slice(), "node") {
            match st.cur.take() {
                Some(OsmElement::Node { id, lat, lon }) => {
                    let tags = clone_tags(&st.tags);
                    add_node_item(map, Node { id, lat, lon, tags });
                },
                _ => {},
            }
            EventOutcome::Continue
        } else if name_is(name.as_slice(), "way") {
            match st.cur.take() {
                Some(OsmElement::Way { id }) => {
                    let n = st.way_nodes.len();
                    let is_closed = n > 2 && st.way_nodes[0] == st.way_nodes[n - 1];
                    let tags = clone_tags(&st.tags);
                    let nodes = st.way_nodes.clone();
                    add_way_item(map, Way { id, nodes, tags, is_closed });
                },
                _ => {},
            }
            EventOutcome::Continue
        } else if name_is(name.as_slice(), "relation") {
            match st.cur.take() {
                Some(OsmElement::Relation { id }) => {
                    let tags = clone_tags(&st.tags);
                    let members = copy_members(&st.members);
                    add_relation_item(map, Relation { id, members, tags });
                },
                _ => {},
            }
            EventOutcome::Continue
        } else if name_is(name.as_slice(), "osm") {
            EventOutcome::Stop
        } else {
            EventOutcome::Continue
        }
    }

    /// Builds the dataset from `events`, in order, until the end of the
    /// `osm` element, the end of input or the first error. Decimal texts of
    /// coordinates decode as `decoded` records; a text it lacks does not decode.
    pub fn parse_osm_events(&self, events: &Vec<XmlEvent>, decoded: &StrMap<Option<u64>>) -> (r:
        Result<MapData, ParseError>)
        ensures
            parse_outcome(r, osm_parse(events@, decoded@)),
    {
        let mut st = OsmCursor {
            cur: None,
            tags: no_tags(),
            way_nodes: Vec::new(),
            members: Vec::new(),
        };
        let mut map = MapData::new();
        proof {
            assert(member_views(st.members@) =~= Seq::<MemberView>::empty());
            assert(map.nodes@.map_values(|x: Node| x@) =~= Map::<i64, NodeView>::empty());
            assert(map.ways@.map_values(|x: Way| x@) =~= Map::<i64, WayView>::empty());
            assert(map.relations@.map_values(|x: Relation| x@) =~= Map::<i64, RelationView>::empty());
            assert(data_view(map) == empty_data());
            assert(st.way_nodes@ =~= Seq::<i64>::empty());
            assert(cursor_state(st) == initial_state());
            assert(events@.skip(0) =~= events@);
        }
        let n = events.len();
        for i in 0..n
            invariant
                n == events@.len(),
                osm_parse(events@, decoded@) == osm_run(
                    events@.skip(i as int),
                    decoded@,
                    cursor_state(st),
                    data_view(map),
                ),
        {
            let ghost rest = events@.skip(i as int);
            proof {
                assert(rest[0] == events@[i as int]);
                assert(rest.drop_first() =~= events@.skip(i + 1));
            }
            let out = match &events[i] {
                XmlEvent::Start(e) => self.start_event(e, decoded, &mut st),
                XmlEvent::Empty(e) => self.empty_event(e, decoded, &mut st, &mut map),
                XmlEvent::End(name) => self.end_event(name, decoded, &mut st, &mut map),
                XmlEvent::Eof => EventOutcome::Stop,
                XmlEvent::Error { position, message } => EventOutcome::Fail(
                    ParseError::Xml(xml_error_text(*position, message)),
                ),
                _ => EventOutcome::Continue,
            };
            match out {
                EventOutcome::Continue => {},
                EventOutcome::Stop => {
                    return Ok(map);
                },
                EventOutcome::Fail(x) => {
                    return Err(x);
                },
            }
        }
        proof {
            assert(events@.skip(n as int).len() == 0);
        }
        Ok(map)
    }
}

/// Every text in `dec` is recorded with a value that `parse_f64` returned for it.
pub open spec fn decoded_by<F: Fn(&str) -> Option<u64>>(dec: Map<Seq<char>, Option<u64>>, parse_f64: F) -> bool {
    forall|k: Seq<char>|
        #[trigger] dec.dom().contains(k) ==> exists|t: &str|
            t@ == k && call_ensures(parse_f64, (t,), #[trigger] dec[k])
}

impl OsmParser {
    /// Records, for every `lat` and `lon` text of the `node` elements of
    /// `events`, the value that `parse_f64` decodes it to.
    fn decode_coordinates<F: Fn(&str) -> Option<u64>>(events: &Vec<XmlEvent>, parse_f64: &F) -> (r:
        StrMap<Option<u64>>)
        requires
            forall|s: &str| #[trigger] parse_f64.requires((s,)),
        ensures
            decoded_by(r@, *parse_f64),
            coordinates_covered(events@, "node"@, r@),
    {
        decode_element_coordinates(events, "node", parse_f64)
    }

    /// Parses an OSM XML document. Coordinate texts decode to binary64 bit
    /// patterns through `parse_f64` (the caller's `str::parse::<f64>`); the
    /// rest is `parse_osm_events` on the document's XML events.
    pub fn parse_string<F: Fn(&str) -> Option<u64>>(&self, content: &str, parse_f64: &F) -> (r: Result<
        MapData,
        ParseError,
    >)
        requires
            forall|s: &str| #[trigger] parse_f64.requires((s,)),
        ensures
            exists|evs: Seq<XmlEvent>, dec: Map<Seq<char>, Option<u64>>|
                #![trigger osm_parse(evs, dec)]
                event_views(evs) == xml_events_from(content@, 0, content.len() as nat) && decoded_by(
                    dec,
                    *parse_f64,
                ) && coordinates_covered(evs, "node"@, dec) && parse_outcome(r, osm_parse(evs, dec)),
    {
        let events = read_xml_events(content);
        let decoded = Self::decode_coordinates(&events, parse_f64);
        let r = self.parse_osm_events(&events, &decoded);
        assert(event_views(events@) == xml_events_from(content@, 0, content.len() as nat) && decoded_by(
            decoded@,
            *parse_f64,
        ) && coordinates_covered(events@, "node"@, decoded@) && parse_outcome(
            r,
            osm_parse(events@, decoded@),
        ));
        r
    }
}

impl Default for OsmParser {
    fn default() -> (p: Self)
        ensures
            !p.includes_metadata(),
    {
        Self::new()
    }
}

/// The element of a start or empty-element event.
pub open spec fn element_of(ev: XmlEvent) -> Option<XmlElement> {
    match ev {
        XmlEvent::Start(e) => Some(e),
        XmlEvent::Empty(e) => Some(e),
        _ => None,
    }
}

/// The text of attribute `j` of event `i`, when the event is an element
/// named `name` and the attribute is its readable `lat` or `lon`.
pub open spec fn coordinate_text_at(evs: Seq<XmlEvent>, i: int, j: int, name: Seq<char>) -> Option<Seq<char>> {
    if 0 <= i < evs.len() {
        match element_of(evs[i]) {
            Some(e) => if is_named(e.name@, name) && 0 <= j < e.attributes@.len() {
                match e.attributes@[j] {
                    Ok(a) => if is_named(a.key@, "lat"@) || is_named(a.key@, "lon"@) {
                        utf8_of(a.value@)
                    } else {
                        None
                    },
                    Err(_) => None,
                }
            } else {
                None
            },
            None => None,
        }
    } else {
        None
    }
}

/// The text, if there is one, is recorded in `dec`.
pub open spec fn recorded(dec: Map<Seq<char>, Option<u64>>, t: Option<Seq<char>>) -> bool {
    match t {
        Some(x) => dec.dom().contains(x),
        None => true,
    }
}

/// Every coordinate text of the elements named `name` is recorded in `dec`.
pub open spec fn coordinates_covered(evs: Seq<XmlEvent>, name: Seq<char>, dec: Map<Seq<char>, Option<u64>>) -> bool {
    forall|i: int, j: int| recorded(dec, #[trigger] coordinate_text_at(evs, i, j, name))
}

/// Records the value that `parse_f64` decodes `t` to, unless `t` is recorded.
pub(crate) fn record<F: Fn(&str) -> Option<u64>>(table: &mut StrMap<Option<u64>>, t: String, parse_f64: &F)
    requires
        forall|s: &str| #[trigger] parse_f64.requires((s,)),
        decoded_by(old(table)@, *parse_f64),
    ensures
        decoded_by(final(table)@, *parse_f64),
        final(table)@.dom().contains(t@),
        forall|k: Seq<char>| old(table)@.dom().contains(k) ==> #[trigger] final(table)@.dom().contains(k),
{
    if !table.contains_key(t.as_str()) {
        let ts = t.as_str();
        let v = parse_f64(ts);
        let ghost old_table = table@;
        let ghost tv = t@;
        assert(call_ensures(*parse_f64, (ts,), v));
        table.insert(t, v);
        proof {
            assert forall|k: Seq<char>| #[trigger] table@.dom().contains(k) implies exists|s: &str|
                s@ == k && call_ensures(*parse_f64, (s,), table@[k]) by {
                if k == tv {
                    assert(table@[k] == v);
                } else {
                    assert(old_table.dom().contains(k));
                    assert(table@[k] == old_table[k]);
                }
            }
        }
    }
}

/// Records the decoded value of every coordinate text of the elements named `name`.
pub(crate) fn decode_element_coordinates<F: Fn(&str) -> Option<u64>>(
    events: &Vec<XmlEvent>,
    name: &str,
    parse_f64: &F,
) -> (r: StrMap<Option<u64>>)
    requires
        forall|s: &str| #[trigger] parse_f64.requires((s,)),
    ensures
        decoded_by(r@, *parse_f64),
        coordinates_covered(events@, name@, r@),
{
    let mut table: StrMap<Option<u64>> = StrMap::new();
    let n = events.len();
    for i in 0..n
        invariant
            n == events@.len(),
            forall|s: &str| #[trigger] parse_f64.requires((s,)),
            decoded_by(table@, *parse_f64),
            forall|a: int, b: int|
                #![trigger coordinate_text_at(events@, a, b, name@)]
                a < i ==> recorded(table@, coordinate_text_at(events@, a, b, name@)),
    {
        let element = match &events[i] {
            XmlEvent::Start(e) => Some(e),
            XmlEvent::Empty(e) => Some(e),
            _ => None,
        };
        match element {
            Some(e) => {
                if name_is(e.name.as_slice(), name) {
                    let m = e.attributes.len();
                    for j in 0..m
                        invariant
                            m == e.attributes@.len(),
                            element_of(events@[i as int]) == Some(*e),
                            is_named(e.name@, name@),
                            forall|s: &str| #[trigger] parse_f64.requires((s,)),
                            decoded_by(table@, *parse_f64),
                            forall|a: int, b: int|
                                #![trigger coordinate_text_at(events@, a, b, name@)]
                                (a < i || (a == i && b < j)) ==> recorded(table@, coordinate_text_at(events@, a, b, name@)),
                    {
                        match &e.attributes[j] {
                            Ok(a) => {
                                if name_is(a.key.as_slice(), "lat") || name_is(a.key.as_slice(), "lon") {
                                    match utf8_text(a.value.as_slice()) {
                                        Some(t) => {
                                            record(&mut table, t, parse_f64);
                                        },
                                        None => {},
                                    }
                                }
                            },
                            Err(_) => {},
                        }
                        assert(recorded(table@, coordinate_text_at(events@, i as int, j as int, name@)));
                    }
                }
            },
            None => {},
        }
        assert forall|b: int| recorded(table@, #[trigger] coordinate_text_at(events@, i as int, b, name@)) by {
            if element_of(events@[i as int]) is Some {
                let e = element_of(events@[i as int])->0;
                if is_named(e.name@, name@) && 0 <= b < e.attributes@.len() {
                }
            }
        }
    }
    table
}

/// The value found by `first_int` is what the spec gives.
proof fn lemma_first_int_found(
    attrs: Seq<Result<XmlAttribute, String>>,
    i: int,
    key: Seq<char>,
    v: i64,
)
    requires
        0 <= i < attrs.len(),
        first_int_attr(attrs.take(i), key) == Ok::<Option<i64>, ParseErrorView>(None),
        attrs[i] is Ok,
        is_named(attrs[i]->Ok_0.key@, key),
        attr_int(attrs[i]->Ok_0) == Ok::<i64, ParseErrorView>(v),
    ensures
        first_int_attr(attrs, key) == Ok::<Option<i64>, ParseErrorView>(Some(v)),
    decreases attrs.len() - i,
{
    assert(attrs.take(i + 1).drop_last() =~= attrs.take(i));
    if i + 1 == attrs.len() {
        assert(attrs.take(i + 1) =~= attrs);
    } else {
        lemma_first_int_kept(attrs, i + 1, key, v);
    }
}

/// Once found, the first value stays.
proof fn lemma_first_int_kept(attrs: Seq<Result<XmlAttribute, String>>, j: int, key: Seq<char>, v: i64)
    requires
        0 <= j <= attrs.len(),
        first_int_attr(attrs.take(j), key) == Ok::<Option<i64>, ParseErrorView>(Some(v)),
    ensures
        first_int_attr(attrs, key) == Ok::<Option<i64>, ParseErrorView>(Some(v)),
    decreases attrs.len() - j,
{
    if j == attrs.len() {
        assert(attrs.take(j) =~= attrs);
    } else {
        assert(attrs.take(j + 1).drop_last() =~= attrs.take(j));
        lemma_first_int_kept(attrs, j + 1, key, v);
    }
}

/// Once reading a node's attributes has failed, the failure stands.
proof fn lemma_node_attrs_err(attrs: Seq<Result<XmlAttribute, String>>, j: int, dec: Map<Seq<char>, Option<u64>>)
    requires
        0 <= j <= attrs.len(),
        node_attrs(attrs.take(j), dec) is Err,
    ensures
        node_attrs(attrs, dec) == node_attrs(attrs.take(j), dec),
    decreases attrs.len() - j,
{
    if j == attrs.len() {
        assert(attrs.take(j) =~= attrs);
    } else {
        assert(attrs.take(j + 1).drop_last() =~= attrs.take(j));
        lemma_node_attrs_err(attrs, j + 1, dec);
    }
}

/// Once searching for an integer attribute has failed, the failure stands.
proof fn lemma_first_int_err(attrs: Seq<Result<XmlAttribute, String>>, j: int, key: Seq<char>)
    requires
        0 <= j <= attrs.len(),
        first_int_attr(attrs.take(j), key) is Err,
    ensures
        first_int_attr(attrs, key) == first_int_attr(attrs.take(j), key),
    decreases attrs.len() - j,
{
    if j == attrs.len() {
        assert(attrs.take(j) =~= attrs);
    } else {
        assert(attrs.take(j + 1).drop_last() =~= attrs.take(j));
        lemma_first_int_err(attrs, j + 1, key);
    }
}

/// Once reading a tag's attributes has failed, the failure stands.
proof fn lemma_tag_attrs_err(attrs: Seq<Result<XmlAttribute, String>>, j: int)
    requires
        0 <= j <= attrs.len(),
        tag_attrs(attrs.take(j)) is Err,
    ensures
        tag_attrs(attrs) == tag_attrs(attrs.take(j)),
    decreases attrs.len() - j,
{
    if j == attrs.len() {
        assert(attrs.take(j) =~= attrs);
    } else {
        assert(attrs.take(j + 1).drop_last() =~= attrs.take(j));
        lemma_tag_attrs_err(attrs, j + 1);
    }
}

/// Once reading a member's attributes has failed, the failure stands.
proof fn lemma_member_attrs_err(attrs: Seq<Result<XmlAttribute, String>>, j: int)
    requires
        0 <= j <= attrs.len(),
        member_attrs(attrs.take(j)) is Err,
    ensures
        member_attrs(attrs) == member_attrs(attrs.take(j)),
    decreases attrs.len() - j,
{
    if j == attrs.len() {
        assert(attrs.take(j) =~= attrs);
    } else {
        assert(attrs.take(j + 1).drop_last() =~= attrs.take(j));
        lemma_member_attrs_err(attrs, j + 1);
    }
}

/// The element type that a member's `type` text names.
fn element_type_from(t: &String) -> (r: Result<ElementType, ParseError>)
    ensures
        match element_type_of(t@) {
            Ok(x) => r == Ok::<ElementType, ParseError>(x),
            Err(e) => r is Err && r->Err_0@ == e,
        },
{
    if *t == owned("node") {
        Ok(ElementType::Node)
    } else if *t == owned("way") {
        Ok(ElementType::Way)
    } else if *t == owned("relation") {
        Ok(ElementType::Relation)
    } else {
        let mut cs = chars_of("Unknown element type: ");
        let mut rest = chars_of(t.as_str());
        cs.append(&mut rest);
        Err(ParseError::InvalidFormat(crate::text::string_of(cs.as_slice())))
    }
}

// ---------------------------------------------------------------------------
// Laws
// ---------------------------------------------------------------------------

/// Every node of the dataset lies in [-90, 90] x [-180, 180].
pub open spec fn nodes_in_range(d: DataView) -> bool {
    forall|id: i64| #[trigger] d.nodes.dom().contains(id) ==> !out_of_range(d.nodes[id].lat, d.nodes[id].lon)
}

/// A node whose start has been read lies in range.
pub open spec fn current_in_range(st: OsmState) -> bool {
    match st.cur {
        Some(OsmElement::Node { id, lat, lon }) => !out_of_range(lat, lon),
        _ => true,
    }
}

proof fn lemma_step_in_range(st: OsmState, ev: XmlEvent, dec: Map<Seq<char>, Option<u64>>, d: DataView)
    requires
        nodes_in_range(d),
        current_in_range(st),
    ensures
        match osm_step(st, ev, dec) {
            OsmStep::Go(s2, it) => current_in_range(s2) && nodes_in_range(with_opt_item(d, it)),
            _ => true,
        },
{
    match osm_step(st, ev, dec) {
        OsmStep::Go(s2, it) => {
            match it {
                Some(OsmItem::Node(n)) => {
                    assert(!out_of_range(n.lat, n.lon));
                    let d2 = with_opt_item(d, it);
                    assert forall|id: i64| #[trigger] d2.nodes.dom().contains(id) implies !out_of_range(
                        d2.nodes[id].lat,
                        d2.nodes[id].lon,
                    ) by {
                        if id != n.id {
                            assert(d.nodes.dom().contains(id));
                        }
                    }
                },
                _ => {},
            }
        },
        _ => {},
    }
}

proof fn lemma_run_in_range(evs: Seq<XmlEvent>, dec: Map<Seq<char>, Option<u64>>, st: OsmState, d: DataView)
    requires
        nodes_in_range(d),
        current_in_range(st),
    ensures
        osm_run(evs, dec, st, d) is Ok ==> nodes_in_range(osm_run(evs, dec, st, d)->Ok_0),
    decreases evs.len(),
{
    if evs.len() > 0 {
        lemma_step_in_range(st, evs[0], dec, d);
        match osm_step(st, evs[0], dec) {
            OsmStep::Go(s2, it) => {
                lemma_run_in_range(evs.drop_first(), dec, s2, with_opt_item(d, it));
            },
            _ => {},
        }
    }
}

/// Parsing never yields a node outside [-90, 90] x [-180, 180]: a node start
/// out of range fails the whole parse.
pub proof fn law_parsed_nodes_in_range(evs: Seq<XmlEvent>, dec: Map<Seq<char>, Option<u64>>)
    ensures
        osm_parse(evs, dec) is Ok ==> nodes_in_range(osm_parse(evs, dec)->Ok_0),
{
    lemma_run_in_range(evs, dec, initial_state(), empty_data());
}

/// Whether `ev` is a well-formed child of an OSM element: a `tag` with a key
/// and a value, an `nd` node reference, or a relation `member`.
pub open spec fn osm_child(ev: XmlEvent) -> bool {
    match ev {
        XmlEvent::Empty(e) => (is_named(e.name@, "tag"@) && tag_kv(e.attributes@) is Ok) || (is_named(
            e.name@,
            "nd"@,
        ) && first_int_attr(e.attributes@, "ref"@) is Ok) || (is_named(e.name@, "member"@)
            && member_of(e.attributes@) is Ok),
        _ => false,
    }
}

/// The tags `m` with those of the `tag` children `evs` set over them, in
/// order: a later tag with the same key wins.
pub open spec fn child_tags(m: Map<Seq<char>, Seq<char>>, evs: Seq<XmlEvent>) -> Map<Seq<char>, Seq<char>>
    decreases evs.len(),
{
    if evs.len() == 0 {
        m
    } else {
        let m2 = match evs[0] {
            XmlEvent::Empty(e) => if is_named(e.name@, "tag"@) {
                match tag_kv(e.attributes@) {
                    Ok((k, v)) => m.insert(k, v),
                    Err(_) => m,
                }
            } else {
                m
            },
            _ => m,
        };
        child_tags(m2, evs.drop_first())
    }
}

/// The node references of the `nd` children `evs` that give one, in order.
pub open spec fn child_refs(evs: Seq<XmlEvent>) -> Seq<i64>
    decreases evs.len(),
{
    if evs.len() == 0 {
        Seq::empty()
    } else {
        let first = match evs[0] {
            XmlEvent::Empty(e) => if is_named(e.name@, "nd"@) {
                match first_int_attr(e.attributes@, "ref"@) {
                    Ok(Some(r)) => seq![r],
                    _ => Seq::empty(),
                }
            } else {
                Seq::empty()
            },
            _ => Seq::empty(),
        };
        first + child_refs(evs.drop_first())
    }
}

/// The members of the `member` children `evs` that give a type and a
/// reference, in order.
pub open spec fn child_members(evs: Seq<XmlEvent>) -> Seq<MemberView>
    decreases evs.len(),
{
    if evs.len() == 0 {
        Seq::empty()
    } else {
        let first = match evs[0] {
            XmlEvent::Empty(e) => if is_named(e.name@, "member"@) {
                match member_of(e.attributes@) {
                    Ok(Some(m)) => seq![m],
                    _ => Seq::empty(),
                }
            } else {
                Seq::empty()
            },
            _ => Seq::empty(),
        };
        first + child_members(evs.drop_first())
    }
}

proof fn lemma_child_names()
    ensures
        "tag"@.len() == 3,
        "nd"@.len() == 2,
        "member"@.len() == 6,
        "node"@.len() == 4,
        "way"@.len() == 3,
        "relation"@.len() == 8,
        "osm"@.len() == 3,
        "way"@[0] == 'w',
        "osm"@[0] == 'o',
        "tag"@[0] == 't',
{
    reveal_strlit("tag");
    reveal_strlit("nd");
    reveal_strlit("member");
    reveal_strlit("node");
    reveal_strlit("way");
    reveal_strlit("relation");
    reveal_strlit("osm");
}

/// No name is two names of different lengths.
proof fn lemma_names_differ(n: Seq<u8>, a: Seq<char>, b: Seq<char>)
    requires
        a.len() != b.len(),
    ensures
        !(is_named(n, a) && is_named(n, b)),
{
    assert(crate::xml::ascii_bytes(a).len() == a.len());
    assert(crate::xml::ascii_bytes(b).len() == b.len());
}

/// Reading the children of an element keeps the element and gathers their
/// tags, node references and members.
proof fn lemma_children_run(
    inner: Seq<XmlEvent>,
    rest: Seq<XmlEvent>,
    dec: Map<Seq<char>, Option<u64>>,
    st: OsmState,
    d: DataView,
)
    requires
        forall|i: int| 0 <= i < inner.len() ==> #[trigger] osm_child(inner[i]),
    ensures
        osm_run(inner + rest, dec, st, d) == osm_run(
            rest,
            dec,
            OsmState {
                cur: st.cur,
                tags: child_tags(st.tags, inner),
                way_nodes: st.way_nodes + child_refs(inner),
                members: st.members + child_members(inner),
            },
            d,
        ),
    decreases inner.len(),
{
    lemma_child_names();
    if inner.len() == 0 {
        assert(inner + rest =~= rest);
        assert(st.way_nodes + child_refs(inner) =~= st.way_nodes);
        assert(st.members + child_members(inner) =~= st.members);
    } else {
        let ev = inner[0];
        assert(osm_child(ev));
        assert((inner + rest)[0] == ev);
        assert((inner + rest).drop_first() =~= inner.drop_first() + rest);
        assert forall|i: int| 0 <= i < inner.drop_first().len() implies #[trigger] osm_child(
            inner.drop_first()[i],
        ) by {
            assert(osm_child(inner[i + 1]));
        }
        match ev {
            XmlEvent::Empty(e) => {
                let n = e.name@;
                if is_named(n, "tag"@) {
                    lemma_names_differ(n, "tag"@, "nd"@);
                    lemma_names_differ(n, "tag"@, "member"@);
                    let (k, v) = tag_kv(e.attributes@)->Ok_0;
                    let st2 = OsmState { tags: st.tags.insert(k, v), ..st };
                    assert(osm_step(st, ev, dec) == OsmStep::Go(st2, None));
                    lemma_children_run(inner.drop_first(), rest, dec, st2, d);
                    assert(child_refs(inner) =~= child_refs(inner.drop_first()));
                    assert(child_members(inner) =~= child_members(inner.drop_first()));
                } else if is_named(n, "nd"@) {
                    lemma_names_differ(n, "nd"@, "member"@);
                    lemma_names_differ(n, "nd"@, "tag"@);
                    let r = first_int_attr(e.attributes@, "ref"@)->Ok_0;
                    let st2 = match r {
                        Some(x) => OsmState { way_nodes: st.way_nodes.push(x), ..st },
                        None => st,
                    };
                    assert(osm_step(st, ev, dec) == OsmStep::Go(st2, None));
                    lemma_children_run(inner.drop_first(), rest, dec, st2, d);
                    assert(child_members(inner) =~= child_members(inner.drop_first()));
                    assert(st2.way_nodes + child_refs(inner.drop_first()) =~= st.way_nodes + child_refs(
                        inner,
                    ));
                } else {
                    assert(is_named(n, "member"@));
                    lemma_names_differ(n, "member"@, "tag"@);
                    lemma_names_differ(n, "member"@, "nd"@);
                    let m = member_of(e.attributes@)->Ok_0;
                    let st2 = match m {
                        Some(x) => OsmState { members: st.members.push(x), ..st },
                        None => st,
                    };
                    assert(osm_step(st, ev, dec) == OsmStep::Go(st2, None));
                    lemma_children_run(inner.drop_first(), rest, dec, st2, d);
                    assert(child_refs(inner) =~= child_refs(inner.drop_first()));
                    assert(st2.members + child_members(inner.drop_first()) =~= st.members + child_members(
                        inner,
                    ));
                }
            },
            _ => {},
        }
    }
}

/// A way element adds the way with the node references of its `nd` children
/// and the tags of its `tag` children (a later tag with the same key wins),
/// closed when it has more than two references and the first is the last;
/// reading goes on after its end with no element open.
pub proof fn law_way_children(
    start: XmlElement,
    inner: Seq<XmlEvent>,
    end: Vec<u8>,
    rest: Seq<XmlEvent>,
    dec: Map<Seq<char>, Option<u64>>,
    st: OsmState,
    d: DataView,
    id: i64,
)
    requires
        is_named(start.name@, "way"@),
        id_start(start.attributes@) == Ok::<i64, ParseErrorView>(id),
        forall|i: int| 0 <= i < inner.len() ==> #[trigger] osm_child(inner[i]),
        is_named(end@, "way"@),
    ensures
        osm_run(seq![XmlEvent::Start(start)] + inner + seq![XmlEvent::End(end)] + rest, dec, st, d)
            == osm_run(
            rest,
            dec,
            OsmState {
                cur: None,
                tags: child_tags(Map::empty(), inner),
                way_nodes: child_refs(inner),
                members: st.members + child_members(inner),
            },
            with_way(
                d,
                WayView {
                    id,
                    nodes: child_refs(inner),
                    tags: child_tags(Map::empty(), inner),
                    is_closed: child_refs(inner).len() > 2 && child_refs(inner)[0] == child_refs(
                        inner,
                    ).last(),
                },
            ),
        ),
{
    lemma_child_names();
    let all = seq![XmlEvent::Start(start)] + inner + seq![XmlEvent::End(end)] + rest;
    let tail = seq![XmlEvent::End(end)] + rest;
    assert(all[0] == XmlEvent::Start(start));
    assert(all.drop_first() =~= inner + tail);
    lemma_names_differ(start.name@, "way"@, "node"@);
    lemma_names_differ(end@, "way"@, "node"@);
    let st1 = OsmState {
        cur: Some(OsmElement::Way { id }),
        tags: Map::empty(),
        way_nodes: Seq::empty(),
        ..st
    };
    assert(osm_step(st, all[0], dec) == OsmStep::Go(st1, None));
    lemma_children_run(inner, tail, dec, st1, d);
    let st2 = OsmState {
        cur: st1.cur,
        tags: child_tags(st1.tags, inner),
        way_nodes: st1.way_nodes + child_refs(inner),
        members: st1.members + child_members(inner),
    };
    assert(st1.way_nodes + child_refs(inner) =~= child_refs(inner));
    assert(tail[0] == XmlEvent::End(end));
    assert(tail.drop_first() =~= rest);
}

/// A relation element adds the relation with the members of its `member`
/// children and the tags of its `tag` children (a later tag with the same key
/// wins); reading goes on after its end with no element open.
pub proof fn law_relation_children(
    start: XmlElement,
    inner: Seq<XmlEvent>,
    end: Vec<u8>,
    rest: Seq<XmlEvent>,
    dec: Map<Seq<char>, Option<u64>>,
    st: OsmState,
    d: DataView,
    id: i64,
)
    requires
        is_named(start.name@, "relation"@),
        id_start(start.attributes@) == Ok::<i64, ParseErrorView>(id),
        forall|i: int| 0 <= i < inner.len() ==> #[trigger] osm_child(inner[i]),
        is_named(end@, "relation"@),
    ensures
        osm_run(seq![XmlEvent::Start(start)] + inner + seq![XmlEvent::End(end)] + rest, dec, st, d)
            == osm_run(
            rest,
            dec,
            OsmState {
                cur: None,
                tags: child_tags(Map::empty(), inner),
                way_nodes: st.way_nodes + child_refs(inner),
                members: child_members(inner),
            },
            with_relation(
                d,
                RelationView { id, members: child_members(inner), tags: child_tags(Map::empty(), inner) },
            ),
        ),
{
    lemma_child_names();
    let all = seq![XmlEvent::Start(start)] + inner + seq![XmlEvent::End(end)] + rest;
    let tail = seq![XmlEvent::End(end)] + rest;
    assert(all[0] == XmlEvent::Start(start));
    assert(all.drop_first() =~= inner + tail);
    lemma_names_differ(start.name@, "relation"@, "node"@);
    lemma_names_differ(start.name@, "relation"@, "way"@);
    lemma_names_differ(end@, "relation"@, "node"@);
    lemma_names_differ(end@, "relation"@, "way"@);
    let st1 = OsmState {
        cur: Some(OsmElement::Relation { id }),
        tags: Map::empty(),
        members: Seq::empty(),
        ..st
    };
    assert(osm_step(st, all[0], dec) == OsmStep::Go(st1, None));
    lemma_children_run(inner, tail, dec, st1, d);
    assert(st1.members + child_members(inner) =~= child_members(inner));
    assert(tail[0] == XmlEvent::End(end));
    assert(tail.drop_first() =~= rest);
}

/// A node element with children adds the node at its coordinates with the
/// tags of its `tag` children (a later tag with the same key wins); reading
/// goes on after its end with no element open.
pub proof fn law_node_children(
    start: XmlElement,
    inner: Seq<XmlEvent>,
    end: Vec<u8>,
    rest: Seq<XmlEvent>,
    dec: Map<Seq<char>, Option<u64>>,
    st: OsmState,
    d: DataView,
    id: i64,
    lat: u64,
    lon: u64,
)
    requires
        is_named(start.name@, "node"@),
        node_start(start.attributes@, dec) == Ok::<OsmElement, ParseErrorView>(
            OsmElement::Node { id, lat, lon },
        ),
        forall|i: int| 0 <= i < inner.len() ==> #[trigger] osm_child(inner[i]),
        is_named(end@, "node"@),
    ensures
        osm_run(seq![XmlEvent::Start(start)] + inner + seq![XmlEvent::End(end)] + rest, dec, st, d)
            == osm_run(
            rest,
            dec,
            OsmState {
                cur: None,
                tags: child_tags(Map::empty(), inner),
                way_nodes: st.way_nodes + child_refs(inner),
                members: st.members + child_members(inner),
            },
            with_node(d, NodeView { id, lat, lon, tags: child_tags(Map::empty(), inner) }),
        ),
{
    let all = seq![XmlEvent::Start(start)] + inner + seq![XmlEvent::End(end)] + rest;
    let tail = seq![XmlEvent::End(end)] + rest;
    assert(all[0] == XmlEvent::Start(start));
    assert(all.drop_first() =~= inner + tail);
    let st1 = OsmState { cur: Some(OsmElement::Node { id, lat, lon }), tags: Map::empty(), ..st };
    assert(osm_step(st, all[0], dec) == OsmStep::Go(st1, None));
    lemma_children_run(inner, tail, dec, st1, d);
    assert(tail[0] == XmlEvent::End(end));
    assert(tail.drop_first() =~= rest);
}

} // verus!
