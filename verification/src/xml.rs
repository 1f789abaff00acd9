//! XML events as the parsers read them, produced by `quick-xml` over a string
//! with text trimming on, and held as plain values.
use vstd::prelude::*;
use quick_xml::events::{BytesEnd, BytesStart, BytesText, Event};
use quick_xml::Reader;
use crate::text::string_of;

verus! {

#[verifier::external_type_specification]
#[verifier::external_body]
#[verifier::reject_recursive_types(R)]
pub struct ExXmlReader<R>(Reader<R>);

#[verifier::external_type_specification]
#[verifier::external_body]
pub struct ExBytesStart<'a>(BytesStart<'a>);

#[verifier::external_type_specification]
#[verifier::external_body]
pub struct ExBytesEnd<'a>(BytesEnd<'a>);

#[verifier::external_type_specification]
#[verifier::external_body]
pub struct ExBytesText<'a>(BytesText<'a>);

/// One attribute of an element: its key and its value bytes, entities not resolved.
pub struct XmlAttribute {
    pub key: Vec<u8>,
    pub value: Vec<u8>,
}

/// A start or empty element: its qualified name and its attributes, each
/// read as an attribute or as the message of the error met reading it.
pub struct XmlElement {
    pub name: Vec<u8>,
    pub attributes: Vec<Result<XmlAttribute, String>>,
}

/// One XML event.
pub enum XmlEvent {
    Start(XmlElement),
    Empty(XmlElement),
    End(Vec<u8>),
    /// Text with entities resolved, or the message of the error met doing so.
    Text(Result<String, String>),
    Eof,
    /// A syntax error: the reader's byte position and the error's message.
    Error { position: u64, message: String },
    /// Comments, CDATA, declarations, processing instructions, doctypes.
    Other,
}

/// A `quick-xml` reader over the bytes of a text. Besides the reader it
/// records, for the contracts, the text it reads, whether text trimming is
/// on, and how many events have been read; only the functions of this module
/// make or change one.
pub struct XmlStream<'a> {
    reader: Reader<&'a [u8]>,
    content: Ghost<Seq<char>>,
    trim: Ghost<bool>,
    read: Ghost<nat>,
}

impl<'a> XmlStream<'a> {
    /// The text the reader reads.
    pub closed spec fn content(&self) -> Seq<char> {
        self.content@
    }

    /// Whether text trimming is on.
    pub closed spec fn trim(&self) -> bool {
        self.trim@
    }

    /// How many events have been read.
    pub closed spec fn read(&self) -> nat {
        self.read@
    }
}

/// Where an event was read: the text, the trimming setting, and how many
/// events had been read before it.
pub struct EventOrigin {
    pub content: Seq<char>,
    pub trim: bool,
    pub index: nat,
}

/// A start or empty tag as `quick-xml` hands it out, with where it was read.
pub struct StartTag<'a> {
    tag: BytesStart<'a>,
    at: Ghost<EventOrigin>,
}

/// An end tag as `quick-xml` hands it out, with where it was read.
pub struct EndTag<'a> {
    tag: BytesEnd<'a>,
    at: Ghost<EventOrigin>,
}

/// Text as `quick-xml` hands it out, with where it was read.
pub struct TextPiece<'a> {
    text: BytesText<'a>,
    at: Ghost<EventOrigin>,
}

impl<'a> StartTag<'a> {
    /// Where the tag was read.
    pub closed spec fn origin(&self) -> EventOrigin {
        self.at@
    }
}

impl<'a> EndTag<'a> {
    /// Where the tag was read.
    pub closed spec fn origin(&self) -> EventOrigin {
        self.at@
    }
}

impl<'a> TextPiece<'a> {
    /// Where the text was read.
    pub closed spec fn origin(&self) -> EventOrigin {
        self.at@
    }
}

/// An event as `quick-xml` hands it out, before its parts are read.
pub enum RawEvent<'a> {
    Start(StartTag<'a>),
    Empty(StartTag<'a>),
    End(EndTag<'a>),
    Text(TextPiece<'a>),
    Eof,
    Failed(String),
    Other,
}

/// The kind of an event, with the message of an error.
pub enum RawKind {
    Start,
    Empty,
    End,
    Text,
    Eof,
    Failed(Seq<char>),
    Other,
}

/// The kind of the event that `Reader::read_event` gives as the `k`-th
/// event (from 0) of a reader made by `Reader::from_str(content)` whose text
/// trimming was set to `trim` before reading; a failure comes with the
/// `Display` text of the error.
pub uninterp spec fn xml_event_kind(content: Seq<char>, trim: bool, k: nat) -> RawKind;

/// `Reader::buffer_position` after `n` events were read from such a reader.
pub uninterp spec fn xml_position(content: Seq<char>, trim: bool, n: nat) -> u64;

/// `BytesStart::name` of the tag read as the `k`-th event of such a reader.
pub uninterp spec fn xml_start_name(content: Seq<char>, trim: bool, k: nat) -> Seq<u8>;

/// `BytesStart::attributes` of the tag read as the `k`-th event of such a
/// reader: each attribute's key and raw value, or the `Display` text of the
/// error met reading it.
pub uninterp spec fn xml_start_attributes(content: Seq<char>, trim: bool, k: nat) -> Seq<
    Result<(Seq<u8>, Seq<u8>), Seq<char>>,
>;

/// `BytesEnd::name` of the tag read as the `k`-th event of such a reader.
pub uninterp spec fn xml_end_name(content: Seq<char>, trim: bool, k: nat) -> Seq<u8>;

/// `BytesText::unescape` of the text read as the `k`-th event of such a
/// reader, or the `Display` text of the error met.
pub uninterp spec fn xml_text(content: Seq<char>, trim: bool, k: nat) -> Result<Seq<char>, Seq<char>>;

/// The kind of a raw event.
pub open spec fn raw_kind(e: RawEvent) -> RawKind {
    match e {
        RawEvent::Start(_) => RawKind::Start,
        RawEvent::Empty(_) => RawKind::Empty,
        RawEvent::End(_) => RawKind::End,
        RawEvent::Text(_) => RawKind::Text,
        RawEvent::Eof => RawKind::Eof,
        RawEvent::Failed(m) => RawKind::Failed(m@),
        RawEvent::Other => RawKind::Other,
    }
}

/// Whether the parts of a raw event come from `at`.
pub open spec fn raw_from(e: RawEvent, at: EventOrigin) -> bool {
    match e {
        RawEvent::Start(t) => t.origin() == at,
        RawEvent::Empty(t) => t.origin() == at,
        RawEvent::End(t) => t.origin() == at,
        RawEvent::Text(t) => t.origin() == at,
        _ => true,
    }
}

/// The ASCII bytes of `s` (each character taken as one byte).
pub open spec fn ascii_bytes(s: Seq<char>) -> Seq<u8> {
    s.map_values(|c: char| c as u8)
}

/// Whether an element or end name is the name `s`.
pub open spec fn is_named(name: Seq<u8>, s: Seq<char>) -> bool {
    name == ascii_bytes(s)
}

/// Whether `e` ends the reading: end of input or a syntax error.
pub open spec fn is_final(e: XmlEvent) -> bool {
    e is Eof || e is Error
}

/// `Reader::from_str` on `content`: a reader over its bytes, with the
/// default configuration (no text trimming), that has read nothing.
#[verifier::external_body]
fn xml_stream<'a>(content: &'a str) -> (s: XmlStream<'a>)
    ensures
        s.content() == content@,
        !s.trim(),
        s.read() == 0,
{
    XmlStream { reader: Reader::from_str(content), content: Ghost(content@), trim: Ghost(false), read: Ghost(0) }
}

/// `Config::trim_text`: whether leading and trailing whitespace of text is
/// dropped; set before any event is read.
#[verifier::external_body]
fn set_trim_text<'a>(s: &mut XmlStream<'a>, trim: bool)
    requires
        old(s).read() == 0,
    ensures
        final(s).content() == old(s).content(),
        final(s).trim() == trim,
        final(s).read() == 0,
{
    s.reader.config_mut().trim_text(trim);
    s.trim = Ghost(trim);
}

/// `Reader::read_event`: the next event, told apart by its kind; an error
/// is handed out as its `Display` text.
#[verifier::external_body]
fn read_raw_event<'a>(s: &mut XmlStream<'a>) -> (r: RawEvent<'a>)
    ensures
        final(s).content() == old(s).content(),
        final(s).trim() == old(s).trim(),
        final(s).read() == old(s).read() + 1,
        raw_kind(r) == xml_event_kind(old(s).content(), old(s).trim(), old(s).read()),
        raw_from(r, EventOrigin { content: old(s).content(), trim: old(s).trim(), index: old(s).read() }),
{
    let at = Ghost(EventOrigin { content: s.content@, trim: s.trim@, index: s.read@ });
    s.read = Ghost(s.read@ + 1);
    match s.reader.read_event() {
        Ok(Event::Start(e)) => RawEvent::Start(StartTag { tag: e, at }),
        Ok(Event::Empty(e)) => RawEvent::Empty(StartTag { tag: e, at }),
        Ok(Event::End(e)) => RawEvent::End(EndTag { tag: e, at }),
        Ok(Event::Text(e)) => RawEvent::Text(TextPiece { text: e, at }),
        Ok(Event::Eof) => RawEvent::Eof,
        Ok(_) => RawEvent::Other,
        Err(e) => RawEvent::Failed(e.to_string()),
    }
}

/// `Reader::buffer_position`: how many bytes the reader has consumed.
#[verifier::external_body]
fn reader_position<'a>(s: &XmlStream<'a>) -> (r: u64)
    ensures
        r == xml_position(s.content(), s.trim(), s.read()),
{
    s.reader.buffer_position()
}

/// `BytesStart::name`: the element's qualified name as bytes.
#[verifier::external_body]
fn start_name<'a>(t: &StartTag<'a>) -> (r: Vec<u8>)
    ensures
        r@ == xml_start_name(t.origin().content, t.origin().trim, t.origin().index),
{
    t.tag.name().as_ref().to_vec()
}

/// `BytesStart::attributes`: each attribute's key and raw value, or the
/// `Display` text of the error met reading it.
#[verifier::external_body]
fn start_attributes<'a>(t: &StartTag<'a>) -> (r: Vec<Result<XmlAttribute, String>>)
    ensures
        attribute_views(r@) == xml_start_attributes(t.origin().content, t.origin().trim, t.origin().index),
{
    t.tag.attributes().map(
        |a| match a {
            Ok(a) => Ok(XmlAttribute { key: a.key.as_ref().to_vec(), value: a.value.to_vec() }),
            Err(err) => Err(err.to_string()),
        },
    ).collect()
}

/// `BytesEnd::name`: the end tag's qualified name as bytes.
#[verifier::external_body]
fn end_name<'a>(t: &EndTag<'a>) -> (r: Vec<u8>)
    ensures
        r@ == xml_end_name(t.origin().content, t.origin().trim, t.origin().index),
{
    t.tag.name().as_ref().to_vec()
}

/// `BytesText::unescape`: the text with entities resolved, or the `Display`
/// text of the error met doing so.
#[verifier::external_body]
fn text_unescaped<'a>(t: &TextPiece<'a>) -> (r: Result<String, String>)
    ensures
        text_view(r) == xml_text(t.origin().content, t.origin().trim, t.origin().index),
{
    match t.text.unescape() {
        Ok(v) => Ok(v.into_owned()),
        Err(err) => Err(err.to_string()),
    }
}

/// Whether `name` is the ASCII name `s`.
pub fn name_is(name: &[u8], s: &str) -> (b: bool)
    ensures
        b == is_named(name@, s@),
{
    let cs = crate::text::chars_of(s);
    if name.len() != cs.len() {
        assert(ascii_bytes(s@).len() == cs@.len());
        return false;
    }
    let n = name.len();
    for i in 0..n
        invariant
            n == name@.len(),
            n == cs@.len(),
            cs@ == s@,
            forall|j: int| 0 <= j < i ==> name@[j] == (cs@[j] as u8),
    {
        let c = cs[i];
        if name[i] != (c as u8) {
            assert(ascii_bytes(s@)[i as int] == (c as u8));
            return false;
        }
    }
    assert(name@ =~= ascii_bytes(s@));
    true
}

/// An attribute as plain values: key and raw value, or an error message.
pub open spec fn attribute_views(v: Seq<Result<XmlAttribute, String>>) -> Seq<
    Result<(Seq<u8>, Seq<u8>), Seq<char>>,
> {
    v.map_values(
        |a: Result<XmlAttribute, String>|
            match a {
                Ok(x) => Ok((x.key@, x.value@)),
                Err(m) => Err(m@),
            },
    )
}

/// A text or its error, as plain values.
pub open spec fn text_view(t: Result<String, String>) -> Result<Seq<char>, Seq<char>> {
    match t {
        Ok(v) => Ok(v@),
        Err(m) => Err(m@),
    }
}

/// An element as plain values.
pub struct ElementView {
    pub name: Seq<u8>,
    pub attributes: Seq<Result<(Seq<u8>, Seq<u8>), Seq<char>>>,
}

/// An XML event as plain values.
pub enum XmlEventView {
    Start(ElementView),
    Empty(ElementView),
    End(Seq<u8>),
    Text(Result<Seq<char>, Seq<char>>),
    Eof,
    Error { position: u64, message: Seq<char> },
    Other,
}

/// An element as plain values.
pub open spec fn element_view(e: XmlElement) -> ElementView {
    ElementView { name: e.name@, attributes: attribute_views(e.attributes@) }
}

/// An event as plain values.
pub open spec fn event_view(e: XmlEvent) -> XmlEventView {
    match e {
        XmlEvent::Start(el) => XmlEventView::Start(element_view(el)),
        XmlEvent::Empty(el) => XmlEventView::Empty(element_view(el)),
        XmlEvent::End(n) => XmlEventView::End(n@),
        XmlEvent::Text(t) => XmlEventView::Text(text_view(t)),
        XmlEvent::Eof => XmlEventView::Eof,
        XmlEvent::Error { position, message } => XmlEventView::Error { position, message: message@ },
        XmlEvent::Other => XmlEventView::Other,
    }
}

/// Events as plain values.
pub open spec fn event_views(v: Seq<XmlEvent>) -> Seq<XmlEventView> {
    v.map_values(|e: XmlEvent| event_view(e))
}

/// The `k`-th event (from 0) of `content` read with text trimming on, with
/// its parts read; an error comes with the reader's position after it.
pub open spec fn xml_event_at(content: Seq<char>, k: nat) -> XmlEventView {
    match xml_event_kind(content, true, k) {
        RawKind::Start => XmlEventView::Start(
            ElementView {
                name: xml_start_name(content, true, k),
                attributes: xml_start_attributes(content, true, k),
            },
        ),
        RawKind::Empty => XmlEventView::Empty(
            ElementView {
                name: xml_start_name(content, true, k),
                attributes: xml_start_attributes(content, true, k),
            },
        ),
        RawKind::End => XmlEventView::End(xml_end_name(content, true, k)),
        RawKind::Text => XmlEventView::Text(xml_text(content, true, k)),
        RawKind::Eof => XmlEventView::Eof,
        RawKind::Failed(m) => XmlEventView::Error { position: xml_position(content, true, k + 1), message: m },
        RawKind::Other => XmlEventView::Other,
    }
}

/// Whether an event ends the reading.
pub open spec fn view_is_final(e: XmlEventView) -> bool {
    e is Eof || e is Error
}

/// The events of `content` from the `k`-th on, up to and including the first
/// end of input or error, reading at most `left` more events after the
/// `k`-th; when that bound is met the list ends with `Eof`.
pub open spec fn xml_events_from(content: Seq<char>, k: nat, left: nat) -> Seq<XmlEventView>
    decreases left,
{
    let e = xml_event_at(content, k);
    if view_is_final(e) {
        seq![e]
    } else if left == 0 {
        seq![e, XmlEventView::Eof]
    } else {
        seq![e] + xml_events_from(content, k + 1, (left - 1) as nat)
    }
}

/// Reads the parts of a start or empty element.
fn read_element<'a>(t: &StartTag<'a>) -> (r: XmlElement)
    ensures
        element_view(r) == (ElementView {
            name: xml_start_name(t.origin().content, t.origin().trim, t.origin().index),
            attributes: xml_start_attributes(t.origin().content, t.origin().trim, t.origin().index),
        }),
{
    XmlElement { name: start_name(t), attributes: start_attributes(t) }
}

/// The XML events of `content`, read with text trimming on, up to and
/// including the first end of input or syntax error.
///
/// Reading stops after `content.len() + 1` events: every event but the last
/// consumes input, so the bound is not reached; should it be, the list ends
/// with `Eof`.
pub fn read_xml_events(content: &str) -> (r: Vec<XmlEvent>)
    ensures
        event_views(r@) == xml_events_from(content@, 0, content.len() as nat),
        r@.len() >= 1,
        is_final(r@.last()),
        forall|i: int| 0 <= i < r@.len() - 1 ==> !is_final(#[trigger] r@[i]),
{
    let mut reader = xml_stream(content);
    set_trim_text(&mut reader, true);
    let mut events: Vec<XmlEvent> = Vec::new();
    let fuel = content.len();
    let mut used: usize = 0;
    loop
        invariant
            used <= fuel,
            fuel == content.len(),
            reader.content() == content@,
            reader.trim(),
            reader.read() == used,
            event_views(events@) + xml_events_from(content@, used as nat, (fuel - used) as nat)
                == xml_events_from(content@, 0, fuel as nat),
            forall|i: int| 0 <= i < events@.len() ==> !is_final(#[trigger] events@[i]),
        decreases fuel - used,
    {
        let ghost before = event_views(events@);
        let raw = read_raw_event(&mut reader);
        let ev = match raw {
            RawEvent::Start(t) => XmlEvent::Start(read_element(&t)),
            RawEvent::Empty(t) => XmlEvent::Empty(read_element(&t)),
            RawEvent::End(t) => XmlEvent::End(end_name(&t)),
            RawEvent::Text(t) => XmlEvent::Text(text_unescaped(&t)),
            RawEvent::Eof => XmlEvent::Eof,
            RawEvent::Failed(message) => XmlEvent::Error { position: reader_position(&reader), message },
            RawEvent::Other => XmlEvent::Other,
        };
        assert(event_view(ev) == xml_event_at(content@, used as nat));
        let stop = match ev {
            XmlEvent::Eof => true,
            XmlEvent::Error { .. } => true,
            _ => false,
        };
        let ghost rest = xml_events_from(content@, used as nat, (fuel - used) as nat);
        events.push(ev);
        assert(event_views(events@) =~= before.push(event_view(ev)));
        if stop {
            assert(rest == seq![event_view(ev)]);
            assert(event_views(events@) =~= before + rest);
            return events;
        }
        if used == fuel {
            let ghost mid = event_views(events@);
            events.push(XmlEvent::Eof);
            assert(event_views(events@) =~= mid.push(XmlEventView::Eof));
            assert(rest == seq![event_view(ev), XmlEventView::Eof]);
            assert(event_views(events@) =~= before + rest);
            return events;
        }
        assert(rest == seq![event_view(ev)] + xml_events_from(
            content@,
            (used + 1) as nat,
            (fuel - (used + 1)) as nat,
        ));
        assert(event_views(events@) + xml_events_from(content@, (used + 1) as nat, (fuel - (used + 1)) as nat)
            =~= before + rest);
        used = used + 1;
    }
}

/// The decimal digits of `n`.
pub open spec fn decimal(n: nat) -> Seq<char>
    decreases n,
{
    if n < 10 {
        seq![digit_char(n)]
    } else {
        decimal(n / 10).push(digit_char(n % 10))
    }
}

/// The character of the decimal digit `d`.
pub open spec fn digit_char(d: nat) -> char {
    if d == 0 { '0' }
    else if d == 1 { '1' }
    else if d == 2 { '2' }
    else if d == 3 { '3' }
    else if d == 4 { '4' }
    else if d == 5 { '5' }
    else if d == 6 { '6' }
    else if d == 7 { '7' }
    else if d == 8 { '8' }
    else { '9' }
}

fn digit(d: u64) -> (c: char)
    requires
        d < 10,
    ensures
        c == digit_char(d as nat),
{
    if d == 0 { '0' }
    else if d == 1 { '1' }
    else if d == 2 { '2' }
    else if d == 3 { '3' }
    else if d == 4 { '4' }
    else if d == 5 { '5' }
    else if d == 6 { '6' }
    else if d == 7 { '7' }
    else if d == 8 { '8' }
    else { '9' }
}

/// The decimal digits of `n`, as `{}` formats an unsigned integer.
pub fn decimal_chars(n: u64) -> (r: Vec<char>)
    ensures
        r@ == decimal(n as nat),
    decreases n,
{
    if n < 10 {
        vec![digit(n)]
    } else {
        let mut r = decimal_chars(n / 10);
        r.push(digit(n % 10));
        r
    }
}

/// The message of a syntax error: "XML error at position {position}: {message}".
pub open spec fn xml_error_message(position: u64, message: Seq<char>) -> Seq<char> {
    "XML error at position "@ + decimal(position as nat) + ": "@ + message
}

/// Builds `xml_error_message`.
pub fn xml_error_text(position: u64, message: &String) -> (r: String)
    ensures
        r@ == xml_error_message(position, message@),
{
    let mut cs = crate::text::chars_of("XML error at position ");
    let mut d = decimal_chars(position);
    cs.append(&mut d);
    let mut sep = crate::text::chars_of(": ");
    cs.append(&mut sep);
    let mut m = crate::text::chars_of(message.as_str());
    cs.append(&mut m);
    string_of(cs.as_slice())
}

} // verus!
