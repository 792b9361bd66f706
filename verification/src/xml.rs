//! The XML event stream of a Live set, read with quick-xml.
//!
//! A document is read as a sequence of events. `xml_step(source, i)` names
//! what the `i`-th read returns on a fresh reader over `source` (with text
//! trimming on, as every scan of this library uses). The scans of this
//! library are state machines over that sequence; `scan_events` states one
//! such machine as a spec function.
use vstd::prelude::*;
use vstd::utf8::*;
use quick_xml::events::{BytesStart, Event};
use quick_xml::Reader;

verus! {

/// One attribute of an element, as raw bytes.
pub struct XmlAttribute {
    pub key: Vec<u8>,
    pub value: Vec<u8>,
}

/// A start or empty element tag: its raw name and its attributes, in order.
/// An attribute that quick-xml could not read is `None`.
pub struct XmlElement {
    pub name: Vec<u8>,
    pub attributes: Vec<Option<XmlAttribute>>,
}

/// One event of the XML stream.
pub enum XmlEvent {
    Start(XmlElement),
    Empty(XmlElement),
    End(Vec<u8>),
    /// Raw (still escaped) character data.
    Text(Vec<u8>),
    Eof,
    /// Declarations, comments, CDATA, processing instructions, DOCTYPE.
    Other,
}

/// quick-xml refused the document at this point.
pub struct XmlSyntaxError;

#[verifier::external_type_specification]
#[verifier::external_body]
#[verifier::reject_recursive_types(R)]
pub struct ExXmlReader<R>(Reader<R>);

/// What the `index`-th call of `read_event_into` returns on a reader made by
/// `Reader::from_reader(source)` with `trim_text(true)`, converted to `XmlEvent`.
pub uninterp spec fn xml_step(source: Seq<u8>, index: nat) -> Result<XmlEvent, XmlSyntaxError>;

/// The document a reader reads.
pub uninterp spec fn reader_source(reader: Reader<&[u8]>) -> Seq<u8>;

/// How many events a reader has handed out.
pub uninterp spec fn reader_steps(reader: Reader<&[u8]>) -> nat;

/// A quick-xml reader over `source` (`Reader::from_reader`, then `trim_text(true)`).
/// Claimed: the reader reads `source` and has handed out no event yet.
#[verifier::external_body]
pub(crate) fn xml_reader<'a>(source: &'a [u8]) -> (reader: Reader<&'a [u8]>)
    ensures
        reader_source(reader) == source@,
        reader_steps(reader) == 0,
{
    let mut reader = Reader::from_reader(source);
    reader.trim_text(true);
    reader
}

/// The next event of the reader (`Reader::read_event_into`), converted to `XmlEvent`.
/// Claimed: the result is `xml_step` at the reader's step count, which goes up by
/// one; the content of a text event is a segment of the document, so no longer than it.
#[verifier::external_body]
pub(crate) fn read_xml_event(reader: &mut Reader<&[u8]>) -> (res: Result<XmlEvent, XmlSyntaxError>)
    ensures
        res == xml_step(reader_source(*old(reader)), reader_steps(*old(reader))),
        reader_source(*final(reader)) == reader_source(*old(reader)),
        reader_steps(*final(reader)) == reader_steps(*old(reader)) + 1,
        res matches Ok(XmlEvent::Text(b)) ==> b@.len() <= reader_source(*old(reader)).len(),
{
    let mut buf = vec![];
    let el = |e: BytesStart| XmlElement {
        name: e.name().0.to_vec(),
        attributes: e.attributes().map(|a| a.ok().map(|a| XmlAttribute { key: a.key.0.to_vec(), value: a.value.to_vec() })).collect(),
    };
    Ok(match reader.read_event_into(&mut buf).map_err(|_| XmlSyntaxError)? {
        Event::Start(e) => XmlEvent::Start(el(e)),
        Event::Empty(e) => XmlEvent::Empty(el(e)),
        Event::End(e) => XmlEvent::End(e.to_vec()),
        Event::Text(e) => XmlEvent::Text(e.to_vec()),
        Event::Eof => XmlEvent::Eof,
        _ => XmlEvent::Other,
    })
}

/// The event at position `index` of a scan over `source`, or `None` past the
/// last position a scan reads (`source.len()`).
pub open spec fn event_at(source: Seq<u8>, index: nat) -> Option<Result<XmlEvent, XmlSyntaxError>> {
    if index <= source.len() {
        Some(xml_step(source, index))
    } else {
        None
    }
}

/// A reader that hands out the events of a document, at most
/// `source.len() + 1` of them.
pub struct XmlCursor<'a> {
    reader: Reader<&'a [u8]>,
    steps: usize,
    exhausted: bool,
    len: usize,
}

impl<'a> XmlCursor<'a> {
    /// The document read.
    pub closed spec fn source(&self) -> Seq<u8> {
        reader_source(self.reader)
    }

    /// The position of the next event.
    pub closed spec fn position(&self) -> nat {
        if self.exhausted {
            (self.steps + 1) as nat
        } else {
            self.steps as nat
        }
    }

    pub closed spec fn wf(&self) -> bool {
        &&& reader_steps(self.reader) == self.position()
        &&& self.len == reader_source(self.reader).len()
        &&& self.steps <= self.len
        &&& self.exhausted ==> self.steps == self.len
    }

    /// A cursor never passes the end of its scan.
    pub proof fn lemma_position_bound(&self)
        requires
            self.wf(),
        ensures
            self.position() <= self.source().len() + 1,
    {
    }

    pub fn new(source: &'a [u8]) -> (res: Self)
        ensures
            res.wf(),
            res.source() == source@,
            res.position() == 0,
    {
        XmlCursor { reader: xml_reader(source), steps: 0, exhausted: false, len: source.len() }
    }

    /// The next event, or `None` once the scan has read `source.len() + 1` events.
    pub fn next(&mut self) -> (res: Option<Result<XmlEvent, XmlSyntaxError>>)
        requires
            old(self).wf(),
        ensures
            final(self).wf(),
            final(self).source() == old(self).source(),
            res == event_at(old(self).source(), old(self).position()),
            res matches Some(Ok(XmlEvent::Text(b))) ==> b@.len() <= old(self).source().len(),
            final(self).position() == if old(self).position() <= old(self).source().len() {
                old(self).position() + 1
            } else {
                old(self).position()
            },
    {
        if self.exhausted {
            return None;
        }
        let ev = read_xml_event(&mut self.reader);
        if self.steps == self.len {
            self.exhausted = true;
        } else {
            self.steps = self.steps + 1;
        }
        Some(ev)
    }
}

/// One step of `scan_events` seen through `event_at`.
pub proof fn lemma_scan_at<S, T>(
    source: Seq<u8>,
    index: nat,
    state: S,
    step: spec_fn(S, Result<XmlEvent, XmlSyntaxError>) -> Scan<S, T>,
    exhausted: T,
)
    ensures
        scan_events(source, index, state, step, exhausted) == match event_at(source, index) {
            None => exhausted,
            Some(ev) => match step(state, ev) {
                Scan::Continue(next) => scan_events(source, index + 1, next, step, exhausted),
                Scan::Done(r) => r,
            },
        },
{
}

/// What `quick_xml::escape::unescape` makes of `raw`: entity and character
/// references replaced, or `None` where it refuses a reference.
pub uninterp spec fn xml_unescaped(raw: Seq<char>) -> Option<Seq<char>>;

/// Resolves the escapes of `raw` (`quick_xml::escape::unescape`).
/// Claimed: the result is `xml_unescaped` of the argument.
#[verifier::external_body]
pub(crate) fn xml_unescape(raw: &str) -> (res: Option<String>)
    ensures
        match res {
            Some(s) => xml_unescaped(raw@) == Some(s@),
            None => xml_unescaped(raw@) is None,
        },
{
    quick_xml::escape::unescape(raw).ok().map(|s| s.into_owned())
}

/// One step of a scan: go on with a new state, or stop with a result.
pub enum Scan<S, T> {
    Continue(S),
    Done(T),
}

/// The result of running `step` over the events of `source` from `index` on,
/// starting in `state`. A scan reads at most `source.len() + 1` events (quick-xml
/// hands out at least one byte per event before `Eof`); a scan that has not
/// stopped by then ends with `exhausted`.
pub open spec fn scan_events<S, T>(
    source: Seq<u8>,
    index: nat,
    state: S,
    step: spec_fn(S, Result<XmlEvent, XmlSyntaxError>) -> Scan<S, T>,
    exhausted: T,
) -> T
    decreases source.len() + 1 - index,
{
    if index > source.len() {
        exhausted
    } else {
        match step(state, xml_step(source, index)) {
            Scan::Continue(next) => scan_events(source, index + 1, next, step, exhausted),
            Scan::Done(r) => r,
        }
    }
}

/// One step of `scan_events`: the scan at `index` is decided by the event there.
pub proof fn lemma_scan_step<S, T>(
    source: Seq<u8>,
    index: nat,
    state: S,
    step: spec_fn(S, Result<XmlEvent, XmlSyntaxError>) -> Scan<S, T>,
    exhausted: T,
)
    requires
        index <= source.len(),
    ensures
        scan_events(source, index, state, step, exhausted) == match step(state, xml_step(source, index)) {
            Scan::Continue(next) => scan_events(source, index + 1, next, step, exhausted),
            Scan::Done(r) => r,
        },
{
}

/// The event opens an element named `name`.
pub open spec fn opens(ev: Result<XmlEvent, XmlSyntaxError>, name: Seq<char>) -> bool {
    ev matches Ok(XmlEvent::Start(el)) && utf8_text(el.name@) == Some(name)
}

/// The event closes an element named `name`.
pub open spec fn closes(ev: Result<XmlEvent, XmlSyntaxError>, name: Seq<char>) -> bool {
    ev matches Ok(XmlEvent::End(n)) && utf8_text(n@) == Some(name)
}

/// The event is character data reading `text` (escapes not yet resolved).
pub open spec fn has_text(ev: Result<XmlEvent, XmlSyntaxError>, text: Seq<char>) -> bool {
    ev matches Ok(XmlEvent::Text(b)) && utf8_text(b@) == Some(text)
}

/// The event is an empty element named `name` whose one attribute is `Value="value"`.
pub open spec fn empty_with_value(ev: Result<XmlEvent, XmlSyntaxError>, name: Seq<char>, value: Seq<char>) -> bool {
    match ev {
        Ok(XmlEvent::Empty(el)) => utf8_text(el.name@) == Some(name) && el.attributes@.len() == 1 && match el.attributes@[0] {
            Some(a) => utf8_text(a.key@) == Some("Value"@) && utf8_text(a.value@) == Some(value),
            None => false,
        },
        _ => false,
    }
}

/// The characters that the bytes of an XML name or value decode to, when
/// they are valid UTF-8.
pub open spec fn utf8_text(bytes: Seq<u8>) -> Option<Seq<char>> {
    if valid_utf8(bytes) {
        Some(decode_utf8(bytes))
    } else {
        None
    }
}

} // verus!
