//! Finding the plugins a Live set uses.
//!
//! A plugin device appears in the XML as a `SourceContext` holding a
//! `BranchDeviceId` (the device identifier), followed inside a `PluginDesc`
//! by a `VstPluginInfo` or `Vst3PluginInfo` element naming the plugin.
use vstd::prelude::*;
use vstd::string::StringSliceAdditionalSpecFns;
use crate::errors::XmlParseError;
use crate::types::{DbPlugin, Plugin};
use crate::tags::{attribute_value, last_value, parse_event_attributes, attributes_text};
use crate::text::{bytes_eq, starts_with, str_eq, utf8_string};
use crate::xml::{
    closes, empty_with_value, event_at, has_text, lemma_scan_at, lemma_scan_step, opens, scan_events, utf8_text, xml_step, xml_unescape,
    xml_unescaped, Scan, XmlAttribute, XmlCursor, XmlEvent, XmlSyntaxError,
};

verus! {

/// The kind of a plugin, read from its device identifier.
#[derive(Clone, Copy, Debug, PartialEq, Eq, Structural)]
pub enum PluginFormat {
    VST3Instrument,
    VST3AudioFx,
    VST2Instrument,
    VST2AudioFx,
}

/// A plugin as the Live set names it.
#[derive(Debug)]
pub struct PluginInfo {
    pub name: String,
    pub dev_identifier: String,
    pub plugin_format: PluginFormat,
}

/// A plugin as text: name, device identifier, format.
pub type PluginInfoView = (Seq<char>, Seq<char>, PluginFormat);

impl View for PluginInfo {
    type V = PluginInfoView;

    open spec fn view(&self) -> PluginInfoView {
        (self.name@, self.dev_identifier@, self.plugin_format)
    }
}

pub open spec fn infos_view(s: Seq<PluginInfo>) -> Seq<PluginInfoView> {
    s.map_values(|p: PluginInfo| p@)
}

/// The format named by the prefix of a device identifier.
pub open spec fn plugin_format_of(dev_identifier: Seq<char>) -> Option<PluginFormat> {
    if "device:vst3:instr:"@.is_prefix_of(dev_identifier) {
        Some(PluginFormat::VST3Instrument)
    } else if "device:vst3:audiofx:"@.is_prefix_of(dev_identifier) {
        Some(PluginFormat::VST3AudioFx)
    } else if "device:vst:instr:"@.is_prefix_of(dev_identifier) {
        Some(PluginFormat::VST2Instrument)
    } else if "device:vst:audiofx:"@.is_prefix_of(dev_identifier) {
        Some(PluginFormat::VST2AudioFx)
    } else {
        None
    }
}

/// The plugin format that a device identifier names by its prefix
/// (`device:vst3:instr:`, `device:vst3:audiofx:`, `device:vst:instr:`,
/// `device:vst:audiofx:`), or `None` for any other identifier.
pub fn parse_plugin_format(dev_identifier: &str) -> (res: Option<PluginFormat>)
    ensures
        res == plugin_format_of(dev_identifier@),
{
    if starts_with(dev_identifier, "device:vst3:instr:") {
        Some(PluginFormat::VST3Instrument)
    } else if starts_with(dev_identifier, "device:vst3:audiofx:") {
        Some(PluginFormat::VST3AudioFx)
    } else if starts_with(dev_identifier, "device:vst:instr:") {
        Some(PluginFormat::VST2Instrument)
    } else if starts_with(dev_identifier, "device:vst:audiofx:") {
        Some(PluginFormat::VST2AudioFx)
    } else {
        None
    }
}

/// Text with its escapes resolved; a failure is `err`.
pub open spec fn unescaped_or(raw: Seq<u8>, err: XmlParseError) -> Result<Seq<char>, XmlParseError> {
    match utf8_text(raw) {
        None => Err(err),
        Some(t) => match xml_unescaped(t) {
            None => Err(err),
            Some(u) => Ok(u),
        },
    }
}

/// The unescaped value of the first attribute whose raw key is `Value`.
pub open spec fn value_attribute(attrs: Seq<Option<XmlAttribute>>) -> Result<Seq<char>, XmlParseError>
    decreases attrs.len(),
{
    if attrs.len() == 0 {
        Err(XmlParseError::InvalidStructure)
    } else {
        match attrs[0] {
            None => Err(XmlParseError::AttrError),
            Some(a) => if a.key@ == "Value".spec_bytes() {
                unescaped_or(a.value@, XmlParseError::QuickXmlError)
            } else {
                value_attribute(attrs.drop_first())
            },
        }
    }
}

/// The value an event carries: unescaped text, or the `Value` attribute of a tag.
pub open spec fn value_of_event(ev: Result<XmlEvent, XmlSyntaxError>) -> Result<Seq<char>, XmlParseError> {
    match ev {
        Err(_) => Err(XmlParseError::QuickXmlError),
        Ok(XmlEvent::Text(b)) => unescaped_or(b@, XmlParseError::InvalidStructure),
        Ok(XmlEvent::Empty(el)) => value_attribute(el.attributes@),
        Ok(XmlEvent::Start(el)) => value_attribute(el.attributes@),
        Ok(_) => Err(XmlParseError::InvalidStructure),
    }
}

/// Where the plugin scan stands.
pub enum PluginMode {
    /// Looking for source contexts and plugin descriptions.
    Main,
    /// Inside a `SourceContext` opened at `start_depth`.
    SourceContext { start_depth: i32, in_value: bool, in_branch: bool },
    /// Inside a `VstPluginInfo` or `Vst3PluginInfo` opened at `start_depth`.
    PluginInfo { start_depth: i32, dev_id: Seq<char>, format: PluginFormat, name: Seq<char> },
    /// The next event holds the plugin's name.
    ReadName { start_depth: i32, dev_id: Seq<char>, format: PluginFormat },
}

/// The state of the plugin scan.
pub struct PluginScan {
    pub mode: PluginMode,
    pub depth: i32,
    /// The device identifier of the last source context, until a plugin takes it.
    pub context: Option<Seq<char>>,
    pub in_plugin_desc: bool,
    pub found: Seq<PluginInfoView>,
}

pub open spec fn inc(d: i32) -> i32 {
    if d == i32::MAX { i32::MIN } else { (d + 1) as i32 }
}

pub open spec fn dec(d: i32) -> i32 {
    if d == i32::MIN { i32::MAX } else { (d - 1) as i32 }
}

pub type PluginResult = Result<Seq<PluginInfoView>, XmlParseError>;

/// The state after a `VstPluginInfo`/`Vst3PluginInfo` start tag (already
/// counted in `d`) takes the source context `dev`.
pub open spec fn plugin_info_entry(s: PluginScan, dev: Seq<char>, d: i32) -> PluginScan {
    match plugin_format_of(dev) {
        None => PluginScan { depth: d, context: None, mode: PluginMode::Main, ..s },
        Some(f) => PluginScan {
            depth: d,
            context: None,
            mode: PluginMode::PluginInfo { start_depth: d, dev_id: dev, format: f, name: Seq::empty() },
            ..s
        },
    }
}

pub open spec fn main_step(s: PluginScan, ev: Result<XmlEvent, XmlSyntaxError>) -> Scan<PluginScan, PluginResult> {
    match ev {
        Err(_) => Scan::Done(Err(XmlParseError::QuickXmlError)),
        Ok(XmlEvent::Start(el)) => match utf8_text(el.name@) {
            None => Scan::Done(Err(XmlParseError::Utf8Error)),
            Some(n) => {
                let d = inc(s.depth);
                if n == "SourceContext"@ {
                    Scan::Continue(PluginScan {
                        depth: d,
                        mode: PluginMode::SourceContext { start_depth: d, in_value: false, in_branch: false },
                        ..s
                    })
                } else if n == "PluginDesc"@ {
                    Scan::Continue(PluginScan { depth: d, in_plugin_desc: true, ..s })
                } else if (n == "VstPluginInfo"@ || n == "Vst3PluginInfo"@) && s.in_plugin_desc {
                    match s.context {
                        None => Scan::Continue(PluginScan { depth: d, ..s }),
                        Some(c) => Scan::Continue(plugin_info_entry(s, c, d)),
                    }
                } else {
                    Scan::Continue(PluginScan { depth: d, ..s })
                }
            },
        },
        Ok(XmlEvent::End(name)) => match utf8_text(name@) {
            None => Scan::Done(Err(XmlParseError::Utf8Error)),
            Some(n) => if n == "PluginDesc"@ {
                Scan::Continue(PluginScan { depth: dec(s.depth), in_plugin_desc: false, ..s })
            } else {
                Scan::Continue(PluginScan { depth: dec(s.depth), ..s })
            },
        },
        Ok(XmlEvent::Eof) => Scan::Done(Ok(s.found)),
        Ok(_) => Scan::Continue(s),
    }
}

pub open spec fn source_context_step(s: PluginScan, start: i32, in_value: bool, in_branch: bool, ev: Result<XmlEvent, XmlSyntaxError>)
    -> Scan<PluginScan, PluginResult> {
    let here = |d: i32, v: bool, b: bool| PluginScan {
        depth: d,
        mode: PluginMode::SourceContext { start_depth: start, in_value: v, in_branch: b },
        ..s
    };
    match ev {
        Err(_) => Scan::Done(Err(XmlParseError::QuickXmlError)),
        Ok(XmlEvent::Start(el)) => match utf8_text(el.name@) {
            None => Scan::Done(Err(XmlParseError::Utf8Error)),
            Some(n) => {
                let d = inc(s.depth);
                if n == "Value"@ {
                    Scan::Continue(here(d, true, in_branch))
                } else if n == "BranchSourceContext"@ && in_value {
                    Scan::Continue(here(d, in_value, true))
                } else {
                    Scan::Continue(here(d, in_value, in_branch))
                }
            },
        },
        Ok(XmlEvent::Empty(el)) => if in_branch {
            match utf8_text(el.name@) {
                None => Scan::Done(Err(XmlParseError::Utf8Error)),
                Some(n) => if n == "BranchDeviceId"@ {
                    match attributes_text(el.attributes@) {
                        Err(e) => Scan::Done(Err(e)),
                        Ok(p) => match last_value(p, "Value"@) {
                            Some(v) => Scan::Continue(PluginScan { mode: PluginMode::Main, context: Some(v), ..s }),
                            None => Scan::Continue(s),
                        },
                    }
                } else {
                    Scan::Continue(s)
                },
            }
        } else {
            Scan::Continue(s)
        },
        Ok(XmlEvent::End(name)) => match utf8_text(name@) {
            None => Scan::Done(Err(XmlParseError::Utf8Error)),
            Some(n) => if n == "Value"@ {
                Scan::Continue(here(dec(s.depth), false, in_branch))
            } else if n == "BranchSourceContext"@ {
                Scan::Continue(here(dec(s.depth), in_value, false))
            } else if n == "SourceContext"@ && s.depth == start {
                Scan::Continue(PluginScan { mode: PluginMode::Main, context: None, ..s })
            } else {
                Scan::Continue(here(dec(s.depth), in_value, in_branch))
            },
        },
        Ok(XmlEvent::Eof) => Scan::Done(Err(XmlParseError::InvalidStructure)),
        Ok(_) => Scan::Continue(s),
    }
}

pub open spec fn plugin_info_step(
    s: PluginScan,
    start: i32,
    dev: Seq<char>,
    format: PluginFormat,
    name: Seq<char>,
    ev: Result<XmlEvent, XmlSyntaxError>,
) -> Scan<PluginScan, PluginResult> {
    match ev {
        Err(_) => Scan::Done(Err(XmlParseError::QuickXmlError)),
        Ok(XmlEvent::Start(el)) => match utf8_text(el.name@) {
            None => Scan::Done(Err(XmlParseError::Utf8Error)),
            Some(n) => if n == "PlugName"@ || n == "Name"@ {
                Scan::Continue(PluginScan {
                    depth: inc(s.depth),
                    mode: PluginMode::ReadName { start_depth: start, dev_id: dev, format },
                    ..s
                })
            } else {
                Scan::Continue(PluginScan { depth: inc(s.depth), ..s })
            },
        },
        Ok(XmlEvent::End(_)) => {
            let d = dec(s.depth);
            if d == start {
                Scan::Continue(PluginScan { depth: d, mode: PluginMode::Main, found: s.found.push((name, dev, format)), ..s })
            } else {
                Scan::Continue(PluginScan { depth: d, ..s })
            }
        },
        Ok(XmlEvent::Eof) => Scan::Done(Err(XmlParseError::InvalidStructure)),
        Ok(_) => Scan::Continue(s),
    }
}

pub open spec fn plugin_step(s: PluginScan, ev: Result<XmlEvent, XmlSyntaxError>) -> Scan<PluginScan, PluginResult> {
    match s.mode {
        PluginMode::Main => main_step(s, ev),
        PluginMode::SourceContext { start_depth, in_value, in_branch } => source_context_step(s, start_depth, in_value, in_branch, ev),
        PluginMode::PluginInfo { start_depth, dev_id, format, name } => plugin_info_step(s, start_depth, dev_id, format, name, ev),
        PluginMode::ReadName { start_depth, dev_id, format } => match value_of_event(ev) {
            Err(e) => Scan::Done(Err(e)),
            Ok(v) => Scan::Continue(PluginScan {
                mode: PluginMode::PluginInfo { start_depth, dev_id, format, name: v },
                ..s
            }),
        },
    }
}

pub open spec fn plugin_step_fn() -> spec_fn(PluginScan, Result<XmlEvent, XmlSyntaxError>) -> Scan<PluginScan, PluginResult> {
    |s: PluginScan, ev: Result<XmlEvent, XmlSyntaxError>| plugin_step(s, ev)
}

pub open spec fn plugin_exhausted() -> PluginResult {
    Err(XmlParseError::InvalidStructure)
}

pub open spec fn plugin_scan_start() -> PluginScan {
    PluginScan { mode: PluginMode::Main, depth: 0, context: None, in_plugin_desc: false, found: Seq::empty() }
}

/// The plugins that `find_plugin_tags` reports for `source`.
pub open spec fn plugin_tags_spec(source: Seq<u8>) -> PluginResult {
    scan_events(source, 0, plugin_scan_start(), plugin_step_fn(), plugin_exhausted())
}

/// The scan from the cursor's position in state `s` gives `target`.
pub open spec fn scan_gives(cursor: XmlCursor, s: PluginScan, target: PluginResult) -> bool {
    target == scan_events(cursor.source(), cursor.position(), s, plugin_step_fn(), plugin_exhausted())
}

fn value_attribute_exec(attrs: &Vec<Option<XmlAttribute>>) -> (res: Result<String, XmlParseError>)
    ensures
        match (res, value_attribute(attrs@)) {
            (Ok(s), Ok(t)) => s@ == t,
            (Err(e), Err(f)) => e == f,
            _ => false,
        },
{
    let mut i: usize = 0;
    assert(attrs@.skip(0) == attrs@);
    while i < attrs.len()
        invariant
            i <= attrs.len(),
            value_attribute(attrs@) == value_attribute(attrs@.skip(i as int)),
        decreases attrs.len() - i,
    {
        assert(attrs@.skip(i as int).drop_first() == attrs@.skip(i + 1));
        match &attrs[i] {
            None => return Err(XmlParseError::AttrError),
            Some(a) => {
                if bytes_eq(a.key.as_slice(), "Value".as_bytes()) {
                    return unescape_bytes(a.value.as_slice(), XmlParseError::QuickXmlError);
                }
            },
        }
        i = i + 1;
    }
    Err(XmlParseError::InvalidStructure)
}

fn unescape_bytes(raw: &[u8], err: XmlParseError) -> (res: Result<String, XmlParseError>)
    ensures
        match (res, unescaped_or(raw@, err)) {
            (Ok(s), Ok(t)) => s@ == t,
            (Err(e), Err(f)) => e == f,
            _ => false,
        },
{
    match utf8_string(raw) {
        None => Err(err),
        Some(t) => match xml_unescape(t.as_str()) {
            None => Err(err),
            Some(u) => Ok(u),
        },
    }
}

/// Reads the value held by the next event: the unescaped text of a text
/// event, or the unescaped `Value` attribute of a tag.
fn read_value(cursor: &mut XmlCursor) -> (res: Result<String, XmlParseError>)
    requires
        old(cursor).wf(),
    ensures
        final(cursor).wf(),
        final(cursor).source() == old(cursor).source(),
        final(cursor).position() == if old(cursor).position() <= old(cursor).source().len() {
            old(cursor).position() + 1
        } else {
            old(cursor).position()
        },
        match event_at(old(cursor).source(), old(cursor).position()) {
            None => res matches Err(XmlParseError::InvalidStructure),
            Some(ev) => match (res, value_of_event(ev)) {
                (Ok(s), Ok(t)) => s@ == t,
                (Err(e), Err(f)) => e == f,
                _ => false,
            },
        },
{
    match cursor.next() {
        None => Err(XmlParseError::InvalidStructure),
        Some(Err(_)) => Err(XmlParseError::QuickXmlError),
        Some(Ok(XmlEvent::Text(b))) => unescape_bytes(b.as_slice(), XmlParseError::InvalidStructure),
        Some(Ok(XmlEvent::Empty(el))) => value_attribute_exec(&el.attributes),
        Some(Ok(XmlEvent::Start(el))) => value_attribute_exec(&el.attributes),
        Some(Ok(_)) => Err(XmlParseError::InvalidStructure),
    }
}

pub open spec fn context_view(c: Option<String>) -> Option<Seq<char>> {
    match c {
        Some(s) => Some(s@),
        None => None,
    }
}

fn inc_depth(d: i32) -> (r: i32)
    ensures
        r == inc(d),
{
    if d == i32::MAX { i32::MIN } else { d + 1 }
}

fn dec_depth(d: i32) -> (r: i32)
    ensures
        r == dec(d),
{
    if d == i32::MIN { i32::MAX } else { d - 1 }
}

/// Reads a `SourceContext` (its start tag already read, at depth `*depth`)
/// up to its `BranchDeviceId` value or its end tag; gives the device identifier
/// if one was found.
fn parse_source_context(
    cursor: &mut XmlCursor,
    depth: &mut i32,
    Ghost(s0): Ghost<PluginScan>,
    Ghost(target): Ghost<PluginResult>,
) -> (res: Result<Option<String>, XmlParseError>)
    requires
        old(cursor).wf(),
        s0.mode == (PluginMode::SourceContext { start_depth: *old(depth), in_value: false, in_branch: false }),
        s0.depth == *old(depth),
        scan_gives(*old(cursor), s0, target),
    ensures
        final(cursor).wf(),
        final(cursor).source() == old(cursor).source(),
        final(cursor).position() >= old(cursor).position(),
        match res {
            Ok(c) => scan_gives(*final(cursor), PluginScan { mode: PluginMode::Main, depth: *final(depth), context: context_view(c), ..s0 }, target),
            Err(e) => target == Err::<Seq<PluginInfoView>, XmlParseError>(e),
        },
{
    let start = *depth;
    let mut in_value = false;
    let mut in_branch = false;
    loop
        invariant
            cursor.wf(),
            cursor.source() == old(cursor).source(),
            cursor.position() >= old(cursor).position(),
            scan_gives(*cursor, PluginScan {
                depth: *depth,
                mode: PluginMode::SourceContext { start_depth: start, in_value, in_branch },
                ..s0
            }, target),
        decreases cursor.source().len() + 1 - cursor.position(),
    {
        let ghost s = PluginScan { depth: *depth, mode: PluginMode::SourceContext { start_depth: start, in_value, in_branch }, ..s0 };
        let ghost src = cursor.source();
        let ghost pos = cursor.position();
        proof {
            cursor.lemma_position_bound();
            lemma_scan_at(src, pos, s, plugin_step_fn(), plugin_exhausted());
        }
        let next = cursor.next();
        let ev = match next {
            None => return Err(XmlParseError::InvalidStructure),
            Some(ev) => ev,
        };
        assert(plugin_step_fn()(s, ev) == source_context_step(s, start, in_value, in_branch, ev));
        match ev {
            Err(_) => return Err(XmlParseError::QuickXmlError),
            Ok(XmlEvent::Start(el)) => {
                *depth = inc_depth(*depth);
                match utf8_string(el.name.as_slice()) {
                    None => return Err(XmlParseError::Utf8Error),
                    Some(n) => {
                        if str_eq(n.as_str(), "Value") {
                            in_value = true;
                        } else if str_eq(n.as_str(), "BranchSourceContext") && in_value {
                            in_branch = true;
                        }
                    },
                }
            },
            Ok(XmlEvent::Empty(el)) => {
                if in_branch {
                    match utf8_string(el.name.as_slice()) {
                        None => return Err(XmlParseError::Utf8Error),
                        Some(n) => {
                            if str_eq(n.as_str(), "BranchDeviceId") {
                                let attrs = match parse_event_attributes(&el.attributes) {
                                    Ok(a) => a,
                                    Err(e) => return Err(e),
                                };
                                match attribute_value(&attrs, "Value") {
                                    Some(v) => return Ok(Some(v)),
                                    None => {},
                                }
                            }
                        },
                    }
                }
            },
            Ok(XmlEvent::End(name)) => match utf8_string(name.as_slice()) {
                None => return Err(XmlParseError::Utf8Error),
                Some(n) => {
                    if str_eq(n.as_str(), "Value") {
                        in_value = false;
                    } else if str_eq(n.as_str(), "BranchSourceContext") {
                        in_branch = false;
                    } else if str_eq(n.as_str(), "SourceContext") && *depth == start {
                        return Ok(None);
                    }
                    *depth = dec_depth(*depth);
                },
            },
            Ok(XmlEvent::Eof) => return Err(XmlParseError::InvalidStructure),
            Ok(_) => {},
        }
    }
}

/// Reads a `VstPluginInfo`/`Vst3PluginInfo` element (its start tag already
/// read, at depth `*depth`) for the device `dev_identifier`. Gives `None`
/// without reading when the identifier names no known format.
fn parse_plugin_info(
    dev_identifier: &String,
    cursor: &mut XmlCursor,
    depth: &mut i32,
    Ghost(s0): Ghost<PluginScan>,
    Ghost(target): Ghost<PluginResult>,
) -> (res: Result<Option<PluginInfo>, XmlParseError>)
    requires
        old(cursor).wf(),
        scan_gives(*old(cursor), plugin_info_entry(s0, dev_identifier@, *old(depth)), target),
    ensures
        final(cursor).wf(),
        final(cursor).source() == old(cursor).source(),
        final(cursor).position() >= old(cursor).position(),
        match res {
            Ok(r) => scan_gives(*final(cursor), PluginScan {
                mode: PluginMode::Main,
                depth: *final(depth),
                context: None,
                found: match r {
                    Some(info) => s0.found.push(info@),
                    None => s0.found,
                },
                ..s0
            }, target),
            Err(e) => target == Err::<Seq<PluginInfoView>, XmlParseError>(e),
        },
{
    let format = match parse_plugin_format(dev_identifier.as_str()) {
        Some(f) => f,
        None => return Ok(None),
    };
    let start = *depth;
    let mut name = String::new();
    loop
        invariant
            cursor.wf(),
            cursor.source() == old(cursor).source(),
            cursor.position() >= old(cursor).position(),
            scan_gives(*cursor, PluginScan {
                depth: *depth,
                context: None,
                mode: PluginMode::PluginInfo { start_depth: start, dev_id: dev_identifier@, format, name: name@ },
                ..s0
            }, target),
        decreases cursor.source().len() + 1 - cursor.position(),
    {
        let ghost s = PluginScan {
            depth: *depth,
            context: None,
            mode: PluginMode::PluginInfo { start_depth: start, dev_id: dev_identifier@, format, name: name@ },
            ..s0
        };
        let ghost src = cursor.source();
        let ghost pos = cursor.position();
        proof {
            cursor.lemma_position_bound();
            lemma_scan_at(src, pos, s, plugin_step_fn(), plugin_exhausted());
        }
        let next = cursor.next();
        let ev = match next {
            None => return Err(XmlParseError::InvalidStructure),
            Some(ev) => ev,
        };
        assert(plugin_step_fn()(s, ev) == plugin_info_step(s, start, dev_identifier@, format, name@, ev));
        match ev {
            Err(_) => return Err(XmlParseError::QuickXmlError),
            Ok(XmlEvent::Start(el)) => {
                *depth = inc_depth(*depth);
                match utf8_string(el.name.as_slice()) {
                    None => return Err(XmlParseError::Utf8Error),
                    Some(n) => {
                        if str_eq(n.as_str(), "PlugName") || str_eq(n.as_str(), "Name") {
                            let ghost r = PluginScan {
                                depth: *depth,
                                context: None,
                                mode: PluginMode::ReadName { start_depth: start, dev_id: dev_identifier@, format },
                                ..s0
                            };
                            proof {
                                cursor.lemma_position_bound();
                                lemma_scan_at(src, cursor.position(), r, plugin_step_fn(), plugin_exhausted());
                                match event_at(src, cursor.position()) {
                                    Some(ev2) => {
                                        assert(plugin_step_fn()(r, ev2) == plugin_step(r, ev2));
                                    },
                                    None => {},
                                }
                            }
                            name = match read_value(cursor) {
                                Ok(v) => v,
                                Err(e) => return Err(e),
                            };
                        }
                    },
                }
            },
            Ok(XmlEvent::End(_)) => {
                *depth = dec_depth(*depth);
                if *depth == start {
                    return Ok(Some(PluginInfo { name, dev_identifier: dev_identifier.clone(), plugin_format: format }));
                }
            },
            Ok(XmlEvent::Eof) => return Err(XmlParseError::InvalidStructure),
            Ok(_) => {},
        }
    }
}

/// The events of `source` from position `at` on are those of one plugin
/// description: `<PluginDesc><tag><PlugName>name</PlugName></tag></PluginDesc>`
/// where `tag` is `VstPluginInfo` or `Vst3PluginInfo` and the text of
/// `PlugName` reads `name` once its escapes are resolved.
pub open spec fn plugin_desc_at(source: Seq<u8>, at: nat, tag: Seq<char>, name: Seq<char>) -> bool {
    &&& tag == "VstPluginInfo"@ || tag == "Vst3PluginInfo"@
    &&& opens(xml_step(source, at), "PluginDesc"@)
    &&& opens(xml_step(source, at + 1), tag)
    &&& opens(xml_step(source, at + 2), "PlugName"@)
    &&& exists|raw: Seq<char>| has_text(xml_step(source, at + 3), raw) && xml_unescaped(raw) == Some(name)
    &&& closes(xml_step(source, at + 4), "PlugName"@)
    &&& closes(xml_step(source, at + 5), tag)
    &&& closes(xml_step(source, at + 6), "PluginDesc"@)
}

/// The events of `source` from position `at` on are those of one plugin
/// device: `<SourceContext><Value><BranchSourceContext><BranchDeviceId
/// Value="dev"/></BranchSourceContext></Value></SourceContext>`, then a
/// plugin description (see `plugin_desc_at`).
pub open spec fn plugin_device_at(source: Seq<u8>, at: nat, tag: Seq<char>, dev: Seq<char>, name: Seq<char>) -> bool {
    &&& opens(xml_step(source, at), "SourceContext"@)
    &&& opens(xml_step(source, at + 1), "Value"@)
    &&& opens(xml_step(source, at + 2), "BranchSourceContext"@)
    &&& empty_with_value(xml_step(source, at + 3), "BranchDeviceId"@, dev)
    &&& closes(xml_step(source, at + 4), "BranchSourceContext"@)
    &&& closes(xml_step(source, at + 5), "Value"@)
    &&& closes(xml_step(source, at + 6), "SourceContext"@)
    &&& plugin_desc_at(source, at + 7, tag, name)
}

/// The plugin scan between devices: nothing open, no context waiting.
pub open spec fn plugin_scan_between(found: Seq<PluginInfoView>) -> PluginScan {
    PluginScan { mode: PluginMode::Main, depth: 0, context: None, in_plugin_desc: false, found }
}

/// The source context of a device leaves its identifier waiting for a plugin.
proof fn lemma_device_context(source: Seq<u8>, at: nat, tag: Seq<char>, dev: Seq<char>, name: Seq<char>, found: Seq<PluginInfoView>)
    requires
        at + 14 <= source.len(),
        plugin_device_at(source, at, tag, dev, name),
    ensures
        scan_events(source, at, plugin_scan_between(found), plugin_step_fn(), plugin_exhausted())
            == scan_events(
            source,
            at + 7,
            PluginScan { context: Some(dev), ..plugin_scan_between(found) },
            plugin_step_fn(),
            plugin_exhausted(),
        ),
{
    reveal_strlit("SourceContext");
    reveal_strlit("Value");
    reveal_strlit("BranchSourceContext");
    reveal_strlit("BranchDeviceId");
    reveal_strlit("PluginDesc");
    reveal_with_fuel(attributes_text, 2);
    reveal_with_fuel(last_value, 2);
    assert("BranchSourceContext"@.len() != "Value"@.len());
    assert("BranchSourceContext"@.len() != "PluginDesc"@.len());
    assert("Value"@.len() != "PluginDesc"@.len());
    assert("SourceContext"@.len() != "PluginDesc"@.len());
    let f = plugin_step_fn();
    let ex = plugin_exhausted();
    let s0 = plugin_scan_between(found);
    let s1 = PluginScan { depth: 1, mode: PluginMode::SourceContext { start_depth: 1, in_value: false, in_branch: false }, ..s0 };
    let s2 = PluginScan { depth: 2, mode: PluginMode::SourceContext { start_depth: 1, in_value: true, in_branch: false }, ..s0 };
    let s3 = PluginScan { depth: 3, mode: PluginMode::SourceContext { start_depth: 1, in_value: true, in_branch: true }, ..s0 };
    let s4 = PluginScan { depth: 3, context: Some(dev), ..s0 };
    let s5 = PluginScan { depth: 2, context: Some(dev), ..s0 };
    let s6 = PluginScan { depth: 1, context: Some(dev), ..s0 };
    let s7 = PluginScan { context: Some(dev), ..s0 };
    lemma_scan_step(source, at, s0, f, ex);
    assert(f(s0, xml_step(source, at)) == Scan::<PluginScan, PluginResult>::Continue(s1));
    lemma_scan_step(source, at + 1, s1, f, ex);
    assert(f(s1, xml_step(source, at + 1)) == Scan::<PluginScan, PluginResult>::Continue(s2));
    lemma_scan_step(source, at + 2, s2, f, ex);
    assert(f(s2, xml_step(source, at + 2)) == Scan::<PluginScan, PluginResult>::Continue(s3));
    lemma_scan_step(source, at + 3, s3, f, ex);
    assert(f(s3, xml_step(source, at + 3)) == Scan::<PluginScan, PluginResult>::Continue(s4));
    lemma_scan_step(source, at + 4, s4, f, ex);
    assert(f(s4, xml_step(source, at + 4)) == Scan::<PluginScan, PluginResult>::Continue(s5));
    lemma_scan_step(source, at + 5, s5, f, ex);
    assert(f(s5, xml_step(source, at + 5)) == Scan::<PluginScan, PluginResult>::Continue(s6));
    lemma_scan_step(source, at + 6, s6, f, ex);
    assert(f(s6, xml_step(source, at + 6)) == Scan::<PluginScan, PluginResult>::Continue(s7));
}

/// The plugin description of a device reports the plugin with the waiting
/// identifier, its format and its name.
proof fn lemma_device_plugin(source: Seq<u8>, at: nat, tag: Seq<char>, dev: Seq<char>, name: Seq<char>, found: Seq<PluginInfoView>)
    requires
        at + 14 <= source.len(),
        plugin_device_at(source, at, tag, dev, name),
        plugin_format_of(dev) is Some,
    ensures
        scan_events(source, at + 7, PluginScan { context: Some(dev), ..plugin_scan_between(found) }, plugin_step_fn(), plugin_exhausted())
            == scan_events(
            source,
            at + 14,
            plugin_scan_between(found.push((name, dev, plugin_format_of(dev)->Some_0))),
            plugin_step_fn(),
            plugin_exhausted(),
        ),
{
    reveal_strlit("SourceContext");
    reveal_strlit("PluginDesc");
    reveal_strlit("VstPluginInfo");
    reveal_strlit("Vst3PluginInfo");
    reveal_strlit("PlugName");
    assert("SourceContext"@.len() != "PluginDesc"@.len());
    assert("VstPluginInfo"@.len() != "PluginDesc"@.len());
    assert("Vst3PluginInfo"@.len() != "PluginDesc"@.len());
    assert("VstPluginInfo"@.len() == "SourceContext"@.len() ==> "VstPluginInfo"@[0] != "SourceContext"@[0]);
    assert("Vst3PluginInfo"@.len() != "SourceContext"@.len());
    let fmt = plugin_format_of(dev)->Some_0;
        let f = plugin_step_fn();
    let ex = plugin_exhausted();
    let s0 = plugin_scan_between(found);
    let t7 = PluginScan { context: Some(dev), ..s0 };
    let t8 = PluginScan { depth: 1, in_plugin_desc: true, ..t7 };
    let t9 = PluginScan {
        depth: 2,
        context: None,
        mode: PluginMode::PluginInfo { start_depth: 2, dev_id: dev, format: fmt, name: Seq::empty() },
        ..t8
    };
    let t10 = PluginScan { depth: 3, mode: PluginMode::ReadName { start_depth: 2, dev_id: dev, format: fmt }, ..t9 };
    let t11 = PluginScan { mode: PluginMode::PluginInfo { start_depth: 2, dev_id: dev, format: fmt, name }, ..t10 };
    let t12 = PluginScan { depth: 2, mode: PluginMode::Main, found: found.push((name, dev, fmt)), ..t11 };
    let t13 = PluginScan { depth: 1, ..t12 };
    let t14 = plugin_scan_between(found.push((name, dev, fmt)));
    lemma_scan_step(source, at + 7, t7, f, ex);
    assert(f(t7, xml_step(source, at + 7)) == Scan::<PluginScan, PluginResult>::Continue(t8));
    lemma_scan_step(source, at + 8, t8, f, ex);
    assert(plugin_info_entry(t8, dev, 2) == t9);
    assert(f(t8, xml_step(source, at + 8)) == Scan::<PluginScan, PluginResult>::Continue(t9));
    lemma_scan_step(source, at + 9, t9, f, ex);
    assert(f(t9, xml_step(source, at + 9)) == Scan::<PluginScan, PluginResult>::Continue(t10));
    lemma_scan_step(source, at + 10, t10, f, ex);
    assert(value_of_event(xml_step(source, at + 10)) == Ok::<Seq<char>, XmlParseError>(name));
    assert(f(t10, xml_step(source, at + 10)) == Scan::<PluginScan, PluginResult>::Continue(t11));
    lemma_scan_step(source, at + 11, t11, f, ex);
    assert(f(t11, xml_step(source, at + 11)) == Scan::<PluginScan, PluginResult>::Continue(t12));
    lemma_scan_step(source, at + 12, t12, f, ex);
    assert(f(t12, xml_step(source, at + 12)) == Scan::<PluginScan, PluginResult>::Continue(t13));
    lemma_scan_step(source, at + 13, t13, f, ex);
    assert(f(t13, xml_step(source, at + 13)) == Scan::<PluginScan, PluginResult>::Continue(t14));
}

/// A plugin description with no source context waiting reports nothing.
proof fn lemma_desc_without_context(source: Seq<u8>, at: nat, tag: Seq<char>, name: Seq<char>, found: Seq<PluginInfoView>)
    requires
        at + 7 <= source.len(),
        plugin_desc_at(source, at, tag, name),
    ensures
        scan_events(source, at, plugin_scan_between(found), plugin_step_fn(), plugin_exhausted())
            == scan_events(source, at + 7, plugin_scan_between(found), plugin_step_fn(), plugin_exhausted()),
{
    reveal_strlit("SourceContext");
    reveal_strlit("PluginDesc");
    reveal_strlit("VstPluginInfo");
    reveal_strlit("Vst3PluginInfo");
    reveal_strlit("PlugName");
    assert("SourceContext"@.len() != "PluginDesc"@.len());
    assert("VstPluginInfo"@.len() != "PluginDesc"@.len());
    assert("Vst3PluginInfo"@.len() != "PluginDesc"@.len());
    assert("VstPluginInfo"@[0] != "SourceContext"@[0]);
    assert("Vst3PluginInfo"@.len() != "SourceContext"@.len());
    assert("PlugName"@.len() != "SourceContext"@.len() && "PlugName"@.len() != "PluginDesc"@.len());
    assert("PlugName"@.len() != "VstPluginInfo"@.len() && "PlugName"@.len() != "Vst3PluginInfo"@.len());
    let f = plugin_step_fn();
    let ex = plugin_exhausted();
    let s0 = plugin_scan_between(found);
    let s1 = PluginScan { depth: 1, in_plugin_desc: true, ..s0 };
    let s2 = PluginScan { depth: 2, ..s1 };
    let s3 = PluginScan { depth: 3, ..s1 };
    lemma_scan_step(source, at, s0, f, ex);
    assert(f(s0, xml_step(source, at)) == Scan::<PluginScan, PluginResult>::Continue(s1));
    lemma_scan_step(source, at + 1, s1, f, ex);
    assert(f(s1, xml_step(source, at + 1)) == Scan::<PluginScan, PluginResult>::Continue(s2));
    lemma_scan_step(source, at + 2, s2, f, ex);
    assert(f(s2, xml_step(source, at + 2)) == Scan::<PluginScan, PluginResult>::Continue(s3));
    lemma_scan_step(source, at + 3, s3, f, ex);
    assert(f(s3, xml_step(source, at + 3)) == Scan::<PluginScan, PluginResult>::Continue(s3));
    lemma_scan_step(source, at + 4, s3, f, ex);
    assert(f(s3, xml_step(source, at + 4)) == Scan::<PluginScan, PluginResult>::Continue(s2));
    lemma_scan_step(source, at + 5, s2, f, ex);
    assert(f(s2, xml_step(source, at + 5)) == Scan::<PluginScan, PluginResult>::Continue(s1));
    lemma_scan_step(source, at + 6, s1, f, ex);
    assert(f(s1, xml_step(source, at + 6)) == Scan::<PluginScan, PluginResult>::Continue(s0));
}

/// A device whose identifier names no known format reports nothing, and its
/// context is used up.
proof fn lemma_device_unknown_format(source: Seq<u8>, at: nat, tag: Seq<char>, dev: Seq<char>, name: Seq<char>, found: Seq<PluginInfoView>)
    requires
        at + 14 <= source.len(),
        plugin_device_at(source, at, tag, dev, name),
        plugin_format_of(dev) is None,
    ensures
        scan_events(source, at + 7, PluginScan { context: Some(dev), ..plugin_scan_between(found) }, plugin_step_fn(), plugin_exhausted())
            == scan_events(source, at + 14, plugin_scan_between(found), plugin_step_fn(), plugin_exhausted()),
{
    reveal_strlit("SourceContext");
    reveal_strlit("PluginDesc");
    reveal_strlit("VstPluginInfo");
    reveal_strlit("Vst3PluginInfo");
    reveal_strlit("PlugName");
    assert("SourceContext"@.len() != "PluginDesc"@.len());
    assert("VstPluginInfo"@.len() != "PluginDesc"@.len());
    assert("Vst3PluginInfo"@.len() != "PluginDesc"@.len());
    assert("VstPluginInfo"@[0] != "SourceContext"@[0]);
    assert("Vst3PluginInfo"@.len() != "SourceContext"@.len());
    assert("PlugName"@.len() != "SourceContext"@.len() && "PlugName"@.len() != "PluginDesc"@.len());
    assert("PlugName"@.len() != "VstPluginInfo"@.len() && "PlugName"@.len() != "Vst3PluginInfo"@.len());
    let f = plugin_step_fn();
    let ex = plugin_exhausted();
    let s0 = plugin_scan_between(found);
    let t7 = PluginScan { context: Some(dev), ..s0 };
    let t8 = PluginScan { depth: 1, in_plugin_desc: true, ..t7 };
    let t9 = PluginScan { depth: 2, context: None, ..t8 };
    let t10 = PluginScan { depth: 3, ..t9 };
    let t13 = PluginScan { depth: 1, ..t9 };
    lemma_scan_step(source, at + 7, t7, f, ex);
    assert(f(t7, xml_step(source, at + 7)) == Scan::<PluginScan, PluginResult>::Continue(t8));
    lemma_scan_step(source, at + 8, t8, f, ex);
    assert(plugin_info_entry(t8, dev, 2) == t9);
    assert(f(t8, xml_step(source, at + 8)) == Scan::<PluginScan, PluginResult>::Continue(t9));
    lemma_scan_step(source, at + 9, t9, f, ex);
    assert(f(t9, xml_step(source, at + 9)) == Scan::<PluginScan, PluginResult>::Continue(t10));
    lemma_scan_step(source, at + 10, t10, f, ex);
    assert(f(t10, xml_step(source, at + 10)) == Scan::<PluginScan, PluginResult>::Continue(t10));
    lemma_scan_step(source, at + 11, t10, f, ex);
    assert(f(t10, xml_step(source, at + 11)) == Scan::<PluginScan, PluginResult>::Continue(t9));
    lemma_scan_step(source, at + 12, t9, f, ex);
    assert(f(t9, xml_step(source, at + 12)) == Scan::<PluginScan, PluginResult>::Continue(t13));
    lemma_scan_step(source, at + 13, t13, f, ex);
    assert(f(t13, xml_step(source, at + 13)) == Scan::<PluginScan, PluginResult>::Continue(s0));
}

/// Each source context serves one plugin, and only a known format is
/// reported: a device followed by a plugin description of its own without a
/// source context reports the device's plugin alone when its identifier
/// names a known format, and nothing otherwise.
pub proof fn law_each_context_serves_one_plugin(
    source: Seq<u8>,
    tag: Seq<char>,
    dev: Seq<char>,
    name: Seq<char>,
    other_tag: Seq<char>,
    other_name: Seq<char>,
)
    requires
        21 <= source.len(),
        plugin_device_at(source, 0, tag, dev, name),
        plugin_desc_at(source, 14, other_tag, other_name),
        xml_step(source, 21) matches Ok(XmlEvent::Eof),
    ensures
        plugin_tags_spec(source) == Ok::<Seq<PluginInfoView>, XmlParseError>(match plugin_format_of(dev) {
            Some(format) => seq![(name, dev, format)],
            None => Seq::empty(),
        }),
{
    let found: Seq<PluginInfoView> = match plugin_format_of(dev) {
        Some(format) => seq![(name, dev, format)],
        None => Seq::empty(),
    };
    lemma_device_context(source, 0, tag, dev, name, Seq::empty());
    if plugin_format_of(dev) is Some {
        lemma_device_plugin(source, 0, tag, dev, name, Seq::empty());
        assert(Seq::<PluginInfoView>::empty().push((name, dev, plugin_format_of(dev)->Some_0)) =~= found);
    } else {
        lemma_device_unknown_format(source, 0, tag, dev, name, Seq::empty());
    }
    lemma_desc_without_context(source, 14, other_tag, other_name, found);
    lemma_scan_step(source, 21, plugin_scan_between(found), plugin_step_fn(), plugin_exhausted());
    assert(plugin_scan_between(Seq::empty()) == plugin_scan_start());
}

/// What a document of plugin devices reports: for each device, its name,
/// its identifier and the format the identifier names.
pub open spec fn devices_reported(devices: Seq<(Seq<char>, Seq<char>, Seq<char>)>) -> Seq<PluginInfoView> {
    devices.map_values(|d: (Seq<char>, Seq<char>, Seq<char>)| (d.2, d.1, plugin_format_of(d.1)->Some_0))
}

/// The devices from the `k`-th on complete what was reported before them.
proof fn lemma_plugin_devices(source: Seq<u8>, devices: Seq<(Seq<char>, Seq<char>, Seq<char>)>, k: nat)
    requires
        k <= devices.len(),
        14 * devices.len() <= source.len(),
        forall|j: int| 0 <= j < devices.len() ==> plugin_format_of((#[trigger] devices[j]).1) is Some
            && plugin_device_at(source, (14 * j) as nat, devices[j].0, devices[j].1, devices[j].2),
        xml_step(source, 14 * devices.len()) matches Ok(XmlEvent::Eof),
    ensures
        scan_events(source, 14 * k, plugin_scan_between(devices_reported(devices).take(k as int)), plugin_step_fn(), plugin_exhausted())
            == Ok::<Seq<PluginInfoView>, XmlParseError>(devices_reported(devices)),
    decreases devices.len() - k,
{
    let all = devices_reported(devices);
    if k == devices.len() {
        assert(all.take(k as int) =~= all);
        lemma_scan_step(source, 14 * k, plugin_scan_between(all), plugin_step_fn(), plugin_exhausted());
    } else {
        let d = devices[k as int];
        lemma_device_context(source, 14 * k, d.0, d.1, d.2, all.take(k as int));
        lemma_device_plugin(source, 14 * k, d.0, d.1, d.2, all.take(k as int));
        assert(all.take(k as int).push((d.2, d.1, plugin_format_of(d.1)->Some_0)) =~= all.take(k + 1 as int));
        lemma_plugin_devices(source, devices, k + 1);
    }
}

/// Every plugin device is reported, VST2 as VST3: in a document made of
/// plugin devices (see `plugin_device_at`; each given as tag, identifier and
/// name) whose identifiers name a known format, the plugins found are exactly
/// one per device, in document order, each with the device's name, its
/// identifier and the format that the identifier names.
pub proof fn law_every_plugin_device_reported(source: Seq<u8>, devices: Seq<(Seq<char>, Seq<char>, Seq<char>)>)
    requires
        14 * devices.len() <= source.len(),
        forall|j: int| 0 <= j < devices.len() ==> plugin_format_of((#[trigger] devices[j]).1) is Some
            && plugin_device_at(source, (14 * j) as nat, devices[j].0, devices[j].1, devices[j].2),
        xml_step(source, 14 * devices.len()) matches Ok(XmlEvent::Eof),
    ensures
        plugin_tags_spec(source) == Ok::<Seq<PluginInfoView>, XmlParseError>(
            devices.map_values(|d: (Seq<char>, Seq<char>, Seq<char>)| (d.2, d.1, plugin_format_of(d.1)->Some_0)),
        ),
{
    lemma_plugin_devices(source, devices, 0);
    assert(devices_reported(devices).take(0) =~= Seq::<PluginInfoView>::empty());
    assert(plugin_scan_between(Seq::empty()) == plugin_scan_start());
}

/// Finds every plugin of a Live set: for each `VstPluginInfo` or
/// `Vst3PluginInfo` inside a `PluginDesc`, the device identifier of the last
/// `SourceContext` before it (each context serves one plugin) and the plugin's
/// name; identifiers of unknown format are passed over.
pub fn find_plugin_tags(xml_data: &[u8]) -> (res: Result<Vec<PluginInfo>, XmlParseError>)
    ensures
        match (res, plugin_tags_spec(xml_data@)) {
            (Ok(v), Ok(w)) => infos_view(v@) == w,
            (Err(e), Err(f)) => e == f,
            _ => false,
        },
{
    let ghost target = plugin_tags_spec(xml_data@);
    let mut cursor = XmlCursor::new(xml_data);
    let mut infos: Vec<PluginInfo> = Vec::new();
    let mut context: Option<String> = None;
    let mut depth: i32 = 0;
    let mut in_desc = false;
    assert(infos_view(infos@) =~= Seq::<PluginInfoView>::empty());
    loop
        invariant
            cursor.wf(),
            cursor.source() == xml_data@,
            target == plugin_tags_spec(xml_data@),
            scan_gives(cursor, PluginScan {
                mode: PluginMode::Main,
                depth,
                context: context_view(context),
                in_plugin_desc: in_desc,
                found: infos_view(infos@),
            }, target),
        decreases cursor.source().len() + 1 - cursor.position(),
    {
        let ghost s = PluginScan {
            mode: PluginMode::Main,
            depth,
            context: context_view(context),
            in_plugin_desc: in_desc,
            found: infos_view(infos@),
        };
        let ghost src = cursor.source();
        let ghost pos = cursor.position();
        proof {
            cursor.lemma_position_bound();
            lemma_scan_at(src, pos, s, plugin_step_fn(), plugin_exhausted());
        }
        let next = cursor.next();
        let ev = match next {
            None => return Err(XmlParseError::InvalidStructure),
            Some(ev) => ev,
        };
        assert(plugin_step_fn()(s, ev) == main_step(s, ev));

        match ev {
            Err(_) => return Err(XmlParseError::QuickXmlError),
            Ok(XmlEvent::Start(el)) => match utf8_string(el.name.as_slice()) {
                None => return Err(XmlParseError::Utf8Error),
                Some(n) => {
                    depth = inc_depth(depth);
                    if str_eq(n.as_str(), "SourceContext") {
                        let ghost sc = PluginScan {
                            depth,
                            mode: PluginMode::SourceContext { start_depth: depth, in_value: false, in_branch: false },
                            ..s
                        };
                        context = match parse_source_context(&mut cursor, &mut depth, Ghost(sc), Ghost(target)) {
                            Ok(c) => c,
                            Err(e) => return Err(e),
                        };
                    } else if str_eq(n.as_str(), "PluginDesc") {
                        in_desc = true;
                    } else if (str_eq(n.as_str(), "VstPluginInfo") || str_eq(n.as_str(), "Vst3PluginInfo")) && in_desc {
                        match context.take() {
                            None => {},
                            Some(c) => {
                                match parse_plugin_info(&c, &mut cursor, &mut depth, Ghost(s), Ghost(target)) {
                                    Ok(Some(info)) => {
                                        let ghost iv = info@;
                                        let ghost before = infos@;
                                        infos.push(info);
                                        assert(infos_view(infos@) =~= infos_view(before).push(iv));
                                    },
                                    Ok(None) => {},
                                    Err(e) => return Err(e),
                                }
                            },
                        }
                    }
                },
            },
            Ok(XmlEvent::End(name)) => match utf8_string(name.as_slice()) {
                None => return Err(XmlParseError::Utf8Error),
                Some(n) => {
                    depth = dec_depth(depth);
                    if str_eq(n.as_str(), "PluginDesc") {
                        in_desc = false;
                    }
                },
            },
            Ok(XmlEvent::Eof) => return Ok(infos),
            Ok(_) => {},
        }
        proof {
            cursor.lemma_position_bound();
        }
    }
}

/// The plugin that a Live set uses, given its row in Live's plugin database
/// when there is one: a plugin found there carries the row's data and is
/// installed; otherwise it carries the name and identifier that the set gives.
/// Either way the format is the one the set's identifier names.
pub fn plugin_from_info(info: &PluginInfo, row: Option<DbPlugin>) -> (res: Plugin)
    ensures
        res.plugin_format == info.plugin_format,
        match row {
            Some(db) => {
                &&& res.installed
                &&& res.plugin_id == Some(db.plugin_id)
                &&& res.module_id == db.module_id
                &&& res.dev_identifier == db.dev_identifier
                &&& res.name == db.name
                &&& res.vendor == db.vendor
                &&& res.version == db.version
                &&& res.sdk_version == db.sdk_version
                &&& res.flags == db.flags
                &&& res.scanstate == db.scanstate
                &&& res.enabled == db.enabled
            },
            None => {
                &&& !res.installed
                &&& res.plugin_id is None
                &&& res.module_id is None
                &&& res.dev_identifier@ == info.dev_identifier@
                &&& res.name@ == info.name@
                &&& res.vendor is None
                &&& res.version is None
                &&& res.sdk_version is None
                &&& res.flags is None
                &&& res.scanstate is None
                &&& res.enabled is None
            },
        },
{
    match row {
        Some(db) => Plugin {
            plugin_id: Some(db.plugin_id),
            module_id: db.module_id,
            dev_identifier: db.dev_identifier,
            name: db.name,
            vendor: db.vendor,
            version: db.version,
            sdk_version: db.sdk_version,
            flags: db.flags,
            scanstate: db.scanstate,
            enabled: db.enabled,
            plugin_format: info.plugin_format,
            installed: true,
        },
        None => Plugin {
            plugin_id: None,
            module_id: None,
            dev_identifier: info.dev_identifier.clone(),
            name: info.name.clone(),
            vendor: None,
            version: None,
            sdk_version: None,
            flags: None,
            scanstate: None,
            enabled: None,
            plugin_format: info.plugin_format,
            installed: false,
        },
    }
}

} // verus!
