//! The version of Live that saved a set, read from the root `Ableton` tag.
//!
//! The major and minor numbers are the `MajorVersion` and `MinorVersion`
//! attributes; the patch number is the third part of the version in the
//! `Creator` text (`Ableton Live 11.0.1` gives 1, `Ableton Live 11.1 Beta`
//! gives 0), and a `Creator` that mentions `Beta` marks a beta.
use vstd::prelude::*;
use crate::errors::{VersionError, XmlParseError};
use crate::numbers::{digit_value, parse_u32, u32_of};
use crate::text::{contains_seq, contains_str, split_char, split_on, str_eq, utf8_string};
use crate::types::AbletonVersion;
use crate::xml::{
    lemma_scan_at, scan_events, utf8_text, Scan, XmlAttribute, XmlCursor, XmlEvent,
    XmlSyntaxError,
};

verus! {

/// The first word that begins with a digit.
pub open spec fn first_numeric_word(words: Seq<Seq<char>>) -> Option<Seq<char>>
    decreases words.len(),
{
    if words.len() == 0 {
        None
    } else if words[0].len() > 0 && digit_value(words[0][0]) is Some {
        Some(words[0])
    } else {
        first_numeric_word(words.drop_first())
    }
}

/// The patch number that a `Creator` text gives: the third dot-separated part
/// of its version word, `0` when the word has fewer parts.
pub open spec fn creator_patch(creator: Seq<char>) -> Result<int, VersionError> {
    match first_numeric_word(split_on(creator, ' ')) {
        None => Err(VersionError::InvalidFormat),
        Some(word) => {
            let parts = split_on(word, '.');
            if parts.len() < 3 {
                Ok(0)
            } else {
                match u32_of(parts[2]) {
                    Ok(n) => Ok(n),
                    Err(k) => Err(VersionError::ParseError(k)),
                }
            }
        },
    }
}

/// The version fields met so far among the attributes of the root tag.
pub struct VersionFields {
    pub major: Option<u32>,
    pub minor: Option<u32>,
    pub patch: Option<u32>,
    pub beta: bool,
}

/// The value of an attribute read as a `u32`.
pub open spec fn number_value(value: Seq<u8>) -> Result<u32, VersionError> {
    match utf8_text(value) {
        None => Err(VersionError::Utf8Error),
        Some(t) => match u32_of(t) {
            Ok(n) => Ok(n as u32),
            Err(k) => Err(VersionError::ParseError(k)),
        },
    }
}

/// Reads the attributes in order; a later attribute of the same name
/// replaces an earlier one. The first unreadable attribute or bad value decides.
pub open spec fn version_fields(attrs: Seq<Option<XmlAttribute>>, f: VersionFields) -> Result<VersionFields, VersionError>
    decreases attrs.len(),
{
    if attrs.len() == 0 {
        Ok(f)
    } else {
        match attrs[0] {
            None => Err(VersionError::AttrError),
            Some(a) => {
                let key = utf8_text(a.key@);
                if key == Some("MajorVersion"@) {
                    match number_value(a.value@) {
                        Err(e) => Err(e),
                        Ok(n) => version_fields(attrs.drop_first(), VersionFields { major: Some(n), ..f }),
                    }
                } else if key == Some("MinorVersion"@) {
                    match number_value(a.value@) {
                        Err(e) => Err(e),
                        Ok(n) => version_fields(attrs.drop_first(), VersionFields { minor: Some(n), ..f }),
                    }
                } else if key == Some("Creator"@) {
                    match utf8_text(a.value@) {
                        None => Err(VersionError::Utf8Error),
                        Some(c) => match creator_patch(c) {
                            Err(e) => Err(e),
                            Ok(p) => version_fields(
                                attrs.drop_first(),
                                VersionFields { patch: Some(p as u32), beta: contains_seq(c, "Beta"@), ..f },
                            ),
                        },
                    }
                } else {
                    version_fields(attrs.drop_first(), f)
                }
            },
        }
    }
}

/// The version that the attributes of the root tag give; a missing major,
/// minor or patch number is `MissingInfo`.
pub open spec fn version_of_attributes(attrs: Seq<Option<XmlAttribute>>) -> Result<AbletonVersion, VersionError> {
    match version_fields(attrs, VersionFields { major: None, minor: None, patch: None, beta: false }) {
        Err(e) => Err(e),
        Ok(f) => match (f.major, f.minor, f.patch) {
            (Some(major), Some(minor), Some(patch)) => Ok(AbletonVersion { major, minor, patch, beta: f.beta }),
            _ => Err(VersionError::MissingInfo),
        },
    }
}

/// The patch number of a `Creator` text (see `creator_patch`).
fn patch_of_creator(creator: &str) -> (res: Result<u32, VersionError>)
    ensures
        match (res, creator_patch(creator@)) {
            (Ok(p), Ok(q)) => p == q,
            (Err(e), Err(f)) => e == f,
            _ => false,
        },
{
    let words = split_char(creator, ' ');
    let ghost ws = words@.map_values(|x: String| x@);
    let mut i: usize = 0;
    assert(ws.skip(0) == ws);
    while i < words.len()
        invariant
            i <= words.len(),
            ws == words@.map_values(|x: String| x@),
            ws == split_on(creator@, ' '),
            first_numeric_word(ws) == first_numeric_word(ws.skip(i as int)),
        decreases words.len() - i,
    {
        assert(ws.skip(i as int).drop_first() == ws.skip(i + 1));
        assert(ws.skip(i as int)[0] == words@[i as int]@);
        let w = crate::text::chars_of(words[i].as_str());
        if w.len() > 0 && '0' <= w[0] && w[0] <= '9' {
            let parts = split_char(words[i].as_str(), '.');
            let ghost ps = parts@.map_values(|x: String| x@);
            if parts.len() < 3 {
                return Ok(0);
            }
            assert(ps[2] == parts@[2]@);
            return match parse_u32(parts[2].as_str()) {
                Ok(n) => Ok(n),
                Err(k) => Err(VersionError::ParseError(k)),
            };
        }
        i = i + 1;
    }
    Err(VersionError::InvalidFormat)
}

/// The value of an attribute read as a `u32`.
fn number_of(value: &Vec<u8>) -> (res: Result<u32, VersionError>)
    ensures
        res == number_value(value@),
{
    match utf8_string(value.as_slice()) {
        None => Err(VersionError::Utf8Error),
        Some(t) => match parse_u32(t.as_str()) {
            Ok(n) => Ok(n),
            Err(k) => Err(VersionError::ParseError(k)),
        },
    }
}

impl AbletonVersion {
    /// Reads the version from the attributes of the root `Ableton` tag (see
    /// `version_of_attributes`).
    pub fn from_attributes(attributes: &Vec<Option<XmlAttribute>>) -> (res: Result<Self, VersionError>)
        ensures
            res == version_of_attributes(attributes@),
    {
        let mut major: Option<u32> = None;
        let mut minor: Option<u32> = None;
        let mut patch: Option<u32> = None;
        let mut beta = false;
        let ghost init = VersionFields { major: None, minor: None, patch: None, beta: false };
        let mut i: usize = 0;
        assert(attributes@.skip(0) == attributes@);
        while i < attributes.len()
            invariant
                i <= attributes.len(),
                init == (VersionFields { major: None, minor: None, patch: None, beta: false }),
                version_fields(attributes@, init) == version_fields(
                    attributes@.skip(i as int),
                    VersionFields { major, minor, patch, beta },
                ),
            decreases attributes.len() - i,
        {
            assert(attributes@.skip(i as int).drop_first() == attributes@.skip(i + 1));
            proof {
                reveal_strlit("MajorVersion");
                reveal_strlit("MinorVersion");
                reveal_strlit("Creator");
            }
            match &attributes[i] {
                None => return Err(VersionError::AttrError),
                Some(a) => {
                    match utf8_string(a.key.as_slice()) {
                        None => {},
                        Some(key) => {
                            if str_eq(key.as_str(), "MajorVersion") {
                                match number_of(&a.value) {
                                    Err(e) => return Err(e),
                                    Ok(n) => major = Some(n),
                                }
                            } else if str_eq(key.as_str(), "MinorVersion") {
                                match number_of(&a.value) {
                                    Err(e) => return Err(e),
                                    Ok(n) => minor = Some(n),
                                }
                            } else if str_eq(key.as_str(), "Creator") {
                                match utf8_string(a.value.as_slice()) {
                                    None => return Err(VersionError::Utf8Error),
                                    Some(c) => {
                                        match patch_of_creator(c.as_str()) {
                                            Err(e) => return Err(e),
                                            Ok(p) => patch = Some(p),
                                        }
                                        beta = contains_str(c.as_str(), "Beta");
                                    },
                                }
                            }
                        },
                    }
                },
            }
            i = i + 1;
        }
        assert(attributes@.skip(i as int).len() == 0);
        match (major, minor, patch) {
            (Some(major), Some(minor), Some(patch)) => Ok(AbletonVersion { major, minor, patch, beta }),
            _ => Err(VersionError::MissingInfo),
        }
    }
}

/// What the search for the root tag meets first.
pub enum RootTag {
    /// The `Ableton` start tag with its attributes.
    Found(Seq<Option<XmlAttribute>>),
    /// A start tag of another name.
    Other(Seq<char>),
    /// The end of the document.
    Missing,
    Failed(VersionError),
}

/// One event of the search: declarations and everything but start tags and
/// the end are passed over.
pub open spec fn root_step(ev: Result<XmlEvent, XmlSyntaxError>) -> Scan<(), RootTag> {
    match ev {
        Err(_) => Scan::Done(RootTag::Failed(VersionError::XmlParseError(XmlParseError::QuickXmlError))),
        Ok(XmlEvent::Start(el)) => match utf8_text(el.name@) {
            None => Scan::Done(RootTag::Failed(VersionError::Utf8Error)),
            Some(n) => if n == "Ableton"@ {
                Scan::Done(RootTag::Found(el.attributes@))
            } else {
                Scan::Done(RootTag::Other(n))
            },
        },
        Ok(XmlEvent::Eof) => Scan::Done(RootTag::Missing),
        Ok(_) => Scan::Continue(()),
    }
}

pub open spec fn root_step_fn() -> spec_fn((), Result<XmlEvent, XmlSyntaxError>) -> Scan<(), RootTag> {
    |s: (), ev: Result<XmlEvent, XmlSyntaxError>| root_step(ev)
}

/// The first start tag of the document.
pub open spec fn root_tag(source: Seq<u8>) -> RootTag {
    scan_events(source, 0, (), root_step_fn(), RootTag::Failed(VersionError::XmlParseError(XmlParseError::InvalidStructure)))
}

/// `res` is what `load_version` gives for `source`.
pub open spec fn version_matches(res: Result<AbletonVersion, VersionError>, source: Seq<u8>) -> bool {
    match root_tag(source) {
        RootTag::Found(attrs) => res == version_of_attributes(attrs),
        RootTag::Other(name) => res matches Err(VersionError::InvalidFileStructure(m))
            && m@ == "First element is '"@ + name + "', expected 'Ableton'"@,
        RootTag::Missing => res matches Err(VersionError::InvalidFileStructure(m))
            && m@ == "Reached end of file without finding Ableton tag"@,
        RootTag::Failed(e) => res == Err::<AbletonVersion, VersionError>(e),
    }
}

/// Reads the Live version of a set from its first start tag, which must be
/// `Ableton` (see `version_matches`).
pub fn load_version(xml_data: &[u8]) -> (res: Result<AbletonVersion, VersionError>)
    ensures
        version_matches(res, xml_data@),
{
    let ghost f = root_step_fn();
    let ghost ex = RootTag::Failed(VersionError::XmlParseError(XmlParseError::InvalidStructure));
    let mut cursor = XmlCursor::new(xml_data);
    loop
        invariant
            cursor.wf(),
            cursor.source() == xml_data@,
            f == root_step_fn(),
            ex == RootTag::Failed(VersionError::XmlParseError(XmlParseError::InvalidStructure)),
            root_tag(xml_data@) == scan_events(cursor.source(), cursor.position(), (), f, ex),
        decreases cursor.source().len() + 1 - cursor.position(),
    {
        proof {
            cursor.lemma_position_bound();
            lemma_scan_at(cursor.source(), cursor.position(), (), f, ex);
        }
        let ev = match cursor.next() {
            None => return Err(VersionError::XmlParseError(XmlParseError::InvalidStructure)),
            Some(ev) => ev,
        };
        assert(f((), ev) == root_step(ev));
        match ev {
            Err(_) => return Err(VersionError::XmlParseError(XmlParseError::QuickXmlError)),
            Ok(XmlEvent::Start(el)) => {
                let name = match utf8_string(el.name.as_slice()) {
                    None => return Err(VersionError::Utf8Error),
                    Some(n) => n,
                };
                if !str_eq(name.as_str(), "Ableton") {
                    let mut m = String::new();
                    crate::text::push_all(&mut m, "First element is '");
                    crate::text::push_all(&mut m, name.as_str());
                    crate::text::push_all(&mut m, "', expected 'Ableton'");
                    return Err(VersionError::InvalidFileStructure(m));
                }
                return AbletonVersion::from_attributes(&el.attributes);
            },
            Ok(XmlEvent::Eof) => {
                let mut m = String::new();
                crate::text::push_all(&mut m, "Reached end of file without finding Ableton tag");
                return Err(VersionError::InvalidFileStructure(m));
            },
            Ok(_) => {},
        }
        proof {
            cursor.lemma_position_bound();
        }
    }
}

} // verus!
