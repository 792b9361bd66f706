//! Finding the samples a Live set uses.
//!
//! Live 11 and later store each sample's path in a `Path` tag under
//! `SampleRef`; earlier versions store it hex-encoded (UTF-16LE) in the text
//! of a `Data` element under `SampleRef`.
use vstd::prelude::*;
use vstd::string::StringSliceAdditionalSpecFns;
use vstd::utf8::encode_utf8;
use crate::errors::{SampleError, XmlParseError};
use crate::tags::{find_attribute, find_attribute_spec, find_tags, find_tags_spec, tags_view, texts_view, TagView, XmlTag};
use vstd::string::StringExecFns;
use crate::text::{lemma_replaced_empty_len, lemma_replaced_removes, replace_all, replaced, str_eq, utf8_string};
use crate::xml::{
    closes, has_text, lemma_scan_at, lemma_scan_step, opens, scan_events, utf8_text, xml_step, Scan, XmlCursor, XmlEvent,
    XmlSyntaxError,
};

verus! {

/// The value of one hexadecimal digit (either case).
pub open spec fn hex_digit_value(b: u8) -> Option<u8> {
    if 48 <= b <= 57 {
        Some((b - 48) as u8)
    } else if 97 <= b <= 102 {
        Some((b - 87) as u8)
    } else if 65 <= b <= 70 {
        Some((b - 55) as u8)
    } else {
        None
    }
}

/// The bytes that a string of hexadecimal digit pairs stands for; `None` for
/// an odd length or a byte that is not a hexadecimal digit.
pub open spec fn hex_decoded(s: Seq<u8>) -> Option<Seq<u8>> {
    if s.len() % 2 == 0 && forall|i: int| 0 <= i < s.len() ==> (#[trigger] hex_digit_value(s[i])) is Some {
        Some(Seq::new((s.len() / 2) as nat, |i: int| (hex_digit_value(s[2 * i]).unwrap() * 16 + hex_digit_value(s[2 * i + 1]).unwrap()) as u8))
    } else {
        None
    }
}

/// Decodes hexadecimal text (`hex::decode`).
/// Claimed, as the hex crate's source shows: pairs of digits (either case)
/// become bytes; an odd length or a non-digit byte is an error.
#[verifier::external_body]
fn hex_decode(s: &str) -> (res: Option<Vec<u8>>)
    ensures
        match res {
            Some(v) => hex_decoded(s.spec_bytes()) == Some(v@),
            None => hex_decoded(s.spec_bytes()) is None,
        },
{
    hex::decode(s).ok()
}

/// What `encoding_rs::UTF_16LE.decode` makes of `bytes`: the decoded text
/// (after its BOM sniffing) and whether malformed sequences were replaced.
pub uninterp spec fn utf16le_decoded(bytes: Seq<u8>) -> (Seq<char>, bool);

/// Decodes bytes as UTF-16LE (`encoding_rs::UTF_16LE.decode`).
/// Claimed: the text and the error flag are `utf16le_decoded` of the bytes.
/// The length bound keeps encoding_rs's buffer size computation from overflowing.
#[verifier::external_body]
fn utf16le_decode(bytes: &[u8]) -> (res: (String, bool))
    requires
        bytes@.len() <= usize::MAX / 4,
    ensures
        utf16le_decoded(bytes@) == (res.0@, res.1),
{
    let (text, _, had_errors) = encoding_rs::UTF_16LE.decode(bytes);
    (text.into_owned(), had_errors)
}

/// A UTF-8 encoding takes at most four bytes per character.
pub proof fn lemma_encode_utf8_len(chars: Seq<char>)
    ensures
        encode_utf8(chars).len() <= 4 * chars.len(),
    decreases chars.len(),
{
    if chars.len() > 0 {
        lemma_encode_utf8_len(chars.drop_first());
    }
}

/// The text of a pre-Live-11 sample reference: `\t` and `\n` escapes (the
/// two-character sequences) removed, hex-decoded, read as UTF-16LE, NUL
/// characters removed. `Err(true)` is a bad hex string, `Err(false)` bad UTF-16.
pub open spec fn decoded_sample_path(data: Seq<char>) -> Result<Seq<char>, bool> {
    let cleaned = replaced(replaced(data, "\\t"@, Seq::empty()), "\\n"@, Seq::empty());
    match hex_decoded(encode_utf8(cleaned)) {
        None => Err(true),
        Some(bytes) => {
            let (text, had_errors) = utf16le_decoded(bytes);
            if had_errors {
                Err(false)
            } else {
                Ok(replaced(text, "\u{0}"@, Seq::empty()))
            }
        },
    }
}

/// Decodes the hex-encoded UTF-16LE path of a pre-Live-11 sample reference.
/// The path is returned as it is stored; making it canonical on the file
/// system is left to the caller (a failure there is `PathProcessingError`).
pub fn decode_sample_path(abs_hash_path: &str) -> (res: Result<String, SampleError>)
    requires
        abs_hash_path@.len() <= usize::MAX / 8,
    ensures
        match (res, decoded_sample_path(abs_hash_path@)) {
            (Ok(s), Ok(t)) => s@ == t,
            (Err(SampleError::HexDecodeError), Err(true)) => true,
            (Err(SampleError::InvalidUtf16Encoding), Err(false)) => true,
            _ => false,
        },
{
    proof {
        reveal_strlit("\\t");
        reveal_strlit("\\n");
        reveal_strlit("\u{0}");
        reveal_strlit("");
        assert(""@ =~= Seq::<char>::empty());
    }
    let without_tabs = replace_all(abs_hash_path, "\\t", "");
    let cleaned = replace_all(without_tabs.as_str(), "\\n", "");
    proof {
        lemma_replaced_empty_len(abs_hash_path@, "\\t"@);
        lemma_replaced_empty_len(without_tabs@, "\\n"@);
        lemma_encode_utf8_len(cleaned@);
    }
    let bytes = match hex_decode(cleaned.as_str()) {
        None => return Err(SampleError::HexDecodeError),
        Some(b) => b,
    };
    let (text, had_errors) = utf16le_decode(bytes.as_slice());
    if had_errors {
        return Err(SampleError::InvalidUtf16Encoding);
    }
    Ok(replace_all(text.as_str(), "\u{0}", ""))
}

/// The state of the sample data scan: inside `SampleRef`, inside its `Data`,
/// the texts found, the text of the current `Data`.
pub struct SampleDataScan {
    pub in_sample_ref: bool,
    pub in_data: bool,
    pub found: Seq<Seq<char>>,
    pub current: Seq<char>,
}

pub type SampleDataResult = Result<Seq<Seq<char>>, XmlParseError>;

pub open spec fn sample_data_step(s: SampleDataScan, ev: Result<XmlEvent, XmlSyntaxError>) -> Scan<SampleDataScan, SampleDataResult> {
    match ev {
        Err(_) => Scan::Done(Err(XmlParseError::QuickXmlError)),
        Ok(XmlEvent::Start(el)) => match utf8_text(el.name@) {
            None => Scan::Done(Err(XmlParseError::Utf8Error)),
            Some(n) => if n == "SampleRef"@ {
                Scan::Continue(SampleDataScan { in_sample_ref: true, ..s })
            } else if s.in_sample_ref && n == "Data"@ {
                Scan::Continue(SampleDataScan { in_data: true, ..s })
            } else {
                Scan::Continue(s)
            },
        },
        Ok(XmlEvent::Text(b)) => if s.in_data {
            match utf8_text(b@) {
                None => Scan::Done(Err(XmlParseError::Utf8Error)),
                Some(t) => Scan::Continue(SampleDataScan { current: t, ..s }),
            }
        } else {
            Scan::Continue(s)
        },
        Ok(XmlEvent::End(name)) => match utf8_text(name@) {
            None => Scan::Done(Err(XmlParseError::Utf8Error)),
            Some(n) => if n == "Data"@ {
                if s.current.len() > 0 {
                    Scan::Continue(SampleDataScan { in_data: false, found: s.found.push(s.current), current: Seq::empty(), ..s })
                } else {
                    Scan::Continue(SampleDataScan { in_data: false, ..s })
                }
            } else if n == "SampleRef"@ {
                Scan::Continue(SampleDataScan { in_sample_ref: false, ..s })
            } else {
                Scan::Continue(s)
            },
        },
        Ok(XmlEvent::Eof) => Scan::Done(Ok(s.found)),
        Ok(_) => Scan::Continue(s),
    }
}

pub open spec fn sample_data_step_fn() -> spec_fn(SampleDataScan, Result<XmlEvent, XmlSyntaxError>) -> Scan<SampleDataScan, SampleDataResult> {
    |s: SampleDataScan, ev: Result<XmlEvent, XmlSyntaxError>| sample_data_step(s, ev)
}

/// The non-empty texts of the `Data` elements inside `SampleRef` elements.
pub open spec fn sample_path_data_spec(source: Seq<u8>) -> SampleDataResult {
    scan_events(
        source,
        0,
        SampleDataScan { in_sample_ref: false, in_data: false, found: Seq::empty(), current: Seq::empty() },
        sample_data_step_fn(),
        Err(XmlParseError::InvalidStructure),
    )
}

pub open spec fn strings_view(v: Seq<String>) -> Seq<Seq<char>> {
    v.map_values(|s: String| s@)
}

/// Collects the (raw, still encoded) texts of the `Data` elements inside
/// `SampleRef` elements; empty texts are left out.
pub fn find_sample_path_data(xml_data: &[u8]) -> (res: Result<Vec<String>, XmlParseError>)
    ensures
        match (res, sample_path_data_spec(xml_data@)) {
            (Ok(v), Ok(w)) => strings_view(v@) == w,
            (Err(e), Err(f)) => e == f,
            _ => false,
        },
        res matches Ok(v) ==> forall|i: int| 0 <= i < v@.len() ==> (#[trigger] v@[i])@.len() <= xml_data@.len(),
{
    let ghost f = sample_data_step_fn();
    let ghost ex = Err::<Seq<Seq<char>>, XmlParseError>(XmlParseError::InvalidStructure);
    let mut cursor = XmlCursor::new(xml_data);
    let mut in_sample_ref = false;
    let mut in_data = false;
    let mut found: Vec<String> = Vec::new();
    let mut current = String::new();
    assert(strings_view(found@) =~= Seq::<Seq<char>>::empty());
    loop
        invariant
            cursor.wf(),
            cursor.source() == xml_data@,
            f == sample_data_step_fn(),
            ex == Err::<Seq<Seq<char>>, XmlParseError>(XmlParseError::InvalidStructure),
            current@.len() <= xml_data@.len(),
            forall|i: int| 0 <= i < found@.len() ==> (#[trigger] found@[i])@.len() <= xml_data@.len(),
            sample_path_data_spec(xml_data@) == scan_events(cursor.source(), cursor.position(), SampleDataScan {
                in_sample_ref,
                in_data,
                found: strings_view(found@),
                current: current@,
            }, f, ex),
        decreases cursor.source().len() + 1 - cursor.position(),
    {
        let ghost s = SampleDataScan { in_sample_ref, in_data, found: strings_view(found@), current: current@ };
        proof {
            cursor.lemma_position_bound();
            lemma_scan_at(cursor.source(), cursor.position(), s, f, ex);
        }
        let next = cursor.next();
        let ev = match next {
            None => return Err(XmlParseError::InvalidStructure),
            Some(ev) => ev,
        };
        assert(f(s, ev) == sample_data_step(s, ev));
        match ev {
            Err(_) => return Err(XmlParseError::QuickXmlError),
            Ok(XmlEvent::Start(el)) => match utf8_string(el.name.as_slice()) {
                None => return Err(XmlParseError::Utf8Error),
                Some(n) => {
                    if str_eq(n.as_str(), "SampleRef") {
                        in_sample_ref = true;
                    } else if in_sample_ref && str_eq(n.as_str(), "Data") {
                        in_data = true;
                    }
                },
            },
            Ok(XmlEvent::Text(b)) => {
                if in_data {
                    match utf8_string(b.as_slice()) {
                        None => return Err(XmlParseError::Utf8Error),
                        Some(t) => {
                            proof {
                                crate::text::lemma_decode_utf8_len(b@);
                            }
                            current = t;
                        },
                    }
                }
            },
            Ok(XmlEvent::End(name)) => match utf8_string(name.as_slice()) {
                None => return Err(XmlParseError::Utf8Error),
                Some(n) => {
                    if str_eq(n.as_str(), "Data") {
                        in_data = false;
                        if !current.as_str().is_empty() {
                            let ghost before = found@;
                            let mut taken = String::new();
                            std::mem::swap(&mut taken, &mut current);
                            found.push(taken);
                            assert(strings_view(found@) =~= strings_view(before).push(s.current));
                        }
                    } else if str_eq(n.as_str(), "SampleRef") {
                        in_sample_ref = false;
                    }
                },
            },
            Ok(XmlEvent::Eof) => return Ok(found),
            Ok(_) => {},
        }
        proof {
            cursor.lemma_position_bound();
        }
    }
}

/// The events of `source` from position `at` on are those of one sample
/// reference holding data:
/// `<SampleRef><FileRef><Data>text</Data></FileRef></SampleRef>`.
pub open spec fn sample_data_at(source: Seq<u8>, at: nat, text: Seq<char>) -> bool {
    &&& opens(xml_step(source, at), "SampleRef"@)
    &&& opens(xml_step(source, at + 1), "FileRef"@)
    &&& opens(xml_step(source, at + 2), "Data"@)
    &&& has_text(xml_step(source, at + 3), text)
    &&& closes(xml_step(source, at + 4), "Data"@)
    &&& closes(xml_step(source, at + 5), "FileRef"@)
    &&& closes(xml_step(source, at + 6), "SampleRef"@)
}

/// The sample data scan outside any sample reference, with `found` collected.
pub open spec fn sample_scan_outside(found: Seq<Seq<char>>) -> SampleDataScan {
    SampleDataScan { in_sample_ref: false, in_data: false, found, current: Seq::empty() }
}

/// One sample reference with non-empty data adds its text to what was found.
proof fn lemma_sample_data_block(source: Seq<u8>, at: nat, text: Seq<char>, found: Seq<Seq<char>>)
    requires
        at + 7 <= source.len(),
        text.len() > 0,
        sample_data_at(source, at, text),
    ensures
        scan_events(source, at, sample_scan_outside(found), sample_data_step_fn(), Err(XmlParseError::InvalidStructure))
            == scan_events(
            source,
            at + 7,
            sample_scan_outside(found.push(text)),
            sample_data_step_fn(),
            Err(XmlParseError::InvalidStructure),
        ),
{
    reveal_strlit("SampleRef");
    reveal_strlit("FileRef");
    reveal_strlit("Data");
    assert("FileRef"@.len() != "SampleRef"@.len() && "FileRef"@.len() != "Data"@.len());
    assert("Data"@.len() != "SampleRef"@.len());
    let f = sample_data_step_fn();
    let ex = Err::<Seq<Seq<char>>, XmlParseError>(XmlParseError::InvalidStructure);
    let s0 = sample_scan_outside(found);
    let s1 = SampleDataScan { in_sample_ref: true, ..s0 };
    let s3 = SampleDataScan { in_data: true, ..s1 };
    let s4 = SampleDataScan { current: text, ..s3 };
    let s5 = SampleDataScan { in_data: false, found: found.push(text), current: Seq::empty(), ..s4 };
    let s7 = sample_scan_outside(found.push(text));
    lemma_scan_step(source, at, s0, f, ex);
    assert(f(s0, xml_step(source, at)) == Scan::<SampleDataScan, SampleDataResult>::Continue(s1));
    lemma_scan_step(source, at + 1, s1, f, ex);
    assert(f(s1, xml_step(source, at + 1)) == Scan::<SampleDataScan, SampleDataResult>::Continue(s1));
    lemma_scan_step(source, at + 2, s1, f, ex);
    assert(f(s1, xml_step(source, at + 2)) == Scan::<SampleDataScan, SampleDataResult>::Continue(s3));
    lemma_scan_step(source, at + 3, s3, f, ex);
    assert(f(s3, xml_step(source, at + 3)) == Scan::<SampleDataScan, SampleDataResult>::Continue(s4));
    lemma_scan_step(source, at + 4, s4, f, ex);
    assert(f(s4, xml_step(source, at + 4)) == Scan::<SampleDataScan, SampleDataResult>::Continue(s5));
    lemma_scan_step(source, at + 5, s5, f, ex);
    assert(f(s5, xml_step(source, at + 5)) == Scan::<SampleDataScan, SampleDataResult>::Continue(s5));
    lemma_scan_step(source, at + 6, s5, f, ex);
    assert(f(s5, xml_step(source, at + 6)) == Scan::<SampleDataScan, SampleDataResult>::Continue(s7));
}

/// The sample references from the `k`-th on complete what was found before them.
proof fn lemma_sample_data_blocks(source: Seq<u8>, texts: Seq<Seq<char>>, k: nat)
    requires
        k <= texts.len(),
        7 * texts.len() <= source.len(),
        forall|j: int| 0 <= j < texts.len() ==> (#[trigger] texts[j]).len() > 0 && sample_data_at(source, (7 * j) as nat, texts[j]),
        xml_step(source, 7 * texts.len()) matches Ok(XmlEvent::Eof),
    ensures
        scan_events(source, 7 * k, sample_scan_outside(texts.take(k as int)), sample_data_step_fn(), Err(XmlParseError::InvalidStructure))
            == Ok::<Seq<Seq<char>>, XmlParseError>(texts),
    decreases texts.len() - k,
{
    let f = sample_data_step_fn();
    let ex = Err::<Seq<Seq<char>>, XmlParseError>(XmlParseError::InvalidStructure);
    if k == texts.len() {
        assert(texts.take(k as int) =~= texts);
        lemma_scan_step(source, 7 * k, sample_scan_outside(texts), f, ex);
    } else {
        let t = texts[k as int];
        lemma_sample_data_block(source, 7 * k, t, texts.take(k as int));
        assert(texts.take(k as int).push(t) =~= texts.take(k + 1 as int));
        lemma_sample_data_blocks(source, texts, k + 1);
    }
}

/// Every sample reference of a pre-Live-11 set yields its data: in a document
/// made of sample references
/// (`<SampleRef><FileRef><Data>text</Data></FileRef></SampleRef>`) with
/// non-empty data, the texts collected are exactly their data, one for each,
/// in document order, whatever references came before.
pub proof fn law_every_sample_data_collected(source: Seq<u8>, texts: Seq<Seq<char>>)
    requires
        7 * texts.len() <= source.len(),
        forall|j: int| 0 <= j < texts.len() ==> (#[trigger] texts[j]).len() > 0 && sample_data_at(source, (7 * j) as nat, texts[j]),
        xml_step(source, 7 * texts.len()) matches Ok(XmlEvent::Eof),
    ensures
        sample_path_data_spec(source) == Ok::<Seq<Seq<char>>, XmlParseError>(texts),
{
    lemma_sample_data_blocks(source, texts, 0);
    assert(texts.take(0) =~= Seq::<Seq<char>>::empty());
}

/// The events of `source` from position `at` on are those of one sample
/// reference with empty data: `<SampleRef><FileRef><Data></Data></FileRef></SampleRef>`.
pub open spec fn empty_sample_data_at(source: Seq<u8>, at: nat) -> bool {
    &&& opens(xml_step(source, at), "SampleRef"@)
    &&& opens(xml_step(source, at + 1), "FileRef"@)
    &&& opens(xml_step(source, at + 2), "Data"@)
    &&& closes(xml_step(source, at + 3), "Data"@)
    &&& closes(xml_step(source, at + 4), "FileRef"@)
    &&& closes(xml_step(source, at + 5), "SampleRef"@)
}

/// A sample reference with empty data adds nothing to what was found.
proof fn lemma_empty_sample_data_block(source: Seq<u8>, at: nat, found: Seq<Seq<char>>)
    requires
        at + 6 <= source.len(),
        empty_sample_data_at(source, at),
    ensures
        scan_events(source, at, sample_scan_outside(found), sample_data_step_fn(), Err(XmlParseError::InvalidStructure))
            == scan_events(source, at + 6, sample_scan_outside(found), sample_data_step_fn(), Err(XmlParseError::InvalidStructure)),
{
    reveal_strlit("SampleRef");
    reveal_strlit("FileRef");
    reveal_strlit("Data");
    assert("FileRef"@.len() != "SampleRef"@.len() && "FileRef"@.len() != "Data"@.len());
    assert("Data"@.len() != "SampleRef"@.len());
    let f = sample_data_step_fn();
    let ex = Err::<Seq<Seq<char>>, XmlParseError>(XmlParseError::InvalidStructure);
    let s0 = sample_scan_outside(found);
    let s1 = SampleDataScan { in_sample_ref: true, ..s0 };
    let s3 = SampleDataScan { in_data: true, ..s1 };
    lemma_scan_step(source, at, s0, f, ex);
    assert(f(s0, xml_step(source, at)) == Scan::<SampleDataScan, SampleDataResult>::Continue(s1));
    lemma_scan_step(source, at + 1, s1, f, ex);
    assert(f(s1, xml_step(source, at + 1)) == Scan::<SampleDataScan, SampleDataResult>::Continue(s1));
    lemma_scan_step(source, at + 2, s1, f, ex);
    assert(f(s1, xml_step(source, at + 2)) == Scan::<SampleDataScan, SampleDataResult>::Continue(s3));
    lemma_scan_step(source, at + 3, s3, f, ex);
    assert(f(s3, xml_step(source, at + 3)) == Scan::<SampleDataScan, SampleDataResult>::Continue(s1));
    lemma_scan_step(source, at + 4, s1, f, ex);
    assert(f(s1, xml_step(source, at + 4)) == Scan::<SampleDataScan, SampleDataResult>::Continue(s1));
    lemma_scan_step(source, at + 5, s1, f, ex);
    assert(f(s1, xml_step(source, at + 5)) == Scan::<SampleDataScan, SampleDataResult>::Continue(s0));
}

/// Empty data is left out: a sample reference with empty data followed by
/// one with data `text` gives `text` alone.
pub proof fn law_empty_sample_data_left_out(source: Seq<u8>, text: Seq<char>)
    requires
        13 <= source.len(),
        empty_sample_data_at(source, 0),
        text.len() > 0,
        sample_data_at(source, 6, text),
        xml_step(source, 13) matches Ok(XmlEvent::Eof),
    ensures
        sample_path_data_spec(source) == Ok::<Seq<Seq<char>>, XmlParseError>(seq![text]),
{
    let f = sample_data_step_fn();
    let ex = Err::<Seq<Seq<char>>, XmlParseError>(XmlParseError::InvalidStructure);
    lemma_empty_sample_data_block(source, 0, Seq::empty());
    lemma_sample_data_block(source, 6, text, Seq::empty());
    assert(Seq::<Seq<char>>::empty().push(text) =~= seq![text]);
    lemma_scan_step(source, 13, sample_scan_outside(seq![text]), f, ex);
}

/// The decoded paths of pre-Live-11 sample data, in order; the first failure decides.
pub open spec fn decode_all(list: Seq<Seq<char>>) -> Result<Seq<Seq<char>>, bool>
    decreases list.len(),
{
    if list.len() == 0 {
        Ok(Seq::empty())
    } else {
        match decoded_sample_path(list[0]) {
            Err(b) => Err(b),
            Ok(p) => match decode_all(list.drop_first()) {
                Ok(r) => Ok(seq![p] + r),
                Err(b) => Err(b),
            },
        }
    }
}

/// The `Value` of the first `Path` tag of each group that has one, in order.
pub open spec fn tag_paths(groups: Seq<Seq<TagView>>) -> Seq<Seq<char>>
    decreases groups.len(),
{
    if groups.len() == 0 {
        Seq::empty()
    } else {
        match find_attribute_spec(groups[0], "Path"@, "Value"@) {
            Ok(v) => seq![v] + tag_paths(groups.drop_first()),
            Err(_) => tag_paths(groups.drop_first()),
        }
    }
}

pub open spec fn sample_groups_view(r: Seq<(String, Vec<String>)>) -> Seq<(Seq<char>, Seq<Seq<char>>)> {
    r.map_values(|e: (String, Vec<String>)| (e.0@, strings_view(e.1@)))
}

/// The paths per kind of sample reference, as `parse_sample_paths` gives them.
/// Before Live 11: one entry `SampleData` with the decoded `Data` texts (a
/// decoding failure fails the whole). From Live 11 on: for each name collected
/// by `find_tags` (`SampleRef`, one level down) the `Path` values of its groups.
pub open spec fn sample_paths_match(res: Result<Vec<(String, Vec<String>)>, SampleError>, source: Seq<u8>, major_version: u32) -> bool {
    if major_version < 11 {
        match sample_path_data_spec(source) {
            Err(e) => res matches Err(SampleError::XmlError(f)) && e == f,
            Ok(list) => match decode_all(list) {
                Err(true) => res matches Err(SampleError::HexDecodeError),
                Err(false) => res matches Err(SampleError::InvalidUtf16Encoding),
                Ok(paths) => res matches Ok(v) && sample_groups_view(v@) == seq![("SampleData"@, paths)],
            },
        }
    } else {
        match find_tags_spec(source, seq!["SampleRef"@], 1) {
            Err(e) => res matches Err(SampleError::XmlError(f)) && e == f,
            Ok(groups) => res matches Ok(v) && sample_groups_view(v@) == groups.map_values(
                |g: (Seq<char>, Seq<Seq<TagView>>)| (g.0, tag_paths(g.1)),
            ),
        }
    }
}

/// The sample paths of a Live set, per kind of sample reference (see
/// `sample_paths_match`). Paths of sets older than Live 11 are returned as
/// stored; making them canonical on the file system is left to the caller.
pub fn parse_sample_paths(xml_data: &[u8], major_version: u32) -> (res: Result<Vec<(String, Vec<String>)>, SampleError>)
    requires
        xml_data@.len() <= usize::MAX / 8,
    ensures
        sample_paths_match(res, xml_data@, major_version),
{
    if major_version < 11 {
        let data = match find_sample_path_data(xml_data) {
            Ok(d) => d,
            Err(e) => return Err(SampleError::XmlError(e)),
        };
        let ghost list = strings_view(data@);
        let mut decoded: Vec<String> = Vec::new();
        let mut i: usize = 0;
        assert(list.skip(0) == list);
        assert(strings_view(decoded@) =~= Seq::<Seq<char>>::empty());
        while i < data.len()
            invariant
                i <= data.len(),
                list == strings_view(data@),
                forall|k: int| 0 <= k < data@.len() ==> (#[trigger] data@[k])@.len() <= xml_data@.len(),
                xml_data@.len() <= usize::MAX / 8,
                major_version < 11,
                sample_path_data_spec(xml_data@) == Ok::<Seq<Seq<char>>, XmlParseError>(list),
                decode_all(list) == match decode_all(list.skip(i as int)) {
                    Ok(r) => Ok(strings_view(decoded@) + r),
                    Err(b) => Err(b),
                },
            decreases data.len() - i,
        {
            assert(list.skip(i as int).drop_first() == list.skip(i + 1));
            assert(list.skip(i as int)[0] == data@[i as int]@);
            let p = match decode_sample_path(data[i].as_str()) {
                Ok(p) => p,
                Err(e) => {
                    let ghost b = decoded_sample_path(data@[i as int]@)->Err_0;
                    assert(decode_all(list.skip(i as int)) == Err::<Seq<Seq<char>>, bool>(b));
                    assert(decode_all(list) == Err::<Seq<Seq<char>>, bool>(b));
                    return Err(e);
                },
            };
            let ghost before = strings_view(decoded@);
            decoded.push(p);
            assert(strings_view(decoded@) == before.push(p@));
            assert forall|r: Seq<Seq<char>>| before + (seq![p@] + r) == strings_view(decoded@) + r by {
                assert(before + (seq![p@] + r) =~= before.push(p@) + r);
            }
            i = i + 1;
        }
        assert(list.skip(i as int) =~= Seq::<Seq<char>>::empty());
        assert(strings_view(decoded@) + Seq::<Seq<char>>::empty() == strings_view(decoded@));
        let mut out: Vec<(String, Vec<String>)> = Vec::new();
        out.push((String::from_str("SampleData"), decoded));
        assert(sample_groups_view(out@) =~= seq![("SampleData"@, strings_view(decoded@))]);
        Ok(out)
    } else {
        let queries: Vec<&str> = vec!["SampleRef"];
        assert(texts_view(queries@) =~= seq!["SampleRef"@]);
        let groups = match find_tags(xml_data, queries.as_slice(), 1) {
            Ok(g) => g,
            Err(e) => return Err(SampleError::XmlError(e)),
        };
        let ghost gv = crate::tags::groups_view(groups@);
        let ghost target = gv.map_values(|g: (Seq<char>, Seq<Seq<TagView>>)| (g.0, tag_paths(g.1)));
        let mut out: Vec<(String, Vec<String>)> = Vec::new();
        let mut k: usize = 0;
        while k < groups.len()
            invariant
                k <= groups.len(),
                gv == crate::tags::groups_view(groups@),
                target == gv.map_values(|g: (Seq<char>, Seq<Seq<TagView>>)| (g.0, tag_paths(g.1))),
                sample_groups_view(out@) == target.take(k as int),
            decreases groups.len() - k,
        {
            let lists = &groups[k].1;
            let ghost lv = lists@.map_values(|g: Vec<XmlTag>| tags_view(g@));
            assert(gv[k as int].1 == lv);
            let mut paths: Vec<String> = Vec::new();
            let mut j: usize = 0;
            assert(lv.skip(0) == lv);
            assert(strings_view(paths@) =~= Seq::<Seq<char>>::empty());
            while j < lists.len()
                invariant
                    j <= lists.len(),
                    lv == lists@.map_values(|g: Vec<XmlTag>| tags_view(g@)),
                    tag_paths(lv) == strings_view(paths@) + tag_paths(lv.skip(j as int)),
                decreases lists.len() - j,
            {
                assert(lv.skip(j as int).drop_first() == lv.skip(j + 1));
                assert(lv.skip(j as int)[0] == tags_view(lists@[j as int]@));
                let ghost before = strings_view(paths@);
                match find_attribute(lists[j].as_slice(), "Path", "Value") {
                    Ok(p) => {
                        paths.push(p);
                        assert(strings_view(paths@) == before.push(p@));
                        assert(before + (seq![p@] + tag_paths(lv.skip(j + 1))) == strings_view(paths@) + tag_paths(lv.skip(j + 1)));
                    },
                    Err(_) => {},
                }
                j = j + 1;
            }
            assert(lv.skip(j as int) =~= Seq::<Seq<TagView>>::empty());
            assert(strings_view(paths@) + Seq::<Seq<char>>::empty() == strings_view(paths@));
            let ghost before = sample_groups_view(out@);
            out.push((groups[k].0.clone(), paths));
            assert(sample_groups_view(out@) =~= before.push((groups@[k as int].0@, strings_view(paths@))));
            assert(target.take(k + 1) =~= target.take(k as int).push(target[k as int]));
            k = k + 1;
        }
        assert(target.take(k as int) =~= target);
        Ok(out)
    }
}

/// A decoded sample path holds no NUL character.
pub proof fn law_decoded_path_has_no_nul(data: Seq<char>)
    ensures
        decoded_sample_path(data) matches Ok(p) ==> !p.contains('\u{0}'),
{
    reveal_strlit("\u{0}");
    assert("\u{0}"@ =~= seq!['\u{0}']);
    match decoded_sample_path(data) {
        Ok(p) => {
            let cleaned = replaced(replaced(data, "\\t"@, Seq::empty()), "\\n"@, Seq::empty());
            match hex_decoded(encode_utf8(cleaned)) {
                Some(bytes) => {
                    let (text, _) = utf16le_decoded(bytes);
                    lemma_replaced_removes(text, '\u{0}');
                },
                None => {},
            }
        },
        Err(_) => {},
    }
}

} // verus!
