//! Finding the tempo of a Live set (Live 10 and later).
use vstd::prelude::*;
use crate::assoc::{first_index, key_position, keys_of, string_keys};
use crate::errors::{TempoError, XmlParseError};
use crate::tags::{find_attribute, find_attribute_spec, find_tags, find_tags_spec, groups_view, tags_view, texts_view, TagView, XmlTag};
use crate::text::{str_eq, utf8_string};
use crate::xml::{closes, empty_with_value, lemma_scan_step, opens, read_xml_event, xml_step, scan_events, utf8_text, xml_reader, reader_source, reader_steps, Scan, XmlAttribute, XmlEvent, XmlSyntaxError};

verus! {

/// What the attributes of a `Manual` tag inside `Tempo` give: the first
/// readable attribute named `Value` (attributes quick-xml could not read are
/// skipped), or a UTF-8 error met on the way; `None` when there is no such attribute.
pub open spec fn manual_value(attrs: Seq<Option<XmlAttribute>>) -> Option<Result<Seq<char>, TempoError>>
    decreases attrs.len(),
{
    if attrs.len() == 0 {
        None
    } else {
        match attrs[0] {
            None => manual_value(attrs.drop_first()),
            Some(a) => match utf8_text(a.key@) {
                None => Some(Err(TempoError::XmlError(XmlParseError::Utf8Error))),
                Some(key) => if key == "Value"@ {
                    match utf8_text(a.value@) {
                        None => Some(Err(TempoError::XmlError(XmlParseError::Utf8Error))),
                        Some(v) => Some(Ok(v)),
                    }
                } else {
                    manual_value(attrs.drop_first())
                },
            },
        }
    }
}

/// One event of the tempo scan; the state says whether the scan is inside `Tempo`.
pub open spec fn tempo_step(in_tempo: bool, ev: Result<XmlEvent, XmlSyntaxError>) -> Scan<bool, Result<Seq<char>, TempoError>> {
    let utf8_err = Scan::Done(Err(TempoError::XmlError(XmlParseError::Utf8Error)));
    match ev {
        Err(_) => Scan::Done(Err(TempoError::XmlError(XmlParseError::QuickXmlError))),
        Ok(XmlEvent::Start(el)) => match utf8_text(el.name@) {
            None => utf8_err,
            Some(n) => Scan::Continue(in_tempo || n == "Tempo"@),
        },
        Ok(XmlEvent::Empty(el)) => if !in_tempo {
            Scan::Continue(in_tempo)
        } else {
            match utf8_text(el.name@) {
                None => utf8_err,
                Some(n) => if n == "Manual"@ {
                    match manual_value(el.attributes@) {
                        Some(r) => Scan::Done(r),
                        None => Scan::Continue(in_tempo),
                    }
                } else {
                    Scan::Continue(in_tempo)
                },
            }
        },
        Ok(XmlEvent::End(name)) => if !in_tempo {
            Scan::Continue(in_tempo)
        } else {
            match utf8_text(name@) {
                None => utf8_err,
                Some(n) => Scan::Continue(n != "Tempo"@),
            }
        },
        Ok(XmlEvent::Eof) => Scan::Done(Err(TempoError::TempoNotFound)),
        Ok(_) => Scan::Continue(in_tempo),
    }
}

pub open spec fn tempo_step_fn() -> spec_fn(bool, Result<XmlEvent, XmlSyntaxError>) -> Scan<bool, Result<Seq<char>, TempoError>> {
    |s: bool, ev: Result<XmlEvent, XmlSyntaxError>| tempo_step(s, ev)
}

/// The text of the tempo of a Live 10+ set: the `Value` of the first `Manual`
/// tag met inside a `Tempo` element.
pub open spec fn post_10_tempo(source: Seq<u8>) -> Result<Seq<char>, TempoError> {
    scan_events(source, 0, false, tempo_step_fn(), Err(TempoError::XmlError(XmlParseError::InvalidStructure)))
}

/// A string result equals a result over characters.
pub open spec fn same_text_result<E>(res: Result<String, E>, spec: Result<Seq<char>, E>) -> bool {
    match (res, spec) {
        (Ok(s), Ok(t)) => s@ == t,
        (Err(e), Err(f)) => e == f,
        _ => false,
    }
}

fn manual_value_exec(attrs: &Vec<Option<XmlAttribute>>) -> (res: Option<Result<String, TempoError>>)
    ensures
        match (res, manual_value(attrs@)) {
            (None, None) => true,
            (Some(r), Some(s)) => same_text_result(r, s),
            _ => false,
        },
{
    let mut i: usize = 0;
    assert(attrs@.skip(0) == attrs@);
    while i < attrs.len()
        invariant
            i <= attrs.len(),
            manual_value(attrs@) == manual_value(attrs@.skip(i as int)),
        decreases attrs.len() - i,
    {
        assert(attrs@.skip(i as int).drop_first() == attrs@.skip(i + 1));
        match &attrs[i] {
            None => {},
            Some(a) => {
                match utf8_string(a.key.as_slice()) {
                    None => return Some(Err(TempoError::XmlError(XmlParseError::Utf8Error))),
                    Some(key) => {
                        if str_eq(key.as_str(), "Value") {
                            return match utf8_string(a.value.as_slice()) {
                                None => Some(Err(TempoError::XmlError(XmlParseError::Utf8Error))),
                                Some(v) => Some(Ok(v)),
                            };
                        }
                    },
                }
            },
        }
        i = i + 1;
    }
    None
}

/// Finds the tempo of a Live 10+ set: the text of the `Value` attribute of
/// the first `Manual` tag inside `Tempo`. Reading that text as a number is
/// left to the caller (a failure there is `TempoError::InvalidTempoValue`).
pub fn find_post_10_tempo(xml_data: &[u8]) -> (res: Result<String, TempoError>)
    ensures
        same_text_result(res, post_10_tempo(xml_data@)),
{
    let ghost src = xml_data@;
    let mut reader = xml_reader(xml_data);
    let mut in_tempo = false;
    let mut i: usize = 0;
    loop
        invariant
            src == xml_data@,
            i <= src.len(),
            reader_source(reader) == src,
            reader_steps(reader) == i,
            post_10_tempo(src) == scan_events(src, i as nat, in_tempo, tempo_step_fn(), Err(TempoError::XmlError(XmlParseError::InvalidStructure))),
        decreases src.len() - i,
    {
        let ev = read_xml_event(&mut reader);
        let ghost step = tempo_step(in_tempo, ev);
        proof {
            lemma_scan_step(src, i as nat, in_tempo, tempo_step_fn(), Err(TempoError::XmlError(XmlParseError::InvalidStructure)));
            assert(tempo_step_fn()(in_tempo, ev) == step);
        }
        match ev {
            Err(_) => {
                return Err(TempoError::XmlError(XmlParseError::QuickXmlError));
            },
            Ok(XmlEvent::Start(el)) => match utf8_string(el.name.as_slice()) {
                None => return Err(TempoError::XmlError(XmlParseError::Utf8Error)),
                Some(n) => {
                    if str_eq(n.as_str(), "Tempo") {
                        in_tempo = true;
                    }
                },
            },
            Ok(XmlEvent::Empty(el)) => {
                if in_tempo {
                    match utf8_string(el.name.as_slice()) {
                        None => return Err(TempoError::XmlError(XmlParseError::Utf8Error)),
                        Some(n) => {
                            if str_eq(n.as_str(), "Manual") {
                                match manual_value_exec(&el.attributes) {
                                    Some(r) => return r,
                                    None => {},
                                }
                            }
                        },
                    }
                }
            },
            Ok(XmlEvent::End(name)) => {
                if in_tempo {
                    match utf8_string(name.as_slice()) {
                        None => return Err(TempoError::XmlError(XmlParseError::Utf8Error)),
                        Some(n) => {
                            if str_eq(n.as_str(), "Tempo") {
                                in_tempo = false;
                            }
                        },
                    }
                }
            },
            Ok(XmlEvent::Eof) => return Err(TempoError::TempoNotFound),
            Ok(_) => {},
        }
        assert(step == Scan::<bool, Result<Seq<char>, TempoError>>::Continue(in_tempo));
        if i == xml_data.len() {
            return Err(TempoError::XmlError(XmlParseError::InvalidStructure));
        }
        i = i + 1;
    }
}

/// The first `Manual` inside `Tempo` gives the tempo, whatever follows: a
/// document that begins `<Tempo><Manual Value="v"/>` has the tempo `v`.
pub proof fn law_first_manual_in_tempo_gives_the_tempo(source: Seq<u8>, v: Seq<char>)
    requires
        2 <= source.len(),
        opens(xml_step(source, 0), "Tempo"@),
        empty_with_value(xml_step(source, 1), "Manual"@, v),
    ensures
        post_10_tempo(source) == Ok::<Seq<char>, TempoError>(v),
{
    reveal_strlit("Tempo");
    reveal_strlit("Manual");
    reveal_strlit("Value");
    reveal_with_fuel(manual_value, 2);
    let f = tempo_step_fn();
    let ex = Err::<Seq<char>, TempoError>(TempoError::XmlError(XmlParseError::InvalidStructure));
    lemma_scan_step(source, 0, false, f, ex);
    assert(f(false, xml_step(source, 0)) == Scan::<bool, Result<Seq<char>, TempoError>>::Continue(true));
    lemma_scan_step(source, 1, true, f, ex);
}

/// A `Manual` after its `Tempo` has closed gives no tempo: the document
/// `<Tempo></Tempo><Manual Value="v"/>` has none.
pub proof fn law_manual_after_tempo_is_ignored(source: Seq<u8>, v: Seq<char>)
    requires
        3 <= source.len(),
        opens(xml_step(source, 0), "Tempo"@),
        closes(xml_step(source, 1), "Tempo"@),
        empty_with_value(xml_step(source, 2), "Manual"@, v),
        xml_step(source, 3) matches Ok(XmlEvent::Eof),
    ensures
        post_10_tempo(source) == Err::<Seq<char>, TempoError>(TempoError::TempoNotFound),
{
    reveal_strlit("Tempo");
    let f = tempo_step_fn();
    let ex = Err::<Seq<char>, TempoError>(TempoError::XmlError(XmlParseError::InvalidStructure));
    lemma_scan_step(source, 0, false, f, ex);
    assert(f(false, xml_step(source, 0)) == Scan::<bool, Result<Seq<char>, TempoError>>::Continue(true));
    lemma_scan_step(source, 1, true, f, ex);
    assert(f(true, xml_step(source, 1)) == Scan::<bool, Result<Seq<char>, TempoError>>::Continue(false));
    lemma_scan_step(source, 2, false, f, ex);
    assert(f(false, xml_step(source, 2)) == Scan::<bool, Result<Seq<char>, TempoError>>::Continue(false));
    lemma_scan_step(source, 3, false, f, ex);
}

/// The `Value` of the first `FloatEvent` tag of the first group that has one.
pub open spec fn first_float_value(groups: Seq<Seq<TagView>>) -> Option<Seq<char>>
    decreases groups.len(),
{
    if groups.len() == 0 {
        None
    } else {
        match find_attribute_spec(groups[0], "FloatEvent"@, "Value"@) {
            Ok(v) => Some(v),
            Err(_) => first_float_value(groups.drop_first()),
        }
    }
}

/// The text of the tempo of a set older than Live 10: among the tags found
/// directly inside `FloatEvent` elements, the `Value` of the first group's
/// first `FloatEvent` tag that has one.
pub open spec fn pre_10_tempo(source: Seq<u8>) -> Result<Seq<char>, TempoError> {
    match find_tags_spec(source, seq!["FloatEvent"@], 0) {
        Err(e) => Err(TempoError::XmlError(e)),
        Ok(all) => match first_index(keys_of(all), "FloatEvent"@) {
            None => Err(TempoError::TempoNotFound),
            Some(j) => match first_float_value(all[j].1) {
                Some(v) => Ok(v),
                None => Err(TempoError::TempoNotFound),
            },
        },
    }
}

/// Finds the tempo of a set older than Live 10 (see `pre_10_tempo`). Reading
/// the text as a number is left to the caller (a failure there is
/// `TempoError::InvalidTempoValue`).
pub fn find_pre_10_tempo(xml_data: &[u8]) -> (res: Result<String, TempoError>)
    ensures
        same_text_result(res, pre_10_tempo(xml_data@)),
{
    let queries: Vec<&str> = vec!["FloatEvent"];
    assert(texts_view(queries@) =~= seq!["FloatEvent"@]);
    let all = match find_tags(xml_data, queries.as_slice(), 0) {
        Ok(g) => g,
        Err(e) => return Err(TempoError::XmlError(e)),
    };
    let ghost gv = groups_view(all@);
    assert(keys_of(gv) =~= string_keys(all@));
    let j = match key_position(&all, "FloatEvent") {
        None => return Err(TempoError::TempoNotFound),
        Some(j) => j,
    };
    let groups = &all[j].1;
    let ghost lv = groups@.map_values(|g: Vec<XmlTag>| tags_view(g@));
    assert(gv[j as int].1 == lv);
    let mut k: usize = 0;
    assert(lv.skip(0) == lv);
    assert(pre_10_tempo(xml_data@) == match first_float_value(lv) {
        Some(v) => Ok::<Seq<char>, TempoError>(v),
        None => Err(TempoError::TempoNotFound),
    });
    while k < groups.len()
        invariant
            k <= groups.len(),
            pre_10_tempo(xml_data@) == match first_float_value(lv) {
                Some(v) => Ok::<Seq<char>, TempoError>(v),
                None => Err(TempoError::TempoNotFound),
            },
            lv == groups@.map_values(|g: Vec<XmlTag>| tags_view(g@)),
            first_float_value(lv) == first_float_value(lv.skip(k as int)),
        decreases groups.len() - k,
    {
        assert(lv.skip(k as int).drop_first() == lv.skip(k + 1));
        assert(lv.skip(k as int)[0] == tags_view(groups@[k as int]@));
        match find_attribute(groups[k].as_slice(), "FloatEvent", "Value") {
            Ok(v) => return Ok(v),
            Err(_) => {},
        }
        k = k + 1;
    }
    Err(TempoError::TempoNotFound)
}

} // verus!
