//! Collecting tags from the XML of a Live set: groups of tags under named
//! elements, single empty elements, and attribute lookups.
use vstd::prelude::*;
use crate::assoc::{contains_text, first_index, key_position, keys_of, string_keys};
use crate::errors::{AttributeError, XmlParseError};
use crate::text::{str_eq, utf8_string};
use crate::xml::{
    lemma_scan_step, read_xml_event, reader_source, reader_steps, scan_events, utf8_text,
    xml_reader, xml_step, Scan, XmlAttribute, XmlEvent, XmlSyntaxError,
};

verus! {

/// An empty element met inside a searched element: its name and attributes as text.
pub struct XmlTag {
    pub name: String,
    pub attributes: Vec<(String, String)>,
}

/// A tag as text: its name and its attribute pairs in document order.
pub type TagView = (Seq<char>, Seq<(Seq<char>, Seq<char>)>);

pub open spec fn pairs_view(p: Seq<(String, String)>) -> Seq<(Seq<char>, Seq<char>)> {
    p.map_values(|e: (String, String)| (e.0@, e.1@))
}

impl View for XmlTag {
    type V = TagView;

    open spec fn view(&self) -> TagView {
        (self.name@, pairs_view(self.attributes@))
    }
}

pub open spec fn tags_view(t: Seq<XmlTag>) -> Seq<TagView> {
    t.map_values(|x: XmlTag| x@)
}

/// The attributes of an element as text, in order; the first attribute that
/// quick-xml could not read, or whose key or value is not UTF-8, is an error.
pub open spec fn attributes_text(attrs: Seq<Option<XmlAttribute>>) -> Result<Seq<(Seq<char>, Seq<char>)>, XmlParseError>
    decreases attrs.len(),
{
    if attrs.len() == 0 {
        Ok(Seq::empty())
    } else {
        match attrs[0] {
            None => Err(XmlParseError::AttrError),
            Some(a) => match utf8_text(a.key@) {
                None => Err(XmlParseError::Utf8Error),
                Some(k) => match utf8_text(a.value@) {
                    None => Err(XmlParseError::Utf8Error),
                    Some(v) => match attributes_text(attrs.drop_first()) {
                        Ok(rest) => Ok(seq![(k, v)] + rest),
                        Err(e) => Err(e),
                    },
                },
            },
        }
    }
}

/// The attributes of an element as text pairs (see `attributes_text`).
pub fn parse_event_attributes(attrs: &Vec<Option<XmlAttribute>>) -> (res: Result<Vec<(String, String)>, XmlParseError>)
    ensures
        match (res, attributes_text(attrs@)) {
            (Ok(p), Ok(q)) => pairs_view(p@) == q,
            (Err(e), Err(f)) => e == f,
            _ => false,
        },
{
    let mut out: Vec<(String, String)> = Vec::new();
    let mut i: usize = 0;
    assert(attrs@.skip(0) == attrs@);
    while i < attrs.len()
        invariant
            i <= attrs.len(),
            attributes_text(attrs@) == match attributes_text(attrs@.skip(i as int)) {
                Ok(r) => Ok(pairs_view(out@) + r),
                Err(e) => Err(e),
            },
        decreases attrs.len() - i,
    {
        assert(attrs@.skip(i as int).drop_first() == attrs@.skip(i + 1));
        match &attrs[i] {
            None => return Err(XmlParseError::AttrError),
            Some(a) => match utf8_string(a.key.as_slice()) {
                None => return Err(XmlParseError::Utf8Error),
                Some(k) => match utf8_string(a.value.as_slice()) {
                    None => return Err(XmlParseError::Utf8Error),
                    Some(v) => {
                        let ghost before = pairs_view(out@);
                        out.push((k, v));
                        assert(pairs_view(out@) == before.push((k@, v@)));
                        assert forall|r: Seq<(Seq<char>, Seq<char>)>| before + (seq![(k@, v@)] + r) == pairs_view(out@) + r by {
                            assert(before + (seq![(k@, v@)] + r) =~= before.push((k@, v@)) + r);
                        }
                    },
                },
            },
        }
        i = i + 1;
    }
    assert(attrs@.skip(i as int) =~= Seq::<Option<XmlAttribute>>::empty());
    assert(pairs_view(out@) + Seq::<(Seq<char>, Seq<char>)>::empty() == pairs_view(out@));
    Ok(out)
}

/// The value of the last attribute named `key` (later duplicates replace earlier ones).
pub open spec fn last_value(pairs: Seq<(Seq<char>, Seq<char>)>, key: Seq<char>) -> Option<Seq<char>>
    decreases pairs.len(),
{
    if pairs.len() == 0 {
        None
    } else if pairs.last().0 == key {
        Some(pairs.last().1)
    } else {
        last_value(pairs.drop_last(), key)
    }
}

/// The value of the last attribute named `key` among `pairs`.
pub fn attribute_value(pairs: &Vec<(String, String)>, key: &str) -> (res: Option<String>)
    ensures
        match (res, last_value(pairs_view(pairs@), key@)) {
            (Some(s), Some(t)) => s@ == t,
            (None, None) => true,
            _ => false,
        },
{
    let mut i: usize = pairs.len();
    assert(pairs_view(pairs@).take(i as int) == pairs_view(pairs@));
    while i > 0
        invariant
            i <= pairs.len(),
            last_value(pairs_view(pairs@), key@) == last_value(pairs_view(pairs@).take(i as int), key@),
        decreases i,
    {
        let ghost pv = pairs_view(pairs@).take(i as int);
        assert(pv.drop_last() == pairs_view(pairs@).take(i - 1));
        if str_eq(pairs[i - 1].0.as_str(), key) {
            return Some(pairs[i - 1].1.clone());
        }
        i = i - 1;
    }
    None
}

/// The result of `find_attribute` over text: the first tag named `tag_query`
/// decides; inside it the first attribute named `attribute_query` gives the
/// value. `Err(true)` is a missing attribute, `Err(false)` a missing tag.
pub open spec fn find_attribute_spec(tags: Seq<TagView>, tag_query: Seq<char>, attribute_query: Seq<char>) -> Result<Seq<char>, bool>
    decreases tags.len(),
{
    if tags.len() == 0 {
        Err(false)
    } else if tags[0].0 == tag_query {
        match first_value(tags[0].1, attribute_query) {
            Some(v) => Ok(v),
            None => Err(true),
        }
    } else {
        find_attribute_spec(tags.drop_first(), tag_query, attribute_query)
    }
}

/// The value of the first pair whose key is `key`.
pub open spec fn first_value(pairs: Seq<(Seq<char>, Seq<char>)>, key: Seq<char>) -> Option<Seq<char>>
    decreases pairs.len(),
{
    if pairs.len() == 0 {
        None
    } else if pairs[0].0 == key {
        Some(pairs[0].1)
    } else {
        first_value(pairs.drop_first(), key)
    }
}

/// Finds the value of attribute `attribute_query` of the first tag named
/// `tag_query`. The first tag of that name decides: when it lacks the
/// attribute the result is `ValueNotFound`, when no tag has the name it is `NotFound`.
pub fn find_attribute(tags: &[XmlTag], tag_query: &str, attribute_query: &str) -> (res: Result<String, AttributeError>)
    ensures
        match (res, find_attribute_spec(tags_view(tags@), tag_query@, attribute_query@)) {
            (Ok(s), Ok(t)) => s@ == t,
            (Err(AttributeError::ValueNotFound(s)), Err(true)) => s@ == attribute_query@,
            (Err(AttributeError::NotFound(s)), Err(false)) => s@ == tag_query@,
            _ => false,
        },
{
    let ghost tv = tags_view(tags@);
    let mut i: usize = 0;
    assert(tv.skip(0) == tv);
    while i < tags.len()
        invariant
            i <= tags.len(),
            tv == tags_view(tags@),
            find_attribute_spec(tv, tag_query@, attribute_query@) == find_attribute_spec(tv.skip(i as int), tag_query@, attribute_query@),
        decreases tags.len() - i,
    {
        assert(tv.skip(i as int).drop_first() == tv.skip(i + 1));
        assert(tv.skip(i as int)[0] == tags[i as int]@);
        if str_eq(tags[i].name.as_str(), tag_query) {
            let pairs = &tags[i].attributes;
            let ghost pv = pairs_view(pairs@);
            let mut j: usize = 0;
            assert(pv.skip(0) == pv);
            assert(find_attribute_spec(tv, tag_query@, attribute_query@) == match first_value(pv, attribute_query@) {
                Some(v) => Ok::<Seq<char>, bool>(v),
                None => Err(true),
            });
            while j < pairs.len()
                invariant
                    j <= pairs.len(),
                    tv == tags_view(tags@),
                    pv == pairs_view(pairs@),
                    first_value(pv, attribute_query@) == first_value(pv.skip(j as int), attribute_query@),
                    find_attribute_spec(tv, tag_query@, attribute_query@) == match first_value(pv, attribute_query@) {
                        Some(v) => Ok::<Seq<char>, bool>(v),
                        None => Err(true),
                    },
                decreases pairs.len() - j,
            {
                assert(pv.skip(j as int).drop_first() == pv.skip(j + 1));
                assert(pv.skip(j as int)[0] == (pairs@[j as int].0@, pairs@[j as int].1@));
                if str_eq(pairs[j].0.as_str(), attribute_query) {
                    return Ok(pairs[j].1.clone());
                }
                j = j + 1;
            }
            return Err(AttributeError::ValueNotFound(attribute_query.to_string()));
        }
        i = i + 1;
    }
    Err(AttributeError::NotFound(tag_query.to_string()))
}

/// One event of the search for the first empty element named `query`.
/// `Done(None)` is the end of the document without such an element.
pub open spec fn empty_event_step(query: Seq<char>, ev: Result<XmlEvent, XmlSyntaxError>)
    -> Scan<(), Option<Result<Seq<(Seq<char>, Seq<char>)>, XmlParseError>>> {
    match ev {
        Err(_) => Scan::Done(Some(Err(XmlParseError::QuickXmlError))),
        Ok(XmlEvent::Empty(el)) => match utf8_text(el.name@) {
            None => Scan::Done(Some(Err(XmlParseError::Utf8Error))),
            Some(n) => if n == query {
                Scan::Done(Some(attributes_text(el.attributes@)))
            } else {
                Scan::Continue(())
            },
        },
        Ok(XmlEvent::Eof) => Scan::Done(None),
        Ok(_) => Scan::Continue(()),
    }
}

pub open spec fn empty_event_step_fn(query: Seq<char>)
    -> spec_fn((), Result<XmlEvent, XmlSyntaxError>) -> Scan<(), Option<Result<Seq<(Seq<char>, Seq<char>)>, XmlParseError>>> {
    |s: (), ev: Result<XmlEvent, XmlSyntaxError>| empty_event_step(query, ev)
}

/// The attributes of the first empty element named `query`; `None` when the
/// document ends without one.
pub open spec fn empty_event_spec(source: Seq<u8>, query: Seq<char>) -> Option<Result<Seq<(Seq<char>, Seq<char>)>, XmlParseError>> {
    scan_events(source, 0, (), empty_event_step_fn(query), Some(Err(XmlParseError::InvalidStructure)))
}

/// Finds the first empty element named `search_query` and returns its
/// attributes in document order (a lookup takes the last of equal keys, see
/// `attribute_value`). The end of the document gives `EventNotFound`.
pub fn find_empty_event(xml_data: &[u8], search_query: &str) -> (res: Result<Vec<(String, String)>, XmlParseError>)
    ensures
        match (res, empty_event_spec(xml_data@, search_query@)) {
            (Err(XmlParseError::EventNotFound(q)), None) => q@ == search_query@,
            (Ok(p), Some(Ok(q))) => pairs_view(p@) == q,
            (Err(e), Some(Err(f))) => e == f,
            _ => false,
        },
{
    let ghost src = xml_data@;
    let ghost f = empty_event_step_fn(search_query@);
    let ghost ex = Some(Err::<Seq<(Seq<char>, Seq<char>)>, XmlParseError>(XmlParseError::InvalidStructure));
    let mut reader = xml_reader(xml_data);
    let mut i: usize = 0;
    loop
        invariant
            src == xml_data@,
            f == empty_event_step_fn(search_query@),
            ex == Some(Err::<Seq<(Seq<char>, Seq<char>)>, XmlParseError>(XmlParseError::InvalidStructure)),
            i <= src.len(),
            reader_source(reader) == src,
            reader_steps(reader) == i,
            empty_event_spec(src, search_query@) == scan_events(src, i as nat, (), f, ex),
        decreases src.len() - i,
    {
        let ev = read_xml_event(&mut reader);
        proof {
            lemma_scan_step(src, i as nat, (), f, ex);
            assert(f((), ev) == empty_event_step(search_query@, ev));
        }
        match ev {
            Err(_) => return Err(XmlParseError::QuickXmlError),
            Ok(XmlEvent::Empty(el)) => match utf8_string(el.name.as_slice()) {
                None => return Err(XmlParseError::Utf8Error),
                Some(n) => {
                    if str_eq(n.as_str(), search_query) {
                        return parse_event_attributes(&el.attributes);
                    }
                },
            },
            Ok(XmlEvent::Eof) => return Err(XmlParseError::EventNotFound(search_query.to_string())),
            Ok(_) => {},
        }
        if i == xml_data.len() {
            return Err(XmlParseError::InvalidStructure);
        }
        i = i + 1;
    }
}

/// The state of the tag collection: the finished groups per searched name,
/// the open group per searched name, whether a searched element is open, the
/// depth below it, and the searched name last opened.
pub struct TagScan {
    pub all: Seq<(Seq<char>, Seq<Seq<TagView>>)>,
    pub cur: Seq<(Seq<char>, Seq<TagView>)>,
    pub in_target: bool,
    pub depth: u8,
    pub query: Seq<char>,
}

/// `list` with an empty entry for `k` added when it has none.
pub open spec fn entry_or_empty<V>(list: Seq<(Seq<char>, Seq<V>)>, k: Seq<char>) -> Seq<(Seq<char>, Seq<V>)> {
    match first_index(keys_of(list), k) {
        Some(_) => list,
        None => list.push((k, Seq::empty())),
    }
}

/// `list` with `x` appended to the entry of `k` (a new entry when there is none).
pub open spec fn append_at<V>(list: Seq<(Seq<char>, Seq<V>)>, k: Seq<char>, x: V) -> Seq<(Seq<char>, Seq<V>)> {
    match first_index(keys_of(list), k) {
        Some(j) => list.update(j, (k, list[j].1.push(x))),
        None => list.push((k, seq![x])),
    }
}

pub open spec fn wrapping_inc(d: u8) -> u8 {
    if d == 255 { 0 } else { (d + 1) as u8 }
}

pub open spec fn wrapping_dec(d: u8) -> u8 {
    if d == 0 { 255 } else { (d - 1) as u8 }
}

pub type TagGroups = Seq<(Seq<char>, Seq<Seq<TagView>>)>;

/// One event of `find_tags`. A start tag whose name is searched opens a group
/// (depth 0); inside it, empty elements at `target_depth` join the group; the
/// end tag of the searched name closes the group into the finished ones.
pub open spec fn tag_scan_step(queries: Seq<Seq<char>>, target_depth: u8, s: TagScan, ev: Result<XmlEvent, XmlSyntaxError>)
    -> Scan<TagScan, Result<TagGroups, XmlParseError>> {
    match ev {
        Err(_) => Scan::Done(Err(XmlParseError::QuickXmlError)),
        Ok(XmlEvent::Start(el)) => match utf8_text(el.name@) {
            None => Scan::Done(Err(XmlParseError::Utf8Error)),
            Some(n) => if queries.contains(n) {
                Scan::Continue(TagScan { in_target: true, depth: 0, query: n, cur: entry_or_empty(s.cur, n), ..s })
            } else if s.in_target {
                Scan::Continue(TagScan { depth: wrapping_inc(s.depth), ..s })
            } else {
                Scan::Continue(s)
            },
        },
        Ok(XmlEvent::Empty(el)) => if s.in_target && s.depth == target_depth {
            match utf8_text(el.name@) {
                None => Scan::Done(Err(XmlParseError::Utf8Error)),
                Some(n) => match attributes_text(el.attributes@) {
                    Err(e) => Scan::Done(Err(e)),
                    Ok(p) => match first_index(keys_of(s.cur), s.query) {
                        None => Scan::Done(Err(XmlParseError::InvalidStructure)),
                        Some(_) => Scan::Continue(TagScan { cur: append_at(s.cur, s.query, (n, p)), ..s }),
                    },
                },
            }
        } else {
            Scan::Continue(s)
        },
        Ok(XmlEvent::End(name)) => match utf8_text(name@) {
            None => Scan::Done(Err(XmlParseError::Utf8Error)),
            Some(n) => if n == s.query {
                match first_index(keys_of(s.cur), s.query) {
                    None => Scan::Done(Err(XmlParseError::InvalidStructure)),
                    Some(k) => Scan::Continue(TagScan {
                        in_target: false,
                        all: append_at(s.all, s.query, s.cur[k].1),
                        cur: s.cur.update(k, (s.query, Seq::empty())),
                        ..s
                    }),
                }
            } else if s.in_target {
                Scan::Continue(TagScan { depth: wrapping_dec(s.depth), ..s })
            } else {
                Scan::Continue(s)
            },
        },
        Ok(XmlEvent::Eof) => Scan::Done(Ok(s.all)),
        Ok(_) => Scan::Continue(s),
    }
}

pub open spec fn tag_scan_step_fn(queries: Seq<Seq<char>>, target_depth: u8)
    -> spec_fn(TagScan, Result<XmlEvent, XmlSyntaxError>) -> Scan<TagScan, Result<TagGroups, XmlParseError>> {
    |s: TagScan, ev: Result<XmlEvent, XmlSyntaxError>| tag_scan_step(queries, target_depth, s, ev)
}

pub open spec fn tag_scan_start() -> TagScan {
    TagScan { all: Seq::empty(), cur: Seq::empty(), in_target: false, depth: 0, query: Seq::empty() }
}

/// The groups that `find_tags` collects from `source`.
pub open spec fn find_tags_spec(source: Seq<u8>, queries: Seq<Seq<char>>, target_depth: u8) -> Result<TagGroups, XmlParseError> {
    scan_events(source, 0, tag_scan_start(), tag_scan_step_fn(queries, target_depth), Err(XmlParseError::InvalidStructure))
}

pub open spec fn texts_view(q: Seq<&str>) -> Seq<Seq<char>> {
    q.map_values(|s: &str| s@)
}

pub open spec fn cur_view(c: Seq<(String, Vec<XmlTag>)>) -> Seq<(Seq<char>, Seq<TagView>)> {
    c.map_values(|e: (String, Vec<XmlTag>)| (e.0@, tags_view(e.1@)))
}

pub open spec fn groups_view(a: Seq<(String, Vec<Vec<XmlTag>>)>) -> TagGroups {
    a.map_values(|e: (String, Vec<Vec<XmlTag>>)| (e.0@, e.1@.map_values(|g: Vec<XmlTag>| tags_view(g@))))
}

proof fn lemma_cur_keys(c: Seq<(String, Vec<XmlTag>)>)
    ensures
        keys_of(cur_view(c)) == string_keys(c),
{
    assert(keys_of(cur_view(c)) =~= string_keys(c));
}

proof fn lemma_groups_keys(a: Seq<(String, Vec<Vec<XmlTag>>)>)
    ensures
        keys_of(groups_view(a)) == string_keys(a),
{
    assert(keys_of(groups_view(a)) =~= string_keys(a));
}

/// Collects, for each element whose name is in `search_queries`, the empty
/// elements found `target_depth` levels below it, one group per occurrence.
/// The result maps each searched name that occurred to its groups, in the
/// order in which names first closed.
pub fn find_tags(xml_data: &[u8], search_queries: &[&str], target_depth: u8)
    -> (res: Result<Vec<(String, Vec<Vec<XmlTag>>)>, XmlParseError>)
    ensures
        match (res, find_tags_spec(xml_data@, texts_view(search_queries@), target_depth)) {
            (Ok(g), Ok(h)) => groups_view(g@) == h,
            (Err(e), Err(f)) => e == f,
            _ => false,
        },
{
    let ghost src = xml_data@;
    let ghost qs = texts_view(search_queries@);
    let ghost f = tag_scan_step_fn(qs, target_depth);
    let ghost ex = Err::<TagGroups, XmlParseError>(XmlParseError::InvalidStructure);
    let mut reader = xml_reader(xml_data);
    let mut all: Vec<(String, Vec<Vec<XmlTag>>)> = Vec::new();
    let mut cur: Vec<(String, Vec<XmlTag>)> = Vec::new();
    let mut in_target = false;
    let mut depth: u8 = 0;
    let mut query = String::new();
    let mut i: usize = 0;
    proof {
        assert(groups_view(all@) =~= Seq::<(Seq<char>, Seq<Seq<TagView>>)>::empty());
        assert(cur_view(cur@) =~= Seq::<(Seq<char>, Seq<TagView>)>::empty());
    }
    loop
        invariant
            src == xml_data@,
            qs == texts_view(search_queries@),
            f == tag_scan_step_fn(qs, target_depth),
            ex == Err::<TagGroups, XmlParseError>(XmlParseError::InvalidStructure),
            i <= src.len(),
            reader_source(reader) == src,
            reader_steps(reader) == i,
            find_tags_spec(src, qs, target_depth) == scan_events(src, i as nat, TagScan {
                all: groups_view(all@),
                cur: cur_view(cur@),
                in_target,
                depth,
                query: query@,
            }, f, ex),
        decreases src.len() - i,
    {
        let ghost s = TagScan { all: groups_view(all@), cur: cur_view(cur@), in_target, depth, query: query@ };
        let ev = read_xml_event(&mut reader);
        proof {
            lemma_scan_step(src, i as nat, s, f, ex);
            assert(f(s, ev) == tag_scan_step(qs, target_depth, s, ev));
            lemma_cur_keys(cur@);
            lemma_groups_keys(all@);
        }
        match ev {
            Err(_) => return Err(XmlParseError::QuickXmlError),
            Ok(XmlEvent::Start(el)) => match utf8_string(el.name.as_slice()) {
                None => return Err(XmlParseError::Utf8Error),
                Some(n) => {
                    let hit = contains_text(search_queries, n.as_str());
                    assert(hit == qs.contains(n@)) by {
                        if hit {
                            let j = choose|j: int| 0 <= j < search_queries@.len() && search_queries@[j]@ == n@;
                            assert(qs[j] == n@);
                        }
                    }
                    if hit {
                        match key_position(&cur, n.as_str()) {
                            Some(_) => {},
                            None => {
                                let ghost before = cur@;
                                assert(tags_view(Seq::<XmlTag>::empty()) =~= Seq::<TagView>::empty());
                                cur.push((n.clone(), Vec::new()));
                                assert(cur_view(cur@) =~= cur_view(before).push((n@, Seq::empty())));
                            },
                        }
                        in_target = true;
                        depth = 0;
                        query = n;
                    } else if in_target {
                        depth = if depth == 255 { 0 } else { depth + 1 };
                    }
                },
            },
            Ok(XmlEvent::Empty(el)) => {
                if in_target && depth == target_depth {
                    match utf8_string(el.name.as_slice()) {
                        None => return Err(XmlParseError::Utf8Error),
                        Some(n) => match parse_event_attributes(&el.attributes) {
                            Err(e) => return Err(e),
                            Ok(p) => match key_position(&cur, query.as_str()) {
                                None => return Err(XmlParseError::InvalidStructure),
                                Some(k) => {
                                    let ghost before = cur@;
                                    let tag = XmlTag { name: n, attributes: p };
                                    let ghost tv = tag@;
                                    assert(string_keys(before)[k as int] == query@);
                                    assert(tags_view(before[k as int].1@.push(tag)) =~= tags_view(before[k as int].1@).push(tv));
                                    cur[k].1.push(tag);
                                    assert(cur_view(cur@) =~= cur_view(before).update(k as int, (query@, cur_view(before)[k as int].1.push(tv))));
                                },
                            },
                        },
                    }
                }
            },
            Ok(XmlEvent::End(name)) => match utf8_string(name.as_slice()) {
                None => return Err(XmlParseError::Utf8Error),
                Some(n) => {
                    if str_eq(n.as_str(), query.as_str()) {
                        match key_position(&cur, query.as_str()) {
                            None => return Err(XmlParseError::InvalidStructure),
                            Some(k) => {
                                let ghost cur_before = cur@;
                                let ghost all_before = all@;
                                assert(string_keys(cur_before)[k as int] == query@);
                                let mut group: Vec<XmlTag> = Vec::new();
                                assert(tags_view(Seq::<XmlTag>::empty()) =~= Seq::<TagView>::empty());
                                std::mem::swap(&mut group, &mut cur[k].1);
                                assert(cur_view(cur@) =~= cur_view(cur_before).update(k as int, (query@, Seq::empty())));
                                assert(tags_view(group@) == cur_view(cur_before)[k as int].1);
                                match key_position(&all, query.as_str()) {
                                    Some(j) => {
                                        let ghost gv = tags_view(group@);
                                        assert(string_keys(all_before)[j as int] == query@);
                                        assert(all_before[j as int].1@.push(group).map_values(|g: Vec<XmlTag>| tags_view(g@)) =~= all_before[j as int].1@.map_values(|g: Vec<XmlTag>| tags_view(g@)).push(gv));
                                        all[j].1.push(group);
                                        assert(groups_view(all@) =~= groups_view(all_before).update(j as int, (query@, groups_view(all_before)[j as int].1.push(gv))));
                                    },
                                    None => {
                                        let ghost gv = tags_view(group@);
                                        let v = vec![group];
                                        assert(v@.map_values(|g: Vec<XmlTag>| tags_view(g@)) =~= seq![gv]);
                                        all.push((query.clone(), v));
                                        assert(groups_view(all@) =~= groups_view(all_before).push((query@, seq![gv])));
                                    },
                                }
                                in_target = false;
                            },
                        }
                    } else if in_target {
                        depth = if depth == 0 { 255 } else { depth - 1 };
                    }
                },
            },
            Ok(XmlEvent::Eof) => return Ok(all),
            Ok(_) => {},
        }
        if i == xml_data.len() {
            return Err(XmlParseError::InvalidStructure);
        }
        i = i + 1;
    }
}

/// No key occurs twice in an association list.
pub open spec fn distinct_keys<V>(list: Seq<(Seq<char>, V)>) -> bool {
    forall|i: int, j: int| 0 <= i < j < list.len() ==> list[i].0 != list[j].0
}

/// Every key of an association list is among `names`.
pub open spec fn keys_among<V>(list: Seq<(Seq<char>, V)>, names: Seq<Seq<char>>) -> bool {
    forall|i: int| 0 <= i < list.len() ==> names.contains(#[trigger] list[i].0)
}

/// A key that occurs has a first position.
proof fn lemma_first_index_some(keys: Seq<Seq<char>>, k: Seq<char>, j: int)
    requires
        0 <= j < keys.len(),
        keys[j] == k,
    ensures
        first_index(keys, k) is Some,
    decreases j,
{
    if exists|i: int| 0 <= i < j && keys[i] == k {
        let i = choose|i: int| 0 <= i < j && keys[i] == k;
        lemma_first_index_some(keys, k, i);
    } else {
        assert(crate::assoc::is_first_index(keys, k, j));
    }
}

/// What `first_index` finds holds the key, and `None` means the key is absent.
proof fn lemma_first_index<V>(list: Seq<(Seq<char>, V)>, k: Seq<char>)
    ensures
        match first_index(keys_of(list), k) {
            Some(i) => 0 <= i < list.len() && list[i].0 == k,
            None => forall|j: int| 0 <= j < list.len() ==> list[j].0 != k,
        },
{
    let keys = keys_of(list);
    match first_index(keys, k) {
        Some(i) => {
            let c = choose|c: int| crate::assoc::is_first_index(keys, k, c);
            assert(keys[i] == list[i].0);
        },
        None => {
            assert forall|j: int| 0 <= j < list.len() implies list[j].0 != k by {
                if list[j].0 == k {
                    assert(keys[j] == k);
                    lemma_first_index_some(keys, k, j);
                }
            }
        },
    }
}

/// Adding to an entry keeps the keys distinct and among `names` when the key is one of them.
proof fn lemma_append_at_keys<V>(list: Seq<(Seq<char>, Seq<V>)>, k: Seq<char>, x: V, names: Seq<Seq<char>>)
    requires
        distinct_keys(list),
        keys_among(list, names),
        names.contains(k),
    ensures
        distinct_keys(append_at(list, k, x)),
        keys_among(append_at(list, k, x), names),
{
    lemma_first_index(list, k);
    let r = append_at(list, k, x);
    assert forall|i: int| 0 <= i < r.len() implies names.contains(#[trigger] r[i].0) by {
        if i < list.len() {
            assert(r[i].0 == list[i].0);
        }
    }
    assert forall|i: int, j: int| 0 <= i < j < r.len() implies r[i].0 != r[j].0 by {
        if j < list.len() {
            assert(r[i].0 == list[i].0);
            assert(r[j].0 == list[j].0);
        }
    }
}

/// Adding an empty entry keeps the keys distinct and among `names` when the key is one of them.
proof fn lemma_entry_or_empty_keys<V>(list: Seq<(Seq<char>, Seq<V>)>, k: Seq<char>, names: Seq<Seq<char>>)
    requires
        distinct_keys(list),
        keys_among(list, names),
        names.contains(k),
    ensures
        distinct_keys(entry_or_empty(list, k)),
        keys_among(entry_or_empty(list, k), names),
{
    lemma_first_index(list, k);
    let r = entry_or_empty(list, k);
    assert forall|i: int| 0 <= i < r.len() implies names.contains(#[trigger] r[i].0) by {
        if i < list.len() {
            assert(r[i].0 == list[i].0);
        }
    }
    assert forall|i: int, j: int| 0 <= i < j < r.len() implies r[i].0 != r[j].0 by {
        if j < list.len() {
            assert(r[i].0 == list[i].0);
            assert(r[j].0 == list[j].0);
        }
    }
}

/// The state of the tag collection keeps one entry per searched name.
pub open spec fn tag_scan_keys_ok(s: TagScan, queries: Seq<Seq<char>>) -> bool {
    &&& distinct_keys(s.all)
    &&& keys_among(s.all, queries)
    &&& distinct_keys(s.cur)
    &&& keys_among(s.cur, queries)
}

proof fn lemma_tag_step_keys(queries: Seq<Seq<char>>, target_depth: u8, s: TagScan, ev: Result<XmlEvent, XmlSyntaxError>)
    requires
        tag_scan_keys_ok(s, queries),
    ensures
        match tag_scan_step(queries, target_depth, s, ev) {
            Scan::Continue(t) => tag_scan_keys_ok(t, queries),
            Scan::Done(r) => r matches Ok(g) ==> distinct_keys(g) && keys_among(g, queries),
        },
{
    match ev {
        Ok(XmlEvent::Start(el)) => match utf8_text(el.name@) {
            Some(n) => if queries.contains(n) {
                lemma_entry_or_empty_keys(s.cur, n, queries);
            },
            None => {},
        },
        Ok(XmlEvent::Empty(el)) => if s.in_target && s.depth == target_depth {
            match utf8_text(el.name@) {
                Some(n) => match attributes_text(el.attributes@) {
                    Ok(p) => {
                        lemma_first_index(s.cur, s.query);
                        match first_index(keys_of(s.cur), s.query) {
                            Some(j) => {
                                assert(queries.contains(s.cur[j].0));
                                lemma_append_at_keys(s.cur, s.query, (n, p), queries);
                            },
                            None => {},
                        }
                    },
                    Err(_) => {},
                },
                None => {},
            }
        },
        Ok(XmlEvent::End(name)) => match utf8_text(name@) {
            Some(n) => if n == s.query {
                lemma_first_index(s.cur, s.query);
                match first_index(keys_of(s.cur), s.query) {
                    Some(k) => {
                        assert(queries.contains(s.cur[k].0));
                        lemma_append_at_keys(s.all, s.query, s.cur[k].1, queries);
                        let c = s.cur.update(k, (s.query, Seq::empty()));
                        assert forall|i: int| 0 <= i < c.len() implies queries.contains(#[trigger] c[i].0) by {
                            if i != k {
                                assert(c[i].0 == s.cur[i].0);
                            }
                        }
                        assert forall|i: int, j: int| 0 <= i < j < c.len() implies c[i].0 != c[j].0 by {
                            assert(c[i].0 == s.cur[i].0);
                            assert(c[j].0 == s.cur[j].0);
                        }
                    },
                    None => {},
                }
            },
            None => {},
        },
        _ => {},
    }
}

proof fn lemma_tag_scan_keys(source: Seq<u8>, index: nat, s: TagScan, queries: Seq<Seq<char>>, target_depth: u8)
    requires
        tag_scan_keys_ok(s, queries),
    ensures
        scan_events(source, index, s, tag_scan_step_fn(queries, target_depth), Err(XmlParseError::InvalidStructure))
            matches Ok(g) ==> distinct_keys(g) && keys_among(g, queries),
    decreases source.len() + 1 - index,
{
    let f = tag_scan_step_fn(queries, target_depth);
    if index <= source.len() {
        let ev = xml_step(source, index);
        lemma_scan_step(source, index, s, f, Err(XmlParseError::InvalidStructure));
        assert(f(s, ev) == tag_scan_step(queries, target_depth, s, ev));
        lemma_tag_step_keys(queries, target_depth, s, ev);
        match tag_scan_step(queries, target_depth, s, ev) {
            Scan::Continue(t) => lemma_tag_scan_keys(source, index + 1, t, queries, target_depth),
            Scan::Done(_) => {},
        }
    }
}

/// `find_tags` gives each name at most once, and only names that were searched for.
pub proof fn law_find_tags_names(source: Seq<u8>, queries: Seq<Seq<char>>, target_depth: u8)
    ensures
        find_tags_spec(source, queries, target_depth) matches Ok(g) ==> distinct_keys(g) && keys_among(g, queries),
{
    lemma_tag_scan_keys(source, 0, tag_scan_start(), queries, target_depth);
}

/// The value of a key is that of its first pair.
proof fn lemma_first_value_at(pairs: Seq<(Seq<char>, Seq<char>)>, key: Seq<char>, j: int)
    requires
        0 <= j < pairs.len(),
        pairs[j].0 == key,
        forall|i: int| 0 <= i < j ==> (#[trigger] pairs[i]).0 != key,
    ensures
        first_value(pairs, key) == Some(pairs[j].1),
    decreases j,
{
    if j > 0 {
        assert(pairs[0].0 != key);
        assert forall|i: int| 0 <= i < j - 1 implies (#[trigger] pairs.drop_first()[i]).0 != key by {
            assert(pairs.drop_first()[i] == pairs[i + 1]);
        }
        lemma_first_value_at(pairs.drop_first(), key, j - 1);
    }
}

/// A key without a pair has no value.
proof fn lemma_first_value_absent(pairs: Seq<(Seq<char>, Seq<char>)>, key: Seq<char>)
    requires
        forall|i: int| 0 <= i < pairs.len() ==> (#[trigger] pairs[i]).0 != key,
    ensures
        first_value(pairs, key) is None,
    decreases pairs.len(),
{
    if pairs.len() > 0 {
        assert(pairs[0].0 != key);
        assert forall|i: int| 0 <= i < pairs.len() - 1 implies (#[trigger] pairs.drop_first()[i]).0 != key by {
            assert(pairs.drop_first()[i] == pairs[i + 1]);
        }
        lemma_first_value_absent(pairs.drop_first(), key);
    }
}

/// The first tag named `tag_query` decides the attribute lookup.
proof fn lemma_first_tag_decides(tags: Seq<TagView>, tag_query: Seq<char>, attribute_query: Seq<char>, k: int)
    requires
        0 <= k < tags.len(),
        tags[k].0 == tag_query,
        forall|i: int| 0 <= i < k ==> (#[trigger] tags[i]).0 != tag_query,
    ensures
        find_attribute_spec(tags, tag_query, attribute_query) == match first_value(tags[k].1, attribute_query) {
            Some(v) => Ok::<Seq<char>, bool>(v),
            None => Err(true),
        },
    decreases k,
{
    if k > 0 {
        assert(tags[0].0 != tag_query);
        assert forall|i: int| 0 <= i < k - 1 implies (#[trigger] tags.drop_first()[i]).0 != tag_query by {
            assert(tags.drop_first()[i] == tags[i + 1]);
        }
        lemma_first_tag_decides(tags.drop_first(), tag_query, attribute_query, k - 1);
    }
}

/// Without a tag named `tag_query` the lookup finds no tag.
proof fn lemma_no_tag(tags: Seq<TagView>, tag_query: Seq<char>, attribute_query: Seq<char>)
    requires
        forall|i: int| 0 <= i < tags.len() ==> (#[trigger] tags[i]).0 != tag_query,
    ensures
        find_attribute_spec(tags, tag_query, attribute_query) == Err::<Seq<char>, bool>(false),
    decreases tags.len(),
{
    if tags.len() > 0 {
        assert(tags[0].0 != tag_query);
        assert forall|i: int| 0 <= i < tags.len() - 1 implies (#[trigger] tags.drop_first()[i]).0 != tag_query by {
            assert(tags.drop_first()[i] == tags[i + 1]);
        }
        lemma_no_tag(tags.drop_first(), tag_query, attribute_query);
    }
}

/// An attribute lookup reads the first tag of the name asked for, and in it
/// the first attribute of the name asked for: with no tag of that name the
/// tag is missing; when the tag at `k` is the first so named, its first
/// attribute named `attribute_query` (at `j`) gives the value, and without
/// one the attribute is missing.
pub proof fn law_first_tag_and_first_attribute_decide(
    tags: Seq<TagView>,
    tag_query: Seq<char>,
    attribute_query: Seq<char>,
    k: int,
    j: int,
)
    ensures
        (forall|i: int| 0 <= i < tags.len() ==> (#[trigger] tags[i]).0 != tag_query)
            ==> find_attribute_spec(tags, tag_query, attribute_query) == Err::<Seq<char>, bool>(false),
        ({
            &&& 0 <= k < tags.len()
            &&& tags[k].0 == tag_query
            &&& forall|i: int| 0 <= i < k ==> (#[trigger] tags[i]).0 != tag_query
            &&& 0 <= j < tags[k].1.len()
            &&& tags[k].1[j].0 == attribute_query
            &&& forall|i: int| 0 <= i < j ==> (#[trigger] tags[k].1[i]).0 != attribute_query
        }) ==> find_attribute_spec(tags, tag_query, attribute_query) == Ok::<Seq<char>, bool>(tags[k].1[j].1),
        ({
            &&& 0 <= k < tags.len()
            &&& tags[k].0 == tag_query
            &&& forall|i: int| 0 <= i < k ==> (#[trigger] tags[i]).0 != tag_query
            &&& forall|i: int| 0 <= i < tags[k].1.len() ==> (#[trigger] tags[k].1[i]).0 != attribute_query
        }) ==> find_attribute_spec(tags, tag_query, attribute_query) == Err::<Seq<char>, bool>(true),
{
    if forall|i: int| 0 <= i < tags.len() ==> (#[trigger] tags[i]).0 != tag_query {
        lemma_no_tag(tags, tag_query, attribute_query);
    }
    if 0 <= k < tags.len() && tags[k].0 == tag_query && (forall|i: int| 0 <= i < k ==> (#[trigger] tags[i]).0 != tag_query) {
        lemma_first_tag_decides(tags, tag_query, attribute_query, k);
        let pairs = tags[k].1;
        if 0 <= j < pairs.len() && pairs[j].0 == attribute_query && (forall|i: int| 0 <= i < j ==> (#[trigger] pairs[i]).0 != attribute_query) {
            lemma_first_value_at(pairs, attribute_query, j);
        }
        if forall|i: int| 0 <= i < pairs.len() ==> (#[trigger] pairs[i]).0 != attribute_query {
            lemma_first_value_absent(pairs, attribute_query);
        }
    }
}

/// An event that the search for an empty element named `query` passes over:
/// read without error, not the end, and not an empty element of that name.
pub open spec fn passed_over(ev: Result<XmlEvent, XmlSyntaxError>, query: Seq<char>) -> bool {
    match ev {
        Ok(XmlEvent::Empty(el)) => utf8_text(el.name@) matches Some(n) && n != query,
        Ok(XmlEvent::Eof) => false,
        Ok(_) => true,
        Err(_) => false,
    }
}

proof fn lemma_empty_event_from(source: Seq<u8>, query: Seq<char>, k: nat, i: nat)
    requires
        i <= k <= source.len(),
        forall|m: nat| m < k ==> #[trigger] passed_over(xml_step(source, m), query),
        xml_step(source, k) matches Ok(XmlEvent::Empty(el)) && utf8_text(el.name@) == Some(query),
    ensures
        scan_events(source, i, (), empty_event_step_fn(query), Some(Err(XmlParseError::InvalidStructure)))
            == Some(attributes_text(xml_step(source, k)->Ok_0->Empty_0.attributes@)),
    decreases k - i,
{
    let f = empty_event_step_fn(query);
    lemma_scan_step(source, i, (), f, Some(Err(XmlParseError::InvalidStructure)));
    if i < k {
        assert(passed_over(xml_step(source, i), query));
        assert(f((), xml_step(source, i)) == Scan::<(), Option<Result<Seq<(Seq<char>, Seq<char>)>, XmlParseError>>>::Continue(()));
        lemma_empty_event_from(source, query, k, i + 1);
    }
}

/// The first empty element named `query` decides: when every event before
/// position `k` is passed over and the event at `k` is an empty element of
/// that name, the search gives its attributes, whatever follows.
pub proof fn law_first_empty_element_decides(source: Seq<u8>, query: Seq<char>, k: nat)
    requires
        k <= source.len(),
        forall|m: nat| m < k ==> #[trigger] passed_over(xml_step(source, m), query),
        xml_step(source, k) matches Ok(XmlEvent::Empty(el)) && utf8_text(el.name@) == Some(query),
    ensures
        empty_event_spec(source, query) == Some(attributes_text(xml_step(source, k)->Ok_0->Empty_0.attributes@)),
{
    lemma_empty_event_from(source, query, k, 0);
}

} // verus!
