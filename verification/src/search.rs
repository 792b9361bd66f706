//! Search queries: `operator:value` terms and free text.
//!
//! A query is read term by term. A term runs to the next space; a term with
//! a colon is an operator and its value (`path`, `name`, `version`, `key`,
//! `bpm`, `ts`, `ed`, `plugin`, `sample`, `tag`, `missing`), except that the values of
//! the date operators `dc` and `dm` run on over digits, `-`, `:` and spaces.
//! Values lose surrounding white space and one pair of matching quotes.
//! Every other term is free text; the free-text terms are joined by spaces.
//! All delimiters are ASCII, so reading characters gives the same terms as
//! reading bytes.
use vstd::prelude::*;
use vstd::string::StringExecFns;
use crate::text::{contains_seq, chars_of, find_char, find_char_between, lemma_concat_contains, lemma_concat_keeps, lemma_find_char, push_all, substring};

verus! {

/// White space as `char::is_whitespace` sees it (the Unicode `White_Space` property).
pub open spec fn is_white(c: char) -> bool {
    ||| '\u{9}' <= c <= '\u{d}'
    ||| c == ' '
    ||| c == '\u{85}'
    ||| c == '\u{a0}'
    ||| c == '\u{1680}'
    ||| '\u{2000}' <= c <= '\u{200a}'
    ||| c == '\u{2028}'
    ||| c == '\u{2029}'
    ||| c == '\u{202f}'
    ||| c == '\u{205f}'
    ||| c == '\u{3000}'
}

/// Whether `c` is white space (`char::is_whitespace`).
pub fn is_whitespace(c: char) -> (res: bool)
    ensures
        res == is_white(c),
{
    ('\u{9}' <= c && c <= '\u{d}') || c == ' ' || c == '\u{85}' || c == '\u{a0}' || c == '\u{1680}'
        || ('\u{2000}' <= c && c <= '\u{200a}') || c == '\u{2028}' || c == '\u{2029}' || c == '\u{202f}'
        || c == '\u{205f}' || c == '\u{3000}'
}

/// The number of white-space characters at the start of `s`.
pub open spec fn leading_white(s: Seq<char>) -> int
    decreases s.len(),
{
    if s.len() > 0 && is_white(s[0]) {
        1 + leading_white(s.drop_first())
    } else {
        0
    }
}

/// The number of white-space characters at the end of `s`.
pub open spec fn trailing_white(s: Seq<char>) -> int
    decreases s.len(),
{
    if s.len() > 0 && is_white(s.last()) {
        1 + trailing_white(s.drop_last())
    } else {
        0
    }
}

pub proof fn lemma_leading_white(s: Seq<char>)
    ensures
        0 <= leading_white(s) <= s.len(),
        forall|j: int| 0 <= j < leading_white(s) ==> is_white(#[trigger] s[j]),
        leading_white(s) < s.len() ==> !is_white(s[leading_white(s)]),
    decreases s.len(),
{
    if s.len() > 0 && is_white(s[0]) {
        lemma_leading_white(s.drop_first());
        assert forall|j: int| 0 <= j < leading_white(s) implies is_white(#[trigger] s[j]) by {
            if j > 0 {
                assert(s[j] == s.drop_first()[j - 1]);
            }
        }
    }
}

pub proof fn lemma_trailing_white(s: Seq<char>)
    ensures
        0 <= trailing_white(s) <= s.len(),
        forall|j: int| s.len() - trailing_white(s) <= j < s.len() ==> is_white(#[trigger] s[j]),
        trailing_white(s) < s.len() ==> !is_white(s[s.len() - 1 - trailing_white(s)]),
    decreases s.len(),
{
    if s.len() > 0 && is_white(s.last()) {
        lemma_trailing_white(s.drop_last());
        assert forall|j: int| s.len() - trailing_white(s) <= j < s.len() implies is_white(#[trigger] s[j]) by {
            if j < s.len() - 1 {
                assert(s[j] == s.drop_last()[j]);
            }
        }
    }
}

/// `s` without white space at either end (`str::trim`).
pub open spec fn trimmed(s: Seq<char>) -> Seq<char> {
    let t = s.skip(leading_white(s));
    t.take(t.len() - trailing_white(t))
}

/// Whether `t` starts and ends with the same quote character (`"` or `'`).
pub open spec fn quoted(t: Seq<char>) -> bool {
    t.len() >= 1 && ((t[0] == '"' && t.last() == '"') || (t[0] == '\'' && t.last() == '\''))
}

/// A value that is a single quote character once trimmed: removing the
/// pair of quotes would slice out of bounds.
pub open spec fn quote_panics(value: Seq<char>) -> bool {
    let t = trimmed(value);
    t.len() == 1 && quoted(t)
}

/// `value` trimmed, without one pair of surrounding matching quotes.
pub open spec fn stripped(value: Seq<char>) -> Seq<char> {
    let t = trimmed(value);
    if quoted(t) {
        t.subrange(1, t.len() - 1)
    } else {
        t
    }
}

/// The positions of `s[start..end]` without white space at either end.
fn trim_bounds(s: &Vec<char>, start: usize, end: usize) -> (res: (usize, usize))
    requires
        start <= end <= s.len(),
    ensures
        start <= res.0 <= res.1 <= end,
        s@.subrange(res.0 as int, res.1 as int) == trimmed(s@.subrange(start as int, end as int)),
{
    let ghost v = s@.subrange(start as int, end as int);
    let mut a: usize = start;
    while a < end && is_whitespace(s[a])
        invariant
            start <= a <= end <= s.len(),
            v == s@.subrange(start as int, end as int),
            forall|j: int| start <= j < a ==> is_white(#[trigger] s@[j]),
        decreases end - a,
    {
        a = a + 1;
    }
    proof {
        lemma_leading_white(v);
        let l = leading_white(v);
        if l < a - start {
            assert(v[l] == s@[start + l]);
        }
        if a < end && l > a - start {
            assert(v[a - start] == s@[a as int]);
        }
        assert(l == a - start);
    }
    let mut b: usize = end;
    let ghost t = v.skip(leading_white(v));
    assert(t == s@.subrange(a as int, end as int));
    while b > a && is_whitespace(s[b - 1])
        invariant
            start <= a <= b <= end <= s.len(),
            t == s@.subrange(a as int, end as int),
            forall|j: int| b <= j < end ==> is_white(#[trigger] s@[j]),
        decreases b - a,
    {
        b = b - 1;
    }
    proof {
        lemma_trailing_white(t);
        let r = trailing_white(t);
        if r < end - b {
            assert(t[t.len() - 1 - r] == s@[end - 1 - r]);
        }
        if b > a && r > end - b {
            assert(t[b - 1 - a] == s@[b - 1]);
        }
        assert(r == end - b);
        assert(t.take(t.len() - r) == s@.subrange(a as int, b as int));
    }
    (a, b)
}

/// Whether `s` is empty once trimmed (`s.trim().is_empty()`).
pub fn is_blank(s: &str) -> (res: bool)
    ensures
        res == (trimmed(s@).len() == 0),
{
    let cs = chars_of(s);
    assert(cs@.subrange(0, cs.len() as int) == s@);
    let (a, b) = trim_bounds(&cs, 0, cs.len());
    a == b
}

/// The text of `s[start..end]` trimmed and without one pair of surrounding
/// matching quotes.
fn strip_quotes_between(s: &Vec<char>, start: usize, end: usize) -> (res: String)
    requires
        start <= end <= s.len(),
        !quote_panics(s@.subrange(start as int, end as int)),
    ensures
        res@ == stripped(s@.subrange(start as int, end as int)),
{
    let (a, b) = trim_bounds(s, start, end);
    if b > a && ((s[a] == '"' && s[b - 1] == '"') || (s[a] == '\'' && s[b - 1] == '\'')) {
        assert(b - a >= 2);
        let res = substring(s, a + 1, b - 1);
        assert(res@ == s@.subrange(a as int, b as int).subrange(1, b - a - 1));
        res
    } else {
        substring(s, a, b)
    }
}

impl SearchQuery {
    /// `value` trimmed and without one pair of surrounding matching quotes.
    /// A value that is a lone quote character once trimmed has no such pair
    /// and is left out by the precondition.
    pub fn strip_quotes(value: &str) -> (res: String)
        requires
            !quote_panics(value@),
        ensures
            res@ == stripped(value@),
    {
        let cs = chars_of(value);
        assert(cs@.subrange(0, cs.len() as int) == value@);
        strip_quotes_between(&cs, 0, cs.len())
    }
}

/// The texts of `words` joined by `sep` (`[String]::join`).
pub open spec fn joined(words: Seq<Seq<char>>, sep: Seq<char>) -> Seq<char>
    decreases words.len(),
{
    if words.len() == 0 {
        Seq::empty()
    } else if words.len() == 1 {
        words[0]
    } else {
        joined(words.drop_last(), sep) + sep + words.last()
    }
}

/// The texts of `words` joined by `sep`.
pub fn join_strings(words: &Vec<String>, sep: &str) -> (res: String)
    ensures
        res@ == joined(words@.map_values(|w: String| w@), sep@),
{
    let ghost ws = words@.map_values(|w: String| w@);
    let mut out = String::new();
    let mut i: usize = 0;
    while i < words.len()
        invariant
            i <= words.len(),
            ws == words@.map_values(|w: String| w@),
            out@ == joined(ws.take(i as int), sep@),
        decreases words.len() - i,
    {
        assert(ws.take(i + 1).drop_last() == ws.take(i as int));
        assert(ws.take(i + 1).last() == words@[i as int]@);
        if i > 0 {
            push_all(&mut out, sep);
        } else {
            assert(ws.take(1) == seq![ws[0]]);
        }
        push_all(&mut out, words[i].as_str());
        i = i + 1;
    }
    assert(ws.take(words.len() as int) == ws);
    out
}

/// A parsed search query: the value of each operator given (the last one
/// given wins) and the free text.
#[derive(Debug)]
pub struct SearchQuery {
    pub path: Option<String>,
    pub name: Option<String>,
    pub date_created: Option<String>,
    pub date_modified: Option<String>,
    pub version: Option<String>,
    pub key: Option<String>,
    pub bpm: Option<String>,
    pub time_signature: Option<String>,
    pub estimated_duration: Option<String>,
    pub plugin: Option<String>,
    pub sample: Option<String>,
    pub tag: Option<String>,
    /// `missing:true` selects the projects with missing plugins.
    pub missing: Option<String>,
    pub text: String,
}

/// Why a project matched a search.
#[derive(Debug)]
pub enum MatchReason {
    Name(String),
    Path(String),
    Plugin(String),
    Sample(String),
    Tag(String),
    KeySignature(String),
    TimeSignature(String),
    Tempo(String),
    Version(String),
    Notes(String),
    DateCreated(String),
    DateModified(String),
}

/// The values of the operators of a query, as text.
pub struct QueryFields {
    pub path: Option<Seq<char>>,
    pub name: Option<Seq<char>>,
    pub date_created: Option<Seq<char>>,
    pub date_modified: Option<Seq<char>>,
    pub version: Option<Seq<char>>,
    pub key: Option<Seq<char>>,
    pub bpm: Option<Seq<char>>,
    pub time_signature: Option<Seq<char>>,
    pub estimated_duration: Option<Seq<char>>,
    pub plugin: Option<Seq<char>>,
    pub sample: Option<Seq<char>>,
    pub tag: Option<Seq<char>>,
    pub missing: Option<Seq<char>>,
}

/// A search query as text.
pub struct SearchQueryView {
    pub fields: QueryFields,
    pub text: Seq<char>,
}

pub open spec fn opt_view(o: Option<String>) -> Option<Seq<char>> {
    match o {
        Some(s) => Some(s@),
        None => None,
    }
}

impl View for SearchQuery {
    type V = SearchQueryView;

    open spec fn view(&self) -> SearchQueryView {
        SearchQueryView {
            fields: QueryFields {
                path: opt_view(self.path),
                name: opt_view(self.name),
                date_created: opt_view(self.date_created),
                date_modified: opt_view(self.date_modified),
                version: opt_view(self.version),
                key: opt_view(self.key),
                bpm: opt_view(self.bpm),
                time_signature: opt_view(self.time_signature),
                estimated_duration: opt_view(self.estimated_duration),
                plugin: opt_view(self.plugin),
                sample: opt_view(self.sample),
                tag: opt_view(self.tag),
                missing: opt_view(self.missing),
            },
            text: self.text@,
        }
    }
}

/// No operator given.
pub open spec fn no_fields() -> QueryFields {
    QueryFields {
        path: None,
        name: None,
        date_created: None,
        date_modified: None,
        version: None,
        key: None,
        bpm: None,
        time_signature: None,
        estimated_duration: None,
        plugin: None,
        sample: None,
        tag: None,
        missing: None,
    }
}

/// `f` with operator `op` set to `v`; `None` for an operator that is not
/// known (the term is then free text). `dc` and `dm` are read apart.
pub open spec fn with_operator(f: QueryFields, op: Seq<char>, v: Seq<char>) -> Option<QueryFields> {
    if op == "path"@ {
        Some(QueryFields { path: Some(v), ..f })
    } else if op == "name"@ {
        Some(QueryFields { name: Some(v), ..f })
    } else if op == "version"@ {
        Some(QueryFields { version: Some(v), ..f })
    } else if op == "key"@ {
        Some(QueryFields { key: Some(v), ..f })
    } else if op == "bpm"@ {
        Some(QueryFields { bpm: Some(v), ..f })
    } else if op == "ts"@ {
        Some(QueryFields { time_signature: Some(v), ..f })
    } else if op == "ed"@ {
        Some(QueryFields { estimated_duration: Some(v), ..f })
    } else if op == "plugin"@ {
        Some(QueryFields { plugin: Some(v), ..f })
    } else if op == "sample"@ {
        Some(QueryFields { sample: Some(v), ..f })
    } else if op == "tag"@ {
        Some(QueryFields { tag: Some(v), ..f })
    } else if op == "missing"@ {
        Some(QueryFields { missing: Some(v), ..f })
    } else {
        None
    }
}

/// A character that a date value may hold: a digit, `-`, `:` or a space.
pub open spec fn is_date_char(c: char) -> bool {
    ('0' <= c && c <= '9') || c == '-' || c == ':' || c == ' '
}

/// The number of date characters at the start of `t`.
pub open spec fn date_span(t: Seq<char>) -> int
    decreases t.len(),
{
    if t.len() > 0 && is_date_char(t[0]) {
        1 + date_span(t.drop_first())
    } else {
        0
    }
}

/// The number of spaces at the start of `t`.
pub open spec fn space_span(t: Seq<char>) -> int
    decreases t.len(),
{
    if t.len() > 0 && t[0] == ' ' {
        1 + space_span(t.drop_first())
    } else {
        0
    }
}

pub proof fn lemma_date_span(t: Seq<char>)
    ensures
        0 <= date_span(t) <= t.len(),
        forall|j: int| 0 <= j < date_span(t) ==> is_date_char(#[trigger] t[j]),
        date_span(t) < t.len() ==> !is_date_char(t[date_span(t)]),
    decreases t.len(),
{
    if t.len() > 0 && is_date_char(t[0]) {
        lemma_date_span(t.drop_first());
        assert forall|j: int| 0 <= j < date_span(t) implies is_date_char(#[trigger] t[j]) by {
            if j > 0 {
                assert(t[j] == t.drop_first()[j - 1]);
            }
        }
    }
}

pub proof fn lemma_space_span(t: Seq<char>)
    ensures
        0 <= space_span(t) <= t.len(),
        forall|j: int| 0 <= j < space_span(t) ==> #[trigger] t[j] == ' ',
        space_span(t) < t.len() ==> t[space_span(t)] != ' ',
    decreases t.len(),
{
    if t.len() > 0 && t[0] == ' ' {
        lemma_space_span(t.drop_first());
        assert forall|j: int| 0 <= j < space_span(t) implies #[trigger] t[j] == ' ' by {
            if j > 0 {
                assert(t[j] == t.drop_first()[j - 1]);
            }
        }
    }
}

/// Reads the term at `pos`: the new operator values and free-text terms, and
/// where the term ends; `None` where a value is a lone quote (see `quote_panics`).
pub open spec fn read_term(s: Seq<char>, pos: int, f: QueryFields, texts: Seq<Seq<char>>)
    -> Option<(QueryFields, Seq<Seq<char>>, int)> {
    let te = pos + find_char(s.subrange(pos, s.len() as int), ' ');
    let c = pos + find_char(s.subrange(pos, te), ':');
    if c < te {
        let op = s.subrange(pos, c);
        if op == "dc"@ || op == "dm"@ {
            let ve = c + 1 + date_span(s.subrange(c + 1, s.len() as int));
            let v = s.subrange(c + 1, ve);
            if quote_panics(v) {
                None
            } else if op == "dc"@ {
                Some((QueryFields { date_created: Some(stripped(v)), ..f }, texts, ve))
            } else {
                Some((QueryFields { date_modified: Some(stripped(v)), ..f }, texts, ve))
            }
        } else {
            let v = s.subrange(c + 1, te);
            if quote_panics(v) {
                None
            } else {
                match with_operator(f, op, stripped(v)) {
                    Some(g) => Some((g, texts, te)),
                    None => Some((f, texts.push(s.subrange(pos, te)), te)),
                }
            }
        }
    } else {
        Some((f, texts.push(s.subrange(pos, te)), te))
    }
}

/// Reads the terms from `pos` on, each followed by its spaces. (Every term
/// and its spaces take at least one character, so the last branch is never
/// taken: see `lemma_read_term_progress`.)
pub open spec fn parse_from(s: Seq<char>, pos: int, f: QueryFields, texts: Seq<Seq<char>>)
    -> Option<(QueryFields, Seq<Seq<char>>)>
    decreases s.len() - pos,
{
    if pos < 0 || pos >= s.len() {
        Some((f, texts))
    } else {
        match read_term(s, pos, f, texts) {
            None => None,
            Some((g, t, e)) => {
                let next = e + space_span(s.subrange(e, s.len() as int));
                if pos < next <= s.len() {
                    parse_from(s, next, g, t)
                } else {
                    None
                }
            },
        }
    }
}

/// The query that `SearchQuery::parse` makes of `input`; `None` where it
/// would slice out of bounds (a value that is a lone quote character).
pub open spec fn parse_spec(input: Seq<char>) -> Option<SearchQueryView> {
    match parse_from(input, 0, no_fields(), Seq::empty()) {
        None => None,
        Some((f, texts)) => Some(SearchQueryView { fields: f, text: joined(texts, " "@) }),
    }
}

pub open spec fn strings_view(v: Seq<String>) -> Seq<Seq<char>> {
    v.map_values(|w: String| w@)
}

/// Whether `s[start..end]` is a lone quote character once trimmed.
fn quote_panics_between(s: &Vec<char>, start: usize, end: usize) -> (res: bool)
    requires
        start <= end <= s.len(),
    ensures
        res == quote_panics(s@.subrange(start as int, end as int)),
{
    let (a, b) = trim_bounds(s, start, end);
    b > a && b - a == 1 && (s[a] == '"' || s[a] == '\'')
}

/// The end of the date value that starts at `start`.
fn date_value_end(s: &Vec<char>, start: usize) -> (res: usize)
    requires
        start <= s.len(),
    ensures
        res == start + date_span(s@.subrange(start as int, s.len() as int)),
        start <= res <= s.len(),
{
    let ghost t = s@.subrange(start as int, s.len() as int);
    let mut i: usize = start;
    while i < s.len() && (('0' <= s[i] && s[i] <= '9') || s[i] == '-' || s[i] == ':' || s[i] == ' ')
        invariant
            start <= i <= s.len(),
            t == s@.subrange(start as int, s.len() as int),
            forall|j: int| start <= j < i ==> is_date_char(#[trigger] s@[j]),
        decreases s.len() - i,
    {
        i = i + 1;
    }
    proof {
        lemma_date_span(t);
        let d = date_span(t);
        if d < i - start {
            assert(t[d] == s@[start + d]);
        }
        if i < s.len() && d > i - start {
            assert(t[i - start] == s@[i as int]);
        }
    }
    i
}

/// The position after the spaces that start at `start`.
fn skip_spaces(s: &Vec<char>, start: usize) -> (res: usize)
    requires
        start <= s.len(),
    ensures
        res == start + space_span(s@.subrange(start as int, s.len() as int)),
        start <= res <= s.len(),
{
    let ghost t = s@.subrange(start as int, s.len() as int);
    let mut i: usize = start;
    while i < s.len() && s[i] == ' '
        invariant
            start <= i <= s.len(),
            t == s@.subrange(start as int, s.len() as int),
            forall|j: int| start <= j < i ==> #[trigger] s@[j] == ' ',
        decreases s.len() - i,
    {
        i = i + 1;
    }
    proof {
        lemma_space_span(t);
        let d = space_span(t);
        if d < i - start {
            assert(t[d] == s@[start + d]);
        }
        if i < s.len() && d > i - start {
            assert(t[i - start] == s@[i as int]);
        }
    }
    i
}

impl SearchQuery {
    /// The query with no operator and no text.
    pub fn empty() -> (res: SearchQuery)
        ensures
            res@.fields == no_fields(),
            res@.text == Seq::<char>::empty(),
    {
        SearchQuery {
            path: None,
            name: None,
            date_created: None,
            date_modified: None,
            version: None,
            key: None,
            bpm: None,
            time_signature: None,
            estimated_duration: None,
            plugin: None,
            sample: None,
            tag: None,
            missing: None,
            text: String::new(),
        }
    }

    /// Sets operator `op` to `v` (see `with_operator`); `false`, with the
    /// query unchanged, for an operator that is not known.
    fn set_operator(&mut self, op: &str, v: String) -> (res: bool)
        ensures
            match with_operator(old(self)@.fields, op@, v@) {
                Some(g) => res && final(self)@.fields == g && final(self)@.text == old(self)@.text,
                None => !res && final(self)@ == old(self)@,
            },
    {
        proof {
            reveal_strlit("path");
            reveal_strlit("name");
            reveal_strlit("version");
            reveal_strlit("key");
            reveal_strlit("bpm");
            reveal_strlit("ts");
            reveal_strlit("ed");
            reveal_strlit("plugin");
            reveal_strlit("sample");
            reveal_strlit("tag");
            reveal_strlit("missing");
        }
        if crate::text::str_eq(op, "path") {
            self.path = Some(v);
        } else if crate::text::str_eq(op, "name") {
            self.name = Some(v);
        } else if crate::text::str_eq(op, "version") {
            self.version = Some(v);
        } else if crate::text::str_eq(op, "key") {
            self.key = Some(v);
        } else if crate::text::str_eq(op, "bpm") {
            self.bpm = Some(v);
        } else if crate::text::str_eq(op, "ts") {
            self.time_signature = Some(v);
        } else if crate::text::str_eq(op, "ed") {
            self.estimated_duration = Some(v);
        } else if crate::text::str_eq(op, "plugin") {
            self.plugin = Some(v);
        } else if crate::text::str_eq(op, "sample") {
            self.sample = Some(v);
        } else if crate::text::str_eq(op, "tag") {
            self.tag = Some(v);
        } else if crate::text::str_eq(op, "missing") {
            self.missing = Some(v);
        } else {
            return false;
        }
        true
    }
}

impl SearchQuery {
    /// Parses a query (see `parse_spec`); `None` exactly where `parse` would
    /// slice out of bounds, that is where a value is a lone quote character.
    pub fn try_parse(input: &str) -> (res: Option<SearchQuery>)
        ensures
            match (res, parse_spec(input@)) {
                (Some(q), Some(v)) => q@ == v,
                (None, None) => true,
                _ => false,
            },
    {
        proof {
            reveal_strlit("dc");
            reveal_strlit("dm");
            reveal_strlit(" ");
        }
        let s = chars_of(input);
        let mut q = SearchQuery::empty();
        let mut texts: Vec<String> = Vec::new();
        let mut pos: usize = 0;
        assert(strings_view(texts@) =~= Seq::<Seq<char>>::empty());
        while pos < s.len()
            invariant
                s@ == input@,
                pos <= s.len(),
                q@.text == Seq::<char>::empty(),
                parse_from(input@, 0, no_fields(), Seq::empty()) == parse_from(input@, pos as int, q@.fields, strings_view(texts@)),
            decreases s.len() - pos,
        {
            let ghost f0 = q@.fields;
            let ghost t0 = strings_view(texts@);
            let te = find_char_between(&s, pos, s.len(), ' ');
            let c = find_char_between(&s, pos, te, ':');
            proof {
                lemma_find_char(s@.subrange(pos as int, s.len() as int), ' ');
                if te == pos {
                    assert(s@.subrange(pos as int, s.len() as int)[0] == s@[pos as int]);
                }
            }
            let e: usize;
            if c < te {
                let op = substring(&s, pos, c);
                let is_dc = crate::text::str_eq(op.as_str(), "dc");
                let is_dm = crate::text::str_eq(op.as_str(), "dm");
                if is_dc || is_dm {
                    let ve = date_value_end(&s, c + 1);
                    if quote_panics_between(&s, c + 1, ve) {
                        return None;
                    }
                    let v = strip_quotes_between(&s, c + 1, ve);
                    if is_dc {
                        q.date_created = Some(v);
                    } else {
                        q.date_modified = Some(v);
                    }
                    e = ve;
                } else {
                    if quote_panics_between(&s, c + 1, te) {
                        return None;
                    }
                    let v = strip_quotes_between(&s, c + 1, te);
                    if !q.set_operator(op.as_str(), v) {
                        let term = substring(&s, pos, te);
                        texts.push(term);
                        assert(strings_view(texts@) =~= t0.push(s@.subrange(pos as int, te as int)));
                    }
                    e = te;
                }
            } else {
                let term = substring(&s, pos, te);
                texts.push(term);
                assert(strings_view(texts@) =~= t0.push(s@.subrange(pos as int, te as int)));
                e = te;
            }
            assert(read_term(input@, pos as int, f0, t0) == Some((q@.fields, strings_view(texts@), e as int)));
            let next = skip_spaces(&s, e);
            proof {
                lemma_space_span(s@.subrange(e as int, s.len() as int));
                if e == pos {
                    assert(s@.subrange(e as int, s.len() as int)[0] == s@[pos as int]);
                }
            }
            pos = next;
        }
        q.text = join_strings(&texts, " ");
        Some(q)
    }

    /// Parses a query (see `parse_spec`). A value that is a lone quote
    /// character (such as in `name:"`) has no pair of quotes to remove and is
    /// left out by the precondition; `try_parse` tells such inputs apart.
    pub fn parse(input: &str) -> (res: SearchQuery)
        requires
            parse_spec(input@) is Some,
        ensures
            res@ == parse_spec(input@).unwrap(),
    {
        Self::try_parse(input).unwrap()
    }
}

/// The full-text condition on one column: a phrase, matched as a prefix for
/// the date columns.
pub open spec fn column_condition(column: Seq<char>, value: Seq<char>) -> Seq<char> {
    if column == "created_at"@ || column == "modified_at"@ {
        column + " : \""@ + value + "\" *"@
    } else {
        column + " : \""@ + value + "\""@
    }
}

pub open spec fn optional_condition(column: Seq<char>, value: Option<Seq<char>>) -> Seq<Seq<char>> {
    match value {
        Some(v) => seq![column_condition(column, v)],
        None => Seq::empty(),
    }
}

/// The conditions of a query, in this order: path, name, version, key, tempo,
/// time signature, plugins, samples, tags, creation and modification dates,
/// then the free text as a phrase. The estimated duration and `missing`
/// take no part: whether plugins are installed is not in the full-text index.
pub open spec fn fts5_conditions(q: SearchQueryView) -> Seq<Seq<char>> {
    optional_condition("path"@, q.fields.path)
        + optional_condition("name"@, q.fields.name)
        + optional_condition("version"@, q.fields.version)
        + optional_condition("key_signature"@, q.fields.key)
        + optional_condition("tempo"@, q.fields.bpm)
        + optional_condition("time_signature"@, q.fields.time_signature)
        + optional_condition("plugins"@, q.fields.plugin)
        + optional_condition("samples"@, q.fields.sample)
        + optional_condition("tags"@, q.fields.tag)
        + optional_condition("created_at"@, q.fields.date_created)
        + optional_condition("modified_at"@, q.fields.date_modified)
        + if q.text.len() > 0 { seq!["\""@ + q.text + "\""@] } else { Seq::empty() }
}

/// The statement that searches the full-text index; its one parameter is the
/// match expression.
pub open spec fn search_statement() -> Seq<char> {
    "SELECT project_id, rank, name, path, plugins, samples, tags, notes, created_at, modified_at, tempo, key_signature, time_signature, version\n             FROM project_search \n             WHERE project_search MATCH ? \n             ORDER BY rank"@
}

/// Adds the condition of `column` when the query gives it a value.
fn push_condition(conditions: &mut Vec<String>, column: &str, value: &Option<String>)
    ensures
        strings_view(final(conditions)@) == strings_view(old(conditions)@) + optional_condition(column@, opt_view(*value)),
{
    proof {
        reveal_strlit("created_at");
        reveal_strlit("modified_at");
        reveal_strlit(" : \"");
        reveal_strlit("\" *");
        reveal_strlit("\"");
    }
    match value {
        None => {
            assert(strings_view(conditions@) + Seq::<Seq<char>>::empty() =~= strings_view(conditions@));
        },
        Some(v) => {
            let ghost before = strings_view(conditions@);
            let mut c = String::new();
            push_all(&mut c, column);
            push_all(&mut c, " : \"");
            push_all(&mut c, v.as_str());
            if crate::text::str_eq(column, "created_at") || crate::text::str_eq(column, "modified_at") {
                push_all(&mut c, "\" *");
            } else {
                push_all(&mut c, "\"");
            }
            assert(c@ == column_condition(column@, v@));
            conditions.push(c);
            assert(strings_view(conditions@) =~= before + seq![column_condition(column@, v@)]);
        },
    }
}

impl SearchQuery {
    /// The full-text search statement and its parameter: the conditions of
    /// `fts5_conditions` joined by ` AND ` (empty when there is none).
    pub fn build_fts5_query(&self) -> (res: (String, Vec<String>))
        ensures
            res.0@ == search_statement(),
            strings_view(res.1@) == seq![joined(fts5_conditions(self@), " AND "@)],
    {
        proof {
            reveal_strlit("SELECT project_id, rank, name, path, plugins, samples, tags, notes, created_at, modified_at, tempo, key_signature, time_signature, version\n             FROM project_search \n             WHERE project_search MATCH ? \n             ORDER BY rank");
            reveal_strlit("\"");
        }
        let mut conditions: Vec<String> = Vec::new();
        assert(strings_view(conditions@) =~= Seq::<Seq<char>>::empty());
        push_condition(&mut conditions, "path", &self.path);
        push_condition(&mut conditions, "name", &self.name);
        push_condition(&mut conditions, "version", &self.version);
        push_condition(&mut conditions, "key_signature", &self.key);
        push_condition(&mut conditions, "tempo", &self.bpm);
        push_condition(&mut conditions, "time_signature", &self.time_signature);
        push_condition(&mut conditions, "plugins", &self.plugin);
        push_condition(&mut conditions, "samples", &self.sample);
        push_condition(&mut conditions, "tags", &self.tag);
        push_condition(&mut conditions, "created_at", &self.date_created);
        push_condition(&mut conditions, "modified_at", &self.date_modified);
        let ghost before = strings_view(conditions@);
        if !self.text.as_str().is_empty() {
            let mut t = String::new();
            push_all(&mut t, "\"");
            push_all(&mut t, self.text.as_str());
            push_all(&mut t, "\"");
            conditions.push(t);
            assert(strings_view(conditions@) =~= before + seq!["\""@ + self@.text + "\""@]);
        } else {
            assert(strings_view(conditions@) =~= before + Seq::<Seq<char>>::empty());
        }
        assert(strings_view(conditions@) == fts5_conditions(self@));
        let fts5 = join_strings(&conditions, " AND ");
        let statement = String::from_str("SELECT project_id, rank, name, path, plugins, samples, tags, notes, created_at, modified_at, tempo, key_signature, time_signature, version\n             FROM project_search \n             WHERE project_search MATCH ? \n             ORDER BY rank");
        let params = vec![fts5];
        assert(strings_view(params@) =~= seq![joined(fts5_conditions(self@), " AND "@)]);
        (statement, params)
    }
}

/// The condition texts of the columns.
proof fn lemma_column_texts()
    ensures
        forall|v: Seq<char>| #[trigger] column_condition("path"@, v) == "path : \""@ + v + "\""@,
        forall|v: Seq<char>| #[trigger] column_condition("name"@, v) == "name : \""@ + v + "\""@,
        forall|v: Seq<char>| #[trigger] column_condition("version"@, v) == "version : \""@ + v + "\""@,
        forall|v: Seq<char>| #[trigger] column_condition("key_signature"@, v) == "key_signature : \""@ + v + "\""@,
        forall|v: Seq<char>| #[trigger] column_condition("tempo"@, v) == "tempo : \""@ + v + "\""@,
        forall|v: Seq<char>| #[trigger] column_condition("time_signature"@, v) == "time_signature : \""@ + v + "\""@,
        forall|v: Seq<char>| #[trigger] column_condition("plugins"@, v) == "plugins : \""@ + v + "\""@,
        forall|v: Seq<char>| #[trigger] column_condition("samples"@, v) == "samples : \""@ + v + "\""@,
        forall|v: Seq<char>| #[trigger] column_condition("tags"@, v) == "tags : \""@ + v + "\""@,
{
    reveal_strlit(" : \"");
    reveal_strlit("\"");
    reveal_strlit("\" *");
    reveal_strlit("created_at");
    reveal_strlit("modified_at");
    reveal_strlit("path");
    reveal_strlit("path : \"");
    assert("path"@ + " : \""@ =~= "path : \""@);
    reveal_strlit("name");
    reveal_strlit("name : \"");
    assert("name"@ + " : \""@ =~= "name : \""@);
    reveal_strlit("version");
    reveal_strlit("version : \"");
    assert("version"@ + " : \""@ =~= "version : \""@);
    reveal_strlit("key_signature");
    reveal_strlit("key_signature : \"");
    assert("key_signature"@ + " : \""@ =~= "key_signature : \""@);
    reveal_strlit("tempo");
    reveal_strlit("tempo : \"");
    assert("tempo"@ + " : \""@ =~= "tempo : \""@);
    reveal_strlit("time_signature");
    reveal_strlit("time_signature : \"");
    assert("time_signature"@ + " : \""@ =~= "time_signature : \""@);
    reveal_strlit("plugins");
    reveal_strlit("plugins : \"");
    assert("plugins"@ + " : \""@ =~= "plugins : \""@);
    reveal_strlit("samples");
    reveal_strlit("samples : \"");
    assert("samples"@ + " : \""@ =~= "samples : \""@);
    reveal_strlit("tags");
    reveal_strlit("tags : \"");
    assert("tags"@ + " : \""@ =~= "tags : \""@);
}
/// The condition texts of the date columns, matched as prefixes.
proof fn lemma_date_column_texts()
    ensures
        forall|v: Seq<char>| #[trigger] column_condition("created_at"@, v) == "created_at : \""@ + v + "\" *"@,
        forall|v: Seq<char>| #[trigger] column_condition("modified_at"@, v) == "modified_at : \""@ + v + "\" *"@,
{
    reveal_strlit(" : \"");
    reveal_strlit("\"");
    reveal_strlit("\" *");
    reveal_strlit("created_at");
    reveal_strlit("modified_at");
    reveal_strlit("created_at : \"");
    assert("created_at"@ + " : \""@ =~= "created_at : \""@);
    reveal_strlit("modified_at : \"");
    assert("modified_at"@ + " : \""@ =~= "modified_at : \""@);
}

/// The path, name, version, key, tempo and time signature conditions.
#[verifier::rlimit(50)]
proof fn lemma_first_columns(q: SearchQueryView)
    ensures
        q.fields.path matches Some(v) ==> fts5_conditions(q).contains("path : \""@ + v + "\""@),
        q.fields.name matches Some(v) ==> fts5_conditions(q).contains("name : \""@ + v + "\""@),
        q.fields.version matches Some(v) ==> fts5_conditions(q).contains("version : \""@ + v + "\""@),
        q.fields.key matches Some(v) ==> fts5_conditions(q).contains("key_signature : \""@ + v + "\""@),
        q.fields.bpm matches Some(v) ==> fts5_conditions(q).contains("tempo : \""@ + v + "\""@),
        q.fields.time_signature matches Some(v) ==> fts5_conditions(q).contains("time_signature : \""@ + v + "\""@),
{
    lemma_column_texts();
    lemma_date_column_texts();
    if q.fields.path is Some {
        assert(optional_condition("path"@, q.fields.path)[0] == column_condition("path"@, q.fields.path->Some_0));
        assert(optional_condition("path"@, q.fields.path).contains("path : \""@ + q.fields.path->Some_0 + "\""@));
    }
    if q.fields.name is Some {
        assert(optional_condition("name"@, q.fields.name)[0] == column_condition("name"@, q.fields.name->Some_0));
        assert(optional_condition("name"@, q.fields.name).contains("name : \""@ + q.fields.name->Some_0 + "\""@));
    }
    if q.fields.version is Some {
        assert(optional_condition("version"@, q.fields.version)[0] == column_condition("version"@, q.fields.version->Some_0));
        assert(optional_condition("version"@, q.fields.version).contains("version : \""@ + q.fields.version->Some_0 + "\""@));
    }
    if q.fields.key is Some {
        assert(optional_condition("key_signature"@, q.fields.key)[0] == column_condition("key_signature"@, q.fields.key->Some_0));
        assert(optional_condition("key_signature"@, q.fields.key).contains("key_signature : \""@ + q.fields.key->Some_0 + "\""@));
    }
    if q.fields.bpm is Some {
        assert(optional_condition("tempo"@, q.fields.bpm)[0] == column_condition("tempo"@, q.fields.bpm->Some_0));
        assert(optional_condition("tempo"@, q.fields.bpm).contains("tempo : \""@ + q.fields.bpm->Some_0 + "\""@));
    }
    if q.fields.time_signature is Some {
        assert(optional_condition("time_signature"@, q.fields.time_signature)[0] == column_condition("time_signature"@, q.fields.time_signature->Some_0));
        assert(optional_condition("time_signature"@, q.fields.time_signature).contains("time_signature : \""@ + q.fields.time_signature->Some_0 + "\""@));
    }
    let mut acc = optional_condition("path"@, q.fields.path);
    lemma_concat_keeps(acc, optional_condition("name"@, q.fields.name));
    acc = acc + optional_condition("name"@, q.fields.name);
    lemma_concat_keeps(acc, optional_condition("version"@, q.fields.version));
    acc = acc + optional_condition("version"@, q.fields.version);
    lemma_concat_keeps(acc, optional_condition("key_signature"@, q.fields.key));
    acc = acc + optional_condition("key_signature"@, q.fields.key);
    lemma_concat_keeps(acc, optional_condition("tempo"@, q.fields.bpm));
    acc = acc + optional_condition("tempo"@, q.fields.bpm);
    lemma_concat_keeps(acc, optional_condition("time_signature"@, q.fields.time_signature));
    acc = acc + optional_condition("time_signature"@, q.fields.time_signature);
    lemma_concat_keeps(acc, optional_condition("plugins"@, q.fields.plugin));
    acc = acc + optional_condition("plugins"@, q.fields.plugin);
    lemma_concat_keeps(acc, optional_condition("samples"@, q.fields.sample));
    acc = acc + optional_condition("samples"@, q.fields.sample);
    lemma_concat_keeps(acc, optional_condition("tags"@, q.fields.tag));
    acc = acc + optional_condition("tags"@, q.fields.tag);
    lemma_concat_keeps(acc, optional_condition("created_at"@, q.fields.date_created));
    acc = acc + optional_condition("created_at"@, q.fields.date_created);
    lemma_concat_keeps(acc, optional_condition("modified_at"@, q.fields.date_modified));
    acc = acc + optional_condition("modified_at"@, q.fields.date_modified);
    let text_part = if q.text.len() > 0 { seq!["\""@ + q.text + "\""@] } else { Seq::<Seq<char>>::empty() };
    lemma_concat_keeps(acc, text_part);
    acc = acc + text_part;
    assert(acc == fts5_conditions(q));
}

/// The plugins, samples, tags and date conditions, and the free text.
#[verifier::rlimit(50)]
proof fn lemma_last_columns(q: SearchQueryView)
    ensures
        q.fields.plugin matches Some(v) ==> fts5_conditions(q).contains("plugins : \""@ + v + "\""@),
        q.fields.sample matches Some(v) ==> fts5_conditions(q).contains("samples : \""@ + v + "\""@),
        q.fields.tag matches Some(v) ==> fts5_conditions(q).contains("tags : \""@ + v + "\""@),
        q.fields.date_created matches Some(v) ==> fts5_conditions(q).contains("created_at : \""@ + v + "\" *"@),
        q.fields.date_modified matches Some(v) ==> fts5_conditions(q).contains("modified_at : \""@ + v + "\" *"@),
        q.text.len() > 0 ==> fts5_conditions(q).contains("\""@ + q.text + "\""@),
{
    lemma_column_texts();
    lemma_date_column_texts();
    if q.fields.plugin is Some {
        assert(optional_condition("plugins"@, q.fields.plugin)[0] == column_condition("plugins"@, q.fields.plugin->Some_0));
        assert(optional_condition("plugins"@, q.fields.plugin).contains("plugins : \""@ + q.fields.plugin->Some_0 + "\""@));
    }
    if q.fields.sample is Some {
        assert(optional_condition("samples"@, q.fields.sample)[0] == column_condition("samples"@, q.fields.sample->Some_0));
        assert(optional_condition("samples"@, q.fields.sample).contains("samples : \""@ + q.fields.sample->Some_0 + "\""@));
    }
    if q.fields.tag is Some {
        assert(optional_condition("tags"@, q.fields.tag)[0] == column_condition("tags"@, q.fields.tag->Some_0));
        assert(optional_condition("tags"@, q.fields.tag).contains("tags : \""@ + q.fields.tag->Some_0 + "\""@));
    }
    if q.fields.date_created is Some {
        assert(optional_condition("created_at"@, q.fields.date_created)[0] == column_condition("created_at"@, q.fields.date_created->Some_0));
        assert(optional_condition("created_at"@, q.fields.date_created).contains("created_at : \""@ + q.fields.date_created->Some_0 + "\" *"@));
    }
    if q.fields.date_modified is Some {
        assert(optional_condition("modified_at"@, q.fields.date_modified)[0] == column_condition("modified_at"@, q.fields.date_modified->Some_0));
        assert(optional_condition("modified_at"@, q.fields.date_modified).contains("modified_at : \""@ + q.fields.date_modified->Some_0 + "\" *"@));
    }
    let mut acc = optional_condition("path"@, q.fields.path);
    lemma_concat_keeps(acc, optional_condition("name"@, q.fields.name));
    acc = acc + optional_condition("name"@, q.fields.name);
    lemma_concat_keeps(acc, optional_condition("version"@, q.fields.version));
    acc = acc + optional_condition("version"@, q.fields.version);
    lemma_concat_keeps(acc, optional_condition("key_signature"@, q.fields.key));
    acc = acc + optional_condition("key_signature"@, q.fields.key);
    lemma_concat_keeps(acc, optional_condition("tempo"@, q.fields.bpm));
    acc = acc + optional_condition("tempo"@, q.fields.bpm);
    lemma_concat_keeps(acc, optional_condition("time_signature"@, q.fields.time_signature));
    acc = acc + optional_condition("time_signature"@, q.fields.time_signature);
    lemma_concat_keeps(acc, optional_condition("plugins"@, q.fields.plugin));
    acc = acc + optional_condition("plugins"@, q.fields.plugin);
    lemma_concat_keeps(acc, optional_condition("samples"@, q.fields.sample));
    acc = acc + optional_condition("samples"@, q.fields.sample);
    lemma_concat_keeps(acc, optional_condition("tags"@, q.fields.tag));
    acc = acc + optional_condition("tags"@, q.fields.tag);
    lemma_concat_keeps(acc, optional_condition("created_at"@, q.fields.date_created));
    acc = acc + optional_condition("created_at"@, q.fields.date_created);
    lemma_concat_keeps(acc, optional_condition("modified_at"@, q.fields.date_modified));
    acc = acc + optional_condition("modified_at"@, q.fields.date_modified);
    let text_part = if q.text.len() > 0 { seq!["\""@ + q.text + "\""@] } else { Seq::<Seq<char>>::empty() };
    if q.text.len() > 0 {
        assert(text_part[0] == "\""@ + q.text + "\""@);
        assert(text_part.contains("\""@ + q.text + "\""@));
    }
    lemma_concat_keeps(acc, text_part);
    acc = acc + text_part;
    assert(acc == fts5_conditions(q));
}

/// Each operator searches its own column: `path:` the path, `name:` the
/// name, `version:` the version, `key:` the key signature, `bpm:` the tempo,
/// `ts:` the time signature, `plugin:` the plugins, `sample:` the samples,
/// `tag:` the tags, `dc:` and `dm:` the creation and modification dates (as
/// prefixes); the free text is searched as a phrase.
pub proof fn law_operators_search_their_columns(q: SearchQueryView)
    ensures
        q.fields.path matches Some(v) ==> fts5_conditions(q).contains("path : \""@ + v + "\""@),
        q.fields.name matches Some(v) ==> fts5_conditions(q).contains("name : \""@ + v + "\""@),
        q.fields.version matches Some(v) ==> fts5_conditions(q).contains("version : \""@ + v + "\""@),
        q.fields.key matches Some(v) ==> fts5_conditions(q).contains("key_signature : \""@ + v + "\""@),
        q.fields.bpm matches Some(v) ==> fts5_conditions(q).contains("tempo : \""@ + v + "\""@),
        q.fields.time_signature matches Some(v) ==> fts5_conditions(q).contains("time_signature : \""@ + v + "\""@),
        q.fields.plugin matches Some(v) ==> fts5_conditions(q).contains("plugins : \""@ + v + "\""@),
        q.fields.sample matches Some(v) ==> fts5_conditions(q).contains("samples : \""@ + v + "\""@),
        q.fields.tag matches Some(v) ==> fts5_conditions(q).contains("tags : \""@ + v + "\""@),
        q.fields.date_created matches Some(v) ==> fts5_conditions(q).contains("created_at : \""@ + v + "\" *"@),
        q.fields.date_modified matches Some(v) ==> fts5_conditions(q).contains("modified_at : \""@ + v + "\" *"@),
        q.text.len() > 0 ==> fts5_conditions(q).contains("\""@ + q.text + "\""@),
{
    lemma_first_columns(q);
    lemma_last_columns(q);
}

/// Reading a term and its spaces always moves forward and stays within the text.
proof fn lemma_read_term_progress(s: Seq<char>, pos: int, f: QueryFields, texts: Seq<Seq<char>>)
    requires
        0 <= pos < s.len(),
    ensures
        read_term(s, pos, f, texts) matches Some((g, t, e)) ==> pos <= e <= s.len()
            && pos < e + space_span(s.subrange(e, s.len() as int)) <= s.len(),
{
    let rest = s.subrange(pos, s.len() as int);
    lemma_find_char(rest, ' ');
    let te = pos + find_char(rest, ' ');
    let term = s.subrange(pos, te);
    lemma_find_char(term, ':');
    let c = pos + find_char(term, ':');
    if c < te {
        lemma_date_span(s.subrange(c + 1, s.len() as int));
    }
    if te == pos {
        assert(rest[0] == s[pos]);
    }
    match read_term(s, pos, f, texts) {
        Some((g, t, e)) => {
            let tail = s.subrange(e, s.len() as int);
            lemma_space_span(tail);
            if e == pos {
                assert(tail[0] == s[pos]);
            }
        },
        None => {},
    }
}

/// A term without a colon is free text.
proof fn lemma_parse_without_colon(s: Seq<char>, pos: int, f: QueryFields, texts: Seq<Seq<char>>)
    requires
        0 <= pos,
        forall|i: int| 0 <= i < s.len() ==> s[i] != ':',
    ensures
        parse_from(s, pos, f, texts) matches Some((g, _)) && g == f,
    decreases s.len() - pos,
{
    if pos < s.len() {
        let rest = s.subrange(pos, s.len() as int);
        lemma_find_char(rest, ' ');
        let te = pos + find_char(rest, ' ');
        let term = s.subrange(pos, te);
        lemma_find_char(term, ':');
        if find_char(term, ':') < term.len() {
            assert(term[find_char(term, ':')] == s[pos + find_char(term, ':')]);
        }
        lemma_read_term_progress(s, pos, f, texts);
        lemma_parse_without_colon(s, te + space_span(s.subrange(te, s.len() as int)), f, texts.push(term));
    }
}

/// A query without a colon is all free text: parsing it never fails and
/// sets no operator.
pub proof fn law_query_without_operators(input: Seq<char>)
    requires
        forall|i: int| 0 <= i < input.len() ==> input[i] != ':',
    ensures
        parse_spec(input) matches Some(q) && q.fields == no_fields(),
{
    lemma_parse_without_colon(input, 0, no_fields(), Seq::empty());
}

/// A single term `op:v` (no space in it, `op` without a colon, not a date
/// operator) sets the field that `with_operator` names and leaves no free text.
proof fn lemma_single_operator_term(op: Seq<char>, v: Seq<char>)
    requires
        forall|i: int| 0 <= i < op.len() ==> op[i] != ' ' && op[i] != ':',
        forall|i: int| 0 <= i < v.len() ==> v[i] != ' ',
        op != "dc"@,
        op != "dm"@,
        !quote_panics(v),
        with_operator(no_fields(), op, stripped(v)) is Some,
    ensures
        parse_spec(op + ":"@ + v) == Some(
            SearchQueryView { fields: with_operator(no_fields(), op, stripped(v))->Some_0, text: Seq::empty() },
        ),
{
    reveal_strlit(":");
    let s = op + ":"@ + v;
    assert(s[op.len() as int] == ':');
    assert forall|i: int| 0 <= i < s.len() implies s[i] != ' ' by {
        if i < op.len() {
            assert(s[i] == op[i]);
        } else if i > op.len() {
            assert(s[i] == v[i - op.len() - 1]);
        }
    }
    let rest = s.subrange(0, s.len() as int);
    assert(rest =~= s);
    lemma_find_char(s, ' ');
    assert(find_char(s, ' ') == s.len());
    let term = s.subrange(0, s.len() as int);
    lemma_find_char(term, ':');
    if find_char(term, ':') < op.len() {
        assert(term[find_char(term, ':')] == op[find_char(term, ':')]);
    }
    assert(find_char(term, ':') == op.len());
    assert(s.subrange(0, op.len() as int) =~= op);
    assert(s.subrange(op.len() + 1 as int, s.len() as int) =~= v);
    let g = with_operator(no_fields(), op, stripped(v))->Some_0;
    assert(read_term(s, 0, no_fields(), Seq::empty()) == Some((g, Seq::<Seq<char>>::empty(), s.len() as int)));
    assert(s.subrange(s.len() as int, s.len() as int) =~= Seq::<char>::empty());
    assert(space_span(Seq::<char>::empty()) == 0);
    assert(parse_from(s, s.len() as int, g, Seq::empty()) == Some((g, Seq::<Seq<char>>::empty())));
    assert(parse_from(s, 0, no_fields(), Seq::empty()) == Some((g, Seq::<Seq<char>>::empty())));
    assert(joined(Seq::<Seq<char>>::empty(), " "@) =~= Seq::<char>::empty());
}

/// Each operator term sets its own field: `path:v` the path, `name:v` the
/// name, `version:v` the version, `key:v` the key, `bpm:v` the tempo, `ts:v`
/// the time signature, `ed:v` the estimated duration, `plugin:v` the plugin,
/// `sample:v` the sample, `tag:v` the tag, `missing:v` the missing-plugins
/// flag, each to `v` trimmed and without surrounding quotes, with no free
/// text left (for a value without spaces that is not a lone quote).
pub proof fn law_operator_terms_set_their_field(v: Seq<char>)
    requires
        forall|i: int| 0 <= i < v.len() ==> v[i] != ' ',
        !quote_panics(v),
    ensures
        parse_spec("path:"@ + v) == Some(SearchQueryView { fields: QueryFields { path: Some(stripped(v)), ..no_fields() }, text: Seq::empty() }),
        parse_spec("name:"@ + v) == Some(SearchQueryView { fields: QueryFields { name: Some(stripped(v)), ..no_fields() }, text: Seq::empty() }),
        parse_spec("version:"@ + v) == Some(SearchQueryView { fields: QueryFields { version: Some(stripped(v)), ..no_fields() }, text: Seq::empty() }),
        parse_spec("key:"@ + v) == Some(SearchQueryView { fields: QueryFields { key: Some(stripped(v)), ..no_fields() }, text: Seq::empty() }),
        parse_spec("bpm:"@ + v) == Some(SearchQueryView { fields: QueryFields { bpm: Some(stripped(v)), ..no_fields() }, text: Seq::empty() }),
        parse_spec("ts:"@ + v) == Some(SearchQueryView { fields: QueryFields { time_signature: Some(stripped(v)), ..no_fields() }, text: Seq::empty() }),
        parse_spec("ed:"@ + v) == Some(SearchQueryView { fields: QueryFields { estimated_duration: Some(stripped(v)), ..no_fields() }, text: Seq::empty() }),
        parse_spec("plugin:"@ + v) == Some(SearchQueryView { fields: QueryFields { plugin: Some(stripped(v)), ..no_fields() }, text: Seq::empty() }),
        parse_spec("sample:"@ + v) == Some(SearchQueryView { fields: QueryFields { sample: Some(stripped(v)), ..no_fields() }, text: Seq::empty() }),
        parse_spec("tag:"@ + v) == Some(SearchQueryView { fields: QueryFields { tag: Some(stripped(v)), ..no_fields() }, text: Seq::empty() }),
        parse_spec("missing:"@ + v) == Some(SearchQueryView { fields: QueryFields { missing: Some(stripped(v)), ..no_fields() }, text: Seq::empty() }),
{
    reveal_strlit("dc");
    reveal_strlit("dm");
    reveal_strlit(":");
    reveal_strlit("path");
    reveal_strlit("path:");
    reveal_strlit("name");
    reveal_strlit("name:");
    reveal_strlit("version");
    reveal_strlit("version:");
    reveal_strlit("key");
    reveal_strlit("key:");
    reveal_strlit("bpm");
    reveal_strlit("bpm:");
    reveal_strlit("ts");
    reveal_strlit("ts:");
    reveal_strlit("ed");
    reveal_strlit("ed:");
    reveal_strlit("plugin");
    reveal_strlit("plugin:");
    reveal_strlit("sample");
    reveal_strlit("sample:");
    reveal_strlit("tag");
    reveal_strlit("tag:");
    reveal_strlit("missing");
    reveal_strlit("missing:");
    assert("path:"@ =~= "path"@ + ":"@);
    lemma_single_operator_term("path"@, v);
    assert("name:"@ =~= "name"@ + ":"@);
    lemma_single_operator_term("name"@, v);
    assert("version:"@ =~= "version"@ + ":"@);
    lemma_single_operator_term("version"@, v);
    assert("key:"@ =~= "key"@ + ":"@);
    lemma_single_operator_term("key"@, v);
    assert("bpm:"@ =~= "bpm"@ + ":"@);
    lemma_single_operator_term("bpm"@, v);
    assert("ts:"@ =~= "ts"@ + ":"@);
    lemma_single_operator_term("ts"@, v);
    assert("ed:"@ =~= "ed"@ + ":"@);
    lemma_single_operator_term("ed"@, v);
    assert("plugin:"@ =~= "plugin"@ + ":"@);
    lemma_single_operator_term("plugin"@, v);
    assert("sample:"@ =~= "sample"@ + ":"@);
    lemma_single_operator_term("sample"@, v);
    assert("tag:"@ =~= "tag"@ + ":"@);
    lemma_single_operator_term("tag"@, v);
    assert("missing:"@ =~= "missing"@ + ":"@);
    lemma_single_operator_term("missing"@, v);
}

/// A match reason with its text as characters.
pub enum MatchReasonView {
    Name(Seq<char>),
    Path(Seq<char>),
    Plugin(Seq<char>),
    Sample(Seq<char>),
    Tag(Seq<char>),
    KeySignature(Seq<char>),
    TimeSignature(Seq<char>),
    Tempo(Seq<char>),
    Version(Seq<char>),
    Notes(Seq<char>),
    DateCreated(Seq<char>),
    DateModified(Seq<char>),
}

impl View for MatchReason {
    type V = MatchReasonView;

    open spec fn view(&self) -> MatchReasonView {
        match self {
            MatchReason::Name(s) => MatchReasonView::Name(s@),
            MatchReason::Path(s) => MatchReasonView::Path(s@),
            MatchReason::Plugin(s) => MatchReasonView::Plugin(s@),
            MatchReason::Sample(s) => MatchReasonView::Sample(s@),
            MatchReason::Tag(s) => MatchReasonView::Tag(s@),
            MatchReason::KeySignature(s) => MatchReasonView::KeySignature(s@),
            MatchReason::TimeSignature(s) => MatchReasonView::TimeSignature(s@),
            MatchReason::Tempo(s) => MatchReasonView::Tempo(s@),
            MatchReason::Version(s) => MatchReasonView::Version(s@),
            MatchReason::Notes(s) => MatchReasonView::Notes(s@),
            MatchReason::DateCreated(s) => MatchReasonView::DateCreated(s@),
            MatchReason::DateModified(s) => MatchReasonView::DateModified(s@),
        }
    }
}

pub open spec fn reasons_view(r: Seq<MatchReason>) -> Seq<MatchReasonView> {
    r.map_values(|m: MatchReason| m@)
}

/// What `str::to_lowercase` makes of a text (Unicode lower case).
pub uninterp spec fn lowercase(s: Seq<char>) -> Seq<char>;

/// The text in lower case (`str::to_lowercase`).
/// Claimed: the result is `lowercase` of the text.
#[verifier::external_body]
fn to_lowercase(s: &str) -> (res: String)
    ensures
        res@ == lowercase(s@),
{
    s.to_lowercase()
}

/// Why a project found by a query matched, given the plugin names of the
/// project: the plugin searched for when the project's plugins hold it
/// (ignoring case, given in lower case), then the tempo, the creation date and
/// the modification date searched for.
pub open spec fn match_reasons_spec(q: SearchQueryView, plugins: Seq<char>) -> Seq<MatchReasonView> {
    (match q.fields.plugin {
        Some(p) => if contains_seq(lowercase(plugins), lowercase(p)) {
            seq![MatchReasonView::Plugin(lowercase(p))]
        } else {
            Seq::empty()
        },
        None => Seq::empty(),
    })
        + (match q.fields.bpm { Some(b) => seq![MatchReasonView::Tempo(b)], None => Seq::empty() })
        + (match q.fields.date_created { Some(d) => seq![MatchReasonView::DateCreated(d)], None => Seq::empty() })
        + (match q.fields.date_modified { Some(d) => seq![MatchReasonView::DateModified(d)], None => Seq::empty() })
}

fn push_reason(reasons: &mut Vec<MatchReason>, r: MatchReason)
    ensures
        reasons_view(final(reasons)@) == reasons_view(old(reasons)@).push(r@),
{
    let ghost before = reasons_view(reasons@);
    let ghost rv = r@;
    reasons.push(r);
    assert(reasons_view(reasons@) =~= before.push(rv));
}

impl SearchQuery {
    /// Whether the full-text parameter of a query is empty, so that a search
    /// finds nothing without asking the index.
    pub fn is_empty_search(params: &Vec<String>) -> (res: bool)
        ensures
            res == (params@.len() == 0 || params@[0]@.len() == 0),
    {
        params.len() == 0 || params[0].as_str().is_empty()
    }

    /// Why a project found by this query matched, given its plugin names (see
    /// `match_reasons_spec`).
    pub fn match_reasons(&self, plugins: &str) -> (res: Vec<MatchReason>)
        ensures
            reasons_view(res@) == match_reasons_spec(self@, plugins@),
    {
        let mut reasons: Vec<MatchReason> = Vec::new();
        assert(reasons_view(reasons@) =~= Seq::<MatchReasonView>::empty());
        let ghost r0 = reasons_view(reasons@);
        if let Some(p) = &self.plugin {
            let plugin_query = to_lowercase(p.as_str());
            let plugins_lower = to_lowercase(plugins);
            if crate::text::contains_str(plugins_lower.as_str(), plugin_query.as_str()) {
                push_reason(&mut reasons, MatchReason::Plugin(plugin_query));
            }
        }
        let ghost r1 = reasons_view(reasons@);
        assert(r1 =~= r0 + match self@.fields.plugin {
            Some(p) => if contains_seq(lowercase(plugins@), lowercase(p)) {
                seq![MatchReasonView::Plugin(lowercase(p))]
            } else {
                Seq::<MatchReasonView>::empty()
            },
            None => Seq::<MatchReasonView>::empty(),
        });
        if let Some(b) = &self.bpm {
            push_reason(&mut reasons, MatchReason::Tempo(b.clone()));
        }
        let ghost r2 = reasons_view(reasons@);
        assert(r2 =~= r1 + match self@.fields.bpm { Some(b) => seq![MatchReasonView::Tempo(b)], None => Seq::<MatchReasonView>::empty() });
        if let Some(d) = &self.date_created {
            push_reason(&mut reasons, MatchReason::DateCreated(d.clone()));
        }
        let ghost r3 = reasons_view(reasons@);
        assert(r3 =~= r2 + match self@.fields.date_created { Some(d) => seq![MatchReasonView::DateCreated(d)], None => Seq::<MatchReasonView>::empty() });
        if let Some(d) = &self.date_modified {
            push_reason(&mut reasons, MatchReason::DateModified(d.clone()));
        }
        assert(reasons_view(reasons@) =~= r3 + match self@.fields.date_modified { Some(d) => seq![MatchReasonView::DateModified(d)], None => Seq::<MatchReasonView>::empty() });
        reasons
    }
}

/// A project matches for its plugins when the query names a plugin that its
/// plugin names hold (letter case aside), for its tempo, creation or
/// modification date when the query gives one; each reason carries what the
/// query gave for it.
pub proof fn law_match_reasons_follow_the_query(q: SearchQueryView, plugins: Seq<char>)
    ensures
        forall|p: Seq<char>| #[trigger] match_reasons_spec(q, plugins).contains(MatchReasonView::Plugin(p)) <==> (
            q.fields.plugin matches Some(x) && p == lowercase(x) && contains_seq(lowercase(plugins), p)),
        forall|b: Seq<char>| #[trigger] match_reasons_spec(q, plugins).contains(MatchReasonView::Tempo(b)) <==> q.fields.bpm == Some(b),
        forall|d: Seq<char>| #[trigger] match_reasons_spec(q, plugins).contains(MatchReasonView::DateCreated(d))
            <==> q.fields.date_created == Some(d),
        forall|d: Seq<char>| #[trigger] match_reasons_spec(q, plugins).contains(MatchReasonView::DateModified(d))
            <==> q.fields.date_modified == Some(d),
{
    let a: Seq<MatchReasonView> = match q.fields.plugin {
        Some(p) => if contains_seq(lowercase(plugins), lowercase(p)) {
            seq![MatchReasonView::Plugin(lowercase(p))]
        } else {
            Seq::empty()
        },
        None => Seq::empty(),
    };
    let b: Seq<MatchReasonView> = match q.fields.bpm { Some(x) => seq![MatchReasonView::Tempo(x)], None => Seq::empty() };
    let c: Seq<MatchReasonView> = match q.fields.date_created { Some(x) => seq![MatchReasonView::DateCreated(x)], None => Seq::empty() };
    let d: Seq<MatchReasonView> = match q.fields.date_modified { Some(x) => seq![MatchReasonView::DateModified(x)], None => Seq::empty() };
    lemma_concat_contains(a, b);
    lemma_concat_contains(a + b, c);
    lemma_concat_contains(a + b + c, d);
    assert(match_reasons_spec(q, plugins) == a + b + c + d);
    assert forall|r: MatchReasonView| #[trigger] a.contains(r) <==> a.len() > 0 && a[0] == r by {
        if a.len() > 0 && a[0] == r {
            assert(a[0] == r);
        }
    }
    assert forall|r: MatchReasonView| #[trigger] b.contains(r) <==> b.len() > 0 && b[0] == r by {
        if b.len() > 0 && b[0] == r {
            assert(b[0] == r);
        }
    }
    assert forall|r: MatchReasonView| #[trigger] c.contains(r) <==> c.len() > 0 && c[0] == r by {
        if c.len() > 0 && c[0] == r {
            assert(c[0] == r);
        }
    }
    assert forall|r: MatchReasonView| #[trigger] d.contains(r) <==> d.len() > 0 && d[0] == r by {
        if d.len() > 0 && d[0] == r {
            assert(d[0] == r);
        }
    }
}

impl SearchQuery {
    /// Whether the query asks for projects with missing plugins only (`missing:true`).
    pub fn missing_plugins_only(&self) -> (res: bool)
        ensures
            res == (self@.fields.missing == Some("true"@)),
    {
        proof {
            reveal_strlit("true");
        }
        match &self.missing {
            Some(v) => crate::text::str_eq(v.as_str(), "true"),
            None => false,
        }
    }
}

} // verus!
