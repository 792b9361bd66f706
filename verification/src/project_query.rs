//! The statements that list projects by filters: which conditions, in which
//! order, with which parameters, sorted and paged. Running them is left to
//! callers; tempo bounds are floating point and are bound by the caller
//! where the parameter list says so.
use vstd::prelude::*;
use crate::search::joined;
use crate::text::{push_all, str_eq};

verus! {

/// The value bound to one `?` of a project statement.
#[derive(Debug)]
pub enum QueryParam {
    /// The minimum tempo given by the caller.
    MinTempo,
    /// The maximum tempo given by the caller.
    MaxTempo,
    Text(String),
    Int(i32),
    Time(i64),
}

/// A parameter with its text as characters.
pub enum QueryParamView {
    MinTempo,
    MaxTempo,
    Text(Seq<char>),
    Int(i32),
    Time(i64),
}

impl View for QueryParam {
    type V = QueryParamView;

    open spec fn view(&self) -> QueryParamView {
        match self {
            QueryParam::MinTempo => QueryParamView::MinTempo,
            QueryParam::MaxTempo => QueryParamView::MaxTempo,
            QueryParam::Text(s) => QueryParamView::Text(s@),
            QueryParam::Int(i) => QueryParamView::Int(*i),
            QueryParam::Time(t) => QueryParamView::Time(*t),
        }
    }
}

pub open spec fn params_view(p: Seq<QueryParam>) -> Seq<QueryParamView> {
    p.map_values(|q: QueryParam| q@)
}

/// The filters, sorting and paging of a project listing. Tempo bounds are
/// only marked as given: their values stay with the caller.
#[derive(Debug)]
pub struct ProjectFilters {
    pub limit: Option<i32>,
    pub offset: Option<i32>,
    pub sort_by: Option<String>,
    pub sort_desc: Option<bool>,
    pub min_tempo: bool,
    pub max_tempo: bool,
    pub key_signature_tonic: Option<String>,
    pub key_signature_scale: Option<String>,
    pub time_signature_numerator: Option<i32>,
    pub time_signature_denominator: Option<i32>,
    pub ableton_version_major: Option<i32>,
    pub ableton_version_minor: Option<i32>,
    pub ableton_version_patch: Option<i32>,
    pub created_after: Option<i64>,
    pub created_before: Option<i64>,
    pub modified_after: Option<i64>,
    pub modified_before: Option<i64>,
    pub has_audio_file: Option<bool>,
}

/// The two statements of a project listing and their parameters.
#[derive(Debug)]
pub struct ProjectQuery {
    /// Counts the matching projects; takes `params`.
    pub count_sql: String,
    /// Lists one page of them; takes `params`, then `page_params`.
    pub select_sql: String,
    pub params: Vec<QueryParam>,
    /// The limit (1000 by default) and the offset (0 by default).
    pub page_params: Vec<QueryParam>,
}

/// The column sorted by: one of the known columns, `name` otherwise.
pub open spec fn sort_column(sort_by: Option<Seq<char>>) -> Seq<char> {
    match sort_by {
        Some(s) => if s == "name"@ || s == "path"@ || s == "created_at"@ || s == "modified_at"@ || s == "tempo"@
            || s == "duration_seconds"@ || s == "ableton_version_major"@ {
            s
        } else {
            "name"@
        },
        None => "name"@,
    }
}

pub open spec fn text_option(o: Option<String>) -> Option<Seq<char>> {
    match o {
        Some(s) => Some(s@),
        None => None,
    }
}

pub open spec fn if_given<T>(given: bool, x: T) -> Seq<T> {
    if given {
        seq![x]
    } else {
        Seq::empty()
    }
}

pub open spec fn int_param(o: Option<i32>) -> Seq<QueryParamView> {
    match o {
        Some(i) => seq![QueryParamView::Int(i)],
        None => Seq::empty(),
    }
}

pub open spec fn time_param(o: Option<i64>) -> Seq<QueryParamView> {
    match o {
        Some(t) => seq![QueryParamView::Time(t)],
        None => Seq::empty(),
    }
}

pub open spec fn text_param(o: Option<String>) -> Seq<QueryParamView> {
    match o {
        Some(t) => seq![QueryParamView::Text(t@)],
        None => Seq::empty(),
    }
}

/// The tempo and key conditions.
pub open spec fn tempo_key_conditions(f: ProjectFilters) -> Seq<Seq<char>> {
    if_given(f.min_tempo, "tempo >= ?"@)
        + if_given(f.max_tempo, "tempo <= ?"@)
        + if_given(f.key_signature_tonic is Some, "key_signature_tonic = ?"@)
        + if_given(f.key_signature_scale is Some, "key_signature_scale = ?"@)
}

pub open spec fn tempo_key_params(f: ProjectFilters) -> Seq<QueryParamView> {
    if_given(f.min_tempo, QueryParamView::MinTempo)
        + if_given(f.max_tempo, QueryParamView::MaxTempo)
        + text_param(f.key_signature_tonic)
        + text_param(f.key_signature_scale)
}

/// The time signature and version conditions.
pub open spec fn signature_version_conditions(f: ProjectFilters) -> Seq<Seq<char>> {
    if_given(f.time_signature_numerator is Some, "time_signature_numerator = ?"@)
        + if_given(f.time_signature_denominator is Some, "time_signature_denominator = ?"@)
        + if_given(f.ableton_version_major is Some, "ableton_version_major = ?"@)
        + if_given(f.ableton_version_minor is Some, "ableton_version_minor = ?"@)
        + if_given(f.ableton_version_patch is Some, "ableton_version_patch = ?"@)
}

pub open spec fn signature_version_params(f: ProjectFilters) -> Seq<QueryParamView> {
    int_param(f.time_signature_numerator)
        + int_param(f.time_signature_denominator)
        + int_param(f.ableton_version_major)
        + int_param(f.ableton_version_minor)
        + int_param(f.ableton_version_patch)
}

/// The date and audio file conditions.
pub open spec fn date_audio_conditions(f: ProjectFilters) -> Seq<Seq<char>> {
    if_given(f.created_after is Some, "created_at >= ?"@)
        + if_given(f.created_before is Some, "created_at <= ?"@)
        + if_given(f.modified_after is Some, "modified_at >= ?"@)
        + if_given(f.modified_before is Some, "modified_at <= ?"@)
        + match f.has_audio_file {
            Some(true) => seq!["audio_file_id IS NOT NULL"@],
            Some(false) => seq!["audio_file_id IS NULL"@],
            None => Seq::empty(),
        }
}

pub open spec fn date_params(f: ProjectFilters) -> Seq<QueryParamView> {
    time_param(f.created_after)
        + time_param(f.created_before)
        + time_param(f.modified_after)
        + time_param(f.modified_before)
}

/// The conditions of the listing, in this order: active projects, tempo
/// bounds, key, time signature, version, creation and modification dates,
/// audio file.
pub open spec fn filter_conditions(f: ProjectFilters) -> Seq<Seq<char>> {
    seq!["is_active = true"@] + tempo_key_conditions(f) + signature_version_conditions(f) + date_audio_conditions(f)
}

/// The parameters of the conditions, one per `?`, in the same order.
pub open spec fn filter_params(f: ProjectFilters) -> Seq<QueryParamView> {
    tempo_key_params(f) + signature_version_params(f) + date_params(f)
}

/// The `WHERE` clause of the listing.
pub open spec fn where_clause(f: ProjectFilters) -> Seq<char> {
    "WHERE "@ + joined(filter_conditions(f), " AND "@)
}

/// The statement that counts the matching projects.
pub open spec fn count_statement(f: ProjectFilters) -> Seq<char> {
    "SELECT COUNT(*) FROM projects "@ + where_clause(f)
}

/// The statement that lists one page of the matching projects.
pub open spec fn select_statement(f: ProjectFilters) -> Seq<char> {
    "SELECT * FROM projects "@ + where_clause(f) + " ORDER BY "@ + sort_column(text_option(f.sort_by)) + " "@
        + (if f.sort_desc == Some(true) { "DESC"@ } else { "ASC"@ }) + " LIMIT ? OFFSET ?"@
}

pub open spec fn strings_view(v: Seq<String>) -> Seq<Seq<char>> {
    v.map_values(|s: String| s@)
}

/// Adds a condition.
fn push_text(list: &mut Vec<String>, text: &str)
    ensures
        strings_view(final(list)@) == strings_view(old(list)@).push(text@),
{
    let ghost before = strings_view(list@);
    let mut s = String::new();
    push_all(&mut s, text);
    list.push(s);
    assert(strings_view(list@) =~= before.push(text@));
}

/// Adds a parameter.
fn push_param(params: &mut Vec<QueryParam>, p: QueryParam)
    ensures
        params_view(final(params)@) == params_view(old(params)@).push(p@),
{
    let ghost before = params_view(params@);
    let ghost pv = p@;
    params.push(p);
    assert(params_view(params@) =~= before.push(pv));
}

/// The column to sort by (see `sort_column`).
fn sort_column_of(sort_by: &Option<String>) -> (res: &'static str)
    ensures
        res@ == sort_column(text_option(*sort_by)),
{
    proof {
        reveal_strlit("name");
        reveal_strlit("path");
        reveal_strlit("created_at");
        reveal_strlit("modified_at");
        reveal_strlit("tempo");
        reveal_strlit("duration_seconds");
        reveal_strlit("ableton_version_major");
    }
    match sort_by {
        None => "name",
        Some(s) => {
            let s = s.as_str();
            if str_eq(s, "name") {
                "name"
            } else if str_eq(s, "path") {
                "path"
            } else if str_eq(s, "created_at") {
                "created_at"
            } else if str_eq(s, "modified_at") {
                "modified_at"
            } else if str_eq(s, "tempo") {
                "tempo"
            } else if str_eq(s, "duration_seconds") {
                "duration_seconds"
            } else if str_eq(s, "ableton_version_major") {
                "ableton_version_major"
            } else {
                "name"
            }
        },
    }
}

impl ProjectFilters {
    fn add_tempo_key(&self, c: &mut Vec<String>, p: &mut Vec<QueryParam>)
        ensures
            strings_view(final(c)@) == strings_view(old(c)@) + tempo_key_conditions(*self),
            params_view(final(p)@) == params_view(old(p)@) + tempo_key_params(*self),
    {
        let ghost c0 = strings_view(c@);
        let ghost p0 = params_view(p@);
        if self.min_tempo {
            push_text(c, "tempo >= ?");
            push_param(p, QueryParam::MinTempo);
        }
        if self.max_tempo {
            push_text(c, "tempo <= ?");
            push_param(p, QueryParam::MaxTempo);
        }
        if let Some(t) = &self.key_signature_tonic {
            push_text(c, "key_signature_tonic = ?");
            push_param(p, QueryParam::Text(t.clone()));
        }
        if let Some(t) = &self.key_signature_scale {
            push_text(c, "key_signature_scale = ?");
            push_param(p, QueryParam::Text(t.clone()));
        }
        assert(strings_view(c@) =~= c0 + tempo_key_conditions(*self));
        assert(params_view(p@) =~= p0 + tempo_key_params(*self));
    }

    fn add_signature_version(&self, c: &mut Vec<String>, p: &mut Vec<QueryParam>)
        ensures
            strings_view(final(c)@) == strings_view(old(c)@) + signature_version_conditions(*self),
            params_view(final(p)@) == params_view(old(p)@) + signature_version_params(*self),
    {
        let ghost c0 = strings_view(c@);
        let ghost p0 = params_view(p@);
        if let Some(i) = self.time_signature_numerator {
            push_text(c, "time_signature_numerator = ?");
            push_param(p, QueryParam::Int(i));
        }
        if let Some(i) = self.time_signature_denominator {
            push_text(c, "time_signature_denominator = ?");
            push_param(p, QueryParam::Int(i));
        }
        if let Some(i) = self.ableton_version_major {
            push_text(c, "ableton_version_major = ?");
            push_param(p, QueryParam::Int(i));
        }
        if let Some(i) = self.ableton_version_minor {
            push_text(c, "ableton_version_minor = ?");
            push_param(p, QueryParam::Int(i));
        }
        if let Some(i) = self.ableton_version_patch {
            push_text(c, "ableton_version_patch = ?");
            push_param(p, QueryParam::Int(i));
        }
        assert(strings_view(c@) =~= c0 + signature_version_conditions(*self));
        assert(params_view(p@) =~= p0 + signature_version_params(*self));
    }

    fn add_date_audio(&self, c: &mut Vec<String>, p: &mut Vec<QueryParam>)
        ensures
            strings_view(final(c)@) == strings_view(old(c)@) + date_audio_conditions(*self),
            params_view(final(p)@) == params_view(old(p)@) + date_params(*self),
    {
        let ghost c0 = strings_view(c@);
        let ghost p0 = params_view(p@);
        if let Some(t) = self.created_after {
            push_text(c, "created_at >= ?");
            push_param(p, QueryParam::Time(t));
        }
        if let Some(t) = self.created_before {
            push_text(c, "created_at <= ?");
            push_param(p, QueryParam::Time(t));
        }
        if let Some(t) = self.modified_after {
            push_text(c, "modified_at >= ?");
            push_param(p, QueryParam::Time(t));
        }
        if let Some(t) = self.modified_before {
            push_text(c, "modified_at <= ?");
            push_param(p, QueryParam::Time(t));
        }
        match self.has_audio_file {
            Some(true) => push_text(c, "audio_file_id IS NOT NULL"),
            Some(false) => push_text(c, "audio_file_id IS NULL"),
            None => {},
        }
        assert(strings_view(c@) =~= c0 + date_audio_conditions(*self));
        assert(params_view(p@) =~= p0 + date_params(*self));
    }

    /// The `WHERE` clause of these filters and its parameters.
    fn where_and_params(&self) -> (res: (String, Vec<QueryParam>))
        ensures
            res.0@ == where_clause(*self),
            params_view(res.1@) == filter_params(*self),
    {
        proof {
            reveal_strlit("WHERE ");
        }
        let mut conditions: Vec<String> = Vec::new();
        let mut params: Vec<QueryParam> = Vec::new();
        assert(strings_view(conditions@) =~= Seq::<Seq<char>>::empty());
        assert(params_view(params@) =~= Seq::<QueryParamView>::empty());
        push_text(&mut conditions, "is_active = true");
        self.add_tempo_key(&mut conditions, &mut params);
        self.add_signature_version(&mut conditions, &mut params);
        self.add_date_audio(&mut conditions, &mut params);
        assert(strings_view(conditions@) =~= filter_conditions(*self));
        assert(params_view(params@) =~= filter_params(*self));
        let joined_conditions = crate::search::join_strings(&conditions, " AND ");
        let mut where_text = String::new();
        push_all(&mut where_text, "WHERE ");
        push_all(&mut where_text, joined_conditions.as_str());
        (where_text, params)
    }

    /// The statements and parameters that list projects by these filters
    /// (see `filter_conditions`, `filter_params`, `count_statement`,
    /// `select_statement`).
    pub fn build_query(&self) -> (res: ProjectQuery)
        ensures
            res.count_sql@ == count_statement(*self),
            res.select_sql@ == select_statement(*self),
            params_view(res.params@) == filter_params(*self),
            params_view(res.page_params@) == seq![
                QueryParamView::Int(match self.limit { Some(l) => l, None => 1000 }),
                QueryParamView::Int(match self.offset { Some(o) => o, None => 0 }),
            ],
    {
        proof {
            reveal_strlit("WHERE ");
            reveal_strlit("SELECT COUNT(*) FROM projects ");
            reveal_strlit("SELECT * FROM projects ");
            reveal_strlit(" ORDER BY ");
            reveal_strlit(" ");
            reveal_strlit("DESC");
            reveal_strlit("ASC");
            reveal_strlit(" LIMIT ? OFFSET ?");
        }
        let (where_text, params) = self.where_and_params();
        let mut count_sql = String::new();
        push_all(&mut count_sql, "SELECT COUNT(*) FROM projects ");
        push_all(&mut count_sql, where_text.as_str());
        let mut select_sql = String::new();
        push_all(&mut select_sql, "SELECT * FROM projects ");
        push_all(&mut select_sql, where_text.as_str());
        push_all(&mut select_sql, " ORDER BY ");
        push_all(&mut select_sql, sort_column_of(&self.sort_by));
        push_all(&mut select_sql, " ");
        let desc = match self.sort_desc {
            Some(d) => d,
            None => false,
        };
        push_all(&mut select_sql, if desc { "DESC" } else { "ASC" });
        push_all(&mut select_sql, " LIMIT ? OFFSET ?");
        let mut page_params: Vec<QueryParam> = Vec::new();
        assert(params_view(page_params@) =~= Seq::<QueryParamView>::empty());
        push_param(&mut page_params, QueryParam::Int(match self.limit { Some(l) => l, None => 1000 }));
        push_param(&mut page_params, QueryParam::Int(match self.offset { Some(o) => o, None => 0 }));
        assert(params_view(page_params@) =~= seq![
            QueryParamView::Int(match self.limit { Some(l) => l, None => 1000 }),
            QueryParamView::Int(match self.offset { Some(o) => o, None => 0 }),
        ]);
        ProjectQuery { count_sql, select_sql, params, page_params }
    }
}

/// The number of `?` placeholders in a text.
pub open spec fn placeholders(s: Seq<char>) -> nat
    decreases s.len(),
{
    if s.len() == 0 {
        0
    } else {
        (if s.last() == '?' { 1nat } else { 0nat }) + placeholders(s.drop_last())
    }
}

proof fn lemma_placeholders_add(a: Seq<char>, b: Seq<char>)
    ensures
        placeholders(a + b) == placeholders(a) + placeholders(b),
    decreases b.len(),
{
    if b.len() > 0 {
        lemma_placeholders_add(a, b.drop_last());
        assert((a + b).drop_last() =~= a + b.drop_last());
        assert((a + b).last() == b.last());
    } else {
        assert(a + b =~= a);
    }
}

/// The placeholders of the condition texts, one per `?`.
proof fn lemma_condition_placeholders_0()
    ensures
        placeholders(" AND audio_file_id IS NOT NULL"@) == 0,
        placeholders("tempo >= ?"@) == 1,
        placeholders("tempo <= ?"@) == 1,
        placeholders("key_signature_tonic = ?"@) == 1,
        placeholders("key_signature_scale = ?"@) == 1,
        placeholders("time_signature_numerator = ?"@) == 1,
        placeholders("time_signature_denominator = ?"@) == 1,
        placeholders("ableton_version_major = ?"@) == 1,
{
    reveal_strlit(" AND audio_file_id IS NOT NULL");
    reveal_strlit("tempo >= ?");
    reveal_strlit("tempo <= ?");
    reveal_strlit("key_signature_tonic = ?");
    reveal_strlit("key_signature_scale = ?");
    reveal_strlit("time_signature_numerator = ?");
    reveal_strlit("time_signature_denominator = ?");
    reveal_strlit("ableton_version_major = ?");
    reveal_with_fuel(placeholders, 32);
}

proof fn lemma_condition_placeholders_1()
    ensures
        placeholders("ableton_version_minor = ?"@) == 1,
        placeholders("ableton_version_patch = ?"@) == 1,
        placeholders("created_at >= ?"@) == 1,
        placeholders("created_at <= ?"@) == 1,
        placeholders("modified_at >= ?"@) == 1,
        placeholders("modified_at <= ?"@) == 1,
        placeholders("is_active = true"@) == 0,
        placeholders("audio_file_id IS NOT NULL"@) == 0,
{
    reveal_strlit("ableton_version_minor = ?");
    reveal_strlit("ableton_version_patch = ?");
    reveal_strlit("created_at >= ?");
    reveal_strlit("created_at <= ?");
    reveal_strlit("modified_at >= ?");
    reveal_strlit("modified_at <= ?");
    reveal_strlit("is_active = true");
    reveal_strlit("audio_file_id IS NOT NULL");
    reveal_with_fuel(placeholders, 32);
}

proof fn lemma_condition_placeholders_2()
    ensures
        placeholders("audio_file_id IS NULL"@) == 0,
        placeholders(" AND "@) == 0,
        placeholders("WHERE "@) == 0,
        placeholders("SELECT COUNT(*) FROM projects "@) == 0,
        placeholders("SELECT * FROM projects "@) == 0,
        placeholders(" ORDER BY "@) == 0,
        placeholders("name"@) == 0,
        placeholders("path"@) == 0,
{
    reveal_strlit("audio_file_id IS NULL");
    reveal_strlit(" AND ");
    reveal_strlit("WHERE ");
    reveal_strlit("SELECT COUNT(*) FROM projects ");
    reveal_strlit("SELECT * FROM projects ");
    reveal_strlit(" ORDER BY ");
    reveal_strlit("name");
    reveal_strlit("path");
    reveal_with_fuel(placeholders, 32);
}

proof fn lemma_condition_placeholders_3()
    ensures
        placeholders("created_at"@) == 0,
        placeholders("modified_at"@) == 0,
        placeholders("tempo"@) == 0,
        placeholders("duration_seconds"@) == 0,
        placeholders("ableton_version_major"@) == 0,
        placeholders(" "@) == 0,
        placeholders("DESC"@) == 0,
        placeholders("ASC"@) == 0,
{
    reveal_strlit("created_at");
    reveal_strlit("modified_at");
    reveal_strlit("tempo");
    reveal_strlit("duration_seconds");
    reveal_strlit("ableton_version_major");
    reveal_strlit(" ");
    reveal_strlit("DESC");
    reveal_strlit("ASC");
    reveal_with_fuel(placeholders, 32);
}

proof fn lemma_condition_placeholders_4()
    ensures
        placeholders(" LIMIT ? OFFSET ?"@) == 2,
{
    reveal_strlit(" LIMIT ? OFFSET ?");
    reveal_with_fuel(placeholders, 32);
}

proof fn lemma_condition_placeholders()
    ensures
        placeholders(" AND audio_file_id IS NOT NULL"@) == 0,
        placeholders("tempo >= ?"@) == 1,
        placeholders("tempo <= ?"@) == 1,
        placeholders("key_signature_tonic = ?"@) == 1,
        placeholders("key_signature_scale = ?"@) == 1,
        placeholders("time_signature_numerator = ?"@) == 1,
        placeholders("time_signature_denominator = ?"@) == 1,
        placeholders("ableton_version_major = ?"@) == 1,
        placeholders("ableton_version_minor = ?"@) == 1,
        placeholders("ableton_version_patch = ?"@) == 1,
        placeholders("created_at >= ?"@) == 1,
        placeholders("created_at <= ?"@) == 1,
        placeholders("modified_at >= ?"@) == 1,
        placeholders("modified_at <= ?"@) == 1,
        placeholders("is_active = true"@) == 0,
        placeholders("audio_file_id IS NOT NULL"@) == 0,
        placeholders("audio_file_id IS NULL"@) == 0,
        placeholders(" AND "@) == 0,
        placeholders("WHERE "@) == 0,
        placeholders("SELECT COUNT(*) FROM projects "@) == 0,
        placeholders("SELECT * FROM projects "@) == 0,
        placeholders(" ORDER BY "@) == 0,
        placeholders("name"@) == 0,
        placeholders("path"@) == 0,
        placeholders("created_at"@) == 0,
        placeholders("modified_at"@) == 0,
        placeholders("tempo"@) == 0,
        placeholders("duration_seconds"@) == 0,
        placeholders("ableton_version_major"@) == 0,
        placeholders(" "@) == 0,
        placeholders("DESC"@) == 0,
        placeholders("ASC"@) == 0,
        placeholders(" LIMIT ? OFFSET ?"@) == 2,
{
    lemma_condition_placeholders_0();
    lemma_condition_placeholders_1();
    lemma_condition_placeholders_2();
    lemma_condition_placeholders_3();
    lemma_condition_placeholders_4();
}

/// The placeholders of several texts together.
pub open spec fn total_placeholders(ws: Seq<Seq<char>>) -> nat
    decreases ws.len(),
{
    if ws.len() == 0 {
        0
    } else {
        total_placeholders(ws.drop_last()) + placeholders(ws.last())
    }
}

proof fn lemma_total_add(a: Seq<Seq<char>>, b: Seq<Seq<char>>)
    ensures
        total_placeholders(a + b) == total_placeholders(a) + total_placeholders(b),
    decreases b.len(),
{
    if b.len() > 0 {
        lemma_total_add(a, b.drop_last());
        assert((a + b).drop_last() =~= a + b.drop_last());
        assert((a + b).last() == b.last());
    } else {
        assert(a + b =~= a);
    }
}

proof fn lemma_total_one(x: Seq<char>)
    ensures
        total_placeholders(seq![x]) == placeholders(x),
{
    reveal_with_fuel(total_placeholders, 2);
    assert(seq![x].drop_last() =~= Seq::<Seq<char>>::empty());
    assert(seq![x].last() == x);
}

proof fn lemma_total_if_given(b: bool, x: Seq<char>)
    ensures
        total_placeholders(if_given(b, x)) == if b { placeholders(x) } else { 0 },
{
    if b {
        lemma_total_one(x);
    }
}

/// Texts joined by a separator without placeholders have those of the texts.
proof fn lemma_joined_placeholders(ws: Seq<Seq<char>>, sep: Seq<char>)
    requires
        placeholders(sep) == 0,
    ensures
        placeholders(joined(ws, sep)) == total_placeholders(ws),
    decreases ws.len(),
{
    if ws.len() == 1 {
        lemma_total_one(ws[0]);
        assert(ws =~= seq![ws[0]]);
    } else if ws.len() > 1 {
        lemma_joined_placeholders(ws.drop_last(), sep);
        lemma_placeholders_add(joined(ws.drop_last(), sep), sep);
        lemma_placeholders_add(joined(ws.drop_last(), sep) + sep, ws.last());
    }
}

proof fn lemma_tempo_key_total(f: ProjectFilters)
    ensures
        total_placeholders(tempo_key_conditions(f)) == tempo_key_params(f).len(),
{
    lemma_condition_placeholders();
    let t1 = if_given(f.min_tempo, "tempo >= ?"@);
    let t2 = if_given(f.max_tempo, "tempo <= ?"@);
    let t3 = if_given(f.key_signature_tonic is Some, "key_signature_tonic = ?"@);
    let t4 = if_given(f.key_signature_scale is Some, "key_signature_scale = ?"@);
    lemma_total_if_given(f.min_tempo, "tempo >= ?"@);
    lemma_total_if_given(f.max_tempo, "tempo <= ?"@);
    lemma_total_if_given(f.key_signature_tonic is Some, "key_signature_tonic = ?"@);
    lemma_total_if_given(f.key_signature_scale is Some, "key_signature_scale = ?"@);
    lemma_total_add(t1, t2);
    lemma_total_add(t1 + t2, t3);
    lemma_total_add(t1 + t2 + t3, t4);
}

proof fn lemma_signature_version_total(f: ProjectFilters)
    ensures
        total_placeholders(signature_version_conditions(f)) == signature_version_params(f).len(),
{
    lemma_condition_placeholders();
    let s1 = if_given(f.time_signature_numerator is Some, "time_signature_numerator = ?"@);
    let s2 = if_given(f.time_signature_denominator is Some, "time_signature_denominator = ?"@);
    let s3 = if_given(f.ableton_version_major is Some, "ableton_version_major = ?"@);
    let s4 = if_given(f.ableton_version_minor is Some, "ableton_version_minor = ?"@);
    let s5 = if_given(f.ableton_version_patch is Some, "ableton_version_patch = ?"@);
    lemma_total_if_given(f.time_signature_numerator is Some, "time_signature_numerator = ?"@);
    lemma_total_if_given(f.time_signature_denominator is Some, "time_signature_denominator = ?"@);
    lemma_total_if_given(f.ableton_version_major is Some, "ableton_version_major = ?"@);
    lemma_total_if_given(f.ableton_version_minor is Some, "ableton_version_minor = ?"@);
    lemma_total_if_given(f.ableton_version_patch is Some, "ableton_version_patch = ?"@);
    lemma_total_add(s1, s2);
    lemma_total_add(s1 + s2, s3);
    lemma_total_add(s1 + s2 + s3, s4);
    lemma_total_add(s1 + s2 + s3 + s4, s5);
}

proof fn lemma_date_audio_total(f: ProjectFilters)
    ensures
        total_placeholders(date_audio_conditions(f)) == date_params(f).len(),
{
    lemma_condition_placeholders();
    let d1 = if_given(f.created_after is Some, "created_at >= ?"@);
    let d2 = if_given(f.created_before is Some, "created_at <= ?"@);
    let d3 = if_given(f.modified_after is Some, "modified_at >= ?"@);
    let d4 = if_given(f.modified_before is Some, "modified_at <= ?"@);
    let d5: Seq<Seq<char>> = match f.has_audio_file {
        Some(true) => seq!["audio_file_id IS NOT NULL"@],
        Some(false) => seq!["audio_file_id IS NULL"@],
        None => Seq::empty(),
    };
    lemma_total_if_given(f.created_after is Some, "created_at >= ?"@);
    lemma_total_if_given(f.created_before is Some, "created_at <= ?"@);
    lemma_total_if_given(f.modified_after is Some, "modified_at >= ?"@);
    lemma_total_if_given(f.modified_before is Some, "modified_at <= ?"@);
    lemma_total_one("audio_file_id IS NOT NULL"@);
    lemma_total_one("audio_file_id IS NULL"@);
    lemma_total_add(d1, d2);
    lemma_total_add(d1 + d2, d3);
    lemma_total_add(d1 + d2 + d3, d4);
    lemma_total_add(d1 + d2 + d3 + d4, d5);
    assert(total_placeholders(d5) == 0);
}

proof fn lemma_where_placeholders(f: ProjectFilters)
    ensures
        placeholders(where_clause(f)) == filter_params(f).len(),
{
    lemma_condition_placeholders();
    let a = seq!["is_active = true"@];
    let tk = tempo_key_conditions(f);
    let sv = signature_version_conditions(f);
    let da = date_audio_conditions(f);
    lemma_total_one("is_active = true"@);
    lemma_total_add(a, tk);
    lemma_total_add(a + tk, sv);
    lemma_total_add(a + tk + sv, da);
    lemma_tempo_key_total(f);
    lemma_signature_version_total(f);
    lemma_date_audio_total(f);
    lemma_joined_placeholders(filter_conditions(f), " AND "@);
    lemma_placeholders_add("WHERE "@, joined(filter_conditions(f), " AND "@));
}

/// Each `?` of the statements has its parameter: the count statement takes
/// exactly the condition parameters, the listing statement those and the two
/// paging parameters.
pub proof fn law_placeholders_match_params(f: ProjectFilters)
    ensures
        placeholders(count_statement(f)) == filter_params(f).len(),
        placeholders(select_statement(f)) == filter_params(f).len() + 2,
{
    lemma_condition_placeholders();
    lemma_where_placeholders(f);
    lemma_placeholders_add("SELECT COUNT(*) FROM projects "@, where_clause(f));
    let col = sort_column(text_option(f.sort_by));
    assert(placeholders(col) == 0);
    let order = if f.sort_desc == Some(true) { "DESC"@ } else { "ASC"@ };
    assert(placeholders(order) == 0);
    let p1 = "SELECT * FROM projects "@ + where_clause(f);
    let p2 = p1 + " ORDER BY "@;
    let p3 = p2 + col;
    let p4 = p3 + " "@;
    let p5 = p4 + order;
    lemma_placeholders_add("SELECT * FROM projects "@, where_clause(f));
    lemma_placeholders_add(p1, " ORDER BY "@);
    lemma_placeholders_add(p2, col);
    lemma_placeholders_add(p3, " "@);
    lemma_placeholders_add(p4, order);
    lemma_placeholders_add(p5, " LIMIT ? OFFSET ?"@);
}

/// Whether `condition` is the one of the filters `f` that takes `param`:
/// the minimum tempo a lower bound on the tempo, the maximum tempo an upper
/// bound, the key's tonic and scale their equality, the time signature and
/// version numbers theirs, the creation and modification bounds their own
/// comparisons, each with the value that `f` gives.
pub open spec fn binds(f: ProjectFilters, condition: Seq<char>, param: QueryParamView) -> bool {
    match param {
        QueryParamView::MinTempo => condition == "tempo >= ?"@ && f.min_tempo,
        QueryParamView::MaxTempo => condition == "tempo <= ?"@ && f.max_tempo,
        QueryParamView::Text(t) => {
            ||| condition == "key_signature_tonic = ?"@ && text_option(f.key_signature_tonic) == Some(t)
            ||| condition == "key_signature_scale = ?"@ && text_option(f.key_signature_scale) == Some(t)
        },
        QueryParamView::Int(i) => {
            ||| condition == "time_signature_numerator = ?"@ && f.time_signature_numerator == Some(i)
            ||| condition == "time_signature_denominator = ?"@ && f.time_signature_denominator == Some(i)
            ||| condition == "ableton_version_major = ?"@ && f.ableton_version_major == Some(i)
            ||| condition == "ableton_version_minor = ?"@ && f.ableton_version_minor == Some(i)
            ||| condition == "ableton_version_patch = ?"@ && f.ableton_version_patch == Some(i)
        },
        QueryParamView::Time(t) => {
            ||| condition == "created_at >= ?"@ && f.created_after == Some(t)
            ||| condition == "created_at <= ?"@ && f.created_before == Some(t)
            ||| condition == "modified_at >= ?"@ && f.modified_after == Some(t)
            ||| condition == "modified_at <= ?"@ && f.modified_before == Some(t)
        },
    }
}

/// A condition with a `?`.
pub open spec fn takes_parameter() -> spec_fn(Seq<char>) -> bool {
    |c: Seq<char>| placeholders(c) > 0
}

/// The conditions that hold a `?`, in order: once joined into the `WHERE`
/// clause, the `k`-th of them holds its `k`-th `?`.
pub open spec fn bound_conditions(conditions: Seq<Seq<char>>) -> Seq<Seq<char>> {
    conditions.filter(takes_parameter())
}

/// The `k`-th condition takes the `k`-th parameter, for every `k`.
pub open spec fn paired(f: ProjectFilters, conditions: Seq<Seq<char>>, params: Seq<QueryParamView>) -> bool {
    &&& conditions.len() == params.len()
    &&& forall|i: int| 0 <= i < params.len() ==> #[trigger] binds(f, conditions[i], params[i])
}

proof fn lemma_paired_add(f: ProjectFilters, c1: Seq<Seq<char>>, p1: Seq<QueryParamView>, c2: Seq<Seq<char>>, p2: Seq<QueryParamView>)
    requires
        paired(f, c1, p1),
        paired(f, c2, p2),
    ensures
        paired(f, c1 + c2, p1 + p2),
{
    assert forall|i: int| 0 <= i < (p1 + p2).len() implies #[trigger] binds(f, (c1 + c2)[i], (p1 + p2)[i]) by {
        if i < p1.len() {
            assert(binds(f, c1[i], p1[i]));
        } else {
            assert(binds(f, c2[i - p1.len()], p2[i - p1.len()]));
        }
    }
}

proof fn lemma_bound_add(a: Seq<Seq<char>>, b: Seq<Seq<char>>)
    ensures
        bound_conditions(a + b) == bound_conditions(a) + bound_conditions(b),
{
    Seq::filter_distributes_over_add(a, b, takes_parameter());
}

proof fn lemma_bound_if_given(given: bool, x: Seq<char>)
    ensures
        bound_conditions(if_given(given, x)) == if placeholders(x) > 0 { if_given(given, x) } else { Seq::empty() },
{
    reveal_with_fuel(Seq::<_>::filter, 2);
    if given {
        assert(seq![x].drop_last() =~= Seq::<Seq<char>>::empty());
        assert(seq![x].last() == x);
        if placeholders(x) > 0 {
            assert(Seq::<Seq<char>>::empty().push(x) =~= seq![x]);
        }
    }
}

proof fn lemma_paired_one(f: ProjectFilters, given: bool, c: Seq<char>, p: QueryParamView)
    requires
        given ==> binds(f, c, p),
    ensures
        paired(f, if_given(given, c), if_given(given, p)),
{
    if given {
        assert(if_given(given, p)[0] == p);
    }
}

proof fn lemma_tempo_key_paired(f: ProjectFilters)
    ensures
        bound_conditions(tempo_key_conditions(f)) == tempo_key_conditions(f),
        paired(f, tempo_key_conditions(f), tempo_key_params(f)),
{
    lemma_condition_placeholders();
    let t1 = if_given(f.min_tempo, "tempo >= ?"@);
    let t2 = if_given(f.max_tempo, "tempo <= ?"@);
    let t3 = if_given(f.key_signature_tonic is Some, "key_signature_tonic = ?"@);
    let t4 = if_given(f.key_signature_scale is Some, "key_signature_scale = ?"@);
    lemma_bound_if_given(f.min_tempo, "tempo >= ?"@);
    lemma_bound_if_given(f.max_tempo, "tempo <= ?"@);
    lemma_bound_if_given(f.key_signature_tonic is Some, "key_signature_tonic = ?"@);
    lemma_bound_if_given(f.key_signature_scale is Some, "key_signature_scale = ?"@);
    lemma_bound_add(t1, t2);
    lemma_bound_add(t1 + t2, t3);
    lemma_bound_add(t1 + t2 + t3, t4);
    lemma_paired_one(f, f.min_tempo, "tempo >= ?"@, QueryParamView::MinTempo);
    lemma_paired_one(f, f.max_tempo, "tempo <= ?"@, QueryParamView::MaxTempo);
    let k1 = match f.key_signature_tonic { Some(t) => QueryParamView::Text(t@), None => QueryParamView::MinTempo };
    let k2 = match f.key_signature_scale { Some(t) => QueryParamView::Text(t@), None => QueryParamView::MinTempo };
    if f.key_signature_tonic is Some {
        lemma_paired_one(f, true, "key_signature_tonic = ?"@, k1);
        assert(text_param(f.key_signature_tonic) == if_given(true, k1));
    } else {
        assert(paired(f, t3, text_param(f.key_signature_tonic)));
    }
    if f.key_signature_scale is Some {
        lemma_paired_one(f, true, "key_signature_scale = ?"@, k2);
        assert(text_param(f.key_signature_scale) == if_given(true, k2));
    } else {
        assert(paired(f, t4, text_param(f.key_signature_scale)));
    }
    lemma_paired_add(f, t1, if_given(f.min_tempo, QueryParamView::MinTempo), t2, if_given(f.max_tempo, QueryParamView::MaxTempo));
    lemma_paired_add(
        f,
        t1 + t2,
        if_given(f.min_tempo, QueryParamView::MinTempo) + if_given(f.max_tempo, QueryParamView::MaxTempo),
        t3,
        text_param(f.key_signature_tonic),
    );
    lemma_paired_add(
        f,
        t1 + t2 + t3,
        if_given(f.min_tempo, QueryParamView::MinTempo) + if_given(f.max_tempo, QueryParamView::MaxTempo)
            + text_param(f.key_signature_tonic),
        t4,
        text_param(f.key_signature_scale),
    );
}

proof fn lemma_int_paired(f: ProjectFilters, o: Option<i32>, c: Seq<char>)
    requires
        o matches Some(i) ==> binds(f, c, QueryParamView::Int(i)),
    ensures
        paired(f, if_given(o is Some, c), int_param(o)),
{
    if o is Some {
        assert(int_param(o)[0] == QueryParamView::Int(o->Some_0));
    }
}

proof fn lemma_time_paired(f: ProjectFilters, o: Option<i64>, c: Seq<char>)
    requires
        o matches Some(t) ==> binds(f, c, QueryParamView::Time(t)),
    ensures
        paired(f, if_given(o is Some, c), time_param(o)),
{
    if o is Some {
        assert(time_param(o)[0] == QueryParamView::Time(o->Some_0));
    }
}

proof fn lemma_signature_version_paired(f: ProjectFilters)
    ensures
        bound_conditions(signature_version_conditions(f)) == signature_version_conditions(f),
        paired(f, signature_version_conditions(f), signature_version_params(f)),
{
    lemma_condition_placeholders();
    let s1 = if_given(f.time_signature_numerator is Some, "time_signature_numerator = ?"@);
    let s2 = if_given(f.time_signature_denominator is Some, "time_signature_denominator = ?"@);
    let s3 = if_given(f.ableton_version_major is Some, "ableton_version_major = ?"@);
    let s4 = if_given(f.ableton_version_minor is Some, "ableton_version_minor = ?"@);
    let s5 = if_given(f.ableton_version_patch is Some, "ableton_version_patch = ?"@);
    lemma_bound_if_given(f.time_signature_numerator is Some, "time_signature_numerator = ?"@);
    lemma_bound_if_given(f.time_signature_denominator is Some, "time_signature_denominator = ?"@);
    lemma_bound_if_given(f.ableton_version_major is Some, "ableton_version_major = ?"@);
    lemma_bound_if_given(f.ableton_version_minor is Some, "ableton_version_minor = ?"@);
    lemma_bound_if_given(f.ableton_version_patch is Some, "ableton_version_patch = ?"@);
    lemma_bound_add(s1, s2);
    lemma_bound_add(s1 + s2, s3);
    lemma_bound_add(s1 + s2 + s3, s4);
    lemma_bound_add(s1 + s2 + s3 + s4, s5);
    lemma_int_paired(f, f.time_signature_numerator, "time_signature_numerator = ?"@);
    lemma_int_paired(f, f.time_signature_denominator, "time_signature_denominator = ?"@);
    lemma_int_paired(f, f.ableton_version_major, "ableton_version_major = ?"@);
    lemma_int_paired(f, f.ableton_version_minor, "ableton_version_minor = ?"@);
    lemma_int_paired(f, f.ableton_version_patch, "ableton_version_patch = ?"@);
    let q1 = int_param(f.time_signature_numerator);
    let q2 = int_param(f.time_signature_denominator);
    let q3 = int_param(f.ableton_version_major);
    let q4 = int_param(f.ableton_version_minor);
    let q5 = int_param(f.ableton_version_patch);
    lemma_paired_add(f, s1, q1, s2, q2);
    lemma_paired_add(f, s1 + s2, q1 + q2, s3, q3);
    lemma_paired_add(f, s1 + s2 + s3, q1 + q2 + q3, s4, q4);
    lemma_paired_add(f, s1 + s2 + s3 + s4, q1 + q2 + q3 + q4, s5, q5);
}

proof fn lemma_date_paired(f: ProjectFilters)
    ensures
        bound_conditions(date_audio_conditions(f)) == if_given(f.created_after is Some, "created_at >= ?"@)
            + if_given(f.created_before is Some, "created_at <= ?"@) + if_given(f.modified_after is Some, "modified_at >= ?"@)
            + if_given(f.modified_before is Some, "modified_at <= ?"@),
        paired(f, bound_conditions(date_audio_conditions(f)), date_params(f)),
{
    lemma_condition_placeholders();
    let d1 = if_given(f.created_after is Some, "created_at >= ?"@);
    let d2 = if_given(f.created_before is Some, "created_at <= ?"@);
    let d3 = if_given(f.modified_after is Some, "modified_at >= ?"@);
    let d4 = if_given(f.modified_before is Some, "modified_at <= ?"@);
    let d5: Seq<Seq<char>> = match f.has_audio_file {
        Some(true) => seq!["audio_file_id IS NOT NULL"@],
        Some(false) => seq!["audio_file_id IS NULL"@],
        None => Seq::empty(),
    };
    lemma_bound_if_given(f.created_after is Some, "created_at >= ?"@);
    lemma_bound_if_given(f.created_before is Some, "created_at <= ?"@);
    lemma_bound_if_given(f.modified_after is Some, "modified_at >= ?"@);
    lemma_bound_if_given(f.modified_before is Some, "modified_at <= ?"@);
    lemma_bound_if_given(f.has_audio_file == Some(true), "audio_file_id IS NOT NULL"@);
    lemma_bound_if_given(f.has_audio_file == Some(false), "audio_file_id IS NULL"@);
    assert(bound_conditions(d5) == Seq::<Seq<char>>::empty()) by {
        match f.has_audio_file {
            Some(true) => assert(d5 == if_given(true, "audio_file_id IS NOT NULL"@)),
            Some(false) => assert(d5 == if_given(true, "audio_file_id IS NULL"@)),
            None => assert(d5 == if_given(false, "audio_file_id IS NULL"@)),
        }
    }
    lemma_bound_add(d1, d2);
    lemma_bound_add(d1 + d2, d3);
    lemma_bound_add(d1 + d2 + d3, d4);
    lemma_bound_add(d1 + d2 + d3 + d4, d5);
    assert(d1 + d2 + d3 + d4 + Seq::<Seq<char>>::empty() =~= d1 + d2 + d3 + d4);
    lemma_time_paired(f, f.created_after, "created_at >= ?"@);
    lemma_time_paired(f, f.created_before, "created_at <= ?"@);
    lemma_time_paired(f, f.modified_after, "modified_at >= ?"@);
    lemma_time_paired(f, f.modified_before, "modified_at <= ?"@);
    let q1 = time_param(f.created_after);
    let q2 = time_param(f.created_before);
    let q3 = time_param(f.modified_after);
    let q4 = time_param(f.modified_before);
    lemma_paired_add(f, d1, q1, d2, q2);
    lemma_paired_add(f, d1 + d2, q1 + q2, d3, q3);
    lemma_paired_add(f, d1 + d2 + d3, q1 + q2 + q3, d4, q4);
}

/// Each parameter of a listing is bound to its own condition: the `k`-th
/// `?` of the `WHERE` clause takes the `k`-th parameter, and that `?` is in
/// `tempo >= ?` for the minimum tempo, in `tempo <= ?` for the maximum tempo,
/// in a key condition for a text, a time signature or version condition for
/// an integer, a creation or modification date condition for a time.
pub proof fn law_parameters_bind_their_conditions(f: ProjectFilters)
    ensures
        bound_conditions(filter_conditions(f)).len() == filter_params(f).len(),
        forall|i: int| 0 <= i < filter_params(f).len() ==> #[trigger] binds(f, bound_conditions(filter_conditions(f))[i], filter_params(f)[i]),
{
    lemma_condition_placeholders();
    let a = seq!["is_active = true"@];
    let tk = tempo_key_conditions(f);
    let sv = signature_version_conditions(f);
    let da = date_audio_conditions(f);
    lemma_bound_if_given(true, "is_active = true"@);
    lemma_bound_add(a, tk);
    lemma_bound_add(a + tk, sv);
    lemma_bound_add(a + tk + sv, da);
    lemma_tempo_key_paired(f);
    lemma_signature_version_paired(f);
    lemma_date_paired(f);
    lemma_paired_add(f, tk, tempo_key_params(f), sv, signature_version_params(f));
    lemma_paired_add(f, tk + sv, tempo_key_params(f) + signature_version_params(f), bound_conditions(da), date_params(f));
    assert(bound_conditions(filter_conditions(f)) =~= tk + sv + bound_conditions(da));
}

/// The filters of the project statistics: those of a listing without
/// modification dates, sorting or paging.
#[derive(Debug)]
pub struct StatisticsFilters {
    pub min_tempo: bool,
    pub max_tempo: bool,
    pub key_signature_tonic: Option<String>,
    pub key_signature_scale: Option<String>,
    pub time_signature_numerator: Option<i32>,
    pub time_signature_denominator: Option<i32>,
    pub ableton_version_major: Option<i32>,
    pub ableton_version_minor: Option<i32>,
    pub ableton_version_patch: Option<i32>,
    pub created_after: Option<i64>,
    pub created_before: Option<i64>,
    pub has_audio_file: Option<bool>,
}

/// The `WHERE` clause of the project statistics, the statements counting
/// all matching projects and those with an audio file, and the parameters
/// that every statistics statement over the clause takes.
#[derive(Debug)]
pub struct StatisticsQuery {
    pub where_sql: String,
    pub count_sql: String,
    pub with_audio_sql: String,
    pub params: Vec<QueryParam>,
}

/// The statistics filters as listing filters.
pub open spec fn as_listing_filters(s: StatisticsFilters) -> ProjectFilters {
    ProjectFilters {
        limit: None,
        offset: None,
        sort_by: None,
        sort_desc: None,
        min_tempo: s.min_tempo,
        max_tempo: s.max_tempo,
        key_signature_tonic: s.key_signature_tonic,
        key_signature_scale: s.key_signature_scale,
        time_signature_numerator: s.time_signature_numerator,
        time_signature_denominator: s.time_signature_denominator,
        ableton_version_major: s.ableton_version_major,
        ableton_version_minor: s.ableton_version_minor,
        ableton_version_patch: s.ableton_version_patch,
        created_after: s.created_after,
        created_before: s.created_before,
        modified_after: None,
        modified_before: None,
        has_audio_file: s.has_audio_file,
    }
}

/// The `WHERE` clause of the statistics: the conditions of `filter_conditions`
/// for the same filters.
pub open spec fn stats_where_clause(s: StatisticsFilters) -> Seq<char> {
    where_clause(as_listing_filters(s))
}

/// The parameters of the statistics statements, one per `?`.
pub open spec fn stats_params(s: StatisticsFilters) -> Seq<QueryParamView> {
    filter_params(as_listing_filters(s))
}

fn copy_text(o: &Option<String>) -> (res: Option<String>)
    ensures
        res == *o,
{
    match o {
        Some(s) => Some(s.clone()),
        None => None,
    }
}

impl StatisticsFilters {
    /// The statements of the project statistics (see `stats_where_clause`,
    /// `stats_params`).
    pub fn build_statistics_query(&self) -> (res: StatisticsQuery)
        ensures
            res.where_sql@ == stats_where_clause(*self),
            params_view(res.params@) == stats_params(*self),
            res.count_sql@ == "SELECT COUNT(*) FROM projects "@ + stats_where_clause(*self),
            res.with_audio_sql@ == "SELECT COUNT(*) FROM projects "@ + stats_where_clause(*self)
                + " AND audio_file_id IS NOT NULL"@,
    {
        let listing = ProjectFilters {
            limit: None,
            offset: None,
            sort_by: None,
            sort_desc: None,
            min_tempo: self.min_tempo,
            max_tempo: self.max_tempo,
            key_signature_tonic: copy_text(&self.key_signature_tonic),
            key_signature_scale: copy_text(&self.key_signature_scale),
            time_signature_numerator: self.time_signature_numerator,
            time_signature_denominator: self.time_signature_denominator,
            ableton_version_major: self.ableton_version_major,
            ableton_version_minor: self.ableton_version_minor,
            ableton_version_patch: self.ableton_version_patch,
            created_after: self.created_after,
            created_before: self.created_before,
            modified_after: None,
            modified_before: None,
            has_audio_file: self.has_audio_file,
        };
        assert(listing == as_listing_filters(*self));
        let (where_sql, params) = listing.where_and_params();
        proof {
            reveal_strlit("SELECT COUNT(*) FROM projects ");
            reveal_strlit(" AND audio_file_id IS NOT NULL");
        }
        let mut count_sql = String::new();
        push_all(&mut count_sql, "SELECT COUNT(*) FROM projects ");
        push_all(&mut count_sql, where_sql.as_str());
        let mut with_audio_sql = String::new();
        push_all(&mut with_audio_sql, count_sql.as_str());
        push_all(&mut with_audio_sql, " AND audio_file_id IS NOT NULL");
        StatisticsQuery { where_sql, count_sql, with_audio_sql, params }
    }
}

/// The projects without an audio file: all matching projects less those with one.
pub fn projects_without_audio(total: i32, with_audio: i32) -> (res: i32)
    requires
        0 <= with_audio <= total,
    ensures
        res == total - with_audio,
{
    total - with_audio
}

/// Each `?` of the statistics statements has its parameter.
pub proof fn law_statistics_placeholders_match_params(s: StatisticsFilters)
    ensures
        placeholders("SELECT COUNT(*) FROM projects "@ + stats_where_clause(s)) == stats_params(s).len(),
        placeholders("SELECT COUNT(*) FROM projects "@ + stats_where_clause(s) + " AND audio_file_id IS NOT NULL"@)
            == stats_params(s).len(),
{
    lemma_condition_placeholders();
    lemma_where_placeholders(as_listing_filters(s));
    lemma_placeholders_add("SELECT COUNT(*) FROM projects "@, stats_where_clause(s));
    lemma_placeholders_add("SELECT COUNT(*) FROM projects "@ + stats_where_clause(s), " AND audio_file_id IS NOT NULL"@);
}

/// Each parameter of the statistics statements is bound to its own
/// condition, as in a listing.
pub proof fn law_statistics_parameters_bind_their_conditions(s: StatisticsFilters)
    ensures
        bound_conditions(filter_conditions(as_listing_filters(s))).len() == stats_params(s).len(),
        forall|i: int| 0 <= i < stats_params(s).len() ==> #[trigger] binds(
            as_listing_filters(s),
            bound_conditions(filter_conditions(as_listing_filters(s)))[i],
            stats_params(s)[i],
        ),
{
    law_parameters_bind_their_conditions(as_listing_filters(s));
}

} // verus!
