//! The public API: screening of submitted device statistics and the
//! filtered statistics summary.

use vstd::prelude::*;

use indexmap::IndexMap;

use crate::database::{
    clause_view, clauses_view, column_name, opt_chars, FilterClause, GroupCol, GroupedCount, NewStat,
    NewStatView,
};
use crate::ordered::{count_entries, count_map_insert, count_map_new, entries_from, entries_insert};
use crate::router::patterns::{
    ascii_nightly_at, ascii_version_prefix, device_id_shape, nightly_shape_at, regex_capture_first,
    regex_first_group, regex_is_match, regex_matches, version_code_shape, DEVICE_ID_PATTERN,
    NIGHTLY_PATTERN, VERSION_CODE_PATTERN,
};
use crate::tasks::{Banned, BannedView};
use crate::text::{
    byte_len, is_prefix, is_suffix, str_ends_with, str_eq, str_starts_with, string_is, utf8,
};

verus! {

/// The optional filters of a statistics query.
pub struct FilterQuery {
    pub model: Option<String>,
    pub country: Option<String>,
    pub version: Option<String>,
    pub carrier: Option<String>,
}

/// A filter clause on `column` if a value is given, none otherwise.
pub open spec fn optional_clause(column: Seq<char>, value: Option<String>) -> Seq<(Seq<char>, Seq<char>)> {
    match value {
        Some(v) => seq![(column, v@)],
        None => Seq::empty(),
    }
}

/// The filter clauses of a query: one for each given value, in the order
/// model, country, version, carrier.
pub open spec fn query_filters(q: FilterQuery) -> Seq<(Seq<char>, Seq<char>)> {
    optional_clause(column_name(GroupCol::Model), q.model)
        + optional_clause(column_name(GroupCol::Country), q.country)
        + optional_clause(column_name(GroupCol::Version), q.version)
        + optional_clause(column_name(GroupCol::Carrier), q.carrier)
}

/// The value that the filters pin `column` to: that of the last clause on
/// that column, if any.
pub open spec fn pinned_in(filters: Seq<(Seq<char>, Seq<char>)>, column: Seq<char>) -> Option<Seq<char>>
    decreases filters.len(),
{
    if filters.len() == 0 {
        None
    } else if filters.last().0 == column {
        Some(filters.last().1)
    } else {
        pinned_in(filters.drop_last(), column)
    }
}

/// The names and counts of grouped rows, counts taken as `usize`.
pub open spec fn rows_pairs(rows: Seq<GroupedCount>) -> Seq<(Seq<char>, usize)> {
    rows.map_values(|r: GroupedCount| (r.name@, r.count as usize))
}

/// The entries of one group of the summary: the grouped rows, or, where the
/// column is pinned by a filter, the pinned value with the total.
pub open spec fn group_entries(rows: Option<Seq<GroupedCount>>, pinned: Option<Seq<char>>, total: i64) -> Seq<(Seq<char>, usize)> {
    match rows {
        Some(rs) => entries_from(rows_pairs(rs)),
        None => seq![(pinned.unwrap(), total as usize)],
    }
}

/// The characters of optional grouped rows.
pub open spec fn opt_rows(rows: Option<Vec<GroupedCount>>) -> Option<Seq<GroupedCount>> {
    match rows {
        Some(rs) => Some(rs@),
        None => None,
    }
}

impl FilterQuery {
    /// The filter clauses of this query: one for each given value, in the
    /// order model, country, version, carrier.
    pub fn to_filters(&self) -> (filters: Vec<FilterClause<'_>>)
        ensures
            clauses_view(filters@) == query_filters(*self),
    {
        let mut filters: Vec<FilterClause<'_>> = Vec::new();
        if let Some(name) = &self.model {
            filters.push(FilterClause { column: GroupCol::Model.as_str(), value: name.as_str() });
        }
        let ghost f1 = clauses_view(filters@);
        assert(f1 =~= optional_clause(column_name(GroupCol::Model), self.model));
        if let Some(name) = &self.country {
            filters.push(FilterClause { column: GroupCol::Country.as_str(), value: name.as_str() });
        }
        let ghost f2 = clauses_view(filters@);
        assert(f2 =~= f1 + optional_clause(column_name(GroupCol::Country), self.country));
        if let Some(name) = &self.version {
            filters.push(FilterClause { column: GroupCol::Version.as_str(), value: name.as_str() });
        }
        let ghost f3 = clauses_view(filters@);
        assert(f3 =~= f2 + optional_clause(column_name(GroupCol::Version), self.version));
        if let Some(name) = &self.carrier {
            filters.push(FilterClause { column: GroupCol::Carrier.as_str(), value: name.as_str() });
        }
        assert(clauses_view(filters@) =~= f3 + optional_clause(column_name(GroupCol::Carrier), self.carrier));
        filters
    }
}

/// The value a query gives for the column of `group`.
pub open spec fn query_value(q: FilterQuery, group: GroupCol) -> Option<String> {
    match group {
        GroupCol::Model => q.model,
        GroupCol::Country => q.country,
        GroupCol::Version => q.version,
        GroupCol::Carrier => q.carrier,
    }
}

/// The four column names are distinct.
pub proof fn lemma_column_names_distinct()
    ensures
        forall|g: GroupCol, h: GroupCol| g != h ==> #[trigger] column_name(g) != #[trigger] column_name(h),
{
    reveal_strlit("model");
    reveal_strlit("country");
    reveal_strlit("version");
    reveal_strlit("carrier");
    assert("model"@.len() != "country"@.len());
    assert("model"@.len() != "version"@.len());
    assert("model"@.len() != "carrier"@.len());
    assert("country"@[0] != "version"@[0]);
    assert("country"@[1] != "carrier"@[1]);
    assert("version"@[0] != "carrier"@[0]);
}

/// Pinning over concatenated filters: the later clauses win.
pub proof fn lemma_pinned_concat(s: Seq<(Seq<char>, Seq<char>)>, t: Seq<(Seq<char>, Seq<char>)>, column: Seq<char>)
    ensures
        pinned_in(s + t, column) == match pinned_in(t, column) {
            Some(v) => Some(v),
            None => pinned_in(s, column),
        },
    decreases t.len(),
{
    if t.len() == 0 {
        assert(s + t =~= s);
    } else {
        assert((s + t).drop_last() =~= s + t.drop_last());
        assert((s + t).last() == t.last());
        lemma_pinned_concat(s, t.drop_last(), column);
    }
}

/// Pinning by at most one clause.
pub proof fn lemma_pinned_optional(c: Seq<char>, v: Option<String>, column: Seq<char>)
    ensures
        pinned_in(optional_clause(c, v), column) == if c == column { opt_chars(v) } else { None },
{
    let e = Seq::<(Seq<char>, Seq<char>)>::empty();
    assert(pinned_in(e, column) is None);
    if v is Some {
        let s = optional_clause(c, v);
        assert(s.drop_last() =~= e);
        assert(s.last() == (c, v.unwrap()@));
    } else {
        assert(optional_clause(c, v) =~= e);
    }
}

/// The filters of a query pin the column of each group to exactly the value
/// that the query gives for it, and to nothing where it gives none.
pub proof fn lemma_query_pins(q: FilterQuery)
    ensures
        forall|g: GroupCol| #[trigger] pinned_in(query_filters(q), column_name(g)) == opt_chars(query_value(q, g)),
{
    lemma_column_names_distinct();
    assert forall|g: GroupCol| #[trigger] pinned_in(query_filters(q), column_name(g)) == opt_chars(query_value(q, g)) by {
        let col = column_name(g);
        let a = optional_clause(column_name(GroupCol::Model), q.model);
        let b = optional_clause(column_name(GroupCol::Country), q.country);
        let c = optional_clause(column_name(GroupCol::Version), q.version);
        let d = optional_clause(column_name(GroupCol::Carrier), q.carrier);
        lemma_pinned_optional(column_name(GroupCol::Model), q.model, col);
        lemma_pinned_optional(column_name(GroupCol::Country), q.country, col);
        lemma_pinned_optional(column_name(GroupCol::Version), q.version, col);
        lemma_pinned_optional(column_name(GroupCol::Carrier), q.carrier, col);
        lemma_pinned_concat(a, b, col);
        lemma_pinned_concat(a + b, c, col);
        lemma_pinned_concat(a + b + c, d, col);
        assert(pinned_in(Seq::<(Seq<char>, Seq<char>)>::empty(), col) is None);
    }
}

/// Every filter column of a query is the column of a group, so it holds no
/// placeholder mark and only ever names a known column.
pub proof fn lemma_query_filter_columns(q: FilterQuery)
    ensures
        forall|i: int| 0 <= i < query_filters(q).len() ==> exists|g: GroupCol| #[trigger] query_filters(q)[i].0 == column_name(g),
        crate::database::columns_unmarked(query_filters(q)),
{
    let f = query_filters(q);
    let a = optional_clause(column_name(GroupCol::Model), q.model);
    let b = optional_clause(column_name(GroupCol::Country), q.country);
    let c = optional_clause(column_name(GroupCol::Version), q.version);
    let d = optional_clause(column_name(GroupCol::Carrier), q.carrier);
    crate::database::lemma_fixed_pieces();
    assert forall|i: int| 0 <= i < f.len() implies exists|g: GroupCol| #[trigger] f[i].0 == column_name(g) by {
        if i < a.len() {
            assert(f[i] == a[i]);
            assert(f[i].0 == column_name(GroupCol::Model));
        } else if i < a.len() + b.len() {
            assert(f[i] == b[i - a.len()]);
            assert(f[i].0 == column_name(GroupCol::Country));
        } else if i < a.len() + b.len() + c.len() {
            assert(f[i] == c[i - a.len() - b.len()]);
            assert(f[i].0 == column_name(GroupCol::Version));
        } else {
            assert(f[i] == d[i - a.len() - b.len() - c.len()]);
            assert(f[i].0 == column_name(GroupCol::Carrier));
        }
    }
    assert forall|i: int| 0 <= i < f.len() implies crate::database::unmarked(#[trigger] f[i].0) by {
        let g = choose|g: GroupCol| #[trigger] f[i].0 == column_name(g);
        assert(crate::database::count_char(column_name(g), '?') == 0);
        if f[i].0.contains('?') {
            let k = choose|k: int| 0 <= k < f[i].0.len() && f[i].0[k] == '?';
            crate::router::api::lemma_count_positive(f[i].0, k);
        }
    }
}

/// A text with `?` at position `k` counts it.
pub proof fn lemma_count_positive(s: Seq<char>, k: int)
    requires
        0 <= k < s.len(),
        s[k] == '?',
    ensures
        crate::database::count_char(s, '?') > 0,
    decreases s.len(),
{
    if k < s.len() - 1 {
        assert(s.drop_last()[k] == '?');
        lemma_count_positive(s.drop_last(), k);
    }
}

/// The value that the filters pin `column` to, if any (the last clause on
/// that column wins, as when the clauses are collected into a map).
pub fn pinned_value<'a>(filters: &Vec<FilterClause<'a>>, column: &str) -> (r: Option<&'a str>)
    ensures
        match r {
            Some(v) => pinned_in(clauses_view(filters@), column@) == Some(v@),
            None => pinned_in(clauses_view(filters@), column@) is None,
        },
{
    let ghost all = clauses_view(filters@);
    let mut i: usize = filters.len();
    assert(all.take(i as int) =~= all);
    while i > 0
        invariant
            i <= filters@.len(),
            all == clauses_view(filters@),
            pinned_in(all, column@) == pinned_in(all.take(i as int), column@),
        decreases i,
    {
        i = i - 1;
        let ghost prefix = all.take(i as int + 1);
        assert(prefix.last() == clause_view(filters@[i as int]));
        assert(prefix.drop_last() =~= all.take(i as int));
        if str_eq(filters[i].column, column) {
            return Some(filters[i].value);
        }
    }
    None
}

/// Whether the counts of `column` have to be fetched: only when no filter
/// pins it.
pub fn group_needed(filters: &Vec<FilterClause<'_>>, column: &str) -> (r: bool)
    ensures
        r == (pinned_in(clauses_view(filters@), column@) is None),
{
    pinned_value(filters, column).is_none()
}

/// One group of the summary, in the order of the rows (most frequent first):
/// the fetched rows, or, for a pinned column, its value with the total.
pub fn resolve_group(rows: Option<Vec<GroupedCount>>, pinned: Option<&str>, total: i64) -> (m: IndexMap<String, usize>)
    requires
        rows is None ==> pinned is Some,
    ensures
        count_entries(m) == group_entries(opt_rows(rows), match pinned {
            Some(p) => Some(p@),
            None => None,
        }, total),
{
    let mut m = count_map_new();
    match rows {
        Some(rs) => {
            let mut i: usize = 0;
            while i < rs.len()
                invariant
                    i <= rs@.len(),
                    count_entries(m) == entries_from(rows_pairs(rs@).take(i as int)),
                decreases rs@.len() - i,
            {
                let ghost before = count_entries(m);
                count_map_insert(&mut m, rs[i].name.clone(), rs[i].count as usize);
                proof {
                    let t = rows_pairs(rs@).take(i as int + 1);
                    assert(t.drop_last() =~= rows_pairs(rs@).take(i as int));
                    assert(t.last() == (rs@[i as int].name@, rs@[i as int].count as usize));
                }
                i = i + 1;
            }
            proof {
                assert(rows_pairs(rs@).take(rs@.len() as int) =~= rows_pairs(rs@));
            }
        },
        None => {
            let p = pinned.unwrap();
            count_map_insert(&mut m, String::from_str(p), total as usize);
            proof {
                crate::ordered::lemma_key_position(Seq::empty(), p@);
                assert(entries_insert(Seq::empty(), p@, total as usize) =~= seq![(p@, total as usize)]);
            }
        },
    }
    m
}

/// The statistics summary: installations grouped by model, country, version
/// and carrier, and their total.
pub struct StatsResponse {
    pub model: IndexMap<String, usize>,
    pub country: IndexMap<String, usize>,
    pub version: IndexMap<String, usize>,
    pub carrier: IndexMap<String, usize>,
    pub total: usize,
}

/// Assembles the statistics summary from the fetched groups (`None` where
/// the filters pin the column and nothing was fetched) and the total.
pub fn assemble_stats(
    filters: &Vec<FilterClause<'_>>,
    models: Option<Vec<GroupedCount>>,
    countries: Option<Vec<GroupedCount>>,
    versions: Option<Vec<GroupedCount>>,
    carriers: Option<Vec<GroupedCount>>,
    total: i64,
) -> (r: StatsResponse)
    requires
        models is None ==> pinned_in(clauses_view(filters@), column_name(GroupCol::Model)) is Some,
        countries is None ==> pinned_in(clauses_view(filters@), column_name(GroupCol::Country)) is Some,
        versions is None ==> pinned_in(clauses_view(filters@), column_name(GroupCol::Version)) is Some,
        carriers is None ==> pinned_in(clauses_view(filters@), column_name(GroupCol::Carrier)) is Some,
    ensures
        count_entries(r.model) == group_entries(opt_rows(models), pinned_in(clauses_view(filters@), column_name(GroupCol::Model)), total),
        count_entries(r.country) == group_entries(opt_rows(countries), pinned_in(clauses_view(filters@), column_name(GroupCol::Country)), total),
        count_entries(r.version) == group_entries(opt_rows(versions), pinned_in(clauses_view(filters@), column_name(GroupCol::Version)), total),
        count_entries(r.carrier) == group_entries(opt_rows(carriers), pinned_in(clauses_view(filters@), column_name(GroupCol::Carrier)), total),
        r.total == total as usize,
{
    let pm = pinned_value(filters, GroupCol::Model.as_str());
    let pc = pinned_value(filters, GroupCol::Country.as_str());
    let pv = pinned_value(filters, GroupCol::Version.as_str());
    let pk = pinned_value(filters, GroupCol::Carrier.as_str());
    StatsResponse {
        model: resolve_group(models, pm, total),
        country: resolve_group(countries, pc, total),
        version: resolve_group(versions, pv, total),
        carrier: resolve_group(carriers, pk, total),
        total: total as usize,
    }
}

/// A device's statistics submission, as the client sends it.
pub struct StatInput {
    pub device_id: String,
    pub name: String,
    pub version: String,
    pub country: String,
    pub carrier: Option<String>,
    pub carrier_id: Option<String>,
}

/// Why a submission is not stored. The client is answered alike in every
/// case.
#[derive(Clone, Copy, Debug, PartialEq, Eq, Structural)]
pub enum IgnoreReason {
    /// The request does not come from an Android (`Dalvik/`) user agent.
    NotDalvik,
    /// The version or the model is banned.
    Banned,
    /// The device id is not 64 upper-case hexadecimal digits.
    BadDeviceId,
    /// The version string does not end with the model name.
    ModelMismatch,
    /// The country is neither a two-byte code nor `Unknown`.
    BadCountry,
    /// The version string does not start with a version code.
    BadVersion,
}

/// The decision on a submission.
pub enum Submission {
    Ignore(IgnoreReason),
    Record(NewStat),
}

impl View for Submission {
    type V = Result<NewStatView, IgnoreReason>;

    open spec fn view(&self) -> Result<NewStatView, IgnoreReason> {
        match self {
            Submission::Ignore(reason) => Err(*reason),
            Submission::Record(stat) => Ok(stat@),
        }
    }
}

/// The user agent is an Android runtime (`Dalvik/...`).
pub open spec fn dalvik_agent(user_agent: Option<Seq<char>>) -> bool {
    match user_agent {
        Some(ua) => is_prefix(utf8("Dalvik/"@), utf8(ua)),
        None => false,
    }
}

/// The checks that come before the version code is read: the first that
/// fails, if any.
pub open spec fn screening(input: StatInput, user_agent: Option<Seq<char>>, banned: BannedView) -> Option<IgnoreReason> {
    if !dalvik_agent(user_agent) {
        Some(IgnoreReason::NotDalvik)
    } else if banned.versions.contains(input.version@) || banned.models.contains(input.name@) {
        Some(IgnoreReason::Banned)
    } else if !device_id_shape(input.device_id@) {
        Some(IgnoreReason::BadDeviceId)
    } else if input.name@ != "x86_64"@ && !is_suffix(utf8(input.name@), utf8(input.version@)) {
        Some(IgnoreReason::ModelMismatch)
    } else if utf8(input.country@).len() != 2 && input.country@ != "Unknown"@ {
        Some(IgnoreReason::BadCountry)
    } else {
        None
    }
}

/// The country as it is stored: `Unknown` as it is, any other in upper case.
pub open spec fn stored_country(country: Seq<char>) -> Seq<char> {
    if country == "Unknown"@ {
        country
    } else {
        crate::router::api::uppercase_of(country)
    }
}

/// The record made of a screened submission, given its version code, whether
/// it is an official build and its stored country.
pub open spec fn record_of(input: StatInput, version_code: Seq<char>, official: bool, country: Seq<char>) -> NewStatView {
    NewStatView {
        device_id: input.device_id@,
        carrier: opt_chars(input.carrier),
        carrier_id: opt_chars(input.carrier_id),
        country: country,
        model: input.name@,
        official: official,
        version: version_code,
        version_raw: input.version@,
    }
}

/// The decision on a submission: stored, with its version code, official
/// flag and normalised country, unless a check fails.
pub open spec fn submission_outcome(input: StatInput, user_agent: Option<Seq<char>>, banned: BannedView) -> Result<NewStatView, IgnoreReason> {
    match screening(input, user_agent, banned) {
        Some(reason) => Err(reason),
        None => match regex_first_group(VERSION_CODE_PATTERN@, input.version@) {
            None => Err(IgnoreReason::BadVersion),
            Some(code) => Ok(record_of(
                input,
                code,
                regex_matches(NIGHTLY_PATTERN@, input.version@),
                stored_country(input.country@),
            )),
        },
    }
}

/// The result of `str::to_uppercase`: the Unicode upper-case mapping.
pub uninterp spec fn uppercase_of(s: Seq<char>) -> Seq<char>;

/// ASCII upper case of one character.
pub open spec fn ascii_upper(c: char) -> char {
    if 'a' <= c <= 'z' {
        ((c as u32) - 32) as char
    } else {
        c
    }
}

/// Calls `str::to_uppercase`.
///
/// Trusted: the result is named [`uppercase_of`]; for an all-ASCII string the
/// contract states that each letter `a`-`z` becomes `A`-`Z` and every other
/// character stays, as std documents. The mapping of other characters is
/// left to the name.
#[verifier::external_body]
pub fn to_uppercase(s: &str) -> (r: String)
    ensures
        r@ == uppercase_of(s@),
        vstd::utf8::is_ascii_chars(s@) ==> r@ == s@.map_values(|c: char| ascii_upper(c)),
{
    s.to_uppercase()
}

/// Whether the user agent is an Android runtime.
pub fn is_dalvik(user_agent: Option<&str>) -> (r: bool)
    ensures
        r == dalvik_agent(match user_agent {
            Some(ua) => Some(ua@),
            None => None,
        }),
{
    match user_agent {
        Some(ua) => str_starts_with(ua, "Dalvik/"),
        None => false,
    }
}

/// The checks of a submission before its version code is read; the first
/// that fails, if any.
pub fn screen_submission(input: &StatInput, user_agent: Option<&str>, banned: &Banned) -> (r: Option<IgnoreReason>)
    ensures
        r == screening(*input, match user_agent {
            Some(ua) => Some(ua@),
            None => None,
        }, banned@),
{
    if !is_dalvik(user_agent) {
        return Some(IgnoreReason::NotDalvik);
    }
    if banned.contains_version(&input.version) || banned.contains_model(&input.name) {
        return Some(IgnoreReason::Banned);
    }
    if !regex_is_match(DEVICE_ID_PATTERN, input.device_id.as_str()) {
        return Some(IgnoreReason::BadDeviceId);
    }
    if !string_is(&input.name, "x86_64") && !str_ends_with(input.version.as_str(), input.name.as_str()) {
        return Some(IgnoreReason::ModelMismatch);
    }
    if byte_len(input.country.as_str()) != 2 && !string_is(&input.country, "Unknown") {
        return Some(IgnoreReason::BadCountry);
    }
    None
}

/// The stored form of a country: `Unknown` as it is, any other in upper case
/// (for an ASCII country: each letter `a`-`z` as `A`-`Z`).
pub fn normalize_country(country: String) -> (r: String)
    ensures
        r@ == stored_country(country@),
        country@ != "Unknown"@ && vstd::utf8::is_ascii_chars(country@) ==> r@ == country@.map_values(
            |c: char| ascii_upper(c),
        ),
{
    if string_is(&country, "Unknown") {
        country
    } else {
        to_uppercase(country.as_str())
    }
}

/// The decision on a screened submission, given what was read of its
/// version string (its version code, if it has one, and whether it is a
/// nightly build) and its stored country.
pub fn record_submission(input: StatInput, version_code: Option<String>, official: bool, country: String) -> (r: Submission)
    ensures
        r@ == match version_code {
            None => Err(IgnoreReason::BadVersion),
            Some(code) => Ok(record_of(input, code@, official, country@)),
        },
{
    match version_code {
        None => Submission::Ignore(IgnoreReason::BadVersion),
        Some(code) => Submission::Record(NewStat {
            device_id: input.device_id,
            carrier: input.carrier,
            carrier_id: input.carrier_id,
            country: country,
            model: input.name,
            official: official,
            version: code,
            version_raw: input.version,
        }),
    }
}

/// Decides on a submission: whether it is stored and, if so, as which
/// record. A stored version code is the first four characters of the
/// version string, which has a dot and a dash where `dd.d-` has them; a
/// screened version string that starts with an ASCII code such as `21.0-`
/// is never refused for its version; an ASCII nightly build marker makes
/// the record official, and an official record has the punctuation of one;
/// an ASCII country other than `Unknown` is stored in ASCII upper case.
pub fn check_submission(input: StatInput, user_agent: Option<&str>, banned: &Banned) -> (r: Submission)
    ensures
        r@ == submission_outcome(input, match user_agent {
            Some(ua) => Some(ua@),
            None => None,
        }, banned@),
        r matches Submission::Record(rec) ==> version_code_shape(input.version@, rec.version@),
        ascii_version_prefix(input.version@) ==> r@ != Err::<NewStatView, IgnoreReason>(IgnoreReason::BadVersion),
        r matches Submission::Record(rec) ==> ((exists|i: int| ascii_nightly_at(input.version@, i)) ==> rec.official),
        r matches Submission::Record(rec) ==> (rec.official ==> exists|i: int| nightly_shape_at(input.version@, i)),
        r matches Submission::Record(rec) ==> (input.country@ != "Unknown"@ && vstd::utf8::is_ascii_chars(input.country@)
            ==> rec.country@ == input.country@.map_values(|c: char| ascii_upper(c))),
{
    if let Some(reason) = screen_submission(&input, user_agent, banned) {
        return Submission::Ignore(reason);
    }
    let code = regex_capture_first(VERSION_CODE_PATTERN, input.version.as_str());
    if code.is_none() {
        return Submission::Ignore(IgnoreReason::BadVersion);
    }
    let official = regex_is_match(NIGHTLY_PATTERN, input.version.as_str());
    let country = normalize_country(input.country.clone());
    record_submission(input, code, official, country)
}

} // verus!

verus! {

/// A submission whose version or model some ban row names is never stored:
/// it is ignored as banned (or, before that, as not coming from Android).
pub proof fn lemma_banned_never_recorded(
    input: StatInput,
    user_agent: Option<Seq<char>>,
    rows: Seq<crate::database::BannedItem>,
    banned: BannedView,
)
    requires
        banned.versions == crate::tasks::banned_versions_of(rows),
        banned.models == crate::tasks::banned_models_of(rows),
        exists|i: int|
            0 <= i < rows.len() && (crate::tasks::names_version(#[trigger] rows[i], input.version@)
                || crate::tasks::names_model(rows[i], input.name@)),
    ensures
        submission_outcome(input, user_agent, banned) == Err::<NewStatView, IgnoreReason>(IgnoreReason::NotDalvik)
            || submission_outcome(input, user_agent, banned) == Err::<NewStatView, IgnoreReason>(IgnoreReason::Banned),
{
    let i = choose|i: int|
        0 <= i < rows.len() && (crate::tasks::names_version(#[trigger] rows[i], input.version@)
            || crate::tasks::names_model(rows[i], input.name@));
    if crate::tasks::names_version(rows[i], input.version@) {
        assert(banned.versions.contains(input.version@));
    } else {
        assert(banned.models.contains(input.name@));
    }
}

/// Every stored submission passed the checks: it came from an Android user
/// agent, neither its version nor its model is banned, its device id is 64
/// upper-case hexadecimal digits, its version string ends with its model
/// (unless the model is `x86_64`), and its country was a two-byte code or
/// `Unknown`. (That the version code is the first four characters of the
/// version string is stated by `check_submission`.)
pub proof fn lemma_recorded_is_valid(input: StatInput, user_agent: Option<Seq<char>>, banned: BannedView)
    requires
        submission_outcome(input, user_agent, banned) is Ok,
    ensures
        ({
            let rec = submission_outcome(input, user_agent, banned)->Ok_0;
            &&& dalvik_agent(user_agent)
            &&& !banned.versions.contains(rec.version_raw)
            &&& !banned.models.contains(rec.model)
            &&& device_id_shape(rec.device_id)
            &&& (rec.model == "x86_64"@ || is_suffix(utf8(rec.model), utf8(rec.version_raw)))
            &&& (utf8(input.country@).len() == 2 || input.country@ == "Unknown"@)
            &&& rec.country == stored_country(input.country@)
            &&& rec.version_raw == input.version@
        }),
{
}

/// For a column that the query pins, the summary group is the single pinned
/// value with the total.
pub proof fn lemma_pinned_group(q: FilterQuery, group: GroupCol, total: i64)
    requires
        query_value(q, group) is Some,
    ensures
        group_entries(None, pinned_in(query_filters(q), column_name(group)), total)
            == seq![(query_value(q, group).unwrap()@, total as usize)],
{
    lemma_query_pins(q);
    assert(pinned_in(query_filters(q), column_name(group)) == opt_chars(query_value(q, group)));
}

/// The statements built from a query's filters bind exactly as many values
/// as they hold placeholders.
pub proof fn lemma_query_statements_well_bound(q: FilterQuery, group: GroupCol)
    ensures
        crate::database::count_char(crate::database::grouped_counts_sql(group, query_filters(q)), '?')
            == crate::database::filter_binds(query_filters(q)).len(),
        crate::database::count_char(crate::database::total_sql(query_filters(q)), '?')
            == crate::database::filter_binds(query_filters(q)).len(),
        crate::database::count_char(crate::database::total_installations_sql(query_filters(q)), '?')
            == crate::database::filter_binds(query_filters(q)).len(),
{
    lemma_query_filter_columns(q);
    crate::database::lemma_grouped_counts_placeholders(group, query_filters(q));
    crate::database::lemma_total_placeholders(query_filters(q));
    crate::database::lemma_total_installations_placeholders(query_filters(q));
}

} // verus!

verus! {

/// A submission passes screening exactly when it comes from a `Dalvik/`
/// user agent, neither its version nor its model is banned, its device id is
/// 64 upper-case hexadecimal digits, its version string ends with its model
/// (or the model is `x86_64`) and its country is two bytes long or
/// `Unknown`; its carrier and carrier id play no part.
pub proof fn lemma_screening_complete(input: StatInput, user_agent: Option<Seq<char>>, banned: BannedView)
    ensures
        (screening(input, user_agent, banned) is None) <==> ({
            &&& match user_agent {
                Some(u) => is_prefix(utf8("Dalvik/"@), utf8(u)),
                None => false,
            }
            &&& !banned.versions.contains(input.version@)
            &&& !banned.models.contains(input.name@)
            &&& input.device_id@.len() == 64
            &&& forall|i: int| 0 <= i < 64 ==> ('0' <= #[trigger] input.device_id@[i] <= '9' || 'A' <= input.device_id@[i] <= 'F')
            &&& (input.name@ == "x86_64"@ || is_suffix(utf8(input.name@), utf8(input.version@)))
            &&& (utf8(input.country@).len() == 2 || input.country@ == "Unknown"@)
        }),
        forall|other: StatInput|
            other.device_id == input.device_id && other.name == input.name && other.version == input.version
                && other.country == input.country ==> #[trigger] screening(other, user_agent, banned) == screening(
                input,
                user_agent,
                banned,
            ),
{
    let p = forall|i: int| 0 <= i < 64 ==> ('0' <= #[trigger] input.device_id@[i] <= '9' || 'A' <= input.device_id@[i] <= 'F');
    assert(device_id_shape(input.device_id@) == (input.device_id@.len() == 64 && p)) by {
        if input.device_id@.len() == 64 && p {
            assert forall|i: int| 0 <= i < 64 implies #[trigger] crate::router::patterns::is_upper_hex(input.device_id@[i]) by {
                assert('0' <= input.device_id@[i] <= '9' || 'A' <= input.device_id@[i] <= 'F');
            }
        }
        if device_id_shape(input.device_id@) {
            assert forall|i: int| 0 <= i < 64 implies ('0' <= #[trigger] input.device_id@[i] <= '9' || 'A' <= input.device_id@[i] <= 'F') by {
                assert(crate::router::patterns::is_upper_hex(input.device_id@[i]));
            }
        }
    }
}

/// A screened submission whose version string has a version code is stored:
/// with its device id, model, raw version, carrier and carrier id each in
/// its own place as submitted, the captured code as its version, the nightly
/// match as its official flag, and its country as given when `Unknown`,
/// upper-cased otherwise. Without a version code it is ignored for its
/// version.
pub proof fn lemma_screened_submission_recorded(input: StatInput, user_agent: Option<Seq<char>>, banned: BannedView)
    requires
        screening(input, user_agent, banned) is None,
    ensures
        regex_first_group(VERSION_CODE_PATTERN@, input.version@) is None ==> submission_outcome(input, user_agent, banned)
            == Err::<NewStatView, IgnoreReason>(IgnoreReason::BadVersion),
        regex_first_group(VERSION_CODE_PATTERN@, input.version@) matches Some(code) ==> submission_outcome(
            input,
            user_agent,
            banned,
        ) == Ok::<NewStatView, IgnoreReason>(
            (NewStatView {
                device_id: input.device_id@,
                carrier: match input.carrier {
                    Some(c) => Some(c@),
                    None => None,
                },
                carrier_id: match input.carrier_id {
                    Some(c) => Some(c@),
                    None => None,
                },
                country: if input.country@ == "Unknown"@ {
                    input.country@
                } else {
                    uppercase_of(input.country@)
                },
                model: input.name@,
                official: regex_matches(NIGHTLY_PATTERN@, input.version@),
                version: code,
                version_raw: input.version@,
            }),
        ),
{
}

/// Fetched rows with distinct names make a summary group of exactly their
/// names and counts, one entry per row, in row order; a pinned column makes
/// the single entry of its value with the total.
pub proof fn lemma_group_rows_in_order(rows: Seq<GroupedCount>, pinned: Option<Seq<char>>, total: i64)
    requires
        forall|i: int, j: int| 0 <= i < rows.len() && 0 <= j < rows.len() && i != j ==> #[trigger] rows[i].name@ != #[trigger] rows[j].name@,
    ensures
        group_entries(Some(rows), pinned, total).len() == rows.len(),
        forall|i: int| 0 <= i < rows.len() ==> #[trigger] group_entries(Some(rows), pinned, total)[i] == (rows[i].name@, rows[i].count as usize),
        forall|p: Seq<char>| #[trigger] group_entries(None, Some(p), total) == seq![(p, total as usize)],
{
    let pairs = rows_pairs(rows);
    assert(crate::ordered::distinct_keys(pairs)) by {
        assert forall|i: int, j: int| 0 <= i < pairs.len() && 0 <= j < pairs.len() && i != j implies #[trigger] pairs[i].0 != #[trigger] pairs[j].0 by {
            assert(pairs[i].0 == rows[i].name@ && pairs[j].0 == rows[j].name@);
        }
    }
    crate::ordered::lemma_entries_from_distinct(pairs);
}

/// The filter clauses of a query pair each given value with its own column,
/// and nothing else: one clause per given value.
pub proof fn lemma_query_filter_values(q: FilterQuery)
    ensures
        query_filters(q).len() == (if q.model is Some { 1int } else { 0int }) + (if q.country is Some { 1int } else { 0int })
            + (if q.version is Some { 1int } else { 0int }) + (if q.carrier is Some { 1int } else { 0int }),
        forall|i: int| 0 <= i < query_filters(q).len() ==> exists|g: GroupCol| #[trigger] query_filters(q)[i].0 == column_name(g)
            && query_value(q, g) is Some && query_value(q, g).unwrap()@ == query_filters(q)[i].1,
{
    let f = query_filters(q);
    let a = optional_clause(column_name(GroupCol::Model), q.model);
    let b = optional_clause(column_name(GroupCol::Country), q.country);
    let c = optional_clause(column_name(GroupCol::Version), q.version);
    let d = optional_clause(column_name(GroupCol::Carrier), q.carrier);
    assert forall|i: int| 0 <= i < f.len() implies exists|g: GroupCol| #[trigger] f[i].0 == column_name(g)
        && query_value(q, g) is Some && query_value(q, g).unwrap()@ == f[i].1 by {
        if i < a.len() {
            assert(f[i] == a[i]);
            assert(query_value(q, GroupCol::Model) == q.model);
        } else if i < a.len() + b.len() {
            assert(f[i] == b[i - a.len()]);
            assert(query_value(q, GroupCol::Country) == q.country);
        } else if i < a.len() + b.len() + c.len() {
            assert(f[i] == c[i - a.len() - b.len()]);
            assert(query_value(q, GroupCol::Version) == q.version);
        } else {
            assert(f[i] == d[i - a.len() - b.len() - c.len()]);
            assert(query_value(q, GroupCol::Carrier) == q.carrier);
        }
    }
}

} // verus!

verus! {

/// A column is pinned exactly when some filter clause is on it, and then to
/// the value of such a clause (the last one).
pub proof fn lemma_pinned_meaning(filters: Seq<(Seq<char>, Seq<char>)>, column: Seq<char>)
    ensures
        (pinned_in(filters, column) is None) <==> (forall|i: int| 0 <= i < filters.len() ==> (#[trigger] filters[i]).0 != column),
        pinned_in(filters, column) matches Some(v) ==> exists|i: int|
            0 <= i < filters.len() && #[trigger] filters[i] == (column, v)
                && forall|j: int| i < j < filters.len() ==> (#[trigger] filters[j]).0 != column,
    decreases filters.len(),
{
    if filters.len() > 0 {
        let init = filters.drop_last();
        lemma_pinned_meaning(init, column);
        let last = filters.len() - 1;
        assert(filters[last] == filters.last());
        if filters.last().0 == column {
            assert(filters[last] == (column, filters.last().1));
        } else {
            assert forall|i: int| 0 <= i < init.len() implies #[trigger] init[i] == filters[i] by {}
            if pinned_in(init, column) is Some {
                let v = pinned_in(init, column).unwrap();
                let i = choose|i: int| 0 <= i < init.len() && #[trigger] init[i] == (column, v)
                    && forall|j: int| i < j < init.len() ==> (#[trigger] init[j]).0 != column;
                assert(filters[i] == (column, v));
                assert forall|j: int| i < j < filters.len() implies (#[trigger] filters[j]).0 != column by {
                    if j < init.len() {
                        assert(init[j] == filters[j]);
                    }
                }
            } else {
                assert forall|i: int| 0 <= i < filters.len() implies (#[trigger] filters[i]).0 != column by {
                    if i < init.len() {
                        assert(init[i] == filters[i]);
                    }
                }
            }
        }
    }
}

} // verus!
