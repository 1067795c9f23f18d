//! Rows, filters and the SQL text that the statistics store runs.

use vstd::prelude::*;

verus! {

/// A column of the `stats` table by which installations are grouped.
#[derive(Clone, Copy, Debug, PartialEq, Eq, Structural)]
pub enum GroupCol {
    Model,
    Country,
    Version,
    Carrier,
}

/// The column name of a group, as it stands in the SQL text.
pub open spec fn column_name(group: GroupCol) -> Seq<char> {
    match group {
        GroupCol::Model => "model"@,
        GroupCol::Country => "country"@,
        GroupCol::Version => "version"@,
        GroupCol::Carrier => "carrier"@,
    }
}

impl GroupCol {
    /// The column name of this group.
    pub fn as_str(self) -> (name: &'static str)
        ensures
            name@ == column_name(self),
    {
        match self {
            GroupCol::Model => "model",
            GroupCol::Country => "country",
            GroupCol::Version => "version",
            GroupCol::Carrier => "carrier",
        }
    }
}

/// A row of the ban list, with the number of stored installations that it
/// matches.
pub struct BannedItem {
    pub version: Option<String>,
    pub model: Option<String>,
    pub note: Option<String>,
    pub affected_installations: Option<i64>,
}

/// The characters of an optional string.
pub open spec fn opt_chars(o: Option<String>) -> Option<Seq<char>> {
    match o {
        Some(s) => Some(s@),
        None => None,
    }
}

/// A checked submission, ready to be stored in the `stats` table (keyed by
/// device id; a later submission of the same device replaces it).
pub struct NewStat {
    pub device_id: String,
    pub carrier: Option<String>,
    pub carrier_id: Option<String>,
    pub country: String,
    pub model: String,
    pub official: bool,
    pub version: String,
    pub version_raw: String,
}

/// The values of a [`NewStat`].
pub struct NewStatView {
    pub device_id: Seq<char>,
    pub carrier: Option<Seq<char>>,
    pub carrier_id: Option<Seq<char>>,
    pub country: Seq<char>,
    pub model: Seq<char>,
    pub official: bool,
    pub version: Seq<char>,
    pub version_raw: Seq<char>,
}

impl View for NewStat {
    type V = NewStatView;

    open spec fn view(&self) -> NewStatView {
        NewStatView {
            device_id: self.device_id@,
            carrier: opt_chars(self.carrier),
            carrier_id: opt_chars(self.carrier_id),
            country: self.country@,
            model: self.model@,
            official: self.official,
            version: self.version@,
            version_raw: self.version_raw@,
        }
    }
}

/// One condition of a filtered query: `column = value`.
pub struct FilterClause<'a> {
    pub column: &'static str,
    pub value: &'a str,
}

/// The column and the value of a filter clause.
pub open spec fn clause_view(c: FilterClause) -> (Seq<char>, Seq<char>) {
    (c.column@, c.value@)
}

/// The columns and values of a list of filter clauses.
pub open spec fn clauses_view(filters: Seq<FilterClause>) -> Seq<(Seq<char>, Seq<char>)> {
    filters.map_values(|c: FilterClause| clause_view(c))
}

/// The number of stored installations that have `name` in the grouped column.
pub struct GroupedCount {
    pub name: String,
    pub count: i64,
}

/// The number of stored installations of one build (`version_raw`).
pub struct TotalInstallationsItem {
    pub model: String,
    pub version_raw: String,
    pub installations: i64,
}

/// A value bound to a placeholder.
#[derive(Debug, PartialEq, Eq)]
pub enum SqlValue {
    Text(String),
    Bool(bool),
    Null,
}

/// What a bound value holds.
pub enum SqlValueView {
    Text(Seq<char>),
    Bool(bool),
    Null,
}

/// What a bound value holds.
pub open spec fn value_view(v: SqlValue) -> SqlValueView {
    match v {
        SqlValue::Text(s) => SqlValueView::Text(s@),
        SqlValue::Bool(b) => SqlValueView::Bool(b),
        SqlValue::Null => SqlValueView::Null,
    }
}

/// A text value, or NULL.
pub open spec fn text_or_null(o: Option<Seq<char>>) -> SqlValueView {
    match o {
        Some(s) => SqlValueView::Text(s),
        None => SqlValueView::Null,
    }
}

/// A statement for the statistics store: SQL text with `?` placeholders, and
/// the values bound to them in order.
pub struct SqlQuery {
    pub sql: String,
    pub binds: Vec<SqlValue>,
}

/// What the bound values hold.
pub open spec fn binds_view(binds: Seq<SqlValue>) -> Seq<SqlValueView> {
    binds.map_values(|b: SqlValue| value_view(b))
}

/// The conditions of a WHERE clause: `column = ?`, joined by ` AND `.
pub open spec fn conditions(filters: Seq<(Seq<char>, Seq<char>)>) -> Seq<char>
    decreases filters.len(),
{
    if filters.len() == 0 {
        Seq::empty()
    } else if filters.len() == 1 {
        filters[0].0 + " = "@ + "?"@
    } else {
        conditions(filters.drop_last()) + " AND "@ + filters.last().0 + " = "@ + "?"@
    }
}

/// The WHERE clause of filtered queries; nothing when there is no filter.
pub open spec fn where_clause(filters: Seq<(Seq<char>, Seq<char>)>) -> Seq<char> {
    if filters.len() == 0 {
        Seq::empty()
    } else {
        " WHERE "@ + conditions(filters)
    }
}

/// The values bound by the filters, in order.
pub open spec fn filter_binds(filters: Seq<(Seq<char>, Seq<char>)>) -> Seq<SqlValueView> {
    filters.map_values(|f: (Seq<char>, Seq<char>)| SqlValueView::Text(f.1))
}

/// Further conditions after a first one: ` AND column = ?` for each filter.
pub open spec fn and_conditions(filters: Seq<(Seq<char>, Seq<char>)>) -> Seq<char>
    decreases filters.len(),
{
    if filters.len() == 0 {
        Seq::empty()
    } else {
        and_conditions(filters.drop_last()) + " AND "@ + filters.last().0 + " = "@ + "?"@
    }
}

/// The SQL of the grouped counts of `group`: the 250 most frequent values
/// among the installations that report one (rows without a value in the
/// column, such as devices without a SIM card, form no group).
pub open spec fn grouped_counts_sql(group: GroupCol, filters: Seq<(Seq<char>, Seq<char>)>) -> Seq<char> {
    "SELECT "@ + column_name(group) + " as name, COUNT(*) as count FROM stats"@ + " WHERE "@
        + column_name(group) + " IS NOT NULL"@ + and_conditions(filters) + " GROUP BY "@
        + column_name(group) + " ORDER BY count DESC LIMIT 250"@
}

/// The SQL of the number of installations that match the filters.
pub open spec fn total_sql(filters: Seq<(Seq<char>, Seq<char>)>) -> Seq<char> {
    "SELECT COUNT(*) FROM stats"@ + where_clause(filters)
}

/// The SQL of the installations per build.
pub open spec fn total_installations_sql(filters: Seq<(Seq<char>, Seq<char>)>) -> Seq<char> {
    "SELECT model, version_raw, COUNT(*) AS installations FROM stats"@ + where_clause(filters)
        + " GROUP BY version_raw ORDER BY installations DESC"@
}

/// `n` placeholders separated by `, `.
pub open spec fn placeholder_list(n: nat) -> Seq<char>
    decreases n,
{
    if n == 0 {
        Seq::empty()
    } else if n == 1 {
        "?"@
    } else {
        placeholder_list((n - 1) as nat) + ", "@ + "?"@
    }
}

/// `n` pairs of placeholders `(?, ?)` separated by `, `.
pub open spec fn placeholder_pairs(n: nat) -> Seq<char>
    decreases n,
{
    if n == 0 {
        Seq::empty()
    } else if n == 1 {
        "("@ + "?"@ + ", "@ + "?"@ + ")"@
    } else {
        placeholder_pairs((n - 1) as nat) + ", "@ + "("@ + "?"@ + ", "@ + "?"@ + ")"@
    }
}

/// The SQL that lifts the bans on `n` values of `col`.
pub open spec fn remove_bans_sql(col: GroupCol, n: nat) -> Seq<char> {
    "DELETE FROM banned WHERE "@ + column_name(col) + " IN ("@ + placeholder_list(n) + ")"@
}

/// The SQL that bans `n` values of `col` with a note, replacing the note of
/// values that are banned already.
pub open spec fn upsert_bans_sql(col: GroupCol, n: nat) -> Seq<char> {
    "INSERT INTO banned ("@ + column_name(col) + ", note)"@ + "VALUES "@ + placeholder_pairs(n)
        + " ON CONFLICT ("@ + column_name(col) + ") DO UPDATE SET note = excluded.note"@
}

/// The values bound when banning: each value followed by the note.
pub open spec fn ban_binds(values: Seq<String>, note: Option<Seq<char>>) -> Seq<SqlValueView>
    decreases values.len(),
{
    if values.len() == 0 {
        Seq::empty()
    } else {
        ban_binds(values.drop_last(), note).push(SqlValueView::Text(values.last()@)).push(text_or_null(note))
    }
}

/// The number of occurrences of `c` in `s`.
pub open spec fn count_char(s: Seq<char>, c: char) -> nat
    decreases s.len(),
{
    if s.len() == 0 {
        0
    } else {
        count_char(s.drop_last(), c) + if s.last() == c { 1nat } else { 0nat }
    }
}

/// The text holds no placeholder mark `?`.
pub open spec fn unmarked(s: Seq<char>) -> bool {
    !s.contains('?')
}

/// No filter column holds a placeholder mark.
pub open spec fn columns_unmarked(filters: Seq<(Seq<char>, Seq<char>)>) -> bool {
    forall|i: int| 0 <= i < filters.len() ==> unmarked(#[trigger] filters[i].0)
}

/// Occurrences add up over concatenation.
pub proof fn lemma_count_concat(a: Seq<char>, b: Seq<char>, c: char)
    ensures
        count_char(a + b, c) == count_char(a, c) + count_char(b, c),
    decreases b.len(),
{
    if b.len() > 0 {
        assert((a + b).drop_last() =~= a + b.drop_last());
        lemma_count_concat(a, b.drop_last(), c);
    } else {
        assert(a + b =~= a);
    }
}

/// A text without `c` has no occurrence of it.
pub proof fn lemma_count_absent(s: Seq<char>, c: char)
    requires
        !s.contains(c),
    ensures
        count_char(s, c) == 0,
    decreases s.len(),
{
    if s.len() > 0 {
        assert(!s.drop_last().contains(c)) by {
            if s.drop_last().contains(c) {
                let i = choose|i: int| 0 <= i < s.drop_last().len() && s.drop_last()[i] == c;
                assert(s[i] == c);
            }
        }
        lemma_count_absent(s.drop_last(), c);
        assert(s[s.len() - 1] != c);
    }
}

/// The single mark `?` counts once; the fixed pieces of the statements and
/// the column names hold no mark.
pub proof fn lemma_fixed_pieces()
    ensures
        count_char("?"@, '?') == 1,
        count_char(" = "@, '?') == 0,
        count_char(" AND "@, '?') == 0,
        count_char(" WHERE "@, '?') == 0,
        count_char(", "@, '?') == 0,
        count_char("("@, '?') == 0,
        count_char(")"@, '?') == 0,
        count_char("SELECT "@, '?') == 0,
        count_char(" as name, COUNT(*) as count FROM stats"@, '?') == 0,
        count_char(" GROUP BY "@, '?') == 0,
        count_char(" IS NOT NULL"@, '?') == 0,
        count_char(" ORDER BY count DESC LIMIT 250"@, '?') == 0,
        count_char("SELECT COUNT(*) FROM stats"@, '?') == 0,
        count_char("SELECT model, version_raw, COUNT(*) AS installations FROM stats"@, '?') == 0,
        count_char(" GROUP BY version_raw ORDER BY installations DESC"@, '?') == 0,
        count_char("DELETE FROM banned WHERE "@, '?') == 0,
        count_char(" IN ("@, '?') == 0,
        count_char("INSERT INTO banned ("@, '?') == 0,
        count_char(", note)"@, '?') == 0,
        count_char("VALUES "@, '?') == 0,
        count_char(" ON CONFLICT ("@, '?') == 0,
        count_char(") DO UPDATE SET note = excluded.note"@, '?') == 0,
        forall|g: GroupCol| count_char(#[trigger] column_name(g), '?') == 0,
{
    reveal_strlit("?");
    assert("?"@.len() == 1);
    assert("?"@.last() == '?');
    assert("?"@.drop_last() =~= Seq::<char>::empty());
    assert(count_char("?"@.drop_last(), '?') == 0);
    reveal_strlit(" = ");
    lemma_count_absent(" = "@, '?');
    reveal_strlit(" AND ");
    lemma_count_absent(" AND "@, '?');
    reveal_strlit(" WHERE ");
    lemma_count_absent(" WHERE "@, '?');
    reveal_strlit(", ");
    lemma_count_absent(", "@, '?');
    reveal_strlit("(");
    lemma_count_absent("("@, '?');
    reveal_strlit(")");
    lemma_count_absent(")"@, '?');
    reveal_strlit("SELECT ");
    lemma_count_absent("SELECT "@, '?');
    reveal_strlit(" as name, COUNT(*) as count FROM stats");
    lemma_count_absent(" as name, COUNT(*) as count FROM stats"@, '?');
    reveal_strlit(" GROUP BY ");
    lemma_count_absent(" GROUP BY "@, '?');
    reveal_strlit(" IS NOT NULL");
    lemma_count_absent(" IS NOT NULL"@, '?');
    reveal_strlit(" ORDER BY count DESC LIMIT 250");
    lemma_count_absent(" ORDER BY count DESC LIMIT 250"@, '?');
    reveal_strlit("SELECT COUNT(*) FROM stats");
    lemma_count_absent("SELECT COUNT(*) FROM stats"@, '?');
    reveal_strlit("SELECT model, version_raw, COUNT(*) AS installations FROM stats");
    lemma_count_absent("SELECT model, version_raw, COUNT(*) AS installations FROM stats"@, '?');
    reveal_strlit(" GROUP BY version_raw ORDER BY installations DESC");
    lemma_count_absent(" GROUP BY version_raw ORDER BY installations DESC"@, '?');
    reveal_strlit("DELETE FROM banned WHERE ");
    lemma_count_absent("DELETE FROM banned WHERE "@, '?');
    reveal_strlit(" IN (");
    lemma_count_absent(" IN ("@, '?');
    reveal_strlit("INSERT INTO banned (");
    lemma_count_absent("INSERT INTO banned ("@, '?');
    reveal_strlit(", note)");
    lemma_count_absent(", note)"@, '?');
    reveal_strlit("VALUES ");
    lemma_count_absent("VALUES "@, '?');
    reveal_strlit(" ON CONFLICT (");
    lemma_count_absent(" ON CONFLICT ("@, '?');
    reveal_strlit(") DO UPDATE SET note = excluded.note");
    lemma_count_absent(") DO UPDATE SET note = excluded.note"@, '?');
    reveal_strlit("model");
    lemma_count_absent("model"@, '?');
    reveal_strlit("country");
    lemma_count_absent("country"@, '?');
    reveal_strlit("version");
    lemma_count_absent("version"@, '?');
    reveal_strlit("carrier");
    lemma_count_absent("carrier"@, '?');
}

/// The statement that stores a submission holds eight marks: all of them in
/// its VALUES list.
pub proof fn lemma_count_literal_marks(sql: Seq<char>)
    requires
        sql == UPSERT_STAT_SQL@,
    ensures
        count_char(sql, '?') == 8,
{
    reveal_strlit("INSERT INTO stats (device_id, carrier, carrier_id, country, model, official, version, version_raw, submit_time) VALUES (?, ?, ?, ?, ?, ?, ?, ?, datetime('now')) ON CONFLICT (device_id) DO UPDATE SET carrier = excluded.carrier, carrier_id = excluded.carrier_id, country = excluded.country, model = excluded.model, official = excluded.official, version = excluded.version, version_raw = excluded.version_raw, submit_time = excluded.submit_time");
    let head = sql.take(120);
    let marks = sql.subrange(120, 142);
    let tail = sql.skip(142);
    assert(sql =~= head + marks + tail);
    lemma_count_absent(head, '?');
    lemma_count_absent(tail, '?');
    lemma_count_concat(head, marks, '?');
    lemma_count_concat(head + marks, tail, '?');
    reveal_with_fuel(count_char, 23);
    assert(count_char(marks, '?') == 8);
}

/// The WHERE clause holds one mark per filter.
pub proof fn lemma_where_marks(filters: Seq<(Seq<char>, Seq<char>)>)
    requires
        columns_unmarked(filters),
    ensures
        count_char(where_clause(filters), '?') == filters.len(),
{
    lemma_fixed_pieces();
    if filters.len() > 0 {
        lemma_conditions_marks(filters);
        lemma_count_concat(" WHERE "@, conditions(filters), '?');
    }
}

/// The conditions hold one mark per filter.
pub proof fn lemma_conditions_marks(filters: Seq<(Seq<char>, Seq<char>)>)
    requires
        columns_unmarked(filters),
    ensures
        count_char(conditions(filters), '?') == filters.len(),
    decreases filters.len(),
{
    lemma_fixed_pieces();
    if filters.len() == 1 {
        lemma_count_absent(filters[0].0, '?');
        lemma_count_concat(filters[0].0, " = "@, '?');
        lemma_count_concat(filters[0].0 + " = "@, "?"@, '?');
    } else if filters.len() > 1 {
        let init = filters.drop_last();
        assert(columns_unmarked(init)) by {
            assert forall|i: int| 0 <= i < init.len() implies unmarked(#[trigger] init[i].0) by {
                assert(init[i] == filters[i]);
            }
        }
        lemma_conditions_marks(init);
        let col = filters.last().0;
        assert(unmarked(filters[filters.len() - 1].0));
        lemma_count_absent(col, '?');
        let c0 = conditions(init);
        lemma_count_concat(c0, " AND "@, '?');
        lemma_count_concat(c0 + " AND "@, col, '?');
        lemma_count_concat(c0 + " AND "@ + col, " = "@, '?');
        lemma_count_concat(c0 + " AND "@ + col + " = "@, "?"@, '?');
    }
}

/// The further conditions hold one mark per filter.
pub proof fn lemma_and_conditions_marks(filters: Seq<(Seq<char>, Seq<char>)>)
    requires
        columns_unmarked(filters),
    ensures
        count_char(and_conditions(filters), '?') == filters.len(),
    decreases filters.len(),
{
    lemma_fixed_pieces();
    if filters.len() > 0 {
        let init = filters.drop_last();
        assert(columns_unmarked(init)) by {
            assert forall|i: int| 0 <= i < init.len() implies unmarked(#[trigger] init[i].0) by {
                assert(init[i] == filters[i]);
            }
        }
        lemma_and_conditions_marks(init);
        let col = filters.last().0;
        assert(unmarked(filters[filters.len() - 1].0));
        lemma_count_absent(col, '?');
        let c0 = and_conditions(init);
        lemma_count_concat(c0, " AND "@, '?');
        lemma_count_concat(c0 + " AND "@, col, '?');
        lemma_count_concat(c0 + " AND "@ + col, " = "@, '?');
        lemma_count_concat(c0 + " AND "@ + col + " = "@, "?"@, '?');
    } else {
        assert(count_char(Seq::<char>::empty(), '?') == 0);
    }
}

/// A list of `n` placeholders holds `n` marks.
pub proof fn lemma_list_marks(n: nat)
    ensures
        count_char(placeholder_list(n), '?') == n,
    decreases n,
{
    lemma_fixed_pieces();
    if n > 1 {
        lemma_list_marks((n - 1) as nat);
        let p = placeholder_list((n - 1) as nat);
        lemma_count_concat(p, ", "@, '?');
        lemma_count_concat(p + ", "@, "?"@, '?');
    }
}

/// `n` pairs of placeholders hold `2n` marks.
pub proof fn lemma_pairs_marks(n: nat)
    ensures
        count_char(placeholder_pairs(n), '?') == 2 * n,
    decreases n,
{
    lemma_fixed_pieces();
    let q = "("@ + "?"@ + ", "@ + "?"@ + ")"@;
    lemma_count_concat("("@, "?"@, '?');
    lemma_count_concat("("@ + "?"@, ", "@, '?');
    lemma_count_concat("("@ + "?"@ + ", "@, "?"@, '?');
    lemma_count_concat("("@ + "?"@ + ", "@ + "?"@, ")"@, '?');
    if n > 1 {
        lemma_pairs_marks((n - 1) as nat);
        let p = placeholder_pairs((n - 1) as nat);
        lemma_count_concat(p, ", "@, '?');
        lemma_count_concat(p + ", "@, "("@, '?');
        lemma_count_concat(p + ", "@ + "("@, "?"@, '?');
        lemma_count_concat(p + ", "@ + "("@ + "?"@, ", "@, '?');
        lemma_count_concat(p + ", "@ + "("@ + "?"@ + ", "@, "?"@, '?');
        lemma_count_concat(p + ", "@ + "("@ + "?"@ + ", "@ + "?"@, ")"@, '?');
    }
}

/// Each grouped-counts statement has exactly as many placeholders as bound
/// values, when no filter column holds a mark.
pub proof fn lemma_grouped_counts_placeholders(group: GroupCol, filters: Seq<(Seq<char>, Seq<char>)>)
    requires
        columns_unmarked(filters),
    ensures
        count_char(grouped_counts_sql(group, filters), '?') == filter_binds(filters).len(),
{
    lemma_fixed_pieces();
    lemma_and_conditions_marks(filters);
    let c = column_name(group);
    let a = "SELECT "@ + c;
    lemma_count_concat("SELECT "@, c, '?');
    lemma_count_concat(a, " as name, COUNT(*) as count FROM stats"@, '?');
    let b = a + " as name, COUNT(*) as count FROM stats"@;
    lemma_count_concat(b, " WHERE "@, '?');
    lemma_count_concat(b + " WHERE "@, c, '?');
    lemma_count_concat(b + " WHERE "@ + c, " IS NOT NULL"@, '?');
    let b2 = b + " WHERE "@ + c + " IS NOT NULL"@;
    lemma_count_concat(b2, and_conditions(filters), '?');
    let d = b2 + and_conditions(filters);
    lemma_count_concat(d, " GROUP BY "@, '?');
    lemma_count_concat(d + " GROUP BY "@, c, '?');
    lemma_count_concat(d + " GROUP BY "@ + c, " ORDER BY count DESC LIMIT 250"@, '?');
}

/// The total statement has exactly as many placeholders as bound values.
pub proof fn lemma_total_placeholders(filters: Seq<(Seq<char>, Seq<char>)>)
    requires
        columns_unmarked(filters),
    ensures
        count_char(total_sql(filters), '?') == filter_binds(filters).len(),
{
    lemma_fixed_pieces();
    lemma_where_marks(filters);
    lemma_count_concat("SELECT COUNT(*) FROM stats"@, where_clause(filters), '?');
}

/// The installations statement has exactly as many placeholders as bound
/// values.
pub proof fn lemma_total_installations_placeholders(filters: Seq<(Seq<char>, Seq<char>)>)
    requires
        columns_unmarked(filters),
    ensures
        count_char(total_installations_sql(filters), '?') == filter_binds(filters).len(),
{
    lemma_fixed_pieces();
    lemma_where_marks(filters);
    let a = "SELECT model, version_raw, COUNT(*) AS installations FROM stats"@;
    lemma_count_concat(a, where_clause(filters), '?');
    lemma_count_concat(a + where_clause(filters), " GROUP BY version_raw ORDER BY installations DESC"@, '?');
}

/// The unban statement has one placeholder per value.
pub proof fn lemma_remove_bans_placeholders(col: GroupCol, n: nat)
    ensures
        count_char(remove_bans_sql(col, n), '?') == n,
{
    lemma_fixed_pieces();
    lemma_list_marks(n);
    let c = column_name(col);
    lemma_count_concat("DELETE FROM banned WHERE "@, c, '?');
    lemma_count_concat("DELETE FROM banned WHERE "@ + c, " IN ("@, '?');
    lemma_count_concat("DELETE FROM banned WHERE "@ + c + " IN ("@, placeholder_list(n), '?');
    lemma_count_concat("DELETE FROM banned WHERE "@ + c + " IN ("@ + placeholder_list(n), ")"@, '?');
}

/// The values bound when banning are two per value.
pub proof fn lemma_ban_binds_len(values: Seq<String>, note: Option<Seq<char>>)
    ensures
        ban_binds(values, note).len() == 2 * values.len(),
    decreases values.len(),
{
    if values.len() > 0 {
        lemma_ban_binds_len(values.drop_last(), note);
    }
}

/// The ban statement has two placeholders per value, as many as it binds.
pub proof fn lemma_upsert_bans_placeholders(col: GroupCol, values: Seq<String>, note: Option<Seq<char>>)
    ensures
        count_char(upsert_bans_sql(col, values.len()), '?') == ban_binds(values, note).len(),
{
    lemma_fixed_pieces();
    lemma_pairs_marks(values.len());
    lemma_ban_binds_len(values, note);
    let c = column_name(col);
    let p = placeholder_pairs(values.len());
    let a = "INSERT INTO banned ("@ + c;
    lemma_count_concat("INSERT INTO banned ("@, c, '?');
    lemma_count_concat(a, ", note)"@, '?');
    lemma_count_concat(a + ", note)"@, "VALUES "@, '?');
    lemma_count_concat(a + ", note)"@ + "VALUES "@, p, '?');
    let b = a + ", note)"@ + "VALUES "@ + p;
    lemma_count_concat(b, " ON CONFLICT ("@, '?');
    lemma_count_concat(b + " ON CONFLICT ("@, c, '?');
    lemma_count_concat(b + " ON CONFLICT ("@ + c, ") DO UPDATE SET note = excluded.note"@, '?');
}

/// Appends the WHERE clause of the filters to `sql` and their values to
/// `binds`.
pub fn append_filters(sql: &mut String, binds: &mut Vec<SqlValue>, filters: &Vec<FilterClause<'_>>)
    ensures
        final(sql)@ == old(sql)@ + where_clause(clauses_view(filters@)),
        binds_view(final(binds)@) == binds_view(old(binds)@) + filter_binds(clauses_view(filters@)),
{
    let ghost sql0 = sql@;
    let ghost binds0 = binds_view(binds@);
    let ghost all = clauses_view(filters@);
    if filters.len() == 0 {
        assert(sql@ =~= sql0 + where_clause(all));
        assert(binds_view(binds@) =~= binds0 + filter_binds(all));
        return;
    }
    sql.append(" WHERE ");
    let mut i: usize = 0;
    while i < filters.len()
        invariant
            all == clauses_view(filters@),
            all.len() > 0,
            i <= all.len(),
            sql@ == sql0 + " WHERE "@ + conditions(all.take(i as int)),
            binds_view(binds@) == binds0 + filter_binds(all.take(i as int)),
        decreases all.len() - i,
    {
        let ghost before = sql@;
        let ghost bbefore = binds_view(binds@);
        if i > 0 {
            sql.append(" AND ");
        }
        sql.append(filters[i].column);
        sql.append(" = ");
        sql.append("?");
        binds.push(SqlValue::Text(String::from_str(filters[i].value)));
        proof {
            let t = all.take(i as int + 1);
            assert(t.drop_last() =~= all.take(i as int));
            assert(t.last() == clause_view(filters@[i as int]));
            if i == 0 {
                assert(conditions(all.take(0)) =~= Seq::<char>::empty());
                assert(sql@ =~= sql0 + " WHERE "@ + conditions(t));
            } else {
                assert(sql@ =~= sql0 + " WHERE "@ + conditions(t));
            }
            assert(binds_view(binds@) =~= bbefore.push(SqlValueView::Text(filters@[i as int].value@)));
            assert(filter_binds(t) =~= filter_binds(all.take(i as int)).push(SqlValueView::Text(t.last().1)));
            assert(binds_view(binds@) =~= binds0 + filter_binds(t));
        }
        i = i + 1;
    }
    proof {
        assert(all.take(all.len() as int) =~= all);
    }
}

/// Appends ` AND column = ?` for each filter to `sql`, and their values to
/// `binds`.
pub fn append_and_filters(sql: &mut String, binds: &mut Vec<SqlValue>, filters: &Vec<FilterClause<'_>>)
    ensures
        final(sql)@ == old(sql)@ + and_conditions(clauses_view(filters@)),
        binds_view(final(binds)@) == binds_view(old(binds)@) + filter_binds(clauses_view(filters@)),
{
    let ghost sql0 = sql@;
    let ghost binds0 = binds_view(binds@);
    let ghost all = clauses_view(filters@);
    let mut i: usize = 0;
    assert(sql@ =~= sql0 + and_conditions(all.take(0)));
    assert(binds_view(binds@) =~= binds0 + filter_binds(all.take(0)));
    while i < filters.len()
        invariant
            all == clauses_view(filters@),
            i <= all.len(),
            sql@ == sql0 + and_conditions(all.take(i as int)),
            binds_view(binds@) == binds0 + filter_binds(all.take(i as int)),
        decreases all.len() - i,
    {
        let ghost bbefore = binds_view(binds@);
        sql.append(" AND ");
        sql.append(filters[i].column);
        sql.append(" = ");
        sql.append("?");
        binds.push(SqlValue::Text(String::from_str(filters[i].value)));
        proof {
            let t = all.take(i as int + 1);
            assert(t.drop_last() =~= all.take(i as int));
            assert(t.last() == clause_view(filters@[i as int]));
            assert(sql@ =~= sql0 + and_conditions(t));
            assert(binds_view(binds@) =~= bbefore.push(SqlValueView::Text(filters@[i as int].value@)));
            assert(filter_binds(t) =~= filter_binds(all.take(i as int)).push(SqlValueView::Text(t.last().1)));
            assert(binds_view(binds@) =~= binds0 + filter_binds(t));
        }
        i = i + 1;
    }
    proof {
        assert(all.take(all.len() as int) =~= all);
    }
}

/// The grouped counts of `group` among the installations that match the
/// filters and report a value in the column: the 250 most frequent values
/// with their counts.
pub fn grouped_counts_query(group: GroupCol, filters: &Vec<FilterClause<'_>>) -> (q: SqlQuery)
    ensures
        q.sql@ == grouped_counts_sql(group, clauses_view(filters@)),
        binds_view(q.binds@) == filter_binds(clauses_view(filters@)),
{
    let col = group.as_str();
    let mut sql = String::from_str("SELECT ");
    sql.append(col);
    sql.append(" as name, COUNT(*) as count FROM stats");
    sql.append(" WHERE ");
    sql.append(col);
    sql.append(" IS NOT NULL");
    let mut binds: Vec<SqlValue> = Vec::new();
    append_and_filters(&mut sql, &mut binds, filters);
    sql.append(" GROUP BY ");
    sql.append(col);
    sql.append(" ORDER BY count DESC LIMIT 250");
    proof {
        assert(binds_view(Seq::<SqlValue>::empty()) =~= Seq::<SqlValueView>::empty());
        assert(binds_view(binds@) =~= filter_binds(clauses_view(filters@)));
    }
    SqlQuery { sql, binds }
}

/// The number of installations that match the filters.
pub fn total_query(filters: &Vec<FilterClause<'_>>) -> (q: SqlQuery)
    ensures
        q.sql@ == total_sql(clauses_view(filters@)),
        binds_view(q.binds@) == filter_binds(clauses_view(filters@)),
{
    let mut sql = String::from_str("SELECT COUNT(*) FROM stats");
    let mut binds: Vec<SqlValue> = Vec::new();
    append_filters(&mut sql, &mut binds, filters);
    proof {
        assert(binds_view(Seq::<SqlValue>::empty()) =~= Seq::<SqlValueView>::empty());
        assert(binds_view(binds@) =~= filter_binds(clauses_view(filters@)));
    }
    SqlQuery { sql, binds }
}

/// The installations per build (`version_raw`) among those that match the
/// filters, most installed first.
pub fn total_installations_query(filters: &Vec<FilterClause<'_>>) -> (q: SqlQuery)
    ensures
        q.sql@ == total_installations_sql(clauses_view(filters@)),
        binds_view(q.binds@) == filter_binds(clauses_view(filters@)),
{
    let mut sql = String::from_str("SELECT model, version_raw, COUNT(*) AS installations FROM stats");
    let mut binds: Vec<SqlValue> = Vec::new();
    append_filters(&mut sql, &mut binds, filters);
    sql.append(" GROUP BY version_raw ORDER BY installations DESC");
    proof {
        assert(binds_view(Seq::<SqlValue>::empty()) =~= Seq::<SqlValueView>::empty());
        assert(binds_view(binds@) =~= filter_binds(clauses_view(filters@)));
    }
    SqlQuery { sql, binds }
}

/// Lifts the bans on the given values of `col`.
pub fn remove_bans_query(col: GroupCol, values: &Vec<String>) -> (q: SqlQuery)
    ensures
        q.sql@ == remove_bans_sql(col, values@.len()),
        binds_view(q.binds@) == values@.map_values(|v: String| SqlValueView::Text(v@)),
{
    let mut sql = String::from_str("DELETE FROM banned WHERE ");
    sql.append(col.as_str());
    sql.append(" IN (");
    let ghost sql0 = sql@;
    let mut binds: Vec<SqlValue> = Vec::new();
    let mut i: usize = 0;
    while i < values.len()
        invariant
            i <= values@.len(),
            sql@ == sql0 + placeholder_list(i as nat),
            binds_view(binds@) == values@.take(i as int).map_values(|v: String| SqlValueView::Text(v@)),
        decreases values@.len() - i,
    {
        let ghost bbefore = binds_view(binds@);
        if i > 0 {
            sql.append(", ");
        }
        sql.append("?");
        binds.push(SqlValue::Text(values[i].clone()));
        proof {
            assert(binds_view(binds@) =~= bbefore.push(SqlValueView::Text(values@[i as int]@)));
            if i == 0 {
                assert(sql@ =~= sql0 + placeholder_list(1));
            } else {
                assert(sql@ =~= sql0 + placeholder_list(i as nat + 1));
            }
            assert(values@.take(i as int + 1).drop_last() =~= values@.take(i as int));
            assert(binds_view(binds@) =~= values@.take(i as int + 1).map_values(|v: String| SqlValueView::Text(v@)));
        }
        i = i + 1;
    }
    sql.append(")");
    proof {
        assert(values@.take(values@.len() as int) =~= values@);
    }
    SqlQuery { sql, binds }
}

/// Bans the given values of `col` with the note, replacing the note where a
/// value is banned already.
pub fn upsert_bans_query(col: GroupCol, values: &Vec<String>, note: Option<&str>) -> (q: SqlQuery)
    requires
        values@.len() > 0,
    ensures
        q.sql@ == upsert_bans_sql(col, values@.len()),
        binds_view(q.binds@) == ban_binds(values@, match note {
            Some(n) => Some(n@),
            None => None,
        }),
{
    let ghost nv: Option<Seq<char>> = match note {
        Some(n) => Some(n@),
        None => None,
    };
    let mut sql = String::from_str("INSERT INTO banned (");
    sql.append(col.as_str());
    sql.append(", note)");
    sql.append("VALUES ");
    let ghost sql0 = sql@;
    let mut binds: Vec<SqlValue> = Vec::new();
    let mut i: usize = 0;
    while i < values.len()
        invariant
            i <= values@.len(),
            sql@ == sql0 + placeholder_pairs(i as nat),
            binds_view(binds@) == ban_binds(values@.take(i as int), nv),
            nv == match note {
                Some(n) => Some(n@),
                None => None::<Seq<char>>,
            },
        decreases values@.len() - i,
    {
        if i > 0 {
            sql.append(", ");
        }
        sql.append("(");
        sql.append("?");
        sql.append(", ");
        sql.append("?");
        sql.append(")");
        binds.push(SqlValue::Text(values[i].clone()));
        let bound_note = match note {
            Some(n) => SqlValue::Text(String::from_str(n)),
            None => SqlValue::Null,
        };
        binds.push(bound_note);
        proof {
            if i == 0 {
                assert(sql@ =~= sql0 + placeholder_pairs(1));
            } else {
                assert(sql@ =~= sql0 + placeholder_pairs(i as nat + 1));
            }
            let t = values@.take(i as int + 1);
            assert(t.drop_last() =~= values@.take(i as int));
            assert(binds_view(binds@) =~= ban_binds(t, nv));
        }
        i = i + 1;
    }
    sql.append(" ON CONFLICT (");
    sql.append(col.as_str());
    sql.append(") DO UPDATE SET note = excluded.note");
    proof {
        assert(values@.take(values@.len() as int) =~= values@);
        assert(sql@ =~= upsert_bans_sql(col, values@.len()));
    }
    SqlQuery { sql, binds }
}

/// The statement that stores a submission with the current time as its
/// check-in time, replacing the earlier one of the same device (time
/// included), so that only the last check-in of each device is kept.
pub const UPSERT_STAT_SQL: &'static str = "INSERT INTO stats (device_id, carrier, carrier_id, country, model, official, version, version_raw, submit_time) VALUES (?, ?, ?, ?, ?, ?, ?, ?, datetime('now')) ON CONFLICT (device_id) DO UPDATE SET carrier = excluded.carrier, carrier_id = excluded.carrier_id, country = excluded.country, model = excluded.model, official = excluded.official, version = excluded.version, version_raw = excluded.version_raw, submit_time = excluded.submit_time";

/// The statement that drops submissions older than 90 days.
pub const DELETE_OLD_STATS_SQL: &'static str = "DELETE FROM stats WHERE submit_time < datetime('now', '-90 days')";

/// The statement that lists the bans with the number of stored
/// installations that each matches (by raw version or by model).
pub const LIST_BANS_SQL: &'static str = "SELECT ban.version, ban.model, ban.note, (SELECT COUNT(*) FROM stats stat WHERE (ban.version IS NOT NULL AND stat.version_raw = ban.version) OR (ban.model IS NOT NULL AND stat.model = ban.model)) AS affected_installations FROM banned ban";

/// The values that storing a submission binds, in column order.
pub open spec fn stat_binds(stat: NewStatView) -> Seq<SqlValueView> {
    seq![
        SqlValueView::Text(stat.device_id),
        text_or_null(stat.carrier),
        text_or_null(stat.carrier_id),
        SqlValueView::Text(stat.country),
        SqlValueView::Text(stat.model),
        SqlValueView::Bool(stat.official),
        SqlValueView::Text(stat.version),
        SqlValueView::Text(stat.version_raw),
    ]
}

/// Text, or NULL for no value.
pub fn text_value(o: &Option<String>) -> (v: SqlValue)
    ensures
        value_view(v) == text_or_null(opt_chars(*o)),
{
    match o {
        Some(s) => SqlValue::Text(s.clone()),
        None => SqlValue::Null,
    }
}

/// Stores a checked submission, replacing the earlier one of its device.
pub fn upsert_stat_query(stat: &NewStat) -> (q: SqlQuery)
    ensures
        q.sql@ == UPSERT_STAT_SQL@,
        binds_view(q.binds@) == stat_binds(stat@),
        count_char(q.sql@, '?') == q.binds@.len(),
{
    let mut binds: Vec<SqlValue> = Vec::new();
    binds.push(SqlValue::Text(stat.device_id.clone()));
    binds.push(text_value(&stat.carrier));
    binds.push(text_value(&stat.carrier_id));
    binds.push(SqlValue::Text(stat.country.clone()));
    binds.push(SqlValue::Text(stat.model.clone()));
    binds.push(SqlValue::Bool(stat.official));
    binds.push(SqlValue::Text(stat.version.clone()));
    binds.push(SqlValue::Text(stat.version_raw.clone()));
    proof {
        assert(binds_view(binds@) =~= stat_binds(stat@));
        reveal_strlit("INSERT INTO stats (device_id, carrier, carrier_id, country, model, official, version, version_raw, submit_time) VALUES (?, ?, ?, ?, ?, ?, ?, ?, datetime('now')) ON CONFLICT (device_id) DO UPDATE SET carrier = excluded.carrier, carrier_id = excluded.carrier_id, country = excluded.country, model = excluded.model, official = excluded.official, version = excluded.version, version_raw = excluded.version_raw, submit_time = excluded.submit_time");
        lemma_count_literal_marks(UPSERT_STAT_SQL@);
    }
    SqlQuery { sql: String::from_str(UPSERT_STAT_SQL), binds }
}

/// Each filter clause binds its own value, unchanged, as text: one bound
/// value per clause, in clause order, whatever the column.
pub proof fn lemma_filter_binds_unchanged(filters: Seq<(Seq<char>, Seq<char>)>)
    ensures
        filter_binds(filters).len() == filters.len(),
        forall|i: int| 0 <= i < filters.len() ==> #[trigger] filter_binds(filters)[i] == SqlValueView::Text(filters[i].1),
{
}

/// Banning binds each value followed by the note (NULL for none): the
/// value at position `2i`, the note at `2i + 1`.
pub proof fn lemma_ban_binds_pairs(values: Seq<String>, note: Option<Seq<char>>)
    ensures
        ban_binds(values, note).len() == 2 * values.len(),
        forall|i: int| 0 <= i < values.len() ==> #[trigger] ban_binds(values, note)[2 * i] == SqlValueView::Text(values[i]@),
        forall|i: int| 0 <= i < values.len() ==> #[trigger] ban_binds(values, note)[2 * i + 1] == match note {
            Some(n) => SqlValueView::Text(n),
            None => SqlValueView::Null,
        },
    decreases values.len(),
{
    if values.len() > 0 {
        let init = values.drop_last();
        lemma_ban_binds_pairs(init, note);
        assert forall|i: int| 0 <= i < values.len() implies #[trigger] ban_binds(values, note)[2 * i] == SqlValueView::Text(values[i]@) by {
            if i < init.len() {
                assert(ban_binds(init, note)[2 * i] == SqlValueView::Text(init[i]@));
            }
        }
        assert forall|i: int| 0 <= i < values.len() implies #[trigger] ban_binds(values, note)[2 * i + 1] == match note {
            Some(n) => SqlValueView::Text(n),
            None => SqlValueView::Null,
        } by {
            if i < init.len() {
                assert(ban_binds(init, note)[2 * i + 1] == match note {
                    Some(n) => SqlValueView::Text(n),
                    None => SqlValueView::Null,
                });
            }
        }
    }
}

/// Storing a submission binds, in column order, its device id, carrier
/// (NULL for none), carrier id (NULL for none), country, model, official
/// flag, version code and raw version, each in its own place.
pub proof fn lemma_stat_binds_in_place(stat: NewStatView)
    ensures
        stat_binds(stat).len() == 8,
        stat_binds(stat)[0] == SqlValueView::Text(stat.device_id),
        stat_binds(stat)[1] == match stat.carrier {
            Some(c) => SqlValueView::Text(c),
            None => SqlValueView::Null,
        },
        stat_binds(stat)[2] == match stat.carrier_id {
            Some(c) => SqlValueView::Text(c),
            None => SqlValueView::Null,
        },
        stat_binds(stat)[3] == SqlValueView::Text(stat.country),
        stat_binds(stat)[4] == SqlValueView::Text(stat.model),
        stat_binds(stat)[5] == SqlValueView::Bool(stat.official),
        stat_binds(stat)[6] == SqlValueView::Text(stat.version),
        stat_binds(stat)[7] == SqlValueView::Text(stat.version_raw),
{
}

} // verus!
