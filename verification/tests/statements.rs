use lineage_stats::database::{
    grouped_counts_query, remove_bans_query, total_installations_query, total_query, upsert_bans_query,
    upsert_stat_query, FilterClause, GroupCol, NewStat, SqlValue, UPSERT_STAT_SQL,
};
use lineage_stats::router::api::FilterQuery;

fn placeholders(sql: &str) -> usize {
    sql.chars().filter(|c| *c == '?').count()
}

#[test]
fn grouped_counts_without_filters() {
    let f: Vec<FilterClause> = vec![];
    let qy = grouped_counts_query(GroupCol::Country, &f);
    assert_eq!(qy.sql, "SELECT country as name, COUNT(*) as count FROM stats WHERE country IS NOT NULL GROUP BY country ORDER BY count DESC LIMIT 250");
    assert!(qy.binds.is_empty());
}

#[test]
fn grouped_counts_with_filters() {
    let query = FilterQuery { model: Some("panther".to_string()), country: None, version: Some("22.1".to_string()), carrier: None };
    let f = query.to_filters();
    let qy = grouped_counts_query(GroupCol::Carrier, &f);
    assert_eq!(
        qy.sql,
        "SELECT carrier as name, COUNT(*) as count FROM stats WHERE carrier IS NOT NULL AND model = ? AND version = ? GROUP BY carrier ORDER BY count DESC LIMIT 250"
    );
    assert_eq!(qy.binds, vec![SqlValue::Text("panther".to_string()), SqlValue::Text("22.1".to_string())]);
    assert_eq!(placeholders(&qy.sql), qy.binds.len());
}

#[test]
fn total_statements() {
    let f = vec![FilterClause { column: "country", value: "US" }];
    let qy = total_query(&f);
    assert_eq!(qy.sql, "SELECT COUNT(*) FROM stats WHERE country = ?");
    assert_eq!(qy.binds, vec![SqlValue::Text("US".to_string())]);
    let qy = total_installations_query(&f);
    assert_eq!(
        qy.sql,
        "SELECT model, version_raw, COUNT(*) AS installations FROM stats WHERE country = ? GROUP BY version_raw ORDER BY installations DESC"
    );
    assert_eq!(placeholders(&qy.sql), 1);
    let none: Vec<FilterClause> = vec![];
    assert_eq!(total_query(&none).sql, "SELECT COUNT(*) FROM stats");
}

#[test]
fn unban_statement() {
    let values = vec!["a".to_string(), "b".to_string(), "c".to_string()];
    let qy = remove_bans_query(GroupCol::Model, &values);
    assert_eq!(qy.sql, "DELETE FROM banned WHERE model IN (?, ?, ?)");
    assert_eq!(qy.binds, vec![SqlValue::Text("a".to_string()), SqlValue::Text("b".to_string()), SqlValue::Text("c".to_string())]);
}

#[test]
fn ban_statement() {
    let values = vec!["22.1-x".to_string(), "22.2-y".to_string()];
    let qy = upsert_bans_query(GroupCol::Version, &values, Some("bad build"));
    assert_eq!(
        qy.sql,
        "INSERT INTO banned (version, note)VALUES (?, ?), (?, ?) ON CONFLICT (version) DO UPDATE SET note = excluded.note"
    );
    assert_eq!(
        qy.binds,
        vec![SqlValue::Text("22.1-x".to_string()), SqlValue::Text("bad build".to_string()), SqlValue::Text("22.2-y".to_string()), SqlValue::Text("bad build".to_string())]
    );
    let qy = upsert_bans_query(GroupCol::Model, &vec!["m".to_string()], None);
    assert_eq!(qy.sql, "INSERT INTO banned (model, note)VALUES (?, ?) ON CONFLICT (model) DO UPDATE SET note = excluded.note");
    assert_eq!(qy.binds, vec![SqlValue::Text("m".to_string()), SqlValue::Null]);
}

#[test]
fn store_statement_binds_every_column() {
    let stat = NewStat {
        device_id: "ID".to_string(),
        carrier: None,
        carrier_id: Some("310260".to_string()),
        country: "US".to_string(),
        model: "panther".to_string(),
        official: true,
        version: "22.1".to_string(),
        version_raw: "22.1-20250101-NIGHTLY-panther".to_string(),
    };
    let qy = upsert_stat_query(&stat);
    assert_eq!(qy.sql, UPSERT_STAT_SQL);
    assert_eq!(placeholders(&qy.sql), 8);
    assert_eq!(
        qy.binds,
        vec![
            SqlValue::Text("ID".to_string()),
            SqlValue::Null,
            SqlValue::Text("310260".to_string()),
            SqlValue::Text("US".to_string()),
            SqlValue::Text("panther".to_string()),
            SqlValue::Bool(true),
            SqlValue::Text("22.1".to_string()),
            SqlValue::Text("22.1-20250101-NIGHTLY-panther".to_string()),
        ]
    );
}

#[test]
fn store_statement_refreshes_the_check_in_time() {
    assert!(UPSERT_STAT_SQL.contains("submit_time) VALUES"));
    assert!(UPSERT_STAT_SQL.contains("datetime('now'))"));
    assert!(UPSERT_STAT_SQL.ends_with("submit_time = excluded.submit_time"));
}
