use indexmap::IndexMap;
use lineage_stats::database::{FilterClause, GroupCol, GroupedCount};
use lineage_stats::router::api::{assemble_stats, group_needed, pinned_value, resolve_group, FilterQuery};

fn q(model: Option<&str>, country: Option<&str>, version: Option<&str>, carrier: Option<&str>) -> FilterQuery {
    FilterQuery {
        model: model.map(|s| s.to_string()),
        country: country.map(|s| s.to_string()),
        version: version.map(|s| s.to_string()),
        carrier: carrier.map(|s| s.to_string()),
    }
}

fn pairs(m: &IndexMap<String, usize>) -> Vec<(String, usize)> {
    m.iter().map(|(k, v)| (k.clone(), *v)).collect()
}

fn row(name: &str, count: i64) -> GroupedCount {
    GroupedCount { name: name.to_string(), count }
}

#[test]
fn group_columns_have_their_names() {
    assert_eq!(GroupCol::Model.as_str(), "model");
    assert_eq!(GroupCol::Country.as_str(), "country");
    assert_eq!(GroupCol::Version.as_str(), "version");
    assert_eq!(GroupCol::Carrier.as_str(), "carrier");
}

#[test]
fn to_filters_follows_the_column_order() {
    let query = q(Some("panther"), None, Some("22.1"), Some("T-Mobile"));
    let f = query.to_filters();
    let got: Vec<(&str, &str)> = f.iter().map(|c| (c.column, c.value)).collect();
    assert_eq!(got, vec![("model", "panther"), ("version", "22.1"), ("carrier", "T-Mobile")]);
    assert!(q(None, None, None, None).to_filters().is_empty());
    let full = q(Some("a"), Some("b"), Some("c"), Some("d"));
    let all = full.to_filters();
    let cols: Vec<&str> = all.iter().map(|c| c.column).collect();
    assert_eq!(cols, vec!["model", "country", "version", "carrier"]);
}

#[test]
fn the_last_clause_on_a_column_pins_it() {
    let f = vec![
        FilterClause { column: "model", value: "a" },
        FilterClause { column: "country", value: "US" },
        FilterClause { column: "model", value: "b" },
    ];
    assert_eq!(pinned_value(&f, "model"), Some("b"));
    assert_eq!(pinned_value(&f, "country"), Some("US"));
    assert_eq!(pinned_value(&f, "carrier"), None);
    assert!(!group_needed(&f, "model"));
    assert!(group_needed(&f, "version"));
}

#[test]
fn resolve_group_keeps_row_order_and_merges_repeated_names() {
    let m = resolve_group(Some(vec![row("a", 5), row("b", 3), row("a", 1)]), None, 9);
    assert_eq!(pairs(&m), vec![("a".to_string(), 1), ("b".to_string(), 3)]);
    let m = resolve_group(None, Some("US"), 42);
    assert_eq!(pairs(&m), vec![("US".to_string(), 42)]);
    let m = resolve_group(Some(vec![]), Some("US"), 42);
    assert!(pairs(&m).is_empty());
}

#[test]
fn assemble_pins_filtered_columns_to_the_total() {
    let query = q(Some("panther"), Some("US"), None, None);
    let f = query.to_filters();
    assert!(!group_needed(&f, GroupCol::Model.as_str()));
    assert!(!group_needed(&f, GroupCol::Country.as_str()));
    assert!(group_needed(&f, GroupCol::Version.as_str()));
    let r = assemble_stats(
        &f,
        None,
        None,
        Some(vec![row("22.1", 7), row("21.0", 3)]),
        Some(vec![row("T-Mobile", 6), row("Vodafone", 4)]),
        10,
    );
    assert_eq!(pairs(&r.model), vec![("panther".to_string(), 10)]);
    assert_eq!(pairs(&r.country), vec![("US".to_string(), 10)]);
    assert_eq!(pairs(&r.version), vec![("22.1".to_string(), 7), ("21.0".to_string(), 3)]);
    assert_eq!(pairs(&r.carrier), vec![("T-Mobile".to_string(), 6), ("Vodafone".to_string(), 4)]);
    assert_eq!(r.total, 10);
}
