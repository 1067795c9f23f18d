use lineage_stats::summary::{summarize, tally, top_n, top_values, StatRow};

fn s(x: &str) -> Option<String> {
    Some(x.to_string())
}

fn p(name: &str, c: usize) -> (String, usize) {
    (name.to_string(), c)
}

#[test]
fn tally_counts_present_values_in_first_seen_order() {
    let values = vec![s("b"), None, s("a"), s("b"), s("b"), None, s("a"), s("c")];
    assert_eq!(tally(&values), vec![p("b", 3), p("a", 2), p("c", 1)]);
    assert!(tally(&vec![None, None]).is_empty());
}

#[test]
fn top_n_keeps_the_highest_counts() {
    let input = vec![p("a", 1), p("b", 5), p("c", 3), p("d", 5), p("e", 2)];
    assert_eq!(top_n(input.clone(), 3), vec![p("b", 5), p("d", 5), p("c", 3)]);
    assert_eq!(top_n(input.clone(), 0), vec![]);
    assert_eq!(top_n(input.clone(), 10), vec![p("b", 5), p("d", 5), p("c", 3), p("e", 2), p("a", 1)]);
    assert_eq!(top_n(vec![], 250), vec![]);
}

#[test]
fn top_values_limits_to_250() {
    let mut values = Vec::new();
    for i in 0..300 {
        for _ in 0..(i % 7 + 1) {
            values.push(Some(format!("v{}", i)));
        }
    }
    let r = top_values(&values);
    assert_eq!(r.len(), 250);
    assert!(r.windows(2).all(|w| w[0].1 >= w[1].1));
    assert_eq!(r[0].1, 7);
}

#[test]
fn summarize_counts_every_column() {
    let rows = vec![
        StatRow { model: s("panther"), country: s("US"), version: s("22.1") },
        StatRow { model: s("panther"), country: s("DE"), version: s("22.1") },
        StatRow { model: s("cheetah"), country: None, version: s("21.0") },
    ];
    let sum = summarize(&rows);
    assert_eq!(sum.model, vec![p("panther", 2), p("cheetah", 1)]);
    assert_eq!(sum.country, vec![p("US", 1), p("DE", 1)]);
    assert_eq!(sum.version, vec![p("22.1", 2), p("21.0", 1)]);
    assert_eq!(sum.total, 3);
}
