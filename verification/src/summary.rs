//! The all-time statistics summary: how many installations report each
//! model, country and version, keeping the most frequent ones.

use vstd::prelude::*;

use crate::ordered::distinct_keys;

verus! {

/// The model, country and version of one stored installation.
pub struct StatRow {
    pub model: Option<String>,
    pub country: Option<String>,
    pub version: Option<String>,
}

/// The value `v` is present and holds the characters `s`.
pub open spec fn holds_value(v: Option<String>, s: Seq<char>) -> bool {
    match v {
        Some(x) => x@ == s,
        None => false,
    }
}

/// How many of the values hold the characters `s`.
pub open spec fn occurrences(values: Seq<Option<String>>, s: Seq<char>) -> nat
    decreases values.len(),
{
    if values.len() == 0 {
        0
    } else {
        occurrences(values.drop_last(), s) + if holds_value(values.last(), s) { 1nat } else { 0nat }
    }
}

/// A name with its count.
pub open spec fn pair_view(p: (String, usize)) -> (Seq<char>, usize) {
    (p.0@, p.1)
}

/// Names with their counts.
pub open spec fn pairs_view(ps: Seq<(String, usize)>) -> Seq<(Seq<char>, usize)> {
    ps.map_values(|p: (String, usize)| pair_view(p))
}

/// `entries` count the present values: one entry per distinct value, with
/// its number of occurrences.
pub open spec fn is_tally(entries: Seq<(Seq<char>, usize)>, values: Seq<Option<String>>) -> bool {
    &&& distinct_keys(entries)
    &&& forall|k: int| 0 <= k < entries.len() ==> #[trigger] entries[k].1 == occurrences(values, entries[k].0)
    &&& forall|k: int| 0 <= k < entries.len() ==> #[trigger] entries[k].1 > 0
    &&& forall|s: Seq<char>| #[trigger] occurrences(values, s) > 0 ==> exists|k: int| 0 <= k < entries.len() && entries[k].0 == s
}

/// `result` is a selection of the `n` highest counts of `input`, highest
/// first: as many entries as `n` allows, each taken from a distinct
/// position of the input, and no entry left out counts more than one kept.
pub open spec fn is_top_n(input: Seq<(Seq<char>, usize)>, result: Seq<(Seq<char>, usize)>, n: nat) -> bool {
    &&& result.len() == if n < input.len() { n } else { input.len() }
    &&& forall|a: int, b: int| 0 <= a < b < result.len() ==> #[trigger] result[a].1 >= #[trigger] result[b].1
    &&& exists|sel: Seq<int>| selects(input, result, sel)
}

/// `sel` picks, for each entry of `result`, a distinct position of `input`
/// holding it, and every position not picked counts no more than any kept
/// entry.
pub open spec fn selects(input: Seq<(Seq<char>, usize)>, result: Seq<(Seq<char>, usize)>, sel: Seq<int>) -> bool {
    &&& sel.len() == result.len()
    &&& forall|k: int| 0 <= k < sel.len() ==> 0 <= #[trigger] sel[k] < input.len() && result[k] == input[sel[k]]
    &&& forall|a: int, b: int| 0 <= a < sel.len() && 0 <= b < sel.len() && a != b ==> #[trigger] sel[a] != #[trigger] sel[b]
    &&& forall|j: int, k: int| 0 <= j < input.len() && !sel.contains(j) && 0 <= k < result.len() ==> #[trigger] input[j].1 <= #[trigger] result[k].1
}

/// Occurrences never exceed the number of values.
pub proof fn lemma_occurrences_bound(values: Seq<Option<String>>, s: Seq<char>)
    ensures
        occurrences(values, s) <= values.len(),
    decreases values.len(),
{
    if values.len() > 0 {
        lemma_occurrences_bound(values.drop_last(), s);
    }
}

/// The position of the entry whose key holds `s`, if any.
fn find_key(keys: &Vec<String>, s: &String) -> (r: Option<usize>)
    ensures
        match r {
            Some(p) => p < keys@.len() && keys@[p as int]@ == s@,
            None => forall|k: int| 0 <= k < keys@.len() ==> keys@[k]@ != s@,
        },
{
    let mut i: usize = 0;
    while i < keys.len()
        invariant
            i <= keys@.len(),
            forall|k: int| 0 <= k < i ==> keys@[k]@ != s@,
        decreases keys@.len() - i,
    {
        if keys[i].eq(s) {
            return Some(i);
        }
        i = i + 1;
    }
    None
}

/// Counts the present values: one entry per distinct value, in the order
/// of first occurrence, with its number of occurrences.
pub fn tally(values: &Vec<Option<String>>) -> (r: Vec<(String, usize)>)
    ensures
        is_tally(pairs_view(r@), values@),
{
    let mut keys: Vec<String> = Vec::new();
    let mut counts: Vec<usize> = Vec::new();
    let ghost all = values@;
    let mut i: usize = 0;
    while i < values.len()
        invariant
            all == values@,
            i <= all.len(),
            keys@.len() == counts@.len(),
            forall|a: int, b: int| 0 <= a < keys@.len() && 0 <= b < keys@.len() && a != b ==> #[trigger] keys@[a]@ != #[trigger] keys@[b]@,
            forall|k: int| 0 <= k < keys@.len() ==> #[trigger] counts@[k] == occurrences(all.take(i as int), keys@[k]@),
            forall|k: int| 0 <= k < counts@.len() ==> #[trigger] counts@[k] > 0,
            forall|s: Seq<char>| #[trigger] occurrences(all.take(i as int), s) > 0 ==> exists|k: int| 0 <= k < keys@.len() && keys@[k]@ == s,
        decreases all.len() - i,
    {
        let ghost p = all.take(i as int);
        let ghost t = all.take(i as int + 1);
        proof {
            assert(t.drop_last() =~= p);
            assert(t.last() == all[i as int]);
        }
        match &values[i] {
            Some(v) => {
                match find_key(&keys, v) {
                    Some(pos) => {
                        proof {
                            lemma_occurrences_bound(p, v@);
                        }
                        let c = counts[pos] + 1;
                        counts.set(pos, c);
                        proof {
                            assert forall|k: int| 0 <= k < keys@.len() implies #[trigger] counts@[k] == occurrences(t, keys@[k]@) by {
                                if k != pos {
                                    assert(keys@[k]@ != v@);
                                }
                            }
                            assert forall|s: Seq<char>| #[trigger] occurrences(t, s) > 0 implies exists|k: int| 0 <= k < keys@.len() && keys@[k]@ == s by {
                                if s == v@ {
                                    assert(keys@[pos as int]@ == s);
                                } else {
                                    assert(occurrences(p, s) > 0);
                                }
                            }
                        }
                    },
                    None => {
                        let ghost keys0 = keys@;
                        keys.push(v.clone());
                        counts.push(1);
                        proof {
                            let last = keys@.len() - 1;
                            assert(occurrences(p, v@) == 0) by {
                                if occurrences(p, v@) > 0 {
                                    let k = choose|k: int| 0 <= k < keys0.len() && keys0[k]@ == v@;
                                    assert(keys@[k] == keys0[k]);
                                }
                            }
                            assert forall|a: int, b: int| 0 <= a < keys@.len() && 0 <= b < keys@.len() && a != b implies #[trigger] keys@[a]@ != #[trigger] keys@[b]@ by {
                                if a != last && b != last {
                                } else if a == last {
                                    assert(keys@[b]@ != v@);
                                } else {
                                    assert(keys@[a]@ != v@);
                                }
                            }
                            assert forall|k: int| 0 <= k < keys@.len() implies #[trigger] counts@[k] == occurrences(t, keys@[k]@) by {
                                if k != last {
                                    assert(keys@[k]@ != v@);
                                }
                            }
                            assert forall|s: Seq<char>| #[trigger] occurrences(t, s) > 0 implies exists|k: int| 0 <= k < keys@.len() && keys@[k]@ == s by {
                                if s == v@ {
                                    assert(keys@[last]@ == s);
                                } else {
                                    assert(occurrences(p, s) > 0);
                                    let k = choose|k: int| 0 <= k < keys0.len() && keys0[k]@ == s;
                                    assert(keys@[k] == keys0[k]);
                                }
                            }
                        }
                    },
                }
            },
            None => {
                proof {
                    assert forall|s: Seq<char>| #[trigger] occurrences(t, s) > 0 implies exists|k: int| 0 <= k < keys@.len() && keys@[k]@ == s by {
                        assert(occurrences(p, s) > 0);
                    }
                }
            },
        }
        i = i + 1;
    }
    proof {
        assert(all.take(all.len() as int) =~= all);
    }
    let mut r: Vec<(String, usize)> = Vec::new();
    let mut k: usize = 0;
    while k < keys.len()
        invariant
            k <= keys@.len(),
            keys@.len() == counts@.len(),
            r@.len() == k,
            forall|j: int| 0 <= j < k ==> #[trigger] pair_view(r@[j]) == (keys@[j]@, counts@[j]),
            forall|j: int| 0 <= j < counts@.len() ==> #[trigger] counts@[j] > 0,
        decreases keys@.len() - k,
    {
        r.push((keys[k].clone(), counts[k]));
        k = k + 1;
    }
    proof {
        let e = pairs_view(r@);
        assert forall|j: int| 0 <= j < e.len() implies #[trigger] e[j] == (keys@[j]@, counts@[j]) by {
            assert(pair_view(r@[j]) == (keys@[j]@, counts@[j]));
        }
        assert forall|s: Seq<char>| #[trigger] occurrences(all, s) > 0 implies exists|j: int| 0 <= j < e.len() && e[j].0 == s by {
            let j = choose|j: int| 0 <= j < keys@.len() && keys@[j]@ == s;
            assert(e[j].0 == s);
        }
    }
    r
}

/// The position at which an entry counting `c` goes into a list sorted by
/// descending count: after every entry that counts at least as much.
fn insert_position(r: &Vec<(String, usize)>, c: usize) -> (pos: usize)
    requires
        forall|a: int, b: int| 0 <= a < b < r@.len() ==> #[trigger] r@[a].1 >= #[trigger] r@[b].1,
    ensures
        pos <= r@.len(),
        forall|k: int| 0 <= k < pos ==> #[trigger] r@[k].1 >= c,
        forall|k: int| pos <= k < r@.len() ==> #[trigger] r@[k].1 < c,
{
    let mut i: usize = 0;
    while i < r.len()
        invariant
            i <= r@.len(),
            forall|k: int| 0 <= k < i ==> #[trigger] r@[k].1 >= c,
            forall|a: int, b: int| 0 <= a < b < r@.len() ==> #[trigger] r@[a].1 >= #[trigger] r@[b].1,
        decreases r@.len() - i,
    {
        if r[i].1 < c {
            assert forall|k: int| i <= k < r@.len() implies #[trigger] r@[k].1 < c by {
                if k > i {
                    assert(r@[i as int].1 >= r@[k].1);
                }
            }
            return i;
        }
        i = i + 1;
    }
    i
}

/// The `n` entries with the highest counts, highest first (of entries that
/// count the same, those earlier in the input are kept first).
pub fn top_n(map: Vec<(String, usize)>, n: usize) -> (r: Vec<(String, usize)>)
    ensures
        is_top_n(pairs_view(map@), pairs_view(r@), n as nat),
{
    let ghost iv = pairs_view(map@);
    let mut r: Vec<(String, usize)> = Vec::new();
    let ghost mut sel: Seq<int> = Seq::empty();
    let mut i: usize = 0;
    while i < map.len()
        invariant
            iv == pairs_view(map@),
            i <= map@.len(),
            r@.len() == sel.len(),
            r@.len() == if (n as int) < (i as int) { n as int } else { i as int },
            forall|k: int| 0 <= k < sel.len() ==> 0 <= #[trigger] sel[k] < i && pair_view(r@[k]) == iv[sel[k]],
            forall|a: int, b: int| 0 <= a < sel.len() && 0 <= b < sel.len() && a != b ==> #[trigger] sel[a] != #[trigger] sel[b],
            forall|a: int, b: int| 0 <= a < b < r@.len() ==> #[trigger] r@[a].1 >= #[trigger] r@[b].1,
            forall|j: int, k: int| 0 <= j < i && !sel.contains(j) && 0 <= k < r@.len() ==> #[trigger] iv[j].1 <= #[trigger] r@[k].1,
            r@.len() < n ==> forall|j: int| 0 <= j < i ==> sel.contains(j),
        decreases map@.len() - i,
    {
        let c = map[i].1;
        let e = (map[i].0.clone(), c);
        assert(pair_view(e) == iv[i as int]);
        let pos = insert_position(&r, c);
        let ghost r0 = r@;
        let ghost sel0 = sel;
        r.insert(pos, e);
        proof {
            sel = sel.insert(pos as int, i as int);
            assert forall|k: int| 0 <= k < sel.len() implies 0 <= #[trigger] sel[k] < i + 1 && pair_view(r@[k]) == iv[sel[k]] by {
                if k < pos {
                    assert(sel[k] == sel0[k] && r@[k] == r0[k]);
                } else if k > pos {
                    assert(sel[k] == sel0[k - 1] && r@[k] == r0[k - 1]);
                }
            }
            assert forall|a: int, b: int| 0 <= a < sel.len() && 0 <= b < sel.len() && a != b implies #[trigger] sel[a] != #[trigger] sel[b] by {
                if a != pos && b != pos {
                    let a0 = if a < pos { a } else { a - 1 };
                    let b0 = if b < pos { b } else { b - 1 };
                    assert(sel[a] == sel0[a0] && sel[b] == sel0[b0]);
                } else if a == pos {
                    let b0 = if b < pos { b } else { b - 1 };
                    assert(sel[b] == sel0[b0]);
                } else {
                    let a0 = if a < pos { a } else { a - 1 };
                    assert(sel[a] == sel0[a0]);
                }
            }
            assert forall|a: int, b: int| 0 <= a < b < r@.len() implies #[trigger] r@[a].1 >= #[trigger] r@[b].1 by {
                let a0 = if a < pos { a } else { a - 1 };
                let b0 = if b < pos { b } else { b - 1 };
                if a != pos && b != pos {
                    assert(r@[a] == r0[a0] && r@[b] == r0[b0]);
                } else if a == pos {
                    assert(r@[b] == r0[b0]);
                } else {
                    assert(r@[a] == r0[a0]);
                }
            }
            assert(sel[pos as int] == i);
            assert forall|j: int| 0 <= j < i && sel0.contains(j) implies sel.contains(j) by {
                let k = choose|k: int| 0 <= k < sel0.len() && sel0[k] == j;
                if k < pos {
                    assert(sel[k] == j);
                } else {
                    assert(sel[k + 1] == j);
                }
            }
        }
        if r.len() > n {
            let ghost r1 = r@;
            let ghost sel1 = sel;
            let dropped = r.pop();
            proof {
                let last = r1.len() - 1;
                let jd = sel1[last];
                sel = sel1.drop_last();
                assert(r0.len() == n);
                assert forall|k: int| 0 <= k < sel.len() implies 0 <= #[trigger] sel[k] < i + 1 && pair_view(r@[k]) == iv[sel[k]] by {
                    assert(sel[k] == sel1[k] && r@[k] == r1[k]);
                }
                assert forall|a: int, b: int| 0 <= a < sel.len() && 0 <= b < sel.len() && a != b implies #[trigger] sel[a] != #[trigger] sel[b] by {
                    assert(sel[a] == sel1[a] && sel[b] == sel1[b]);
                }
                assert forall|a: int, b: int| 0 <= a < b < r@.len() implies #[trigger] r@[a].1 >= #[trigger] r@[b].1 by {
                    assert(r@[a] == r1[a] && r@[b] == r1[b]);
                }
                assert forall|j: int, k: int| 0 <= j < i + 1 && !sel.contains(j) && 0 <= k < r@.len() implies #[trigger] iv[j].1 <= #[trigger] r@[k].1 by {
                    assert(r@[k] == r1[k]);
                    assert(r1[last].1 <= r1[k].1);
                    if j == jd {
                        assert(iv[j] == pair_view(r1[last]));
                    } else if sel1.contains(j) {
                        let m = choose|m: int| 0 <= m < sel1.len() && sel1[m] == j;
                        if m < last {
                            assert(sel[m] == j);
                        }
                    } else {
                        // j was left out before this step.
                        assert(j != i);
                        assert(!sel0.contains(j)) by {
                            if sel0.contains(j) {
                                let m = choose|m: int| 0 <= m < sel0.len() && sel0[m] == j;
                                if m < pos {
                                    assert(sel1[m] == j);
                                } else {
                                    assert(sel1[m + 1] == j);
                                }
                            }
                        }
                        if pos == r0.len() {
                            // the new entry was the one dropped; r is as before
                            assert(r1[k] == r0[k]);
                        } else {
                            // the last old entry was dropped; it counts less than the new one
                            assert(r1[last] == r0[last - 1]);
                            assert(iv[j].1 <= r0[last - 1].1);
                            if k < pos {
                                assert(r1[k] == r0[k]);
                            } else if k > pos {
                                assert(r1[k] == r0[k - 1]);
                            } else {
                                assert(r0[last - 1].1 < c);
                            }
                        }
                    }
                }
            }
        } else {
            proof {
                assert(r0.len() < n);
                assert forall|j: int, k: int| 0 <= j < i + 1 && !sel.contains(j) && 0 <= k < r@.len() implies #[trigger] iv[j].1 <= #[trigger] r@[k].1 by {
                    if j < i {
                        assert(sel0.contains(j));
                    }
                }
                assert forall|j: int| 0 <= j < i + 1 implies sel.contains(j) by {
                    if j < i {
                        assert(sel0.contains(j));
                    }
                }
            }
        }
        i = i + 1;
    }
    proof {
        let rv = pairs_view(r@);
        assert(selects(iv, rv, sel)) by {
            assert forall|k: int| 0 <= k < sel.len() implies 0 <= #[trigger] sel[k] < iv.len() && rv[k] == iv[sel[k]] by {
                assert(rv[k] == pair_view(r@[k]));
            }
            assert forall|j: int, k: int| 0 <= j < iv.len() && !sel.contains(j) && 0 <= k < rv.len() implies #[trigger] iv[j].1 <= #[trigger] rv[k].1 by {
                assert(rv[k] == pair_view(r@[k]));
                assert(iv[j].1 <= r@[k].1);
            }
        }
        assert forall|a: int, b: int| 0 <= a < b < rv.len() implies #[trigger] rv[a].1 >= #[trigger] rv[b].1 by {
            assert(rv[a] == pair_view(r@[a]) && rv[b] == pair_view(r@[b]));
            assert(r@[a].1 >= r@[b].1);
        }
    }
    r
}

/// `result` keeps the `n` most frequent of the present `values`, most
/// frequent first.
pub open spec fn is_top_count(values: Seq<Option<String>>, result: Seq<(Seq<char>, usize)>, n: nat) -> bool {
    exists|t: Seq<(Seq<char>, usize)>| is_tally(t, values) && is_top_n(t, result, n)
}

/// No count of a summary exceeds the number of installations, and every
/// kept value was reported at least once.
pub proof fn lemma_summary_counts_bounded(values: Seq<Option<String>>, result: Seq<(Seq<char>, usize)>, n: nat)
    requires
        is_top_count(values, result, n),
    ensures
        forall|k: int| 0 <= k < result.len() ==> 0 < #[trigger] result[k].1 <= values.len(),
{
    let t = choose|t: Seq<(Seq<char>, usize)>| is_tally(t, values) && is_top_n(t, result, n);
    let sel = choose|sel: Seq<int>| selects(t, result, sel);
    assert forall|k: int| 0 <= k < result.len() implies 0 < #[trigger] result[k].1 <= values.len() by {
        let j = sel[k];
        assert(result[k] == t[j]);
        assert(t[j].1 == occurrences(values, t[j].0));
        lemma_occurrences_bound(values, t[j].0);
    }
}

/// Every input entry that counts more than some kept entry is kept itself;
/// each kept entry is an input entry; and when fewer than `n` entries are
/// kept, all of them are.
pub proof fn lemma_top_n_keeps_higher(input: Seq<(Seq<char>, usize)>, result: Seq<(Seq<char>, usize)>, n: nat)
    requires
        is_top_n(input, result, n),
    ensures
        forall|j: int, k: int| #![trigger input[j], result[k]]
            0 <= j < input.len() && 0 <= k < result.len() && input[j].1 > result[k].1
            ==> result.contains(input[j]),
        forall|k: int| 0 <= k < result.len() ==> input.contains(#[trigger] result[k]),
        result.len() <= n,
        result.len() < n ==> result.len() == input.len(),
{
    let sel = choose|sel: Seq<int>| selects(input, result, sel);
    assert forall|j: int, k: int| #![trigger input[j], result[k]]
        0 <= j < input.len() && 0 <= k < result.len() && input[j].1 > result[k].1
        implies result.contains(input[j]) by {
        if !sel.contains(j) {
            assert(input[j].1 <= result[k].1);
        } else {
            let m = choose|m: int| 0 <= m < sel.len() && sel[m] == j;
            assert(result[m] == input[sel[m]]);
        }
    }
    assert forall|k: int| 0 <= k < result.len() implies input.contains(#[trigger] result[k]) by {
        assert(result[k] == input[sel[k]]);
    }
}

/// How many values the summary keeps per column.
pub const SUMMARY_LIMIT: usize = 250;

/// The values of one column of the rows.
pub open spec fn models_of(rows: Seq<StatRow>) -> Seq<Option<String>> {
    rows.map_values(|r: StatRow| r.model)
}

/// The values of one column of the rows.
pub open spec fn countries_of(rows: Seq<StatRow>) -> Seq<Option<String>> {
    rows.map_values(|r: StatRow| r.country)
}

/// The values of one column of the rows.
pub open spec fn versions_of(rows: Seq<StatRow>) -> Seq<Option<String>> {
    rows.map_values(|r: StatRow| r.version)
}

/// The all-time summary: the most frequent models, countries and versions
/// with their counts, and the number of installations.
pub struct StatsSummary {
    pub model: Vec<(String, usize)>,
    pub country: Vec<(String, usize)>,
    pub version: Vec<(String, usize)>,
    pub total: usize,
}

/// Clones the column of the rows that `pick` names.
fn column(rows: &Vec<StatRow>, pick: u8) -> (values: Vec<Option<String>>)
    requires
        pick < 3,
    ensures
        values@ == if pick == 0 {
            models_of(rows@)
        } else if pick == 1 {
            countries_of(rows@)
        } else {
            versions_of(rows@)
        },
{
    let mut values: Vec<Option<String>> = Vec::new();
    let mut i: usize = 0;
    while i < rows.len()
        invariant
            pick < 3,
            i <= rows@.len(),
            values@.len() == i,
            forall|k: int| 0 <= k < i ==> #[trigger] values@[k] == if pick == 0 {
                rows@[k].model
            } else if pick == 1 {
                rows@[k].country
            } else {
                rows@[k].version
            },
        decreases rows@.len() - i,
    {
        let row = &rows[i];
        let v = if pick == 0 {
            row.model.clone()
        } else if pick == 1 {
            row.country.clone()
        } else {
            row.version.clone()
        };
        values.push(v);
        i = i + 1;
    }
    proof {
        if pick == 0 {
            assert(values@ =~= models_of(rows@));
        } else if pick == 1 {
            assert(values@ =~= countries_of(rows@));
        } else {
            assert(values@ =~= versions_of(rows@));
        }
    }
    values
}

/// The 250 most frequent values of a column, most frequent first.
pub fn top_values(values: &Vec<Option<String>>) -> (r: Vec<(String, usize)>)
    ensures
        is_top_count(values@, pairs_view(r@), SUMMARY_LIMIT as nat),
{
    let t = tally(values);
    let ghost tv = pairs_view(t@);
    let r = top_n(t, SUMMARY_LIMIT);
    proof {
        assert(is_tally(tv, values@) && is_top_n(tv, pairs_view(r@), SUMMARY_LIMIT as nat));
    }
    r
}

/// Summarises the stored installations: for models, countries and versions
/// the 250 most frequent values with their counts, and the number of rows.
pub fn summarize(rows: &Vec<StatRow>) -> (s: StatsSummary)
    ensures
        is_top_count(models_of(rows@), pairs_view(s.model@), SUMMARY_LIMIT as nat),
        is_top_count(countries_of(rows@), pairs_view(s.country@), SUMMARY_LIMIT as nat),
        is_top_count(versions_of(rows@), pairs_view(s.version@), SUMMARY_LIMIT as nat),
        s.total == rows@.len(),
{
    let models = column(rows, 0);
    let countries = column(rows, 1);
    let versions = column(rows, 2);
    StatsSummary {
        model: top_values(&models),
        country: top_values(&countries),
        version: top_values(&versions),
        total: rows.len(),
    }
}

} // verus!
