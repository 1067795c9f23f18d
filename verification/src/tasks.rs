//! The ban list that submissions are screened against, rebuilt from the
//! `banned` table on every refresh.

use vstd::prelude::*;

use crate::database::BannedItem;

verus! {

/// Some element of `v` holds exactly the characters `s`.
pub open spec fn holds_string(v: Seq<String>, s: Seq<char>) -> bool {
    exists|i: int| 0 <= i < v.len() && #[trigger] v[i]@ == s
}

/// The set of character sequences held by the elements of `v`.
pub open spec fn string_set(v: Seq<String>) -> Set<Seq<char>> {
    Set::new(|s: Seq<char>| holds_string(v, s))
}

/// No two elements of `v` hold the same characters.
pub open spec fn distinct_strings(v: Seq<String>) -> bool {
    forall|i: int, j: int| 0 <= i < v.len() && 0 <= j < v.len() && i != j ==> #[trigger] v[i]@ != #[trigger] v[j]@
}

/// The ban row names the version `s`.
pub open spec fn names_version(row: BannedItem, s: Seq<char>) -> bool {
    match row.version {
        Some(v) => v@ == s,
        None => false,
    }
}

/// The ban row names the model `s`.
pub open spec fn names_model(row: BannedItem, s: Seq<char>) -> bool {
    match row.model {
        Some(m) => m@ == s,
        None => false,
    }
}

/// The versions that some ban row names.
pub open spec fn banned_versions_of(rows: Seq<BannedItem>) -> Set<Seq<char>> {
    Set::new(|s: Seq<char>| exists|i: int| 0 <= i < rows.len() && names_version(#[trigger] rows[i], s))
}

/// The models that some ban row names.
pub open spec fn banned_models_of(rows: Seq<BannedItem>) -> Set<Seq<char>> {
    Set::new(|s: Seq<char>| exists|i: int| 0 <= i < rows.len() && names_model(#[trigger] rows[i], s))
}

/// Whether some element of `v` equals `s`.
pub fn contains_string(v: &Vec<String>, s: &String) -> (r: bool)
    ensures
        r == holds_string(v@, s@),
{
    let mut i: usize = 0;
    while i < v.len()
        invariant
            i <= v@.len(),
            forall|j: int| 0 <= j < i ==> v@[j]@ != s@,
        decreases v@.len() - i,
    {
        if v[i].eq(s) {
            assert(v@[i as int]@ == s@);
            return true;
        }
        i = i + 1;
    }
    false
}

/// Adds `s` to `v` unless an equal string is there already.
pub fn insert_string(v: &mut Vec<String>, s: String)
    requires
        distinct_strings(old(v)@),
    ensures
        distinct_strings(final(v)@),
        string_set(final(v)@) == string_set(old(v)@).insert(s@),
{
    let ghost sv = s@;
    if !contains_string(v, &s) {
        v.push(s);
        assert forall|t: Seq<char>| holds_string(v@, t) implies holds_string(old(v)@, t) || t == sv by {
            let i = choose|i: int| 0 <= i < v@.len() && #[trigger] v@[i]@ == t;
            if i < old(v)@.len() {
                assert(old(v)@[i]@ == t);
            }
        }
        assert forall|t: Seq<char>| holds_string(old(v)@, t) implies holds_string(v@, t) by {
            let i = choose|i: int| 0 <= i < old(v)@.len() && #[trigger] old(v)@[i]@ == t;
            assert(v@[i]@ == t);
        }
        assert(v@[old(v)@.len() as int]@ == sv);
    } else {
    }
    assert(string_set(v@) =~= string_set(old(v)@).insert(sv));
}

/// The banned versions and models.
pub struct Banned {
    pub versions: Vec<String>,
    pub models: Vec<String>,
}

/// What a ban list holds: the banned versions and the banned models.
pub struct BannedView {
    pub versions: Set<Seq<char>>,
    pub models: Set<Seq<char>>,
}

impl View for Banned {
    type V = BannedView;

    open spec fn view(&self) -> BannedView {
        BannedView { versions: string_set(self.versions@), models: string_set(self.models@) }
    }
}

impl Banned {
    /// Each version and each model is held once.
    pub open spec fn wf(&self) -> bool {
        distinct_strings(self.versions@) && distinct_strings(self.models@)
    }

    /// An empty ban list.
    pub fn new() -> (b: Banned)
        ensures
            b.wf(),
            b@.versions == Set::<Seq<char>>::empty(),
            b@.models == Set::<Seq<char>>::empty(),
    {
        let b = Banned { versions: Vec::new(), models: Vec::new() };
        assert(b@.versions =~= Set::<Seq<char>>::empty());
        assert(b@.models =~= Set::<Seq<char>>::empty());
        b
    }

    /// Whether `version` is banned.
    pub fn contains_version(&self, version: &String) -> (r: bool)
        ensures
            r == self@.versions.contains(version@),
    {
        contains_string(&self.versions, version)
    }

    /// Whether `model` is banned.
    pub fn contains_model(&self, model: &String) -> (r: bool)
        ensures
            r == self@.models.contains(model@),
    {
        contains_string(&self.models, model)
    }

    /// Bans `version`.
    pub fn insert_version(&mut self, version: String)
        requires
            old(self).wf(),
        ensures
            final(self).wf(),
            final(self)@.versions == old(self)@.versions.insert(version@),
            final(self)@.models == old(self)@.models,
    {
        insert_string(&mut self.versions, version);
    }

    /// Bans `model`.
    pub fn insert_model(&mut self, model: String)
        requires
            old(self).wf(),
        ensures
            final(self).wf(),
            final(self)@.models == old(self)@.models.insert(model@),
            final(self)@.versions == old(self)@.versions,
    {
        insert_string(&mut self.models, model);
    }

    /// The ban list that the rows of the `banned` table describe: every
    /// version and every model that some row names.
    pub fn from_rows(rows: &Vec<BannedItem>) -> (b: Banned)
        ensures
            b.wf(),
            b@.versions == banned_versions_of(rows@),
            b@.models == banned_models_of(rows@),
    {
        let mut next = Banned::new();
        let ghost all = rows@;
        let mut i: usize = 0;
        while i < rows.len()
            invariant
                all == rows@,
                i <= all.len(),
                next.wf(),
                next@.versions == banned_versions_of(all.take(i as int)),
                next@.models == banned_models_of(all.take(i as int)),
            decreases all.len() - i,
        {
            let row = &rows[i];
            let ghost before_v = next@.versions;
            let ghost before_m = next@.models;
            match &row.version {
                Some(v) => next.insert_version(v.clone()),
                None => {},
            }
            match &row.model {
                Some(m) => next.insert_model(m.clone()),
                None => {},
            }
            proof {
                let t = all.take(i as int + 1);
                let p = all.take(i as int);
                assert(t[i as int] == all[i as int]);
                assert forall|s: Seq<char>| banned_versions_of(t).contains(s) == next@.versions.contains(s) by {
                    if banned_versions_of(t).contains(s) {
                        let k = choose|k: int| 0 <= k < t.len() && names_version(#[trigger] t[k], s);
                        if k < i {
                            assert(p[k] == t[k]);
                            assert(banned_versions_of(p).contains(s));
                        }
                    }
                    if next@.versions.contains(s) {
                        if before_v.contains(s) {
                            let k = choose|k: int| 0 <= k < p.len() && names_version(#[trigger] p[k], s);
                            assert(t[k] == p[k]);
                        } else {
                            assert(names_version(t[i as int], s));
                        }
                    }
                }
                assert forall|s: Seq<char>| banned_models_of(t).contains(s) == next@.models.contains(s) by {
                    if banned_models_of(t).contains(s) {
                        let k = choose|k: int| 0 <= k < t.len() && names_model(#[trigger] t[k], s);
                        if k < i {
                            assert(p[k] == t[k]);
                            assert(banned_models_of(p).contains(s));
                        }
                    }
                    if next@.models.contains(s) {
                        if before_m.contains(s) {
                            let k = choose|k: int| 0 <= k < p.len() && names_model(#[trigger] p[k], s);
                            assert(t[k] == p[k]);
                        } else {
                            assert(names_model(t[i as int], s));
                        }
                    }
                }
                assert(next@.versions =~= banned_versions_of(t));
                assert(next@.models =~= banned_models_of(t));
            }
            i = i + 1;
        }
        proof {
            assert(all.take(all.len() as int) =~= all);
        }
        next
    }
}

/// After a refresh from the ban rows, a version (model) is banned exactly
/// when some row names it.
pub proof fn lemma_ban_rows_membership(rows: Seq<BannedItem>, s: Seq<char>)
    ensures
        banned_versions_of(rows).contains(s) <==> exists|i: int|
            0 <= i < rows.len() && (#[trigger] rows[i]).version is Some && rows[i].version.unwrap()@ == s,
        banned_models_of(rows).contains(s) <==> exists|i: int|
            0 <= i < rows.len() && (#[trigger] rows[i]).model is Some && rows[i].model.unwrap()@ == s,
{
    if banned_versions_of(rows).contains(s) {
        let i = choose|i: int| 0 <= i < rows.len() && names_version(#[trigger] rows[i], s);
        assert(rows[i].version is Some && rows[i].version.unwrap()@ == s);
    }
    if exists|i: int| 0 <= i < rows.len() && (#[trigger] rows[i]).version is Some && rows[i].version.unwrap()@ == s {
        let i = choose|i: int| 0 <= i < rows.len() && (#[trigger] rows[i]).version is Some && rows[i].version.unwrap()@ == s;
        assert(names_version(rows[i], s));
    }
    if banned_models_of(rows).contains(s) {
        let i = choose|i: int| 0 <= i < rows.len() && names_model(#[trigger] rows[i], s);
        assert(rows[i].model is Some && rows[i].model.unwrap()@ == s);
    }
    if exists|i: int| 0 <= i < rows.len() && (#[trigger] rows[i]).model is Some && rows[i].model.unwrap()@ == s {
        let i = choose|i: int| 0 <= i < rows.len() && (#[trigger] rows[i]).model is Some && rows[i].model.unwrap()@ == s;
        assert(names_model(rows[i], s));
    }
}

} // verus!
