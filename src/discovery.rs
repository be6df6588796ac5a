//! Discovery: merging the credits of every roster entry into one catalog,
//! and reconciliation of that catalog against the archive.
use vstd::prelude::*;
use std::collections::HashSet;
use crate::model::{all_attributed, is_eligible, stamped, Movie};

verus! {

broadcast use vstd::std_specs::hash::group_hash_axioms;

/// The catalog that a sequence of films stands for: each id mapped to the
/// last film of the sequence that carries it.
pub open spec fn to_map(s: Seq<Movie>) -> Map<u32, Movie>
    decreases s.len(),
{
    if s.len() == 0 {
        Map::empty()
    } else {
        to_map(s.drop_last()).insert(s.last().id, s.last())
    }
}

/// No two films of `s` share an id.
pub open spec fn distinct_ids(s: Seq<Movie>) -> bool {
    forall|i: int, j: int| 0 <= i < s.len() && 0 <= j < s.len() && i != j ==> s[i].id != s[j].id
}

/// The ids that occur in `s`.
pub open spec fn ids_of(s: Seq<Movie>) -> Set<u32> {
    Set::new(|k: u32| exists|i: int| 0 <= i < s.len() && s[i].id == k)
}

/// What discovery keeps of a run of credits: for each id, the last
/// eligible credit that carries it.
pub open spec fn discovered(s: Seq<Movie>) -> Map<u32, Movie>
    decreases s.len(),
{
    if s.len() == 0 {
        Map::empty()
    } else {
        let rest = discovered(s.drop_last());
        if is_eligible(s.last()) {
            rest.insert(s.last().id, s.last())
        } else {
            rest
        }
    }
}

/// Every credit of `s` stamped with the display name `name`.
pub open spec fn stamp_all(s: Seq<Movie>, name: String) -> Seq<Movie> {
    s.map_values(|m: Movie| stamped(m, name))
}

/// The credits of each roster entry, stamped with that entry's display
/// name, one entry after the other.
pub open spec fn stamped_credits(b: Seq<(String, Vec<Movie>)>) -> Seq<Movie>
    decreases b.len(),
{
    if b.len() == 0 {
        Seq::empty()
    } else {
        stamped_credits(b.drop_last()) + stamp_all(b.last().1@, b.last().0)
    }
}

/// The films of the catalog whose ids the archive does not hold, in order.
pub open spec fn fresh(s: Seq<Movie>, archive: Set<u32>) -> Seq<Movie>
    decreases s.len(),
{
    if s.len() == 0 {
        Seq::empty()
    } else {
        let rest = fresh(s.drop_last(), archive);
        if archive.contains(s.last().id) {
            rest
        } else {
            rest.push(s.last())
        }
    }
}

/// With distinct ids, the catalog holds exactly the films of the sequence.
pub proof fn lemma_to_map_distinct(s: Seq<Movie>)
    requires
        distinct_ids(s),
    ensures
        to_map(s).dom() == ids_of(s),
        forall|i: int| 0 <= i < s.len() ==> #[trigger] to_map(s)[s[i].id] == s[i],
    decreases s.len(),
{
    if s.len() > 0 {
        let p = s.drop_last();
        lemma_to_map_distinct(p);
        assert forall|i: int| 0 <= i < s.len() implies #[trigger] to_map(s)[s[i].id] == s[i] by {
            if i < s.len() - 1 {
                assert(p[i] == s[i]);
            }
        }
        assert forall|k: u32| to_map(s).dom().contains(k) <==> ids_of(s).contains(k) by {
            if to_map(s).dom().contains(k) && k != s.last().id {
                let i = choose|i: int| 0 <= i < p.len() && p[i].id == k;
                assert(s[i].id == k);
            }
            if ids_of(s).contains(k) && k != s.last().id {
                let i = choose|i: int| 0 <= i < s.len() && s[i].id == k;
                assert(p[i].id == k);
            }
        }
        assert(to_map(s).dom() =~= ids_of(s));
    }
}

/// Appending a film with a new id adds it to the catalog.
pub proof fn lemma_to_map_push(s: Seq<Movie>, m: Movie)
    requires
        distinct_ids(s),
        !ids_of(s).contains(m.id),
    ensures
        distinct_ids(s.push(m)),
        to_map(s.push(m)) == to_map(s).insert(m.id, m),
{
    assert(s.push(m).drop_last() =~= s);
    assert forall|i: int, j: int|
        0 <= i < s.push(m).len() && 0 <= j < s.push(m).len() && i != j implies s.push(m)[i].id
        != s.push(m)[j].id by {
        if i == s.len() {
            assert(s[j].id == s.push(m)[j].id);
        }
        if j == s.len() {
            assert(s[i].id == s.push(m)[i].id);
        }
    }
}

/// Replacing a film by one with the same id replaces it in the catalog.
pub proof fn lemma_to_map_update(s: Seq<Movie>, j: int, m: Movie)
    requires
        distinct_ids(s),
        0 <= j < s.len(),
        s[j].id == m.id,
    ensures
        distinct_ids(s.update(j, m)),
        to_map(s.update(j, m)) == to_map(s).insert(m.id, m),
{
    let t = s.update(j, m);
    assert(distinct_ids(t));
    lemma_to_map_distinct(s);
    lemma_to_map_distinct(t);
    assert forall|k: u32| ids_of(t).contains(k) <==> ids_of(s).contains(k) by {
        if ids_of(s).contains(k) {
            let i = choose|i: int| 0 <= i < s.len() && s[i].id == k;
            assert(t[i].id == k);
        }
        if ids_of(t).contains(k) {
            let i = choose|i: int| 0 <= i < t.len() && t[i].id == k;
            assert(s[i].id == k);
        }
    }
    assert(ids_of(s).contains(s[j].id));
    assert forall|k: u32| #[trigger] to_map(t).dom().contains(k) implies to_map(t)[k] == to_map(
        s,
    ).insert(m.id, m)[k] by {
        let i = choose|i: int| 0 <= i < t.len() && t[i].id == k;
        assert(to_map(t)[t[i].id] == t[i]);
        if i != j {
            assert(to_map(s)[s[i].id] == s[i]);
        }
    }
    assert(to_map(t) =~= to_map(s).insert(m.id, m));
}

/// Removing a film removes its id from the catalog.
pub proof fn lemma_to_map_remove(s: Seq<Movie>, j: int)
    requires
        distinct_ids(s),
        0 <= j < s.len(),
    ensures
        distinct_ids(s.remove(j)),
        to_map(s.remove(j)) == to_map(s).remove(s[j].id),
{
    let t = s.remove(j);
    assert forall|a: int, b: int| 0 <= a < t.len() && 0 <= b < t.len() && a != b implies t[a].id
        != t[b].id by {
        let a2 = if a < j { a } else { a + 1 };
        let b2 = if b < j { b } else { b + 1 };
        assert(t[a] == s[a2]);
        assert(t[b] == s[b2]);
    }
    lemma_to_map_distinct(s);
    lemma_to_map_distinct(t);
    assert forall|k: u32| ids_of(t).contains(k) <==> ids_of(s).contains(k) && k != s[j].id by {
        if ids_of(s).contains(k) && k != s[j].id {
            let i = choose|i: int| 0 <= i < s.len() && s[i].id == k;
            if i < j {
                assert(t[i].id == k);
            } else {
                assert(t[i - 1].id == k);
            }
        }
        if ids_of(t).contains(k) {
            let i = choose|i: int| 0 <= i < t.len() && t[i].id == k;
            let i2 = if i < j { i } else { i + 1 };
            assert(t[i] == s[i2]);
        }
    }
    assert forall|k: u32| #[trigger] to_map(t).dom().contains(k) implies to_map(t)[k] == to_map(
        s,
    )[k] by {
        let i = choose|i: int| 0 <= i < t.len() && t[i].id == k;
        let i2 = if i < j { i } else { i + 1 };
        assert(t[i] == s[i2]);
        assert(to_map(t)[t[i].id] == t[i]);
        assert(to_map(s)[s[i2].id] == s[i2]);
    }
    assert(to_map(t) =~= to_map(s).remove(s[j].id));
}

/// The position of the film with id `id` in `v`, if there is one.
pub fn find_id(v: &Vec<Movie>, id: u32) -> (r: Option<usize>)
    ensures
        match r {
            Some(j) => j < v.len() && v@[j as int].id == id,
            None => !ids_of(v@).contains(id),
        },
{
    let mut i: usize = 0;
    while i < v.len()
        invariant
            i <= v.len(),
            forall|k: int| 0 <= k < i ==> v@[k].id != id,
        decreases v.len() - i,
    {
        if v[i].id == id {
            return Some(i);
        }
        i += 1;
    }
    None
}


/// Stamps each credit fetched for a roster entry with that entry's display name.
pub fn stamp_director(credits: &Vec<Movie>, name: &String) -> (r: Vec<Movie>)
    ensures
        r@ == stamp_all(credits@, *name),
{
    let mut r: Vec<Movie> = Vec::new();
    let mut i: usize = 0;
    while i < credits.len()
        invariant
            i <= credits.len(),
            r@ == stamp_all(credits@.subrange(0, i as int), *name),
        decreases credits.len() - i,
    {
        let mut m = credits[i].duplicate();
        m.director_name = Some(name.clone());
        r.push(m);
        i += 1;
        assert(r@ =~= stamp_all(credits@.subrange(0, i as int), *name));
    }
    assert(credits@.subrange(0, i as int) =~= credits@);
    r
}

/// Merges a run of credits into a catalog: the eligible credits, one film
/// per id, where a later credit for an id replaces an earlier one.
pub fn merge_credits(credits: &Vec<Movie>) -> (r: Vec<Movie>)
    ensures
        distinct_ids(r@),
        to_map(r@) == discovered(credits@),
        forall|k: int| 0 <= k < r.len() ==> is_eligible(#[trigger] r@[k]),
        forall|k: int| 0 <= k < r.len() ==> credits@.contains(#[trigger] r@[k]),
{
    let mut r: Vec<Movie> = Vec::new();
    let mut i: usize = 0;
    while i < credits.len()
        invariant
            i <= credits.len(),
            distinct_ids(r@),
            to_map(r@) == discovered(credits@.subrange(0, i as int)),
            forall|k: int| 0 <= k < r.len() ==> is_eligible(#[trigger] r@[k]),
            forall|k: int| 0 <= k < r.len() ==> credits@.contains(#[trigger] r@[k]),
        decreases credits.len() - i,
    {
        let m = &credits[i];
        assert(credits@[i as int] == *m);
        assert(credits@.subrange(0, i + 1).drop_last() =~= credits@.subrange(0, i as int));
        if m.is_eligible() {
            match find_id(&r, m.id) {
                Some(j) => {
                    proof {
                        lemma_to_map_update(r@, j as int, *m);
                    }
                    r.set(j, m.duplicate());
                },
                None => {
                    proof {
                        lemma_to_map_push(r@, *m);
                    }
                    r.push(m.duplicate());
                },
            }
        }
        i += 1;
    }
    assert(credits@.subrange(0, i as int) =~= credits@);
    r
}

/// Discovery: the credits of every roster entry, each paired with the
/// entry's display name, stamped and merged into one catalog.
pub fn discover(batches: &Vec<(String, Vec<Movie>)>) -> (r: Vec<Movie>)
    ensures
        distinct_ids(r@),
        to_map(r@) == discovered(stamped_credits(batches@)),
        forall|k: int| 0 <= k < r.len() ==> is_eligible(#[trigger] r@[k]),
        all_attributed(r@),
{
    let mut all: Vec<Movie> = Vec::new();
    let mut b: usize = 0;
    while b < batches.len()
        invariant
            b <= batches.len(),
            all@ == stamped_credits(batches@.subrange(0, b as int)),
            all_attributed(all@),
        decreases batches.len() - b,
    {
        let mut part = stamp_director(&batches[b].1, &batches[b].0);
        assert(batches@.subrange(0, b + 1).drop_last() =~= batches@.subrange(0, b as int));
        all.append(&mut part);
        b += 1;
    }
    assert(batches@.subrange(0, b as int) =~= batches@);
    let r = merge_credits(&all);
    assert forall|k: int| 0 <= k < r.len() implies (#[trigger] r@[k]).director_name is Some by {
        let w = choose|w: int| 0 <= w < all@.len() && all@[w] == r@[k];
    }
    r
}

/// The set of ids held by the archive.
pub fn archive_ids(archive: &Vec<Movie>) -> (r: HashSet<u32>)
    ensures
        r@ == ids_of(archive@),
{
    let mut r: HashSet<u32> = HashSet::new();
    let mut i: usize = 0;
    while i < archive.len()
        invariant
            i <= archive.len(),
            r@ == ids_of(archive@.subrange(0, i as int)),
        decreases archive.len() - i,
    {
        r.insert(archive[i].id);
        i += 1;
        assert forall|k: u32| r@.contains(k) <==> ids_of(archive@.subrange(0, i as int)).contains(
            k,
        ) by {
            let t = archive@.subrange(0, i as int);
            let t0 = archive@.subrange(0, i - 1);
            if r@.contains(k) && k != archive@[i - 1].id {
                let w = choose|w: int| 0 <= w < t0.len() && t0[w].id == k;
                assert(t[w].id == k);
            }
            if ids_of(t).contains(k) && k != archive@[i - 1].id {
                let w = choose|w: int| 0 <= w < t.len() && t[w].id == k;
                assert(t0[w].id == k);
            }
            assert(t[i - 1].id == archive@[i - 1].id);
        }
        assert(r@ =~= ids_of(archive@.subrange(0, i as int)));
    }
    assert(archive@.subrange(0, i as int) =~= archive@);
    r
}

/// Reconciliation: the films of the catalog that the archive has not seen.
pub fn new_candidates(catalog: &Vec<Movie>, archive: &HashSet<u32>) -> (r: Vec<Movie>)
    ensures
        r@ == fresh(catalog@, archive@),
        all_attributed(catalog@) ==> all_attributed(r@),
{
    let mut r: Vec<Movie> = Vec::new();
    let mut i: usize = 0;
    while i < catalog.len()
        invariant
            i <= catalog.len(),
            r@ == fresh(catalog@.subrange(0, i as int), archive@),
        decreases catalog.len() - i,
    {
        assert(catalog@.subrange(0, i + 1).drop_last() =~= catalog@.subrange(0, i as int));
        if !archive.contains(&catalog[i].id) {
            r.push(catalog[i].duplicate());
        }
        i += 1;
    }
    assert(catalog@.subrange(0, i as int) =~= catalog@);
    proof {
        lemma_fresh(catalog@, archive@);
        if all_attributed(catalog@) {
            assert forall|k: int| 0 <= k < r.len() implies (#[trigger] r@[k]).director_name is Some by {
                let w = choose|w: int| 0 <= w < catalog@.len() && catalog@[w] == r@[k];
            }
        }
    }
    r
}

/// Discovery keeps only eligible credits: every film of the catalog is a
/// directing credit with a release date, filed under its own id, and
/// taken from the credits unchanged.
pub proof fn law_only_eligible_discovered(s: Seq<Movie>)
    ensures
        forall|k: u32| #[trigger]
            discovered(s).contains_key(k) ==> is_eligible(discovered(s)[k]) && discovered(s)[k].id
                == k && s.contains(discovered(s)[k]),
        forall|i: int|
            0 <= i < s.len() && !is_eligible(s[i]) ==> !discovered(s).values().contains(
                #[trigger] s[i],
            ),
    decreases s.len(),
{
    if s.len() > 0 {
        let p = s.drop_last();
        law_only_eligible_discovered(p);
        assert forall|k: u32| #[trigger]
            discovered(s).contains_key(k) implies is_eligible(discovered(s)[k])
            && discovered(s)[k].id == k && s.contains(discovered(s)[k]) by {
            if !(is_eligible(s.last()) && k == s.last().id) {
                let w = choose|w: int| 0 <= w < p.len() && p[w] == discovered(p)[k];
                assert(s[w] == discovered(p)[k]);
            } else {
                assert(s[s.len() - 1] == s.last());
            }
        }
    }
}


/// The new films are films of the catalog that the archive does not hold,
/// every such film is among them, and their ids stay distinct.
pub proof fn lemma_fresh(s: Seq<Movie>, archive: Set<u32>)
    ensures
        forall|j: int|
            0 <= j < fresh(s, archive).len() ==> s.contains(#[trigger] fresh(s, archive)[j])
                && !archive.contains(fresh(s, archive)[j].id),
        forall|k: int|
            0 <= k < s.len() && !archive.contains(s[k].id) ==> fresh(s, archive).contains(
                #[trigger] s[k],
            ),
        distinct_ids(s) ==> distinct_ids(fresh(s, archive)),
    decreases s.len(),
{
    if s.len() > 0 {
        let p = s.drop_last();
        let n = s.len() - 1;
        lemma_fresh(p, archive);
        let f = fresh(s, archive);
        let fp = fresh(p, archive);
        assert forall|j: int| 0 <= j < f.len() implies s.contains(#[trigger] f[j]) && !archive.contains(
            f[j].id,
        ) by {
            if j < fp.len() {
                assert(f[j] == fp[j]);
                let w = choose|w: int| 0 <= w < p.len() && p[w] == fp[j];
                assert(s[w] == p[w]);
            } else {
                assert(s[n] == s.last());
            }
        }
        assert forall|k: int| 0 <= k < s.len() && !archive.contains(s[k].id) implies f.contains(
            #[trigger] s[k],
        ) by {
            if k < n {
                assert(p[k] == s[k]);
                let w = choose|w: int| 0 <= w < fp.len() && fp[w] == p[k];
                assert(f[w] == fp[w]);
            } else {
                assert(f[fp.len() as int] == s[k]);
            }
        }
        if distinct_ids(s) && !archive.contains(s.last().id) {
            assert(distinct_ids(p));
            assert forall|a: int, b: int|
                0 <= a < f.len() && 0 <= b < f.len() && a != b implies f[a].id != f[b].id by {
                if a < fp.len() && b < fp.len() {
                    assert(f[a] == fp[a] && f[b] == fp[b]);
                } else {
                    let o = if a < fp.len() { a } else { b };
                    assert(f[o] == fp[o]);
                    let w = choose|w: int| 0 <= w < p.len() && p[w] == fp[o];
                    assert(s[w] == p[w]);
                    assert(s[n] == s.last());
                }
            }
        }
    }
}

} // verus!
