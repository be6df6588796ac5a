//! Enrichment: the decision taken on each new film once its details are
//! known, and what that decision does to the archive and to the
//! notification list.
use vstd::prelude::*;
use crate::model::{all_attributed, copy_text, Movie, MovieDetails};
use crate::discovery::{distinct_ids, find_id, ids_of, lemma_to_map_distinct, lemma_to_map_push,
    lemma_to_map_remove, lemma_to_map_update, to_map};

verus! {

/// Films shorter than this many minutes are archived but not announced.
pub const MIN_RUNTIME: u32 = 60;

/// What becomes of a new film once its details are known.
#[derive(Clone, Copy, Debug, PartialEq, Eq, Structural)]
pub enum Verdict {
    /// Not a standalone release: left out of the archive and of the notification.
    Dropped,
    /// A short film: archived, not announced.
    Quiet,
    /// Archived with its external identifier, and announced.
    Announced,
}

/// The decision, in order: no external identifier, or no or a zero
/// runtime, drops the film; a runtime under `MIN_RUNTIME` keeps it quiet;
/// anything else is announced.
pub open spec fn verdict(d: MovieDetails) -> Verdict {
    if d.imdb_id is None {
        Verdict::Dropped
    } else if d.runtime is None || d.runtime == Some(0u32) {
        Verdict::Dropped
    } else if d.runtime.unwrap() < MIN_RUNTIME {
        Verdict::Quiet
    } else {
        Verdict::Announced
    }
}

/// `m` with the external identifier of `d` attached.
pub open spec fn attach(m: Movie, d: MovieDetails) -> Movie {
    Movie { imdb_id: d.imdb_id, ..m }
}

/// The archive after the first `c.len()` candidates, `d[i]` being the
/// details of `c[i]`, have been judged against the catalog `cat`.
pub open spec fn committed(cat: Map<u32, Movie>, c: Seq<Movie>, d: Seq<MovieDetails>) -> Map<
    u32,
    Movie,
>
    decreases c.len(),
{
    if c.len() == 0 {
        cat
    } else {
        let prev = committed(cat, c.drop_last(), d.drop_last());
        let m = c.last();
        let dt = d[c.len() - 1];
        match verdict(dt) {
            Verdict::Dropped => prev.remove(m.id),
            Verdict::Quiet => prev,
            Verdict::Announced => prev.insert(m.id, attach(m, dt)),
        }
    }
}

/// The candidates that are announced, each with its external identifier
/// attached, in the order of the candidates.
pub open spec fn notified(c: Seq<Movie>, d: Seq<MovieDetails>) -> Seq<Movie>
    decreases c.len(),
{
    if c.len() == 0 {
        Seq::empty()
    } else {
        let prev = notified(c.drop_last(), d.drop_last());
        let dt = d[c.len() - 1];
        if verdict(dt) == Verdict::Announced {
            prev.push(attach(c.last(), dt))
        } else {
            prev
        }
    }
}

/// Judges one film by its details.
pub fn judge(d: &MovieDetails) -> (r: Verdict)
    ensures
        r == verdict(*d),
{
    if d.imdb_id.is_none() {
        return Verdict::Dropped;
    }
    match d.runtime {
        None => Verdict::Dropped,
        Some(0) => Verdict::Dropped,
        Some(t) => if t < MIN_RUNTIME {
            Verdict::Quiet
        } else {
            Verdict::Announced
        },
    }
}

/// Enrichment: judges each candidate by its details (`details[i]` belongs
/// to `candidates[i]`), removes dropped films from the catalog, attaches
/// the external identifier to announced ones, and lists those in order.
/// Returns the archive to commit and the films to announce.
pub fn enrich(catalog: Vec<Movie>, candidates: &Vec<Movie>, details: &Vec<MovieDetails>) -> (r: (
    Vec<Movie>,
    Vec<Movie>,
))
    requires
        distinct_ids(catalog@),
        candidates.len() == details.len(),
    ensures
        distinct_ids(r.0@),
        to_map(r.0@) == committed(to_map(catalog@), candidates@, details@),
        r.1@ == notified(candidates@, details@),
        all_attributed(candidates@) ==> all_attributed(r.1@),
{
    let mut archive = catalog;
    let mut announced: Vec<Movie> = Vec::new();
    let mut i: usize = 0;
    while i < candidates.len()
        invariant
            i <= candidates.len(),
            candidates.len() == details.len(),
            distinct_ids(archive@),
            to_map(archive@) == committed(
                to_map(catalog@),
                candidates@.subrange(0, i as int),
                details@.subrange(0, i as int),
            ),
            announced@ == notified(
                candidates@.subrange(0, i as int),
                details@.subrange(0, i as int),
            ),
        decreases candidates.len() - i,
    {
        let m = &candidates[i];
        let d = &details[i];
        let ghost c1 = candidates@.subrange(0, i + 1);
        let ghost d1 = details@.subrange(0, i + 1);
        assert(c1.drop_last() =~= candidates@.subrange(0, i as int));
        assert(d1.drop_last() =~= details@.subrange(0, i as int));
        assert(c1.last() == *m);
        assert(d1[c1.len() - 1] == *d);
        match judge(d) {
            Verdict::Dropped => {
                match find_id(&archive, m.id) {
                    Some(j) => {
                        proof {
                            lemma_to_map_remove(archive@, j as int);
                        }
                        archive.remove(j);
                    },
                    None => {
                        proof {
                            lemma_to_map_distinct(archive@);
                            assert(to_map(archive@).remove(m.id) =~= to_map(archive@));
                        }
                    },
                }
            },
            Verdict::Quiet => {},
            Verdict::Announced => {
                let mut a = m.duplicate();
                a.imdb_id = copy_text(&d.imdb_id);
                match find_id(&archive, m.id) {
                    Some(j) => {
                        proof {
                            lemma_to_map_update(archive@, j as int, a);
                        }
                        archive.set(j, a.duplicate());
                    },
                    None => {
                        proof {
                            lemma_to_map_push(archive@, a);
                        }
                        archive.push(a.duplicate());
                    },
                }
                announced.push(a);
            },
        }
        i += 1;
    }
    assert(candidates@.subrange(0, i as int) =~= candidates@);
    assert(details@.subrange(0, i as int) =~= details@);
    proof {
        lemma_notified_members(candidates@, details@);
        if all_attributed(candidates@) {
            assert forall|k: int| 0 <= k < announced.len() implies (
            #[trigger] announced@[k]).director_name is Some by {
                assert(announced@.contains(announced@[k]));
            }
        }
    }
    (archive, announced)
}


/// Candidates whose ids differ from `k` leave the catalog's entry for `k` as it was.
pub proof fn lemma_committed_untouched(
    cat: Map<u32, Movie>,
    c: Seq<Movie>,
    d: Seq<MovieDetails>,
    k: u32,
)
    requires
        c.len() == d.len(),
        forall|j: int| 0 <= j < c.len() ==> (#[trigger] c[j]).id != k,
    ensures
        committed(cat, c, d).contains_key(k) == cat.contains_key(k),
        cat.contains_key(k) ==> committed(cat, c, d)[k] == cat[k],
    decreases c.len(),
{
    if c.len() > 0 {
        let p = c.drop_last();
        assert forall|j: int| 0 <= j < p.len() implies (#[trigger] p[j]).id != k by {
            assert(p[j] == c[j]);
        }
        lemma_committed_untouched(cat, p, d.drop_last(), k);
        assert(c[c.len() - 1] == c.last());
    }
}

/// What the archive holds under a candidate's id, given its verdict.
pub proof fn lemma_committed_at(cat: Map<u32, Movie>, c: Seq<Movie>, d: Seq<MovieDetails>, i: int)
    requires
        distinct_ids(c),
        c.len() == d.len(),
        0 <= i < c.len(),
    ensures
        verdict(d[i]) == Verdict::Dropped ==> !committed(cat, c, d).contains_key(c[i].id),
        verdict(d[i]) == Verdict::Quiet ==> committed(cat, c, d).contains_key(c[i].id)
            == cat.contains_key(c[i].id),
        verdict(d[i]) == Verdict::Quiet && cat.contains_key(c[i].id) ==> committed(cat, c, d)[c[i].id]
            == cat[c[i].id],
        verdict(d[i]) == Verdict::Announced ==> committed(cat, c, d).contains_key(c[i].id)
            && committed(cat, c, d)[c[i].id] == attach(c[i], d[i]),
    decreases c.len(),
{
    let p = c.drop_last();
    let dp = d.drop_last();
    assert(distinct_ids(p));
    if i == c.len() - 1 {
        assert forall|j: int| 0 <= j < p.len() implies (#[trigger] p[j]).id != c[i].id by {
            assert(p[j] == c[j]);
        }
        lemma_committed_untouched(cat, p, dp, c[i].id);
    } else {
        lemma_committed_at(cat, p, dp, i);
        assert(p[i] == c[i]);
        assert(dp[i] == d[i]);
        assert(c.last().id != c[i].id);
    }
}

/// The announced films are exactly the candidates with an `Announced`
/// verdict, each with its external identifier attached.
pub proof fn lemma_notified_members(c: Seq<Movie>, d: Seq<MovieDetails>)
    requires
        c.len() == d.len(),
    ensures
        forall|x: Movie|
            #[trigger] notified(c, d).contains(x) ==> exists|j: int|
                0 <= j < c.len() && verdict(d[j]) == Verdict::Announced && x == attach(c[j], d[j]),
        forall|j: int|
            0 <= j < c.len() && verdict(d[j]) == Verdict::Announced ==> notified(c, d).contains(
                attach(#[trigger] c[j], d[j]),
            ),
    decreases c.len(),
{
    if c.len() > 0 {
        let p = c.drop_last();
        let dp = d.drop_last();
        let n = c.len() - 1;
        lemma_notified_members(p, dp);
        let prev = notified(p, dp);
        assert forall|x: Movie| #[trigger] notified(c, d).contains(x) implies exists|j: int|
            0 <= j < c.len() && verdict(d[j]) == Verdict::Announced && x == attach(c[j], d[j]) by {
            if prev.contains(x) {
                let j = choose|j: int|
                    0 <= j < p.len() && verdict(dp[j]) == Verdict::Announced && x == attach(
                        p[j],
                        dp[j],
                    );
                assert(c[j] == p[j] && d[j] == dp[j]);
            } else {
                let w = choose|w: int| 0 <= w < notified(c, d).len() && notified(c, d)[w] == x;
                assert(w == prev.len());
                assert(c[n] == c.last());
            }
        }
        assert forall|j: int|
            0 <= j < c.len() && verdict(d[j]) == Verdict::Announced implies notified(
            c,
            d,
        ).contains(attach(#[trigger] c[j], d[j])) by {
            if j < n {
                assert(c[j] == p[j] && d[j] == dp[j]);
                let w = choose|w: int| 0 <= w < prev.len() && prev[w] == attach(p[j], dp[j]);
                assert(notified(c, d)[w] == prev[w]);
            } else {
                assert(c[n] == c.last());
                assert(notified(c, d)[prev.len() as int] == attach(c[j], d[j]));
            }
        }
    }
}

/// No announced film carries the id of a candidate that was not announced.
pub proof fn lemma_not_announced(c: Seq<Movie>, d: Seq<MovieDetails>, i: int)
    requires
        distinct_ids(c),
        c.len() == d.len(),
        0 <= i < c.len(),
        verdict(d[i]) != Verdict::Announced,
    ensures
        forall|x: Movie| #[trigger] notified(c, d).contains(x) ==> x.id != c[i].id,
{
    lemma_notified_members(c, d);
    assert forall|x: Movie| #[trigger] notified(c, d).contains(x) implies x.id != c[i].id by {
        let j = choose|j: int|
            0 <= j < c.len() && verdict(d[j]) == Verdict::Announced && x == attach(c[j], d[j]);
        assert(j != i);
    }
}

/// A new film whose details carry no external identifier is neither
/// archived nor announced.
pub proof fn law_no_identifier_excluded(
    cat: Map<u32, Movie>,
    c: Seq<Movie>,
    d: Seq<MovieDetails>,
    i: int,
)
    requires
        distinct_ids(c),
        c.len() == d.len(),
        0 <= i < c.len(),
        d[i].imdb_id is None,
    ensures
        !committed(cat, c, d).contains_key(c[i].id),
        forall|x: Movie| #[trigger] notified(c, d).contains(x) ==> x.id != c[i].id,
{
    lemma_committed_at(cat, c, d, i);
    lemma_not_announced(c, d, i);
}

/// A new film whose runtime is unknown or zero is neither archived nor
/// announced.
pub proof fn law_no_runtime_excluded(
    cat: Map<u32, Movie>,
    c: Seq<Movie>,
    d: Seq<MovieDetails>,
    i: int,
)
    requires
        distinct_ids(c),
        c.len() == d.len(),
        0 <= i < c.len(),
        d[i].runtime is None || d[i].runtime == Some(0u32),
    ensures
        !committed(cat, c, d).contains_key(c[i].id),
        forall|x: Movie| #[trigger] notified(c, d).contains(x) ==> x.id != c[i].id,
{
    lemma_committed_at(cat, c, d, i);
    lemma_not_announced(c, d, i);
}

/// A new film with an external identifier and a runtime under
/// `MIN_RUNTIME` minutes stays in the archive as it was, and is not
/// announced.
pub proof fn law_short_film_archived_quietly(
    cat: Map<u32, Movie>,
    c: Seq<Movie>,
    d: Seq<MovieDetails>,
    i: int,
)
    requires
        distinct_ids(c),
        c.len() == d.len(),
        0 <= i < c.len(),
        cat.contains_key(c[i].id),
        d[i].imdb_id is Some,
        d[i].runtime matches Some(t) && 0 < t < MIN_RUNTIME,
    ensures
        committed(cat, c, d).contains_key(c[i].id),
        committed(cat, c, d)[c[i].id] == cat[c[i].id],
        forall|x: Movie| #[trigger] notified(c, d).contains(x) ==> x.id != c[i].id,
{
    lemma_committed_at(cat, c, d, i);
    lemma_not_announced(c, d, i);
}

/// A new film that passes every check is archived with its external
/// identifier attached, and announced.
pub proof fn law_valid_film_announced(
    cat: Map<u32, Movie>,
    c: Seq<Movie>,
    d: Seq<MovieDetails>,
    i: int,
)
    requires
        distinct_ids(c),
        c.len() == d.len(),
        0 <= i < c.len(),
        d[i].imdb_id is Some,
        d[i].runtime matches Some(t) && t >= MIN_RUNTIME,
    ensures
        committed(cat, c, d).contains_key(c[i].id),
        committed(cat, c, d)[c[i].id] == attach(c[i], d[i]),
        committed(cat, c, d)[c[i].id].imdb_id == d[i].imdb_id,
        notified(c, d).contains(attach(c[i], d[i])),
        attach(c[i], d[i]).director_name == c[i].director_name,
        forall|y: Movie| #[trigger] notified(c, d).contains(y) && y.id == c[i].id ==> y == attach(
            c[i],
            d[i],
        ),
{
    lemma_committed_at(cat, c, d, i);
    lemma_notified_members(c, d);
    assert forall|y: Movie| #[trigger] notified(c, d).contains(y) && y.id == c[i].id implies y
        == attach(c[i], d[i]) by {
        let j = choose|j: int|
            0 <= j < c.len() && verdict(d[j]) == Verdict::Announced && y == attach(c[j], d[j]);
        assert(j == i);
    }
}


/// When every candidate is in the catalog, the archive holds the catalog's
/// ids but those of the dropped candidates.
pub proof fn lemma_committed_dom(cat: Map<u32, Movie>, c: Seq<Movie>, d: Seq<MovieDetails>)
    requires
        distinct_ids(c),
        c.len() == d.len(),
        forall|i: int| 0 <= i < c.len() ==> cat.contains_key(#[trigger] c[i].id),
    ensures
        forall|k: u32| #[trigger]
            committed(cat, c, d).contains_key(k) <==> cat.contains_key(k) && !(exists|i: int|
                0 <= i < c.len() && c[i].id == k && verdict(d[i]) == Verdict::Dropped),
{
    assert forall|k: u32| #[trigger]
        committed(cat, c, d).contains_key(k) <==> cat.contains_key(k) && !(exists|i: int|
            0 <= i < c.len() && c[i].id == k && verdict(d[i]) == Verdict::Dropped) by {
        if exists|i: int| 0 <= i < c.len() && c[i].id == k {
            let i = choose|i: int| 0 <= i < c.len() && c[i].id == k;
            lemma_committed_at(cat, c, d, i);
            assert forall|j: int| 0 <= j < c.len() && c[j].id == k implies j == i by {}
        } else {
            lemma_committed_untouched(cat, c, d, k);
        }
    }
}

} // verus!
