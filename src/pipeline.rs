//! A whole run, stated over the stages: the new films of a catalog against
//! an archive, judged by a metadata source that answers each id the same
//! way every time it is asked.
use vstd::prelude::*;
use crate::model::{Movie, MovieDetails};
use crate::discovery::{distinct_ids, fresh, lemma_fresh, lemma_to_map_distinct, to_map};
use crate::enrichment::{
    committed, lemma_committed_at, lemma_committed_dom, lemma_committed_untouched,
    lemma_notified_members, notified,
    verdict, Verdict,
};

verus! {

/// The details that `source` gives for each film of `c`, in order.
pub open spec fn details_for(c: Seq<Movie>, source: spec_fn(u32) -> MovieDetails) -> Seq<
    MovieDetails,
> {
    c.map_values(|m: Movie| source(m.id))
}

/// The archive that a run commits, given the discovered catalog, the ids
/// of the prior archive and the metadata source.
pub open spec fn run_archive(
    catalog: Seq<Movie>,
    archive: Set<u32>,
    source: spec_fn(u32) -> MovieDetails,
) -> Map<u32, Movie> {
    let c = fresh(catalog, archive);
    committed(to_map(catalog), c, details_for(c, source))
}

/// The films that a run announces.
pub open spec fn run_announced(
    catalog: Seq<Movie>,
    archive: Set<u32>,
    source: spec_fn(u32) -> MovieDetails,
) -> Seq<Movie> {
    let c = fresh(catalog, archive);
    notified(c, details_for(c, source))
}

/// Running the pipeline a second time, against the archive that the first
/// run committed and with the same catalog and metadata source, announces
/// nothing and commits the same ids.
pub proof fn law_rerun_announces_nothing(
    catalog: Seq<Movie>,
    archive: Set<u32>,
    source: spec_fn(u32) -> MovieDetails,
)
    requires
        distinct_ids(catalog),
    ensures
        run_announced(catalog, run_archive(catalog, archive, source).dom(), source).len() == 0,
        run_archive(catalog, run_archive(catalog, archive, source).dom(), source).dom()
            == run_archive(catalog, archive, source).dom(),
{
    let c1 = fresh(catalog, archive);
    let d1 = details_for(c1, source);
    let first = run_archive(catalog, archive, source);
    let c2 = fresh(catalog, first.dom());
    let d2 = details_for(c2, source);
    lemma_fresh(catalog, archive);
    lemma_fresh(catalog, first.dom());
    lemma_to_map_distinct(catalog);
    assert forall|j: int| 0 <= j < c2.len() implies verdict(#[trigger] d2[j])
        != Verdict::Announced by {
        let m = c2[j];
        let k = choose|k: int| 0 <= k < catalog.len() && catalog[k] == m;
        assert(to_map(catalog).contains_key(catalog[k].id));
        if verdict(d2[j]) == Verdict::Announced {
            if archive.contains(m.id) {
                assert forall|i: int| 0 <= i < c1.len() implies (#[trigger] c1[i]).id != m.id by {}
                lemma_committed_untouched(to_map(catalog), c1, d1, m.id);
            } else {
                let i = choose|i: int| 0 <= i < c1.len() && c1[i] == catalog[k];
                assert(d1[i] == source(m.id));
                lemma_committed_at(to_map(catalog), c1, d1, i);
            }
        }
    }
    lemma_notified_members(c2, d2);
    if notified(c2, d2).len() > 0 {
        assert(notified(c2, d2).contains(notified(c2, d2)[0]));
    }
    let second = run_archive(catalog, first.dom(), source);
    let cm = to_map(catalog);
    assert forall|i: int| 0 <= i < c1.len() implies cm.contains_key(#[trigger] c1[i].id) by {
        let k = choose|k: int| 0 <= k < catalog.len() && catalog[k] == c1[i];
    }
    assert forall|i: int| 0 <= i < c2.len() implies cm.contains_key(#[trigger] c2[i].id) by {
        let k = choose|k: int| 0 <= k < catalog.len() && catalog[k] == c2[i];
    }
    lemma_committed_dom(cm, c1, d1);
    lemma_committed_dom(cm, c2, d2);
    assert forall|k: u32| second.contains_key(k) <==> first.contains_key(k) by {
        if cm.contains_key(k) {
            if exists|i: int| 0 <= i < c1.len() && c1[i].id == k && verdict(d1[i])
                == Verdict::Dropped {
                let i = choose|i: int|
                    0 <= i < c1.len() && c1[i].id == k && verdict(d1[i]) == Verdict::Dropped;
                let w = choose|w: int| 0 <= w < catalog.len() && catalog[w] == c1[i];
                assert(!first.dom().contains(catalog[w].id));
                let j = choose|j: int| 0 <= j < c2.len() && c2[j] == catalog[w];
                assert(d2[j] == source(k));
                assert(d1[i] == source(k));
            }
            if exists|j: int| 0 <= j < c2.len() && c2[j].id == k && verdict(d2[j])
                == Verdict::Dropped {
                let j = choose|j: int|
                    0 <= j < c2.len() && c2[j].id == k && verdict(d2[j]) == Verdict::Dropped;
                assert(!first.dom().contains(c2[j].id));
            }
        }
    }
    assert(second.dom() =~= first.dom());
}

} // verus!
