use std::collections::HashSet;

use moviemail::discovery::{archive_ids, discover, merge_credits, new_candidates, stamp_director};
use moviemail::enrichment::{enrich, judge, Verdict};
use moviemail::message::{create_message_body, decimal_string, movie_link};
use moviemail::model::{Movie, MovieDetails};

fn credit(id: u32, job: Option<&str>, release_date: &str) -> Movie {
    Movie {
        id,
        title: format!("Film {}", id),
        overview: String::from("An overview"),
        poster_path: None,
        release_date: release_date.to_string(),
        job: job.map(|j| j.to_string()),
        director_name: None,
        imdb_id: None,
    }
}

fn details(id: u32, imdb_id: Option<&str>, runtime: Option<u32>) -> MovieDetails {
    MovieDetails { id, imdb_id: imdb_id.map(|s| s.to_string()), runtime }
}

fn ids(v: &[Movie]) -> Vec<u32> {
    let mut r: Vec<u32> = v.iter().map(|m| m.id).collect();
    r.sort();
    r
}

/// One director "D" credited with Work 1; the whole run against `prior`.
fn run(prior: &[Movie], d: MovieDetails) -> (Vec<Movie>, Vec<Movie>) {
    let batches = vec![(
        String::from("D"),
        vec![credit(1, Some("Director"), "2024-01-01")],
    )];
    let catalog = discover(&batches);
    let seen = archive_ids(&prior.to_vec());
    let candidates = new_candidates(&catalog, &seen);
    let details: Vec<MovieDetails> = candidates
        .iter()
        .map(|m| MovieDetails { id: m.id, imdb_id: d.imdb_id.clone(), runtime: d.runtime })
        .collect();
    enrich(catalog, &candidates, &details)
}

#[test]
fn scenario_valid_film_is_announced_and_archived_with_link() {
    let (archive, announced) = run(&[], details(1, Some("tt1"), Some(90)));
    assert_eq!(ids(&announced), vec![1]);
    assert_eq!(announced[0].imdb_id, Some(String::from("tt1")));
    assert_eq!(announced[0].director_name, Some(String::from("D")));
    assert_eq!(ids(&archive), vec![1]);
    assert_eq!(archive[0].imdb_id, Some(String::from("tt1")));
    assert_eq!(movie_link(&archive[0]), "https://www.imdb.com/title/tt1");
}

#[test]
fn scenario_short_film_is_archived_quietly() {
    let (archive, announced) = run(&[], details(1, Some("tt1"), Some(30)));
    assert!(announced.is_empty());
    assert_eq!(ids(&archive), vec![1]);
}

#[test]
fn scenario_film_without_identifier_is_dropped() {
    let (archive, announced) = run(&[], details(1, None, Some(90)));
    assert!(announced.is_empty());
    assert!(archive.is_empty());
}

#[test]
fn scenario_archived_film_is_not_announced_again() {
    let mut prior = credit(1, Some("Director"), "2024-01-01");
    prior.director_name = Some(String::from("D"));
    let (archive, announced) = run(&[prior], details(1, Some("tt1"), Some(90)));
    assert!(announced.is_empty());
    assert_eq!(ids(&archive), vec![1]);
    assert_eq!(archive[0].imdb_id, None);
}

#[test]
fn rerun_against_committed_archive_announces_nothing() {
    let batches = vec![
        (
            String::from("A"),
            vec![credit(1, Some("Director"), "2024-01-01"), credit(2, Some("Director"), "2024-02-01")],
        ),
        (String::from("B"), vec![credit(3, Some("Director"), "2024-03-01")]),
    ];
    let source = |id: u32| match id {
        1 => details(1, Some("tt1"), Some(100)),
        2 => details(2, None, Some(100)),
        _ => details(3, Some("tt3"), Some(20)),
    };
    let catalog = discover(&batches);
    let c1 = new_candidates(&catalog, &HashSet::new());
    let d1: Vec<MovieDetails> = c1.iter().map(|m| source(m.id)).collect();
    let (first, announced1) = enrich(catalog, &c1, &d1);
    assert_eq!(ids(&announced1), vec![1]);
    assert_eq!(announced1[0].director_name, Some(String::from("A")));
    assert_eq!(announced1[0].imdb_id, Some(String::from("tt1")));
    assert_eq!(ids(&first), vec![1, 3]);

    let catalog = discover(&batches);
    let c2 = new_candidates(&catalog, &archive_ids(&first));
    assert_eq!(ids(&c2), vec![2]);
    let d2: Vec<MovieDetails> = c2.iter().map(|m| source(m.id)).collect();
    let (second, announced2) = enrich(catalog, &c2, &d2);
    assert!(announced2.is_empty());
    assert_eq!(ids(&second), ids(&first));
}

#[test]
fn ineligible_credits_are_dropped_before_reconciliation() {
    let credits = vec![
        credit(1, Some("Director"), "2024-01-01"),
        credit(2, Some("Writer"), "2024-01-01"),
        credit(3, None, "2024-01-01"),
        credit(4, Some("Director"), ""),
        credit(5, Some("director"), "2024-01-01"),
    ];
    let catalog = merge_credits(&credits);
    assert_eq!(ids(&catalog), vec![1]);
}

#[test]
fn later_credit_for_same_id_wins() {
    let batches = vec![
        (String::from("First"), vec![credit(7, Some("Director"), "2024-01-01")]),
        (String::from("Second"), vec![credit(7, Some("Director"), "2024-05-05")]),
    ];
    let catalog = discover(&batches);
    assert_eq!(catalog.len(), 1);
    assert_eq!(catalog[0].director_name, Some(String::from("Second")));
    assert_eq!(catalog[0].release_date, "2024-05-05");
}

#[test]
fn ineligible_later_credit_does_not_replace() {
    let credits = vec![
        credit(7, Some("Director"), "2024-01-01"),
        credit(7, Some("Producer"), "2024-05-05"),
    ];
    let catalog = merge_credits(&credits);
    assert_eq!(catalog.len(), 1);
    assert_eq!(catalog[0].release_date, "2024-01-01");
}

#[test]
fn empty_roster_discovers_nothing() {
    let batches: Vec<(String, Vec<Movie>)> = vec![];
    assert!(discover(&batches).is_empty());
}

#[test]
fn stamping_sets_director_name() {
    let credits = vec![credit(1, Some("Director"), "2024-01-01"), credit(2, None, "")];
    let stamped = stamp_director(&credits, &String::from("Agnès Varda"));
    assert_eq!(stamped.len(), 2);
    for (s, c) in stamped.iter().zip(credits.iter()) {
        assert_eq!(s.director_name, Some(String::from("Agnès Varda")));
        assert_eq!(s.id, c.id);
        assert_eq!(s.title, c.title);
    }
}

#[test]
fn new_candidates_skip_archived_ids_in_order() {
    let catalog = vec![
        credit(5, Some("Director"), "2024-01-01"),
        credit(2, Some("Director"), "2024-01-01"),
        credit(9, Some("Director"), "2024-01-01"),
    ];
    let mut seen = HashSet::new();
    seen.insert(2u32);
    let fresh = new_candidates(&catalog, &seen);
    let order: Vec<u32> = fresh.iter().map(|m| m.id).collect();
    assert_eq!(order, vec![5, 9]);
}

#[test]
fn archive_ids_collects_every_id() {
    let archive = vec![credit(3, None, ""), credit(8, None, ""), credit(3, None, "")];
    let seen = archive_ids(&archive);
    let expected: HashSet<u32> = [3u32, 8u32].into_iter().collect();
    assert_eq!(seen, expected);
}

#[test]
fn verdicts_follow_the_checks_in_order() {
    assert_eq!(judge(&details(1, None, Some(120))), Verdict::Dropped);
    assert_eq!(judge(&details(1, None, None)), Verdict::Dropped);
    assert_eq!(judge(&details(1, Some("tt1"), None)), Verdict::Dropped);
    assert_eq!(judge(&details(1, Some("tt1"), Some(0))), Verdict::Dropped);
    assert_eq!(judge(&details(1, Some("tt1"), Some(1))), Verdict::Quiet);
    assert_eq!(judge(&details(1, Some("tt1"), Some(59))), Verdict::Quiet);
    assert_eq!(judge(&details(1, Some("tt1"), Some(60))), Verdict::Announced);
    assert_eq!(judge(&details(1, Some("tt1"), Some(u32::MAX))), Verdict::Announced);
}

#[test]
fn zero_runtime_is_dropped_from_archive() {
    let catalog = vec![credit(1, Some("Director"), "2024-01-01"), credit(2, Some("Director"), "2024-01-01")];
    let candidates = vec![catalog[0].clone()];
    let (archive, announced) = enrich(catalog, &candidates, &vec![details(1, Some("tt1"), Some(0))]);
    assert!(announced.is_empty());
    assert_eq!(ids(&archive), vec![2]);
}

#[test]
fn missing_runtime_is_dropped_from_archive() {
    let catalog = vec![credit(1, Some("Director"), "2024-01-01")];
    let candidates = vec![catalog[0].clone()];
    let (archive, announced) = enrich(catalog, &candidates, &vec![details(1, Some("tt1"), None)]);
    assert!(announced.is_empty());
    assert!(archive.is_empty());
}

#[test]
fn announced_films_keep_candidate_order() {
    let catalog = vec![
        credit(4, Some("Director"), "2024-01-01"),
        credit(1, Some("Director"), "2024-01-01"),
        credit(6, Some("Director"), "2024-01-01"),
    ];
    let candidates: Vec<Movie> = catalog.clone();
    let d = vec![
        details(4, Some("tt4"), Some(61)),
        details(1, Some("tt1"), Some(45)),
        details(6, Some("tt6"), Some(95)),
    ];
    let (archive, announced) = enrich(catalog, &candidates, &d);
    let order: Vec<u32> = announced.iter().map(|m| m.id).collect();
    assert_eq!(order, vec![4, 6]);
    assert_eq!(ids(&archive), vec![1, 4, 6]);
    let one = archive.iter().find(|m| m.id == 1).unwrap();
    assert_eq!(one.imdb_id, None);
    let six = archive.iter().find(|m| m.id == 6).unwrap();
    assert_eq!(six.imdb_id, Some(String::from("tt6")));
}

#[test]
fn decimal_notation() {
    assert_eq!(decimal_string(0), "0");
    assert_eq!(decimal_string(7), "7");
    assert_eq!(decimal_string(10), "10");
    assert_eq!(decimal_string(603), "603");
    assert_eq!(decimal_string(u32::MAX), "4294967295");
}

#[test]
fn link_falls_back_to_source_page() {
    let m = credit(550, Some("Director"), "1999-10-15");
    assert_eq!(movie_link(&m), "https://www.themoviedb.org/movie/550");
}

#[test]
fn message_body_renders_each_film() {
    let mut a = credit(1, Some("Director"), "2024-01-01");
    a.title = String::from("Alpha");
    a.director_name = Some(String::from("D"));
    a.imdb_id = Some(String::from("tt1"));
    let mut b = credit(42, Some("Director"), "2024-01-01");
    b.title = String::from("Beta");
    b.director_name = Some(String::from("E"));
    let (plain, html) = create_message_body(vec![a, b]);
    assert_eq!(
        plain,
        "https://www.imdb.com/title/tt1 - Alpha - D\nhttps://www.themoviedb.org/movie/42 - Beta - E\n"
    );
    assert_eq!(
        html,
        "<p><a href=\"https://www.imdb.com/title/tt1\">Alpha - D</a></p><p><a href=\"https://www.themoviedb.org/movie/42\">Beta - E</a></p>"
    );
}

#[test]
fn message_body_of_nothing_is_empty() {
    let (plain, html) = create_message_body(vec![]);
    assert_eq!(plain, "");
    assert_eq!(html, "");
}
