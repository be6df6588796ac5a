//! Rendering of the announced films into a plain-text and an HTML body.
use vstd::prelude::*;
use crate::model::{all_attributed, Movie};

verus! {

/// The character of a decimal digit.
pub open spec fn digit_char(d: nat) -> char {
    if d == 0 { '0' }
    else if d == 1 { '1' }
    else if d == 2 { '2' }
    else if d == 3 { '3' }
    else if d == 4 { '4' }
    else if d == 5 { '5' }
    else if d == 6 { '6' }
    else if d == 7 { '7' }
    else if d == 8 { '8' }
    else { '9' }
}

/// The decimal notation of `n`, without leading zeros.
pub open spec fn decimal(n: nat) -> Seq<char>
    decreases n,
{
    if n < 10 {
        seq![digit_char(n)]
    } else {
        decimal(n / 10).push(digit_char(n % 10))
    }
}

/// The page a film links to: its IMDb page when it has an external
/// identifier, else its page on the metadata source.
pub open spec fn link(m: Movie) -> Seq<char> {
    match m.imdb_id {
        Some(i) => "https://www.imdb.com/title/"@ + i@,
        None => "https://www.themoviedb.org/movie/"@ + decimal(m.id as nat),
    }
}

/// `{link} - {title} - {director}` and a line break.
pub open spec fn plain_line(m: Movie) -> Seq<char> {
    link(m) + " - "@ + m.title@ + " - "@ + m.director_name.unwrap()@ + "\n"@
}

/// `<p><a href="{link}">{title} - {director}</a></p>`.
pub open spec fn html_line(m: Movie) -> Seq<char> {
    "<p><a href=\""@ + link(m) + "\">"@ + m.title@ + " - "@ + m.director_name.unwrap()@
        + "</a></p>"@
}

/// The plain-text body: one line per film, in order.
pub open spec fn plain_body(s: Seq<Movie>) -> Seq<char>
    decreases s.len(),
{
    if s.len() == 0 {
        Seq::empty()
    } else {
        plain_body(s.drop_last()) + plain_line(s.last())
    }
}

/// The HTML body: one paragraph per film, in order.
pub open spec fn html_body(s: Seq<Movie>) -> Seq<char>
    decreases s.len(),
{
    if s.len() == 0 {
        Seq::empty()
    } else {
        html_body(s.drop_last()) + html_line(s.last())
    }
}

fn digit_str(d: u32) -> (r: &'static str)
    requires
        d < 10,
    ensures
        r@ == seq![digit_char(d as nat)],
{
    proof {
        reveal_strlit("0");
        reveal_strlit("1");
        reveal_strlit("2");
        reveal_strlit("3");
        reveal_strlit("4");
        reveal_strlit("5");
        reveal_strlit("6");
        reveal_strlit("7");
        reveal_strlit("8");
        reveal_strlit("9");
    }
    if d == 0 { "0" }
    else if d == 1 { "1" }
    else if d == 2 { "2" }
    else if d == 3 { "3" }
    else if d == 4 { "4" }
    else if d == 5 { "5" }
    else if d == 6 { "6" }
    else if d == 7 { "7" }
    else if d == 8 { "8" }
    else { "9" }
}

/// The decimal notation of `n`.
pub fn decimal_string(n: u32) -> (r: String)
    ensures
        r@ == decimal(n as nat),
    decreases n,
{
    if n < 10 {
        String::from_str(digit_str(n))
    } else {
        let mut s = decimal_string(n / 10);
        s.append(digit_str(n % 10));
        s
    }
}

/// The link of one film.
pub fn movie_link(m: &Movie) -> (r: String)
    ensures
        r@ == link(*m),
{
    match &m.imdb_id {
        Some(i) => {
            let mut s = String::from_str("https://www.imdb.com/title/");
            s.append(i.as_str());
            s
        },
        None => {
            let mut s = String::from_str("https://www.themoviedb.org/movie/");
            let n = decimal_string(m.id);
            s.append(n.as_str());
            s
        },
    }
}

/// Renders the announced films into a plain-text body and an HTML body,
/// one line and one paragraph per film, in order.
pub fn create_message_body(movies: Vec<Movie>) -> (r: (String, String))
    requires
        all_attributed(movies@),
    ensures
        r.0@ == plain_body(movies@),
        r.1@ == html_body(movies@),
{
    let mut plain = String::new();
    let mut html = String::new();
    let mut i: usize = 0;
    while i < movies.len()
        invariant
            i <= movies.len(),
            all_attributed(movies@),
            plain@ == plain_body(movies@.subrange(0, i as int)),
            html@ == html_body(movies@.subrange(0, i as int)),
        decreases movies.len() - i,
    {
        let m = &movies[i];
        let ghost s1 = movies@.subrange(0, i + 1);
        assert(s1.drop_last() =~= movies@.subrange(0, i as int));
        assert(s1.last() == *m);
        assert(m.director_name is Some);
        let director = match &m.director_name {
            Some(d) => d.as_str(),
            None => "",
        };
        let link = movie_link(m);
        let ghost p0 = plain@;
        let ghost h0 = html@;
        plain.append(link.as_str());
        plain.append(" - ");
        plain.append(m.title.as_str());
        plain.append(" - ");
        plain.append(director);
        plain.append("\n");
        assert(plain@ =~= p0 + plain_line(*m));
        html.append("<p><a href=\"");
        html.append(link.as_str());
        html.append("\">");
        html.append(m.title.as_str());
        html.append(" - ");
        html.append(director);
        html.append("</a></p>");
        assert(html@ =~= h0 + html_line(*m));
        i += 1;
    }
    assert(movies@.subrange(0, i as int) =~= movies@);
    (plain, html)
}

} // verus!
