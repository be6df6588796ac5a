//! The records that flow through the pipeline.
use vstd::prelude::*;

verus! {

/// A film credit as the metadata source reports it, with the fields that
/// the pipeline stamps on it later (`director_name`, `imdb_id`).
#[derive(Clone, Debug)]
pub struct Movie {
    pub id: u32,
    pub title: String,
    pub overview: String,
    pub poster_path: Option<String>,
    pub release_date: String,
    pub job: Option<String>,
    pub director_name: Option<String>,
    pub imdb_id: Option<String>,
}

/// What a details lookup returns for one film.
#[derive(Clone, Debug)]
pub struct MovieDetails {
    pub id: u32,
    pub imdb_id: Option<String>,
    pub runtime: Option<u32>,
}

/// The only job whose credits the pipeline keeps.
pub open spec fn director_job() -> Seq<char> {
    "Director"@
}

/// A credit is kept only when it is a directing credit with a known release date.
pub open spec fn is_eligible(m: Movie) -> bool {
    &&& m.job matches Some(j) && j@ == director_job()
    &&& m.release_date@.len() > 0
}

/// `m` with its director's display name stamped on it.
pub open spec fn stamped(m: Movie, name: String) -> Movie {
    Movie { director_name: Some(name), ..m }
}

/// Every film of `s` carries its director's display name.
pub open spec fn all_attributed(s: Seq<Movie>) -> bool {
    forall|i: int| 0 <= i < s.len() ==> (#[trigger] s[i]).director_name is Some
}

/// Copies an optional text field.
pub fn copy_text(o: &Option<String>) -> (r: Option<String>)
    ensures
        r == *o,
{
    match o {
        Some(s) => Some(s.clone()),
        None => None,
    }
}

impl Movie {
    /// A field-for-field copy.
    pub fn duplicate(&self) -> (r: Movie)
        ensures
            r == *self,
    {
        Movie {
            id: self.id,
            title: self.title.clone(),
            overview: self.overview.clone(),
            poster_path: copy_text(&self.poster_path),
            release_date: self.release_date.clone(),
            job: copy_text(&self.job),
            director_name: copy_text(&self.director_name),
            imdb_id: copy_text(&self.imdb_id),
        }
    }

    /// Whether this credit is a directing credit with a release date.
    pub fn is_eligible(&self) -> (r: bool)
        ensures
            r == is_eligible(*self),
    {
        let director = String::from_str("Director");
        let is_director = match &self.job {
            Some(j) => *j == director,
            None => false,
        };
        is_director && !self.release_date.as_str().is_empty()
    }
}

} // verus!
