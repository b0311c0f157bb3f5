//! Movie records and the in-memory view of the metadata store.
//!
//! The gateway consumes the store through a narrow read interface:
//! list every record, or fetch one by id. Records are read-only for the
//! core; handlers serialize them onto the wire.
use std::sync::Arc;
use vstd::prelude::*;

verus! {

/// The mathematical content of a movie record.
pub ghost struct MovieView {
    pub id: int,
    pub title: Seq<char>,
    pub release_year: int,
    pub file_path: Seq<char>,
    pub poster_path: Seq<char>,
    pub backdrop_path: Seq<char>,
}

/// One catalog entry, as the store hands it out.
pub struct MovieRecord {
    pub id: i32,
    pub title: String,
    pub release_year: i32,
    pub file_path: String,
    pub poster_path: String,
    pub backdrop_path: String,
}

impl View for MovieRecord {
    type V = MovieView;

    open spec fn view(&self) -> MovieView {
        MovieView {
            id: self.id as int,
            title: self.title@,
            release_year: self.release_year as int,
            file_path: self.file_path@,
            poster_path: self.poster_path@,
            backdrop_path: self.backdrop_path@,
        }
    }
}

impl DeepView for MovieRecord {
    type V = MovieView;

    open spec fn deep_view(&self) -> MovieView {
        self.view()
    }
}

impl Clone for MovieRecord {
    /// A record with the very same content.
    fn clone(&self) -> (r: Self)
        ensures
            r@ == self@,
    {
        MovieRecord {
            id: self.id,
            title: self.title.clone(),
            release_year: self.release_year,
            file_path: self.file_path.clone(),
            poster_path: self.poster_path.clone(),
            backdrop_path: self.backdrop_path.clone(),
        }
    }
}

impl PartialEq for MovieRecord {
    /// Field-for-field equality of the content.
    fn eq(&self, other: &MovieRecord) -> (r: bool) {
        self.id == other.id && self.release_year == other.release_year && self.title == other.title
            && self.file_path == other.file_path && self.poster_path == other.poster_path
            && self.backdrop_path == other.backdrop_path
    }
}

impl vstd::std_specs::cmp::PartialEqSpecImpl for MovieRecord {
    open spec fn obeys_eq_spec() -> bool {
        true
    }

    open spec fn eq_spec(&self, other: &MovieRecord) -> bool {
        self@ == other@
    }
}

/// Why the store could not answer.
#[derive(Debug, Clone, Copy, PartialEq, Eq, Structural)]
pub enum StoreError {
    /// The store could not be reached or could not run the query.
    Unavailable,
}

/// Index of the first record with the given id, or -1 if none has it.
pub open spec fn first_movie_with(movies: Seq<MovieRecord>, id: int) -> int
    decreases movies.len(),
{
    if movies.len() == 0 {
        -1
    } else if movies[0]@.id == id {
        0
    } else if first_movie_with(movies.skip(1), id) == -1 {
        -1
    } else {
        1 + first_movie_with(movies.skip(1), id)
    }
}

/// `first_movie_with` is -1 exactly when no record carries the id.
pub proof fn lemma_first_movie_none(movies: Seq<MovieRecord>, id: int)
    requires
        forall|j: int| 0 <= j < movies.len() ==> movies[j]@.id != id,
    ensures
        first_movie_with(movies, id) == -1,
    decreases movies.len(),
{
    if movies.len() > 0 {
        assert(forall|j: int|
            0 <= j < movies.skip(1).len() ==> movies.skip(1)[j] == movies[j + 1]);
        lemma_first_movie_none(movies.skip(1), id);
    }
}

/// `first_movie_with` is the first index carrying the id.
pub proof fn lemma_first_movie_is(movies: Seq<MovieRecord>, id: int, i: int)
    requires
        0 <= i < movies.len(),
        movies[i]@.id == id,
        forall|j: int| 0 <= j < i ==> movies[j]@.id != id,
    ensures
        first_movie_with(movies, id) == i,
    decreases movies.len(),
{
    if i > 0 {
        assert(movies[0]@.id != id);
        assert(forall|j: int|
            0 <= j < movies.skip(1).len() ==> movies.skip(1)[j] == movies[j + 1]);
        lemma_first_movie_is(movies.skip(1), id, i - 1);
    }
}

/// The in-memory catalog the read interface answers from.
pub struct Store {
    pub movies: Vec<MovieRecord>,
}

/// The store handle shared across request tasks; reads never mutate it.
pub type SharedDb = Arc<Store>;

impl Store {
    /// A store holding exactly the given records, in order.
    pub fn new(movies: Vec<MovieRecord>) -> (s: Store)
        ensures
            s.movies == movies,
    {
        Store { movies }
    }

    /// A shared handle to this store.
    pub fn into_shared(self) -> (s: SharedDb)
        ensures
            *s == self,
    {
        Arc::new(self)
    }

    /// Every record of the catalog, in catalog order.
    #[verifier::loop_isolation(false)]
    pub fn list_movies(&self) -> (r: Result<Vec<MovieRecord>, StoreError>)
        ensures
            match r {
                Ok(list) => list.deep_view() == self.movies.deep_view(),
                Err(_) => false,
            },
    {
        let mut list: Vec<MovieRecord> = Vec::new();
        let n = self.movies.len();
        let mut i: usize = 0;
        while i < n
            invariant
                0 <= i <= n == self.movies.len(),
                list@.len() == i,
                forall|j: int| 0 <= j < i ==> list@[j]@ == self.movies@[j]@,
            decreases n - i,
        {
            list.push(self.movies[i].clone());
            i += 1;
        }
        proof {
            assert(list.deep_view() =~= self.movies.deep_view());
        }
        Ok(list)
    }

    /// The first record with the given id, if the catalog holds one.
    #[verifier::loop_isolation(false)]
    pub fn get_movie(&self, id: i32) -> (r: Result<Option<MovieRecord>, StoreError>)
        ensures
            ({
                let i = first_movie_with(self.movies@, id as int);
                match r {
                    Ok(Some(m)) => i >= 0 && m@ == self.movies@[i]@,
                    Ok(None) => i == -1,
                    Err(_) => false,
                }
            }),
    {
        let n = self.movies.len();
        let mut i: usize = 0;
        while i < n
            invariant
                0 <= i <= n == self.movies.len(),
                forall|j: int| 0 <= j < i ==> self.movies@[j]@.id != id,
            decreases n - i,
        {
            if self.movies[i].id == id {
                proof {
                    lemma_first_movie_is(self.movies@, id as int, i as int);
                }
                return Ok(Some(self.movies[i].clone()));
            }
            i += 1;
        }
        proof {
            lemma_first_movie_none(self.movies@, id as int);
        }
        Ok(None)
    }
}

} // verus!
