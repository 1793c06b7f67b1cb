//! The favourites store: saving an image URL and listing what was saved.

use crate::error::{is_storage_failure, storage_failure, StoreError};
use crate::recency::{is_listing_of, newest_first, order_by_recency};
use crate::record::SavedDog;
use crate::sqlite::{execute, prepare, query_dogs};
use crate::text::{contains, has_substring};
use crate::url::{is_valid_dog_url, valid_dog_url};
use vstd::prelude::*;

verus! {

/// Creates the table of saved dogs unless it is there already.
pub const CREATE_TABLE: &'static str =
    "CREATE TABLE IF NOT EXISTS dogs (id INTEGER PRIMARY KEY AUTOINCREMENT, url TEXT NOT NULL UNIQUE, created_at DATETIME DEFAULT CURRENT_TIMESTAMP)";

/// Saves one URL; the table gives the row its identifier and its time.
pub const INSERT_DOG: &'static str = "INSERT INTO dogs (url) VALUES (?1)";

/// Reads every saved dog, the newest first.
pub const SELECT_DOGS: &'static str = "SELECT id, url, created_at FROM dogs ORDER BY created_at DESC";

/// What the database says when a URL is saved a second time.
pub const DUPLICATE_MARK: &'static str = "UNIQUE constraint failed";

/// Begins the text of a failure to create the table.
pub const CREATE_STEP: &'static str = "Failed to create dogs table: ";

/// Begins the text of a failure to insert.
pub const INSERT_STEP: &'static str = "Database error: ";

/// Begins the text of a failure to prepare the listing.
pub const PREPARE_STEP: &'static str = "Failed to prepare statement: ";

/// Begins the text of a failure to run the listing.
pub const QUERY_STEP: &'static str = "Failed to query dogs: ";

/// Begins the text of a failure to read a row of the listing.
pub const COLLECT_STEP: &'static str = "Failed to collect results: ";

/// A database connection in which the table of saved dogs exists.
pub struct FavoritesStore {
    conn: rusqlite::Connection,
}

impl FavoritesStore {
    /// Takes over an open connection and creates the table in it unless it exists, so that
    /// opening the same database again is harmless.
    pub fn new(conn: rusqlite::Connection) -> (opened: Result<FavoritesStore, StoreError>)
        ensures
            opened matches Err(error) ==> exists|cause: Seq<char>|
                is_storage_failure(error, CREATE_STEP@, cause),
    {
        let mut conn = conn;
        let params: Vec<String> = Vec::new();
        match execute(&mut conn, CREATE_TABLE, &params) {
            Ok(_) => Ok(FavoritesStore { conn }),
            Err(cause) => Err(storage_failure(CREATE_STEP, cause.as_str())),
        }
    }
}

/// The error that a failed insert becomes, given the database's own words for it: a
/// duplicate where they speak of the uniqueness constraint, a storage failure otherwise.
pub open spec fn is_insert_failure(error: StoreError, cause: Seq<char>) -> bool {
    if has_substring(cause, DUPLICATE_MARK@) {
        error == StoreError::DuplicateUrl
    } else {
        is_storage_failure(error, INSERT_STEP@, cause)
    }
}

/// Classifies a failed insert by the database's text for it.
pub fn insert_failure(cause: &str) -> (error: StoreError)
    ensures
        is_insert_failure(error, cause@),
{
    if contains(cause, DUPLICATE_MARK) {
        StoreError::DuplicateUrl
    } else {
        storage_failure(INSERT_STEP, cause)
    }
}

/// What is bound to the placeholders of [`INSERT_DOG`]: the URL alone, as it was given.
pub fn insert_params(image: String) -> (params: Vec<String>)
    ensures
        params@ == seq![image],
{
    let mut params: Vec<String> = Vec::new();
    params.push(image);
    params
}

/// Saves `image` as a favourite.
///
/// A URL that is not accepted is refused and the store is left as it was: no statement is
/// run. An accepted one is bound, as [`insert_params`] says, to [`INSERT_DOG`], and the
/// database decides: the save succeeds, or fails as [`insert_failure`] says of the
/// database's words.
pub fn save_dog(store: &mut FavoritesStore, image: String) -> (saved: Result<(), StoreError>)
    ensures
        !valid_dog_url(image@) ==> saved == Err::<(), StoreError>(StoreError::InvalidUrl),
        !valid_dog_url(image@) ==> *final(store) == *old(store),
        valid_dog_url(image@) ==> (saved matches Err(error) ==> exists|cause: Seq<char>|
            is_insert_failure(error, cause)),
{
    if !is_valid_dog_url(image.as_str()) {
        return Err(StoreError::InvalidUrl);
    }
    let params = insert_params(image);
    match execute(&mut store.conn, INSERT_DOG, &params) {
        Ok(_) => Ok(()),
        Err(cause) => Err(insert_failure(cause.as_str())),
    }
}

/// Every row of a listing was read.
pub open spec fn all_read(rows: Seq<Result<SavedDog, String>>) -> bool {
    forall|i: int| 0 <= i < rows.len() ==> (#[trigger] rows[i]) is Ok
}

/// The row at `at` was not read, and every row before it was.
pub open spec fn first_unread_at(rows: Seq<Result<SavedDog, String>>, at: int) -> bool {
    &&& 0 <= at < rows.len()
    &&& rows[at] is Err
    &&& all_read(rows.take(at))
}

/// The dogs of a listing whose rows were all read, in the order of the rows.
pub open spec fn dogs_read(rows: Seq<Result<SavedDog, String>>) -> Seq<SavedDog> {
    rows.map_values(|row: Result<SavedDog, String>| row->Ok_0)
}

/// The failure of a listing at its first row that was not read, with that row's text as
/// the cause.
pub open spec fn is_collect_failure(error: StoreError, rows: Seq<Result<SavedDog, String>>) -> bool {
    exists|at: int| #[trigger]
        first_unread_at(rows, at) && is_storage_failure(error, COLLECT_STEP@, rows[at]->Err_0@)
}

/// Gathers the rows of a listing: all the dogs in the order of the rows where every row was
/// read, and a storage failure for the first row that was not, with its text as the cause.
pub fn collect_rows(rows: Vec<Result<SavedDog, String>>) -> (collected: Result<
    Vec<SavedDog>,
    StoreError,
>)
    ensures
        all_read(rows@) ==> (collected matches Ok(dogs) && dogs@ == dogs_read(rows@)),
        !all_read(rows@) ==> (collected matches Err(error) && is_collect_failure(error, rows@)),
{
    let mut dogs: Vec<SavedDog> = Vec::new();
    for row in it: rows
        invariant
            it.seq() == rows@,
            all_read(rows@.take(it.index() as int)),
            dogs@ == dogs_read(rows@.take(it.index() as int)),
    {
        let ghost seen = it.index() as int;
        match row {
            Ok(dog) => {
                dogs.push(dog);
                proof {
                    assert(rows@.take(seen + 1) == rows@.take(seen).push(row));
                    assert(dogs@ == dogs_read(rows@.take(seen + 1)));
                }
            },
            Err(cause) => {
                let error = storage_failure(COLLECT_STEP, cause.as_str());
                proof {
                    assert(first_unread_at(rows@, seen));
                    assert(!(rows@[seen] is Ok));
                }
                return Err(error);
            },
        }
    }
    proof {
        assert(rows@.take(rows@.len() as int) == rows@);
    }
    Ok(dogs)
}

/// Makes a listing of the rows that the database gave: where every row was read, the dogs
/// of the rows with the latest first, none lost and none added, and as they came where they
/// came in that order; otherwise what [`collect_rows`] gives for the first row that was not
/// read.
pub fn listing_of(rows: Vec<Result<SavedDog, String>>) -> (listed: Result<Vec<SavedDog>, StoreError>)
    ensures
        all_read(rows@) ==> (listed matches Ok(dogs) && is_listing_of(dogs@, dogs_read(rows@))),
        !all_read(rows@) ==> (listed matches Err(error) && is_collect_failure(error, rows@)),
{
    match collect_rows(rows) {
        Ok(dogs) => Ok(order_by_recency(dogs)),
        Err(error) => Err(error),
    }
}

/// A failure of one of the three steps of a listing: preparing it, running it, reading a row.
pub open spec fn is_listing_failure(error: StoreError) -> bool {
    exists|cause: Seq<char>|
        {
            ||| is_storage_failure(error, PREPARE_STEP@, cause)
            ||| is_storage_failure(error, QUERY_STEP@, cause)
            ||| is_storage_failure(error, COLLECT_STEP@, cause)
        }
}

/// Lists the saved dogs, the latest first.
///
/// Which rows there are is the database's word; [`listing_of`] says what becomes of them.
/// The order is made sure of here: the rows are asked for in it, and put in it if they come
/// otherwise.
pub fn get_saved_dogs(store: &FavoritesStore) -> (listed: Result<Vec<SavedDog>, StoreError>)
    ensures
        listed matches Ok(dogs) ==> newest_first(dogs@),
        listed matches Err(error) ==> is_listing_failure(error),
{
    let mut stmt = match prepare(&store.conn, SELECT_DOGS) {
        Ok(stmt) => stmt,
        Err(cause) => {
            return Err(storage_failure(PREPARE_STEP, cause.as_str()));
        },
    };
    match query_dogs(&mut stmt) {
        Ok(rows) => listing_of(rows),
        Err(cause) => Err(storage_failure(QUERY_STEP, cause.as_str())),
    }
}

} // verus!
