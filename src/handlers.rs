//! What each handler decides around its one call to a collaborator: which
//! inputs it reads and checks beforehand, and how the collaborator's
//! outcome becomes a reply or a rejection.
use vstd::prelude::*;
use crate::outside::{header_value_accepts, is_header_text};
use crate::rejection::Rejection;
use crate::request::text_eq;
use crate::validation::{check_from, fields_view, validate, validate_all_params, validation_result};

verus! {

/// The value of `key` in a decoded query string; when the key occurs more
/// than once the last occurrence wins.
pub open spec fn query_value(q: Seq<(String, String)>, key: Seq<char>) -> Option<Seq<char>>
    decreases q.len(),
{
    if q.len() == 0 {
        None
    } else if q.last().0@ == key {
        Some(q.last().1@)
    } else {
        query_value(q.drop_last(), key)
    }
}

/// Looks `key` up in the query pairs.
pub fn query_get(q: &Vec<(String, String)>, key: &str) -> (r: Option<String>)
    ensures
        match r {
            Some(v) => query_value(q@, key@) == Some(v@),
            None => query_value(q@, key@) is None,
        },
{
    let mut i: usize = q.len();
    assert(q@.take(i as int) =~= q@);
    while i > 0
        invariant
            i <= q@.len(),
            query_value(q@, key@) == query_value(q@.take(i as int), key@),
        decreases i,
    {
        assert(q@.take(i as int).drop_last() =~= q@.take(i - 1));
        if text_eq(q[i - 1].0.as_str(), key) {
            return Some(q[i - 1].1.clone());
        }
        i = i - 1;
    }
    None
}

/// The name of a new author: `MissingParameter` without a `name`,
/// the validation failure of a bad one.
pub fn create_author_input(query: &Vec<(String, String)>) -> (r: Result<String, Rejection>)
    ensures
        match query_value(query@, "name"@) {
            None => r == Err::<String, Rejection>(Rejection::MissingParameter),
            Some(n) => match validation_result(n) {
                Ok(_) => r is Ok && r->Ok_0@ == n,
                Err(e) => r == Err::<String, Rejection>(e),
            },
        },
{
    match query_get(query, "name") {
        None => Err(Rejection::MissingParameter),
        Some(name) => match validate(name.as_str()) {
            Ok(()) => Ok(name),
            Err(e) => Err(e),
        },
    }
}

/// The query fields of a new post.
pub struct PostInput {
    pub title: String,
    pub body: String,
    pub author_id: String,
}

/// The fields of a new post: `MissingParameter` unless `title`, `body` and
/// `author_id` are all present, then the validation failure of a bad
/// title.
pub fn create_post_input(query: &Vec<(String, String)>) -> (r: Result<PostInput, Rejection>)
    ensures
        match (
            query_value(query@, "title"@),
            query_value(query@, "body"@),
            query_value(query@, "author_id"@),
        ) {
            (Some(t), Some(b), Some(a)) => match validation_result(t) {
                Ok(_) => r is Ok && r->Ok_0.title@ == t && r->Ok_0.body@ == b
                    && r->Ok_0.author_id@ == a,
                Err(e) => r == Err::<PostInput, Rejection>(e),
            },
            _ => r == Err::<PostInput, Rejection>(Rejection::MissingParameter),
        },
{
    let title = query_get(query, "title");
    let body = query_get(query, "body");
    let author_id = query_get(query, "author_id");
    match (title, body, author_id) {
        (Some(title), Some(body), Some(author_id)) => match validate(title.as_str()) {
            Ok(()) => Ok(PostInput { title, body, author_id }),
            Err(e) => Err(e),
        },
        _ => Err(Rejection::MissingParameter),
    }
}

/// The post id and file name of a download: `MissingParameter` unless both
/// are present.
pub fn download_input(query: &Vec<(String, String)>) -> (r: Result<(String, String), Rejection>)
    ensures
        match (query_value(query@, "post_id"@), query_value(query@, "file_name"@)) {
            (Some(p), Some(f)) => r is Ok && r->Ok_0.0@ == p && r->Ok_0.1@ == f,
            _ => r == Err::<(String, String), Rejection>(Rejection::MissingParameter),
        },
{
    match (query_get(query, "post_id"), query_get(query, "file_name")) {
        (Some(p), Some(f)) => Ok((p, f)),
        _ => Err(Rejection::MissingParameter),
    }
}

/// Username and password for registration and login: `MissingParameter`
/// unless both are present, then the first validation failure, username
/// first.
pub fn credentials_input(query: &Vec<(String, String)>) -> (r: Result<(String, String), Rejection>)
    ensures
        match (query_value(query@, "username"@), query_value(query@, "password"@)) {
            (Some(u), Some(p)) => match check_from(seq![u, p], 0) {
                Ok(_) => r is Ok && r->Ok_0.0@ == u && r->Ok_0.1@ == p,
                Err(e) => r == Err::<(String, String), Rejection>(e),
            },
            _ => r == Err::<(String, String), Rejection>(Rejection::MissingParameter),
        },
{
    match (query_get(query, "username"), query_get(query, "password")) {
        (Some(u), Some(p)) => {
            let fields = vec![u.clone(), p.clone()];
            let checked = validate_all_params(fields);
            assert(fields_view(fields@) =~= seq![u@, p@]);
            match checked {
                Ok(_) => Ok((u, p)),
                Err(e) => Err(e),
            }
        },
        _ => Err(Rejection::MissingParameter),
    }
}

/// How a persistence operation failed.
#[derive(Clone, Copy, Debug, PartialEq, Eq, Structural)]
pub enum StoreError {
    /// The store found no record matching the request (for a login: no
    /// user with that username and password).
    NoMatch,
    /// Any other storage failure.
    Failure,
}

/// How the file-storage collaborator failed.
#[derive(Clone, Copy, Debug, PartialEq, Eq, Structural)]
pub enum FileError {
    /// The payload or the requested file was refused.
    InvalidFileType,
    /// Any other storage failure.
    Failure,
}

/// The outcome of a list, get, create or delete handler: the store's
/// value, or `DatabaseError` whatever the store's failure.
pub fn store_outcome<T>(r: Result<T, StoreError>) -> (o: Result<T, Rejection>)
    ensures
        match r {
            Ok(v) => o == Ok::<T, Rejection>(v),
            Err(_) => o == Err::<T, Rejection>(Rejection::DatabaseError),
        },
{
    match r {
        Ok(v) => Ok(v),
        Err(_) => Err(Rejection::DatabaseError),
    }
}

/// The outcome of a login: `NoMatchingUser` when the store matched no
/// user, `DatabaseError` on any other failure.
pub fn login_outcome<T>(r: Result<T, StoreError>) -> (o: Result<T, Rejection>)
    ensures
        match r {
            Ok(v) => o == Ok::<T, Rejection>(v),
            Err(StoreError::NoMatch) => o == Err::<T, Rejection>(Rejection::NoMatchingUser),
            Err(StoreError::Failure) => o == Err::<T, Rejection>(Rejection::DatabaseError),
        },
{
    match r {
        Ok(v) => Ok(v),
        Err(StoreError::NoMatch) => Err(Rejection::NoMatchingUser),
        Err(StoreError::Failure) => Err(Rejection::DatabaseError),
    }
}

/// The outcome of an upload or download: a refused file is
/// `InvalidFileType` on either path, any other failure `DatabaseError`.
pub fn file_outcome<T>(r: Result<T, FileError>) -> (o: Result<T, Rejection>)
    ensures
        match r {
            Ok(v) => o == Ok::<T, Rejection>(v),
            Err(FileError::InvalidFileType) => o == Err::<T, Rejection>(Rejection::InvalidFileType),
            Err(FileError::Failure) => o == Err::<T, Rejection>(Rejection::DatabaseError),
        },
{
    match r {
        Ok(v) => Ok(v),
        Err(FileError::InvalidFileType) => Err(Rejection::InvalidFileType),
        Err(FileError::Failure) => Err(Rejection::DatabaseError),
    }
}

/// The `Set-Cookie` value that carries an issued token.
pub open spec fn cookie_text(token: Seq<char>) -> Seq<char> {
    "jwt="@ + token + "; HttpOnly"@
}

/// The session cookie for a token, HTTP-only; `None` when the text cannot
/// stand in a header value.
pub fn session_cookie(token: &str) -> (r: Option<String>)
    ensures
        match r {
            Some(c) => c@ == cookie_text(token@) && is_header_text(cookie_text(token@)),
            None => !is_header_text(cookie_text(token@)),
        },
{
    let mut c = String::from_str("jwt=");
    c.append(token);
    c.append("; HttpOnly");
    if header_value_accepts(c.as_str()) {
        Some(c)
    } else {
        None
    }
}

} // verus!
