use blog_api::handlers::{
    create_author_input, create_post_input, credentials_input, download_input, file_outcome,
    login_outcome, query_get, session_cookie, store_outcome, FileError, StoreError,
};
use blog_api::rejection::{Rejection, ValidationError};

fn q(pairs: &[(&str, &str)]) -> Vec<(String, String)> {
    pairs.iter().map(|(k, v)| (k.to_string(), v.to_string())).collect()
}

#[test]
fn status_codes_follow_the_table() {
    assert_eq!(Rejection::MissingParameter.status_code(), 400);
    assert_eq!(Rejection::InvalidInput(ValidationError::Empty).status_code(), 400);
    assert_eq!(Rejection::InvalidQuery.status_code(), 400);
    assert_eq!(Rejection::InvalidBody.status_code(), 400);
    assert_eq!(Rejection::Unauthorized.status_code(), 401);
    assert_eq!(Rejection::NoMatchingUser.status_code(), 401);
    assert_eq!(Rejection::NotFound.status_code(), 404);
    assert_eq!(Rejection::DatabaseError.status_code(), 500);
    assert_eq!(Rejection::InvalidFileType.status_code(), 415);
    assert!(Rejection::InvalidQuery.is_client_error());
    assert!(!Rejection::DatabaseError.is_client_error());
}

#[test]
fn last_duplicate_query_key_wins() {
    let query = q(&[("name", "first"), ("x", "1"), ("name", "second")]);
    assert_eq!(query_get(&query, "name"), Some("second".to_string()));
    assert_eq!(query_get(&query, "missing"), None);
}

#[test]
fn author_name_round_trips() {
    assert_eq!(create_author_input(&q(&[("name", "Ada")])), Ok("Ada".to_string()));
}

#[test]
fn empty_author_name_is_a_client_error() {
    let r = create_author_input(&q(&[("name", "")]));
    assert_eq!(r, Err(Rejection::InvalidInput(ValidationError::Empty)));
    let status = r.unwrap_err().status_code();
    assert_eq!(status, 400);
}

#[test]
fn missing_author_name() {
    assert_eq!(create_author_input(&q(&[("nam", "Ada")])), Err(Rejection::MissingParameter));
}

#[test]
fn post_input_needs_all_three_fields() {
    let r = create_post_input(&q(&[("title", "Hello"), ("body", "text")]));
    assert!(matches!(r, Err(Rejection::MissingParameter)));
    let r = create_post_input(&q(&[("body", "text"), ("author_id", "3")]));
    assert!(matches!(r, Err(Rejection::MissingParameter)));
    let r = create_post_input(&q(&[("title", "Hello"), ("body", "text"), ("author_id", "3")])).unwrap();
    assert_eq!((r.title.as_str(), r.body.as_str(), r.author_id.as_str()), ("Hello", "text", "3"));
}

#[test]
fn post_title_is_validated() {
    let r = create_post_input(&q(&[("title", "  "), ("body", "text"), ("author_id", "3")]));
    assert!(matches!(r, Err(Rejection::InvalidInput(ValidationError::Empty))));
}

#[test]
fn download_needs_post_id_and_file_name() {
    assert_eq!(download_input(&q(&[("post_id", "4")])), Err(Rejection::MissingParameter));
    assert_eq!(download_input(&q(&[("file_name", "a.png")])), Err(Rejection::MissingParameter));
    assert_eq!(
        download_input(&q(&[("post_id", "4"), ("file_name", "a.png")])),
        Ok(("4".to_string(), "a.png".to_string()))
    );
}

#[test]
fn credentials_are_checked_in_order() {
    assert_eq!(credentials_input(&q(&[("username", "bob")])), Err(Rejection::MissingParameter));
    assert_eq!(
        credentials_input(&q(&[("username", ""), ("password", "a;b")])),
        Err(Rejection::InvalidInput(ValidationError::Empty))
    );
    assert_eq!(
        credentials_input(&q(&[("username", "bob"), ("password", "a;b")])),
        Err(Rejection::InvalidInput(ValidationError::ForbiddenChar))
    );
    assert_eq!(
        credentials_input(&q(&[("password", "pw"), ("username", "bob")])),
        Ok(("bob".to_string(), "pw".to_string()))
    );
}

#[test]
fn store_failures_become_database_errors() {
    assert_eq!(store_outcome(Ok::<u8, StoreError>(3)), Ok(3));
    assert_eq!(store_outcome::<u8>(Err(StoreError::NoMatch)), Err(Rejection::DatabaseError));
    assert_eq!(store_outcome::<u8>(Err(StoreError::Failure)), Err(Rejection::DatabaseError));
}

#[test]
fn missing_post_is_a_server_class_error_not_a_panic() {
    let r = store_outcome::<String>(Err(StoreError::NoMatch));
    assert_eq!(r.unwrap_err().status_code(), 500);
}

#[test]
fn login_failures_are_told_apart() {
    assert_eq!(login_outcome::<u8>(Err(StoreError::NoMatch)), Err(Rejection::NoMatchingUser));
    assert_eq!(login_outcome::<u8>(Err(StoreError::Failure)), Err(Rejection::DatabaseError));
    assert_eq!(login_outcome(Ok::<u8, StoreError>(1)), Ok(1));
}

#[test]
fn file_errors_map_the_same_on_both_paths() {
    assert_eq!(file_outcome::<u8>(Err(FileError::InvalidFileType)), Err(Rejection::InvalidFileType));
    assert_eq!(file_outcome::<u8>(Err(FileError::Failure)), Err(Rejection::DatabaseError));
    assert_eq!(file_outcome(Ok::<u8, FileError>(9)), Ok(9));
}

#[test]
fn session_cookie_wraps_the_token() {
    assert_eq!(session_cookie("abc.def"), Some("jwt=abc.def; HttpOnly".to_string()));
    assert_eq!(session_cookie("tab\tok"), Some("jwt=tab\tok; HttpOnly".to_string()));
}

#[test]
fn session_cookie_refuses_header_breaking_tokens() {
    assert_eq!(session_cookie("abc\r\nSet-Cookie: x"), None);
    assert_eq!(session_cookie("del\u{7f}"), None);
}
