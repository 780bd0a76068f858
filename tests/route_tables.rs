use blog_api::rejection::Rejection;
use blog_api::request::{AuthStatus, Method, Request};
use blog_api::routing::{author_filter, post_filter, select, user_filter, Handler, Route, Selection};

fn req(method: Method, path: &[&str], query: Option<&[(&str, &str)]>, auth: AuthStatus, body: &str) -> Request {
    Request {
        method,
        segments: path.iter().map(|s| s.to_string()).collect(),
        query: query.map(|ps| ps.iter().map(|(k, v)| (k.to_string(), v.to_string())).collect()),
        auth,
        body: body.as_bytes().to_vec(),
    }
}

fn dispatched(routes: &Vec<Route>, r: &Request) -> Option<(Handler, Option<i16>, bool)> {
    match select(r, routes) {
        Selection::Dispatch(h, x) => Some((h, x.id, x.body.is_some())),
        Selection::Fail(_) => None,
    }
}

fn failed(routes: &Vec<Route>, r: &Request) -> Option<Rejection> {
    match select(r, routes) {
        Selection::Dispatch(_, _) => None,
        Selection::Fail(e) => Some(e),
    }
}

const OK: AuthStatus = AuthStatus::Verified;
const EMPTY: Option<&[(&str, &str)]> = Some(&[]);

#[test]
fn every_author_route_is_reachable() {
    let t = author_filter();
    let r = req(Method::Post, &["authors"], Some(&[("name", "Ada")]), OK, "");
    assert_eq!(dispatched(&t, &r), Some((Handler::CreateAuthor, None, false)));
    let r = req(Method::Get, &["authors", "12"], EMPTY, AuthStatus::Missing, "");
    assert_eq!(dispatched(&t, &r), Some((Handler::GetAuthor, Some(12), false)));
    let r = req(Method::Get, &["authors"], EMPTY, AuthStatus::Missing, "");
    assert_eq!(dispatched(&t, &r), Some((Handler::ListAuthors, None, false)));
}

#[test]
fn every_post_route_is_reachable() {
    let t = post_filter();
    let r = req(Method::Post, &["posts", "upload", "3"], EMPTY, OK, "{\"file\":\"a.png\"}");
    assert_eq!(dispatched(&t, &r), Some((Handler::UploadFiles, Some(3), true)));
    let r = req(Method::Post, &["posts"], Some(&[("title", "t")]), OK, "[]");
    assert_eq!(dispatched(&t, &r), Some((Handler::CreatePost, None, true)));
    let r = req(Method::Get, &["posts", "7"], EMPTY, AuthStatus::Missing, "");
    assert_eq!(dispatched(&t, &r), Some((Handler::GetPost, Some(7), false)));
    let r = req(Method::Get, &["posts"], EMPTY, AuthStatus::Missing, "");
    assert_eq!(dispatched(&t, &r), Some((Handler::ListPosts, None, false)));
    let r = req(Method::Post, &["posts", "delete", "5"], EMPTY, OK, "");
    assert_eq!(dispatched(&t, &r), Some((Handler::DeletePost, Some(5), false)));
    let r = req(Method::Post, &["posts", "download"], Some(&[("post_id", "1")]), OK, "");
    assert_eq!(dispatched(&t, &r), Some((Handler::DownloadFiles, None, false)));
}

#[test]
fn every_user_route_is_reachable() {
    let t = user_filter();
    let r = req(Method::Post, &["users"], Some(&[("username", "u")]), AuthStatus::Missing, "");
    assert_eq!(dispatched(&t, &r), Some((Handler::CreateUser, None, false)));
    let r = req(Method::Get, &["users", "login"], EMPTY, AuthStatus::Missing, "");
    assert_eq!(dispatched(&t, &r), Some((Handler::LoginUser, None, false)));
}

#[test]
fn create_routes_refuse_missing_or_refused_credentials() {
    for auth in [AuthStatus::Missing, AuthStatus::Refused] {
        let r = req(Method::Post, &["authors"], Some(&[("name", "Ada")]), auth, "");
        assert_eq!(failed(&author_filter(), &r), Some(Rejection::Unauthorized));
        let r = req(Method::Post, &["posts"], Some(&[("title", "t")]), auth, "{}");
        assert_eq!(failed(&post_filter(), &r), Some(Rejection::Unauthorized));
        let r = req(Method::Post, &["posts", "upload", "3"], EMPTY, auth, "{}");
        assert_eq!(failed(&post_filter(), &r), Some(Rejection::Unauthorized));
        let r = req(Method::Post, &["posts", "download"], EMPTY, auth, "");
        assert_eq!(failed(&post_filter(), &r), Some(Rejection::Unauthorized));
    }
}

#[test]
fn get_missing_post_still_reaches_its_handler() {
    let r = req(Method::Get, &["posts", "9999"], EMPTY, AuthStatus::Missing, "");
    assert_eq!(dispatched(&post_filter(), &r), Some((Handler::GetPost, Some(9999), false)));
}

#[test]
fn delete_without_cookie_is_unauthorized_and_post_stays_readable() {
    let t = post_filter();
    let r = req(Method::Post, &["posts", "delete", "5"], EMPTY, AuthStatus::Missing, "");
    let e = failed(&t, &r).unwrap();
    assert_eq!(e, Rejection::Unauthorized);
    assert_eq!(e.status_code(), 401);
    let r = req(Method::Get, &["posts", "5"], EMPTY, AuthStatus::Missing, "");
    assert_eq!(dispatched(&t, &r), Some((Handler::GetPost, Some(5), false)));
}

#[test]
fn delete_is_not_misrouted_to_get() {
    let r = req(Method::Post, &["posts", "delete", "5"], EMPTY, OK, "{}");
    assert_eq!(dispatched(&post_filter(), &r), Some((Handler::DeletePost, Some(5), false)));
}

#[test]
fn unparsable_id_is_invalid_query() {
    let r = req(Method::Get, &["authors", "abc"], EMPTY, AuthStatus::Missing, "");
    assert_eq!(failed(&author_filter(), &r), Some(Rejection::InvalidQuery));
    let r = req(Method::Get, &["posts", "70000"], EMPTY, AuthStatus::Missing, "");
    assert_eq!(failed(&post_filter(), &r), Some(Rejection::InvalidQuery));
}

#[test]
fn unknown_paths_are_not_found() {
    let r = req(Method::Get, &["comments"], EMPTY, OK, "");
    assert_eq!(failed(&author_filter(), &r), Some(Rejection::NotFound));
    let r = req(Method::Get, &["authors", "1", "extra"], EMPTY, OK, "");
    assert_eq!(failed(&author_filter(), &r), Some(Rejection::NotFound));
    let r = req(Method::Other, &["users"], EMPTY, OK, "");
    assert_eq!(failed(&user_filter(), &r), Some(Rejection::NotFound));
}

#[test]
fn create_post_needs_a_json_body() {
    let r = req(Method::Post, &["posts"], EMPTY, OK, "");
    assert_eq!(failed(&post_filter(), &r), Some(Rejection::InvalidBody));
    let r = req(Method::Post, &["posts"], EMPTY, OK, "{not json");
    assert_eq!(failed(&post_filter(), &r), Some(Rejection::InvalidBody));
}

#[test]
fn undecodable_query_is_invalid_query() {
    let r = req(Method::Post, &["users"], None, AuthStatus::Missing, "");
    assert_eq!(failed(&user_filter(), &r), Some(Rejection::InvalidQuery));
}

#[test]
fn combined_table_reaches_each_resource() {
    let t = blog_api::routing::api_routes();
    assert_eq!(t.len(), 11);
    let r = req(Method::Get, &["authors"], EMPTY, AuthStatus::Missing, "");
    assert_eq!(dispatched(&t, &r), Some((Handler::ListAuthors, None, false)));
    let r = req(Method::Post, &["posts", "delete", "2"], EMPTY, OK, "");
    assert_eq!(dispatched(&t, &r), Some((Handler::DeletePost, Some(2), false)));
    let r = req(Method::Get, &["users", "login"], Some(&[("username", "u")]), AuthStatus::Missing, "");
    assert_eq!(dispatched(&t, &r), Some((Handler::LoginUser, None, false)));
}
