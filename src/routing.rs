//! Route tables: each route is an explicit sequence of stages ending in a
//! handler, and a table tries its routes top to bottom.
use vstd::prelude::*;
use crate::outside::{json_accepts, parse_json};
use crate::rejection::Rejection;
use crate::request::{parse_i16, parse_i16_spec, text_eq, AuthStatus, Method, Request};

verus! {

/// One step of a route's pipeline.
#[derive(Clone, Copy, Debug, PartialEq, Eq)]
pub enum Stage {
    /// The request's method must be this one.
    Method(Method),
    /// The next path segment must be this literal.
    Literal(&'static str),
    /// The next path segment is a numeric id; an unparsable one is
    /// rejected with `InvalidQuery`.
    Id,
    /// No path segment may remain.
    End,
    /// The credential must have been verified, else `Unauthorized`.
    Auth,
    /// The query string must have been decoded, else `InvalidQuery`.
    Query,
    /// The body must be a JSON document, else `InvalidBody`.
    JsonBody,
}

/// The operation a route ends in.
#[derive(Clone, Copy, Debug, PartialEq, Eq, Structural)]
pub enum Handler {
    ListAuthors,
    GetAuthor,
    CreateAuthor,
    ListPosts,
    GetPost,
    CreatePost,
    DeletePost,
    UploadFiles,
    DownloadFiles,
    CreateUser,
    LoginUser,
}

pub struct Route {
    pub stages: Vec<Stage>,
    pub handler: Handler,
}

/// The values a route's stages extracted: the numeric id, if a stage read
/// one, and the parsed body, if a stage read it.
pub struct Extracted {
    pub id: Option<i16>,
    pub body: Option<serde_json::Value>,
}

/// The outcome of trying one route.
pub enum Attempt {
    /// The method or path did not fit the route.
    NoMatch,
    /// Method and path fit as far as checked, but a stage refused.
    Rejected(Rejection),
    /// Every stage succeeded.
    Matched(Extracted),
}

/// An attempt as the contracts see it: the body only by its presence.
#[derive(PartialEq, Eq, Structural)]
pub enum AttemptView {
    NoMatch,
    Rejected(Rejection),
    Matched(Option<i16>, bool),
}

impl View for Attempt {
    type V = AttemptView;

    open spec fn view(&self) -> AttemptView {
        match self {
            Attempt::NoMatch => AttemptView::NoMatch,
            Attempt::Rejected(r) => AttemptView::Rejected(*r),
            Attempt::Matched(x) => AttemptView::Matched(x.id, x.body is Some),
        }
    }
}

/// The outcome of a whole table.
pub enum Selection {
    Dispatch(Handler, Extracted),
    Fail(Rejection),
}

#[derive(PartialEq, Eq, Structural)]
pub enum SelectionView {
    Dispatch(Handler, Option<i16>, bool),
    Fail(Rejection),
}

impl View for Selection {
    type V = SelectionView;

    open spec fn view(&self) -> SelectionView {
        match self {
            Selection::Dispatch(h, x) => SelectionView::Dispatch(*h, x.id, x.body is Some),
            Selection::Fail(r) => SelectionView::Fail(*r),
        }
    }
}

/// Runs `stages[i..]` with `pos` path segments consumed so far, `id` the
/// last id read and `body` whether the body was parsed.
pub open spec fn run(
    req: Request,
    stages: Seq<Stage>,
    i: int,
    pos: int,
    id: Option<i16>,
    body: bool,
) -> AttemptView
    decreases stages.len() - i,
{
    if i < 0 || i >= stages.len() {
        AttemptView::Matched(id, body)
    } else {
        let segs = req.segments@;
        match stages[i] {
            Stage::Method(m) => if req.method == m {
                run(req, stages, i + 1, pos, id, body)
            } else {
                AttemptView::NoMatch
            },
            Stage::Literal(l) => if 0 <= pos < segs.len() && segs[pos]@ == l@ {
                run(req, stages, i + 1, pos + 1, id, body)
            } else {
                AttemptView::NoMatch
            },
            Stage::Id => if 0 <= pos < segs.len() {
                match parse_i16_spec(segs[pos]@) {
                    Some(v) => run(req, stages, i + 1, pos + 1, Some(v), body),
                    None => AttemptView::Rejected(Rejection::InvalidQuery),
                }
            } else {
                AttemptView::NoMatch
            },
            Stage::End => if pos == segs.len() {
                run(req, stages, i + 1, pos, id, body)
            } else {
                AttemptView::NoMatch
            },
            Stage::Auth => if req.auth == AuthStatus::Verified {
                run(req, stages, i + 1, pos, id, body)
            } else {
                AttemptView::Rejected(Rejection::Unauthorized)
            },
            Stage::Query => if req.query is Some {
                run(req, stages, i + 1, pos, id, body)
            } else {
                AttemptView::Rejected(Rejection::InvalidQuery)
            },
            Stage::JsonBody => if json_accepts(req.body@) {
                run(req, stages, i + 1, pos, id, true)
            } else {
                AttemptView::Rejected(Rejection::InvalidBody)
            },
        }
    }
}

/// Trying one route from its first stage.
pub open spec fn try_route(req: Request, stages: Seq<Stage>) -> AttemptView {
    run(req, stages, 0, 0, None, false)
}

/// Runs the stages of one route in order; the first refusing stage ends
/// the attempt.
pub fn attempt(req: &Request, stages: &Vec<Stage>) -> (r: Attempt)
    ensures
        r@ == try_route(*req, stages@),
{
    let mut i: usize = 0;
    let mut pos: usize = 0;
    let mut id: Option<i16> = None;
    let mut body: Option<serde_json::Value> = None;
    while i < stages.len()
        invariant
            i <= stages@.len(),
            pos <= req.segments@.len(),
            try_route(*req, stages@) == run(*req, stages@, i as int, pos as int, id, body is Some),
        decreases stages@.len() - i,
    {
        let st = stages[i];
        match st {
            Stage::Method(m) => {
                if req.method != m {
                    return Attempt::NoMatch;
                }
            },
            Stage::Literal(l) => {
                if pos < req.segments.len() && text_eq(req.segments[pos].as_str(), l) {
                    pos = pos + 1;
                } else {
                    return Attempt::NoMatch;
                }
            },
            Stage::Id => {
                if pos < req.segments.len() {
                    match parse_i16(req.segments[pos].as_str()) {
                        Some(v) => {
                            id = Some(v);
                            pos = pos + 1;
                        },
                        None => {
                            return Attempt::Rejected(Rejection::InvalidQuery);
                        },
                    }
                } else {
                    return Attempt::NoMatch;
                }
            },
            Stage::End => {
                if pos != req.segments.len() {
                    return Attempt::NoMatch;
                }
            },
            Stage::Auth => {
                match req.auth {
                    AuthStatus::Verified => {},
                    _ => {
                        return Attempt::Rejected(Rejection::Unauthorized);
                    },
                }
            },
            Stage::Query => {
                if req.query.is_none() {
                    return Attempt::Rejected(Rejection::InvalidQuery);
                }
            },
            Stage::JsonBody => {
                match parse_json(req.body.as_slice()) {
                    Some(v) => {
                        body = Some(v);
                    },
                    None => {
                        return Attempt::Rejected(Rejection::InvalidBody);
                    },
                }
            },
        }
        i = i + 1;
    }
    Attempt::Matched(Extracted { id, body })
}

/// A table as the contracts see it: each route's stages and handler.
pub open spec fn table_view(routes: Seq<Route>) -> Seq<(Seq<Stage>, Handler)> {
    routes.map_values(|r: Route| (r.stages@, r.handler))
}

/// Tries `routes[k..]` in order. The first route whose stages all succeed
/// is dispatched. When none does, the first rejection met (`first`, or a
/// later one) is the answer, and `NotFound` when no route got past its
/// method and path.
pub open spec fn select_from(
    req: Request,
    routes: Seq<(Seq<Stage>, Handler)>,
    k: int,
    first: Option<Rejection>,
) -> SelectionView
    decreases routes.len() - k,
{
    if k < 0 || k >= routes.len() {
        match first {
            Some(r) => SelectionView::Fail(r),
            None => SelectionView::Fail(Rejection::NotFound),
        }
    } else {
        match try_route(req, routes[k].0) {
            AttemptView::Matched(id, b) => SelectionView::Dispatch(routes[k].1, id, b),
            AttemptView::Rejected(r) => select_from(
                req,
                routes,
                k + 1,
                if first is Some {
                    first
                } else {
                    Some(r)
                },
            ),
            AttemptView::NoMatch => select_from(req, routes, k + 1, first),
        }
    }
}

/// What a table answers for a request.
pub open spec fn selection(req: Request, routes: Seq<(Seq<Stage>, Handler)>) -> SelectionView {
    select_from(req, routes, 0, None)
}

/// Tries the routes of a table in their declared order (first full match
/// wins); see `select_from`.
pub fn select(req: &Request, routes: &Vec<Route>) -> (r: Selection)
    ensures
        r@ == selection(*req, table_view(routes@)),
{
    let ghost t = table_view(routes@);
    let mut first: Option<Rejection> = None;
    let mut k: usize = 0;
    while k < routes.len()
        invariant
            k <= routes@.len(),
            t == table_view(routes@),
            selection(*req, t) == select_from(*req, t, k as int, first),
        decreases routes@.len() - k,
    {
        let a = attempt(req, &routes[k].stages);
        assert(t[k as int] == (routes@[k as int].stages@, routes@[k as int].handler));
        match a {
            Attempt::Matched(x) => {
                return Selection::Dispatch(routes[k].handler, x);
            },
            Attempt::Rejected(r) => {
                if first.is_none() {
                    first = Some(r);
                }
            },
            Attempt::NoMatch => {},
        }
        k = k + 1;
    }
    match first {
        Some(r) => Selection::Fail(r),
        None => Selection::Fail(Rejection::NotFound),
    }
}

pub open spec fn author_table() -> Seq<(Seq<Stage>, Handler)> {
    seq![
        (seq![Stage::Method(Method::Post), Stage::Literal("authors"), Stage::Auth, Stage::Query, Stage::End], Handler::CreateAuthor),
        (seq![Stage::Method(Method::Get), Stage::Literal("authors"), Stage::Id, Stage::End], Handler::GetAuthor),
        (seq![Stage::Method(Method::Get), Stage::Literal("authors"), Stage::End], Handler::ListAuthors),
    ]
}

pub open spec fn post_table() -> Seq<(Seq<Stage>, Handler)> {
    seq![
        (seq![Stage::Method(Method::Post), Stage::Literal("posts"), Stage::Literal("upload"), Stage::Id, Stage::Auth, Stage::JsonBody], Handler::UploadFiles),
        (seq![Stage::Method(Method::Post), Stage::Literal("posts"), Stage::Auth, Stage::Query, Stage::JsonBody, Stage::End], Handler::CreatePost),
        (seq![Stage::Method(Method::Get), Stage::Literal("posts"), Stage::Id, Stage::End], Handler::GetPost),
        (seq![Stage::Method(Method::Get), Stage::Literal("posts"), Stage::End], Handler::ListPosts),
        (seq![Stage::Method(Method::Post), Stage::Literal("posts"), Stage::Literal("delete"), Stage::Auth, Stage::Id, Stage::End], Handler::DeletePost),
        (seq![Stage::Method(Method::Post), Stage::Literal("posts"), Stage::Literal("download"), Stage::Query, Stage::End, Stage::Auth], Handler::DownloadFiles),
    ]
}

pub open spec fn user_table() -> Seq<(Seq<Stage>, Handler)> {
    seq![
        (seq![Stage::Method(Method::Post), Stage::Literal("users"), Stage::Query, Stage::End], Handler::CreateUser),
        (seq![Stage::Method(Method::Get), Stage::Literal("users"), Stage::Literal("login"), Stage::Query, Stage::End], Handler::LoginUser),
    ]
}

/// The routes of `/authors`: create (authenticated), get by id, list.
pub fn author_filter() -> (r: Vec<Route>)
    ensures
        table_view(r@) == author_table(),
{
    let r = vec![
        Route {
            stages: vec![Stage::Method(Method::Post), Stage::Literal("authors"), Stage::Auth, Stage::Query, Stage::End],
            handler: Handler::CreateAuthor,
        },
        Route {
            stages: vec![Stage::Method(Method::Get), Stage::Literal("authors"), Stage::Id, Stage::End],
            handler: Handler::GetAuthor,
        },
        Route {
            stages: vec![Stage::Method(Method::Get), Stage::Literal("authors"), Stage::End],
            handler: Handler::ListAuthors,
        },
    ];
    assert(table_view(r@) =~= author_table());
    r
}

/// The routes of `/posts`: upload (authenticated), create
/// (authenticated), get by id, list, delete (authenticated), download
/// (authenticated), in that order.
pub fn post_filter() -> (r: Vec<Route>)
    ensures
        table_view(r@) == post_table(),
{
    let r = vec![
        Route {
            stages: vec![
                Stage::Method(Method::Post),
                Stage::Literal("posts"),
                Stage::Literal("upload"),
                Stage::Id,
                Stage::Auth,
                Stage::JsonBody,
            ],
            handler: Handler::UploadFiles,
        },
        Route {
            stages: vec![
                Stage::Method(Method::Post),
                Stage::Literal("posts"),
                Stage::Auth,
                Stage::Query,
                Stage::JsonBody,
                Stage::End,
            ],
            handler: Handler::CreatePost,
        },
        Route {
            stages: vec![Stage::Method(Method::Get), Stage::Literal("posts"), Stage::Id, Stage::End],
            handler: Handler::GetPost,
        },
        Route {
            stages: vec![Stage::Method(Method::Get), Stage::Literal("posts"), Stage::End],
            handler: Handler::ListPosts,
        },
        Route {
            stages: vec![
                Stage::Method(Method::Post),
                Stage::Literal("posts"),
                Stage::Literal("delete"),
                Stage::Auth,
                Stage::Id,
                Stage::End,
            ],
            handler: Handler::DeletePost,
        },
        Route {
            stages: vec![
                Stage::Method(Method::Post),
                Stage::Literal("posts"),
                Stage::Literal("download"),
                Stage::Query,
                Stage::End,
                Stage::Auth,
            ],
            handler: Handler::DownloadFiles,
        },
    ];
    assert(table_view(r@) =~= post_table());
    r
}

/// The routes of `/users`: registration, then login.
pub fn user_filter() -> (r: Vec<Route>)
    ensures
        table_view(r@) == user_table(),
{
    let r = vec![
        Route {
            stages: vec![Stage::Method(Method::Post), Stage::Literal("users"), Stage::Query, Stage::End],
            handler: Handler::CreateUser,
        },
        Route {
            stages: vec![
                Stage::Method(Method::Get),
                Stage::Literal("users"),
                Stage::Literal("login"),
                Stage::Query,
                Stage::End,
            ],
            handler: Handler::LoginUser,
        },
    ];
    assert(table_view(r@) =~= user_table());
    r
}

/// Every route of the service: the author routes, then the post routes,
/// then the user routes.
pub fn api_routes() -> (r: Vec<Route>)
    ensures
        table_view(r@) == author_table() + post_table() + user_table(),
{
    let mut r = author_filter();
    let mut p = post_filter();
    let mut u = user_filter();
    r.append(&mut p);
    r.append(&mut u);
    assert(table_view(r@) =~= author_table() + post_table() + user_table());
    r
}

/// Route `j` is the first of the table whose stages all succeed.
pub open spec fn first_matching(req: Request, routes: Seq<(Seq<Stage>, Handler)>, j: int) -> bool {
    &&& 0 <= j < routes.len()
    &&& try_route(req, routes[j].0) is Matched
    &&& forall|l: int| 0 <= l < j ==> !(#[trigger] try_route(req, routes[l].0) is Matched)
}

proof fn lemma_select_scan(
    req: Request,
    routes: Seq<(Seq<Stage>, Handler)>,
    i: int,
    first: Option<Rejection>,
    k: int,
)
    requires
        0 <= i <= k < routes.len(),
        try_route(req, routes[k].0) is Matched,
        forall|l: int| 0 <= l < i ==> !(#[trigger] try_route(req, routes[l].0) is Matched),
    ensures
        exists|j: int|
            i <= j <= k && first_matching(req, routes, j) && select_from(req, routes, i, first)
                == SelectionView::Dispatch(
                routes[j].1,
                try_route(req, routes[j].0)->Matched_0,
                try_route(req, routes[j].0)->Matched_1,
            ),
    decreases k - i,
{
    match try_route(req, routes[i].0) {
        AttemptView::Matched(_, _) => {
            assert(first_matching(req, routes, i));
        },
        AttemptView::Rejected(r) => {
            let f = if first is Some {
                first
            } else {
                Some(r)
            };
            lemma_select_scan(req, routes, i + 1, f, k);
        },
        AttemptView::NoMatch => {
            lemma_select_scan(req, routes, i + 1, first, k);
        },
    }
}

/// A request that fully satisfies some route of a table reaches exactly
/// one handler, that of the first fully satisfied route, with the values
/// that route extracted, and never falls through to a rejection.
pub proof fn matched_route_is_dispatched(req: Request, routes: Seq<(Seq<Stage>, Handler)>, k: int)
    requires
        0 <= k < routes.len(),
        try_route(req, routes[k].0) is Matched,
    ensures
        selection(req, routes) is Dispatch,
        exists|j: int|
            0 <= j <= k && first_matching(req, routes, j) && selection(req, routes)
                == SelectionView::Dispatch(
                routes[j].1,
                try_route(req, routes[j].0)->Matched_0,
                try_route(req, routes[j].0)->Matched_1,
            ),
{
    lemma_select_scan(req, routes, 0, None, k);
}

proof fn lemma_auth_blocks(
    req: Request,
    stages: Seq<Stage>,
    i: int,
    pos: int,
    id: Option<i16>,
    body: bool,
    j: int,
)
    requires
        0 <= i <= j < stages.len(),
        stages[j] == Stage::Auth,
        req.auth != AuthStatus::Verified,
    ensures
        !(run(req, stages, i, pos, id, body) is Matched),
    decreases j - i,
{
    if i < j {
        let segs = req.segments@;
        match stages[i] {
            Stage::Literal(_) => lemma_auth_blocks(req, stages, i + 1, pos + 1, id, body, j),
            Stage::Id => if 0 <= pos < segs.len() {
                match parse_i16_spec(segs[pos]@) {
                    Some(v) => lemma_auth_blocks(req, stages, i + 1, pos + 1, Some(v), body, j),
                    None => {},
                }
            },
            Stage::JsonBody => lemma_auth_blocks(req, stages, i + 1, pos, id, true, j),
            _ => lemma_auth_blocks(req, stages, i + 1, pos, id, body, j),
        }
    }
}

proof fn lemma_guarded_scan(
    req: Request,
    routes: Seq<(Seq<Stage>, Handler)>,
    h: Handler,
    i: int,
    first: Option<Rejection>,
)
    requires
        0 <= i <= routes.len(),
        req.auth != AuthStatus::Verified,
        forall|k: int|
            0 <= k < routes.len() && #[trigger] routes[k].1 == h ==> exists|j: int|
                0 <= j < routes[k].0.len() && routes[k].0[j] == Stage::Auth,
    ensures
        !(select_from(req, routes, i, first) is Dispatch && select_from(req, routes, i, first)->Dispatch_0
            == h),
    decreases routes.len() - i,
{
    if i < routes.len() {
        if routes[i].1 == h {
            let j = choose|j: int| 0 <= j < routes[i].0.len() && routes[i].0[j] == Stage::Auth;
            lemma_auth_blocks(req, routes[i].0, 0, 0, None, false, j);
        }
        match try_route(req, routes[i].0) {
            AttemptView::Rejected(r) => {
                let f = if first is Some {
                    first
                } else {
                    Some(r)
                };
                lemma_guarded_scan(req, routes, h, i + 1, f);
            },
            AttemptView::NoMatch => lemma_guarded_scan(req, routes, h, i + 1, first),
            _ => {},
        }
    }
}

/// A request without a verified credential is never dispatched to a
/// handler all of whose routes hold an authentication stage.
pub proof fn unauthenticated_never_dispatched(
    req: Request,
    routes: Seq<(Seq<Stage>, Handler)>,
    h: Handler,
)
    requires
        req.auth != AuthStatus::Verified,
        forall|k: int|
            0 <= k < routes.len() && #[trigger] routes[k].1 == h ==> exists|j: int|
                0 <= j < routes[k].0.len() && routes[k].0[j] == Stage::Auth,
    ensures
        !(selection(req, routes) is Dispatch && selection(req, routes)->Dispatch_0 == h),
{
    lemma_guarded_scan(req, routes, h, 0, None);
}

/// The handlers that change or hand out stored data.
pub open spec fn is_guarded(h: Handler) -> bool {
    ||| h == Handler::CreateAuthor
    ||| h == Handler::CreatePost
    ||| h == Handler::DeletePost
    ||| h == Handler::UploadFiles
    ||| h == Handler::DownloadFiles
}

/// Without a verified credential, neither the author table nor the post
/// table dispatches a request to a creating, deleting, uploading or
/// downloading handler, so such a request never reaches persistence.
pub proof fn guarded_handlers_need_credential(req: Request, h: Handler)
    requires
        req.auth != AuthStatus::Verified,
        is_guarded(h),
    ensures
        !(selection(req, author_table()) is Dispatch && selection(req, author_table())->Dispatch_0
            == h),
        !(selection(req, post_table()) is Dispatch && selection(req, post_table())->Dispatch_0 == h),
{
    let a = author_table();
    let p = post_table();
    assert forall|k: int| 0 <= k < a.len() && #[trigger] a[k].1 == h implies exists|j: int|
        0 <= j < a[k].0.len() && a[k].0[j] == Stage::Auth by {
        assert(a[0].0[2] == Stage::Auth);
    }
    assert forall|k: int| 0 <= k < p.len() && #[trigger] p[k].1 == h implies exists|j: int|
        0 <= j < p[k].0.len() && p[k].0[j] == Stage::Auth by {
        assert(p[0].0[4] == Stage::Auth);
        assert(p[1].0[2] == Stage::Auth);
        assert(p[4].0[3] == Stage::Auth);
        assert(p[5].0[5] == Stage::Auth);
    }
    unauthenticated_never_dispatched(req, a, h);
    unauthenticated_never_dispatched(req, p, h);
}

/// The request `POST /posts/delete/{n}`.
pub open spec fn is_delete_request(req: Request) -> bool {
    &&& req.method == Method::Post
    &&& req.segments@.len() == 3
    &&& req.segments@[0]@ == "posts"@
    &&& req.segments@[1]@ == "delete"@
}

proof fn lemma_literals_differ()
    ensures
        "upload"@ != "delete"@,
        "download"@ != "delete"@,
        "posts"@.len() == 5,
{
    reveal_strlit("upload");
    reveal_strlit("delete");
    reveal_strlit("download");
    reveal_strlit("posts");
    assert("upload"@[0] != "delete"@[0]);
    assert("download"@.len() != "delete"@.len());
}

/// With a verified credential, `POST /posts/delete/{n}` reaches the delete
/// handler with id `n`: the routes declared before it (upload, create,
/// get, list) do not take it, though get also ends in a numeric segment.
pub proof fn delete_route_is_not_misrouted(req: Request, n: i16)
    requires
        is_delete_request(req),
        parse_i16_spec(req.segments@[2]@) == Some(n),
        req.auth == AuthStatus::Verified,
    ensures
        selection(req, post_table()) == SelectionView::Dispatch(Handler::DeletePost, Some(n), false),
{
    lemma_literals_differ();
    reveal_with_fuel(run, 8);
    reveal_with_fuel(select_from, 7);
    let p = post_table();
    assert(try_route(req, p[0].0) == AttemptView::NoMatch);
    assert(!(try_route(req, p[1].0) is Matched));
    assert(try_route(req, p[2].0) == AttemptView::NoMatch);
    assert(try_route(req, p[3].0) == AttemptView::NoMatch);
    assert(try_route(req, p[4].0) == AttemptView::Matched(Some(n), false));
}

/// Without a verified credential, `POST /posts/delete/{n}` is answered
/// `Unauthorized` and no handler runs.
pub proof fn delete_without_credential_is_unauthorized(req: Request)
    requires
        is_delete_request(req),
        req.auth != AuthStatus::Verified,
    ensures
        selection(req, post_table()) == SelectionView::Fail(Rejection::Unauthorized),
{
    lemma_literals_differ();
    reveal_with_fuel(run, 8);
    reveal_with_fuel(select_from, 7);
    let p = post_table();
    assert(try_route(req, p[0].0) == AttemptView::NoMatch);
    assert(try_route(req, p[1].0) == AttemptView::Rejected(Rejection::Unauthorized));
    assert(try_route(req, p[2].0) == AttemptView::NoMatch);
    assert(try_route(req, p[3].0) == AttemptView::NoMatch);
    assert(try_route(req, p[4].0) == AttemptView::Rejected(Rejection::Unauthorized));
    assert(try_route(req, p[5].0) == AttemptView::NoMatch);
}

/// Handlers whose routes read a numeric id from the path.
pub open spec fn reads_id(h: Handler) -> bool {
    ||| h == Handler::GetAuthor
    ||| h == Handler::GetPost
    ||| h == Handler::DeletePost
    ||| h == Handler::UploadFiles
}

/// Handlers whose routes parse the body.
pub open spec fn reads_body(h: Handler) -> bool {
    h == Handler::CreatePost || h == Handler::UploadFiles
}

proof fn lemma_run_keeps(req: Request, stages: Seq<Stage>, i: int, pos: int, id: Option<i16>, body: bool)
    requires
        0 <= i,
    ensures
        run(req, stages, i, pos, id, body) is Matched ==> (id is Some ==> run(
            req,
            stages,
            i,
            pos,
            id,
            body,
        )->Matched_0 is Some) && (body ==> run(req, stages, i, pos, id, body)->Matched_1),
    decreases stages.len() - i,
{
    if i < stages.len() {
        let segs = req.segments@;
        match stages[i] {
            Stage::Literal(_) => lemma_run_keeps(req, stages, i + 1, pos + 1, id, body),
            Stage::Id => if 0 <= pos < segs.len() {
                match parse_i16_spec(segs[pos]@) {
                    Some(v) => lemma_run_keeps(req, stages, i + 1, pos + 1, Some(v), body),
                    None => {},
                }
            },
            Stage::JsonBody => lemma_run_keeps(req, stages, i + 1, pos, id, true),
            _ => lemma_run_keeps(req, stages, i + 1, pos, id, body),
        }
    }
}

proof fn lemma_run_reads(
    req: Request,
    stages: Seq<Stage>,
    i: int,
    pos: int,
    id: Option<i16>,
    body: bool,
    j: int,
)
    requires
        0 <= i <= j < stages.len(),
    ensures
        stages[j] == Stage::Id && run(req, stages, i, pos, id, body) is Matched ==> run(
            req,
            stages,
            i,
            pos,
            id,
            body,
        )->Matched_0 is Some,
        stages[j] == Stage::JsonBody && run(req, stages, i, pos, id, body) is Matched ==> run(
            req,
            stages,
            i,
            pos,
            id,
            body,
        )->Matched_1,
    decreases j - i,
{
    let segs = req.segments@;
    if i == j {
        match stages[i] {
            Stage::Id => if 0 <= pos < segs.len() {
                match parse_i16_spec(segs[pos]@) {
                    Some(v) => lemma_run_keeps(req, stages, i + 1, pos + 1, Some(v), body),
                    None => {},
                }
            },
            Stage::JsonBody => lemma_run_keeps(req, stages, i + 1, pos, id, true),
            _ => {},
        }
    } else {
        match stages[i] {
            Stage::Literal(_) => lemma_run_reads(req, stages, i + 1, pos + 1, id, body, j),
            Stage::Id => if 0 <= pos < segs.len() {
                match parse_i16_spec(segs[pos]@) {
                    Some(v) => lemma_run_reads(req, stages, i + 1, pos + 1, Some(v), body, j),
                    None => {},
                }
            },
            Stage::JsonBody => lemma_run_reads(req, stages, i + 1, pos, id, true, j),
            _ => lemma_run_reads(req, stages, i + 1, pos, id, body, j),
        }
    }
}

proof fn lemma_dispatch_origin(
    req: Request,
    routes: Seq<(Seq<Stage>, Handler)>,
    i: int,
    first: Option<Rejection>,
)
    requires
        0 <= i <= routes.len(),
    ensures
        select_from(req, routes, i, first) is Dispatch ==> exists|k: int|
            i <= k < routes.len() && routes[k].1 == select_from(req, routes, i, first)->Dispatch_0
                && #[trigger] try_route(req, routes[k].0) == AttemptView::Matched(
                select_from(req, routes, i, first)->Dispatch_1,
                select_from(req, routes, i, first)->Dispatch_2,
            ),
    decreases routes.len() - i,
{
    if i < routes.len() {
        match try_route(req, routes[i].0) {
            AttemptView::Rejected(r) => {
                let f = if first is Some {
                    first
                } else {
                    Some(r)
                };
                lemma_dispatch_origin(req, routes, i + 1, f);
            },
            AttemptView::NoMatch => lemma_dispatch_origin(req, routes, i + 1, first),
            _ => {},
        }
    }
}

/// A request dispatched by the service's table carries what its handler
/// reads: an id for the get, delete and upload handlers, and a parsed body
/// for the create-post and upload handlers.
pub proof fn dispatch_carries_its_arguments(req: Request)
    ensures
        ({
            let sel = selection(req, author_table() + post_table() + user_table());
            sel is Dispatch ==> (reads_id(sel->Dispatch_0) ==> sel->Dispatch_1 is Some) && (
            reads_body(sel->Dispatch_0) ==> sel->Dispatch_2)
        }),
{
    let t = author_table() + post_table() + user_table();
    let sel = selection(req, t);
    lemma_dispatch_origin(req, t, 0, None);
    if sel is Dispatch {
        let k = choose|k: int|
            0 <= k < t.len() && t[k].1 == sel->Dispatch_0 && #[trigger] try_route(req, t[k].0)
                == AttemptView::Matched(sel->Dispatch_1, sel->Dispatch_2);
        assert(t[1] == author_table()[1]);
        assert(t[3] == post_table()[0]);
        assert(t[4] == post_table()[1]);
        assert(t[5] == post_table()[2]);
        assert(t[7] == post_table()[4]);
        if reads_id(t[k].1) {
            let j = if k == 1 {
                2int
            } else if k == 3 {
                3int
            } else if k == 5 {
                2int
            } else {
                4int
            };
            assert(t[k].0[j] == Stage::Id);
            lemma_run_reads(req, t[k].0, 0, 0, None, false, j);
        }
        if reads_body(t[k].1) {
            let j = if k == 3 {
                5int
            } else {
                4int
            };
            assert(t[k].0[j] == Stage::JsonBody);
            lemma_run_reads(req, t[k].0, 0, 0, None, false, j);
        }
    }
}

} // verus!
