use juri::pattern::Segment;
use juri::request::Request;
use juri::router::compile_route;
use juri::router::handle_router;
use juri::router::match_router_path;
use juri::router::MatchRoute;
use juri::router::MatchRouter;
use juri::routing::conversion_router;
use juri::routing::Router;
use std::sync::Arc;

fn request(method: &str, path: &str) -> Request {
    Request {
        method: method.to_string(),
        path: path.to_string(),
        headers: Vec::new(),
        contents: String::new(),
        params_map: Vec::new(),
        keep_alive: false,
    }
}

fn params(request: &Request) -> Vec<(String, String)> {
    request.params_map.clone()
}

#[test]
fn get_user_id_round_trip() {
    let mut router = Router::new();
    router.get("/user/:id", 7);
    let table = Arc::new(conversion_router(router));
    let mut req = request("GET", "/user/42");
    let handler = handle_router(&mut req, Arc::clone(&table));
    assert_eq!(handler, Some(7));
    assert_eq!(params(&req), vec![("id".to_string(), "42".to_string())]);
}

#[test]
fn first_match_wins_on_overlap() {
    let mut router = Router::new();
    router.get("/files/:name", 1);
    router.get("/files/readme", 2);
    let table = Arc::new(conversion_router(router));
    let mut req = request("GET", "/files/readme");
    assert_eq!(handle_router(&mut req, Arc::clone(&table)), Some(1));
    assert_eq!(
        params(&req),
        vec![("name".to_string(), "readme".to_string())]
    );
}

#[test]
fn later_route_reached_when_earlier_does_not_match() {
    let mut router = Router::new();
    router.get("/files/readme", 2);
    router.get("/files/:name", 1);
    let table = Arc::new(conversion_router(router));
    let mut req = request("GET", "/files/notes");
    assert_eq!(handle_router(&mut req, Arc::clone(&table)), Some(1));
    let mut req2 = request("GET", "/files/readme");
    assert_eq!(handle_router(&mut req2, Arc::clone(&table)), Some(2));
}

#[test]
fn captures_are_the_exact_path_pieces() {
    let mut router = Router::new();
    router.get("/:a/mid/:b", 3);
    let table = Arc::new(conversion_router(router));
    let mut req = request("GET", "/x/mid/yz");
    assert_eq!(handle_router(&mut req, Arc::clone(&table)), Some(3));
    assert_eq!(
        params(&req),
        vec![
            ("a".to_string(), "x".to_string()),
            ("b".to_string(), "yz".to_string())
        ]
    );
}

// The registration surface tags a `post` registration POST, so a route
// registered through `post` answers POST requests and not GET requests.
#[test]
fn post_routes_answer_post_not_get() {
    let mut router = Router::new();
    router.post("/submit", 4);
    let table = Arc::new(conversion_router(router));
    let mut post_req = request("POST", "/submit");
    assert_eq!(handle_router(&mut post_req, Arc::clone(&table)), Some(4));
    let mut get_req = request("GET", "/submit");
    assert_eq!(handle_router(&mut get_req, Arc::clone(&table)), None);
}

#[test]
fn unknown_method_matches_nothing() {
    let mut router = Router::new();
    router.get("/user/:id", 7);
    let table = Arc::new(conversion_router(router));
    let mut req = request("PUT", "/user/42");
    assert_eq!(handle_router(&mut req, Arc::clone(&table)), None);
    assert_eq!(params(&req), Vec::<(String, String)>::new());
}

#[test]
fn no_match_leaves_request_unchanged() {
    let mut router = Router::new();
    router.get("/user/:id", 7);
    let table = Arc::new(conversion_router(router));
    let mut req = request("GET", "/user/42/extra");
    assert_eq!(handle_router(&mut req, Arc::clone(&table)), None);
    assert_eq!(params(&req), Vec::<(String, String)>::new());
}

#[test]
fn placeholder_requires_a_nonempty_piece() {
    let mut router = Router::new();
    router.get("/user/:id", 7);
    let table = Arc::new(conversion_router(router));
    let mut req = request("GET", "/user/");
    assert_eq!(handle_router(&mut req, Arc::clone(&table)), None);
}

#[test]
fn trailing_slash_is_significant() {
    let mut router = Router::new();
    router.get("/user", 1);
    router.get("/user/", 2);
    let table = Arc::new(conversion_router(router));
    let mut req = request("GET", "/user/");
    assert_eq!(handle_router(&mut req, Arc::clone(&table)), Some(2));
    let mut req2 = request("GET", "/user");
    assert_eq!(handle_router(&mut req2, Arc::clone(&table)), Some(1));
}

#[test]
fn extra_names_beyond_captures_are_left_unset() {
    let route: MatchRoute = (
        vec![
            Segment::Literal(String::new()),
            Segment::Literal("a".to_string()),
            Segment::Wildcard,
        ],
        vec!["x".to_string(), "y".to_string()],
        9,
    );
    let matched = match_router_path(&route, "/a/b".to_string());
    assert_eq!(
        matched,
        Some(vec![("x".to_string(), "b".to_string())])
    );
}

#[test]
fn extra_captures_beyond_names_are_ignored() {
    let route: MatchRoute = (
        vec![
            Segment::Literal(String::new()),
            Segment::Wildcard,
            Segment::Wildcard,
        ],
        vec!["x".to_string()],
        9,
    );
    let matched = match_router_path(&route, "/a/b".to_string());
    assert_eq!(
        matched,
        Some(vec![("x".to_string(), "a".to_string())])
    );
}

#[test]
fn plain_route_table_compiles_per_entry() {
    let table = juri::router::Router {
        get: vec![("/ping".to_string(), 5), ("/pong/:n".to_string(), 6)],
        post: vec![],
    };
    let mut compiled: Vec<MatchRoute> = Vec::new();
    for (pattern, handler) in &table.get {
        compiled.push(compile_route(pattern, *handler));
    }
    let m = Arc::new(MatchRouter { get: compiled, post: Vec::new() });
    let mut req = request("GET", "/ping");
    assert_eq!(handle_router(&mut req, Arc::clone(&m)), Some(5));
    let mut req2 = request("GET", "/pong/3");
    assert_eq!(handle_router(&mut req2, Arc::clone(&m)), Some(6));
    assert_eq!(params(&req2), vec![("n".to_string(), "3".to_string())]);
}

#[test]
fn root_path_matches_only_itself() {
    let mut router = Router::new();
    router.get("/", 8);
    let table = Arc::new(conversion_router(router));
    let mut req = request("GET", "/");
    assert_eq!(handle_router(&mut req, Arc::clone(&table)), Some(8));
    let mut req2 = request("GET", "/x");
    assert_eq!(handle_router(&mut req2, Arc::clone(&table)), None);
}

#[test]
fn adjacent_placeholders_capture_in_order() {
    let mut router = Router::new();
    router.get("/pair/:x/:y", 11);
    let table = Arc::new(conversion_router(router));
    let mut req = request("GET", "/pair/1/2");
    assert_eq!(handle_router(&mut req, Arc::clone(&table)), Some(11));
    assert_eq!(
        params(&req),
        vec![
            ("x".to_string(), "1".to_string()),
            ("y".to_string(), "2".to_string())
        ]
    );
}

// A colon anywhere but at the start of a piece makes no placeholder.
#[test]
fn inner_colon_is_a_literal() {
    let mut router = Router::new();
    router.get("/a:b", 12);
    let table = Arc::new(conversion_router(router));
    let mut req = request("GET", "/a:b");
    assert_eq!(handle_router(&mut req, Arc::clone(&table)), Some(12));
    assert_eq!(params(&req), Vec::<(String, String)>::new());
    let mut req2 = request("GET", "/anything");
    assert_eq!(handle_router(&mut req2, Arc::clone(&table)), None);
}

#[test]
fn match_router_path_rejects_literal_mismatch() {
    let route: MatchRoute = (
        vec![
            Segment::Literal(String::new()),
            Segment::Literal("a".to_string()),
        ],
        vec![],
        1,
    );
    assert_eq!(match_router_path(&route, "/b".to_string()), None);
    assert_eq!(match_router_path(&route, "/a".to_string()), Some(vec![]));
}
