use crate::pattern::captures_of;
use crate::pattern::compile_pattern_spec;
use crate::pattern::compile_seg;
use crate::pattern::is_placeholder;
use crate::pattern::names_of;
use crate::pattern::seg_matches;
use crate::pattern::seg_views;
use crate::pattern::segs_match;
use crate::pattern::spec_split;
use crate::pattern::split_path;
use crate::pattern::str_eq;
use crate::pattern::str_views;
use crate::pattern::zip_params;
use crate::pattern::SegView;
use crate::pattern::Segment;
use crate::request::pairs_view;
use crate::request::Request;
use std::sync::Arc;
use vstd::prelude::*;
use vstd::string::StrSliceExecFns;

verus! {

/// A registered route before compilation: its raw pattern and the identifier
/// of the handler bound to it.
pub type Route = (String, usize);

/// The route table of the plain registration surface: per-method lists of raw
/// patterns in registration order.
#[derive(Debug)]
pub struct Router {
    pub get: Vec<Route>,
    pub post: Vec<Route>,
}

/// A compiled route: its pattern segments, its placeholder names in order,
/// and the identifier of its handler.
pub type MatchRoute = (Vec<Segment>, Vec<String>, usize);

/// The compiled, immutable lookup table: per-method lists of compiled routes
/// in registration order. Built once before serving begins.
#[derive(Debug)]
pub struct MatchRouter {
    pub get: Vec<MatchRoute>,
    pub post: Vec<MatchRoute>,
}

/// Whether a compiled route's pattern fully matches a path.
pub open spec fn route_matches(route: MatchRoute, path: Seq<char>) -> bool {
    segs_match(seg_views(route.0@), spec_split(path))
}

/// The parameter mapping a match of `route` against `path` produces.
pub open spec fn route_params(route: MatchRoute, path: Seq<char>) -> Seq<(Seq<char>, Seq<char>)> {
    zip_params(str_views(route.1@), captures_of(seg_views(route.0@), spec_split(path)))
}

/// The first route of the list, in registration order, whose pattern matches
/// the path; routing is a pure function of the table and the path.
pub open spec fn spec_route(routes: Seq<MatchRoute>, path: Seq<char>) -> Option<MatchRoute>
    decreases routes.len(),
{
    if routes.len() == 0 {
        None
    } else if route_matches(routes[0], path) {
        Some(routes[0])
    } else {
        spec_route(routes.drop_first(), path)
    }
}

/// The per-method route list a request's method selects, if any.
pub open spec fn method_routes(router: MatchRouter, method: Seq<char>) -> Option<Seq<MatchRoute>> {
    if method == "GET"@ {
        Some(router.get@)
    } else if method == "POST"@ {
        Some(router.post@)
    } else {
        None
    }
}

/// A compiled route is faithful to a raw pattern and handler.
pub open spec fn compiled_route(pattern: Seq<char>, handler: usize, route: MatchRoute) -> bool {
    &&& seg_views(route.0@) == compile_pattern_spec(pattern)
    &&& str_views(route.1@) == names_of(spec_split(pattern))
    &&& route.2 == handler
}

/// Compiles one raw pattern: literal pieces must match exactly, `:name`
/// pieces become wildcards whose names are recorded in order.
pub fn compile_route(pattern: &str, handler: usize) -> (r: MatchRoute)
    ensures
        compiled_route(pattern@, handler, r),
{
    let pieces = split_path(pattern);
    let mut segs: Vec<Segment> = Vec::new();
    let mut names: Vec<String> = Vec::new();
    let mut i: usize = 0;
    proof {
        let pv = str_views(pieces@);
        assert(seg_views(segs@) =~= pv.take(0).map_values(|p: Seq<char>| compile_seg(p)));
        assert(str_views(names@) =~= names_of(pv.take(0)));
    }
    while i < pieces.len()
        invariant
            str_views(pieces@) == spec_split(pattern@),
            i <= pieces.len(),
            seg_views(segs@) == str_views(pieces@).take(i as int).map_values(
                |p: Seq<char>| compile_seg(p),
            ),
            str_views(names@) == names_of(str_views(pieces@).take(i as int)),
        decreases pieces.len() - i,
    {
        let ghost pv = str_views(pieces@);
        let ghost old_segs = seg_views(segs@);
        let ghost old_names = str_views(names@);
        let piece = &pieces[i];
        let plen = piece.as_str().unicode_len();
        if plen > 0 && piece.as_str().get_char(0) == ':' {
            segs.push(Segment::Wildcard);
            let name = piece.as_str().substring_char(1, plen).to_owned();
            names.push(name);
            proof {
                assert(is_placeholder(pv[i as int]));
                assert(name@ =~= pv[i as int].drop_first());
            }
        } else {
            segs.push(Segment::Literal(piece.clone()));
            proof {
                assert(!is_placeholder(pv[i as int]));
            }
        }
        i = i + 1;
        proof {
            assert(pv.take(i as int).drop_last() =~= pv.take(i - 1));
            assert(pv.take(i as int).last() == pv[i - 1]);
            assert(seg_views(segs@) =~= old_segs.push(compile_seg(pv[i - 1])));
            assert(pv.take(i as int).map_values(|p: Seq<char>| compile_seg(p)) =~= pv.take(
                i - 1,
            ).map_values(|p: Seq<char>| compile_seg(p)).push(compile_seg(pv[i - 1])));
            if is_placeholder(pv[i - 1]) {
                assert(str_views(names@) =~= old_names.push(pv[i - 1].drop_first()));
            } else {
                assert(str_views(names@) =~= old_names);
            }
        }
    }
    proof {
        let pv = str_views(pieces@);
        assert(pv.take(pieces@.len() as int) =~= pv);
        assert(compile_pattern_spec(pattern@) == pv.map_values(|p: Seq<char>| compile_seg(p)));
    }
    (segs, names, handler)
}

/// Matches one compiled route against a path. Returns the parameter mapping
/// exactly when the route matches: placeholder names zipped, in order,
/// against the path pieces captured at the wildcard positions.
pub fn match_router_path(route: &MatchRoute, path: String) -> (r: Option<Vec<(String, String)>>)
    ensures
        r is Some <==> route_matches(*route, path@),
        r matches Some(m) ==> pairs_view(m@) == route_params(*route, path@),
{
    let pieces = split_path(path.as_str());
    if pieces.len() != route.0.len() {
        proof {
            assert(seg_views(route.0@).len() == route.0@.len());
            assert(!segs_match(seg_views(route.0@), spec_split(path@)));
        }
        return None;
    }
    let mut caps: Vec<String> = Vec::new();
    let mut i: usize = 0;
    proof {
        assert(str_views(caps@) =~= captures_of(
            seg_views(route.0@).take(0),
            str_views(pieces@).take(0),
        ));
    }
    while i < pieces.len()
        invariant
            str_views(pieces@) == spec_split(path@),
            route.0@.len() == pieces@.len(),
            i <= pieces.len(),
            forall|j: int| 0 <= j < i ==> seg_matches(seg_views(route.0@)[j], str_views(pieces@)[j]),
            str_views(caps@) == captures_of(
                seg_views(route.0@).take(i as int),
                str_views(pieces@).take(i as int),
            ),
        decreases pieces.len() - i,
    {
        let ghost sv = seg_views(route.0@);
        let ghost pv = str_views(pieces@);
        let ghost old_caps = str_views(caps@);
        match &route.0[i] {
            Segment::Literal(l) => {
                if !str_eq(l.as_str(), pieces[i].as_str()) {
                    proof {
                        assert(!seg_matches(sv[i as int], pv[i as int]));
                        assert(!segs_match(sv, pv));
                    }
                    return None;
                }
            },
            Segment::Wildcard => {
                if pieces[i].as_str().is_empty() {
                    proof {
                        assert(!seg_matches(sv[i as int], pv[i as int]));
                        assert(!segs_match(sv, pv));
                    }
                    return None;
                }
                caps.push(pieces[i].clone());
            },
        }
        i = i + 1;
        proof {
            assert(seg_matches(sv[i - 1], pv[i - 1]));
            assert(sv.take(i as int).drop_last() =~= sv.take(i - 1));
            assert(pv.take(i as int).drop_last() =~= pv.take(i - 1));
            assert(sv.take(i as int).last() == sv[i - 1]);
            assert(pv.take(i as int).last() == pv[i - 1]);
            if sv[i - 1] is Wildcard {
                assert(str_views(caps@) =~= old_caps.push(pv[i - 1]));
            } else {
                assert(str_views(caps@) =~= old_caps);
            }
            assert(str_views(caps@) =~= captures_of(sv.take(i as int), pv.take(i as int)));
        }
    }
    proof {
        let sv = seg_views(route.0@);
        let pv = str_views(pieces@);
        assert(sv.take(sv.len() as int) =~= sv);
        assert(pv.take(pv.len() as int) =~= pv);
        assert(segs_match(sv, pv));
    }
    let mut params: Vec<(String, String)> = Vec::new();
    let nn = if route.1.len() <= caps.len() {
        route.1.len()
    } else {
        caps.len()
    };
    let mut k: usize = 0;
    proof {
        assert(pairs_view(params@) =~= route_params(*route, path@).take(0));
    }
    while k < nn
        invariant
            nn == if route.1@.len() <= caps@.len() {
                route.1@.len()
            } else {
                caps@.len()
            },
            route_params(*route, path@) == zip_params(str_views(route.1@), str_views(caps@)),
            k <= nn,
            pairs_view(params@) == route_params(*route, path@).take(k as int),
        decreases nn - k,
    {
        let ghost oldp = params@;
        params.push((route.1[k].clone(), caps[k].clone()));
        k = k + 1;
        proof {
            let names = str_views(route.1@);
            let cv = str_views(caps@);
            assert(route_params(*route, path@).len() == nn as int);
            assert(pairs_view(oldp) == route_params(*route, path@).take(k - 1));
            assert(pairs_view(oldp).len() == oldp.len());
            assert(route_params(*route, path@).take(k - 1).len() == k - 1);
            assert(params@.len() == k as int);
            assert(params@.last() == (route.1@[k - 1], caps@[k - 1]));
            assert(pairs_view(params@)[k - 1] == (route.1@[k - 1]@, caps@[k - 1]@));
            assert(route_params(*route, path@)[k - 1] == (names[k - 1], cv[k - 1]));
            assert(names[k - 1] == route.1@[k - 1]@);
            assert(cv[k - 1] == caps@[k - 1]@);
            assert(pairs_view(params@) =~= route_params(*route, path@).take(k as int));
        }
    }
    proof {
        assert(route_params(*route, path@).take(nn as int) =~= route_params(*route, path@));
    }
    Some(params)
}

/// Selects the request's per-method route list and walks it in registration
/// order; the first compiled route that fully matches the path wins. On a
/// match the captured parameter mapping is installed into the request and the
/// matched handler's identifier is returned; otherwise the request is left
/// unchanged and no handler is returned.
pub fn handle_router(request: &mut Request, router: Arc<MatchRouter>) -> (r: Option<usize>)
    ensures
        final(request).method == old(request).method,
        final(request).path == old(request).path,
        final(request).headers == old(request).headers,
        final(request).contents == old(request).contents,
        final(request).keep_alive == old(request).keep_alive,
        match method_routes(*router, old(request).method@) {
            Some(list) => match spec_route(list, old(request).path@) {
                Some(route) => r == Some(route.2) && pairs_view(final(request).params_map@)
                    == route_params(route, old(request).path@),
                None => r is None && final(request).params_map == old(request).params_map,
            },
            None => r is None && final(request).params_map == old(request).params_map,
        },
{
    let list: &Vec<MatchRoute>;
    if str_eq(request.method.as_str(), "GET") {
        list = &router.get;
    } else if str_eq(request.method.as_str(), "POST") {
        list = &router.post;
    } else {
        return None;
    }
    let mut i: usize = 0;
    proof {
        assert(list@.skip(0) =~= list@);
    }
    while i < list.len()
        invariant
            *request == *old(request),
            method_routes(*router, old(request).method@) == Some(list@),
            i <= list@.len(),
            spec_route(list@, old(request).path@) == spec_route(
                list@.skip(i as int),
                old(request).path@,
            ),
        decreases list@.len() - i,
    {
        match match_router_path(&list[i], request.path.clone()) {
            Some(map) => {
                proof {
                    assert(list@.skip(i as int)[0] == list@[i as int]);
                    assert(spec_route(list@.skip(i as int), old(request).path@) == Some(
                        list@[i as int],
                    ));
                }
                request.params_map = map;
                return Some(list[i].2);
            },
            None => {},
        }
        i = i + 1;
        proof {
            assert(list@.skip(i - 1)[0] == list@[i - 1]);
            assert(list@.skip(i - 1).drop_first() =~= list@.skip(i as int));
        }
    }
    proof {
        assert(list@.skip(list@.len() as int).len() == 0);
    }
    None
}

/// First-registered route wins: any path that matches route `i`'s pattern and
/// no earlier route's pattern resolves to route `i`.
pub proof fn lemma_first_match_wins(routes: Seq<MatchRoute>, path: Seq<char>, i: int)
    requires
        0 <= i < routes.len(),
        route_matches(routes[i], path),
        forall|j: int| 0 <= j < i ==> !route_matches(routes[j], path),
    ensures
        spec_route(routes, path) == Some(routes[i]),
    decreases i,
{
    if i > 0 {
        assert(!route_matches(routes[0], path));
        assert forall|j: int| 0 <= j < i - 1 implies !route_matches(
            routes.drop_first()[j],
            path,
        ) by {
            assert(routes.drop_first()[j] == routes[j + 1]);
        }
        lemma_first_match_wins(routes.drop_first(), path, i - 1);
        assert(routes.drop_first()[i - 1] == routes[i]);
    }
}

/// A compiled route that matches a path yields exactly one parameter per
/// recorded placeholder name: the zip against the captures truncates nothing.
pub proof fn lemma_compiled_params_complete(
    pattern: Seq<char>,
    handler: usize,
    route: MatchRoute,
    path: Seq<char>,
)
    requires
        compiled_route(pattern, handler, route),
        route_matches(route, path),
    ensures
        route_params(route, path).len() == route.1@.len(),
{
    crate::pattern::lemma_names_are_wildcards(spec_split(pattern));
    crate::pattern::lemma_captures_len(seg_views(route.0@), spec_split(path));
}

/// Two routes with overlapping patterns, registered in order: a path matching
/// both resolves to the first-registered one.
pub proof fn lemma_overlap_resolves_to_first(a: MatchRoute, b: MatchRoute, path: Seq<char>)
    requires
        route_matches(a, path),
        route_matches(b, path),
    ensures
        spec_route(seq![a, b], path) == Some(a),
{
    assert(seq![a, b][0] == a);
}

} // verus!
