use crate::request::HTTPMethod;
use crate::router::compile_route;
use crate::router::compiled_route;
use crate::router::MatchRoute;
use crate::router::MatchRouter;
use vstd::prelude::*;

verus! {

/// A registration: its method tag, its raw pattern, and the identifier of the
/// handler bound to it.
pub type Route = (HTTPMethod, String, usize);

/// The view of a registration list: method tag, pattern text, handler.
pub open spec fn route_views(v: Seq<Route>) -> Seq<(HTTPMethod, Seq<char>, usize)> {
    Seq::new(v.len(), |i: int| (v[i].0, v[i].1@, v[i].2))
}

/// The mathematical content of a `Router`.
pub struct RouterView {
    pub get: Seq<(HTTPMethod, Seq<char>, usize)>,
    pub post: Seq<(HTTPMethod, Seq<char>, usize)>,
}

/// The route table the application fills before the server starts serving:
/// ordered per-method registration lists. Registration appends only; nothing
/// is removed or reordered afterwards.
pub struct Router {
    get: Vec<Route>,
    post: Vec<Route>,
}

impl View for Router {
    type V = RouterView;

    closed spec fn view(&self) -> RouterView {
        RouterView { get: route_views(self.get@), post: route_views(self.post@) }
    }
}

impl Router {
    /// An empty route table.
    pub fn new() -> (r: Router)
        ensures
            r@.get == Seq::<(HTTPMethod, Seq<char>, usize)>::empty(),
            r@.post == Seq::<(HTTPMethod, Seq<char>, usize)>::empty(),
    {
        let r = Router { get: Vec::new(), post: Vec::new() };
        proof {
            assert(r@.get =~= Seq::<(HTTPMethod, Seq<char>, usize)>::empty());
            assert(r@.post =~= Seq::<(HTTPMethod, Seq<char>, usize)>::empty());
        }
        r
    }

    /// Appends a GET registration, in order, to the GET list.
    pub fn get(&mut self, path: &str, handle: usize)
        ensures
            final(self)@.get == old(self)@.get.push((HTTPMethod::GET, path@, handle)),
            final(self)@.post == old(self)@.post,
    {
        self.get.push((HTTPMethod::GET, path.to_owned(), handle));
        proof {
            assert(self@.get =~= old(self)@.get.push((HTTPMethod::GET, path@, handle)));
            assert(self@.post =~= old(self)@.post);
        }
    }

    /// Appends a POST registration, in order, to the POST list, tagged POST.
    pub fn post(&mut self, path: &str, handle: usize)
        ensures
            final(self)@.post == old(self)@.post.push((HTTPMethod::POST, path@, handle)),
            final(self)@.get == old(self)@.get,
    {
        self.post.push((HTTPMethod::POST, path.to_owned(), handle));
        proof {
            assert(self@.post =~= old(self)@.post.push((HTTPMethod::POST, path@, handle)));
            assert(self@.get =~= old(self)@.get);
        }
    }
}

/// Every compiled route of the lookup table is faithful to its registration.
pub open spec fn compiled_list(
    regs: Seq<(HTTPMethod, Seq<char>, usize)>,
    routes: Seq<MatchRoute>,
) -> bool {
    &&& routes.len() == regs.len()
    &&& forall|i: int| 0 <= i < regs.len() ==> compiled_route(regs[i].1, regs[i].2, routes[i])
}

/// Compiles the whole route table once, at startup, into the immutable lookup
/// structure the connections share: each registration's pattern is compiled
/// in place, so registration order is kept. Every pattern string compiles —
/// the `:name` syntax has no malformed form — so startup cannot fail here.
pub fn conversion_router(router: Router) -> (m: MatchRouter)
    ensures
        compiled_list(router@.get, m.get@),
        compiled_list(router@.post, m.post@),
{
    let mut get_routes: Vec<MatchRoute> = Vec::new();
    let mut i: usize = 0;
    while i < router.get.len()
        invariant
            route_views(router.get@) == router@.get,
            i <= router.get@.len(),
            get_routes@.len() == i,
            forall|j: int| 0 <= j < i ==> compiled_route(
                router@.get[j].1,
                router@.get[j].2,
                get_routes@[j],
            ),
        decreases router.get@.len() - i,
    {
        let r = compile_route(router.get[i].1.as_str(), router.get[i].2);
        get_routes.push(r);
        i = i + 1;
    }
    let mut post_routes: Vec<MatchRoute> = Vec::new();
    let mut k: usize = 0;
    while k < router.post.len()
        invariant
            route_views(router.post@) == router@.post,
            k <= router.post@.len(),
            post_routes@.len() == k,
            forall|j: int| 0 <= j < k ==> compiled_route(
                router@.post[j].1,
                router@.post[j].2,
                post_routes@[j],
            ),
        decreases router.post@.len() - k,
    {
        let r = compile_route(router.post[k].1.as_str(), router.post[k].2);
        post_routes.push(r);
        k = k + 1;
    }
    MatchRouter { get: get_routes, post: post_routes }
}

} // verus!
