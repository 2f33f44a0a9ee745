use crate::request::pairs_view;
use crate::request::Request;
use crate::response::is_404_response;
use crate::response::is_405_decode_response;
use crate::response::is_500_response;
use crate::response::DecodeError;
use crate::response::JuriError;
use crate::response::Response;
use crate::router::handle_router;
use crate::router::method_routes;
use crate::router::route_params;
use crate::router::spec_route;
use crate::router::MatchRouter;
use std::sync::Arc;
use vstd::pervasive::unreached;
use vstd::prelude::*;

verus! {

/// What the connection loop must do next, as decided by the orchestrator.
#[derive(Clone, Copy, Debug, PartialEq, Eq, Structural)]
pub enum Action {
    /// Await the next request and feed the codec's result to `on_decode`.
    Decode,
    /// Run the pre-request hook of this plugin on the request held in the
    /// state, then feed its result to `on_plugin_request`.
    RunPluginRequest(usize),
    /// Invoke the handler with this identifier on the request held in the
    /// state, then feed its result to `on_handler`.
    InvokeHandler(usize),
    /// Run the post-response hook of this plugin on the request and response
    /// held in the state, then call `on_plugin_response`.
    RunPluginResponse(usize),
    /// Encode and send the response held in the state, then call `on_sent`.
    Send,
    /// Release the connection.
    Close,
}

/// Where a connection stands between two pieces of outside work.
#[derive(Debug)]
pub enum ConnState {
    /// Waiting for the next request to be decoded off the stream.
    AwaitRequest,
    /// Waiting for plugin `next_plugin`'s pre-request hook.
    PreRequest { request: Request, next_plugin: usize },
    /// Waiting for the matched handler's result; the parameter mapping is
    /// already installed in the request.
    AwaitHandler { request: Request },
    /// Waiting for plugin `next_plugin`'s post-response hook.
    PostResponse { request: Request, response: Response, next_plugin: usize },
    /// Waiting for the response to be encoded and sent. A decode failure is
    /// sent with no request and never keeps the connection alive.
    Sending { request: Option<Request>, response: Response, keep_alive: bool },
    /// The connection is released.
    Closed,
}

/// One connection's orchestrator: the per-connection state machine that
/// decides, after every completed piece of outside work, what the connection
/// loop does next. The loop performs the returned action — decoding, running
/// a hook, invoking a handler, sending — and reports the outcome back through
/// the matching `on_` method; the decisions themselves all live here.
pub struct Connection {
    /// How many plugins the middleware chain holds; fixed at startup.
    pub n_plugins: usize,
    pub state: ConnState,
}

impl Connection {
    /// Plugin indices held in a state always lie within the chain.
    pub open spec fn wf(&self) -> bool {
        match self.state {
            ConnState::PreRequest { next_plugin, .. } => next_plugin < self.n_plugins,
            ConnState::PostResponse { next_plugin, .. } => next_plugin < self.n_plugins,
            _ => true,
        }
    }

    /// The connection has entered the post-response pass carrying `request`
    /// and a response satisfying `ok`: every plugin's post hook still runs —
    /// also after a short-circuit — and only then is the response sent, with
    /// the keep-alive decision taken from the request.
    pub open spec fn post_pass_entered(
        self,
        request: Request,
        a: Action,
        ok: spec_fn(Response) -> bool,
    ) -> bool {
        if self.n_plugins > 0 {
            &&& self.state matches ConnState::PostResponse { request: r2, response, next_plugin }
                && r2 == request && next_plugin == 0 && ok(response)
            &&& a == Action::RunPluginResponse(0)
        } else {
            &&& self.state matches ConnState::Sending { request: r2, response, keep_alive }
                && r2 == Some(request) && keep_alive == request.keep_alive && ok(response)
            &&& a == Action::Send
        }
    }

    /// The routing decision for `request` was taken: the first matching
    /// route's handler is to be invoked, with the captured parameter mapping
    /// installed into the request; with no matching route (or a method no
    /// list is kept for) the built-in 404 response enters the post-response
    /// pass and no handler is invoked.
    pub open spec fn dispatched(self, request: Request, router: MatchRouter, a: Action) -> bool {
        match method_routes(router, request.method@) {
            Some(list) => match spec_route(list, request.path@) {
                Some(route) => {
                    &&& self.state matches ConnState::AwaitHandler { request: r2 } && r2.method
                        == request.method && r2.path == request.path && r2.headers
                        == request.headers && r2.contents == request.contents && r2.keep_alive
                        == request.keep_alive && pairs_view(r2.params_map@) == route_params(
                        route,
                        request.path@,
                    )
                    &&& a == Action::InvokeHandler(route.2)
                },
                None => self.post_pass_entered(request, a, (|r: Response| is_404_response(r))),
            },
            None => self.post_pass_entered(request, a, (|r: Response| is_404_response(r))),
        }
    }

    /// A fresh connection: nothing decoded yet.
    pub fn new(n_plugins: usize) -> (c: Connection)
        ensures
            c.n_plugins == n_plugins,
            c.state is AwaitRequest,
            c.wf(),
    {
        Connection { n_plugins, state: ConnState::AwaitRequest }
    }

    fn enter_post_pass(&mut self, request: Request, response: Response) -> (a: Action)
        ensures
            final(self).n_plugins == old(self).n_plugins,
            final(self).wf(),
            final(self).post_pass_entered(request, a, (|r: Response| r == response)),
    {
        if self.n_plugins > 0 {
            self.state = ConnState::PostResponse { request, response, next_plugin: 0 };
            Action::RunPluginResponse(0)
        } else {
            let keep_alive = request.is_keep_alive();
            self.state = ConnState::Sending { request: Some(request), response, keep_alive };
            Action::Send
        }
    }

    fn dispatch(&mut self, request: Request, router: &Arc<MatchRouter>) -> (a: Action)
        ensures
            final(self).n_plugins == old(self).n_plugins,
            final(self).wf(),
            final(self).dispatched(request, **router, a),
    {
        let mut request = request;
        let ghost req0 = request;
        match handle_router(&mut request, Arc::clone(router)) {
            Some(handler) => {
                self.state = ConnState::AwaitHandler { request };
                Action::InvokeHandler(handler)
            },
            None => {
                proof {
                    assert(request == req0);
                }
                let response = response_404(&request);
                self.enter_post_pass(request, response)
            },
        }
    }

    /// Feeds the byte codec's result for the next request. A decoded request
    /// starts the pre-request pass, in plugin registration order (with an
    /// empty chain the request is routed at once). A decode failure is mapped
    /// at once and always closes the connection: code 405 sends a minimal
    /// empty response first, code 500 sends the generic html response first,
    /// and every other code closes with no response at all.
    pub fn on_decode(&mut self, result: Result<Request, DecodeError>, router: &Arc<MatchRouter>) -> (a:
        Action)
        requires
            old(self).state is AwaitRequest,
        ensures
            final(self).n_plugins == old(self).n_plugins,
            final(self).wf(),
            match result {
                Ok(request) => {
                    if old(self).n_plugins > 0 {
                        &&& final(self).state == (ConnState::PreRequest {
                            request,
                            next_plugin: 0,
                        })
                        &&& a == Action::RunPluginRequest(0)
                    } else {
                        final(self).dispatched(request, **router, a)
                    }
                },
                Err(e) => {
                    if e.code == 405 {
                        &&& final(self).state matches ConnState::Sending {
                            request: r2,
                            response,
                            keep_alive,
                        } && r2 is None && is_405_decode_response(response) && !keep_alive
                        &&& a == Action::Send
                    } else if e.code == 500 {
                        &&& final(self).state matches ConnState::Sending {
                            request: r2,
                            response,
                            keep_alive,
                        } && r2 is None && is_500_response(response) && !keep_alive
                        &&& a == Action::Send
                    } else {
                        &&& final(self).state is Closed
                        &&& a == Action::Close
                    }
                },
            },
    {
        match result {
            Ok(request) => {
                if self.n_plugins > 0 {
                    self.state = ConnState::PreRequest { request, next_plugin: 0 };
                    Action::RunPluginRequest(0)
                } else {
                    self.dispatch(request, router)
                }
            },
            Err(e) => {
                if e.code == 405 {
                    let response = Response {
                        status_code: 405,
                        contents: String::new(),
                        headers: Vec::new(),
                    };
                    proof {
                        assert(response.headers@ =~= Seq::<(String, String)>::empty());
                    }
                    self.state = ConnState::Sending {
                        request: None,
                        response,
                        keep_alive: false,
                    };
                    Action::Send
                } else if e.code == 500 {
                    let response = response_500_decode();
                    self.state = ConnState::Sending {
                        request: None,
                        response,
                        keep_alive: false,
                    };
                    Action::Send
                } else {
                    self.state = ConnState::Closed;
                    Action::Close
                }
            },
        }
    }

    /// Feeds plugin `next_plugin`'s pre-request hook result (the hook may
    /// have mutated the request held in the state). A hook that returns a
    /// response short-circuits the pass: routing is skipped, no handler can
    /// be invoked, and exactly that response enters the post-response pass.
    /// Otherwise the pass moves to the next plugin in registration order, and
    /// past the last one the request is routed.
    pub fn on_plugin_request(&mut self, result: Option<Response>, router: &Arc<MatchRouter>) -> (a:
        Action)
        requires
            old(self).wf(),
            old(self).state is PreRequest,
        ensures
            final(self).n_plugins == old(self).n_plugins,
            final(self).wf(),
            result is Some ==> !(a is InvokeHandler) && !(final(self).state is AwaitHandler),
            old(self).state matches ConnState::PreRequest { request, next_plugin } ==> match result {
                Some(response) => final(self).post_pass_entered(
                    request,
                    a,
                    (|r: Response| r == response),
                ),
                None => {
                    if next_plugin + 1 < old(self).n_plugins {
                        &&& final(self).state == (ConnState::PreRequest {
                            request,
                            next_plugin: (next_plugin + 1) as usize,
                        })
                        &&& a == Action::RunPluginRequest((next_plugin + 1) as usize)
                    } else {
                        final(self).dispatched(request, **router, a)
                    }
                },
            },
    {
        let mut st = ConnState::Closed;
        core::mem::swap(&mut self.state, &mut st);
        match st {
            ConnState::PreRequest { request, next_plugin } => {
                match result {
                    Some(response) => self.enter_post_pass(request, response),
                    None => {
                        let next = next_plugin + 1;
                        if next < self.n_plugins {
                            self.state = ConnState::PreRequest { request, next_plugin: next };
                            Action::RunPluginRequest(next)
                        } else {
                            self.dispatch(request, router)
                        }
                    },
                }
            },
            _ => unreached(),
        }
    }

    /// Feeds the handler's result. A response is taken as produced; a
    /// `ResponseError` carries the exact response the handler wants sent,
    /// which passes through unaltered; a `CustomError` exposes nothing to the
    /// client and is mapped to the generic 500 response. Either way the
    /// post-response pass follows: handler failures never close the
    /// connection early.
    pub fn on_handler(&mut self, result: Result<Response, JuriError>) -> (a: Action)
        requires
            old(self).state is AwaitHandler,
        ensures
            final(self).n_plugins == old(self).n_plugins,
            final(self).wf(),
            old(self).state matches ConnState::AwaitHandler { request } ==> match result {
                Ok(response) => final(self).post_pass_entered(
                    request,
                    a,
                    (|r: Response| r == response),
                ),
                Err(JuriError::ResponseError(response)) => final(self).post_pass_entered(
                    request,
                    a,
                    (|r: Response| r == response),
                ),
                Err(JuriError::CustomError(_)) => final(self).post_pass_entered(
                    request,
                    a,
                    (|r: Response| is_500_response(r)),
                ),
            },
    {
        let mut st = ConnState::Closed;
        core::mem::swap(&mut self.state, &mut st);
        match st {
            ConnState::AwaitHandler { request } => {
                match result {
                    Ok(response) => self.enter_post_pass(request, response),
                    Err(JuriError::ResponseError(response)) => self.enter_post_pass(
                        request,
                        response,
                    ),
                    Err(JuriError::CustomError(_)) => {
                        let response = response_500(&request);
                        self.enter_post_pass(request, response)
                    },
                }
            },
            _ => unreached(),
        }
    }

    /// Feeds the completion of plugin `next_plugin`'s post-response hook (the
    /// hook mutates the response held in the state). The pass always runs to
    /// completion, in registration order, and cannot short-circuit; after the
    /// last plugin the response — whatever the hooks made of it — is sent.
    pub fn on_plugin_response(&mut self) -> (a: Action)
        requires
            old(self).wf(),
            old(self).state is PostResponse,
        ensures
            final(self).n_plugins == old(self).n_plugins,
            final(self).wf(),
            old(self).state matches ConnState::PostResponse {
                request,
                response,
                next_plugin,
            } ==> {
                if next_plugin + 1 < old(self).n_plugins {
                    &&& final(self).state == (ConnState::PostResponse {
                        request,
                        response,
                        next_plugin: (next_plugin + 1) as usize,
                    })
                    &&& a == Action::RunPluginResponse((next_plugin + 1) as usize)
                } else {
                    &&& final(self).state == (ConnState::Sending {
                        request: Some(request),
                        response,
                        keep_alive: request.keep_alive,
                    })
                    &&& a == Action::Send
                }
            },
    {
        let mut st = ConnState::Closed;
        core::mem::swap(&mut self.state, &mut st);
        match st {
            ConnState::PostResponse { request, response, next_plugin } => {
                let next = next_plugin + 1;
                if next < self.n_plugins {
                    self.state = ConnState::PostResponse { request, response, next_plugin: next };
                    Action::RunPluginResponse(next)
                } else {
                    let keep_alive = request.is_keep_alive();
                    self.state = ConnState::Sending { request: Some(request), response, keep_alive };
                    Action::Send
                }
            },
            _ => unreached(),
        }
    }

    /// Feeds the completion of the send. A request flagged keep-alive leaves
    /// the connection awaiting exactly one further request cycle; any other —
    /// and every decode-failure response — closes the connection.
    pub fn on_sent(&mut self) -> (a: Action)
        requires
            old(self).state is Sending,
        ensures
            final(self).n_plugins == old(self).n_plugins,
            final(self).wf(),
            old(self).state matches ConnState::Sending { keep_alive, .. } ==> {
                if keep_alive {
                    &&& final(self).state is AwaitRequest
                    &&& a == Action::Decode
                } else {
                    &&& final(self).state is Closed
                    &&& a == Action::Close
                }
            },
    {
        let keep_alive = match &self.state {
            ConnState::Sending { keep_alive, .. } => *keep_alive,
            _ => unreached(),
        };
        if keep_alive {
            self.state = ConnState::AwaitRequest;
            Action::Decode
        } else {
            self.state = ConnState::Closed;
            Action::Close
        }
    }
}

/// The built-in "no route matched" response: a fixed html body under the
/// fixed content-type header.
pub fn response_404(_request: &Request) -> (r: Response)
    ensures
        is_404_response(r),
{
    let mut headers: Vec<(String, String)> = Vec::new();
    headers.push(("Content-Type".to_owned(), "text/html;charset=utf-8".to_owned()));
    let r = Response { status_code: 404, contents: "<h1>404</h1>".to_owned(), headers };
    proof {
        assert(pairs_view(r.headers@) =~= seq![("Content-Type"@, "text/html;charset=utf-8"@)]);
    }
    r
}

/// The built-in generic failure response: a fixed html body under the fixed
/// content-type header.
pub fn response_500(_request: &Request) -> (r: Response)
    ensures
        is_500_response(r),
{
    response_500_decode()
}

/// The same generic 500 response, also sent when decoding fails with code
/// 500 (where no request exists to hand over).
fn response_500_decode() -> (r: Response)
    ensures
        is_500_response(r),
{
    let mut headers: Vec<(String, String)> = Vec::new();
    headers.push(("Content-Type".to_owned(), "text/html;charset=utf-8".to_owned()));
    let r = Response { status_code: 500, contents: "<h1>500</h1>".to_owned(), headers };
    proof {
        assert(pairs_view(r.headers@) =~= seq![("Content-Type"@, "text/html;charset=utf-8"@)]);
    }
    r
}

} // verus!
