use vstd::prelude::*;
use vstd::string::*;

use crate::request::{parse_request, Method, Request, RequestView};
use crate::response::{reason, response_text, Response};
use crate::strmap::Entry;
use crate::text::lossy_text;

verus! {

/// What runs when a route and a method match. Only synchronous handlers exist.
pub enum Handler<H> {
    Sync(H),
}

/// A literal path with a handler for each method it serves.
pub struct Route<H> {
    path: String,
    get: Option<Handler<H>>,
    post: Option<Handler<H>>,
    put: Option<Handler<H>>,
    delete: Option<Handler<H>>,
    patch: Option<Handler<H>>,
}

impl<H> Route<H> {
    /// The literal path the route serves.
    pub closed spec fn path_view(&self) -> Seq<char> {
        self.path@
    }

    /// The handler bound for `m`.
    pub closed spec fn slot(&self, m: Method) -> Option<Handler<H>> {
        match m {
            Method::GET => self.get,
            Method::POST => self.post,
            Method::PUT => self.put,
            Method::DELETE => self.delete,
            Method::PATCH => self.patch,
        }
    }

    /// Whether a handler is bound for `m`.
    pub open spec fn binds(&self, m: Method) -> bool {
        self.slot(m) is Some
    }

    /// `self` with `h` bound for `m` and all else as it was.
    pub open spec fn bound(&self, other: &Self, m: Method, h: H) -> bool {
        &&& other.path_view() == self.path_view()
        &&& other.slot(m) == Some(Handler::Sync(h))
        &&& forall|n: Method| n != m ==> other.slot(n) == self.slot(n)
    }

    /// A route at `path` with no handler yet.
    pub fn new(path: &'static str) -> (r: Self)
        ensures
            r.path_view() == path@,
            forall|m: Method| r.slot(m) is None,
    {
        Self {
            path: String::from_str(path),
            get: None,
            post: None,
            put: None,
            delete: None,
            patch: None,
        }
    }

    /// Binds `handler` for GET.
    pub fn get(&mut self, handler: H) -> (r: &mut Self)
        ensures
            old(self).bound(r, Method::GET, handler),
            *final(self) == *final(r),
    {
        self.get = Some(Handler::Sync(handler));
        self
    }

    /// Binds `handler` for POST.
    pub fn post(&mut self, handler: H) -> (r: &mut Self)
        ensures
            old(self).bound(r, Method::POST, handler),
            *final(self) == *final(r),
    {
        self.post = Some(Handler::Sync(handler));
        self
    }

    /// Binds `handler` for PUT.
    pub fn put(&mut self, handler: H) -> (r: &mut Self)
        ensures
            old(self).bound(r, Method::PUT, handler),
            *final(self) == *final(r),
    {
        self.put = Some(Handler::Sync(handler));
        self
    }

    /// Binds `handler` for DELETE.
    pub fn delete(&mut self, handler: H) -> (r: &mut Self)
        ensures
            old(self).bound(r, Method::DELETE, handler),
            *final(self) == *final(r),
    {
        self.delete = Some(Handler::Sync(handler));
        self
    }

    /// Binds `handler` for PATCH.
    pub fn patch(&mut self, handler: H) -> (r: &mut Self)
        ensures
            old(self).bound(r, Method::PATCH, handler),
            *final(self) == *final(r),
    {
        self.patch = Some(Handler::Sync(handler));
        self
    }

    /// The handler bound for `m`, if any.
    pub fn handler(&self, m: Method) -> (r: Option<&Handler<H>>)
        ensures
            match r {
                Some(h) => self.slot(m) == Some(*h),
                None => self.slot(m) is None,
            },
    {
        let slot = match m {
            Method::GET => &self.get,
            Method::POST => &self.post,
            Method::PUT => &self.put,
            Method::DELETE => &self.delete,
            Method::PATCH => &self.patch,
        };
        match slot {
            Some(h) => Some(h),
            None => None,
        }
    }
}

/// The index of the first route from `i` on whose path is `p`.
pub open spec fn route_from<H>(rs: Seq<Route<H>>, p: Seq<char>, i: int) -> Option<int>
    decreases rs.len() - i,
{
    if i < 0 || i >= rs.len() {
        None
    } else if rs[i].path_view() == p {
        Some(i)
    } else {
        route_from(rs, p, i + 1)
    }
}

/// What becomes of one request.
pub enum Outcome {
    /// The server answers by itself with this response.
    Reply(String),
    /// The handler of the route at this index, for the request's method, takes the request.
    Invoke(usize, Request),
    /// No route has the request's path. Nothing is sent and the connection is
    /// closed; clients see an empty reply rather than a 404.
    Unrouted,
}

/// An outcome, as values.
pub enum OutcomeView {
    Reply(Seq<char>),
    Invoke(int, RequestView),
    Unrouted,
}

impl View for Outcome {
    type V = OutcomeView;

    open spec fn view(&self) -> OutcomeView {
        match self {
            Outcome::Reply(s) => OutcomeView::Reply(s@),
            Outcome::Invoke(i, r) => OutcomeView::Invoke(*i as int, r@),
            Outcome::Unrouted => OutcomeView::Unrouted,
        }
    }
}

/// The body of the reply to a method that the matched route does not serve.
pub open spec fn not_implemented_body() -> Seq<char> {
    "method not implemented"@
}

/// The reply to a request rejected with `code`: the reason phrase is the body.
pub open spec fn error_reply(code: u16) -> Seq<char> {
    response_text(code, Seq::<Entry>::empty(), reason(code))
}

/// The reply to a method that the matched route does not serve.
pub open spec fn not_implemented_reply() -> Seq<char> {
    response_text(405, Seq::<Entry>::empty(), not_implemented_body())
}

/// The reply to a request rejected with `code`, its reason phrase as the body.
pub fn error_response(code: u16) -> (r: String)
    ensures
        r@ == error_reply(code),
{
    let mut response = Response::new();
    let reason_text = Response::status_text_from_code(code);
    let text = response.status(code).send(reason_text.as_str());
    assert(response.headers.entries() =~= Seq::<Entry>::empty());
    text
}

/// The routes in the order they were added.
pub struct Server<H> {
    routes: Vec<Route<H>>,
}

impl<H> Server<H> {
    /// The routes, in the order they were added.
    pub closed spec fn routes(&self) -> Seq<Route<H>> {
        self.routes@
    }

    /// What the server does with a request whose text is `t`: a rejected request
    /// gets its status; otherwise the first route with the request's path decides,
    /// by its handler for the method or with 405 where it has none.
    pub open spec fn outcome(&self, t: Seq<char>) -> OutcomeView {
        match parse_request(t) {
            Err(c) => OutcomeView::Reply(error_reply(c)),
            Ok(req) => match route_from(self.routes(), req.path, 0) {
                None => OutcomeView::Unrouted,
                Some(i) => if self.routes()[i].binds(req.method) {
                    OutcomeView::Invoke(i, req)
                } else {
                    OutcomeView::Reply(not_implemented_reply())
                },
            },
        }
    }

    /// A server with no routes.
    pub fn new() -> (r: Self)
        ensures
            r.routes() == Seq::<Route<H>>::empty(),
    {
        Server { routes: Vec::new() }
    }

    /// Adds `route` after those already there.
    pub fn use_route(&mut self, route: Route<H>) -> (r: &mut Self)
        ensures
            r.routes() == old(self).routes().push(route),
            *final(self) == *final(r),
    {
        self.routes.push(route);
        self
    }

    /// The number of routes.
    pub fn route_count(&self) -> (r: usize)
        ensures
            r == self.routes().len(),
    {
        self.routes.len()
    }

    /// The route at index `i`.
    pub fn route(&self, i: usize) -> (r: &Route<H>)
        requires
            i < self.routes().len(),
        ensures
            *r == self.routes()[i as int],
    {
        &self.routes[i]
    }

    /// The index of the first route whose path is `path`.
    pub fn find_route(&self, path: &String) -> (r: Option<usize>)
        ensures
            match r {
                Some(i) => route_from(self.routes(), path@, 0) == Some(i as int) && i
                    < self.routes().len(),
                None => route_from(self.routes(), path@, 0) is None,
            },
    {
        let mut i: usize = 0;
        while i < self.routes.len()
            invariant
                i <= self.routes@.len(),
                route_from(self.routes(), path@, i as int) == route_from(self.routes(), path@, 0),
            decreases self.routes@.len() - i,
        {
            if self.routes[i].path == *path {
                return Some(i);
            }
            i = i + 1;
        }
        None
    }

    /// Decides what becomes of a request whose decoded text is `t`.
    pub fn dispatch_text(&self, t: &[char]) -> (r: Outcome)
        ensures
            r@ == self.outcome(t@),
    {
        let request = match Request::parse_text(t) {
            Ok(request) => request,
            Err(code) => {
                return Outcome::Reply(error_response(code));
            },
        };
        match self.find_route(&request.path) {
            None => Outcome::Unrouted,
            Some(i) => {
                if self.routes[i].handler(request.method).is_some() {
                    Outcome::Invoke(i, request)
                } else {
                    let mut response = Response::new();
                    let text = response.status(405).send("method not implemented");
                    assert(response.headers.entries() =~= Seq::<Entry>::empty());
                    Outcome::Reply(text)
                }
            },
        }
    }

    /// Decides what becomes of a request that arrived as `bytes`.
    pub fn dispatch(&self, bytes: &[u8]) -> (r: Outcome)
        ensures
            r@ == self.outcome(lossy_text(bytes@)),
    {
        let t = crate::text::decode_lossy(bytes);
        self.dispatch_text(t.as_slice())
    }
}

} // verus!
