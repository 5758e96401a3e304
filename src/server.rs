//! Requests as handlers see them, what handlers give back, and the route table.
use vstd::prelude::*;
use vstd::utf8::encode_utf8;

use crate::status::StatusCode;

verus! {

/// A request from a client: a GET, or a POST with its body as text.
#[derive(Clone, Debug)]
pub enum Request {
    Get,
    Post(String),
}

/// Content to give to a client, either HTML or JSON.
#[derive(Clone, Debug)]
pub enum Content {
    Html(String),
    Json(String),
}

/// Response to give to a client: content, or the status code of a failure.
pub type Response = Result<Content, StatusCode>;

/// Something that turns a request into a response. The route table holds
/// handlers of one type; a server whose routes need different kinds of
/// handler stores them behind one boxed type.
pub trait Handler {
    fn handle(&self, request: Request) -> Response;
}

/// The routes that a list of registrations gives, the later of two
/// registrations of one path replacing the earlier.
pub open spec fn route_table<H>(regs: Seq<(Seq<char>, H)>) -> Map<Seq<char>, H>
    decreases regs.len(),
{
    if regs.len() == 0 {
        Map::empty()
    } else {
        route_table(regs.drop_last()).insert(regs.last().0, regs.last().1)
    }
}

/// The server: a table from exact request targets (`/chat`) to handlers.
pub struct Server<H> {
    routes: Vec<(String, H)>,
}

pub open spec fn registrations<H>(routes: Seq<(String, H)>) -> Seq<(Seq<char>, H)> {
    routes.map_values(|e: (String, H)| (e.0@, e.1))
}

impl<H> View for Server<H> {
    type V = Map<Seq<char>, H>;

    closed spec fn view(&self) -> Map<Seq<char>, H> {
        route_table(registrations(self.routes@))
    }
}

/// A path that no registration names is not in the table, whatever the other
/// registrations and their order.
pub proof fn lemma_unregistered_path_not_found<H>(regs: Seq<(Seq<char>, H)>, path: Seq<char>)
    requires
        forall|i: int| 0 <= i < regs.len() ==> #[trigger] regs[i].0 != path,
    ensures
        !route_table(regs).contains_key(path),
    decreases regs.len(),
{
    if regs.len() > 0 {
        lemma_unregistered_path_not_found(regs.drop_last(), path);
    }
}

/// Registrations after the `k` first that do not name `path` leave its entry as
/// the first `k` made it.
proof fn lemma_later_registrations<H>(regs: Seq<(Seq<char>, H)>, k: int, path: Seq<char>)
    requires
        0 <= k <= regs.len(),
        forall|j: int| k <= j < regs.len() ==> #[trigger] regs[j].0 != path,
    ensures
        route_table(regs).contains_key(path) == route_table(regs.take(k)).contains_key(path),
        route_table(regs)[path] == route_table(regs.take(k))[path],
    decreases regs.len(),
{
    if k < regs.len() {
        assert(regs.drop_last().take(k) =~= regs.take(k));
        lemma_later_registrations(regs.drop_last(), k, path);
    } else {
        assert(regs.take(k) =~= regs);
    }
}

/// Whether two texts are the same, compared by their UTF-8 bytes.
pub(crate) fn same_text(a: &str, b: &str) -> (r: bool)
    ensures
        r == (a@ == b@),
{
    let x = a.as_bytes();
    let y = b.as_bytes();
    proof {
        vstd::utf8::encode_utf8_decode_utf8(a@);
        vstd::utf8::encode_utf8_decode_utf8(b@);
    }
    if x.len() != y.len() {
        return false;
    }
    let mut i: usize = 0;
    while i < x.len()
        invariant
            i <= x@.len() == y@.len(),
            x@ == encode_utf8(a@),
            y@ == encode_utf8(b@),
            forall|j: int| 0 <= j < i ==> x@[j] == y@[j],
        decreases x@.len() - i,
    {
        if x[i] != y[i] {
            assert(x@[i as int] != y@[i as int]);
            assert(x@ != y@);
            return false;
        }
        i = i + 1;
    }
    assert(x@ =~= y@);
    true
}

impl<H> Server<H> {
    /// A server with no routes.
    pub fn new() -> (r: Self)
        ensures
            r@ == Map::<Seq<char>, H>::empty(),
    {
        let r = Server { routes: Vec::new() };
        assert(registrations(r.routes@) =~= Seq::<(Seq<char>, H)>::empty());
        r
    }

    /// Adds a route; a second handler for the same path replaces the first.
    pub fn route(self, path: &str, handler: H) -> (r: Self)
        ensures
            r@ == self@.insert(path@, handler),
    {
        let mut routes = self.routes;
        let ghost before = routes@;
        routes.push((path.to_owned(), handler));
        let r = Server { routes };
        assert(registrations(r.routes@).drop_last() =~= registrations(before));
        r
    }

    /// The handler for exactly `path`, if one was registered.
    pub fn resolve(&self, path: &str) -> (r: Option<&H>)
        ensures
            r is None <==> !self@.contains_key(path@),
            r matches Some(h) ==> *h == self@[path@],
    {
        let ghost regs = registrations(self.routes@);
        let mut i: usize = self.routes.len();
        while i > 0
            invariant
                i <= self.routes@.len(),
                regs == registrations(self.routes@),
                forall|j: int| i <= j < regs.len() ==> #[trigger] regs[j].0 != path@,
            decreases i,
        {
            i = i - 1;
            let entry = &self.routes[i];
            if same_text(entry.0.as_str(), path) {
                proof {
                    lemma_later_registrations(regs, i + 1, path@);
                    assert(regs.take(i + 1).drop_last() =~= regs.take(i as int));
                }
                return Some(&entry.1);
            }
        }
        proof {
            lemma_later_registrations(regs, 0, path@);
            lemma_unregistered_path_not_found(regs.take(0), path@);
        }
        None
    }
}

impl<H> Default for Server<H> {
    fn default() -> (r: Self)
        ensures
            r@ == Map::<Seq<char>, H>::empty(),
    {
        Server::new()
    }
}

} // verus!
