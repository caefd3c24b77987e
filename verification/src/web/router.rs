//! The router: exact dispatch from a verb and a path to a handler, and the
//! matching of paths against patterns with `:name` segments.

use vstd::prelude::*;
use crate::error::HushError;
use crate::error::HushResult;
use crate::strmap::StringMap;
use crate::text::chars_eq;
use crate::text::chars_of;
use crate::text::concat;
use crate::text::decimal;
use crate::text::decimal_text;
use crate::text::split_chars;
use crate::text::split_spec;
use crate::text::str_eq;
use crate::text::text_of;
use crate::text::text_of_range;
use crate::text::texts;
use crate::types::make_route_key;
use crate::types::route_key_of;
use crate::types::HttpMethod;
use crate::types::RequestContext;
use crate::types::ResponseContext;
use crate::types::RouteInfo;
use crate::web::handler::Answer;
use crate::web::handler::Handler;
use crate::web::handler::RequestHandler;

verus! {

/// The texts of a list of keys.
pub open spec fn key_texts(keys: Seq<String>) -> Seq<Seq<char>> {
    Seq::new(keys.len(), |i: int| keys[i]@)
}

/// The verbs, in the order in which they are reported.
pub open spec fn all_methods() -> Seq<HttpMethod> {
    seq![
        HttpMethod::GET,
        HttpMethod::POST,
        HttpMethod::PUT,
        HttpMethod::DELETE,
        HttpMethod::PATCH,
        HttpMethod::HEAD,
        HttpMethod::OPTIONS,
    ]
}

/// Those of the first `n` verbs for which `path` has a route.
pub open spec fn supported(keys: Seq<Seq<char>>, path: Seq<char>, n: int) -> Seq<HttpMethod>
    decreases n,
{
    if n <= 0 {
        Seq::<HttpMethod>::empty()
    } else if keys.contains(route_key_of(all_methods()[n - 1], path)) {
        supported(keys, path, n - 1).push(all_methods()[n - 1])
    } else {
        supported(keys, path, n - 1)
    }
}

/// The name that the `n`-th registered handler gets.
pub open spec fn handler_name_of(n: nat) -> Seq<char> {
    "handler_"@ + decimal(n)
}

/// The three lists that make up the route table; entry `i` of each belongs
/// to route `i`.
struct Table<H: Handler> {
    keys: Vec<String>,
    handlers: Vec<RequestHandler<H>>,
    route_info: Vec<RouteInfo>,
}

impl<H: Handler> Table<H> {
    fn empty() -> (t: Self)
        ensures
            t.keys@.len() == 0,
            t.handlers@.len() == 0,
            t.route_info@.len() == 0,
    {
        Table { keys: Vec::new(), handlers: Vec::new(), route_info: Vec::new() }
    }
}

/// The route table.
pub struct Router<H: Handler> {
    table: Table<H>,
}

impl<H: Handler> Router<H> {
    /// The keys of the routes, in the order of registration.
    pub closed spec fn keys(&self) -> Seq<Seq<char>> {
        key_texts(self.table.keys@)
    }

    /// The handlers of the routes, in the same order as the keys.
    pub closed spec fn handlers(&self) -> Seq<RequestHandler<H>> {
        self.table.handlers@
    }

    /// What is known of the routes, in the same order as the keys.
    pub closed spec fn infos(&self) -> Seq<RouteInfo> {
        self.table.route_info@
    }

    /// Whether the three lists describe the same routes and no key occurs
    /// twice.
    pub open spec fn consistent(
        keys: Seq<Seq<char>>,
        handlers: Seq<RequestHandler<H>>,
        infos: Seq<RouteInfo>,
    ) -> bool {
        &&& keys.len() == handlers.len()
        &&& keys.len() == infos.len()
        &&& keys.no_duplicates()
        &&& forall|i: int|
            0 <= i < keys.len() ==> #[trigger] keys[i] == route_key_of(infos[i].method, infos[i].path@)
    }

    #[verifier::type_invariant]
    spec fn well_formed(&self) -> bool {
        Self::consistent(key_texts(self.table.keys@), self.table.handlers@, self.table.route_info@)
    }

    /// Whether there is a route with this key.
    pub open spec fn has_key(&self, key: Seq<char>) -> bool {
        self.keys().contains(key)
    }

    /// A router without routes.
    pub fn new() -> (router: Self)
        ensures
            router.keys() == Seq::<Seq<char>>::empty(),
            router.handlers() == Seq::<RequestHandler<H>>::empty(),
            router.infos() == Seq::<RouteInfo>::empty(),
    {
        let router = Router { table: Table::empty() };
        assert(key_texts(router.table.keys@) =~= Seq::<Seq<char>>::empty());
        assert(router.table.handlers@ =~= Seq::<RequestHandler<H>>::empty());
        assert(router.table.route_info@ =~= Seq::<RouteInfo>::empty());
        router
    }

    /// Where the route with the key `key` stands.
    fn find(&self, key: &str) -> (at: Option<usize>)
        ensures
            at matches Some(i) ==> i < self.keys().len() && self.keys()[i as int] == key@,
            at is None ==> !self.keys().contains(key@),
            Self::consistent(self.keys(), self.handlers(), self.infos()),
    {
        proof {
            use_type_invariant(self);
        }
        let mut i: usize = 0;
        while i < self.table.keys.len()
            invariant
                i <= self.table.keys@.len(),
                Self::consistent(self.keys(), self.handlers(), self.infos()),
                forall|k: int| 0 <= k < i ==> #[trigger] key_texts(self.table.keys@)[k] != key@,
            decreases self.table.keys.len() - i,
        {
            if str_eq(self.table.keys[i].as_str(), key) {
                return Some(i);
            }
            i = i + 1;
        }
        None
    }

    /// What registering a route does. A key that is registered already is
    /// refused with an error that names it, and the router stays as it is.
    /// Otherwise the route goes behind the others, with the handler as it
    /// was given and a name that tells how many routes there were.
    pub open spec fn registers(
        before: Self,
        after: Self,
        method: HttpMethod,
        path: Seq<char>,
        handler: RequestHandler<H>,
        r: HushResult<()>,
    ) -> bool {
        if before.has_key(route_key_of(method, path)) {
            &&& r matches Err(HushError::HttpError(m)) && m@ == "Route already exists: "@
                + route_key_of(method, path)
            &&& after.keys() == before.keys()
            &&& after.handlers() == before.handlers()
            &&& after.infos() == before.infos()
        } else {
            &&& r is Ok
            &&& after.keys() == before.keys().push(route_key_of(method, path))
            &&& after.handlers() == before.handlers().push(handler)
            &&& after.infos().len() == before.infos().len() + 1
            &&& after.infos().drop_last() == before.infos()
            &&& after.infos().last().method == method
            &&& after.infos().last().path@ == path
            &&& after.infos().last().handler_name@ == handler_name_of(before.keys().len())
        }
    }

    /// Registers a route, as `registers` says.
    pub fn add_route(&mut self, method: HttpMethod, path: String, handler: RequestHandler<H>) -> (r:
        HushResult<()>)
        ensures
            Self::consistent(final(self).keys(), final(self).handlers(), final(self).infos()),
            Self::registers(*old(self), *final(self), method, path@, handler, r),
    {
        let key = make_route_key(method, path.as_str());
        if self.find(key.as_str()).is_some() {
            return Err(HushError::HttpError(concat("Route already exists: ", key.as_str())));
        }
        let ghost old_keys = self.keys();
        let ghost old_handlers = self.handlers();
        let ghost old_infos = self.infos();
        let ghost key_text = key@;
        let ghost path_text = path@;
        let name = concat("handler_", decimal_text(self.table.keys.len() as u64).as_str());
        let info = RouteInfo::new(method, path, name);
        let mut table = Table::empty();
        assert(key_texts(table.keys@) =~= Seq::<Seq<char>>::empty());
        core::mem::swap(&mut table, &mut self.table);
        table.keys.push(key);
        table.handlers.push(handler);
        table.route_info.push(info);
        let ghost keys = table.keys;
        let ghost route_info = table.route_info;
        proof {
            assert(key_texts(keys@) =~= old_keys.push(key_text));
            assert(route_info@.drop_last() =~= old_infos);
            let now = key_texts(keys@);
            assert forall|i: int, j: int| 0 <= i < now.len() && 0 <= j < now.len() && i != j implies now[i]
                != now[j] by {
                if i < old_keys.len() {
                    assert(now[i] == old_keys[i]);
                }
                if j < old_keys.len() {
                    assert(now[j] == old_keys[j]);
                }
            }
            assert forall|i: int| 0 <= i < now.len() implies #[trigger] now[i] == route_key_of(
                route_info@[i].method,
                route_info@[i].path@,
            ) by {
                if i < old_keys.len() {
                    assert(now[i] == old_keys[i]);
                    assert(route_info@[i] == old_infos[i]);
                }
            }
        }
        core::mem::swap(&mut table, &mut self.table);
        Ok(())
    }

    /// Takes a route out. A key that is not registered is an error, and the
    /// router stays as it is.
    pub fn remove_route(&mut self, method: HttpMethod, path: &str) -> (r: HushResult<()>)
        ensures
            Self::consistent(final(self).keys(), final(self).handlers(), final(self).infos()),
            !old(self).has_key(route_key_of(method, path@)) ==> {
                &&& r == Err::<(), HushError>(HushError::RouteNotFound)
                &&& final(self).keys() == old(self).keys()
                &&& final(self).handlers() == old(self).handlers()
                &&& final(self).infos() == old(self).infos()
            },
            old(self).has_key(route_key_of(method, path@)) ==> {
                let at = old(self).keys().index_of(route_key_of(method, path@));
                &&& r is Ok
                &&& final(self).keys() == old(self).keys().remove(at)
                &&& final(self).handlers() == old(self).handlers().remove(at)
                &&& final(self).infos() == old(self).infos().remove(at)
                &&& !final(self).has_key(route_key_of(method, path@))
            },
    {
        let key = make_route_key(method, path);
        let at = match self.find(key.as_str()) {
            Some(at) => at,
            None => {
                return Err(HushError::RouteNotFound);
            },
        };
        let ghost old_keys = self.keys();
        let ghost old_handlers = self.handlers();
        let ghost old_infos = self.infos();
        proof {
            let chosen = old_keys.index_of(key@);
            assert(old_keys[at as int] == key@);
            assert(0 <= chosen < old_keys.len() && old_keys[chosen] == key@);
        }
        let mut table = Table::empty();
        assert(key_texts(table.keys@) =~= Seq::<Seq<char>>::empty());
        core::mem::swap(&mut table, &mut self.table);
        table.keys.remove(at);
        table.handlers.remove(at);
        table.route_info.remove(at);
        let ghost keys = table.keys;
        let ghost route_info = table.route_info;
        proof {
            let now = key_texts(keys@);
            assert(now =~= old_keys.remove(at as int));
            assert forall|i: int, j: int| 0 <= i < now.len() && 0 <= j < now.len() && i != j implies now[i]
                != now[j] by {
                let i0 = if i < at { i } else { i + 1 };
                let j0 = if j < at { j } else { j + 1 };
                assert(now[i] == old_keys[i0] && now[j] == old_keys[j0]);
            }
            assert forall|i: int| 0 <= i < now.len() implies #[trigger] now[i] == route_key_of(
                route_info@[i].method,
                route_info@[i].path@,
            ) by {
                let i0 = if i < at { i } else { i + 1 };
                assert(now[i] == old_keys[i0]);
                assert(route_info@[i] == old_infos[i0]);
            }
            assert(!now.contains(key@)) by {
                if now.contains(key@) {
                    let i = choose|i: int| 0 <= i < now.len() && now[i] == key@;
                    let i0 = if i < at { i } else { i + 1 };
                    assert(now[i] == old_keys[i0]);
                    assert(old_keys[i0] == old_keys[at as int]);
                }
            }
        }
        core::mem::swap(&mut table, &mut self.table);
        Ok(())
    }

    /// What the router may answer to `request`: the answer of the handler
    /// that is registered for its verb and path, whatever that is, or the
    /// error `RouteNotFound` where there is none.
    pub open spec fn dispatches(&self, request: RequestContext, answer: Answer) -> bool {
        let key = route_key_of(request.method, request.path@);
        if self.has_key(key) {
            self.handlers()[self.keys().index_of(key)].answers(request, answer)
        } else {
            answer == Err::<ResponseContext, HushError>(HushError::RouteNotFound)
        }
    }

    /// Hands the request to the handler that is registered for its verb and
    /// path. What the handler returns is returned as it is, errors included.
    pub fn handle_request(&self, context: &RequestContext) -> (answer: Answer)
        ensures
            self.dispatches(*context, answer),
    {
        let key = make_route_key(context.method, context.path.as_str());
        match self.find(key.as_str()) {
            Some(at) => {
                proof {
                    let chosen = self.keys().index_of(key@);
                    assert(self.keys()[at as int] == key@);
                    assert(0 <= chosen < self.keys().len() && self.keys()[chosen] == key@);
                }
                self.table.handlers[at].handle(context)
            },
            None => Err(HushError::RouteNotFound),
        }
    }

    /// What is known of the routes, in the order of registration.
    pub fn get_routes(&self) -> (routes: &Vec<RouteInfo>)
        ensures
            routes@ == self.infos(),
    {
        &self.table.route_info
    }

    /// Whether there is a route for this verb and path.
    pub fn has_route(&self, method: HttpMethod, path: &str) -> (yes: bool)
        ensures
            yes == self.has_key(route_key_of(method, path@)),
    {
        let key = make_route_key(method, path);
        self.find(key.as_str()).is_some()
    }

    /// The number of routes.
    pub fn route_count(&self) -> (n: usize)
        ensures
            n == self.keys().len(),
    {
        self.table.keys.len()
    }

    /// Takes every route out.
    pub fn clear(&mut self)
        ensures
            final(self).keys() == Seq::<Seq<char>>::empty(),
            final(self).handlers() == Seq::<RequestHandler<H>>::empty(),
            final(self).infos() == Seq::<RouteInfo>::empty(),
    {
        let mut table = Table::empty();
        assert(key_texts(table.keys@) =~= Seq::<Seq<char>>::empty());
        assert(table.handlers@ =~= Seq::<RequestHandler<H>>::empty());
        assert(table.route_info@ =~= Seq::<RouteInfo>::empty());
        core::mem::swap(&mut table, &mut self.table);
    }

    /// The verbs for which `path` has a route, in the order GET, POST, PUT,
    /// DELETE, PATCH, HEAD, OPTIONS.
    pub fn get_supported_methods(&self, path: &str) -> (methods: Vec<HttpMethod>)
        ensures
            methods@ == supported(self.keys(), path@, 7),
    {
        let mut every: Vec<HttpMethod> = Vec::new();
        every.push(HttpMethod::GET);
        every.push(HttpMethod::POST);
        every.push(HttpMethod::PUT);
        every.push(HttpMethod::DELETE);
        every.push(HttpMethod::PATCH);
        every.push(HttpMethod::HEAD);
        every.push(HttpMethod::OPTIONS);
        assert(every@ =~= all_methods());
        let mut methods: Vec<HttpMethod> = Vec::new();
        let mut i: usize = 0;
        while i < every.len()
            invariant
                i <= 7,
                every@ == all_methods(),
                methods@ == supported(self.keys(), path@, i as int),
            decreases every.len() - i,
        {
            if self.has_route(every[i], path) {
                methods.push(every[i]);
            }
            i = i + 1;
        }
        methods
    }
}

impl<H: Handler> Default for Router<H> {
    fn default() -> (router: Self)
        ensures
            router.keys() == Seq::<Seq<char>>::empty(),
    {
        Router::new()
    }
}

/// Whether a pattern segment stands for a parameter: it begins with `:`.
pub open spec fn is_param(segment: Seq<char>) -> bool {
    segment.len() > 0 && segment[0] == ':'
}

/// The parameter names among the first `n` segments of a pattern, in order.
pub open spec fn param_names_in(segments: Seq<Seq<char>>, n: int) -> Seq<Seq<char>>
    decreases n,
{
    if n <= 0 {
        Seq::<Seq<char>>::empty()
    } else if is_param(segments[n - 1]) {
        param_names_in(segments, n - 1).push(segments[n - 1].skip(1))
    } else {
        param_names_in(segments, n - 1)
    }
}

/// Whether a path fits a pattern, segment by segment: there are as many
/// segments, and each one either stands under a parameter or is the same
/// text as in the pattern.
pub open spec fn fits(pattern: Seq<Seq<char>>, path: Seq<Seq<char>>) -> bool {
    &&& pattern.len() == path.len()
    &&& forall|i: int| 0 <= i < pattern.len() ==> is_param(#[trigger] pattern[i]) || pattern[i] == path[i]
}

/// What the parameters among the first `n` segments are bound to. A name
/// that occurs twice keeps the later binding.
pub open spec fn bindings(pattern: Seq<Seq<char>>, path: Seq<Seq<char>>, n: int) -> Map<
    Seq<char>,
    Seq<char>,
>
    decreases n,
{
    if n <= 0 {
        Map::<Seq<char>, Seq<char>>::empty()
    } else if is_param(pattern[n - 1]) {
        bindings(pattern, path, n - 1).insert(pattern[n - 1].skip(1), path[n - 1])
    } else {
        bindings(pattern, path, n - 1)
    }
}

/// A path pattern such as `/users/:id`.
pub struct RouteMatcher {
    pub pattern: String,
    pub params: Vec<String>,
}

fn begins_with_colon(segment: &Vec<char>) -> (yes: bool)
    ensures
        yes == is_param(segment@),
{
    segment.len() > 0 && segment[0] == ':'
}

impl RouteMatcher {
    /// Reads a pattern. Its segments are the pieces between slashes; the
    /// ones that begin with `:` are parameters.
    pub fn new(pattern: &str) -> (m: Self)
        ensures
            m.pattern@ == pattern@,
            key_texts(m.params@) == param_names_in(
                split_spec(pattern@, '/'),
                split_spec(pattern@, '/').len() as int,
            ),
    {
        let all = chars_of(pattern);
        let segments = split_chars(&all, '/');
        let mut params: Vec<String> = Vec::new();
        let mut i: usize = 0;
        assert(key_texts(params@) =~= param_names_in(texts(segments@), 0));
        while i < segments.len()
            invariant
                i <= segments@.len(),
                texts(segments@) == split_spec(pattern@, '/'),
                key_texts(params@) == param_names_in(texts(segments@), i as int),
            decreases segments.len() - i,
        {
            assert(texts(segments@)[i as int] == segments@[i as int]@);
            if begins_with_colon(&segments[i]) {
                let name = text_of_range(&segments[i], 1, segments[i].len());
                assert(segments@[i as int]@.subrange(1, segments@[i as int]@.len() as int)
                    =~= segments@[i as int]@.skip(1));
                let ghost before = key_texts(params@);
                let ghost name_text = name@;
                params.push(name);
                assert(key_texts(params@) =~= before.push(name_text));
            }
            i = i + 1;
        }
        RouteMatcher { pattern: text_of(&all), params }
    }

    /// Matches a path against the pattern. Where it fits, the result binds
    /// each parameter to the segment of the path that stands in its place.
    /// There are no wildcards, and a trailing slash counts.
    pub fn matches(&self, path: &str) -> (found: Option<StringMap>)
        ensures
            found is Some <==> fits(split_spec(self.pattern@, '/'), split_spec(path@, '/')),
            found matches Some(m) ==> m@ == bindings(
                split_spec(self.pattern@, '/'),
                split_spec(path@, '/'),
                split_spec(self.pattern@, '/').len() as int,
            ),
    {
        let pattern_chars = chars_of(self.pattern.as_str());
        let path_chars = chars_of(path);
        let wanted = split_chars(&pattern_chars, '/');
        let given = split_chars(&path_chars, '/');
        if wanted.len() != given.len() {
            return None;
        }
        let ghost p = split_spec(self.pattern@, '/');
        let ghost q = split_spec(path@, '/');
        let mut params = StringMap::new();
        let mut i: usize = 0;
        while i < wanted.len()
            invariant
                i <= wanted@.len(),
                wanted@.len() == given@.len(),
                texts(wanted@) == p,
                texts(given@) == q,
                p == split_spec(self.pattern@, '/'),
                q == split_spec(path@, '/'),
                forall|k: int| 0 <= k < i ==> is_param(#[trigger] p[k]) || p[k] == q[k],
                params@ == bindings(p, q, i as int),
            decreases wanted.len() - i,
        {
            assert(p[i as int] == wanted@[i as int]@);
            assert(q[i as int] == given@[i as int]@);
            if begins_with_colon(&wanted[i]) {
                let name = text_of_range(&wanted[i], 1, wanted[i].len());
                assert(wanted@[i as int]@.subrange(1, wanted@[i as int]@.len() as int)
                    =~= wanted@[i as int]@.skip(1));
                params.insert(name, text_of(&given[i]));
            } else if !chars_eq(&wanted[i], &given[i]) {
                return None;
            }
            i = i + 1;
        }
        Some(params)
    }

    /// The names of the parameters, in the order of the pattern.
    pub fn param_names(&self) -> (names: &Vec<String>)
        ensures
            names == self.params,
    {
        &self.params
    }

    /// The pattern as it was given.
    pub fn pattern(&self) -> (pattern: &str)
        ensures
            pattern@ == self.pattern@,
    {
        self.pattern.as_str()
    }
}

} // verus!
