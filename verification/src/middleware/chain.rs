//! The pipeline itself: what a stage is, how stages are ordered, and how a
//! request travels through them.
//!
//! A stage works in two steps. `before` runs on the way in and either lets
//! the request go on (`Continue`) or ends the traversal with a response or
//! an error. `after` runs on the way out, for every stage that let the
//! request go on, innermost first, and may change what the inner stages
//! produced. The chain walks the stages by index; no stage holds a
//! reference to the rest of the chain.

use vstd::prelude::*;
use crate::error::HushError;
use crate::error::HushResult;
use crate::strmap::StringMap;
use crate::text::bytes_of;
use crate::types::HttpMethod;
use crate::types::HttpStatus;
use crate::types::RequestContext;
use crate::types::ResponseContext;

verus! {

/// What a stage decided.
#[derive(Debug)]
pub enum MiddlewareResult {
    /// Nothing to add: go on with the rest of the chain.
    Continue,
    /// Stop here and answer with this response.
    Response(ResponseContext),
    /// Stop here and fail with this error.
    Error(HushError),
}

/// The state that travels through the chain with one request.
#[derive(Debug)]
pub struct MiddlewareContext {
    pub request: RequestContext,
    /// A bag that every stage may read and overwrite. There are no name
    /// spaces: a later stage can replace what an earlier one stored.
    pub shared_data: StringMap,
    /// Lines that stages wrote for the operator, oldest first.
    pub log: Vec<String>,
    /// The counters of the rate limiter. Unlike everything else here they
    /// outlive the request: whoever runs the chain hands them in with the
    /// context and keeps what comes back.
    pub counters: StringMap,
}

impl MiddlewareContext {
    /// The context of a request, with nothing shared, logged or counted.
    pub fn new(request: RequestContext) -> (c: Self)
        ensures
            c.request == request,
            c.shared_data@ == Map::<Seq<char>, Seq<char>>::empty(),
            c.log@ == Seq::<String>::empty(),
            c.counters@ == Map::<Seq<char>, Seq<char>>::empty(),
    {
        MiddlewareContext {
            request,
            shared_data: StringMap::new(),
            log: Vec::new(),
            counters: StringMap::new(),
        }
    }

    /// The context of a request, with nothing shared or logged and with the
    /// counters as they stand after the requests before it.
    pub fn with_counters(request: RequestContext, counters: StringMap) -> (c: Self)
        ensures
            c.request == request,
            c.shared_data@ == Map::<Seq<char>, Seq<char>>::empty(),
            c.log@ == Seq::<String>::empty(),
            c.counters == counters,
    {
        MiddlewareContext { request, shared_data: StringMap::new(), log: Vec::new(), counters }
    }

    /// Stores `value` under `key`; the last write to a key wins.
    pub fn set_data(&mut self, key: String, value: String)
        ensures
            final(self).shared_data@ == old(self).shared_data@.insert(key@, value@),
            final(self).request == old(self).request,
            final(self).log == old(self).log,
            final(self).counters == old(self).counters,
    {
        self.shared_data.insert(key, value);
    }

    pub fn get_data(&self, key: &str) -> (value: Option<&String>)
        ensures
            value is Some <==> self.shared_data@.contains_key(key@),
            value matches Some(v) ==> v@ == self.shared_data@[key@],
    {
        self.shared_data.get(key)
    }

    /// Takes `key` out of the bag and returns what was stored under it.
    pub fn remove_data(&mut self, key: &str) -> (taken: Option<String>)
        ensures
            final(self).shared_data@ == old(self).shared_data@.remove(key@),
            taken is Some <==> old(self).shared_data@.contains_key(key@),
            taken matches Some(v) ==> v@ == old(self).shared_data@[key@],
            final(self).request == old(self).request,
            final(self).log == old(self).log,
            final(self).counters == old(self).counters,
    {
        self.shared_data.remove(key)
    }

    /// A context that holds nothing, to stand in while the real one is away:
    /// a `GET` request for the empty path, created at time zero, without
    /// trace identifier, headers, parameters, body or data, and nothing
    /// shared, logged or counted.
    pub(crate) fn blank() -> (c: Self)
        ensures
            c.request.method == HttpMethod::GET,
            c.request.path@ == Seq::<char>::empty(),
            c.request.start_time == 0,
            c.request.trace_id@ == Seq::<char>::empty(),
            c.request.query_params@ == Map::<Seq<char>, Seq<char>>::empty(),
            c.request.headers@ == Map::<Seq<char>, Seq<char>>::empty(),
            c.request.body@ == Seq::<u8>::empty(),
            c.request.user_data@ == Map::<Seq<char>, Seq<char>>::empty(),
            c.shared_data@ == Map::<Seq<char>, Seq<char>>::empty(),
            c.log@ == Seq::<String>::empty(),
            c.counters@ == Map::<Seq<char>, Seq<char>>::empty(),
    {
        MiddlewareContext::new(
            RequestContext::with_identity(HttpMethod::GET, String::new(), 0, String::new()),
        )
    }
}

/// What one step of the traversal produced.
pub type Outcome = HushResult<MiddlewareResult>;

/// Whether an outcome lets the request go on to the next stage.
pub open spec fn proceeds(out: Outcome) -> bool {
    out == Ok::<MiddlewareResult, HushError>(MiddlewareResult::Continue)
}

/// One unit of the pipeline.
///
/// A stage says what it does through its four spec functions, and the chain
/// reasons about it through them alone. A stage that says nothing keeps the
/// defaults, under which `before` and `after` may do anything.
pub trait Middleware: Send + Sync {
    /// The name of the stage, for diagnostics.
    open spec fn name_spec(&self) -> Seq<char> {
        arbitrary()
    }

    /// The priority of the stage; a lower number runs earlier.
    open spec fn priority_spec(&self) -> int {
        arbitrary()
    }

    /// What `before` may do: it turns `pre` into `post` and decides `out`.
    open spec fn before_spec(&self, pre: MiddlewareContext, post: MiddlewareContext, out: Outcome) -> bool {
        true
    }

    /// What `after` may do with the outcome `inner` of the inner stages.
    open spec fn after_spec(
        &self,
        pre: MiddlewareContext,
        inner: Outcome,
        post: MiddlewareContext,
        out: Outcome,
    ) -> bool {
        true
    }

    fn name(&self) -> (n: &str)
        ensures
            n@ == self.name_spec(),
    ;

    fn priority(&self) -> (p: i32)
        ensures
            p == self.priority_spec(),
    ;

    /// The way in. `Ok(Continue)` lets the request go on; anything else
    /// ends the traversal at this stage.
    fn before(&self, context: &mut MiddlewareContext) -> (out: Outcome)
        ensures
            self.before_spec(*old(context), *final(context), out),
    ;

    /// The way out, with what the inner stages produced.
    fn after(&self, context: &mut MiddlewareContext, inner: Outcome) -> (out: Outcome)
        ensures
            self.after_spec(*old(context), inner, *final(context), out),
    ;
}

/// A stage made of a function. The function gets the context, and hands it
/// back with its decision; on the way out the stage changes nothing.
pub struct FunctionMiddleware<F: Fn(MiddlewareContext) -> (MiddlewareContext, Outcome)> {
    name: String,
    priority: i32,
    handler: F,
}

impl<F: Fn(MiddlewareContext) -> (MiddlewareContext, Outcome)> FunctionMiddleware<F> {
    #[verifier::type_invariant]
    spec fn accepts_every_context(&self) -> bool {
        forall|c: MiddlewareContext| call_requires(self.handler, (c,))
    }

    pub closed spec fn name_text(&self) -> Seq<char> {
        self.name@
    }

    pub closed spec fn priority_value(&self) -> int {
        self.priority as int
    }

    /// The function that the stage is made of.
    pub closed spec fn handler(&self) -> F {
        self.handler
    }

    /// What the function may return for the context `pre`.
    pub open spec fn decides(&self, pre: MiddlewareContext, post: MiddlewareContext, out: Outcome) -> bool {
        call_ensures(self.handler(), (pre,), (post, out))
    }

    /// A stage with the default priority, 100.
    pub fn new(name: String, handler: F) -> (m: Self)
        requires
            forall|c: MiddlewareContext| call_requires(handler, (c,)),
        ensures
            m.name_text() == name@,
            m.priority_value() == 100,
            m.handler() == handler,
    {
        FunctionMiddleware { name, priority: 100, handler }
    }

    pub fn with_priority(name: String, priority: i32, handler: F) -> (m: Self)
        requires
            forall|c: MiddlewareContext| call_requires(handler, (c,)),
        ensures
            m.name_text() == name@,
            m.priority_value() == priority,
            m.handler() == handler,
    {
        FunctionMiddleware { name, priority, handler }
    }
}

impl<F: Fn(MiddlewareContext) -> (MiddlewareContext, Outcome) + Send + Sync> Middleware for FunctionMiddleware<F> {
    open spec fn name_spec(&self) -> Seq<char> {
        self.name_text()
    }

    open spec fn priority_spec(&self) -> int {
        self.priority_value()
    }

    open spec fn before_spec(&self, pre: MiddlewareContext, post: MiddlewareContext, out: Outcome) -> bool {
        self.decides(pre, post, out)
    }

    open spec fn after_spec(
        &self,
        pre: MiddlewareContext,
        inner: Outcome,
        post: MiddlewareContext,
        out: Outcome,
    ) -> bool {
        post == pre && out == inner
    }

    fn name(&self) -> (n: &str) {
        self.name.as_str()
    }

    fn priority(&self) -> (p: i32) {
        self.priority
    }

    fn before(&self, context: &mut MiddlewareContext) -> (out: Outcome) {
        proof {
            use_type_invariant(self);
        }
        let mut taken = MiddlewareContext::blank();
        core::mem::swap(&mut taken, context);
        let (mut given, out) = (self.handler)(taken);
        core::mem::swap(&mut given, context);
        out
    }

    fn after(&self, context: &mut MiddlewareContext, inner: Outcome) -> (out: Outcome) {
        inner
    }
}

/// A stage of one of two kinds. With it a chain can hold stages of both.
pub enum Either<A: Middleware, B: Middleware> {
    Left(A),
    Right(B),
}

impl<A: Middleware, B: Middleware> Middleware for Either<A, B> {
    open spec fn name_spec(&self) -> Seq<char> {
        match self {
            Either::Left(a) => a.name_spec(),
            Either::Right(b) => b.name_spec(),
        }
    }

    open spec fn priority_spec(&self) -> int {
        match self {
            Either::Left(a) => a.priority_spec(),
            Either::Right(b) => b.priority_spec(),
        }
    }

    open spec fn before_spec(&self, pre: MiddlewareContext, post: MiddlewareContext, out: Outcome) -> bool {
        match self {
            Either::Left(a) => a.before_spec(pre, post, out),
            Either::Right(b) => b.before_spec(pre, post, out),
        }
    }

    open spec fn after_spec(
        &self,
        pre: MiddlewareContext,
        inner: Outcome,
        post: MiddlewareContext,
        out: Outcome,
    ) -> bool {
        match self {
            Either::Left(a) => a.after_spec(pre, inner, post, out),
            Either::Right(b) => b.after_spec(pre, inner, post, out),
        }
    }

    fn name(&self) -> (n: &str) {
        match self {
            Either::Left(a) => a.name(),
            Either::Right(b) => b.name(),
        }
    }

    fn priority(&self) -> (p: i32) {
        match self {
            Either::Left(a) => a.priority(),
            Either::Right(b) => b.priority(),
        }
    }

    fn before(&self, context: &mut MiddlewareContext) -> (out: Outcome) {
        match self {
            Either::Left(a) => a.before(context),
            Either::Right(b) => b.before(context),
        }
    }

    fn after(&self, context: &mut MiddlewareContext, inner: Outcome) -> (out: Outcome) {
        match self {
            Either::Left(a) => a.after(context, inner),
            Either::Right(b) => b.after(context, inner),
        }
    }
}

/// Something that a chain of stages of the kind `S` can take as a stage.
pub trait StageOf<S: Middleware>: Sized {
    /// The stage that this makes.
    open spec fn as_stage(self) -> S {
        arbitrary()
    }

    fn into_stage(self) -> (stage: S)
        ensures
            stage == self.as_stage(),
    ;
}

/// The priorities of a list of stages, in order.
pub open spec fn priorities_of<S: Middleware>(stages: Seq<S>) -> Seq<int> {
    Seq::new(stages.len(), |i: int| stages[i].priority_spec())
}

/// No priority is followed by a lower one.
pub open spec fn ascending(priorities: Seq<int>) -> bool {
    forall|i: int, j: int| 0 <= i <= j < priorities.len() ==> priorities[i] <= priorities[j]
}

/// Where a stage of priority `p` goes: behind the last stage whose priority
/// is not greater than `p`. Among equals, the one registered later runs
/// later.
pub open spec fn slot(priorities: Seq<int>, p: int) -> int
    decreases priorities.len(),
{
    if priorities.len() == 0 {
        0
    } else if priorities.last() <= p {
        priorities.len() as int
    } else {
        slot(priorities.drop_last(), p)
    }
}

/// In an ascending list, `slot` parts the priorities up to `p` from the
/// greater ones.
pub proof fn lemma_slot_parts(priorities: Seq<int>, p: int)
    requires
        ascending(priorities),
    ensures
        0 <= slot(priorities, p) <= priorities.len(),
        forall|k: int| 0 <= k < slot(priorities, p) ==> priorities[k] <= p,
        forall|k: int| slot(priorities, p) <= k < priorities.len() ==> priorities[k] > p,
        ascending(priorities.insert(slot(priorities, p), p)),
    decreases priorities.len(),
{
    if priorities.len() > 0 && priorities.last() > p {
        let shorter = priorities.drop_last();
        assert(ascending(shorter)) by {
            assert forall|i: int, j: int| 0 <= i <= j < shorter.len() implies shorter[i]
                <= shorter[j] by {
                assert(shorter[i] == priorities[i] && shorter[j] == priorities[j]);
            }
        }
        lemma_slot_parts(shorter, p);
        assert forall|k: int| 0 <= k < slot(priorities, p) implies priorities[k] <= p by {
            assert(shorter[k] == priorities[k]);
        }
        assert forall|k: int| slot(priorities, p) <= k < priorities.len() implies priorities[k]
            > p by {
            if k < shorter.len() {
                assert(shorter[k] == priorities[k]);
            }
        }
    }
    let at = slot(priorities, p);
    let grown = priorities.insert(at, p);
    assert forall|i: int, j: int| 0 <= i <= j < grown.len() implies grown[i] <= grown[j] by {
        let a = if i < at { priorities[i] } else if i == at { p } else { priorities[i - 1] };
        let b = if j < at { priorities[j] } else if j == at { p } else { priorities[j - 1] };
        assert(grown[i] == a && grown[j] == b);
    }
}

/// Names the four things that a turn of one stage goes through: the context
/// and the outcome after `before`, and the context and the outcome that the
/// rest of the chain leaves. It holds of any four values.
pub open spec fn turn(
    mid: MiddlewareContext,
    first: Outcome,
    deep: MiddlewareContext,
    inner: Outcome,
) -> bool {
    true
}

/// How a request travels through `stages[from..]`: from the context `pre`
/// to the context `post` with the outcome `out`, entering `entered` stages.
///
/// Past the last stage nothing happens and the outcome is `Continue`.
/// Otherwise the stage at `from` takes its turn. Its `before` turns `pre`
/// into `mid` and decides `first`. If that lets the request go on, the rest
/// of the chain runs from `mid` to `deep` with the outcome `inner`, and
/// `after` makes `post` and `out` of them. If not, the traversal ends at
/// this stage with what `before` produced, and no later stage is entered.
pub open spec fn runs<S: Middleware>(
    stages: Seq<S>,
    from: int,
    pre: MiddlewareContext,
    post: MiddlewareContext,
    out: Outcome,
    entered: int,
) -> bool
    decreases stages.len() - from,
{
    if from < 0 || from >= stages.len() {
        post == pre && proceeds(out) && entered == 0
    } else {
        exists|mid: MiddlewareContext, first: Outcome, deep: MiddlewareContext, inner: Outcome|
            {
                &&& #[trigger] turn(mid, first, deep, inner)
                &&& stages[from].before_spec(pre, mid, first)
                &&& if proceeds(first) {
                    &&& runs(stages, from + 1, mid, deep, inner, entered - 1)
                    &&& stages[from].after_spec(deep, inner, post, out)
                } else {
                    post == mid && out == first && entered == 1
                }
            }
    }
}

/// Runs one stage around a continuation, outside any chain: `before`, then
/// `next` where the stage lets the request go on, then `after` with what
/// `next` produced. A stage that ends the traversal never calls `next`.
pub fn process<M, N>(middleware: &M, context: &mut MiddlewareContext, next: N) -> (out: Outcome) where
    M: Middleware,
    N: FnOnce(MiddlewareContext) -> (MiddlewareContext, Outcome),

    requires
        forall|c: MiddlewareContext| call_requires(next, (c,)),
    ensures
        exists|mid: MiddlewareContext, first: Outcome, deep: MiddlewareContext, inner: Outcome|
            {
                &&& #[trigger] turn(mid, first, deep, inner)
                &&& middleware.before_spec(*old(context), mid, first)
                &&& if proceeds(first) {
                    &&& call_ensures(next, (mid,), (deep, inner))
                    &&& middleware.after_spec(deep, inner, *final(context), out)
                } else {
                    *final(context) == mid && out == first
                }
            },
{
    let first = middleware.before(context);
    let ghost mid = *context;
    match first {
        Ok(MiddlewareResult::Continue) => {
            let mut taken = MiddlewareContext::blank();
            core::mem::swap(&mut taken, context);
            let (mut given, inner) = next(taken);
            core::mem::swap(&mut given, context);
            let ghost deep = *context;
            let ghost seen = inner;
            let out = middleware.after(context, inner);
            proof {
                assert(turn(mid, first, deep, seen));
            }
            out
        },
        other => {
            proof {
                assert(turn(mid, other, mid, other));
            }
            other
        },
    }
}

/// What the caller of the chain gets for an outcome: a response as it is,
/// an error as an error, and the plain `200 OK` where every stage let the
/// request go on.
pub open spec fn delivers(out: Outcome, response: HushResult<ResponseContext>) -> bool {
    match out {
        Ok(MiddlewareResult::Continue) => response matches Ok(r) && r.status == HttpStatus::OK
            && r.headers@ == Map::<Seq<char>, Seq<char>>::empty() && r.body@ == bytes_of("OK"@),
        Ok(MiddlewareResult::Response(r)) => response == Ok::<ResponseContext, HushError>(r),
        Ok(MiddlewareResult::Error(e)) => response == Err::<ResponseContext, HushError>(e),
        Err(e) => response == Err::<ResponseContext, HushError>(e),
    }
}

/// Whether `context` is the fresh context of `request`: it holds the
/// request and the counters, and nothing has been shared or logged yet.
pub open spec fn fresh(context: MiddlewareContext, request: RequestContext, counters: StringMap) -> bool {
    context.request == request && context.shared_data@ == Map::<Seq<char>, Seq<char>>::empty()
        && context.log@ == Seq::<String>::empty() && context.counters == counters
}

/// What a chain may deliver for a context: an internal error where it has
/// no stage, and otherwise what `delivers` makes of a run from the first
/// stage on.
pub open spec fn executes<S: Middleware>(
    stages: Seq<S>,
    context: MiddlewareContext,
    response: HushResult<ResponseContext>,
) -> bool {
    if stages.len() == 0 {
        response matches Err(HushError::InternalError(m)) && m@
            == "No middlewares or handler defined"@
    } else {
        exists|post: MiddlewareContext, out: Outcome, entered: int| #[trigger]
            runs(stages, 0, context, post, out, entered) && delivers(out, response)
    }
}

/// What a chain makes of a context: it leaves the context `post` and
/// delivers `delivered`. A chain without stages leaves the context as it is
/// and delivers an internal error; any other chain runs from its first
/// stage on and delivers what `delivers` makes of the outcome.
pub open spec fn ran<S: Middleware>(
    stages: Seq<S>,
    context: MiddlewareContext,
    post: MiddlewareContext,
    delivered: HushResult<ResponseContext>,
) -> bool {
    if stages.len() == 0 {
        post == context && (delivered matches Err(HushError::InternalError(m)) && m@
            == "No middlewares or handler defined"@)
    } else {
        exists|out: Outcome, entered: int| #[trigger]
            runs(stages, 0, context, post, out, entered) && delivers(out, delivered)
    }
}

/// The account of one traversal.
pub struct Execution {
    /// What the caller gets.
    pub response: HushResult<ResponseContext>,
    /// The context as the stages left it.
    pub context: MiddlewareContext,
    /// How many stages were entered: the stages `0..entered`, in that order.
    pub entered: usize,
}

/// The ordered list of stages. The stages are of one kind; a kind such as
/// `Either` lets a chain hold stages of different kinds.
pub struct MiddlewareChain<S: Middleware> {
    stages: Vec<S>,
}

impl<S: Middleware> MiddlewareChain<S> {
    /// The stages in the order in which they run.
    pub closed spec fn stages(&self) -> Seq<S> {
        self.stages@
    }

    #[verifier::type_invariant]
    spec fn in_priority_order(&self) -> bool {
        ascending(priorities_of(self.stages@))
    }

    /// A chain without stages.
    pub fn new() -> (chain: Self)
        ensures
            chain.stages() == Seq::<S>::empty(),
    {
        let chain = MiddlewareChain { stages: Vec::new() };
        assert(priorities_of(chain.stages@) =~= Seq::<int>::empty());
        chain
    }

    /// Registers a stage. It goes behind every stage whose priority is not
    /// greater than its own, and before every stage of greater priority; the
    /// stages that were there keep their order.
    pub fn push(&mut self, stage: S)
        ensures
            final(self).stages() == old(self).stages().insert(
                slot(priorities_of(old(self).stages()), stage.priority_spec()),
                stage,
            ),
            0 <= slot(priorities_of(old(self).stages()), stage.priority_spec()) <= old(
                self,
            ).stages().len(),
            ascending(priorities_of(final(self).stages())),
    {
        proof {
            use_type_invariant(&*self);
        }
        let priority = stage.priority();
        let mut stages: Vec<S> = Vec::new();
        assert(priorities_of(stages@) =~= Seq::<int>::empty());
        core::mem::swap(&mut stages, &mut self.stages);
        let ghost before = stages@;
        let ghost prios = priorities_of(before);
        let mut at: usize = stages.len();
        assert(prios.take(prios.len() as int) =~= prios);
        while at > 0 && stages[at - 1].priority() > priority
            invariant
                at <= stages@.len(),
                stages@ == before,
                prios == priorities_of(before),
                slot(prios, priority as int) == slot(prios.take(at as int), priority as int),
            decreases at,
        {
            assert(prios.take(at as int).drop_last() =~= prios.take(at - 1));
            assert(prios.take(at as int).last() == before[at - 1].priority_spec());
            at = at - 1;
        }
        proof {
            if at > 0 {
                assert(prios.take(at as int).last() == before[at - 1].priority_spec());
            }
            lemma_slot_parts(prios, priority as int);
        }
        stages.insert(at, stage);
        proof {
            assert(priorities_of(stages@) =~= prios.insert(at as int, priority as int));
        }
        core::mem::swap(&mut stages, &mut self.stages);
    }

    /// Registers what makes a stage of this chain; see `push`.
    pub fn add<M: StageOf<S>>(&mut self, middleware: M)
        ensures
            final(self).stages() == old(self).stages().insert(
                slot(priorities_of(old(self).stages()), middleware.as_stage().priority_spec()),
                middleware.as_stage(),
            ),
            0 <= slot(priorities_of(old(self).stages()), middleware.as_stage().priority_spec())
                <= old(self).stages().len(),
            ascending(priorities_of(final(self).stages())),
    {
        self.push(middleware.into_stage());
    }

    /// Runs the stages from `index` on. Returns the outcome and how many
    /// stages were entered.
    pub fn execute_middleware_at_index(&self, index: usize, context: &mut MiddlewareContext) -> (r: (
        Outcome,
        usize,
    ))
        ensures
            runs(self.stages(), index as int, *old(context), *final(context), r.0, r.1 as int),
            index <= self.stages().len() ==> r.1 <= self.stages().len() - index,
            index > self.stages().len() ==> r.1 == 0,
        decreases self.stages().len() - index,
    {
        if index >= self.stages.len() {
            return (Ok(MiddlewareResult::Continue), 0);
        }
        let ghost pre = *context;
        let first = self.stages[index].before(context);
        let ghost mid = *context;
        match first {
            Ok(MiddlewareResult::Continue) => {
                let (inner, n) = self.execute_middleware_at_index(index + 1, context);
                let ghost deep = *context;
                let ghost seen = inner;
                let out = self.stages[index].after(context, inner);
                let total: usize = n + 1;
                proof {
                    assert(turn(mid, first, deep, seen));
                }
                (out, total)
            },
            other => {
                proof {
                    assert(turn(mid, other, mid, other));
                }
                (other, 1)
            },
        }
    }

    /// Sends a request through the chain and gives the full account.
    ///
    /// An empty chain is an internal error. Otherwise the stages run from
    /// the first one on, and the outcome is delivered as `delivers` says.
    pub fn run(&self, context: MiddlewareContext) -> (e: Execution)
        ensures
            self.stages().len() == 0 ==> e.entered == 0 && e.context == context && (
            e.response matches Err(HushError::InternalError(m)) && m@
                == "No middlewares or handler defined"@),
            self.stages().len() > 0 ==> e.entered <= self.stages().len() && exists|out: Outcome|
                #[trigger] runs(self.stages(), 0, context, e.context, out, e.entered as int)
                    && delivers(out, e.response),
            ran(self.stages(), context, e.context, e.response),
    {
        let mut context = context;
        if self.stages.len() == 0 {
            return Execution {
                response: Err(
                    HushError::InternalError("No middlewares or handler defined".to_owned()),
                ),
                context,
                entered: 0,
            };
        }
        let ghost pre = context;
        let (out, entered) = self.execute_middleware_at_index(0, &mut context);
        let ghost produced = out;
        let response = match out {
            Ok(MiddlewareResult::Continue) => Ok(ResponseContext::with_text(HttpStatus::OK, "OK")),
            Ok(MiddlewareResult::Response(r)) => Ok(r),
            Ok(MiddlewareResult::Error(e)) => Err(e),
            Err(e) => Err(e),
        };
        let e = Execution { response, context, entered };
        proof {
            assert(runs(self.stages(), 0, pre, e.context, produced, e.entered as int));
            assert(delivers(produced, e.response));
        }
        e
    }

    /// Sends a request through the chain and returns what the caller gets.
    pub fn execute(&self, context: MiddlewareContext) -> (response: HushResult<ResponseContext>)
        ensures
            executes(self.stages(), context, response),
    {
        let e = self.run(context);
        e.response
    }

    /// The number of registered stages.
    pub fn len(&self) -> (n: usize)
        ensures
            n == self.stages().len(),
    {
        self.stages.len()
    }

    pub fn is_empty(&self) -> (empty: bool)
        ensures
            empty == (self.stages().len() == 0),
    {
        self.stages.len() == 0
    }

    /// The names of the stages, in the order in which they run.
    pub fn middleware_names(&self) -> (names: Vec<String>)
        ensures
            names@.len() == self.stages().len(),
            forall|i: int|
                0 <= i < names@.len() ==> (#[trigger] names@[i])@ == self.stages()[i].name_spec(),
            ascending(priorities_of(self.stages())),
    {
        proof {
            use_type_invariant(self);
        }
        let mut names: Vec<String> = Vec::new();
        let mut i: usize = 0;
        while i < self.stages.len()
            invariant
                i <= self.stages@.len(),
                names@.len() == i,
                forall|k: int| 0 <= k < i ==> (#[trigger] names@[k])@ == self.stages@[k].name_spec(),
            decreases self.stages.len() - i,
        {
            names.push(self.stages[i].name().to_owned());
            i = i + 1;
        }
        names
    }

    /// The priorities of the stages, in the order in which they run.
    pub fn priorities(&self) -> (list: Vec<i32>)
        ensures
            list@.len() == self.stages().len(),
            forall|i: int|
                0 <= i < list@.len() ==> #[trigger] list@[i] == self.stages()[i].priority_spec(),
            ascending(priorities_of(self.stages())),
    {
        proof {
            use_type_invariant(self);
        }
        let mut list: Vec<i32> = Vec::new();
        let mut i: usize = 0;
        while i < self.stages.len()
            invariant
                i <= self.stages@.len(),
                list@.len() == i,
                forall|k: int| 0 <= k < i ==> #[trigger] list@[k] == self.stages@[k].priority_spec(),
            decreases self.stages.len() - i,
        {
            list.push(self.stages[i].priority());
            i = i + 1;
        }
        list
    }
}

impl<S: Middleware> Default for MiddlewareChain<S> {
    fn default() -> (chain: Self)
        ensures
            chain.stages() == Seq::<S>::empty(),
    {
        MiddlewareChain::new()
    }
}

} // verus!
