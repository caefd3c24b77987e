//! What holds of every chain: the order in which stages run, and what a
//! stage that ends the traversal shuts out; and what holds of every budget
//! of a rate limiter.

use vstd::prelude::*;
use crate::middleware::chain::ascending;
use crate::middleware::chain::lemma_slot_parts;
use crate::middleware::chain::proceeds;
use crate::middleware::chain::runs;
use crate::middleware::chain::slot;
use crate::middleware::chain::turn;
use crate::middleware::chain::MiddlewareContext;
use crate::middleware::chain::Outcome;
use crate::middleware::chain::Middleware;
use crate::middleware::builtin::stored_count;
use crate::middleware::builtin::RateLimitMiddleware;
use crate::text::lemma_decimal_reads_back;

verus! {

/// The order in which stages run when they are registered one after the
/// other with the priorities `regs`. The result lists registration numbers:
/// its first element is the number of the stage that runs first.
pub open spec fn arranged(regs: Seq<int>) -> Seq<int>
    decreases regs.len(),
{
    if regs.len() == 0 {
        Seq::empty()
    } else {
        let earlier = arranged(regs.drop_last());
        earlier.insert(slot(priorities_in(regs, earlier), regs.last()), regs.len() - 1)
    }
}

/// The priorities of the registrations `order`, in that order.
pub open spec fn priorities_in(regs: Seq<int>, order: Seq<int>) -> Seq<int> {
    Seq::new(order.len(), |i: int| regs[order[i]])
}

/// The priorities of a chain after stages with the priorities `regs` have
/// been registered one after the other, each going where `slot` puts it.
pub open spec fn registered(regs: Seq<int>) -> Seq<int>
    decreases regs.len(),
{
    if regs.len() == 0 {
        Seq::empty()
    } else {
        let earlier = registered(regs.drop_last());
        earlier.insert(slot(earlier, regs.last()), regs.last())
    }
}

/// Whether registration `x` has to run before registration `y`: it has the
/// lower priority, or the same priority and was registered first.
pub open spec fn runs_before(regs: Seq<int>, x: int, y: int) -> bool {
    regs[x] < regs[y] || (regs[x] == regs[y] && x < y)
}

/// Execution order is ascending priority, and among equal priorities it is
/// registration order: whatever priorities the stages are registered with,
/// the arrangement holds every registration once, and of any two the one
/// that stands first is the one that `runs_before` the other. The
/// priorities of the chain are those of the arrangement.
pub proof fn lemma_execution_order(regs: Seq<int>)
    ensures
        arranged(regs).len() == regs.len(),
        forall|a: int| 0 <= a < regs.len() ==> 0 <= #[trigger] arranged(regs)[a] < regs.len(),
        forall|k: int| 0 <= k < regs.len() ==> arranged(regs).contains(k),
        forall|a: int, b: int|
            0 <= a < b < regs.len() ==> runs_before(
                regs,
                #[trigger] arranged(regs)[a],
                #[trigger] arranged(regs)[b],
            ),
        ascending(priorities_in(regs, arranged(regs))),
        priorities_in(regs, arranged(regs)) == registered(regs),
    decreases regs.len(),
{
    let order = arranged(regs);
    if regs.len() == 0 {
        assert(priorities_in(regs, arranged(regs)) =~= registered(regs));
    } else {
        let n = regs.len() as int;
        let shorter = regs.drop_last();
        let earlier = arranged(shorter);
        lemma_execution_order(shorter);
        let before = priorities_in(regs, earlier);
        let p = regs.last();
        assert(before =~= priorities_in(shorter, earlier)) by {
            assert forall|i: int| 0 <= i < earlier.len() implies regs[earlier[i]]
                == shorter[earlier[i]] by {}
        }
        lemma_slot_parts(before, p);
        let at = slot(before, p);
        assert(order == earlier.insert(at, n - 1));
        assert forall|a: int| 0 <= a < n implies 0 <= #[trigger] order[a] < n by {
            if a < at {
                assert(order[a] == earlier[a]);
            } else if a > at {
                assert(order[a] == earlier[a - 1]);
            }
        }
        assert forall|k: int| 0 <= k < n implies order.contains(k) by {
            if k == n - 1 {
                assert(order[at] == k);
            } else {
                assert(earlier.contains(k));
                let i = choose|i: int| 0 <= i < earlier.len() && earlier[i] == k;
                if i < at {
                    assert(order[i] == k);
                } else {
                    assert(order[i + 1] == k);
                }
            }
        }
        assert forall|a: int, b: int| 0 <= a < b < n implies runs_before(
            regs,
            #[trigger] order[a],
            #[trigger] order[b],
        ) by {
            let x = order[a];
            let y = order[b];
            if a == at {
                assert(y == earlier[b - 1]);
                assert(before[b - 1] == regs[y]);
            } else if b == at {
                assert(x == earlier[a]);
                assert(before[a] == regs[x]);
            } else {
                let a0 = if a < at { a } else { a - 1 };
                let b0 = if b < at { b } else { b - 1 };
                assert(x == earlier[a0] && y == earlier[b0]);
                assert(runs_before(shorter, earlier[a0], earlier[b0]));
                assert(shorter[x] == regs[x] && shorter[y] == regs[y]);
            }
        }
        assert(priorities_in(regs, order) =~= before.insert(at, p)) by {
            assert forall|i: int| 0 <= i < n implies priorities_in(regs, order)[i] == before.insert(
                at,
                p,
            )[i] by {
                if i < at {
                    assert(order[i] == earlier[i]);
                } else if i > at {
                    assert(order[i] == earlier[i - 1]);
                }
            }
        }
    }
}

/// A run enters no more stages than there are from where it starts, and at
/// least one where there is any.
pub proof fn lemma_entered_bounds<S: Middleware>(
    stages: Seq<S>,
    from: int,
    pre: MiddlewareContext,
    post: MiddlewareContext,
    out: Outcome,
    entered: int,
)
    requires
        0 <= from <= stages.len(),
        runs(stages, from, pre, post, out, entered),
    ensures
        0 <= entered <= stages.len() - from,
        from < stages.len() ==> entered >= 1,
    decreases stages.len() - from,
{
    if from < stages.len() {
        let (mid, first, deep, inner) = choose|
            mid: MiddlewareContext,
            first: Outcome,
            deep: MiddlewareContext,
            inner: Outcome,
        |
            {
                &&& #[trigger] turn(mid, first, deep, inner)
                &&& stages[from].before_spec(pre, mid, first)
                &&& if proceeds(first) {
                    &&& runs(stages, from + 1, mid, deep, inner, entered - 1)
                    &&& stages[from].after_spec(deep, inner, post, out)
                } else {
                    post == mid && out == first && entered == 1
                }
            };
        if proceeds(first) {
            lemma_entered_bounds(stages, from + 1, mid, deep, inner, entered - 1);
        }
    }
}

/// Once a stage has ended the traversal, no later stage is invoked: a run
/// that stops before the end of the chain is a run of every chain that
/// starts with the same stages, whatever stands behind them, the router
/// included.
pub proof fn lemma_later_stages_never_run<S: Middleware>(
    chain: Seq<S>,
    other: Seq<S>,
    from: int,
    pre: MiddlewareContext,
    post: MiddlewareContext,
    out: Outcome,
    entered: int,
)
    requires
        0 <= from <= chain.len(),
        runs(chain, from, pre, post, out, entered),
        from + entered < chain.len(),
        from + entered <= other.len(),
        forall|k: int| from <= k < from + entered ==> chain[k] == other[k],
    ensures
        runs(other, from, pre, post, out, entered),
    decreases chain.len() - from,
{
    lemma_entered_bounds(chain, from, pre, post, out, entered);
    let (mid, first, deep, inner) = choose|
        mid: MiddlewareContext,
        first: Outcome,
        deep: MiddlewareContext,
        inner: Outcome,
    |
        {
            &&& #[trigger] turn(mid, first, deep, inner)
            &&& chain[from].before_spec(pre, mid, first)
            &&& if proceeds(first) {
                &&& runs(chain, from + 1, mid, deep, inner, entered - 1)
                &&& chain[from].after_spec(deep, inner, post, out)
            } else {
                post == mid && out == first && entered == 1
            }
        };
    assert(chain[from] == other[from]);
    if proceeds(first) {
        lemma_later_stages_never_run(chain, other, from + 1, mid, deep, inner, entered - 1);
    }
    assert(turn(mid, first, deep, inner));
}

/// A stage that never lets a request go on is the last one entered: what it
/// produces is what the chain produces from there.
pub proof fn lemma_short_circuit<S: Middleware>(
    stages: Seq<S>,
    from: int,
    pre: MiddlewareContext,
    post: MiddlewareContext,
    out: Outcome,
    entered: int,
)
    requires
        0 <= from < stages.len(),
        runs(stages, from, pre, post, out, entered),
        forall|mid: MiddlewareContext, first: Outcome| #[trigger]
            stages[from].before_spec(pre, mid, first) ==> !proceeds(first),
    ensures
        entered == 1,
        !proceeds(out),
        stages[from].before_spec(pre, post, out),
{
    let (mid, first, deep, inner) = choose|
        mid: MiddlewareContext,
        first: Outcome,
        deep: MiddlewareContext,
        inner: Outcome,
    |
        {
            &&& #[trigger] turn(mid, first, deep, inner)
            &&& stages[from].before_spec(pre, mid, first)
            &&& if proceeds(first) {
                &&& runs(stages, from + 1, mid, deep, inner, entered - 1)
                &&& stages[from].after_spec(deep, inner, post, out)
            } else {
                post == mid && out == first && entered == 1
            }
        };
}

/// The number of requests that have been admitted under `key`.
pub open spec fn counted(counters: Map<Seq<char>, Seq<char>>, key: Seq<char>) -> nat {
    stored_count(counters, key + "_count"@)
}

/// Whether `key` has been marked as over its budget.
pub open spec fn closed_off(counters: Map<Seq<char>, Seq<char>>, key: Seq<char>) -> bool {
    counters.contains_key(key + "_limited"@)
}

/// A rate limiter admits a request exactly while its key is within the
/// budget: the key has not been marked, and fewer requests than the budget
/// allows have been admitted under it. An admitted request is counted. A
/// refused one leaves the count as it is and the key marked, so that every
/// later request under the key is refused too.
pub proof fn lemma_budget(
    limiter: RateLimitMiddleware,
    key: Seq<char>,
    pre: MiddlewareContext,
    post: MiddlewareContext,
    admitted: bool,
)
    requires
        limiter.counts(key, pre, post, admitted),
    ensures
        admitted <==> !closed_off(pre.counters@, key) && counted(pre.counters@, key)
            < limiter.max_requests,
        admitted ==> !closed_off(post.counters@, key) && counted(post.counters@, key) == counted(
            pre.counters@,
            key,
        ) + 1,
        !admitted ==> closed_off(post.counters@, key) && counted(post.counters@, key) == counted(
            pre.counters@,
            key,
        ),
{
    reveal_strlit("_count");
    reveal_strlit("_limited");
    let count_key = key + "_count"@;
    let limited_key = key + "_limited"@;
    assert(count_key.len() != limited_key.len());
    if admitted {
        lemma_decimal_reads_back((counted(pre.counters@, key) + 1) as nat);
    }
}

} // verus!
