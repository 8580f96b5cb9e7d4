//! The ordering law of a chain of logging handlers.
//!
//! The contracts here pin down the classic way of observing a pipeline: each
//! handler appends one mark to a log, delegates, and appends a second mark
//! once the rest of the chain has returned. For a whole chain of such
//! handlers the law below proves that the first marks appear in registration
//! order and the second marks in exact reverse order.

use vstd::prelude::*;

use crate::{traversal, ChainItem, Middleware, PipelineContext, PipelineError, Predicate};

verus! {

/// A context that only keeps a log of marks, for observing in what order the
/// handlers of a chain run.
pub struct TraceContext {
    /// The appended marks, in the order the handlers wrote them.
    pub log: Vec<u64>,
}

impl PipelineContext for TraceContext {
    open spec fn repeat_plan(&self) -> Option<crate::handlers::RepeatState> {
        None
    }

    fn recover_repeatable(&self) -> (r: Option<crate::handlers::RepeatState>) {
        None
    }
}

/// A predicate on the trace context that never holds.
pub struct Never;

impl Predicate<TraceContext> for Never {
    open spec fn holds(&self, c: TraceContext) -> bool {
        false
    }

    fn test(&self, ctx: &TraceContext) -> (r: bool) {
        false
    }
}

/// The contract of a logging handler with marks `before` and `after`: it
/// appends `before` to the log, lets the rest of the chain run on that, and
/// appends `after` once the rest has returned successfully; an error of the
/// rest is handed back verbatim, with `after` left unwritten.
pub open spec fn around_marks<M: Middleware<TraceContext, Never>>(
    before: u64,
    after: u64,
    pre: TraceContext,
    rest: Seq<ChainItem<M, Never>>,
    post: TraceContext,
    r: Result<(), PipelineError>,
) -> bool {
    exists|entered: TraceContext, mid: TraceContext, inner: Result<(), PipelineError>|
        {
            &&& entered.log@ == pre.log@.push(before)
            &&& #[trigger] traversal(rest, entered, mid, inner)
            &&& match inner {
                Ok(()) => r is Ok && post.log@ == mid.log@.push(after),
                Err(_) => r == inner && post == mid,
            }
        }
}

/// Whether every middleware of `ms` is a logging handler: the contract of
/// `ms[i]` is exactly `around_marks(befores[i], afters[i], ..)`.
pub open spec fn all_around_marks<M: Middleware<TraceContext, Never>>(
    ms: Seq<M>,
    befores: Seq<u64>,
    afters: Seq<u64>,
) -> bool {
    &&& ms.len() == befores.len()
    &&& ms.len() == afters.len()
    &&& forall|
        i: int,
        pre: TraceContext,
        rest: Seq<ChainItem<M, Never>>,
        post: TraceContext,
        r: Result<(), PipelineError>,
    |
        0 <= i < ms.len() ==> (#[trigger] ms[i].outcome(pre, rest, post, r) <==> around_marks(
            befores[i],
            afters[i],
            pre,
            rest,
            post,
            r,
        ))
}

/// The chain model of one handler per element of `ms`, in order.
pub open spec fn handler_chain<M: Middleware<TraceContext, Never>>(ms: Seq<M>) -> Seq<
    ChainItem<M, Never>,
> {
    ms.map_values(|m: M| ChainItem::<M, Never>::Handler(m))
}

/// Law: an error cuts the chain where it is raised. In a chain whose first
/// `k` handlers log around their continuation, whose handler at position `k`
/// fails with `err` without touching the context, and whose remaining
/// handlers are arbitrary, invoking returns `err` verbatim: the log gains
/// exactly the first `k` pre-delegation marks, no handler past the failing
/// one leaves any trace, and the post-delegation marks of the handlers
/// already entered stay unwritten.
pub proof fn lemma_error_cuts_the_chain<M: Middleware<TraceContext, Never>>(
    ms: Seq<M>,
    befores: Seq<u64>,
    afters: Seq<u64>,
    k: int,
    err: Result<(), PipelineError>,
    pre: TraceContext,
    post: TraceContext,
    r: Result<(), PipelineError>,
)
    requires
        0 <= k < ms.len(),
        befores.len() == k,
        afters.len() == k,
        err is Err,
        forall|
            i: int,
            pre2: TraceContext,
            rest2: Seq<ChainItem<M, Never>>,
            post2: TraceContext,
            r2: Result<(), PipelineError>,
        |
            0 <= i < k ==> (#[trigger] ms[i].outcome(pre2, rest2, post2, r2) <==> around_marks(
                befores[i],
                afters[i],
                pre2,
                rest2,
                post2,
                r2,
            )),
        forall|
            pre2: TraceContext,
            rest2: Seq<ChainItem<M, Never>>,
            post2: TraceContext,
            r2: Result<(), PipelineError>,
        |
            #[trigger] ms[k].outcome(pre2, rest2, post2, r2) <==> (r2 == err && post2 == pre2),
        traversal(handler_chain(ms), pre, post, r),
    ensures
        r == err,
        post.log@ == pre.log@ + befores,
    decreases k,
{
    let chain = handler_chain(ms);
    assert(chain[0] == ChainItem::<M, Never>::Handler(ms[0]));
    assert(ms[0].outcome(pre, chain.skip(1), post, r));
    if k == 0 {
        assert(post.log@ =~= pre.log@ + befores);
    } else {
        assert(around_marks(befores[0], afters[0], pre, chain.skip(1), post, r));
        let (entered, mid, inner): (TraceContext, TraceContext, Result<(), PipelineError>) = choose|
            entered: TraceContext,
            mid: TraceContext,
            inner: Result<(), PipelineError>,
        |
            {
                &&& entered.log@ == pre.log@.push(befores[0])
                &&& #[trigger] traversal(chain.skip(1), entered, mid, inner)
                &&& match inner {
                    Ok(()) => r is Ok && post.log@ == mid.log@.push(afters[0]),
                    Err(_) => r == inner && post == mid,
                }
            };
        assert(chain.skip(1) =~= handler_chain(ms.skip(1)));
        assert(ms.skip(1)[k - 1] == ms[k]);
        lemma_error_cuts_the_chain(
            ms.skip(1),
            befores.skip(1),
            afters.skip(1),
            k - 1,
            err,
            entered,
            mid,
            inner,
        );
        assert(post.log@ =~= pre.log@ + befores);
    }
}

/// Law: a chain of logging handlers runs its pre-delegation code in
/// registration order and its post-delegation code in exact reverse order.
/// Invoking a chain whose handlers carry the marks `befores[i]` / `afters[i]`
/// succeeds and appends to the log first all `befores` in registration order,
/// then all `afters` in reverse.
pub proof fn lemma_marks_in_order_and_reversed<M: Middleware<TraceContext, Never>>(
    ms: Seq<M>,
    befores: Seq<u64>,
    afters: Seq<u64>,
    pre: TraceContext,
    post: TraceContext,
    r: Result<(), PipelineError>,
)
    requires
        all_around_marks(ms, befores, afters),
        traversal(handler_chain(ms), pre, post, r),
    ensures
        r is Ok,
        post.log@ == pre.log@ + befores + afters.reverse(),
    decreases ms.len(),
{
    if ms.len() == 0 {
        assert(post.log@ =~= pre.log@ + befores + afters.reverse());
    } else {
        let chain = handler_chain(ms);
        assert(chain[0] == ChainItem::<M, Never>::Handler(ms[0]));
        assert(ms[0].outcome(pre, chain.skip(1), post, r));
        assert(around_marks(befores[0], afters[0], pre, chain.skip(1), post, r));
        let (entered, mid, inner): (TraceContext, TraceContext, Result<(), PipelineError>) = choose|
            entered: TraceContext,
            mid: TraceContext,
            inner: Result<(), PipelineError>,
        |
            {
                &&& entered.log@ == pre.log@.push(befores[0])
                &&& #[trigger] traversal(chain.skip(1), entered, mid, inner)
                &&& match inner {
                    Ok(()) => r is Ok && post.log@ == mid.log@.push(afters[0]),
                    Err(_) => r == inner && post == mid,
                }
            };
        assert(chain.skip(1) =~= handler_chain(ms.skip(1)));
        assert(all_around_marks(ms.skip(1), befores.skip(1), afters.skip(1)));
        lemma_marks_in_order_and_reversed(
            ms.skip(1),
            befores.skip(1),
            afters.skip(1),
            entered,
            mid,
            inner,
        );
        assert(post.log@ =~= pre.log@ + befores + afters.reverse());
    }
}

} // verus!
