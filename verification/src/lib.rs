//! Composable middleware pipelines.
//!
//! A caller registers an ordered list of handlers ("middleware") on a
//! [`PipelineBuilder`], each free to work on a caller-owned context both
//! before and after delegating to the remainder of the chain, and assembles
//! them into a single reusable [`Pipeline`] that can be invoked any number of
//! times with independently owned contexts.

use std::sync::Arc;
use vstd::prelude::*;

pub mod handlers;
pub mod net;
pub mod prelude;
pub mod trace;

verus! {

/// Error a middleware may raise; `invoke` hands it to the caller verbatim.
#[derive(Debug, PartialEq, Eq)]
pub enum PipelineError {
    /// Generic pipeline error carrying a descriptive message.
    Generic(String),
}

impl PipelineError {
    /// The descriptive message the error carries.
    pub fn message(&self) -> (r: &String)
        ensures
            *self matches PipelineError::Generic(m) && r == m,
    {
        match self {
            PipelineError::Generic(m) => m,
        }
    }
}

/// The capability contract every context type must satisfy to flow through a
/// pipeline: generic middleware may attempt a checked recovery of a
/// capability, and a `None` answer is the definite "no match" signal, upon
/// which such middleware must behave as a no-op.
pub trait PipelineContext {
    /// What the checked recovery of the repeat capability reports for this
    /// context. Left unspecified unless the implementor says what it is.
    open spec fn repeat_plan(&self) -> Option<crate::handlers::RepeatState> {
        arbitrary()
    }

    /// Checked recovery of the repeat capability: whether another traversal
    /// should run, and after what delay.
    fn recover_repeatable(&self) -> (r: Option<crate::handlers::RepeatState>)
        ensures
            r == self.repeat_plan(),
    ;

    /// Block for `ms` milliseconds between repeated traversals. The core
    /// never pauses; only the repeat combinator asks for this, and doing
    /// nothing is the default.
    fn pause(&self, ms: u64) {
    }
}

/// A predicate evaluated against the context to route a conditional branch.
pub trait Predicate<C: PipelineContext> {
    /// What the predicate decides for a given context. Left unspecified
    /// unless the implementor says what it is.
    open spec fn holds(&self, c: C) -> bool {
        arbitrary()
    }

    /// Decide, without side effects, whether the branch is taken for this
    /// context.
    fn test(&self, ctx: &C) -> (r: bool)
        ensures
            r == self.holds(*ctx),
    ;
}

/// A unit of work in the chain: it receives the context and the continuation
/// representing everything after it, and may delegate to that continuation,
/// working on the context both before and after.
pub trait Middleware<C: PipelineContext, P: Predicate<C>>: Sized {
    /// The relation every call of this middleware satisfies: it ties the
    /// incoming context, the model of the continuation it was handed, the
    /// outgoing context and the returned outcome. Unless the implementor
    /// overrides it, the middleware promises nothing of its calls.
    open spec fn outcome(
        &self,
        pre: C,
        rest: Seq<ChainItem<Self, P>>,
        post: C,
        r: Result<(), PipelineError>,
    ) -> bool {
        true
    }

    /// Run this middleware on `ctx`, with `next` as the rest of the chain.
    fn call(&self, ctx: &mut C, next: &Pipeline<Self, P>) -> (r: Result<(), PipelineError>)
        ensures
            self.outcome(*old(ctx), next.chain(), *final(ctx), r),
    ;
}

/// Ghost model of one registered middleware entry, as the contracts speak of
/// it: either a directly registered handler, or a synthesized conditional
/// branch holding its predicate and the model of its sub-chain.
pub enum ChainItem<M, P> {
    /// A directly registered handler.
    Handler(M),
    /// A conditional branch: predicate and the registered sub-chain.
    Branch(P, Seq<ChainItem<M, P>>),
}

/// Law: a conditional branch at the head of a chain routes exclusively.
/// When its predicate holds for the incoming context, the traversal is
/// exactly that of the branch's sub-chain and the rest of the outer chain is
/// skipped entirely; when it does not hold, the traversal is exactly that of
/// the rest of the outer chain and the sub-chain never takes part.
pub proof fn lemma_branch_exclusive<C: PipelineContext, M: Middleware<C, P>, P: Predicate<C>>(
    chain: Seq<ChainItem<M, P>>,
    pred: P,
    sub: Seq<ChainItem<M, P>>,
    pre: C,
    post: C,
    r: Result<(), PipelineError>,
)
    requires
        chain.len() > 0,
        chain[0] == ChainItem::Branch(pred, sub),
    ensures
        pred.holds(pre) ==> (traversal(chain, pre, post, r) <==> traversal(sub, pre, post, r)),
        !pred.holds(pre) ==> (traversal(chain, pre, post, r) <==> traversal(
            chain.skip(1),
            pre,
            post,
            r,
        )),
{
}

/// Law: the outcome of a chain headed by a directly registered handler is
/// exactly the outcome of that handler when handed the rest of the chain as
/// its continuation. In particular an error the handler returns is the
/// outcome of the whole chain, verbatim and unwrapped, and the rest of the
/// chain runs only if the handler itself delegates to it.
pub proof fn lemma_handler_verbatim<C: PipelineContext, M: Middleware<C, P>, P: Predicate<C>>(
    chain: Seq<ChainItem<M, P>>,
    m: M,
    pre: C,
    post: C,
    r: Result<(), PipelineError>,
)
    requires
        chain.len() > 0,
        chain[0] == ChainItem::<M, P>::Handler(m),
    ensures
        traversal(chain, pre, post, r) <==> m.outcome(pre, chain.skip(1), post, r),
{
}

enum Entry<M, P> {
    Handler(M),
    Branch(P, Pipeline<M, P>),
}

struct Node<M, P> {
    entry: Entry<M, P>,
    rest: Pipeline<M, P>,
}

/// The invocation handle: the composed, immutable representation of "the rest
/// of the chain from this point forward". A terminal handle (no continuation
/// attached) invokes to an immediate success and performs no work.
pub struct Pipeline<M, P> {
    next: Option<Arc<Node<M, P>>>,
}

impl<M, P> Entry<M, P> {
    spec fn model(self) -> ChainItem<M, P>
        decreases self,
    {
        match self {
            Entry::Handler(m) => ChainItem::Handler(m),
            Entry::Branch(p, sub) => ChainItem::Branch(p, sub.chain()),
        }
    }
}

/// The meaning of invoking a chain of middleware on a context: the relation
/// between the context before, the context after and the returned outcome.
///
/// An empty chain succeeds at once and leaves the context untouched. A chain
/// headed by a handler behaves exactly as that handler does when handed the
/// rest of the chain as its continuation: in particular an error of the
/// handler is the outcome of the whole chain, verbatim. A chain headed by a
/// conditional branch routes exclusively: when the predicate holds, the
/// traversal is that of the branch's sub-chain and the rest of the outer
/// chain is skipped entirely; when it does not, the traversal is that of the
/// rest and the sub-chain never runs.
pub open spec fn traversal<C: PipelineContext, M: Middleware<C, P>, P: Predicate<C>>(
    chain: Seq<ChainItem<M, P>>,
    pre: C,
    post: C,
    r: Result<(), PipelineError>,
) -> bool
    decreases chain,
{
    if chain.len() == 0 {
        r is Ok && post == pre
    } else {
        match chain[0] {
            ChainItem::Handler(m) => m.outcome(pre, chain.skip(1), post, r),
            ChainItem::Branch(p, sub) => if p.holds(pre) {
                traversal(sub, pre, post, r)
            } else {
                traversal(chain.skip(1), pre, post, r)
            },
        }
    }
}

spec fn models<M, P>(entries: Seq<Entry<M, P>>) -> Seq<ChainItem<M, P>> {
    entries.map_values(|e: Entry<M, P>| e.model())
}

/// The ordered, append-only accumulator of middleware registrations;
/// assembly consumes it, so a partially assembled builder can never be
/// reused and an assembled pipeline can never change.
pub struct PipelineBuilder<M, P> {
    middleware: Vec<Entry<M, P>>,
}

impl<M, P> PipelineBuilder<M, P> {
    /// The ordered models of the middleware entries registered so far.
    pub closed spec fn entries(self) -> Seq<ChainItem<M, P>> {
        models(self.middleware@)
    }

    /// Creates an empty builder.
    pub fn new() -> (r: Self)
        ensures
            r.entries() == Seq::<ChainItem<M, P>>::empty(),
    {
        let r = Self { middleware: Vec::new() };
        proof {
            assert(r.entries() =~= Seq::<ChainItem<M, P>>::empty());
        }
        r
    }

    /// Appends one middleware entry; the registration order is kept.
    pub fn with(&mut self, middleware: M)
        ensures
            final(self).entries() == old(self).entries().push(ChainItem::Handler(middleware)),
    {
        let ghost handler = middleware;
        self.middleware.push(Entry::Handler(middleware));
        proof {
            assert(self.entries() =~= old(self).entries().push(ChainItem::Handler(handler)));
        }
    }

    /// Branches the pipeline: a fresh nested builder is populated by
    /// `builder`, assembled, and appended as one synthesized entry that, at
    /// invocation time, routes the traversal either into that sub-chain or
    /// to the outer continuation, according to `predicate`.
    pub fn when<F: FnOnce(PipelineBuilder<M, P>) -> PipelineBuilder<M, P>>(
        &mut self,
        predicate: P,
        builder: F,
    )
        requires
            forall|b: PipelineBuilder<M, P>|
                b.entries() == Seq::<ChainItem<M, P>>::empty() ==> call_requires(builder, (b,)),
        ensures
            exists|populated: PipelineBuilder<M, P>|
                {
                    &&& #[trigger] final(self).entries() == old(self).entries().push(
                        ChainItem::Branch(predicate, populated.entries()),
                    )
                    &&& exists|empty: PipelineBuilder<M, P>|
                        empty.entries() == Seq::<ChainItem<M, P>>::empty() && call_ensures(
                            builder,
                            (empty,),
                            populated,
                        )
                },
    {
        let branch_builder = PipelineBuilder::new();
        let ghost empty = branch_builder;
        let populated = builder(branch_builder);
        let ghost sub = populated;
        let ghost pred = predicate;
        let branch = populated.assemble();
        self.middleware.push(Entry::Branch(predicate, branch));
        proof {
            assert(self.entries() =~= old(self).entries().push(
                ChainItem::Branch(pred, sub.entries()),
            ));
        }
    }

    /// Assembles the registered chain, consuming the builder, into a single
    /// invocation handle wrapping exactly the registered entries in
    /// registration order. Composition folds from the tail: each entry is
    /// wrapped together with the already composed continuation representing
    /// everything after it, shared so that the result can be invoked any
    /// number of times. An empty builder assembles to the terminal handle.
    pub fn assemble(self) -> (r: Pipeline<M, P>)
        ensures
            r.chain() == self.entries(),
    {
        let mut remaining = self.middleware;
        let mut chain = Pipeline { next: None };
        proof {
            assert(models(remaining@) + chain.chain() =~= self.entries());
        }
        while remaining.len() > 0
            invariant
                models(remaining@) + chain.chain() == self.entries(),
            decreases remaining.len(),
        {
            let ghost before = remaining@;
            let entry = match remaining.pop() {
                Some(e) => e,
                None => {
                    return chain;
                },
            };
            let ghost entry_spec = entry;
            chain = Pipeline { next: Some(Arc::new(Node { entry, rest: chain })) };
            proof {
                assert(before =~= remaining@.push(entry_spec));
                assert(models(before) =~= models(remaining@).push(entry_spec.model()));
                assert(models(remaining@) + chain.chain() =~= self.entries());
            }
        }
        proof {
            assert(chain.chain() =~= self.entries());
        }
        chain
    }
}

impl<M, P> Pipeline<M, P> {
    /// The ordered models of the middleware entries this handle still wraps.
    pub closed spec fn chain(self) -> Seq<ChainItem<M, P>>
        decreases self,
    {
        match self.next {
            None => Seq::empty(),
            Some(node) => Seq::empty().push((*node).entry.model()) + (*node).rest.chain(),
        }
    }

    /// Invoke the chain from this point on: a terminal handle succeeds at
    /// once without touching the context; otherwise the first wrapped entry
    /// runs with the rest of the chain as its continuation, and its outcome
    /// is returned verbatim.
    ///
    /// The handle itself carries no mutable state: it is borrowed immutably,
    /// and what an invocation may produce relates, as the contract states,
    /// only to the chain and to the caller's own context, so traversals with
    /// independently owned contexts cannot observe one another.
    pub fn invoke<C: PipelineContext>(&self, ctx: &mut C) -> (r: Result<(), PipelineError>) where
        M: Middleware<C, P>,
        P: Predicate<C>,

        ensures
            traversal(self.chain(), *old(ctx), *final(ctx), r),
            self.chain().len() == 0 ==> r is Ok && *final(ctx) == *old(ctx),
        decreases *self,
    {
        match &self.next {
            None => Ok(()),
            Some(node) => {
                let ghost whole = self.chain();
                proof {
                    assert(whole[0] == (*node).entry.model());
                    assert(whole.skip(1) =~= (*node).rest.chain());
                }
                match &node.entry {
                    Entry::Handler(m) => {
                        let r = m.call(ctx, &node.rest);
                        proof {
                            assert(whole[0] == ChainItem::<M, P>::Handler(*m));
                            assert(traversal(whole, *old(ctx), *ctx, r));
                        }
                        r
                    },
                    Entry::Branch(p, sub) => {
                        proof {
                            assert(whole[0] == ChainItem::<M, P>::Branch(*p, sub.chain()));
                        }
                        if p.test(ctx) {
                            let r = sub.invoke(ctx);
                            proof {
                                assert(traversal(whole, *old(ctx), *ctx, r));
                            }
                            r
                        } else {
                            let r = node.rest.invoke(ctx);
                            proof {
                                assert(traversal(whole, *old(ctx), *ctx, r));
                            }
                            r
                        }
                    },
                }
            },
        }
    }
}

} // verus!
