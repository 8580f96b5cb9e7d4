//! A standard set of middleware handlers and capability traits for the
//! pipeline core.

use vstd::prelude::*;

use crate::{traversal, ChainItem, Middleware, Pipeline, PipelineContext, PipelineError, Predicate};

verus! {

/// What a checked recovery of the repeat capability reports: whether the
/// context should be sent down the pipeline once more, and an optional delay
/// in milliseconds to wait before doing so.
#[derive(Clone, Copy, Debug, PartialEq, Eq)]
pub struct RepeatState {
    /// Whether another traversal should run.
    pub repeat: bool,
    /// Optional delay in milliseconds before the next traversal.
    pub delay: Option<u64>,
}

/// Lets a context type report a repeatable control flow through the pipeline.
pub trait Repeatable {
    /// Whether this context asks to be sent back down the pipeline. Left
    /// unspecified unless the implementor says what it is.
    open spec fn spec_should_repeat(&self) -> bool {
        arbitrary()
    }

    /// The delay this context asks for between traversals: none, unless the
    /// implementor says otherwise.
    open spec fn delay_plan(&self) -> Option<u64> {
        None
    }

    /// Whether the context should be sent back down the pipeline.
    fn should_repeat(&self) -> (r: bool)
        ensures
            r == self.spec_should_repeat(),
    ;

    /// Optional delay in milliseconds to wait before sending the context
    /// back down the pipeline; what [`Repeatable::delay_plan`] reports, and
    /// so none unless the implementor says otherwise.
    fn delay(&self) -> (r: Option<u64>)
        ensures
            r == self.delay_plan(),
    ;
}

/// Middleware that results in a no-op by immediately returning success,
/// without delegating to its continuation: an explicit end of a chain or of
/// a branch. [`End`] is the same handler as a registrable value.
pub fn end<C: PipelineContext, M: Middleware<C, P>, P: Predicate<C>>(
    _ctx: &mut C,
    _next: &Pipeline<M, P>,
) -> (r: Result<(), PipelineError>)
    ensures
        r is Ok,
        *final(_ctx) == *old(_ctx),
{
    Ok(())
}

/// The [`end`] handler as a middleware value: registered in a chain or a
/// branch, it caps the traversal there, succeeding without touching the
/// context and without delegating to its continuation.
pub struct End;

impl<C: PipelineContext, P: Predicate<C>> Middleware<C, P> for End {
    open spec fn outcome(
        &self,
        pre: C,
        rest: Seq<crate::ChainItem<End, P>>,
        post: C,
        r: Result<(), PipelineError>,
    ) -> bool {
        r is Ok && post == pre
    }

    fn call(&self, ctx: &mut C, next: &Pipeline<End, P>) -> (r: Result<(), PipelineError>) {
        Ok(())
    }
}

/// How many traversals the repeat combinator drives at most before giving
/// up, so that every run of it comes to an end; no context asks for that
/// many.
pub const REPEAT_BOUND: u64 = 0xffff_ffff_ffff_ffff;

/// Whether the recovered repeat capability of this context asks for another
/// traversal.
pub open spec fn asks_repeat<C: PipelineContext>(c: C) -> bool {
    c.repeat_plan() matches Some(state) && state.repeat
}

/// One run of the repeat combinator over `chain`: `cs` lists the context at
/// the start of each traversal, followed by the context the run ends with.
/// Every traversal starts from a context whose recovered capability asks to
/// repeat; every traversal but the last succeeds; the last returns `r`
/// verbatim. A run ends successfully only once the context no longer asks to
/// repeat (its capability declines or reports no further traversal), unless
/// the combinator's traversal bound was reached; an erring run ends at its
/// failing traversal.
pub open spec fn repeat_run<C: PipelineContext, M: Middleware<C, P>, P: Predicate<C>>(
    chain: Seq<ChainItem<M, P>>,
    cs: Seq<C>,
    r: Result<(), PipelineError>,
) -> bool {
    let n = cs.len() - 1;
    &&& cs.len() >= 2
    &&& forall|i: int| 0 <= i < n ==> asks_repeat(#[trigger] cs[i])
    &&& forall|i: int|
        0 <= i < n - 1 ==> traversal(chain, #[trigger] cs[i], cs[i + 1], Ok::<
            (),
            PipelineError,
        >(()))
    &&& traversal(
        chain,
        cs[n - 1],
        cs[n],
        if r is Ok {
            Ok::<(), PipelineError>(())
        } else {
            r
        },
    )
    &&& r is Ok ==> (!asks_repeat(cs[n]) || n >= REPEAT_BOUND as int)
}

/// Middleware that keeps sending the context down the continuation as long
/// as the recovered repeat capability asks for it, pausing for the reported
/// delay after each traversal. A context whose checked recovery declines is
/// left alone: the middleware does nothing at all, and in particular never
/// delegates to the continuation; the same holds when the recovered
/// capability asks for no traversal. Otherwise the call is a [`repeat_run`]
/// from the incoming to the outgoing context: the continuation runs once per
/// asking context, and an error of the continuation is returned verbatim and
/// ends the repetition.
pub fn repeat<C: PipelineContext, M: Middleware<C, P>, P: Predicate<C>>(
    ctx: &mut C,
    next: &Pipeline<M, P>,
) -> (r: Result<(), PipelineError>)
    ensures
        old(ctx).repeat_plan() is None ==> r is Ok && *final(ctx) == *old(ctx),
        (old(ctx).repeat_plan() matches Some(state) && !state.repeat) ==> r is Ok && *final(ctx)
            == *old(ctx),
        asks_repeat(*old(ctx)) ==> exists|cs: Seq<C>|
            {
                &&& cs[0] == *old(ctx)
                &&& cs[cs.len() - 1] == *final(ctx)
                &&& #[trigger] repeat_run(next.chain(), cs, r)
            },
        r is Err ==> exists|pre: C, post: C| traversal(next.chain(), pre, post, r),
{
    let first = match ctx.recover_repeatable() {
        None => {
            return Ok(());
        },
        Some(s) => s,
    };
    if !first.repeat {
        return Ok(());
    }
    let ghost mut trail: Seq<C> = seq![*ctx];
    let mut fuel: u64 = REPEAT_BOUND;
    loop
        invariant
            trail.len() >= 1,
            trail[0] == *old(ctx),
            trail[trail.len() - 1] == *ctx,
            asks_repeat(trail[0]),
            asks_repeat(*ctx),
            forall|i: int| 0 <= i < trail.len() - 1 ==> asks_repeat(#[trigger] trail[i]),
            forall|i: int|
                0 <= i < trail.len() - 1 ==> traversal(next.chain(), #[trigger] trail[i], trail[i
                    + 1], Ok::<(), PipelineError>(())),
            trail.len() as int == 1 + REPEAT_BOUND as int - fuel as int,
        decreases fuel,
    {
        if fuel == 0 {
            proof {
                assert(repeat_run(next.chain(), trail, Ok::<(), PipelineError>(())));
            }
            return Ok(());
        }
        fuel = fuel - 1;
        let ghost before = *ctx;
        let outcome = next.invoke(ctx);
        let ghost done = trail.push(*ctx);
        if outcome.is_err() {
            proof {
                assert(traversal(next.chain(), before, *ctx, outcome));
                assert(repeat_run(next.chain(), done, outcome));
            }
            return outcome;
        }
        let state = match ctx.recover_repeatable() {
            None => {
                proof {
                    assert(outcome->Ok_0 == ());
                    assert(outcome == Ok::<(), PipelineError>(()));
                    assert(traversal(next.chain(), before, *ctx, outcome));
                    assert(!asks_repeat(*ctx));
                    assert(repeat_run(next.chain(), done, Ok::<(), PipelineError>(())));
                }
                return Ok(());
            },
            Some(s) => s,
        };
        if let Some(ms) = state.delay {
            ctx.pause(ms);
        }
        if !state.repeat {
            proof {
                assert(outcome->Ok_0 == ());
                assert(outcome == Ok::<(), PipelineError>(()));
                assert(traversal(next.chain(), before, *ctx, outcome));
                assert(!asks_repeat(*ctx));
                assert(repeat_run(next.chain(), done, Ok::<(), PipelineError>(())));
            }
            return Ok(());
        }
        proof {
            trail = done;
        }
    }
}

} // verus!