use libmw::handlers::{end, repeat, RepeatState, Repeatable};
use libmw::net::{Receivable, Sendable};
use libmw::{Middleware, Pipeline, PipelineBuilder, PipelineContext, PipelineError, Predicate};

struct Context {
    take_branch: bool,
}

impl PipelineContext for Context {
    fn recover_repeatable(&self) -> Option<RepeatState> {
        None
    }
}

struct TakeBranch;

impl Predicate<Context> for TakeBranch {
    fn test(&self, ctx: &Context) -> bool {
        ctx.take_branch
    }
}

enum Say {
    Around(&'static str, &'static str),
}

impl Middleware<Context, TakeBranch> for Say {
    fn call(
        &self,
        ctx: &mut Context,
        next: &Pipeline<Say, TakeBranch>,
    ) -> Result<(), PipelineError> {
        match self {
            Say::Around(before, after) => {
                println!("{}", before);
                next.invoke(ctx)?;
                println!("{}", after);
                Ok(())
            }
        }
    }
}

#[test]
fn it_works() {
    let mut builder = PipelineBuilder::new();

    builder.with(Say::Around("before in closure", "after in closure"));

    builder.when(TakeBranch, |mut builder: PipelineBuilder<Say, TakeBranch>| {
        builder.with(Say::Around("branch handler 1 before", "branch handler 1 after"));
        builder.with(Say::Around("branch handler 2 before", "branch handler 2 after"));
        builder
    });

    builder.with(Say::Around("before in last closure", "after in last closure"));

    let pipeline = builder.assemble();
    let mut context = Context { take_branch: true };
    let result = pipeline.invoke(&mut context);
    match result {
        Ok(_) => {
            // handle things in context
        }
        Err(e) => {
            println!("{:#?}", e);
        }
    }

    let mut context = Context { take_branch: false };
    let result = pipeline.invoke(&mut context);
    match result {
        Ok(_) => {
            // handle things in context
        }
        Err(e) => {
            println!("{:#?}", e);
        }
    }
    println!("It did not crash!");
}

struct Ctx {
    log: Vec<String>,
    flag: bool,
    remaining: u32,
    delay: Option<u64>,
    repeat_capable: bool,
    pauses: std::cell::RefCell<Vec<u64>>,
}

impl Ctx {
    fn new() -> Ctx {
        Ctx {
            log: Vec::new(),
            flag: false,
            remaining: 0,
            delay: None,
            repeat_capable: false,
            pauses: std::cell::RefCell::new(Vec::new()),
        }
    }
}

impl Repeatable for Ctx {
    fn should_repeat(&self) -> bool {
        self.remaining > 0
    }

    fn delay(&self) -> Option<u64> {
        self.delay
    }
}

impl PipelineContext for Ctx {
    fn recover_repeatable(&self) -> Option<RepeatState> {
        if self.repeat_capable {
            Some(RepeatState {
                repeat: self.should_repeat(),
                delay: self.delay(),
            })
        } else {
            None
        }
    }

    fn pause(&self, ms: u64) {
        self.pauses.borrow_mut().push(ms);
    }
}

struct Flag;

impl Predicate<Ctx> for Flag {
    fn test(&self, ctx: &Ctx) -> bool {
        ctx.flag
    }
}

enum Mw {
    Log(&'static str, &'static str),
    Fail(&'static str),
    Tick(&'static str),
    End,
    Repeat,
}

impl Middleware<Ctx, Flag> for Mw {
    fn call(&self, ctx: &mut Ctx, next: &Pipeline<Mw, Flag>) -> Result<(), PipelineError> {
        match self {
            Mw::Log(before, after) => {
                ctx.log.push(before.to_string());
                next.invoke(ctx)?;
                ctx.log.push(after.to_string());
                Ok(())
            }
            Mw::Fail(message) => Err(PipelineError::Generic(message.to_string())),
            Mw::Tick(mark) => {
                ctx.log.push(mark.to_string());
                if ctx.remaining > 0 {
                    ctx.remaining -= 1;
                }
                next.invoke(ctx)
            }
            Mw::End => end(ctx, next),
            Mw::Repeat => repeat(ctx, next),
        }
    }
}

fn logged(ctx: &Ctx) -> Vec<&str> {
    ctx.log.iter().map(|s| s.as_str()).collect()
}

#[test]
fn pre_code_runs_in_order_and_post_code_unwinds_in_reverse() {
    let mut builder = PipelineBuilder::new();
    builder.with(Mw::Log("m0-pre", "m0-post"));
    builder.with(Mw::Log("m1-pre", "m1-post"));
    builder.with(Mw::Log("m2-pre", "m2-post"));
    let pipeline = builder.assemble();

    let mut ctx = Ctx::new();
    let result = pipeline.invoke(&mut ctx);

    assert!(result.is_ok());
    assert_eq!(
        logged(&ctx),
        vec!["m0-pre", "m1-pre", "m2-pre", "m2-post", "m1-post", "m0-post"]
    );
}

#[test]
fn empty_builder_assembles_to_a_silent_success() {
    let builder: PipelineBuilder<Mw, Flag> = PipelineBuilder::new();
    let pipeline = builder.assemble();

    let mut ctx = Ctx::new();
    let result = pipeline.invoke(&mut ctx);

    assert!(result.is_ok());
    assert!(ctx.log.is_empty());
    assert!(ctx.pauses.borrow().is_empty());
}

fn branching_pipeline() -> Pipeline<Mw, Flag> {
    let mut builder = PipelineBuilder::new();
    builder.with(Mw::Log("m0-pre", "m0-post"));
    builder.when(Flag, |mut branch: PipelineBuilder<Mw, Flag>| {
        branch.with(Mw::Log("b0-pre", "b0-post"));
        branch
    });
    builder.with(Mw::Log("m1-pre", "m1-post"));
    builder.assemble()
}

#[test]
fn taken_branch_replaces_the_outer_continuation() {
    let pipeline = branching_pipeline();

    let mut ctx = Ctx::new();
    ctx.flag = true;
    let result = pipeline.invoke(&mut ctx);

    assert!(result.is_ok());
    assert_eq!(logged(&ctx), vec!["m0-pre", "b0-pre", "b0-post", "m0-post"]);
}

#[test]
fn untaken_branch_never_runs_and_the_outer_chain_goes_on() {
    let pipeline = branching_pipeline();

    let mut ctx = Ctx::new();
    ctx.flag = false;
    let result = pipeline.invoke(&mut ctx);

    assert!(result.is_ok());
    assert_eq!(logged(&ctx), vec!["m0-pre", "m1-pre", "m1-post", "m0-post"]);
}

#[test]
fn an_error_comes_back_verbatim_and_stops_the_chain() {
    let mut builder = PipelineBuilder::new();
    builder.with(Mw::Log("m0-pre", "m0-post"));
    builder.with(Mw::Fail("boom"));
    builder.with(Mw::Log("m2-pre", "m2-post"));
    let pipeline = builder.assemble();

    let mut ctx = Ctx::new();
    let result = pipeline.invoke(&mut ctx);

    assert_eq!(result, Err(PipelineError::Generic(String::from("boom"))));
    // The failing middleware stops everything after it, and the post-code of
    // the middleware before it is abandoned by the propagated error.
    assert_eq!(logged(&ctx), vec!["m0-pre"]);
}

#[test]
fn an_error_inside_a_branch_is_the_outcome_of_the_branch() {
    let mut builder = PipelineBuilder::new();
    builder.when(Flag, |mut branch: PipelineBuilder<Mw, Flag>| {
        branch.with(Mw::Fail("branch barfed"));
        branch
    });
    builder.with(Mw::Log("m1-pre", "m1-post"));
    let pipeline = builder.assemble();

    let mut ctx = Ctx::new();
    ctx.flag = true;
    let result = pipeline.invoke(&mut ctx);

    assert_eq!(
        result,
        Err(PipelineError::Generic(String::from("branch barfed")))
    );
    assert!(ctx.log.is_empty());
}

#[test]
fn an_error_carries_its_message() {
    let err = PipelineError::Generic(String::from("boom"));
    assert_eq!(err.message(), "boom");
}

#[test]
fn repeat_drives_the_continuation_the_reported_number_of_times() {
    let mut builder = PipelineBuilder::new();
    builder.with(Mw::Repeat);
    builder.with(Mw::Tick("work"));
    let pipeline = builder.assemble();

    let mut ctx = Ctx::new();
    ctx.repeat_capable = true;
    ctx.remaining = 3;
    ctx.delay = Some(0);
    let result = pipeline.invoke(&mut ctx);

    assert!(result.is_ok());
    assert_eq!(logged(&ctx), vec!["work", "work", "work"]);
    // One pause after each traversal, with the reported delay.
    assert_eq!(*ctx.pauses.borrow(), vec![0, 0, 0]);
}

#[test]
fn repeat_pauses_for_the_reported_delay_after_each_traversal() {
    let mut builder = PipelineBuilder::new();
    builder.with(Mw::Repeat);
    builder.with(Mw::Tick("work"));
    let pipeline = builder.assemble();

    let mut ctx = Ctx::new();
    ctx.repeat_capable = true;
    ctx.remaining = 2;
    ctx.delay = Some(5);
    let result = pipeline.invoke(&mut ctx);

    assert!(result.is_ok());
    assert_eq!(logged(&ctx), vec!["work", "work"]);
    // The delay is consulted once after each traversal, the last included.
    assert_eq!(*ctx.pauses.borrow(), vec![5, 5]);
}

#[test]
fn repeat_does_nothing_when_no_traversal_is_asked_for() {
    let mut builder = PipelineBuilder::new();
    builder.with(Mw::Repeat);
    builder.with(Mw::Tick("work"));
    let pipeline = builder.assemble();

    let mut ctx = Ctx::new();
    ctx.repeat_capable = true;
    ctx.remaining = 0;
    let result = pipeline.invoke(&mut ctx);

    assert!(result.is_ok());
    assert!(ctx.log.is_empty());
    assert!(ctx.pauses.borrow().is_empty());
}

#[test]
fn repeat_hands_back_an_error_of_the_continuation() {
    let mut builder = PipelineBuilder::new();
    builder.with(Mw::Repeat);
    builder.with(Mw::Fail("tired"));
    let pipeline = builder.assemble();

    let mut ctx = Ctx::new();
    ctx.repeat_capable = true;
    ctx.remaining = 3;
    let result = pipeline.invoke(&mut ctx);

    assert_eq!(result, Err(PipelineError::Generic(String::from("tired"))));
}

#[test]
fn repeat_leaves_a_context_that_declines_the_capability_alone() {
    let mut builder = PipelineBuilder::new();
    builder.with(Mw::Repeat);
    builder.with(Mw::Tick("work"));
    let pipeline = builder.assemble();

    let mut ctx = Ctx::new();
    ctx.repeat_capable = false;
    ctx.remaining = 3;
    let result = pipeline.invoke(&mut ctx);

    assert!(result.is_ok());
    assert!(ctx.log.is_empty());
    assert!(ctx.pauses.borrow().is_empty());
}

#[test]
fn end_succeeds_without_delegating() {
    let mut builder = PipelineBuilder::new();
    builder.with(Mw::End);
    builder.with(Mw::Log("m1-pre", "m1-post"));
    let pipeline = builder.assemble();

    let mut ctx = Ctx::new();
    let result = pipeline.invoke(&mut ctx);

    assert!(result.is_ok());
    assert!(ctx.log.is_empty());
}

#[test]
fn end_as_a_value_caps_a_chain() {
    let mut builder = PipelineBuilder::<libmw::handlers::End, Flag>::new();
    builder.with(libmw::handlers::End);
    let pipeline = builder.assemble();

    let mut ctx = Ctx::new();
    let result = pipeline.invoke(&mut ctx);

    assert!(result.is_ok());
    assert!(ctx.log.is_empty());
}

#[test]
fn assembly_consumes_the_builder() {
    // `assemble` takes the builder by value, so a second assembly of the same
    // builder state does not compile: the handle below is the only pipeline
    // that builder state can ever produce.
    let mut builder = PipelineBuilder::new();
    builder.with(Mw::Log("m0-pre", "m0-post"));
    let pipeline = builder.assemble();

    let mut ctx = Ctx::new();
    assert!(pipeline.invoke(&mut ctx).is_ok());
    assert_eq!(logged(&ctx), vec!["m0-pre", "m0-post"]);
}

struct BufCtx {
    request_buf: Vec<u8>,
    response_buf: Vec<u8>,
}

impl Receivable for BufCtx {
    fn request(&mut self) -> Vec<u8> {
        std::mem::take(&mut self.request_buf)
    }

    fn set_request(&mut self, bytes: Vec<u8>) {
        self.request_buf = bytes;
    }
}

impl Sendable for BufCtx {
    fn response(&mut self) -> Vec<u8> {
        std::mem::take(&mut self.response_buf)
    }

    fn set_response(&mut self, bytes: Vec<u8>) {
        self.response_buf = bytes;
    }
}

#[test]
fn network_buffers_can_be_taken_filled_and_put_back() {
    let mut ctx = BufCtx {
        request_buf: Vec::new(),
        response_buf: vec![1, 2, 3],
    };

    let mut incoming = ctx.request();
    incoming.extend_from_slice(&[9, 8]);
    ctx.set_request(incoming);
    assert_eq!(ctx.request_buf, vec![9, 8]);

    let outgoing = ctx.response();
    assert_eq!(outgoing, vec![1, 2, 3]);
    ctx.set_response(Vec::new());
    assert!(ctx.response_buf.is_empty());
}

struct TraceMark {
    before: u64,
    after: u64,
}

impl Middleware<libmw::trace::TraceContext, libmw::trace::Never> for TraceMark {
    fn call(
        &self,
        ctx: &mut libmw::trace::TraceContext,
        next: &Pipeline<TraceMark, libmw::trace::Never>,
    ) -> Result<(), PipelineError> {
        ctx.log.push(self.before);
        next.invoke(ctx)?;
        ctx.log.push(self.after);
        Ok(())
    }
}

#[test]
fn trace_marks_come_out_in_order_and_reversed() {
    let mut builder = PipelineBuilder::new();
    builder.with(TraceMark { before: 1, after: 10 });
    builder.with(TraceMark { before: 2, after: 20 });
    builder.with(TraceMark { before: 3, after: 30 });
    let pipeline = builder.assemble();

    let mut ctx = libmw::trace::TraceContext { log: Vec::new() };
    let result = pipeline.invoke(&mut ctx);

    assert!(result.is_ok());
    assert_eq!(ctx.log, vec![1, 2, 3, 30, 20, 10]);
}

#[test]
fn one_pipeline_serves_independent_contexts() {
    let pipeline = branching_pipeline();

    let mut first = Ctx::new();
    first.flag = true;
    let mut second = Ctx::new();
    second.flag = false;

    assert!(pipeline.invoke(&mut first).is_ok());
    assert!(pipeline.invoke(&mut second).is_ok());

    // Neither traversal observes the other's mutations.
    assert_eq!(logged(&first), vec!["m0-pre", "b0-pre", "b0-post", "m0-post"]);
    assert_eq!(logged(&second), vec!["m0-pre", "m1-pre", "m1-post", "m0-post"]);
}
