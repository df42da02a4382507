//! The course of a message through the agent: which task follows which, what
//! is answered, and what is counted.
use vstd::prelude::*;

use crate::hooks::HookPhase;
use crate::ids::{AgentId, MemoryId, RoomId};
use crate::metrics;
use crate::metrics::PipelineMetrics;
use crate::respond;
use crate::text;
use crate::time::Timestamp;
use crate::types::{Content, Memory, StreamEvent};

verus! {

/// How the processing of a message ends.
#[derive(Clone, Copy, Debug, PartialEq, Eq, Structural)]
pub enum Reply {
    /// A hook aborted: there is no response.
    Silence,
    /// It was decided not to respond.
    Skipped,
    /// The response is given.
    Response,
    /// The error of the last task is given.
    Failure,
}

/// The tasks that make up the processing of a message.
#[derive(Clone, Copy, Debug, PartialEq, Eq, Structural)]
pub enum Task {
    RunHooks(HookPhase),
    /// Store the message and compose the state.
    StoreAndCompose,
    /// Decide whether to respond.
    Decide,
    /// Generate the response.
    Generate,
    /// Store the response.
    StoreResponse,
    /// Start to generate and store the embedding of the response.
    Embed,
    RunEvaluators,
    /// Ask for a plan of actions.
    MakePlan,
    /// Carry the plan out.
    RunPlan,
    /// Run the actions that the response names.
    RunActions,
    Finish(Reply),
}

/// How a task came out.
#[derive(Clone, Copy, Debug, PartialEq, Eq, Structural)]
pub enum Event {
    /// The hooks came back; `aborts` where they abort.
    Hooks { aborts: bool },
    Done,
    Failed,
    /// It was decided whether to respond.
    Decided(bool),
    /// A response was generated: with a text that is not empty, with actions.
    Generated { has_text: bool, has_actions: bool },
    /// A plan was made: with steps, or empty.
    Planned { has_steps: bool },
}

/// A message in the course of being processed.
#[derive(Clone, Copy, Debug, PartialEq, Eq, Structural)]
pub struct Pipeline {
    /// Actions are planned, and there are some.
    pub planning: bool,
    /// The task at hand.
    pub task: Task,
    /// What was decided about responding.
    pub respond: bool,
    /// The response has a text that is not empty.
    pub has_text: bool,
    /// The response names actions.
    pub has_actions: bool,
}

/// The task that follows the hooks of a phase.
pub open spec fn after_hooks(p: Pipeline, phase: HookPhase, aborts: bool) -> Task {
    match phase {
        HookPhase::IncomingBeforeCompose => if aborts {
            Task::Finish(Reply::Silence)
        } else {
            Task::StoreAndCompose
        },
        HookPhase::PreShouldRespond => if aborts {
            Task::Finish(Reply::Silence)
        } else {
            Task::Decide
        },
        HookPhase::PostShouldRespond => if p.respond {
            Task::RunHooks(HookPhase::PreGenerate)
        } else {
            Task::Finish(Reply::Skipped)
        },
        HookPhase::PreGenerate => if aborts {
            Task::Finish(Reply::Silence)
        } else {
            Task::Generate
        },
        HookPhase::PostGenerate => Task::StoreResponse,
        HookPhase::PreEvaluate => Task::RunEvaluators,
        HookPhase::PostEvaluate => if p.planning {
            Task::MakePlan
        } else {
            named_actions(p)
        },
        _ => Task::Finish(Reply::Failure),
    }
}

/// The actions that the response names, where there are any, and else the end.
pub open spec fn named_actions(p: Pipeline) -> Task {
    if p.has_actions {
        Task::RunActions
    } else {
        Task::Finish(Reply::Response)
    }
}

/// Where a message stands after the task at hand came out as `e`.
pub open spec fn after(p: Pipeline, e: Event) -> Pipeline {
    let failed = Pipeline { task: Task::Finish(Reply::Failure), ..p };
    match p.task {
        Task::RunHooks(phase) => match e {
            Event::Hooks { aborts } => Pipeline { task: after_hooks(p, phase, aborts), ..p },
            _ => failed,
        },
        Task::StoreAndCompose => match e {
            Event::Done => Pipeline { task: Task::RunHooks(HookPhase::PreShouldRespond), ..p },
            _ => failed,
        },
        Task::Decide => match e {
            Event::Decided(respond) => Pipeline {
                task: Task::RunHooks(HookPhase::PostShouldRespond),
                respond,
                ..p
            },
            _ => failed,
        },
        Task::Generate => match e {
            Event::Generated { has_text, has_actions } => Pipeline {
                task: Task::RunHooks(HookPhase::PostGenerate),
                has_text,
                has_actions,
                ..p
            },
            _ => failed,
        },
        Task::StoreResponse => match e {
            Event::Done => Pipeline {
                task: if p.has_text {
                    Task::Embed
                } else {
                    Task::RunHooks(HookPhase::PreEvaluate)
                },
                ..p
            },
            _ => failed,
        },
        Task::Embed => Pipeline { task: Task::RunHooks(HookPhase::PreEvaluate), ..p },
        Task::RunEvaluators => Pipeline { task: Task::RunHooks(HookPhase::PostEvaluate), ..p },
        Task::MakePlan => match e {
            Event::Planned { has_steps } => Pipeline {
                task: if has_steps {
                    Task::RunPlan
                } else {
                    Task::Finish(Reply::Response)
                },
                ..p
            },
            _ => Pipeline { task: named_actions(p), ..p },
        },
        Task::RunPlan => Pipeline { task: Task::Finish(Reply::Response), ..p },
        Task::RunActions => Pipeline { task: Task::Finish(Reply::Response), ..p },
        Task::Finish(_) => p,
    }
}

impl Pipeline {
    /// A message that has just come in.
    pub open spec fn begun(planning: bool) -> Self {
        Pipeline {
            planning,
            task: Task::RunHooks(HookPhase::IncomingBeforeCompose),
            respond: false,
            has_text: false,
            has_actions: false,
        }
    }

    /// A message that has just come in: actions are planned where planning is
    /// enabled and there are actions.
    pub fn new(planning_enabled: bool, action_count: usize) -> (r: Self)
        ensures
            r == Pipeline::begun(planning_enabled && action_count > 0),
    {
        Pipeline {
            planning: planning_enabled && action_count > 0,
            task: Task::RunHooks(HookPhase::IncomingBeforeCompose),
            respond: false,
            has_text: false,
            has_actions: false,
        }
    }

    fn after_hooks_task(&self, phase: HookPhase, aborts: bool) -> (r: Task)
        ensures
            r == after_hooks(*self, phase, aborts),
    {
        match phase {
            HookPhase::IncomingBeforeCompose => if aborts {
                Task::Finish(Reply::Silence)
            } else {
                Task::StoreAndCompose
            },
            HookPhase::PreShouldRespond => if aborts {
                Task::Finish(Reply::Silence)
            } else {
                Task::Decide
            },
            HookPhase::PostShouldRespond => if self.respond {
                Task::RunHooks(HookPhase::PreGenerate)
            } else {
                Task::Finish(Reply::Skipped)
            },
            HookPhase::PreGenerate => if aborts {
                Task::Finish(Reply::Silence)
            } else {
                Task::Generate
            },
            HookPhase::PostGenerate => Task::StoreResponse,
            HookPhase::PreEvaluate => Task::RunEvaluators,
            HookPhase::PostEvaluate => if self.planning {
                Task::MakePlan
            } else {
                self.named_actions_task()
            },
            _ => Task::Finish(Reply::Failure),
        }
    }

    fn named_actions_task(&self) -> (r: Task)
        ensures
            r == named_actions(*self),
    {
        if self.has_actions {
            Task::RunActions
        } else {
            Task::Finish(Reply::Response)
        }
    }

    /// Goes on after the task at hand came out as `e`.
    pub fn step(&mut self, e: Event)
        ensures
            *final(self) == after(*old(self), e),
    {
        match self.task {
            Task::RunHooks(phase) => match e {
                Event::Hooks { aborts } => {
                    self.task = self.after_hooks_task(phase, aborts);
                },
                _ => {
                    self.task = Task::Finish(Reply::Failure);
                },
            },
            Task::StoreAndCompose => match e {
                Event::Done => {
                    self.task = Task::RunHooks(HookPhase::PreShouldRespond);
                },
                _ => {
                    self.task = Task::Finish(Reply::Failure);
                },
            },
            Task::Decide => match e {
                Event::Decided(respond) => {
                    self.task = Task::RunHooks(HookPhase::PostShouldRespond);
                    self.respond = respond;
                },
                _ => {
                    self.task = Task::Finish(Reply::Failure);
                },
            },
            Task::Generate => match e {
                Event::Generated { has_text, has_actions } => {
                    self.task = Task::RunHooks(HookPhase::PostGenerate);
                    self.has_text = has_text;
                    self.has_actions = has_actions;
                },
                _ => {
                    self.task = Task::Finish(Reply::Failure);
                },
            },
            Task::StoreResponse => match e {
                Event::Done => {
                    self.task = if self.has_text {
                        Task::Embed
                    } else {
                        Task::RunHooks(HookPhase::PreEvaluate)
                    };
                },
                _ => {
                    self.task = Task::Finish(Reply::Failure);
                },
            },
            Task::Embed => {
                self.task = Task::RunHooks(HookPhase::PreEvaluate);
            },
            Task::RunEvaluators => {
                self.task = Task::RunHooks(HookPhase::PostEvaluate);
            },
            Task::MakePlan => match e {
                Event::Planned { has_steps } => {
                    self.task = if has_steps {
                        Task::RunPlan
                    } else {
                        Task::Finish(Reply::Response)
                    };
                },
                _ => {
                    self.task = self.named_actions_task();
                },
            },
            Task::RunPlan => {
                self.task = Task::Finish(Reply::Response);
            },
            Task::RunActions => {
                self.task = Task::Finish(Reply::Response);
            },
            Task::Finish(_) => {},
        }
    }
}

/// Whether an evaluator runs: it always does, or says that it is valid; one that
/// cannot say does not run.
pub fn evaluator_runs(always_run: bool, validated: Option<bool>) -> (r: bool)
    ensures
        r == (always_run || validated == Some(true)),
{
    always_run || match validated {
        Some(v) => v,
        None => false,
    }
}

// ---------------------------------------------------------------------------
// What is counted
// ---------------------------------------------------------------------------

/// The metrics after `task`, which took `elapsed_us`, came out as `e`.
pub open spec fn counted(m: PipelineMetrics, task: Task, e: Event, elapsed_us: u64) -> PipelineMetrics {
    match (task, e) {
        (Task::StoreAndCompose, Event::Done) => PipelineMetrics {
            compose_latency_us: metrics::wrapped_sum(m.compose_latency_us, elapsed_us) as u64,
            ..m
        },
        (Task::Decide, Event::Decided(_)) => PipelineMetrics {
            should_respond_latency_us: metrics::wrapped_sum(
                m.should_respond_latency_us,
                elapsed_us,
            ) as u64,
            ..m
        },
        (Task::Generate, Event::Generated { has_text: _, has_actions: _ }) => PipelineMetrics {
            generate_latency_us: metrics::wrapped_sum(m.generate_latency_us, elapsed_us) as u64,
            ..m
        },
        _ => m,
    }
}

/// Adds the time that a task took, where it is one that is timed and it came
/// out well.
pub fn count_task(m: &mut PipelineMetrics, task: Task, e: Event, elapsed_us: u64)
    ensures
        *final(m) == counted(*old(m), task, e, elapsed_us),
{
    match (task, e) {
        (Task::StoreAndCompose, Event::Done) => m.record_compose(elapsed_us),
        (Task::Decide, Event::Decided(_)) => m.record_should_respond(elapsed_us),
        (Task::Generate, Event::Generated { has_text: _, has_actions: _ }) => m.record_generate(
            elapsed_us,
        ),
        _ => {},
    }
}

/// The metrics after a message that took `total_us` came to an end.
pub open spec fn counted_reply(m: PipelineMetrics, reply: Reply, total_us: u64) -> PipelineMetrics {
    match reply {
        Reply::Skipped => PipelineMetrics {
            messages_skipped: metrics::wrapped_sum(m.messages_skipped, 1) as u64,
            ..m
        },
        Reply::Response => PipelineMetrics {
            messages_processed: metrics::wrapped_sum(m.messages_processed, 1) as u64,
            total_latency_us: metrics::wrapped_sum(m.total_latency_us, total_us) as u64,
            ..m
        },
        _ => m,
    }
}

/// Counts a message that came to an end: as skipped, or with the time that it
/// took as processed.
pub fn count_reply(m: &mut PipelineMetrics, reply: Reply, total_us: u64)
    ensures
        *final(m) == counted_reply(*old(m), reply, total_us),
{
    match reply {
        Reply::Skipped => m.record_skip(),
        Reply::Response => {
            m.record_message();
            m.record_total(total_us);
        },
        _ => {},
    }
}

/// The metrics after messages came to their ends, each with the time it took.
pub open spec fn counted_replies(m: PipelineMetrics, ends: Seq<(Reply, u64)>) -> PipelineMetrics
    decreases ends.len(),
{
    if ends.len() == 0 {
        m
    } else {
        counted_reply(counted_replies(m, ends.drop_last()), ends.last().0, ends.last().1)
    }
}

/// The number of messages that came to this end.
pub open spec fn ended_so(ends: Seq<(Reply, u64)>, reply: Reply) -> nat
    decreases ends.len(),
{
    if ends.len() == 0 {
        0
    } else {
        ended_so(ends.drop_last(), reply) + if ends.last().0 == reply {
            1nat
        } else {
            0nat
        }
    }
}

/// Each message that is answered counts once as processed, each that is not to be
/// answered once as skipped, and none of the others counts.
pub proof fn every_answer_counts_once(ends: Seq<(Reply, u64)>)
    ensures
        counted_replies(PipelineMetrics::zero(), ends).messages_processed == ended_so(
            ends,
            Reply::Response,
        ) % 0x1_0000_0000_0000_0000,
        counted_replies(PipelineMetrics::zero(), ends).messages_skipped == ended_so(
            ends,
            Reply::Skipped,
        ) % 0x1_0000_0000_0000_0000,
    decreases ends.len(),
{
    if ends.len() > 0 {
        every_answer_counts_once(ends.drop_last());
    }
}

// ---------------------------------------------------------------------------
// What holds of every message
// ---------------------------------------------------------------------------

/// How each task of a message comes out.
pub struct World {
    pub aborts: spec_fn(HookPhase) -> bool,
    pub composed: bool,
    pub decided: Option<bool>,
    pub generated: Option<(bool, bool)>,
    pub stored: bool,
    pub evaluated: bool,
    pub planned: Option<bool>,
}

/// How `task` comes out.
pub open spec fn event_of(w: World, task: Task) -> Event {
    match task {
        Task::RunHooks(phase) => Event::Hooks { aborts: (w.aborts)(phase) },
        Task::StoreAndCompose => if w.composed {
            Event::Done
        } else {
            Event::Failed
        },
        Task::Decide => match w.decided {
            Some(b) => Event::Decided(b),
            None => Event::Failed,
        },
        Task::Generate => match w.generated {
            Some(g) => Event::Generated { has_text: g.0, has_actions: g.1 },
            None => Event::Failed,
        },
        Task::StoreResponse => if w.stored {
            Event::Done
        } else {
            Event::Failed
        },
        Task::RunEvaluators => if w.evaluated {
            Event::Done
        } else {
            Event::Failed
        },
        Task::MakePlan => match w.planned {
            Some(b) => Event::Planned { has_steps: b },
            None => Event::Failed,
        },
        _ => Event::Done,
    }
}

/// Where a message stands after at most `n` tasks.
pub open spec fn run(p: Pipeline, w: World, n: nat) -> Pipeline
    decreases n,
{
    if n == 0 || p.task is Finish {
        p
    } else {
        run(after(p, event_of(w, p.task)), w, (n - 1) as nat)
    }
}

/// How a message ends.
pub open spec fn reply_to(w: World) -> Reply {
    if (w.aborts)(HookPhase::IncomingBeforeCompose) {
        Reply::Silence
    } else if !w.composed {
        Reply::Failure
    } else if (w.aborts)(HookPhase::PreShouldRespond) {
        Reply::Silence
    } else if w.decided is None {
        Reply::Failure
    } else if !w.decided.unwrap() {
        Reply::Skipped
    } else if (w.aborts)(HookPhase::PreGenerate) {
        Reply::Silence
    } else if w.generated is None || !w.stored {
        Reply::Failure
    } else {
        Reply::Response
    }
}

/// Every message comes to its end, and to this one: silence where a hook aborts
/// before the response, the error of a task that fails, and else the response,
/// whatever becomes of its evaluators and actions; hooks behind the response change
/// nothing.
pub proof fn every_message_is_answered(planning: bool, w: World)
    ensures
        run(Pipeline::begun(planning), w, 18).task == Task::Finish(reply_to(w)),
{
    reveal_with_fuel(run, 19);
}

/// The tasks that are done for a message in at most `n` steps, in order.
pub open spec fn trace(p: Pipeline, w: World, n: nat) -> Seq<Task>
    decreases n,
{
    if n == 0 || p.task is Finish {
        seq![p.task]
    } else {
        seq![p.task] + trace(after(p, event_of(w, p.task)), w, (n - 1) as nat)
    }
}

/// The task is done for a message in at most `n` steps.
pub open spec fn comes_to(p: Pipeline, w: World, n: nat, task: Task) -> bool
    decreases n,
{
    p.task == task || (n > 0 && !(p.task is Finish) && comes_to(
        after(p, event_of(w, p.task)),
        w,
        (n - 1) as nat,
        task,
    ))
}

/// What a message comes to is what stands in its trace.
pub proof fn trace_holds_what_is_done(p: Pipeline, w: World, n: nat, task: Task)
    ensures
        trace(p, w, n).contains(task) == comes_to(p, w, n, task),
    decreases n,
{
    let all = trace(p, w, n);
    assert(all[0] == p.task);
    if n > 0 && !(p.task is Finish) {
        let next = after(p, event_of(w, p.task));
        let later = trace(next, w, (n - 1) as nat);
        trace_holds_what_is_done(next, w, (n - 1) as nat, task);
        if later.contains(task) {
            let i = choose|i: int| 0 <= i < later.len() && later[i] == task;
            assert(all[i + 1] == task);
        }
        if all.contains(task) && p.task != task {
            let i = choose|i: int| 0 <= i < all.len() && all[i] == task;
            assert(later[i - 1] == task);
        }
    }
}

/// No hook keeps the message from being decided on, and it is stored.
pub open spec fn is_decided_on(w: World) -> bool {
    &&& !(w.aborts)(HookPhase::IncomingBeforeCompose)
    &&& w.composed
    &&& !(w.aborts)(HookPhase::PreShouldRespond)
}

/// A response is to be generated: it is decided to respond, and no hook keeps it
/// from being generated.
pub open spec fn is_to_be_answered(w: World) -> bool {
    is_decided_on(w) && w.decided == Some(true) && !(w.aborts)(HookPhase::PreGenerate)
}

/// A response is generated and stored.
pub open spec fn has_response(w: World) -> bool {
    is_to_be_answered(w) && w.generated is Some && w.stored
}

/// What is done for a message whatever it is: it is stored unless a hook aborts, the
/// decision is made, the response generated and stored where it is decided to
/// respond, embedded where it has a text, and the evaluators run behind every
/// response.
pub proof fn messages_are_worked_through(planning: bool, w: World)
    ensures
        trace(Pipeline::begun(planning), w, 18).contains(Task::StoreAndCompose) == !(w.aborts)(
            HookPhase::IncomingBeforeCompose,
        ),
        trace(Pipeline::begun(planning), w, 18).contains(Task::Decide) == is_decided_on(w),
        trace(Pipeline::begun(planning), w, 18).contains(Task::Generate) == is_to_be_answered(w),
        trace(Pipeline::begun(planning), w, 18).contains(Task::StoreResponse) == (
        is_to_be_answered(w) && w.generated is Some),
        trace(Pipeline::begun(planning), w, 18).contains(Task::Embed) == (has_response(w)
            && w.generated.unwrap().0),
        trace(Pipeline::begun(planning), w, 18).contains(Task::RunEvaluators) == has_response(w),
{
    let b = Pipeline::begun(planning);
    trace_holds_what_is_done(b, w, 18, Task::StoreAndCompose);
    trace_holds_what_is_done(b, w, 18, Task::Decide);
    trace_holds_what_is_done(b, w, 18, Task::Generate);
    trace_holds_what_is_done(b, w, 18, Task::StoreResponse);
    trace_holds_what_is_done(b, w, 18, Task::Embed);
    trace_holds_what_is_done(b, w, 18, Task::RunEvaluators);
    reveal_with_fuel(comes_to, 19);
}

/// The actions of a response are run: those that it names where no plan is made of
/// them, because none is wanted or it could not be made, and else those of the plan,
/// where it has any. A plan is asked for behind every response where plans are
/// wanted.
pub proof fn actions_are_run(planning: bool, w: World)
    ensures
        trace(Pipeline::begun(planning), w, 18).contains(Task::MakePlan) == (has_response(w)
            && planning),
        trace(Pipeline::begun(planning), w, 18).contains(Task::RunPlan) == (has_response(w)
            && planning && w.planned == Some(true)),
        trace(Pipeline::begun(planning), w, 18).contains(Task::RunActions) == (has_response(w)
            && w.generated.unwrap().1 && (!planning || w.planned is None)),
{
    let b = Pipeline::begun(planning);
    trace_holds_what_is_done(b, w, 18, Task::MakePlan);
    trace_holds_what_is_done(b, w, 18, Task::RunPlan);
    trace_holds_what_is_done(b, w, 18, Task::RunActions);
    reveal_with_fuel(comes_to, 19);
}

/// The hooks of each phase are run where the message comes to the phase.
pub proof fn hooks_are_run(planning: bool, w: World)
    ensures
        trace(Pipeline::begun(planning), w, 18).contains(
            Task::RunHooks(HookPhase::IncomingBeforeCompose),
        ),
        trace(Pipeline::begun(planning), w, 18).contains(
            Task::RunHooks(HookPhase::PreShouldRespond),
        ) == (!(w.aborts)(HookPhase::IncomingBeforeCompose) && w.composed),
        trace(Pipeline::begun(planning), w, 18).contains(
            Task::RunHooks(HookPhase::PostShouldRespond),
        ) == (is_decided_on(w) && w.decided is Some),
        trace(Pipeline::begun(planning), w, 18).contains(Task::RunHooks(HookPhase::PreGenerate))
            == (is_decided_on(w) && w.decided == Some(true)),
        trace(Pipeline::begun(planning), w, 18).contains(Task::RunHooks(HookPhase::PostGenerate))
            == (is_to_be_answered(w) && w.generated is Some),
        trace(Pipeline::begun(planning), w, 18).contains(Task::RunHooks(HookPhase::PreEvaluate))
            == has_response(w),
        trace(Pipeline::begun(planning), w, 18).contains(Task::RunHooks(HookPhase::PostEvaluate))
            == has_response(w),
{
    let b = Pipeline::begun(planning);
    trace_holds_what_is_done(b, w, 18, Task::RunHooks(HookPhase::IncomingBeforeCompose));
    trace_holds_what_is_done(b, w, 18, Task::RunHooks(HookPhase::PreShouldRespond));
    trace_holds_what_is_done(b, w, 18, Task::RunHooks(HookPhase::PostShouldRespond));
    trace_holds_what_is_done(b, w, 18, Task::RunHooks(HookPhase::PreGenerate));
    trace_holds_what_is_done(b, w, 18, Task::RunHooks(HookPhase::PostGenerate));
    trace_holds_what_is_done(b, w, 18, Task::RunHooks(HookPhase::PreEvaluate));
    trace_holds_what_is_done(b, w, 18, Task::RunHooks(HookPhase::PostEvaluate));
    reveal_with_fuel(comes_to, 19);
}

/// How far a task stands in the course of a message.
pub open spec fn place(task: Task) -> int {
    match task {
        Task::RunHooks(phase) => match phase {
            HookPhase::IncomingBeforeCompose => 0,
            HookPhase::PreShouldRespond => 2,
            HookPhase::PostShouldRespond => 4,
            HookPhase::PreGenerate => 5,
            HookPhase::PostGenerate => 7,
            HookPhase::PreEvaluate => 10,
            HookPhase::PostEvaluate => 12,
            _ => 15,
        },
        Task::StoreAndCompose => 1,
        Task::Decide => 3,
        Task::Generate => 6,
        Task::StoreResponse => 8,
        Task::Embed => 9,
        Task::RunEvaluators => 11,
        Task::MakePlan => 13,
        Task::RunPlan => 14,
        Task::RunActions => 14,
        Task::Finish(_) => 16,
    }
}

/// The tasks of a message are done in one order, and none of them twice: the
/// message is stored before the model is asked anything, and the response is
/// stored before any evaluator or action runs.
pub proof fn tasks_go_forward(p: Pipeline, e: Event)
    ensures
        p.task is Finish || place(after(p, e).task) > place(p.task),
{
}

// ---------------------------------------------------------------------------
// Responses that arrive in pieces
// ---------------------------------------------------------------------------

/// How the processing of a message ends whose response arrives in pieces.
#[derive(Clone, Copy, Debug, PartialEq, Eq, Structural)]
pub enum StreamReply {
    /// One event: done, with an empty text.
    Empty,
    /// The events of the model's answer.
    Stream,
    /// The error of the last task.
    Failure,
}

#[derive(Clone, Copy, Debug, PartialEq, Eq, Structural)]
pub enum StreamTask {
    RunHooks(HookPhase),
    /// Store the message.
    Store,
    /// Compose the state.
    Compose,
    Decide,
    /// Ask the model for a response in pieces.
    Open,
    Finish(StreamReply),
}

/// A message in the course of being processed whose response arrives in pieces.
#[derive(Clone, Copy, Debug, PartialEq, Eq, Structural)]
pub struct StreamPipeline {
    pub task: StreamTask,
    pub respond: bool,
}

/// Where the message stands after the task at hand came out as `e`.
pub open spec fn stream_after(p: StreamPipeline, e: Event) -> StreamPipeline {
    let failed = StreamPipeline { task: StreamTask::Finish(StreamReply::Failure), ..p };
    let empty = StreamPipeline { task: StreamTask::Finish(StreamReply::Empty), ..p };
    match p.task {
        StreamTask::RunHooks(phase) => match e {
            Event::Hooks { aborts } => match phase {
                HookPhase::IncomingBeforeCompose => if aborts {
                    empty
                } else {
                    StreamPipeline { task: StreamTask::Store, ..p }
                },
                HookPhase::PreShouldRespond => if aborts {
                    empty
                } else {
                    StreamPipeline { task: StreamTask::Decide, ..p }
                },
                HookPhase::PostShouldRespond => if p.respond {
                    StreamPipeline { task: StreamTask::RunHooks(HookPhase::PreGenerate), ..p }
                } else {
                    empty
                },
                HookPhase::PreGenerate => if aborts {
                    empty
                } else {
                    StreamPipeline { task: StreamTask::Open, ..p }
                },
                _ => failed,
            },
            _ => failed,
        },
        StreamTask::Store => match e {
            Event::Done => StreamPipeline { task: StreamTask::Compose, ..p },
            _ => failed,
        },
        StreamTask::Compose => match e {
            Event::Done => StreamPipeline {
                task: StreamTask::RunHooks(HookPhase::PreShouldRespond),
                ..p
            },
            _ => failed,
        },
        StreamTask::Decide => match e {
            Event::Decided(respond) => StreamPipeline {
                task: StreamTask::RunHooks(HookPhase::PostShouldRespond),
                respond,
            },
            _ => failed,
        },
        StreamTask::Open => match e {
            Event::Done => StreamPipeline { task: StreamTask::Finish(StreamReply::Stream), ..p },
            _ => failed,
        },
        StreamTask::Finish(_) => p,
    }
}

impl StreamPipeline {
    /// A message that has just come in.
    pub open spec fn begun() -> Self {
        StreamPipeline {
            task: StreamTask::RunHooks(HookPhase::IncomingBeforeCompose),
            respond: false,
        }
    }

    pub fn new() -> (r: Self)
        ensures
            r == StreamPipeline::begun(),
    {
        StreamPipeline {
            task: StreamTask::RunHooks(HookPhase::IncomingBeforeCompose),
            respond: false,
        }
    }

    /// Goes on after the task at hand came out as `e`.
    pub fn step(&mut self, e: Event)
        ensures
            *final(self) == stream_after(*old(self), e),
    {
        let failed = StreamTask::Finish(StreamReply::Failure);
        let empty = StreamTask::Finish(StreamReply::Empty);
        match self.task {
            StreamTask::RunHooks(phase) => match e {
                Event::Hooks { aborts } => {
                    self.task = match phase {
                        HookPhase::IncomingBeforeCompose => if aborts {
                            empty
                        } else {
                            StreamTask::Store
                        },
                        HookPhase::PreShouldRespond => if aborts {
                            empty
                        } else {
                            StreamTask::Decide
                        },
                        HookPhase::PostShouldRespond => if self.respond {
                            StreamTask::RunHooks(HookPhase::PreGenerate)
                        } else {
                            empty
                        },
                        HookPhase::PreGenerate => if aborts {
                            empty
                        } else {
                            StreamTask::Open
                        },
                        _ => failed,
                    };
                },
                _ => {
                    self.task = failed;
                },
            },
            StreamTask::Store => match e {
                Event::Done => {
                    self.task = StreamTask::Compose;
                },
                _ => {
                    self.task = failed;
                },
            },
            StreamTask::Compose => match e {
                Event::Done => {
                    self.task = StreamTask::RunHooks(HookPhase::PreShouldRespond);
                },
                _ => {
                    self.task = failed;
                },
            },
            StreamTask::Decide => match e {
                Event::Decided(respond) => {
                    self.task = StreamTask::RunHooks(HookPhase::PostShouldRespond);
                    self.respond = respond;
                },
                _ => {
                    self.task = failed;
                },
            },
            StreamTask::Open => match e {
                Event::Done => {
                    self.task = StreamTask::Finish(StreamReply::Stream);
                },
                _ => {
                    self.task = failed;
                },
            },
            StreamTask::Finish(_) => {},
        }
    }
}

/// How each task comes out of a message whose response arrives in pieces.
pub struct StreamWorld {
    pub aborts: spec_fn(HookPhase) -> bool,
    pub stored: bool,
    pub composed: bool,
    pub decided: Option<bool>,
    pub opened: bool,
}

pub open spec fn stream_event_of(w: StreamWorld, task: StreamTask) -> Event {
    match task {
        StreamTask::RunHooks(phase) => Event::Hooks { aborts: (w.aborts)(phase) },
        StreamTask::Store => if w.stored {
            Event::Done
        } else {
            Event::Failed
        },
        StreamTask::Compose => if w.composed {
            Event::Done
        } else {
            Event::Failed
        },
        StreamTask::Decide => match w.decided {
            Some(b) => Event::Decided(b),
            None => Event::Failed,
        },
        StreamTask::Open => if w.opened {
            Event::Done
        } else {
            Event::Failed
        },
        StreamTask::Finish(_) => Event::Done,
    }
}

pub open spec fn stream_run(p: StreamPipeline, w: StreamWorld, n: nat) -> StreamPipeline
    decreases n,
{
    if n == 0 || p.task is Finish {
        p
    } else {
        stream_run(stream_after(p, stream_event_of(w, p.task)), w, (n - 1) as nat)
    }
}

pub open spec fn stream_reply_to(w: StreamWorld) -> StreamReply {
    if (w.aborts)(HookPhase::IncomingBeforeCompose) {
        StreamReply::Empty
    } else if !w.stored || !w.composed {
        StreamReply::Failure
    } else if (w.aborts)(HookPhase::PreShouldRespond) {
        StreamReply::Empty
    } else if w.decided is None {
        StreamReply::Failure
    } else if !w.decided.unwrap() || (w.aborts)(HookPhase::PreGenerate) {
        StreamReply::Empty
    } else if !w.opened {
        StreamReply::Failure
    } else {
        StreamReply::Stream
    }
}

/// Every message whose response arrives in pieces comes to its end: an empty
/// text where a hook aborts or it is decided not to respond, the error of a
/// task that fails, and else the model's answer.
pub proof fn every_stream_is_answered(w: StreamWorld)
    ensures
        stream_run(StreamPipeline::begun(), w, 9).task == StreamTask::Finish(stream_reply_to(w)),
{
    reveal_with_fuel(stream_run, 10);
}

/// The task is done in at most `n` steps for a message whose response arrives in
/// pieces.
pub open spec fn stream_comes_to(
    p: StreamPipeline,
    w: StreamWorld,
    n: nat,
    task: StreamTask,
) -> bool
    decreases n,
{
    p.task == task || (n > 0 && !(p.task is Finish) && stream_comes_to(
        stream_after(p, stream_event_of(w, p.task)),
        w,
        (n - 1) as nat,
        task,
    ))
}

/// What is done for a message whose response arrives in pieces: it is stored unless a
/// hook aborts, the state is composed of what is stored, the decision is made of the
/// state, and the model is asked where it is decided to respond and no hook aborts.
pub proof fn streams_are_worked_through(w: StreamWorld)
    ensures
        stream_comes_to(StreamPipeline::begun(), w, 9, StreamTask::Store) == !(w.aborts)(
            HookPhase::IncomingBeforeCompose,
        ),
        stream_comes_to(StreamPipeline::begun(), w, 9, StreamTask::Compose) == (!(w.aborts)(
            HookPhase::IncomingBeforeCompose,
        ) && w.stored),
        stream_comes_to(StreamPipeline::begun(), w, 9, StreamTask::Decide) == (!(w.aborts)(
            HookPhase::IncomingBeforeCompose,
        ) && w.stored && w.composed && !(w.aborts)(HookPhase::PreShouldRespond)),
        stream_comes_to(StreamPipeline::begun(), w, 9, StreamTask::Open) == (!(w.aborts)(
            HookPhase::IncomingBeforeCompose,
        ) && w.stored && w.composed && !(w.aborts)(HookPhase::PreShouldRespond) && w.decided
            == Some(true) && !(w.aborts)(HookPhase::PreGenerate)),
{
    reveal_with_fuel(stream_comes_to, 10);
}

/// What is done about an event of the model's answer.
pub enum Pump {
    /// Pass this on.
    Forward(StreamEvent),
    /// Store a response of this text, then pass on that the answer is done with
    /// it, and stop.
    Complete(String),
    /// Pass this on and stop.
    Stop(StreamEvent),
}

/// This is done about an event of the model's answer.
pub open spec fn pumps(event: StreamEvent, r: Pump) -> bool {
    match event {
        StreamEvent::Token(_) => r == Pump::Forward(event),
        StreamEvent::Done { full_text } => r is Complete && r->Complete_0@ == respond::clean_text(
            full_text@,
        ),
        StreamEvent::Error(_) => r == Pump::Stop(event),
    }
}

/// What is done about an event of the model's answer: pieces are passed on; at
/// the end the answer is stored and passed on without its action tags; an error
/// is passed on and ends it.
pub fn pump(event: StreamEvent) -> (r: Pump)
    ensures
        pumps(event, r),
{
    match event {
        StreamEvent::Token(t) => Pump::Forward(StreamEvent::Token(t)),
        StreamEvent::Done { full_text } => {
            let (clean, _actions) = respond::extract_actions(full_text.as_str());
            Pump::Complete(clean)
        },
        StreamEvent::Error(e) => Pump::Stop(StreamEvent::Error(e)),
    }
}

/// The memory of a response of the agent itself.
pub fn response_memory(
    id: MemoryId,
    at: Timestamp,
    agent_id: AgentId,
    room_id: RoomId,
    content: Content,
) -> (r: Memory)
    ensures
        r.is_message(id, at, agent_id, agent_id, room_id),
        r.content == content,
{
    Memory::message(id, at, agent_id, agent_id, room_id, content)
}

/// What the generation of a response came out as.
pub open spec fn generation(content: Content) -> Event {
    Event::Generated {
        has_text: content.text is Some && content.text.unwrap()@.len() > 0,
        has_actions: content.actions is Some && content.actions.unwrap()@.len() > 0,
    }
}

/// What the generation of a response came out as.
pub fn generated_event(content: &Content) -> (r: Event)
    ensures
        r == generation(*content),
{
    let has_text = match &content.text {
        Some(t) => t.as_str().unicode_len() > 0,
        None => false,
    };
    let has_actions = match &content.actions {
        Some(a) => a.len() > 0,
        None => false,
    };
    Event::Generated { has_text, has_actions }
}

/// An action that a response names in a tag is run: the tag makes the response one with
/// actions, and the message comes to their turn, unless a plan takes their place.
pub proof fn named_actions_are_run(
    content: Content,
    before: Seq<char>,
    name: Seq<char>,
    behind: Seq<char>,
    planning: bool,
    w: World,
)
    requires
        respond::is_content_of(content, before + seq!['['] + name + seq![']'] + behind),
        !before.contains('['),
        !behind.contains('['),
        name.len() > 0,
        forall|i: int| 0 <= i < name.len() ==> crate::patterns::tag_char(#[trigger] name[i]),
        name != "RESPOND"@ && name != "IGNORE"@ && name != "STOP"@,
        is_to_be_answered(w),
        w.stored,
        event_of(w, Task::Generate) == generation(content),
        !planning || w.planned is None,
    ensures
        content.actions is Some,
        text::texts(content.actions.unwrap()@) == seq![name],
        trace(Pipeline::begun(planning), w, 18).contains(Task::RunActions),
{
    respond::tag_is_taken_out(before, name, behind);
    assert(text::texts(content.actions.unwrap()@).len() == content.actions.unwrap()@.len());
    actions_are_run(planning, w);
}

/// A response that says anything is embedded, and one that says nothing is not.
pub proof fn spoken_responses_are_embedded(content: Content, planning: bool, w: World)
    requires
        is_to_be_answered(w),
        w.stored,
        event_of(w, Task::Generate) == generation(content),
    ensures
        trace(Pipeline::begun(planning), w, 18).contains(Task::Embed) == (content.text is Some
            && content.text.unwrap()@.len() > 0),
{
    messages_are_worked_through(planning, w);
}

/// The pieces of an answer are passed on as they are, an error too, with which it ends;
/// and what is stored of it in the end, and passed on, is its text without the tag of
/// an action.
pub proof fn answers_are_passed_on(
    event: StreamEvent,
    r: Pump,
    before: Seq<char>,
    name: Seq<char>,
    behind: Seq<char>,
)
    requires
        pumps(event, r),
        !before.contains('['),
        !behind.contains('['),
        name.len() > 0,
        forall|i: int| 0 <= i < name.len() ==> crate::patterns::tag_char(#[trigger] name[i]),
        name != "RESPOND"@ && name != "IGNORE"@ && name != "STOP"@,
    ensures
        event is Token ==> r is Forward && r->Forward_0 == event,
        event is Error ==> r is Stop && r->Stop_0 == event,
        event matches StreamEvent::Done { full_text } ==> r is Complete && (full_text@ == before
            + seq!['['] + name + seq![']'] + behind ==> r->Complete_0@ == text::trimmed(
            before + behind,
        )) && (!full_text@.contains('[') ==> r->Complete_0@ == text::trimmed(full_text@)),
{
    respond::tag_is_taken_out(before, name, behind);
    if let StreamEvent::Done { full_text } = event {
        if !full_text@.contains('[') {
            respond::untagged_text_stays(full_text@);
        }
    }
}

/// The response that is stored is a message of the agent itself in the room, with the
/// content that was generated.
pub proof fn responses_are_the_agents_own(
    m: Memory,
    id: MemoryId,
    at: Timestamp,
    agent_id: AgentId,
    room_id: RoomId,
)
    requires
        m.is_message(id, at, agent_id, agent_id, room_id),
    ensures
        m.id == id,
        m.entity_id == agent_id && m.agent_id == agent_id,
        m.room_id == room_id,
        m.created_at == Some(at),
        m.memory_type == crate::types::MemoryType::Message,
        m.unique,
{
}

/// The time that a task takes is counted under its own heading and under no other, and
/// only where the task came out well.
pub proof fn times_are_counted(m: PipelineMetrics, task: Task, e: Event, us: u64)
    requires
        m.compose_latency_us + us <= u64::MAX,
        m.should_respond_latency_us + us <= u64::MAX,
        m.generate_latency_us + us <= u64::MAX,
    ensures
        ({
            let n = counted(m, task, e, us);
            let composed = task is StoreAndCompose && e is Done;
            let decided = task is Decide && e is Decided;
            let generated = task is Generate && e is Generated;
            &&& n.compose_latency_us == if composed {
                m.compose_latency_us + us
            } else {
                m.compose_latency_us as int
            }
            &&& n.should_respond_latency_us == if decided {
                m.should_respond_latency_us + us
            } else {
                m.should_respond_latency_us as int
            }
            &&& n.generate_latency_us == if generated {
                m.generate_latency_us + us
            } else {
                m.generate_latency_us as int
            }
            &&& n.messages_processed == m.messages_processed
            &&& n.messages_skipped == m.messages_skipped
            &&& n.total_latency_us == m.total_latency_us
        }),
{
}

/// The time that a message took is counted where it is answered, and only there.
pub proof fn answers_are_timed(m: PipelineMetrics, reply: Reply, us: u64)
    requires
        m.total_latency_us + us <= u64::MAX,
    ensures
        counted_reply(m, reply, us).total_latency_us == if reply == Reply::Response {
            m.total_latency_us + us
        } else {
            m.total_latency_us as int
        },
{
}

} // verus!
