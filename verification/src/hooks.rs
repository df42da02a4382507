//! Hooks that run at the stages of the message pipeline.
use vstd::prelude::*;

verus! {

#[derive(Clone, Copy, Debug, PartialEq, Eq, Hash, Structural)]
pub enum HookPhase {
    IncomingBeforeCompose,
    PreShouldRespond,
    PostShouldRespond,
    PreGenerate,
    PostGenerate,
    PreEvaluate,
    PostEvaluate,
    PreAction,
    PostAction,
}

impl HookPhase {
    /// The name of the phase.
    pub open spec fn text(self) -> Seq<char> {
        match self {
            HookPhase::IncomingBeforeCompose => "incoming_before_compose"@,
            HookPhase::PreShouldRespond => "pre_should_respond"@,
            HookPhase::PostShouldRespond => "post_should_respond"@,
            HookPhase::PreGenerate => "pre_generate"@,
            HookPhase::PostGenerate => "post_generate"@,
            HookPhase::PreEvaluate => "pre_evaluate"@,
            HookPhase::PostEvaluate => "post_evaluate"@,
            HookPhase::PreAction => "pre_action"@,
            HookPhase::PostAction => "post_action"@,
        }
    }

    /// The name of the phase.
    pub fn name(&self) -> (r: &'static str)
        ensures
            r@ == self.text(),
    {
        match self {
            HookPhase::IncomingBeforeCompose => "incoming_before_compose",
            HookPhase::PreShouldRespond => "pre_should_respond",
            HookPhase::PostShouldRespond => "post_should_respond",
            HookPhase::PreGenerate => "pre_generate",
            HookPhase::PostGenerate => "post_generate",
            HookPhase::PreEvaluate => "pre_evaluate",
            HookPhase::PostEvaluate => "post_evaluate",
            HookPhase::PreAction => "pre_action",
            HookPhase::PostAction => "post_action",
        }
    }
}

/// What a hook asks the pipeline to do.
#[derive(Clone, Copy, Debug, PartialEq, Eq, Structural)]
pub enum HookAction {
    Continue,
    Skip,
    Abort,
}

/// A hook: when it runs, and the key under which its handler is kept.
pub struct PipelineHook {
    pub name: String,
    pub phase: HookPhase,
    pub priority: i32,
    pub handler: usize,
}

impl PipelineHook {
    pub fn new(name: &str, phase: HookPhase, handler: usize) -> (r: Self)
        ensures
            r.name@ == name@,
            r.phase == phase,
            r.priority == 0,
            r.handler == handler,
    {
        PipelineHook { name: name.to_owned(), phase, priority: 0, handler }
    }

    pub fn with_priority(self, priority: i32) -> (r: Self)
        ensures
            r == (PipelineHook { priority, ..self }),
    {
        PipelineHook { name: self.name, phase: self.phase, priority, handler: self.handler }
    }
}

/// Hooks are ordered by priority, the lowest first.
pub open spec fn by_priority(hooks: Seq<PipelineHook>) -> bool {
    forall|i: int, j: int|
        0 <= i <= j < hooks.len() ==> (#[trigger] hooks[i]).priority <= (
        #[trigger] hooks[j]).priority
}

/// The number of leading hooks whose priority is not above `priority`.
pub open spec fn slot(hooks: Seq<PipelineHook>, priority: i32) -> nat
    decreases hooks.len(),
{
    if hooks.len() > 0 && hooks[0].priority <= priority {
        1 + slot(hooks.drop_first(), priority)
    } else {
        0
    }
}

/// In ordered hooks, `slot` is where the hooks of a higher priority begin.
pub proof fn lemma_slot(hooks: Seq<PipelineHook>, priority: i32, k: int)
    requires
        0 <= k <= hooks.len(),
        forall|i: int| 0 <= i < k ==> (#[trigger] hooks[i]).priority <= priority,
        k < hooks.len() ==> hooks[k].priority > priority,
    ensures
        slot(hooks, priority) == k,
    decreases k,
{
    if k > 0 {
        assert(hooks[0].priority <= priority);
        let rest = hooks.drop_first();
        assert forall|i: int| 0 <= i < k - 1 implies (#[trigger] rest[i]).priority <= priority by {
            assert(rest[i] == hooks[i + 1]);
        }
        if k < hooks.len() {
            assert(rest[k - 1] == hooks[k]);
        }
        lemma_slot(rest, priority, k - 1);
    }
}

/// The first position at or after `from` of a hook for `phase`.
pub open spec fn next_for_phase(hooks: Seq<PipelineHook>, phase: HookPhase, from: int) -> Option<
    int,
>
    decreases hooks.len() - from,
{
    if from < 0 || from >= hooks.len() {
        None
    } else if hooks[from].phase == phase {
        Some(from)
    } else {
        next_for_phase(hooks, phase, from + 1)
    }
}

/// The hooks that have been registered, in the order in which they run.
pub struct HookRegistry {
    hooks: Vec<PipelineHook>,
}

impl View for HookRegistry {
    type V = Seq<PipelineHook>;

    closed spec fn view(&self) -> Seq<PipelineHook> {
        self.hooks@
    }
}

impl HookRegistry {
    pub fn new() -> (r: Self)
        ensures
            r@.len() == 0,
            by_priority(r@),
    {
        HookRegistry { hooks: Vec::new() }
    }

    /// Adds a hook: it runs after the hooks of the same or a lower priority, and
    /// before those of a higher one.
    pub fn register(&mut self, hook: PipelineHook)
        requires
            by_priority(old(self)@),
        ensures
            final(self)@ == old(self)@.insert(slot(old(self)@, hook.priority) as int, hook),
            by_priority(final(self)@),
    {
        let mut k: usize = 0;
        while k < self.hooks.len() && self.hooks[k].priority <= hook.priority
            invariant
                k <= self.hooks@.len(),
                self.hooks@ == old(self)@,
                forall|i: int| 0 <= i < k ==> (#[trigger] self.hooks@[i]).priority <= hook.priority,
            decreases self.hooks.len() - k,
        {
            k = k + 1;
        }
        proof {
            lemma_slot(self.hooks@, hook.priority, k as int);
        }
        self.hooks.insert(k, hook);
        assert(by_priority(self@)) by {
            let before = old(self)@;
            let after = self@;
            assert forall|i: int, j: int| 0 <= i <= j < after.len() implies (
            #[trigger] after[i]).priority <= (#[trigger] after[j]).priority by {
                let a = if i < k { before[i] } else if i == k { hook } else { before[i - 1] };
                let b = if j < k { before[j] } else if j == k { hook } else { before[j - 1] };
                assert(after[i] == a && after[j] == b);
                if k < before.len() && j > k {
                    assert(before[k as int].priority <= before[j - 1].priority);
                }
            }
        }
    }

    /// The first position at or after `from` of a hook for `phase`.
    pub fn next_hook(&self, phase: HookPhase, from: usize) -> (r: Option<usize>)
        ensures
            match r {
                Some(i) => next_for_phase(self@, phase, from as int) == Some(i as int) && from <= i
                    < self@.len() && self@[i as int].phase == phase,
                None => next_for_phase(self@, phase, from as int) is None,
            },
    {
        let mut i: usize = from;
        while i < self.hooks.len()
            invariant
                from <= i,
                next_for_phase(self@, phase, from as int) == next_for_phase(
                    self@,
                    phase,
                    i as int,
                ),
            decreases self.hooks.len() - i,
        {
            if self.hooks[i].phase == phase {
                return Some(i);
            }
            i = i + 1;
        }
        None
    }

    /// The key of the handler of the hook at position `i`.
    pub fn handler_at(&self, i: usize) -> (r: usize)
        requires
            i < self@.len(),
        ensures
            r == self@[i as int].handler,
    {
        self.hooks[i].handler
    }

    /// The hooks for `phase`, in the order in which they run.
    pub fn hooks_for_phase(&self, phase: HookPhase) -> (r: Vec<&PipelineHook>)
        ensures
            r@.len() == self@.filter(|h: PipelineHook| h.phase == phase).len(),
            forall|i: int|
                0 <= i < r@.len() ==> *(#[trigger] r@[i]) == self@.filter(
                    |h: PipelineHook| h.phase == phase,
                )[i],
    {
        let mut out: Vec<&PipelineHook> = Vec::new();
        let ghost p = |h: PipelineHook| h.phase == phase;
        let mut i: usize = 0;
        proof {
            reveal(Seq::filter);
        }
        while i < self.hooks.len()
            invariant
                i <= self.hooks@.len(),
                p == (|h: PipelineHook| h.phase == phase),
                out@.len() == self.hooks@.take(i as int).filter(p).len(),
                forall|j: int|
                    0 <= j < out@.len() ==> *(#[trigger] out@[j]) == self.hooks@.take(
                        i as int,
                    ).filter(p)[j],
            decreases self.hooks.len() - i,
        {
            proof {
                reveal(Seq::filter);
                assert(self.hooks@.take(i + 1).drop_last() =~= self.hooks@.take(i as int));
                assert(self.hooks@.take(i + 1).last() == self.hooks@[i as int]);
            }
            if self.hooks[i].phase == phase {
                out.push(&self.hooks[i]);
            }
            i = i + 1;
        }
        assert(self.hooks@.take(self.hooks@.len() as int) =~= self.hooks@);
        out
    }
}

impl Default for HookRegistry {
    fn default() -> (r: Self)
        ensures
            r@.len() == 0,
            by_priority(r@),
    {
        HookRegistry::new()
    }
}

/// What a handler came back with: an action, or an error.
pub enum HookOutcome<E> {
    Action(HookAction),
    Failed(E),
}

/// Where a run through the hooks of a phase stands.
pub enum HookStep<E> {
    /// Call the handler of the hook at this position.
    Call(usize),
    /// The run is over with this outcome.
    Finish(HookOutcome<E>),
}

impl HookRegistry {
    /// Begins a run through the hooks of a phase: without any hook the pipeline
    /// goes on.
    pub fn begin<E>(&self, phase: HookPhase) -> (r: HookStep<E>)
        ensures
            self.continues_at(r, phase, 0),
    {
        match self.next_hook(phase, 0) {
            Some(i) => HookStep::Call(i),
            None => HookStep::Finish(HookOutcome::Action(HookAction::Continue)),
        }
    }

    /// The run goes on with the first hook for `phase` at or after `from`, or is
    /// over where there is none.
    pub open spec fn continues_at<E>(&self, step: HookStep<E>, phase: HookPhase, from: int) -> bool {
        match next_for_phase(self@, phase, from) {
            Some(i) => step == HookStep::<E>::Call(i as usize) && i < self@.len()
                && self@[i].phase == phase,
            None => step == HookStep::Finish(HookOutcome::<E>::Action(HookAction::Continue)),
        }
    }

    /// Goes on after the hook at position `at` came back: where it continues,
    /// with the next hook of the phase; else the run is over with that outcome.
    pub fn resume<E>(&self, phase: HookPhase, at: usize, outcome: HookOutcome<E>) -> (r: HookStep<E>)
        requires
            at < self@.len(),
        ensures
            match outcome {
                HookOutcome::Action(HookAction::Continue) => self.continues_at(r, phase, at + 1),
                _ => r == HookStep::Finish(outcome),
            },
    {
        assert(at < self.hooks.len());
        match outcome {
            HookOutcome::Action(HookAction::Continue) => match self.next_hook(phase, at + 1) {
                Some(i) => HookStep::Call(i),
                None => HookStep::Finish(HookOutcome::Action(HookAction::Continue)),
            },
            _ => HookStep::Finish(outcome),
        }
    }
}

/// The outcome of a run through the hooks of a phase from position `from` on,
/// where `outcomes` says what the hook at each position comes back with.
pub open spec fn run_outcome<E>(
    hooks: Seq<PipelineHook>,
    phase: HookPhase,
    outcomes: spec_fn(int) -> HookOutcome<E>,
    from: int,
) -> HookOutcome<E>
    decreases hooks.len() - from,
{
    if from < 0 || from >= hooks.len() {
        HookOutcome::Action(HookAction::Continue)
    } else if hooks[from].phase != phase || outcomes(from) == HookOutcome::<E>::Action(
        HookAction::Continue,
    ) {
        run_outcome(hooks, phase, outcomes, from + 1)
    } else {
        outcomes(from)
    }
}

/// A run is over with the outcome of the first hook of the phase that does not
/// continue, and continues where all of them do; hooks of other phases do not
/// count.
pub proof fn run_outcome_is_first_stop<E>(
    hooks: Seq<PipelineHook>,
    phase: HookPhase,
    outcomes: spec_fn(int) -> HookOutcome<E>,
    from: int,
)
    requires
        0 <= from,
    ensures
        match next_for_phase(hooks, phase, from) {
            None => run_outcome(hooks, phase, outcomes, from) == HookOutcome::<E>::Action(
                HookAction::Continue,
            ),
            Some(i) => run_outcome(hooks, phase, outcomes, from) == (if outcomes(i)
                == HookOutcome::<E>::Action(HookAction::Continue) {
                run_outcome(hooks, phase, outcomes, i + 1)
            } else {
                outcomes(i)
            }),
        },
    decreases hooks.len() - from,
{
    if from < hooks.len() && hooks[from].phase != phase {
        run_outcome_is_first_stop(hooks, phase, outcomes, from + 1);
    }
}

/// Registering a hook keeps the hooks that were there, in their order.
pub proof fn register_keeps_others(hooks: Seq<PipelineHook>, hook: PipelineHook)
    requires
        by_priority(hooks),
    ensures
        slot(hooks, hook.priority) <= hooks.len(),
        hooks.insert(slot(hooks, hook.priority) as int, hook).remove(
            slot(hooks, hook.priority) as int,
        ) == hooks,
{
    lemma_slot_bound(hooks, hook.priority);
    let k = slot(hooks, hook.priority) as int;
    assert(hooks.insert(k, hook).remove(k) =~= hooks);
}

pub proof fn lemma_slot_bound(hooks: Seq<PipelineHook>, priority: i32)
    ensures
        slot(hooks, priority) <= hooks.len(),
    decreases hooks.len(),
{
    if hooks.len() > 0 && hooks[0].priority <= priority {
        lemma_slot_bound(hooks.drop_first(), priority);
    }
}

/// A hook is put behind those of the same or a lower priority, and before those of a
/// higher one: of two with the same priority, the first that is registered runs first.
pub proof fn hooks_run_by_priority(hooks: Seq<PipelineHook>, hook: PipelineHook)
    requires
        by_priority(hooks),
    ensures
        ({
            let k = slot(hooks, hook.priority) as int;
            let after = hooks.insert(k, hook);
            &&& 0 <= k <= hooks.len()
            &&& after[k] == hook
            &&& forall|i: int| 0 <= i < k ==> (#[trigger] after[i]).priority <= hook.priority
            &&& forall|i: int|
                k < i < after.len() ==> (#[trigger] after[i]).priority > hook.priority
        }),
    decreases hooks.len(),
{
    lemma_slot_bound(hooks, hook.priority);
    let k = slot(hooks, hook.priority) as int;
    let after = hooks.insert(k, hook);
    if hooks.len() > 0 && hooks[0].priority <= hook.priority {
        let rest = hooks.drop_first();
        assert(by_priority(rest)) by {
            assert forall|i: int, j: int| 0 <= i <= j < rest.len() implies (
            #[trigger] rest[i]).priority <= (#[trigger] rest[j]).priority by {
                assert(rest[i] == hooks[i + 1] && rest[j] == hooks[j + 1]);
            }
        }
        hooks_run_by_priority(rest, hook);
        let later = rest.insert(k - 1, hook);
        assert(after =~= seq![hooks[0]] + later);
        assert forall|i: int| 0 <= i < k implies (#[trigger] after[i]).priority
            <= hook.priority by {
            if i > 0 {
                assert(after[i] == later[i - 1]);
            }
        }
        assert forall|i: int| k < i < after.len() implies (#[trigger] after[i]).priority
            > hook.priority by {
            assert(after[i] == later[i - 1]);
        }
    } else {
        assert forall|i: int| k < i < after.len() implies (#[trigger] after[i]).priority
            > hook.priority by {
            assert(after[i] == hooks[i - 1]);
            assert(hooks[0].priority <= hooks[i - 1].priority);
        }
    }
}

/// The hooks of a phase are called one after the other: the next is the first that has
/// not had its turn, and where there is none, the message goes on.
pub proof fn hooks_are_called_in_turn<E>(
    reg: HookRegistry,
    step: HookStep<E>,
    phase: HookPhase,
    from: int,
)
    requires
        reg.continues_at(step, phase, from),
        0 <= from,
        reg@.len() <= usize::MAX,
    ensures
        match step {
            HookStep::Call(i) => from <= i < reg@.len() && reg@[i as int].phase == phase && forall|
                j: int,
            |
                from <= j < i ==> (#[trigger] reg@[j]).phase != phase,
            HookStep::Finish(outcome) => outcome == HookOutcome::<E>::Action(HookAction::Continue)
                && forall|j: int| from <= j < reg@.len() ==> (#[trigger] reg@[j]).phase != phase,
        },
{
    lemma_next_for_phase(reg@, phase, from);
}

proof fn lemma_next_for_phase(hooks: Seq<PipelineHook>, phase: HookPhase, from: int)
    requires
        0 <= from,
    ensures
        match next_for_phase(hooks, phase, from) {
            Some(i) => from <= i < hooks.len() && hooks[i].phase == phase && forall|j: int|
                from <= j < i ==> (#[trigger] hooks[j]).phase != phase,
            None => forall|j: int| from <= j < hooks.len() ==> (#[trigger] hooks[j]).phase != phase,
        },
    decreases hooks.len() - from,
{
    if from < hooks.len() && hooks[from].phase != phase {
        lemma_next_for_phase(hooks, phase, from + 1);
    }
}

} // verus!
