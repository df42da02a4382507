//! Plans of several actions.
use vstd::prelude::*;

use crate::text;
use crate::types::{ActionResult, Metadata};

verus! {

#[derive(Clone, Copy, Debug, PartialEq, Eq, Structural)]
pub enum PlanStepStatus {
    Pending,
    Completed,
    Failed,
}

#[derive(Clone, Debug)]
pub struct ActionPlanStep {
    pub action: String,
    pub reasoning: Option<String>,
    pub status: PlanStepStatus,
    pub result: Option<ActionResult>,
}

impl ActionPlanStep {
    /// The step is pending, with this action and this reasoning.
    pub open spec fn is_planned(self, action: Seq<char>, reasoning: Option<Seq<char>>) -> bool {
        &&& self.action@ == action
        &&& text::opt_text(self.reasoning) == reasoning
        &&& self.status == PlanStepStatus::Pending
        &&& self.result is None
    }

    pub fn new(action: &str) -> (r: Self)
        ensures
            r.is_planned(action@, None),
    {
        ActionPlanStep {
            action: action.to_owned(),
            reasoning: None,
            status: PlanStepStatus::Pending,
            result: None,
        }
    }

    pub fn with_reasoning(self, reasoning: &str) -> (r: Self)
        ensures
            r.action == self.action,
            text::opt_text(r.reasoning) == Some(reasoning@),
            r.status == self.status,
            r.result == self.result,
    {
        ActionPlanStep {
            action: self.action,
            reasoning: Some(reasoning.to_owned()),
            status: self.status,
            result: self.result,
        }
    }
}

#[derive(Clone, Debug)]
pub struct ActionPlan {
    pub steps: Vec<ActionPlanStep>,
    pub metadata: Option<Metadata>,
}

/// The steps with a given status, in order.
pub open spec fn with_status(steps: Seq<ActionPlanStep>, status: PlanStepStatus) -> Seq<
    ActionPlanStep,
> {
    steps.filter(|s: ActionPlanStep| s.status == status)
}

/// The first position at or after `from` of a pending step.
pub open spec fn next_pending(steps: Seq<ActionPlanStep>, from: int) -> Option<int>
    decreases steps.len() - from,
{
    if from < 0 || from >= steps.len() {
        None
    } else if steps[from].status == PlanStepStatus::Pending {
        Some(from)
    } else {
        next_pending(steps, from + 1)
    }
}

/// The status that a result gives to its step.
pub open spec fn status_of(result: ActionResult) -> PlanStepStatus {
    if result.success {
        PlanStepStatus::Completed
    } else {
        PlanStepStatus::Failed
    }
}

/// The steps with the result of the one at `index` noted, where there is one.
pub open spec fn with_result(
    steps: Seq<ActionPlanStep>,
    index: int,
    result: ActionResult,
) -> Seq<ActionPlanStep> {
    if 0 <= index < steps.len() {
        steps.update(
            index,
            ActionPlanStep { status: status_of(result), result: Some(result), ..steps[index] },
        )
    } else {
        steps
    }
}

impl Default for ActionPlan {
    fn default() -> (r: Self)
        ensures
            r.steps@.len() == 0,
            r.metadata is None,
    {
        ActionPlan { steps: Vec::new(), metadata: None }
    }
}

impl ActionPlan {
    pub fn new() -> (r: Self)
        ensures
            r.steps@.len() == 0,
            r.metadata is None,
    {
        ActionPlan::default()
    }

    pub fn add_step(&mut self, step: ActionPlanStep)
        ensures
            final(self).steps@ == old(self).steps@.push(step),
            final(self).metadata == old(self).metadata,
    {
        self.steps.push(step);
    }

    /// The steps that are pending, in order.
    pub fn pending_steps(&self) -> (r: Vec<&ActionPlanStep>)
        ensures
            r@.len() == with_status(self.steps@, PlanStepStatus::Pending).len(),
            forall|i: int|
                0 <= i < r@.len() ==> *(#[trigger] r@[i]) == with_status(
                    self.steps@,
                    PlanStepStatus::Pending,
                )[i],
    {
        let mut out: Vec<&ActionPlanStep> = Vec::new();
        let ghost st = PlanStepStatus::Pending;
        let mut i: usize = 0;
        proof {
            reveal(Seq::filter);
        }
        while i < self.steps.len()
            invariant
                i <= self.steps@.len(),
                st == PlanStepStatus::Pending,
                out@.len() == with_status(self.steps@.take(i as int), st).len(),
                forall|j: int|
                    0 <= j < out@.len() ==> *(#[trigger] out@[j]) == with_status(
                        self.steps@.take(i as int),
                        st,
                    )[j],
            decreases self.steps.len() - i,
        {
            proof {
                reveal(Seq::filter);
                assert(self.steps@.take(i + 1).drop_last() =~= self.steps@.take(i as int));
                assert(self.steps@.take(i + 1).last() == self.steps@[i as int]);
            }
            if self.steps[i].status == PlanStepStatus::Pending {
                out.push(&self.steps[i]);
            }
            i = i + 1;
        }
        assert(self.steps@.take(self.steps@.len() as int) =~= self.steps@);
        out
    }

    /// The first step that is pending.
    pub fn next_step(&self) -> (r: Option<&ActionPlanStep>)
        ensures
            match r {
                Some(s) => next_pending(self.steps@, 0) is Some && *s
                    == self.steps@[next_pending(self.steps@, 0).unwrap()],
                None => next_pending(self.steps@, 0) is None,
            },
    {
        let mut i: usize = 0;
        while i < self.steps.len()
            invariant
                i <= self.steps@.len(),
                next_pending(self.steps@, 0) == next_pending(self.steps@, i as int),
            decreases self.steps.len() - i,
        {
            if self.steps[i].status == PlanStepStatus::Pending {
                return Some(&self.steps[i]);
            }
            i = i + 1;
        }
        None
    }

    /// Notes the result of the step at `index`, where there is one: the step is
    /// completed or failed as the result says.
    pub fn mark_completed(&mut self, index: usize, result: ActionResult)
        ensures
            final(self).metadata == old(self).metadata,
            final(self).steps@ == with_result(old(self).steps@, index as int, result),
    {
        if index < self.steps.len() {
            let status = if result.success {
                PlanStepStatus::Completed
            } else {
                PlanStepStatus::Failed
            };
            self.steps[index].status = status;
            self.steps[index].result = Some(result);
            assert(self.steps@ =~= old(self).steps@.update(
                index as int,
                (ActionPlanStep {
                    status: status_of(result),
                    result: Some(result),
                    ..old(self).steps@[index as int]
                }),
            ));
        }
    }

    /// Whether no step is pending.
    pub fn is_complete(&self) -> (r: bool)
        ensures
            r == (forall|i: int|
                0 <= i < self.steps@.len() ==> (#[trigger] self.steps@[i]).status
                    != PlanStepStatus::Pending),
    {
        let mut i: usize = 0;
        while i < self.steps.len()
            invariant
                i <= self.steps@.len(),
                forall|j: int|
                    0 <= j < i ==> (#[trigger] self.steps@[j]).status != PlanStepStatus::Pending,
            decreases self.steps.len() - i,
        {
            if self.steps[i].status == PlanStepStatus::Pending {
                return false;
            }
            i = i + 1;
        }
        true
    }

    fn count(&self, status: PlanStepStatus) -> (r: usize)
        ensures
            r == with_status(self.steps@, status).len(),
    {
        let mut n: usize = 0;
        let mut i: usize = 0;
        proof {
            reveal(Seq::filter);
        }
        while i < self.steps.len()
            invariant
                n <= i <= self.steps@.len(),
                n == with_status(self.steps@.take(i as int), status).len(),
            decreases self.steps.len() - i,
        {
            proof {
                reveal(Seq::filter);
                assert(self.steps@.take(i + 1).drop_last() =~= self.steps@.take(i as int));
                assert(self.steps@.take(i + 1).last() == self.steps@[i as int]);
            }
            if self.steps[i].status == status {
                n = n + 1;
            }
            i = i + 1;
        }
        assert(self.steps@.take(self.steps@.len() as int) =~= self.steps@);
        n
    }

    /// The number of steps that are completed.
    pub fn completed_count(&self) -> (r: usize)
        ensures
            r == with_status(self.steps@, PlanStepStatus::Completed).len(),
    {
        self.count(PlanStepStatus::Completed)
    }

    /// The number of steps that failed.
    pub fn failed_count(&self) -> (r: usize)
        ensures
            r == with_status(self.steps@, PlanStepStatus::Failed).len(),
    {
        self.count(PlanStepStatus::Failed)
    }
}

/// Every step is pending, completed or failed, and only one of these.
pub proof fn steps_are_counted_once(steps: Seq<ActionPlanStep>)
    ensures
        with_status(steps, PlanStepStatus::Pending).len() + with_status(
            steps,
            PlanStepStatus::Completed,
        ).len() + with_status(steps, PlanStepStatus::Failed).len() == steps.len(),
    decreases steps.len(),
{
    reveal(Seq::filter);
    if steps.len() > 0 {
        steps_are_counted_once(steps.drop_last());
    }
}

/// A plan is complete just where it has no pending step, and then it has no next
/// step.
pub proof fn complete_means_none_pending(steps: Seq<ActionPlanStep>, from: int)
    requires
        0 <= from <= steps.len(),
    ensures
        next_pending(steps, from) is None <==> (forall|i: int|
            from <= i < steps.len() ==> (#[trigger] steps[i]).status != PlanStepStatus::Pending),
        from == 0 ==> (next_pending(steps, 0) is None <==> with_status(
            steps,
            PlanStepStatus::Pending,
        ).len() == 0),
    decreases steps.len() - from,
{
    if from < steps.len() {
        if steps[from].status != PlanStepStatus::Pending {
            complete_means_none_pending(steps, from + 1);
        }
    }
    if from == 0 {
        lemma_none_pending(steps);
    }
}

proof fn lemma_none_pending(steps: Seq<ActionPlanStep>)
    ensures
        with_status(steps, PlanStepStatus::Pending).len() == 0 <==> (forall|i: int|
            0 <= i < steps.len() ==> (#[trigger] steps[i]).status != PlanStepStatus::Pending),
    decreases steps.len(),
{
    reveal(Seq::filter);
    if steps.len() > 0 {
        let front = steps.drop_last();
        lemma_none_pending(front);
        if with_status(steps, PlanStepStatus::Pending).len() == 0 {
            assert forall|i: int| 0 <= i < steps.len() implies (#[trigger] steps[i]).status
                != PlanStepStatus::Pending by {
                if i < front.len() {
                    assert(front[i] == steps[i]);
                }
            }
        } else if forall|i: int|
            0 <= i < steps.len() ==> (#[trigger] steps[i]).status != PlanStepStatus::Pending {
            assert forall|i: int| 0 <= i < front.len() implies (#[trigger] front[i]).status
                != PlanStepStatus::Pending by {
                assert(front[i] == steps[i]);
            }
            assert(steps.last() == steps[steps.len() - 1]);
        }
    }
}

/// A result becomes that of the step that it is of, which is then completed or failed as
/// the result says and counted so; all other steps stay as they are. A step that was the
/// next is no longer.
pub proof fn results_are_noted(steps: Seq<ActionPlanStep>, index: int, result: ActionResult)
    requires
        0 <= index < steps.len(),
        steps[index].status == PlanStepStatus::Pending,
    ensures
        ({
            let after = with_result(steps, index, result);
            let done = PlanStepStatus::Completed;
            let failed = PlanStepStatus::Failed;
            let pending = PlanStepStatus::Pending;
            &&& after.len() == steps.len()
            &&& after[index].result == Some(result)
            &&& after[index].action == steps[index].action
            &&& after[index].status == done <==> result.success
            &&& after[index].status == failed <==> !result.success
            &&& forall|i: int|
                0 <= i < steps.len() && i != index ==> #[trigger] after[i] == steps[i]
            &&& with_status(after, pending).len() == with_status(steps, pending).len() - 1
            &&& with_status(after, done).len() == with_status(steps, done).len() + (
            if result.success {
                1int
            } else {
                0
            })
            &&& with_status(after, failed).len() == with_status(steps, failed).len() + (
            if result.success {
                0int
            } else {
                1
            })
            &&& next_pending(after, 0) != Some(index)
        }),
{
    let after = with_result(steps, index, result);
    lemma_count_updated(steps, index, after[index], PlanStepStatus::Pending);
    lemma_count_updated(steps, index, after[index], PlanStepStatus::Completed);
    lemma_count_updated(steps, index, after[index], PlanStepStatus::Failed);
    lemma_next_is_pending(after, 0);
}

/// The next step is pending, and none before it.
proof fn lemma_next_is_pending(steps: Seq<ActionPlanStep>, from: int)
    requires
        0 <= from,
    ensures
        match next_pending(steps, from) {
            Some(k) => from <= k < steps.len() && steps[k].status == PlanStepStatus::Pending && (
            forall|i: int|
                from <= i < k ==> (#[trigger] steps[i]).status != PlanStepStatus::Pending),
            None => true,
        },
    decreases steps.len() - from,
{
    if from < steps.len() && steps[from].status != PlanStepStatus::Pending {
        lemma_next_is_pending(steps, from + 1);
    }
}

/// The next step is the first that is pending.
pub proof fn the_first_pending_step_is_next(steps: Seq<ActionPlanStep>, k: int)
    requires
        0 <= k < steps.len(),
        steps[k].status == PlanStepStatus::Pending,
        forall|i: int| 0 <= i < k ==> (#[trigger] steps[i]).status != PlanStepStatus::Pending,
    ensures
        next_pending(steps, 0) == Some(k),
{
    lemma_next_is_pending(steps, 0);
    complete_means_none_pending(steps, 0);
}

/// What a step counts for, it counts for alone.
proof fn lemma_count_updated(
    steps: Seq<ActionPlanStep>,
    i: int,
    step: ActionPlanStep,
    status: PlanStepStatus,
)
    requires
        0 <= i < steps.len(),
    ensures
        with_status(steps.update(i, step), status).len() == with_status(steps, status).len() - (
        if steps[i].status == status {
            1int
        } else {
            0
        }) + (if step.status == status {
            1int
        } else {
            0
        }),
    decreases steps.len(),
{
    reveal(Seq::filter);
    let after = steps.update(i, step);
    if i == steps.len() - 1 {
        assert(after.drop_last() =~= steps.drop_last());
    } else {
        lemma_count_updated(steps.drop_last(), i, step, status);
        assert(after.drop_last() =~= steps.drop_last().update(i, step));
        assert(after.last() == steps.last());
    }
}

/// The template of the prompt that asks for a plan.
pub const ACTION_PLANNER_TEMPLATE: &'static str =
    r#"# INSTRUCTIONS: Create an action plan for {{agentName}}.

Based on the conversation and available actions, determine what actions (if any) {{agentName}} should take.

Available actions:
{{actions}}

{{#if recentMessages}}Recent conversation:
{{recentMessages}}
{{/if}}

Current message: {{currentMessage}}

Respond with a JSON array of action steps. Each step should have:
- "action": the action name (must be from the available actions list)
- "reasoning": why this action should be taken

If no actions are needed, respond with an empty array: []

Example: [{"action": "SEARCH", "reasoning": "User asked for information that requires searching"}]

Respond ONLY with the JSON array, no other text."#;

} // verus!
