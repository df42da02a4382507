//! Actions: how a name finds one, the chain of actions that a response names,
//! and plans carried out step by step.
use vstd::prelude::*;

use crate::error::RustlizaError;
use crate::hooks::{HookAction, HookOutcome};
use crate::lines;
use crate::planner;
use crate::planner::{ActionPlan, ActionPlanStep, PlanStepStatus};
use crate::text;
use crate::types::ActionResult;

verus! {

/// What the pipeline knows of an action.
#[derive(Clone, Debug)]
pub struct ActionSpec {
    pub name: String,
    pub description: String,
    pub similes: Vec<String>,
}

/// One of the similes is `name`, whatever the case of ASCII letters.
pub open spec fn simile_matches(similes: Seq<Seq<char>>, name: Seq<char>) -> bool {
    exists|i: int| 0 <= i < similes.len() && lines::same_ignoring_case(#[trigger] similes[i], name)
}

impl ActionSpec {
    /// The action goes by `name`: it is its name or one of its similes, whatever
    /// the case of ASCII letters.
    pub open spec fn goes_by(self, name: Seq<char>) -> bool {
        lines::same_ignoring_case(self.name@, name) || simile_matches(
            text::texts(self.similes@),
            name,
        )
    }

    /// Whether the action goes by `name`.
    pub fn is_called(&self, name: &str) -> (r: bool)
        ensures
            r == self.goes_by(name@),
    {
        if lines::eq_ignore_ascii_case(self.name.as_str(), name) {
            return true;
        }
        let ghost all = text::texts(self.similes@);
        let mut i: usize = 0;
        while i < self.similes.len()
            invariant
                i <= self.similes@.len(),
                all == text::texts(self.similes@),
                !lines::same_ignoring_case(self.name@, name@),
                forall|j: int|
                    0 <= j < i ==> !lines::same_ignoring_case(#[trigger] all[j], name@),
            decreases self.similes.len() - i,
        {
            assert(all[i as int] == self.similes@[i as int]@);
            if lines::eq_ignore_ascii_case(self.similes[i].as_str(), name) {
                return true;
            }
            i = i + 1;
        }
        false
    }
}

/// The position at or after `from` of the first action that goes by `name`.
pub open spec fn action_index(actions: Seq<ActionSpec>, name: Seq<char>, from: int) -> Option<int>
    decreases actions.len() - from,
{
    if from < 0 || from >= actions.len() {
        None
    } else if actions[from].goes_by(name) {
        Some(from)
    } else {
        action_index(actions, name, from + 1)
    }
}

/// The position of the first action that goes by `name`.
pub fn find_action(actions: &Vec<ActionSpec>, name: &str) -> (r: Option<usize>)
    ensures
        match r {
            Some(i) => action_index(actions@, name@, 0) == Some(i as int) && i < actions@.len(),
            None => action_index(actions@, name@, 0) is None,
        },
{
    let mut i: usize = 0;
    while i < actions.len()
        invariant
            i <= actions@.len(),
            action_index(actions@, name@, 0) == action_index(actions@, name@, i as int),
        decreases actions.len() - i,
    {
        if actions[i].is_called(name) {
            return Some(i);
        }
        i = i + 1;
    }
    None
}

// ---------------------------------------------------------------------------
// The chain of actions that a response names
// ---------------------------------------------------------------------------

/// A chain of actions in the course of being run.
pub struct ActionChain {
    pub names: Vec<String>,
    /// The position of the name whose turn it is.
    pub position: usize,
    pub results: Vec<ActionResult>,
}

/// The first position at or after `from` of a name that an action goes by.
pub open spec fn next_named(names: Seq<String>, actions: Seq<ActionSpec>, from: int) -> int
    decreases names.len() - from,
{
    if from < 0 || from >= names.len() || action_index(actions, names[from]@, 0) is Some {
        from
    } else {
        next_named(names, actions, from + 1)
    }
}

impl ActionChain {
    /// A chain over the given names, none of them run yet.
    pub fn new(names: Vec<String>) -> (r: Self)
        ensures
            r.names == names,
            r.position == 0,
            r.results@.len() == 0,
    {
        ActionChain { names, position: 0, results: Vec::new() }
    }

    /// Passes over the names that no action goes by, and gives the action of the
    /// next name: the one that is to say whether it is valid. Without such a
    /// name the chain is at its end.
    pub fn next(&mut self, actions: &Vec<ActionSpec>) -> (r: Option<usize>)
        requires
            old(self).position <= old(self).names@.len(),
        ensures
            final(self).names == old(self).names,
            final(self).results == old(self).results,
            final(self).position == next_named(
                old(self).names@,
                actions@,
                old(self).position as int,
            ),
            final(self).position <= final(self).names@.len(),
            match r {
                Some(i) => final(self).position < final(self).names@.len() && action_index(
                    actions@,
                    final(self).names@[final(self).position as int]@,
                    0,
                ) == Some(i as int) && i < actions@.len(),
                None => final(self).position == final(self).names@.len(),
            },
    {
        while self.position < self.names.len()
            invariant
                self.names == old(self).names,
                self.results == old(self).results,
                self.position <= self.names@.len(),
                next_named(self.names@, actions@, old(self).position as int) == next_named(
                    self.names@,
                    actions@,
                    self.position as int,
                ),
            decreases self.names.len() - self.position,
        {
            match find_action(actions, self.names[self.position].as_str()) {
                Some(i) => {
                    return Some(i);
                },
                None => {
                    self.position = self.position + 1;
                },
            }
        }
        None
    }

    /// Goes on after an action that is not valid, or could not say whether it
    /// is.
    pub fn pass_over(&mut self)
        requires
            old(self).position < old(self).names.len(),
        ensures
            final(self).names == old(self).names,
            final(self).results == old(self).results,
            final(self).position == old(self).position + 1,
    {
        self.position = self.position + 1;
    }

    /// Notes how an action came out, and says whether the chain goes on: a
    /// result says so itself, and after an error, which is noted as a failure,
    /// it goes on.
    pub fn note(&mut self, outcome: Result<ActionResult, RustlizaError>) -> (r: bool)
        requires
            old(self).position < old(self).names.len(),
        ensures
            notes(*old(self), outcome, *final(self), r),
    {
        self.position = self.position + 1;
        let ghost before = self.results@;
        match outcome {
            Ok(result) => {
                let goes_on = result.continue_chain;
                self.results.push(result);
                assert(self.results@.drop_last() =~= before);
                goes_on
            },
            Err(e) => {
                self.results.push(ActionResult::err(e.message().as_str()));
                assert(self.results@.drop_last() =~= before);
                true
            },
        }
    }
}

/// The chain has noted how an action came out, and goes on or not.
pub open spec fn notes(
    before: ActionChain,
    outcome: Result<ActionResult, RustlizaError>,
    after: ActionChain,
    goes_on: bool,
) -> bool {
    &&& after.names == before.names
    &&& after.position == before.position + 1
    &&& after.results@.len() == before.results@.len() + 1
    &&& after.results@.drop_last() == before.results@
    &&& match outcome {
        Ok(result) => after.results@.last() == result && goes_on == result.continue_chain,
        Err(e) => after.results@.last().is_err(e.text()) && goes_on,
    }
}

/// What came out is the last of the results, and those before it stay. A result ends the
/// chain where it says so. An error is a failed result that tells it, and never ends the
/// chain.
pub proof fn outcomes_are_noted(
    before: ActionChain,
    outcome: Result<ActionResult, RustlizaError>,
    after: ActionChain,
    goes_on: bool,
)
    requires
        notes(before, outcome, after, goes_on),
    ensures
        forall|i: int|
            0 <= i < before.results@.len() ==> #[trigger] after.results@[i] == before.results@[i],
        after.results@.len() == before.results@.len() + 1,
        outcome is Ok ==> after.results@.last() == outcome->Ok_0,
        outcome is Err ==> !after.results@.last().success && text::opt_text(
            after.results@.last().error,
        ) == Some(outcome->Err_0.text()),
        !goes_on <==> outcome is Ok && !outcome->Ok_0.continue_chain,
        after.position > before.position && after.names == before.names,
{
    assert forall|i: int| 0 <= i < before.results@.len() implies #[trigger] after.results@[i]
        == before.results@[i] by {
        assert(after.results@.drop_last()[i] == after.results@[i]);
    }
}

/// How the names of a chain come out when they are run: which are valid, and
/// what the handlers of the valid ones give.
pub struct ChainWorld {
    pub valid: spec_fn(int) -> bool,
    pub outcome: spec_fn(int) -> Result<ActionResult, RustlizaError>,
}

/// The positions of the names that are run in a chain from position `i` on: of
/// the names that an action goes by, those that are valid, up to the first
/// whose result ends the chain.
pub open spec fn run_positions(
    names: Seq<String>,
    actions: Seq<ActionSpec>,
    world: ChainWorld,
    i: int,
) -> Seq<int>
    decreases names.len() - i,
{
    if i < 0 || i >= names.len() {
        Seq::empty()
    } else if action_index(actions, names[i]@, 0) is None || !(world.valid)(i) {
        run_positions(names, actions, world, i + 1)
    } else if (world.outcome)(i) is Ok && !(world.outcome)(i)->Ok_0.continue_chain {
        seq![i]
    } else {
        seq![i] + run_positions(names, actions, world, i + 1)
    }
}

/// Names that no action goes by change nothing: the chain goes on as from the
/// next name that one goes by.
pub proof fn unknown_names_are_skipped(
    names: Seq<String>,
    actions: Seq<ActionSpec>,
    world: ChainWorld,
    i: int,
)
    requires
        0 <= i <= names.len(),
    ensures
        run_positions(names, actions, world, i) == run_positions(
            names,
            actions,
            world,
            next_named(names, actions, i),
        ),
    decreases names.len() - i,
{
    if i < names.len() && action_index(actions, names[i]@, 0) is None {
        unknown_names_are_skipped(names, actions, world, i + 1);
    }
}

/// Every name that is run stands in the chain, is one that an action goes by,
/// and is valid; and only the last one ends the chain.
pub proof fn run_names_are_known_and_valid(
    names: Seq<String>,
    actions: Seq<ActionSpec>,
    world: ChainWorld,
    i: int,
)
    requires
        0 <= i <= names.len(),
    ensures
        forall|k: int|
            0 <= k < run_positions(names, actions, world, i).len() ==> {
                let p = #[trigger] run_positions(names, actions, world, i)[k];
                &&& i <= p < names.len()
                &&& action_index(actions, names[p]@, 0) is Some
                &&& (world.valid)(p)
                &&& (k < run_positions(names, actions, world, i).len() - 1
                    ==> (world.outcome)(p) is Err || (world.outcome)(p)->Ok_0.continue_chain)
            },
    decreases names.len() - i,
{
    if i < names.len() {
        run_names_are_known_and_valid(names, actions, world, i + 1);
        let rest = run_positions(names, actions, world, i + 1);
        let all = run_positions(names, actions, world, i);
        if action_index(actions, names[i]@, 0) is Some && (world.valid)(i) && !(
        (world.outcome)(i) is Ok && !(world.outcome)(i)->Ok_0.continue_chain) {
            assert forall|k: int| 0 <= k < all.len() implies {
                let p = #[trigger] all[k];
                &&& i <= p < names.len()
                &&& action_index(actions, names[p]@, 0) is Some
                &&& (world.valid)(p)
                &&& (k < all.len() - 1 ==> (world.outcome)(p) is Err
                    || (world.outcome)(p)->Ok_0.continue_chain)
            } by {
                if k > 0 {
                    assert(all[k] == rest[k - 1]);
                }
            }
        }
    }
}

// ---------------------------------------------------------------------------
// Plans
// ---------------------------------------------------------------------------

/// A step that the model proposes.
#[derive(Clone, Debug)]
pub struct PlanEntry {
    pub action: String,
    pub reasoning: Option<String>,
}

/// The proposed steps whose action is known.
pub open spec fn known_entries(entries: Seq<PlanEntry>, actions: Seq<ActionSpec>) -> Seq<
    PlanEntry,
> {
    entries.filter(|e: PlanEntry| action_index(actions, e.action@, 0) is Some)
}

/// The plan holds a pending step for each of the entries.
pub open spec fn plans(steps: Seq<ActionPlanStep>, entries: Seq<PlanEntry>) -> bool {
    &&& steps.len() == entries.len()
    &&& forall|i: int|
        0 <= i < steps.len() ==> (#[trigger] steps[i]).is_planned(
            entries[i].action@,
            text::opt_text(entries[i].reasoning),
        )
}

/// The plan of the proposed steps whose action is known.
pub fn plan_from_entries(entries: &Vec<PlanEntry>, actions: &Vec<ActionSpec>) -> (r: ActionPlan)
    ensures
        plans(r.steps@, known_entries(entries@, actions@)),
        r.metadata is None,
{
    let mut plan = ActionPlan::new();
    let ghost p = |e: PlanEntry| action_index(actions@, e.action@, 0) is Some;
    let mut i: usize = 0;
    proof {
        reveal(Seq::filter);
    }
    while i < entries.len()
        invariant
            i <= entries@.len(),
            p == (|e: PlanEntry| action_index(actions@, e.action@, 0) is Some),
            plans(plan.steps@, entries@.take(i as int).filter(p)),
            plan.metadata is None,
        decreases entries.len() - i,
    {
        let entry = &entries[i];
        proof {
            reveal(Seq::filter);
            assert(entries@.take(i + 1).drop_last() =~= entries@.take(i as int));
            assert(entries@.take(i + 1).last() == entries@[i as int]);
        }
        if find_action(actions, entry.action.as_str()).is_some() {
            let mut step = ActionPlanStep::new(entry.action.as_str());
            match &entry.reasoning {
                Some(why) => {
                    step = step.with_reasoning(why.as_str());
                },
                None => {},
            }
            plan.add_step(step);
        }
        i = i + 1;
    }
    assert(entries@.take(entries@.len() as int) =~= entries@);
    plan
}

/// A plan in the course of being carried out.
pub struct PlanRun {
    pub plan: ActionPlan,
    /// The position of the step whose turn it is.
    pub position: usize,
    pub results: Vec<ActionResult>,
}

/// Whether the hooks before an action let the plan go on: they do unless one of
/// them skips or aborts.
pub fn hooks_allow<E>(outcome: &HookOutcome<E>) -> (r: bool)
    ensures
        r == !(*outcome == HookOutcome::<E>::Action(HookAction::Skip) || *outcome
            == HookOutcome::<E>::Action(HookAction::Abort)),
{
    match outcome {
        HookOutcome::Action(HookAction::Skip) => false,
        HookOutcome::Action(HookAction::Abort) => false,
        _ => true,
    }
}

/// Whether the hooks end the processing of a message.
pub fn aborts<E>(outcome: &HookOutcome<E>) -> (r: bool)
    ensures
        r == (*outcome == HookOutcome::<E>::Action(HookAction::Abort)),
{
    match outcome {
        HookOutcome::Action(HookAction::Abort) => true,
        _ => false,
    }
}

/// The result of a step: the first of the chain that its action made, or a plain
/// success where the chain gave none.
pub open spec fn is_step_result(made: Seq<ActionResult>, result: ActionResult) -> bool {
    if made.len() > 0 {
        result == made[0]
    } else {
        result.is_ok("completed"@)
    }
}

/// The run has noted what the chain of the current step made, and goes on or not.
pub open spec fn notes_step(
    before: PlanRun,
    made: Seq<ActionResult>,
    after: PlanRun,
    goes_on: bool,
) -> bool {
    let i = before.position as int;
    let noted = after.plan.steps@[i];
    let result = after.results@.last();
    &&& after.position == before.position + 1
    &&& after.results@.len() == before.results@.len() + 1
    &&& after.results@.drop_last() == before.results@
    &&& is_step_result(made, result)
    &&& goes_on == result.continue_chain
    &&& after.plan.metadata == before.plan.metadata
    &&& after.plan.steps@.len() == before.plan.steps@.len()
    &&& noted.status == planner::status_of(result)
    &&& noted.action == before.plan.steps@[i].action
    &&& noted.reasoning == before.plan.steps@[i].reasoning
    &&& noted.result is Some
    &&& noted.result.unwrap().same_as(result)
    &&& forall|j: int|
        0 <= j < before.plan.steps@.len() && j != i ==> #[trigger] after.plan.steps@[j]
            == before.plan.steps@[j]
}

/// The first result that a step made is the step's: it is completed or failed as that
/// says, and the plan goes on as that says. All other steps, and the results before, stay.
pub proof fn steps_are_noted(
    before: PlanRun,
    made: Seq<ActionResult>,
    after: PlanRun,
    goes_on: bool,
)
    requires
        before.position < before.plan.steps@.len(),
        made.len() > 0,
        notes_step(before, made, after, goes_on),
    ensures
        after.results@.last() == made[0],
        goes_on == made[0].continue_chain,
        ({
            let noted = after.plan.steps@[before.position as int];
            &&& noted.status == PlanStepStatus::Completed <==> made[0].success
            &&& noted.status == PlanStepStatus::Failed <==> !made[0].success
            &&& noted.result is Some && text::opt_text(noted.result.unwrap().text)
                == text::opt_text(made[0].text)
            &&& noted.action == before.plan.steps@[before.position as int].action
        }),
        forall|j: int|
            0 <= j < before.plan.steps@.len() && j != before.position
                ==> #[trigger] after.plan.steps@[j] == before.plan.steps@[j],
        after.position == before.position + 1,
{
}

impl PlanRun {
    pub fn new(plan: ActionPlan) -> (r: Self)
        ensures
            r.plan == plan,
            r.position == 0,
            r.results@.len() == 0,
    {
        PlanRun { plan, position: 0, results: Vec::new() }
    }

    /// The action of the step whose turn it is.
    pub fn current(&self) -> (r: Option<String>)
        ensures
            text::opt_text(r) == if self.position < self.plan.steps@.len() {
                Some(self.plan.steps@[self.position as int].action@)
            } else {
                None
            },
    {
        if self.position < self.plan.steps.len() {
            Some(self.plan.steps[self.position].action.clone())
        } else {
            None
        }
    }

    /// Notes the results of the chain that the current step made, and says
    /// whether the plan goes on: the result of the step says so.
    pub fn note(&mut self, made: Vec<ActionResult>) -> (r: bool)
        requires
            old(self).position < old(self).plan.steps.len(),
        ensures
            notes_step(*old(self), made@, *final(self), r),
    {
        let mut made = made;
        let ghost given = made@;
        let result = if made.len() > 0 {
            made.remove(0)
        } else {
            ActionResult::ok("completed")
        };
        let goes_on = result.continue_chain;
        let copy = result.copy();
        self.plan.mark_completed(self.position, copy);
        let ghost before = self.results@;
        self.results.push(result);
        assert(self.results@.drop_last() =~= before);
        self.position = self.position + 1;
        goes_on
    }
}

// ---------------------------------------------------------------------------
// Names and the actions they stand for
// ---------------------------------------------------------------------------

/// An action goes by its name and by each of its similes, whatever the case of ASCII
/// letters, and by nothing else.
pub proof fn actions_go_by_their_names(a: ActionSpec, name: Seq<char>, i: int)
    requires
        0 <= i < a.similes@.len(),
    ensures
        a.goes_by(a.name@),
        a.goes_by(lines::lowered(a.name@)),
        a.goes_by(lines::uppered(a.name@)),
        a.goes_by(a.similes@[i]@),
        a.goes_by(lines::lowered(a.similes@[i]@)),
        a.goes_by(name) ==> lines::lowered(name) == lines::lowered(a.name@) || exists|k: int|
            0 <= k < a.similes@.len() && lines::lowered(name) == lines::lowered(
                (#[trigger] a.similes@[k])@,
            ),
{
    let all = text::texts(a.similes@);
    assert(all[i] == a.similes@[i]@);
    lemma_same_lowered(a.name@, a.name@);
    lemma_case(a.name@);
    lemma_case(all[i]);
    assert(lines::same_ignoring_case(all[i], all[i]));
    assert(lines::same_ignoring_case(all[i], lines::lowered(all[i])));
    if a.goes_by(name) {
        lemma_same_lowered(a.name@, name);
        if simile_matches(all, name) {
            let k = choose|k: int|
                0 <= k < all.len() && lines::same_ignoring_case(#[trigger] all[k], name);
            lemma_same_lowered(all[k], name);
            assert(all[k] == a.similes@[k]@);
        }
    }
}

/// Texts are equal but for the case of letters where their small forms are equal.
proof fn lemma_same_lowered(a: Seq<char>, b: Seq<char>)
    ensures
        lines::same_ignoring_case(a, b) <==> lines::lowered(a) == lines::lowered(b),
{
    assert(a.map_values(|c: char| lines::lower(c)) =~= lines::lowered(a));
    assert(b.map_values(|c: char| lines::lower(c)) =~= lines::lowered(b));
}

/// A text is equal to its small and its capital form but for the case.
proof fn lemma_case(a: Seq<char>)
    ensures
        lines::same_ignoring_case(a, lines::lowered(a)),
        lines::same_ignoring_case(a, lines::uppered(a)),
{
    let f = |c: char| lines::lower(c);
    assert(a.map_values(f) =~= lines::lowered(a).map_values(f));
    assert forall|i: int| 0 <= i < a.len() implies #[trigger] a.map_values(f)[i]
        == lines::uppered(a).map_values(f)[i] by {
        assert(lines::uppered(a)[i] == lines::upper(a[i]));
    }
    assert(a.map_values(f) =~= lines::uppered(a).map_values(f));
}

/// A name finds the first of the actions that go by it, and one where any does.
pub proof fn names_find_actions(actions: Seq<ActionSpec>, name: Seq<char>, from: int)
    requires
        0 <= from <= actions.len(),
    ensures
        match action_index(actions, name, from) {
            Some(i) => from <= i < actions.len() && actions[i].goes_by(name) && forall|j: int|
                from <= j < i ==> !(#[trigger] actions[j]).goes_by(name),
            None => forall|j: int|
                from <= j < actions.len() ==> !(#[trigger] actions[j]).goes_by(name),
        },
    decreases actions.len() - from,
{
    if from < actions.len() && !actions[from].goes_by(name) {
        names_find_actions(actions, name, from + 1);
    }
}

/// Of the names in a chain, each that an action goes by and that is valid is run, in
/// order, unless one before it ends the chain.
pub proof fn valid_names_are_run(
    names: Seq<String>,
    actions: Seq<ActionSpec>,
    world: ChainWorld,
    i: int,
    p: int,
)
    requires
        0 <= i <= p < names.len(),
        exists|a: int| 0 <= a < actions.len() && (#[trigger] actions[a]).goes_by(names[p]@),
        (world.valid)(p),
        forall|k: int|
            i <= k < p ==> (#[trigger] (world.outcome)(k)) is Err
                || (world.outcome)(k)->Ok_0.continue_chain,
    ensures
        run_positions(names, actions, world, i).contains(p),
    decreases p - i,
{
    let all = run_positions(names, actions, world, i);
    names_find_actions(actions, names[p]@, 0);
    if i == p {
        assert(all[0] == p);
    } else {
        valid_names_are_run(names, actions, world, i + 1, p);
        let rest = run_positions(names, actions, world, i + 1);
        assert((world.outcome)(i) is Err || (world.outcome)(i)->Ok_0.continue_chain);
        let k = choose|k: int| 0 <= k < rest.len() && rest[k] == p;
        if action_index(actions, names[i]@, 0) is None || !(world.valid)(i) {
            assert(all[k] == p);
        } else {
            assert(all[k + 1] == p);
        }
    }
}

/// The steps of a plan are those proposed steps, in order, whose action there is: each
/// of these is planned, and nothing else.
pub proof fn known_steps_are_planned(
    steps: Seq<ActionPlanStep>,
    entries: Seq<PlanEntry>,
    actions: Seq<ActionSpec>,
)
    requires
        plans(steps, known_entries(entries, actions)),
    ensures
        forall|i: int|
            0 <= i < entries.len() && (exists|a: int|
                0 <= a < actions.len() && (#[trigger] actions[a]).goes_by(
                    (#[trigger] entries[i]).action@,
                )) ==> exists|k: int|
                0 <= k < steps.len() && (#[trigger] steps[k]).action@ == entries[i].action@
                    && text::opt_text(steps[k].reasoning) == text::opt_text(entries[i].reasoning),
        forall|k: int|
            0 <= k < steps.len() ==> (#[trigger] steps[k]).status
                == planner::PlanStepStatus::Pending && steps[k].result is None && exists|i: int|
                0 <= i < entries.len() && (#[trigger] entries[i]).action@ == steps[k].action@,
{
    let p = |e: PlanEntry| action_index(actions, e.action@, 0) is Some;
    let kept = known_entries(entries, actions);
    assert forall|i: int|
        0 <= i < entries.len() && (exists|a: int|
            0 <= a < actions.len() && (#[trigger] actions[a]).goes_by(
                (#[trigger] entries[i]).action@,
            )) implies exists|k: int|
        0 <= k < steps.len() && (#[trigger] steps[k]).action@ == entries[i].action@
            && text::opt_text(steps[k].reasoning) == text::opt_text(entries[i].reasoning) by {
        names_find_actions(actions, entries[i].action@, 0);
        lemma_entry_kept(entries, p, i);
        let k = choose|k: int| 0 <= k < kept.len() && kept[k] == entries[i];
        assert(steps[k].is_planned(kept[k].action@, text::opt_text(kept[k].reasoning)));
    }
    assert forall|k: int| 0 <= k < steps.len() implies (#[trigger] steps[k]).status
        == planner::PlanStepStatus::Pending && steps[k].result is None && exists|i: int|
        0 <= i < entries.len() && (#[trigger] entries[i]).action@ == steps[k].action@ by {
        assert(steps[k].is_planned(kept[k].action@, text::opt_text(kept[k].reasoning)));
        lemma_entry_from(entries, p, k);
        let i = choose|i: int| 0 <= i < entries.len() && entries[i] == kept[k];
        assert(entries[i].action@ == steps[k].action@);
    }
}

proof fn lemma_entry_kept(s: Seq<PlanEntry>, p: spec_fn(PlanEntry) -> bool, i: int)
    requires
        0 <= i < s.len(),
        p(s[i]),
    ensures
        s.filter(p).contains(s[i]),
    decreases s.len(),
{
    reveal(Seq::filter);
    let front = s.drop_last();
    let all = s.filter(p);
    if i == s.len() - 1 {
        assert(all[all.len() - 1] == s[i]);
    } else {
        lemma_entry_kept(front, p, i);
        let k = choose|k: int| 0 <= k < front.filter(p).len() && front.filter(p)[k] == s[i];
        assert(all[k] == s[i]);
    }
}

proof fn lemma_entry_from(s: Seq<PlanEntry>, p: spec_fn(PlanEntry) -> bool, k: int)
    requires
        0 <= k < s.filter(p).len(),
    ensures
        s.contains(s.filter(p)[k]),
    decreases s.len(),
{
    reveal(Seq::filter);
    let front = s.drop_last();
    let all = s.filter(p);
    if k < front.filter(p).len() {
        lemma_entry_from(front, p, k);
        assert(all[k] == front.filter(p)[k]);
        let i = choose|i: int| 0 <= i < front.len() && front[i] == all[k];
        assert(s[i] == all[k]);
    } else {
        assert(s[s.len() - 1] == all[k]);
    }
}

} // verus!
