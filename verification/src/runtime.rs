//! The agent and how it is put together, over the handles of its database, its
//! model provider, and its actions, evaluators, providers and services.
use vstd::prelude::*;

use crate::character::Character;
use crate::hooks;
use crate::hooks::{HookRegistry, PipelineHook};
use crate::ids::{AgentId, Uuid};
use crate::metrics::PipelineMetrics;

verus! {

/// A bundle of actions, evaluators, providers and services.
pub struct Plugin<A, E, P, S> {
    pub name: String,
    pub description: String,
    pub actions: Vec<A>,
    pub evaluators: Vec<E>,
    pub providers: Vec<P>,
    pub services: Vec<S>,
}

impl<A, E, P, S> Plugin<A, E, P, S> {
    pub fn new(name: &str, description: &str) -> (r: Self)
        ensures
            r.name@ == name@,
            r.description@ == description@,
            r.actions@.len() == 0,
            r.evaluators@.len() == 0,
            r.providers@.len() == 0,
            r.services@.len() == 0,
    {
        Plugin {
            name: name.to_owned(),
            description: description.to_owned(),
            actions: Vec::new(),
            evaluators: Vec::new(),
            providers: Vec::new(),
            services: Vec::new(),
        }
    }
}

pub struct AgentRuntime<D, M, A, E, P, S> {
    pub agent_id: AgentId,
    pub character: Character,
    pub database: D,
    pub model_provider: M,
    pub actions: Vec<A>,
    pub evaluators: Vec<E>,
    pub providers: Vec<P>,
    pub services: Vec<S>,
    pub hooks: HookRegistry,
    pub action_planning_enabled: bool,
    pub metrics: PipelineMetrics,
}

pub struct AgentRuntimeBuilder<D, M, A, E, P, S> {
    pub agent_id: Option<AgentId>,
    pub character: Option<Character>,
    pub database: Option<D>,
    pub model_provider: Option<M>,
    pub plugins: Vec<Plugin<A, E, P, S>>,
    pub actions: Vec<A>,
    pub evaluators: Vec<E>,
    pub providers: Vec<P>,
    pub services: Vec<S>,
    pub hooks: Vec<PipelineHook>,
    pub action_planning: bool,
}

/// `own`, and behind it the actions of the first `n` plugins.
pub open spec fn merged_actions<A, E, P, S>(
    own: Seq<A>,
    plugins: Seq<Plugin<A, E, P, S>>,
    n: nat,
) -> Seq<A>
    decreases n,
{
    if n == 0 {
        own
    } else {
        merged_actions(own, plugins, (n - 1) as nat) + plugins[n - 1].actions@
    }
}

/// `own`, and behind it the evaluators of the first `n` plugins.
pub open spec fn merged_evaluators<A, E, P, S>(
    own: Seq<E>,
    plugins: Seq<Plugin<A, E, P, S>>,
    n: nat,
) -> Seq<E>
    decreases n,
{
    if n == 0 {
        own
    } else {
        merged_evaluators(own, plugins, (n - 1) as nat) + plugins[n - 1].evaluators@
    }
}

/// `own`, and behind it the providers of the first `n` plugins.
pub open spec fn merged_providers<A, E, P, S>(
    own: Seq<P>,
    plugins: Seq<Plugin<A, E, P, S>>,
    n: nat,
) -> Seq<P>
    decreases n,
{
    if n == 0 {
        own
    } else {
        merged_providers(own, plugins, (n - 1) as nat) + plugins[n - 1].providers@
    }
}

/// `own`, and behind it the services of the first `n` plugins.
pub open spec fn merged_services<A, E, P, S>(
    own: Seq<S>,
    plugins: Seq<Plugin<A, E, P, S>>,
    n: nat,
) -> Seq<S>
    decreases n,
{
    if n == 0 {
        own
    } else {
        merged_services(own, plugins, (n - 1) as nat) + plugins[n - 1].services@
    }
}

/// The hooks in the order in which they run after the first `n` were
/// registered one after the other.
pub open spec fn registered(hooks: Seq<PipelineHook>, n: nat) -> Seq<PipelineHook>
    decreases n,
{
    if n == 0 {
        Seq::empty()
    } else {
        let before = registered(hooks, (n - 1) as nat);
        before.insert(hooks::slot(before, hooks[n - 1].priority) as int, hooks[n - 1])
    }
}

impl<D, M, A, E, P, S> AgentRuntime<D, M, A, E, P, S> {
    pub fn services(&self) -> (r: &Vec<S>)
        ensures
            *r == self.services,
    {
        &self.services
    }

    pub fn hooks(&self) -> (r: &HookRegistry)
        ensures
            *r == self.hooks,
    {
        &self.hooks
    }

    pub fn metrics(&self) -> (r: &PipelineMetrics)
        ensures
            *r == self.metrics,
    {
        &self.metrics
    }

    pub fn builder() -> (r: AgentRuntimeBuilder<D, M, A, E, P, S>)
        ensures
            r.is_empty(),
    {
        AgentRuntimeBuilder {
            agent_id: None,
            character: None,
            database: None,
            model_provider: None,
            plugins: Vec::new(),
            actions: Vec::new(),
            evaluators: Vec::new(),
            providers: Vec::new(),
            services: Vec::new(),
            hooks: Vec::new(),
            action_planning: false,
        }
    }
}

impl<D, M, A, E, P, S> AgentRuntimeBuilder<D, M, A, E, P, S> {
    /// Nothing has been given yet.
    pub open spec fn is_empty(self) -> bool {
        &&& self.agent_id is None
        &&& self.character is None
        &&& self.database is None
        &&& self.model_provider is None
        &&& self.plugins@.len() == 0
        &&& self.actions@.len() == 0
        &&& self.evaluators@.len() == 0
        &&& self.providers@.len() == 0
        &&& self.services@.len() == 0
        &&& self.hooks@.len() == 0
        &&& !self.action_planning
    }

    pub fn agent_id(self, id: AgentId) -> (r: Self)
        ensures
            r == (AgentRuntimeBuilder { agent_id: Some(id), ..self }),
    {
        let mut b = self;
        b.agent_id = Some(id);
        b
    }

    pub fn character(self, character: Character) -> (r: Self)
        ensures
            r == (AgentRuntimeBuilder { character: Some(character), ..self }),
    {
        let mut b = self;
        b.character = Some(character);
        b
    }

    pub fn database(self, db: D) -> (r: Self)
        ensures
            r == (AgentRuntimeBuilder { database: Some(db), ..self }),
    {
        let mut b = self;
        b.database = Some(db);
        b
    }

    pub fn model_provider(self, provider: M) -> (r: Self)
        ensures
            r == (AgentRuntimeBuilder { model_provider: Some(provider), ..self }),
    {
        let mut b = self;
        b.model_provider = Some(provider);
        b
    }

    pub fn plugin(self, plugin: Plugin<A, E, P, S>) -> (r: Self)
        ensures
            r == (AgentRuntimeBuilder { plugins: r.plugins, ..self }),
            r.plugins@ == self.plugins@.push(plugin),
    {
        let mut b = self;
        b.plugins.push(plugin);
        b
    }

    pub fn action(self, action: A) -> (r: Self)
        ensures
            r == (AgentRuntimeBuilder { actions: r.actions, ..self }),
            r.actions@ == self.actions@.push(action),
    {
        let mut b = self;
        b.actions.push(action);
        b
    }

    pub fn evaluator(self, evaluator: E) -> (r: Self)
        ensures
            r == (AgentRuntimeBuilder { evaluators: r.evaluators, ..self }),
            r.evaluators@ == self.evaluators@.push(evaluator),
    {
        let mut b = self;
        b.evaluators.push(evaluator);
        b
    }

    pub fn provider(self, provider: P) -> (r: Self)
        ensures
            r == (AgentRuntimeBuilder { providers: r.providers, ..self }),
            r.providers@ == self.providers@.push(provider),
    {
        let mut b = self;
        b.providers.push(provider);
        b
    }

    pub fn service(self, service: S) -> (r: Self)
        ensures
            r == (AgentRuntimeBuilder { services: r.services, ..self }),
            r.services@ == self.services@.push(service),
    {
        let mut b = self;
        b.services.push(service);
        b
    }

    pub fn hook(self, hook: PipelineHook) -> (r: Self)
        ensures
            r == (AgentRuntimeBuilder { hooks: r.hooks, ..self }),
            r.hooks@ == self.hooks@.push(hook),
    {
        let mut b = self;
        b.hooks.push(hook);
        b
    }

    pub fn enable_action_planning(self) -> (r: Self)
        ensures
            r == (AgentRuntimeBuilder { action_planning: true, ..self }),
    {
        let mut b = self;
        b.action_planning = true;
        b
    }

    /// Puts the agent together. Without a database there is an error, and
    /// without a model provider another; what is missing else has a default. The
    /// parts of the plugins stand behind those given one by one.
    pub fn build(self) -> (r: Result<AgentRuntime<D, M, A, E, P, S>, String>)
        ensures
            match r {
                Ok(rt) => {
                    &&& self.database == Some(rt.database)
                    &&& self.model_provider == Some(rt.model_provider)
                    &&& self.agent_id is Some ==> self.agent_id == Some(rt.agent_id)
                    &&& self.agent_id is None ==> crate::ids::is_v4(rt.agent_id.bits as nat)
                    &&& self.character is Some ==> self.character == Some(rt.character)
                    &&& self.character is None ==> rt.character.is_default()
                    &&& rt.actions@ == merged_actions(
                        self.actions@,
                        self.plugins@,
                        self.plugins@.len(),
                    )
                    &&& rt.evaluators@ == merged_evaluators(
                        self.evaluators@,
                        self.plugins@,
                        self.plugins@.len(),
                    )
                    &&& rt.providers@ == merged_providers(
                        self.providers@,
                        self.plugins@,
                        self.plugins@.len(),
                    )
                    &&& rt.services@ == merged_services(
                        self.services@,
                        self.plugins@,
                        self.plugins@.len(),
                    )
                    &&& rt.hooks@ == registered(self.hooks@, self.hooks@.len())
                    &&& hooks::by_priority(rt.hooks@)
                    &&& rt.action_planning_enabled == self.action_planning
                    &&& rt.metrics == PipelineMetrics::zero()
                },
                Err(e) => if self.database is None {
                    e@ == "database adapter required"@
                } else {
                    self.model_provider is None && e@ == "model provider required"@
                },
            },
    {
        let mut b = self;
        let ghost all = b.plugins@;
        let ghost mut k: nat = 0;
        while b.plugins.len() > 0
            invariant
                k <= all.len(),
                b.plugins@ == all.skip(k as int),
                b.actions@ == merged_actions(self.actions@, all, k),
                b.evaluators@ == merged_evaluators(self.evaluators@, all, k),
                b.providers@ == merged_providers(self.providers@, all, k),
                b.services@ == merged_services(self.services@, all, k),
                b.agent_id == self.agent_id,
                b.character == self.character,
                b.database == self.database,
                b.model_provider == self.model_provider,
                b.hooks == self.hooks,
                b.action_planning == self.action_planning,
            decreases b.plugins.len(),
        {
            let mut plugin = b.plugins.remove(0);
            assert(plugin == all[k as int]);
            b.actions.append(&mut plugin.actions);
            b.evaluators.append(&mut plugin.evaluators);
            b.providers.append(&mut plugin.providers);
            b.services.append(&mut plugin.services);
            proof {
                assert(b.plugins@ =~= all.skip(k as int + 1));
                k = k + 1;
            }
        }
        let ghost merged = b;
        let mut hook_registry = HookRegistry::new();
        let ghost every = b.hooks@;
        let ghost mut h: nat = 0;
        assert(hook_registry@ =~= registered(every, 0));
        while b.hooks.len() > 0
            invariant
                h <= every.len(),
                b.hooks@ == every.skip(h as int),
                hook_registry@ == registered(every, h),
                hooks::by_priority(hook_registry@),
                b == (AgentRuntimeBuilder { hooks: b.hooks, ..merged }),
            decreases b.hooks.len(),
        {
            let hook = b.hooks.remove(0);
            assert(hook == every[h as int]);
            hook_registry.register(hook);
            proof {
                assert(b.hooks@ =~= every.skip(h as int + 1));
                h = h + 1;
            }
        }
        let agent_id = match b.agent_id {
            Some(id) => id,
            None => Uuid::new_v4(),
        };
        let character = match b.character {
            Some(c) => c,
            None => Character::default(),
        };
        let database = match b.database {
            Some(d) => d,
            None => {
                return Err("database adapter required".to_owned());
            },
        };
        let model_provider = match b.model_provider {
            Some(m) => m,
            None => {
                return Err("model provider required".to_owned());
            },
        };
        Ok(
            AgentRuntime {
                agent_id,
                character,
                database,
                model_provider,
                actions: b.actions,
                evaluators: b.evaluators,
                providers: b.providers,
                services: b.services,
                hooks: hook_registry,
                action_planning_enabled: b.action_planning,
                metrics: PipelineMetrics::new(),
            },
        )
    }
}

/// Everything that was given one by one stands first, and everything of every plugin stands
/// behind it, in the order of the plugins.
pub proof fn plugins_are_merged<A, E, P, S>(
    actions: Seq<A>,
    evaluators: Seq<E>,
    providers: Seq<P>,
    services: Seq<S>,
    plugins: Seq<Plugin<A, E, P, S>>,
    n: nat,
    k: int,
)
    requires
        n <= plugins.len(),
        0 <= k < n,
    ensures
        actions.is_prefix_of(merged_actions(actions, plugins, n)),
        evaluators.is_prefix_of(merged_evaluators(evaluators, plugins, n)),
        providers.is_prefix_of(merged_providers(providers, plugins, n)),
        services.is_prefix_of(merged_services(services, plugins, n)),
        forall|i: int|
            0 <= i < plugins[k].actions@.len() ==> merged_actions(actions, plugins, n).contains(
                #[trigger] plugins[k].actions@[i],
            ),
        forall|i: int|
            0 <= i < plugins[k].evaluators@.len() ==> merged_evaluators(
                evaluators,
                plugins,
                n,
            ).contains(#[trigger] plugins[k].evaluators@[i]),
        forall|i: int|
            0 <= i < plugins[k].providers@.len() ==> merged_providers(
                providers,
                plugins,
                n,
            ).contains(#[trigger] plugins[k].providers@[i]),
        forall|i: int|
            0 <= i < plugins[k].services@.len() ==> merged_services(services, plugins, n).contains(
                #[trigger] plugins[k].services@[i],
            ),
        merged_actions(actions, plugins, n).len() >= actions.len() + plugins[k].actions@.len(),
    decreases n,
{
    let m = (n - 1) as nat;
    let a = merged_actions(actions, plugins, m);
    let e = merged_evaluators(evaluators, plugins, m);
    let p = merged_providers(providers, plugins, m);
    let s = merged_services(services, plugins, m);
    let last = plugins[n - 1];
    lemma_grown(a, last.actions@);
    lemma_grown(e, last.evaluators@);
    lemma_grown(p, last.providers@);
    lemma_grown(s, last.services@);
    if m == 0 {
        assert(a == actions && e == evaluators && p == providers && s == services);
    } else {
        plugins_are_merged(
            actions,
            evaluators,
            providers,
            services,
            plugins,
            m,
            if k < m {
                k
            } else {
                0
            },
        );
        assert((a + last.actions@).subrange(0, actions.len() as int) =~= a.subrange(
            0,
            actions.len() as int,
        ));
        assert((e + last.evaluators@).subrange(0, evaluators.len() as int) =~= e.subrange(
            0,
            evaluators.len() as int,
        ));
        assert((p + last.providers@).subrange(0, providers.len() as int) =~= p.subrange(
            0,
            providers.len() as int,
        ));
        assert((s + last.services@).subrange(0, services.len() as int) =~= s.subrange(
            0,
            services.len() as int,
        ));
    }
}

/// A sequence that grew begins as before and holds what it held and what came.
proof fn lemma_grown<T>(a: Seq<T>, b: Seq<T>)
    ensures
        a.is_prefix_of(a + b),
        forall|x: T| #[trigger] a.contains(x) ==> (a + b).contains(x),
        forall|i: int| 0 <= i < b.len() ==> (a + b).contains(#[trigger] b[i]),
{
    assert((a + b).subrange(0, a.len() as int) =~= a);
    assert forall|x: T| #[trigger] a.contains(x) implies (a + b).contains(x) by {
        let i = choose|i: int| 0 <= i < a.len() && a[i] == x;
        assert((a + b)[i] == x);
    }
    assert forall|i: int| 0 <= i < b.len() implies (a + b).contains(#[trigger] b[i]) by {
        assert((a + b)[a.len() + i] == b[i]);
    }
}

/// All hooks are registered, each as often as it was given.
pub proof fn hooks_are_registered(hooks: Seq<PipelineHook>, n: nat)
    requires
        n <= hooks.len(),
    ensures
        registered(hooks, n).to_multiset() == hooks.take(n as int).to_multiset(),
    decreases n,
{
    broadcast use vstd::seq_lib::group_to_multiset_ensures;

    if n > 0 {
        let m = (n - 1) as nat;
        let before = registered(hooks, m);
        hooks_are_registered(hooks, m);
        let at = hooks::slot(before, hooks[n - 1].priority) as int;
        hooks::lemma_slot_bound(before, hooks[n - 1].priority);
        vstd::seq_lib::to_multiset_insert(before, at, hooks[n - 1]);
        assert(hooks.take(n as int) =~= hooks.take(m as int).push(hooks[n - 1]));
        vstd::seq_lib::to_multiset_insert(hooks.take(m as int), m as int, hooks[n - 1]);
        assert(hooks.take(m as int).insert(m as int, hooks[n - 1]) =~= hooks.take(m as int).push(
            hooks[n - 1],
        ));
    } else {
        assert(registered(hooks, n) =~= hooks.take(0));
    }
}

} // verus!
