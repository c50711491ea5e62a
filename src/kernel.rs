//! The kernel: spawns agents, attaches plugins, runs intents through the
//! entry plugin, recovers and snapshots agents, gating each step through the
//! ethical tree and recording it in the trace.
//!
//! Steps that need the outside world are split: the host process loads
//! plugins into the cache, runs the sandboxed call between
//! `execute` and `finish_execution`, reads stored agents for
//! `recover` and writes the bytes of `snapshot`.
use vstd::prelude::*;
use vstd::string::*;
use dashmap::DashMap;
use crate::agent::{agent_id_of, attach_to, can_execute, generate_agent_id, intent_listed, Agent, AgentConfig, AgentStatus};
use crate::clock::unix_now;
use crate::config::KernelConfig;
use crate::ethical::{default_rule, intent_prohibited, name_prohibited, plugin_rule, spawn_rule, Decision, EthicalBinaryTree};
use crate::json::{canonical, JsonValue};
use crate::plugin::{lemma_cached_plugin_unique, plugin_ids, Plugin, PluginManager};
use crate::registry::{key_set, registry_contains, registry_insert, registry_keys, registry_len, registry_new, registry_of, registry_remove};
use crate::trace::{began, ended_kept, latest_active, lemma_recorded_entry, recorded, Pick, PoseidonTracer, TraceRecord, TraceStatus};

verus! {

/// Errors of the kernel.
#[derive(Debug)]
pub enum KernelError {
    AgentNotFound(String),
    PluginNotFound(String),
    ResourceLimitExceeded(String),
    PermissionDenied(String),
    InvalidConfiguration(String),
    StorageError(String),
    ExecutionError(String),
    EthicalConstraintViolated(String),
    TraceError(String),
    Internal(String),
}

/// What an execution needs from the host: the trace it runs under and the
/// plugin that runs it.
#[derive(Debug)]
pub struct Execution {
    pub agent_id: String,
    pub trace_id: String,
    pub plugin_id: String,
}

/// The kernel.
pub struct MCPKernel {
    plugin_manager: PluginManager,
    trace_engine: PoseidonTracer,
    agent_store: DashMap<String, Agent>,
    ethical_engine: EthicalBinaryTree,
    config: KernelConfig,
}

/// A payload whose first member is `plugin_id` holding this id.
pub open spec fn names_plugin(data: JsonValue, plugin_id: Seq<char>) -> bool {
    match data {
        JsonValue::Object(m) => m@.len() >= 1 && m@[0].0@ == "plugin_id"@ && (m@[0].1 matches JsonValue::Str(s)
            && s@ == plugin_id),
        _ => false,
    }
}

/// Some trace of the agent ends with an `agent.attach_plugin` entry naming
/// the plugin.
pub open spec fn attach_recorded(traces: Seq<TraceRecord>, agent_id: Seq<char>, plugin_id: Seq<char>) -> bool {
    exists|k: int|
        0 <= k < traces.len() && (#[trigger] traces[k]).agent_id@ == agent_id && traces[k].entries@.last().event_type@
            == "agent.attach_plugin"@ && names_plugin(traces[k].entries@.last().data, plugin_id)
}

/// The cached plugin with this id passes the tree.
pub open spec fn cached_plugin_allowed(k: MCPKernel, plugin_id: Seq<char>) -> bool {
    forall|p: Plugin|
        #![trigger k.plugins().spec_plugins().contains(p)]
        k.plugins().spec_plugins().contains(p) && p.spec_id() == plugin_id ==> k.tree().decide_with(
            |rule: Seq<char>| plugin_rule(rule, p.spec_capabilities().external_access),
        ) == Decision::Allow
}

/// A cached plugin with this id is denied by the tree.
pub open spec fn cached_plugin_denied(k: MCPKernel, plugin_id: Seq<char>) -> bool {
    exists|p: Plugin|
        #![trigger k.plugins().spec_plugins().contains(p)]
        k.plugins().spec_plugins().contains(p) && p.spec_id() == plugin_id && k.tree().decide_with(
            |rule: Seq<char>| plugin_rule(rule, p.spec_capabilities().external_access),
        ) == Decision::Deny
}

/// The `trace.end` payload of an execution records its outcome: the
/// success flag, and the result (by its encoding) or `{"error": message}`.
pub open spec fn end_records(data: JsonValue, outcome: Result<JsonValue, String>) -> bool {
    match data {
        JsonValue::Object(m) => {
            &&& m@.len() == 3
            &&& m@[0].0@ == "success"@ && m@[0].1 == JsonValue::Bool(outcome is Ok)
            &&& m@[2].0@ == "result"@
            &&& match outcome {
                Ok(v) => canonical(m@[2].1) == canonical(v),
                Err(e) => m@[2].1 matches JsonValue::Object(em) && em@.len() == 1 && em@[0].0@ == "error"@
                    && em@[0].1 == JsonValue::Str(e),
            }
        },
        _ => false,
    }
}

fn timestamp_payload(now: i64) -> JsonValue {
    let mut m: Vec<(String, JsonValue)> = Vec::new();
    m.push((String::from_str("timestamp"), JsonValue::Int(now)));
    JsonValue::Object(m)
}

impl MCPKernel {
    /// The agents, by id.
    pub closed spec fn agents(&self) -> Map<Seq<char>, Agent> {
        registry_of(self.agent_store)
    }

    pub closed spec fn tracer(&self) -> PoseidonTracer {
        self.trace_engine
    }

    pub closed spec fn tree(&self) -> EthicalBinaryTree {
        self.ethical_engine
    }

    pub closed spec fn spec_config(&self) -> KernelConfig {
        self.config
    }

    pub closed spec fn plugins(&self) -> PluginManager {
        self.plugin_manager
    }

    /// The trace keeps its chain shape and the plugin cache holds one plugin
    /// per id.
    pub open spec fn wf(&self) -> bool {
        self.tracer().wf() && self.plugins().wf()
    }

    /// A kernel with the given configuration, no agents, an empty plugin
    /// cache and trace, and the default ethical tree.
    pub fn with_config(config: KernelConfig) -> (r: MCPKernel)
        ensures
            r.wf(),
            r.agents().dom() == Set::<Seq<char>>::empty(),
            r.tracer()@.len() == 0,
            r.tree().is_default(),
            r.plugins().spec_plugins().len() == 0,
            r.plugins().spec_dir() == config.plugin_directory@,
            r.spec_config() == config,
    {
        MCPKernel {
            plugin_manager: PluginManager::new(config.plugin_directory.clone()),
            trace_engine: PoseidonTracer::new(),
            agent_store: registry_new(),
            ethical_engine: EthicalBinaryTree::new(),
            config,
        }
    }

    /// A kernel with the default configuration.
    pub fn new() -> (r: MCPKernel)
        ensures
            r.wf(),
            r.agents().dom() == Set::<Seq<char>>::empty(),
            r.tracer()@.len() == 0,
            r.tree().is_default(),
    {
        MCPKernel::with_config(KernelConfig::default())
    }

    pub fn config(&self) -> (r: &KernelConfig)
        ensures
            *r == self.spec_config(),
    {
        &self.config
    }

    /// Number of agents in the registry.
    pub fn agent_count(&self) -> (r: usize)
        ensures
            r == self.agents().len(),
    {
        registry_len(&self.agent_store)
    }

    /// The ids of the registered agents, in no fixed order.
    pub fn agent_ids(&self) -> (r: Vec<String>)
        ensures
            key_set(r@) == self.agents().dom(),
    {
        registry_keys(&self.agent_store)
    }

    /// Whether an agent with this id is in the registry.
    pub fn is_registered(&self, agent_id: &str) -> (r: bool)
        ensures
            r == self.agents().contains_key(agent_id@),
    {
        registry_contains(&self.agent_store, agent_id)
    }

    /// The trace.
    pub fn tracer_ref(&self) -> (r: &PoseidonTracer)
        ensures
            *r == self.tracer(),
    {
        &self.trace_engine
    }

    /// The ethical tree.
    pub fn ethics(&self) -> (r: &EthicalBinaryTree)
        ensures
            *r == self.tree(),
    {
        &self.ethical_engine
    }

    /// The plugin cache.
    pub fn plugin_manager(&self) -> (r: &PluginManager)
        ensures
            *r == self.plugins(),
    {
        &self.plugin_manager
    }

    /// Caches a loaded plugin so that agents can attach it.
    pub fn register_plugin(&mut self, plugin: Plugin)
        requires
            old(self).wf(),
        ensures
            final(self).wf(),
            final(self).agents() == old(self).agents(),
            final(self).tracer() == old(self).tracer(),
            final(self).tree() == old(self).tree(),
            plugin_ids(final(self).plugins().spec_plugins()).contains(plugin.spec_id()),
    {
        let ghost id = plugin.spec_id();
        self.plugin_manager.cache(plugin);
        proof {
            let s = self.plugin_manager.spec_plugins();
            if !plugin_ids(old(self).plugin_manager.spec_plugins()).contains(id) {
                assert(plugin_ids(s)[s.len() - 1] == id);
            }
        }
    }

    /// Spawns an agent from a configuration. Its id is `agent_` followed by
    /// sixteen hexadecimal digits of the digest of the configuration. A
    /// configuration the ethical tree rejects changes nothing; otherwise the
    /// agent is registered as active, replacing any agent with the same id,
    /// and an `agent.spawn` event is traced.
    pub fn spawn_agent(&mut self, config: AgentConfig) -> (r: Result<String, KernelError>)
        requires
            old(self).wf(),
        ensures
            final(self).wf(),
            ended_kept(old(self).tracer()@, final(self).tracer()@),
            r is Ok <==> !name_prohibited(config.name@) && old(self).tree().decide_with(
                |rule: Seq<char>| spawn_rule(rule, config.intents@),
            ) == Decision::Allow,
            r matches Err(e) ==> (e is EthicalConstraintViolated && final(self).agents() == old(self).agents()
                && final(self).tracer() == old(self).tracer() && final(self).plugins() == old(self).plugins()),
            r matches Ok(id) ==> ({
                &&& id@ == agent_id_of(config)
                &&& final(self).agents().dom() == old(self).agents().dom().insert(id@)
                &&& forall|k: Seq<char>| k != id@ ==> #[trigger] final(self).agents().contains_key(k)
                    ==> final(self).agents()[k] == old(self).agents()[k]
                &&& final(self).agents()[id@].spec_id() == id@
                &&& final(self).agents()[id@].spec_config() == config
                &&& final(self).agents()[id@].spec_status() == AgentStatus::Active
                &&& final(self).agents()[id@].spec_plugins().len() == 0
                &&& final(self).agents()[id@].spec_state().len() == 0
                &&& exists|t: i64| recorded(final(self).tracer()@, id@, "agent.spawn"@, t)
            }),
            final(self).tree() == old(self).tree(),
            final(self).plugins() == old(self).plugins(),
    {
        let agent_id = generate_agent_id(&config);
        match self.ethical_engine.validate_spawn(&config) {
            Err(reason) => {
                return Err(KernelError::EthicalConstraintViolated(reason));
            },
            Ok(()) => {},
        }
        let ghost cfg = config;
        let now = unix_now();
        let agent = Agent::new_at(agent_id.clone(), config, now);
        registry_insert(&mut self.agent_store, agent_id.clone(), agent);
        let _ = self.trace_engine.record_event_at(agent_id.as_str(), "agent.spawn", timestamp_payload(now), now);
        assert(recorded(self.tracer()@, agent_id@, "agent.spawn"@, now));
        proof {
            assert(self.agents().dom() =~= old(self).agents().dom().insert(agent_id@));
        }
        Ok(agent_id)
    }

    /// Attaches a cached plugin to an agent. Fails with `AgentNotFound`,
    /// `PluginNotFound` or, when the tree rejects the plugin,
    /// `EthicalConstraintViolated`, changing nothing; otherwise the plugin is
    /// attached (attaching it again changes nothing) and an
    /// `agent.attach_plugin` event is traced.
    pub fn attach_plugin(&mut self, agent_id: &str, plugin_id: &str) -> (r: Result<(), KernelError>)
        requires
            old(self).wf(),
        ensures
            final(self).wf(),
            ended_kept(old(self).tracer()@, final(self).tracer()@),
            final(self).tree() == old(self).tree(),
            final(self).plugins() == old(self).plugins(),
            !old(self).agents().contains_key(agent_id@) ==> r matches Err(KernelError::AgentNotFound(_)),
            old(self).agents().contains_key(agent_id@) && !plugin_ids(old(self).plugins().spec_plugins()).contains(plugin_id@)
                ==> r matches Err(KernelError::PluginNotFound(_)),
            r is Err ==> final(self).agents() == old(self).agents() && final(self).tracer() == old(self).tracer(),
            r matches Err(KernelError::EthicalConstraintViolated(_)) ==> (exists|p: Plugin|
                #![trigger old(self).plugins().spec_plugins().contains(p)]
                old(self).plugins().spec_plugins().contains(p) && p.spec_id() == plugin_id@
                && old(self).tree().decide_with(|rule: Seq<char>| plugin_rule(rule, p.spec_capabilities().external_access)) == Decision::Deny),
            r is Ok ==> ({
                &&& old(self).agents().contains_key(agent_id@)
                &&& plugin_ids(old(self).plugins().spec_plugins()).contains(plugin_id@)
                &&& final(self).agents().dom() == old(self).agents().dom()
                &&& forall|k: Seq<char>| k != agent_id@ ==> #[trigger] final(self).agents().contains_key(k)
                    ==> final(self).agents()[k] == old(self).agents()[k]
                &&& final(self).agents()[agent_id@].spec_plugins() == attach_to(old(self).agents()[agent_id@].spec_plugins(), plugin_id@)
                &&& final(self).agents()[agent_id@].spec_config() == old(self).agents()[agent_id@].spec_config()
                &&& final(self).agents()[agent_id@].spec_status() == old(self).agents()[agent_id@].spec_status()
                &&& final(self).agents()[agent_id@].spec_state() == old(self).agents()[agent_id@].spec_state()
                &&& exists|t: i64| recorded(final(self).tracer()@, agent_id@, "agent.attach_plugin"@, t)
                &&& attach_recorded(final(self).tracer()@, agent_id@, plugin_id@)
            }),
            old(self).agents().contains_key(agent_id@) && plugin_ids(old(self).plugins().spec_plugins()).contains(plugin_id@)
                && cached_plugin_allowed(*old(self), plugin_id@) ==> r is Ok,
            old(self).agents().contains_key(agent_id@) && cached_plugin_denied(*old(self), plugin_id@) ==> r matches Err(
                KernelError::EthicalConstraintViolated(_),
            ),
    {
        if !registry_contains(&self.agent_store, agent_id) {
            let mut msg = String::from_str("Agent not found: ");
            msg.append(agent_id);
            return Err(KernelError::AgentNotFound(msg));
        }
        proof {
            if cached_plugin_denied(*old(self), plugin_id@) {
                let p = choose|p: Plugin|
                    #![trigger old(self).plugins().spec_plugins().contains(p)]
                    old(self).plugins().spec_plugins().contains(p) && p.spec_id() == plugin_id@ && old(self).tree().decide_with(
                        |rule: Seq<char>| plugin_rule(rule, p.spec_capabilities().external_access),
                    ) == Decision::Deny;
                let ps = old(self).plugins().spec_plugins();
                let i = choose|i: int| 0 <= i < ps.len() && ps[i] == p;
                assert(plugin_ids(ps)[i] == plugin_id@);
            }
        }
        let plugin = match self.plugin_manager.get(plugin_id) {
            Some(p) => p,
            None => {
                let mut msg = String::from_str("Plugin not found: ");
                msg.append(plugin_id);
                return Err(KernelError::PluginNotFound(msg));
            },
        };
        proof {
            if cached_plugin_denied(*old(self), plugin_id@) {
                let p = choose|p: Plugin|
                    #![trigger old(self).plugins().spec_plugins().contains(p)]
                    old(self).plugins().spec_plugins().contains(p) && p.spec_id() == plugin_id@ && old(self).tree().decide_with(
                        |rule: Seq<char>| plugin_rule(rule, p.spec_capabilities().external_access),
                    ) == Decision::Deny;
                lemma_cached_plugin_unique(self.plugin_manager, p, *plugin);
            }
        }
        match self.ethical_engine.validate_plugin(plugin) {
            Err(reason) => {
                return Err(KernelError::EthicalConstraintViolated(reason));
            },
            Ok(()) => {},
        }
        let ghost before = registry_of(self.agent_store);
        let mut agent = match registry_remove(&mut self.agent_store, agent_id) {
            Some(a) => a,
            None => {
                return Err(KernelError::AgentNotFound(String::from_str("Agent not found")));
            },
        };
        agent.attach_plugin(plugin_id);
        registry_insert(&mut self.agent_store, agent_id.to_owned(), agent);
        let now = unix_now();
        let mut m: Vec<(String, JsonValue)> = Vec::new();
        m.push((String::from_str("plugin_id"), JsonValue::Str(plugin_id.to_owned())));
        m.push((String::from_str("timestamp"), JsonValue::Int(now)));
        let data = JsonValue::Object(m);
        let ghost d = data;
        let ghost t0 = self.trace_engine@;
        let _ = self.trace_engine.record_event_at(agent_id, "agent.attach_plugin", data, now);
        assert(recorded(self.tracer()@, agent_id@, "agent.attach_plugin"@, now));
        proof {
            assert(self.agents().dom() =~= old(self).agents().dom());
            lemma_recorded_entry(t0, self.trace_engine@, agent_id@, "agent.attach_plugin"@, d, now);
            assert(names_plugin(d, plugin_id@));
        }
        Ok(())
    }

    /// Attaches a plugin the host has just loaded. The ethical check comes
    /// first: a rejected plugin is neither cached nor attached and nothing
    /// changes. Otherwise the plugin is cached (an already cached one with
    /// the same id is kept) and attached as by `attach_plugin`.
    pub fn attach_new_plugin(&mut self, agent_id: &str, plugin: Plugin) -> (r: Result<(), KernelError>)
        requires
            old(self).wf(),
        ensures
            final(self).wf(),
            ended_kept(old(self).tracer()@, final(self).tracer()@),
            final(self).tree() == old(self).tree(),
            !old(self).agents().contains_key(agent_id@) ==> r matches Err(KernelError::AgentNotFound(_)),
            r is Err ==> final(self).agents() == old(self).agents() && final(self).tracer() == old(self).tracer()
                && final(self).plugins() == old(self).plugins(),
            old(self).agents().contains_key(agent_id@) && old(self).tree().decide_with(
                |rule: Seq<char>| plugin_rule(rule, plugin.spec_capabilities().external_access),
            ) == Decision::Deny ==> r matches Err(KernelError::EthicalConstraintViolated(_)),
            old(self).agents().contains_key(agent_id@) && old(self).tree().decide_with(
                |rule: Seq<char>| plugin_rule(rule, plugin.spec_capabilities().external_access),
            ) == Decision::Allow ==> r is Ok,
            r is Ok ==> attach_recorded(final(self).tracer()@, agent_id@, plugin.spec_id()),
            r is Ok ==> ({
                &&& old(self).agents().contains_key(agent_id@)
                &&& plugin_ids(final(self).plugins().spec_plugins()).contains(plugin.spec_id())
                &&& final(self).agents().dom() == old(self).agents().dom()
                &&& final(self).agents()[agent_id@].spec_plugins() == attach_to(old(self).agents()[agent_id@].spec_plugins(), plugin.spec_id())
                &&& exists|t: i64| recorded(final(self).tracer()@, agent_id@, "agent.attach_plugin"@, t)
            }),
    {
        if !registry_contains(&self.agent_store, agent_id) {
            let mut msg = String::from_str("Agent not found: ");
            msg.append(agent_id);
            return Err(KernelError::AgentNotFound(msg));
        }
        match self.ethical_engine.validate_plugin(&plugin) {
            Err(reason) => {
                return Err(KernelError::EthicalConstraintViolated(reason));
            },
            Ok(()) => {},
        }
        let ghost pid = plugin.spec_id();
        let id = plugin.id().clone();
        let ghost before = registry_of(self.agent_store);
        let mut agent = match registry_remove(&mut self.agent_store, agent_id) {
            Some(a) => a,
            None => {
                return Err(KernelError::AgentNotFound(String::from_str("Agent not found")));
            },
        };
        self.plugin_manager.cache(plugin);
        proof {
            let s = self.plugin_manager.spec_plugins();
            if !plugin_ids(old(self).plugin_manager.spec_plugins()).contains(pid) {
                assert(plugin_ids(s)[s.len() - 1] == pid);
            }
        }
        agent.attach_plugin(id.as_str());
        registry_insert(&mut self.agent_store, agent_id.to_owned(), agent);
        let now = unix_now();
        let mut m: Vec<(String, JsonValue)> = Vec::new();
        m.push((String::from_str("plugin_id"), JsonValue::Str(id.clone())));
        m.push((String::from_str("timestamp"), JsonValue::Int(now)));
        let data = JsonValue::Object(m);
        let ghost d = data;
        let ghost t0 = self.trace_engine@;
        let _ = self.trace_engine.record_event_at(agent_id, "agent.attach_plugin", data, now);
        assert(recorded(self.tracer()@, agent_id@, "agent.attach_plugin"@, now));
        proof {
            assert(self.agents().dom() =~= old(self).agents().dom());
            lemma_recorded_entry(t0, self.trace_engine@, agent_id@, "agent.attach_plugin"@, d, now);
            assert(names_plugin(d, pid));
        }
        Ok(())
    }

    /// Starts running an intent: the agent must exist, be active or
    /// recovered and list the intent, and the tree must allow it. Then a
    /// trace is begun; when the agent's entry plugin is unset or not
    /// attached, that trace ends as failed and the call fails with
    /// `ExecutionError`. Otherwise the host runs the plugin and hands the
    /// outcome to `finish_execution`.
    pub fn execute(&mut self, agent_id: &str, intent: &str) -> (r: Result<Execution, KernelError>)
        requires
            old(self).wf(),
        ensures
            final(self).wf(),
            ended_kept(old(self).tracer()@, final(self).tracer()@),
            final(self).agents() == old(self).agents(),
            final(self).tree() == old(self).tree(),
            final(self).plugins() == old(self).plugins(),
            !old(self).agents().contains_key(agent_id@) ==> r matches Err(KernelError::AgentNotFound(_)),
            r is Ok ==> old(self).agents().contains_key(agent_id@) && old(self).agents()[agent_id@].entry_ready(intent@)
                && !intent_prohibited(intent@)
                && old(self).tree().decide_with(|rule: Seq<char>| default_rule(rule)) == Decision::Allow,
            old(self).agents().contains_key(agent_id@) && old(self).agents()[agent_id@].entry_ready(intent@)
                && !intent_prohibited(intent@)
                && old(self).tree().decide_with(|rule: Seq<char>| default_rule(rule)) == Decision::Allow ==> r is Ok,
            r matches Ok(x) ==> (x.agent_id@ == agent_id@ && (old(self).agents()[agent_id@].spec_config().entry matches Some(e) && x.plugin_id@ == e@)),
            r matches Err(KernelError::EthicalConstraintViolated(_)) ==> final(self).tracer() == old(self).tracer(),
            !old(self).agents().contains_key(agent_id@) ==> final(self).tracer() == old(self).tracer(),
            old(self).agents().contains_key(agent_id@) && can_execute(old(self).agents()[agent_id@].spec_status())
                && intent_listed(old(self).agents()[agent_id@].spec_config().intents@, intent@) && (intent_prohibited(intent@)
                || old(self).tree().decide_with(|rule: Seq<char>| default_rule(rule)) == Decision::Deny) ==> r matches Err(
                KernelError::EthicalConstraintViolated(_),
            ),
            r matches Ok(_) ==> exists|t: i64| began(old(self).tracer()@, final(self).tracer()@, agent_id@, intent@, t),
            old(self).agents().contains_key(agent_id@) && !(can_execute(old(self).agents()[agent_id@].spec_status())
                && intent_listed(old(self).agents()[agent_id@].spec_config().intents@, intent@)) ==> (r matches Err(
                KernelError::ExecutionError(_),
            ) && final(self).tracer() == old(self).tracer()),
            r matches Ok(x) ==> (final(self).tracer()@.len() == old(self).tracer()@.len() + 1
                && final(self).tracer()@.last().id@ == x.trace_id@
                && final(self).tracer()@.last().status == TraceStatus::Active
                && final(self).tracer()@.last().agent_id@ == agent_id@
                && final(self).tracer()@.last().intent@ == intent@),
    {
        let agent = match registry_remove(&mut self.agent_store, agent_id) {
            Some(a) => a,
            None => {
                let mut msg = String::from_str("Agent not found: ");
                msg.append(agent_id);
                return Err(KernelError::AgentNotFound(msg));
            },
        };
        let ghost before = old(self).agents();
        let status_ok = agent.status() == AgentStatus::Active || agent.status() == AgentStatus::Recovered;
        let listed = agent.config().allows_intent(intent);
        let entry = agent.execute(intent);
        registry_insert(&mut self.agent_store, agent_id.to_owned(), agent);
        proof {
            assert(self.agents() =~= before);
        }
        if !status_ok {
            return Err(KernelError::ExecutionError(String::from_str("Agent is not active")));
        }
        if !listed {
            return Err(KernelError::ExecutionError(String::from_str("Intent not allowed for this agent")));
        }
        match self.ethical_engine.validate_execution(agent_id, intent) {
            Err(reason) => {
                return Err(KernelError::EthicalConstraintViolated(reason));
            },
            Ok(()) => {},
        }
        let now = unix_now();
        let trace_id = match self.trace_engine.begin_trace_at(agent_id, intent, now) {
            Ok(t) => t,
            Err(e) => {
                return Err(KernelError::TraceError(e));
            },
        };
        match entry {
            Ok(plugin_id) => Ok(Execution { agent_id: agent_id.to_owned(), trace_id, plugin_id }),
            Err(reason) => {
                let mut m: Vec<(String, JsonValue)> = Vec::new();
                m.push((String::from_str("error"), JsonValue::Str(reason.clone())));
                let _ = self.trace_engine.end_trace_at(trace_id.as_str(), false, Some(JsonValue::Object(m)), now);
                Err(KernelError::ExecutionError(reason))
            },
        }
    }

    /// Completes an execution with what the plugin call gave: ends its trace
    /// as completed with the result, or as failed with `{"error": ...}`, and
    /// returns the result or an `ExecutionError`.
    pub fn finish_execution(&mut self, execution: Execution, outcome: Result<JsonValue, String>) -> (r: Result<JsonValue, KernelError>)
        requires
            old(self).wf(),
        ensures
            final(self).wf(),
            ended_kept(old(self).tracer()@, final(self).tracer()@),
            final(self).agents() == old(self).agents(),
            final(self).tree() == old(self).tree(),
            final(self).plugins() == old(self).plugins(),
            outcome is Ok ==> r is Ok,
            outcome is Err ==> r matches Err(KernelError::ExecutionError(_)),
            outcome matches Ok(v) ==> r == Ok::<JsonValue, KernelError>(v),
            latest_active(old(self).tracer()@, Pick::Id(execution.trace_id@)) is Some ==> final(self).tracer()@[
                latest_active(old(self).tracer()@, Pick::Id(execution.trace_id@))->0].status == (if outcome is Ok {
                TraceStatus::Completed
            } else {
                TraceStatus::Failed
            }),
            latest_active(old(self).tracer()@, Pick::Id(execution.trace_id@)) is Some ==> ({
                let k = latest_active(old(self).tracer()@, Pick::Id(execution.trace_id@))->0;
                &&& final(self).tracer()@[k].entries@.len() == old(self).tracer()@[k].entries@.len() + 1
                &&& final(self).tracer()@[k].entries@.last().event_type@ == "trace.end"@
                &&& end_records(final(self).tracer()@[k].entries@.last().data, outcome)
            }),
    {
        let now = unix_now();
        match outcome {
            Ok(value) => {
                let recorded = value.duplicate();
                let ghost rv = recorded;
                let _ = self.trace_engine.end_trace_at(execution.trace_id.as_str(), true, Some(recorded), now);
                assert(canonical(rv) == canonical(value));
                Ok(value)
            },
            Err(reason) => {
                let mut m: Vec<(String, JsonValue)> = Vec::new();
                m.push((String::from_str("error"), JsonValue::Str(reason.clone())));
                proof {
                    reveal_strlit("error");
                }
                let _ = self.trace_engine.end_trace_at(execution.trace_id.as_str(), false, Some(JsonValue::Object(m)), now);
                Err(KernelError::ExecutionError(reason))
            },
        }
    }

    /// Recovers an agent. An agent already in the registry gives `Active`
    /// and nothing changes, whatever `stored` holds; the host need not read
    /// storage for it (see `is_registered`). Otherwise `stored` is what
    /// storage held for the id: none gives `StorageError`; an agent is
    /// registered as recovered and an `agent.recover` event is traced.
    pub fn recover(&mut self, agent_id: &str, stored: Option<Agent>) -> (r: Result<AgentStatus, KernelError>)
        requires
            old(self).wf(),
        ensures
            final(self).wf(),
            ended_kept(old(self).tracer()@, final(self).tracer()@),
            final(self).tree() == old(self).tree(),
            final(self).plugins() == old(self).plugins(),
            old(self).agents().contains_key(agent_id@) ==> r == Ok::<AgentStatus, KernelError>(AgentStatus::Active)
                && final(self).agents() == old(self).agents() && final(self).tracer() == old(self).tracer(),
            !old(self).agents().contains_key(agent_id@) && stored is None ==> (r matches Err(KernelError::StorageError(_))
                && final(self).agents() == old(self).agents() && final(self).tracer() == old(self).tracer()),
            !old(self).agents().contains_key(agent_id@) && stored is Some ==> ({
                let a = stored->0;
                &&& r == Ok::<AgentStatus, KernelError>(AgentStatus::Recovered)
                &&& final(self).agents().dom() == old(self).agents().dom().insert(agent_id@)
                &&& forall|k: Seq<char>| k != agent_id@ ==> #[trigger] final(self).agents().contains_key(k)
                    ==> final(self).agents()[k] == old(self).agents()[k]
                &&& final(self).agents()[agent_id@].spec_status() == AgentStatus::Recovered
                &&& final(self).agents()[agent_id@].spec_config() == a.spec_config()
                &&& final(self).agents()[agent_id@].spec_state() == a.spec_state()
                &&& final(self).agents()[agent_id@].spec_created_at() == a.spec_created_at()
                &&& exists|t: i64| recorded(final(self).tracer()@, agent_id@, "agent.recover"@, t)
            }),
    {
        if registry_contains(&self.agent_store, agent_id) {
            return Ok(AgentStatus::Active);
        }
        let mut agent = match stored {
            Some(a) => a,
            None => {
                let mut msg = String::from_str("Failed to recover agent: not found in storage: ");
                msg.append(agent_id);
                return Err(KernelError::StorageError(msg));
            },
        };
        match self.ethical_engine.validate_recovery(agent_id) {
            Err(reason) => {
                return Err(KernelError::EthicalConstraintViolated(reason));
            },
            Ok(()) => {},
        }
        let now = unix_now();
        agent.set_status_at(AgentStatus::Recovered, now);
        registry_insert(&mut self.agent_store, agent_id.to_owned(), agent);
        let mut m: Vec<(String, JsonValue)> = Vec::new();
        m.push((String::from_str("timestamp"), JsonValue::Int(now)));
        m.push((String::from_str("status"), JsonValue::Str(String::from_str("success"))));
        let _ = self.trace_engine.record_event_at(agent_id, "agent.recover", JsonValue::Object(m), now);
        assert(recorded(self.tracer()@, agent_id@, "agent.recover"@, now));
        proof {
            assert(self.agents().dom() =~= old(self).agents().dom().insert(agent_id@));
        }
        Ok(AgentStatus::Recovered)
    }

    /// The serialized form of an agent, for the host to store. Fails with
    /// `AgentNotFound` for an unknown id. Nothing changes.
    pub fn snapshot(&mut self, agent_id: &str) -> (r: Result<Vec<u8>, KernelError>)
        ensures
            final(self).agents() == old(self).agents(),
            final(self).tracer() == old(self).tracer(),
            final(self).tree() == old(self).tree(),
            final(self).plugins() == old(self).plugins(),
            r is Ok <==> old(self).agents().contains_key(agent_id@),
            r matches Ok(b) ==> (b@ == crate::agent::agent_text(old(self).agents()[agent_id@])),
            r matches Err(e) ==> e is AgentNotFound,
    {
        let agent = match registry_remove(&mut self.agent_store, agent_id) {
            Some(a) => a,
            None => {
                let mut msg = String::from_str("Agent not found: ");
                msg.append(agent_id);
                return Err(KernelError::AgentNotFound(msg));
            },
        };
        let blob = agent.encode();
        registry_insert(&mut self.agent_store, agent_id.to_owned(), agent);
        proof {
            assert(self.agents() =~= old(self).agents());
        }
        Ok(blob)
    }

    /// The status of an agent and the ids of its attached plugins.
    pub fn agent_summary(&mut self, agent_id: &str) -> (r: Option<(AgentStatus, Vec<String>)>)
        ensures
            final(self).agents() == old(self).agents(),
            final(self).tracer() == old(self).tracer(),
            final(self).tree() == old(self).tree(),
            final(self).plugins() == old(self).plugins(),
            r is Some <==> old(self).agents().contains_key(agent_id@),
            r matches Some((s, p)) ==> (s == old(self).agents()[agent_id@].spec_status()
                && crate::agent::texts(p@) == old(self).agents()[agent_id@].spec_plugins()),
    {
        let agent = match registry_remove(&mut self.agent_store, agent_id) {
            Some(a) => a,
            None => {
                return None;
            },
        };
        let status = agent.status();
        let ids = agent.plugin_ids();
        let mut copy: Vec<String> = Vec::new();
        let mut i: usize = 0;
        while i < ids.len()
            invariant
                0 <= i <= ids@.len(),
                copy@.len() == i,
                forall|j: int| 0 <= j < i ==> copy@[j] == ids@[j],
            decreases ids@.len() - i,
        {
            copy.push(ids[i].clone());
            i = i + 1;
        }
        assert(copy@ =~= ids@);
        registry_insert(&mut self.agent_store, agent_id.to_owned(), agent);
        proof {
            assert(self.agents() =~= old(self).agents());
        }
        Some((status, copy))
    }

    /// Records that the host stored the snapshot of an agent taken with
    /// `snapshot`.
    pub fn snapshot_saved(&mut self, agent_id: &str) -> (r: Result<(), KernelError>)
        requires
            old(self).wf(),
        ensures
            final(self).wf(),
            ended_kept(old(self).tracer()@, final(self).tracer()@),
            final(self).agents() == old(self).agents(),
            final(self).tree() == old(self).tree(),
            final(self).plugins() == old(self).plugins(),
            r is Ok,
            exists|t: i64| recorded(final(self).tracer()@, agent_id@, "agent.snapshot"@, t),
    {
        let now = unix_now();
        let _ = self.trace_engine.record_event_at(agent_id, "agent.snapshot", timestamp_payload(now), now);
        assert(recorded(self.tracer()@, agent_id@, "agent.snapshot"@, now));
        Ok(())
    }
}

} // verus!
