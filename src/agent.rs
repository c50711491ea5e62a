//! Agents: configuration, identity, lifecycle status, attached plugins and
//! persistent state.
use vstd::prelude::*;
use vstd::string::*;
use crate::clock::unix_now;
use crate::digest::{blake3_hex, blake3_hex_of, is_digest_text};
use crate::json::{
    canonical, canonical_members, push_decimal, push_members, push_quoted, push_text, quoted,
    decimal, utf8, JsonValue,
};
use crate::text::text_eq;

verus! {

broadcast use vstd::std_specs::vec::group_vec_axioms, vstd::seq::group_seq_axioms;

/// Status of an agent.
#[derive(Debug, Clone, Copy, PartialEq, Eq, Structural)]
pub enum AgentStatus {
    /// Active and ready.
    Active,
    /// Brought back from storage.
    Recovered,
    /// Paused.
    Paused,
    /// Terminated.
    Terminated,
}

/// Per-agent hardware caps. `cpu` is in hundredths of a percent.
#[derive(Debug, Clone, Copy, PartialEq, Eq, Structural)]
pub struct HardwareConstraints {
    pub cpu: Option<u32>,
    pub ram: Option<u32>,
}

impl Default for HardwareConstraints {
    /// Ten percent of a CPU and 100 MB of memory.
    fn default() -> (r: Self)
        ensures
            r.cpu == Some(1000u32),
            r.ram == Some(100u32),
    {
        HardwareConstraints { cpu: Some(1000), ram: Some(100) }
    }
}

/// The configuration an agent is spawned from.
#[derive(Debug)]
pub struct AgentConfig {
    /// Name of the agent.
    pub name: String,
    /// Plugin that executes the agent's intents.
    pub entry: Option<String>,
    /// Intents the agent may execute.
    pub intents: Vec<String>,
    /// Hardware caps.
    pub hm: HardwareConstraints,
    /// Free-form metadata.
    pub metadata: Vec<(String, JsonValue)>,
}

impl Default for AgentConfig {
    fn default() -> (r: Self)
        ensures
            r.name@ == "default_agent"@,
            r.entry is None,
            r.intents@.len() == 0,
            r.hm.cpu == Some(1000u32),
            r.hm.ram == Some(100u32),
            r.metadata@.len() == 0,
    {
        AgentConfig {
            name: String::from_str("default_agent"),
            entry: None,
            intents: Vec::new(),
            hm: HardwareConstraints::default(),
            metadata: Vec::new(),
        }
    }
}

/// JSON text of an optional text.
pub open spec fn opt_text(s: Option<String>) -> Seq<u8> {
    match s {
        Some(t) => quoted(t@),
        None => utf8("null"@),
    }
}

/// JSON text of an optional number.
pub open spec fn opt_number(n: Option<u32>) -> Seq<u8> {
    match n {
        Some(v) => decimal(v as int),
        None => utf8("null"@),
    }
}

/// Comma-separated JSON string literals.
pub open spec fn strings_text(s: Seq<String>) -> Seq<u8>
    decreases s.len(),
{
    if s.len() == 0 {
        Seq::empty()
    } else {
        let init = s.subrange(0, s.len() - 1);
        strings_text(init) + (if init.len() == 0 {
            Seq::<u8>::empty()
        } else {
            seq![0x2cu8]
        }) + quoted(s[s.len() - 1]@)
    }
}

/// The canonical serialization of a configuration: a compact JSON object
/// with the fields in declaration order.
pub open spec fn config_text(c: AgentConfig) -> Seq<u8> {
    utf8("{\"name\":"@) + quoted(c.name@) + utf8(",\"entry\":"@) + opt_text(c.entry) + utf8(
        ",\"intents\":["@,
    ) + strings_text(c.intents@) + utf8("],\"hm\":{\"cpu\":"@) + opt_number(c.hm.cpu) + utf8(
        ",\"ram\":"@,
    ) + opt_number(c.hm.ram) + utf8("},\"metadata\":{"@) + canonical_members(c.metadata@)
        + utf8("}}"@)
}

/// The identity of an agent spawned from `c`: `agent_` followed by the first
/// sixteen hexadecimal digits of the BLAKE3 digest of its serialization.
pub open spec fn agent_id_of(c: AgentConfig) -> Seq<char> {
    "agent_"@ + blake3_hex_of(config_text(c)).subrange(0, 16)
}

fn push_opt_text(out: &mut Vec<u8>, s: &Option<String>)
    ensures
        final(out)@ == old(out)@ + opt_text(*s),
{
    match s {
        Some(t) => push_quoted(out, t.as_str()),
        None => push_text(out, "null"),
    }
}

fn push_opt_number(out: &mut Vec<u8>, n: Option<u32>)
    ensures
        final(out)@ == old(out)@ + opt_number(n),
{
    match n {
        Some(v) => push_decimal(out, v as i64),
        None => push_text(out, "null"),
    }
}

fn push_strings(out: &mut Vec<u8>, s: &Vec<String>)
    ensures
        final(out)@ == old(out)@ + strings_text(s@),
{
    let ghost start = out@;
    let mut i: usize = 0;
    while i < s.len()
        invariant
            0 <= i <= s@.len(),
            out@ == start + strings_text(s@.subrange(0, i as int)),
        decreases s@.len() - i,
    {
        if i > 0 {
            out.push(0x2c);
        }
        push_quoted(out, s[i].as_str());
        assert(s@.subrange(0, i + 1).subrange(0, i as int) =~= s@.subrange(0, i as int));
        assert(s@.subrange(0, i + 1)[i as int] == s@[i as int]);
        i = i + 1;
        assert(out@ =~= start + strings_text(s@.subrange(0, i as int)));
    }
    assert(s@.subrange(0, s@.len() as int) =~= s@);
}

impl AgentConfig {
    /// The canonical serialization of this configuration.
    pub fn encode(&self) -> (r: Vec<u8>)
        ensures
            r@ == config_text(*self),
    {
        let mut out: Vec<u8> = Vec::new();
        push_text(&mut out, "{\"name\":");
        push_quoted(&mut out, self.name.as_str());
        push_text(&mut out, ",\"entry\":");
        push_opt_text(&mut out, &self.entry);
        push_text(&mut out, ",\"intents\":[");
        push_strings(&mut out, &self.intents);
        push_text(&mut out, "],\"hm\":{\"cpu\":");
        push_opt_number(&mut out, self.hm.cpu);
        push_text(&mut out, ",\"ram\":");
        push_opt_number(&mut out, self.hm.ram);
        push_text(&mut out, "},\"metadata\":{");
        push_members(&mut out, &self.metadata);
        push_text(&mut out, "}}");
        assert(out@ =~= config_text(*self));
        out
    }

    /// Whether `intent` is one of the allowed intents.
    pub fn allows_intent(&self, intent: &str) -> (r: bool)
        ensures
            r == intent_listed(self.intents@, intent@),
    {
        let mut i: usize = 0;
        while i < self.intents.len()
            invariant
                0 <= i <= self.intents@.len(),
                forall|k: int| 0 <= k < i ==> self.intents@[k]@ != intent@,
            decreases self.intents@.len() - i,
        {
            if text_eq(self.intents[i].as_str(), intent) {
                return true;
            }
            i = i + 1;
        }
        false
    }
}

/// Whether `intent` is among `intents`.
pub open spec fn intent_listed(intents: Seq<String>, intent: Seq<char>) -> bool {
    exists|k: int| 0 <= k < intents.len() && #[trigger] intents[k]@ == intent
}

/// The identity depends on the configuration's serialization alone: two
/// configurations that serialize alike get the same id, so spawning the same
/// configuration again yields the same agent id.
pub proof fn lemma_agent_id_deterministic(c1: AgentConfig, c2: AgentConfig)
    requires
        config_text(c1) == config_text(c2),
    ensures
        agent_id_of(c1) == agent_id_of(c2),
{
}

/// Generates the identity of an agent from its configuration.
pub fn generate_agent_id(config: &AgentConfig) -> (r: String)
    ensures
        r@ == agent_id_of(*config),
        r@.len() == 22,
        r@.subrange(0, 6) == "agent_"@,
        forall|i: int| 6 <= i < 22 ==> crate::digest::is_hex_char(#[trigger] r@[i]),
{
    let bytes = config.encode();
    let hex = blake3_hex(bytes.as_slice());
    proof {
        assert(vstd::utf8::is_ascii_chars(hex@)) by {
            assert forall|i: int| 0 <= i < hex@.len() implies '\0' <= #[trigger] hex@[i] <= '\u{7f}' by {
                assert(crate::digest::is_hex_char(hex@[i]));
            }
        }
    }
    let prefix = hex.as_str().substring_ascii(0, 16);
    let mut id = String::from_str("agent_");
    id.append(prefix);
    proof {
        reveal_strlit("agent_");
        assert(id@.subrange(0, 6) =~= "agent_"@);
        assert forall|i: int| 6 <= i < 22 implies crate::digest::is_hex_char(#[trigger] id@[i]) by {
            assert(id@[i] == hex@[i - 6]);
        }
    }
    id
}

/// Whether an agent in this status may execute intents.
pub open spec fn can_execute(s: AgentStatus) -> bool {
    s == AgentStatus::Active || s == AgentStatus::Recovered
}

/// The texts of a list of strings.
pub open spec fn texts(s: Seq<String>) -> Seq<Seq<char>> {
    s.map_values(|x: String| x@)
}

/// An agent.
#[derive(Debug)]
pub struct Agent {
    id: String,
    config: AgentConfig,
    status: AgentStatus,
    plugins: Vec<String>,
    state: Vec<(String, JsonValue)>,
    created_at: i64,
    updated_at: i64,
}

impl Agent {
    pub closed spec fn spec_id(&self) -> Seq<char> {
        self.id@
    }

    pub closed spec fn spec_config(&self) -> AgentConfig {
        self.config
    }

    pub closed spec fn spec_status(&self) -> AgentStatus {
        self.status
    }

    /// Ids of the attached plugins, in order of attachment.
    pub closed spec fn spec_plugins(&self) -> Seq<Seq<char>> {
        texts(self.plugins@)
    }

    pub closed spec fn spec_state(&self) -> Seq<(String, JsonValue)> {
        self.state@
    }

    pub closed spec fn spec_created_at(&self) -> i64 {
        self.created_at
    }

    pub closed spec fn spec_updated_at(&self) -> i64 {
        self.updated_at
    }

    /// A new active agent created at time `now`, with no plugins and no state.
    pub fn new_at(id: String, config: AgentConfig, now: i64) -> (r: Agent)
        ensures
            r.spec_id() == id@,
            r.spec_config() == config,
            r.spec_status() == AgentStatus::Active,
            r.spec_plugins().len() == 0,
            r.spec_state().len() == 0,
            r.spec_created_at() == now,
            r.spec_updated_at() == now,
    {
        let r = Agent {
            id,
            config,
            status: AgentStatus::Active,
            plugins: Vec::new(),
            state: Vec::new(),
            created_at: now,
            updated_at: now,
        };
        assert(texts(r.plugins@) =~= Seq::empty());
        r
    }

    /// A new active agent created now.
    pub fn new(id: String, config: AgentConfig) -> (r: Agent)
        ensures
            r.spec_id() == id@,
            r.spec_config() == config,
            r.spec_status() == AgentStatus::Active,
            r.spec_plugins().len() == 0,
            r.spec_state().len() == 0,
            r.spec_created_at() == r.spec_updated_at(),
    {
        let now = unix_now();
        Agent::new_at(id, config, now)
    }

    /// An agent restored from a snapshot, with the given fields.
    pub fn from_parts(
        id: String,
        config: AgentConfig,
        status: AgentStatus,
        plugins: Vec<String>,
        state: Vec<(String, JsonValue)>,
        created_at: i64,
        updated_at: i64,
    ) -> (r: Agent)
        ensures
            r.spec_id() == id@,
            r.spec_config() == config,
            r.spec_status() == status,
            r.spec_plugins() == texts(plugins@),
            r.spec_state() == state@,
            r.spec_created_at() == created_at,
            r.spec_updated_at() == updated_at,
    {
        Agent { id, config, status, plugins, state, created_at, updated_at }
    }

    pub fn id(&self) -> (r: &String)
        ensures
            r@ == self.spec_id(),
    {
        &self.id
    }

    pub fn config(&self) -> (r: &AgentConfig)
        ensures
            *r == self.spec_config(),
    {
        &self.config
    }

    pub fn status(&self) -> (r: AgentStatus)
        ensures
            r == self.spec_status(),
    {
        self.status
    }

    pub fn created_at(&self) -> (r: i64)
        ensures
            r == self.spec_created_at(),
    {
        self.created_at
    }

    pub fn updated_at(&self) -> (r: i64)
        ensures
            r == self.spec_updated_at(),
    {
        self.updated_at
    }

    /// The ids of the attached plugins.
    pub fn plugin_ids(&self) -> (r: &Vec<String>)
        ensures
            texts(r@) == self.spec_plugins(),
    {
        &self.plugins
    }

    /// Sets the status, recording `now` as the time of the change.
    pub fn set_status_at(&mut self, status: AgentStatus, now: i64)
        ensures
            final(self).spec_status() == status,
            final(self).spec_updated_at() == now,
            final(self).spec_id() == old(self).spec_id(),
            final(self).spec_config() == old(self).spec_config(),
            final(self).spec_plugins() == old(self).spec_plugins(),
            final(self).spec_state() == old(self).spec_state(),
            final(self).spec_created_at() == old(self).spec_created_at(),
    {
        self.status = status;
        self.updated_at = now;
    }

    /// Sets the status.
    pub fn set_status(&mut self, status: AgentStatus)
        ensures
            final(self).spec_status() == status,
            final(self).spec_id() == old(self).spec_id(),
            final(self).spec_config() == old(self).spec_config(),
            final(self).spec_plugins() == old(self).spec_plugins(),
            final(self).spec_state() == old(self).spec_state(),
            final(self).spec_created_at() == old(self).spec_created_at(),
    {
        let now = unix_now();
        self.set_status_at(status, now);
    }

    /// Whether the plugin `plugin_id` is attached.
    pub fn has_plugin(&self, plugin_id: &str) -> (r: bool)
        ensures
            r == self.spec_plugins().contains(plugin_id@),
    {
        let mut i: usize = 0;
        while i < self.plugins.len()
            invariant
                0 <= i <= self.plugins@.len(),
                forall|k: int| 0 <= k < i ==> self.plugins@[k]@ != plugin_id@,
            decreases self.plugins@.len() - i,
        {
            if text_eq(self.plugins[i].as_str(), plugin_id) {
                assert(self.spec_plugins()[i as int] == plugin_id@);
                return true;
            }
            i = i + 1;
        }
        assert(!self.spec_plugins().contains(plugin_id@)) by {
            if self.spec_plugins().contains(plugin_id@) {
                let k = choose|k: int| 0 <= k < self.spec_plugins().len() && self.spec_plugins()[k] == plugin_id@;
                assert(self.plugins@[k]@ == plugin_id@);
            }
        }
        false
    }

    /// Attaches a plugin by id; attaching one that is already attached
    /// changes nothing.
    pub fn attach_plugin(&mut self, plugin_id: &str)
        ensures
            final(self).spec_plugins() == attach_to(old(self).spec_plugins(), plugin_id@),
            final(self).spec_id() == old(self).spec_id(),
            final(self).spec_config() == old(self).spec_config(),
            final(self).spec_status() == old(self).spec_status(),
            final(self).spec_state() == old(self).spec_state(),
            final(self).spec_created_at() == old(self).spec_created_at(),
            final(self).spec_updated_at() == old(self).spec_updated_at(),
    {
        if !self.has_plugin(plugin_id) {
            let ghost before = self.plugins@;
            self.plugins.push(plugin_id.to_owned());
            assert(texts(self.plugins@) =~= texts(before).push(plugin_id@));
        }
    }

    /// Decides whether `intent` may run and through which plugin: the agent
    /// must be active or recovered, list the intent, and have its entry
    /// plugin attached. Gives the entry plugin's id; the host runs the
    /// plugin's sandboxed call.
    pub fn execute(&self, intent: &str) -> (r: Result<String, String>)
        ensures
            r is Ok <==> self.entry_ready(intent@),
            r matches Ok(p) ==> self.spec_config().entry matches Some(e) && p@ == e@,
    {
        if !(self.status == AgentStatus::Active || self.status == AgentStatus::Recovered) {
            return Err(String::from_str("Agent is not active"));
        }
        if !self.config.allows_intent(intent) {
            return Err(String::from_str("Intent not allowed for this agent"));
        }
        match &self.config.entry {
            Some(entry) => {
                if self.has_plugin(entry.as_str()) {
                    Ok(entry.clone())
                } else {
                    Err(String::from_str("Entry plugin not attached"))
                }
            },
            None => Err(String::from_str("No entry plugin defined for agent")),
        }
    }

    /// The agent may run `intent` through its entry plugin.
    pub open spec fn entry_ready(&self, intent: Seq<char>) -> bool {
        &&& can_execute(self.spec_status())
        &&& intent_listed(self.spec_config().intents@, intent)
        &&& self.spec_config().entry matches Some(e) && self.spec_plugins().contains(e@)
    }

    /// Sets the state entry `key` at time `now`: any entries under `key` are
    /// dropped and the new one is appended.
    pub fn set_state_at(&mut self, key: &str, value: JsonValue, now: i64)
        ensures
            final(self).spec_state().drop_last() == without_key(old(self).spec_state(), key@),
            final(self).spec_state().last().0@ == key@,
            final(self).spec_state().last().1 == value,
            final(self).spec_updated_at() == now,
            final(self).spec_id() == old(self).spec_id(),
            final(self).spec_config() == old(self).spec_config(),
            final(self).spec_status() == old(self).spec_status(),
            final(self).spec_plugins() == old(self).spec_plugins(),
            final(self).spec_created_at() == old(self).spec_created_at(),
    {
        let ghost orig = self.state@;
        let mut i: usize = 0;
        let ghost mut j: int = 0;
        while i < self.state.len()
            invariant
                0 <= i <= j <= orig.len(),
                self.state@.len() == i + (orig.len() - j),
                self.state@.subrange(0, i as int) == without_key(orig.subrange(0, j), key@),
                forall|k: int| 0 <= k < self.state@.len() - i ==> #[trigger] self.state@[i + k] == orig[j + k],
                self.id == old(self).id,
                self.config == old(self).config,
                self.status == old(self).status,
                self.plugins == old(self).plugins,
                self.created_at == old(self).created_at,
                self.updated_at == old(self).updated_at,
            decreases self.state@.len() - i,
        {
            let ghost cur = self.state@;
            assert(cur[i + 0] == orig[j + 0]);
            assert(orig.subrange(0, j + 1).drop_last() =~= orig.subrange(0, j));
            if text_eq(self.state[i].0.as_str(), key) {
                let _ = self.state.remove(i);
                proof {
                    assert(self.state@.subrange(0, i as int) =~= cur.subrange(0, i as int));
                    assert forall|k: int| 0 <= k < self.state@.len() - i implies #[trigger] self.state@[i + k] == orig[(j + 1) + k] by {
                        assert(cur[i + (k + 1)] == orig[j + (k + 1)]);
                    }
                    j = j + 1;
                }
            } else {
                proof {
                    assert(self.state@.subrange(0, i + 1) =~= cur.subrange(0, i as int).push(cur[i as int]));
                    assert forall|k: int| 0 <= k < self.state@.len() - (i + 1) implies #[trigger] self.state@[(i + 1) + k] == orig[(j + 1) + k] by {
                        assert(cur[i + (k + 1)] == orig[j + (k + 1)]);
                    }
                    j = j + 1;
                }
                i = i + 1;
            }
        }
        assert(j == orig.len());
        assert(orig.subrange(0, j) =~= orig);
        assert(self.state@.subrange(0, i as int) =~= self.state@);
        self.state.push((key.to_owned(), value));
        self.updated_at = now;
    }

    /// Sets the state entry `key`.
    pub fn set_state(&mut self, key: &str, value: JsonValue)
        ensures
            final(self).spec_state().drop_last() == without_key(old(self).spec_state(), key@),
            final(self).spec_state().last().0@ == key@,
            final(self).spec_state().last().1 == value,
            final(self).spec_id() == old(self).spec_id(),
            final(self).spec_config() == old(self).spec_config(),
            final(self).spec_status() == old(self).spec_status(),
            final(self).spec_plugins() == old(self).spec_plugins(),
    {
        let now = unix_now();
        self.set_state_at(key, value, now);
    }

    /// The agent's state entries.
    pub fn state(&self) -> (r: &Vec<(String, JsonValue)>)
        ensures
            r@ == self.spec_state(),
    {
        &self.state
    }
}

/// JSON text of a status.
pub open spec fn status_text(s: AgentStatus) -> Seq<u8> {
    match s {
        AgentStatus::Active => utf8("\"Active\""@),
        AgentStatus::Recovered => utf8("\"Recovered\""@),
        AgentStatus::Paused => utf8("\"Paused\""@),
        AgentStatus::Terminated => utf8("\"Terminated\""@),
    }
}

/// The serialized form of an agent kept by storage: id, configuration,
/// status, state and timestamps. Attached plugins are not kept.
pub open spec fn agent_text(a: Agent) -> Seq<u8> {
    utf8("{\"id\":"@) + quoted(a.spec_id()) + utf8(",\"config\":"@) + config_text(a.spec_config())
        + utf8(",\"status\":"@) + status_text(a.spec_status()) + utf8(",\"state\":{"@)
        + canonical_members(a.spec_state()) + utf8("},\"created_at\":"@) + decimal(
        a.spec_created_at() as int,
    ) + utf8(",\"updated_at\":"@) + decimal(a.spec_updated_at() as int) + utf8("}"@)
}

fn push_status(out: &mut Vec<u8>, s: AgentStatus)
    ensures
        final(out)@ == old(out)@ + status_text(s),
{
    match s {
        AgentStatus::Active => push_text(out, "\"Active\""),
        AgentStatus::Recovered => push_text(out, "\"Recovered\""),
        AgentStatus::Paused => push_text(out, "\"Paused\""),
        AgentStatus::Terminated => push_text(out, "\"Terminated\""),
    }
}

impl Agent {
    /// The serialized form of this agent.
    pub fn encode(&self) -> (r: Vec<u8>)
        ensures
            r@ == agent_text(*self),
    {
        let mut out: Vec<u8> = Vec::new();
        push_text(&mut out, "{\"id\":");
        push_quoted(&mut out, self.id.as_str());
        push_text(&mut out, ",\"config\":");
        let c = self.config.encode();
        crate::json::push_bytes(&mut out, c.as_slice());
        push_text(&mut out, ",\"status\":");
        push_status(&mut out, self.status);
        push_text(&mut out, ",\"state\":{");
        push_members(&mut out, &self.state);
        push_text(&mut out, "},\"created_at\":");
        push_decimal(&mut out, self.created_at);
        push_text(&mut out, ",\"updated_at\":");
        push_decimal(&mut out, self.updated_at);
        push_text(&mut out, "}");
        assert(out@ =~= agent_text(*self));
        out
    }
}

/// State entries whose key is not `key`, in order.
pub open spec fn without_key(s: Seq<(String, JsonValue)>, key: Seq<char>) -> Seq<(String, JsonValue)>
    decreases s.len(),
{
    if s.len() == 0 {
        Seq::empty()
    } else if s.last().0@ == key {
        without_key(s.drop_last(), key)
    } else {
        without_key(s.drop_last(), key).push(s.last())
    }
}

/// The attached plugin ids after attaching `id`.
pub open spec fn attach_to(plugins: Seq<Seq<char>>, id: Seq<char>) -> Seq<Seq<char>> {
    if plugins.contains(id) {
        plugins
    } else {
        plugins.push(id)
    }
}

/// Attaching the same plugin twice leaves the agent's plugins as one
/// attachment does.
pub proof fn lemma_attach_idempotent(plugins: Seq<Seq<char>>, id: Seq<char>)
    ensures
        attach_to(attach_to(plugins, id), id) == attach_to(plugins, id),
{
    if !plugins.contains(id) {
        assert(plugins.push(id)[plugins.len() as int] == id);
    }
}

} // verus!
