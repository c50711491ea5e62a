//! Plugins: capability manifests, descriptors, the host-call ABI checks and
//! the per-id plugin cache. Compiling and running bytecode happens in the
//! host process around this library.
use vstd::prelude::*;
use vstd::string::*;
use crate::json::JsonValue;
use crate::text::text_eq;

verus! {

broadcast use vstd::std_specs::vec::group_vec_axioms, vstd::seq::group_seq_axioms;

/// What a plugin may do. `cpu_limit` is in hundredths of a percent,
/// `memory_limit` in MB.
#[derive(Debug)]
pub struct PluginCapabilities {
    pub state_access: bool,
    pub plugin_call: bool,
    pub external_access: bool,
    pub cpu_limit: u32,
    pub memory_limit: u32,
    pub additional: Vec<(String, JsonValue)>,
}

/// Default CPU cap of a plugin: five percent.
pub const DEFAULT_PLUGIN_CPU_LIMIT: u32 = 500;

/// Default memory cap of a plugin in MB.
pub const DEFAULT_PLUGIN_MEMORY_LIMIT: u32 = 50;

pub fn default_cpu_limit() -> (r: u32)
    ensures
        r == DEFAULT_PLUGIN_CPU_LIMIT,
{
    DEFAULT_PLUGIN_CPU_LIMIT
}

pub fn default_memory_limit() -> (r: u32)
    ensures
        r == DEFAULT_PLUGIN_MEMORY_LIMIT,
{
    DEFAULT_PLUGIN_MEMORY_LIMIT
}

impl Default for PluginCapabilities {
    /// No flags, five percent of a CPU, 50 MB.
    fn default() -> (r: Self)
        ensures
            !r.state_access,
            !r.plugin_call,
            !r.external_access,
            r.cpu_limit == DEFAULT_PLUGIN_CPU_LIMIT,
            r.memory_limit == DEFAULT_PLUGIN_MEMORY_LIMIT,
            r.additional@.len() == 0,
    {
        PluginCapabilities {
            state_access: false,
            plugin_call: false,
            external_access: false,
            cpu_limit: default_cpu_limit(),
            memory_limit: default_memory_limit(),
            additional: Vec::new(),
        }
    }
}

/// Descriptive data of a plugin.
#[derive(Debug, Clone)]
pub struct PluginMetadata {
    pub name: String,
    pub version: String,
    pub author: String,
    pub description: String,
    pub hash: Option<String>,
    pub additional: Vec<(String, String)>,
}

impl Default for PluginMetadata {
    fn default() -> (r: Self)
        ensures
            r.name@.len() == 0,
            r.version@ == "0.1.0"@,
            r.author@.len() == 0,
            r.description@.len() == 0,
            r.hash is None,
            r.additional@.len() == 0,
    {
        PluginMetadata {
            name: String::new(),
            version: String::from_str("0.1.0"),
            author: String::new(),
            description: String::new(),
            hash: None,
            additional: Vec::new(),
        }
    }
}

/// Risk class of a plugin: high with external access, else medium when it
/// may call other plugins, else low.
#[derive(Debug, Clone, Copy, PartialEq, Eq, Structural)]
pub enum RiskLevel {
    Low,
    Medium,
    High,
}

pub open spec fn risk_of(c: PluginCapabilities) -> RiskLevel {
    if c.external_access {
        RiskLevel::High
    } else if c.plugin_call {
        RiskLevel::Medium
    } else {
        RiskLevel::Low
    }
}

impl PluginCapabilities {
    pub fn risk_level(&self) -> (r: RiskLevel)
        ensures
            r == risk_of(*self),
    {
        if self.external_access {
            RiskLevel::High
        } else if self.plugin_call {
            RiskLevel::Medium
        } else {
            RiskLevel::Low
        }
    }
}

/// A plugin descriptor. A placeholder stands for a plugin attached by id
/// before its module was loaded; it cannot execute.
#[derive(Debug)]
pub struct Plugin {
    id: String,
    capabilities: PluginCapabilities,
    metadata: PluginMetadata,
    loaded: bool,
}

impl Plugin {
    pub closed spec fn spec_id(&self) -> Seq<char> {
        self.id@
    }

    pub closed spec fn spec_capabilities(&self) -> PluginCapabilities {
        self.capabilities
    }

    pub closed spec fn spec_metadata(&self) -> PluginMetadata {
        self.metadata
    }

    pub closed spec fn spec_loaded(&self) -> bool {
        self.loaded
    }

    /// A loaded plugin whose module was compiled.
    pub fn new(id: String, capabilities: PluginCapabilities, metadata: PluginMetadata) -> (r: Plugin)
        ensures
            r.spec_id() == id@,
            r.spec_capabilities() == capabilities,
            r.spec_metadata() == metadata,
            r.spec_loaded(),
    {
        Plugin { id, capabilities, metadata, loaded: true }
    }

    /// A placeholder with default capabilities that is not loaded.
    pub fn placeholder(id: &str) -> (r: Plugin)
        ensures
            r.spec_id() == id@,
            !r.spec_loaded(),
            !r.spec_capabilities().external_access,
            !r.spec_capabilities().plugin_call,
    {
        Plugin {
            id: id.to_owned(),
            capabilities: PluginCapabilities::default(),
            metadata: PluginMetadata::default(),
            loaded: false,
        }
    }

    pub fn id(&self) -> (r: &String)
        ensures
            r@ == self.spec_id(),
    {
        &self.id
    }

    pub fn capabilities(&self) -> (r: &PluginCapabilities)
        ensures
            *r == self.spec_capabilities(),
    {
        &self.capabilities
    }

    pub fn metadata(&self) -> (r: &PluginMetadata)
        ensures
            *r == self.spec_metadata(),
    {
        &self.metadata
    }

    pub fn is_loaded(&self) -> (r: bool)
        ensures
            r == self.spec_loaded(),
    {
        self.loaded
    }
}

/// File name of a plugin's bytecode.
pub fn artifact_name(id: &str) -> (r: String)
    ensures
        r@ == id@ + ".wasm"@,
{
    let mut s = id.to_owned();
    s.append(".wasm");
    s
}

/// File name of a plugin's capability manifest.
pub fn manifest_name(id: &str) -> (r: String)
    ensures
        r@ == id@ + ".cap.yaml"@,
{
    let mut s = id.to_owned();
    s.append(".cap.yaml");
    s
}

/// The byte range `ptr .. ptr + len` of a module memory of `mem_len` bytes,
/// when it lies inside it.
pub fn memory_range(ptr: u32, len: u32, mem_len: usize) -> (r: Option<(usize, usize)>)
    ensures
        r is Some <==> ptr as int + len as int <= mem_len,
        r matches Some((a, b)) ==> a == ptr && b == ptr as int + len as int,
{
    let end: u64 = ptr as u64 + len as u64;
    if end <= mem_len as u64 {
        Some((ptr as usize, end as usize))
    } else {
        None
    }
}

/// `{"status":"executed","result":null}`.
pub open spec fn is_default_result(v: JsonValue) -> bool {
    match v {
        JsonValue::Object(m) => {
            &&& m@.len() == 2
            &&& m@[0].0@ == "status"@
            &&& match m@[0].1 {
                JsonValue::Str(s) => s@ == "executed"@,
                _ => false,
            }
            &&& m@[1].0@ == "result"@
            &&& m@[1].1 is Null
        },
        _ => false,
    }
}

/// What a plugin call returns: what it stored through the result host
/// call, else `{"status":"executed","result":null}`.
pub fn result_or_default(stored: Option<JsonValue>) -> (r: JsonValue)
    ensures
        stored matches Some(v) ==> r == v,
        stored is None ==> is_default_result(r),
{
    match stored {
        Some(v) => v,
        None => {
            let mut m: Vec<(String, JsonValue)> = Vec::new();
            m.push((String::from_str("status"), JsonValue::Str(String::from_str("executed"))));
            m.push((String::from_str("result"), JsonValue::Null));
            JsonValue::Object(m)
        },
    }
}

/// Loaded plugins, one per id.
pub struct PluginManager {
    plugin_dir: String,
    plugins: Vec<Plugin>,
}

/// The ids of a list of plugins.
pub open spec fn plugin_ids(s: Seq<Plugin>) -> Seq<Seq<char>> {
    s.map_values(|p: Plugin| p.spec_id())
}

impl PluginManager {
    pub closed spec fn spec_dir(&self) -> Seq<char> {
        self.plugin_dir@
    }

    /// The cached plugins in order of loading.
    pub closed spec fn spec_plugins(&self) -> Seq<Plugin> {
        self.plugins@
    }

    /// One cached plugin per id.
    pub open spec fn wf(&self) -> bool {
        plugin_ids(self.spec_plugins()).no_duplicates()
    }

    /// An empty cache for the plugins of a directory.
    pub fn new(plugin_dir: String) -> (r: PluginManager)
        ensures
            r.wf(),
            r.spec_dir() == plugin_dir@,
            r.spec_plugins().len() == 0,
    {
        PluginManager { plugin_dir, plugins: Vec::new() }
    }

    pub fn plugin_dir(&self) -> (r: &String)
        ensures
            r@ == self.spec_dir(),
    {
        &self.plugin_dir
    }

    /// The cached plugin with this id.
    pub fn get(&self, id: &str) -> (r: Option<&Plugin>)
        ensures
            r is Some <==> plugin_ids(self.spec_plugins()).contains(id@),
            r matches Some(p) ==> p.spec_id() == id@ && self.spec_plugins().contains(*p),
    {
        let mut i: usize = 0;
        while i < self.plugins.len()
            invariant
                0 <= i <= self.plugins@.len(),
                forall|k: int| 0 <= k < i ==> self.plugins@[k].spec_id() != id@,
            decreases self.plugins@.len() - i,
        {
            let p = &self.plugins[i];
            if text_eq(p.id().as_str(), id) {
                assert(plugin_ids(self.spec_plugins())[i as int] == id@);
                return Some(p);
            }
            i = i + 1;
        }
        assert(!plugin_ids(self.spec_plugins()).contains(id@)) by {
            if plugin_ids(self.spec_plugins()).contains(id@) {
                let k = choose|k: int| 0 <= k < self.plugins@.len() && plugin_ids(self.spec_plugins())[k] == id@;
                assert(self.plugins@[k].spec_id() == id@);
            }
        }
        None
    }

    /// Caches a plugin under its id. A plugin already cached under that id
    /// is kept and the new one dropped, so the cache stays one per id.
    pub fn cache(&mut self, plugin: Plugin)
        requires
            old(self).wf(),
        ensures
            final(self).wf(),
            final(self).spec_dir() == old(self).spec_dir(),
            plugin_ids(old(self).spec_plugins()).contains(plugin.spec_id()) ==> final(self).spec_plugins() == old(self).spec_plugins(),
            !plugin_ids(old(self).spec_plugins()).contains(plugin.spec_id()) ==> final(self).spec_plugins() == old(self).spec_plugins().push(plugin),
    {
        let known = self.get(plugin.id().as_str()).is_some();
        if !known {
            let ghost before = self.plugins@;
            let ghost id = plugin.spec_id();
            self.plugins.push(plugin);
            proof {
                let ids = plugin_ids(self.plugins@);
                assert(ids =~= plugin_ids(before).push(id));
                assert forall|i: int, j: int| 0 <= i < ids.len() && 0 <= j < ids.len() && i != j implies ids[i] != ids[j] by {
                    if i < before.len() && j < before.len() {
                        assert(plugin_ids(before)[i] == ids[i]);
                        assert(plugin_ids(before)[j] == ids[j]);
                    } else if i == before.len() {
                        assert(plugin_ids(before)[j] == ids[j]);
                    } else {
                        assert(plugin_ids(before)[i] == ids[i]);
                    }
                }
            }
        }
    }
}

/// In a cache with one plugin per id, two cached plugins with the same id are
/// the same plugin.
pub proof fn lemma_cached_plugin_unique(m: PluginManager, p: Plugin, q: Plugin)
    requires
        m.wf(),
        m.spec_plugins().contains(p),
        m.spec_plugins().contains(q),
        p.spec_id() == q.spec_id(),
    ensures
        p == q,
{
    let s = m.spec_plugins();
    let i = choose|i: int| 0 <= i < s.len() && s[i] == p;
    let j = choose|j: int| 0 <= j < s.len() && s[j] == q;
    assert(plugin_ids(s)[i] == plugin_ids(s)[j]);
}

} // verus!
