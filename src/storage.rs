//! Where snapshots live: one directory per agent under the storage
//! directory, holding `agent.json`. Reading and writing happen in the host
//! process.
use vstd::prelude::*;
use vstd::string::*;

verus! {

/// The storage layout rooted at a directory.
#[derive(Debug, Clone)]
pub struct StorageManager {
    storage_dir: String,
}

impl StorageManager {
    pub closed spec fn spec_dir(&self) -> Seq<char> {
        self.storage_dir@
    }

    pub fn new(storage_dir: &str) -> (r: StorageManager)
        ensures
            r.spec_dir() == storage_dir@,
    {
        StorageManager { storage_dir: storage_dir.to_owned() }
    }

    pub fn storage_dir(&self) -> (r: &String)
        ensures
            r@ == self.spec_dir(),
    {
        &self.storage_dir
    }

    /// The directory of an agent: `{storage_dir}/{agent_id}`.
    pub fn agent_dir(&self, agent_id: &str) -> (r: String)
        ensures
            r@ == self.spec_dir() + "/"@ + agent_id@,
    {
        let mut s = self.storage_dir.clone();
        s.append("/");
        s.append(agent_id);
        s
    }

    /// The snapshot file of an agent: `{storage_dir}/{agent_id}/agent.json`.
    pub fn agent_file(&self, agent_id: &str) -> (r: String)
        ensures
            r@ == self.spec_dir() + "/"@ + agent_id@ + "/agent.json"@,
    {
        let mut s = self.agent_dir(agent_id);
        s.append("/agent.json");
        s
    }
}

} // verus!
