//! The index of known workflows: where each is defined, what it is called,
//! and how its last execution went. Reading and writing it is left to the
//! caller; this is what the index holds and how it changes.
use vstd::prelude::*;

use crate::workflow::{WorkflowConfig, WorkflowStatus};

verus! {

/// A workflow known to the index.
#[derive(Debug, Clone)]
pub struct IndexedWorkflow {
    /// Identifier, unique in the index.
    pub id: String,
    /// Display name.
    pub name: String,
    /// Where the workflow's definition is stored.
    pub path: String,
    /// Tags of the workflow.
    pub tags: Vec<String>,
    /// When the workflow last started running, in seconds since the epoch.
    pub last_executed: Option<u64>,
    /// The status of its last execution.
    pub status: Option<WorkflowStatus>,
}

/// Why an operation on the index failed.
#[derive(Debug, Clone)]
pub enum IndexError {
    /// The workflow's definition is not valid; the message says why.
    Validation(String),
    /// No workflow has the identifier; the message names it.
    NotFound(String),
}

/// All workflows known, in the order they were first added.
#[derive(Debug, Clone)]
pub struct WorkflowIndex {
    pub workflows: Vec<IndexedWorkflow>,
}

pub open spec fn not_found_message(id: Seq<char>) -> Seq<char> {
    "Workflow with ID '"@ + id + "' not found"@
}

/// The position of the workflow with identifier `id` in `ws`, if any.
pub open spec fn position_of(ws: Seq<IndexedWorkflow>, id: Seq<char>) -> Option<int> {
    if exists|i: int| 0 <= i < ws.len() && (#[trigger] ws[i]).id@ == id {
        Some(choose|i: int| 0 <= i < ws.len() && (#[trigger] ws[i]).id@ == id)
    } else {
        None
    }
}

/// The name a workflow is shown under: its description, or its identifier
/// when the description is empty.
pub open spec fn display_name(id: Seq<char>, config: WorkflowConfig) -> Seq<char> {
    if config.description@.len() > 0 {
        config.description@
    } else {
        id
    }
}

/// Leaves everything unchanged but the status and the time of the last
/// start.
pub open spec fn updated(
    w: IndexedWorkflow,
    status: WorkflowStatus,
    now: u64,
    u: IndexedWorkflow,
) -> bool {
    &&& u.id == w.id
    &&& u.name == w.name
    &&& u.path == w.path
    &&& u.tags == w.tags
    &&& u.status == Some(status)
    &&& u.last_executed == if status == WorkflowStatus::Running {
        Some(now)
    } else {
        w.last_executed
    }
}

impl WorkflowIndex {
    /// No two workflows share an identifier.
    pub open spec fn ids_unique(&self) -> bool {
        forall|i: int, j: int|
            0 <= i < self.workflows@.len() && 0 <= j < self.workflows@.len() && i != j
                ==> self.workflows@[i].id@ != self.workflows@[j].id@
    }

    /// An empty index.
    pub fn new() -> (r: Self)
        ensures
            r.workflows@.len() == 0,
    {
        WorkflowIndex { workflows: Vec::new() }
    }

    fn find(&self, id: &str) -> (r: Option<usize>)
        requires
            self.ids_unique(),
        ensures
            match r {
                Some(i) => position_of(self.workflows@, id@) == Some(i as int),
                None => position_of(self.workflows@, id@) is None,
            },
    {
        let key = String::from_str(id);
        let mut i: usize = 0;
        while i < self.workflows.len()
            invariant
                self.ids_unique(),
                key@ == id@,
                i <= self.workflows@.len(),
                forall|j: int| 0 <= j < i ==> (#[trigger] self.workflows@[j]).id@ != id@,
            decreases self.workflows@.len() - i,
        {
            if self.workflows[i].id == key {
                proof {
                    let c = choose|c: int|
                        0 <= c < self.workflows@.len() && (#[trigger] self.workflows@[c]).id@ == id@;
                    assert(c == i as int);
                }
                return Some(i);
            }
            i = i + 1;
        }
        None
    }

    /// Adds the workflow defined by `config`, stored at `path`, under `id`,
    /// if the configuration is valid. It replaces any workflow with the same
    /// identifier, forgetting that one's status and last start.
    pub fn add_workflow(&mut self, id: &str, path: &str, config: &WorkflowConfig) -> (r: Result<
        (),
        IndexError,
    >)
        requires
            old(self).ids_unique(),
        ensures
            final(self).ids_unique(),
            r is Ok <==> config.problem() is None,
            r matches Err(IndexError::Validation(m)) ==> config.problem() == Some(m@),
            r is Err ==> r matches Err(IndexError::Validation(_)),
            r is Err ==> final(self).workflows@ == old(self).workflows@,
            r is Ok ==> ({
                let entry_ok = |w: IndexedWorkflow|
                    w.id@ == id@ && w.name@ == display_name(id@, *config) && w.path@ == path@
                        && w.tags@.map_values(|t: String| t@) == config.tags@.map_values(
                        |t: String| t@,
                    ) && w.last_executed is None && w.status is None;
                match position_of(old(self).workflows@, id@) {
                    Some(i) => final(self).workflows@.len() == old(self).workflows@.len()
                        && entry_ok(final(self).workflows@[i])
                        && forall|j: int|
                        0 <= j < old(self).workflows@.len() && j != i
                            ==> final(self).workflows@[j] == old(self).workflows@[j],
                    None => final(self).workflows@.len() == old(self).workflows@.len() + 1
                        && entry_ok(final(self).workflows@.last())
                        && final(self).workflows@.drop_last() == old(self).workflows@,
                }
            }),
    {
        if let Err(e) = config.validate() {
            return Err(IndexError::Validation(e));
        }
        let name = if !config.description.as_str().is_empty() {
            config.description.clone()
        } else {
            String::from_str(id)
        };
        let mut tags: Vec<String> = Vec::new();
        let mut k: usize = 0;
        while k < config.tags.len()
            invariant
                k <= config.tags@.len(),
                tags@.len() == k,
                forall|m: int| 0 <= m < k ==> (#[trigger] tags@[m])@ == config.tags@[m]@,
            decreases config.tags@.len() - k,
        {
            tags.push(config.tags[k].clone());
            k = k + 1;
        }
        assert(tags@.map_values(|t: String| t@) =~= config.tags@.map_values(|t: String| t@));
        let entry = IndexedWorkflow {
            id: String::from_str(id),
            name,
            path: String::from_str(path),
            tags,
            last_executed: None,
            status: None,
        };
        match self.find(id) {
            Some(i) => {
                self.workflows.set(i, entry);
            },
            None => {
                self.workflows.push(entry);
                assert(self.workflows@.drop_last() =~= old(self).workflows@);
            },
        }
        Ok(())
    }

    /// Records that the workflow `id` now has `status`; a workflow that
    /// starts running also records `now` as its last start.
    pub fn update_status(&mut self, id: &str, status: WorkflowStatus, now: u64) -> (r: Result<
        (),
        IndexError,
    >)
        requires
            old(self).ids_unique(),
        ensures
            final(self).ids_unique(),
            final(self).workflows@.len() == old(self).workflows@.len(),
            match position_of(old(self).workflows@, id@) {
                Some(i) => r is Ok && updated(
                    old(self).workflows@[i],
                    status,
                    now,
                    final(self).workflows@[i],
                ) && forall|j: int|
                    0 <= j < old(self).workflows@.len() && j != i ==> final(self).workflows@[j]
                        == old(self).workflows@[j],
                None => final(self).workflows@ == old(self).workflows@ && (r matches Err(
                    IndexError::NotFound(m),
                ) && m@ == not_found_message(id@)),
            },
    {
        match self.find(id) {
            Some(i) => {
                let mut w = self.workflows.remove(i);
                w.status = Some(status);
                if status == WorkflowStatus::Running {
                    w.last_executed = Some(now);
                }
                self.workflows.insert(i, w);
                assert(self.workflows@ =~= old(self).workflows@.update(i as int, w));
                Ok(())
            },
            None => {
                let mut m = String::from_str("Workflow with ID '");
                m.append(id);
                m.append("' not found");
                Err(IndexError::NotFound(m))
            },
        }
    }

    /// The workflow with identifier `id`, if the index has one.
    pub fn get_workflow(&self, id: &str) -> (r: Option<&IndexedWorkflow>)
        requires
            self.ids_unique(),
        ensures
            match position_of(self.workflows@, id@) {
                Some(i) => r == Some(&self.workflows@[i]),
                None => r is None,
            },
    {
        match self.find(id) {
            Some(i) => Some(&self.workflows[i]),
            None => None,
        }
    }

    /// All workflows of the index, in order.
    pub fn list_workflows(&self) -> (r: Vec<&IndexedWorkflow>)
        ensures
            r@.len() == self.workflows@.len(),
            forall|i: int| 0 <= i < r@.len() ==> *r@[i] == self.workflows@[i],
    {
        let mut r: Vec<&IndexedWorkflow> = Vec::new();
        let mut i: usize = 0;
        while i < self.workflows.len()
            invariant
                i <= self.workflows@.len(),
                r@.len() == i,
                forall|j: int| 0 <= j < i ==> *r@[j] == self.workflows@[j],
            decreases self.workflows@.len() - i,
        {
            r.push(&self.workflows[i]);
            i = i + 1;
        }
        r
    }
}

} // verus!
