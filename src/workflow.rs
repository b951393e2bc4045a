//! Workflow definitions: actions, steps and whole configurations, with the
//! rules that decide whether a configuration can be run.
use vstd::prelude::*;

use crate::text::{decimal, decimal_text};

verus! {

/// The state of a workflow's execution.
#[derive(Debug, Clone, Copy, PartialEq, Eq, Structural)]
pub enum WorkflowStatus {
    /// Ready to be executed.
    Ready,
    /// Currently executing.
    Running,
    /// Completed successfully.
    Completed,
    /// Failed to complete.
    Failed,
    /// Execution was paused.
    Paused,
    /// Canceled before completion.
    Canceled,
}

impl Default for WorkflowStatus {
    fn default() -> (r: Self)
        ensures
            r == WorkflowStatus::Ready,
    {
        WorkflowStatus::Ready
    }
}

/// A single command to be executed.
#[derive(Debug, Clone)]
pub struct WorkflowAction {
    /// The command to execute.
    pub command: String,
    /// Arguments for the command.
    pub args: Vec<String>,
    /// Environment variables, as name and value, in the order given.
    pub env: Vec<(String, String)>,
}

pub open spec fn empty_action_message() -> Seq<char> {
    "Action command cannot be empty"@
}

impl WorkflowAction {
    /// An action that runs `command` with no arguments and no environment.
    pub fn new(command: &str) -> (r: Self)
        ensures
            r.command@ == command@,
            r.args@.len() == 0,
            r.env@.len() == 0,
    {
        WorkflowAction { command: String::from_str(command), args: Vec::new(), env: Vec::new() }
    }

    /// Replaces the arguments.
    pub fn with_args(self, args: Vec<String>) -> (r: Self)
        ensures
            r.command == self.command,
            r.args == args,
            r.env == self.env,
    {
        WorkflowAction { args, ..self }
    }

    /// Replaces the environment variables.
    pub fn with_env(self, env: Vec<(String, String)>) -> (r: Self)
        ensures
            r.command == self.command,
            r.args == self.args,
            r.env == env,
    {
        WorkflowAction { env, ..self }
    }

    /// An action is valid when its command is not empty.
    pub fn validate(&self) -> (r: Result<(), String>)
        ensures
            r is Ok <==> self.command@.len() > 0,
            r matches Err(e) ==> e@ == empty_action_message(),
    {
        if self.command.as_str().is_empty() {
            return Err(String::from_str("Action command cannot be empty"));
        }
        Ok(())
    }
}

/// A single step of a workflow.
#[derive(Debug, Clone)]
pub struct WorkflowStep {
    /// Identifier of the step, meant to be unique.
    pub id: String,
    /// Human-readable name.
    pub name: String,
    /// What the step does.
    pub description: String,
    /// The actions the step runs, in order.
    pub actions: Vec<WorkflowAction>,
    /// Whether the workflow fails when this step fails.
    pub required: bool,
    /// Identifiers of the steps this one depends on.
    pub depends_on: Vec<String>,
}

/// The value a missing `required` flag takes.
pub fn default_true() -> (r: bool)
    ensures
        r,
{
    true
}

/// `i` is the first action of `acts` with an empty command.
pub open spec fn first_empty_action(acts: Seq<WorkflowAction>, i: int) -> bool {
    &&& 0 <= i < acts.len()
    &&& acts[i].command@.len() == 0
    &&& forall|j: int| 0 <= j < i ==> (#[trigger] acts[j]).command@.len() > 0
}

impl WorkflowStep {
    /// The first problem of this step, as the message that reports it.
    pub open spec fn problem(&self) -> Option<Seq<char>> {
        if self.id@.len() == 0 {
            Some("Step ID cannot be empty"@)
        } else if self.name@.len() == 0 {
            Some("Step name cannot be empty"@)
        } else if self.actions@.len() == 0 {
            Some("Step '"@ + self.id@ + "' must have at least one action"@)
        } else if exists|i: int| first_empty_action(self.actions@, i) {
            let i = choose|i: int| first_empty_action(self.actions@, i);
            Some(
                "Invalid action "@ + decimal((i + 1) as nat) + " in step '"@ + self.id@ + "': "@
                    + empty_action_message(),
            )
        } else {
            None
        }
    }

    /// A required step with the given identifier and name, and nothing else.
    pub fn new(id: &str, name: &str) -> (r: Self)
        ensures
            r.id@ == id@,
            r.name@ == name@,
            r.description@.len() == 0,
            r.actions@.len() == 0,
            r.required,
            r.depends_on@.len() == 0,
    {
        WorkflowStep {
            id: String::from_str(id),
            name: String::from_str(name),
            description: String::new(),
            actions: Vec::new(),
            required: default_true(),
            depends_on: Vec::new(),
        }
    }

    /// Replaces the description.
    pub fn with_description(self, description: &str) -> (r: Self)
        ensures
            r.description@ == description@,
            r.id == self.id,
            r.name == self.name,
            r.actions == self.actions,
            r.required == self.required,
            r.depends_on == self.depends_on,
    {
        WorkflowStep { description: String::from_str(description), ..self }
    }

    /// Replaces the actions.
    pub fn with_actions(self, actions: Vec<WorkflowAction>) -> (r: Self)
        ensures
            r.actions == actions,
            r.id == self.id,
            r.name == self.name,
            r.description == self.description,
            r.required == self.required,
            r.depends_on == self.depends_on,
    {
        WorkflowStep { actions, ..self }
    }

    /// Sets whether the step is required.
    pub fn with_required(self, required: bool) -> (r: Self)
        ensures
            r.required == required,
            r.id == self.id,
            r.name == self.name,
            r.description == self.description,
            r.actions == self.actions,
            r.depends_on == self.depends_on,
    {
        WorkflowStep { required, ..self }
    }

    /// Replaces the dependencies.
    pub fn with_dependencies(self, dependencies: Vec<String>) -> (r: Self)
        ensures
            r.depends_on == dependencies,
            r.id == self.id,
            r.name == self.name,
            r.description == self.description,
            r.actions == self.actions,
            r.required == self.required,
    {
        WorkflowStep { depends_on: dependencies, ..self }
    }

    /// Checks the step: a non-empty identifier and name, at least one
    /// action, and only valid actions.
    pub fn validate(&self) -> (r: Result<(), String>)
        ensures
            r is Ok <==> self.problem() is None,
            r matches Err(e) ==> self.problem() == Some(e@),
    {
        if self.id.as_str().is_empty() {
            return Err(String::from_str("Step ID cannot be empty"));
        }
        if self.name.as_str().is_empty() {
            return Err(String::from_str("Step name cannot be empty"));
        }
        if self.actions.len() == 0 {
            let mut m = String::from_str("Step '");
            m.append(self.id.as_str());
            m.append("' must have at least one action");
            return Err(m);
        }
        let mut i: usize = 0;
        while i < self.actions.len()
            invariant
                self.id@.len() > 0,
                self.name@.len() > 0,
                i <= self.actions@.len(),
                forall|j: int| 0 <= j < i ==> (#[trigger] self.actions@[j]).command@.len() > 0,
            decreases self.actions@.len() - i,
        {
            if let Err(e) = self.actions[i].validate() {
                assert(first_empty_action(self.actions@, i as int));
                let mut m = String::from_str("Invalid action ");
                let n = decimal_text(i as u64 + 1);
                m.append(n.as_str());
                m.append(" in step '");
                m.append(self.id.as_str());
                m.append("': ");
                m.append(e.as_str());
                proof {
                    let c = choose|c: int| first_empty_action(self.actions@, c);
                    assert(c == i as int) by {
                        if c < i {
                        } else if c > i {
                            assert(self.actions@[i as int].command@.len() > 0);
                        }
                    }
                    assert(m@ =~= "Invalid action "@ + decimal((c + 1) as nat) + " in step '"@
                        + self.id@ + "': "@ + empty_action_message());
                }
                return Err(m);
            }
            i = i + 1;
        }
        assert(!exists|c: int| first_empty_action(self.actions@, c));
        Ok(())
    }
}

/// A whole workflow: its metadata and its steps.
#[derive(Debug)]
pub struct WorkflowConfig {
    /// Version of the workflow.
    pub version: String,
    /// Author of the workflow.
    pub author: String,
    /// What the workflow does.
    pub description: String,
    /// The steps, in order.
    pub steps: Vec<WorkflowStep>,
    /// Whether the workflow is enabled.
    pub enabled: bool,
    /// Tags for categorization.
    pub tags: Vec<String>,
}

/// `k` is the first step of `steps` that has a problem.
pub open spec fn first_invalid_step(steps: Seq<WorkflowStep>, k: int) -> bool {
    &&& 0 <= k < steps.len()
    &&& steps[k].problem() is Some
    &&& forall|j: int| 0 <= j < k ==> (#[trigger] steps[j]).problem() is None
}

/// Some step of `steps` has the identifier `id`.
pub open spec fn has_step_id(steps: Seq<WorkflowStep>, id: Seq<char>) -> bool {
    exists|j: int| 0 <= j < steps.len() && (#[trigger] steps[j]).id@ == id
}

/// All dependencies of step `k` before position `d` name existing steps.
pub open spec fn deps_exist_before(steps: Seq<WorkflowStep>, k: int, d: int) -> bool {
    forall|e: int|
        0 <= e < d && e < steps[k].depends_on@.len() ==> has_step_id(
            steps,
            (#[trigger] steps[k].depends_on@[e])@,
        )
}

/// Dependency `d` of step `k` is the first, in step order and then in
/// dependency order, that names no step.
pub open spec fn first_missing_dep(steps: Seq<WorkflowStep>, k: int, d: int) -> bool {
    &&& 0 <= k < steps.len()
    &&& 0 <= d < steps[k].depends_on@.len()
    &&& !has_step_id(steps, steps[k].depends_on@[d]@)
    &&& deps_exist_before(steps, k, d)
    &&& forall|j: int| 0 <= j < k ==> #[trigger] deps_exist_before(steps, j, steps[j].depends_on@.len() as int)
}

/// Step `j` is the first step that carries its identifier: it stands for
/// that identifier in the dependency graph.
pub open spec fn is_first_id(steps: Seq<WorkflowStep>, j: int) -> bool {
    &&& 0 <= j < steps.len()
    &&& forall|i: int| 0 <= i < j ==> (#[trigger] steps[i]).id@ != steps[j].id@
}

/// Step `i` depends on the identifier that step `j` stands for.
pub open spec fn leads_to(steps: Seq<WorkflowStep>, i: int, j: int) -> bool {
    &&& is_first_id(steps, j)
    &&& exists|d: int|
        0 <= d < steps[i].depends_on@.len() && (#[trigger] steps[i].depends_on@[d])@ == steps[j].id@
}

/// One can follow `n` dependencies, one after the other, from step `i`.
pub open spec fn chain(steps: Seq<WorkflowStep>, i: int, n: nat) -> bool
    decreases n,
{
    n == 0 || exists|j: int| #[trigger] leads_to(steps, i, j) && chain(steps, j, (n - 1) as nat)
}

/// A dependency cycle can be reached from step `k`: from the step that
/// stands for `k`'s identifier, one can follow as many dependencies as there
/// are steps, which must pass some step twice.
pub open spec fn cyclic_from(steps: Seq<WorkflowStep>, k: int) -> bool {
    exists|j: int|
        #[trigger] is_first_id(steps, j) && steps[j].id@ == steps[k].id@ && chain(
            steps,
            j,
            steps.len(),
        )
}

/// `k` is the first step from which a dependency cycle can be reached.
pub open spec fn first_cyclic(steps: Seq<WorkflowStep>, k: int) -> bool {
    &&& 0 <= k < steps.len()
    &&& cyclic_from(steps, k)
    &&& forall|j: int| 0 <= j < k ==> !#[trigger] cyclic_from(steps, j)
}

pub open spec fn cycle_message(id: Seq<char>) -> Seq<char> {
    "Circular dependency detected involving step '"@ + id + "'"@
}

proof fn lemma_first_id_unique(steps: Seq<WorkflowStep>, a: int, b: int)
    requires
        is_first_id(steps, a),
        is_first_id(steps, b),
        steps[a].id@ == steps[b].id@,
    ensures
        a == b,
{
    if a < b {
        assert(steps[a].id@ != steps[b].id@);
    } else if b < a {
        assert(steps[b].id@ != steps[a].id@);
    }
}

impl WorkflowConfig {
    /// The first problem of this configuration, as the message that reports
    /// it.
    pub open spec fn problem(&self) -> Option<Seq<char>> {
        let steps = self.steps@;
        if self.version@.len() == 0 {
            Some("Workflow version cannot be empty"@)
        } else if self.author@.len() == 0 {
            Some("Workflow author cannot be empty"@)
        } else if self.description@.len() == 0 {
            Some("Workflow description cannot be empty"@)
        } else if steps.len() == 0 {
            Some("Workflow must have at least one step"@)
        } else if exists|k: int| first_invalid_step(steps, k) {
            let k = choose|k: int| first_invalid_step(steps, k);
            Some("Invalid step: "@ + steps[k].problem().unwrap())
        } else if exists|k: int, d: int| first_missing_dep(steps, k, d) {
            let (k, d) = choose|k: int, d: int| first_missing_dep(steps, k, d);
            Some(
                "Step '"@ + steps[k].id@ + "' depends on non-existent step '"@
                    + steps[k].depends_on@[d]@ + "'"@,
            )
        } else if exists|k: int| first_cyclic(steps, k) {
            let k = choose|k: int| first_cyclic(steps, k);
            Some(cycle_message(steps[k].id@))
        } else {
            None
        }
    }

    /// An enabled workflow with the given metadata and no steps or tags.
    pub fn new(version: &str, author: &str, description: &str) -> (r: Self)
        ensures
            r.version@ == version@,
            r.author@ == author@,
            r.description@ == description@,
            r.steps@.len() == 0,
            r.enabled,
            r.tags@.len() == 0,
    {
        WorkflowConfig {
            version: String::from_str(version),
            author: String::from_str(author),
            description: String::from_str(description),
            steps: Vec::new(),
            enabled: default_true(),
            tags: Vec::new(),
        }
    }

    /// Replaces the steps.
    pub fn with_steps(self, steps: Vec<WorkflowStep>) -> (r: Self)
        ensures
            r.steps == steps,
            r.version == self.version,
            r.author == self.author,
            r.description == self.description,
            r.enabled == self.enabled,
            r.tags == self.tags,
    {
        WorkflowConfig { steps, ..self }
    }

    /// Replaces the tags.
    pub fn with_tags(self, tags: Vec<String>) -> (r: Self)
        ensures
            r.tags == tags,
            r.version == self.version,
            r.author == self.author,
            r.description == self.description,
            r.steps == self.steps,
            r.enabled == self.enabled,
    {
        WorkflowConfig { tags, ..self }
    }

    /// Sets whether the workflow is enabled.
    pub fn with_enabled(self, enabled: bool) -> (r: Self)
        ensures
            r.enabled == enabled,
            r.version == self.version,
            r.author == self.author,
            r.description == self.description,
            r.steps == self.steps,
            r.tags == self.tags,
    {
        WorkflowConfig { enabled, ..self }
    }

    fn has_step(&self, id: &String) -> (r: bool)
        ensures
            r == has_step_id(self.steps@, id@),
    {
        let mut j: usize = 0;
        while j < self.steps.len()
            invariant
                j <= self.steps@.len(),
                forall|i: int| 0 <= i < j ==> (#[trigger] self.steps@[i]).id@ != id@,
            decreases self.steps@.len() - j,
        {
            if self.steps[j].id == *id {
                return true;
            }
            j = j + 1;
        }
        false
    }

    /// For each step, the first step with the same identifier.
    fn first_ids(&self) -> (r: Vec<usize>)
        ensures
            r@.len() == self.steps@.len(),
            forall|k: int|
                0 <= k < r@.len() ==> is_first_id(self.steps@, #[trigger] r@[k] as int)
                    && self.steps@[r@[k] as int].id@ == self.steps@[k].id@,
    {
        let steps = &self.steps;
        let mut r: Vec<usize> = Vec::new();
        let mut k: usize = 0;
        while k < steps.len()
            invariant
                k <= steps@.len(),
                r@.len() == k,
                forall|m: int|
                    0 <= m < k ==> is_first_id(steps@, #[trigger] r@[m] as int)
                        && steps@[r@[m] as int].id@ == steps@[m].id@,
            decreases steps@.len() - k,
        {
            let mut j: usize = 0;
            while steps[j].id != steps[k].id
                invariant
                    k < steps@.len(),
                    j <= k,
                    forall|i: int| 0 <= i < j ==> (#[trigger] steps@[i]).id@ != steps@[k as int].id@,
                decreases k - j,
            {
                j = j + 1;
            }
            r.push(j);
            k = k + 1;
        }
        r
    }

    /// Whether step `i` depends on the identifier of step `j`.
    fn depends_on_id_of(&self, i: usize, j: usize) -> (r: bool)
        requires
            i < self.steps@.len(),
            j < self.steps@.len(),
        ensures
            r == exists|d: int|
                0 <= d < self.steps@[i as int].depends_on@.len() && (
                #[trigger] self.steps@[i as int].depends_on@[d])@ == self.steps@[j as int].id@,
    {
        let deps = &self.steps[i].depends_on;
        let mut d: usize = 0;
        while d < deps.len()
            invariant
                deps == self.steps@[i as int].depends_on,
                j < self.steps@.len(),
                d <= deps@.len(),
                forall|e: int| 0 <= e < d ==> (#[trigger] deps@[e])@ != self.steps@[j as int].id@,
            decreases deps@.len() - d,
        {
            if deps[d] == self.steps[j].id {
                return true;
            }
            d = d + 1;
        }
        false
    }

    /// For each step, whether a dependency cycle can be reached from it.
    fn cyclic_marks(&self) -> (r: Vec<bool>)
        ensures
            r@.len() == self.steps@.len(),
            forall|k: int| 0 <= k < r@.len() ==> r@[k] == cyclic_from(self.steps@, k),
    {
        let steps = &self.steps;
        let n = steps.len();
        let first = self.first_ids();
        let mut edges: Vec<Vec<bool>> = Vec::new();
        let mut i: usize = 0;
        while i < n
            invariant
                steps@ == self.steps@,
                n == steps@.len(),
                i <= n,
                first@.len() == n,
                forall|k: int|
                    0 <= k < n ==> is_first_id(steps@, #[trigger] first@[k] as int)
                        && steps@[first@[k] as int].id@ == steps@[k].id@,
                edges@.len() == i,
                forall|a: int| 0 <= a < i ==> (#[trigger] edges@[a])@.len() == n,
                forall|a: int, b: int|
                    0 <= a < i && 0 <= b < n ==> edges@[a]@[b] == leads_to(steps@, a, b),
            decreases n - i,
        {
            let mut row: Vec<bool> = Vec::new();
            let mut j: usize = 0;
            while j < n
                invariant
                    steps@ == self.steps@,
                    n == steps@.len(),
                    i < n,
                    j <= n,
                    first@.len() == n,
                    forall|k: int|
                        0 <= k < n ==> is_first_id(steps@, #[trigger] first@[k] as int)
                            && steps@[first@[k] as int].id@ == steps@[k].id@,
                    row@.len() == j,
                    forall|b: int| 0 <= b < j ==> row@[b] == leads_to(steps@, i as int, b),
                decreases n - j,
            {
                let e = first[j] == j && self.depends_on_id_of(i, j);
                proof {
                    if is_first_id(steps@, j as int) {
                        lemma_first_id_unique(steps@, first@[j as int] as int, j as int);
                    }
                }
                row.push(e);
                j = j + 1;
            }
            edges.push(row);
            i = i + 1;
        }
        let mut cur: Vec<bool> = Vec::new();
        let mut a: usize = 0;
        while a < n
            invariant
                a <= n,
                cur@.len() == a,
                forall|b: int| 0 <= b < a ==> cur@[b] == chain(steps@, b, 0),
            decreases n - a,
        {
            cur.push(true);
            a = a + 1;
        }
        let mut len: usize = 0;
        while len < n
            invariant
                n == steps@.len(),
                len <= n,
                cur@.len() == n,
                edges@.len() == n,
                forall|a: int| 0 <= a < n ==> (#[trigger] edges@[a])@.len() == n,
                forall|a: int, b: int|
                    0 <= a < n && 0 <= b < n ==> edges@[a]@[b] == leads_to(steps@, a, b),
                forall|b: int| 0 <= b < n ==> cur@[b] == chain(steps@, b, len as nat),
            decreases n - len,
        {
            let mut next: Vec<bool> = Vec::new();
            let mut i: usize = 0;
            while i < n
                invariant
                    n == steps@.len(),
                    len < n,
                    i <= n,
                    cur@.len() == n,
                    edges@.len() == n,
                    forall|a: int| 0 <= a < n ==> (#[trigger] edges@[a])@.len() == n,
                    forall|a: int, b: int|
                        0 <= a < n && 0 <= b < n ==> edges@[a]@[b] == leads_to(steps@, a, b),
                    forall|b: int| 0 <= b < n ==> cur@[b] == chain(steps@, b, len as nat),
                    next@.len() == i,
                    forall|b: int| 0 <= b < i ==> next@[b] == chain(steps@, b, (len + 1) as nat),
                decreases n - i,
            {
                let mut found = false;
                let mut j: usize = 0;
                while j < n
                    invariant
                        n == steps@.len(),
                        i < n,
                        j <= n,
                        cur@.len() == n,
                        edges@.len() == n,
                        forall|a: int| 0 <= a < n ==> (#[trigger] edges@[a])@.len() == n,
                        forall|a: int, b: int|
                            0 <= a < n && 0 <= b < n ==> edges@[a]@[b] == leads_to(steps@, a, b),
                        forall|b: int| 0 <= b < n ==> cur@[b] == chain(steps@, b, len as nat),
                        found == exists|b: int|
                            0 <= b < j && #[trigger] leads_to(steps@, i as int, b) && chain(
                                steps@,
                                b,
                                len as nat,
                            ),
                    decreases n - j,
                {
                    if edges[i][j] && cur[j] {
                        found = true;
                        assert(leads_to(steps@, i as int, j as int) && chain(steps@, j as int, len as nat));
                    }
                    j = j + 1;
                }
                proof {
                    assert(chain(steps@, i as int, (len + 1) as nat) == exists|b: int|
                        #[trigger] leads_to(steps@, i as int, b) && chain(steps@, b, len as nat));
                }
                next.push(found);
                i = i + 1;
            }
            cur = next;
            len = len + 1;
        }
        let mut r: Vec<bool> = Vec::new();
        let mut k: usize = 0;
        while k < n
            invariant
                n == steps@.len(),
                k <= n,
                cur@.len() == n,
                first@.len() == n,
                forall|m: int|
                    0 <= m < n ==> is_first_id(steps@, #[trigger] first@[m] as int)
                        && steps@[first@[m] as int].id@ == steps@[m].id@,
                forall|b: int| 0 <= b < n ==> cur@[b] == chain(steps@, b, n as nat),
                r@.len() == k,
                forall|m: int| 0 <= m < k ==> r@[m] == cyclic_from(steps@, m),
            decreases n - k,
        {
            let c = cur[first[k]];
            proof {
                let f = first@[k as int] as int;
                if cyclic_from(steps@, k as int) {
                    let w = choose|w: int|
                        #[trigger] is_first_id(steps@, w) && steps@[w].id@ == steps@[k as int].id@
                            && chain(steps@, w, steps@.len());
                    lemma_first_id_unique(steps@, w, f);
                }
                if c {
                    assert(is_first_id(steps@, f));
                }
            }
            r.push(c);
            k = k + 1;
        }
        r
    }

    /// Fails, naming the first step from which a dependency cycle can be
    /// reached, if there is one.
    fn check_circular_dependencies(&self) -> (r: Result<(), String>)
        ensures
            r is Ok <==> forall|k: int| 0 <= k < self.steps@.len() ==> !cyclic_from(self.steps@, k),
            r matches Err(e) ==> exists|k: int|
                first_cyclic(self.steps@, k) && e@ == cycle_message(self.steps@[k].id@),
    {
        let marks = self.cyclic_marks();
        let mut k: usize = 0;
        while k < marks.len()
            invariant
                marks@.len() == self.steps@.len(),
                forall|m: int| 0 <= m < marks@.len() ==> marks@[m] == cyclic_from(self.steps@, m),
                k <= marks@.len(),
                forall|m: int| 0 <= m < k ==> !cyclic_from(self.steps@, m),
            decreases marks@.len() - k,
        {
            if marks[k] {
                let mut m = String::from_str("Circular dependency detected involving step '");
                m.append(self.steps[k].id.as_str());
                m.append("'");
                assert(first_cyclic(self.steps@, k as int));
                assert(m@ =~= cycle_message(self.steps@[k as int].id@));
                return Err(m);
            }
            k = k + 1;
        }
        Ok(())
    }

    /// Checks the whole configuration: non-empty metadata, at least one
    /// step, valid steps, dependencies that name existing steps, and no
    /// dependency cycle. On failure the message reports the first problem.
    pub fn validate(&self) -> (r: Result<(), String>)
        ensures
            r is Ok <==> self.problem() is None,
            r matches Err(e) ==> self.problem() == Some(e@),
    {
        if self.version.as_str().is_empty() {
            return Err(String::from_str("Workflow version cannot be empty"));
        }
        if self.author.as_str().is_empty() {
            return Err(String::from_str("Workflow author cannot be empty"));
        }
        if self.description.as_str().is_empty() {
            return Err(String::from_str("Workflow description cannot be empty"));
        }
        if self.steps.len() == 0 {
            return Err(String::from_str("Workflow must have at least one step"));
        }
        let steps = &self.steps;
        let mut k: usize = 0;
        while k < steps.len()
            invariant
                steps@ == self.steps@,
                self.version@.len() > 0,
                self.author@.len() > 0,
                self.description@.len() > 0,
                steps@.len() > 0,
                k <= steps@.len(),
                forall|j: int| 0 <= j < k ==> (#[trigger] steps@[j]).problem() is None,
            decreases steps@.len() - k,
        {
            if let Err(e) = steps[k].validate() {
                let mut m = String::from_str("Invalid step: ");
                m.append(e.as_str());
                proof {
                    assert(first_invalid_step(steps@, k as int));
                    let c = choose|c: int| first_invalid_step(steps@, c);
                    assert(c == k as int) by {
                        if c < k {
                        } else if c > k {
                            assert(steps@[k as int].problem() is None);
                        }
                    }
                    assert(m@ =~= "Invalid step: "@ + steps@[c].problem().unwrap());
                }
                return Err(m);
            }
            k = k + 1;
        }
        assert(!exists|c: int| first_invalid_step(steps@, c));
        let mut k: usize = 0;
        while k < steps.len()
            invariant
                steps@ == self.steps@,
                self.version@.len() > 0,
                self.author@.len() > 0,
                self.description@.len() > 0,
                steps@.len() > 0,
                k <= steps@.len(),
                !exists|c: int| first_invalid_step(steps@, c),
                forall|j: int|
                    0 <= j < k ==> #[trigger] deps_exist_before(
                        steps@,
                        j,
                        steps@[j].depends_on@.len() as int,
                    ),
            decreases steps@.len() - k,
        {
            let deps = &steps[k].depends_on;
            let mut d: usize = 0;
            while d < deps.len()
                invariant
                    steps@ == self.steps@,
                    self.version@.len() > 0,
                    self.author@.len() > 0,
                    self.description@.len() > 0,
                    k < steps@.len(),
                    deps == steps@[k as int].depends_on,
                    d <= deps@.len(),
                    !exists|c: int| first_invalid_step(steps@, c),
                    forall|j: int|
                        0 <= j < k ==> #[trigger] deps_exist_before(
                            steps@,
                            j,
                            steps@[j].depends_on@.len() as int,
                        ),
                    deps_exist_before(steps@, k as int, d as int),
                decreases deps@.len() - d,
            {
                if !self.has_step(&deps[d]) {
                    let mut m = String::from_str("Step '");
                    m.append(steps[k].id.as_str());
                    m.append("' depends on non-existent step '");
                    m.append(deps[d].as_str());
                    m.append("'");
                    proof {
                        assert(first_missing_dep(steps@, k as int, d as int));
                        let (ck, cd) = choose|ck: int, cd: int| first_missing_dep(steps@, ck, cd);
                        assert(ck == k as int && cd == d as int) by {
                            if ck < k {
                                assert(deps_exist_before(steps@, ck, steps@[ck].depends_on@.len() as int));
                                assert(has_step_id(steps@, steps@[ck].depends_on@[cd]@));
                            } else if ck > k {
                                assert(deps_exist_before(steps@, k as int, steps@[k as int].depends_on@.len() as int));
                                assert(has_step_id(steps@, steps@[k as int].depends_on@[d as int]@));
                            } else if cd < d {
                                assert(has_step_id(steps@, steps@[k as int].depends_on@[cd]@));
                            } else if cd > d {
                                assert(has_step_id(steps@, steps@[k as int].depends_on@[d as int]@));
                            }
                        }
                        assert(m@ =~= "Step '"@ + steps@[ck].id@ + "' depends on non-existent step '"@
                            + steps@[ck].depends_on@[cd]@ + "'"@);
                    }
                    return Err(m);
                }
                d = d + 1;
            }
            k = k + 1;
        }
        proof {
            assert forall|ck: int, cd: int| !first_missing_dep(steps@, ck, cd) by {
                if 0 <= ck < steps@.len() && 0 <= cd < steps@[ck].depends_on@.len() {
                    assert(deps_exist_before(steps@, ck, steps@[ck].depends_on@.len() as int));
                    assert(has_step_id(steps@, steps@[ck].depends_on@[cd]@));
                }
            }
        }
        match self.check_circular_dependencies() {
            Ok(()) => {
                assert(!exists|c: int| first_cyclic(steps@, c));
                Ok(())
            },
            Err(e) => {
                proof {
                    let k = choose|k: int|
                        first_cyclic(self.steps@, k) && e@ == cycle_message(self.steps@[k].id@);
                    let c = choose|c: int| first_cyclic(steps@, c);
                    assert(c == k) by {
                        if c < k {
                            assert(!cyclic_from(steps@, c));
                        } else if c > k {
                            assert(!cyclic_from(steps@, k));
                        }
                    }
                }
                Err(e)
            },
        }
    }
}

} // verus!

verus! {

/// The version of these workflow definitions.
pub fn get_version() -> (r: &'static str)
    ensures
        r@ == "0.1.0"@,
{
    "0.1.0"
}

} // verus!
