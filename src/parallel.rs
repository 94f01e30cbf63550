//! Tools, their dependency graph, and the decision logic of the parallel
//! scheduler.
//!
//! The scheduler itself never waits: the caller launches what `step` hands
//! back, collects the outcomes of the tasks that have finished, and hands those
//! to the next `step`.
use vstd::prelude::*;

verus! {

/// A tool that can be updated.
#[derive(Debug, Clone, Copy, PartialEq, Eq, Hash, Structural)]
pub enum Tool {
    Homebrew,
    Rustup,
    Mise,
}

/// Position of a tool in declaration order.
pub open spec fn tool_index(t: Tool) -> int {
    match t {
        Tool::Homebrew => 0,
        Tool::Rustup => 1,
        Tool::Mise => 2,
    }
}

pub open spec fn display_name_of(t: Tool) -> Seq<char> {
    match t {
        Tool::Homebrew => "Homebrew"@,
        Tool::Rustup => "Rustup"@,
        Tool::Mise => "Mise"@,
    }
}

/// `s` lists exactly the members of `set`, each once, in declaration order.
pub open spec fn lists_in_order(s: Seq<Tool>, set: Set<Tool>) -> bool {
    &&& forall|t: Tool| s.contains(t) <==> set.contains(t)
    &&& forall|i: int, j: int|
        0 <= i < j < s.len() ==> tool_index(#[trigger] s[i]) < tool_index(#[trigger] s[j])
}

impl Tool {
    /// The name under which the tool is shown.
    pub fn display_name(&self) -> (r: &'static str)
        ensures
            r@ == display_name_of(*self),
    {
        match self {
            Tool::Homebrew => "Homebrew",
            Tool::Rustup => "Rustup",
            Tool::Mise => "Mise",
        }
    }
}

/// A set of tools, one membership flag per tool.
#[derive(Debug, Clone, Copy, PartialEq, Eq, Structural)]
pub struct ToolSet {
    homebrew: bool,
    rustup: bool,
    mise: bool,
}

impl View for ToolSet {
    type V = Set<Tool>;

    open spec fn view(&self) -> Set<Tool> {
        Set::new(|t: Tool| self.has(t))
    }
}

impl ToolSet {
    pub closed spec fn has(&self, t: Tool) -> bool {
        match t {
            Tool::Homebrew => self.homebrew,
            Tool::Rustup => self.rustup,
            Tool::Mise => self.mise,
        }
    }

    /// The empty set.
    pub fn new() -> (r: ToolSet)
        ensures
            r@ == Set::<Tool>::empty(),
    {
        let r = ToolSet { homebrew: false, rustup: false, mise: false };
        assert(r@ =~= Set::<Tool>::empty());
        r
    }

    /// The set of the tools in `tools`.
    pub fn from_tools(tools: &[Tool]) -> (r: ToolSet)
        ensures
            forall|t: Tool| r@.contains(t) <==> tools@.contains(t),
    {
        let mut r = ToolSet::new();
        let mut i: usize = 0;
        while i < tools.len()
            invariant
                i <= tools.len(),
                forall|t: Tool|
                    r@.contains(t) <==> exists|k: int| 0 <= k < i && #[trigger] tools@[k] == t,
            decreases tools.len() - i,
        {
            r.insert(tools[i]);
            proof {
                assert forall|t: Tool|
                    r@.contains(t) <==> exists|k: int| 0 <= k < i + 1 && #[trigger] tools@[k] == t by {
                    if t == tools@[i as int] {
                        assert(tools@[i as int] == t);
                    }
                }
            }
            i = i + 1;
        }
        r
    }

    pub fn contains(&self, t: &Tool) -> (r: bool)
        ensures
            r == self@.contains(*t),
    {
        match t {
            Tool::Homebrew => self.homebrew,
            Tool::Rustup => self.rustup,
            Tool::Mise => self.mise,
        }
    }

    pub fn insert(&mut self, t: Tool)
        ensures
            final(self)@ == old(self)@.insert(t),
    {
        match t {
            Tool::Homebrew => self.homebrew = true,
            Tool::Rustup => self.rustup = true,
            Tool::Mise => self.mise = true,
        }
        assert(self@ =~= old(self)@.insert(t));
    }

    pub fn remove(&mut self, t: Tool)
        ensures
            final(self)@ == old(self)@.remove(t),
    {
        match t {
            Tool::Homebrew => self.homebrew = false,
            Tool::Rustup => self.rustup = false,
            Tool::Mise => self.mise = false,
        }
        assert(self@ =~= old(self)@.remove(t));
    }

    pub fn is_empty(&self) -> (r: bool)
        ensures
            r == (self@ == Set::<Tool>::empty()),
    {
        let r = !self.homebrew && !self.rustup && !self.mise;
        if !r {
            if self.homebrew {
                assert(self@.contains(Tool::Homebrew));
            } else if self.rustup {
                assert(self@.contains(Tool::Rustup));
            } else {
                assert(self@.contains(Tool::Mise));
            }
        } else {
            assert(self@ =~= Set::<Tool>::empty());
        }
        r
    }

    /// Whether every member of `self` is a member of `other`.
    pub fn is_subset_of(&self, other: &ToolSet) -> (r: bool)
        ensures
            r == self@.subset_of(other@),
    {
        let r = (!self.homebrew || other.homebrew) && (!self.rustup || other.rustup) && (!self.mise
            || other.mise);
        if !r {
            if self.homebrew && !other.homebrew {
                assert(self@.contains(Tool::Homebrew));
            } else if self.rustup && !other.rustup {
                assert(self@.contains(Tool::Rustup));
            } else {
                assert(self@.contains(Tool::Mise));
            }
        }
        r
    }

    /// The number of members.
    pub fn len(&self) -> (r: usize)
        ensures
            self@.finite(),
            r == self@.len(),
    {
        let ghost mut m = Set::<Tool>::empty();
        let mut r: usize = 0;
        if self.homebrew {
            r = r + 1;
            proof {
                m = m.insert(Tool::Homebrew);
            }
        }
        if self.rustup {
            r = r + 1;
            proof {
                m = m.insert(Tool::Rustup);
            }
        }
        if self.mise {
            r = r + 1;
            proof {
                m = m.insert(Tool::Mise);
            }
        }
        assert(self@ =~= m);
        r
    }

    /// The members, in declaration order.
    pub fn to_vec(&self) -> (r: Vec<Tool>)
        ensures
            lists_in_order(r@, self@),
    {
        let mut r: Vec<Tool> = Vec::new();
        if self.homebrew {
            r.push(Tool::Homebrew);
        }
        if self.rustup {
            r.push(Tool::Rustup);
        }
        if self.mise {
            r.push(Tool::Mise);
        }
        assert forall|t: Tool| r@.contains(t) <==> self@.contains(t) by {
            if self.has(t) {
                let k: int = if t == Tool::Homebrew {
                    0
                } else if t == Tool::Rustup {
                    if self.homebrew { 1 } else { 0 }
                } else {
                    (if self.homebrew { 1int } else { 0int }) + (if self.rustup { 1int } else { 0int })
                };
                assert(r@[k] == t);
            }
        }
        r
    }
}

/// Which tools must have completed before each tool may start.
///
/// A tool with no declared dependency may start at once.
#[derive(Debug)]
pub struct DependencyGraph {
    homebrew_deps: ToolSet,
    rustup_deps: ToolSet,
    mise_deps: ToolSet,
}

impl DependencyGraph {
    /// The tools that must complete before `t` may start.
    pub closed spec fn deps(&self, t: Tool) -> Set<Tool> {
        match t {
            Tool::Homebrew => self.homebrew_deps@,
            Tool::Rustup => self.rustup_deps@,
            Tool::Mise => self.mise_deps@,
        }
    }

    /// `rank` puts every dependency strictly below the tools that depend on it.
    pub open spec fn is_ranked_by(&self, rank: spec_fn(Tool) -> nat) -> bool {
        forall|a: Tool, b: Tool| #[trigger] self.deps(b).contains(a) ==> rank(a) < rank(b)
    }

    /// The graph has no cycle: some ranking orders every dependency first.
    pub open spec fn is_acyclic(&self) -> bool {
        exists|rank: spec_fn(Tool) -> nat| #[trigger] self.is_ranked_by(rank)
    }

    /// Every dependency of a member of `ids` is itself a member of `ids`.
    pub open spec fn is_closed_over(&self, ids: Set<Tool>) -> bool {
        forall|t: Tool| #[trigger] ids.contains(t) ==> self.deps(t).subset_of(ids)
    }

    /// A graph without dependencies.
    pub fn new() -> (r: DependencyGraph)
        ensures
            forall|t: Tool| #[trigger] r.deps(t) == Set::<Tool>::empty(),
    {
        DependencyGraph {
            homebrew_deps: ToolSet::new(),
            rustup_deps: ToolSet::new(),
            mise_deps: ToolSet::new(),
        }
    }

    fn deps_of(&self, t: &Tool) -> (r: ToolSet)
        ensures
            r@ == self.deps(*t),
    {
        match t {
            Tool::Homebrew => self.homebrew_deps,
            Tool::Rustup => self.rustup_deps,
            Tool::Mise => self.mise_deps,
        }
    }

    /// Declares that `tool` may start only after `dependency` has completed.
    pub fn add_dependency(&mut self, tool: Tool, dependency: Tool)
        ensures
            final(self).deps(tool) == old(self).deps(tool).insert(dependency),
            forall|t: Tool| t != tool ==> #[trigger] final(self).deps(t) == old(self).deps(t),
    {
        match tool {
            Tool::Homebrew => self.homebrew_deps.insert(dependency),
            Tool::Rustup => self.rustup_deps.insert(dependency),
            Tool::Mise => self.mise_deps.insert(dependency),
        }
    }

    /// The tools of `available_tools` that have no dependency, in declaration order.
    pub fn get_ready_tools(&self, available_tools: &ToolSet) -> (r: Vec<Tool>)
        ensures
            lists_in_order(
                r@,
                available_tools@.filter(|t: Tool| self.deps(t) == Set::<Tool>::empty()),
            ),
    {
        let mut ready = ToolSet::new();
        if available_tools.homebrew && self.homebrew_deps.is_empty() {
            ready.insert(Tool::Homebrew);
        }
        if available_tools.rustup && self.rustup_deps.is_empty() {
            ready.insert(Tool::Rustup);
        }
        if available_tools.mise && self.mise_deps.is_empty() {
            ready.insert(Tool::Mise);
        }
        assert(ready@ =~= available_tools@.filter(|t: Tool| self.deps(t) == Set::<Tool>::empty()));
        ready.to_vec()
    }

    /// The tools that declare `tool` as a dependency, in declaration order.
    pub fn get_dependent_tools(&self, tool: &Tool) -> (r: Vec<Tool>)
        ensures
            lists_in_order(r@, Set::new(|d: Tool| self.deps(d).contains(*tool))),
    {
        let mut dependents = ToolSet::new();
        if self.homebrew_deps.contains(tool) {
            dependents.insert(Tool::Homebrew);
        }
        if self.rustup_deps.contains(tool) {
            dependents.insert(Tool::Rustup);
        }
        if self.mise_deps.contains(tool) {
            dependents.insert(Tool::Mise);
        }
        assert(dependents@ =~= Set::new(|d: Tool| self.deps(d).contains(*tool)));
        dependents.to_vec()
    }

    /// Whether every dependency of `tool` is in `completed_tools`.
    pub fn can_execute(&self, tool: &Tool, completed_tools: &ToolSet) -> (r: bool)
        ensures
            r == self.deps(*tool).subset_of(completed_tools@),
    {
        self.deps_of(tool).is_subset_of(completed_tools)
    }
}

impl Default for DependencyGraph {
    /// The graph that the update run uses: every tool may run at once.
    fn default() -> (r: DependencyGraph)
        ensures
            forall|t: Tool| #[trigger] r.deps(t) == Set::<Tool>::empty(),
    {
        DependencyGraph::new()
    }
}

/// What a task reports when it finishes.
#[derive(Debug)]
pub struct TaskResult {
    pub tool: Tool,
    pub success: bool,
    pub output: String,
}

/// The tools that the results of `s` are about.
pub open spec fn result_tools(s: Seq<TaskResult>) -> Set<Tool> {
    Set::new(|t: Tool| exists|i: int| 0 <= i < s.len() && #[trigger] s[i].tool == t)
}

/// One run of the parallel scheduler: the tools that wait for their
/// dependencies, those that run, those that have completed, and the outcomes
/// recorded so far, in the order in which they were recorded.
pub struct ParallelScheduler {
    dependency_graph: DependencyGraph,
    pending: ToolSet,
    running: ToolSet,
    completed: ToolSet,
    results: Vec<TaskResult>,
}

impl ParallelScheduler {
    pub closed spec fn graph(&self) -> DependencyGraph {
        self.dependency_graph
    }

    pub closed spec fn pending(&self) -> Set<Tool> {
        self.pending@
    }

    pub closed spec fn running(&self) -> Set<Tool> {
        self.running@
    }

    pub closed spec fn completed(&self) -> Set<Tool> {
        self.completed@
    }

    pub closed spec fn outcomes(&self) -> Seq<TaskResult> {
        self.results@
    }

    /// Every tool of the run, whatever its stage.
    pub open spec fn ids(&self) -> Set<Tool> {
        self.pending() + self.running() + self.completed()
    }

    /// Every dependency of `t` has completed.
    pub open spec fn is_ready(&self, t: Tool) -> bool {
        self.graph().deps(t).subset_of(self.completed())
    }

    /// The state of a run is consistent: each tool is in one stage only, the
    /// completed tools are exactly those with a recorded outcome, one each,
    /// and a pending tool with dependencies still waits for one of them.
    pub open spec fn wf(&self) -> bool {
        &&& self.pending().disjoint(self.running())
        &&& self.pending().disjoint(self.completed())
        &&& self.running().disjoint(self.completed())
        &&& forall|i: int, j: int|
            0 <= i < j < self.outcomes().len() ==> #[trigger] self.outcomes()[i].tool
                != #[trigger] self.outcomes()[j].tool
        &&& result_tools(self.outcomes()) == self.completed()
        &&& forall|t: Tool| #[trigger]
            self.pending().contains(t) ==> self.graph().deps(t) == Set::<Tool>::empty()
                || !self.is_ready(t)
    }

    /// No pending tool is ready: each one that could start has been launched.
    pub open spec fn is_settled(&self) -> bool {
        forall|t: Tool| #[trigger] self.pending().contains(t) ==> !self.is_ready(t)
    }

    /// A scheduler with the default graph and no tools. The concurrency
    /// limit is accepted and not applied.
    pub fn new(_max_concurrent: usize) -> (r: ParallelScheduler)
        ensures
            r.wf(),
            forall|t: Tool| #[trigger] r.graph().deps(t) == Set::<Tool>::empty(),
            r.ids() == Set::<Tool>::empty(),
            r.outcomes() == Seq::<TaskResult>::empty(),
    {
        ParallelScheduler::with_graph(DependencyGraph::default())
    }

    /// A scheduler that orders its tools by `dependency_graph`, with no tools yet.
    pub fn with_graph(dependency_graph: DependencyGraph) -> (r: ParallelScheduler)
        ensures
            r.wf(),
            r.graph() == dependency_graph,
            r.ids() == Set::<Tool>::empty(),
            r.outcomes() == Seq::<TaskResult>::empty(),
    {
        let r = ParallelScheduler {
            dependency_graph,
            pending: ToolSet::new(),
            running: ToolSet::new(),
            completed: ToolSet::new(),
            results: Vec::new(),
        };
        assert(r.ids() =~= Set::<Tool>::empty());
        assert(result_tools(r.outcomes()) =~= Set::<Tool>::empty());
        r
    }

    /// Starts a new run over `tools`: all of them pending, nothing recorded.
    pub fn begin(&mut self, tools: &[Tool])
        ensures
            final(self).wf(),
            final(self).graph() == old(self).graph(),
            forall|t: Tool| #[trigger] final(self).pending().contains(t) <==> tools@.contains(t),
            final(self).running() == Set::<Tool>::empty(),
            final(self).completed() == Set::<Tool>::empty(),
            final(self).outcomes() == Seq::<TaskResult>::empty(),
    {
        self.pending = ToolSet::from_tools(tools);
        self.running = ToolSet::new();
        self.completed = ToolSet::new();
        self.results = Vec::new();
        assert(result_tools(self.results@) =~= Set::<Tool>::empty());
        assert forall|t: Tool| #[trigger]
            self.pending().contains(t) implies self.graph().deps(t) == Set::<Tool>::empty()
                || !self.is_ready(t) by {
            if self.is_ready(t) {
                assert(self.graph().deps(t) =~= Set::<Tool>::empty());
            }
        }
    }

    /// Moves `d` from pending to running, and onto `launched`, if it is
    /// pending and every dependency of it has completed.
    fn launch_if_ready(&mut self, d: Tool, launched: &mut Vec<Tool>)
        requires
            forall|t: Tool| #[trigger] old(launched)@.contains(t) ==> !old(self).pending@.contains(t),
            old(launched)@.no_duplicates(),
        ensures
            final(self).dependency_graph == old(self).dependency_graph,
            final(self).completed == old(self).completed,
            final(self).results == old(self).results,
            final(launched)@.no_duplicates(),
            forall|t: Tool| #[trigger] final(launched)@.contains(t) ==> !final(self).pending@.contains(t),
            ({
                let go = old(self).pending@.contains(d) && old(self).dependency_graph.deps(
                    d,
                ).subset_of(old(self).completed@);
                &&& forall|t: Tool|
                    #[trigger] final(self).pending@.contains(t) <==> old(self).pending@.contains(t)
                        && !(go && t == d)
                &&& forall|t: Tool|
                    #[trigger] final(self).running@.contains(t) <==> old(self).running@.contains(t)
                        || (go && t == d)
                &&& forall|t: Tool|
                    #[trigger] final(launched)@.contains(t) <==> old(launched)@.contains(t) || (go
                        && t == d)
            }),
    {
        let ghost before = launched@;
        if self.pending.contains(&d) && self.dependency_graph.can_execute(&d, &self.completed) {
            self.pending.remove(d);
            self.running.insert(d);
            launched.push(d);
            assert(!before.contains(d));
            assert(launched@ == before.push(d));
            assert forall|k: int, m: int|
                0 <= k < m < launched@.len() implies launched@[k] != launched@[m] by {
                if m == before.len() {
                    assert(before[k] == launched@[k]);
                }
            }
            assert forall|t: Tool| #[trigger] launched@.contains(t) <==> before.contains(t) || t == d by {
                if before.contains(t) {
                    let k = choose|k: int| 0 <= k < before.len() && before[k] == t;
                    assert(launched@[k] == t);
                }
                if t == d {
                    assert(launched@[before.len() as int] == d);
                }
                if launched@.contains(t) {
                    let k = choose|k: int| 0 <= k < launched@.len() && launched@[k] == t;
                    if k < before.len() {
                        assert(before[k] == t);
                    }
                }
            }
        }
    }

    /// One pass of the scheduling loop.
    ///
    /// Records the outcomes in `finished`, in their order, and marks their
    /// tools completed; launches each pending dependent of those tools whose
    /// dependencies have all completed; then launches every pending tool that
    /// has no dependency. Returns the launched tools: exactly the pending tools
    /// whose dependencies have all completed, each of which the caller is to
    /// start. A failed outcome completes its tool like a successful one.
    pub fn step(&mut self, finished: Vec<TaskResult>) -> (launched: Vec<Tool>)
        requires
            old(self).wf(),
            forall|i: int|
                0 <= i < finished.len() ==> old(self).running().contains(#[trigger] finished@[i].tool),
            forall|i: int, j: int|
                0 <= i < j < finished.len() ==> #[trigger] finished@[i].tool
                    != #[trigger] finished@[j].tool,
        ensures
            final(self).wf(),
            final(self).is_settled(),
            final(self).graph() == old(self).graph(),
            final(self).ids() == old(self).ids(),
            final(self).outcomes() == old(self).outcomes() + finished@,
            final(self).completed() == old(self).completed() + result_tools(finished@),
            launched@.no_duplicates(),
            forall|t: Tool|
                #[trigger] launched@.contains(t) <==> old(self).pending().contains(t)
                    && final(self).is_ready(t),
            forall|t: Tool, a: Tool|
                #[trigger] launched@.contains(t) && #[trigger] final(self).graph().deps(t).contains(a)
                    ==> result_tools(final(self).outcomes()).contains(a),
            final(self).pending() == old(self).pending().filter(|t: Tool| !launched@.contains(t)),
            final(self).running() == (old(self).running() - result_tools(finished@)).union(
                launched@.to_set(),
            ),
    {
        let ghost g = self.dependency_graph;
        let ghost fin = finished@;
        let ghost old_pending = self.pending@;
        let ghost old_running = self.running@;
        let ghost old_completed = self.completed@;
        let ghost old_results = self.results@;
        let ghost empty = Set::<Tool>::empty();
        let mut finished = finished;
        let base = self.results.len();
        self.results.append(&mut finished);
        let mut launched: Vec<Tool> = Vec::new();
        let mut i: usize = base;
        while i < self.results.len()
            invariant
                base <= i <= self.results.len(),
                base == old_results.len(),
                self.results@ == old_results + fin,
                self.dependency_graph == g,
                forall|k: int| 0 <= k < fin.len() ==> old_running.contains(#[trigger] fin[k].tool),
                forall|k: int, m: int|
                    0 <= k < m < fin.len() ==> #[trigger] fin[k].tool != #[trigger] fin[m].tool,
                old_pending.disjoint(old_running),
                old_pending.disjoint(old_completed),
                old_running.disjoint(old_completed),
                forall|t: Tool|
                    #[trigger] self.completed@.contains(t) <==> old_completed.contains(t) || exists|
                        k: int,
                    | 0 <= k < i - base && #[trigger] fin[k].tool == t,
                forall|t: Tool|
                    #[trigger] self.pending@.contains(t) <==> old_pending.contains(t)
                        && !launched@.contains(t),
                forall|t: Tool|
                    #[trigger] self.running@.contains(t) <==> (old_running.contains(t) && !exists|
                        k: int,
                    | 0 <= k < i - base && #[trigger] fin[k].tool == t) || launched@.contains(t),
                forall|t: Tool|
                    #[trigger] launched@.contains(t) ==> old_pending.contains(t) && g.deps(t).subset_of(
                        self.completed@,
                    ),
                launched@.no_duplicates(),
                forall|t: Tool| #[trigger]
                    self.pending@.contains(t) ==> g.deps(t) == empty || !g.deps(t).subset_of(
                        self.completed@,
                    ),
            decreases self.results.len() - i,
        {
            let tool = self.results[i].tool;
            assert(fin[i - base].tool == tool);
            let ghost prev_completed = self.completed@;
            let ghost prev_running = self.running@;
            self.running.remove(tool);
            self.completed.insert(tool);
            let dependents = self.dependency_graph.get_dependent_tools(&tool);
            proof {
                assert forall|t: Tool| #[trigger] self.pending@.contains(t) implies g.deps(t) == empty
                    || !g.deps(t).subset_of(self.completed@) || exists|m: int|
                    0 <= m < dependents.len() && #[trigger] dependents@[m] == t by {
                    if g.deps(t).subset_of(self.completed@) && g.deps(t) != empty {
                        if !g.deps(t).contains(tool) {
                            assert(g.deps(t).subset_of(prev_completed));
                        }
                        assert(Set::new(|d: Tool| g.deps(d).contains(tool)).contains(t));
                        assert(dependents@.contains(t));
                    }
                }
                assert forall|t: Tool|
                    #[trigger] self.completed@.contains(t) <==> old_completed.contains(t) || exists|
                        k: int,
                    | 0 <= k < i + 1 - base && #[trigger] fin[k].tool == t by {
                    if t == tool {
                        assert(fin[i - base].tool == t);
                    }
                    if exists|k: int| 0 <= k < i + 1 - base && #[trigger] fin[k].tool == t {
                        let k = choose|k: int| 0 <= k < i + 1 - base && #[trigger] fin[k].tool == t;
                        if k < i - base {
                            assert(prev_completed.contains(t));
                        }
                    }
                }
                assert forall|t: Tool|
                    #[trigger] self.running@.contains(t) <==> (old_running.contains(t) && !exists|
                        k: int,
                    | 0 <= k < i + 1 - base && #[trigger] fin[k].tool == t) || launched@.contains(t) by {
                    if t == tool {
                        assert(fin[i - base].tool == t);
                        assert(old_running.contains(t));
                    }
                    if exists|k: int| 0 <= k < i + 1 - base && #[trigger] fin[k].tool == t {
                        let k = choose|k: int| 0 <= k < i + 1 - base && #[trigger] fin[k].tool == t;
                        if k < i - base {
                            assert(!prev_running.contains(t) || launched@.contains(t));
                        }
                    }
                }
            }
            let mut j: usize = 0;
            while j < dependents.len()
                invariant
                    j <= dependents.len(),
                    base <= i < self.results.len(),
                    base == old_results.len(),
                    self.results@ == old_results + fin,
                    self.dependency_graph == g,
                    forall|t: Tool|
                        #[trigger] self.completed@.contains(t) <==> old_completed.contains(t) || exists|
                            k: int,
                        | 0 <= k < i + 1 - base && #[trigger] fin[k].tool == t,
                    forall|t: Tool|
                        #[trigger] self.pending@.contains(t) <==> old_pending.contains(t)
                            && !launched@.contains(t),
                    forall|t: Tool|
                        #[trigger] self.running@.contains(t) <==> (old_running.contains(t) && !exists|
                            k: int,
                        | 0 <= k < i + 1 - base && #[trigger] fin[k].tool == t) || launched@.contains(t),
                    forall|t: Tool|
                        #[trigger] launched@.contains(t) ==> old_pending.contains(t) && g.deps(
                            t,
                        ).subset_of(self.completed@),
                    launched@.no_duplicates(),
                    forall|t: Tool| #[trigger]
                        self.pending@.contains(t) ==> g.deps(t) == empty || !g.deps(t).subset_of(
                            self.completed@,
                        ) || exists|m: int| j <= m < dependents.len() && #[trigger] dependents@[m] == t,
                decreases dependents.len() - j,
            {
                let d = dependents[j];
                self.launch_if_ready(d, &mut launched);
                proof {
                    assert forall|t: Tool| #[trigger] self.pending@.contains(t) implies g.deps(t)
                        == empty || !g.deps(t).subset_of(self.completed@) || exists|m: int|
                        j + 1 <= m < dependents.len() && #[trigger] dependents@[m] == t by {
                        if g.deps(t) != empty && g.deps(t).subset_of(self.completed@) {
                            let m = choose|m: int|
                                j <= m < dependents.len() && #[trigger] dependents@[m] == t;
                            assert(m != j);
                        }
                    }
                }
                j = j + 1;
            }
            i = i + 1;
        }
        let ghost mid_pending = self.pending@;
        let ready = self.dependency_graph.get_ready_tools(&self.pending);
        proof {
            assert forall|t: Tool| #[trigger] self.pending@.contains(t) implies !g.deps(t).subset_of(
                self.completed@,
            ) || exists|m: int| 0 <= m < ready.len() && #[trigger] ready@[m] == t by {
                if g.deps(t).subset_of(self.completed@) {
                    assert(g.deps(t) == empty);
                    assert(mid_pending.filter(|t: Tool| g.deps(t) == empty).contains(t));
                    assert(ready@.contains(t));
                }
            }
        }
        let mut j: usize = 0;
        while j < ready.len()
            invariant
                j <= ready.len(),
                self.results@ == old_results + fin,
                self.dependency_graph == g,
                forall|t: Tool|
                    #[trigger] self.completed@.contains(t) <==> old_completed.contains(t) || exists|
                        k: int,
                    | 0 <= k < fin.len() && #[trigger] fin[k].tool == t,
                forall|t: Tool|
                    #[trigger] self.pending@.contains(t) <==> old_pending.contains(t)
                        && !launched@.contains(t),
                forall|t: Tool|
                    #[trigger] self.running@.contains(t) <==> (old_running.contains(t) && !exists|
                        k: int,
                    | 0 <= k < fin.len() && #[trigger] fin[k].tool == t) || launched@.contains(t),
                forall|t: Tool|
                    #[trigger] launched@.contains(t) ==> old_pending.contains(t) && g.deps(t).subset_of(
                        self.completed@,
                    ),
                launched@.no_duplicates(),
                forall|t: Tool| #[trigger]
                    self.pending@.contains(t) ==> !g.deps(t).subset_of(self.completed@) || exists|
                        m: int,
                    | j <= m < ready.len() && #[trigger] ready@[m] == t,
            decreases ready.len() - j,
        {
            let d = ready[j];
            self.launch_if_ready(d, &mut launched);
            proof {
                assert forall|t: Tool| #[trigger] self.pending@.contains(t) implies !g.deps(t).subset_of(
                    self.completed@,
                ) || exists|m: int| j + 1 <= m < ready.len() && #[trigger] ready@[m] == t by {
                    if g.deps(t).subset_of(self.completed@) {
                        let m = choose|m: int| j <= m < ready.len() && #[trigger] ready@[m] == t;
                        assert(m != j);
                    }
                }
            }
            j = j + 1;
        }
        proof {
            assert(self.results@ == old(self).results@ + fin);
            assert forall|t: Tool| #[trigger]
                result_tools(fin).contains(t) <==> exists|k: int|
                    0 <= k < fin.len() && #[trigger] fin[k].tool == t by {}
            assert(self.completed@ =~= old_completed + result_tools(fin));
            assert(self.pending@ =~= old_pending.filter(|t: Tool| !launched@.contains(t)));
            assert(self.running@ =~= (old_running - result_tools(fin)).union(launched@.to_set()));
            assert(self.ids() =~= old(self).ids());
            let rs = self.results@;
            assert forall|x: int, y: int|
                0 <= x < y < rs.len() implies #[trigger] rs[x].tool != #[trigger] rs[y].tool by {
                if y >= base && x < base {
                    assert(old_completed.contains(rs[x].tool)) by {
                        assert(result_tools(old_results).contains(rs[x].tool));
                    }
                    assert(fin[y - base] == rs[y]);
                }
                if x >= base {
                    assert(fin[x - base] == rs[x]);
                    assert(fin[y - base] == rs[y]);
                }
            }
            assert forall|t: Tool| #[trigger]
                result_tools(rs).contains(t) <==> self.completed@.contains(t) by {
                if result_tools(rs).contains(t) {
                    let k = choose|k: int| 0 <= k < rs.len() && #[trigger] rs[k].tool == t;
                    if k < base {
                        assert(old_results[k] == rs[k]);
                        assert(result_tools(old_results).contains(t));
                    } else {
                        assert(fin[k - base] == rs[k]);
                    }
                }
                if old_completed.contains(t) {
                    assert(result_tools(old_results).contains(t));
                    let k = choose|k: int| 0 <= k < old_results.len() && #[trigger] old_results[k].tool == t;
                    assert(rs[k] == old_results[k]);
                }
                if exists|k: int| 0 <= k < fin.len() && #[trigger] fin[k].tool == t {
                    let k = choose|k: int| 0 <= k < fin.len() && #[trigger] fin[k].tool == t;
                    assert(rs[base + k] == fin[k]);
                }
            }
            assert(result_tools(rs) =~= self.completed@);
            assert forall|t: Tool|
                #[trigger] launched@.contains(t) <==> old_pending.contains(t) && g.deps(t).subset_of(
                    self.completed@,
                ) by {
                if old_pending.contains(t) && !launched@.contains(t) {
                    assert(self.pending@.contains(t));
                }
            }
        }
        launched
    }

    /// Whether nothing is pending or running.
    pub fn is_done(&self) -> (r: bool)
        ensures
            r == (self.pending() == Set::<Tool>::empty() && self.running()
                == Set::<Tool>::empty()),
    {
        self.pending.is_empty() && self.running.is_empty()
    }

    /// The outcomes recorded so far, in the order in which they were recorded.
    pub fn results(&self) -> (r: &Vec<TaskResult>)
        ensures
            r@ == self.outcomes(),
    {
        &self.results
    }

    /// Ends the run and hands over its outcomes.
    pub fn into_results(self) -> (r: Vec<TaskResult>)
        ensures
            r@ == self.outcomes(),
    {
        self.results
    }
}

/// In a stalled run no tool is pending: following the dependencies down from a
/// pending tool would, under a ranking, go strictly lower at each step forever.
proof fn lemma_not_pending_when_stalled(s: &ParallelScheduler, rank: spec_fn(Tool) -> nat, t: Tool)
    requires
        s.wf(),
        s.is_settled(),
        s.graph().is_ranked_by(rank),
        s.graph().is_closed_over(s.ids()),
        s.running() == Set::<Tool>::empty(),
    ensures
        !s.pending().contains(t),
    decreases rank(t),
{
    if s.pending().contains(t) {
        let d = choose|d: Tool| s.graph().deps(t).contains(d) && !s.completed().contains(d);
        assert(s.ids().contains(t));
        assert(s.ids().contains(d));
        assert(!s.running().contains(d));
        lemma_not_pending_when_stalled(s, rank, d);
    }
}

/// Completeness: in a run over an acyclic graph whose dependencies all belong
/// to the run, once a pass has launched what it could and nothing is running,
/// nothing is left pending either, and the run holds exactly one outcome for
/// each of its tools.
pub proof fn lemma_completeness(s: &ParallelScheduler)
    requires
        s.wf(),
        s.is_settled(),
        s.graph().is_acyclic(),
        s.graph().is_closed_over(s.ids()),
        s.running() == Set::<Tool>::empty(),
    ensures
        s.pending() == Set::<Tool>::empty(),
        result_tools(s.outcomes()) == s.ids(),
        forall|i: int, j: int|
            0 <= i < j < s.outcomes().len() ==> #[trigger] s.outcomes()[i].tool
                != #[trigger] s.outcomes()[j].tool,
{
    let rank = choose|rank: spec_fn(Tool) -> nat| #[trigger] s.graph().is_ranked_by(rank);
    assert forall|t: Tool| !s.pending().contains(t) by {
        lemma_not_pending_when_stalled(s, rank, t);
    }
    assert(s.pending() =~= Set::<Tool>::empty());
    assert(s.ids() =~= s.completed());
}

/// Independence: two finished runs over the same tools, in which each tool's
/// outcome is the one its task produces, hold the same outcomes, in whatever
/// order the tasks happened to finish.
pub proof fn lemma_outcomes_independent_of_order(
    a: &ParallelScheduler,
    b: &ParallelScheduler,
    outcome: spec_fn(Tool) -> TaskResult,
)
    requires
        a.wf(),
        b.wf(),
        a.ids() == b.ids(),
        a.pending() == Set::<Tool>::empty() && a.running() == Set::<Tool>::empty(),
        b.pending() == Set::<Tool>::empty() && b.running() == Set::<Tool>::empty(),
        forall|i: int| 0 <= i < a.outcomes().len() ==> #[trigger] a.outcomes()[i] == outcome(a.outcomes()[i].tool),
        forall|i: int| 0 <= i < b.outcomes().len() ==> #[trigger] b.outcomes()[i] == outcome(b.outcomes()[i].tool),
    ensures
        a.outcomes().to_set() == b.outcomes().to_set(),
{
    assert(a.ids() =~= a.completed());
    assert(b.ids() =~= b.completed());
    assert forall|x: TaskResult| a.outcomes().to_set().contains(x) implies b.outcomes().to_set().contains(x) by {
        let i = choose|i: int| 0 <= i < a.outcomes().len() && a.outcomes()[i] == x;
        assert(result_tools(a.outcomes()).contains(x.tool));
        assert(result_tools(b.outcomes()).contains(x.tool));
        let j = choose|j: int| 0 <= j < b.outcomes().len() && #[trigger] b.outcomes()[j].tool == x.tool;
        assert(b.outcomes()[j] == x);
    }
    assert forall|x: TaskResult| b.outcomes().to_set().contains(x) implies a.outcomes().to_set().contains(x) by {
        let i = choose|i: int| 0 <= i < b.outcomes().len() && b.outcomes()[i] == x;
        assert(result_tools(b.outcomes()).contains(x.tool));
        assert(result_tools(a.outcomes()).contains(x.tool));
        let j = choose|j: int| 0 <= j < a.outcomes().len() && #[trigger] a.outcomes()[j].tool == x.tool;
        assert(a.outcomes()[j] == x);
    }
    assert(a.outcomes().to_set() =~= b.outcomes().to_set());
}

} // verus!
