use devtool::parallel::{DependencyGraph, ParallelScheduler, TaskResult, Tool, ToolSet};

fn outcome(tool: Tool, success: bool) -> TaskResult {
    TaskResult {
        tool,
        success,
        output: format!("{} done", tool.display_name()),
    }
}

#[test]
fn test_dependency_graph() {
    let graph = DependencyGraph::new();
    let homebrew = Tool::Homebrew;
    let rustup = Tool::Rustup;
    let mise = Tool::Mise;

    let available_tools = ToolSet::from_tools(&[homebrew.clone(), rustup.clone(), mise.clone()]);

    let ready_tools = graph.get_ready_tools(&available_tools);
    assert_eq!(ready_tools.len(), 3);
}

#[test]
fn test_tool_display_names() {
    assert_eq!(Tool::Homebrew.display_name(), "Homebrew");
    assert_eq!(Tool::Rustup.display_name(), "Rustup");
    assert_eq!(Tool::Mise.display_name(), "Mise");
}

#[test]
fn graph_queries_follow_declared_dependencies() {
    let mut graph = DependencyGraph::new();
    graph.add_dependency(Tool::Rustup, Tool::Homebrew);
    graph.add_dependency(Tool::Mise, Tool::Homebrew);
    let all = ToolSet::from_tools(&[Tool::Mise, Tool::Rustup, Tool::Homebrew]);
    assert_eq!(graph.get_ready_tools(&all), vec![Tool::Homebrew]);
    assert_eq!(
        graph.get_dependent_tools(&Tool::Homebrew),
        vec![Tool::Rustup, Tool::Mise]
    );
    assert!(graph.get_dependent_tools(&Tool::Mise).is_empty());
    assert!(!graph.can_execute(&Tool::Rustup, &ToolSet::new()));
    assert!(graph.can_execute(&Tool::Rustup, &ToolSet::from_tools(&[Tool::Homebrew])));
    assert!(graph.can_execute(&Tool::Homebrew, &ToolSet::new()));
}

#[test]
fn tool_set_operations() {
    let mut s = ToolSet::from_tools(&[Tool::Mise, Tool::Mise, Tool::Homebrew]);
    assert_eq!(s.len(), 2);
    assert_eq!(s.to_vec(), vec![Tool::Homebrew, Tool::Mise]);
    s.remove(Tool::Mise);
    assert!(!s.contains(&Tool::Mise));
    s.insert(Tool::Rustup);
    assert!(s.is_subset_of(&ToolSet::from_tools(&[Tool::Homebrew, Tool::Rustup])));
    assert!(!s.is_empty());
    assert!(ToolSet::new().is_empty());
}

#[test]
fn independent_tools_all_succeed() {
    let mut scheduler = ParallelScheduler::new(4);
    scheduler.begin(&[Tool::Homebrew, Tool::Rustup, Tool::Mise]);
    let launched = scheduler.step(Vec::new());
    assert_eq!(launched, vec![Tool::Homebrew, Tool::Rustup, Tool::Mise]);
    assert!(!scheduler.is_done());
    let finished: Vec<TaskResult> = launched.iter().map(|t| outcome(*t, true)).collect();
    assert!(scheduler.step(finished).is_empty());
    assert!(scheduler.is_done());
    let results = scheduler.into_results();
    assert_eq!(results.len(), 3);
    assert!(results.iter().all(|r| r.success));
}

#[test]
fn dependent_waits_for_its_dependency() {
    let mut graph = DependencyGraph::new();
    graph.add_dependency(Tool::Rustup, Tool::Homebrew);
    let mut scheduler = ParallelScheduler::with_graph(graph);
    scheduler.begin(&[Tool::Homebrew, Tool::Rustup]);
    assert_eq!(scheduler.step(Vec::new()), vec![Tool::Homebrew]);
    // the dependency is still running: nothing more may start
    assert!(scheduler.step(Vec::new()).is_empty());
    assert!(scheduler.step(Vec::new()).is_empty());
    let launched = scheduler.step(vec![outcome(Tool::Homebrew, true)]);
    assert_eq!(launched, vec![Tool::Rustup]);
    assert_eq!(scheduler.results().len(), 1);
    assert_eq!(scheduler.results()[0].tool, Tool::Homebrew);
    assert!(scheduler.step(vec![outcome(Tool::Rustup, true)]).is_empty());
    assert!(scheduler.is_done());
}

#[test]
fn failed_dependency_still_unlocks_dependent() {
    let mut graph = DependencyGraph::new();
    graph.add_dependency(Tool::Rustup, Tool::Homebrew);
    let mut scheduler = ParallelScheduler::with_graph(graph);
    scheduler.begin(&[Tool::Rustup, Tool::Homebrew]);
    assert_eq!(scheduler.step(Vec::new()), vec![Tool::Homebrew]);
    let launched = scheduler.step(vec![outcome(Tool::Homebrew, false)]);
    assert_eq!(launched, vec![Tool::Rustup]);
    scheduler.step(vec![outcome(Tool::Rustup, true)]);
    assert!(scheduler.is_done());
    let results = scheduler.into_results();
    assert_eq!(results.len(), 2);
    assert_eq!(results[0].tool, Tool::Homebrew);
    assert!(!results[0].success);
    assert_eq!(results[1].tool, Tool::Rustup);
    assert!(results[1].success);
}

#[test]
fn completion_order_does_not_change_outcomes() {
    let run = |first: Tool, second: Tool| {
        let mut scheduler = ParallelScheduler::new(2);
        scheduler.begin(&[Tool::Homebrew, Tool::Mise]);
        scheduler.step(Vec::new());
        scheduler.step(vec![outcome(first, first == Tool::Homebrew)]);
        scheduler.step(vec![outcome(second, second == Tool::Homebrew)]);
        assert!(scheduler.is_done());
        let mut got: Vec<(Tool, bool, String)> = scheduler
            .into_results()
            .into_iter()
            .map(|r| (r.tool, r.success, r.output))
            .collect();
        got.sort_by_key(|(t, _, _)| t.display_name());
        got
    };
    assert_eq!(
        run(Tool::Homebrew, Tool::Mise),
        run(Tool::Mise, Tool::Homebrew)
    );
}

#[test]
fn every_tool_gets_exactly_one_outcome_in_a_chain() {
    let mut graph = DependencyGraph::new();
    graph.add_dependency(Tool::Mise, Tool::Rustup);
    graph.add_dependency(Tool::Rustup, Tool::Homebrew);
    let mut scheduler = ParallelScheduler::with_graph(graph);
    scheduler.begin(&[Tool::Mise, Tool::Rustup, Tool::Homebrew]);
    let mut launched = scheduler.step(Vec::new());
    let mut order = Vec::new();
    while !scheduler.is_done() {
        let finished: Vec<TaskResult> = launched.iter().map(|t| outcome(*t, true)).collect();
        order.extend(launched.iter().copied());
        launched = scheduler.step(finished);
    }
    assert_eq!(order, vec![Tool::Homebrew, Tool::Rustup, Tool::Mise]);
    let results = scheduler.into_results();
    assert_eq!(results.len(), 3);
}
