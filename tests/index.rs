use nextshell::index::{IndexError, WorkflowIndex};
use nextshell::workflow::{WorkflowAction, WorkflowConfig, WorkflowStatus, WorkflowStep};

fn valid(description: &str) -> WorkflowConfig {
    WorkflowConfig::new("1", "me", description)
        .with_steps(vec![WorkflowStep::new("s", "S").with_actions(vec![WorkflowAction::new("true")])])
        .with_tags(vec!["t".to_string()])
}

#[test]
fn add_and_get() {
    let mut index = WorkflowIndex::new();
    assert!(index.add_workflow("build", "/w/build.json", &valid("Build it")).is_ok());
    let w = index.get_workflow("build").unwrap();
    assert_eq!(w.name, "Build it");
    assert_eq!(w.path, "/w/build.json");
    assert_eq!(w.tags, vec!["t".to_string()]);
    assert!(w.status.is_none());
    assert!(index.get_workflow("other").is_none());
    assert_eq!(index.list_workflows().len(), 1);
}

#[test]
fn add_invalid_is_refused() {
    let mut index = WorkflowIndex::new();
    match index.add_workflow("x", "/x.json", &WorkflowConfig::new("1", "me", "d")) {
        Err(IndexError::Validation(m)) => assert_eq!(m, "Workflow must have at least one step"),
        _ => panic!("expected a validation error"),
    }
    assert_eq!(index.list_workflows().len(), 0);
}

#[test]
fn update_status_records_start() {
    let mut index = WorkflowIndex::new();
    index.add_workflow("a", "/a.json", &valid("A")).unwrap();
    index.add_workflow("b", "/b.json", &valid("B")).unwrap();
    index.update_status("a", WorkflowStatus::Running, 1000).unwrap();
    let a = index.get_workflow("a").unwrap();
    assert_eq!(a.status, Some(WorkflowStatus::Running));
    assert_eq!(a.last_executed, Some(1000));
    index.update_status("a", WorkflowStatus::Completed, 2000).unwrap();
    let a = index.get_workflow("a").unwrap();
    assert_eq!(a.status, Some(WorkflowStatus::Completed));
    assert_eq!(a.last_executed, Some(1000));
    assert!(index.get_workflow("b").unwrap().status.is_none());
    match index.update_status("zz", WorkflowStatus::Failed, 5) {
        Err(IndexError::NotFound(m)) => assert_eq!(m, "Workflow with ID 'zz' not found"),
        _ => panic!("expected not found"),
    }
}

#[test]
fn re_adding_replaces_entry() {
    let mut index = WorkflowIndex::new();
    index.add_workflow("a", "/a.json", &valid("A")).unwrap();
    index.update_status("a", WorkflowStatus::Running, 7).unwrap();
    index.add_workflow("a", "/a2.json", &valid("A2")).unwrap();
    let list = index.list_workflows();
    assert_eq!(list.len(), 1);
    assert_eq!(list[0].name, "A2");
    assert_eq!(list[0].path, "/a2.json");
    assert!(list[0].last_executed.is_none());
}
