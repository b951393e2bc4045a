use nextshell::workflow::{get_version, WorkflowAction, WorkflowConfig, WorkflowStatus, WorkflowStep};

fn action(cmd: &str) -> WorkflowAction {
    WorkflowAction::new(cmd)
}

fn step(id: &str, deps: &[&str]) -> WorkflowStep {
    WorkflowStep::new(id, "name")
        .with_actions(vec![action("echo")])
        .with_dependencies(deps.iter().map(|d| d.to_string()).collect())
}

fn config(steps: Vec<WorkflowStep>) -> WorkflowConfig {
    WorkflowConfig::new("1.0", "me", "does things").with_steps(steps)
}

#[test]
fn builders_set_fields() {
    let a = action("ls")
        .with_args(vec!["-l".to_string()])
        .with_env(vec![("K".to_string(), "V".to_string())]);
    assert_eq!(a.command, "ls");
    assert_eq!(a.args, vec!["-l".to_string()]);
    assert_eq!(a.env.len(), 1);

    let s = WorkflowStep::new("s", "Step").with_description("d").with_required(false);
    assert_eq!(s.id, "s");
    assert_eq!(s.description, "d");
    assert!(!s.required);
    assert!(WorkflowStep::new("s", "Step").required);

    let c = WorkflowConfig::new("1", "a", "b").with_tags(vec!["t".to_string()]).with_enabled(false);
    assert!(!c.enabled);
    assert_eq!(c.tags, vec!["t".to_string()]);
    assert!(WorkflowConfig::new("1", "a", "b").enabled);
    assert_eq!(WorkflowStatus::default(), WorkflowStatus::Ready);
    assert_eq!(get_version(), "0.1.0");
}

#[test]
fn action_validation() {
    assert_eq!(action("ls").validate(), Ok(()));
    assert_eq!(action("").validate(), Err("Action command cannot be empty".to_string()));
}

#[test]
fn step_validation_messages() {
    assert_eq!(
        WorkflowStep::new("", "n").validate(),
        Err("Step ID cannot be empty".to_string())
    );
    assert_eq!(
        WorkflowStep::new("a", "").validate(),
        Err("Step name cannot be empty".to_string())
    );
    assert_eq!(
        WorkflowStep::new("a", "n").validate(),
        Err("Step 'a' must have at least one action".to_string())
    );
    let s = WorkflowStep::new("a", "n").with_actions(vec![action("x"), action(""), action("")]);
    assert_eq!(
        s.validate(),
        Err("Invalid action 2 in step 'a': Action command cannot be empty".to_string())
    );
    let mut acts = Vec::new();
    for _ in 0..11 {
        acts.push(action("x"));
    }
    acts.push(action(""));
    let s = WorkflowStep::new("a", "n").with_actions(acts);
    assert_eq!(
        s.validate(),
        Err("Invalid action 12 in step 'a': Action command cannot be empty".to_string())
    );
    assert_eq!(step("a", &[]).validate(), Ok(()));
}

#[test]
fn config_validation_messages() {
    assert_eq!(
        WorkflowConfig::new("", "a", "d").validate(),
        Err("Workflow version cannot be empty".to_string())
    );
    assert_eq!(
        WorkflowConfig::new("1", "", "d").validate(),
        Err("Workflow author cannot be empty".to_string())
    );
    assert_eq!(
        WorkflowConfig::new("1", "a", "").validate(),
        Err("Workflow description cannot be empty".to_string())
    );
    assert_eq!(
        WorkflowConfig::new("1", "a", "d").validate(),
        Err("Workflow must have at least one step".to_string())
    );
    assert_eq!(
        config(vec![step("a", &[]), WorkflowStep::new("b", "")]).validate(),
        Err("Invalid step: Step name cannot be empty".to_string())
    );
    assert_eq!(
        config(vec![step("a", &["a0"]), step("b", &["zz"])]).validate(),
        Err("Step 'a' depends on non-existent step 'a0'".to_string())
    );
    assert_eq!(config(vec![step("a", &[]), step("b", &["a"])]).validate(), Ok(()));
}

#[test]
fn cycles_are_detected() {
    assert_eq!(
        config(vec![step("a", &["b"]), step("b", &["a"])]).validate(),
        Err("Circular dependency detected involving step 'a'".to_string())
    );
    assert_eq!(
        config(vec![step("a", &["a"])]).validate(),
        Err("Circular dependency detected involving step 'a'".to_string())
    );
    assert_eq!(
        config(vec![step("x", &[]), step("y", &["z"]), step("z", &["y"])]).validate(),
        Err("Circular dependency detected involving step 'y'".to_string())
    );
    assert_eq!(
        config(vec![step("w", &["y"]), step("y", &["z"]), step("z", &["y"])]).validate(),
        Err("Circular dependency detected involving step 'w'".to_string())
    );
    assert_eq!(
        config(vec![step("a", &["b", "c"]), step("b", &["c"]), step("c", &[])]).validate(),
        Ok(())
    );
}
