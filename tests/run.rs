use nextshell::run::{advance, current_action, final_status, is_finished, start, ActionResult};
use nextshell::workflow::{WorkflowAction, WorkflowConfig, WorkflowStatus, WorkflowStep};

fn config() -> WorkflowConfig {
    WorkflowConfig::new("1", "me", "d").with_steps(vec![
        WorkflowStep::new("empty", "E"),
        WorkflowStep::new("opt", "O")
            .with_required(false)
            .with_actions(vec![WorkflowAction::new("a1"), WorkflowAction::new("a2")]),
        WorkflowStep::new("req", "R").with_actions(vec![WorkflowAction::new("b1"), WorkflowAction::new("b2")]),
    ])
}

#[test]
fn runs_every_action_in_order() {
    let c = config();
    let mut s = start(&c);
    let mut seen = Vec::new();
    while !is_finished(&c, &s) {
        seen.push(current_action(&c, &s).command.clone());
        s = advance(&c, s, ActionResult::Exited(0));
    }
    assert_eq!(seen, vec!["a1", "a2", "b1", "b2"]);
    assert_eq!(final_status(&s), WorkflowStatus::Completed);
}

#[test]
fn optional_step_failure_goes_on() {
    let c = config();
    let mut s = start(&c);
    s = advance(&c, s, ActionResult::NotStarted);
    assert_eq!(current_action(&c, &s).command, "a2");
    s = advance(&c, s, ActionResult::Exited(3));
    assert_eq!(current_action(&c, &s).command, "b1");
    s = advance(&c, s, ActionResult::Exited(1));
    assert!(is_finished(&c, &s));
    assert_eq!(final_status(&s), WorkflowStatus::Failed);
}

#[test]
fn no_actions_completes_at_once() {
    let c = WorkflowConfig::new("1", "me", "d").with_steps(vec![WorkflowStep::new("e", "E")]);
    let s = start(&c);
    assert!(is_finished(&c, &s));
    assert_eq!(final_status(&s), WorkflowStatus::Completed);
}
