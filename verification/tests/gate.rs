use codex_goals::gate::{GoalReviewGateOutcome, GoalReviewGateRequest, GoalReviewGateState};
use codex_goals::goal::{ThreadGoal, ThreadGoalStatus, ThreadId};
use codex_goals::review_completion::record_goal_review_gate_output;
use codex_goals::time::UtcTime;

fn goal(goal_id: &str) -> ThreadGoal {
    let moment = UtcTime::new(2026, 5, 24, 15, 30, 12, 0).unwrap();
    ThreadGoal {
        thread_id: ThreadId::from_text("thread").unwrap(),
        goal_id: goal_id.to_string(),
        objective: "finish the stack".to_string(),
        status: ThreadGoalStatus::Active,
        token_budget: None,
        tokens_used: 0,
        time_used_seconds: 0,
        created_at: moment,
        updated_at: moment,
    }
}

fn request(goal_id: &str, diff: Option<&str>) -> GoalReviewGateRequest {
    GoalReviewGateRequest {
        goal_id: goal_id.to_string(),
        objective: "finish the stack".to_string(),
        modified_diff: diff.map(|text| text.to_string()),
    }
}

#[test]
fn an_untouched_goal_needs_no_review() {
    let mut gate = GoalReviewGateState::default();
    assert!(!gate.request_review(&goal("a"), None));
    assert_eq!(gate, GoalReviewGateState::default());
}

#[test]
fn a_diff_asks_for_a_review() {
    let mut gate = GoalReviewGateState::default();
    assert!(gate.request_review(&goal("a"), Some("+x".to_string())));
    assert_eq!(gate.pending(), Some(request("a", Some("+x"))));
    assert_eq!(gate.completed(), None);
    assert_eq!(record_goal_review_gate_output(&gate), Some("a".to_string()));
}

#[test]
fn modifying_tools_ask_for_a_review() {
    for tool in ["apply_patch", "shell_command", "exec_command", "write_stdin"] {
        let mut gate = GoalReviewGateState::default();
        gate.invalidate_goal_review_gate_after_tool_completion(tool);
        assert!(gate.request_review(&goal("a"), None));
        assert_eq!(gate.pending(), Some(request("a", None)));
    }
    for tool in ["view_image", "apply_patch ", "", "shell"] {
        let mut gate = GoalReviewGateState::default();
        gate.invalidate_goal_review_gate_after_tool_completion(tool);
        assert!(!gate.request_review(&goal("a"), None));
    }
}

#[test]
fn a_passed_review_is_enough_until_something_is_modified() {
    let mut gate = GoalReviewGateState::default();
    gate.request_review(&goal("a"), Some("+x".to_string()));
    gate.complete_review(&request("a", None), true, true, Some("fine".to_string()));
    assert_eq!(gate.pending(), None);
    assert_eq!(
        gate.completed(),
        Some(GoalReviewGateOutcome {
            goal_id: "a".to_string(),
            passed: true,
            review_output: "fine".to_string(),
        })
    );
    assert!(!gate.request_review(&goal("a"), None));
    gate.invalidate_goal_review_gate_after_tool_completion("exec_command");
    assert_eq!(gate.completed(), None);
    assert!(gate.request_review(&goal("a"), None));
}

#[test]
fn a_failed_review_leaves_a_review_due() {
    let mut gate = GoalReviewGateState::default();
    gate.request_review(&goal("a"), Some("+x".to_string()));
    gate.complete_review(&request("a", None), false, true, None);
    assert_eq!(
        gate.completed(),
        Some(GoalReviewGateOutcome {
            goal_id: "a".to_string(),
            passed: false,
            review_output: "Goal review did not complete successfully.".to_string(),
        })
    );
    assert!(gate.request_review(&goal("a"), None));
    assert_eq!(gate.completed(), None);
}

#[test]
fn a_review_of_an_inactive_goal_is_dropped() {
    let mut gate = GoalReviewGateState::default();
    gate.request_review(&goal("a"), Some("+x".to_string()));
    gate.complete_review(&request("a", None), true, false, Some("fine".to_string()));
    assert_eq!(gate.pending(), None);
    assert_eq!(gate.completed(), None);
    assert!(gate.request_review(&goal("a"), None));
}

#[test]
fn a_stale_review_changes_nothing() {
    let mut gate = GoalReviewGateState::default();
    gate.request_review(&goal("b"), Some("+x".to_string()));
    gate.complete_review(&request("a", None), true, true, Some("fine".to_string()));
    assert_eq!(gate.pending(), Some(request("b", Some("+x"))));
    assert_eq!(gate.completed(), None);
    assert!(gate.request_review(&goal("b"), None));
}

#[test]
fn a_review_is_taken_once() {
    let mut gate = GoalReviewGateState::default();
    gate.request_review(&goal("a"), Some("+x".to_string()));
    gate.complete_review(&request("a", None), true, true, Some("fine".to_string()));
    assert!(!gate.take_completed("b"));
    assert!(gate.take_completed("a"));
    assert!(!gate.take_completed("a"));
    assert_eq!(gate.completed(), None);
    assert!(!gate.request_review(&goal("a"), None));
}

#[test]
fn a_reset_forgets_everything() {
    let mut gate = GoalReviewGateState::default();
    gate.request_review(&goal("a"), Some("+x".to_string()));
    gate.reset_goal_review_gate();
    assert_eq!(gate, GoalReviewGateState::default());
    assert_eq!(record_goal_review_gate_output(&gate), None);
}

#[test]
fn a_modification_stays_due_until_a_review_passes() {
    let mut gate = GoalReviewGateState::default();
    gate.invalidate_goal_review_gate_after_tool_completion("apply_patch");
    gate.invalidate_goal_review_gate_after_tool_completion("view_image");
    assert!(gate.request_review(&goal("a"), None));
    gate.complete_review(&request("a", None), false, true, None);
    assert!(gate.take_completed("a"));
    assert!(gate.request_review(&goal("b"), None));
    gate.complete_review(&request("b", None), true, true, None);
    assert!(!gate.request_review(&goal("b"), None));
    assert!(!gate.request_review(&goal("a"), None));
}
