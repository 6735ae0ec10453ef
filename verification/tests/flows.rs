use codex_goals::gate::{GoalReviewGateOutcome, GoalReviewGateRequest, GoalReviewGateState};
use codex_goals::gate_turn::{GateTurnFacts, GateTurnStep};
use codex_goals::goal::{ThreadGoal, ThreadGoalStatus, ThreadId};
use codex_goals::prompts::goal_review_result_prompt;
use codex_goals::result_turn::{ResultTurnFacts, ResultTurnStep};
use codex_goals::review_completion::{ReviewCompletionFacts, ReviewCompletionStep};
use codex_goals::review_request::{ReviewRequestFacts, ReviewRequestStep};
use codex_goals::session::{AdmissionFacts, GoalFacts, GoalRead, IdleFacts, SessionRead, StateDb};
use codex_goals::time::UtcTime;

fn goal(goal_id: &str) -> ThreadGoal {
    let moment = UtcTime::new(2026, 5, 24, 15, 30, 12, 0).unwrap();
    ThreadGoal {
        thread_id: ThreadId::from_text("thread").unwrap(),
        goal_id: goal_id.to_string(),
        objective: "finish the stack".to_string(),
        status: ThreadGoalStatus::Active,
        token_budget: None,
        tokens_used: 0,
        time_used_seconds: 0,
        created_at: moment,
        updated_at: moment,
    }
}

fn paused(goal_id: &str) -> ThreadGoal {
    ThreadGoal {
        status: ThreadGoalStatus::Inactive("paused".to_string()),
        ..goal(goal_id)
    }
}

fn admitted() -> AdmissionFacts {
    AdmissionFacts { goals_enabled: Some(true), goals_ignored: Some(false) }
}

fn idle() -> IdleFacts {
    IdleFacts {
        active_turn: Some(false),
        queued_items: Some(false),
        mailbox_items: Some(false),
    }
}

fn read(goal: ThreadGoal) -> GoalFacts {
    GoalFacts { state_db: Some(StateDb::Opened), goal: Some(GoalRead::Found(goal)) }
}

/// A gate with a review of the goal pending.
fn pending_gate(goal_id: &str) -> GoalReviewGateState {
    let mut gate = GoalReviewGateState::default();
    assert!(gate.request_review(&goal(goal_id), Some("+x".to_string())));
    gate
}

/// A gate with a review of the goal that waits to be acted on.
fn completed_gate(goal_id: &str, passed: bool) -> GoalReviewGateState {
    let mut gate = pending_gate(goal_id);
    let reviewed = gate.pending().unwrap();
    gate.complete_review(&reviewed, passed, true, Some("result".to_string()));
    gate
}

#[test]
fn a_request_asks_in_order() {
    let mut facts = ReviewRequestFacts::unknown();
    let step = |facts: &ReviewRequestFacts| facts.request_goal_completion_review_gate();
    assert_eq!(step(&facts), ReviewRequestStep::Read(SessionRead::Feature));
    facts.admission.goals_enabled = Some(true);
    assert_eq!(step(&facts), ReviewRequestStep::Read(SessionRead::Mode));
    facts.admission.goals_ignored = Some(false);
    assert_eq!(step(&facts), ReviewRequestStep::Read(SessionRead::StateDb));
    facts.goal.state_db = Some(StateDb::Opened);
    assert_eq!(step(&facts), ReviewRequestStep::Read(SessionRead::Goal));
    facts.goal.goal = Some(GoalRead::Found(goal("a")));
    assert_eq!(step(&facts), ReviewRequestStep::AskGate);

    let mut gate = GoalReviewGateState::default();
    let scheduled = facts.ask_gate(&mut gate, Some("+x".to_string()));
    assert_eq!(scheduled.map(|s| s.goal), Some(goal("a")));
    assert_eq!(gate.pending().map(|r| r.goal_id), Some("a".to_string()));
}

#[test]
fn a_request_is_refused_on_the_way() {
    let with = |admission: AdmissionFacts, goal: GoalFacts| {
        ReviewRequestFacts { admission, goal }.request_goal_completion_review_gate()
    };
    let off = AdmissionFacts { goals_enabled: Some(false), goals_ignored: None };
    let ignored = AdmissionFacts { goals_enabled: Some(true), goals_ignored: Some(true) };
    assert_eq!(with(off, GoalFacts::unknown()), ReviewRequestStep::Stop);
    assert_eq!(with(ignored, GoalFacts::unknown()), ReviewRequestStep::Stop);
    let db = |state_db| GoalFacts { state_db: Some(state_db), goal: None };
    assert_eq!(with(admitted(), db(StateDb::Missing)), ReviewRequestStep::Stop);
    assert_eq!(with(admitted(), db(StateDb::Failed)), ReviewRequestStep::FailStateDb);
    let found = |goal| GoalFacts { state_db: Some(StateDb::Opened), goal: Some(goal) };
    assert_eq!(with(admitted(), found(GoalRead::Missing)), ReviewRequestStep::Stop);
    assert_eq!(with(admitted(), found(GoalRead::Failed)), ReviewRequestStep::FailGoalRead);
    assert_eq!(with(admitted(), read(paused("a"))), ReviewRequestStep::Stop);

    let mut gate = GoalReviewGateState::default();
    let facts = ReviewRequestFacts { admission: admitted(), goal: read(paused("a")) };
    assert!(facts.ask_gate(&mut gate, Some("+x".to_string())).is_none());
    assert_eq!(gate, GoalReviewGateState::default());
    let facts = ReviewRequestFacts { admission: admitted(), goal: read(goal("a")) };
    assert!(facts.ask_gate(&mut gate, None).is_none());
}

#[test]
fn a_completed_review_is_settled_by_the_current_goal() {
    let mut gate = pending_gate("a");
    let mut facts = ReviewCompletionFacts::unknown();
    assert_eq!(facts.mark_goal_review_gate_completed(), ReviewCompletionStep::ReadPending);
    facts.meet_gate(&mut gate, true, None);
    assert_eq!(
        facts.mark_goal_review_gate_completed(),
        ReviewCompletionStep::Read(SessionRead::StateDb)
    );
    facts.goal.state_db = Some(StateDb::Opened);
    assert_eq!(
        facts.mark_goal_review_gate_completed(),
        ReviewCompletionStep::Read(SessionRead::Goal)
    );
    facts.goal.goal = Some(GoalRead::Found(goal("a")));
    match facts.mark_goal_review_gate_completed() {
        ReviewCompletionStep::Settle { reviewed, still_active } => {
            assert_eq!(reviewed.goal_id, "a");
            assert!(still_active);
        }
        step => panic!("unexpected step {step:?}"),
    }
    facts.meet_gate(&mut gate, true, Some("fine".to_string()));
    assert_eq!(
        gate.completed(),
        Some(GoalReviewGateOutcome {
            goal_id: "a".to_string(),
            passed: true,
            review_output: "fine".to_string(),
        })
    );
}

#[test]
fn a_completed_review_of_another_goal_does_not_count() {
    let reads = [
        read(goal("b")),
        read(paused("a")),
        GoalFacts { state_db: Some(StateDb::Opened), goal: Some(GoalRead::Missing) },
        GoalFacts { state_db: Some(StateDb::Opened), goal: Some(GoalRead::Failed) },
        GoalFacts { state_db: Some(StateDb::Missing), goal: None },
        GoalFacts { state_db: Some(StateDb::Failed), goal: None },
    ];
    for goal_facts in reads {
        let mut gate = pending_gate("a");
        let mut facts = ReviewCompletionFacts { pending: None, goal: goal_facts };
        facts.meet_gate(&mut gate, true, None);
        facts.meet_gate(&mut gate, true, None);
        assert_eq!(gate.pending(), None);
        assert_eq!(gate.completed(), None);
        assert!(gate.request_review(&goal("a"), None));
    }
    let facts = ReviewCompletionFacts { pending: Some(None), goal: GoalFacts::unknown() };
    assert_eq!(facts.mark_goal_review_gate_completed(), ReviewCompletionStep::Stop);
}

/// Facts of a session that is ready to act on a review.
fn ready(goal: GoalFacts) -> ResultTurnFacts {
    ResultTurnFacts {
        continuation_lock: Some(true),
        admission: admitted(),
        idle: idle(),
        goal,
        ..ResultTurnFacts::unknown()
    }
}

#[test]
fn a_result_turn_goes_through_all_its_steps() {
    let mut gate = completed_gate("a", false);
    let outcome = gate.completed().unwrap();
    let mut facts = ResultTurnFacts::unknown();
    let step = |facts: &ResultTurnFacts| facts.maybe_start_goal_review_result_turn();
    assert_eq!(step(&facts), ResultTurnStep::AcquireContinuation);
    facts.continuation_lock = Some(true);
    assert_eq!(step(&facts), ResultTurnStep::Read(SessionRead::Feature));
    facts.admission.goals_enabled = Some(true);
    assert_eq!(step(&facts), ResultTurnStep::Read(SessionRead::Mode));
    facts.admission.goals_ignored = Some(false);
    assert_eq!(step(&facts), ResultTurnStep::Read(SessionRead::ActiveTurn));
    facts.idle.active_turn = Some(false);
    assert_eq!(step(&facts), ResultTurnStep::Read(SessionRead::QueuedItems));
    facts.idle.queued_items = Some(false);
    assert_eq!(step(&facts), ResultTurnStep::Read(SessionRead::MailboxItems));
    facts.idle.mailbox_items = Some(false);
    assert_eq!(step(&facts), ResultTurnStep::ReadCompleted);
    facts.meet_gate(&mut gate);
    assert_eq!(step(&facts), ResultTurnStep::Read(SessionRead::StateDb));
    facts.goal.state_db = Some(StateDb::Opened);
    assert_eq!(step(&facts), ResultTurnStep::Read(SessionRead::Goal));
    facts.goal.goal = Some(GoalRead::Found(goal("a")));
    assert_eq!(step(&facts), ResultTurnStep::Reserve);
    facts.reserved = Some(true);
    assert_eq!(step(&facts), ResultTurnStep::Claim { goal_id: "a".to_string() });
    facts.meet_gate(&mut gate);
    assert_eq!(facts.claimed, Some(true));
    assert_eq!(gate.completed(), None);
    assert_eq!(
        step(&facts),
        ResultTurnStep::QueuePrompt { prompt: goal_review_result_prompt(&outcome) }
    );
    facts.prompt_queued = true;
    assert_eq!(step(&facts), ResultTurnStep::OpenTurn);
    facts.turn_opened = true;
    assert_eq!(step(&facts), ResultTurnStep::ReadReservation);
    facts.still_reserved = Some(true);
    assert_eq!(step(&facts), ResultTurnStep::Start);
    facts.still_reserved = Some(false);
    assert_eq!(step(&facts), ResultTurnStep::Release);
}

#[test]
fn a_result_turn_stops_on_the_way() {
    let step = |facts: ResultTurnFacts| facts.maybe_start_goal_review_result_turn();
    let locked_out =
        ResultTurnFacts { continuation_lock: Some(false), ..ResultTurnFacts::unknown() };
    assert_eq!(step(locked_out), ResultTurnStep::Stop);
    let off = AdmissionFacts { goals_enabled: Some(false), goals_ignored: None };
    assert_eq!(
        step(ResultTurnFacts { admission: off, ..ready(GoalFacts::unknown()) }),
        ResultTurnStep::Stop
    );
    for busy in [
        IdleFacts { active_turn: Some(true), ..idle() },
        IdleFacts { queued_items: Some(true), ..idle() },
        IdleFacts { mailbox_items: Some(true), ..idle() },
    ] {
        assert_eq!(
            step(ResultTurnFacts { idle: busy, ..ready(GoalFacts::unknown()) }),
            ResultTurnStep::Stop
        );
    }
    let mut nothing = ready(GoalFacts::unknown());
    nothing.meet_gate(&mut GoalReviewGateState::default());
    assert_eq!(step(nothing), ResultTurnStep::Stop);
    let mut taken = ready(read(goal("a")));
    taken.meet_gate(&mut completed_gate("a", true));
    taken.reserved = Some(false);
    assert_eq!(step(taken), ResultTurnStep::Stop);
}

#[test]
fn a_stale_result_is_dropped() {
    for goal_facts in [
        read(goal("b")),
        read(paused("a")),
        GoalFacts { state_db: Some(StateDb::Missing), goal: None },
        GoalFacts { state_db: Some(StateDb::Failed), goal: None },
    ] {
        let mut gate = completed_gate("a", true);
        let mut facts = ready(goal_facts);
        facts.meet_gate(&mut gate);
        assert_eq!(
            facts.maybe_start_goal_review_result_turn(),
            ResultTurnStep::DropStale { goal_id: "a".to_string() }
        );
        facts.meet_gate(&mut gate);
        assert_eq!(gate.completed(), None);
    }
}

#[test]
fn a_result_that_is_gone_releases_the_turn() {
    let mut gate = completed_gate("a", true);
    let mut facts = ready(read(goal("a")));
    facts.meet_gate(&mut gate);
    facts.reserved = Some(true);
    gate.invalidate_goal_review_gate_after_tool_completion("view_image");
    facts.meet_gate(&mut gate);
    assert_eq!(facts.claimed, Some(false));
    assert_eq!(facts.maybe_start_goal_review_result_turn(), ResultTurnStep::Release);
}

#[test]
fn a_gate_turn_goes_through_all_its_steps() {
    let mut gate = pending_gate("a");
    let mut facts = GateTurnFacts::unknown();
    let step = |facts: &GateTurnFacts| facts.maybe_start_goal_review_gate_turn();
    assert_eq!(step(&facts), GateTurnStep::Read(SessionRead::Feature));
    facts.admission = admitted();
    assert_eq!(step(&facts), GateTurnStep::Read(SessionRead::ActiveTurn));
    facts.idle = idle();
    assert_eq!(step(&facts), GateTurnStep::ReadPending);
    facts.meet_gate(&mut gate);
    assert_eq!(step(&facts), GateTurnStep::Read(SessionRead::StateDb));
    facts.goal.state_db = Some(StateDb::Opened);
    assert_eq!(step(&facts), GateTurnStep::Read(SessionRead::Goal));
    facts.goal.goal = Some(GoalRead::Found(goal("a")));
    assert_eq!(step(&facts), GateTurnStep::ReadAgain(SessionRead::ActiveTurn));
    facts.idle_again = idle();
    assert_eq!(
        step(&facts),
        GateTurnStep::Review(GoalReviewGateRequest {
            goal_id: "a".to_string(),
            objective: "finish the stack".to_string(),
            modified_diff: Some("+x".to_string()),
        })
    );
    facts.idle_again.mailbox_items = Some(true);
    assert_eq!(step(&facts), GateTurnStep::Stop);
}

#[test]
fn a_gate_turn_resets_only_for_a_goal_that_is_not_current() {
    let facts = |goal| GateTurnFacts {
        admission: admitted(),
        idle: idle(),
        goal,
        ..GateTurnFacts::unknown()
    };
    for goal_facts in [
        read(goal("b")),
        read(paused("a")),
        GoalFacts { state_db: Some(StateDb::Opened), goal: Some(GoalRead::Missing) },
        GoalFacts { state_db: Some(StateDb::Opened), goal: Some(GoalRead::Failed) },
    ] {
        let mut gate = pending_gate("a");
        let mut facts = facts(goal_facts);
        facts.meet_gate(&mut gate);
        assert_eq!(facts.maybe_start_goal_review_gate_turn(), GateTurnStep::Reset);
        facts.meet_gate(&mut gate);
        assert_eq!(gate, GoalReviewGateState::default());
    }
    for state_db in [StateDb::Missing, StateDb::Failed] {
        let mut gate = pending_gate("a");
        let mut facts = facts(GoalFacts { state_db: Some(state_db), goal: None });
        facts.meet_gate(&mut gate);
        assert_eq!(facts.maybe_start_goal_review_gate_turn(), GateTurnStep::Stop);
        facts.meet_gate(&mut gate);
        assert_eq!(gate, pending_gate("a"));
    }
    let mut none = facts(GoalFacts::unknown());
    none.meet_gate(&mut GoalReviewGateState::default());
    assert_eq!(none.maybe_start_goal_review_gate_turn(), GateTurnStep::Stop);
}
