//! Taking note that a review came to an end.
use crate::gate::{optional_request, GateView, GoalReviewGateRequest, GoalReviewGateState,
    NO_REVIEW_OUTPUT};
use crate::session::{is_current, Check, GoalFacts, GoalRead, SessionRead, StateDb};
use vstd::prelude::*;

verus! {

/// What is known so far when a review comes to an end.
#[derive(Debug, PartialEq, Eq)]
pub struct ReviewCompletionFacts {
    /// The review that was pending, once the review gate was asked.
    pub pending: Option<Option<GoalReviewGateRequest>>,
    pub goal: GoalFacts,
}

/// What to do next.
#[derive(Debug, PartialEq, Eq)]
pub enum ReviewCompletionStep {
    /// Ask the review gate which review is pending.
    ReadPending,
    /// Find this out.
    Read(SessionRead),
    /// No review was pending.
    Stop,
    /// Tell the review gate that this review came to an end.
    Settle { reviewed: GoalReviewGateRequest, still_active: bool },
}

impl ReviewCompletionFacts {
    /// What to do next: the review gate is told of the review that was pending, and
    /// whether its goal is still the active one.
    pub open spec fn step(self) -> ReviewCompletionStep {
        match self.pending {
            None => ReviewCompletionStep::ReadPending,
            Some(None) => ReviewCompletionStep::Stop,
            Some(Some(reviewed)) => match self.goal.spec_check_current(reviewed.goal_id@) {
                Check::Read(read) => ReviewCompletionStep::Read(read),
                Check::Pass => ReviewCompletionStep::Settle { reviewed, still_active: true },
                Check::Refuse => ReviewCompletionStep::Settle { reviewed, still_active: false },
            },
        }
    }

    /// Nothing is known.
    pub fn unknown() -> (facts: ReviewCompletionFacts)
        ensures
            facts == (ReviewCompletionFacts {
                pending: None,
                goal: GoalFacts { state_db: None, goal: None },
            }),
    {
        ReviewCompletionFacts { pending: None, goal: GoalFacts::unknown() }
    }

    /// What to do next.
    pub fn mark_goal_review_gate_completed(&self) -> (step: ReviewCompletionStep)
        ensures
            step == self.step(),
    {
        match &self.pending {
            None => ReviewCompletionStep::ReadPending,
            Some(None) => ReviewCompletionStep::Stop,
            Some(Some(reviewed)) => match self.goal.check_current(reviewed.goal_id.as_str()) {
                Check::Read(read) => ReviewCompletionStep::Read(read),
                Check::Pass => ReviewCompletionStep::Settle {
                    reviewed: reviewed.clone(),
                    still_active: true,
                },
                Check::Refuse => ReviewCompletionStep::Settle {
                    reviewed: reviewed.clone(),
                    still_active: false,
                },
            },
        }
    }

    /// Does at the review gate what is to be done there next: finds out which
    /// review is pending, or tells it that the review came to an end, whether it
    /// passed, and what it put out.
    pub fn meet_gate(
        &mut self,
        gate: &mut GoalReviewGateState,
        passed: bool,
        review_output: Option<String>,
    )
        ensures
            match old(self).step() {
                ReviewCompletionStep::ReadPending => {
                    &&& final(gate)@ == old(gate)@
                    &&& final(self).pending matches Some(found) && optional_request(found) == old(
                        gate,
                    )@.pending
                    &&& final(self).goal == old(self).goal
                },
                ReviewCompletionStep::Settle { reviewed, still_active } => {
                    &&& final(gate)@ == old(gate)@.after_review(
                        reviewed.goal_id@,
                        passed,
                        still_active,
                        match review_output {
                            Some(output) => output@,
                            None => NO_REVIEW_OUTPUT@,
                        },
                    )
                    &&& *final(self) == *old(self)
                },
                _ => final(gate)@ == old(gate)@ && *final(self) == *old(self),
            },
    {
        match self.mark_goal_review_gate_completed() {
            ReviewCompletionStep::ReadPending => {
                self.pending = Some(gate.pending());
            },
            ReviewCompletionStep::Settle { reviewed, still_active } => {
                gate.complete_review(&reviewed, passed, still_active, review_output);
            },
            _ => {},
        }
    }
}

/// The goal whose data the output of a review is recorded in: the one whose
/// review is pending. Without one the output is not recorded.
pub fn record_goal_review_gate_output(gate: &GoalReviewGateState) -> (goal_id: Option<String>)
    ensures
        match goal_id {
            Some(id) => gate@.is_pending(id@),
            None => gate@.pending is None,
        },
{
    match gate.pending() {
        Some(request) => Some(request.goal_id),
        None => None,
    }
}

/// A review lets its goal pass exactly where it passed, its request is still
/// pending, and the goal was read back as the active one.
pub proof fn law_a_goal_passes_while_it_is_active_only(
    facts: ReviewCompletionFacts,
    gate: GateView,
    passed: bool,
    review_output: Seq<char>,
)
    requires
        facts.step() is Settle,
    ensures
        facts.step() matches ReviewCompletionStep::Settle { reviewed, still_active } ==> {
            let after = gate.after_review(
                reviewed.goal_id@,
                passed,
                still_active,
                review_output,
            );
            &&& facts.pending == Some(Some(reviewed))
            &&& still_active == (facts.goal.state_db == Some(StateDb::Opened) && (
            facts.goal.goal matches Some(goal) && is_current(goal, reviewed.goal_id@)))
            &&& gate.is_pending(reviewed.goal_id@) ==> (after.passed_goal_id is Some) == (passed
                && still_active)
            &&& gate.is_pending(reviewed.goal_id@) ==> (after.completed is Some) == still_active
        },
{
}

/// Only what is not known is asked for.
pub proof fn law_completion_asks_for_the_unknown(facts: ReviewCompletionFacts)
    ensures
        facts.step() is ReadPending ==> facts.pending is None,
        facts.step() matches ReviewCompletionStep::Read(read) ==> match read {
            SessionRead::StateDb => facts.goal.state_db is None,
            SessionRead::Goal => facts.goal.goal is None,
            _ => false,
        },
{
}

/// The review that was pending is settled exactly where it is known whether its
/// goal is still the active one: it is where it was read as such, and is not where
/// the database is missing or fails or anything else was read. Before that, what
/// is pending is asked for, then the database, then the goal; without a pending
/// review there is nothing to do.
pub proof fn law_completion_settles_exactly_when(
    facts: ReviewCompletionFacts,
    reviewed: GoalReviewGateRequest,
)
    ensures
        ({
            let step = facts.step();
            let found = facts.pending matches Some(Some(_));
            let active = facts.goal.state_db == Some(StateDb::Opened) && (
            facts.goal.goal matches Some(GoalRead::Found(goal)) && goal.goal_id@
                == reviewed.goal_id@ && goal.status is Active);
            let not_active = facts.goal.state_db == Some(StateDb::Missing) || facts.goal.state_db
                == Some(StateDb::Failed) || (facts.goal.state_db == Some(StateDb::Opened)
                && facts.goal.goal is Some && !active);
            &&& step == (ReviewCompletionStep::Settle { reviewed, still_active: true })
                <==> facts.pending == Some(Some(reviewed)) && active
            &&& step == (ReviewCompletionStep::Settle { reviewed, still_active: false })
                <==> facts.pending == Some(Some(reviewed)) && not_active
            &&& step == ReviewCompletionStep::ReadPending <==> facts.pending is None
            &&& step == ReviewCompletionStep::Stop <==> (facts.pending matches Some(None))
            &&& step == ReviewCompletionStep::Read(SessionRead::StateDb) <==> found
                && facts.goal.state_db is None
            &&& step == ReviewCompletionStep::Read(SessionRead::Goal) <==> found
                && facts.goal.state_db == Some(StateDb::Opened) && facts.goal.goal is None
        }),
{
}

} // verus!
