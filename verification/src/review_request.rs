//! Asking for a review before a goal can be marked complete.
use crate::gate::{optional_text, GoalReviewGateState};
use crate::goal::ThreadGoal;
use crate::session::{AdmissionFacts, Check, GoalFacts, GoalRead, SessionRead, StateDb};
use vstd::prelude::*;

verus! {

/// What is known so far of the session that asks.
#[derive(Debug, PartialEq, Eq)]
pub struct ReviewRequestFacts {
    pub admission: AdmissionFacts,
    pub goal: GoalFacts,
}

/// What to do next.
#[derive(Debug, Clone, Copy, PartialEq, Eq, Structural)]
pub enum ReviewRequestStep {
    /// Find this out.
    Read(SessionRead),
    /// Ask the review gate for a review of the goal that was read.
    AskGate,
    /// There is nothing to review.
    Stop,
    /// Give up with the error of the database.
    FailStateDb,
    /// Give up with the error of reading the goal.
    FailGoalRead,
}

/// A review that is going to take place.
#[derive(Debug, PartialEq, Eq)]
pub struct GoalReviewGateScheduled {
    pub goal: ThreadGoal,
}

impl ReviewRequestFacts {
    /// What to do next. The review gate is asked for an active goal of a session in
    /// which goals play a part; errors on the way there are passed on.
    pub open spec fn step(self) -> ReviewRequestStep {
        match (self.admission.spec_check(), self.goal.state_db, self.goal.goal) {
            (Check::Read(read), _, _) => ReviewRequestStep::Read(read),
            (Check::Refuse, _, _) => ReviewRequestStep::Stop,
            (Check::Pass, None, _) => ReviewRequestStep::Read(SessionRead::StateDb),
            (Check::Pass, Some(StateDb::Failed), _) => ReviewRequestStep::FailStateDb,
            (Check::Pass, Some(StateDb::Missing), _) => ReviewRequestStep::Stop,
            (Check::Pass, Some(StateDb::Opened), None) => ReviewRequestStep::Read(
                SessionRead::Goal,
            ),
            (
                Check::Pass,
                Some(StateDb::Opened),
                Some(GoalRead::Failed),
            ) => ReviewRequestStep::FailGoalRead,
            (
                Check::Pass,
                Some(StateDb::Opened),
                Some(GoalRead::Missing),
            ) => ReviewRequestStep::Stop,
            (Check::Pass, Some(StateDb::Opened), Some(GoalRead::Found(goal))) => if goal.status is Active {
                ReviewRequestStep::AskGate
            } else {
                ReviewRequestStep::Stop
            },
        }
    }

    /// Nothing is known.
    pub fn unknown() -> (facts: ReviewRequestFacts)
        ensures
            facts == (ReviewRequestFacts {
                admission: AdmissionFacts { goals_enabled: None, goals_ignored: None },
                goal: GoalFacts { state_db: None, goal: None },
            }),
    {
        ReviewRequestFacts { admission: AdmissionFacts::unknown(), goal: GoalFacts::unknown() }
    }

    /// What to do next.
    pub fn request_goal_completion_review_gate(&self) -> (step: ReviewRequestStep)
        ensures
            step == self.step(),
    {
        match self.admission.check() {
            Check::Read(read) => {
                return ReviewRequestStep::Read(read);
            },
            Check::Refuse => {
                return ReviewRequestStep::Stop;
            },
            Check::Pass => {},
        }
        match self.goal.state_db {
            None => {
                return ReviewRequestStep::Read(SessionRead::StateDb);
            },
            Some(StateDb::Failed) => {
                return ReviewRequestStep::FailStateDb;
            },
            Some(StateDb::Missing) => {
                return ReviewRequestStep::Stop;
            },
            Some(StateDb::Opened) => {},
        }
        match &self.goal.goal {
            None => ReviewRequestStep::Read(SessionRead::Goal),
            Some(GoalRead::Failed) => ReviewRequestStep::FailGoalRead,
            Some(GoalRead::Missing) => ReviewRequestStep::Stop,
            Some(GoalRead::Found(goal)) => if goal.status.is_active() {
                ReviewRequestStep::AskGate
            } else {
                ReviewRequestStep::Stop
            },
        }
    }

    /// Asks the review gate for a review of the goal that was read, where that is
    /// what to do next, with a diff of what was modified if there is one.
    pub fn ask_gate(self, gate: &mut GoalReviewGateState, modified_diff: Option<String>) -> (
        scheduled: Option<GoalReviewGateScheduled>)
        ensures
            self.step() == ReviewRequestStep::AskGate ==> {
                let goal = self.goal.goal->0->Found_0;
                let diff = optional_text(modified_diff);
                &&& final(gate)@ == old(gate)@.after_request(goal.goal_id@, goal.objective@, diff)
                &&& scheduled == if old(gate)@.owes_review(goal.goal_id@, diff) {
                    Some(GoalReviewGateScheduled { goal })
                } else {
                    None
                }
            },
            self.step() != ReviewRequestStep::AskGate ==> final(gate)@ == old(gate)@
                && scheduled is None,
    {
        match self.request_goal_completion_review_gate() {
            ReviewRequestStep::AskGate => match self.goal.goal {
                Some(GoalRead::Found(goal)) => if gate.request_review(&goal, modified_diff) {
                    Some(GoalReviewGateScheduled { goal })
                } else {
                    None
                },
                _ => None,
            },
            _ => None,
        }
    }
}

/// The review gate is asked exactly for an active goal of a session in which goals
/// play a part, and errors are passed on exactly where they happened on the way.
pub proof fn law_gate_is_asked_for_active_goals_only(facts: ReviewRequestFacts)
    ensures
        facts.step() == ReviewRequestStep::AskGate <==> {
            &&& facts.admission.goals_enabled == Some(true)
            &&& facts.admission.goals_ignored == Some(false)
            &&& facts.goal.state_db == Some(StateDb::Opened)
            &&& facts.goal.goal matches Some(GoalRead::Found(goal)) && goal.status is Active
        },
        facts.step() == ReviewRequestStep::FailStateDb <==> {
            &&& facts.admission.goals_enabled == Some(true)
            &&& facts.admission.goals_ignored == Some(false)
            &&& facts.goal.state_db == Some(StateDb::Failed)
        },
        facts.step() == ReviewRequestStep::FailGoalRead <==> {
            &&& facts.admission.goals_enabled == Some(true)
            &&& facts.admission.goals_ignored == Some(false)
            &&& facts.goal.state_db == Some(StateDb::Opened)
            &&& facts.goal.goal matches Some(GoalRead::Failed)
        },
{
}

/// Only what is not known is asked for.
pub proof fn law_request_asks_for_the_unknown(facts: ReviewRequestFacts)
    ensures
        facts.step() matches ReviewRequestStep::Read(read) ==> match read {
            SessionRead::Feature => facts.admission.goals_enabled is None,
            SessionRead::Mode => facts.admission.goals_ignored is None,
            SessionRead::StateDb => facts.goal.state_db is None,
            SessionRead::Goal => facts.goal.goal is None,
            _ => false,
        },
{
}

/// There is nothing to review exactly where goals are disabled or ignored, the
/// thread has no database or no goal, or its goal is not active. Each thing is
/// asked for exactly where it is the first that is not known and all before it
/// went well.
pub proof fn law_request_stops_and_asks_exactly_when(facts: ReviewRequestFacts)
    ensures
        ({
            let admitted = facts.admission.goals_enabled == Some(true)
                && facts.admission.goals_ignored == Some(false);
            let opened = admitted && facts.goal.state_db == Some(StateDb::Opened);
            let step = facts.step();
            &&& step == ReviewRequestStep::Stop <==> {
                ||| facts.admission.goals_enabled == Some(false)
                ||| facts.admission.goals_enabled == Some(true) && facts.admission.goals_ignored
                    == Some(true)
                ||| admitted && facts.goal.state_db == Some(StateDb::Missing)
                ||| opened && (facts.goal.goal matches Some(GoalRead::Missing))
                ||| opened && (facts.goal.goal matches Some(GoalRead::Found(goal))
                    && goal.status !is Active)
            }
            &&& step == ReviewRequestStep::Read(SessionRead::Feature)
                <==> facts.admission.goals_enabled is None
            &&& step == ReviewRequestStep::Read(SessionRead::Mode)
                <==> facts.admission.goals_enabled == Some(true)
                && facts.admission.goals_ignored is None
            &&& step == ReviewRequestStep::Read(SessionRead::StateDb) <==> admitted
                && facts.goal.state_db is None
            &&& step == ReviewRequestStep::Read(SessionRead::Goal) <==> opened
                && facts.goal.goal is None
        }),
{
}

} // verus!
