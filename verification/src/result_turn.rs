//! The turn in which the result of a review is acted on.
use crate::gate::{optional_outcome, GateView, GoalReviewGateOutcome, GoalReviewGateState,
    OutcomeView};
use crate::prompts::{goal_review_result_prompt, result_prompt_text};
use crate::session::{AdmissionFacts, Check, GoalFacts, GoalRead, IdleFacts, SessionRead, StateDb};
use vstd::prelude::*;

verus! {

/// What is known so far, and what was done so far.
#[derive(Debug, PartialEq, Eq)]
pub struct ResultTurnFacts {
    /// Whether the lock on going on with a goal was acquired.
    pub continuation_lock: Option<bool>,
    pub admission: AdmissionFacts,
    pub idle: IdleFacts,
    /// The review that waits to be acted on, once the review gate was asked.
    pub completed: Option<Option<GoalReviewGateOutcome>>,
    pub goal: GoalFacts,
    /// Whether the turn could be reserved.
    pub reserved: Option<bool>,
    /// Whether the review gate gave the review away.
    pub claimed: Option<bool>,
    /// Whether the prompt was queued for the turn.
    pub prompt_queued: bool,
    /// Whether the context of the turn was made.
    pub turn_opened: bool,
    /// Whether the reservation still held after that.
    pub still_reserved: Option<bool>,
}

/// What to do next.
#[derive(Debug, PartialEq, Eq)]
pub enum ResultTurnStep {
    /// Acquire the lock on going on with a goal.
    AcquireContinuation,
    /// Find this out.
    Read(SessionRead),
    /// Ask the review gate which review waits to be acted on.
    ReadCompleted,
    /// Take the review of the goal away from the review gate, and stop.
    DropStale { goal_id: String },
    /// Reserve the turn, unless one is active by now.
    Reserve,
    /// Take the review of the goal from the review gate.
    Claim { goal_id: String },
    /// Give the reservation up, and stop.
    Release,
    /// Queue this prompt for the reserved turn.
    QueuePrompt { prompt: String },
    /// Make the context of the turn, under a fresh name.
    OpenTurn,
    /// Find out whether the reservation still holds and has no task.
    ReadReservation,
    /// Start the turn. It is the only step that ends in a turn.
    Start,
    /// Stop: there is to be no turn.
    Stop,
}

/// What to do next, over texts.
pub enum ResultTurnStepView {
    AcquireContinuation,
    Read(SessionRead),
    ReadCompleted,
    DropStale { goal_id: Seq<char> },
    Reserve,
    Claim { goal_id: Seq<char> },
    Release,
    QueuePrompt { prompt: Seq<char> },
    OpenTurn,
    ReadReservation,
    Start,
    Stop,
}

impl View for ResultTurnStep {
    type V = ResultTurnStepView;

    open spec fn view(&self) -> ResultTurnStepView {
        match self {
            ResultTurnStep::AcquireContinuation => ResultTurnStepView::AcquireContinuation,
            ResultTurnStep::Read(read) => ResultTurnStepView::Read(*read),
            ResultTurnStep::ReadCompleted => ResultTurnStepView::ReadCompleted,
            ResultTurnStep::DropStale { goal_id } => ResultTurnStepView::DropStale {
                goal_id: goal_id@,
            },
            ResultTurnStep::Reserve => ResultTurnStepView::Reserve,
            ResultTurnStep::Claim { goal_id } => ResultTurnStepView::Claim { goal_id: goal_id@ },
            ResultTurnStep::Release => ResultTurnStepView::Release,
            ResultTurnStep::QueuePrompt { prompt } => ResultTurnStepView::QueuePrompt {
                prompt: prompt@,
            },
            ResultTurnStep::OpenTurn => ResultTurnStepView::OpenTurn,
            ResultTurnStep::ReadReservation => ResultTurnStepView::ReadReservation,
            ResultTurnStep::Start => ResultTurnStepView::Start,
            ResultTurnStep::Stop => ResultTurnStepView::Stop,
        }
    }
}

impl ResultTurnFacts {
    /// What to do next once a review of the active goal was found.
    pub open spec fn step_with_current(self, outcome: OutcomeView) -> ResultTurnStepView {
        match (self.reserved, self.claimed) {
            (None, _) => ResultTurnStepView::Reserve,
            (Some(false), _) => ResultTurnStepView::Stop,
            (Some(true), None) => ResultTurnStepView::Claim { goal_id: outcome.goal_id },
            (Some(true), Some(false)) => ResultTurnStepView::Release,
            (Some(true), Some(true)) => if !self.prompt_queued {
                ResultTurnStepView::QueuePrompt { prompt: result_prompt_text(outcome) }
            } else if !self.turn_opened {
                ResultTurnStepView::OpenTurn
            } else {
                match self.still_reserved {
                    None => ResultTurnStepView::ReadReservation,
                    Some(false) => ResultTurnStepView::Release,
                    Some(true) => ResultTurnStepView::Start,
                }
            },
        }
    }

    /// What to do next.
    pub open spec fn step(self) -> ResultTurnStepView {
        match (
            self.continuation_lock,
            self.admission.spec_check(),
            self.idle.spec_check(),
            self.completed,
        ) {
            (None, _, _, _) => ResultTurnStepView::AcquireContinuation,
            (Some(false), _, _, _) => ResultTurnStepView::Stop,
            (Some(true), Check::Read(read), _, _) => ResultTurnStepView::Read(read),
            (Some(true), Check::Refuse, _, _) => ResultTurnStepView::Stop,
            (Some(true), Check::Pass, Check::Read(read), _) => ResultTurnStepView::Read(read),
            (Some(true), Check::Pass, Check::Refuse, _) => ResultTurnStepView::Stop,
            (Some(true), Check::Pass, Check::Pass, None) => ResultTurnStepView::ReadCompleted,
            (Some(true), Check::Pass, Check::Pass, Some(None)) => ResultTurnStepView::Stop,
            (
                Some(true),
                Check::Pass,
                Check::Pass,
                Some(Some(outcome)),
            ) => match self.goal.spec_check_current(outcome.goal_id@) {
                Check::Read(read) => ResultTurnStepView::Read(read),
                Check::Refuse => ResultTurnStepView::DropStale { goal_id: outcome.goal_id@ },
                Check::Pass => self.step_with_current(outcome@),
            },
        }
    }

    /// Nothing is known and nothing was done.
    pub fn unknown() -> (facts: ResultTurnFacts)
        ensures
            facts == (ResultTurnFacts {
                continuation_lock: None,
                admission: AdmissionFacts { goals_enabled: None, goals_ignored: None },
                idle: IdleFacts { active_turn: None, queued_items: None, mailbox_items: None },
                completed: None,
                goal: GoalFacts { state_db: None, goal: None },
                reserved: None,
                claimed: None,
                prompt_queued: false,
                turn_opened: false,
                still_reserved: None,
            }),
    {
        ResultTurnFacts {
            continuation_lock: None,
            admission: AdmissionFacts::unknown(),
            idle: IdleFacts::unknown(),
            completed: None,
            goal: GoalFacts::unknown(),
            reserved: None,
            claimed: None,
            prompt_queued: false,
            turn_opened: false,
            still_reserved: None,
        }
    }

    /// What to do next.
    pub fn maybe_start_goal_review_result_turn(&self) -> (step: ResultTurnStep)
        ensures
            step@ == self.step(),
    {
        match self.continuation_lock {
            None => {
                return ResultTurnStep::AcquireContinuation;
            },
            Some(acquired) => if !acquired {
                return ResultTurnStep::Stop;
            },
        }
        match self.admission.check() {
            Check::Read(read) => {
                return ResultTurnStep::Read(read);
            },
            Check::Refuse => {
                return ResultTurnStep::Stop;
            },
            Check::Pass => {},
        }
        match self.idle.check() {
            Check::Read(read) => {
                return ResultTurnStep::Read(read);
            },
            Check::Refuse => {
                return ResultTurnStep::Stop;
            },
            Check::Pass => {},
        }
        let outcome: &GoalReviewGateOutcome = match &self.completed {
            None => {
                return ResultTurnStep::ReadCompleted;
            },
            Some(None) => {
                return ResultTurnStep::Stop;
            },
            Some(Some(outcome)) => outcome,
        };
        match self.goal.check_current(outcome.goal_id.as_str()) {
            Check::Read(read) => {
                return ResultTurnStep::Read(read);
            },
            Check::Refuse => {
                return ResultTurnStep::DropStale { goal_id: outcome.goal_id.clone() };
            },
            Check::Pass => {},
        }
        match self.reserved {
            None => {
                return ResultTurnStep::Reserve;
            },
            Some(reserved) => if !reserved {
                return ResultTurnStep::Stop;
            },
        }
        match self.claimed {
            None => {
                return ResultTurnStep::Claim { goal_id: outcome.goal_id.clone() };
            },
            Some(claimed) => if !claimed {
                return ResultTurnStep::Release;
            },
        }
        if !self.prompt_queued {
            return ResultTurnStep::QueuePrompt { prompt: goal_review_result_prompt(outcome) };
        }
        if !self.turn_opened {
            return ResultTurnStep::OpenTurn;
        }
        match self.still_reserved {
            None => ResultTurnStep::ReadReservation,
            Some(still_reserved) => if still_reserved {
                ResultTurnStep::Start
            } else {
                ResultTurnStep::Release
            },
        }
    }

    /// The review gate after what is to be done there next: a review that is
    /// stale, or that is claimed, is taken away.
    pub open spec fn gate_after(self, gate: GateView) -> GateView {
        match self.step() {
            ResultTurnStepView::DropStale { goal_id } => gate.after_take(goal_id),
            ResultTurnStepView::Claim { goal_id } => gate.after_take(goal_id),
            _ => gate,
        }
    }

    /// Does at the review gate what is to be done there next: finds out which
    /// review waits to be acted on, drops it where it is stale, or claims it.
    pub fn meet_gate(&mut self, gate: &mut GoalReviewGateState)
        ensures
            final(gate)@ == old(self).gate_after(old(gate)@),
            match old(self).step() {
                ResultTurnStepView::ReadCompleted => {
                    &&& *final(self) == (ResultTurnFacts {
                        completed: final(self).completed,
                        ..*old(self)
                    })
                    &&& final(self).completed matches Some(found) && optional_outcome(found)
                        == old(gate)@.completed
                },
                ResultTurnStepView::Claim { goal_id } => *final(self) == (ResultTurnFacts {
                    claimed: Some(old(gate)@.is_completed(goal_id)),
                    ..*old(self)
                }),
                _ => *final(self) == *old(self),
            },
    {
        match self.maybe_start_goal_review_result_turn() {
            ResultTurnStep::ReadCompleted => {
                self.completed = Some(gate.completed());
            },
            ResultTurnStep::Claim { goal_id } => {
                let claimed: bool = gate.take_completed(goal_id.as_str());
                self.claimed = Some(claimed);
            },
            ResultTurnStep::DropStale { goal_id } => {
                let _taken: bool = gate.take_completed(goal_id.as_str());
            },
            _ => {},
        }
    }
}

/// A turn starts exactly where goals play a part, the session was idle, a review
/// waited whose goal is the active one, the turn was reserved, the review gate gave the
/// review away, its prompt was queued, and the reservation still holds.
pub proof fn law_result_turn_starts_exactly_when(facts: ResultTurnFacts)
    ensures
        facts.step() == ResultTurnStepView::Start <==> {
            &&& facts.continuation_lock == Some(true)
            &&& facts.admission.goals_enabled == Some(true)
            &&& facts.admission.goals_ignored == Some(false)
            &&& facts.idle.active_turn == Some(false)
            &&& facts.idle.queued_items == Some(false)
            &&& facts.idle.mailbox_items == Some(false)
            &&& facts.completed matches Some(Some(outcome))
            &&& facts.goal.state_db == Some(StateDb::Opened)
            &&& facts.goal.goal matches Some(GoalRead::Found(goal))
            &&& goal.goal_id@ == outcome.goal_id@
            &&& goal.status is Active
            &&& facts.reserved == Some(true)
            &&& facts.claimed == Some(true)
            &&& facts.prompt_queued
            &&& facts.turn_opened
            &&& facts.still_reserved == Some(true)
        },
{
}

/// Nothing is queued before the review gate gave the review away, and what is queued
/// is the prompt of the review that waited.
pub proof fn law_only_a_claimed_review_is_queued(facts: ResultTurnFacts)
    ensures
        facts.step() matches ResultTurnStepView::QueuePrompt { prompt } ==> facts.claimed == Some(
            true,
        ) && (facts.completed matches Some(Some(outcome)) && prompt == result_prompt_text(
            outcome@,
        )),
{
}

/// A reservation that was made ends in a turn or is given up: once it is made
/// and the rest is known, there is no plain stop.
pub proof fn law_a_reservation_is_used_or_released(facts: ResultTurnFacts)
    requires
        facts.reserved == Some(true),
        facts.continuation_lock == Some(true),
        facts.admission.spec_check() == Check::Pass,
        facts.idle.spec_check() == Check::Pass,
        facts.completed matches Some(Some(outcome)) && facts.goal.spec_check_current(
            outcome.goal_id@,
        ) == Check::Pass,
    ensures
        facts.step() != ResultTurnStepView::Stop,
        facts.claimed == Some(false) ==> facts.step() == ResultTurnStepView::Release,
{
}

/// The review gate loses nothing but a review that waited to be acted on, and
/// what is claimed or dropped once is not there to be claimed again.
pub proof fn law_a_turn_takes_its_review_once(facts: ResultTurnFacts, gate: GateView)
    ensures
        facts.gate_after(gate).pending == gate.pending,
        facts.gate_after(gate).passed_goal_id == gate.passed_goal_id,
        facts.gate_after(gate).dirty_since_review == gate.dirty_since_review,
        facts.step() matches ResultTurnStepView::Claim { goal_id } ==> !facts.gate_after(
            gate,
        ).is_completed(goal_id),
        facts.step() matches ResultTurnStepView::DropStale { goal_id } ==> !facts.gate_after(
            gate,
        ).is_completed(goal_id),
{
}

/// Only what is not known is asked for, and nothing is done twice.
pub proof fn law_result_turn_asks_for_the_unknown(facts: ResultTurnFacts)
    ensures
        match facts.step() {
            ResultTurnStepView::AcquireContinuation => facts.continuation_lock is None,
            ResultTurnStepView::Read(read) => match read {
                SessionRead::Feature => facts.admission.goals_enabled is None,
                SessionRead::Mode => facts.admission.goals_ignored is None,
                SessionRead::ActiveTurn => facts.idle.active_turn is None,
                SessionRead::QueuedItems => facts.idle.queued_items is None,
                SessionRead::MailboxItems => facts.idle.mailbox_items is None,
                SessionRead::StateDb => facts.goal.state_db is None,
                SessionRead::Goal => facts.goal.goal is None,
            },
            ResultTurnStepView::ReadCompleted => facts.completed is None,
            ResultTurnStepView::Reserve => facts.reserved is None,
            ResultTurnStepView::Claim { .. } => facts.claimed is None,
            ResultTurnStepView::QueuePrompt { .. } => !facts.prompt_queued,
            ResultTurnStepView::OpenTurn => !facts.turn_opened,
            ResultTurnStepView::ReadReservation => facts.still_reserved is None,
            _ => true,
        },
{
}

/// Before a review that waits is found, the turn stops exactly where something
/// known ends it: the lock was not acquired, goals are disabled or ignored, the
/// session is busy, or no review waits. After that it stops only where the turn
/// could not be reserved.
pub proof fn law_result_turn_stops_exactly_when(facts: ResultTurnFacts)
    ensures
        ({
            let locked = facts.continuation_lock == Some(true);
            let admitted = locked && facts.admission.goals_enabled == Some(true)
                && facts.admission.goals_ignored == Some(false);
            let idle = admitted && facts.idle.active_turn == Some(false)
                && facts.idle.queued_items == Some(false) && facts.idle.mailbox_items == Some(
                false,
            );
            let current = idle && (facts.completed matches Some(Some(_))) && facts.goal.state_db
                == Some(StateDb::Opened) && (facts.goal.goal matches Some(GoalRead::Found(goal))
                && goal.goal_id@ == facts.completed->0->0.goal_id@ && goal.status is Active);
            facts.step() == ResultTurnStepView::Stop <==> {
                ||| facts.continuation_lock == Some(false)
                ||| locked && facts.admission.goals_enabled == Some(false)
                ||| locked && facts.admission.goals_enabled == Some(true)
                    && facts.admission.goals_ignored == Some(true)
                ||| admitted && facts.idle.active_turn == Some(true)
                ||| admitted && facts.idle.active_turn == Some(false) && facts.idle.queued_items
                    == Some(true)
                ||| admitted && facts.idle.active_turn == Some(false) && facts.idle.queued_items
                    == Some(false) && facts.idle.mailbox_items == Some(true)
                ||| idle && (facts.completed matches Some(None))
                ||| current && facts.reserved == Some(false)
            }
        }),
{
}

/// Each thing is asked for exactly where it is the first that is not known and all
/// before it went well: the lock, whether goals play a part, whether the session
/// is idle, which review waits, the database, and the goal.
pub proof fn law_result_turn_asks_for_the_first_unknown(facts: ResultTurnFacts)
    ensures
        ({
            let locked = facts.continuation_lock == Some(true);
            let admitted = locked && facts.admission.goals_enabled == Some(true)
                && facts.admission.goals_ignored == Some(false);
            let idle = admitted && facts.idle.active_turn == Some(false)
                && facts.idle.queued_items == Some(false) && facts.idle.mailbox_items == Some(
                false,
            );
            let found = idle && (facts.completed matches Some(Some(_)));
            let step = facts.step();
            &&& step == ResultTurnStepView::AcquireContinuation
                <==> facts.continuation_lock is None
            &&& step == ResultTurnStepView::Read(SessionRead::Feature) <==> locked
                && facts.admission.goals_enabled is None
            &&& step == ResultTurnStepView::Read(SessionRead::Mode) <==> locked
                && facts.admission.goals_enabled == Some(true)
                && facts.admission.goals_ignored is None
            &&& step == ResultTurnStepView::Read(SessionRead::ActiveTurn) <==> admitted
                && facts.idle.active_turn is None
            &&& step == ResultTurnStepView::Read(SessionRead::QueuedItems) <==> admitted
                && facts.idle.active_turn == Some(false) && facts.idle.queued_items is None
            &&& step == ResultTurnStepView::Read(SessionRead::MailboxItems) <==> admitted
                && facts.idle.active_turn == Some(false) && facts.idle.queued_items == Some(false)
                && facts.idle.mailbox_items is None
            &&& step == ResultTurnStepView::ReadCompleted <==> idle && facts.completed is None
            &&& step == ResultTurnStepView::Read(SessionRead::StateDb) <==> found
                && facts.goal.state_db is None
            &&& step == ResultTurnStepView::Read(SessionRead::Goal) <==> found
                && facts.goal.state_db == Some(StateDb::Opened) && facts.goal.goal is None
        }),
{
}

/// A review that waits is dropped, under the name of its goal, exactly where that
/// goal is known not to be the active one.
pub proof fn law_a_result_is_dropped_exactly_when(facts: ResultTurnFacts, goal_id: Seq<char>)
    ensures
        facts.step() == (ResultTurnStepView::DropStale { goal_id }) <==> {
            &&& facts.continuation_lock == Some(true)
            &&& facts.admission.goals_enabled == Some(true)
            &&& facts.admission.goals_ignored == Some(false)
            &&& facts.idle.active_turn == Some(false)
            &&& facts.idle.queued_items == Some(false)
            &&& facts.idle.mailbox_items == Some(false)
            &&& facts.completed matches Some(Some(outcome))
            &&& outcome.goal_id@ == goal_id
            &&& {
                ||| facts.goal.state_db == Some(StateDb::Missing)
                ||| facts.goal.state_db == Some(StateDb::Failed)
                ||| facts.goal.state_db == Some(StateDb::Opened) && facts.goal.goal is Some && !(
                facts.goal.goal matches Some(GoalRead::Found(goal)) && goal.goal_id@ == goal_id
                    && goal.status is Active)
            }
        },
{
}

/// Once a review of the active goal was found, the turn is reserved, the review
/// is claimed under the name of its goal, its prompt is queued, the turn is
/// opened, and the reservation is looked at, in this order, each exactly where all
/// before it was done. The reservation is given up exactly where the review was
/// not to be had, or the reservation no longer holds at the end.
pub proof fn law_result_turn_acts_in_order(
    facts: ResultTurnFacts,
    outcome: GoalReviewGateOutcome,
)
    requires
        facts.continuation_lock == Some(true),
        facts.admission.goals_enabled == Some(true),
        facts.admission.goals_ignored == Some(false),
        facts.idle.active_turn == Some(false),
        facts.idle.queued_items == Some(false),
        facts.idle.mailbox_items == Some(false),
        facts.completed == Some(Some(outcome)),
        facts.goal.state_db == Some(StateDb::Opened),
        facts.goal.goal matches Some(GoalRead::Found(goal)) && goal.goal_id@ == outcome.goal_id@
            && goal.status is Active,
    ensures
        ({
            let step = facts.step();
            let reserved = facts.reserved == Some(true);
            let claimed = reserved && facts.claimed == Some(true);
            let opened = claimed && facts.prompt_queued && facts.turn_opened;
            &&& step == ResultTurnStepView::Reserve <==> facts.reserved is None
            &&& reserved && facts.claimed is None ==> step == (ResultTurnStepView::Claim {
                goal_id: outcome.goal_id@,
            })
            &&& step is Claim ==> reserved && facts.claimed is None
            &&& claimed && !facts.prompt_queued ==> step == (ResultTurnStepView::QueuePrompt {
                prompt: result_prompt_text(outcome@),
            })
            &&& step is QueuePrompt ==> claimed && !facts.prompt_queued
            &&& step == ResultTurnStepView::OpenTurn <==> claimed && facts.prompt_queued
                && !facts.turn_opened
            &&& step == ResultTurnStepView::ReadReservation <==> opened
                && facts.still_reserved is None
            &&& step == ResultTurnStepView::Release <==> (reserved && facts.claimed == Some(false))
                || (opened && facts.still_reserved == Some(false))
        }),
{
}

/// Dropping a review, or claiming it, takes the outcome of its goal away from the
/// review gate; nothing else that the turn does touches the review gate.
pub proof fn law_only_dropping_and_claiming_touch_the_gate(facts: ResultTurnFacts, gate: GateView)
    ensures
        ({
            let after = facts.gate_after(gate);
            let taken = match facts.step() {
                ResultTurnStepView::DropStale { goal_id } => Some(goal_id),
                ResultTurnStepView::Claim { goal_id } => Some(goal_id),
                _ => None,
            };
            &&& after.completed == if gate.completed matches Some(outcome) && taken == Some(
                outcome.goal_id,
            ) {
                None
            } else {
                gate.completed
            }
            &&& after.pending == gate.pending
            &&& after.passed_goal_id == gate.passed_goal_id
            &&& after.dirty_since_review == gate.dirty_since_review
        }),
{
}

/// A step shows all that it holds.
pub proof fn law_steps_show_all_they_hold(step: ResultTurnStep)
    ensures
        step matches ResultTurnStep::Read(read) ==> step@ == ResultTurnStepView::Read(read),
        step matches ResultTurnStep::DropStale { goal_id } ==> step@ == (
        ResultTurnStepView::DropStale { goal_id: goal_id@ }),
        step matches ResultTurnStep::Claim { goal_id } ==> step@ == (ResultTurnStepView::Claim {
            goal_id: goal_id@,
        }),
        step matches ResultTurnStep::QueuePrompt { prompt } ==> step@ == (
        ResultTurnStepView::QueuePrompt { prompt: prompt@ }),
        step is AcquireContinuation <==> step@ is AcquireContinuation,
        step is ReadCompleted <==> step@ is ReadCompleted,
        step is Reserve <==> step@ is Reserve,
        step is Release <==> step@ is Release,
        step is OpenTurn <==> step@ is OpenTurn,
        step is ReadReservation <==> step@ is ReadReservation,
        step is Start <==> step@ is Start,
        step is Stop <==> step@ is Stop,
{
}

} // verus!
