//! The turn in which a review that was asked for is run.
use crate::gate::{optional_request, GateView, GoalReviewGateRequest, GoalReviewGateState};
use crate::session::{is_current, AdmissionFacts, Check, GoalFacts, GoalRead, IdleFacts, SessionRead,
    StateDb};
use vstd::prelude::*;

verus! {

/// What is known so far.
#[derive(Debug, PartialEq, Eq)]
pub struct GateTurnFacts {
    pub admission: AdmissionFacts,
    pub idle: IdleFacts,
    /// The review that was asked for, once the review gate was asked.
    pub pending: Option<Option<GoalReviewGateRequest>>,
    pub goal: GoalFacts,
    /// Whether the session is still idle after the goal was read.
    pub idle_again: IdleFacts,
}

/// What to do next.
#[derive(Debug, PartialEq, Eq)]
pub enum GateTurnStep {
    /// Find this out.
    Read(SessionRead),
    /// Ask the review gate which review is pending.
    ReadPending,
    /// Find this out once more.
    ReadAgain(SessionRead),
    /// Reset the review gate, and stop.
    Reset,
    /// Stop: no review is to be run.
    Stop,
    /// Run the review.
    Review(GoalReviewGateRequest),
}

impl GateTurnFacts {
    /// What to do next once a review was found pending.
    pub open spec fn step_with_pending(self, request: GoalReviewGateRequest) -> GateTurnStep {
        match (self.goal.state_db, self.goal.goal) {
            (None, _) => GateTurnStep::Read(SessionRead::StateDb),
            (Some(StateDb::Missing), _) => GateTurnStep::Stop,
            (Some(StateDb::Failed), _) => GateTurnStep::Stop,
            (Some(StateDb::Opened), None) => GateTurnStep::Read(SessionRead::Goal),
            (Some(StateDb::Opened), Some(goal)) => if !is_current(goal, request.goal_id@) {
                GateTurnStep::Reset
            } else {
                match self.idle_again.spec_check() {
                    Check::Read(read) => GateTurnStep::ReadAgain(read),
                    Check::Refuse => GateTurnStep::Stop,
                    Check::Pass => GateTurnStep::Review(request),
                }
            },
        }
    }

    /// What to do next. A review whose goal is no longer the active one resets
    /// the review gate; a database that is missing or fails leaves it alone.
    pub open spec fn step(self) -> GateTurnStep {
        match (self.admission.spec_check(), self.idle.spec_check(), self.pending) {
            (Check::Read(read), _, _) => GateTurnStep::Read(read),
            (Check::Refuse, _, _) => GateTurnStep::Stop,
            (Check::Pass, Check::Read(read), _) => GateTurnStep::Read(read),
            (Check::Pass, Check::Refuse, _) => GateTurnStep::Stop,
            (Check::Pass, Check::Pass, None) => GateTurnStep::ReadPending,
            (Check::Pass, Check::Pass, Some(None)) => GateTurnStep::Stop,
            (Check::Pass, Check::Pass, Some(Some(request))) => self.step_with_pending(request),
        }
    }

    /// Nothing is known.
    pub fn unknown() -> (facts: GateTurnFacts)
        ensures
            facts == (GateTurnFacts {
                admission: AdmissionFacts { goals_enabled: None, goals_ignored: None },
                idle: IdleFacts { active_turn: None, queued_items: None, mailbox_items: None },
                pending: None,
                goal: GoalFacts { state_db: None, goal: None },
                idle_again: IdleFacts {
                    active_turn: None,
                    queued_items: None,
                    mailbox_items: None,
                },
            }),
    {
        GateTurnFacts {
            admission: AdmissionFacts::unknown(),
            idle: IdleFacts::unknown(),
            pending: None,
            goal: GoalFacts::unknown(),
            idle_again: IdleFacts::unknown(),
        }
    }

    /// What to do next.
    pub fn maybe_start_goal_review_gate_turn(&self) -> (step: GateTurnStep)
        ensures
            step == self.step(),
    {
        match self.admission.check() {
            Check::Read(read) => {
                return GateTurnStep::Read(read);
            },
            Check::Refuse => {
                return GateTurnStep::Stop;
            },
            Check::Pass => {},
        }
        match self.idle.check() {
            Check::Read(read) => {
                return GateTurnStep::Read(read);
            },
            Check::Refuse => {
                return GateTurnStep::Stop;
            },
            Check::Pass => {},
        }
        let request: &GoalReviewGateRequest = match &self.pending {
            None => {
                return GateTurnStep::ReadPending;
            },
            Some(None) => {
                return GateTurnStep::Stop;
            },
            Some(Some(request)) => request,
        };
        match self.goal.state_db {
            None => {
                return GateTurnStep::Read(SessionRead::StateDb);
            },
            Some(StateDb::Missing) => {
                return GateTurnStep::Stop;
            },
            Some(StateDb::Failed) => {
                return GateTurnStep::Stop;
            },
            Some(StateDb::Opened) => {},
        }
        match &self.goal.goal {
            None => {
                return GateTurnStep::Read(SessionRead::Goal);
            },
            Some(goal) => if !goal.names_current(request.goal_id.as_str()) {
                return GateTurnStep::Reset;
            },
        }
        match self.idle_again.check() {
            Check::Read(read) => GateTurnStep::ReadAgain(read),
            Check::Refuse => GateTurnStep::Stop,
            Check::Pass => GateTurnStep::Review(request.clone()),
        }
    }

    /// Does at the review gate what is to be done there next: finds out which
    /// review is pending, or resets it.
    pub fn meet_gate(&mut self, gate: &mut GoalReviewGateState)
        ensures
            match old(self).step() {
                GateTurnStep::ReadPending => {
                    &&& final(gate)@ == old(gate)@
                    &&& *final(self) == (GateTurnFacts {
                        pending: final(self).pending,
                        ..*old(self)
                    })
                    &&& final(self).pending matches Some(found) && optional_request(found) == old(
                        gate,
                    )@.pending
                },
                GateTurnStep::Reset => final(gate)@ == GateView::initial() && *final(self) == *old(
                    self,
                ),
                _ => final(gate)@ == old(gate)@ && *final(self) == *old(self),
            },
    {
        match self.maybe_start_goal_review_gate_turn() {
            GateTurnStep::ReadPending => {
                self.pending = Some(gate.pending());
            },
            GateTurnStep::Reset => {
                gate.reset_goal_review_gate();
            },
            _ => {},
        }
    }
}

/// A review is run exactly where goals play a part, it is pending, its goal is
/// the active one, and the session was idle both before and after that was read.
pub proof fn law_review_runs_exactly_when(facts: GateTurnFacts, request: GoalReviewGateRequest)
    ensures
        facts.step() == GateTurnStep::Review(request) <==> {
            &&& facts.admission.goals_enabled == Some(true)
            &&& facts.admission.goals_ignored == Some(false)
            &&& facts.idle.active_turn == Some(false)
            &&& facts.idle.queued_items == Some(false)
            &&& facts.idle.mailbox_items == Some(false)
            &&& facts.pending == Some(Some(request))
            &&& facts.goal.state_db == Some(StateDb::Opened)
            &&& facts.goal.goal matches Some(GoalRead::Found(goal))
            &&& goal.goal_id@ == request.goal_id@
            &&& goal.status is Active
            &&& facts.idle_again.active_turn == Some(false)
            &&& facts.idle_again.queued_items == Some(false)
            &&& facts.idle_again.mailbox_items == Some(false)
        },
{
}

/// The review gate is reset exactly where an idle session found a review pending whose
/// goal, read from the database, is not the active one.
pub proof fn law_gate_is_reset_exactly_when(facts: GateTurnFacts)
    ensures
        facts.step() == GateTurnStep::Reset <==> {
            &&& facts.admission.goals_enabled == Some(true)
            &&& facts.admission.goals_ignored == Some(false)
            &&& facts.idle.active_turn == Some(false)
            &&& facts.idle.queued_items == Some(false)
            &&& facts.idle.mailbox_items == Some(false)
            &&& facts.pending matches Some(Some(request))
            &&& facts.goal.state_db == Some(StateDb::Opened)
            &&& facts.goal.goal is Some
            &&& !(facts.goal.goal matches Some(GoalRead::Found(goal)) && goal.goal_id@
                == request.goal_id@ && goal.status is Active)
        },
{
}

/// Only what is not known is asked for.
pub proof fn law_gate_turn_asks_for_the_unknown(facts: GateTurnFacts)
    ensures
        match facts.step() {
            GateTurnStep::Read(read) => match read {
                SessionRead::Feature => facts.admission.goals_enabled is None,
                SessionRead::Mode => facts.admission.goals_ignored is None,
                SessionRead::ActiveTurn => facts.idle.active_turn is None,
                SessionRead::QueuedItems => facts.idle.queued_items is None,
                SessionRead::MailboxItems => facts.idle.mailbox_items is None,
                SessionRead::StateDb => facts.goal.state_db is None,
                SessionRead::Goal => facts.goal.goal is None,
            },
            GateTurnStep::ReadPending => facts.pending is None,
            GateTurnStep::ReadAgain(read) => match read {
                SessionRead::ActiveTurn => facts.idle_again.active_turn is None,
                SessionRead::QueuedItems => facts.idle_again.queued_items is None,
                SessionRead::MailboxItems => facts.idle_again.mailbox_items is None,
                _ => false,
            },
            _ => true,
        },
{
}

/// The turn stops exactly where something that is known ends it: goals are disabled
/// or ignored, the session is busy at the first look or at the second, no review
/// is pending, or the database is missing or fails. A fact ends it only once all
/// that is asked for before it is known and goes well.
pub proof fn law_gate_turn_stops_exactly_when(facts: GateTurnFacts)
    ensures
        ({
            let admitted = facts.admission.goals_enabled == Some(true)
                && facts.admission.goals_ignored == Some(false);
            let idle = facts.idle.active_turn == Some(false) && facts.idle.queued_items == Some(
                false,
            ) && facts.idle.mailbox_items == Some(false);
            let found = admitted && idle && (facts.pending matches Some(Some(_)));
            let current = found && facts.goal.state_db == Some(StateDb::Opened) && (
            facts.goal.goal matches Some(GoalRead::Found(goal)) && goal.goal_id@
                == facts.pending->0->0.goal_id@ && goal.status is Active);
            facts.step() == GateTurnStep::Stop <==> {
                ||| facts.admission.goals_enabled == Some(false)
                ||| facts.admission.goals_enabled == Some(true) && facts.admission.goals_ignored
                    == Some(true)
                ||| admitted && facts.idle.active_turn == Some(true)
                ||| admitted && facts.idle.active_turn == Some(false) && facts.idle.queued_items
                    == Some(true)
                ||| admitted && facts.idle.active_turn == Some(false) && facts.idle.queued_items
                    == Some(false) && facts.idle.mailbox_items == Some(true)
                ||| admitted && idle && (facts.pending matches Some(None))
                ||| found && facts.goal.state_db == Some(StateDb::Missing)
                ||| found && facts.goal.state_db == Some(StateDb::Failed)
                ||| current && facts.idle_again.active_turn == Some(true)
                ||| current && facts.idle_again.active_turn == Some(false)
                    && facts.idle_again.queued_items == Some(true)
                ||| current && facts.idle_again.active_turn == Some(false)
                    && facts.idle_again.queued_items == Some(false)
                    && facts.idle_again.mailbox_items == Some(true)
            }
        }),
{
}

/// Each thing is asked for exactly where it is the first that is not known, and
/// all before it went well: whether goals play a part, whether the session is
/// idle, which review is pending, the database, the goal, and whether the session
/// is still idle.
pub proof fn law_gate_turn_asks_for_the_first_unknown(facts: GateTurnFacts)
    ensures
        ({
            let admitted = facts.admission.goals_enabled == Some(true)
                && facts.admission.goals_ignored == Some(false);
            let idle = admitted && facts.idle.active_turn == Some(false)
                && facts.idle.queued_items == Some(false) && facts.idle.mailbox_items == Some(
                false,
            );
            let found = idle && (facts.pending matches Some(Some(_)));
            let current = found && facts.goal.state_db == Some(StateDb::Opened) && (
            facts.goal.goal matches Some(GoalRead::Found(goal)) && goal.goal_id@
                == facts.pending->0->0.goal_id@ && goal.status is Active);
            let step = facts.step();
            &&& step == GateTurnStep::Read(SessionRead::Feature)
                <==> facts.admission.goals_enabled is None
            &&& step == GateTurnStep::Read(SessionRead::Mode) <==> facts.admission.goals_enabled
                == Some(true) && facts.admission.goals_ignored is None
            &&& step == GateTurnStep::Read(SessionRead::ActiveTurn) <==> admitted
                && facts.idle.active_turn is None
            &&& step == GateTurnStep::Read(SessionRead::QueuedItems) <==> admitted
                && facts.idle.active_turn == Some(false) && facts.idle.queued_items is None
            &&& step == GateTurnStep::Read(SessionRead::MailboxItems) <==> admitted
                && facts.idle.active_turn == Some(false) && facts.idle.queued_items == Some(false)
                && facts.idle.mailbox_items is None
            &&& step == GateTurnStep::ReadPending <==> idle && facts.pending is None
            &&& step == GateTurnStep::Read(SessionRead::StateDb) <==> found
                && facts.goal.state_db is None
            &&& step == GateTurnStep::Read(SessionRead::Goal) <==> found && facts.goal.state_db
                == Some(StateDb::Opened) && facts.goal.goal is None
            &&& step == GateTurnStep::ReadAgain(SessionRead::ActiveTurn) <==> current
                && facts.idle_again.active_turn is None
            &&& step == GateTurnStep::ReadAgain(SessionRead::QueuedItems) <==> current
                && facts.idle_again.active_turn == Some(false)
                && facts.idle_again.queued_items is None
            &&& step == GateTurnStep::ReadAgain(SessionRead::MailboxItems) <==> current
                && facts.idle_again.active_turn == Some(false) && facts.idle_again.queued_items
                == Some(false) && facts.idle_again.mailbox_items is None
        }),
{
}

impl GateTurnFacts {
    /// The facts once what a step asks for was found out, as it is in `world`.
    pub open spec fn with_answer(self, step: GateTurnStep, world: GateTurnFacts) -> GateTurnFacts {
        match step {
            GateTurnStep::Read(SessionRead::Feature) => GateTurnFacts {
                admission: AdmissionFacts {
                    goals_enabled: world.admission.goals_enabled,
                    ..self.admission
                },
                ..self
            },
            GateTurnStep::Read(SessionRead::Mode) => GateTurnFacts {
                admission: AdmissionFacts {
                    goals_ignored: world.admission.goals_ignored,
                    ..self.admission
                },
                ..self
            },
            GateTurnStep::Read(SessionRead::ActiveTurn) => GateTurnFacts {
                idle: IdleFacts { active_turn: world.idle.active_turn, ..self.idle },
                ..self
            },
            GateTurnStep::Read(SessionRead::QueuedItems) => GateTurnFacts {
                idle: IdleFacts { queued_items: world.idle.queued_items, ..self.idle },
                ..self
            },
            GateTurnStep::Read(SessionRead::MailboxItems) => GateTurnFacts {
                idle: IdleFacts { mailbox_items: world.idle.mailbox_items, ..self.idle },
                ..self
            },
            GateTurnStep::ReadPending => GateTurnFacts { pending: world.pending, ..self },
            GateTurnStep::Read(SessionRead::StateDb) => GateTurnFacts {
                goal: GoalFacts { state_db: world.goal.state_db, ..self.goal },
                ..self
            },
            GateTurnStep::Read(SessionRead::Goal) => GateTurnFacts {
                goal: GoalFacts { goal: world.goal.goal, ..self.goal },
                ..self
            },
            GateTurnStep::ReadAgain(SessionRead::ActiveTurn) => GateTurnFacts {
                idle_again: IdleFacts {
                    active_turn: world.idle_again.active_turn,
                    ..self.idle_again
                },
                ..self
            },
            GateTurnStep::ReadAgain(SessionRead::QueuedItems) => GateTurnFacts {
                idle_again: IdleFacts {
                    queued_items: world.idle_again.queued_items,
                    ..self.idle_again
                },
                ..self
            },
            GateTurnStep::ReadAgain(SessionRead::MailboxItems) => GateTurnFacts {
                idle_again: IdleFacts {
                    mailbox_items: world.idle_again.mailbox_items,
                    ..self.idle_again
                },
                ..self
            },
            _ => self,
        }
    }

    /// The step that comes up once `count` of the things asked for were found
    /// out, one after the other.
    pub open spec fn step_after(self, world: GateTurnFacts, count: nat) -> GateTurnStep
        decreases count,
    {
        if count == 0 {
            self.step()
        } else {
            self.with_answer(self.step(), world).step_after(world, (count - 1) as nat)
        }
    }
}

/// Where goals play a part, the session is and stays idle, and the goal of the
/// pending review is the active one, a turn that starts out knowing nothing comes
/// to run that review: finding out what it asks for, one thing after the other,
/// takes it there.
pub proof fn law_gate_turn_comes_to_the_review(
    start: GateTurnFacts,
    world: GateTurnFacts,
    request: GoalReviewGateRequest,
)
    requires
        start.admission.goals_enabled is None && start.admission.goals_ignored is None,
        start.idle.active_turn is None && start.idle.queued_items is None
            && start.idle.mailbox_items is None,
        start.pending is None,
        start.goal.state_db is None && start.goal.goal is None,
        start.idle_again.active_turn is None && start.idle_again.queued_items is None
            && start.idle_again.mailbox_items is None,
        world.admission.goals_enabled == Some(true) && world.admission.goals_ignored == Some(false),
        world.idle.active_turn == Some(false) && world.idle.queued_items == Some(false)
            && world.idle.mailbox_items == Some(false),
        world.pending == Some(Some(request)),
        world.goal.state_db == Some(StateDb::Opened),
        world.goal.goal matches Some(GoalRead::Found(goal)) && goal.goal_id@ == request.goal_id@
            && goal.status is Active,
        world.idle_again.active_turn == Some(false) && world.idle_again.queued_items == Some(false)
            && world.idle_again.mailbox_items == Some(false),
    ensures
        start.step_after(world, 11) == GateTurnStep::Review(request),
{
    reveal_with_fuel(GateTurnFacts::step_after, 12);
}

} // verus!
