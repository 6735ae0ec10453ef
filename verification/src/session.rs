//! What the flows of the review gate ask of the session they run in.
//!
//! A flow decides from what it knows so far. Where that is not enough, it names
//! the one thing to find out next; each flow takes care to ask in order, and
//! asks nothing once the answer so far ends it.
use crate::goal::ThreadGoal;
use crate::text::same_text;
use vstd::prelude::*;

verus! {

/// One thing to find out about the session.
#[derive(Debug, Clone, Copy, PartialEq, Eq, Structural)]
pub enum SessionRead {
    /// Whether goals are enabled at all.
    Feature,
    /// Whether the mode of collaboration ignores goals.
    Mode,
    /// Whether a turn is active.
    ActiveTurn,
    /// Whether response items are queued for the next turn.
    QueuedItems,
    /// Whether mailbox items wait that trigger a turn.
    MailboxItems,
    /// Whether the database of states can be opened.
    StateDb,
    /// What the goal of the thread is.
    Goal,
}

/// What the facts so far say.
#[derive(Debug, Clone, Copy, PartialEq, Eq, Structural)]
pub enum Check {
    /// Not enough: this is to be found out next.
    Read(SessionRead),
    /// No.
    Refuse,
    /// Yes.
    Pass,
}

/// What came of opening the database of states.
#[derive(Debug, Clone, Copy, PartialEq, Eq, Structural)]
pub enum StateDb {
    Opened,
    /// The thread has none.
    Missing,
    Failed,
}

/// What came of reading the goal of the thread.
#[derive(Debug, PartialEq, Eq)]
pub enum GoalRead {
    Found(ThreadGoal),
    /// The thread has none.
    Missing,
    Failed,
}

/// Whether goals play a part in the session, as far as it is known.
#[derive(Debug, Clone, Copy, PartialEq, Eq)]
pub struct AdmissionFacts {
    pub goals_enabled: Option<bool>,
    pub goals_ignored: Option<bool>,
}

/// Whether the session is idle, as far as it is known.
#[derive(Debug, Clone, Copy, PartialEq, Eq)]
pub struct IdleFacts {
    pub active_turn: Option<bool>,
    pub queued_items: Option<bool>,
    pub mailbox_items: Option<bool>,
}

/// The goal of the thread, as far as it is known.
#[derive(Debug, PartialEq, Eq)]
pub struct GoalFacts {
    pub state_db: Option<StateDb>,
    pub goal: Option<GoalRead>,
}

/// Whether the goal read is the active one of this name.
pub open spec fn is_current(goal: GoalRead, goal_id: Seq<char>) -> bool {
    goal matches GoalRead::Found(found) && found.goal_id@ == goal_id && found.status is Active
}

impl AdmissionFacts {
    /// Whether goals play a part: they are enabled, and the mode does not
    /// ignore them.
    pub open spec fn spec_check(self) -> Check {
        match (self.goals_enabled, self.goals_ignored) {
            (None, _) => Check::Read(SessionRead::Feature),
            (Some(false), _) => Check::Refuse,
            (Some(true), None) => Check::Read(SessionRead::Mode),
            (Some(true), Some(true)) => Check::Refuse,
            (Some(true), Some(false)) => Check::Pass,
        }
    }

    /// Nothing is known.
    pub fn unknown() -> (facts: AdmissionFacts)
        ensures
            facts == (AdmissionFacts { goals_enabled: None, goals_ignored: None }),
    {
        AdmissionFacts { goals_enabled: None, goals_ignored: None }
    }

    /// Whether goals play a part.
    pub fn check(&self) -> (check: Check)
        ensures
            check == self.spec_check(),
    {
        match self.goals_enabled {
            None => Check::Read(SessionRead::Feature),
            Some(enabled) => if !enabled {
                Check::Refuse
            } else {
                match self.goals_ignored {
                    None => Check::Read(SessionRead::Mode),
                    Some(ignored) => if ignored {
                        Check::Refuse
                    } else {
                        Check::Pass
                    },
                }
            },
        }
    }
}

impl IdleFacts {
    /// Whether the session is idle: no turn is active, and nothing waits that
    /// would start one.
    pub open spec fn spec_check(self) -> Check {
        match (self.active_turn, self.queued_items, self.mailbox_items) {
            (None, _, _) => Check::Read(SessionRead::ActiveTurn),
            (Some(true), _, _) => Check::Refuse,
            (Some(false), None, _) => Check::Read(SessionRead::QueuedItems),
            (Some(false), Some(true), _) => Check::Refuse,
            (Some(false), Some(false), None) => Check::Read(SessionRead::MailboxItems),
            (Some(false), Some(false), Some(true)) => Check::Refuse,
            (Some(false), Some(false), Some(false)) => Check::Pass,
        }
    }

    /// Nothing is known.
    pub fn unknown() -> (facts: IdleFacts)
        ensures
            facts == (IdleFacts { active_turn: None, queued_items: None, mailbox_items: None }),
    {
        IdleFacts { active_turn: None, queued_items: None, mailbox_items: None }
    }

    /// Whether the session is idle.
    pub fn check(&self) -> (check: Check)
        ensures
            check == self.spec_check(),
    {
        match self.active_turn {
            None => {
                return Check::Read(SessionRead::ActiveTurn);
            },
            Some(active) => if active {
                return Check::Refuse;
            },
        }
        match self.queued_items {
            None => {
                return Check::Read(SessionRead::QueuedItems);
            },
            Some(queued) => if queued {
                return Check::Refuse;
            },
        }
        match self.mailbox_items {
            None => Check::Read(SessionRead::MailboxItems),
            Some(waiting) => if waiting {
                Check::Refuse
            } else {
                Check::Pass
            },
        }
    }
}

impl GoalFacts {
    /// Whether the goal of this name is still the active one of the thread. A
    /// database that is missing or fails, and a goal that cannot be read, count
    /// as no.
    pub open spec fn spec_check_current(self, goal_id: Seq<char>) -> Check {
        match (self.state_db, self.goal) {
            (None, _) => Check::Read(SessionRead::StateDb),
            (Some(StateDb::Opened), None) => Check::Read(SessionRead::Goal),
            (Some(StateDb::Opened), Some(goal)) => if is_current(goal, goal_id) {
                Check::Pass
            } else {
                Check::Refuse
            },
            (Some(_), _) => Check::Refuse,
        }
    }

    /// Nothing is known.
    pub fn unknown() -> (facts: GoalFacts)
        ensures
            facts == (GoalFacts { state_db: None, goal: None }),
    {
        GoalFacts { state_db: None, goal: None }
    }

    /// Whether the goal of this name is still the active one of the thread.
    pub fn check_current(&self, goal_id: &str) -> (check: Check)
        ensures
            check == self.spec_check_current(goal_id@),
    {
        match self.state_db {
            None => Check::Read(SessionRead::StateDb),
            Some(StateDb::Missing) => Check::Refuse,
            Some(StateDb::Failed) => Check::Refuse,
            Some(StateDb::Opened) => match &self.goal {
                None => Check::Read(SessionRead::Goal),
                Some(goal) => if goal.names_current(goal_id) {
                    Check::Pass
                } else {
                    Check::Refuse
                },
            },
        }
    }
}

impl GoalRead {
    /// Whether the goal read is the active one of this name.
    pub fn names_current(&self, goal_id: &str) -> (current: bool)
        ensures
            current == is_current(*self, goal_id@),
    {
        match self {
            GoalRead::Found(goal) => same_text(goal.goal_id.as_str(), goal_id)
                && goal.status.is_active(),
            GoalRead::Missing => false,
            GoalRead::Failed => false,
        }
    }
}

/// Goals play a part exactly where they are enabled and not ignored. They play
/// none where they are disabled, or enabled and ignored. What is not known and
/// could still decide is asked for, the feature first.
pub proof fn law_admission(facts: AdmissionFacts)
    ensures
        facts.spec_check() == Check::Pass <==> facts.goals_enabled == Some(true)
            && facts.goals_ignored == Some(false),
        facts.spec_check() == Check::Refuse <==> facts.goals_enabled == Some(false) || (
        facts.goals_enabled == Some(true) && facts.goals_ignored == Some(true)),
        facts.spec_check() == Check::Read(SessionRead::Feature) <==> facts.goals_enabled is None,
        facts.spec_check() == Check::Read(SessionRead::Mode) <==> facts.goals_enabled == Some(true)
            && facts.goals_ignored is None,
{
}

/// A session is idle exactly where none of the three things is the case. It is
/// not as soon as the first of them that is not known to be absent is there.
/// Until then that one is asked for.
pub proof fn law_idle(facts: IdleFacts)
    ensures
        facts.spec_check() == Check::Pass <==> facts.active_turn == Some(false)
            && facts.queued_items == Some(false) && facts.mailbox_items == Some(false),
        facts.spec_check() == Check::Refuse <==> {
            ||| facts.active_turn == Some(true)
            ||| facts.active_turn == Some(false) && facts.queued_items == Some(true)
            ||| facts.active_turn == Some(false) && facts.queued_items == Some(false)
                && facts.mailbox_items == Some(true)
        },
        facts.spec_check() == Check::Read(SessionRead::ActiveTurn) <==> facts.active_turn is None,
        facts.spec_check() == Check::Read(SessionRead::QueuedItems) <==> facts.active_turn == Some(
            false,
        ) && facts.queued_items is None,
        facts.spec_check() == Check::Read(SessionRead::MailboxItems) <==> facts.active_turn == Some(
            false,
        ) && facts.queued_items == Some(false) && facts.mailbox_items is None,
{
}

/// A goal is the active one exactly where it was read under its name, as active,
/// from a database that could be opened. It is not where the database is missing
/// or fails, or something else was read. Until then the database is asked for,
/// and then the goal.
pub proof fn law_current_goal(facts: GoalFacts, goal_id: Seq<char>)
    ensures
        facts.spec_check_current(goal_id) == Check::Pass <==> facts.state_db == Some(
            StateDb::Opened,
        ) && (facts.goal matches Some(GoalRead::Found(goal)) && goal.goal_id@ == goal_id
            && goal.status is Active),
        facts.spec_check_current(goal_id) == Check::Refuse <==> {
            ||| facts.state_db == Some(StateDb::Missing)
            ||| facts.state_db == Some(StateDb::Failed)
            ||| facts.state_db == Some(StateDb::Opened) && facts.goal is Some && !(
            facts.goal matches Some(GoalRead::Found(goal)) && goal.goal_id@ == goal_id
                && goal.status is Active)
        },
        facts.spec_check_current(goal_id) == Check::Read(SessionRead::StateDb)
            <==> facts.state_db is None,
        facts.spec_check_current(goal_id) == Check::Read(SessionRead::Goal) <==> facts.state_db
            == Some(StateDb::Opened) && facts.goal is None,
{
}

/// A read of the goal gives the active goal of a name exactly where it found a
/// goal of that name that is active.
pub proof fn law_a_goal_is_current_by_name_and_status(goal: GoalRead, goal_id: Seq<char>)
    ensures
        is_current(goal, goal_id) <==> (goal matches GoalRead::Found(found) && found.goal_id@
            == goal_id && found.status is Active),
        goal !is Found ==> !is_current(goal, goal_id),
{
}

} // verus!
