//! The review gate of a goal: what stands between work on a goal and the claim
//! that it is complete.
use crate::goal::ThreadGoal;
use crate::text::same_text;
use vstd::prelude::*;

verus! {

/// What stands for the output of a review that gave none.
pub const NO_REVIEW_OUTPUT: &'static str = "Goal review did not complete successfully.";

/// A review of a goal that was asked for.
#[derive(Debug, PartialEq, Eq)]
pub struct GoalReviewGateRequest {
    pub goal_id: String,
    pub objective: String,
    pub modified_diff: Option<String>,
}

/// What a review of a goal came to.
#[derive(Debug, PartialEq, Eq)]
pub struct GoalReviewGateOutcome {
    pub goal_id: String,
    pub passed: bool,
    pub review_output: String,
}

/// The state of the review gate.
#[derive(Debug, PartialEq, Eq)]
pub struct GoalReviewGateState {
    pending: Option<GoalReviewGateRequest>,
    completed: Option<GoalReviewGateOutcome>,
    passed_goal_id: Option<String>,
    dirty_since_review: bool,
}

/// A review that was asked for, over texts.
pub struct RequestView {
    pub goal_id: Seq<char>,
    pub objective: Seq<char>,
    pub modified_diff: Option<Seq<char>>,
}

/// What a review came to, over texts.
pub struct OutcomeView {
    pub goal_id: Seq<char>,
    pub passed: bool,
    pub review_output: Seq<char>,
}

/// The state of the review gate, over texts.
pub struct GateView {
    /// The review that was asked for and has not come to an end.
    pub pending: Option<RequestView>,
    /// The review that came to an end and has not been acted on.
    pub completed: Option<OutcomeView>,
    /// The goal that passed its review and was not touched since.
    pub passed_goal_id: Option<Seq<char>>,
    /// Whether anything was modified that no passed review covers.
    pub dirty_since_review: bool,
}

/// The text that an optional string holds.
pub open spec fn optional_text(s: Option<String>) -> Option<Seq<char>> {
    match s {
        Some(text) => Some(text@),
        None => None,
    }
}

/// The review that an optional request asks for, over texts.
pub open spec fn optional_request(request: Option<GoalReviewGateRequest>) -> Option<RequestView> {
    match request {
        Some(r) => Some(r@),
        None => None,
    }
}

/// What an optional review came to, over texts.
pub open spec fn optional_outcome(outcome: Option<GoalReviewGateOutcome>) -> Option<OutcomeView> {
    match outcome {
        Some(o) => Some(o@),
        None => None,
    }
}

/// Whether completing a call of the tool may have modified something.
pub open spec fn is_modifying_tool(tool_name: Seq<char>) -> bool {
    ||| tool_name == "apply_patch"@
    ||| tool_name == "shell_command"@
    ||| tool_name == "exec_command"@
    ||| tool_name == "write_stdin"@
}

impl View for GoalReviewGateRequest {
    type V = RequestView;

    open spec fn view(&self) -> RequestView {
        RequestView {
            goal_id: self.goal_id@,
            objective: self.objective@,
            modified_diff: optional_text(self.modified_diff),
        }
    }
}

impl View for GoalReviewGateOutcome {
    type V = OutcomeView;

    open spec fn view(&self) -> OutcomeView {
        OutcomeView {
            goal_id: self.goal_id@,
            passed: self.passed,
            review_output: self.review_output@,
        }
    }
}

impl View for GoalReviewGateState {
    type V = GateView;

    closed spec fn view(&self) -> GateView {
        GateView {
            pending: optional_request(self.pending),
            completed: optional_outcome(self.completed),
            passed_goal_id: optional_text(self.passed_goal_id),
            dirty_since_review: self.dirty_since_review,
        }
    }
}

impl GateView {
    /// The review gate at first, and after a reset: nothing asked for, nothing
    /// modified, nothing passed.
    pub open spec fn initial() -> GateView {
        GateView {
            pending: None,
            completed: None,
            passed_goal_id: None,
            dirty_since_review: false,
        }
    }

    /// Whether asking for a review of a goal, with a diff of what was modified
    /// if there is one, gets one: something was modified that no passed review
    /// of the goal covers.
    pub open spec fn owes_review(self, goal_id: Seq<char>, diff: Option<Seq<char>>) -> bool {
        ||| diff is Some
        ||| self.dirty_since_review && self.passed_goal_id != Some(goal_id)
    }

    /// The review gate after a review of a goal was asked for.
    pub open spec fn after_request(
        self,
        goal_id: Seq<char>,
        objective: Seq<char>,
        diff: Option<Seq<char>>,
    ) -> GateView {
        if self.owes_review(goal_id, diff) {
            GateView {
                pending: Some(RequestView { goal_id, objective, modified_diff: diff }),
                completed: None,
                passed_goal_id: if diff is Some {
                    None
                } else {
                    self.passed_goal_id
                },
                dirty_since_review: true,
            }
        } else {
            self
        }
    }

    /// Whether the pending review is one of the goal.
    pub open spec fn is_pending(self, goal_id: Seq<char>) -> bool {
        self.pending matches Some(request) && request.goal_id == goal_id
    }

    /// The review gate after a review of a goal came to an end. What it came to counts
    /// only while the review is still pending, and is kept only while the goal
    /// is still the active one.
    pub open spec fn after_review(
        self,
        goal_id: Seq<char>,
        passed: bool,
        still_active: bool,
        review_output: Seq<char>,
    ) -> GateView {
        let passed_current_goal = passed && still_active;
        if self.is_pending(goal_id) {
            GateView {
                pending: None,
                completed: if still_active {
                    Some(OutcomeView { goal_id, passed: passed_current_goal, review_output })
                } else {
                    None
                },
                passed_goal_id: if passed_current_goal {
                    Some(goal_id)
                } else {
                    None
                },
                dirty_since_review: !passed_current_goal,
            }
        } else {
            self
        }
    }

    /// Whether a review of the goal waits to be acted on.
    pub open spec fn is_completed(self, goal_id: Seq<char>) -> bool {
        self.completed matches Some(outcome) && outcome.goal_id == goal_id
    }

    /// The review gate after the review of a goal that waited to be acted on was taken.
    pub open spec fn after_take(self, goal_id: Seq<char>) -> GateView {
        if self.is_completed(goal_id) {
            GateView { completed: None, ..self }
        } else {
            self
        }
    }

    /// The review gate after a call of a tool was completed: no review counts any
    /// more, and a tool that modifies leaves something to review.
    pub open spec fn after_tool(self, tool_name: Seq<char>) -> GateView {
        GateView {
            pending: self.pending,
            completed: None,
            passed_goal_id: None,
            dirty_since_review: self.dirty_since_review || is_modifying_tool(tool_name),
        }
    }
}

impl Clone for GoalReviewGateRequest {
    fn clone(&self) -> (copy: Self)
        ensures
            copy == *self,
    {
        GoalReviewGateRequest {
            goal_id: self.goal_id.clone(),
            objective: self.objective.clone(),
            modified_diff: match &self.modified_diff {
                Some(diff) => Some(diff.clone()),
                None => None,
            },
        }
    }
}

impl Clone for GoalReviewGateOutcome {
    fn clone(&self) -> (copy: Self)
        ensures
            copy == *self,
    {
        GoalReviewGateOutcome {
            goal_id: self.goal_id.clone(),
            passed: self.passed,
            review_output: self.review_output.clone(),
        }
    }
}

impl Default for GoalReviewGateState {
    fn default() -> (gate: Self)
        ensures
            gate@ == GateView::initial(),
    {
        GoalReviewGateState {
            pending: None,
            completed: None,
            passed_goal_id: None,
            dirty_since_review: false,
        }
    }
}

impl GoalReviewGateState {
    /// The review that was asked for and has not come to an end.
    pub fn pending(&self) -> (request: Option<GoalReviewGateRequest>)
        ensures
            optional_request(request) == self@.pending,
    {
        match &self.pending {
            Some(request) => Some(request.clone()),
            None => None,
        }
    }

    /// The review that came to an end and has not been acted on.
    pub fn completed(&self) -> (outcome: Option<GoalReviewGateOutcome>)
        ensures
            optional_outcome(outcome) == self@.completed,
    {
        match &self.completed {
            Some(outcome) => Some(outcome.clone()),
            None => None,
        }
    }

    /// Asks for a review of the goal; says whether there is to be one.
    pub fn request_review(&mut self, goal: &ThreadGoal, modified_diff: Option<String>) -> (
        scheduled: bool)
        ensures
            scheduled == old(self)@.owes_review(goal.goal_id@, optional_text(modified_diff)),
            final(self)@ == old(self)@.after_request(
                goal.goal_id@,
                goal.objective@,
                optional_text(modified_diff),
            ),
    {
        if modified_diff.is_some() {
            self.dirty_since_review = true;
            self.passed_goal_id = None;
        }
        if !self.dirty_since_review {
            return false;
        }
        let passed: bool = match &self.passed_goal_id {
            Some(passed_goal_id) => *passed_goal_id == goal.goal_id,
            None => false,
        };
        if passed {
            return false;
        }
        self.pending = Some(
            GoalReviewGateRequest {
                goal_id: goal.goal_id.clone(),
                objective: goal.objective.clone(),
                modified_diff,
            },
        );
        self.completed = None;
        true
    }

    /// Takes note that the review `reviewed` came to an end.
    pub fn complete_review(
        &mut self,
        reviewed: &GoalReviewGateRequest,
        passed: bool,
        still_active: bool,
        review_output: Option<String>,
    )
        ensures
            final(self)@ == old(self)@.after_review(
                reviewed.goal_id@,
                passed,
                still_active,
                match review_output {
                    Some(output) => output@,
                    None => NO_REVIEW_OUTPUT@,
                },
            ),
    {
        let passed_current_goal: bool = passed && still_active;
        let output: String = match review_output {
            Some(output) => output,
            None => NO_REVIEW_OUTPUT.to_owned(),
        };
        let is_pending: bool = match &self.pending {
            Some(request) => request.goal_id == reviewed.goal_id,
            None => false,
        };
        if is_pending {
            self.pending = None;
            self.completed = if still_active {
                Some(
                    GoalReviewGateOutcome {
                        goal_id: reviewed.goal_id.clone(),
                        passed: passed_current_goal,
                        review_output: output,
                    },
                )
            } else {
                None
            };
            self.passed_goal_id = if passed_current_goal {
                Some(reviewed.goal_id.clone())
            } else {
                None
            };
            self.dirty_since_review = !passed_current_goal;
        }
    }

    /// Takes the review of the goal that waits to be acted on; says whether
    /// there was one.
    pub fn take_completed(&mut self, goal_id: &str) -> (taken: bool)
        ensures
            taken == old(self)@.is_completed(goal_id@),
            final(self)@ == old(self)@.after_take(goal_id@),
    {
        let taken: bool = match &self.completed {
            Some(completed) => same_text(completed.goal_id.as_str(), goal_id),
            None => false,
        };
        if taken {
            self.completed = None;
        }
        taken
    }

    /// Forgets everything.
    pub fn reset_goal_review_gate(&mut self)
        ensures
            final(self)@ == GateView::initial(),
    {
        self.pending = None;
        self.completed = None;
        self.passed_goal_id = None;
        self.dirty_since_review = false;
    }

    /// Takes note that a call of a tool was completed.
    pub fn invalidate_goal_review_gate_after_tool_completion(&mut self, tool_name: &str)
        ensures
            final(self)@ == old(self)@.after_tool(tool_name@),
    {
        self.passed_goal_id = None;
        self.completed = None;
        if same_text(tool_name, "apply_patch") || same_text(tool_name, "shell_command")
            || same_text(tool_name, "exec_command") || same_text(tool_name, "write_stdin") {
            self.dirty_since_review = true;
        }
    }
}

impl GateView {
    /// What holds of the review gate at any time. At most one review is on its way, and
    /// while one is pending there is something to review. A goal counts as
    /// passed only while nothing was modified since. A review that waits to be
    /// acted on agrees with the rest: if it passed, its goal counts as passed,
    /// else there is still something to review.
    pub open spec fn consistent(self) -> bool {
        &&& self.pending is Some ==> self.dirty_since_review && self.completed is None
        &&& self.passed_goal_id is Some ==> !self.dirty_since_review
        &&& self.completed matches Some(outcome) ==> if outcome.passed {
            self.passed_goal_id == Some(outcome.goal_id)
        } else {
            self.dirty_since_review
        }
    }
}

/// A review gate starts out consistent, and everything that is done to it keeps it so.
pub proof fn law_gate_stays_consistent(
    gate: GateView,
    goal_id: Seq<char>,
    objective: Seq<char>,
    diff: Option<Seq<char>>,
    passed: bool,
    still_active: bool,
    review_output: Seq<char>,
    tool_name: Seq<char>,
)
    requires
        gate.consistent(),
    ensures
        GateView::initial().consistent(),
        gate.after_request(goal_id, objective, diff).consistent(),
        gate.after_review(goal_id, passed, still_active, review_output).consistent(),
        gate.after_take(goal_id).consistent(),
        gate.after_tool(tool_name).consistent(),
{
}

/// A goal comes to count as passed in one way only: a review of it that was
/// pending passed while it was the active goal.
pub proof fn law_only_a_passed_review_passes_a_goal(
    gate: GateView,
    goal_id: Seq<char>,
    objective: Seq<char>,
    diff: Option<Seq<char>>,
    passed: bool,
    still_active: bool,
    review_output: Seq<char>,
    tool_name: Seq<char>,
    winner: Seq<char>,
)
    requires
        gate.passed_goal_id != Some(winner),
    ensures
        GateView::initial().passed_goal_id != Some(winner),
        gate.after_request(goal_id, objective, diff).passed_goal_id != Some(winner),
        gate.after_take(goal_id).passed_goal_id != Some(winner),
        gate.after_tool(tool_name).passed_goal_id != Some(winner),
        gate.after_review(goal_id, passed, still_active, review_output).passed_goal_id == Some(
            winner,
        ) <==> passed && still_active && goal_id == winner && gate.is_pending(winner),
{
}

/// Once a review of the goal has passed, and until something is modified, no
/// further review is due.
pub proof fn law_a_passed_review_closes_the_gate(
    gate: GateView,
    goal_id: Seq<char>,
    review_output: Seq<char>,
    next_goal_id: Seq<char>,
)
    requires
        gate.is_pending(goal_id),
    ensures
        !gate.after_review(goal_id, true, true, review_output).owes_review(next_goal_id, None),
{
}

/// A review that did not pass, or whose goal is no longer the active one, leaves
/// the review gate closed to completion: the next request gets a review.
pub proof fn law_a_failed_review_leaves_a_review_due(
    gate: GateView,
    goal_id: Seq<char>,
    passed: bool,
    still_active: bool,
    review_output: Seq<char>,
    next_goal_id: Seq<char>,
    diff: Option<Seq<char>>,
)
    requires
        gate.is_pending(goal_id),
        !(passed && still_active),
    ensures
        gate.after_review(goal_id, passed, still_active, review_output).owes_review(
            next_goal_id,
            diff,
        ),
{
}

/// After a tool that modifies, the next request gets a review, whatever went
/// before.
pub proof fn law_a_modification_makes_a_review_due(
    gate: GateView,
    tool_name: Seq<char>,
    goal_id: Seq<char>,
    diff: Option<Seq<char>>,
)
    requires
        is_modifying_tool(tool_name),
    ensures
        gate.after_tool(tool_name).owes_review(goal_id, diff),
{
}

/// A tool that does not modify takes back that a goal passed, but makes no
/// review due that was not.
pub proof fn law_other_tools_make_no_review_due(
    gate: GateView,
    tool_name: Seq<char>,
    goal_id: Seq<char>,
)
    requires
        gate.consistent(),
        !is_modifying_tool(tool_name),
    ensures
        gate.after_tool(tool_name).passed_goal_id is None,
        gate.after_tool(tool_name).owes_review(goal_id, None) == gate.owes_review(goal_id, None),
{
}

/// A request that is due leaves its review pending and nothing to act on; one
/// that is not changes nothing.
pub proof fn law_a_request_is_granted_or_changes_nothing(
    gate: GateView,
    goal_id: Seq<char>,
    objective: Seq<char>,
    diff: Option<Seq<char>>,
)
    ensures
        gate.owes_review(goal_id, diff) ==> gate.after_request(goal_id, objective, diff).pending
            == Some(RequestView { goal_id, objective, modified_diff: diff }) && gate.after_request(
            goal_id,
            objective,
            diff,
        ).completed is None,
        !gate.owes_review(goal_id, diff) ==> gate.after_request(goal_id, objective, diff) == gate,
{
}

/// The end of a review that is no longer pending changes nothing.
pub proof fn law_a_stale_review_changes_nothing(
    gate: GateView,
    goal_id: Seq<char>,
    passed: bool,
    still_active: bool,
    review_output: Seq<char>,
)
    requires
        !gate.is_pending(goal_id),
    ensures
        gate.after_review(goal_id, passed, still_active, review_output) == gate,
{
}

/// A review that waits to be acted on is taken once; whoever comes next finds
/// none.
pub proof fn law_a_review_is_taken_once(gate: GateView, goal_id: Seq<char>)
    ensures
        !gate.after_take(goal_id).is_completed(goal_id),
        gate.after_take(goal_id).after_take(goal_id) == gate.after_take(goal_id),
{
}

/// Nothing is due at first, nor after a reset, unless a request brings a diff.
pub proof fn law_nothing_is_due_at_first(goal_id: Seq<char>, diff: Option<Seq<char>>)
    ensures
        GateView::initial().owes_review(goal_id, diff) == (diff is Some),
{
}

/// One thing that happens to a review gate.
pub enum GateEvent {
    /// A review of a goal is asked for.
    Request { goal_id: Seq<char>, objective: Seq<char>, diff: Option<Seq<char>> },
    /// A review of a goal comes to an end.
    Review { goal_id: Seq<char>, passed: bool, still_active: bool, review_output: Seq<char> },
    /// The review of a goal is taken to be acted on.
    Take { goal_id: Seq<char> },
    /// A call of a tool is completed.
    Tool { tool_name: Seq<char> },
    /// Everything is forgotten.
    Reset,
}

impl GateEvent {
    /// Whether the event tells of a modification.
    pub open spec fn modifies(self) -> bool {
        match self {
            GateEvent::Request { diff, .. } => diff is Some,
            GateEvent::Tool { tool_name } => is_modifying_tool(tool_name),
            _ => false,
        }
    }

    /// Whether the event is the end of a review that passed the active goal.
    pub open spec fn passes(self) -> bool {
        self matches GateEvent::Review { passed, still_active, .. } && passed && still_active
    }

    /// Whether the event is the end of a review that passed this goal while it
    /// was active.
    pub open spec fn passes_goal(self, winner: Seq<char>) -> bool {
        self.passes() && self->Review_goal_id == winner
    }

    /// Whether the event takes back that a goal passed.
    pub open spec fn takes_back(self) -> bool {
        self.modifies() || self is Tool || self is Reset
    }
}

impl GateView {
    /// The review gate after something happened to it.
    pub open spec fn after_event(self, event: GateEvent) -> GateView {
        match event {
            GateEvent::Request { goal_id, objective, diff } => self.after_request(
                goal_id,
                objective,
                diff,
            ),
            GateEvent::Review { goal_id, passed, still_active, review_output } => self.after_review(
                goal_id,
                passed,
                still_active,
                review_output,
            ),
            GateEvent::Take { goal_id } => self.after_take(goal_id),
            GateEvent::Tool { tool_name } => self.after_tool(tool_name),
            GateEvent::Reset => GateView::initial(),
        }
    }

    /// The review gate after all that has happened to it.
    pub open spec fn after_history(history: Seq<GateEvent>) -> GateView
        decreases history.len(),
    {
        if history.len() == 0 {
            GateView::initial()
        } else {
            GateView::after_history(history.drop_last()).after_event(history.last())
        }
    }
}

/// Whatever happens to a review gate, it is consistent.
pub proof fn law_every_history_is_consistent(history: Seq<GateEvent>)
    ensures
        GateView::after_history(history).consistent(),
    decreases history.len(),
{
    if history.len() > 0 {
        law_every_history_is_consistent(history.drop_last());
    }
}

/// Whether the event at `i` is the end of a pending review that passed the goal,
/// and nothing since took that back.
pub open spec fn is_last_word_on(history: Seq<GateEvent>, i: int, goal_id: Seq<char>) -> bool {
    &&& 0 <= i < history.len()
    &&& history[i].passes_goal(goal_id)
    &&& GateView::after_history(history.take(i)).is_pending(goal_id)
    &&& forall|j: int| i < j < history.len() ==> !(#[trigger] history[j]).takes_back()
}

/// A goal counts as passed only where a review of it, pending at that time,
/// passed while it was the active goal, and since then nothing was modified, no
/// tool was called and nothing was reset.
pub proof fn law_a_passed_goal_was_reviewed_last(history: Seq<GateEvent>, goal_id: Seq<char>)
    requires
        GateView::after_history(history).passed_goal_id == Some(goal_id),
    ensures
        exists|i: int| #[trigger] is_last_word_on(history, i, goal_id),
    decreases history.len(),
{
    let before = history.drop_last();
    let last = history.len() - 1;
    law_every_history_is_consistent(before);
    if GateView::after_history(before).passed_goal_id == Some(goal_id)
        && !history.last().takes_back() {
        law_a_passed_goal_was_reviewed_last(before, goal_id);
        let i = choose|i: int| #[trigger] is_last_word_on(before, i, goal_id);
        assert(before.take(i) =~= history.take(i));
        assert forall|j: int| i < j < history.len() implies !(#[trigger] history[j]).takes_back() by {
            if j < last {
                assert(before[j] == history[j]);
            }
        }
        assert(is_last_word_on(history, i, goal_id));
    } else {
        assert(history.take(last) =~= before);
        assert(is_last_word_on(history, last, goal_id));
    }
}

/// After a modification every request gets a review, for as long as no review
/// passes and nothing is reset.
pub proof fn law_a_modification_stays_due(
    history: Seq<GateEvent>,
    i: int,
    goal_id: Seq<char>,
    diff: Option<Seq<char>>,
)
    requires
        0 <= i < history.len(),
        history[i].modifies(),
        forall|j: int|
            i < j < history.len() ==> !(#[trigger] history[j]).passes() && history[j] !is Reset,
    ensures
        GateView::after_history(history).dirty_since_review,
        GateView::after_history(history).owes_review(goal_id, diff),
    decreases history.len(),
{
    let before = history.drop_last();
    if i < history.len() - 1 {
        assert(history.last() == history[history.len() - 1]);
        assert(forall|j: int| 0 <= j < before.len() ==> before[j] == history[j]);
        law_a_modification_stays_due(before, i, goal_id, diff);
    }
    law_every_history_is_consistent(history);
}

/// A review is owed exactly where the request brings a diff, or something was
/// modified that no passed review covers and the goal is not the one that passed.
pub proof fn law_a_review_is_owed_exactly_when(
    gate: GateView,
    goal_id: Seq<char>,
    diff: Option<Seq<char>>,
)
    ensures
        diff is Some ==> gate.owes_review(goal_id, diff),
        diff is None ==> (gate.owes_review(goal_id, diff) <==> gate.dirty_since_review
            && gate.passed_goal_id != Some(goal_id)),
{
}

/// A request that is granted leaves exactly its own goal, objective and diff
/// pending and takes the outcome of an earlier review away. One with a diff takes
/// back that a goal passed; one without leaves that as it is. There is something
/// to review afterwards. A request that is not granted changes nothing.
pub proof fn law_a_granted_request_is_pending_as_asked(
    gate: GateView,
    goal_id: Seq<char>,
    objective: Seq<char>,
    diff: Option<Seq<char>>,
)
    ensures
        ({
            let after = gate.after_request(goal_id, objective, diff);
            if diff is Some || (gate.dirty_since_review && gate.passed_goal_id != Some(goal_id)) {
                &&& after.pending matches Some(request)
                &&& request.goal_id == goal_id
                &&& request.objective == objective
                &&& request.modified_diff == diff
                &&& after.completed is None
                &&& after.dirty_since_review
                &&& diff is Some ==> after.passed_goal_id is None
                &&& diff is None ==> after.passed_goal_id == gate.passed_goal_id
            } else {
                after == gate
            }
        }),
{
}

/// The end of the pending review of a goal that is still active leaves exactly
/// that goal, whether it passed, and the output that was handed in, to be acted
/// on, whether it passed or not. The goal then counts as passed exactly where the
/// review did, and there is something left to review exactly where it did not.
/// Where the goal is no longer active, nothing is left to act on and nothing
/// passed. Either way no review is pending.
pub proof fn law_a_review_leaves_its_own_outcome(
    gate: GateView,
    goal_id: Seq<char>,
    passed: bool,
    still_active: bool,
    review_output: Seq<char>,
)
    requires
        gate.pending matches Some(request) && request.goal_id == goal_id,
    ensures
        ({
            let after = gate.after_review(goal_id, passed, still_active, review_output);
            &&& after.pending is None
            &&& still_active ==> {
                &&& after.completed matches Some(outcome)
                &&& outcome.goal_id == goal_id
                &&& outcome.passed == passed
                &&& outcome.review_output == review_output
                &&& after.dirty_since_review == !passed
            }
            &&& still_active && passed ==> after.passed_goal_id == Some(goal_id)
            &&& !still_active ==> after.completed is None && after.dirty_since_review
            &&& !still_active || !passed ==> after.passed_goal_id is None
        }),
{
}

/// The end of a review while no review of its goal is pending changes nothing.
pub proof fn law_an_end_counts_for_the_pending_review_only(
    gate: GateView,
    goal_id: Seq<char>,
    passed: bool,
    still_active: bool,
    review_output: Seq<char>,
)
    ensures
        gate.pending is None ==> gate.after_review(goal_id, passed, still_active, review_output)
            == gate,
        gate.pending matches Some(request) && request.goal_id != goal_id ==> gate.after_review(
            goal_id,
            passed,
            still_active,
            review_output,
        ) == gate,
        gate.is_pending(goal_id) <==> (gate.pending matches Some(request) && request.goal_id
            == goal_id),
{
}

/// Reviews with different outputs leave different outcomes, and so do one that
/// passed and one that did not.
pub proof fn law_outcomes_tell_reviews_apart(
    gate: GateView,
    goal_id: Seq<char>,
    passed: bool,
    output: Seq<char>,
    other_passed: bool,
    other_output: Seq<char>,
)
    requires
        gate.pending matches Some(request) && request.goal_id == goal_id,
        gate.after_review(goal_id, passed, true, output).completed == gate.after_review(
            goal_id,
            other_passed,
            true,
            other_output,
        ).completed,
    ensures
        passed == other_passed,
        output == other_output,
{
}

/// Taking the review of a goal takes away an outcome of that goal and nothing
/// else; without one it changes nothing.
pub proof fn law_a_take_takes_the_outcome_only(gate: GateView, goal_id: Seq<char>)
    ensures
        ({
            let after = gate.after_take(goal_id);
            let waits = gate.completed matches Some(outcome) && outcome.goal_id == goal_id;
            &&& gate.is_completed(goal_id) == waits
            &&& after.completed == if waits {
                None
            } else {
                gate.completed
            }
            &&& after.pending == gate.pending
            &&& after.passed_goal_id == gate.passed_goal_id
            &&& after.dirty_since_review == gate.dirty_since_review
        }),
{
}

/// Completing a call of a tool leaves the review that is pending as it is, for
/// every tool. It takes away the outcome that waits to be acted on, and that a
/// goal passed. What was modified stays so; the tools that modify are the four
/// that patch, run a command or write to one, and no other.
pub proof fn law_a_tool_leaves_the_pending_review(gate: GateView, tool_name: Seq<char>)
    ensures
        gate.after_tool(tool_name).pending == gate.pending,
        gate.after_tool(tool_name).completed is None,
        gate.after_tool(tool_name).passed_goal_id is None,
        gate.dirty_since_review ==> gate.after_tool(tool_name).dirty_since_review,
        !gate.dirty_since_review ==> (gate.after_tool(tool_name).dirty_since_review
            <==> seq!["apply_patch"@, "shell_command"@, "exec_command"@, "write_stdin"@].contains(
            tool_name,
        )),
{
    let modifying = seq!["apply_patch"@, "shell_command"@, "exec_command"@, "write_stdin"@];
    if is_modifying_tool(tool_name) {
        assert(modifying[0] == "apply_patch"@ && modifying[1] == "shell_command"@ && modifying[2]
            == "exec_command"@ && modifying[3] == "write_stdin"@);
    }
}

/// After a reset, and at first, nothing is pending, waits to be acted on, passed
/// or was modified.
pub proof fn law_a_reset_forgets_everything()
    ensures
        GateView::initial().pending is None,
        GateView::initial().completed is None,
        GateView::initial().passed_goal_id is None,
        !GateView::initial().dirty_since_review,
{
}

/// Whether an event can end that the review of a goal is pending: the end of a
/// review of it, a request that is granted, or a reset.
pub open spec fn ends_pending(before: GateView, event: GateEvent, goal_id: Seq<char>) -> bool {
    match event {
        GateEvent::Request { goal_id: asked, diff, .. } => diff is Some || (
        before.dirty_since_review && before.passed_goal_id != Some(asked)),
        GateEvent::Review { goal_id: reviewed, .. } => reviewed == goal_id,
        GateEvent::Take { .. } => false,
        GateEvent::Tool { .. } => false,
        GateEvent::Reset => true,
    }
}

/// A review that is pending stays so, as it was asked for, until a review of its
/// goal ends, another request is granted, or everything is reset. No tool and no
/// taking of an outcome ends it.
pub proof fn law_a_granted_review_stays_pending(
    history: Seq<GateEvent>,
    i: int,
    request: RequestView,
)
    requires
        0 <= i <= history.len(),
        GateView::after_history(history.take(i)).pending == Some(request),
        forall|j: int|
            i <= j < history.len() ==> !ends_pending(
                GateView::after_history(history.take(j)),
                #[trigger] history[j],
                request.goal_id,
            ),
    ensures
        GateView::after_history(history).pending == Some(request),
    decreases history.len(),
{
    if i == history.len() {
        assert(history.take(i) =~= history);
    } else {
        let before = history.drop_last();
        let last = history.len() - 1;
        assert(history.take(last) =~= before);
        assert(before.take(i) =~= history.take(i));
        assert forall|j: int| i <= j < before.len() implies !ends_pending(
            GateView::after_history(before.take(j)),
            #[trigger] before[j],
            request.goal_id,
        ) by {
            assert(before.take(j) =~= history.take(j));
            assert(before[j] == history[j]);
        }
        law_a_granted_review_stays_pending(before, i, request);
        assert(!ends_pending(
            GateView::after_history(history.take(last)),
            history[last],
            request.goal_id,
        ));
    }
}

/// Whether an event can take away the outcome that waits to be acted on.
pub open spec fn ends_waiting(before: GateView, event: GateEvent, goal_id: Seq<char>) -> bool {
    match event {
        GateEvent::Request { goal_id: asked, diff, .. } => diff is Some || (
        before.dirty_since_review && before.passed_goal_id != Some(asked)),
        GateEvent::Review { goal_id: reviewed, .. } => before.pending matches Some(request)
            && request.goal_id == reviewed,
        GateEvent::Take { goal_id: taken } => taken == goal_id,
        GateEvent::Tool { .. } => true,
        GateEvent::Reset => true,
    }
}

/// The outcome of a review waits to be acted on, as it is, until it is taken, a
/// call of a tool is completed, a request is granted, another review that is
/// pending ends, or everything is reset.
pub proof fn law_an_outcome_waits_to_be_taken(
    history: Seq<GateEvent>,
    i: int,
    outcome: OutcomeView,
)
    requires
        0 <= i <= history.len(),
        GateView::after_history(history.take(i)).completed == Some(outcome),
        forall|j: int|
            i <= j < history.len() ==> !ends_waiting(
                GateView::after_history(history.take(j)),
                #[trigger] history[j],
                outcome.goal_id,
            ),
    ensures
        GateView::after_history(history).completed == Some(outcome),
    decreases history.len(),
{
    if i == history.len() {
        assert(history.take(i) =~= history);
    } else {
        let before = history.drop_last();
        let last = history.len() - 1;
        assert(history.take(last) =~= before);
        assert(before.take(i) =~= history.take(i));
        assert forall|j: int| i <= j < before.len() implies !ends_waiting(
            GateView::after_history(before.take(j)),
            #[trigger] before[j],
            outcome.goal_id,
        ) by {
            assert(before.take(j) =~= history.take(j));
            assert(before[j] == history[j]);
        }
        law_an_outcome_waits_to_be_taken(before, i, outcome);
        assert(!ends_waiting(
            GateView::after_history(history.take(last)),
            history[last],
            outcome.goal_id,
        ));
    }
}

/// A request, an outcome, and a text that may be missing show all that they hold.
pub proof fn law_views_hide_nothing(
    request: GoalReviewGateRequest,
    outcome: GoalReviewGateOutcome,
    text: Option<String>,
    pending: Option<GoalReviewGateRequest>,
    completed: Option<GoalReviewGateOutcome>,
)
    ensures
        request@.goal_id == request.goal_id@,
        request@.objective == request.objective@,
        request@.modified_diff is Some <==> request.modified_diff is Some,
        request.modified_diff matches Some(diff) ==> request@.modified_diff == Some(diff@),
        outcome@.goal_id == outcome.goal_id@,
        outcome@.passed == outcome.passed,
        outcome@.review_output == outcome.review_output@,
        text is None ==> optional_text(text) is None,
        text matches Some(held) ==> optional_text(text) == Some(held@),
        pending is None ==> optional_request(pending) is None,
        pending matches Some(held) ==> optional_request(pending) == Some(held@),
        completed is None ==> optional_outcome(completed) is None,
        completed matches Some(held) ==> optional_outcome(completed) == Some(held@),
{
}

} // verus!
