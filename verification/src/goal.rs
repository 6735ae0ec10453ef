//! The goal of a thread and the two files that tell of it.
use crate::text::{is_one_line, law_signed_decimal_tells_the_number, on_one_line, lemma_lines_together, lemma_one_line_together,
    lemma_signed_decimal_is_one_line, lemma_single_line, lemma_starts_of_ended_lines, lines,
    push_signed_decimal, signed_decimal};
use crate::time::{lemma_rfc3339_is_one_line, rfc3339_text, UtcTime};
use vstd::prelude::*;

verus! {

/// Where a goal stands.
#[derive(Debug, PartialEq, Eq)]
pub enum ThreadGoalStatus {
    /// The goal is being worked on.
    Active,
    /// The goal is not being worked on; the text names the reason.
    Inactive(String),
}

/// The name of a thread. It is on one line.
#[derive(Debug, PartialEq, Eq)]
pub struct ThreadId {
    text: String,
}

impl View for ThreadId {
    type V = Seq<char>;

    /// The text of the name. Nothing on several lines is a name.
    closed spec fn view(&self) -> Seq<char> {
        if is_one_line(self.text@) {
            self.text@
        } else {
            seq![]
        }
    }
}

impl Clone for ThreadId {
    fn clone(&self) -> (copy: Self)
        ensures
            copy == *self,
    {
        proof {
            use_type_invariant(self);
        }
        ThreadId { text: self.text.clone() }
    }
}

impl ThreadId {
    #[verifier::type_invariant]
    spec fn on_one_line(&self) -> bool {
        is_one_line(self.text@)
    }

    /// The name that a text is, if it is on one line.
    pub fn from_text(text: &str) -> (id: Option<ThreadId>)
        ensures
            id is Some <==> is_one_line(text@),
            id matches Some(name) ==> name@ == text@,
    {
        if on_one_line(text) {
            Some(ThreadId { text: text.to_owned() })
        } else {
            None
        }
    }

    /// The text of the name.
    pub fn as_str(&self) -> (text: &str)
        ensures
            text@ == self@,
    {
        proof {
            use_type_invariant(self);
        }
        self.text.as_str()
    }
}

/// The name of a thread is on one line.
pub proof fn law_thread_id_is_one_line(id: ThreadId)
    ensures
        is_one_line(id@),
{
}

/// The goal of a thread.
#[derive(Debug, PartialEq, Eq)]
pub struct ThreadGoal {
    pub thread_id: ThreadId,
    pub goal_id: String,
    pub objective: String,
    pub status: ThreadGoalStatus,
    pub token_budget: Option<i64>,
    pub tokens_used: i64,
    pub time_used_seconds: i64,
    pub created_at: UtcTime,
    pub updated_at: UtcTime,
}

/// The name of a status.
pub open spec fn status_text(status: ThreadGoalStatus) -> Seq<char> {
    match status {
        ThreadGoalStatus::Active => "active"@,
        ThreadGoalStatus::Inactive(name) => name@,
    }
}

/// The line of a goal file that names its goal.
pub open spec fn goal_id_line(goal_id: Seq<char>) -> Seq<char> {
    "- Goal ID: `"@ + goal_id + "`"@
}

/// A token budget, or the word for having none.
pub open spec fn budget_text(token_budget: Option<i64>) -> Seq<char> {
    match token_budget {
        Some(budget) => signed_decimal(budget as int),
        None => "none"@,
    }
}

/// The file that states a goal.
pub open spec fn goal_file_text(goal: ThreadGoal) -> Seq<char> {
    "# Goal\n\n"@ + goal_id_line(goal.goal_id@) + "\n- Thread ID: `"@ + goal.thread_id@
        + "`\n- Created: `"@ + rfc3339_text(goal.created_at@) + "`\n- Token budget: `"@
        + budget_text(goal.token_budget) + "`\n\n## Objective\n\n"@ + goal.objective@ + "\n"@
}

/// The file that states how far a goal has come.
pub open spec fn status_file_text(goal: ThreadGoal) -> Seq<char> {
    "# Goal Status\n\n- Status: `"@ + status_text(goal.status) + "`\n- Updated: `"@ + rfc3339_text(
        goal.updated_at@,
    ) + "`\n- Tokens used: `"@ + signed_decimal(goal.tokens_used as int)
        + "`\n- Time used seconds: `"@ + signed_decimal(goal.time_used_seconds as int) + "`\n"@
}

impl Clone for ThreadGoalStatus {
    fn clone(&self) -> (copy: Self)
        ensures
            copy == *self,
    {
        match self {
            ThreadGoalStatus::Active => ThreadGoalStatus::Active,
            ThreadGoalStatus::Inactive(name) => ThreadGoalStatus::Inactive(name.clone()),
        }
    }
}

impl ThreadGoalStatus {
    /// The name of the status.
    pub fn as_str(&self) -> (name: &str)
        ensures
            name@ == status_text(*self),
    {
        match self {
            ThreadGoalStatus::Active => "active",
            ThreadGoalStatus::Inactive(name) => name.as_str(),
        }
    }

    /// Whether the goal is being worked on.
    pub fn is_active(&self) -> (active: bool)
        ensures
            active == (*self is Active),
    {
        match self {
            ThreadGoalStatus::Active => true,
            ThreadGoalStatus::Inactive(_) => false,
        }
    }
}

impl Clone for ThreadGoal {
    fn clone(&self) -> (copy: Self)
        ensures
            copy == *self,
    {
        ThreadGoal {
            thread_id: self.thread_id.clone(),
            goal_id: self.goal_id.clone(),
            objective: self.objective.clone(),
            status: self.status.clone(),
            token_budget: self.token_budget,
            tokens_used: self.tokens_used,
            time_used_seconds: self.time_used_seconds,
            created_at: self.created_at,
            updated_at: self.updated_at,
        }
    }
}

/// The line of a goal file that names its goal.
pub fn render_goal_id_line(goal_id: &str) -> (line: String)
    ensures
        line@ == goal_id_line(goal_id@),
{
    let mut line: String = "- Goal ID: `".to_owned();
    line.append(goal_id);
    line.append("`");
    line
}

/// The file that states a goal.
pub fn render_goal_file(goal: &ThreadGoal) -> (file: String)
    ensures
        file@ == goal_file_text(*goal),
{
    let mut budget: String = String::new();
    match goal.token_budget {
        Some(tokens) => {
            push_signed_decimal(&mut budget, tokens);
        },
        None => {
            budget = "none".to_owned();
        },
    }
    proof {
        assert(budget@ =~= budget_text(goal.token_budget));
    }
    let mut file: String = "# Goal\n\n".to_owned();
    file.append(render_goal_id_line(goal.goal_id.as_str()).as_str());
    file.append("\n- Thread ID: `");
    file.append(goal.thread_id.as_str());
    file.append("`\n- Created: `");
    file.append(goal.created_at.to_rfc3339().as_str());
    file.append("`\n- Token budget: `");
    file.append(budget.as_str());
    file.append("`\n\n## Objective\n\n");
    file.append(goal.objective.as_str());
    file.append("\n");
    file
}

/// The file that states how far a goal has come.
pub fn render_status_file(goal: &ThreadGoal) -> (file: String)
    ensures
        file@ == status_file_text(*goal),
{
    let mut file: String = "# Goal Status\n\n- Status: `".to_owned();
    file.append(goal.status.as_str());
    file.append("`\n- Updated: `");
    file.append(goal.updated_at.to_rfc3339().as_str());
    file.append("`\n- Tokens used: `");
    push_signed_decimal(&mut file, goal.tokens_used);
    file.append("`\n- Time used seconds: `");
    push_signed_decimal(&mut file, goal.time_used_seconds);
    file.append("`\n");
    file
}

/// The part of a goal file before the line that names the goal.
spec fn head_part() -> Seq<char> {
    "# Goal\n\n"@
}

/// A line of a goal file that shows a value.
spec fn value_line(label: Seq<char>, value: Seq<char>) -> Seq<char> {
    label + value + "`"@
}

/// The part of a goal file between its values and the objective.
spec fn middle_part() -> Seq<char> {
    "\n## Objective\n\n"@
}

/// A goal file, by its lines.
proof fn lemma_goal_file_lines(goal: ThreadGoal)
    ensures
        goal_file_text(goal) == head_part() + (goal_id_line(goal.goal_id@) + seq!['\n'])
            + (value_line("- Thread ID: `"@, goal.thread_id@) + seq!['\n']) + (value_line(
            "- Created: `"@,
            rfc3339_text(goal.created_at@),
        ) + seq!['\n']) + (value_line("- Token budget: `"@, budget_text(goal.token_budget)) + seq![
            '\n',
        ]) + middle_part() + (goal.objective@ + seq!['\n']),
{
    reveal_strlit("\n- Thread ID: `");
    reveal_strlit("- Thread ID: `");
    reveal_strlit("`\n- Created: `");
    reveal_strlit("- Created: `");
    reveal_strlit("`\n- Token budget: `");
    reveal_strlit("- Token budget: `");
    reveal_strlit("`\n\n## Objective\n\n");
    reveal_strlit("\n## Objective\n\n");
    reveal_strlit("`");
    reveal_strlit("\n");
    assert("\n- Thread ID: `"@ =~= seq!['\n'] + "- Thread ID: `"@);
    assert("`\n- Created: `"@ =~= "`"@ + seq!['\n'] + "- Created: `"@);
    assert("`\n- Token budget: `"@ =~= "`"@ + seq!['\n'] + "- Token budget: `"@);
    assert("`\n\n## Objective\n\n"@ =~= "`"@ + seq!['\n'] + middle_part());
    assert("\n"@ =~= seq!['\n']);
    assert(goal_file_text(goal) =~= head_part() + (goal_id_line(goal.goal_id@) + seq!['\n']) + (
    value_line("- Thread ID: `"@, goal.thread_id@) + seq!['\n']) + (value_line(
        "- Created: `"@,
        rfc3339_text(goal.created_at@),
    ) + seq!['\n']) + (value_line("- Token budget: `"@, budget_text(goal.token_budget)) + seq![
        '\n',
    ]) + middle_part() + (goal.objective@ + seq!['\n']));
}

/// The line of a value is one line where the value is.
proof fn lemma_value_line(label: Seq<char>, value: Seq<char>)
    requires
        is_one_line(label),
        is_one_line(value),
    ensures
        lines(value_line(label, value) + seq!['\n']) == seq![value_line(label, value)],
        is_one_line(value_line(label, value)),
{
    reveal_strlit("`");
    lemma_one_line_together(label, value);
    lemma_one_line_together(label + value, "`"@);
    lemma_single_line(value_line(label, value));
}

/// The lines of the fixed parts of a goal file.
proof fn lemma_fixed_parts()
    ensures
        lines(head_part()) == seq!["# Goal"@, ""@],
        lines(middle_part()) == seq![""@, "## Objective"@, ""@],
        head_part().last() == '\n',
        middle_part().last() == '\n',
        is_one_line("- Goal ID: `"@),
        is_one_line("- Thread ID: `"@),
        is_one_line("- Created: `"@),
        is_one_line("- Token budget: `"@),
{
    reveal_strlit("# Goal\n\n");
    reveal_strlit("# Goal");
    reveal_strlit("");
    reveal_strlit("\n## Objective\n\n");
    reveal_strlit("## Objective");
    reveal_strlit("- Goal ID: `");
    reveal_strlit("- Thread ID: `");
    reveal_strlit("- Created: `");
    reveal_strlit("- Token budget: `");
    let newline = seq!['\n'];
    assert(head_part() =~= ("# Goal"@ + newline) + (""@ + newline));
    assert(middle_part() =~= (""@ + newline) + ("## Objective"@ + newline) + (""@ + newline));
    lemma_single_line("# Goal"@);
    lemma_single_line("## Objective"@);
    lemma_single_line(""@);
    lemma_lines_together("# Goal"@ + newline, ""@ + newline);
    lemma_lines_together((""@ + newline) + ("## Objective"@ + newline), ""@ + newline);
    lemma_lines_together(""@ + newline, "## Objective"@ + newline);
    assert(lines(head_part()) =~= seq!["# Goal"@, ""@]);
    assert(lines(middle_part()) =~= seq![""@, "## Objective"@, ""@]);
}

/// The file of a goal holds the line that names the goal, where the name is on
/// one line.
pub proof fn law_goal_file_names_its_goal(goal: ThreadGoal)
    requires
        is_one_line(goal.goal_id@),
    ensures
        lines(goal_file_text(goal)).contains(goal_id_line(goal.goal_id@)),
{
    lemma_goal_file_lines(goal);
    lemma_fixed_parts();
    let line = goal_id_line(goal.goal_id@);
    lemma_value_line("- Goal ID: `"@, goal.goal_id@);
    let start = head_part() + (line + seq!['\n']);
    let rest = (value_line("- Thread ID: `"@, goal.thread_id@) + seq!['\n']) + (value_line(
        "- Created: `"@,
        rfc3339_text(goal.created_at@),
    ) + seq!['\n']) + (value_line("- Token budget: `"@, budget_text(goal.token_budget)) + seq![
        '\n',
    ]) + middle_part() + (goal.objective@ + seq!['\n']);
    assert(goal_file_text(goal) =~= start + rest);
    lemma_lines_together(head_part(), line + seq!['\n']);
    lemma_lines_together(start, rest);
    assert(lines(goal_file_text(goal))[2] == line);
}

/// The shown values of a goal file are on one line.
proof fn lemma_values_are_one_line(goal: ThreadGoal)
    ensures
        is_one_line(rfc3339_text(goal.created_at@)),
        is_one_line(budget_text(goal.token_budget)),
{
    lemma_rfc3339_is_one_line(goal.created_at@);
    match goal.token_budget {
        Some(budget) => {
            lemma_signed_decimal_is_one_line(budget as int);
        },
        None => {
            reveal_strlit("none");
        },
    }
}

/// A line that names a goal starts unlike the other lines that are not part of
/// the objective.
proof fn lemma_other_lines_name_no_goal(goal: ThreadGoal, other: Seq<char>)
    ensures
        goal_id_line(other) != "# Goal"@,
        goal_id_line(other) != ""@,
        goal_id_line(other) != "## Objective"@,
        goal_id_line(other) != value_line("- Thread ID: `"@, goal.thread_id@),
        goal_id_line(other) != value_line("- Created: `"@, rfc3339_text(goal.created_at@)),
        goal_id_line(other) != value_line("- Token budget: `"@, budget_text(goal.token_budget)),
        goal_id_line(other) == goal_id_line(goal.goal_id@) ==> other == goal.goal_id@,
{
    reveal_strlit("# Goal");
    reveal_strlit("");
    reveal_strlit("## Objective");
    reveal_strlit("- Goal ID: `");
    reveal_strlit("- Thread ID: `");
    reveal_strlit("- Created: `");
    reveal_strlit("- Token budget: `");
    reveal_strlit("`");
    let line = goal_id_line(other);
    assert(""@.len() == 0);
    assert(line.len() > 0);
    assert(line[0] == '-');
    assert(line[2] == 'G');
    assert(value_line("- Thread ID: `"@, goal.thread_id@)[2] == 'T');
    assert(value_line("- Created: `"@, rfc3339_text(goal.created_at@))[2] == 'C');
    assert(value_line("- Token budget: `"@, budget_text(goal.token_budget))[2] == 'T');
    if line == goal_id_line(goal.goal_id@) {
        let start = "- Goal ID: `"@.len() as int;
        assert(line.subrange(start, line.len() - 1) =~= other);
        assert(line.subrange(start, line.len() - 1) =~= goal.goal_id@);
    }
}

/// The file of a goal holds the line that names another goal only where the
/// objective does.
#[verifier::rlimit(30)]
pub proof fn law_goal_file_names_no_other_goal(goal: ThreadGoal, other: Seq<char>)
    requires
        is_one_line(goal.goal_id@),
        other != goal.goal_id@,
    ensures
        lines(goal_file_text(goal)).contains(goal_id_line(other)) <==> lines(
            goal.objective@ + seq!['\n'],
        ).contains(goal_id_line(other)),
{
    let newline = seq!['\n'];
    let head = head_part();
    let id = goal_id_line(goal.goal_id@);
    let thread = value_line("- Thread ID: `"@, goal.thread_id@);
    let created = value_line("- Created: `"@, rfc3339_text(goal.created_at@));
    let budget = value_line("- Token budget: `"@, budget_text(goal.token_budget));
    let middle = middle_part();
    let objective = goal.objective@ + newline;
    lemma_goal_file_lines(goal);
    lemma_fixed_parts();
    lemma_values_are_one_line(goal);
    lemma_value_line("- Goal ID: `"@, goal.goal_id@);
    law_thread_id_is_one_line(goal.thread_id);
    lemma_value_line("- Thread ID: `"@, goal.thread_id@);
    lemma_value_line("- Created: `"@, rfc3339_text(goal.created_at@));
    lemma_value_line("- Token budget: `"@, budget_text(goal.token_budget));
    let p1 = head + (id + newline);
    let p2 = p1 + (thread + newline);
    let p3 = p2 + (created + newline);
    let p4 = p3 + (budget + newline);
    let p5 = p4 + middle;
    lemma_lines_together(head, id + newline);
    lemma_lines_together(p1, thread + newline);
    lemma_lines_together(p2, created + newline);
    lemma_lines_together(p3, budget + newline);
    lemma_lines_together(p4, middle);
    lemma_lines_together(p5, objective);
    let fixed = seq!["# Goal"@, ""@, id, thread, created, budget, ""@, "## Objective"@, ""@];
    assert(lines(p5) =~= fixed);
    lemma_other_lines_name_no_goal(goal, other);
    let line = goal_id_line(other);
    let all = fixed + lines(objective);
    assert forall|i: int| 0 <= i < fixed.len() implies #[trigger] fixed[i] != line by {}
    if all.contains(line) {
        let i = choose|i: int| 0 <= i < all.len() && all[i] == line;
        if i < fixed.len() {
            assert(all[i] == fixed[i]);
        }
        assert(lines(objective)[i - fixed.len()] == line);
    }
    if lines(objective).contains(line) {
        let i = choose|i: int| 0 <= i < lines(objective).len() && lines(objective)[i] == line;
        assert(all[i + fixed.len()] == line);
    }
}

/// The file of a goal names that goal and no other: it holds the line that names
/// a goal exactly where it is the goal's own. No line of the objective may start
/// as such a line does, and the name of the goal is on one line.
pub proof fn law_goal_file_names_exactly_its_goal(goal: ThreadGoal, id: Seq<char>)
    requires
        is_one_line(goal.goal_id@),
        forall|i: int|
            0 <= i < lines(goal.objective@).len() ==> !"- Goal ID: `"@.is_prefix_of(
                #[trigger] lines(goal.objective@)[i],
            ),
    ensures
        lines(goal_file_text(goal)).contains(goal_id_line(id)) <==> id == goal.goal_id@,
{
    if id == goal.goal_id@ {
        law_goal_file_names_its_goal(goal);
    } else {
        law_goal_file_names_no_other_goal(goal, id);
        reveal_strlit("- Goal ID: `");
        let start = "- Goal ID: `"@;
        assert(goal_id_line(id).subrange(0, start.len() as int) =~= start);
        let ended = lines(goal.objective@ + seq!['\n']);
        if ended.contains(goal_id_line(id)) {
            let i = choose|i: int| 0 <= i < ended.len() && ended[i] == goal_id_line(id);
            lemma_starts_of_ended_lines(goal.objective@, start, i);
        }
    }
}

/// The line that names a goal holds the name in full between two fixed parts, so
/// that it names one goal only.
pub proof fn law_goal_id_lines_name_one_goal(goal_id: Seq<char>, other: Seq<char>)
    ensures
        goal_id_line(goal_id).len() == 13 + goal_id.len(),
        goal_id_line(goal_id).take(12) == "- Goal ID: `"@,
        goal_id_line(goal_id).subrange(12, 12int + goal_id.len()) == goal_id,
        goal_id_line(goal_id).last() == '`',
        goal_id_line(goal_id) == goal_id_line(other) ==> goal_id == other,
{
    reveal_strlit("- Goal ID: `");
    reveal_strlit("`");
    assert(goal_id_line(goal_id).take(12) =~= "- Goal ID: `"@);
    assert(goal_id_line(goal_id).subrange(12, 12int + goal_id.len()) =~= goal_id);
    assert(goal_id_line(other).subrange(12, 12int + other.len()) =~= other);
}

/// A status is shown by its own name, and an active one as `active`. A budget is
/// shown as the number, and no budget as `none`, which no number is shown as.
pub proof fn law_status_and_budget_are_told(status: ThreadGoalStatus, budget: i64, other: i64)
    ensures
        status_text(ThreadGoalStatus::Active) == seq!['a', 'c', 't', 'i', 'v', 'e'],
        status matches ThreadGoalStatus::Inactive(name) ==> status_text(status) == name@,
        budget_text(None) == seq!['n', 'o', 'n', 'e'],
        budget_text(Some(budget)) == signed_decimal(budget as int),
        budget_text(Some(budget)) != budget_text(None),
        budget_text(Some(budget)) == budget_text(Some(other)) ==> budget == other,
{
    reveal_strlit("active");
    reveal_strlit("none");
    assert("active"@ =~= seq!['a', 'c', 't', 'i', 'v', 'e']);
    assert("none"@ =~= seq!['n', 'o', 'n', 'e']);
    law_signed_decimal_tells_the_number(budget as int);
    law_signed_decimal_tells_the_number(other as int);
    if budget >= 0 {
        assert('0' <= signed_decimal(budget as int)[0] <= '9');
    }
    if other >= 0 {
        assert('0' <= signed_decimal(other as int)[0] <= '9');
    }
    assert(budget_text(None)[0] == 'n');
}

/// The fixed parts of the file of a goal.
pub struct GoalFileParts {
    pub before_goal: Seq<char>,
    pub before_thread: Seq<char>,
    pub before_created: Seq<char>,
    pub before_budget: Seq<char>,
    pub before_objective: Seq<char>,
    pub end: Seq<char>,
}

impl GoalFileParts {
    /// Whether the file of every goal is made of these parts, with what the goal
    /// holds in full between them.
    pub open spec fn make_every_file(self) -> bool {
        forall|goal: ThreadGoal| #[trigger]
            goal_file_text(goal) == self.before_goal + goal.goal_id@ + self.before_thread
                + goal.thread_id@ + self.before_created + rfc3339_text(goal.created_at@)
                + self.before_budget + budget_text(goal.token_budget) + self.before_objective
                + goal.objective@ + self.end
    }
}

/// Whatever the goal, its file is made of the same fixed parts, with its name, its
/// thread, the moment it was made, its budget and its objective in full between
/// them, each behind its label.
pub proof fn law_goal_files_are_made_of_fixed_parts()
    ensures
        exists|parts: GoalFileParts|
            {
                &&& #[trigger] parts.make_every_file()
                &&& "- Goal ID: `"@.is_suffix_of(parts.before_goal)
                &&& "- Thread ID: `"@.is_suffix_of(parts.before_thread)
                &&& "- Created: `"@.is_suffix_of(parts.before_created)
                &&& "- Token budget: `"@.is_suffix_of(parts.before_budget)
                &&& "## Objective\n\n"@.is_suffix_of(parts.before_objective)
                &&& parts.end == seq!['\n']
            },
{
    reveal_strlit("# Goal\n\n");
    reveal_strlit("- Goal ID: `");
    reveal_strlit("`");
    reveal_strlit("\n- Thread ID: `");
    reveal_strlit("- Thread ID: `");
    reveal_strlit("`\n- Created: `");
    reveal_strlit("- Created: `");
    reveal_strlit("`\n- Token budget: `");
    reveal_strlit("- Token budget: `");
    reveal_strlit("`\n\n## Objective\n\n");
    reveal_strlit("## Objective\n\n");
    reveal_strlit("\n");
    let parts = GoalFileParts {
        before_goal: "# Goal\n\n"@ + "- Goal ID: `"@,
        before_thread: "`"@ + "\n- Thread ID: `"@,
        before_created: "`\n- Created: `"@,
        before_budget: "`\n- Token budget: `"@,
        before_objective: "`\n\n## Objective\n\n"@,
        end: "\n"@,
    };
    assert forall|goal: ThreadGoal| #[trigger]
        goal_file_text(goal) == parts.before_goal + goal.goal_id@ + parts.before_thread
            + goal.thread_id@ + parts.before_created + rfc3339_text(goal.created_at@)
            + parts.before_budget + budget_text(goal.token_budget) + parts.before_objective
            + goal.objective@ + parts.end by {
        assert(goal_file_text(goal) =~= parts.before_goal + goal.goal_id@ + parts.before_thread
            + goal.thread_id@ + parts.before_created + rfc3339_text(goal.created_at@)
            + parts.before_budget + budget_text(goal.token_budget) + parts.before_objective
            + goal.objective@ + parts.end);
    }
    assert(parts.make_every_file());
    lemma_ends_with(parts.before_goal, "- Goal ID: `"@);
    lemma_ends_with(parts.before_thread, "- Thread ID: `"@);
    lemma_ends_with(parts.before_created, "- Created: `"@);
    lemma_ends_with(parts.before_budget, "- Token budget: `"@);
    lemma_ends_with(parts.before_objective, "## Objective\n\n"@);
    assert(parts.end =~= seq!['\n']);
}

/// A text ends with another that agrees with it from the end on.
proof fn lemma_ends_with(text: Seq<char>, end: Seq<char>)
    requires
        end.len() <= text.len(),
        forall|i: int| 0 <= i < end.len() ==> #[trigger] end[i] == text[text.len() - end.len() + i],
    ensures
        end.is_suffix_of(text),
{
    assert(text.subrange(text.len() - end.len(), text.len() as int) =~= end);
}

/// The fixed parts of the file on how far a goal has come.
pub struct StatusFileParts {
    pub before_status: Seq<char>,
    pub before_updated: Seq<char>,
    pub before_tokens: Seq<char>,
    pub before_time: Seq<char>,
    pub end: Seq<char>,
}

impl StatusFileParts {
    /// Whether the file of every goal is made of these parts, with what the goal
    /// holds in full between them.
    pub open spec fn make_every_file(self) -> bool {
        forall|goal: ThreadGoal| #[trigger]
            status_file_text(goal) == self.before_status + status_text(goal.status)
                + self.before_updated + rfc3339_text(goal.updated_at@) + self.before_tokens
                + signed_decimal(goal.tokens_used as int) + self.before_time + signed_decimal(
                goal.time_used_seconds as int,
            ) + self.end
    }
}

/// Whatever the goal, the file on how far it has come is made of the same fixed
/// parts, with its status, the moment it was last changed, and the tokens and the
/// time used in full between them, each behind its label.
pub proof fn law_status_files_are_made_of_fixed_parts()
    ensures
        exists|parts: StatusFileParts|
            {
                &&& #[trigger] parts.make_every_file()
                &&& "- Status: `"@.is_suffix_of(parts.before_status)
                &&& "- Updated: `"@.is_suffix_of(parts.before_updated)
                &&& "- Tokens used: `"@.is_suffix_of(parts.before_tokens)
                &&& "- Time used seconds: `"@.is_suffix_of(parts.before_time)
                &&& parts.end == seq!['`', '\n']
            },
{
    reveal_strlit("# Goal Status\n\n- Status: `");
    reveal_strlit("- Status: `");
    reveal_strlit("`\n- Updated: `");
    reveal_strlit("- Updated: `");
    reveal_strlit("`\n- Tokens used: `");
    reveal_strlit("- Tokens used: `");
    reveal_strlit("`\n- Time used seconds: `");
    reveal_strlit("- Time used seconds: `");
    reveal_strlit("`\n");
    let parts = StatusFileParts {
        before_status: "# Goal Status\n\n- Status: `"@,
        before_updated: "`\n- Updated: `"@,
        before_tokens: "`\n- Tokens used: `"@,
        before_time: "`\n- Time used seconds: `"@,
        end: "`\n"@,
    };
    assert(parts.make_every_file());
    lemma_ends_with(parts.before_status, "- Status: `"@);
    lemma_ends_with(parts.before_updated, "- Updated: `"@);
    lemma_ends_with(parts.before_tokens, "- Tokens used: `"@);
    lemma_ends_with(parts.before_time, "- Time used seconds: `"@);
    assert(parts.end =~= seq!['`', '\n']);
}

} // verus!
