//! The run directories of goals: finding the latest one, naming a new one.
use crate::goal::{goal_file_text, goal_id_line, law_goal_file_names_its_goal,
    law_goal_file_names_no_other_goal, render_goal_id_line, ThreadGoal};
use crate::path::{is_absolute, joined, law_a_path_lies_above_what_is_in_it, lies_above, AbsolutePath,
    PathView};
use crate::storage::{law_making_a_directory_adds_only_its_way, Disk, StorageStep, StorageStepView};
use crate::text::{comes_before, digits_value, has_line, is_one_line, law_lex_less_is_irreflexive,
    law_lex_less_is_total, law_lex_less_is_transitive, law_zero_padded_denotes,
    law_zero_padded_is_as_long_as_needed,
    lemma_less_after_same_start, lemma_less_than_longer, lemma_padded_order, lemma_padded_width,
    lex_less, lines, push_zero_padded, starts_with, zero_padded};
use crate::time::{goal_run_dir_name, is_before, law_run_names_follow_time, run_name_text,
    UtcFields, UtcTime};
use vstd::prelude::*;

verus! {

/// The directory of all runs, within the directory of goal data.
pub const RUNS_DIR: &'static str = "runs";

/// The file that states the goal of a run, within its directory.
pub const GOAL_FILE: &'static str = "goal.md";

/// What starts the name of a run directory.
pub const RUN_PREFIX: &'static str = "goal-";

/// The directory of all runs.
pub open spec fn runs_dir(goal_root: PathView) -> PathView {
    joined(goal_root, RUNS_DIR@)
}

/// The directory of the run of a name.
pub open spec fn run_dir_of(goal_root: PathView, run_name: Seq<char>) -> PathView {
    joined(runs_dir(goal_root), run_name)
}

/// A directory that may be a run, by its name, and the goal file in it.
pub struct RunCandidate {
    pub name: Seq<char>,
    pub goal_file: Seq<char>,
}

impl RunCandidate {
    /// Whether this is a run of the goal.
    pub open spec fn is_run_of(self, goal_id: Seq<char>) -> bool {
        &&& RUN_PREFIX@.is_prefix_of(self.name)
        &&& lines(self.goal_file).contains(goal_id_line(goal_id))
    }
}

/// The name of the latest run of the goal among those seen: the one whose name
/// comes last in the order of characters.
pub open spec fn latest_run_name(seen: Seq<RunCandidate>, goal_id: Seq<char>) -> Option<Seq<char>>
    decreases seen.len(),
{
    if seen.len() == 0 {
        None
    } else {
        let earlier = latest_run_name(seen.drop_last(), goal_id);
        if !seen.last().is_run_of(goal_id) {
            earlier
        } else {
            match earlier {
                Some(name) if !lex_less(name, seen.last().name) => earlier,
                _ => Some(seen.last().name),
            }
        }
    }
}

/// What came of opening the directory of all runs.
#[derive(Debug, Clone, Copy, PartialEq, Eq, Structural)]
pub enum RunsDirRead {
    Opened,
    /// There is none.
    Missing,
    Failed,
}

/// What came of reading an entry of the directory of all runs.
#[derive(Debug, PartialEq, Eq)]
pub enum RunEntryRead {
    /// Whether the entry is a directory, and its name, where that is text.
    Entry { is_dir: bool, name: Option<String> },
    /// The entry, or what kind it is, could not be read.
    Failed,
}

/// What came of reading the goal file of a directory that may be a run.
#[derive(Debug, PartialEq, Eq)]
pub enum GoalFileRead {
    Text(String),
    /// There is none.
    Missing,
    Failed,
}

/// What to do about an entry of the directory of all runs.
#[derive(Debug, PartialEq, Eq)]
pub enum RunEntryStep {
    /// Read the goal file of the directory of this name.
    ReadGoalFile { run_name: String, path: AbsolutePath },
    /// Go on to the next entry.
    PassOver,
    /// Look at no more entries.
    Stop,
}

/// What came of a search for the latest run of a goal.
#[derive(Debug, PartialEq, Eq)]
pub enum LatestRun {
    /// The goal has this run.
    Found(AbsolutePath),
    /// The goal has no run.
    Missing,
    /// The search failed.
    Failed,
}

/// The name of the run that an entry may be: that of a directory which starts as
/// the name of a run does.
pub open spec fn run_name_of(read: RunEntryRead) -> Option<Seq<char>> {
    match read {
        RunEntryRead::Entry { is_dir: true, name: Some(name) } if RUN_PREFIX@.is_prefix_of(
            name@,
        ) => Some(name@),
        _ => None,
    }
}

/// An entry of the directory of all runs, with what there is to be read of it.
pub struct ListedEntry {
    pub entry: RunEntryRead,
    /// The goal file, which is read where the entry may be a run.
    pub goal_file: GoalFileRead,
}

impl ListedEntry {
    /// Whether something of the entry that is to be read cannot be.
    pub open spec fn fails(self) -> bool {
        self.entry is Failed || (run_name_of(self.entry) is Some && self.goal_file is Failed)
    }

    /// The candidate that the entry is, where it may be a run and has a goal
    /// file.
    pub open spec fn candidate(self) -> Option<RunCandidate> {
        match (run_name_of(self.entry), self.goal_file) {
            (Some(name), GoalFileRead::Text(text)) => Some(
                RunCandidate { name, goal_file: text@ },
            ),
            _ => None,
        }
    }

    /// Whether the entry is the run of this name of the goal.
    pub open spec fn is_run(self, goal_id: Seq<char>, name: Seq<char>) -> bool {
        self.candidate() matches Some(candidate) && candidate.name == name && candidate.is_run_of(
            goal_id,
        )
    }
}

/// A `LatestRun`, over texts.
pub enum LatestRunView {
    Found(PathView),
    Missing,
    Failed,
}

impl View for LatestRun {
    type V = LatestRunView;

    open spec fn view(&self) -> LatestRunView {
        match self {
            LatestRun::Found(run_dir) => LatestRunView::Found(run_dir@),
            LatestRun::Missing => LatestRunView::Missing,
            LatestRun::Failed => LatestRunView::Failed,
        }
    }
}

/// A search for the latest run of a goal among the entries of the directory of
/// all runs.
pub struct LatestRunSearch {
    runs_dir: AbsolutePath,
    goal_id_line: String,
    latest_run_name: Option<String>,
    failed: bool,
    goal_root: Ghost<PathView>,
    goal_id: Ghost<Seq<char>>,
    seen: Ghost<Seq<RunCandidate>>,
}

/// How far a search for the latest run of a goal has come.
pub struct LatestRunSearchView {
    /// The directory of goal data that is searched.
    pub goal_root: PathView,
    /// The goal whose runs are looked for.
    pub goal_id: Seq<char>,
    /// The candidates so far.
    pub seen: Seq<RunCandidate>,
    /// Whether something could not be read.
    pub failed: bool,
}

impl LatestRunSearchView {
    /// A search that has seen nothing yet.
    pub open spec fn start(goal_root: PathView, goal_id: Seq<char>) -> LatestRunSearchView {
        LatestRunSearchView { goal_root, goal_id, seen: Seq::empty(), failed: false }
    }

    /// The search after the directory of all runs was opened, or was not. Where
    /// there is none, there is nothing to see.
    pub open spec fn after_runs_dir(self, read: RunsDirRead) -> LatestRunSearchView {
        LatestRunSearchView { failed: self.failed || read is Failed, ..self }
    }

    /// The search after an entry was read, or was not.
    pub open spec fn after_entry(self, read: RunEntryRead) -> LatestRunSearchView {
        LatestRunSearchView { failed: self.failed || read is Failed, ..self }
    }

    /// The search after the goal file of a directory was read, or was not. A
    /// directory without one is passed over.
    pub open spec fn after_goal_file(self, run_name: Seq<char>, read: GoalFileRead) -> LatestRunSearchView {
        match read {
            GoalFileRead::Text(text) => LatestRunSearchView {
                seen: self.seen.push(RunCandidate { name: run_name, goal_file: text@ }),
                ..self
            },
            GoalFileRead::Missing => self,
            GoalFileRead::Failed => LatestRunSearchView { failed: true, ..self },
        }
    }

    /// The search after all that is to be read of an entry was read, or was not.
    pub open spec fn after_listed(self, listed: ListedEntry) -> LatestRunSearchView {
        match run_name_of(listed.entry) {
            Some(name) => self.after_entry(listed.entry).after_goal_file(name, listed.goal_file),
            None => self.after_entry(listed.entry),
        }
    }

    /// The search after the entries of a listing, in their order. It ends with
    /// the first one that cannot be read.
    pub open spec fn after_listing(self, listing: Seq<ListedEntry>) -> LatestRunSearchView
        decreases listing.len(),
    {
        if listing.len() == 0 || self.failed {
            self
        } else {
            self.after_listed(listing[0]).after_listing(listing.skip(1))
        }
    }

    /// What the search comes to on a directory of all runs with these entries.
    pub open spec fn outcome(self, dir: RunsDirRead, listing: Seq<ListedEntry>) -> LatestRunView {
        let opened = self.after_runs_dir(dir);
        if dir is Opened {
            opened.after_listing(listing).latest_run()
        } else {
            opened.latest_run()
        }
    }

    /// What the search comes to: one that could not read something fails,
    /// whatever it saw.
    pub open spec fn latest_run(self) -> LatestRunView {
        if self.failed {
            LatestRunView::Failed
        } else {
            match latest_run_name(self.seen, self.goal_id) {
                Some(name) => LatestRunView::Found(run_dir_of(self.goal_root, name)),
                None => LatestRunView::Missing,
            }
        }
    }
}

impl View for LatestRunSearch {
    type V = LatestRunSearchView;

    closed spec fn view(&self) -> LatestRunSearchView {
        LatestRunSearchView {
            goal_root: self.goal_root@,
            goal_id: self.goal_id@,
            seen: self.seen@,
            failed: self.failed,
        }
    }
}

impl LatestRunSearch {
    #[verifier::type_invariant]
    spec fn up_to_date(&self) -> bool {
        &&& self.runs_dir@ == runs_dir(self.goal_root@)
        &&& self.goal_id_line@ == goal_id_line(self.goal_id@)
        &&& match self.latest_run_name {
            Some(name) => latest_run_name(self.seen@, self.goal_id@) == Some(name@),
            None => latest_run_name(self.seen@, self.goal_id@) is None,
        }
    }

    /// A search that has seen nothing yet.
    pub fn new(goal_root: &AbsolutePath, goal_id: &str) -> (search: LatestRunSearch)
        ensures
            search@ == LatestRunSearchView::start(goal_root@, goal_id@),
    {
        LatestRunSearch {
            runs_dir: goal_root.join(RUNS_DIR),
            goal_id_line: render_goal_id_line(goal_id),
            latest_run_name: None,
            failed: false,
            goal_root: Ghost(goal_root@),
            goal_id: Ghost(goal_id@),
            seen: Ghost(Seq::empty()),
        }
    }

    /// The directory whose entries are to be looked at.
    pub fn runs_dir(&self) -> (dir: AbsolutePath)
        ensures
            dir@ == runs_dir(self@.goal_root),
    {
        proof {
            use_type_invariant(self);
        }
        self.runs_dir.clone()
    }

    /// Takes note of what came of opening the directory of all runs; says whether
    /// there are entries to look at.
    pub fn runs_dir_was_opened(&mut self, read: RunsDirRead) -> (goes_on: bool)
        ensures
            goes_on == (read == RunsDirRead::Opened),
            final(self)@ == old(self)@.after_runs_dir(read),
    {
        proof {
            use_type_invariant(&*self);
        }
        match read {
            RunsDirRead::Opened => true,
            RunsDirRead::Missing => false,
            RunsDirRead::Failed => {
                self.failed = true;
                false
            },
        }
    }

    /// Takes note of what came of reading an entry, and says what to do about
    /// it: the goal file of a directory whose name is one of a run is to be
    /// read, other entries are passed over, and where an entry could not be read
    /// the search is over.
    pub fn entry_was_read(&mut self, read: RunEntryRead) -> (step: RunEntryStep)
        ensures
            final(self)@ == old(self)@.after_entry(read),
            match (run_name_of(read), read) {
                (Some(name), _) => step matches RunEntryStep::ReadGoalFile { run_name, path }
                    && run_name@ == name && path@ == joined(
                    run_dir_of(old(self)@.goal_root, name),
                    GOAL_FILE@,
                ),
                (None, RunEntryRead::Entry { .. }) => step is PassOver,
                (None, RunEntryRead::Failed) => step is Stop,
            },
    {
        proof {
            use_type_invariant(&*self);
        }
        match read {
            RunEntryRead::Entry { is_dir, name } => match name {
                Some(run_name) => if is_dir && starts_with(run_name.as_str(), RUN_PREFIX) {
                    let path: AbsolutePath = self.runs_dir.join(run_name.as_str()).join(GOAL_FILE);
                    RunEntryStep::ReadGoalFile { run_name, path }
                } else {
                    RunEntryStep::PassOver
                },
                None => RunEntryStep::PassOver,
            },
            RunEntryRead::Failed => {
                self.failed = true;
                RunEntryStep::Stop
            },
        }
    }

    /// Takes note of what came of reading the goal file of the directory of a
    /// name; says whether to go on to the next entry.
    pub fn goal_file_was_read(&mut self, run_name: String, read: GoalFileRead) -> (goes_on: bool)
        ensures
            goes_on == (read !is Failed),
            final(self)@ == old(self)@.after_goal_file(run_name@, read),
    {
        proof {
            use_type_invariant(&*self);
        }
        match read {
            GoalFileRead::Text(text) => {
                self.consider(run_name, text.as_str());
                true
            },
            GoalFileRead::Missing => true,
            GoalFileRead::Failed => {
                self.failed = true;
                false
            },
        }
    }

    /// Takes the directory of a name and the goal file in it into account.
    fn consider(&mut self, run_name: String, goal_file: &str)
        ensures
            final(self)@ == (LatestRunSearchView {
                seen: old(self)@.seen.push(
                    RunCandidate { name: run_name@, goal_file: goal_file@ },
                ),
                ..old(self)@
            }),
    {
        proof {
            use_type_invariant(&*self);
        }
        let ghost candidate = RunCandidate { name: run_name@, goal_file: goal_file@ };
        let ghost seen = self.seen@.push(candidate);
        proof {
            assert(seen.drop_last() =~= self.seen@);
        }
        let is_run: bool = starts_with(run_name.as_str(), RUN_PREFIX) && has_line(
            goal_file,
            self.goal_id_line.as_str(),
        );
        let later: bool = is_run && match &self.latest_run_name {
            Some(latest) => comes_before(latest.as_str(), run_name.as_str()),
            None => true,
        };
        let latest: Option<String> = if later {
            Some(run_name)
        } else {
            match &self.latest_run_name {
                Some(name) => Some(name.clone()),
                None => None,
            }
        };
        *self = LatestRunSearch {
            runs_dir: self.runs_dir.clone(),
            goal_id_line: self.goal_id_line.clone(),
            latest_run_name: latest,
            failed: self.failed,
            goal_root: Ghost(self.goal_root@),
            goal_id: Ghost(self.goal_id@),
            seen: Ghost(seen),
        };
    }

    /// What the search came to: the directory of the latest run of the goal, if
    /// any was seen and everything could be read.
    pub fn latest_goal_run_dir(&self) -> (latest: LatestRun)
        ensures
            latest@ == self@.latest_run(),
    {
        proof {
            use_type_invariant(self);
        }
        if self.failed {
            return LatestRun::Failed;
        }
        match &self.latest_run_name {
            Some(name) => LatestRun::Found(self.runs_dir.join(name.as_str())),
            None => LatestRun::Missing,
        }
    }
}

/// The name to try as the `attempt`th for a new run: the base name, then the
/// base name with the number of the attempt.
pub open spec fn candidate_name(base_name: Seq<char>, attempt: nat) -> Seq<char> {
    if attempt <= 1 {
        base_name
    } else {
        base_name + "-"@ + zero_padded(attempt, 4)
    }
}

/// A search for a run directory that is not there yet.
pub struct UniqueRunSearch {
    runs_dir: AbsolutePath,
    base_name: String,
    attempt: i32,
}

/// A `UniqueRunSearch`, over texts.
pub struct UniqueRunSearchView {
    pub runs_dir: PathView,
    pub base_name: Seq<char>,
    pub attempt: nat,
}

impl UniqueRunSearchView {
    /// A search that starts with the name of a moment.
    pub open spec fn start(goal_root: PathView, t: UtcFields) -> UniqueRunSearchView {
        UniqueRunSearchView {
            runs_dir: runs_dir(goal_root),
            base_name: run_name_text(t),
            attempt: 1,
        }
    }

    /// The directory that is tried.
    pub open spec fn candidate(self) -> PathView {
        joined(self.runs_dir, candidate_name(self.base_name, self.attempt))
    }

    /// The search that tries the next directory.
    pub open spec fn next(self) -> UniqueRunSearchView {
        UniqueRunSearchView { attempt: self.attempt + 1, ..self }
    }

    /// The directory that the search comes to, with this on disk: the first one
    /// from here on that is not there, if the attempts do not run out.
    pub open spec fn outcome(self, disk: Disk) -> Option<PathView>
        decreases i32::MAX - self.attempt,
    {
        if !disk.holds(self.candidate().native) {
            Some(self.candidate())
        } else if self.attempt < i32::MAX {
            self.next().outcome(disk)
        } else {
            None
        }
    }
}

impl View for UniqueRunSearch {
    type V = UniqueRunSearchView;

    closed spec fn view(&self) -> UniqueRunSearchView {
        UniqueRunSearchView {
            runs_dir: self.runs_dir@,
            base_name: self.base_name@,
            attempt: self.attempt as nat,
        }
    }
}

impl UniqueRunSearch {
    #[verifier::type_invariant]
    spec fn counts_from_one(&self) -> bool {
        self.attempt >= 1
    }

    /// A search that starts with the name of the moment.
    pub fn new(goal_root: &AbsolutePath, timestamp: &UtcTime) -> (search: UniqueRunSearch)
        ensures
            search@ == UniqueRunSearchView::start(goal_root@, timestamp@),
    {
        UniqueRunSearch {
            runs_dir: goal_root.join(RUNS_DIR),
            base_name: goal_run_dir_name(timestamp),
            attempt: 1,
        }
    }

    /// What is to be done before the first try: the directory that all runs lie
    /// in is made.
    pub fn make_runs_dir(&self) -> (step: StorageStep)
        ensures
            step@ == StorageStepView::CreateDirAll(self@.runs_dir),
    {
        StorageStep::CreateDirAll(self.runs_dir.clone())
    }

    /// The directory to try.
    pub fn candidate(&self) -> (dir: AbsolutePath)
        ensures
            dir@ == self@.candidate(),
    {
        proof {
            use_type_invariant(self);
        }
        if self.attempt == 1 {
            return self.runs_dir.join(self.base_name.as_str());
        }
        let mut name: String = self.base_name.clone();
        name.append("-");
        push_zero_padded(&mut name, self.attempt as u64, 4);
        self.runs_dir.join(name.as_str())
    }

    /// Takes note whether the directory that was tried is there. One that is not
    /// is found; else the next one is to be tried.
    pub fn tried(&mut self, exists: bool) -> (found: Option<AbsolutePath>)
        requires
            exists ==> old(self)@.attempt < i32::MAX,
        ensures
            !exists ==> final(self)@ == old(self)@ && (found matches Some(dir) && dir@ == old(
                self,
            )@.candidate()),
            exists ==> found is None && final(self)@ == old(self)@.next(),
    {
        proof {
            use_type_invariant(&*self);
        }
        if exists {
            self.attempt = self.attempt + 1;
            None
        } else {
            Some(self.candidate())
        }
    }

    /// Whether there is a next candidate.
    pub fn can_advance(&self) -> (more: bool)
        ensures
            more == (self@.attempt < i32::MAX),
    {
        proof {
            use_type_invariant(self);
        }
        self.attempt < i32::MAX
    }
}

/// The latest run is one of the runs of the goal, and none of them has a name
/// that comes after it; there is no latest run exactly where there is no run.
pub proof fn law_latest_run_is_the_last(seen: Seq<RunCandidate>, goal_id: Seq<char>)
    ensures
        match latest_run_name(seen, goal_id) {
            Some(latest) => {
                &&& exists|i: int|
                    0 <= i < seen.len() && (#[trigger] seen[i]).is_run_of(goal_id) && seen[i].name
                        == latest
                &&& forall|i: int|
                    0 <= i < seen.len() && (#[trigger] seen[i]).is_run_of(goal_id) ==> !lex_less(
                        latest,
                        seen[i].name,
                    )
            },
            None => forall|i: int|
                0 <= i < seen.len() ==> !(#[trigger] seen[i]).is_run_of(goal_id),
        },
    decreases seen.len(),
{
    if seen.len() > 0 {
        let before = seen.drop_last();
        law_latest_run_is_the_last(before, goal_id);
        let last = seen.len() - 1;
        law_lex_less_is_irreflexive(seen[last].name);
        assert(forall|i: int| 0 <= i < last ==> seen[i] == before[i]);
        if let Some(latest) = latest_run_name(seen, goal_id) {
            if latest_run_name(before, goal_id) == Some(latest) {
                let i = choose|i: int|
                    0 <= i < before.len() && (#[trigger] before[i]).is_run_of(goal_id)
                        && before[i].name == latest;
                assert(seen[i].is_run_of(goal_id) && seen[i].name == latest);
            } else {
                assert(seen[last].is_run_of(goal_id) && seen[last].name == latest);
                assert forall|i: int|
                    0 <= i < seen.len() && (#[trigger] seen[i]).is_run_of(
                        goal_id,
                    ) implies !lex_less(latest, seen[i].name) by {
                    if i < last && lex_less(latest, seen[i].name) {
                        assert(before[i].is_run_of(goal_id));
                        let earlier = latest_run_name(before, goal_id)->0;
                        law_lex_less_is_transitive(earlier, latest, seen[i].name);
                    }
                }
            }
        }
    }
}

/// The latest run does not depend on the order in which the entries came, nor on
/// how often.
pub proof fn law_latest_run_ignores_the_order(
    seen: Seq<RunCandidate>,
    other: Seq<RunCandidate>,
    goal_id: Seq<char>,
)
    requires
        seen.to_set() == other.to_set(),
    ensures
        latest_run_name(seen, goal_id) == latest_run_name(other, goal_id),
{
    law_latest_run_is_the_last(seen, goal_id);
    law_latest_run_is_the_last(other, goal_id);
    assert forall|i: int| 0 <= i < seen.len() implies other.contains(#[trigger] seen[i]) by {
        assert(seen.to_set().contains(seen[i]));
    }
    assert forall|i: int| 0 <= i < other.len() implies seen.contains(#[trigger] other[i]) by {
        assert(other.to_set().contains(other[i]));
    }
    match (latest_run_name(seen, goal_id), latest_run_name(other, goal_id)) {
        (Some(a), Some(b)) => {
            law_lex_less_is_total(a, b);
        },
        (Some(a), None) => {
            let i = choose|i: int|
                0 <= i < seen.len() && (#[trigger] seen[i]).is_run_of(goal_id) && seen[i].name
                    == a;
            assert(other.contains(seen[i]));
        },
        (None, Some(b)) => {
            let i = choose|i: int|
                0 <= i < other.len() && (#[trigger] other[i]).is_run_of(goal_id) && other[i].name
                    == b;
            assert(seen.contains(other[i]));
        },
        (None, None) => {},
    }
}

/// The name of a new run starts as the name of a run does.
proof fn lemma_candidate_has_prefix(t: UtcFields, attempt: nat)
    ensures
        RUN_PREFIX@.is_prefix_of(candidate_name(run_name_text(t), attempt)),
{
    let name = candidate_name(run_name_text(t), attempt);
    assert(run_name_text(t).subrange(0, RUN_PREFIX@.len() as int) =~= RUN_PREFIX@);
    assert(name.subrange(0, RUN_PREFIX@.len() as int) =~= RUN_PREFIX@);
}

/// A run that a goal was recorded in is found again as a run of that goal, where
/// the name of the goal is on one line.
pub proof fn law_a_recorded_run_is_found(goal: ThreadGoal, t: UtcFields, attempt: nat)
    requires
        is_one_line(goal.goal_id@),
    ensures
        (RunCandidate {
            name: candidate_name(run_name_text(t), attempt),
            goal_file: goal_file_text(goal),
        }).is_run_of(goal.goal_id@),
{
    lemma_candidate_has_prefix(t, attempt);
    law_goal_file_names_its_goal(goal);
}

/// A run that one goal was recorded in is not taken for a run of another, unless
/// the objective holds the line that names the other.
pub proof fn law_a_recorded_run_is_of_its_goal_only(
    goal: ThreadGoal,
    name: Seq<char>,
    other: Seq<char>,
)
    requires
        is_one_line(goal.goal_id@),
        other != goal.goal_id@,
        !lines(goal.objective@ + seq!['\n']).contains(goal_id_line(other)),
    ensures
        !(RunCandidate { name, goal_file: goal_file_text(goal) }).is_run_of(other),
{
    law_goal_file_names_no_other_goal(goal, other);
}

/// No two attempts try the same name.
pub proof fn law_attempts_differ(base_name: Seq<char>, first: nat, second: nat)
    requires
        1 <= first < second,
    ensures
        candidate_name(base_name, first) != candidate_name(base_name, second),
{
    reveal_strlit("-");
    law_zero_padded_denotes(first, 4);
    law_zero_padded_denotes(second, 4);
    let a = candidate_name(base_name, first);
    let b = candidate_name(base_name, second);
    if first == 1 {
        assert(a.len() < b.len());
    } else if a == b {
        let start = base_name.len() + 1;
        assert(a.skip(start as int) =~= zero_padded(first, 4));
        assert(b.skip(start as int) =~= zero_padded(second, 4));
    }
}

/// Runs that started at different moments are ordered by them, whatever attempt
/// gave them their names, for the years that take four digits.
pub proof fn law_later_runs_come_later(
    a: UtcFields,
    b: UtcFields,
    attempt_a: nat,
    attempt_b: nat,
)
    requires
        a.valid(),
        b.valid(),
        0 <= a.year <= 9999,
        0 <= b.year <= 9999,
        is_before(a, b),
    ensures
        lex_less(
            candidate_name(run_name_text(a), attempt_a),
            candidate_name(run_name_text(b), attempt_b),
        ),
{
    let after_a = if attempt_a <= 1 {
        seq![]
    } else {
        "-"@ + zero_padded(attempt_a, 4)
    };
    let after_b = if attempt_b <= 1 {
        seq![]
    } else {
        "-"@ + zero_padded(attempt_b, 4)
    };
    law_run_names_follow_time(a, b, after_a, after_b);
    assert(candidate_name(run_name_text(a), attempt_a) =~= run_name_text(a) + after_a);
    assert(candidate_name(run_name_text(b), attempt_b) =~= run_name_text(b) + after_b);
}

/// Runs that started at one moment are ordered by the attempts that gave them
/// their names, up to the last attempt that takes four digits.
pub proof fn law_later_attempts_come_later(base_name: Seq<char>, first: nat, second: nat)
    requires
        1 <= first < second <= 9999,
    ensures
        lex_less(candidate_name(base_name, first), candidate_name(base_name, second)),
{
    reveal_strlit("-");
    let end = "-"@ + zero_padded(second, 4);
    assert(candidate_name(base_name, second) =~= base_name + end);
    if first == 1 {
        lemma_less_than_longer(base_name, end);
    } else {
        lemma_padded_width(first);
        lemma_padded_width(second);
        lemma_padded_order(first, second, 4);
        lemma_less_after_same_start(
            base_name + "-"@,
            zero_padded(first, 4),
            zero_padded(second, 4),
        );
    }
}

/// The latest run of a goal is the one that started last, where all names were
/// given by moments in the years that take four digits and no other run of the
/// goal started in the same second or later.
pub proof fn law_latest_run_started_last(
    seen: Seq<RunCandidate>,
    goal_id: Seq<char>,
    started: Seq<UtcFields>,
    attempts: Seq<nat>,
    last: int,
)
    requires
        started.len() == seen.len(),
        attempts.len() == seen.len(),
        forall|i: int|
            0 <= i < seen.len() ==> (#[trigger] seen[i]).name == candidate_name(
                run_name_text(started[i]),
                attempts[i],
            ) && started[i].valid() && 0 <= started[i].year <= 9999,
        0 <= last < seen.len(),
        seen[last].is_run_of(goal_id),
        forall|i: int|
            0 <= i < seen.len() && i != last && (#[trigger] seen[i]).is_run_of(goal_id)
                ==> is_before(started[i], started[last]),
    ensures
        latest_run_name(seen, goal_id) == Some(seen[last].name),
{
    law_latest_run_is_the_last(seen, goal_id);
    let latest = latest_run_name(seen, goal_id)->0;
    let i = choose|i: int|
        0 <= i < seen.len() && (#[trigger] seen[i]).is_run_of(goal_id) && seen[i].name == latest;
    if i != last {
        law_later_runs_come_later(started[i], started[last], attempts[i], attempts[last]);
        assert(lex_less(latest, seen[last].name));
    }
}

/// The names that the first `count` attempts try.
spec fn first_candidates(base_name: Seq<char>, count: nat) -> Seq<Seq<char>> {
    Seq::new(count, |i: int| candidate_name(base_name, (i + 1) as nat))
}

/// A search for a name that is not taken comes to an end: one more attempt than
/// there are names taken is enough.
pub proof fn law_search_for_a_run_ends(base_name: Seq<char>, taken: Set<Seq<char>>)
    requires
        taken.finite(),
    ensures
        exists|attempt: nat|
            1 <= attempt <= taken.len() + 1 && !taken.contains(
                #[trigger] candidate_name(base_name, attempt),
            ),
{
    let tried = first_candidates(base_name, taken.len() + 1);
    assert forall|i: int, j: int| 0 <= i < j < tried.len() implies tried[i] != tried[j] by {
        law_attempts_differ(base_name, (i + 1) as nat, (j + 1) as nat);
    }
    assert(tried.no_duplicates());
    tried.unique_seq_to_set();
    if forall|attempt: nat|
        1 <= attempt <= taken.len() + 1 ==> taken.contains(
            #[trigger] candidate_name(base_name, attempt),
        ) {
        assert forall|name: Seq<char>| tried.to_set().contains(name) implies taken.contains(
            name,
        ) by {
            let i = choose|i: int| 0 <= i < tried.len() && tried[i] == name;
            assert(taken.contains(candidate_name(base_name, (i + 1) as nat)));
        }
        vstd::set_lib::lemma_len_subset(tried.to_set(), taken);
    }
}

/// The name of a new run is relative and not empty.
proof fn lemma_candidate_is_relative(t: UtcFields, attempt: nat)
    ensures
        !is_absolute(candidate_name(run_name_text(t), attempt)),
        candidate_name(run_name_text(t), attempt).len() > 0,
{
    reveal_strlit("goal-");
    lemma_candidate_has_prefix(t, attempt);
    let name = candidate_name(run_name_text(t), attempt);
    assert(name[0] == RUN_PREFIX@[0]);
}

/// Trying a directory leads on to what the search comes to: where it is there,
/// the rest of the search comes to the same, else the search comes to it.
pub proof fn law_each_try_keeps_the_outcome(search: UniqueRunSearchView, disk: Disk)
    ensures
        !disk.holds(search.candidate().native) ==> search.outcome(disk) == Some(
            search.candidate(),
        ),
        disk.holds(search.candidate().native) && search.attempt < i32::MAX ==> search.outcome(disk)
            == search.next().outcome(disk),
{
}

/// A search comes to the first directory from its next try on that is not there,
/// where there is one within the attempts.
proof fn lemma_outcome_is_first_free(search: UniqueRunSearchView, disk: Disk, free: nat)
    requires
        search.attempt <= free <= i32::MAX,
        !disk.holds(
            joined(search.runs_dir, candidate_name(search.base_name, free)).native,
        ),
        forall|k: nat|
            search.attempt <= k < free ==> disk.holds(
                joined(search.runs_dir, #[trigger] candidate_name(search.base_name, k)).native,
            ),
    ensures
        search.outcome(disk) == Some(
            joined(search.runs_dir, candidate_name(search.base_name, free)),
        ),
    decreases free - search.attempt,
{
    if search.attempt < free {
        assert(disk.holds(
            joined(
                search.runs_dir,
                candidate_name(search.base_name, search.attempt),
            ).native,
        ));
        lemma_outcome_is_first_free(search.next(), disk, free);
    }
}

/// The least attempt from `from` on whose name is not taken, up to one that is not.
proof fn lemma_first_free_attempt(
    base_name: Seq<char>,
    taken: Set<Seq<char>>,
    from: nat,
    free: nat,
) -> (first: nat)
    requires
        from <= free,
        !taken.contains(candidate_name(base_name, free)),
    ensures
        from <= first <= free,
        !taken.contains(candidate_name(base_name, first)),
        forall|k: nat|
            from <= k < first ==> taken.contains(#[trigger] candidate_name(base_name, k)),
    decreases free - from,
{
    if taken.contains(candidate_name(base_name, from)) {
        lemma_first_free_attempt(base_name, taken, from + 1, free)
    } else {
        from
    }
}

/// The names of what is there within a directory.
pub open spec fn taken_names(disk: Disk, dir: PathView) -> Set<Seq<char>> {
    Set::new(|name: Seq<char>| disk.holds(joined(dir, name).native))
}

/// Whether `attempt` is the first one whose name is not taken.
pub open spec fn is_first_free(base_name: Seq<char>, taken: Set<Seq<char>>, attempt: nat) -> bool {
    &&& 1 <= attempt
    &&& !taken.contains(candidate_name(base_name, attempt))
    &&& forall|k: nat|
        1 <= k < attempt ==> taken.contains(#[trigger] candidate_name(base_name, k))
}

/// Making the directory of all runs adds nothing to what lies in it.
proof fn lemma_runs_dir_has_the_same_names(goal_root: PathView, disk: Disk, name: Seq<char>)
    requires
        !is_absolute(name),
        name.len() > 0,
    ensures
        ({
            let runs = runs_dir(goal_root);
            let path = joined(runs, name).native;
            &&& lies_above(runs.native, path)
            &&& disk.with_dir(runs.native).holds(path) == disk.holds(path)
        }),
{
    reveal_strlit("runs");
    law_a_path_lies_above_what_is_in_it(runs_dir(goal_root), name);
}

/// The search for the directory of a new run comes to the first name that is not
/// taken: the name of the moment, or that name with the least number from two on
/// that makes it one which is not there. What counts as there is what was there
/// before the directory of all runs was made. One of the attempts is to have a
/// name that is not taken.
pub proof fn law_search_finds_the_first_free_name(goal_root: PathView, t: UtcFields, disk: Disk)
    requires
        exists|attempt: nat|
            1 <= attempt <= i32::MAX && !taken_names(disk, runs_dir(goal_root)).contains(
                #[trigger] candidate_name(run_name_text(t), attempt),
            ),
    ensures
        ({
            let runs = runs_dir(goal_root);
            let base_name = run_name_text(t);
            let search = UniqueRunSearchView::start(goal_root, t);
            exists|attempt: nat|
                #![trigger candidate_name(base_name, attempt)]
                is_first_free(base_name, taken_names(disk, runs), attempt) && search.outcome(
                    disk.after_step(StorageStepView::CreateDirAll(runs)),
                ) == Some(run_dir_of(goal_root, candidate_name(base_name, attempt)))
        }),
{
    let runs = runs_dir(goal_root);
    let base_name = run_name_text(t);
    let taken = taken_names(disk, runs);
    let made = disk.with_dir(runs.native);
    let free = choose|attempt: nat|
        1 <= attempt <= i32::MAX && !taken.contains(
            #[trigger] candidate_name(base_name, attempt),
        );
    let first = lemma_first_free_attempt(base_name, taken, 1, free);
    assert forall|k: nat| made.holds(
        joined(runs, #[trigger] candidate_name(base_name, k)).native,
    ) == taken.contains(candidate_name(base_name, k)) by {
        lemma_candidate_is_relative(t, k);
        lemma_runs_dir_has_the_same_names(goal_root, disk, candidate_name(base_name, k));
    }
    assert(!taken.contains(candidate_name(base_name, first)));
    lemma_outcome_is_first_free(UniqueRunSearchView::start(goal_root, t), made, first);
    assert(is_first_free(base_name, taken, first));
}

/// What a search comes to is not there.
pub proof fn lemma_outcome_is_not_there(search: UniqueRunSearchView, disk: Disk)
    ensures
        search.outcome(disk) matches Some(picked) ==> !disk.holds(picked.native),
    decreases i32::MAX - search.attempt,
{
    if disk.holds(search.candidate().native) && search.attempt < i32::MAX {
        lemma_outcome_is_not_there(search.next(), disk);
    }
}

/// A search for the directory of a new run only picks a name. The directory of
/// all runs is there afterwards, the one picked is not, no file was touched, and
/// whatever lies in the directory of all runs is there as it was. A search of the
/// same moment that follows picks the same name.
pub proof fn law_a_search_only_picks_a_name(goal_root: PathView, t: UtcFields, disk: Disk)
    ensures
        ({
            let runs = runs_dir(goal_root);
            let search = UniqueRunSearchView::start(goal_root, t);
            let after = disk.after_step(StorageStepView::CreateDirAll(runs));
            let again = after.after_step(StorageStepView::CreateDirAll(runs));
            &&& after.holds(runs.native)
            &&& search.outcome(after) matches Some(picked) ==> !after.holds(picked.native)
                && !disk.holds(picked.native)
            &&& after.files == disk.files
            &&& forall|path: Seq<u8>|
                lies_above(runs.native, path) ==> #[trigger] after.holds(path) == disk.holds(path)
            &&& again == after
            &&& search.outcome(again) == search.outcome(after)
        }),
{
    let runs = runs_dir(goal_root);
    let after = disk.with_dir(runs.native);
    law_making_a_directory_adds_only_its_way(disk, runs.native);
    lemma_outcome_is_not_there(UniqueRunSearchView::start(goal_root, t), after);
}

/// A search that could not read something fails, whatever it reads after that.
pub proof fn law_a_failed_search_stays_failed(
    search: LatestRunSearchView,
    dir: RunsDirRead,
    entry: RunEntryRead,
    run_name: Seq<char>,
    goal_file: GoalFileRead,
)
    requires
        search.failed,
    ensures
        search.latest_run() is Failed,
        search.after_runs_dir(dir).failed,
        search.after_entry(entry).failed,
        search.after_goal_file(run_name, goal_file).failed,
{
}

/// A directory of all runs that is missing is as good as an empty one, and a
/// directory without a goal file as good as none. Anything else that cannot be
/// read fails the search.
pub proof fn law_what_is_missing_is_passed_over(search: LatestRunSearchView, run_name: Seq<char>)
    ensures
        search.after_runs_dir(RunsDirRead::Missing) == search,
        search.after_goal_file(run_name, GoalFileRead::Missing) == search,
        search.after_runs_dir(RunsDirRead::Failed).latest_run() is Failed,
        search.after_entry(RunEntryRead::Failed).latest_run() is Failed,
        search.after_goal_file(run_name, GoalFileRead::Failed).latest_run() is Failed,
        LatestRunSearchView::start(search.goal_root, search.goal_id).after_runs_dir(
            RunsDirRead::Missing,
        ).latest_run() is Missing,
{
}

/// What a search has seen after a listing.
proof fn lemma_after_listing(search: LatestRunSearchView, listing: Seq<ListedEntry>)
    requires
        !search.failed,
    ensures
        ({
            let end = search.after_listing(listing);
            let fails = exists|i: int| 0 <= i < listing.len() && (#[trigger] listing[i]).fails();
            &&& end.goal_root == search.goal_root
            &&& end.goal_id == search.goal_id
            &&& end.failed == fails
            &&& !fails ==> forall|c: RunCandidate| #[trigger]
                end.seen.contains(c) <==> search.seen.contains(c) || exists|i: int|
                    0 <= i < listing.len() && (#[trigger] listing[i]).candidate() == Some(c)
        }),
    decreases listing.len(),
{
    if listing.len() > 0 {
        let first = listing[0];
        let rest = listing.skip(1);
        let next = search.after_listed(first);
        let end = search.after_listing(listing);
        assert(forall|i: int| 0 <= i < rest.len() ==> rest[i] == listing[i + 1]);
        assert(next.failed == first.fails());
        if first.fails() {
            assert(next.after_listing(rest) == next);
        } else {
            lemma_after_listing(next, rest);
            if exists|i: int| 0 <= i < listing.len() && (#[trigger] listing[i]).fails() {
                let i = choose|i: int| 0 <= i < listing.len() && (#[trigger] listing[i]).fails();
                assert(rest[i - 1].fails());
            } else {
                assert forall|i: int| 0 <= i < rest.len() implies !(#[trigger] rest[i]).fails() by {
                    assert(!listing[i + 1].fails());
                }
                assert forall|c: RunCandidate| #[trigger]
                    end.seen.contains(c) <==> search.seen.contains(c) || exists|i: int|
                        0 <= i < listing.len() && (#[trigger] listing[i]).candidate() == Some(c) by {
                    lemma_seen_after_first(search, first, c);
                    if exists|i: int|
                        0 <= i < rest.len() && (#[trigger] rest[i]).candidate() == Some(c) {
                        let i = choose|i: int|
                            0 <= i < rest.len() && (#[trigger] rest[i]).candidate() == Some(c);
                        assert(listing[i + 1].candidate() == Some(c));
                    }
                    if exists|i: int|
                        0 <= i < listing.len() && (#[trigger] listing[i]).candidate() == Some(c) {
                        let i = choose|i: int|
                            0 <= i < listing.len() && (#[trigger] listing[i]).candidate() == Some(
                                c,
                            );
                        if i > 0 {
                            assert(rest[i - 1].candidate() == Some(c));
                        }
                    }
                }
            }
        }
    }
}

/// What a search has seen after one entry that can be read.
proof fn lemma_seen_after_first(search: LatestRunSearchView, first: ListedEntry, c: RunCandidate)
    requires
        !first.fails(),
    ensures
        search.after_listed(first).seen.contains(c) <==> search.seen.contains(c)
            || first.candidate() == Some(c),
{
    let next = search.after_listed(first);
    match first.candidate() {
        Some(candidate) => {
            assert(next.seen == search.seen.push(candidate));
            assert(next.seen[search.seen.len() as int] == candidate);
            if search.seen.contains(c) {
                let i = choose|i: int| 0 <= i < search.seen.len() && search.seen[i] == c;
                assert(next.seen[i] == c);
            }
        },
        None => {
            assert(next.seen == search.seen);
        },
    }
}

/// Whether an entry of the listing is the run of this name of the goal, and no
/// run of the goal there has a name that comes after it.
pub open spec fn is_greatest_run(
    listing: Seq<ListedEntry>,
    goal_id: Seq<char>,
    latest: Seq<char>,
) -> bool {
    &&& exists|i: int| 0 <= i < listing.len() && #[trigger] listing[i].is_run(goal_id, latest)
    &&& forall|i: int, name: Seq<char>|
        0 <= i < listing.len() && #[trigger] listing[i].is_run(goal_id, name) ==> !lex_less(
            latest,
            name,
        )
}

/// A search for the latest run of a goal comes to the run of the goal with the
/// greatest name among the entries of the directory of all runs; to none where
/// no entry is a run of the goal, or the directory is missing; and to a failure
/// exactly where the directory, an entry, or the goal file of an entry that may
/// be a run cannot be read.
pub proof fn law_search_finds_the_greatest_name(
    goal_root: PathView,
    goal_id: Seq<char>,
    dir: RunsDirRead,
    listing: Seq<ListedEntry>,
)
    ensures
        ({
            let outcome = LatestRunSearchView::start(goal_root, goal_id).outcome(dir, listing);
            let fails = exists|i: int| 0 <= i < listing.len() && (#[trigger] listing[i]).fails();
            &&& outcome is Failed <==> dir is Failed || (dir is Opened && fails)
            &&& dir is Missing ==> outcome is Missing
            &&& dir is Opened && !fails ==> match outcome {
                LatestRunView::Found(run_dir) => exists|latest: Seq<char>|
                    is_greatest_run(listing, goal_id, latest) && run_dir == #[trigger] run_dir_of(
                        goal_root,
                        latest,
                    ),
                LatestRunView::Missing => forall|i: int, name: Seq<char>|
                    0 <= i < listing.len() ==> !(#[trigger] listing[i].is_run(goal_id, name)),
                LatestRunView::Failed => false,
            }
        }),
{
    let start = LatestRunSearchView::start(goal_root, goal_id);
    let end = start.after_listing(listing);
    assert(start.after_runs_dir(RunsDirRead::Opened) == start);
    lemma_after_listing(start, listing);
    law_latest_run_is_the_last(end.seen, goal_id);
    let fails = exists|i: int| 0 <= i < listing.len() && (#[trigger] listing[i]).fails();
    if dir is Opened && !fails {
        assert forall|i: int, name: Seq<char>|
            0 <= i < listing.len() && #[trigger] listing[i].is_run(
                goal_id,
                name,
            ) implies end.seen.contains(listing[i].candidate()->0) by {
            assert(listing[i].candidate() == Some(listing[i].candidate()->0));
        }
        match latest_run_name(end.seen, goal_id) {
            Some(latest) => {
                let k = choose|k: int|
                    0 <= k < end.seen.len() && (#[trigger] end.seen[k]).is_run_of(goal_id)
                        && end.seen[k].name == latest;
                assert(end.seen.contains(end.seen[k]));
                let i = choose|i: int|
                    0 <= i < listing.len() && (#[trigger] listing[i]).candidate() == Some(
                        end.seen[k],
                    );
                assert(listing[i].is_run(goal_id, latest));
                assert(is_greatest_run(listing, goal_id, latest));
            },
            None => {},
        }
    }
}

/// Runs lie in `runs` within the directory of goal data, each in the directory of
/// its name.
pub proof fn law_runs_lie_in_runs(goal_root: PathView, run_name: Seq<char>)
    ensures
        runs_dir(goal_root) == joined(goal_root, "runs"@),
        run_dir_of(goal_root, run_name) == joined(joined(goal_root, "runs"@), run_name),
{
}

/// A directory is a run of a goal exactly where its name starts with `goal-` and
/// a whole line of its goal file is the one that names the goal.
pub proof fn law_runs_are_told_by_name_and_line(candidate: RunCandidate, goal_id: Seq<char>)
    ensures
        candidate.is_run_of(goal_id) <==> {
            &&& candidate.name.len() >= 5
            &&& candidate.name.take(5) == seq!['g', 'o', 'a', 'l', '-']
            &&& exists|i: int|
                0 <= i < lines(candidate.goal_file).len() && #[trigger] lines(
                    candidate.goal_file,
                )[i] == "- Goal ID: `"@ + goal_id + "`"@
        },
{
    reveal_strlit("goal-");
    lemma_run_prefix(candidate.name);
}

/// A name starts with `goal-` where its first five characters are these.
proof fn lemma_run_prefix(name: Seq<char>)
    ensures
        RUN_PREFIX@.is_prefix_of(name) <==> name.len() >= 5 && name.take(5) == seq![
            'g',
            'o',
            'a',
            'l',
            '-',
        ],
{
    reveal_strlit("goal-");
    assert(RUN_PREFIX@ =~= seq!['g', 'o', 'a', 'l', '-']);
    if name.len() >= 5 {
        assert(name.subrange(0, 5) =~= name.take(5));
    }
}

/// The goal file of an entry is read exactly where the entry is a directory whose
/// name is text and starts with `goal-`.
pub proof fn law_entries_that_may_be_runs(is_dir: bool, name: Option<String>)
    ensures
        run_name_of(RunEntryRead::Failed) is None,
        !is_dir ==> run_name_of(RunEntryRead::Entry { is_dir, name }) is None,
        name is None ==> run_name_of(RunEntryRead::Entry { is_dir, name }) is None,
        is_dir && name is Some ==> run_name_of(RunEntryRead::Entry { is_dir, name }) == if name->0@.len()
            >= 5 && name->0@.take(5) == seq!['g', 'o', 'a', 'l', '-'] {
            Some(name->0@)
        } else {
            None
        },
{
    if let Some(text) = name {
        lemma_run_prefix(text@);
    }
}

/// A goal file that was read adds its directory, under its name and with its text
/// in full, to what was seen before, and changes nothing else. Nothing else adds
/// anything, and only what could not be read fails the search.
pub proof fn law_a_search_sees_what_it_reads(
    search: LatestRunSearchView,
    dir: RunsDirRead,
    entry: RunEntryRead,
    run_name: Seq<char>,
    text: String,
)
    ensures
        ({
            let read = search.after_goal_file(run_name, GoalFileRead::Text(text));
            &&& read.seen.len() == search.seen.len() + 1
            &&& read.seen.drop_last() == search.seen
            &&& read.seen.last().name == run_name
            &&& read.seen.last().goal_file == text@
            &&& read.failed == search.failed
            &&& read.goal_root == search.goal_root
            &&& read.goal_id == search.goal_id
        }),
        search.after_entry(entry).seen == search.seen,
        search.after_entry(entry).goal_root == search.goal_root,
        search.after_entry(entry).goal_id == search.goal_id,
        search.after_entry(entry).failed == (search.failed || entry == RunEntryRead::Failed),
        search.after_runs_dir(dir).seen == search.seen,
        search.after_runs_dir(dir).goal_root == search.goal_root,
        search.after_runs_dir(dir).goal_id == search.goal_id,
        search.after_runs_dir(dir).failed == (search.failed || dir == RunsDirRead::Failed),
        search.after_goal_file(run_name, GoalFileRead::Missing) == search,
        search.after_goal_file(run_name, GoalFileRead::Failed).failed,
{
    let read = search.after_goal_file(run_name, GoalFileRead::Text(text));
    assert(read.seen.drop_last() =~= search.seen);
}

/// A search starts with the goal and the directory that it is for, having seen
/// nothing; what it comes to shows all that it holds.
pub proof fn law_a_search_starts_with_nothing(
    goal_root: PathView,
    goal_id: Seq<char>,
    latest: LatestRun,
)
    ensures
        LatestRunSearchView::start(goal_root, goal_id).goal_root == goal_root,
        LatestRunSearchView::start(goal_root, goal_id).goal_id == goal_id,
        LatestRunSearchView::start(goal_root, goal_id).seen.len() == 0,
        !LatestRunSearchView::start(goal_root, goal_id).failed,
        latest matches LatestRun::Found(run_dir) ==> latest@ == LatestRunView::Found(run_dir@),
        latest is Missing <==> latest@ is Missing,
        latest is Failed <==> latest@ is Failed,
{
}

/// A search that read everything comes to the directory, within `runs`, of the
/// latest run of its goal that it has seen.
pub proof fn law_a_search_comes_to_the_latest_run(search: LatestRunSearchView)
    ensures
        search.failed <==> search.latest_run() is Failed,
        !search.failed ==> match latest_run_name(search.seen, search.goal_id) {
            Some(name) => search.latest_run() == LatestRunView::Found(
                joined(joined(search.goal_root, "runs"@), name),
            ),
            None => search.latest_run() is Missing,
        },
{
}

/// The first attempt at a name is the base name. Any later one is the base name, a
/// hyphen, and the number of the attempt in at least four digits.
pub proof fn law_attempts_are_numbered_from_two(base_name: Seq<char>, attempt: nat)
    ensures
        candidate_name(base_name, 1) == base_name,
        attempt >= 2 ==> {
            let name = candidate_name(base_name, attempt);
            let number = name.skip(base_name.len() + 1int);
            &&& name.len() > base_name.len()
            &&& name.take(base_name.len() as int) == base_name
            &&& name[base_name.len() as int] == '-'
            &&& number.len() >= 4
            &&& forall|i: int| 0 <= i < number.len() ==> '0' <= #[trigger] number[i] <= '9'
            &&& digits_value(number) == attempt
            &&& number.len() > 4 ==> number[0] != '0'
        },
{
    reveal_strlit("-");
    if attempt >= 2 {
        let name = candidate_name(base_name, attempt);
        law_zero_padded_denotes(attempt, 4);
        law_zero_padded_is_as_long_as_needed(attempt, 4);
        assert(name.take(base_name.len() as int) =~= base_name);
        assert(name.skip(base_name.len() + 1int) =~= zero_padded(attempt, 4));
    }
}

/// A search for a new run starts with the first attempt at the name of its moment,
/// in `runs`, and goes on one attempt after the other, with nothing else changed.
pub proof fn law_attempts_follow_each_other(
    goal_root: PathView,
    t: UtcFields,
    search: UniqueRunSearchView,
)
    ensures
        UniqueRunSearchView::start(goal_root, t).runs_dir == joined(goal_root, "runs"@),
        UniqueRunSearchView::start(goal_root, t).base_name == run_name_text(t),
        UniqueRunSearchView::start(goal_root, t).attempt == 1,
        UniqueRunSearchView::start(goal_root, t).candidate() == joined(
            joined(goal_root, "runs"@),
            run_name_text(t),
        ),
        search.next().attempt == search.attempt + 1,
        search.next().runs_dir == search.runs_dir,
        search.next().base_name == search.base_name,
        search.candidate() == joined(
            search.runs_dir,
            candidate_name(search.base_name, search.attempt),
        ),
{
}

} // verus!
