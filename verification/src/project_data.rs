//! Where a project keeps the data of its goals, and what is written there.
use crate::goal::{goal_file_text, render_goal_file, render_status_file, status_file_text,
    ThreadGoal};
use crate::layers::{law_only_project_layers_in_force_count, lowest_project_folder,
    top_level_project_dot_codex, ConfigLayerSource, GoalConfig};
use crate::path::{is_absolute, is_entry_name, joined, law_a_path_lies_above_what_is_in_it,
    law_relative_names_stay_within, lies_above, AbsolutePath, PathView};
use crate::reviews::{highest_round, law_next_round_is_new, law_review_file_name_is_an_entry_name,
    next_review_round, render_review_output_file, review_file_name, review_file_name_text,
    review_file_text, round_after, ReviewOutput};
use crate::run_dirs::{lemma_outcome_is_not_there, run_dir_of, LatestRun, LatestRunSearch,
    LatestRunSearchView, UniqueRunSearch, UniqueRunSearchView, GOAL_FILE, RUNS_DIR};
use crate::storage::{law_making_a_directory_adds_only_its_way, steps_view, Disk, StorageStep,
    StorageStepView};
use crate::time::{goal_run_dir_name, run_name_text, utc_now, UtcTime};
use vstd::prelude::*;
use vstd::utf8::{encode_utf8, is_ascii_chars_encode_utf8};

verus! {

/// The directory of goal data, within the `.codex` folder.
pub const GOAL_DIR: &'static str = "goal";

/// The directory of reviews, within that of a run.
pub const REVIEWS_DIR: &'static str = "reviews";

/// The file of lessons that all goals share, within the directory of goal data.
pub const MEMORY_FILE: &'static str = "memory.md";

/// The file that states how far the goal of a run has come, within its directory.
pub const STATUS_FILE: &'static str = "status.md";

/// The folder of a project that holds what belongs to Codex.
pub const DOT_CODEX: &'static str = ".codex";

/// What the file of shared lessons holds at first.
pub const MEMORY_TEXT: &'static str =
    "# Goal Memory\n\nProject-level reusable lessons for Codex goals.\n";

/// The places where the data of one run of a goal lives.
#[derive(Debug, PartialEq, Eq)]
pub struct GoalProjectData {
    goal_root: AbsolutePath,
    memory_file: AbsolutePath,
    run_dir: AbsolutePath,
    reviews_dir: AbsolutePath,
}

/// A `GoalProjectData`, by the two paths that the others follow from.
pub struct GoalProjectDataView {
    pub goal_root: PathView,
    pub run_dir: PathView,
}

/// A review to be written down.
#[derive(Debug, PartialEq, Eq)]
pub struct ReviewRecord {
    pub round: u32,
    pub path: AbsolutePath,
    pub contents: String,
}

impl GoalProjectDataView {
    /// The file of lessons that all goals share.
    pub open spec fn memory_file(self) -> PathView {
        joined(self.goal_root, MEMORY_FILE@)
    }

    /// The directory of the reviews of the run.
    pub open spec fn reviews_dir(self) -> PathView {
        joined(self.run_dir, REVIEWS_DIR@)
    }

    /// The file that states the goal of the run.
    pub open spec fn goal_file(self) -> PathView {
        joined(self.run_dir, GOAL_FILE@)
    }

    /// The file that states how far the goal has come.
    pub open spec fn status_file(self) -> PathView {
        joined(self.run_dir, STATUS_FILE@)
    }

    /// What a review is told of these places.
    pub open spec fn guidance(self) -> Seq<char> {
        "Codex goal data:\n- Use Codex-owned project goal data under `"@ + self.goal_root.shown
            + "`. This path is derived from the top-level project `.codex` directory.\n- Shared project memory lives at `"@
            + self.memory_file().shown
            + "` and can contain reusable lessons across goals.\n- Current goal run data lives under `"@
            + self.run_dir.shown + "`. Inspect `"@ + self.goal_file().shown + "`, `"@ + self.status_file().shown
            + "`, and `"@ + self.reviews_dir().shown
            + "/round-*-review-result.md` when present.\n- For this goal review gate, do not inspect legacy or third-party goal/memory directories. Treat unresolved findings from Codex goal-data files as blockers only when they still apply to the scoped modifications."@
    }

    /// What recording a goal does to what is stored: the directory of reviews
    /// is made, the file of shared lessons is put there if it is missing, and
    /// the two files of the goal are written.
    pub open spec fn snapshot_steps(self, goal: ThreadGoal) -> Seq<StorageStepView> {
        seq![
            StorageStepView::CreateDirAll(self.reviews_dir()),
            StorageStepView::WriteIfMissing {
                dir: self.goal_root,
                path: self.memory_file(),
                contents: MEMORY_TEXT@,
            },
            StorageStepView::Write { path: self.goal_file(), contents: goal_file_text(goal) },
            StorageStepView::Write { path: self.status_file(), contents: status_file_text(goal) },
        ]
    }
}

impl View for GoalProjectData {
    type V = GoalProjectDataView;

    closed spec fn view(&self) -> GoalProjectDataView {
        GoalProjectDataView { goal_root: self.goal_root@, run_dir: self.run_dir@ }
    }
}

impl GoalProjectData {
    #[verifier::type_invariant]
    spec fn laid_out(&self) -> bool {
        &&& self.memory_file@ == self@.memory_file()
        &&& self.reviews_dir@ == self@.reviews_dir()
    }

    /// The places of the run of a name, in the project of a `.codex` folder.
    pub fn from_dot_codex_run(dot_codex: AbsolutePath, run_name: &str) -> (data: GoalProjectData)
        ensures
            data@.goal_root == joined(dot_codex@, GOAL_DIR@),
            data@.run_dir == run_dir_of(data@.goal_root, run_name@),
    {
        let goal_root: AbsolutePath = dot_codex.join(GOAL_DIR);
        let run_dir: AbsolutePath = goal_root.join(RUNS_DIR).join(run_name);
        GoalProjectData::from_goal_root_run(goal_root, run_dir)
    }

    /// The places of the run of a directory.
    pub fn from_goal_root_run(goal_root: AbsolutePath, run_dir: AbsolutePath) -> (data:
        GoalProjectData)
        ensures
            data@ == (GoalProjectDataView { goal_root: goal_root@, run_dir: run_dir@ }),
    {
        let memory_file: AbsolutePath = goal_root.join(MEMORY_FILE);
        let reviews_dir: AbsolutePath = run_dir.join(REVIEWS_DIR);
        GoalProjectData { goal_root, memory_file, run_dir, reviews_dir }
    }

    /// What a review is told of these places.
    pub fn guidance(&self) -> (text: String)
        ensures
            text@ == self@.guidance(),
    {
        proof {
            use_type_invariant(self);
        }
        let goal_file: AbsolutePath = self.run_dir.join(GOAL_FILE);
        let status_file: AbsolutePath = self.run_dir.join(STATUS_FILE);
        let mut text: String =
            "Codex goal data:\n- Use Codex-owned project goal data under `".to_owned();
        text.append(self.goal_root.as_str());
        text.append("`. This path is derived from the top-level project `.codex` directory.\n- Shared project memory lives at `");
        text.append(self.memory_file.as_str());
        text.append("` and can contain reusable lessons across goals.\n- Current goal run data lives under `");
        text.append(self.run_dir.as_str());
        text.append("`. Inspect `");
        text.append(goal_file.as_str());
        text.append("`, `");
        text.append(status_file.as_str());
        text.append("`, and `");
        text.append(self.reviews_dir.as_str());
        text.append("/round-*-review-result.md` when present.\n- For this goal review gate, do not inspect legacy or third-party goal/memory directories. Treat unresolved findings from Codex goal-data files as blockers only when they still apply to the scoped modifications.");
        text
    }

    /// The directory of the reviews of the run.
    pub fn reviews_dir(&self) -> (dir: AbsolutePath)
        ensures
            dir@ == self@.reviews_dir(),
    {
        proof {
            use_type_invariant(self);
        }
        self.reviews_dir.clone()
    }

    /// What is to be done before the directory of reviews is looked at: it is
    /// made.
    pub fn make_reviews_dir(&self) -> (step: StorageStep)
        ensures
            step@ == StorageStepView::CreateDirAll(self@.reviews_dir()),
    {
        proof {
            use_type_invariant(self);
        }
        StorageStep::CreateDirAll(self.reviews_dir.clone())
    }

    /// The step that puts the file of shared lessons in place.
    pub fn ensure_project_memory_file(&self) -> (step: StorageStep)
        ensures
            step@ == (StorageStepView::WriteIfMissing {
                dir: self@.goal_root,
                path: self@.memory_file(),
                contents: MEMORY_TEXT@,
            }),
    {
        proof {
            use_type_invariant(self);
        }
        StorageStep::WriteIfMissing {
            dir: self.goal_root.clone(),
            path: self.memory_file.clone(),
            contents: MEMORY_TEXT.to_owned(),
        }
    }

    /// The steps that record a goal, in their order.
    pub fn record_goal_snapshot(&self, goal: &ThreadGoal) -> (steps: Vec<StorageStep>)
        ensures
            steps_view(steps@) == self@.snapshot_steps(*goal),
    {
        proof {
            use_type_invariant(self);
        }
        let mut steps: Vec<StorageStep> = Vec::new();
        steps.push(StorageStep::CreateDirAll(self.reviews_dir.clone()));
        steps.push(self.ensure_project_memory_file());
        steps.push(
            StorageStep::Write {
                path: self.run_dir.join(GOAL_FILE),
                contents: render_goal_file(goal),
            },
        );
        steps.push(
            StorageStep::Write {
                path: self.run_dir.join(STATUS_FILE),
                contents: render_status_file(goal),
            },
        );
        proof {
            assert(steps_view(steps@) =~= self@.snapshot_steps(*goal));
        }
        steps
    }

    /// The review file to write, given the names of the files in the directory
    /// of reviews.
    pub fn record_review_output(&self, names: &Vec<String>, output: &ReviewOutput) -> (record:
        ReviewRecord)
        ensures
            record.round == round_after(names@),
            record.path@ == joined(
                self@.reviews_dir(),
                review_file_name_text(round_after(names@)),
            ),
            record.contents@ == review_file_text(round_after(names@), *output),
    {
        proof {
            use_type_invariant(self);
        }
        let round: u32 = next_review_round(names);
        let path: AbsolutePath = self.reviews_dir.join(review_file_name(round).as_str());
        ReviewRecord { round, path, contents: render_review_output_file(round, output) }
    }
}

/// What is known of the Git project that a directory lies in.
#[derive(Debug, PartialEq, Eq)]
pub enum GitProject {
    /// Nobody has looked yet.
    Unknown,
    /// It lies in none.
    Outside,
    /// The root of the outermost one.
    Root(AbsolutePath),
}

/// What to do next to find the directory of goal data.
#[derive(Debug, PartialEq, Eq)]
pub enum GoalRootStep {
    /// Find the Git project that the working directory lies in.
    FindGitProject,
    /// Goal data lives here.
    Found(AbsolutePath),
}

/// What to do next to find the directory of goal data, over texts: the `.codex`
/// folder of the outermost project layer decides; without one it is the folder
/// of that name in the Git project, or in the working directory outside of any.
pub open spec fn goal_root_step(config: GoalConfig, git: GitProject) -> Option<PathView> {
    match (lowest_project_folder(config.config_layer_stack.layers@), git) {
        (Some(dot_codex), _) => Some(joined(dot_codex, GOAL_DIR@)),
        (None, GitProject::Unknown) => None,
        (None, GitProject::Outside) => Some(
            joined(joined(config.cwd@, DOT_CODEX@), GOAL_DIR@),
        ),
        (None, GitProject::Root(root)) => Some(joined(joined(root@, DOT_CODEX@), GOAL_DIR@)),
    }
}

/// What to do next to find the directory of goal data.
pub fn resolve_goal_root(config: &GoalConfig, git: &GitProject) -> (step: GoalRootStep)
    ensures
        match goal_root_step(*config, *git) {
            Some(root) => step matches GoalRootStep::Found(path) && path@ == root,
            None => step is FindGitProject,
        },
{
    if let Some(dot_codex) = top_level_project_dot_codex(config) {
        return GoalRootStep::Found(dot_codex.join(GOAL_DIR));
    }
    match git {
        GitProject::Unknown => GoalRootStep::FindGitProject,
        GitProject::Outside => GoalRootStep::Found(config.cwd.join(DOT_CODEX).join(GOAL_DIR)),
        GitProject::Root(root) => GoalRootStep::Found(root.join(DOT_CODEX).join(GOAL_DIR)),
    }
}

/// The places of the latest run of a goal, or of the run that a moment names
/// where none was found.
pub open spec fn resolved_project_data(
    goal_root: PathView,
    latest: LatestRun,
    run_name: Seq<char>,
) -> GoalProjectDataView {
    GoalProjectDataView {
        goal_root,
        run_dir: match latest {
            LatestRun::Found(run_dir) => run_dir@,
            _ => run_dir_of(goal_root, run_name),
        },
    }
}

/// The places of the latest run of a goal, or of a run that starts at `now`
/// where none was found.
pub fn resolve_goal_project_data_at(goal_root: AbsolutePath, latest: LatestRun, now: &UtcTime) -> (
    data: GoalProjectData)
    ensures
        data@ == resolved_project_data(goal_root@, latest, run_name_text(now@)),
{
    let run_dir: AbsolutePath = match latest {
        LatestRun::Found(run_dir) => run_dir,
        LatestRun::Missing => goal_root.join(RUNS_DIR).join(goal_run_dir_name(now).as_str()),
        LatestRun::Failed => goal_root.join(RUNS_DIR).join(goal_run_dir_name(now).as_str()),
    };
    GoalProjectData::from_goal_root_run(goal_root, run_dir)
}

/// The places of the latest run of a goal, or of a run that starts now where
/// none was found.
pub fn resolve_goal_project_data(goal_root: AbsolutePath, latest: LatestRun) -> (data:
    GoalProjectData)
    ensures
        latest matches LatestRun::Found(run_dir) ==> data@ == (GoalProjectDataView {
            goal_root: goal_root@,
            run_dir: run_dir@,
        }),
        latest !is Found ==> exists|now: UtcTime|
            now@.valid() && now@.year >= 1970 && data@ == #[trigger] resolved_project_data(
                goal_root@,
                latest,
                run_name_text(now@),
            ),
{
    match latest {
        LatestRun::Found(run_dir) => GoalProjectData::from_goal_root_run(goal_root, run_dir),
        _ => {
            let now: UtcTime = utc_now();
            resolve_goal_project_data_at(goal_root, latest, &now)
        },
    }
}

/// Whether recording a goal starts a run of its own.
#[derive(Debug, Clone, Copy, PartialEq, Eq)]
pub enum GoalProjectDataRunPolicy {
    /// Always start a run.
    CreateNew,
    /// Go on with the latest run of the goal, and start one where it has none.
    ReuseLatest,
}

/// What came of a search for a run directory that is not there yet.
#[derive(Debug, PartialEq, Eq)]
pub enum UnusedRun {
    /// This one is not.
    Found(AbsolutePath),
    /// The search failed.
    Failed,
}

/// What is known so far of the run that a goal is to be recorded in.
#[derive(Debug, PartialEq, Eq)]
pub struct RunDirFacts {
    /// The latest run of the goal, once it was searched for.
    pub latest: Option<LatestRun>,
    /// A run directory that is not there yet, once one was searched for.
    pub unused: Option<UnusedRun>,
}

/// What to do next to record a goal.
pub enum RecordGoalStep {
    /// Search for the latest run of the goal.
    FindLatest(LatestRunSearch),
    /// Search for a run directory that is not there yet.
    FindUnused(UniqueRunSearch),
    /// Record the goal by these steps.
    Record(Vec<StorageStep>),
    /// Give up with the error of the search that failed.
    Fail,
}

/// What to do next to record a goal, over texts.
pub enum RecordGoalStepView {
    FindLatest(LatestRunSearchView),
    FindUnused(UniqueRunSearchView),
    Record(Seq<StorageStepView>),
    Fail,
}

impl View for RecordGoalStep {
    type V = RecordGoalStepView;

    open spec fn view(&self) -> RecordGoalStepView {
        match self {
            RecordGoalStep::FindLatest(search) => RecordGoalStepView::FindLatest(search@),
            RecordGoalStep::FindUnused(search) => RecordGoalStepView::FindUnused(search@),
            RecordGoalStep::Record(steps) => RecordGoalStepView::Record(steps_view(steps@)),
            RecordGoalStep::Fail => RecordGoalStepView::Fail,
        }
    }
}

impl RecordGoalStepView {
    /// What is stored after the step, where it succeeds. The search for a run
    /// directory makes the one that all runs lie in.
    pub open spec fn disk_after(self, disk: Disk) -> Disk {
        match self {
            RecordGoalStepView::FindLatest(_) => disk,
            RecordGoalStepView::FindUnused(search) => disk.after_step(
                StorageStepView::CreateDirAll(search.runs_dir),
            ),
            RecordGoalStepView::Record(steps) => disk.after(steps),
            RecordGoalStepView::Fail => disk,
        }
    }
}

/// What to do next to record a goal in a run of its own.
pub open spec fn record_new_step(
    goal_root: PathView,
    goal: ThreadGoal,
    unused: Option<UnusedRun>,
) -> RecordGoalStepView {
    match unused {
        None => RecordGoalStepView::FindUnused(
            UniqueRunSearchView::start(goal_root, goal.updated_at@),
        ),
        Some(UnusedRun::Found(run_dir)) => RecordGoalStepView::Record(
            (GoalProjectDataView { goal_root, run_dir: run_dir@ }).snapshot_steps(goal),
        ),
        Some(UnusedRun::Failed) => RecordGoalStepView::Fail,
    }
}

/// What to do next to record a goal, by the policy and what is known so far.
pub open spec fn record_goal_step(
    goal_root: PathView,
    goal: ThreadGoal,
    policy: GoalProjectDataRunPolicy,
    facts: RunDirFacts,
) -> RecordGoalStepView {
    match (policy, facts.latest) {
        (GoalProjectDataRunPolicy::CreateNew, _) => record_new_step(goal_root, goal, facts.unused),
        (GoalProjectDataRunPolicy::ReuseLatest, None) => RecordGoalStepView::FindLatest(
            LatestRunSearchView::start(goal_root, goal.goal_id@),
        ),
        (
            GoalProjectDataRunPolicy::ReuseLatest,
            Some(LatestRun::Found(run_dir)),
        ) => RecordGoalStepView::Record(
            (GoalProjectDataView { goal_root, run_dir: run_dir@ }).snapshot_steps(goal),
        ),
        (GoalProjectDataRunPolicy::ReuseLatest, Some(LatestRun::Missing)) => record_new_step(
            goal_root,
            goal,
            facts.unused,
        ),
        (
            GoalProjectDataRunPolicy::ReuseLatest,
            Some(LatestRun::Failed),
        ) => RecordGoalStepView::Fail,
    }
}

impl RunDirFacts {
    /// Nothing is known.
    pub fn unknown() -> (facts: RunDirFacts)
        ensures
            facts == (RunDirFacts { latest: None, unused: None }),
    {
        RunDirFacts { latest: None, unused: None }
    }
}

/// What to do next to record a goal, by the policy and what is known so far.
pub fn record_goal_project_data(
    goal_root: &AbsolutePath,
    goal: &ThreadGoal,
    policy: GoalProjectDataRunPolicy,
    facts: &RunDirFacts,
) -> (step: RecordGoalStep)
    ensures
        step@ == record_goal_step(goal_root@, *goal, policy, *facts),
{
    match policy {
        GoalProjectDataRunPolicy::ReuseLatest => match &facts.latest {
            None => {
                return RecordGoalStep::FindLatest(
                    LatestRunSearch::new(goal_root, goal.goal_id.as_str()),
                );
            },
            Some(LatestRun::Found(run_dir)) => {
                let data: GoalProjectData = GoalProjectData::from_goal_root_run(
                    goal_root.clone(),
                    run_dir.clone(),
                );
                return RecordGoalStep::Record(data.record_goal_snapshot(goal));
            },
            Some(LatestRun::Missing) => {},
            Some(LatestRun::Failed) => {
                return RecordGoalStep::Fail;
            },
        },
        GoalProjectDataRunPolicy::CreateNew => {},
    }
    match &facts.unused {
        None => RecordGoalStep::FindUnused(UniqueRunSearch::new(goal_root, &goal.updated_at)),
        Some(UnusedRun::Found(run_dir)) => {
            let data: GoalProjectData = GoalProjectData::from_goal_root_run(
                goal_root.clone(),
                run_dir.clone(),
            );
            RecordGoalStep::Record(data.record_goal_snapshot(goal))
        },
        Some(UnusedRun::Failed) => RecordGoalStep::Fail,
    }
}

/// The names of the three files of a run are relative and end differently.
proof fn lemma_file_names()
    ensures
        !is_absolute(MEMORY_FILE@) && !is_absolute(GOAL_FILE@) && !is_absolute(STATUS_FILE@)
            && !is_absolute(REVIEWS_DIR@) && !is_absolute(GOAL_DIR@) && !is_absolute(RUNS_DIR@),
        REVIEWS_DIR@.len() > 0,
        encode_utf8(MEMORY_FILE@).len() >= 4 && encode_utf8(MEMORY_FILE@)[encode_utf8(
            MEMORY_FILE@,
        ).len() - 4] == 'y' as u8,
        encode_utf8(GOAL_FILE@).len() >= 4 && encode_utf8(GOAL_FILE@)[encode_utf8(
            GOAL_FILE@,
        ).len() - 4] == 'l' as u8,
        encode_utf8(STATUS_FILE@).len() >= 4 && encode_utf8(STATUS_FILE@)[encode_utf8(
            STATUS_FILE@,
        ).len() - 4] == 's' as u8,
{
    reveal_strlit("memory.md");
    reveal_strlit("goal.md");
    reveal_strlit("status.md");
    reveal_strlit("reviews");
    reveal_strlit("goal");
    reveal_strlit("runs");
    is_ascii_chars_encode_utf8(MEMORY_FILE@);
    is_ascii_chars_encode_utf8(GOAL_FILE@);
    is_ascii_chars_encode_utf8(STATUS_FILE@);
}

/// The files of a run are three.
proof fn lemma_files_differ(data: GoalProjectDataView)
    ensures
        data.memory_file().native != data.goal_file().native,
        data.memory_file().native != data.status_file().native,
        data.goal_file().native != data.status_file().native,
{
    lemma_file_names();
    let memory = data.memory_file().native;
    let goal = data.goal_file().native;
    let status = data.status_file().native;
    assert(memory[memory.len() - 4] == 'y' as u8);
    assert(goal[goal.len() - 4] == 'l' as u8);
    assert(status[status.len() - 4] == 's' as u8);
}

/// Recording a goal leaves its two files as they are to be, keeps the shared
/// lessons that are there or puts the first text in their place, and touches no
/// other file. The directories that it makes are that of the reviews, that of
/// goal data where the shared lessons are missing, and those that they lie in.
pub proof fn law_snapshot_keeps_shared_lessons(
    data: GoalProjectDataView,
    goal: ThreadGoal,
    disk: Disk,
)
    ensures
        ({
            let after = disk.after(data.snapshot_steps(goal));
            let memory = data.memory_file().native;
            let reviews = data.reviews_dir().native;
            let missing = !disk.holds(memory) && memory != reviews && !lies_above(memory, reviews);
            &&& after.files.contains_key(data.goal_file().native)
            &&& after.files[data.goal_file().native] == goal_file_text(goal)
            &&& after.files.contains_key(data.status_file().native)
            &&& after.files[data.status_file().native] == status_file_text(goal)
            &&& missing ==> after.files.contains_key(memory) && after.files[memory] == MEMORY_TEXT@
            &&& !missing ==> after.files.contains_key(memory) == disk.files.contains_key(memory)
                && after.files[memory] == disk.files[memory]
            &&& forall|path: Seq<u8>|
                path != data.goal_file().native && path != data.status_file().native && path
                    != memory ==> (#[trigger] after.files.contains_key(path)
                    == disk.files.contains_key(path) && after.files[path] == disk.files[path])
            &&& forall|path: Seq<u8>| #[trigger]
                after.dirs.contains(path) <==> disk.dirs.contains(path) || path == reviews
                    || lies_above(path, reviews) || (missing && (path == data.goal_root.native
                    || lies_above(path, data.goal_root.native)))
        }),
{
    lemma_files_differ(data);
    lemma_snapshot(data, goal, disk);
}

/// What is stored after a goal was recorded, step by step.
proof fn lemma_snapshot(data: GoalProjectDataView, goal: ThreadGoal, disk: Disk)
    ensures
        disk.after(data.snapshot_steps(goal)) == disk.with_dir(
            data.reviews_dir().native,
        ).after_step(data.snapshot_steps(goal)[1]).with_file(
            data.goal_file().native,
            goal_file_text(goal),
        ).with_file(data.status_file().native, status_file_text(goal)),
{
    reveal_with_fuel(Disk::after, 5);
    let steps = data.snapshot_steps(goal);
    assert(steps.drop_last() =~= seq![steps[0], steps[1], steps[2]]);
    assert(steps.drop_last().drop_last() =~= seq![steps[0], steps[1]]);
    assert(steps.drop_last().drop_last().drop_last() =~= seq![steps[0]]);
    assert(steps.drop_last().drop_last().drop_last().drop_last() =~= seq![]);
}

/// Once a goal was recorded in a run, the directory of the run is there, so that
/// no search for a new one comes to it.
pub proof fn law_a_recorded_run_is_taken(
    data: GoalProjectDataView,
    goal: ThreadGoal,
    disk: Disk,
    search: UniqueRunSearchView,
)
    requires
        data.run_dir.native.len() > 0,
    ensures
        disk.after(data.snapshot_steps(goal)).holds(data.run_dir.native),
        search.outcome(disk.after(data.snapshot_steps(goal))) matches Some(picked) ==> picked.native
            != data.run_dir.native,
{
    lemma_file_names();
    law_snapshot_keeps_shared_lessons(data, goal, disk);
    law_a_path_lies_above_what_is_in_it(data.run_dir, REVIEWS_DIR@);
    lemma_outcome_is_not_there(search, disk.after(data.snapshot_steps(goal)));
}

/// Whether a path goes on from another, both to the system and as shown.
pub open spec fn starts_with_path(path: PathView, start: PathView) -> bool {
    start.native.is_prefix_of(path.native) && start.shown.is_prefix_of(path.shown)
}

/// Recording a goal twice does what it does once.
pub proof fn law_a_snapshot_is_taken_once(data: GoalProjectDataView, goal: ThreadGoal, disk: Disk)
    ensures
        disk.after(data.snapshot_steps(goal)).after(data.snapshot_steps(goal)) == disk.after(
            data.snapshot_steps(goal),
        ),
{
    let once = disk.after(data.snapshot_steps(goal));
    lemma_files_differ(data);
    lemma_snapshot(data, goal, disk);
    lemma_snapshot(data, goal, once);
    assert(once.with_dir(data.reviews_dir().native) =~= once);
    assert(once.holds(data.memory_file().native));
    assert(once.with_file(data.goal_file().native, goal_file_text(goal)) =~= once);
    assert(once.with_file(data.status_file().native, status_file_text(goal)) =~= once);
}

/// Whether the names are those of the entries of a directory, as far as they are
/// text.
pub open spec fn lists(names: Seq<String>, disk: Disk, dir: PathView) -> bool {
    forall|name: Seq<char>|
        is_entry_name(name) ==> (#[trigger] disk.holds(joined(dir, name).native) <==> exists|i: int|
            0 <= i < names.len() && (#[trigger] names[i])@ == name)
}

/// Recording a review writes a file that was not there, and touches no other. The
/// directory of reviews is made first, and the names are what it then holds. The
/// last round that can be counted is not to have been used.
pub proof fn law_a_review_gets_a_file_of_its_own(
    data: GoalProjectDataView,
    names: Seq<String>,
    output: ReviewOutput,
    disk: Disk,
)
    requires
        lists(names, disk.with_dir(data.reviews_dir().native), data.reviews_dir()),
        highest_round(names) < u32::MAX,
    ensures
        ({
            let made = disk.after_step(StorageStepView::CreateDirAll(data.reviews_dir()));
            let path = joined(data.reviews_dir(), review_file_name_text(round_after(names)));
            let contents = review_file_text(round_after(names), output);
            let after = made.after_step(StorageStepView::Write { path, contents });
            &&& !disk.holds(path.native)
            &&& !made.holds(path.native)
            &&& after.files.contains_key(path.native)
            &&& after.files[path.native] == contents
            &&& forall|other: Seq<u8>|
                other != path.native ==> (#[trigger] after.files.contains_key(other)
                    == disk.files.contains_key(other) && after.files[other] == disk.files[other])
        }),
{
    let made = disk.with_dir(data.reviews_dir().native);
    let path = joined(data.reviews_dir(), review_file_name_text(round_after(names)));
    law_review_file_name_is_an_entry_name(round_after(names));
    law_next_round_is_new(names);
    law_making_a_directory_adds_only_its_way(disk, data.reviews_dir().native);
    assert(!made.holds(path.native));
    let contents = review_file_text(round_after(names), output);
    let after = made.with_file(path.native, contents);
    assert(after.files == disk.files.insert(path.native, contents));
}

/// Everything of a run lies within the `.codex` folder that it was derived from,
/// where the name of the run is relative.
pub proof fn law_goal_data_lies_within_dot_codex(dot_codex: PathView, run_name: Seq<char>)
    requires
        !is_absolute(run_name),
    ensures
        ({
            let goal_root = joined(dot_codex, GOAL_DIR@);
            let data = GoalProjectDataView {
                goal_root,
                run_dir: run_dir_of(goal_root, run_name),
            };
            &&& starts_with_path(data.goal_root, dot_codex)
            &&& starts_with_path(data.memory_file(), data.goal_root)
            &&& starts_with_path(data.run_dir, data.goal_root)
            &&& starts_with_path(data.goal_file(), data.run_dir)
            &&& starts_with_path(data.status_file(), data.run_dir)
            &&& starts_with_path(data.reviews_dir(), data.run_dir)
        }),
{
    lemma_file_names();
    let goal_root = joined(dot_codex, GOAL_DIR@);
    let runs = joined(goal_root, RUNS_DIR@);
    let run_dir = joined(runs, run_name);
    law_relative_names_stay_within(dot_codex, GOAL_DIR@);
    law_relative_names_stay_within(goal_root, MEMORY_FILE@);
    law_relative_names_stay_within(goal_root, RUNS_DIR@);
    law_relative_names_stay_within(runs, run_name);
    law_relative_names_stay_within(run_dir, GOAL_FILE@);
    law_relative_names_stay_within(run_dir, STATUS_FILE@);
    law_relative_names_stay_within(run_dir, REVIEWS_DIR@);
    assert(run_dir.native.subrange(0, goal_root.native.len() as int) =~= runs.native.subrange(
        0,
        goal_root.native.len() as int,
    ));
    assert(run_dir.shown.subrange(0, goal_root.shown.len() as int) =~= runs.shown.subrange(
        0,
        goal_root.shown.len() as int,
    ));
}

/// Where a project layer names a folder, goal data lives there, whatever Git
/// says, and Git is not asked.
pub proof fn law_project_layer_comes_before_git(config: GoalConfig, git: GitProject)
    requires
        lowest_project_folder(config.config_layer_stack.layers@) is Some,
    ensures
        goal_root_step(config, git) == Some(
            joined(lowest_project_folder(config.config_layer_stack.layers@)->0, "goal"@),
        ),
{
}

/// A policy that reuses the latest run records in it where there is one, and adds
/// no run. Where there is none, it does what starting a run does. Where the
/// search for it fails, the recording does, and nothing is stored.
pub proof fn law_policy_decides_on_the_run(
    goal_root: PathView,
    goal: ThreadGoal,
    facts: RunDirFacts,
    disk: Disk,
)
    ensures
        ({
            let reuse = record_goal_step(
                goal_root,
                goal,
                GoalProjectDataRunPolicy::ReuseLatest,
                facts,
            );
            let create = record_goal_step(
                goal_root,
                goal,
                GoalProjectDataRunPolicy::CreateNew,
                facts,
            );
            &&& facts.latest matches Some(LatestRun::Found(run_dir)) ==> reuse.disk_after(disk)
                == disk.after(
                (GoalProjectDataView { goal_root, run_dir: run_dir@ }).snapshot_steps(goal),
            )
            &&& facts.latest == Some(LatestRun::Missing) ==> reuse == create
            &&& facts.latest == Some(LatestRun::Failed) ==> reuse is Fail && reuse.disk_after(disk)
                == disk
            &&& facts.unused matches Some(UnusedRun::Found(run_dir)) ==> create.disk_after(disk)
                == disk.after(
                (GoalProjectDataView { goal_root, run_dir: run_dir@ }).snapshot_steps(goal),
            )
            &&& facts.unused == Some(UnusedRun::Failed) ==> create is Fail && create.disk_after(
                disk,
            ) == disk
        }),
{
}

/// Nothing but a search that failed fails the recording, and nothing that is
/// known is searched for.
pub proof fn law_recording_fails_with_its_search(
    goal_root: PathView,
    goal: ThreadGoal,
    policy: GoalProjectDataRunPolicy,
    facts: RunDirFacts,
)
    ensures
        ({
            let step = record_goal_step(goal_root, goal, policy, facts);
            let creates = policy is CreateNew || facts.latest == Some(LatestRun::Missing);
            &&& step is Fail <==> (policy is ReuseLatest && facts.latest == Some(LatestRun::Failed))
                || (creates && facts.unused == Some(UnusedRun::Failed))
            &&& step is FindLatest <==> policy is ReuseLatest && facts.latest is None
            &&& step is FindUnused <==> creates && facts.unused is None
        }),
{
}

/// Where no layer that is in force comes from a project, whatever other layers
/// there are, the Git project decides: goal data lives in `.codex/goal` within its
/// root, wherever in it the working directory is. Outside of any Git project it
/// lives in `.codex/goal` within the working directory. The Git project is asked
/// for exactly where nothing is known of it.
pub proof fn law_git_decides_without_a_project_layer(config: GoalConfig, git: GitProject)
    requires
        forall|i: int|
            0 <= i < config.config_layer_stack.layers@.len() ==> (
            #[trigger] config.config_layer_stack.layers@[i]).disabled
                || config.config_layer_stack.layers@[i].name is Other,
    ensures
        git matches GitProject::Root(root) ==> goal_root_step(config, git) == Some(
            joined(joined(root@, ".codex"@), "goal"@),
        ),
        git is Outside ==> goal_root_step(config, git) == Some(
            joined(joined(config.cwd@, ".codex"@), "goal"@),
        ),
        git is Unknown <==> goal_root_step(config, git) is None,
{
    law_only_project_layers_in_force_count(config.config_layer_stack.layers@);
}

/// Within a Git project, where goal data lives depends neither on the working
/// directory nor on layers that are disabled or do not come from a project: two
/// configurations without a project layer in force agree on it.
pub proof fn law_one_git_project_has_one_place(
    config: GoalConfig,
    other: GoalConfig,
    root: AbsolutePath,
)
    requires
        forall|i: int|
            0 <= i < config.config_layer_stack.layers@.len() ==> (
            #[trigger] config.config_layer_stack.layers@[i]).disabled
                || config.config_layer_stack.layers@[i].name is Other,
        forall|i: int|
            0 <= i < other.config_layer_stack.layers@.len() ==> (
            #[trigger] other.config_layer_stack.layers@[i]).disabled
                || other.config_layer_stack.layers@[i].name is Other,
    ensures
        goal_root_step(config, GitProject::Root(root)) == goal_root_step(
            other,
            GitProject::Root(root),
        ),
{
    law_git_decides_without_a_project_layer(config, GitProject::Root(root));
    law_git_decides_without_a_project_layer(other, GitProject::Root(root));
}

/// The first layer from below that is in force and comes from a project decides
/// alone: goal data lives in `goal` within its folder, whatever lies above it, the
/// working directory is, and is known of Git.
pub proof fn law_the_lowest_project_layer_decides(config: GoalConfig, git: GitProject, at: int)
    requires
        0 <= at < config.config_layer_stack.layers@.len(),
        !config.config_layer_stack.layers@[at].disabled,
        config.config_layer_stack.layers@[at].name is Project,
        forall|i: int|
            0 <= i < at ==> (#[trigger] config.config_layer_stack.layers@[i]).disabled
                || config.config_layer_stack.layers@[i].name is Other,
    ensures
        goal_root_step(config, git) == Some(
            joined(config.config_layer_stack.layers@[at].name->dot_codex_folder@, "goal"@),
        ),
{
    let layers = config.config_layer_stack.layers@;
    law_only_project_layers_in_force_count(layers);
    match lowest_project_folder(layers) {
        Some(folder) => {
            let found = choose|k: int|
                {
                    &&& 0 <= k < layers.len()
                    &&& !(#[trigger] layers[k]).disabled
                    &&& layers[k].name matches ConfigLayerSource::Project { dot_codex_folder }
                        && folder == dot_codex_folder@
                    &&& forall|i: int|
                        0 <= i < k ==> (#[trigger] layers[i]).disabled || layers[i].name is Other
                };
            if found < at {
                assert(layers[found].disabled || layers[found].name is Other);
            }
            if at < found {
                assert(layers[at].disabled || layers[at].name is Other);
            }
        },
        None => {
            assert(layers[at].disabled || layers[at].name is Other);
        },
    }
}

/// The files of goal data have their fixed names: the shared lessons in the
/// directory of goal data, the others in that of the run.
pub proof fn law_goal_data_has_fixed_names(data: GoalProjectDataView)
    ensures
        data.memory_file() == joined(data.goal_root, "memory.md"@),
        data.goal_file() == joined(data.run_dir, "goal.md"@),
        data.status_file() == joined(data.run_dir, "status.md"@),
        data.reviews_dir() == joined(data.run_dir, "reviews"@),
{
}

/// The fixed parts of what a review is told of the places of a goal.
pub struct GuidanceParts {
    pub before_root: Seq<char>,
    pub before_memory: Seq<char>,
    pub before_run: Seq<char>,
    pub before_goal: Seq<char>,
    pub before_status: Seq<char>,
    pub before_reviews: Seq<char>,
    pub end: Seq<char>,
}

impl GuidanceParts {
    /// Whether what is told of all places is made of these parts, with the paths
    /// in full between them.
    pub open spec fn make_every_guidance(self) -> bool {
        forall|data: GoalProjectDataView| #[trigger]
            data.guidance() == self.before_root + data.goal_root.shown + self.before_memory
                + joined(data.goal_root, "memory.md"@).shown + self.before_run + data.run_dir.shown
                + self.before_goal + joined(data.run_dir, "goal.md"@).shown + self.before_status
                + joined(data.run_dir, "status.md"@).shown + self.before_reviews + joined(
                data.run_dir,
                "reviews"@,
            ).shown + self.end
    }
}

/// Whatever the places, what is told of them is made of the same fixed parts, with
/// the paths of the directory of goal data, the shared lessons, the run, its goal,
/// its status and its reviews in full between them, in this order and each behind
/// a backtick.
pub proof fn law_guidance_names_every_place()
    ensures
        exists|parts: GuidanceParts|
            {
                &&& #[trigger] parts.make_every_guidance()
                &&& parts.before_root.len() > 0 && parts.before_root.last() == '`'
                &&& parts.before_memory.len() > 0 && parts.before_memory.last() == '`'
                    && parts.before_memory[0] == '`'
                &&& parts.before_run.len() > 0 && parts.before_run.last() == '`'
                    && parts.before_run[0] == '`'
                &&& parts.before_goal.len() > 0 && parts.before_goal.last() == '`'
                    && parts.before_goal[0] == '`'
                &&& parts.before_status.len() > 0 && parts.before_status.last() == '`'
                    && parts.before_status[0] == '`'
                &&& parts.before_reviews.len() > 0 && parts.before_reviews.last() == '`'
                    && parts.before_reviews[0] == '`'
                &&& parts.end.len() > 25 && parts.end.take(26) == "/round-*-review-result.md`"@
            },
{
    let parts = GuidanceParts {
        before_root: "Codex goal data:\n- Use Codex-owned project goal data under `"@,
        before_memory: "`. This path is derived from the top-level project `.codex` directory.\n- Shared project memory lives at `"@,
        before_run: "` and can contain reusable lessons across goals.\n- Current goal run data lives under `"@,
        before_goal: "`. Inspect `"@,
        before_status: "`, `"@,
        before_reviews: "`, and `"@,
        end: "/round-*-review-result.md` when present.\n- For this goal review gate, do not inspect legacy or third-party goal/memory directories. Treat unresolved findings from Codex goal-data files as blockers only when they still apply to the scoped modifications."@,
    };
    assert(parts.make_every_guidance());
    lemma_guidance_quotes();
    assert(parts.end.take(26) =~= "/round-*-review-result.md`"@);
}

/// The paths stand between backticks.
proof fn lemma_guidance_quotes()
    ensures
        "Codex goal data:\n- Use Codex-owned project goal data under `"@.len() > 0 && "Codex goal data:\n- Use Codex-owned project goal data under `"@.last() == '`',
        "`. This path is derived from the top-level project `.codex` directory.\n- Shared project memory lives at `"@.len() > 0 && "`. This path is derived from the top-level project `.codex` directory.\n- Shared project memory lives at `"@.last() == '`' && "`. This path is derived from the top-level project `.codex` directory.\n- Shared project memory lives at `"@[0] == '`',
        "` and can contain reusable lessons across goals.\n- Current goal run data lives under `"@.len() > 0 && "` and can contain reusable lessons across goals.\n- Current goal run data lives under `"@.last() == '`' && "` and can contain reusable lessons across goals.\n- Current goal run data lives under `"@[0] == '`',
        "`. Inspect `"@.len() > 0 && "`. Inspect `"@.last() == '`' && "`. Inspect `"@[0] == '`',
        "`, `"@.len() > 0 && "`, `"@.last() == '`' && "`, `"@[0] == '`',
        "`, and `"@.len() > 0 && "`, and `"@.last() == '`' && "`, and `"@[0] == '`',
        
        ({
            let end = "/round-*-review-result.md` when present.\n- For this goal review gate, do not inspect legacy or third-party goal/memory directories. Treat unresolved findings from Codex goal-data files as blockers only when they still apply to the scoped modifications."@;
            &&& end.len() > 26
            &&& "/round-*-review-result.md`"@.len() == 26
            &&& forall|i: int|
                0 <= i < 26 ==> #[trigger] end[i] == "/round-*-review-result.md`"@[i]
        }),
{
    reveal_strlit("/round-*-review-result.md`");
    reveal_strlit("Codex goal data:\n- Use Codex-owned project goal data under `");
    reveal_strlit("`. This path is derived from the top-level project `.codex` directory.\n- Shared project memory lives at `");
    reveal_strlit("` and can contain reusable lessons across goals.\n- Current goal run data lives under `");
    reveal_strlit("`. Inspect `");
    reveal_strlit("`, `");
    reveal_strlit("`, and `");
    reveal_strlit("/round-*-review-result.md` when present.\n- For this goal review gate, do not inspect legacy or third-party goal/memory directories. Treat unresolved findings from Codex goal-data files as blockers only when they still apply to the scoped modifications.");
}

/// Recording a goal takes four steps, in this order: the directory of reviews is
/// made, and with it that of the run; the shared lessons are put in place where
/// they are missing; the file of the goal is written, and then that of its status.
pub proof fn law_a_snapshot_is_taken_in_order(data: GoalProjectDataView, goal: ThreadGoal)
    ensures
        ({
            let steps = data.snapshot_steps(goal);
            &&& steps.len() == 4
            &&& steps[0] == StorageStepView::CreateDirAll(joined(data.run_dir, "reviews"@))
            &&& steps[1] == (StorageStepView::WriteIfMissing {
                dir: data.goal_root,
                path: joined(data.goal_root, "memory.md"@),
                contents: MEMORY_TEXT@,
            })
            &&& steps[2] == (StorageStepView::Write {
                path: joined(data.run_dir, "goal.md"@),
                contents: goal_file_text(goal),
            })
            &&& steps[3] == (StorageStepView::Write {
                path: joined(data.run_dir, "status.md"@),
                contents: status_file_text(goal),
            })
        }),
{
}

/// A goal is worked on in its latest run where one was found, and else, be there
/// none or the search fail, in the run of the name given, in `runs`.
pub proof fn law_the_latest_run_is_resolved(
    goal_root: PathView,
    latest: LatestRun,
    run_name: Seq<char>,
)
    ensures
        resolved_project_data(goal_root, latest, run_name).goal_root == goal_root,
        latest matches LatestRun::Found(run_dir) ==> resolved_project_data(
            goal_root,
            latest,
            run_name,
        ).run_dir == run_dir@,
        latest !is Found ==> resolved_project_data(goal_root, latest, run_name).run_dir == joined(
            joined(goal_root, "runs"@),
            run_name,
        ),
{
}

/// The latest run is searched for by the name of the goal, and a new one by the
/// moment the goal was last changed, both in the directory of goal data. What is
/// recorded, is recorded in the run that was found. A step shows all that it holds.
pub proof fn law_a_goal_is_recorded_in_its_own_run(
    goal_root: PathView,
    goal: ThreadGoal,
    policy: GoalProjectDataRunPolicy,
    facts: RunDirFacts,
    step: RecordGoalStep,
)
    ensures
        record_goal_step(goal_root, goal, policy, facts) matches RecordGoalStepView::FindLatest(
            search,
        ) ==> search.goal_root == goal_root && search.goal_id == goal.goal_id@ && search.seen.len()
            == 0 && !search.failed,
        record_goal_step(goal_root, goal, policy, facts) matches RecordGoalStepView::FindUnused(
            search,
        ) ==> search.runs_dir == joined(goal_root, "runs"@) && search.base_name == run_name_text(
            goal.updated_at@,
        ) && search.attempt == 1,
        record_goal_step(goal_root, goal, policy, facts) matches RecordGoalStepView::Record(steps)
            ==> {
            ||| policy is ReuseLatest && (facts.latest matches Some(LatestRun::Found(run_dir))
                && steps == (GoalProjectDataView { goal_root, run_dir: run_dir@ }).snapshot_steps(
                goal,
            ))
            ||| !(policy is ReuseLatest && (facts.latest matches Some(LatestRun::Found(_)))) && (
            facts.unused matches Some(UnusedRun::Found(run_dir)) && steps == (GoalProjectDataView {
                goal_root,
                run_dir: run_dir@,
            }).snapshot_steps(goal))
        },
        step matches RecordGoalStep::FindLatest(search) ==> step@
            == RecordGoalStepView::FindLatest(search@),
        step matches RecordGoalStep::FindUnused(search) ==> step@
            == RecordGoalStepView::FindUnused(search@),
        step matches RecordGoalStep::Record(steps) ==> step@ == RecordGoalStepView::Record(
            steps_view(steps@),
        ),
        step is Fail <==> step@ is Fail,
{
}

} // verus!
