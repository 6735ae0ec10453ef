use chrono::{DateTime, Datelike, TimeZone, Timelike, Utc};
use codex_goals::goal::{ThreadGoal, ThreadGoalStatus, ThreadId};
use codex_goals::layers::{
    top_level_project_dot_codex, top_level_project_dot_codex_from_layers, ConfigLayer,
    ConfigLayerSource, ConfigLayerStack, GoalConfig,
};
use codex_goals::path::{AbsolutePath, NotAbsolute};
use codex_goals::project_data::{
    record_goal_project_data, resolve_goal_project_data, resolve_goal_project_data_at,
    resolve_goal_root, GitProject, GoalProjectData, GoalProjectDataRunPolicy, GoalRootStep,
    RecordGoalStep, RunDirFacts, UnusedRun, MEMORY_TEXT,
};
use codex_goals::reviews::{ReviewFinding, ReviewOutput};
use codex_goals::run_dirs::{GoalFileRead, LatestRun};
use codex_goals::storage::StorageStep;
use codex_goals::time::UtcTime;
use std::collections::BTreeMap;

fn path(text: &str) -> AbsolutePath {
    AbsolutePath::from_absolute_path(text).expect("test path should be absolute")
}

fn utc(time: DateTime<Utc>) -> UtcTime {
    UtcTime::new(
        time.year(),
        time.month(),
        time.day(),
        time.hour(),
        time.minute(),
        time.second(),
        time.nanosecond(),
    )
    .expect("a moment of chrono is a moment")
}

fn test_goal(goal_id: &str) -> ThreadGoal {
    ThreadGoal {
        thread_id: ThreadId::from_text("019a0000-0000-7000-8000-000000000001").unwrap(),
        goal_id: goal_id.to_string(),
        objective: "finish the stack".to_string(),
        status: ThreadGoalStatus::Active,
        token_budget: Some(100),
        tokens_used: 10,
        time_used_seconds: 5,
        created_at: utc(Utc.timestamp_opt(10, 0).single().unwrap()),
        updated_at: utc(Utc.timestamp_opt(20, 0).single().unwrap()),
    }
}

/// Carries steps out on files that are held in memory.
fn carry_out(files: &mut BTreeMap<String, String>, steps: Vec<StorageStep>) {
    for step in steps {
        let exists = match &step {
            StorageStep::WriteIfMissing { path, .. } => files.contains_key(path.as_str()),
            _ => false,
        };
        for settled in step.settle(exists) {
            match settled {
                StorageStep::CreateDirAll(_) => {}
                StorageStep::Write { path, contents } => {
                    files.insert(path.as_str().to_string(), contents);
                }
                StorageStep::WriteIfMissing { .. } => panic!("the step was settled"),
            }
        }
    }
}

#[test]
fn guidance_uses_codex_goal_run_layout() {
    let dot_codex = path("/repo/.codex");
    let project_data = GoalProjectData::from_dot_codex_run(dot_codex, "goal-2026-05-24_15-30-12Z");
    let guidance = project_data.guidance();

    assert!(guidance.contains("`/repo/.codex/goal`"));
    assert!(guidance.contains("`/repo/.codex/goal/memory.md`"));
    assert!(guidance.contains("`/repo/.codex/goal/runs/goal-2026-05-24_15-30-12Z/goal.md`"));
    assert!(guidance.contains("`/repo/.codex/goal/runs/goal-2026-05-24_15-30-12Z/status.md`"));
    assert!(guidance.contains(
        "`/repo/.codex/goal/runs/goal-2026-05-24_15-30-12Z/reviews/round-*-review-result.md`"
    ));
    assert!(guidance.contains("do not inspect legacy or third-party"));
    assert!(!guidance.contains(&["humani", "ze"].concat()));
}

#[test]
fn guidance_is_exact() {
    let data = GoalProjectData::from_goal_root_run(path("/g"), path("/g/runs/r"));
    assert_eq!(
        data.guidance(),
        "Codex goal data:\n- Use Codex-owned project goal data under `/g`. This path is derived from the top-level project `.codex` directory.\n- Shared project memory lives at `/g/memory.md` and can contain reusable lessons across goals.\n- Current goal run data lives under `/g/runs/r`. Inspect `/g/runs/r/goal.md`, `/g/runs/r/status.md`, and `/g/runs/r/reviews/round-*-review-result.md` when present.\n- For this goal review gate, do not inspect legacy or third-party goal/memory directories. Treat unresolved findings from Codex goal-data files as blockers only when they still apply to the scoped modifications."
    );
}

#[test]
fn record_goal_snapshot_writes_shared_memory_and_run_files() {
    let dot_codex = path("/work/.codex");
    let project_data = GoalProjectData::from_dot_codex_run(dot_codex, "goal-1970-01-01_00-00-20Z");
    let goal = test_goal("goal:1");
    let mut files = BTreeMap::new();

    carry_out(&mut files, project_data.record_goal_snapshot(&goal));

    let root = "/work/.codex/goal";
    assert!(files.contains_key(&format!("{root}/memory.md")));
    let run_dir = format!("{root}/runs/goal-1970-01-01_00-00-20Z");
    let goal_file = &files[&format!("{run_dir}/goal.md")];
    let status_file = &files[&format!("{run_dir}/status.md")];

    assert!(goal_file.contains("- Goal ID: `goal:1`"));
    assert!(goal_file.contains("## Objective\n\nfinish the stack"));
    assert!(status_file.contains("- Status: `active`"));

    assert_eq!(
        goal_file,
        "# Goal\n\n- Goal ID: `goal:1`\n- Thread ID: `019a0000-0000-7000-8000-000000000001`\n- Created: `1970-01-01T00:00:10+00:00`\n- Token budget: `100`\n\n## Objective\n\nfinish the stack\n"
    );
    assert_eq!(
        status_file,
        "# Goal Status\n\n- Status: `active`\n- Updated: `1970-01-01T00:00:20+00:00`\n- Tokens used: `10`\n- Time used seconds: `5`\n"
    );
    assert_eq!(files[&format!("{root}/memory.md")], MEMORY_TEXT);
    assert_eq!(files.len(), 3);
}

#[test]
fn record_goal_snapshot_keeps_shared_memory() {
    let project_data = GoalProjectData::from_dot_codex_run(path("/work/.codex"), "goal-x");
    let mut files = BTreeMap::new();
    files.insert("/work/.codex/goal/memory.md".to_string(), "lessons".to_string());
    files.insert("/work/other".to_string(), "other".to_string());

    let mut goal = test_goal("goal:1");
    carry_out(&mut files, project_data.record_goal_snapshot(&goal));
    goal.status = ThreadGoalStatus::Inactive("paused".to_string());
    goal.token_budget = None;
    goal.tokens_used = -7;
    carry_out(&mut files, project_data.record_goal_snapshot(&goal));

    assert_eq!(files["/work/.codex/goal/memory.md"], "lessons");
    assert_eq!(files["/work/other"], "other");
    let run_dir = "/work/.codex/goal/runs/goal-x";
    assert!(files[&format!("{run_dir}/status.md")].contains("- Status: `paused`\n"));
    assert!(files[&format!("{run_dir}/status.md")].contains("- Tokens used: `-7`\n"));
    assert!(files[&format!("{run_dir}/goal.md")].contains("- Token budget: `none`\n"));
}

#[test]
fn snapshot_steps_come_in_order() {
    let project_data = GoalProjectData::from_dot_codex_run(path("/w/.codex"), "goal-x");
    let steps = project_data.record_goal_snapshot(&test_goal("g"));
    assert_eq!(steps.len(), 4);
    assert_eq!(
        steps[0],
        StorageStep::CreateDirAll(path("/w/.codex/goal/runs/goal-x/reviews"))
    );
    assert_eq!(
        steps[1],
        StorageStep::WriteIfMissing {
            dir: path("/w/.codex/goal"),
            path: path("/w/.codex/goal/memory.md"),
            contents: "# Goal Memory\n\nProject-level reusable lessons for Codex goals.\n"
                .to_string(),
        }
    );
    assert_eq!(project_data.reviews_dir(), path("/w/.codex/goal/runs/goal-x/reviews"));
    assert_eq!(
        project_data.ensure_project_memory_file().settle(false),
        vec![
            StorageStep::CreateDirAll(path("/w/.codex/goal")),
            StorageStep::Write {
                path: path("/w/.codex/goal/memory.md"),
                contents: MEMORY_TEXT.to_string(),
            },
        ]
    );
    assert!(project_data.ensure_project_memory_file().settle(true).is_empty());
}

#[test]
fn record_review_output_uses_next_round_number() {
    let project_data =
        GoalProjectData::from_dot_codex_run(path("/work/.codex"), "goal-2026-05-24_15-30-12Z");
    let title = ["Fix", "the", "gate"].join(" ");
    let first = project_data.record_review_output(
        &Vec::new(),
        &ReviewOutput {
            findings: vec![ReviewFinding {
                title: title.clone(),
                body: "The goal gate did not inspect status.".to_string(),
                confidence_score: 0.9f32.to_string(),
                priority: 1,
                absolute_file_path: "/repo/src/lib.rs".to_string(),
                start_line: 3,
                end_line: 4,
            }],
            overall_correctness: "patch is incorrect".to_string(),
            overall_explanation: "Needs another round.".to_string(),
            overall_confidence_score: 0.91f32.to_string(),
        },
    );
    let first_name = first.path.as_str().rsplit('/').next().unwrap().to_string();
    assert_eq!(first_name, "round-0001-review-result.md");
    assert_eq!(
        first.contents,
        format!(
            "# Review Round 0001\n\n- Overall correctness: `patch is incorrect`\n- Overall confidence: `0.91`\n\n## Explanation\n\nNeeds another round.\n\n## Findings\n\n### [1] {title}\n\nThe goal gate did not inspect status.\n\n- File: `/repo/src/lib.rs`\n- Lines: 3-4\n- Confidence: `0.9`\n"
        )
    );
    let second = project_data.record_review_output(
        &vec![first_name],
        &ReviewOutput {
            overall_correctness: "patch is correct".to_string(),
            overall_explanation: "No findings.".to_string(),
            overall_confidence_score: 0.99f32.to_string(),
            findings: Vec::new(),
        },
    );

    assert_eq!(second.round, 2);
    assert_eq!(
        second.path.as_str(),
        "/work/.codex/goal/runs/goal-2026-05-24_15-30-12Z/reviews/round-0002-review-result.md"
    );
    assert!(second.contents.contains("# Review Round 0002"));
    assert!(second.contents.contains("None."));
}

#[test]
fn top_level_project_dot_codex_prefers_lowest_precedence_project_layer() {
    let root_dot_codex = path("/repo/.codex");
    let child_dot_codex = path("/repo/child/.codex");
    let stack = ConfigLayerStack {
        layers: vec![
            ConfigLayer {
                name: ConfigLayerSource::Project { dot_codex_folder: root_dot_codex.clone() },
                disabled: false,
            },
            ConfigLayer {
                name: ConfigLayerSource::Project { dot_codex_folder: child_dot_codex },
                disabled: false,
            },
        ],
    };

    let layer = top_level_project_dot_codex_from_layers(&stack);

    assert_eq!(Some(root_dot_codex), layer);
}

#[test]
fn other_and_disabled_layers_are_passed_over() {
    let stack = ConfigLayerStack {
        layers: vec![
            ConfigLayer { name: ConfigLayerSource::Other, disabled: false },
            ConfigLayer {
                name: ConfigLayerSource::Project { dot_codex_folder: path("/off/.codex") },
                disabled: true,
            },
            ConfigLayer {
                name: ConfigLayerSource::Project { dot_codex_folder: path("/on/.codex") },
                disabled: false,
            },
        ],
    };
    let config = GoalConfig { config_layer_stack: stack, cwd: path("/cwd") };
    assert_eq!(top_level_project_dot_codex(&config), Some(path("/on/.codex")));
    assert_eq!(
        resolve_goal_root(&config, &GitProject::Unknown),
        GoalRootStep::Found(path("/on/.codex/goal"))
    );
    assert_eq!(
        resolve_goal_root(&config, &GitProject::Root(path("/git"))),
        GoalRootStep::Found(path("/on/.codex/goal"))
    );
}

#[test]
fn goal_root_falls_back_to_git_and_then_to_cwd() {
    let config = GoalConfig {
        config_layer_stack: ConfigLayerStack { layers: Vec::new() },
        cwd: path("/cwd"),
    };
    assert_eq!(top_level_project_dot_codex(&config), None);
    assert_eq!(resolve_goal_root(&config, &GitProject::Unknown), GoalRootStep::FindGitProject);
    assert_eq!(
        resolve_goal_root(&config, &GitProject::Root(path("/git"))),
        GoalRootStep::Found(path("/git/.codex/goal"))
    );
    assert_eq!(
        resolve_goal_root(&config, &GitProject::Outside),
        GoalRootStep::Found(path("/cwd/.codex/goal"))
    );
}

#[test]
fn project_data_resolves_to_latest_run_or_a_new_one() {
    let now = UtcTime::new(2026, 5, 24, 15, 30, 12, 999).unwrap();
    let found = resolve_goal_project_data_at(path("/g"), LatestRun::Found(path("/g/runs/r")), &now);
    assert_eq!(found, GoalProjectData::from_goal_root_run(path("/g"), path("/g/runs/r")));
    let fresh = GoalProjectData::from_goal_root_run(
        path("/g"),
        path("/g/runs/goal-2026-05-24_15-30-12Z"),
    );
    assert_eq!(resolve_goal_project_data_at(path("/g"), LatestRun::Missing, &now), fresh);
    assert_eq!(resolve_goal_project_data_at(path("/g"), LatestRun::Failed, &now), fresh);
}

#[test]
fn project_data_of_a_goal_without_run_starts_now() {
    let found = resolve_goal_project_data(path("/g"), LatestRun::Found(path("/g/runs/r")));
    assert_eq!(found, GoalProjectData::from_goal_root_run(path("/g"), path("/g/runs/r")));
    let before = Utc::now().format("/g/runs/goal-%Y-%m-%d_%H-%M-%SZ/reviews").to_string();
    let fresh = resolve_goal_project_data(path("/g"), LatestRun::Missing);
    let after = Utc::now().format("/g/runs/goal-%Y-%m-%d_%H-%M-%SZ/reviews").to_string();
    let reviews = fresh.reviews_dir();
    assert!(before.as_str() <= reviews.as_str() && reviews.as_str() <= after.as_str());
}

/// The steps that record the goal, where it is to be recorded.
fn recorded(policy: GoalProjectDataRunPolicy, facts: &RunDirFacts) -> Option<Vec<StorageStep>> {
    match record_goal_project_data(&path("/g"), &test_goal("goal:1"), policy, facts) {
        RecordGoalStep::Record(steps) => Some(steps),
        _ => None,
    }
}

fn snapshot_in(run_dir: &str) -> Vec<StorageStep> {
    GoalProjectData::from_goal_root_run(path("/g"), path(run_dir))
        .record_goal_snapshot(&test_goal("goal:1"))
}

#[test]
fn policy_decides_on_the_run() {
    let create = GoalProjectDataRunPolicy::CreateNew;
    let reuse = GoalProjectDataRunPolicy::ReuseLatest;
    let goal = test_goal("goal:1");
    let root = path("/g");
    let step = |policy, facts: &RunDirFacts| record_goal_project_data(&root, &goal, policy, facts);

    let none = RunDirFacts::unknown();
    match step(create, &none) {
        RecordGoalStep::FindUnused(search) => {
            assert_eq!(search.candidate(), path("/g/runs/goal-1970-01-01_00-00-20Z"));
        }
        _ => panic!("a new run is to be found"),
    }
    match step(reuse, &none) {
        RecordGoalStep::FindLatest(mut search) => {
            assert_eq!(search.runs_dir(), path("/g/runs"));
            let file = GoalFileRead::Text("- Goal ID: `goal:1`\n".to_string());
            assert!(search.goal_file_was_read("goal-1".to_string(), file));
            assert_eq!(search.latest_goal_run_dir(), LatestRun::Found(path("/g/runs/goal-1")));
        }
        _ => panic!("the latest run is to be found"),
    }

    let latest = RunDirFacts { latest: Some(LatestRun::Found(path("/g/runs/a"))), unused: None };
    assert_eq!(recorded(reuse, &latest), Some(snapshot_in("/g/runs/a")));
    assert!(matches!(step(create, &latest), RecordGoalStep::FindUnused(_)));

    let missing = RunDirFacts { latest: Some(LatestRun::Missing), unused: None };
    assert!(matches!(step(reuse, &missing), RecordGoalStep::FindUnused(_)));
    let unused = RunDirFacts {
        latest: Some(LatestRun::Missing),
        unused: Some(UnusedRun::Found(path("/g/runs/b"))),
    };
    assert_eq!(recorded(reuse, &unused), Some(snapshot_in("/g/runs/b")));
    assert_eq!(recorded(create, &unused), Some(snapshot_in("/g/runs/b")));
}

#[test]
fn a_failed_search_fails_the_recording() {
    let create = GoalProjectDataRunPolicy::CreateNew;
    let reuse = GoalProjectDataRunPolicy::ReuseLatest;
    let goal = test_goal("goal:1");
    let root = path("/g");
    let fails = |policy, facts: &RunDirFacts| {
        matches!(
            record_goal_project_data(&root, &goal, policy, facts),
            RecordGoalStep::Fail
        )
    };
    let no_latest = RunDirFacts {
        latest: Some(LatestRun::Failed),
        unused: Some(UnusedRun::Found(path("/g/runs/b"))),
    };
    assert!(fails(reuse, &no_latest));
    assert!(!fails(create, &no_latest));
    let no_unused = RunDirFacts {
        latest: Some(LatestRun::Missing),
        unused: Some(UnusedRun::Failed),
    };
    assert!(fails(reuse, &no_unused));
    assert!(fails(create, &no_unused));
    let reused = RunDirFacts {
        latest: Some(LatestRun::Found(path("/g/runs/a"))),
        unused: Some(UnusedRun::Failed),
    };
    assert!(!fails(reuse, &reused));
}

#[test]
fn paths_join_like_paths() {
    assert_eq!(AbsolutePath::from_absolute_path("relative"), Err(NotAbsolute));
    assert_eq!(AbsolutePath::from_absolute_path(""), Err(NotAbsolute));
    assert_eq!(path("/").join("a").as_str(), "/a");
    assert_eq!(path("/a").join("b/c").as_str(), "/a/b/c");
    assert_eq!(path("/a/").join("b").as_str(), "/a/b");
    assert_eq!(path("/a").join("/b").as_str(), "/b");
    let joined = std::path::Path::new("/a").join("b");
    assert_eq!(path("/a").join("b").as_str(), joined.to_str().unwrap());
}

#[test]
fn paths_need_not_be_text() {
    let native = b"/r\xff/.codex".to_vec();
    let shown = String::from_utf8_lossy(&native).to_string();
    let dot_codex = AbsolutePath::from_native(native, shown).expect("an absolute path");
    assert_eq!(dot_codex.as_str(), "/r\u{fffd}/.codex");
    let data = GoalProjectData::from_dot_codex_run(dot_codex, "goal-x");
    assert_eq!(data.reviews_dir().native(), b"/r\xff/.codex/goal/runs/goal-x/reviews");
    assert!(data.guidance().contains("`/r\u{fffd}/.codex/goal/memory.md`"));

    assert_eq!(AbsolutePath::from_native(Vec::new(), String::new()), Err(NotAbsolute));
    assert_eq!(
        AbsolutePath::from_native(b"C:/r".to_vec(), "C:/r".to_string()),
        Err(NotAbsolute)
    );
    let text = path("/\u{e9}").join("\u{e8}");
    assert_eq!(text.native(), "/\u{e9}/\u{e8}".as_bytes());
    assert_eq!(text.as_str(), "/\u{e9}/\u{e8}");
}

#[test]
fn a_review_gets_a_file_of_its_own() {
    let data = GoalProjectData::from_goal_root_run(path("/g"), path("/g/runs/r"));
    assert_eq!(
        data.make_reviews_dir(),
        StorageStep::CreateDirAll(path("/g/runs/r/reviews"))
    );
    let output = ReviewOutput {
        findings: Vec::new(),
        overall_correctness: "patch is correct".to_string(),
        overall_explanation: "fine".to_string(),
        overall_confidence_score: "1".to_string(),
    };
    let mut names = vec!["notes.md".to_string(), "round-7-review-result.md".to_string()];
    for round in [8, 9, 10] {
        let record = data.record_review_output(&names, &output);
        let name = record.path.as_str().rsplit('/').next().unwrap().to_string();
        assert_eq!(record.path, data.reviews_dir().join(&name));
        assert_eq!(record.round, round);
        assert!(!names.contains(&name));
        names.push(name);
    }
    let last = vec!["round-4294967295-review-result.md".to_string()];
    let record = data.record_review_output(&last, &output);
    assert_eq!(record.path, data.reviews_dir().join(&last[0]));
}

#[test]
fn recording_twice_does_what_it_does_once() {
    let project_data = GoalProjectData::from_dot_codex_run(path("/work/.codex"), "goal-x");
    let goal = test_goal("goal:1");
    let mut once = BTreeMap::new();
    carry_out(&mut once, project_data.record_goal_snapshot(&goal));
    let mut twice = once.clone();
    carry_out(&mut twice, project_data.record_goal_snapshot(&goal));
    assert_eq!(once, twice);
}

#[test]
fn thread_names_are_on_one_line() {
    assert_eq!(ThreadId::from_text("thread-1").unwrap().as_str(), "thread-1");
    assert_eq!(ThreadId::from_text("a\nb"), None);
    assert_eq!(ThreadId::from_text("\n"), None);
    assert_eq!(ThreadId::from_text("").unwrap().as_str(), "");
    assert_eq!(ThreadId::from_text("a\rb").unwrap().as_str(), "a\rb");
}
