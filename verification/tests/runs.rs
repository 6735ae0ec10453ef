use chrono::{DateTime, Datelike, TimeZone, Timelike, Utc};
use codex_goals::goal::{
    render_goal_file, render_goal_id_line, ThreadGoal, ThreadGoalStatus, ThreadId,
};
use codex_goals::path::AbsolutePath;
use codex_goals::project_data::GoalProjectData;
use codex_goals::run_dirs::{
    GoalFileRead, LatestRun, LatestRunSearch, RunEntryRead, RunEntryStep, RunsDirRead,
    UniqueRunSearch,
};
use codex_goals::storage::StorageStep;
use codex_goals::time::{goal_run_dir_name, UtcTime};

fn path(text: &str) -> AbsolutePath {
    AbsolutePath::from_absolute_path(text).expect("test path should be absolute")
}

fn utc(time: DateTime<Utc>) -> UtcTime {
    UtcTime::new(
        time.year(),
        time.month(),
        time.day(),
        time.hour(),
        time.minute(),
        time.second(),
        time.nanosecond(),
    )
    .expect("a moment of chrono is a moment")
}

fn entry(is_dir: bool, name: &str) -> RunEntryRead {
    RunEntryRead::Entry { is_dir, name: Some(name.to_string()) }
}

/// Looks through directories with the contents of their goal files.
fn latest_goal_run_dir(
    goal_root: &AbsolutePath,
    goal_id: &str,
    entries: &[(&str, &str)],
) -> Option<AbsolutePath> {
    let mut search = LatestRunSearch::new(goal_root, goal_id);
    assert!(search.runs_dir_was_opened(RunsDirRead::Opened));
    for (name, goal_file) in entries {
        if let RunEntryStep::ReadGoalFile { run_name, .. } =
            search.entry_was_read(entry(true, name))
        {
            assert!(search.goal_file_was_read(
                run_name,
                GoalFileRead::Text(goal_file.to_string())
            ));
        }
    }
    match search.latest_goal_run_dir() {
        LatestRun::Found(run_dir) => Some(run_dir),
        LatestRun::Missing => None,
        LatestRun::Failed => panic!("nothing failed"),
    }
}

/// Searches where `taken` are there.
fn unique_goal_run_dir(
    goal_root: &AbsolutePath,
    timestamp: &UtcTime,
    taken: &[AbsolutePath],
) -> AbsolutePath {
    let mut search = UniqueRunSearch::new(goal_root, timestamp);
    assert_eq!(search.make_runs_dir(), StorageStep::CreateDirAll(goal_root.join("runs")));
    for _ in 0..=taken.len() {
        assert!(search.can_advance());
        let exists = taken.contains(&search.candidate());
        if let Some(run_dir) = search.tried(exists) {
            return run_dir;
        }
    }
    panic!("one more try than there are names is enough");
}

#[test]
fn latest_goal_run_dir_finds_latest_matching_date_run() {
    let goal_root = path("/work/.codex/goal");
    let latest_run = goal_root.join("runs/goal-2026-05-24_15-31-12Z");

    let run_dir = latest_goal_run_dir(
        &goal_root,
        "goal:1",
        &[
            ("goal-2026-05-24_15-30-12Z", "- Goal ID: `goal:1`\n"),
            ("goal-2026-05-24_15-31-12Z", "- Goal ID: `goal:1`\n"),
            ("goal-2026-05-24_15-32-12Z", "- Goal ID: `goal:2`\n"),
            ("goal_1", "- Goal ID: `goal:1`\n"),
        ],
    )
    .expect("matching run should exist");

    assert_eq!(latest_run, run_dir);
}

#[test]
fn latest_run_ignores_the_order_of_entries() {
    let goal_root = path("/g");
    let line = "- Goal ID: `a`";
    let forward = [("goal-1", line), ("goal-3", line), ("goal-2", line)];
    let backward = [("goal-2", line), ("goal-3", line), ("goal-1", line)];
    assert_eq!(latest_goal_run_dir(&goal_root, "a", &forward), Some(path("/g/runs/goal-3")));
    assert_eq!(latest_goal_run_dir(&goal_root, "a", &backward), Some(path("/g/runs/goal-3")));
    assert_eq!(latest_goal_run_dir(&goal_root, "b", &forward), None);
    assert_eq!(latest_goal_run_dir(&goal_root, "a", &[]), None);
}

#[test]
fn only_directories_named_like_runs_are_read() {
    let mut search = LatestRunSearch::new(&path("/g"), "a");
    assert_eq!(search.runs_dir(), path("/g/runs"));
    assert_eq!(
        search.entry_was_read(entry(true, "goal-1")),
        RunEntryStep::ReadGoalFile {
            run_name: "goal-1".to_string(),
            path: path("/g/runs/goal-1/goal.md"),
        }
    );
    assert_eq!(search.entry_was_read(entry(false, "goal-1")), RunEntryStep::PassOver);
    assert_eq!(search.entry_was_read(entry(true, "goal_1")), RunEntryStep::PassOver);
    assert_eq!(search.entry_was_read(entry(true, "goal")), RunEntryStep::PassOver);
    let nameless = RunEntryRead::Entry { is_dir: true, name: None };
    assert_eq!(search.entry_was_read(nameless), RunEntryStep::PassOver);
    assert_eq!(search.latest_goal_run_dir(), LatestRun::Missing);
}

#[test]
fn what_is_missing_is_passed_over() {
    let mut search = LatestRunSearch::new(&path("/g"), "a");
    assert!(!search.runs_dir_was_opened(RunsDirRead::Missing));
    assert_eq!(search.latest_goal_run_dir(), LatestRun::Missing);

    let mut search = LatestRunSearch::new(&path("/g"), "a");
    assert!(search.runs_dir_was_opened(RunsDirRead::Opened));
    let line = "- Goal ID: `a`\n".to_string();
    assert!(search.goal_file_was_read("goal-1".to_string(), GoalFileRead::Text(line)));
    assert!(search.goal_file_was_read("goal-2".to_string(), GoalFileRead::Missing));
    assert_eq!(search.latest_goal_run_dir(), LatestRun::Found(path("/g/runs/goal-1")));
}

#[test]
fn what_cannot_be_read_fails_the_search() {
    let mut search = LatestRunSearch::new(&path("/g"), "a");
    assert!(!search.runs_dir_was_opened(RunsDirRead::Failed));
    assert_eq!(search.latest_goal_run_dir(), LatestRun::Failed);

    let line = || GoalFileRead::Text("- Goal ID: `a`\n".to_string());
    let mut search = LatestRunSearch::new(&path("/g"), "a");
    assert!(search.goal_file_was_read("goal-1".to_string(), line()));
    assert_eq!(search.entry_was_read(RunEntryRead::Failed), RunEntryStep::Stop);
    assert_eq!(search.latest_goal_run_dir(), LatestRun::Failed);

    let mut search = LatestRunSearch::new(&path("/g"), "a");
    assert!(search.goal_file_was_read("goal-1".to_string(), line()));
    assert!(!search.goal_file_was_read("goal-2".to_string(), GoalFileRead::Failed));
    assert_eq!(search.latest_goal_run_dir(), LatestRun::Failed);
    assert!(search.goal_file_was_read("goal-3".to_string(), line()));
    assert_eq!(search.latest_goal_run_dir(), LatestRun::Failed);
}

#[test]
fn a_goal_is_named_by_a_whole_line() {
    let goal_root = path("/g");
    let found = |file: &str| latest_goal_run_dir(&goal_root, "a", &[("goal-1", file)]).is_some();
    assert!(found("- Goal ID: `a`"));
    assert!(found("# Goal\n\n- Goal ID: `a`\r\nmore"));
    assert!(!found("- Goal ID: `a`\r"));
    assert!(!found(" - Goal ID: `a`\n"));
    assert!(!found("- Goal ID: `a` \n"));
    assert!(!found("- Goal ID: `ab`\n"));
    assert!(!found(""));
}

#[test]
fn a_recorded_run_is_found_by_its_goal_only() {
    let moment = UtcTime::new(2026, 5, 24, 15, 30, 12, 0).unwrap();
    let goal = ThreadGoal {
        thread_id: ThreadId::from_text("t").unwrap(),
        goal_id: "goal:1".to_string(),
        objective: "finish\nthe stack".to_string(),
        status: ThreadGoalStatus::Active,
        token_budget: None,
        tokens_used: 0,
        time_used_seconds: 0,
        created_at: moment,
        updated_at: moment,
    };
    let name = goal_run_dir_name(&moment);
    let file = render_goal_file(&goal);
    let goal_root = path("/g");
    let entries = [(name.as_str(), file.as_str())];
    assert!(latest_goal_run_dir(&goal_root, "goal:1", &entries).is_some());
    assert!(latest_goal_run_dir(&goal_root, "goal:2", &entries).is_none());

    let misleading = ThreadGoal {
        objective: "see\n- Goal ID: `goal:2`".to_string(),
        ..goal
    };
    let file = render_goal_file(&misleading);
    let entries = [(name.as_str(), file.as_str())];
    assert!(latest_goal_run_dir(&goal_root, "goal:2", &entries).is_some());
}

#[test]
fn unique_goal_run_dir_adds_suffix_for_same_timestamp() {
    let goal_root = path("/work/.codex/goal");
    let timestamp = utc(Utc.timestamp_opt(1779611412, 0).single().unwrap());
    let first_run = unique_goal_run_dir(&goal_root, &timestamp, &[]);
    assert_eq!(goal_root.join("runs/goal-2026-05-24_08-30-12Z"), first_run);

    let second_run = unique_goal_run_dir(&goal_root, &timestamp, &[first_run.clone()]);

    assert_eq!(
        goal_root.join("runs/goal-2026-05-24_08-30-12Z-0002"),
        second_run
    );
    let third_run = unique_goal_run_dir(&goal_root, &timestamp, &[first_run, second_run]);
    assert_eq!(
        goal_root.join("runs/goal-2026-05-24_08-30-12Z-0003"),
        third_run
    );
}

#[test]
fn later_runs_and_attempts_come_later() {
    let goal_root = path("/g");
    let line = "- Goal ID: `a`\n";
    let base = "goal-2026-05-24_08-30-12Z";
    let attempt = "goal-2026-05-24_08-30-12Z-0002";
    let later = "goal-2026-05-24_08-30-13Z";
    assert_eq!(
        latest_goal_run_dir(&goal_root, "a", &[(attempt, line), (base, line)]),
        Some(path("/g/runs/goal-2026-05-24_08-30-12Z-0002"))
    );
    assert_eq!(
        latest_goal_run_dir(&goal_root, "a", &[(later, line), (attempt, line), (base, line)]),
        Some(path("/g/runs/goal-2026-05-24_08-30-13Z"))
    );
}

#[test]
fn goal_id_line_is_exact() {
    assert_eq!(render_goal_id_line("goal:1"), "- Goal ID: `goal:1`");
    assert_eq!(render_goal_id_line(""), "- Goal ID: ``");
}

#[test]
fn a_search_ends_after_the_names_that_are_taken() {
    let goal_root = path("/g");
    let moment = UtcTime::new(2026, 5, 24, 8, 30, 12, 0).unwrap();
    let mut taken = Vec::new();
    for _ in 0..12 {
        let unused = unique_goal_run_dir(&goal_root, &moment, &taken);
        assert!(!taken.contains(&unused));
        taken.push(unused);
    }
    assert_eq!(taken[11].as_str(), "/g/runs/goal-2026-05-24_08-30-12Z-0012");
}

#[test]
fn a_search_only_picks_a_name() {
    let goal_root = path("/g");
    let moment = UtcTime::new(2026, 5, 24, 8, 30, 12, 0).unwrap();
    let gap = [
        path("/g/runs/goal-2026-05-24_08-30-12Z"),
        path("/g/runs/goal-2026-05-24_08-30-12Z-0001"),
        path("/g/runs/goal-2026-05-24_08-30-12Z-0003"),
    ];
    let first = unique_goal_run_dir(&goal_root, &moment, &gap);
    assert_eq!(first, path("/g/runs/goal-2026-05-24_08-30-12Z-0002"));
    assert_eq!(unique_goal_run_dir(&goal_root, &moment, &gap), first);
    let free = unique_goal_run_dir(&goal_root, &moment, &gap[1..]);
    assert_eq!(free, path("/g/runs/goal-2026-05-24_08-30-12Z"));
}

#[test]
fn a_recorded_run_is_taken() {
    let goal_root = path("/g");
    let moment = UtcTime::new(2026, 5, 24, 8, 30, 12, 0).unwrap();
    let goal = ThreadGoal {
        thread_id: ThreadId::from_text("t").unwrap(),
        goal_id: "goal:1".to_string(),
        objective: "- Goal: `goal:2`\n- Goal ID:\r".to_string(),
        status: ThreadGoalStatus::Active,
        token_budget: None,
        tokens_used: 0,
        time_used_seconds: 0,
        created_at: moment,
        updated_at: moment,
    };
    let run_dir = unique_goal_run_dir(&goal_root, &moment, &[]);
    let data = GoalProjectData::from_goal_root_run(goal_root.clone(), run_dir.clone());
    let steps = data.record_goal_snapshot(&goal);
    assert_eq!(steps[0], StorageStep::CreateDirAll(run_dir.join("reviews")));
    assert_eq!(
        unique_goal_run_dir(&goal_root, &moment, &[run_dir]),
        path("/g/runs/goal-2026-05-24_08-30-12Z-0002")
    );
    let file = render_goal_file(&goal);
    for id in ["goal:1", "goal:2", "", "goal:1\n"] {
        let found = latest_goal_run_dir(&goal_root, id, &[("goal-1", file.as_str())]);
        assert_eq!(found.is_some(), id == "goal:1");
    }
}

#[test]
fn a_search_comes_to_the_greatest_name_of_a_listing() {
    let goal_root = path("/g");
    let own = "- Goal ID: `a`";
    let listing = [
        (entry(true, "goal-2"), GoalFileRead::Text(own.to_string())),
        (entry(false, "goal-9"), GoalFileRead::Failed),
        (entry(true, "other"), GoalFileRead::Failed),
        (RunEntryRead::Entry { is_dir: true, name: None }, GoalFileRead::Failed),
        (entry(true, "goal-3"), GoalFileRead::Text(own.to_string())),
        (entry(true, "goal-7"), GoalFileRead::Missing),
        (entry(true, "goal-8"), GoalFileRead::Text("- Goal ID: `b`".to_string())),
    ];
    let mut search = LatestRunSearch::new(&goal_root, "a");
    assert!(search.runs_dir_was_opened(RunsDirRead::Opened));
    for (read, goal_file) in listing {
        match search.entry_was_read(read) {
            RunEntryStep::ReadGoalFile { run_name, .. } => {
                assert!(search.goal_file_was_read(run_name, goal_file));
            }
            RunEntryStep::PassOver => {}
            RunEntryStep::Stop => panic!("every entry can be read"),
        }
    }
    assert_eq!(search.latest_goal_run_dir(), LatestRun::Found(path("/g/runs/goal-3")));
}
