//! What is stored, and what is to be done to it.
use crate::path::{lies_above, AbsolutePath, PathView};
use vstd::prelude::*;

verus! {

/// One thing to do to what is stored.
#[derive(Debug, PartialEq, Eq)]
pub enum StorageStep {
    /// Make a directory, and those that it lies in, where they are missing.
    CreateDirAll(AbsolutePath),
    /// Put a file with these contents in place of whatever is there.
    Write { path: AbsolutePath, contents: String },
    /// Put a file with these contents into a directory, unless there is
    /// something of that path.
    WriteIfMissing { dir: AbsolutePath, path: AbsolutePath, contents: String },
}

/// A `StorageStep`, over texts.
pub enum StorageStepView {
    CreateDirAll(PathView),
    Write { path: PathView, contents: Seq<char> },
    WriteIfMissing { dir: PathView, path: PathView, contents: Seq<char> },
}

/// What is stored: files with their contents, and directories, by what names
/// them to the system.
#[verifier::ext_equal]
pub struct Disk {
    pub files: Map<Seq<u8>, Seq<char>>,
    pub dirs: Set<Seq<u8>>,
}

impl View for StorageStep {
    type V = StorageStepView;

    open spec fn view(&self) -> StorageStepView {
        match self {
            StorageStep::CreateDirAll(path) => StorageStepView::CreateDirAll(path@),
            StorageStep::Write { path, contents } => StorageStepView::Write {
                path: path@,
                contents: contents@,
            },
            StorageStep::WriteIfMissing { dir, path, contents } => StorageStepView::WriteIfMissing {
                dir: dir@,
                path: path@,
                contents: contents@,
            },
        }
    }
}

/// The steps of a list, over texts.
pub open spec fn steps_view(steps: Seq<StorageStep>) -> Seq<StorageStepView> {
    Seq::new(steps.len(), |i: int| steps[i]@)
}

impl Disk {
    /// Whether there is something of this path.
    pub open spec fn holds(self, path: Seq<u8>) -> bool {
        self.files.contains_key(path) || self.dirs.contains(path)
    }

    /// What is stored once a directory, and those that it lies in, were made.
    pub open spec fn with_dir(self, dir: Seq<u8>) -> Disk {
        Disk {
            files: self.files,
            dirs: Set::new(
                |path: Seq<u8>| self.dirs.contains(path) || path == dir || lies_above(path, dir),
            ),
        }
    }

    /// What is stored once a file was written.
    pub open spec fn with_file(self, path: Seq<u8>, contents: Seq<char>) -> Disk {
        Disk { files: self.files.insert(path, contents), dirs: self.dirs }
    }

    /// What is stored after one step, where it succeeds.
    pub open spec fn after_step(self, step: StorageStepView) -> Disk {
        match step {
            StorageStepView::CreateDirAll(dir) => self.with_dir(dir.native),
            StorageStepView::Write { path, contents } => self.with_file(path.native, contents),
            StorageStepView::WriteIfMissing { dir, path, contents } => if self.holds(path.native) {
                self
            } else {
                self.with_dir(dir.native).with_file(path.native, contents)
            },
        }
    }

    /// What is stored after the steps of a list, in their order, where they
    /// succeed.
    pub open spec fn after(self, steps: Seq<StorageStepView>) -> Disk
        decreases steps.len(),
    {
        if steps.len() == 0 {
            self
        } else {
            self.after(steps.drop_last()).after_step(steps.last())
        }
    }
}

/// The steps that a step comes down to, once it is known whether there is
/// something of the path that it writes to: nothing is left of a file that is
/// written only if missing and is not, and its directory is made first if it is.
pub open spec fn settled(step: StorageStepView, exists: bool) -> Seq<StorageStepView> {
    match step {
        StorageStepView::WriteIfMissing { dir, path, contents } => if exists {
            seq![]
        } else {
            seq![
                StorageStepView::CreateDirAll(dir),
                StorageStepView::Write { path, contents },
            ]
        },
        _ => seq![step],
    }
}

impl StorageStep {
    /// The steps that this one comes down to, given whether there is something
    /// of the path that it writes to.
    pub fn settle(self, exists: bool) -> (steps: Vec<StorageStep>)
        ensures
            steps_view(steps@) == settled(self@, exists),
    {
        let mut steps: Vec<StorageStep> = Vec::new();
        match self {
            StorageStep::WriteIfMissing { dir, path, contents } => {
                if !exists {
                    steps.push(StorageStep::CreateDirAll(dir));
                    steps.push(StorageStep::Write { path, contents });
                }
            },
            step => {
                steps.push(step);
            },
        }
        proof {
            assert(steps_view(steps@) =~= settled(self@, exists));
        }
        steps
    }
}

/// Settling a step by whether there is something of its path does what the step
/// is to do.
pub proof fn law_settled_step_does_the_same(disk: Disk, step: StorageStepView)
    ensures
        step matches StorageStepView::WriteIfMissing { path, .. } ==> disk.after(
            settled(step, disk.holds(path.native)),
        ) == disk.after_step(step),
        step !is WriteIfMissing ==> forall|exists_now: bool|
            disk.after(#[trigger] settled(step, exists_now)) == disk.after_step(step),
{
    reveal_with_fuel(Disk::after, 3);
    match step {
        StorageStepView::WriteIfMissing { dir, path, contents } => {
            let steps = settled(step, disk.holds(path.native));
            if !disk.holds(path.native) {
                assert(steps.drop_last() =~= seq![StorageStepView::CreateDirAll(dir)]);
                assert(steps.drop_last().drop_last() =~= seq![]);
            }
        },
        _ => {
            assert(seq![step].drop_last() =~= seq![]);
        },
    }
}

/// Making a directory leaves the files as they are, and takes nothing away. What
/// it adds is the directory and those that it lies in. Made twice, it is made
/// once.
pub proof fn law_making_a_directory_adds_only_its_way(disk: Disk, dir: Seq<u8>)
    ensures
        disk.with_dir(dir).files == disk.files,
        forall|path: Seq<u8>|
            #[trigger] disk.with_dir(dir).holds(path) == (disk.holds(path) || path == dir
                || lies_above(path, dir)),
        disk.with_dir(dir).with_dir(dir) == disk.with_dir(dir),
{
    assert(disk.with_dir(dir).with_dir(dir) =~= disk.with_dir(dir));
}

/// A step that is done twice does what it does once.
pub proof fn law_a_step_is_done_once(disk: Disk, step: StorageStepView)
    ensures
        disk.after_step(step).after_step(step) == disk.after_step(step),
{
    match step {
        StorageStepView::CreateDirAll(dir) => {
            law_making_a_directory_adds_only_its_way(disk, dir.native);
        },
        StorageStepView::Write { path, contents } => {
            let once = disk.with_file(path.native, contents);
            assert(once.with_file(path.native, contents) =~= once);
        },
        StorageStepView::WriteIfMissing { .. } => {},
    }
}

/// A file that is missing is written after its directory was made, and one that
/// is there is left alone; the other steps come down to themselves.
pub proof fn law_a_directory_is_made_before_its_file(
    step: StorageStepView,
    dir: PathView,
    path: PathView,
    contents: Seq<char>,
)
    ensures
        step !is WriteIfMissing ==> settled(step, true) == seq![step] && settled(step, false)
            == seq![step],
        settled(StorageStepView::WriteIfMissing { dir, path, contents }, true).len() == 0,
        ({
            let steps = settled(StorageStepView::WriteIfMissing { dir, path, contents }, false);
            &&& steps.len() == 2
            &&& steps[0] == StorageStepView::CreateDirAll(dir)
            &&& steps[1] == (StorageStepView::Write { path, contents })
        }),
{
}

/// A step shows all that it holds, and a list of steps every step in its place.
pub proof fn law_storage_steps_hide_nothing(step: StorageStep, steps: Seq<StorageStep>)
    ensures
        step matches StorageStep::CreateDirAll(dir) ==> step@ == StorageStepView::CreateDirAll(
            dir@,
        ),
        step matches StorageStep::Write { path, contents } ==> step@ == (StorageStepView::Write {
            path: path@,
            contents: contents@,
        }),
        step matches StorageStep::WriteIfMissing { dir, path, contents } ==> step@ == (
        StorageStepView::WriteIfMissing { dir: dir@, path: path@, contents: contents@ }),
        steps_view(steps).len() == steps.len(),
        forall|i: int| 0 <= i < steps.len() ==> #[trigger] steps_view(steps)[i] == steps[i]@,
{
}

} // verus!
