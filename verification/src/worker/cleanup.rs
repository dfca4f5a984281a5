//! What is removed of tasks that ended long ago.
use crate::models::task::{Task, TaskStatus, TaskView};
use crate::path::{
    file_stem, is_separator, join_path, law_extension, law_joined_on_unix, lemma_unix,
    path_file_stem, path_joined, System,
};
use crate::state::{views, AppState, StateView};
use crate::text::{copy_opt, opt_text};
use crate::time::{law_seconds_are_added, Timestamp};
use vstd::prelude::*;

verus! {

/// What is done with a task.
#[derive(Clone, Copy, Debug, PartialEq, Eq, Structural)]
pub enum Cleanup {
    /// Nothing.
    Keep,
    /// Its files are removed, where some are there; its record is kept.
    RemoveFiles,
    /// Its files and its record are removed, from memory and from the database.
    Purge,
}

/// The cleanup of a moment can be told: all its cutoffs have dates.
pub open spec fn can_clean(now: Timestamp, retention_secs: int) -> bool {
    now.can_shift(-retention_secs) && now.can_shift(-3 * retention_secs)
}

/// What is done with a task at a given time, when files are kept for `retention_secs` seconds
/// after the last change. Records are kept three times as long.
pub open spec fn cleanup_of(t: TaskView, now: Timestamp, retention_secs: int) -> Cleanup {
    if t.status is Processing {
        Cleanup::Keep
    } else if t.updated_at.earlier(now.shifted(-3 * retention_secs)) {
        Cleanup::Purge
    } else if t.updated_at.earlier(now.shifted(-retention_secs)) {
        Cleanup::RemoveFiles
    } else {
        Cleanup::Keep
    }
}

/// What is done with a task at a given time.
pub fn cleanup_at(task: &Task, now: &Timestamp, retention_secs: u64) -> (r: Cleanup)
    requires
        can_clean(*now, retention_secs as int),
    ensures
        r == cleanup_of(task@, *now, retention_secs as int),
{
    match task.status {
        TaskStatus::Processing => {
            return Cleanup::Keep;
        },
        _ => {},
    }
    let files_cutoff = now.minus_seconds(retention_secs);
    let record_cutoff = now.minus_seconds(3 * retention_secs);
    if task.updated_at.before(&record_cutoff) {
        return Cleanup::Purge;
    }
    if task.updated_at.before(&files_cutoff) {
        Cleanup::RemoveFiles
    } else {
        Cleanup::Keep
    }
}

/// What is done with each of the tasks now; none where a cutoff would have no date.
pub fn cleanup_task(tasks: &Vec<Task>, retention_secs: u64) -> (r: Option<Vec<Cleanup>>)
    ensures
        exists|now: Timestamp| #[trigger]
            now.plain() && match r {
                Some(list) => {
                    &&& can_clean(now, retention_secs as int)
                    &&& list@ == views(tasks@).map_values(
                        |t: TaskView| cleanup_of(t, now, retention_secs as int),
                    )
                },
                None => !can_clean(now, retention_secs as int),
            },
{
    let now = Timestamp::now();
    if retention_secs > u64::MAX / 3 {
        return None;
    }
    if !now.reaches_back(retention_secs) || !now.reaches_back(3 * retention_secs) {
        return None;
    }
    let mut r: Vec<Cleanup> = Vec::new();
    let mut i: usize = 0;
    while i < tasks.len()
        invariant
            i <= tasks.len(),
            can_clean(now, retention_secs as int),
            r@.len() == i,
            forall|k: int|
                0 <= k < i ==> #[trigger] r@[k] == cleanup_of(
                    tasks@[k]@,
                    now,
                    retention_secs as int,
                ),
        decreases tasks.len() - i,
    {
        r.push(cleanup_at(&tasks[i], &now, retention_secs));
        i += 1;
    }
    assert(r@ =~= views(tasks@).map_values(
        |t: TaskView| cleanup_of(t, now, retention_secs as int),
    ));
    Some(r)
}

/// The files of a task, each of which is removed where it is there.
#[derive(Debug)]
pub struct TaskFiles {
    /// The uploaded file, or a directory.
    pub source: String,
    /// The finished package.
    pub output: Option<String>,
    /// The directory into which the project was extracted.
    pub extracted: Option<String>,
}

impl TaskFiles {
    pub open spec fn is_of(&self, system: System, upload_dir: Seq<char>, t: TaskView) -> bool {
        &&& self.source@ == t.file_path
        &&& opt_text(self.output) == t.output_path
        &&& opt_text(self.extracted) == match path_file_stem(system, t.file_path) {
            Some(stem) => Some(path_joined(system, upload_dir, stem)),
            None => None,
        }
    }
}

/// The files of a task.
pub fn cleanup_task_files(system: System, upload_dir: &str, task: &Task) -> (r: TaskFiles)
    ensures
        r.is_of(system, upload_dir@, task@),
{
    let extracted = match file_stem(system, task.file_path.as_str()) {
        Some(stem) => Some(join_path(system, upload_dir, stem.as_str())),
        None => None,
    };
    TaskFiles {
        source: task.file_path.clone(),
        output: copy_opt(&task.output_path),
        extracted,
    }
}

/// Forgets a task that is purged, and tells its files. The database forgets it too.
pub fn purge_task(state: &mut AppState, task: &Task) -> (r: TaskFiles)
    ensures
        final(state)@ == (StateView {
            tasks: old(state)@.tasks.remove(task@.task_id),
            ..old(state)@
        }),
        r.is_of(old(state)@.system, old(state)@.upload_dir, task@),
{
    state.forget(task.task_id);
    cleanup_task_files(state.system, state.upload_dir.as_str(), task)
}

/// Whether the counts are taken from the database again after so many tasks were purged.
pub fn refreshes_stats(purged: usize) -> (r: bool)
    ensures
        r == (purged > 0),
{
    purged > 0
}

/// Whether files are removed whose record is kept: only where the uploaded file or the package
/// is there.
pub fn removes_files(source_exists: bool, output_exists: bool) -> (r: bool)
    ensures
        r == (source_exists || output_exists),
{
    source_exists || output_exists
}

/// The record of a task that does not run is removed once it is older than three times the time
/// for which files are kept, and not before.
pub proof fn law_old_records_are_removed(t: TaskView, now: Timestamp, retention_secs: int)
    requires
        !(t.status is Processing),
        can_clean(now, retention_secs),
    ensures
        cleanup_of(t, now, retention_secs) is Purge <==> t.updated_at.earlier(
            now.shifted(-3 * retention_secs),
        ),
{
}

/// A task that runs is never cleaned up, nor is one that changed within the time for which files
/// are kept. A record is never removed before its files may be.
pub proof fn law_recent_tasks_are_kept(t: TaskView, now: Timestamp, retention_secs: int)
    requires
        retention_secs >= 0,
        can_clean(now, retention_secs),
    ensures
        t.status is Processing ==> cleanup_of(t, now, retention_secs) is Keep,
        !t.updated_at.earlier(now.shifted(-retention_secs)) ==> cleanup_of(
            t,
            now,
            retention_secs,
        ) is Keep,
        cleanup_of(t, now, retention_secs) is Purge ==> t.updated_at.earlier(
            now.shifted(-retention_secs),
        ),
{
}

/// What is done with a task that does not run depends on how long ago it changed, to the
/// nanosecond: its files go after the time for which they are kept, its record after three times
/// as long, whatever its state.
pub proof fn law_age_decides(t: TaskView, now: Timestamp, retention_secs: int)
    requires
        !(t.status is Processing),
        retention_secs >= 0,
        now.plain(),
        can_clean(now, retention_secs),
    ensures
        ({
            let age = now.secs - t.updated_at.secs;
            let over = now.nanos > t.updated_at.nanos;
            let done = cleanup_of(t, now, retention_secs);
            &&& done is Purge <==> age > 3 * retention_secs || (age == 3 * retention_secs && over)
            &&& done is Keep <==> age < retention_secs || (age == retention_secs && !over)
        }),
{
    law_seconds_are_added(now, -retention_secs);
    law_seconds_are_added(now, -3 * retention_secs);
}

/// On Unix the files of a task whose uploaded file lies in the upload directory are that file, its
/// package, and the directory beside it that is named like it without `.tsp`.
pub proof fn law_files_of_a_task(files: TaskFiles, upload_dir: Seq<char>, stem: Seq<char>, t: TaskView)
    requires
        upload_dir.len() > 0,
        upload_dir.last() != '/',
        stem.len() > 0,
        !stem.contains('/'),
        t.file_path == upload_dir.push('/') + (stem.push('.') + "tsp"@),
        files.is_of(System::Unix, upload_dir, t),
    ensures
        files.source@ == t.file_path,
        opt_text(files.output) == t.output_path,
        opt_text(files.extracted) == Some(upload_dir + seq!['/'] + stem),
{
    reveal_strlit("tsp");
    assert(!"tsp"@.contains('.'));
    assert forall|i: int| 0 <= i < stem.len() implies !is_separator(
        System::Unix,
        #[trigger] stem[i],
    ) by {
        if stem[i] == '/' {
            assert(stem.contains('/'));
        }
    }
    lemma_unix(t.file_path);
    law_extension(System::Unix, upload_dir, '/', stem, "tsp"@);
    law_joined_on_unix(upload_dir, stem);
    if stem[0] == '/' {
        assert(stem.contains('/'));
    }
}

} // verus!
