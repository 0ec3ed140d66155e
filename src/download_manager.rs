//! The registry of long-running, cancellable background operations.
//!
//! Each task has a status and the progress most recently reported for it; its status is always
//! the status of that progress. Cancellation tokens are kept in a registry of their own, keyed
//! by task id but not tied to the task records. Every change that observers care about is
//! queued as a `TaskEvent`; the caller drains the queue with `take_events` and delivers it.
//! The clock is read by the caller, which hands the current time in seconds to each operation.
use crate::bounded::{holds_key, keys_unique, slot_of, with_entry, without_entry};
use tokio_util::sync::CancellationToken;
use vstd::prelude::*;

verus! {

#[verifier::external_type_specification]
#[verifier::external_body]
pub struct ExCancellationToken(CancellationToken);

/// Relies on `CancellationToken::cancel`: signals the token and every clone of it.
pub assume_specification[ CancellationToken::cancel ](token: &CancellationToken);

/// Relies on `CancellationToken::clone`: a handle that is cancelled together with the token it was cloned from.
pub assume_specification[ <CancellationToken as Clone>::clone ](token: &CancellationToken) -> CancellationToken;

/// Relies on `uuid::Uuid::new_v4`, in its hyphenated text form: a random version-4 UUID.
#[verifier::external_body]
fn fresh_task_id() -> String {
    uuid::Uuid::new_v4().to_string()
}

/// Where a task is in its lifecycle: `Pending`, then `Downloading`, then one of the three
/// terminal states. `Paused` can be reported while downloading.
#[derive(Debug, Clone, Copy, PartialEq, Eq, Structural)]
pub enum DownloadStatus {
    Pending,
    Downloading,
    Paused,
    Completed,
    Failed,
    Cancelled,
}

/// A status after which a task does no more work.
pub open spec fn is_terminal(status: DownloadStatus) -> bool {
    status is Completed || status is Failed || status is Cancelled
}

/// A progress report for a task.
#[derive(Debug)]
pub struct DownloadProgress {
    pub task_id: String,
    pub status: DownloadStatus,
    pub current: usize,
    pub total: usize,
    pub current_file: Option<String>,
    /// Transfer speed in bytes per second.
    pub speed: u64,
    /// Estimated seconds left.
    pub eta: Option<u64>,
    pub error: Option<String>,
}

/// A tracked background operation.
#[derive(Debug)]
pub struct DownloadTask {
    pub id: String,
    pub name: String,
    pub task_type: String,
    pub status: DownloadStatus,
    pub progress: DownloadProgress,
    pub created_at: u64,
    pub updated_at: u64,
    pub output_dir: String,
}

/// A notification for observers of the registry.
#[derive(Debug)]
pub enum TaskEvent {
    /// A task was created; it carries the task's id.
    Created(String),
    /// A task's progress was replaced; it carries the new progress.
    Progress(DownloadProgress),
    /// A task was cancelled; it carries the task's id.
    Cancelled(String),
    /// A task was deleted; it carries the task's id.
    Deleted(String),
}

/// Why an operation on a task failed.
#[derive(Debug, Clone)]
pub enum TaskError {
    /// No task has the given id; it carries that id.
    TaskNotFound(String),
}

fn copy_text(s: &Option<String>) -> (r: Option<String>)
    ensures
        r == *s,
{
    match s {
        Some(t) => Some(t.clone()),
        None => None,
    }
}

impl DownloadProgress {
    /// A field-by-field copy.
    pub fn duplicate(&self) -> (r: DownloadProgress)
        ensures
            r == *self,
    {
        DownloadProgress {
            task_id: self.task_id.clone(),
            status: self.status,
            current: self.current,
            total: self.total,
            current_file: copy_text(&self.current_file),
            speed: self.speed,
            eta: self.eta,
            error: copy_text(&self.error),
        }
    }
}

impl DownloadTask {
    /// A field-by-field copy.
    pub fn duplicate(&self) -> (r: DownloadTask)
        ensures
            r == *self,
    {
        DownloadTask {
            id: self.id.clone(),
            name: self.name.clone(),
            task_type: self.task_type.clone(),
            status: self.status,
            progress: self.progress.duplicate(),
            created_at: self.created_at,
            updated_at: self.updated_at,
            output_dir: self.output_dir.clone(),
        }
    }
}

/// Whether a task with id `id` is among `tasks`.
pub open spec fn has_task(tasks: Seq<DownloadTask>, id: Seq<char>) -> bool {
    exists|i: int| 0 <= i < tasks.len() && #[trigger] tasks[i].id@ == id
}

/// The position of the task with id `id` among `tasks`, where there is one.
pub open spec fn task_slot(tasks: Seq<DownloadTask>, id: Seq<char>) -> int {
    choose|i: int| 0 <= i < tasks.len() && #[trigger] tasks[i].id@ == id
}

/// The task with id `id`, if any.
pub open spec fn task_with_id(tasks: Seq<DownloadTask>, id: Seq<char>) -> Option<DownloadTask> {
    if has_task(tasks, id) {
        Some(tasks[task_slot(tasks, id)])
    } else {
        None
    }
}

/// No two tasks share an id.
pub open spec fn task_ids_unique(tasks: Seq<DownloadTask>) -> bool {
    forall|i: int, j: int| 0 <= i < j < tasks.len() ==> #[trigger] tasks[i].id@ != #[trigger] tasks[j].id@
}

/// Every task's status is the status of its stored progress.
pub open spec fn statuses_mirror_progress(tasks: Seq<DownloadTask>) -> bool {
    forall|i: int| 0 <= i < tasks.len() ==> #[trigger] tasks[i].status == tasks[i].progress.status
}

/// `task` is a task just created with these values: pending, with zeroed progress.
pub open spec fn is_new_task(
    task: DownloadTask,
    id: Seq<char>,
    name: String,
    task_type: String,
    output_dir: String,
    now: u64,
) -> bool {
    &&& task.id@ == id
    &&& task.name == name
    &&& task.task_type == task_type
    &&& task.output_dir == output_dir
    &&& task.status is Pending
    &&& task.created_at == now
    &&& task.updated_at == now
    &&& task.progress.task_id@ == id
    &&& task.progress.status is Pending
    &&& task.progress.current == 0
    &&& task.progress.total == 0
    &&& task.progress.current_file is None
    &&& task.progress.speed == 0
    &&& task.progress.eta is None
    &&& task.progress.error is None
}

/// The tasks that `clear_completed` keeps: those whose status is not terminal, in order.
pub open spec fn unfinished(tasks: Seq<DownloadTask>) -> Seq<DownloadTask>
    decreases tasks.len(),
{
    if tasks.len() == 0 {
        tasks
    } else if is_terminal(tasks.last().status) {
        unfinished(tasks.drop_last())
    } else {
        unfinished(tasks.drop_last()).push(tasks.last())
    }
}

/// In a list of tasks with unique ids, the task at `i` is the one found under its id.
proof fn lemma_slot_is_unique(tasks: Seq<DownloadTask>, i: int)
    requires
        task_ids_unique(tasks),
        0 <= i < tasks.len(),
    ensures
        has_task(tasks, tasks[i].id@),
        task_slot(tasks, tasks[i].id@) == i,
        task_with_id(tasks, tasks[i].id@) == Some(tasks[i]),
{
    let id = tasks[i].id@;
    assert(has_task(tasks, id));
    let s = task_slot(tasks, id);
    if s != i {
        if s < i {
            assert(tasks[s].id@ != tasks[i].id@);
        } else {
            assert(tasks[i].id@ != tasks[s].id@);
        }
    }
}

/// Replacing the task at `i` by one with the same id changes what is found under that id only.
proof fn lemma_replace_task(tasks: Seq<DownloadTask>, i: int, t: DownloadTask)
    requires
        task_ids_unique(tasks),
        0 <= i < tasks.len(),
        t.id@ == tasks[i].id@,
    ensures
        task_ids_unique(tasks.update(i, t)),
        task_with_id(tasks.update(i, t), t.id@) == Some(t),
        forall|k: Seq<char>| k != t.id@ ==> #[trigger] task_with_id(tasks.update(i, t), k) == task_with_id(tasks, k),
{
    let u = tasks.update(i, t);
    assert forall|a: int, b: int| 0 <= a < b < u.len() implies #[trigger] u[a].id@ != #[trigger] u[b].id@ by {
        assert(tasks[a].id@ != tasks[b].id@);
    }
    lemma_slot_is_unique(u, i);
    assert forall|k: Seq<char>| k != t.id@ implies #[trigger] task_with_id(u, k) == task_with_id(tasks, k) by {
        if has_task(tasks, k) {
            let s = task_slot(tasks, k);
            assert(u[s] == tasks[s]);
            lemma_slot_is_unique(u, s);
            lemma_slot_is_unique(tasks, s);
        } else {
            if has_task(u, k) {
                let s = task_slot(u, k);
                assert(u[s] == tasks[s]);
            }
        }
    }
}

/// Appending a task with a new id changes what is found under that id only.
proof fn lemma_append_task(tasks: Seq<DownloadTask>, t: DownloadTask)
    requires
        task_ids_unique(tasks),
        !has_task(tasks, t.id@),
    ensures
        task_ids_unique(tasks.push(t)),
        task_with_id(tasks.push(t), t.id@) == Some(t),
        forall|k: Seq<char>| k != t.id@ ==> #[trigger] task_with_id(tasks.push(t), k) == task_with_id(tasks, k),
{
    let u = tasks.push(t);
    assert forall|a: int, b: int| 0 <= a < b < u.len() implies #[trigger] u[a].id@ != #[trigger] u[b].id@ by {
        if b == tasks.len() {
            assert(u[a] == tasks[a]);
        } else {
            assert(tasks[a].id@ != tasks[b].id@);
        }
    }
    lemma_slot_is_unique(u, tasks.len() as int);
    assert forall|k: Seq<char>| k != t.id@ implies #[trigger] task_with_id(u, k) == task_with_id(tasks, k) by {
        if has_task(tasks, k) {
            let s = task_slot(tasks, k);
            assert(u[s] == tasks[s]);
            lemma_slot_is_unique(u, s);
            lemma_slot_is_unique(tasks, s);
        } else {
            if has_task(u, k) {
                let s = task_slot(u, k);
                assert(u[s] == tasks[s]);
            }
        }
    }
}

/// Removing the task at `i` removes what is found under its id and nothing else.
proof fn lemma_remove_task(tasks: Seq<DownloadTask>, i: int)
    requires
        task_ids_unique(tasks),
        0 <= i < tasks.len(),
    ensures
        task_ids_unique(tasks.remove(i)),
        !has_task(tasks.remove(i), tasks[i].id@),
        forall|k: Seq<char>| k != tasks[i].id@ ==> #[trigger] task_with_id(tasks.remove(i), k) == task_with_id(tasks, k),
{
    let u = tasks.remove(i);
    let idx = |a: int| if a < i { a } else { a + 1 };
    assert forall|a: int, b: int| 0 <= a < b < u.len() implies #[trigger] u[a].id@ != #[trigger] u[b].id@ by {
        assert(u[a] == tasks[idx(a)] && u[b] == tasks[idx(b)]);
    }
    if has_task(u, tasks[i].id@) {
        let s = task_slot(u, tasks[i].id@);
        assert(u[s] == tasks[idx(s)]);
        if idx(s) < i {
            assert(tasks[idx(s)].id@ != tasks[i].id@);
        } else {
            assert(tasks[i].id@ != tasks[idx(s)].id@);
        }
    }
    assert forall|k: Seq<char>| k != tasks[i].id@ implies #[trigger] task_with_id(u, k) == task_with_id(tasks, k) by {
        if has_task(tasks, k) {
            let s = task_slot(tasks, k);
            let s2 = if s < i { s } else { s - 1 };
            assert(s != i);
            assert(u[s2] == tasks[s]);
            lemma_slot_is_unique(u, s2);
            lemma_slot_is_unique(tasks, s);
        } else {
            if has_task(u, k) {
                let s = task_slot(u, k);
                assert(u[s] == tasks[idx(s)]);
            }
        }
    }
}

/// The length of the longest task id.
pub open spec fn longest_id(tasks: Seq<DownloadTask>) -> nat
    decreases tasks.len(),
{
    if tasks.len() == 0 {
        0
    } else {
        let rest = longest_id(tasks.drop_last());
        if tasks.last().id@.len() > rest { tasks.last().id@.len() } else { rest }
    }
}

proof fn lemma_longest_id(tasks: Seq<DownloadTask>)
    ensures
        forall|i: int| 0 <= i < tasks.len() ==> #[trigger] tasks[i].id@.len() <= longest_id(tasks),
    decreases tasks.len(),
{
    if tasks.len() > 0 {
        lemma_longest_id(tasks.drop_last());
        assert forall|i: int| 0 <= i < tasks.len() implies #[trigger] tasks[i].id@.len() <= longest_id(tasks) by {
            if i < tasks.len() - 1 {
                assert(tasks[i] == tasks.drop_last()[i]);
            }
        }
    }
}

/// The registry of tasks and of their cancellation tokens.
pub struct DownloadManager {
    tasks: Vec<DownloadTask>,
    cancel_tokens: Vec<(String, CancellationToken)>,
    events: Vec<TaskEvent>,
}

/// The views of the keys of a token registry.
pub open spec fn token_entries(v: Seq<(String, CancellationToken)>) -> Seq<(Seq<char>, CancellationToken)> {
    v.map_values(|p: (String, CancellationToken)| (p.0@, p.1))
}

impl DownloadManager {
    /// The tasks, in the order they were created.
    pub closed spec fn tasks(&self) -> Seq<DownloadTask> {
        self.tasks@
    }

    /// The registered cancellation tokens by task id, in the order they were registered.
    pub closed spec fn tokens(&self) -> Seq<(Seq<char>, CancellationToken)> {
        token_entries(self.cancel_tokens@)
    }

    /// The notifications not yet taken, oldest first.
    pub closed spec fn events(&self) -> Seq<TaskEvent> {
        self.events@
    }

    /// Task ids and token ids are unique, and every status mirrors its progress.
    pub open spec fn wf(&self) -> bool {
        &&& task_ids_unique(self.tasks())
        &&& statuses_mirror_progress(self.tasks())
        &&& keys_unique(self.tokens())
    }

    /// An empty registry.
    pub fn new() -> (r: DownloadManager)
        ensures
            r.wf(),
            r.tasks().len() == 0,
            r.tokens().len() == 0,
            r.events().len() == 0,
    {
        let r = DownloadManager { tasks: Vec::new(), cancel_tokens: Vec::new(), events: Vec::new() };
        assert(r.tokens() =~= Seq::empty());
        r
    }

    /// The position of the task with id `id`, if there is one.
    fn find_task(&self, id: &String) -> (r: Option<usize>)
        requires
            task_ids_unique(self.tasks()),
        ensures
            match r {
                Some(i) => i < self.tasks().len() && has_task(self.tasks(), id@) && task_slot(self.tasks(), id@) == i,
                None => !has_task(self.tasks(), id@),
            },
    {
        let mut i: usize = 0;
        while i < self.tasks.len()
            invariant
                i <= self.tasks@.len(),
                task_ids_unique(self.tasks()),
                forall|j: int| 0 <= j < i ==> #[trigger] self.tasks@[j].id@ != id@,
            decreases self.tasks@.len() - i,
        {
            if self.tasks[i].id == *id {
                proof {
                    let t = self.tasks();
                    assert(t[i as int].id@ == id@);
                    let s = task_slot(t, id@);
                    if s != i as int {
                        if s < i as int {
                            assert(t[s].id@ != t[i as int].id@);
                        } else {
                            assert(t[i as int].id@ != t[s].id@);
                        }
                    }
                }
                return Some(i);
            }
            i = i + 1;
        }
        None
    }

    /// The position of the token registered for `id`, if there is one.
    fn find_token(&self, id: &String) -> (r: Option<usize>)
        requires
            keys_unique(self.tokens()),
        ensures
            match r {
                Some(i) => i < self.tokens().len() && holds_key(self.tokens(), id@) && slot_of(self.tokens(), id@) == i,
                None => !holds_key(self.tokens(), id@),
            },
    {
        let mut i: usize = 0;
        while i < self.cancel_tokens.len()
            invariant
                i <= self.cancel_tokens@.len(),
                keys_unique(self.tokens()),
                self.tokens().len() == self.cancel_tokens@.len(),
                forall|j: int| 0 <= j < i ==> #[trigger] self.tokens()[j].0 != id@,
            decreases self.cancel_tokens@.len() - i,
        {
            assert(self.tokens()[i as int].0 == self.cancel_tokens@[i as int].0@);
            if self.cancel_tokens[i].0 == *id {
                proof {
                    let t = self.tokens();
                    let s = slot_of(t, id@);
                    if s != i as int {
                        if s < i as int {
                            assert(t[s].0 != t[i as int].0);
                        } else {
                            assert(t[i as int].0 != t[s].0);
                        }
                    }
                }
                return Some(i);
            }
            i = i + 1;
        }
        None
    }

    /// Puts `t` in place of the task at `i`.
    fn replace_task(&mut self, i: usize, t: DownloadTask)
        requires
            i < old(self).tasks().len(),
        ensures
            final(self).tasks() == old(self).tasks().update(i as int, t),
            final(self).cancel_tokens == old(self).cancel_tokens,
            final(self).events == old(self).events,
    {
        let _ = self.tasks.remove(i);
        self.tasks.insert(i, t);
        assert(self.tasks@ =~= old(self).tasks@.update(i as int, t));
    }

    /// Records a new pending task under `id`, with zeroed progress, created and updated at
    /// `now`, and queues a creation notice. A task already under `id` is replaced.
    pub fn insert_task(&mut self, id: String, name: String, task_type: String, output_dir: String, now: u64)
        requires
            old(self).wf(),
        ensures
            final(self).wf(),
            task_with_id(final(self).tasks(), id@) matches Some(t) && is_new_task(t, id@, name, task_type, output_dir, now),
            forall|k: Seq<char>| k != id@ ==> #[trigger] task_with_id(final(self).tasks(), k) == task_with_id(old(self).tasks(), k),
            has_task(old(self).tasks(), id@) ==> final(self).tasks().len() == old(self).tasks().len(),
            !has_task(old(self).tasks(), id@) ==> final(self).tasks().drop_last() == old(self).tasks()
                && final(self).tasks().len() == old(self).tasks().len() + 1
                && is_new_task(final(self).tasks().last(), id@, name, task_type, output_dir, now),
            final(self).tokens() == old(self).tokens(),
            final(self).events().len() == old(self).events().len() + 1,
            final(self).events().drop_last() == old(self).events(),
            final(self).events().last() matches TaskEvent::Created(e) && e@ == id@,
    {
        let task = DownloadTask {
            id: id.clone(),
            name,
            task_type,
            status: DownloadStatus::Pending,
            progress: DownloadProgress {
                task_id: id.clone(),
                status: DownloadStatus::Pending,
                current: 0,
                total: 0,
                current_file: None,
                speed: 0,
                eta: None,
                error: None,
            },
            created_at: now,
            updated_at: now,
            output_dir,
        };
        let ghost before = self.tasks();
        match self.find_task(&id) {
            Some(i) => {
                proof {
                    lemma_replace_task(before, i as int, task);
                }
                self.replace_task(i, task);
            },
            None => {
                proof {
                    lemma_append_task(before, task);
                }
                self.tasks.push(task);
            },
        }
        assert forall|i: int| 0 <= i < self.tasks().len() implies #[trigger] self.tasks()[i].status
            == self.tasks()[i].progress.status by {
            if i < before.len() && self.tasks()[i] != task {
                assert(self.tasks()[i] == before[i]);
            }
        }
        let ghost events = self.events();
        self.events.push(TaskEvent::Created(id));
        assert(self.events().drop_last() =~= events);
    }

    /// Creates a new pending task, as `insert_task` says, under an id that no task has: a random
    /// id, lengthened with `-` until it is unlike every existing id. Returns that id.
    pub fn create_task(&mut self, name: String, task_type: String, output_dir: String, now: u64) -> (r: String)
        requires
            old(self).wf(),
        ensures
            final(self).wf(),
            !has_task(old(self).tasks(), r@),
            final(self).tasks().len() == old(self).tasks().len() + 1,
            final(self).tasks().drop_last() == old(self).tasks(),
            is_new_task(final(self).tasks().last(), r@, name, task_type, output_dir, now),
            task_with_id(final(self).tasks(), r@) matches Some(t) && is_new_task(t, r@, name, task_type, output_dir, now),
            forall|k: Seq<char>| k != r@ ==> #[trigger] task_with_id(final(self).tasks(), k) == task_with_id(old(self).tasks(), k),
            final(self).tokens() == old(self).tokens(),
            final(self).events().drop_last() == old(self).events(),
            final(self).events().last() matches TaskEvent::Created(e) && e@ == r@,
    {
        let mut id = fresh_task_id();
        let ghost bound = longest_id(self.tasks());
        proof {
            lemma_longest_id(self.tasks());
        }
        while self.find_task(&id).is_some()
            invariant
                self.wf(),
                forall|i: int| 0 <= i < self.tasks().len() ==> #[trigger] self.tasks()[i].id@.len() <= bound,
            decreases bound + 1 - id@.len(),
        {
            let ghost before = id@;
            proof {
                let i = task_slot(self.tasks(), id@);
                assert(self.tasks()[i].id@.len() <= bound);
                reveal_strlit("-");
            }
            id.append("-");
            assert(id@.len() == before.len() + 1);
        }
        self.insert_task(id.clone(), name, task_type, output_dir, now);
        id
    }

    /// Replaces the stored progress of the task `task_id` by `progress`, sets its status to the
    /// progress's status and its update time to `now`, and queues a progress notice. The last
    /// report wins, whatever its order. An unknown id changes nothing.
    pub fn update_progress(&mut self, task_id: &str, progress: DownloadProgress, now: u64)
        requires
            old(self).wf(),
        ensures
            final(self).wf(),
            match task_with_id(old(self).tasks(), task_id@) {
                Some(t) => {
                    &&& task_with_id(final(self).tasks(), task_id@) == Some(DownloadTask {
                        status: progress.status,
                        progress: progress,
                        updated_at: now,
                        ..t
                    })
                    &&& final(self).tasks().len() == old(self).tasks().len()
                    &&& final(self).events() == old(self).events().push(TaskEvent::Progress(progress))
                },
                None => final(self).tasks() == old(self).tasks() && final(self).events() == old(self).events(),
            },
            task_with_id(old(self).tasks(), task_id@) is Some ==> task_with_id(final(self).tasks(), task_id@)->0.status
                == progress.status,
            forall|k: Seq<char>| k != task_id@ ==> #[trigger] task_with_id(final(self).tasks(), k) == task_with_id(old(self).tasks(), k),
            final(self).tokens() == old(self).tokens(),
    {
        let id = task_id.to_owned();
        if let Some(i) = self.find_task(&id) {
            let ghost before = self.tasks();
            let old_task = self.tasks.remove(i);
            let notice = progress.duplicate();
            let DownloadTask { id: tid, name, task_type, status: _, progress: _, created_at, updated_at: _, output_dir } = old_task;
            let task = DownloadTask {
                id: tid,
                name,
                task_type,
                status: progress.status,
                progress,
                created_at,
                updated_at: now,
                output_dir,
            };
            proof {
                lemma_replace_task(before, i as int, task);
            }
            self.tasks.insert(i, task);
            assert(self.tasks@ =~= before.update(i as int, task));
            assert forall|j: int| 0 <= j < self.tasks().len() implies #[trigger] self.tasks()[j].status
                == self.tasks()[j].progress.status by {
                if j != i {
                    assert(self.tasks()[j] == before[j]);
                }
            }
            self.events.push(TaskEvent::Progress(notice));
        }
    }

    /// A copy of the task `task_id`, if there is one.
    pub fn get_task(&self, task_id: &str) -> (r: Option<DownloadTask>)
        requires
            self.wf(),
        ensures
            r == task_with_id(self.tasks(), task_id@),
    {
        let id = task_id.to_owned();
        match self.find_task(&id) {
            Some(i) => Some(self.tasks[i].duplicate()),
            None => None,
        }
    }

    /// Copies of all tasks, in the order they were created.
    pub fn get_all_tasks(&self) -> (r: Vec<DownloadTask>)
        ensures
            r@ == self.tasks(),
    {
        let mut r: Vec<DownloadTask> = Vec::new();
        let mut i: usize = 0;
        while i < self.tasks.len()
            invariant
                i <= self.tasks@.len(),
                r@ == self.tasks@.take(i as int),
            decreases self.tasks@.len() - i,
        {
            r.push(self.tasks[i].duplicate());
            i = i + 1;
            assert(r@ =~= self.tasks@.take(i as int));
        }
        assert(self.tasks@.take(i as int) =~= self.tasks@);
        r
    }

    /// Cancels the task `task_id`: signals its token if one is registered and forgets it, since
    /// a cancelled task is terminal; marks the task and its progress `Cancelled` as of `now`, and
    /// queues a cancellation notice. Fails with `TaskNotFound` when no task has that id; the
    /// token is signalled and forgotten either way.
    pub fn cancel_task(&mut self, task_id: &str, now: u64) -> (r: Result<(), TaskError>)
        requires
            old(self).wf(),
        ensures
            final(self).wf(),
            r is Ok <==> has_task(old(self).tasks(), task_id@),
            r matches Err(TaskError::TaskNotFound(e)) ==> e@ == task_id@,
            match task_with_id(old(self).tasks(), task_id@) {
                Some(t) => {
                    &&& task_with_id(final(self).tasks(), task_id@) == Some(DownloadTask {
                        status: DownloadStatus::Cancelled,
                        progress: DownloadProgress { status: DownloadStatus::Cancelled, ..t.progress },
                        updated_at: now,
                        ..t
                    })
                    &&& final(self).tasks().len() == old(self).tasks().len()
                    &&& final(self).events().drop_last() == old(self).events()
                    &&& final(self).events().last() matches TaskEvent::Cancelled(e) && e@ == task_id@
                    &&& final(self).events().len() == old(self).events().len() + 1
                },
                None => final(self).tasks() == old(self).tasks() && final(self).events() == old(self).events(),
            },
            forall|k: Seq<char>| k != task_id@ ==> #[trigger] task_with_id(final(self).tasks(), k) == task_with_id(old(self).tasks(), k),
            final(self).tokens() == without_entry(old(self).tokens(), task_id@),
    {
        let id = task_id.to_owned();
        if let Some(j) = self.find_token(&id) {
            self.cancel_tokens[j].1.cancel();
            self.drop_token(j);
        }
        match self.find_task(&id) {
            Some(i) => {
                let ghost before = self.tasks();
                let old_task = self.tasks.remove(i);
                let DownloadTask { id: tid, name, task_type, status: _, progress, created_at, updated_at: _, output_dir } = old_task;
                let DownloadProgress { task_id: pid, status: _, current, total, current_file, speed, eta, error } = progress;
                let task = DownloadTask {
                    id: tid,
                    name,
                    task_type,
                    status: DownloadStatus::Cancelled,
                    progress: DownloadProgress {
                        task_id: pid,
                        status: DownloadStatus::Cancelled,
                        current,
                        total,
                        current_file,
                        speed,
                        eta,
                        error,
                    },
                    created_at,
                    updated_at: now,
                    output_dir,
                };
                proof {
                    lemma_replace_task(before, i as int, task);
                }
                self.tasks.insert(i, task);
                assert(self.tasks@ =~= before.update(i as int, task));
                assert forall|j: int| 0 <= j < self.tasks().len() implies #[trigger] self.tasks()[j].status
                    == self.tasks()[j].progress.status by {
                    if j != i {
                        assert(self.tasks()[j] == before[j]);
                    }
                }
                let ghost events = self.events();
                self.events.push(TaskEvent::Cancelled(id));
                assert(self.events().drop_last() =~= events);
                Ok(())
            },
            None => Err(TaskError::TaskNotFound(id)),
        }
    }

    /// Removes the token at `j` from the token registry.
    fn drop_token(&mut self, j: usize)
        requires
            keys_unique(old(self).tokens()),
            j < old(self).tokens().len(),
        ensures
            final(self).tokens() == old(self).tokens().remove(j as int),
            keys_unique(final(self).tokens()),
            final(self).tasks == old(self).tasks,
            final(self).events == old(self).events,
    {
        let ghost before = self.tokens();
        let _ = self.cancel_tokens.remove(j);
        assert(self.tokens() =~= before.remove(j as int));
        assert forall|a: int, b: int| 0 <= a < b < self.tokens().len() implies
            #[trigger] self.tokens()[a].0 != #[trigger] self.tokens()[b].0 by {
            let aa = if a < j { a } else { a + 1 };
            let bb = if b < j { b } else { b + 1 };
            assert(self.tokens()[a] == before[aa] && self.tokens()[b] == before[bb]);
        }
    }

    /// Deletes the task `task_id` and queues a deletion notice; its token, if registered, is
    /// signalled and forgotten. Fails with `TaskNotFound` when no task has that id; the token is
    /// signalled and forgotten either way.
    pub fn delete_task(&mut self, task_id: &str) -> (r: Result<(), TaskError>)
        requires
            old(self).wf(),
        ensures
            final(self).wf(),
            r is Ok <==> has_task(old(self).tasks(), task_id@),
            r matches Err(TaskError::TaskNotFound(e)) ==> e@ == task_id@,
            !has_task(final(self).tasks(), task_id@),
            forall|k: Seq<char>| k != task_id@ ==> #[trigger] task_with_id(final(self).tasks(), k) == task_with_id(old(self).tasks(), k),
            final(self).tokens() == without_entry(old(self).tokens(), task_id@),
            r is Ok ==> final(self).events().drop_last() == old(self).events()
                && final(self).events().len() == old(self).events().len() + 1
                && (final(self).events().last() matches TaskEvent::Deleted(e) && e@ == task_id@),
            r is Err ==> final(self).events() == old(self).events() && final(self).tasks() == old(self).tasks(),
    {
        let id = task_id.to_owned();
        if let Some(j) = self.find_token(&id) {
            self.cancel_tokens[j].1.cancel();
            self.drop_token(j);
        }
        match self.find_task(&id) {
            Some(i) => {
                let ghost before = self.tasks();
                proof {
                    lemma_remove_task(before, i as int);
                }
                let _ = self.tasks.remove(i);
                assert forall|j: int| 0 <= j < self.tasks().len() implies #[trigger] self.tasks()[j].status
                    == self.tasks()[j].progress.status by {
                    let jj = if j < i { j } else { j + 1 };
                    assert(self.tasks()[j] == before[jj]);
                }
                let ghost events = self.events();
                self.events.push(TaskEvent::Deleted(id));
                assert(self.events().drop_last() =~= events);
                Ok(())
            },
            None => Err(TaskError::TaskNotFound(id)),
        }
    }

    /// Registers `token` as the cancellation token of `task_id`, replacing any earlier one. The
    /// task need not exist.
    pub fn register_cancel_token(&mut self, task_id: String, token: CancellationToken)
        requires
            old(self).wf(),
        ensures
            final(self).wf(),
            final(self).tokens() == with_entry(old(self).tokens(), task_id@, token),
            final(self).tasks() == old(self).tasks(),
            final(self).events() == old(self).events(),
    {
        let ghost before = self.tokens();
        match self.find_token(&task_id) {
            Some(j) => {
                let _ = self.cancel_tokens.remove(j);
                self.cancel_tokens.insert(j, (task_id, token));
                assert(self.tokens() =~= before.update(j as int, (task_id@, token)));
                assert forall|a: int, b: int| 0 <= a < b < self.tokens().len() implies
                    #[trigger] self.tokens()[a].0 != #[trigger] self.tokens()[b].0 by {
                    assert(before[a].0 != before[b].0);
                }
            },
            None => {
                let ghost key = task_id@;
                self.cancel_tokens.push((task_id, token));
                assert(self.tokens() =~= before.push((key, token)));
                assert forall|a: int, b: int| 0 <= a < b < self.tokens().len() implies
                    #[trigger] self.tokens()[a].0 != #[trigger] self.tokens()[b].0 by {
                    assert(self.tokens()[a] == before[a]);
                    if b < before.len() {
                        assert(self.tokens()[b] == before[b]);
                    }
                }
            },
        }
    }

    /// Forgets the token registered for `task_id`, if any, without signalling it.
    pub fn remove_cancel_token(&mut self, task_id: &str)
        requires
            old(self).wf(),
        ensures
            final(self).wf(),
            final(self).tokens() == without_entry(old(self).tokens(), task_id@),
            final(self).tasks() == old(self).tasks(),
            final(self).events() == old(self).events(),
    {
        let id = task_id.to_owned();
        if let Some(j) = self.find_token(&id) {
            self.drop_token(j);
        }
    }

    /// A handle to the token registered for `task_id`, if any; it is cancelled together with
    /// the registered one.
    pub fn get_cancel_token(&self, task_id: &str) -> (r: Option<CancellationToken>)
        requires
            self.wf(),
        ensures
            r is Some <==> holds_key(self.tokens(), task_id@),
    {
        let id = task_id.to_owned();
        match self.find_token(&id) {
            Some(j) => Some(self.cancel_tokens[j].1.clone()),
            None => None,
        }
    }

    /// Removes every task whose status is terminal (completed, failed or cancelled), keeping
    /// the others in order, and returns how many were removed. Tokens stay as they are.
    pub fn clear_completed(&mut self) -> (r: usize)
        requires
            old(self).wf(),
        ensures
            final(self).wf(),
            final(self).tasks() == unfinished(old(self).tasks()),
            r == old(self).tasks().len() - final(self).tasks().len(),
            final(self).tokens() == old(self).tokens(),
            final(self).events() == old(self).events(),
    {
        let ghost all = self.tasks();
        let mut kept: Vec<DownloadTask> = Vec::new();
        let mut i: usize = 0;
        while i < self.tasks.len()
            invariant
                self.tasks@ == all,
                task_ids_unique(all),
                statuses_mirror_progress(all),
                i <= all.len(),
                kept@ == unfinished(all.take(i as int)),
                kept@.len() <= i,
                task_ids_unique(kept@),
                forall|j: int| 0 <= j < kept@.len() ==> exists|m: int| 0 <= m < i && #[trigger] kept@[j] == all[m],
            decreases all.len() - i,
        {
            let ghost prefix = all.take(i as int + 1);
            assert(prefix.drop_last() =~= all.take(i as int));
            assert(prefix.last() == all[i as int]);
            let ghost prev = kept@;
            let status = self.tasks[i].status;
            if !(status == DownloadStatus::Completed || status == DownloadStatus::Failed
                || status == DownloadStatus::Cancelled) {
                kept.push(self.tasks[i].duplicate());
                assert forall|a: int, b: int| 0 <= a < b < kept@.len() implies
                    #[trigger] kept@[a].id@ != #[trigger] kept@[b].id@ by {
                    assert(kept@[a] == prev[a]);
                    if b == prev.len() {
                        let m = choose|m: int| 0 <= m < i && #[trigger] prev[a] == all[m];
                        assert(all[m].id@ != all[i as int].id@);
                    } else {
                        assert(kept@[b] == prev[b]);
                    }
                }
                assert forall|j: int| 0 <= j < kept@.len() implies exists|m: int| 0 <= m < i + 1 && #[trigger] kept@[j] == all[m] by {
                    if j < prev.len() {
                        assert(kept@[j] == prev[j]);
                        let m = choose|m: int| 0 <= m < i && #[trigger] prev[j] == all[m];
                        assert(kept@[j] == all[m]);
                    } else {
                        assert(kept@[j] == all[i as int]);
                    }
                }
            }
            i = i + 1;
        }
        assert(all.take(all.len() as int) =~= all);
        let removed = self.tasks.len() - kept.len();
        self.tasks = kept;
        assert forall|j: int| 0 <= j < self.tasks().len() implies #[trigger] self.tasks()[j].status
            == self.tasks()[j].progress.status by {
            let m = choose|m: int| 0 <= m < all.len() && #[trigger] self.tasks()[j] == all[m];
        }
        removed
    }

    /// Hands out the queued notifications, oldest first, and empties the queue.
    pub fn take_events(&mut self) -> (r: Vec<TaskEvent>)
        requires
            old(self).wf(),
        ensures
            final(self).wf(),
            r@ == old(self).events(),
            final(self).events().len() == 0,
            final(self).tasks() == old(self).tasks(),
            final(self).tokens() == old(self).tokens(),
    {
        self.events.split_off(0)
    }
}

} // verus!