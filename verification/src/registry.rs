//! The registry of running upload tasks and their control cells.

use crate::text::{text_eq, trim, trimmed};
use crate::upload::UploadRunState;
use vstd::prelude::*;

verus! {

/// Why a command on the registry was rejected.
#[derive(Clone, Copy, Debug, PartialEq, Eq, Structural)]
pub enum RegistryError {
    /// The task id is empty once trimmed.
    EmptyTaskId,
    /// A task with this id is registered already.
    AlreadyExists,
    /// No task with this id is registered.
    NotFound,
}

impl RegistryError {
    /// The message shown to the caller.
    pub open spec fn text(self) -> Seq<char> {
        match self {
            RegistryError::EmptyTaskId => "taskId is empty"@,
            RegistryError::AlreadyExists => "task already exists"@,
            RegistryError::NotFound => "task not found"@,
        }
    }

    /// The message shown to the caller.
    pub fn message(&self) -> (m: String)
        ensures
            m@ == self.text(),
    {
        match self {
            RegistryError::EmptyTaskId => "taskId is empty".to_owned(),
            RegistryError::AlreadyExists => "task already exists".to_owned(),
            RegistryError::NotFound => "task not found".to_owned(),
        }
    }
}

/// One registered task: its id and the value of its control cell.
pub struct TaskEntry {
    id: String,
    state: UploadRunState,
}

/// The tasks that are registered, each with the value of its control cell.
pub struct TaskRegistry {
    entries: Vec<TaskEntry>,
}

/// The map from id to control value that a list of entries stands for.
pub closed spec fn model_of(entries: Seq<TaskEntry>) -> Map<Seq<char>, UploadRunState>
    decreases entries.len(),
{
    if entries.len() == 0 {
        Map::empty()
    } else {
        model_of(entries.drop_last()).insert(entries.last().id@, entries.last().state)
    }
}

/// No id occurs twice.
pub closed spec fn distinct_ids(entries: Seq<TaskEntry>) -> bool {
    forall|i: int, j: int|
        0 <= i < j < entries.len() ==> (#[trigger] entries[i]).id@ != (#[trigger] entries[j]).id@
}

proof fn lemma_model_dom(entries: Seq<TaskEntry>, id: Seq<char>)
    ensures
        model_of(entries).dom().contains(id) <==> exists|i: int|
            0 <= i < entries.len() && (#[trigger] entries[i]).id@ == id,
    decreases entries.len(),
{
    if entries.len() > 0 {
        let front = entries.drop_last();
        lemma_model_dom(front, id);
        if model_of(entries).dom().contains(id) {
            if entries.last().id@ == id {
                assert(entries[entries.len() - 1].id@ == id);
            } else {
                let i = choose|i: int| 0 <= i < front.len() && (#[trigger] front[i]).id@ == id;
                assert(entries[i].id@ == id);
            }
        }
        if exists|i: int| 0 <= i < entries.len() && (#[trigger] entries[i]).id@ == id {
            let i = choose|i: int| 0 <= i < entries.len() && (#[trigger] entries[i]).id@ == id;
            if i < entries.len() - 1 {
                assert(front[i].id@ == id);
            }
        }
    }
}

proof fn lemma_model_at(entries: Seq<TaskEntry>, i: int)
    requires
        distinct_ids(entries),
        0 <= i < entries.len(),
    ensures
        model_of(entries).dom().contains(entries[i].id@),
        model_of(entries)[entries[i].id@] == entries[i].state,
    decreases entries.len(),
{
    let front = entries.drop_last();
    if i < entries.len() - 1 {
        assert(distinct_ids(front)) by {
            assert forall|a: int, b: int| 0 <= a < b < front.len() implies (#[trigger] front[a]).id@
                != (#[trigger] front[b]).id@ by {
                assert(front[a] == entries[a] && front[b] == entries[b]);
            }
        }
        lemma_model_at(front, i);
        assert(front[i] == entries[i]);
        assert(entries[i].id@ != entries[entries.len() - 1].id@);
    }
}

proof fn lemma_model_update(entries: Seq<TaskEntry>, i: int, entry: TaskEntry)
    requires
        0 <= i < entries.len(),
        distinct_ids(entries),
        entry.id@ == entries[i].id@,
    ensures
        distinct_ids(entries.update(i, entry)),
        model_of(entries.update(i, entry)) == model_of(entries).insert(entry.id@, entry.state),
    decreases entries.len(),
{
    let after = entries.update(i, entry);
    assert(distinct_ids(after)) by {
        assert forall|a: int, b: int| 0 <= a < b < after.len() implies (#[trigger] after[a]).id@
            != (#[trigger] after[b]).id@ by {
            assert(after[a].id@ == entries[a].id@ && after[b].id@ == entries[b].id@);
        }
    }
    let front = entries.drop_last();
    if i == entries.len() - 1 {
        assert(after.drop_last() =~= front);
        assert(model_of(after) =~= model_of(entries).insert(entry.id@, entry.state));
    } else {
        assert(distinct_ids(front)) by {
            assert forall|a: int, b: int| 0 <= a < b < front.len() implies (#[trigger] front[a]).id@
                != (#[trigger] front[b]).id@ by {
                assert(front[a] == entries[a] && front[b] == entries[b]);
            }
        }
        lemma_model_update(front, i, entry);
        assert(after.drop_last() =~= front.update(i, entry));
        assert(after.last() == entries.last());
        assert(entries[i].id@ != entries[entries.len() - 1].id@);
        assert(model_of(after) =~= model_of(entries).insert(entry.id@, entry.state));
    }
}

proof fn lemma_model_remove(entries: Seq<TaskEntry>, i: int)
    requires
        0 <= i < entries.len(),
        distinct_ids(entries),
    ensures
        distinct_ids(entries.remove(i)),
        model_of(entries.remove(i)) == model_of(entries).remove(entries[i].id@),
    decreases entries.len(),
{
    let after = entries.remove(i);
    assert(distinct_ids(after)) by {
        assert forall|a: int, b: int| 0 <= a < b < after.len() implies (#[trigger] after[a]).id@
            != (#[trigger] after[b]).id@ by {
            let a0 = if a < i { a } else { a + 1 };
            let b0 = if b < i { b } else { b + 1 };
            assert(after[a] == entries[a0] && after[b] == entries[b0]);
        }
    }
    let front = entries.drop_last();
    assert(distinct_ids(front)) by {
        assert forall|a: int, b: int| 0 <= a < b < front.len() implies (#[trigger] front[a]).id@
            != (#[trigger] front[b]).id@ by {
            assert(front[a] == entries[a] && front[b] == entries[b]);
        }
    }
    if i == entries.len() - 1 {
        assert(after =~= front);
        lemma_model_dom(front, entries[i].id@);
        if model_of(front).dom().contains(entries[i].id@) {
            let k = choose|k: int| 0 <= k < front.len() && (#[trigger] front[k]).id@ == entries[i].id@;
            assert(entries[k].id@ == entries[i].id@);
        }
        assert(model_of(after) =~= model_of(entries).remove(entries[i].id@));
    } else {
        lemma_model_remove(front, i);
        assert(after.drop_last() =~= front.remove(i));
        assert(after.last() == entries.last());
        assert(front[i] == entries[i]);
        assert(entries[i].id@ != entries[entries.len() - 1].id@);
        assert(model_of(after) =~= model_of(entries).remove(entries[i].id@));
    }
}

/// What registering `task_id` does to the registered tasks `tasks`, and
/// what it answers: the id the task is registered under, or the rejection.
pub open spec fn register_outcome(tasks: Map<Seq<char>, UploadRunState>, task_id: Seq<char>) -> (
    Map<Seq<char>, UploadRunState>,
    Result<Seq<char>, RegistryError>,
) {
    let id = trimmed(task_id);
    if id.len() == 0 {
        (tasks, Err(RegistryError::EmptyTaskId))
    } else if tasks.dom().contains(id) {
        (tasks, Err(RegistryError::AlreadyExists))
    } else {
        (tasks.insert(id, UploadRunState::Running), Ok(id))
    }
}

/// What a pause, resume or cancel command on `task_id` does to the
/// registered tasks `tasks`, and what it answers.
pub open spec fn command_outcome(
    tasks: Map<Seq<char>, UploadRunState>,
    task_id: Seq<char>,
    state: UploadRunState,
) -> (Map<Seq<char>, UploadRunState>, Result<(), RegistryError>) {
    let id = trimmed(task_id);
    if tasks.dom().contains(id) {
        (tasks.insert(id, state), Ok(()))
    } else {
        (tasks, Err(RegistryError::NotFound))
    }
}

/// The view of the answer to a registration.
pub open spec fn id_view(r: Result<String, RegistryError>) -> Result<Seq<char>, RegistryError> {
    match r {
        Ok(id) => Ok(id@),
        Err(e) => Err(e),
    }
}

impl View for TaskRegistry {
    type V = Map<Seq<char>, UploadRunState>;

    closed spec fn view(&self) -> Map<Seq<char>, UploadRunState> {
        model_of(self.entries@)
    }
}

impl TaskRegistry {
    /// No task is registered twice.
    pub closed spec fn wf(&self) -> bool {
        distinct_ids(self.entries@)
    }

    /// A registry without tasks.
    pub fn new() -> (r: TaskRegistry)
        ensures
            r.wf(),
            r@ == Map::<Seq<char>, UploadRunState>::empty(),
    {
        TaskRegistry { entries: Vec::new() }
    }

    fn position(&self, id: &str) -> (r: Option<usize>)
        requires
            self.wf(),
        ensures
            match r {
                Some(i) => i < self.entries.len() && self.entries[i as int].id@ == id@
                    && self@.dom().contains(id@) && self@[id@] == self.entries[i as int].state,
                None => !self@.dom().contains(id@),
            },
    {
        let mut i: usize = 0;
        while i < self.entries.len()
            invariant
                i <= self.entries.len(),
                self.wf(),
                forall|j: int| 0 <= j < i ==> (#[trigger] self.entries[j]).id@ != id@,
            decreases self.entries.len() - i,
        {
            if text_eq(self.entries[i].id.as_str(), id) {
                proof {
                    lemma_model_at(self.entries@, i as int);
                }
                return Some(i);
            }
            i += 1;
        }
        proof {
            lemma_model_dom(self.entries@, id@);
        }
        None
    }

    /// The value of the control cell of the task `task_id`, if it is registered.
    pub fn state_of(&self, task_id: &str) -> (r: Option<UploadRunState>)
        requires
            self.wf(),
        ensures
            r == if self@.dom().contains(task_id@) {
                Some(self@[task_id@])
            } else {
                None
            },
    {
        match self.position(task_id) {
            Some(i) => Some(self.entries[i].state),
            None => None,
        }
    }

    /// The value that a running task reads as its control cell: that of
    /// its entry, and `Canceled` where the task is not registered, so that
    /// a task without an entry stops.
    pub fn control_of(&self, task_id: &str) -> (r: UploadRunState)
        requires
            self.wf(),
        ensures
            r == if self@.dom().contains(task_id@) {
                self@[task_id@]
            } else {
                UploadRunState::Canceled
            },
    {
        match self.state_of(task_id) {
            Some(state) => state,
            None => UploadRunState::Canceled,
        }
    }

    /// The number of registered tasks.
    pub fn len(&self) -> (n: usize)
        requires
            self.wf(),
        ensures
            n == self@.dom().len(),
            self@.dom().finite(),
    {
        proof {
            lemma_model_len(self.entries@);
        }
        self.entries.len()
    }

    /// Registers a task under the trimmed `task_id`, its control cell at
    /// `Running`, and hands back the id it is registered under. An empty id
    /// and the id of a registered task are rejected.
    pub fn register(&mut self, task_id: &str) -> (r: Result<String, RegistryError>)
        requires
            old(self).wf(),
        ensures
            final(self).wf(),
            (final(self)@, id_view(r)) == register_outcome(old(self)@, task_id@),
    {
        let id = trim(task_id);
        if id.as_str().is_empty() {
            return Err(RegistryError::EmptyTaskId);
        }
        match self.position(id.as_str()) {
            Some(_) => Err(RegistryError::AlreadyExists),
            None => {
                let ghost before = self.entries@;
                let entry = TaskEntry { id: id.clone(), state: UploadRunState::Running };
                self.entries.push(entry);
                proof {
                    assert(self.entries@.drop_last() =~= before);
                    assert forall|a: int, b: int|
                        0 <= a < b < self.entries@.len() implies (#[trigger] self.entries@[a]).id@
                        != (#[trigger] self.entries@[b]).id@ by {
                        if b == before.len() {
                            lemma_model_dom(before, id@);
                            assert(before[a].id@ != id@);
                        }
                    }
                }
                Ok(id)
            },
        }
    }

    /// Sets the control cell of the task registered under the trimmed
    /// `task_id`; a task that is not registered is reported.
    pub fn set_state(&mut self, task_id: &str, state: UploadRunState) -> (r: Result<
        (),
        RegistryError,
    >)
        requires
            old(self).wf(),
        ensures
            final(self).wf(),
            (final(self)@, r) == command_outcome(old(self)@, task_id@, state),
    {
        let id = trim(task_id);
        match self.position(id.as_str()) {
            Some(i) => {
                let ghost before = self.entries@;
                let entry = TaskEntry { id, state };
                proof {
                    lemma_model_update(before, i as int, entry);
                }
                self.entries.set(i, entry);
                Ok(())
            },
            None => Err(RegistryError::NotFound),
        }
    }

    /// Asks the task to pause.
    pub fn pause(&mut self, task_id: &str) -> (r: Result<(), RegistryError>)
        requires
            old(self).wf(),
        ensures
            final(self).wf(),
            (final(self)@, r) == command_outcome(old(self)@, task_id@, UploadRunState::Paused),
    {
        self.set_state(task_id, UploadRunState::Paused)
    }

    /// Asks the task to go on.
    pub fn resume(&mut self, task_id: &str) -> (r: Result<(), RegistryError>)
        requires
            old(self).wf(),
        ensures
            final(self).wf(),
            (final(self)@, r) == command_outcome(old(self)@, task_id@, UploadRunState::Running),
    {
        self.set_state(task_id, UploadRunState::Running)
    }

    /// Asks the task to stop and abort its session.
    pub fn cancel(&mut self, task_id: &str) -> (r: Result<(), RegistryError>)
        requires
            old(self).wf(),
        ensures
            final(self).wf(),
            (final(self)@, r) == command_outcome(old(self)@, task_id@, UploadRunState::Canceled),
    {
        self.set_state(task_id, UploadRunState::Canceled)
    }

    /// Removes the task registered under exactly `task_id`, as a task does
    /// for itself when it ends; says whether it was registered.
    pub fn remove(&mut self, task_id: &str) -> (was_registered: bool)
        requires
            old(self).wf(),
        ensures
            final(self).wf(),
            was_registered == old(self)@.dom().contains(task_id@),
            final(self)@ == old(self)@.remove(task_id@),
    {
        match self.position(task_id) {
            Some(i) => {
                proof {
                    lemma_model_remove(self.entries@, i as int);
                }
                self.entries.remove(i);
                true
            },
            None => {
                assert(self@.remove(task_id@) =~= self@);
                false
            },
        }
    }
}

proof fn lemma_model_len(entries: Seq<TaskEntry>)
    requires
        distinct_ids(entries),
    ensures
        model_of(entries).dom().finite(),
        model_of(entries).dom().len() == entries.len(),
    decreases entries.len(),
{
    if entries.len() > 0 {
        let front = entries.drop_last();
        assert(distinct_ids(front)) by {
            assert forall|a: int, b: int| 0 <= a < b < front.len() implies (#[trigger] front[a]).id@
                != (#[trigger] front[b]).id@ by {
                assert(front[a] == entries[a] && front[b] == entries[b]);
            }
        }
        lemma_model_len(front);
        lemma_model_dom(front, entries.last().id@);
        if model_of(front).dom().contains(entries.last().id@) {
            let k = choose|k: int| 0 <= k < front.len() && (#[trigger] front[k]).id@ == entries.last().id@;
            assert(entries[k].id@ == entries[entries.len() - 1].id@);
        }
    }
}

/// A second registration under an id that was just registered is rejected
/// as `AlreadyExists` and changes nothing: the first task keeps its control
/// cell, and so does every other task.
pub proof fn lemma_second_registration_rejected(
    tasks: Map<Seq<char>, UploadRunState>,
    first: Seq<char>,
    second: Seq<char>,
)
    requires
        register_outcome(tasks, first).1 is Ok,
        trimmed(second) == trimmed(first),
    ensures
        register_outcome(register_outcome(tasks, first).0, second) == (
            register_outcome(tasks, first).0,
            Err::<Seq<char>, RegistryError>(RegistryError::AlreadyExists),
        ),
        register_outcome(tasks, first).0[trimmed(first)] == UploadRunState::Running,
        forall|other: Seq<char>|
            tasks.dom().contains(other) ==> register_outcome(tasks, first).0.dom().contains(other)
                && register_outcome(tasks, first).0[other] == tasks[other],
{
}

/// Once a task is removed, a pause, resume or cancel command on its id is
/// rejected as `NotFound` and changes nothing.
pub proof fn lemma_removed_task_not_found(
    tasks: Map<Seq<char>, UploadRunState>,
    id: Seq<char>,
    task_id: Seq<char>,
    state: UploadRunState,
)
    requires
        trimmed(task_id) == id,
    ensures
        command_outcome(tasks.remove(id), task_id, state) == (
            tasks.remove(id),
            Err::<(), RegistryError>(RegistryError::NotFound),
        ),
{
}

/// A command reaches the task it names and no other.
pub proof fn lemma_command_is_local(
    tasks: Map<Seq<char>, UploadRunState>,
    task_id: Seq<char>,
    state: UploadRunState,
    other: Seq<char>,
)
    requires
        other != trimmed(task_id),
    ensures
        command_outcome(tasks, task_id, state).0.dom().contains(other) == tasks.dom().contains(
            other,
        ),
        tasks.dom().contains(other) ==> command_outcome(tasks, task_id, state).0[other]
            == tasks[other],
        command_outcome(tasks, task_id, state).1 is Ok ==> command_outcome(
            tasks,
            task_id,
            state,
        ).0[trimmed(task_id)] == state,
{
}

} // verus!
