use vstd::prelude::*;

use crate::time::{now_utc, Timestamp};

verus! {

/// A task of the list.
#[derive(Debug)]
pub struct Task {
    pub id: i32,
    pub description: String,
    pub completed: bool,
    pub created_at: Timestamp,
    pub modified_at: Timestamp,
}

/// A task as a value.
pub struct TaskView {
    pub id: int,
    pub description: Seq<char>,
    pub completed: bool,
    pub created_at: Timestamp,
    pub modified_at: Timestamp,
}

impl View for Task {
    type V = TaskView;

    open spec fn view(&self) -> TaskView {
        TaskView {
            id: self.id as int,
            description: self.description@,
            completed: self.completed,
            created_at: self.created_at,
            modified_at: self.modified_at,
        }
    }
}

/// The values of `tasks`.
pub open spec fn task_views(tasks: Seq<Task>) -> Seq<TaskView> {
    tasks.map_values(|t: Task| t@)
}

impl Clone for Task {
    fn clone(&self) -> (r: Task)
        ensures
            r == *self,
    {
        Task {
            id: self.id,
            description: self.description.clone(),
            completed: self.completed,
            created_at: self.created_at,
            modified_at: self.modified_at,
        }
    }
}

/// Why a store operation did not happen.
#[derive(Clone, Copy, PartialEq, Eq, Debug, Structural)]
pub enum StoreError {
    /// No task stands at the index given.
    NotFound,
    /// Every id that a task can carry has been handed out.
    IdsExhausted,
    /// A list to load holds two tasks with one id.
    DuplicateId,
}

/// The task list as a value: its tasks in order, and the id that the next added
/// task receives.
pub struct StoreModel {
    pub tasks: Seq<TaskView>,
    pub next_id: int,
}

/// The greatest id in `tasks`, or 0 where there is none.
pub open spec fn max_id(tasks: Seq<TaskView>) -> int
    decreases tasks.len(),
{
    if tasks.len() == 0 {
        0
    } else {
        let rest = max_id(tasks.drop_last());
        if tasks.len() == 1 || tasks.last().id > rest {
            tasks.last().id
        } else {
            rest
        }
    }
}

/// No two tasks share an id.
pub open spec fn ids_unique(tasks: Seq<TaskView>) -> bool {
    forall|i: int, j: int|
        0 <= i < tasks.len() && 0 <= j < tasks.len() && i != j ==> #[trigger] tasks[i].id
            != #[trigger] tasks[j].id
}

/// One operation on the task list.
pub enum StoreOp {
    Add(Seq<char>, Timestamp),
    Update(int, Seq<char>, Timestamp),
    Toggle(int),
    Remove(int),
}

impl StoreModel {
    /// Ids are unique, each below the next id, and the next id lies above the
    /// smallest `i32` and at most one past the largest.
    pub open spec fn wf(self) -> bool {
        &&& ids_unique(self.tasks)
        &&& forall|i: int| 0 <= i < self.tasks.len() ==> #[trigger] self.tasks[i].id < self.next_id
        &&& i32::MIN < self.next_id <= i32::MAX + 1
        &&& forall|i: int| 0 <= i < self.tasks.len() ==> i32::MIN <= #[trigger] self.tasks[i].id
    }

    /// The store loaded from `tasks`: the next id is one past the largest, or 1
    /// where the list is empty.
    pub open spec fn loaded(tasks: Seq<TaskView>) -> StoreModel {
        StoreModel { tasks, next_id: if tasks.len() == 0 { 1 } else { max_id(tasks) + 1 } }
    }

    pub open spec fn can_add(self) -> bool {
        self.next_id <= i32::MAX
    }

    pub open spec fn in_range(self, index: int) -> bool {
        0 <= index < self.tasks.len()
    }

    /// The task that an add at `now` appends.
    pub open spec fn new_task(self, description: Seq<char>, now: Timestamp) -> TaskView {
        TaskView {
            id: self.next_id,
            description,
            completed: false,
            created_at: now,
            modified_at: now,
        }
    }

    pub open spec fn added(self, description: Seq<char>, now: Timestamp) -> StoreModel {
        if self.can_add() {
            StoreModel {
                tasks: self.tasks.push(self.new_task(description, now)),
                next_id: self.next_id + 1,
            }
        } else {
            self
        }
    }

    pub open spec fn updated(self, index: int, description: Seq<char>, now: Timestamp) -> StoreModel {
        if self.in_range(index) {
            StoreModel {
                tasks: self.tasks.update(
                    index,
                    TaskView { description, modified_at: now, ..self.tasks[index] },
                ),
                ..self
            }
        } else {
            self
        }
    }

    pub open spec fn toggled(self, index: int) -> StoreModel {
        if self.in_range(index) {
            StoreModel {
                tasks: self.tasks.update(
                    index,
                    TaskView { completed: !self.tasks[index].completed, ..self.tasks[index] },
                ),
                ..self
            }
        } else {
            self
        }
    }

    pub open spec fn removed(self, index: int) -> StoreModel {
        if self.in_range(index) {
            StoreModel { tasks: self.tasks.remove(index), ..self }
        } else {
            self
        }
    }

    pub open spec fn step(self, op: StoreOp) -> StoreModel {
        match op {
            StoreOp::Add(d, now) => self.added(d, now),
            StoreOp::Update(i, d, now) => self.updated(i, d, now),
            StoreOp::Toggle(i) => self.toggled(i),
            StoreOp::Remove(i) => self.removed(i),
        }
    }

    /// Whether some task of the list carries `id`.
    pub open spec fn holds_id(self, id: int) -> bool {
        exists|i: int| 0 <= i < self.tasks.len() && #[trigger] self.tasks[i].id == id
    }
}

/// The states that `ops` passes through from `m`, `m` first.
pub open spec fn trace(m: StoreModel, ops: Seq<StoreOp>) -> Seq<StoreModel>
    decreases ops.len(),
{
    if ops.len() == 0 {
        seq![m]
    } else {
        let t = trace(m, ops.drop_last());
        t.push(t.last().step(ops.last()))
    }
}

/// Owns the task list and hands out ids.
pub struct TaskStore {
    tasks: Vec<Task>,
    next_id: i64,
}

impl View for TaskStore {
    type V = StoreModel;

    closed spec fn view(&self) -> StoreModel {
        StoreModel { tasks: task_views(self.tasks@), next_id: self.next_id as int }
    }
}

impl TaskStore {
    /// An empty list; the first id handed out is 1.
    pub fn new() -> (r: TaskStore)
        ensures
            r@ == StoreModel::loaded(Seq::empty()),
            r@.wf(),
    {
        let r = TaskStore { tasks: Vec::new(), next_id: 1 };
        assert(task_views(r.tasks@) =~= Seq::<TaskView>::empty());
        r
    }

    /// The store over a list read back from storage. A list in which two tasks
    /// share an id is refused.
    pub fn from_tasks(tasks: Vec<Task>) -> (r: Result<TaskStore, StoreError>)
        ensures
            match r {
                Ok(s) => ids_unique(task_views(tasks@)) && s@ == StoreModel::loaded(task_views(tasks@))
                    && s@.wf(),
                Err(e) => !ids_unique(task_views(tasks@)) && e == StoreError::DuplicateId,
            },
    {
        let ghost v = task_views(tasks@);
        let n = tasks.len();
        let mut max: i32 = 0;
        let mut i: usize = 0;
        while i < n
            invariant
                n == tasks@.len(),
                0 <= i <= n,
                v == task_views(tasks@),
                max == (if i == 0 { 0 } else { max_id(v.take(i as int)) }),
                forall|a: int| 0 <= a < i ==> #[trigger] tasks@[a].id <= max || i == 0,
                forall|a: int, b: int|
                    0 <= a < i && 0 <= b < n && a != b ==> #[trigger] tasks@[a].id
                        != #[trigger] tasks@[b].id,
            decreases n - i,
        {
            let id = tasks[i].id;
            let mut j: usize = 0;
            while j < n
                invariant
                    n == tasks@.len(),
                    0 <= i < n,
                    0 <= j <= n,
                    id == tasks@[i as int].id,
                    v == task_views(tasks@),
                    forall|b: int| 0 <= b < j && b != i ==> #[trigger] tasks@[b].id != id,
                decreases n - j,
            {
                if j != i && tasks[j].id == id {
                    assert(v[i as int].id == v[j as int].id);
                    return Err(StoreError::DuplicateId);
                }
                j = j + 1;
            }
            assert(v.take(i + 1).drop_last() == v.take(i as int));
            if i == 0 || id > max {
                max = id;
            }
            i = i + 1;
        }
        assert(v.take(n as int) == v);
        let next_id: i64 = if n == 0 { 1 } else { max as i64 + 1 };
        Ok(TaskStore { tasks, next_id })
    }

    /// The tasks, in order.
    pub fn tasks(&self) -> (r: &Vec<Task>)
        ensures
            task_views(r@) == self@.tasks,
    {
        &self.tasks
    }

    pub fn len(&self) -> (r: usize)
        ensures
            r == self@.tasks.len(),
    {
        self.tasks.len()
    }

    /// Appends a task stamped `now`, under the next id. Fails only when every id
    /// has been handed out.
    pub fn add_at(&mut self, description: String, now: Timestamp) -> (r: Result<Task, StoreError>)
        requires
            old(self)@.wf(),
        ensures
            final(self)@ == old(self)@.added(description@, now),
            final(self)@.wf(),
            match r {
                Ok(t) => old(self)@.can_add() && t@ == old(self)@.new_task(description@, now),
                Err(e) => !old(self)@.can_add() && e == StoreError::IdsExhausted,
            },
    {
        if self.next_id > i32::MAX as i64 {
            return Err(StoreError::IdsExhausted);
        }
        let task = Task {
            id: self.next_id as i32,
            description,
            completed: false,
            created_at: now,
            modified_at: now,
        };
        let copy = task.clone();
        self.tasks.push(task);
        self.next_id = self.next_id + 1;
        assert(task_views(self.tasks@) =~= old(self)@.added(description@, now).tasks);
        proof {
            lemma_step_keeps_wf(old(self)@, StoreOp::Add(description@, now));
        }
        Ok(copy)
    }

    /// Appends a task stamped with the current time.
    pub fn add(&mut self, description: String) -> (r: Result<Task, StoreError>)
        requires
            old(self)@.wf(),
        ensures
            final(self)@.wf(),
            exists|now: Timestamp| #[trigger] old(self)@.added(description@, now) == final(self)@,
            match r {
                Ok(t) => old(self)@.can_add() && final(self)@.tasks.last() == t@,
                Err(e) => !old(self)@.can_add() && e == StoreError::IdsExhausted,
            },
    {
        let now = now_utc();
        self.add_at(description, now)
    }

    /// Rewrites the description of the task at `index` and stamps it modified
    /// at `now`.
    pub fn update_at(&mut self, index: usize, description: String, now: Timestamp) -> (r: Result<
        (),
        StoreError,
    >)
        requires
            old(self)@.wf(),
        ensures
            final(self)@ == old(self)@.updated(index as int, description@, now),
            final(self)@.wf(),
            r is Ok <==> old(self)@.in_range(index as int),
            r is Err ==> r == Err::<(), StoreError>(StoreError::NotFound),
    {
        if index >= self.tasks.len() {
            return Err(StoreError::NotFound);
        }
        let old_task = self.tasks[index].clone();
        let task = Task { description, modified_at: now, ..old_task };
        self.tasks.set(index, task);
        assert(task_views(self.tasks@) =~= old(self)@.updated(index as int, description@, now).tasks);
        proof {
            lemma_step_keeps_wf(old(self)@, StoreOp::Update(index as int, description@, now));
        }
        Ok(())
    }

    /// Rewrites the description of the task at `index`, stamped with the
    /// current time.
    pub fn update(&mut self, index: usize, description: String) -> (r: Result<(), StoreError>)
        requires
            old(self)@.wf(),
        ensures
            final(self)@.wf(),
            exists|now: Timestamp|
                #[trigger] old(self)@.updated(index as int, description@, now) == final(self)@,
            r is Ok <==> old(self)@.in_range(index as int),
            r is Err ==> r == Err::<(), StoreError>(StoreError::NotFound),
    {
        let now = now_utc();
        self.update_at(index, description, now)
    }

    /// Flips the completion of the task at `index`; nothing happens where no task
    /// stands there.
    pub fn toggle(&mut self, index: usize)
        requires
            old(self)@.wf(),
        ensures
            final(self)@ == old(self)@.toggled(index as int),
            final(self)@.wf(),
    {
        if index < self.tasks.len() {
            let old_task = self.tasks[index].clone();
            let task = Task { completed: !old_task.completed, ..old_task };
            self.tasks.set(index, task);
            assert(task_views(self.tasks@) =~= old(self)@.toggled(index as int).tasks);
            proof {
                lemma_step_keeps_wf(old(self)@, StoreOp::Toggle(index as int));
            }
        }
    }

    /// Removes the task at `index`; the others keep their ids.
    pub fn remove(&mut self, index: usize) -> (r: Result<(), StoreError>)
        requires
            old(self)@.wf(),
        ensures
            final(self)@ == old(self)@.removed(index as int),
            final(self)@.wf(),
            r is Ok <==> old(self)@.in_range(index as int),
            r is Err ==> r == Err::<(), StoreError>(StoreError::NotFound),
    {
        if index >= self.tasks.len() {
            return Err(StoreError::NotFound);
        }
        self.tasks.remove(index);
        assert(task_views(self.tasks@) =~= old(self)@.removed(index as int).tasks);
        proof {
            lemma_step_keeps_wf(old(self)@, StoreOp::Remove(index as int));
        }
        Ok(())
    }
}

/// Each operation keeps the list well formed and never lowers the next id.
pub proof fn lemma_step_keeps_wf(m: StoreModel, op: StoreOp)
    requires
        m.wf(),
    ensures
        m.step(op).wf(),
        m.step(op).next_id >= m.next_id,
{
    let n = m.step(op);
    match op {
        StoreOp::Add(d, now) => {
            if m.can_add() {
                assert(m.new_task(d, now).id == m.next_id);
                assert(forall|i: int| 0 <= i < m.tasks.len() ==> n.tasks[i] == m.tasks[i]);
                assert(n.tasks[m.tasks.len() as int] == m.new_task(d, now));
            }
        },
        StoreOp::Update(i, d, now) => {
            if m.in_range(i) {
                assert(forall|k: int| 0 <= k < n.tasks.len() ==> #[trigger] n.tasks[k].id == m.tasks[k].id);
            }
        },
        StoreOp::Toggle(i) => {
            if m.in_range(i) {
                assert(forall|k: int| 0 <= k < n.tasks.len() ==> #[trigger] n.tasks[k].id == m.tasks[k].id);
            }
        },
        StoreOp::Remove(i) => {
            if m.in_range(i) {
                assert(forall|k: int|
                    0 <= k < n.tasks.len() ==> #[trigger] n.tasks[k] == if k < i {
                        m.tasks[k]
                    } else {
                        m.tasks[k + 1]
                    });
            }
        },
    }
}

/// After one operation every task carries an id that the list held before, or
/// the next id, which no task held before.
pub proof fn lemma_step_ids_from(m: StoreModel, op: StoreOp)
    requires
        m.wf(),
    ensures
        !m.holds_id(m.next_id),
        forall|i: int|
            0 <= i < m.step(op).tasks.len() ==> m.holds_id(#[trigger] m.step(op).tasks[i].id)
                || m.step(op).tasks[i].id == m.next_id,
{
    let n = m.step(op);
    if m.holds_id(m.next_id) {
        let k = choose|k: int| 0 <= k < m.tasks.len() && #[trigger] m.tasks[k].id == m.next_id;
        assert(m.tasks[k].id < m.next_id);
    }
    assert forall|i: int| 0 <= i < n.tasks.len() implies m.holds_id(#[trigger] n.tasks[i].id)
        || n.tasks[i].id == m.next_id by {
        match op {
            StoreOp::Add(d, now) => {
                if m.can_add() && i < m.tasks.len() {
                    assert(n.tasks[i] == m.tasks[i]);
                    assert(m.tasks[i].id == n.tasks[i].id);
                } else if !m.can_add() {
                    assert(m.tasks[i].id == n.tasks[i].id);
                }
            },
            StoreOp::Update(j, d, now) => {
                assert(m.tasks[i].id == n.tasks[i].id);
            },
            StoreOp::Toggle(j) => {
                assert(m.tasks[i].id == n.tasks[i].id);
            },
            StoreOp::Remove(j) => {
                if m.in_range(j) && i >= j {
                    assert(m.tasks[i + 1].id == n.tasks[i].id);
                } else {
                    assert(m.tasks[i].id == n.tasks[i].id);
                }
            },
        }
    }
}

/// Over any run of adds, updates, toggles and removes from a well-formed list,
/// every state keeps ids unique, and the id that an add hands out is held by no
/// task of any earlier state: an id is never reused, not even after its task
/// was removed.
pub proof fn lemma_ids_unique_never_reused(m: StoreModel, ops: Seq<StoreOp>)
    requires
        m.wf(),
    ensures
        trace(m, ops).len() == ops.len() + 1,
        forall|k: int| 0 <= k <= ops.len() ==> #[trigger] trace(m, ops)[k].wf(),
        forall|j: int, k: int|
            0 <= j <= k < ops.len() && ops[k] is Add && trace(m, ops)[k].can_add()
                ==> !#[trigger] trace(m, ops)[j].holds_id(trace(m, ops)[k].next_id),
    decreases ops.len(),
{
    if ops.len() > 0 {
        let prev = ops.drop_last();
        lemma_ids_unique_never_reused(m, prev);
        lemma_trace_next_id_grows(m, prev);
        let t = trace(m, ops);
        let tp = trace(m, prev);
        assert(forall|k: int| 0 <= k <= prev.len() ==> t[k] == tp[k]);
        lemma_step_keeps_wf(tp.last(), ops.last());
        assert forall|j: int, k: int|
            0 <= j <= k < ops.len() && ops[k] is Add && t[k].can_add() implies !#[trigger] t[j].holds_id(
            t[k].next_id,
        ) by {
            assert(t[j] == tp[j]);
            assert(t[k] == tp[k]);
            assert(tp[j].wf());
            assert(tp[j].next_id <= tp[k].next_id);
            if t[j].holds_id(t[k].next_id) {
                let i = choose|i: int| 0 <= i < t[j].tasks.len() && #[trigger] t[j].tasks[i].id == t[k].next_id;
                assert(t[j].tasks[i].id < t[j].next_id);
            }
        }
    }
}

proof fn lemma_trace_next_id_grows(m: StoreModel, ops: Seq<StoreOp>)
    requires
        m.wf(),
    ensures
        trace(m, ops).len() == ops.len() + 1,
        forall|j: int, k: int|
            0 <= j <= k <= ops.len() ==> #[trigger] trace(m, ops)[j].next_id <= #[trigger] trace(
                m,
                ops,
            )[k].next_id,
    decreases ops.len(),
{
    if ops.len() > 0 {
        let prev = ops.drop_last();
        lemma_trace_next_id_grows(m, prev);
        lemma_ids_unique_never_reused(m, prev);
        let t = trace(m, ops);
        let tp = trace(m, prev);
        assert(forall|k: int| 0 <= k <= prev.len() ==> t[k] == tp[k]);
        lemma_step_keeps_wf(tp.last(), ops.last());
    }
}

/// Two toggles of one index leave the list as it was.
pub proof fn lemma_toggle_twice(m: StoreModel, index: int)
    ensures
        m.toggled(index).toggled(index) == m,
{
    if m.in_range(index) {
        let t = m.toggled(index);
        assert(t.toggled(index).tasks =~= m.tasks);
    }
}

} // verus!
