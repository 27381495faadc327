use vstd::prelude::*;

use crate::cache::{refreshed_slot, update_issues_cache, IssueCache};
use crate::issues::RepoIssue;
use crate::store::{ids_unique, lemma_step_ids_from, lemma_step_keeps_wf, lemma_toggle_twice, task_views, StoreError, StoreModel, StoreOp, Task, TaskStore};
use crate::time::{now_utc, Timestamp};

verus! {

/// The sub-mode that governs how keys are read.
#[derive(Clone, Copy, PartialEq, Eq, Debug, Structural)]
pub enum Action {
    View,
    Add,
    Update,
}

/// The active tab and its sub-mode.
#[derive(Clone, Copy, PartialEq, Eq, Debug, Structural)]
pub enum ViewMode {
    Task(Action),
    Issues(Action),
}

/// A key event.
#[derive(Clone, Copy, PartialEq, Eq, Debug, Structural)]
pub enum Key {
    Char(char),
    Enter,
    Backspace,
    Esc,
    Up,
    Down,
    Other,
}

/// What the caller must do after a key was handled.
#[derive(Clone, Copy, PartialEq, Eq, Debug, Structural)]
pub enum Effect {
    Nothing,
    /// The task list changed: write it to storage.
    SaveTasks,
    /// The issue tab was entered with nothing cached: fetch the issues and hand
    /// the outcome to `receive_issues`.
    FetchIssues,
}

/// The interaction state as a value.
pub struct TrackerModel {
    pub quit: bool,
    pub input: Seq<char>,
    pub mode: ViewMode,
    pub selected: Option<int>,
    pub store: StoreModel,
    pub issues: Seq<RepoIssue>,
    pub cache: Option<Seq<RepoIssue>>,
}

/// The cursor after `next` on a list of `len` items: one down, back to the top
/// past the end; no selection on an empty list.
pub open spec fn next_index(sel: Option<int>, len: int) -> Option<int> {
    if len <= 0 {
        None
    } else {
        match sel {
            Some(i) => if i >= len - 1 {
                Some(0)
            } else {
                Some(i + 1)
            },
            None => Some(0),
        }
    }
}

/// The cursor after `previous` on a list of `len` items: one up, to the end
/// before the top; no selection on an empty list.
pub open spec fn previous_index(sel: Option<int>, len: int) -> Option<int> {
    if len <= 0 {
        None
    } else {
        match sel {
            Some(i) => if i == 0 {
                Some(len - 1)
            } else {
                Some(i - 1)
            },
            None => Some(0),
        }
    }
}

/// The cursor kept within a list of `len` items.
pub open spec fn clamp_cursor(sel: Option<int>, len: int) -> Option<int> {
    if len <= 0 {
        None
    } else {
        match sel {
            Some(i) => if i > len - 1 {
                Some(len - 1)
            } else {
                Some(i)
            },
            None => Some(0),
        }
    }
}

/// The cursor on a freshly shown list of `len` items.
pub open spec fn reset_cursor(len: int) -> Option<int> {
    if len > 0 {
        Some(0)
    } else {
        None
    }
}

/// `next_index` applied `k` times.
pub open spec fn next_times(sel: Option<int>, len: int, k: nat) -> Option<int>
    decreases k,
{
    if k == 0 {
        sel
    } else {
        next_index(next_times(sel, len, (k - 1) as nat), len)
    }
}

/// `previous_index` applied `k` times.
pub open spec fn previous_times(sel: Option<int>, len: int, k: nat) -> Option<int>
    decreases k,
{
    if k == 0 {
        sel
    } else {
        previous_index(previous_times(sel, len, (k - 1) as nat), len)
    }
}

/// Moving the cursor down `k` times on a list of `len` items lands `k` places
/// further, counted round the list; `len` moves return it where it started.
pub proof fn lemma_next_wraps(i: int, len: int, k: nat)
    requires
        0 <= i < len,
    ensures
        next_times(Some(i), len, k) == Some((i + k) % len),
        next_times(Some(i), len, len as nat) == Some(i),
{
    lemma_next_wraps_count(i, len, k);
    lemma_next_wraps_full(i, len);
}

proof fn lemma_next_wraps_full(i: int, len: int)
    requires
        0 <= i < len,
    ensures
        next_times(Some(i), len, len as nat) == Some(i),
{
    lemma_next_wraps_count(i, len, len as nat);
    assert((i + len) % len == i) by (nonlinear_arith)
        requires
            0 <= i < len,
    ;
}

proof fn lemma_next_wraps_count(i: int, len: int, k: nat)
    requires
        0 <= i < len,
    ensures
        next_times(Some(i), len, k) == Some((i + k) % len),
    decreases k,
{
    if k > 0 {
        lemma_next_wraps_count(i, len, (k - 1) as nat);
        let j = (i + k - 1) % len;
        assert(0 <= j < len) by (nonlinear_arith)
            requires
                j == (i + k - 1) % len,
                len > 0,
        ;
        if j == len - 1 {
            assert((i + k) % len == 0) by (nonlinear_arith)
                requires
                    j == (i + k - 1) % len,
                    j == len - 1,
                    len > 0,
            ;
        } else {
            assert((i + k) % len == j + 1) by (nonlinear_arith)
                requires
                    j == (i + k - 1) % len,
                    j < len - 1,
                    len > 0,
                    0 <= j,
            ;
        }
    } else {
        assert((i + 0) % len == i) by (nonlinear_arith)
            requires
                0 <= i < len,
        ;
    }
}

/// Moving the cursor up `k` times on a list of `len` items lands `k` places
/// back, counted round the list; `len` moves return it where it started.
pub proof fn lemma_previous_wraps(i: int, len: int, k: nat)
    requires
        0 <= i < len,
    ensures
        previous_times(Some(i), len, k) == Some((i - k) % len),
        previous_times(Some(i), len, len as nat) == Some(i),
{
    lemma_previous_wraps_count(i, len, k);
    lemma_previous_wraps_count(i, len, len as nat);
    assert((i - len) % len == i) by (nonlinear_arith)
        requires
            0 <= i < len,
    ;
}

proof fn lemma_previous_wraps_count(i: int, len: int, k: nat)
    requires
        0 <= i < len,
    ensures
        previous_times(Some(i), len, k) == Some((i - k) % len),
    decreases k,
{
    if k > 0 {
        lemma_previous_wraps_count(i, len, (k - 1) as nat);
        let j = (i - (k - 1)) % len;
        assert(0 <= j < len) by (nonlinear_arith)
            requires
                j == (i - (k - 1)) % len,
                len > 0,
        ;
        if j == 0 {
            assert((i - k) % len == len - 1) by (nonlinear_arith)
                requires
                    j == (i - (k - 1)) % len,
                    j == 0,
                    len > 0,
            ;
        } else {
            assert((i - k) % len == j - 1) by (nonlinear_arith)
                requires
                    j == (i - (k - 1)) % len,
                    0 < j < len,
                    len > 0,
            ;
        }
    } else {
        assert((i - 0) % len == i) by (nonlinear_arith)
            requires
                0 <= i < len,
        ;
    }
}

impl TrackerModel {
    pub open spec fn on_task_tab(self) -> bool {
        self.mode is Task
    }

    /// The length of the list that the cursor walks.
    pub open spec fn active_len(self) -> int {
        if self.on_task_tab() {
            self.store.tasks.len() as int
        } else {
            self.issues.len() as int
        }
    }

    /// The store is well formed, text entry happens only on the task tab, and
    /// the cursor selects an item of the active list, or nothing exactly when
    /// that list is empty.
    pub open spec fn wf(self) -> bool {
        &&& self.store.wf()
        &&& (self.mode is Issues ==> self.mode == ViewMode::Issues(Action::View))
        &&& match self.selected {
            Some(i) => 0 <= i < self.active_len(),
            None => self.active_len() == 0,
        }
    }

    pub open spec fn with_cursor(self, selected: Option<int>) -> TrackerModel {
        TrackerModel { selected, ..self }
    }

    pub open spec fn moved_next(self) -> TrackerModel {
        self.with_cursor(next_index(self.selected, self.active_len()))
    }

    pub open spec fn moved_previous(self) -> TrackerModel {
        self.with_cursor(previous_index(self.selected, self.active_len()))
    }

    /// The index that the cursor selects, or one past every list.
    pub open spec fn cursor_or_none(self) -> int {
        match self.selected {
            Some(i) => i,
            None => -1,
        }
    }

    /// The task list changed to `store`; the cursor stays within it.
    pub open spec fn with_store(self, store: StoreModel) -> TrackerModel {
        TrackerModel {
            store,
            selected: clamp_cursor(self.selected, store.tasks.len() as int),
            ..self
        }
    }

    /// The other tab, in viewing mode, with the cursor on its first item. The
    /// issue tab shows what the cache holds, or nothing.
    pub open spec fn switched(self) -> TrackerModel {
        if self.on_task_tab() {
            let issues = match self.cache {
                Some(l) => l,
                None => Seq::empty(),
            };
            TrackerModel {
                mode: ViewMode::Issues(Action::View),
                issues,
                selected: reset_cursor(issues.len() as int),
                ..self
            }
        } else {
            TrackerModel {
                mode: ViewMode::Task(Action::View),
                selected: reset_cursor(self.store.tasks.len() as int),
                ..self
            }
        }
    }

    /// The description that an update starts from: that of the selected task.
    pub open spec fn seed_text(self) -> Seq<char> {
        match self.selected {
            Some(i) => if 0 <= i < self.store.tasks.len() {
                self.store.tasks[i].description
            } else {
                Seq::empty()
            },
            None => Seq::empty(),
        }
    }

    /// A key in the task tab's viewing mode.
    pub open spec fn on_task_view_key(self, key: Key) -> TrackerModel {
        match key {
            Key::Char(c) => if c == 'q' {
                TrackerModel { quit: true, ..self }
            } else if c == 'j' {
                self.moved_next()
            } else if c == 'k' {
                self.moved_previous()
            } else if c == 'd' {
                self.with_store(self.store.toggled(self.cursor_or_none()))
            } else if c == 'a' {
                TrackerModel { mode: ViewMode::Task(Action::Add), input: Seq::empty(), ..self }
            } else if c == 'u' {
                TrackerModel { mode: ViewMode::Task(Action::Update), input: self.seed_text(), ..self }
            } else if c == 'x' {
                self.with_store(self.store.removed(self.cursor_or_none()))
            } else if c == ']' || c == '[' {
                self.switched()
            } else {
                self
            },
            Key::Down => self.moved_next(),
            Key::Up => self.moved_previous(),
            _ => self,
        }
    }

    /// A key in the issue tab's viewing mode.
    pub open spec fn on_issues_view_key(self, key: Key) -> TrackerModel {
        match key {
            Key::Char(c) => if c == 'q' {
                TrackerModel { quit: true, ..self }
            } else if c == 'j' {
                self.moved_next()
            } else if c == 'k' {
                self.moved_previous()
            } else if c == ']' || c == '[' {
                self.switched()
            } else {
                self
            },
            Key::Down => self.moved_next(),
            Key::Up => self.moved_previous(),
            _ => self,
        }
    }

    /// A key while text is being entered, stamped `now` where it commits.
    pub open spec fn on_text_key(self, key: Key, now: Timestamp) -> TrackerModel {
        match key {
            Key::Char(c) => TrackerModel { input: self.input.push(c), ..self },
            Key::Backspace => TrackerModel {
                input: if self.input.len() > 0 {
                    self.input.drop_last()
                } else {
                    self.input
                },
                ..self
            },
            Key::Enter => match self.mode {
                ViewMode::Task(Action::Add) => TrackerModel {
                    mode: ViewMode::Task(Action::View),
                    input: Seq::empty(),
                    ..self.with_store(self.store.added(self.input, now))
                },
                ViewMode::Task(Action::Update) => TrackerModel {
                    mode: ViewMode::Task(Action::View),
                    input: Seq::empty(),
                    ..self.with_store(self.store.updated(self.cursor_or_none(), self.input, now))
                },
                _ => self,
            },
            Key::Esc => TrackerModel {
                mode: ViewMode::Task(Action::View),
                input: Seq::empty(),
                ..self
            },
            _ => self,
        }
    }

    /// The state after `key`, with `now` as the time of any change to a task.
    pub open spec fn on_key(self, key: Key, now: Timestamp) -> TrackerModel {
        match self.mode {
            ViewMode::Task(Action::View) => self.on_task_view_key(key),
            ViewMode::Issues(Action::View) => self.on_issues_view_key(key),
            _ => self.on_text_key(key, now),
        }
    }

    /// What the caller must do after `key`: save where the task list changed,
    /// fetch where the issue tab was entered with nothing cached.
    pub open spec fn effect_of(self, key: Key) -> Effect {
        let is_switch = key == Key::Char(']') || key == Key::Char('[');
        match self.mode {
            ViewMode::Task(Action::View) => if (key == Key::Char('d') || key == Key::Char('x'))
                && self.store.in_range(self.cursor_or_none()) {
                Effect::SaveTasks
            } else if is_switch && self.cache is None {
                Effect::FetchIssues
            } else {
                Effect::Nothing
            },
            ViewMode::Task(Action::Add) => if key == Key::Enter && self.store.can_add() {
                Effect::SaveTasks
            } else {
                Effect::Nothing
            },
            ViewMode::Task(Action::Update) => if key == Key::Enter && self.store.in_range(
                self.cursor_or_none(),
            ) {
                Effect::SaveTasks
            } else {
                Effect::Nothing
            },
            _ => Effect::Nothing,
        }
    }

    /// The state after a fetch of the issues came back with `fetched`: the cache
    /// is refreshed, the issue list replaced, and on the issue tab the cursor
    /// kept within it.
    pub open spec fn received(self, fetched: Option<Seq<RepoIssue>>) -> TrackerModel {
        let issues = match fetched {
            Some(l) => l,
            None => Seq::empty(),
        };
        TrackerModel {
            issues,
            cache: refreshed_slot(fetched),
            selected: if self.on_task_tab() {
                self.selected
            } else {
                clamp_cursor(self.selected, issues.len() as int)
            },
            ..self
        }
    }
}

/// Every key keeps the state well formed.
pub proof fn lemma_on_key_keeps_wf(m: TrackerModel, key: Key, now: Timestamp)
    requires
        m.wf(),
    ensures
        m.on_key(key, now).wf(),
{
    let t = m.store;
    let i = m.cursor_or_none();
    lemma_step_keeps_wf(t, StoreOp::Toggle(i));
    lemma_step_keeps_wf(t, StoreOp::Remove(i));
    lemma_step_keeps_wf(t, StoreOp::Add(m.input, now));
    lemma_step_keeps_wf(t, StoreOp::Update(i, m.input, now));
}

/// `key` pressed `k` times from `m`.
pub open spec fn keys_times(m: TrackerModel, key: Key, now: Timestamp, k: nat) -> TrackerModel
    decreases k,
{
    if k == 0 {
        m
    } else {
        keys_times(m, key, now, (k - 1) as nat).on_key(key, now)
    }
}

/// No key gives two tasks one id, the next id never decreases, and a task that a
/// key adds carries the next id, which no task held before: ids stay unique and
/// an id once handed out (even of a task since removed) is never handed out again.
pub proof fn lemma_key_keeps_ids_fresh(m: TrackerModel, key: Key, now: Timestamp)
    requires
        m.wf(),
    ensures
        ids_unique(m.on_key(key, now).store.tasks),
        m.on_key(key, now).store.next_id >= m.store.next_id,
        !m.store.holds_id(m.store.next_id),
        forall|i: int|
            0 <= i < m.on_key(key, now).store.tasks.len() ==> m.store.holds_id(
                #[trigger] m.on_key(key, now).store.tasks[i].id,
            ) || m.on_key(key, now).store.tasks[i].id == m.store.next_id,
{
    lemma_on_key_keeps_wf(m, key, now);
    let t = m.store;
    let i = m.cursor_or_none();
    lemma_step_keeps_wf(t, StoreOp::Toggle(i));
    lemma_step_keeps_wf(t, StoreOp::Remove(i));
    lemma_step_keeps_wf(t, StoreOp::Add(m.input, now));
    lemma_step_keeps_wf(t, StoreOp::Update(i, m.input, now));
    lemma_step_ids_from(t, StoreOp::Toggle(i));
    lemma_step_ids_from(t, StoreOp::Remove(i));
    lemma_step_ids_from(t, StoreOp::Add(m.input, now));
    lemma_step_ids_from(t, StoreOp::Update(i, m.input, now));
    let n = m.on_key(key, now).store;
    assert forall|k: int| 0 <= k < n.tasks.len() implies t.holds_id(#[trigger] n.tasks[k].id)
        || n.tasks[k].id == t.next_id by {
        if n == t {
            assert(t.tasks[k].id == n.tasks[k].id);
        }
    }
}

/// Pressing `d` twice in the task list leaves the whole state as it was.
pub proof fn lemma_toggle_key_twice(m: TrackerModel, now: Timestamp)
    requires
        m.wf(),
        m.mode == ViewMode::Task(Action::View),
    ensures
        m.on_key(Key::Char('d'), now).on_key(Key::Char('d'), now) == m,
{
    let c = m.cursor_or_none();
    let m1 = m.on_key(Key::Char('d'), now);
    lemma_toggle_twice(m.store, c);
    assert(m.store.toggled(c).tasks.len() == m.store.tasks.len());
    assert(m1.selected == m.selected);
    assert(m1.mode == m.mode);
    let m2 = m1.on_key(Key::Char('d'), now);
    assert(m2.store == m.store);
    assert(m2.selected == m.selected);
}

proof fn lemma_move_keys_count(m: TrackerModel, key: Key, now: Timestamp, k: nat)
    requires
        m.wf(),
        m.mode == ViewMode::Task(Action::View) || m.mode == ViewMode::Issues(Action::View),
        key == Key::Down || key == Key::Up,
    ensures
        keys_times(m, key, now, k) == m.with_cursor(
            if key == Key::Down {
                next_times(m.selected, m.active_len(), k)
            } else {
                previous_times(m.selected, m.active_len(), k)
            },
        ),
    decreases k,
{
    if k > 0 {
        lemma_move_keys_count(m, key, now, (k - 1) as nat);
    } else {
        assert(m.with_cursor(m.selected) == m);
    }
}

/// On a list of N items, pressing Down N times, or Up N times, returns the
/// cursor where it started and changes nothing else.
pub proof fn lemma_move_keys_wrap(m: TrackerModel, now: Timestamp)
    requires
        m.wf(),
        m.mode == ViewMode::Task(Action::View) || m.mode == ViewMode::Issues(Action::View),
        m.selected is Some,
    ensures
        keys_times(m, Key::Down, now, m.active_len() as nat) == m,
        keys_times(m, Key::Up, now, m.active_len() as nat) == m,
{
    let i = m.selected.unwrap();
    let len = m.active_len();
    lemma_move_keys_count(m, Key::Down, now, len as nat);
    lemma_move_keys_count(m, Key::Up, now, len as nat);
    lemma_next_wraps(i, len, len as nat);
    lemma_previous_wraps(i, len, len as nat);
    assert(m.with_cursor(Some(i)) == m);
}

/// Switching to the issue tab with nothing cached asks for a fetch; when that
/// fetch fails, the issue tab shows no issues, nothing is selected, the cache
/// stays empty and the task list is untouched.
pub proof fn lemma_issue_tab_after_failed_fetch(m: TrackerModel, now: Timestamp)
    requires
        m.wf(),
        m.mode == ViewMode::Task(Action::View),
        m.cache is None,
    ensures
        m.effect_of(Key::Char(']')) == Effect::FetchIssues,
        m.on_key(Key::Char(']'), now).received(None).mode == ViewMode::Issues(Action::View),
        m.on_key(Key::Char(']'), now).received(None).issues.len() == 0,
        m.on_key(Key::Char(']'), now).received(None).selected is None,
        m.on_key(Key::Char(']'), now).received(None).cache is None,
        m.on_key(Key::Char(']'), now).received(None).store == m.store,
{
}

/// The interaction state: the active tab and sub-mode, the text being entered,
/// the cursor, the task list, the issues shown and the issue cache.
pub struct Hourglass {
    should_quit: bool,
    input: String,
    view: ViewMode,
    selected: Option<usize>,
    tabs: Vec<String>,
    tab_index: usize,
    store: TaskStore,
    issues: Vec<RepoIssue>,
    cache: IssueCache,
}

pub open spec fn cursor_view(sel: Option<usize>) -> Option<int> {
    match sel {
        Some(i) => Some(i as int),
        None => None,
    }
}

impl View for Hourglass {
    type V = TrackerModel;

    closed spec fn view(&self) -> TrackerModel {
        TrackerModel {
            quit: self.should_quit,
            input: self.input@,
            mode: self.view,
            selected: cursor_view(self.selected),
            store: self.store@,
            issues: self.issues@,
            cache: self.cache@,
        }
    }
}

impl Hourglass {
    /// The state is well formed, and the tab index names the active tab.
    pub closed spec fn inv(&self) -> bool {
        &&& self@.wf()
        &&& self.tabs@.len() == 2
        &&& self.tabs@[0]@ == "tasks"@
        &&& self.tabs@[1]@ == "issues"@
        &&& self.tab_index == if self.view is Task {
            0usize
        } else {
            1usize
        }
    }

    /// An empty task list on the task tab, in viewing mode, with nothing cached.
    pub fn new() -> (r: Hourglass)
        ensures
            r.inv(),
            r@ == (TrackerModel {
                quit: false,
                input: Seq::empty(),
                mode: ViewMode::Task(Action::View),
                selected: None,
                store: StoreModel::loaded(Seq::empty()),
                issues: Seq::empty(),
                cache: None,
            }),
    {
        let mut tabs: Vec<String> = Vec::new();
        tabs.push("tasks".to_string());
        tabs.push("issues".to_string());
        proof {
            reveal_strlit("tasks");
            reveal_strlit("issues");
        }
        Hourglass {
            should_quit: false,
            input: String::new(),
            view: ViewMode::Task(Action::View),
            selected: None,
            tabs,
            tab_index: 0,
            store: TaskStore::new(),
            issues: Vec::new(),
            cache: IssueCache::new(),
        }
    }

    /// Replaces the task list with one read back from storage; the cursor goes
    /// to its first task where the task tab is shown. A list in which two tasks
    /// share an id is refused and changes nothing.
    pub fn load_tasks(&mut self, tasks: Vec<Task>) -> (r: Result<(), StoreError>)
        requires
            old(self).inv(),
        ensures
            final(self).inv(),
            r is Ok <==> crate::store::ids_unique(task_views(tasks@)),
            r is Ok ==> final(self)@ == (TrackerModel {
                store: StoreModel::loaded(task_views(tasks@)),
                selected: if old(self)@.on_task_tab() {
                    reset_cursor(tasks@.len() as int)
                } else {
                    old(self)@.selected
                },
                ..old(self)@
            }),
            r is Err ==> final(self)@ == old(self)@ && r == Err::<(), StoreError>(
                StoreError::DuplicateId,
            ),
    {
        match TaskStore::from_tasks(tasks) {
            Ok(store) => {
                let n = store.len();
                self.store = store;
                if self.tab_index == 0 {
                    self.selected = if n > 0 {
                        Some(0)
                    } else {
                        None
                    };
                }
                Ok(())
            },
            Err(e) => Err(e),
        }
    }

    fn active_len(&self) -> (r: usize)
        ensures
            r == self@.active_len(),
    {
        match self.view {
            ViewMode::Task(_) => self.store.len(),
            ViewMode::Issues(_) => self.issues.len(),
        }
    }

    /// Moves the cursor down, wrapping to the top past the end.
    fn next(&mut self)
        ensures
            final(self)@ == old(self)@.moved_next(),
            final(self).tabs == old(self).tabs,
            final(self).tab_index == old(self).tab_index,
    {
        let len = self.active_len();
        self.selected = if len == 0 {
            None
        } else {
            match self.selected {
                Some(i) => if i >= len - 1 {
                    Some(0)
                } else {
                    Some(i + 1)
                },
                None => Some(0),
            }
        };
    }

    /// Moves the cursor up, wrapping to the end before the top.
    fn previous(&mut self)
        ensures
            final(self)@ == old(self)@.moved_previous(),
            final(self).tabs == old(self).tabs,
            final(self).tab_index == old(self).tab_index,
    {
        let len = self.active_len();
        self.selected = if len == 0 {
            None
        } else {
            match self.selected {
                Some(i) => if i == 0 {
                    Some(len - 1)
                } else {
                    Some(i - 1)
                },
                None => Some(0),
            }
        };
    }

    fn next_tab(&mut self) -> (e: Effect)
        requires
            old(self).inv(),
            old(self).view is Task ==> old(self).view == ViewMode::Task(Action::View),
        ensures
            final(self)@ == old(self)@.switched(),
            final(self).inv(),
            e == (if old(self)@.on_task_tab() && old(self)@.cache is None {
                Effect::FetchIssues
            } else {
                Effect::Nothing
            }),
    {
        assert((0usize + 1) % 2 == 1 && (1usize + 1) % 2 == 0);
        self.tab_index = (self.tab_index + 1) % self.tabs.len();
        self.update_view()
    }

    fn previous_tab(&mut self) -> (e: Effect)
        requires
            old(self).inv(),
            old(self).view is Task ==> old(self).view == ViewMode::Task(Action::View),
        ensures
            final(self)@ == old(self)@.switched(),
            final(self).inv(),
            e == (if old(self)@.on_task_tab() && old(self)@.cache is None {
                Effect::FetchIssues
            } else {
                Effect::Nothing
            }),
    {
        if self.tab_index > 0 {
            self.tab_index = self.tab_index - 1;
        } else {
            self.tab_index = self.tabs.len() - 1;
        }
        self.update_view()
    }

    /// Shows the tab that the tab index names, in viewing mode, with the cursor
    /// on its first item. The issue tab shows the cached issues; with nothing
    /// cached it shows none and asks for a fetch.
    fn update_view(&mut self) -> (e: Effect)
        requires
            old(self).tabs@.len() == 2,
            old(self).tabs@[0]@ == "tasks"@,
            old(self).tabs@[1]@ == "issues"@,
            old(self).tab_index < 2,
            old(self).tab_index == 1 <==> old(self).view is Task,
            old(self).view is Task ==> old(self).view == ViewMode::Task(Action::View),
            old(self)@.store.wf(),
        ensures
            final(self)@ == old(self)@.switched(),
            final(self).inv(),
            e == (if old(self)@.on_task_tab() && old(self)@.cache is None {
                Effect::FetchIssues
            } else {
                Effect::Nothing
            }),
    {
        let mut effect = Effect::Nothing;
        if self.tab_index == 0 {
            self.view = ViewMode::Task(Action::View);
        } else {
            self.view = ViewMode::Issues(Action::View);
            match self.cache.get() {
                Some(issues) => {
                    self.issues = issues;
                },
                None => {
                    self.issues = Vec::new();
                    effect = Effect::FetchIssues;
                },
            }
        }
        let len = self.active_len();
        self.selected = if len > 0 {
            Some(0)
        } else {
            None
        };
        effect
    }

    /// Flips the completion of the selected task.
    fn toggle_task_status(&mut self) -> (e: Effect)
        requires
            old(self).inv(),
            old(self).view == ViewMode::Task(Action::View),
        ensures
            final(self)@ == old(self)@.with_store(old(self)@.store.toggled(old(self)@.cursor_or_none())),
            final(self).inv(),
            e == (if old(self)@.store.in_range(old(self)@.cursor_or_none()) {
                Effect::SaveTasks
            } else {
                Effect::Nothing
            }),
    {
        proof {
            lemma_step_keeps_wf(self@.store, StoreOp::Toggle(self@.cursor_or_none()));
        }
        if let Some(i) = self.selected {
            if i < self.store.len() {
                self.store.toggle(i);
                return Effect::SaveTasks;
            }
        }
        Effect::Nothing
    }

    /// Keeps the cursor within the task list after it changed.
    fn clamp_to_tasks(&mut self)
        ensures
            final(self)@ == old(self)@.with_store(old(self)@.store),
            final(self).tabs == old(self).tabs,
            final(self).tab_index == old(self).tab_index,
    {
        let len = self.store.len();
        self.selected = if len == 0 {
            None
        } else {
            match self.selected {
                Some(i) => if i > len - 1 {
                    Some(len - 1)
                } else {
                    Some(i)
                },
                None => Some(0),
            }
        };
    }

    /// Commits the text as a new task stamped `now` and clears the text.
    fn add_task(&mut self, now: Timestamp) -> (e: Effect)
        requires
            old(self).inv(),
            old(self).view == ViewMode::Task(Action::Add),
        ensures
            final(self)@ == (TrackerModel {
                input: Seq::empty(),
                ..old(self)@.with_store(old(self)@.store.added(old(self)@.input, now))
            }),
            final(self).tabs == old(self).tabs,
            final(self).tab_index == old(self).tab_index,
            e == (if old(self)@.store.can_add() {
                Effect::SaveTasks
            } else {
                Effect::Nothing
            }),
    {
        let description = self.input.clone();
        self.input = String::new();
        let r = self.store.add_at(description, now);
        self.clamp_to_tasks();
        match r {
            Ok(_) => Effect::SaveTasks,
            Err(_) => Effect::Nothing,
        }
    }

    /// Commits the text as the description of the selected task, stamped
    /// `now`, and clears the text.
    fn update_task(&mut self, now: Timestamp) -> (e: Effect)
        requires
            old(self).inv(),
            old(self).view == ViewMode::Task(Action::Update),
        ensures
            final(self)@ == (TrackerModel {
                input: Seq::empty(),
                ..old(self)@.with_store(
                    old(self)@.store.updated(old(self)@.cursor_or_none(), old(self)@.input, now),
                )
            }),
            final(self).tabs == old(self).tabs,
            final(self).tab_index == old(self).tab_index,
            e == (if old(self)@.store.in_range(old(self)@.cursor_or_none()) {
                Effect::SaveTasks
            } else {
                Effect::Nothing
            }),
    {
        let mut effect = Effect::Nothing;
        if let Some(i) = self.selected {
            let description = self.input.clone();
            if self.store.update_at(i, description, now).is_ok() {
                effect = Effect::SaveTasks;
            }
        }
        self.input = String::new();
        self.clamp_to_tasks();
        effect
    }

    /// Removes the selected task and keeps the cursor within the list.
    fn remove_task(&mut self) -> (e: Effect)
        requires
            old(self).inv(),
            old(self).view == ViewMode::Task(Action::View),
        ensures
            final(self)@ == old(self)@.with_store(old(self)@.store.removed(old(self)@.cursor_or_none())),
            final(self).tabs == old(self).tabs,
            final(self).tab_index == old(self).tab_index,
            e == (if old(self)@.store.in_range(old(self)@.cursor_or_none()) {
                Effect::SaveTasks
            } else {
                Effect::Nothing
            }),
    {
        let mut effect = Effect::Nothing;
        if let Some(index) = self.selected {
            if self.store.remove(index).is_ok() {
                effect = Effect::SaveTasks;
            }
        }
        self.clamp_to_tasks();
        effect
    }

    /// Handles a key, with `now` as the time of any change to a task. Returns
    /// what the caller must do next.
    pub fn handle_input_at(&mut self, key: Key, now: Timestamp) -> (e: Effect)
        requires
            old(self).inv(),
        ensures
            final(self).inv(),
            final(self)@ == old(self)@.on_key(key, now),
            e == old(self)@.effect_of(key),
    {
        proof {
            lemma_on_key_keeps_wf(self@, key, now);
        }
        match self.view {
            ViewMode::Task(Action::View) => self.handle_key_for_task_view(key),
            ViewMode::Issues(Action::View) => self.handle_key_for_issues_view(key),
            _ => self.update_command_input(key, now),
        }
    }

    /// Handles a key; a task that it adds or changes is stamped with the current
    /// time.
    pub fn handle_input(&mut self, key: Key) -> (e: Effect)
        requires
            old(self).inv(),
        ensures
            final(self).inv(),
            exists|now: Timestamp| #[trigger] old(self)@.on_key(key, now) == final(self)@,
            e == old(self)@.effect_of(key),
    {
        let now = now_utc();
        self.handle_input_at(key, now)
    }

    /// A key while text is being entered.
    fn update_command_input(&mut self, key: Key, now: Timestamp) -> (e: Effect)
        requires
            old(self).inv(),
            old(self).view is Task,
            old(self).view != ViewMode::Task(Action::View),
            old(self)@.on_key(key, now).wf(),
        ensures
            final(self).inv(),
            final(self)@ == old(self)@.on_text_key(key, now),
            e == old(self)@.effect_of(key),
    {
        match key {
            Key::Char(c) => {
                self.input.push(c);
                Effect::Nothing
            },
            Key::Enter => {
                let effect = match self.view {
                    ViewMode::Task(Action::Add) => self.add_task(now),
                    _ => self.update_task(now),
                };
                self.view = ViewMode::Task(Action::View);
                effect
            },
            Key::Backspace => {
                self.input.pop();
                Effect::Nothing
            },
            Key::Esc => {
                self.input = String::new();
                self.view = ViewMode::Task(Action::View);
                Effect::Nothing
            },
            _ => Effect::Nothing,
        }
    }

    /// A key in the task tab's viewing mode.
    fn handle_key_for_task_view(&mut self, key: Key) -> (e: Effect)
        requires
            old(self).inv(),
            old(self).view == ViewMode::Task(Action::View),
            old(self)@.on_task_view_key(key).wf(),
        ensures
            final(self).inv(),
            final(self)@ == old(self)@.on_task_view_key(key),
            e == old(self)@.effect_of(key),
    {
        match key {
            Key::Char(c) => {
                if c == 'q' {
                    self.should_quit = true;
                    Effect::Nothing
                } else if c == 'j' {
                    self.next();
                    Effect::Nothing
                } else if c == 'k' {
                    self.previous();
                    Effect::Nothing
                } else if c == 'd' {
                    self.toggle_task_status()
                } else if c == 'a' {
                    self.input = String::new();
                    self.view = ViewMode::Task(Action::Add);
                    Effect::Nothing
                } else if c == 'u' {
                    self.input = self.seed_text();
                    self.view = ViewMode::Task(Action::Update);
                    Effect::Nothing
                } else if c == 'x' {
                    self.remove_task()
                } else if c == ']' {
                    self.next_tab()
                } else if c == '[' {
                    self.previous_tab()
                } else {
                    Effect::Nothing
                }
            },
            Key::Down => {
                self.next();
                Effect::Nothing
            },
            Key::Up => {
                self.previous();
                Effect::Nothing
            },
            _ => Effect::Nothing,
        }
    }

    /// The description of the selected task, or nothing.
    fn seed_text(&self) -> (r: String)
        ensures
            r@ == self@.seed_text(),
    {
        if let Some(i) = self.selected {
            if i < self.store.len() {
                let tasks = self.store.tasks();
                assert(tasks@[i as int]@ == self@.store.tasks[i as int]);
                return tasks[i].description.clone();
            }
        }
        String::new()
    }

    /// A key in the issue tab's viewing mode.
    fn handle_key_for_issues_view(&mut self, key: Key) -> (e: Effect)
        requires
            old(self).inv(),
            old(self).view == ViewMode::Issues(Action::View),
            old(self)@.on_issues_view_key(key).wf(),
        ensures
            final(self).inv(),
            final(self)@ == old(self)@.on_issues_view_key(key),
            e == old(self)@.effect_of(key),
    {
        match key {
            Key::Char(c) => {
                if c == 'q' {
                    self.should_quit = true;
                    Effect::Nothing
                } else if c == 'j' {
                    self.next();
                    Effect::Nothing
                } else if c == 'k' {
                    self.previous();
                    Effect::Nothing
                } else if c == ']' {
                    self.next_tab()
                } else if c == '[' {
                    self.previous_tab()
                } else {
                    Effect::Nothing
                }
            },
            Key::Down => {
                self.next();
                Effect::Nothing
            },
            Key::Up => {
                self.previous();
                Effect::Nothing
            },
            _ => Effect::Nothing,
        }
    }

    /// Takes in the outcome of a fetch of the issues: the cache is refreshed
    /// (a failed or empty fetch leaves it empty), the issue list replaced, and on
    /// the issue tab the cursor kept within it.
    pub fn receive_issues(&mut self, fetched: Option<Vec<RepoIssue>>)
        requires
            old(self).inv(),
        ensures
            final(self).inv(),
            final(self)@ == old(self)@.received(
                match fetched {
                    Some(v) => Some(v@),
                    None => None,
                },
            ),
    {
        let issues = update_issues_cache(&mut self.cache, fetched);
        self.issues = issues;
        if self.tab_index == 1 {
            let len = self.issues.len();
            self.selected = if len == 0 {
                None
            } else {
                match self.selected {
                    Some(i) => if i > len - 1 {
                        Some(len - 1)
                    } else {
                        Some(i)
                    },
                    None => Some(0),
                }
            };
        }
    }

    /// Empties the issue cache ahead of a fetch, so that a failed fetch leaves no
    /// data rather than stale data.
    pub fn invalidate_issues(&mut self)
        requires
            old(self).inv(),
        ensures
            final(self).inv(),
            final(self)@ == (TrackerModel { cache: None, ..old(self)@ }),
    {
        self.cache.invalidate();
    }

    /// The cached issues, if any: what the issue tab shows without a fetch.
    pub fn cached_issues(&self) -> (r: Option<Vec<RepoIssue>>)
        ensures
            match r {
                Some(v) => self@.cache == Some(v@),
                None => self@.cache is None,
            },
    {
        self.cache.get()
    }

    pub fn should_quit(&self) -> (r: bool)
        ensures
            r == self@.quit,
    {
        self.should_quit
    }

    /// The text being entered.
    pub fn input(&self) -> (r: &String)
        ensures
            r@ == self@.input,
    {
        &self.input
    }

    /// The active tab and sub-mode.
    pub fn mode(&self) -> (r: ViewMode)
        ensures
            r == self@.mode,
    {
        self.view
    }

    /// The index of the selected item of the active list.
    pub fn selected(&self) -> (r: Option<usize>)
        ensures
            cursor_view(r) == self@.selected,
    {
        self.selected
    }

    pub fn tasks(&self) -> (r: &Vec<Task>)
        ensures
            task_views(r@) == self@.store.tasks,
    {
        self.store.tasks()
    }

    pub fn issues(&self) -> (r: &Vec<RepoIssue>)
        ensures
            r@ == self@.issues,
    {
        &self.issues
    }

    /// The names of the tabs, in order.
    pub fn tabs(&self) -> (r: &Vec<String>)
        requires
            self.inv(),
        ensures
            r@.len() == 2,
            r@[0]@ == "tasks"@,
            r@[1]@ == "issues"@,
    {
        &self.tabs
    }

    /// The index of the active tab: 0 for tasks, 1 for issues.
    pub fn tab_index(&self) -> (r: usize)
        requires
            self.inv(),
        ensures
            r == (if self@.on_task_tab() {
                0usize
            } else {
                1usize
            }),
    {
        self.tab_index
    }
}

} // verus!
