use hourglass::cache::{update_issues_cache, IssueCache};
use hourglass::display::{format_time, get_cursor_position};
use hourglass::event_loop::TickBudget;
use hourglass::issues::{GitUser, RepoIssue};
use hourglass::remote::{get_lines, parse_git_url, repo_from_remotes};
use hourglass::scheduler::{JobKind, Scheduler, Time, TimeUnits};
use hourglass::store::{StoreError, Task, TaskStore};
use hourglass::time::Timestamp;
use hourglass::tracker::{Action, Effect, Hourglass, Key, ViewMode};

fn at(secs: i64) -> Timestamp {
    Timestamp { secs, nanos: 0 }
}

fn issue(number: u32, title: &str) -> RepoIssue {
    RepoIssue {
        id: number * 10,
        node_id: format!("node{}", number),
        html_url: format!("https://example.org/issues/{}", number),
        number,
        title: title.to_string(),
        body: None,
        created_at: at(100),
        updated_at: at(200),
        user: GitUser { login: "alice".to_string(), id: 7, node_id: "u7".to_string() },
    }
}

fn task(id: i32, description: &str) -> Task {
    Task {
        id,
        description: description.to_string(),
        completed: false,
        created_at: at(0),
        modified_at: at(0),
    }
}

fn type_text(h: &mut Hourglass, text: &str, now: Timestamp) {
    for c in text.chars() {
        h.handle_input_at(Key::Char(c), now);
    }
}

fn add_task(h: &mut Hourglass, text: &str, now: Timestamp) -> Effect {
    h.handle_input_at(Key::Char('a'), now);
    type_text(h, text, now);
    h.handle_input_at(Key::Enter, now)
}

#[test]
fn add_first_task_gets_id_one() {
    let mut h = Hourglass::new();
    let e = add_task(&mut h, "buy milk", at(5));
    assert_eq!(e, Effect::SaveTasks);
    assert_eq!(h.tasks().len(), 1);
    assert_eq!(h.tasks()[0].id, 1);
    assert_eq!(h.tasks()[0].description, "buy milk");
    assert!(!h.tasks()[0].completed);
    assert_eq!(h.tasks()[0].created_at, at(5));
    assert_eq!(h.tasks()[0].modified_at, at(5));
    assert_eq!(h.mode(), ViewMode::Task(Action::View));
    assert_eq!(h.input(), "");
    assert_eq!(h.selected(), Some(0));
}

#[test]
fn toggle_twice_restores_completion() {
    let mut h = Hourglass::new();
    add_task(&mut h, "buy milk", at(5));
    assert_eq!(h.handle_input_at(Key::Char('d'), at(6)), Effect::SaveTasks);
    assert!(h.tasks()[0].completed);
    assert_eq!(h.handle_input_at(Key::Char('d'), at(7)), Effect::SaveTasks);
    assert!(!h.tasks()[0].completed);
}

#[test]
fn remove_first_keeps_id_of_second() {
    let mut h = Hourglass::new();
    add_task(&mut h, "one", at(1));
    add_task(&mut h, "two", at(2));
    assert_eq!(h.selected(), Some(0));
    assert_eq!(h.handle_input_at(Key::Char('x'), at(3)), Effect::SaveTasks);
    assert_eq!(h.tasks().len(), 1);
    assert_eq!(h.tasks()[0].id, 2);
    assert_eq!(h.tasks()[0].description, "two");
    assert_eq!(h.selected(), Some(0));
}

#[test]
fn removed_id_is_not_reused() {
    let mut h = Hourglass::new();
    add_task(&mut h, "one", at(1));
    add_task(&mut h, "two", at(2));
    h.handle_input_at(Key::Down, at(3));
    h.handle_input_at(Key::Char('x'), at(3));
    assert_eq!(h.selected(), Some(0));
    add_task(&mut h, "three", at(4));
    let ids: Vec<i32> = h.tasks().iter().map(|t| t.id).collect();
    assert_eq!(ids, vec![1, 3]);
}

#[test]
fn issue_tab_with_empty_cache_and_failed_fetch_is_empty() {
    let mut h = Hourglass::new();
    let e = h.handle_input_at(Key::Char(']'), at(0));
    assert_eq!(e, Effect::FetchIssues);
    assert_eq!(h.mode(), ViewMode::Issues(Action::View));
    assert_eq!(h.tab_index(), 1);
    h.receive_issues(None);
    assert!(h.issues().is_empty());
    assert_eq!(h.selected(), None);
    assert!(h.cached_issues().is_none());
}

#[test]
fn scheduler_fires_after_interval() {
    let mut s = Scheduler::new();
    s.run(JobKind::RefreshIssues, 0).every(30u64.seconds());
    assert!(s.start(0).is_empty());
    assert!(s.start(29_000).is_empty());
    assert_eq!(s.start(31_000), vec![JobKind::RefreshIssues]);
    assert!(s.start(31_500).is_empty());
    assert_eq!(s.start(61_000), vec![JobKind::RefreshIssues]);
}

#[test]
fn scheduler_fires_once_for_many_elapsed_intervals() {
    let mut s = Scheduler::new();
    s.run(JobKind::RefreshIssues, 0).every(1u64.seconds());
    assert_eq!(s.start(10_000), vec![JobKind::RefreshIssues]);
    assert!(s.start(10_999).is_empty());
    assert_eq!(s.start(11_000), vec![JobKind::RefreshIssues]);
}

#[test]
fn scheduler_dormant_job_never_fires() {
    let mut s = Scheduler::new();
    s.run(JobKind::RefreshIssues, 0);
    assert!(s.start(u64::MAX).is_empty());
}

#[test]
fn scheduler_fires_in_registration_order() {
    let mut s = Scheduler::new();
    s.run(JobKind::RefreshIssues, 0).every(2u64.minutes());
    s.run(JobKind::RefreshIssues, 0).every(1u64.hours());
    assert_eq!(s.start(120_000), vec![JobKind::RefreshIssues]);
    assert_eq!(s.start(3_600_000), vec![JobKind::RefreshIssues, JobKind::RefreshIssues]);
}

#[test]
fn time_units_in_millis() {
    assert_eq!(30u64.seconds(), Time::Seconds(30));
    assert_eq!(Time::Seconds(30).millis(), Some(30_000));
    assert_eq!(Time::Minutes(2).millis(), Some(120_000));
    assert_eq!(Time::Hours(1).millis(), Some(3_600_000));
    assert_eq!(Time::Hours(u64::MAX).millis(), None);
}

#[test]
fn cursor_wraps_both_ways() {
    let mut h = Hourglass::new();
    add_task(&mut h, "a", at(1));
    add_task(&mut h, "b", at(1));
    add_task(&mut h, "c", at(1));
    h.handle_input_at(Key::Char('j'), at(1));
    assert_eq!(h.selected(), Some(1));
    for _ in 0..3 {
        h.handle_input_at(Key::Char('j'), at(1));
    }
    assert_eq!(h.selected(), Some(1));
    for _ in 0..3 {
        h.handle_input_at(Key::Up, at(1));
    }
    assert_eq!(h.selected(), Some(1));
    h.handle_input_at(Key::Char('k'), at(1));
    h.handle_input_at(Key::Char('k'), at(1));
    assert_eq!(h.selected(), Some(2));
    h.handle_input_at(Key::Down, at(1));
    assert_eq!(h.selected(), Some(0));
}

#[test]
fn cursor_on_empty_list_stays_unset() {
    let mut h = Hourglass::new();
    h.handle_input_at(Key::Char('j'), at(1));
    assert_eq!(h.selected(), None);
    h.handle_input_at(Key::Char('k'), at(1));
    assert_eq!(h.selected(), None);
    assert_eq!(h.handle_input_at(Key::Char('d'), at(1)), Effect::Nothing);
    assert_eq!(h.handle_input_at(Key::Char('x'), at(1)), Effect::Nothing);
}

#[test]
fn update_seeds_and_commits_description() {
    let mut h = Hourglass::new();
    add_task(&mut h, "milk", at(1));
    h.handle_input_at(Key::Char('u'), at(2));
    assert_eq!(h.mode(), ViewMode::Task(Action::Update));
    assert_eq!(h.input(), "milk");
    h.handle_input_at(Key::Backspace, at(2));
    type_text(&mut h, "k!", at(2));
    assert_eq!(h.handle_input_at(Key::Enter, at(9)), Effect::SaveTasks);
    assert_eq!(h.tasks()[0].description, "milk!");
    assert_eq!(h.tasks()[0].modified_at, at(9));
    assert_eq!(h.tasks()[0].created_at, at(1));
    assert_eq!(h.input(), "");
    assert_eq!(h.mode(), ViewMode::Task(Action::View));
}

#[test]
fn escape_discards_text() {
    let mut h = Hourglass::new();
    h.handle_input_at(Key::Char('a'), at(1));
    type_text(&mut h, "qx]", at(1));
    assert_eq!(h.input(), "qx]");
    assert!(!h.should_quit());
    assert_eq!(h.handle_input_at(Key::Esc, at(1)), Effect::Nothing);
    assert_eq!(h.input(), "");
    assert!(h.tasks().is_empty());
    assert_eq!(h.mode(), ViewMode::Task(Action::View));
}

#[test]
fn backspace_on_empty_text_keeps_it_empty() {
    let mut h = Hourglass::new();
    h.handle_input_at(Key::Char('a'), at(1));
    h.handle_input_at(Key::Backspace, at(1));
    assert_eq!(h.input(), "");
}

#[test]
fn quit_only_in_viewing_mode() {
    let mut h = Hourglass::new();
    h.handle_input_at(Key::Char('q'), at(1));
    assert!(h.should_quit());
    let mut h = Hourglass::new();
    h.handle_input_at(Key::Char(']'), at(1));
    h.handle_input_at(Key::Char('q'), at(1));
    assert!(h.should_quit());
}

#[test]
fn issue_tab_reads_cache_and_switches_back() {
    let mut h = Hourglass::new();
    add_task(&mut h, "a", at(1));
    h.receive_issues(Some(vec![issue(1, "first"), issue(2, "second")]));
    assert_eq!(h.cached_issues().map(|v| v.len()), Some(2));
    assert_eq!(h.handle_input_at(Key::Char('['), at(1)), Effect::Nothing);
    assert_eq!(h.mode(), ViewMode::Issues(Action::View));
    assert_eq!(h.issues().len(), 2);
    assert_eq!(h.selected(), Some(0));
    h.handle_input_at(Key::Char('k'), at(1));
    assert_eq!(h.selected(), Some(1));
    assert_eq!(h.handle_input_at(Key::Char('a'), at(1)), Effect::Nothing);
    assert_eq!(h.mode(), ViewMode::Issues(Action::View));
    assert_eq!(h.handle_input_at(Key::Char(']'), at(1)), Effect::Nothing);
    assert_eq!(h.mode(), ViewMode::Task(Action::View));
    assert_eq!(h.tab_index(), 0);
    assert_eq!(h.selected(), Some(0));
}

#[test]
fn refresh_with_empty_list_leaves_cache_empty() {
    let mut h = Hourglass::new();
    h.receive_issues(Some(vec![issue(1, "first")]));
    assert!(h.cached_issues().is_some());
    h.receive_issues(Some(vec![]));
    assert!(h.cached_issues().is_none());
    h.receive_issues(Some(vec![issue(1, "first")]));
    h.receive_issues(None);
    assert!(h.cached_issues().is_none());
    assert!(h.issues().is_empty());
}

#[test]
fn cache_put_get_invalidate() {
    let mut c = IssueCache::new();
    assert!(c.get().is_none());
    c.put(vec![issue(3, "three")]);
    let got = c.get().unwrap();
    assert_eq!(got.len(), 1);
    assert_eq!(got[0].number, 3);
    assert_eq!(got[0].title, "three");
    assert_eq!(got[0].user.login, "alice");
    c.invalidate();
    assert!(c.get().is_none());
}

#[test]
fn failed_refresh_leaves_no_stale_data() {
    let mut c = IssueCache::new();
    c.put(vec![issue(3, "three")]);
    let shown = update_issues_cache(&mut c, None);
    assert!(shown.is_empty());
    assert!(c.get().is_none());
    let shown = update_issues_cache(&mut c, Some(vec![issue(4, "four")]));
    assert_eq!(shown.len(), 1);
    assert_eq!(c.get().unwrap()[0].number, 4);
}

#[test]
fn store_errors() {
    let mut s = TaskStore::new();
    assert_eq!(s.update_at(0, "x".to_string(), at(1)), Err(StoreError::NotFound));
    assert_eq!(s.remove(0), Err(StoreError::NotFound));
    s.toggle(3);
    assert_eq!(s.len(), 0);
    assert!(matches!(
        TaskStore::from_tasks(vec![task(4, "a"), task(4, "b")]),
        Err(StoreError::DuplicateId)
    ));
    let mut full = TaskStore::from_tasks(vec![task(i32::MAX, "last")]).unwrap();
    assert!(matches!(full.add_at("more".to_string(), at(1)), Err(StoreError::IdsExhausted)));
    assert_eq!(full.len(), 1);
}

#[test]
fn loaded_store_continues_after_largest_id() {
    let mut s = TaskStore::from_tasks(vec![task(3, "a"), task(9, "b"), task(5, "c")]).unwrap();
    let t = s.add_at("d".to_string(), at(1)).unwrap();
    assert_eq!(t.id, 10);
    let t = s.add("e".to_string()).unwrap();
    assert_eq!(t.id, 11);
    assert_eq!(s.tasks()[4].description, "e");
}

#[test]
fn load_tasks_selects_first() {
    let mut h = Hourglass::new();
    assert_eq!(h.load_tasks(vec![task(2, "a"), task(7, "b")]), Ok(()));
    assert_eq!(h.selected(), Some(0));
    add_task(&mut h, "c", at(1));
    assert_eq!(h.tasks()[2].id, 8);
    assert_eq!(h.load_tasks(vec![task(1, "a"), task(1, "b")]), Err(StoreError::DuplicateId));
    assert_eq!(h.tasks().len(), 3);
}

#[test]
fn handle_input_stamps_current_time() {
    let mut h = Hourglass::new();
    h.handle_input(Key::Char('a'));
    h.handle_input(Key::Char('z'));
    assert_eq!(h.handle_input(Key::Enter), Effect::SaveTasks);
    assert_eq!(h.tasks()[0].description, "z");
    assert!(h.tasks()[0].created_at.secs > 1_600_000_000);
}

#[test]
fn lines_split_on_newline() {
    let lines = get_lines("a\nb c\n");
    assert_eq!(lines, vec!["a".to_string(), "b c".to_string(), "".to_string()]);
    assert_eq!(get_lines(""), vec!["".to_string()]);
}

#[test]
fn git_url_path_gives_owner_and_name() {
    let c = parse_git_url("/octo/hello.git").unwrap();
    assert_eq!(c.owner, "octo");
    assert_eq!(c.name, "hello");
    let c = parse_git_url("/octo/hello.git.git").unwrap();
    assert_eq!(c.name, "hello");
    let c = parse_git_url("/octo/plain").unwrap();
    assert_eq!(c.name, "plain");
    assert!(parse_git_url("/only").is_none());
    assert_eq!(c.issues_url(), "https://api.github.com/repos/octo/plain/issues");
}

#[test]
fn remotes_output_gives_repository() {
    let out = "origin\thttps://github.com/octo/hello.git (fetch)\norigin\thttps://github.com/octo/hello.git (push)\n";
    let c = repo_from_remotes(out).unwrap();
    assert_eq!(c.owner, "octo");
    assert_eq!(c.name, "hello");
    assert!(repo_from_remotes("").is_none());
    assert!(repo_from_remotes("fatal: not a git repository\n").is_none());
    assert!(repo_from_remotes("origin nothing here\n").is_none());
    assert!(repo_from_remotes("origin\tnot a url (fetch)\n").is_none());
}

#[test]
fn cursor_position_counts_columns() {
    assert_eq!(get_cursor_position(""), 0);
    assert_eq!(get_cursor_position("abc"), 3);
    assert_eq!(get_cursor_position("日本"), 4);
    assert_eq!(get_cursor_position("e\u{301}x"), 2);
}

#[test]
fn age_labels() {
    assert_eq!(format_time(at(0), at(59)), "59s");
    assert_eq!(format_time(at(0), at(60)), "1min");
    assert_eq!(format_time(at(0), at(7_200)), "2h");
    assert_eq!(format_time(at(0), at(3 * 86_400)), "3d");
    assert_eq!(format_time(at(0), at(14 * 86_400)), "2w");
    assert_eq!(format_time(at(0), at(60 * 86_400)), "2y");
    assert_eq!(format_time(at(0), at(2 * 31_536_000)), "2y");
    assert_eq!(format_time(at(10), at(5)), "-5s");
    assert_eq!(
        format_time(Timestamp { secs: 0, nanos: 500 }, Timestamp { secs: 0, nanos: 100 }),
        "0s"
    );
    assert_eq!(
        format_time(Timestamp { secs: 0, nanos: 900_000_000 }, Timestamp { secs: 1, nanos: 100_000_000 }),
        "0s"
    );
}

#[test]
fn tick_budget_waits_for_the_rest_of_the_tick() {
    let mut b = TickBudget::new(1_000, 250);
    assert_eq!(b.poll_timeout(1_000), 250);
    assert_eq!(b.poll_timeout(1_100), 150);
    assert_eq!(b.poll_timeout(1_300), 0);
    b.end_iteration(1_200);
    assert_eq!(b.last_tick, 1_000);
    b.end_iteration(1_260);
    assert_eq!(b.last_tick, 1_260);
    assert_eq!(b.poll_timeout(1_260), 250);
    assert_eq!(b.poll_timeout(0), 250);
}

#[test]
fn invalidating_before_a_failed_fetch_leaves_no_data() {
    let mut h = Hourglass::new();
    h.receive_issues(Some(vec![issue(1, "first")]));
    h.invalidate_issues();
    assert!(h.cached_issues().is_none());
    assert_eq!(h.issues().len(), 1);
    h.receive_issues(None);
    assert!(h.cached_issues().is_none());
    assert!(h.issues().is_empty());
}
