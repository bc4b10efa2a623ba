use toduitl::journal::Journal;
use toduitl::record::{Reminder, Task, TaskError};
use toduitl::stamp::Stamp;
use toduitl::store::{Op, Store};
use toduitl::task::{get_task_path_old, get_taskfolder, Folders};
use toduitl::task_list::{first_link_of, pointer_task_name, remove_from_lists, TaskList};

fn stamp(year: i32, month: u32, day: u32, hour: u32, minute: u32, second: u32) -> Stamp {
    Stamp { year, month, day, hour, minute, second }
}

fn folders() -> Folders {
    Folders::for_day("Projects", "Journal", "Review", stamp(2024, 3, 5, 9, 0, 0))
}

fn pay_rent() -> Task {
    Task::with_identity("Pay rent", "Bills", &2024, "Projects", "id-1", stamp(2024, 3, 5, 14, 7, 9))
}

const PAY_RENT_HEADER: &str = "id: \"id-1\"\ntask_name: \"Pay rent\"\nproject: \"Bills\"\npath: \"Projects/2024/Bills/Pay rent.md\"\ncreated: \"2024-03-05 14:07:09\"\nupdated: \"2024-03-05 14:07:09\"\nexclude_from_journal: ~\nexclude_from_logging: false\nremind: ~\n";

fn store_with_lists() -> Store {
    let mut s = Store::new();
    s.load_dir("Today");
    s.load_dir("Queued");
    s.load_dir("Waiting");
    s
}

#[test]
fn create_task_writes_new_file() {
    let task = Task::new("Pay rent", "Bills", &2024, "Projects");
    assert_eq!(task.path, "Projects/2024/Bills/Pay rent.md");
    let mut store = Store::new();
    task.add(&mut store, "");
    let text = store.read("Projects/2024/Bills/new/Pay rent.md").expect("file in new/");
    let back = Task::decode(&text, Stamp::now()).unwrap();
    assert!(!back.id.is_empty());
    assert_eq!(back.id, task.id);
    assert_eq!(back.created, task.created);
    assert!(!store.has("Projects/2024/Bills/Pay rent.md"));
}

#[test]
fn new_tasks_get_distinct_ids() {
    let a = Task::new("A", "P", &2024, "Projects");
    let b = Task::new("B", "P", &2024, "Projects");
    assert_eq!(a.id.len(), 36);
    assert_ne!(a.id, b.id);
    assert!(Stamp::now().month >= 1);
}

#[test]
fn creation_file_is_exact() {
    let task = pay_rent();
    let mut store = Store::new();
    task.add(&mut store, "https://example.com");
    let text = store.read("Projects/2024/Bills/new/Pay rent.md").unwrap();
    let expected = format!(
        "---\n{}---\n##### 03/05/2024 02:07 PM \nTask Created\n\n\n\n[link](https://example.com)",
        PAY_RENT_HEADER
    );
    assert_eq!(text, expected);
    assert!(store.dir_exists("Projects/2024/Bills/new"));
    assert!(store.dir_exists("Projects/2024"));
    assert!(matches!(&store.log()[0], Op::CreateDir(p) if p == "Projects/2024/Bills/new"));
}

#[test]
fn header_round_trip() {
    let mut task = pay_rent();
    task.exclude_from_journal = Some(true);
    task.project = "Say \"hi\" \\ now\nplease".to_string();
    task.remind = Some(Reminder::new("3", "5", "2024", "10:00", &15));
    let text = task.file_text("\nbody --- with dashes\n---\nmore");
    let back = Task::decode(&text, stamp(2030, 1, 1, 0, 0, 0)).unwrap();
    assert_eq!(back.id, task.id);
    assert_eq!(back.task_name, task.task_name);
    assert_eq!(back.project, task.project);
    assert_eq!(back.path, task.path);
    assert_eq!(back.created, task.created);
    assert_eq!(back.updated, task.updated);
    assert_eq!(back.exclude_from_journal, Some(true));
    assert_eq!(back.exclude_from_logging, Some(false));
    let r = back.remind.unwrap();
    assert_eq!((r.month.as_str(), r.day.as_str(), r.year.as_str(), r.time.as_str(), r.notice), ("3", "5", "2024", "10:00", 15));
}

#[test]
fn negative_and_long_years_round_trip() {
    let mut task = pay_rent();
    task.created = stamp(-44, 3, 15, 23, 59, 58);
    task.updated = stamp(123456, 12, 31, 0, 0, 0);
    let back = Task::decode(&task.file_text(""), stamp(2024, 1, 1, 0, 0, 0)).unwrap();
    assert_eq!(back.created, task.created);
    assert_eq!(back.updated, task.updated);
}

#[test]
fn resave_changes_only_updated() {
    let task = pay_rent();
    let mut store = Store::new();
    task.add(&mut store, "");
    let before = store.read("Projects/2024/Bills/new/Pay rent.md").unwrap();
    let later = stamp(2024, 4, 1, 8, 30, 0);
    pay_rent().save(&mut store, later).unwrap();
    let after = store.read("Projects/2024/Bills/new/Pay rent.md").unwrap();
    let body_before = &before[before.rfind("\n---").unwrap()..];
    let body_after = &after[after.rfind("\n---").unwrap()..];
    assert_eq!(body_before, body_after);
    let back = Task::decode(&after, later).unwrap();
    assert_eq!(back.updated, later);
    assert_eq!(back.created, task.created);
    assert_eq!(back.id, "id-1");
}

#[test]
fn save_fills_placeholder_id() {
    let mut task = pay_rent();
    let mut store = Store::new();
    task.add(&mut store, "");
    task.id = "~".to_string();
    task.save_with(&mut store, "fresh-id", stamp(2024, 4, 1, 0, 0, 0)).unwrap();
    let back = Task::get(&store, "Projects/2024/Bills/new/Pay rent.md", stamp(2024, 4, 1, 0, 0, 0)).unwrap();
    assert_eq!(back.id, "fresh-id");
}

#[test]
fn save_of_missing_file_is_not_found() {
    let mut store = Store::new();
    assert_eq!(pay_rent().save(&mut store, stamp(2024, 1, 1, 0, 0, 0)), Err(TaskError::NotFound));
}

#[test]
fn load_without_id_or_updated() {
    let text = "---\ntask_name: Legacy task\nproject: Home\npath: Projects/2023/Home/Legacy task.md\ncreated: \"2023-02-01 10:00:00\"\nexclude_from_journal: ~\nexclude_from_logging: ~\nremind: ~\n \n---\n##### body\n";
    let today = stamp(2024, 6, 7, 15, 16, 17);
    let t = Task::decode(text, today).unwrap();
    assert_eq!(t.id, "");
    assert_eq!(t.updated, stamp(2024, 6, 7, 0, 0, 0));
    assert_eq!(t.task_name, "Legacy task");
    assert_eq!(t.created, stamp(2023, 2, 1, 10, 0, 0));
    assert_eq!(t.exclude_from_logging, None);
}

#[test]
fn load_errors() {
    let mut store = Store::new();
    assert_eq!(Task::get(&store, "nowhere.md", stamp(2024, 1, 1, 0, 0, 0)).unwrap_err(), TaskError::NotFound);
    store.load_file("broken.md", "no header at all");
    assert_eq!(Task::get(&store, "broken.md", stamp(2024, 1, 1, 0, 0, 0)).unwrap_err(), TaskError::Parse);
    store.load_file("bad_flag.md", "---\ntask_name: a\nproject: b\npath: c\ncreated: \"2024-01-01 00:00:00\"\nexclude_from_journal: maybe\n---\n");
    assert_eq!(Task::get(&store, "bad_flag.md", stamp(2024, 1, 1, 0, 0, 0)).unwrap_err(), TaskError::Parse);
    store.load_file("no_name.md", "---\nproject: b\npath: c\ncreated: \"2024-01-01 00:00:00\"\n---\n");
    assert_eq!(Task::get(&store, "no_name.md", stamp(2024, 1, 1, 0, 0, 0)).unwrap_err(), TaskError::Parse);
}

#[test]
fn promote_twice_leaves_one_active_file() {
    let task = pay_rent();
    let mut store = Store::new();
    task.add(&mut store, "");
    task.change_task_folder(&mut store).unwrap();
    task.change_task_folder(&mut store).unwrap();
    assert!(store.has("Projects/2024/Bills/Pay rent.md"));
    assert!(!store.has("Projects/2024/Bills/new/Pay rent.md"));
    assert_eq!(store.len(), 1);
    task.move_to_new_folder(&mut store);
    assert!(store.has("Projects/2024/Bills/new/Pay rent.md"));
    assert!(!store.has("Projects/2024/Bills/Pay rent.md"));
}

#[test]
fn is_excluded_flags() {
    let mut t = pay_rent();
    assert!(!t.is_excluded());
    t.exclude_from_logging = None;
    assert!(!t.is_excluded());
    t.exclude_from_journal = Some(true);
    assert!(t.is_excluded());
    t.exclude_from_journal = Some(false);
    t.exclude_from_logging = Some(true);
    assert!(t.is_excluded());
}

#[test]
fn add_to_today_list() {
    let task = pay_rent();
    let mut store = store_with_lists();
    task.add(&mut store, "");
    let now = stamp(2024, 3, 5, 9, 0, 0);
    TaskList::get("Today").add(&mut store, &task, &folders(), now).unwrap();
    assert_eq!(store.read("Today/Pay rent.md").unwrap(), "[Pay rent](../Projects/2024/Bills/Pay rent.md)");
    assert!(store.has("Projects/2024/Bills/Pay rent.md"));
    assert!(!store.has("Projects/2024/Bills/new/Pay rent.md"));
    let journal = store.read("Journal/2024/03 - March/03-05-2024 Journal.md").unwrap();
    assert_eq!(
        journal,
        "# 03/05/2024 Current \n\n## Journal\n\n* [Pay rent](../../../Projects/2024/Bills/Pay rent.md)\n"
    );
}

#[test]
fn list_add_is_exclusive() {
    let task = pay_rent();
    let mut store = store_with_lists();
    task.add(&mut store, "");
    let now = stamp(2024, 3, 5, 9, 0, 0);
    TaskList::get("Queued").add(&mut store, &task, &folders(), now).unwrap();
    assert!(store.has("Queued/Pay rent.md"));
    TaskList::get("Waiting").add(&mut store, &task, &folders(), now).unwrap();
    assert!(store.has("Waiting/Pay rent.md"));
    assert!(!store.has("Queued/Pay rent.md"));
    assert!(!store.has("Today/Pay rent.md"));
}

#[test]
fn list_without_folder_is_noop() {
    let task = pay_rent();
    let mut store = Store::new();
    task.add(&mut store, "");
    let n = store.log().len();
    TaskList::get("Someday").add(&mut store, &task, &folders(), stamp(2024, 3, 5, 9, 0, 0)).unwrap();
    assert_eq!(store.log().len(), n);
    assert!(store.has("Projects/2024/Bills/new/Pay rent.md"));
}

#[test]
fn remove_from_lists_keeps_excluded_list() {
    let mut store = store_with_lists();
    store.load_file("Queued/X.md", "[X](../Projects/2024/P/X.md)");
    store.load_file("Today/X.md", "[X](../Projects/2024/P/X.md)");
    remove_from_lists(&mut store, "X", "Today");
    assert!(!store.has("Queued/X.md"));
    assert!(store.has("Today/X.md"));
}

#[test]
fn year_turnover_moves_new_tasks() {
    let mut store = Store::new();
    let fresh = Task::with_identity("Fresh", "Bills", &2024, "Projects", "id-f", stamp(2024, 1, 2, 3, 4, 5));
    let done = Task::with_identity("Done", "Bills", &2024, "Projects", "id-d", stamp(2024, 1, 2, 3, 4, 5));
    fresh.add(&mut store, "");
    done.add(&mut store, "");
    done.change_task_folder(&mut store).unwrap();
    let done_text = store.read("Projects/2024/Bills/Done.md").unwrap();
    let now = stamp(2025, 1, 1, 0, 0, 0);
    Task::year_turnover(&mut store, "Projects", "2024", "2025", now).unwrap();
    assert!(!store.has("Projects/2024/Bills/new/Fresh.md"));
    let moved = Task::get(&store, "Projects/2025/Bills/new/Fresh.md", now).unwrap();
    assert_eq!(moved.path, "Projects/2025/Bills/Fresh.md");
    assert_eq!(moved.id, "id-f");
    assert_eq!(store.read("Projects/2024/Bills/Done.md").unwrap(), done_text);
}

#[test]
fn resolve_by_id_or_name() {
    let mut store = Store::new();
    let task = pay_rent();
    task.add(&mut store, "");
    let f = folders();
    let today = stamp(2024, 3, 5, 0, 0, 0);
    let by_name = Task::get_by_id_or_name(&store, "Pay rent", false, "", &f, today).unwrap();
    assert_eq!(by_name.id, "id-1");
    let by_id = Task::get_by_id_or_name(&store, "id-1", true, "Bills", &f, today).unwrap();
    assert_eq!(by_id.task_name, "Pay rent");
    task.change_task_folder(&mut store).unwrap();
    assert_eq!(Task::get_by_id_or_name(&store, "id-1", true, "", &f, today).unwrap_err(), TaskError::NotFound);
}

#[test]
fn resolve_missing_name_not_found() {
    let mut store = Store::new();
    pay_rent().add(&mut store, "");
    let r = Task::get_by_id_or_name(&store, "Buy milk", false, "Bills", &folders(), stamp(2024, 3, 5, 0, 0, 0));
    assert_eq!(r.unwrap_err(), TaskError::NotFound);
}

#[test]
fn get_all_skips_unreadable() {
    let mut store = Store::new();
    pay_rent().add(&mut store, "");
    store.clear_log();
    store.load_file("Projects/2024/Bills/new/Broken.md", "junk");
    store.load_file("Projects/2024/Bills/notes.txt", "not a task");
    let all = Task::get_all(&store, true, "", &folders(), stamp(2024, 3, 5, 0, 0, 0));
    assert_eq!(all.len(), 1);
    assert_eq!(all[0].task_name, "Pay rent");
}

#[test]
fn list_tasks_follow_pointers() {
    let mut store = store_with_lists();
    let task = pay_rent();
    task.add(&mut store, "");
    let f = folders();
    TaskList::get("Queued").add(&mut store, &task, &f, stamp(2024, 3, 5, 9, 0, 0)).unwrap();
    let tasks = TaskList::get("Queued").get_tasks(&store, &f, stamp(2024, 3, 5, 0, 0, 0)).unwrap();
    assert_eq!(tasks.len(), 1);
    assert_eq!(tasks[0].id, "id-1");
    store.clear_log();
    store.load_file("Queued/Ghost.md", "[Ghost](../Projects/2024/Bills/Ghost.md)");
    let r = TaskList::get("Queued").get_tasks(&store, &f, stamp(2024, 3, 5, 0, 0, 0));
    assert_eq!(r.unwrap_err(), TaskError::NotFound);
}

#[test]
fn comment_goes_between_header_and_body() {
    let task = pay_rent();
    let mut store = Store::new();
    task.add(&mut store, "");
    task.add_comment(&mut store, "Called landlord", true, stamp(2024, 3, 6, 0, 5, 0)).unwrap();
    let text = store.read("Projects/2024/Bills/new/Pay rent.md").unwrap();
    let expected = format!(
        "---\n{}---\n##### 03/06/2024 12:05 AM \nCalled landlord\n\n##### 03/05/2024 02:07 PM \nTask Created\n\n",
        PAY_RENT_HEADER
    );
    assert_eq!(text, expected);
    assert_eq!(task.add_comment(&mut store, "x", false, stamp(2024, 3, 6, 0, 5, 0)), Err(TaskError::NotFound));
    let mut quiet = pay_rent();
    quiet.exclude_from_logging = Some(true);
    assert_eq!(quiet.add_comment(&mut store, "x", false, stamp(2024, 3, 6, 0, 5, 0)), Ok(()));
}

#[test]
fn finish_comments_and_unlists() {
    let task = pay_rent();
    let mut store = store_with_lists();
    task.add(&mut store, "");
    let f = folders();
    TaskList::get("Queued").add(&mut store, &task, &f, stamp(2024, 3, 5, 9, 0, 0)).unwrap();
    task.finish(&mut store, "Paid", stamp(2024, 3, 7, 12, 0, 0)).unwrap();
    assert!(!store.has("Queued/Pay rent.md"));
    let text = store.read("Projects/2024/Bills/Pay rent.md").unwrap();
    assert!(text.contains("##### 03/07/2024 12:00 PM \nPaid\n\n"));
}

#[test]
fn change_project_moves_file() {
    let task = pay_rent();
    let mut store = Store::new();
    task.add(&mut store, "");
    task.change_project(&mut store, "Home", stamp(2024, 3, 8, 0, 0, 0)).unwrap();
    assert!(!store.has("Projects/2024/Bills/new/Pay rent.md"));
    let moved = Task::get(&store, "Projects/2024/Home/new/Pay rent.md", stamp(2024, 3, 8, 0, 0, 0)).unwrap();
    assert_eq!(moved.project, "Home");
    assert_eq!(moved.path, "Projects/2024/Home/Pay rent.md");
    assert!(store.read("Projects/2024/Home/new/Pay rent.md").unwrap().contains("Project changed to Home"));
    let missing = Task::with_identity("Gone", "Bills", &2024, "Projects", "g", stamp(2024, 1, 1, 0, 0, 0));
    assert_eq!(missing.change_project(&mut store, "Home", stamp(2024, 3, 8, 0, 0, 0)), Err(TaskError::NotFound));
}

#[test]
fn journal_create_is_idempotent() {
    let mut store = Store::new();
    let j = Journal::new("Journal", "My Thoughts Today", "Journal/2024/03 - March", stamp(2024, 3, 5, 7, 0, 0));
    assert_eq!(j.journal_path, "Journal/2024/03 - March/03-05-2024 Journal.md");
    assert!(j.create(&mut store));
    assert!(!j.create(&mut store));
    j.add_link_to_journal(&mut store, "Site", "https://example.com");
    let mut hidden = pay_rent();
    hidden.exclude_from_journal = Some(true);
    j.add_tasks_to_journal(&mut store, vec![pay_rent(), hidden]);
    assert_eq!(
        store.read(&j.journal_path).unwrap(),
        "# 03/05/2024 Journal \n\n## My Thoughts Today\n\n* [Site](https://example.com)\n## Tasks \n* [Pay rent](../../../Projects/2024/Bills/Pay rent.md)\n"
    );
}

#[test]
fn review_groups_by_project() {
    let mut store = Store::new();
    let a = Task::with_identity("A", "Bills", &2024, "Projects", "1", stamp(2024, 1, 1, 0, 0, 0));
    let b = Task::with_identity("B", "Bills", &2024, "Projects", "2", stamp(2024, 1, 1, 0, 0, 0));
    let c = Task::with_identity("C", "Home", &2024, "Projects", "3", stamp(2024, 1, 1, 0, 0, 0));
    Task::create_review(&mut store, vec![a, b, c], "Review/2024/03 - March", stamp(2024, 3, 5, 0, 0, 0));
    assert_eq!(
        store.read("Review/2024/03 - March/03-05-2024 Review.md").unwrap(),
        "# 03/05/2024 Review \n\n## Tasks \n\n#### Bills \n* [A](../../../Projects/2024/Bills/new/A.md) \n* [B](../../../Projects/2024/Bills/new/B.md) \n\n#### Home \n* [C](../../../Projects/2024/Home/new/C.md) \n"
    );
}

#[test]
fn reminder_entries() {
    let r = Reminder::new("03", "5", "2024", "10:00", &15);
    assert_eq!(
        r.create("Pay rent"),
        "REM 5 March 2024 AT 10:00 -15 MSG %\"Pay rent%\" [t()] \nREM 5 March 2024 AT 10:00 -15 RUN (toduit add \"Pay rent\" Today) & \n"
    );
    let blank = Reminder::new("", "", "", "", &0);
    assert_eq!(blank.create("X"), "REM      MSG %\"X%\" [t()] \nREM      RUN (toduit add \"X\" Today) & \n");
}

#[test]
fn set_reminder_saves_it() {
    let task = pay_rent();
    let mut store = Store::new();
    task.add(&mut store, "");
    task.set_reminder(&mut store, "12", "24", "2024", "", &0, stamp(2024, 3, 9, 0, 0, 0)).unwrap();
    let back = Task::get(&store, "Projects/2024/Bills/new/Pay rent.md", stamp(2024, 3, 9, 0, 0, 0)).unwrap();
    let r = back.remind.unwrap();
    assert_eq!((r.month.as_str(), r.day.as_str(), r.year.as_str()), ("12", "24", "2024"));
}

#[test]
fn month_names_and_folders() {
    let odd = Reminder::new("13", "1", "", "", &0);
    assert_eq!(odd.create("X"), "REM 1     MSG %\"X%\" [t()] \nREM 1     RUN (toduit add \"X\" Today) & \n");
    let dec = Folders::for_day("P", "J", "R", stamp(2024, 12, 1, 0, 0, 0));
    assert_eq!(dec.journal_folder, "J/2024/12 - December");
    let f = Folders::for_day("Projects", "Journal", "Review", stamp(2026, 10, 18, 0, 0, 0));
    assert_eq!(f.project_folder, "Projects/2026");
    assert_eq!(f.journal_folder, "Journal/2026/10 - October");
    assert_eq!(f.review_folder, "Review/2026/10 - October");
}

#[test]
fn store_log_records_changes_in_order() {
    let mut store = Store::new();
    store.write("a.md", "1");
    store.rename("a.md", "b.md");
    store.append("b.md", "2");
    store.remove("b.md");
    store.remove("b.md");
    let log = store.log();
    assert_eq!(log.len(), 4);
    assert!(matches!(&log[1], Op::Rename(a, b) if a == "a.md" && b == "b.md"));
    assert!(matches!(&log[2], Op::Write(p, c) if p == "b.md" && c == "12"));
    assert!(matches!(&log[3], Op::Remove(p) if p == "b.md"));
    assert_eq!(store.len(), 0);
}

#[test]
fn task_folder_helpers() {
    let mut store = Store::new();
    assert_eq!(get_taskfolder(&mut store, "Projects/2024", "Bills", true), "Projects/2024/Bills/new");
    assert!(store.dir_exists("Projects/2024/Bills/new"));
    assert_eq!(get_taskfolder(&mut store, "Projects/2024", "Bills", false), "Projects/2024/Bills/");
    assert_eq!(get_task_path_old(&store, "Pay rent", "Bills", "Projects/2024"), "Projects/2024/Bills/Pay rent.md");
    pay_rent().add(&mut store, "");
    assert_eq!(get_task_path_old(&store, "Pay rent", "Bills", "Projects/2024"), "Projects/2024/Bills/new/Pay rent.md");
}

#[test]
fn review_links_change_only_the_project_folder() {
    let mut store = Store::new();
    let t = Task::with_identity("a", "a", &2024, "a", "1", stamp(2024, 1, 1, 0, 0, 0));
    assert_eq!(t.path, "a/2024/a/a.md");
    Task::create_review(&mut store, vec![t], "R", stamp(2024, 3, 5, 0, 0, 0));
    assert_eq!(
        store.read("R/03-05-2024 Review.md").unwrap(),
        "# 03/05/2024 Review \n\n## Tasks \n\n#### a \n* [a](../../../a/2024/a/new/a.md) \n"
    );
}

#[test]
fn turnover_keeps_a_name_that_holds_the_year() {
    let mut store = Store::new();
    let t = Task::with_identity("2024 taxes", "Bills", &2024, "Projects", "id-t", stamp(2024, 1, 2, 3, 4, 5));
    t.add(&mut store, "");
    let body_before = {
        let text = store.read("Projects/2024/Bills/new/2024 taxes.md").unwrap();
        text[text.find("\n---").unwrap()..].to_string()
    };
    let now = stamp(2025, 1, 1, 0, 0, 0);
    Task::year_turnover(&mut store, "Projects", "2024", "2025", now).unwrap();
    let text = store.read("Projects/2025/Bills/new/2024 taxes.md").expect("moved under 2025");
    let moved = Task::decode(&text, now).unwrap();
    assert_eq!(moved.task_name, "2024 taxes");
    assert_eq!(moved.path, "Projects/2025/Bills/2024 taxes.md");
    assert_eq!(moved.id, "id-t");
    assert_eq!(moved.created, t.created);
    assert_eq!(&text[text.find("\n---").unwrap()..], body_before);
    assert!(!store.has("Projects/2024/Bills/new/2024 taxes.md"));
    assert!(store.dir_exists("Projects/2025/Bills/new"));
}

#[test]
fn change_project_of_task_named_like_its_project() {
    let mut store = Store::new();
    let t = Task::with_identity("Bills", "Bills", &2024, "Projects", "id-b", stamp(2024, 1, 2, 3, 4, 5));
    t.add(&mut store, "");
    let now = stamp(2024, 3, 8, 10, 0, 0);
    t.change_project(&mut store, "Home", now).unwrap();
    assert!(!store.has("Projects/2024/Bills/new/Bills.md"));
    let text = store.read("Projects/2024/Home/new/Bills.md").expect("moved to Home");
    let moved = Task::decode(&text, now).unwrap();
    assert_eq!(moved.project, "Home");
    assert_eq!(moved.task_name, "Bills");
    assert_eq!(moved.id, "id-b");
    assert_eq!(moved.path, "Projects/2024/Home/Bills.md");
    let body = &text[text.find("\n---").unwrap() + 4..];
    assert!(body.starts_with("\n##### 03/08/2024 10:00 AM \nProject changed to Home\n\n##### "));
}

#[test]
fn change_project_named_like_the_year() {
    let mut store = Store::new();
    let t = Task::with_identity("x", "2024", &2024, "Projects", "id-x", stamp(2024, 1, 2, 3, 4, 5));
    t.add(&mut store, "");
    t.change_project(&mut store, "Home", stamp(2024, 3, 8, 0, 0, 0)).unwrap();
    let moved = Task::get(&store, "Projects/2024/Home/new/x.md", stamp(2024, 3, 8, 0, 0, 0)).unwrap();
    assert_eq!(moved.path, "Projects/2024/Home/x.md");
}

#[test]
fn failed_operations_leave_no_trace() {
    let mut store = Store::new();
    let t = pay_rent();
    t.change_task_folder(&mut store).unwrap();
    assert_eq!(t.clone().save(&mut store, stamp(2024, 1, 1, 0, 0, 0)), Err(TaskError::NotFound));
    assert_eq!(t.change_project(&mut store, "Home", stamp(2024, 1, 1, 0, 0, 0)), Err(TaskError::NotFound));
    assert_eq!(store.log().len(), 0);
    assert!(!store.dir_exists("Projects/2024/Home/new"));
}

#[test]
fn pointer_without_link_fails_the_list() {
    let mut store = store_with_lists();
    store.load_file("Queued/Empty.md", "no link here");
    let r = TaskList::get("Queued").get_tasks(&store, &folders(), stamp(2024, 3, 5, 0, 0, 0));
    assert_eq!(r.unwrap_err(), TaskError::Parse);
}

#[test]
fn pointer_steps() {
    assert_eq!(pointer_task_name("../Projects/2024/Bills/Pay%20rent.md"), "Pay rent");
    assert_eq!(pointer_task_name("Plain.md"), "Plain");
    let evs = vec![None, Some("a/b.md".to_string()), Some("c.md".to_string())];
    assert_eq!(first_link_of(&evs), Some("a/b.md".to_string()));
    assert_eq!(first_link_of(&vec![None, None]), None);
}
