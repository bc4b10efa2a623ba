//! Lists: a list is a folder of pointer files, one per task, each holding a
//! single link back to the task's file. A task is on at most one of the
//! mutually exclusive lists.
use vstd::prelude::*;
use vstd::slice::slice_subrange;
use crate::journal::{append_files, task_line, Journal};
use crate::record::{Record, Task, TaskError};
use crate::stamp::Stamp;
use crate::store::{extends, has_file, remove_files, write_files, Files, Store};
use crate::task::{
    is_excluded, last_slash, promote_files, resolve_in, scope_prefix, views, Folders,
};
use crate::text::{
    chars_of, ends_with, ends_with_exec, push_str, replace_all, replace_exec,
    starts_with, starts_with_exec, string_of,
};

verus! {

/// A named list and its folder.
pub struct TaskList {
    pub name: String,
    pub path: String,
}

/// The lists that a task can be on only one of at a time.
pub open spec fn exclusive_lists() -> Seq<Seq<char>> {
    seq!["Queued"@, "Today"@, "Waiting"@]
}

/// The pointer file of task `name` in the list folder `list`.
pub open spec fn pointer_path(list: Seq<char>, name: Seq<char>) -> Seq<char> {
    list + "/"@ + name + ".md"@
}

/// What a pointer file holds: a link to the task's file.
pub open spec fn pointer_text(r: Record) -> Seq<char> {
    "["@ + r.task_name + "](../"@ + r.path + ")"@
}

pub open spec fn unlist_one(fs: Files, list: Seq<char>, name: Seq<char>, excluded: Seq<char>) -> Files {
    if list != excluded {
        remove_files(fs, pointer_path(list, name))
    } else {
        fs
    }
}

/// The files after taking task `name` off every exclusive list but `excluded`.
pub open spec fn unlist_files(fs: Files, name: Seq<char>, excluded: Seq<char>) -> Files {
    unlist_one(
        unlist_one(unlist_one(fs, "Queued"@, name, excluded), "Today"@, name, excluded),
        "Waiting"@,
        name,
        excluded,
    )
}

/// Relies on `pulldown_cmark::Parser` without extensions: for each event in
/// document order, the destination when it starts a link, else nothing. The
/// events depend on the text alone.
pub uninterp spec fn link_events_of(text: Seq<char>) -> Seq<Option<Seq<char>>>;

/// Relies on `pulldown_cmark::Parser::new_ext` with no options: one entry per
/// event, the destination of each link start.
#[verifier::external_body]
fn link_events(text: &str) -> (r: Vec<Option<String>>)
    ensures
        r@.map_values(|o: Option<String>| opt_text(o)) == link_events_of(text@),
{
    pulldown_cmark::Parser::new_ext(text, pulldown_cmark::Options::empty()).map(|e| match e {
        pulldown_cmark::Event::Start(pulldown_cmark::Tag::Link(_, dest, _)) => Some(dest.to_string()),
        _ => None,
    }).collect()
}

pub open spec fn opt_text(o: Option<String>) -> Option<Seq<char>> {
    match o {
        Some(s) => Some(s@),
        None => None,
    }
}

/// The first link destination among the events.
pub open spec fn first_link(evs: Seq<Option<Seq<char>>>) -> Option<Seq<char>>
    decreases evs.len(),
{
    if evs.len() == 0 {
        None
    } else if evs[0] is Some {
        evs[0]
    } else {
        first_link(evs.skip(1))
    }
}

/// The task name a link destination points at: its last path segment with
/// encoded spaces decoded and `.md` taken out.
pub open spec fn pointer_name(dest: Seq<char>) -> Seq<char> {
    replace_all(replace_all(dest.skip(last_slash(dest) + 1), "%20"@, " "@), ".md"@, seq![])
}

/// The first link of a pointer file; spaces are encoded first, as the link
/// parser does not take them in a destination.
pub open spec fn pointer_link(text: Seq<char>) -> Option<Seq<char>> {
    first_link(link_events_of(replace_all(text, " "@, "%20"@)))
}

/// A pointer file of the list folder `list`.
pub open spec fn is_pointer(p: Seq<char>, list: Seq<char>) -> bool {
    starts_with(p, list + "/"@) && ends_with(p, ".md"@)
}

/// For each pointer file of the list, in walk order, the name of the task
/// it points at; `None` for a pointer file that holds no link.
pub open spec fn list_names(fs: Files, list: Seq<char>) -> Seq<Option<Seq<char>>>
    decreases fs.len(),
{
    if fs.len() == 0 {
        seq![]
    } else {
        let rest = list_names(fs.skip(1), list);
        if is_pointer(fs[0].0, list) {
            match pointer_link(fs[0].1) {
                Some(d) => seq![Some(pointer_name(d))] + rest,
                None => seq![None] + rest,
            }
        } else {
            rest
        }
    }
}

/// Resolves each name in turn; a pointer without a link, or the first name
/// that cannot be resolved, makes the whole fail.
pub open spec fn resolve_all(
    fs: Files,
    names: Seq<Option<Seq<char>>>,
    prefix: Seq<char>,
    today: Stamp,
) -> Result<Seq<Record>, TaskError>
    decreases names.len(),
{
    if names.len() == 0 {
        Ok(seq![])
    } else if names[0] is None {
        Err(TaskError::Parse)
    } else {
        match resolve_in(fs, prefix, names[0]->0, false, today) {
            Err(e) => Err(e),
            Ok(t) => match resolve_all(fs, names.skip(1), prefix, today) {
                Err(e) => Err(e),
                Ok(rest) => Ok(seq![t] + rest),
            },
        }
    }
}

pub open spec fn prepend(xs: Seq<Record>, r: Result<Seq<Record>, TaskError>) -> Result<
    Seq<Record>,
    TaskError,
> {
    match r {
        Ok(ys) => Ok(xs + ys),
        Err(e) => Err(e),
    }
}

/// The files after adding a task to a list whose folder exists: the
/// pointer is written, the task promoted, taken off the other exclusive
/// lists and, for `Today`, added to the journal.
pub open spec fn add_files(
    fs: Files,
    list: Seq<char>,
    list_path: Seq<char>,
    r: Record,
    journal: Seq<char>,
    journal_start: Seq<char>,
) -> Files {
    let f1 = write_files(fs, pointer_path(list_path, r.task_name), pointer_text(r));
    let f2 = promote_files(f1, r);
    let f3 = unlist_files(f2, r.task_name, list);
    if list == "Today"@ {
        let f4 = if has_file(f3, journal) {
            f3
        } else {
            write_files(f3, journal, journal_start)
        };
        if is_excluded(r) {
            f4
        } else {
            append_files(f4, journal, task_line(r))
        }
    } else {
        f3
    }
}

/// Takes task `task_name` off every exclusive list but `excluded_list`.
pub fn remove_from_lists(store: &mut Store, task_name: &str, excluded_list: &str)
    requires
        old(store).wf(),
    ensures
        final(store).wf(),
        extends(old(store)@, final(store)@),
        final(store)@.dirs == old(store)@.dirs,
        final(store)@.files == unlist_files(old(store)@.files, task_name@, excluded_list@),
{
    remove_one(store, "Queued", task_name, excluded_list);
    remove_one(store, "Today", task_name, excluded_list);
    remove_one(store, "Waiting", task_name, excluded_list);
}

fn remove_one(store: &mut Store, list: &str, task_name: &str, excluded_list: &str)
    requires
        old(store).wf(),
    ensures
        final(store).wf(),
        extends(old(store)@, final(store)@),
        final(store)@.dirs == old(store)@.dirs,
        final(store)@.files == unlist_one(old(store)@.files, list@, task_name@, excluded_list@),
{
    if list.to_string() != excluded_list.to_string() {
        let p = pointer_path_exec(list, task_name);
        store.remove(p.as_str());
    }
}

fn pointer_path_exec(list: &str, name: &str) -> (r: String)
    ensures
        r@ == pointer_path(list@, name@),
{
    let mut out: Vec<char> = Vec::new();
    push_str(&mut out, list);
    push_str(&mut out, "/");
    push_str(&mut out, name);
    push_str(&mut out, ".md");
    string_of(out.as_slice())
}

/// Writes the task's pointer file in the list folder `list_path`, if that
/// folder exists; says whether it did.
pub fn put_in_list(store: &mut Store, list_path: &str, task: &Task) -> (r: bool)
    requires
        old(store).wf(),
    ensures
        final(store).wf(),
        extends(old(store)@, final(store)@),
        r == old(store)@.dirs.contains(list_path@),
        final(store)@.files == if r {
            write_files(
                old(store)@.files,
                pointer_path(list_path@, task.task_name@),
                pointer_text(task@),
            )
        } else {
            old(store)@.files
        },
        final(store)@.dirs == old(store)@.dirs,
{
    if !store.dir_exists(list_path) {
        return false;
    }
    let p = pointer_path_exec(list_path, task.task_name.as_str());
    let mut out: Vec<char> = Vec::new();
    push_str(&mut out, "[");
    push_str(&mut out, task.task_name.as_str());
    push_str(&mut out, "](../");
    push_str(&mut out, task.path.as_str());
    push_str(&mut out, ")");
    let text = string_of(out.as_slice());
    store.write(p.as_str(), text.as_str());
    true
}

/// The name of the task that a pointer's link destination points at: the
/// last path segment, encoded spaces decoded, `.md` taken out.
pub fn pointer_task_name(dest: &str) -> (r: String)
    ensures
        r@ == pointer_name(dest@),
{
    let dc = chars_of(dest);
    let k = last_slash_exec(dc.as_slice());
    let seg = slice_subrange(dc.as_slice(), k, dc.len());
    let enc = chars_of("%20");
    let sp = chars_of(" ");
    let md = chars_of(".md");
    let a = replace_exec(seg, enc.as_slice(), sp.as_slice());
    let empty: Vec<char> = Vec::new();
    let b = replace_exec(a.as_slice(), md.as_slice(), empty.as_slice());
    assert(empty@ == Seq::<char>::empty());
    string_of(b.as_slice())
}

fn last_slash_exec(p: &[char]) -> (r: usize)
    ensures
        r as int == last_slash(p@) + 1,
        r <= p@.len(),
{
    let mut j: usize = p.len();
    assert(p@.take(j as int) == p@);
    while j > 0 && p[j - 1] != '/'
        invariant
            j <= p@.len(),
            last_slash(p@) == last_slash(p@.take(j as int)),
        decreases j,
    {
        assert(p@.take(j as int).drop_last() == p@.take(j - 1));
        j = j - 1;
    }
    j
}

fn pointer_link_exec(text: &str) -> (r: Option<String>)
    ensures
        opt_text(r) == pointer_link(text@),
{
    let tc = chars_of(text);
    let sp = chars_of(" ");
    let enc = chars_of("%20");
    let e = replace_exec(tc.as_slice(), sp.as_slice(), enc.as_slice());
    let es = string_of(e.as_slice());
    let evs = link_events(es.as_str());
    first_link_of(&evs)
}

/// The first link destination among the parser's events (one entry per
/// event, the destination of each link start).
pub fn first_link_of(evs: &Vec<Option<String>>) -> (r: Option<String>)
    ensures
        opt_text(r) == first_link(evs@.map_values(|o: Option<String>| opt_text(o))),
{
    let ghost all = evs@.map_values(|o: Option<String>| opt_text(o));
    let mut i: usize = 0;
    assert(all.skip(0) == all);
    while i < evs.len()
        invariant
            i <= evs@.len(),
            all == evs@.map_values(|o: Option<String>| opt_text(o)),
            first_link(all) == first_link(all.skip(i as int)),
        decreases evs@.len() - i,
    {
        assert(all.skip(i as int)[0] == opt_text(evs@[i as int]));
        assert(all.skip(i as int).skip(1) == all.skip(i + 1));
        match &evs[i] {
            Some(d) => {
                return Some(d.clone());
            },
            None => {},
        }
        i = i + 1;
    }
    assert(all.skip(i as int).len() == 0);
    None
}

impl TaskList {
    /// The list named `name`; its folder has the same name under the root.
    pub fn get(name: &str) -> (r: TaskList)
        ensures
            r.name@ == name@,
            r.path@ == name@,
    {
        TaskList { name: name.to_string(), path: name.to_string() }
    }

    /// Puts the task on this list, if the list's folder exists: writes its
    /// pointer, promotes it out of `new/`, takes it off the other exclusive
    /// lists and, for `Today`, adds it to the day's journal.
    pub fn add(&self, store: &mut Store, task: &Task, folders: &Folders, now: Stamp) -> (r: Result<
        (),
        TaskError,
    >)
        requires
            old(store).wf(),
        ensures
            final(store).wf(),
            extends(old(store)@, final(store)@),
            final(store)@.dirs == old(store)@.dirs,
            r is Ok,
            final(store)@.files == if old(store)@.dirs.contains(self.path@) {
                add_files(
                    old(store)@.files,
                    self.name@,
                    self.path@,
                    task@,
                    crate::journal::journal_path(folders.journal_folder@, now),
                    crate::journal::journal_header(now, "Current"@, "Journal"@),
                )
            } else {
                old(store)@.files
            },
    {
        if put_in_list(store, self.path.as_str(), task) {
            let _ = task.change_task_folder(store);
            remove_from_lists(store, task.task_name.as_str(), self.name.as_str());
            if self.name == "Today".to_string() {
                let journal = Journal::new("Current", "Journal", folders.journal_folder.as_str(), now);
                journal.add_task_to_journal(store, task);
            }
        }
        Ok(())
    }

    /// The tasks that the list's pointers point at, in walk order, each
    /// found by name under the current year's projects; a pointer without a
    /// link, or one whose task cannot be found, makes the whole call fail.
    pub fn get_tasks(&self, store: &Store, folders: &Folders, today: Stamp) -> (r: Result<
        Vec<Task>,
        TaskError,
    >)
        requires
            store.wf(),
        ensures
            match resolve_all(
                store@.files,
                list_names(store@.files, self.path@),
                scope_prefix(folders.project_folder@, seq![]),
                today,
            ) {
                Ok(rs) => r matches Ok(ts) && views(ts@) == rs,
                Err(e) => r matches Err(x) && x == e,
            },
    {
        let ghost fs = store@.files;
        let mut names: Vec<Option<String>> = Vec::new();
        let mut pre: Vec<char> = Vec::new();
        push_str(&mut pre, self.path.as_str());
        push_str(&mut pre, "/");
        let md = chars_of(".md");
        let mut i: usize = 0;
        assert(fs.skip(0) == fs);
        while i < store.len()
            invariant
                store@.files == fs,
                i <= fs.len(),
                pre@ == self.path@ + "/"@,
                md@ == ".md"@,
                names@.map_values(|o: Option<String>| opt_text(o)) + list_names(
                    fs.skip(i as int),
                    self.path@,
                ) == list_names(fs, self.path@),
            decreases fs.len() - i,
        {
            assert(fs.skip(i as int)[0] == fs[i as int]);
            assert(fs.skip(i as int).skip(1) == fs.skip(i + 1));
            let pc = chars_of(store.path_at(i).as_str());
            if starts_with_exec(pc.as_slice(), pre.as_slice()) && ends_with_exec(
                pc.as_slice(),
                md.as_slice(),
            ) {
                let ghost before = names@.map_values(|o: Option<String>| opt_text(o));
                let entry = match pointer_link_exec(store.content_at(i).as_str()) {
                    Some(d) => Some(pointer_task_name(d.as_str())),
                    None => None,
                };
                names.push(entry);
                let ghost x = opt_text(entry);
                assert(names@.map_values(|o: Option<String>| opt_text(o)) == before.push(x));
                assert(before.push(x) + list_names(fs.skip(i + 1), self.path@) == before + (seq![x]
                    + list_names(fs.skip(i + 1), self.path@)));
            }
            i = i + 1;
        }
        assert(fs.skip(fs.len() as int).len() == 0);
        let ghost ns = names@.map_values(|o: Option<String>| opt_text(o));
        assert(ns + Seq::<Option<Seq<char>>>::empty() == ns);
        let mut out: Vec<Task> = Vec::new();
        let mut k: usize = 0;
        let ghost scope = scope_prefix(folders.project_folder@, seq![]);
        assert(ns.skip(0) == ns);
        while k < names.len()
            invariant
                store.wf(),
                store@.files == fs,
                ns == names@.map_values(|o: Option<String>| opt_text(o)),
                ns == list_names(fs, self.path@),
                k <= ns.len(),
                scope == scope_prefix(folders.project_folder@, seq![]),
                resolve_all(fs, ns, scope, today) == prepend(
                    views(out@),
                    resolve_all(fs, ns.skip(k as int), scope, today),
                ),
            decreases ns.len() - k,
        {
            assert(ns.skip(k as int)[0] == opt_text(names@[k as int]));
            assert(ns.skip(k as int).skip(1) == ns.skip(k + 1));
            proof {
                reveal_strlit("");
            }
            let name = match &names[k] {
                Some(n) => n,
                None => {
                    return Err(TaskError::Parse);
                },
            };
            match Task::get_by_id_or_name(store, name.as_str(), false, "", folders, today) {
                Err(e) => {
                    return Err(e);
                },
                Ok(t) => {
                    let ghost v = views(out@);
                    out.push(t);
                    assert(views(out@) == v.push(t@));
                    assert(v.push(t@) == v + seq![t@]);
                    assert(forall|ys: Seq<Record>| v + (seq![t@] + ys) == v.push(t@) + ys);
                },
            }
            k = k + 1;
        }
        assert(ns.skip(ns.len() as int).len() == 0);
        assert(views(out@) + Seq::<Record>::empty() == views(out@));
        Ok(out)
    }
}

impl Task {
    /// Notes `comment` in the active file (or, failing that, the new one),
    /// then takes the task off every exclusive list.
    pub fn finish(&self, store: &mut Store, comment: &str, now: Stamp) -> (r: Result<(), TaskError>)
        requires
            old(store).wf(),
        ensures
            final(store).wf(),
            extends(old(store)@, final(store)@),
            final(store)@.dirs == old(store)@.dirs,
            ({
                let c = crate::task::comment_outcome(old(store)@.files, self@, comment@, false, now);
                let d = if c.1 is Ok {
                    c
                } else {
                    crate::task::comment_outcome(old(store)@.files, self@, comment@, true, now)
                };
                if d.1 is Ok {
                    r is Ok && final(store)@.files == unlist_files(d.0, self.task_name@, "none"@)
                } else {
                    r == d.1 && final(store)@.files == d.0
                }
            }),
    {
        match self.add_comment(store, comment, false, now) {
            Ok(()) => {},
            Err(_) => {
                match self.add_comment(store, comment, true, now) {
                    Ok(()) => {},
                    Err(e) => {
                        return Err(e);
                    },
                }
            },
        }
        remove_from_lists(store, self.task_name.as_str(), "none");
        Ok(())
    }
}

} // verus!
