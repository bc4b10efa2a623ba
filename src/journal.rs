//! Journals and reviews: dated documents that list task references.
use vstd::prelude::*;
use crate::record::{Record, Task};
use crate::stamp::{day_text, push_day, Stamp};
use crate::store::{extends, file_at, has_file, write_files, Files, Store};
use crate::task::{is_excluded, new_location, views};
use crate::text::{chars_of, push_str, string_of};

verus! {

/// The journal of one day.
pub struct Journal {
    pub title: String,
    pub subheader: String,
    pub journal_path: String,
    pub created: Stamp,
}

pub open spec fn journal_path(folder: Seq<char>, day: Stamp) -> Seq<char> {
    folder + "/"@ + day_text(day, '-') + " Journal.md"@
}

/// The text a journal starts with.
pub open spec fn journal_header(day: Stamp, title: Seq<char>, subheader: Seq<char>) -> Seq<char> {
    "# "@ + day_text(day, '/') + " "@ + title + " \n\n## "@ + subheader + "\n\n"@
}

pub open spec fn append_files(fs: Files, p: Seq<char>, c: Seq<char>) -> Files {
    write_files(
        fs,
        p,
        match file_at(fs, p) {
            Some(t) => t,
            None => Seq::<char>::empty(),
        } + c,
    )
}

/// The line that refers to a task from a journal.
pub open spec fn task_line(r: Record) -> Seq<char> {
    "* ["@ + r.task_name + "](../../../"@ + r.path + ")\n"@
}

/// The lines of the tasks that are not excluded, in order.
pub open spec fn task_lines(rs: Seq<Record>) -> Seq<char>
    decreases rs.len(),
{
    if rs.len() == 0 {
        seq![]
    } else {
        (if is_excluded(rs[0]) {
            seq![]
        } else {
            task_line(rs[0])
        }) + task_lines(rs.skip(1))
    }
}

/// The review lines: a heading whenever the project differs from the one
/// before, then a link to where each task's file sits while it is new.
pub open spec fn review_lines(rs: Seq<Record>, current: Seq<char>) -> Seq<char>
    decreases rs.len(),
{
    if rs.len() == 0 {
        seq![]
    } else {
        let r = rs[0];
        (if r.project != current {
            "\n#### "@ + r.project + " \n"@
        } else {
            seq![]
        }) + "* ["@ + r.task_name + "](../../../"@ + new_location(r) + ") \n"@ + review_lines(
            rs.skip(1),
            r.project,
        )
    }
}

pub open spec fn review_path(folder: Seq<char>, day: Stamp) -> Seq<char> {
    folder + "/"@ + day_text(day, '-') + " Review.md"@
}

pub open spec fn review_text(rs: Seq<Record>, day: Stamp) -> Seq<char> {
    "# "@ + day_text(day, '/') + " Review \n\n## Tasks \n"@ + review_lines(rs, seq![])
}

fn task_line_exec(t: &Task) -> (r: String)
    ensures
        r@ == task_line(t@),
{
    let mut out: Vec<char> = Vec::new();
    push_str(&mut out, "* [");
    push_str(&mut out, t.task_name.as_str());
    push_str(&mut out, "](../../../");
    push_str(&mut out, t.path.as_str());
    push_str(&mut out, ")\n");
    string_of(out.as_slice())
}

impl Journal {
    /// The journal of `created`'s day in `journal_folder`.
    pub fn new(title: &str, subheader: &str, journal_folder: &str, created: Stamp) -> (r: Journal)
        ensures
            r.journal_path@ == journal_path(journal_folder@, created),
            r.created == created,
            r.title@ == title@,
            r.subheader@ == subheader@,
    {
        let mut p: Vec<char> = Vec::new();
        push_str(&mut p, journal_folder);
        push_str(&mut p, "/");
        push_day(&mut p, created, '-');
        push_str(&mut p, " Journal.md");
        Journal {
            title: title.to_string(),
            subheader: subheader.to_string(),
            journal_path: string_of(p.as_slice()),
            created,
        }
    }

    /// The files after creating the journal, and whether it was created:
    /// an existing journal is left as it is.
    pub open spec fn create_outcome(&self, fs: Files) -> (Files, bool) {
        if has_file(fs, self.journal_path@) {
            (fs, false)
        } else {
            (
                write_files(
                    fs,
                    self.journal_path@,
                    journal_header(self.created, self.title@, self.subheader@),
                ),
                true,
            )
        }
    }

    /// Creates the day's journal with its heading, unless it exists.
    pub fn create(&self, store: &mut Store) -> (r: bool)
        requires
            old(store).wf(),
        ensures
            final(store).wf(),
            extends(old(store)@, final(store)@),
            final(store)@.dirs == old(store)@.dirs,
            (final(store)@.files, r) == self.create_outcome(old(store)@.files),
    {
        if store.has(self.journal_path.as_str()) {
            return false;
        }
        let mut h: Vec<char> = Vec::new();
        push_str(&mut h, "# ");
        push_day(&mut h, self.created, '/');
        push_str(&mut h, " ");
        push_str(&mut h, self.title.as_str());
        push_str(&mut h, " \n\n## ");
        push_str(&mut h, self.subheader.as_str());
        push_str(&mut h, "\n\n");
        let text = string_of(h.as_slice());
        store.write(self.journal_path.as_str(), text.as_str());
        true
    }

    /// Creates the journal if needed, then adds a line linking `link`.
    pub fn add_link_to_journal(&self, store: &mut Store, title: &str, link: &str)
        requires
            old(store).wf(),
        ensures
            final(store).wf(),
            extends(old(store)@, final(store)@),
            final(store)@.dirs == old(store)@.dirs,
            final(store)@.files == append_files(
                self.create_outcome(old(store)@.files).0,
                self.journal_path@,
                "* ["@ + title@ + "]("@ + link@ + ")\n"@,
            ),
    {
        self.create(store);
        let mut out: Vec<char> = Vec::new();
        push_str(&mut out, "* [");
        push_str(&mut out, title);
        push_str(&mut out, "](");
        push_str(&mut out, link);
        push_str(&mut out, ")\n");
        let line = string_of(out.as_slice());
        store.append(self.journal_path.as_str(), line.as_str());
    }

    /// Creates the journal if needed, then adds a line for the task unless
    /// it is excluded.
    pub fn add_task_to_journal(&self, store: &mut Store, task: &Task)
        requires
            old(store).wf(),
        ensures
            final(store).wf(),
            extends(old(store)@, final(store)@),
            final(store)@.dirs == old(store)@.dirs,
            final(store)@.files == if is_excluded(task@) {
                self.create_outcome(old(store)@.files).0
            } else {
                append_files(
                    self.create_outcome(old(store)@.files).0,
                    self.journal_path@,
                    task_line(task@),
                )
            },
    {
        self.create(store);
        if !task.is_excluded() {
            let line = task_line_exec(task);
            store.append(self.journal_path.as_str(), line.as_str());
        }
    }

    /// Adds a `Tasks` heading and a line for each task that is not excluded.
    pub fn add_tasks_to_journal(&self, store: &mut Store, tasks: Vec<Task>)
        requires
            old(store).wf(),
        ensures
            final(store).wf(),
            extends(old(store)@, final(store)@),
            final(store)@.dirs == old(store)@.dirs,
            final(store)@.files == append_files(
                old(store)@.files,
                self.journal_path@,
                "## Tasks \n"@ + task_lines(views(tasks@)),
            ),
    {
        let mut out: Vec<char> = Vec::new();
        push_str(&mut out, "## Tasks \n");
        let ghost rs = views(tasks@);
        let mut i: usize = 0;
        assert(rs.skip(0) == rs);
        while i < tasks.len()
            invariant
                i <= tasks@.len(),
                rs == views(tasks@),
                out@ + task_lines(rs.skip(i as int)) == "## Tasks \n"@ + task_lines(rs),
            decreases tasks@.len() - i,
        {
            assert(rs.skip(i as int)[0] == tasks@[i as int]@);
            assert(rs.skip(i as int).skip(1) == rs.skip(i + 1));
            if !tasks[i].is_excluded() {
                let line = task_line_exec(&tasks[i]);
                let lc = chars_of(line.as_str());
                crate::text::push_all(&mut out, lc.as_slice());
            }
            i = i + 1;
        }
        assert(rs.skip(rs.len() as int) == Seq::<Record>::empty());
        let text = string_of(out.as_slice());
        store.append(self.journal_path.as_str(), text.as_str());
    }
}

impl Task {
    /// Writes the day's review in `review_folder`: the tasks in the given
    /// order, with a heading whenever the project changes.
    pub fn create_review(store: &mut Store, tasks: Vec<Task>, review_folder: &str, now: Stamp)
        requires
            old(store).wf(),
        ensures
            final(store).wf(),
            extends(old(store)@, final(store)@),
            final(store)@.dirs == old(store)@.dirs,
            final(store)@.files == write_files(
                old(store)@.files,
                review_path(review_folder@, now),
                review_text(views(tasks@), now),
            ),
    {
        let mut p: Vec<char> = Vec::new();
        push_str(&mut p, review_folder);
        push_str(&mut p, "/");
        push_day(&mut p, now, '-');
        push_str(&mut p, " Review.md");
        let mut out: Vec<char> = Vec::new();
        push_str(&mut out, "# ");
        push_day(&mut out, now, '/');
        push_str(&mut out, " Review \n\n## Tasks \n");
        let ghost rs = views(tasks@);
        let ghost head = out@;
        let mut current = String::new();
        let mut i: usize = 0;
        assert(rs.skip(0) == rs);
        while i < tasks.len()
            invariant
                i <= tasks@.len(),
                rs == views(tasks@),
                out@ + review_lines(rs.skip(i as int), current@) == head + review_lines(rs, seq![]),
            decreases tasks@.len() - i,
        {
            let t = &tasks[i];
            assert(rs.skip(i as int)[0] == t@);
            assert(rs.skip(i as int).skip(1) == rs.skip(i + 1));
            let ghost before = out@;
            if t.project != current {
                push_str(&mut out, "\n#### ");
                push_str(&mut out, t.project.as_str());
                push_str(&mut out, " \n");
                current = t.project.clone();
            }
            let rp = t.new_location();
            push_str(&mut out, "* [");
            push_str(&mut out, t.task_name.as_str());
            push_str(&mut out, "](../../../");
            push_str(&mut out, rp.as_str());
            push_str(&mut out, ") \n");
            i = i + 1;
        }
        assert(rs.skip(rs.len() as int) == Seq::<Record>::empty());
        let path = string_of(p.as_slice());
        let text = string_of(out.as_slice());
        store.write(path.as_str(), text.as_str());
    }
}

} // verus!
