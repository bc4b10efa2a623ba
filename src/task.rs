//! Task records in the folder tree: where a task's file lives, and the
//! operations that create, read, rewrite and move it.
//!
//! A task at `path` (`<projects>/<year>/<project>/<name>.md`) is active;
//! while it is new its file sits in the `new/` folder beside that path.
use vstd::prelude::*;
use vstd::slice::slice_subrange;
use crate::codec::{decode_file, decode_header_exec, file_text, split_file, split_file_exec};
use crate::record::{Record, Task, TaskError};
use crate::stamp::{clock_text, month_name, month_name_of, padded_month, push_clock, signed_text, push_signed, Stamp};
use crate::store::{
    dir_chain, extends, file_at, has_file, rename_files, write_files, Files, Store,
};
use crate::text::{
    chars_of, contains, contains_exec, ends_with, ends_with_exec, push_all, push_str,
    starts_with, starts_with_exec, string_of,
};

verus! {

/// Where the folders of the tree are, relative to the root folder.
pub struct Folders {
    /// The folder that holds every year of projects (`Projects`).
    pub project_folder_name: String,
    /// The current year's projects (`Projects/2024`).
    pub project_folder: String,
    /// Today's journal folder.
    pub journal_folder: String,
    /// Today's review folder.
    pub review_folder: String,
}

/// Relies on `uuid::Uuid::new_v4` and `Display for Uuid`, which writes the
/// hyphenated form: 36 characters.
#[verifier::external_body]
fn new_id() -> (r: String)
    ensures
        r@.len() == 36,
{
    uuid::Uuid::new_v4().to_string()
}

/// Index of the last `/` in `p`, or -1.
pub open spec fn last_slash(p: Seq<char>) -> int
    decreases p.len(),
{
    if p.len() == 0 {
        -1
    } else if p.last() == '/' {
        p.len() - 1
    } else {
        last_slash(p.drop_last())
    }
}

/// `p` up to and with its last `/`; empty when there is none.
pub open spec fn dir_part(p: Seq<char>) -> Seq<char> {
    p.take(last_slash(p) + 1)
}

/// The folder of new tasks beside the task's path.
pub open spec fn new_folder(r: Record) -> Seq<char> {
    dir_part(r.path) + "new"@
}

/// Where the task's file sits while the task is new.
pub open spec fn new_location(r: Record) -> Seq<char> {
    dir_part(r.path) + "new/"@ + r.task_name + ".md"@
}

pub open spec fn task_path(folder_name: Seq<char>, year: i32, project: Seq<char>, name: Seq<char>) -> Seq<
    char,
> {
    folder_name + "/"@ + signed_text(year as int, 1) + "/"@ + project + "/"@ + name + ".md"@
}

/// A record as it is first made.
pub open spec fn fresh_record(
    name: Seq<char>,
    project: Seq<char>,
    year: i32,
    folder_name: Seq<char>,
    id: Seq<char>,
    created: Stamp,
) -> Record {
    Record {
        id,
        task_name: name,
        project,
        path: task_path(folder_name, year, project, name),
        created,
        updated: created,
        exclude_from_journal: None,
        exclude_from_logging: Some(false),
        remind: None,
    }
}

pub open spec fn is_excluded(r: Record) -> bool {
    r.exclude_from_journal == Some(true) || r.exclude_from_logging == Some(true)
}

/// The body a task file starts with.
pub open spec fn creation_body(created: Stamp, description: Seq<char>) -> Seq<char> {
    "\n##### "@ + clock_text(created) + " \nTask Created\n\n"@ + if description.len() == 0 {
        seq![]
    } else {
        "\n\n[link]("@ + description + ")"@
    }
}

pub open spec fn comment_entry(now: Stamp, comment: Seq<char>) -> Seq<char> {
    "##### "@ + clock_text(now) + " \n"@ + comment + "\n\n"@
}

pub open spec fn drop_nl(b: Seq<char>) -> Seq<char> {
    if b.len() > 0 && b[0] == '\n' {
        b.skip(1)
    } else {
        b
    }
}

/// The file with `entry` put between its header and its body.
pub open spec fn with_comment(text: Seq<char>, entry: Seq<char>) -> Option<Seq<char>> {
    match split_file(text) {
        None => None,
        Some(hb) => Some("---"@ + hb.0 + "---\n"@ + entry + drop_nl(hb.1)),
    }
}

/// The files after commenting, and the result: nothing happens for an
/// excluded task; the file must exist and have a header.
pub open spec fn comment_outcome(
    fs: Files,
    r: Record,
    comment: Seq<char>,
    is_new: bool,
    now: Stamp,
) -> (Files, Result<(), TaskError>) {
    let target = if is_new {
        new_location(r)
    } else {
        r.path
    };
    if is_excluded(r) {
        (fs, Ok(()))
    } else if !has_file(fs, target) {
        (fs, Err(TaskError::NotFound))
    } else {
        match with_comment(file_at(fs, target)->0, comment_entry(now, comment)) {
            None => (fs, Err(TaskError::Parse)),
            Some(c) => (write_files(fs, target, c), Ok(())),
        }
    }
}

/// An identifier that is still to be assigned.
pub open spec fn is_placeholder(id: Seq<char>) -> bool {
    id.len() == 0 || id == "~"@
}

pub open spec fn saved_record(r: Record, fresh: Seq<char>, now: Stamp) -> Record {
    Record {
        id: if is_placeholder(r.id) {
            fresh
        } else {
            r.id
        },
        task_name: r.task_name,
        project: r.project,
        path: r.path,
        created: r.created,
        updated: now,
        exclude_from_journal: r.exclude_from_journal,
        exclude_from_logging: r.exclude_from_logging,
        remind: r.remind,
    }
}

/// The file that saving rewrites: the new one if it exists, else the active one.
pub open spec fn save_target(fs: Files, r: Record) -> Option<Seq<char>> {
    if has_file(fs, new_location(r)) {
        Some(new_location(r))
    } else if has_file(fs, r.path) {
        Some(r.path)
    } else {
        None
    }
}

/// The files after saving, and the result: the header is rewritten, the
/// body kept as it is.
pub open spec fn save_outcome(fs: Files, r: Record, fresh: Seq<char>, now: Stamp) -> (
    Files,
    Result<(), TaskError>,
) {
    match save_target(fs, r) {
        None => (fs, Err(TaskError::NotFound)),
        Some(p) => match split_file(file_at(fs, p)->0) {
            None => (fs, Err(TaskError::Parse)),
            Some(hb) => (write_files(fs, p, file_text(saved_record(r, fresh, now), hb.1)), Ok(())),
        },
    }
}

/// The files after promoting: the new file, if any, moves to the active path.
pub open spec fn promote_files(fs: Files, r: Record) -> Files {
    if has_file(fs, new_location(r)) {
        rename_files(fs, new_location(r), r.path)
    } else {
        fs
    }
}

/// The files after demoting: the active file, if any, moves back to `new/`.
pub open spec fn demote_files(fs: Files, r: Record) -> Files {
    if has_file(fs, r.path) {
        rename_files(fs, r.path, new_location(r))
    } else {
        fs
    }
}

/// `path` with the folder that holds its file renamed to `project`; the
/// folders above and the file name stay.
pub open spec fn repath(path: Seq<char>, project: Seq<char>) -> Seq<char> {
    let d = dir_part(path);
    let up = if d.len() > 0 {
        dir_part(d.drop_last())
    } else {
        seq![]
    };
    up + project + "/"@ + path.skip(d.len() as int)
}

/// `s` with its leading `a` replaced by `b`; as it is when it does not start with `a`.
pub open spec fn swap_prefix(s: Seq<char>, a: Seq<char>, b: Seq<char>) -> Seq<char> {
    if starts_with(s, a) {
        b + s.skip(a.len() as int)
    } else {
        s
    }
}

/// The start of every path in one year's projects: `<projects>/<year>/`.
pub open spec fn year_prefix(folder_name: Seq<char>, year: Seq<char>) -> Seq<char> {
    folder_name + "/"@ + year + "/"@
}

/// The folder that holds the file at `p`, without a final `/`.
pub open spec fn folder_spec(p: Seq<char>) -> Seq<char> {
    if last_slash(p) >= 0 {
        p.take(last_slash(p))
    } else {
        seq![]
    }
}

/// The record moved to `project`: its project and the project folder of its path change.
pub open spec fn with_project(t: Record, project: Seq<char>) -> Record {
    Record {
        id: t.id,
        task_name: t.task_name,
        project,
        path: repath(t.path, project),
        created: t.created,
        updated: t.updated,
        exclude_from_journal: t.exclude_from_journal,
        exclude_from_logging: t.exclude_from_logging,
        remind: t.remind,
    }
}

pub open spec fn with_path(t: Record, path: Seq<char>) -> Record {
    Record {
        id: t.id,
        task_name: t.task_name,
        project: t.project,
        path,
        created: t.created,
        updated: t.updated,
        exclude_from_journal: t.exclude_from_journal,
        exclude_from_logging: t.exclude_from_logging,
        remind: t.remind,
    }
}

/// The files after moving a new task to another project, and the result.
pub open spec fn change_project_outcome(
    fs: Files,
    r: Record,
    project: Seq<char>,
    fresh: Seq<char>,
    now: Stamp,
) -> (Files, Result<(), TaskError>) {
    let c = comment_outcome(fs, r, "Project changed to "@ + project, true, now);
    let src = new_location(r);
    if c.1 is Err {
        c
    } else if !has_file(c.0, src) {
        (c.0, Err(TaskError::NotFound))
    } else {
        let dst = new_location(with_project(r, project));
        let f2 = rename_files(c.0, src, dst);
        match decode_file(file_at(f2, dst)->0, now) {
            None => (f2, Err(TaskError::Parse)),
            Some(t) => save_outcome(f2, with_project(t, project), fresh, now),
        }
    }
}

/// Whether a project change gets as far as moving the file (and making its folder).
pub open spec fn change_project_moves(fs: Files, r: Record, project: Seq<char>, now: Stamp) -> bool {
    let c = comment_outcome(fs, r, "Project changed to "@ + project, true, now);
    c.1 is Ok && has_file(c.0, new_location(r))
}

/// A file that the year turnover moves: a new task under the old year.
pub open spec fn turnover_candidate(p: Seq<char>, folder_name: Seq<char>, old_year: Seq<char>) -> bool {
    starts_with(p, folder_name + "/"@ + old_year + "/"@) && ends_with(p, ".md"@) && contains(
        p,
        "/new/"@,
    )
}

/// The files after moving one new task to the new year.
pub open spec fn turnover_one(
    fs: Files,
    p: Seq<char>,
    folder_name: Seq<char>,
    old_year: Seq<char>,
    new_year: Seq<char>,
    fresh: Seq<char>,
    now: Stamp,
) -> Files {
    let a = year_prefix(folder_name, old_year);
    let b = year_prefix(folder_name, new_year);
    let np = swap_prefix(p, a, b);
    let f1 = rename_files(fs, p, np);
    match file_at(f1, np) {
        None => f1,
        Some(c) => match decode_file(c, now) {
            None => f1,
            Some(t) => save_outcome(
                f1,
                with_path(t, swap_prefix(t.path, a, b)),
                fresh,
                now,
            ).0,
        },
    }
}

/// The files after moving each of `ps` in turn, with one fresh identifier each.
pub open spec fn turnover_files(
    fs: Files,
    ps: Seq<Seq<char>>,
    folder_name: Seq<char>,
    old_year: Seq<char>,
    new_year: Seq<char>,
    fresh: Seq<Seq<char>>,
    now: Stamp,
) -> Files
    decreases ps.len(),
{
    if ps.len() == 0 || fresh.len() != ps.len() {
        fs
    } else {
        turnover_one(
            turnover_files(fs, ps.drop_last(), folder_name, old_year, new_year, fresh.drop_last(), now),
            ps.last(),
            folder_name,
            old_year,
            new_year,
            fresh.last(),
            now,
        )
    }
}

/// The folders the year turnover makes for `ps`, in turn.
pub open spec fn turnover_dirs(
    ps: Seq<Seq<char>>,
    folder_name: Seq<char>,
    old_year: Seq<char>,
    new_year: Seq<char>,
) -> Seq<Seq<char>>
    decreases ps.len(),
{
    if ps.len() == 0 {
        seq![]
    } else {
        turnover_dirs(ps.drop_last(), folder_name, old_year, new_year) + dir_chain(
            folder_spec(
                swap_prefix(
                    ps.last(),
                    year_prefix(folder_name, old_year),
                    year_prefix(folder_name, new_year),
                ),
            ),
        )
    }
}

pub open spec fn paths_of(fs: Files) -> Seq<Seq<char>> {
    fs.map_values(|f: (Seq<char>, Seq<char>)| f.0)
}

/// The paths the year turnover moves, in walk order.
pub open spec fn turnover_paths(fs: Files, folder_name: Seq<char>, old_year: Seq<char>) -> Seq<
    Seq<char>,
> {
    paths_of(fs).filter(|p: Seq<char>| turnover_candidate(p, folder_name, old_year))
}

/// The folder that a scan looks in, with its final `/`.
pub open spec fn scope_prefix(project_folder: Seq<char>, project: Seq<char>) -> Seq<char> {
    if project.len() == 0 {
        project_folder + "/"@
    } else {
        project_folder + "/"@ + project + "/"@
    }
}

/// A file that a scan reads.
pub open spec fn scanned(p: Seq<char>, prefix: Seq<char>, new_only: bool) -> bool {
    starts_with(p, prefix) && ends_with(p, ".md"@) && (!new_only || contains(p, "/new/"@))
}

/// The first scanned task whose identifier or name is `key`; a scanned file
/// that cannot be read stops the search.
pub open spec fn resolve_in(
    fs: Files,
    prefix: Seq<char>,
    key: Seq<char>,
    new_only: bool,
    today: Stamp,
) -> Result<Record, TaskError>
    decreases fs.len(),
{
    if fs.len() == 0 {
        Err(TaskError::NotFound)
    } else if scanned(fs[0].0, prefix, new_only) {
        match decode_file(fs[0].1, today) {
            None => Err(TaskError::Parse),
            Some(t) => if t.id == key || t.task_name == key {
                Ok(t)
            } else {
                resolve_in(fs.skip(1), prefix, key, new_only, today)
            },
        }
    } else {
        resolve_in(fs.skip(1), prefix, key, new_only, today)
    }
}

/// Every scanned task that can be read, in walk order.
pub open spec fn list_in(fs: Files, prefix: Seq<char>, new_only: bool, today: Stamp) -> Seq<Record>
    decreases fs.len(),
{
    if fs.len() == 0 {
        seq![]
    } else {
        let rest = list_in(fs.skip(1), prefix, new_only, today);
        if scanned(fs[0].0, prefix, new_only) && decode_file(fs[0].1, today) is Some {
            seq![decode_file(fs[0].1, today)->0] + rest
        } else {
            rest
        }
    }
}

pub open spec fn views(ts: Seq<Task>) -> Seq<Record> {
    ts.map_values(|t: Task| t@)
}

/// Length of `dir_part(p)`.
fn dir_part_len(p: &[char]) -> (r: usize)
    ensures
        r as int == last_slash(p@) + 1,
        r <= p@.len(),
{
    let mut j: usize = p.len();
    assert(p@.take(j as int) == p@);
    while j > 0 && p[j - 1] != '/'
        invariant
            j <= p@.len(),
            last_slash(p@) == last_slash(p@.take(j as int)),
        decreases j,
    {
        assert(p@.take(j as int).drop_last() == p@.take(j - 1));
        j = j - 1;
    }
    proof {
        lemma_last_slash_bound(p@.take(j as int));
    }
    j
}

/// The last `/` lies within `p`, or there is none (-1).
pub proof fn lemma_last_slash_bound(p: Seq<char>)
    ensures
        -1 <= last_slash(p) < p.len(),
    decreases p.len(),
{
    if p.len() > 0 && p.last() != '/' {
        lemma_last_slash_bound(p.drop_last());
    }
}

impl Task {
    /// A new task named `task_name` in `project` for `year`, under the
    /// projects folder `folder_name`: a fresh identifier, created now.
    pub fn new(task_name: &str, project: &str, year: &i32, folder_name: &str) -> (r: Task)
        ensures
            r.id@.len() == 36,
            r.created.wf(),
            r@ == fresh_record(task_name@, project@, *year, folder_name@, r.id@, r.created),
    {
        let id = new_id();
        let now = Stamp::now();
        Task::with_identity(task_name, project, year, folder_name, id.as_str(), now)
    }

    /// A new task with the given identifier and creation time.
    pub fn with_identity(
        task_name: &str,
        project: &str,
        year: &i32,
        folder_name: &str,
        id: &str,
        created: Stamp,
    ) -> (r: Task)
        ensures
            r@ == fresh_record(task_name@, project@, *year, folder_name@, id@, created),
    {
        let mut p: Vec<char> = Vec::new();
        push_str(&mut p, folder_name);
        push_str(&mut p, "/");
        push_signed(&mut p, *year, 1);
        push_str(&mut p, "/");
        push_str(&mut p, project);
        push_str(&mut p, "/");
        push_str(&mut p, task_name);
        push_str(&mut p, ".md");
        assert(p@ == task_path(folder_name@, *year, project@, task_name@));
        Task {
            id: id.to_string(),
            task_name: task_name.to_string(),
            project: project.to_string(),
            path: string_of(p.as_slice()),
            created,
            updated: created,
            exclude_from_journal: None,
            exclude_from_logging: Some(false),
            remind: None,
        }
    }

    /// Whether either exclusion flag is set.
    pub fn is_excluded(&self) -> (r: bool)
        ensures
            r == is_excluded(self@),
            r == (self.exclude_from_journal == Some(true) || self.exclude_from_logging == Some(
                true,
            )),
    {
        match &self.exclude_from_journal {
            Some(x) => if *x {
                return true;
            },
            None => {},
        }
        match &self.exclude_from_logging {
            Some(x) => if *x {
                return true;
            },
            None => {},
        }
        false
    }

    /// Where the task's file sits while the task is new.
    pub fn new_location(&self) -> (r: String)
        ensures
            r@ == new_location(self@),
    {
        let pc = chars_of(self.path.as_str());
        let k = dir_part_len(pc.as_slice());
        let mut out: Vec<char> = Vec::new();
        push_all(&mut out, slice_subrange(pc.as_slice(), 0, k));
        push_str(&mut out, "new/");
        push_str(&mut out, self.task_name.as_str());
        push_str(&mut out, ".md");
        assert(out@ == new_location(self@));
        string_of(out.as_slice())
    }

    /// The folder of new tasks beside the task's path.
    pub fn new_folder(&self) -> (r: String)
        ensures
            r@ == new_folder(self@),
    {
        let pc = chars_of(self.path.as_str());
        let k = dir_part_len(pc.as_slice());
        let mut out: Vec<char> = Vec::new();
        push_all(&mut out, slice_subrange(pc.as_slice(), 0, k));
        push_str(&mut out, "new");
        string_of(out.as_slice())
    }

    /// The task's whole file with the given body.
    pub fn file_text(&self, body: &str) -> (r: String)
        ensures
            r@ == file_text(self@, body@),
    {
        let mut out: Vec<char> = Vec::new();
        push_str(&mut out, "---\n");
        let h = self.encode_header();
        push_all(&mut out, h.as_slice());
        push_str(&mut out, "---");
        push_str(&mut out, body);
        assert(out@ == file_text(self@, body@));
        string_of(out.as_slice())
    }

    /// Writes the task's file in its `new/` folder: the header, a creation
    /// entry and, when a description is given, a link to it.
    pub fn add(&self, store: &mut Store, description: &str)
        requires
            old(store).wf(),
        ensures
            final(store).wf(),
            extends(old(store)@, final(store)@),
            final(store)@.files == write_files(
                old(store)@.files,
                new_location(self@),
                file_text(self@, creation_body(self.created, description@)),
            ),
            final(store)@.dirs == old(store)@.dirs + crate::store::dir_chain(new_folder(self@)),
    {
        let mut b: Vec<char> = Vec::new();
        push_str(&mut b, "\n##### ");
        push_clock(&mut b, self.created);
        push_str(&mut b, " \nTask Created\n\n");
        if description.unicode_len() > 0 {
            push_str(&mut b, "\n\n[link](");
            push_str(&mut b, description);
            push_str(&mut b, ")");
        }
        assert(b@ == creation_body(self.created, description@));
        let body = string_of(b.as_slice());
        let folder = self.new_folder();
        store.create_dir_all(folder.as_str());
        let target = self.new_location();
        let text = self.file_text(body.as_str());
        store.write(target.as_str(), text.as_str());
    }

    /// Reads the task in the file at `filepath`; a missing `updated` field
    /// reads as midnight of `today`.
    pub fn get(store: &Store, filepath: &str, today: Stamp) -> (r: Result<Task, TaskError>)
        requires
            store.wf(),
        ensures
            !has_file(store@.files, filepath@) ==> r == Err::<Task, TaskError>(TaskError::NotFound),
            has_file(store@.files, filepath@) ==> match decode_file(
                file_at(store@.files, filepath@)->0,
                today,
            ) {
                Some(t) => r matches Ok(x) && x@ == t,
                None => r == Err::<Task, TaskError>(TaskError::Parse),
            },
    {
        match store.read(filepath) {
            None => Err(TaskError::NotFound),
            Some(c) => Task::decode(c.as_str(), today),
        }
    }

    /// Reads a task from the whole text of its file.
    pub fn decode(text: &str, today: Stamp) -> (r: Result<Task, TaskError>)
        ensures
            match decode_file(text@, today) {
                Some(t) => r matches Ok(x) && x@ == t,
                None => r == Err::<Task, TaskError>(TaskError::Parse),
            },
    {
        let tc = chars_of(text);
        match split_file_exec(tc.as_slice()) {
            None => Err(TaskError::Parse),
            Some((h, _b)) => decode_header_exec(h.as_slice(), today),
        }
    }

    /// Rewrites the header of the task's file (the new one if it exists,
    /// else the active one), keeping its body; `updated` becomes `now` and a
    /// missing identifier becomes `fresh`.
    pub fn save_with(self, store: &mut Store, fresh: &str, now: Stamp) -> (r: Result<(), TaskError>)
        requires
            old(store).wf(),
        ensures
            final(store).wf(),
            extends(old(store)@, final(store)@),
            final(store)@.dirs == old(store)@.dirs,
            (final(store)@.files, r) == save_outcome(old(store)@.files, self@, fresh@, now),
    {
        let mut task = self;
        let idc = chars_of(task.id.as_str());
        if idc.len() == 0 || task.id == "~".to_string() {
            task.id = fresh.to_string();
        }
        task.updated = now;
        let nl = task.new_location();
        let target = if store.has(nl.as_str()) {
            nl
        } else if store.has(task.path.as_str()) {
            task.path.clone()
        } else {
            return Err(TaskError::NotFound);
        };
        let old_text = store.read(target.as_str()).unwrap();
        let oc = chars_of(old_text.as_str());
        match split_file_exec(oc.as_slice()) {
            None => Err(TaskError::Parse),
            Some((_h, b)) => {
                let body = string_of(b.as_slice());
                let text = task.file_text(body.as_str());
                store.write(target.as_str(), text.as_str());
                Ok(())
            },
        }
    }

    /// `save_with` a freshly generated identifier.
    pub fn save(self, store: &mut Store, now: Stamp) -> (r: Result<(), TaskError>)
        requires
            old(store).wf(),
        ensures
            final(store).wf(),
            extends(old(store)@, final(store)@),
            final(store)@.dirs == old(store)@.dirs,
            exists|fresh: Seq<char>|
                fresh.len() == 36 && (final(store)@.files, r) == save_outcome(
                    old(store)@.files,
                    self@,
                    fresh,
                    now,
                ),
    {
        let fresh = new_id();
        self.save_with(store, fresh.as_str(), now)
    }

    /// Puts a timestamped entry between the header and the body of the
    /// task's file (the new one when `is_new`); does nothing for an excluded
    /// task.
    pub fn add_comment(&self, store: &mut Store, comment: &str, is_new: bool, now: Stamp) -> (r:
        Result<(), TaskError>)
        requires
            old(store).wf(),
        ensures
            final(store).wf(),
            extends(old(store)@, final(store)@),
            final(store)@.dirs == old(store)@.dirs,
            (final(store)@.files, r) == comment_outcome(
                old(store)@.files,
                self@,
                comment@,
                is_new,
                now,
            ),
    {
        if self.is_excluded() {
            return Ok(());
        }
        let target = if is_new {
            self.new_location()
        } else {
            self.path.clone()
        };
        let text = match store.read(target.as_str()) {
            Some(t) => t,
            None => {
                return Err(TaskError::NotFound);
            },
        };
        let tc = chars_of(text.as_str());
        match split_file_exec(tc.as_slice()) {
            None => Err(TaskError::Parse),
            Some((h, b)) => {
                let mut out: Vec<char> = Vec::new();
                push_str(&mut out, "---");
                push_all(&mut out, h.as_slice());
                push_str(&mut out, "---\n");
                let ghost pre = out@;
                push_str(&mut out, "##### ");
                push_clock(&mut out, now);
                push_str(&mut out, " \n");
                push_str(&mut out, comment);
                push_str(&mut out, "\n\n");
                assert(out@ == pre + comment_entry(now, comment@));
                if b.len() > 0 && b[0] == '\n' {
                    push_all(&mut out, slice_subrange(b.as_slice(), 1, b.len()));
                } else {
                    push_all(&mut out, b.as_slice());
                }
                let c = string_of(out.as_slice());
                store.write(target.as_str(), c.as_str());
                Ok(())
            },
        }
    }

    /// Promotes the task: its new file, if any, moves to the active path.
    pub fn change_task_folder(&self, store: &mut Store) -> (r: Result<(), TaskError>)
        requires
            old(store).wf(),
        ensures
            final(store).wf(),
            extends(old(store)@, final(store)@),
            final(store)@.dirs == old(store)@.dirs,
            final(store)@.files == promote_files(old(store)@.files, self@),
            r is Ok,
    {
        let nl = self.new_location();
        if store.has(nl.as_str()) {
            store.rename(nl.as_str(), self.path.as_str());
        }
        Ok(())
    }

    /// Demotes the task: its active file, if any, moves back to `new/`.
    pub fn move_to_new_folder(&self, store: &mut Store)
        requires
            old(store).wf(),
        ensures
            final(store).wf(),
            extends(old(store)@, final(store)@),
            final(store)@.dirs == old(store)@.dirs,
            final(store)@.files == demote_files(old(store)@.files, self@),
    {
        let nl = self.new_location();
        if store.has(self.path.as_str()) {
            store.rename(self.path.as_str(), nl.as_str());
        }
    }
}

/// The folder that holds the file at `p`: `dir_part(p)` without its final `/`.
fn folder_of(p: &[char]) -> (r: String)
    ensures
        r@ == folder_spec(p@),
{
    let k = dir_part_len(p);
    let mut out: Vec<char> = Vec::new();
    if k > 0 {
        push_all(&mut out, slice_subrange(p, 0, k - 1));
    }
    string_of(out.as_slice())
}

fn swap_prefix_exec(s: &str, a: &[char], b: &[char]) -> (r: String)
    ensures
        r@ == swap_prefix(s@, a@, b@),
{
    let sc = chars_of(s);
    if starts_with_exec(sc.as_slice(), a) {
        let mut out: Vec<char> = Vec::new();
        push_all(&mut out, b);
        push_all(&mut out, slice_subrange(sc.as_slice(), a.len(), sc.len()));
        string_of(out.as_slice())
    } else {
        s.to_string()
    }
}

/// `path` with the folder that holds its file renamed to `project`.
pub fn repath_exec(path: &str, project: &str) -> (r: String)
    ensures
        r@ == repath(path@, project@),
{
    let pc = chars_of(path);
    let k = dir_part_len(pc.as_slice());
    let mut out: Vec<char> = Vec::new();
    if k > 0 {
        let d = slice_subrange(pc.as_slice(), 0, k - 1);
        let k2 = dir_part_len(d);
        assert(pc@.take(k as int).drop_last() == d@);
        assert(d@.take(k2 as int) == pc@.take(k2 as int));
        push_all(&mut out, slice_subrange(pc.as_slice(), 0, k2));
    }
    push_str(&mut out, project);
    push_str(&mut out, "/");
    push_all(&mut out, slice_subrange(pc.as_slice(), k, pc.len()));
    string_of(out.as_slice())
}

fn concat_str(a: &str, b: &str) -> (r: String)
    ensures
        r@ == a@ + b@,
{
    let mut out: Vec<char> = Vec::new();
    push_str(&mut out, a);
    push_str(&mut out, b);
    string_of(out.as_slice())
}

impl Task {
    /// Moves a new task to another project: notes the change in the file,
    /// moves the file, then rewrites its project and path.
    pub fn change_project(&self, store: &mut Store, new_project: &str, now: Stamp) -> (r: Result<
        (),
        TaskError,
    >)
        requires
            old(store).wf(),
        ensures
            final(store).wf(),
            extends(old(store)@, final(store)@),
            final(store)@.dirs == if change_project_moves(old(store)@.files, self@, new_project@, now) {
                old(store)@.dirs + crate::store::dir_chain(new_folder(with_project(self@, new_project@)))
            } else {
                old(store)@.dirs
            },
            exists|fresh: Seq<char>|
                fresh.len() == 36 && (final(store)@.files, r) == change_project_outcome(
                    old(store)@.files,
                    self@,
                    new_project@,
                    fresh,
                    now,
                ),
    {
        let fresh = new_id();
        self.change_project_with(store, new_project, fresh.as_str(), now)
    }

    /// `change_project` with the identifier that a task without one gets.
    pub fn change_project_with(
        &self,
        store: &mut Store,
        new_project: &str,
        fresh: &str,
        now: Stamp,
    ) -> (r: Result<(), TaskError>)
        requires
            old(store).wf(),
        ensures
            final(store).wf(),
            extends(old(store)@, final(store)@),
            final(store)@.dirs == if change_project_moves(old(store)@.files, self@, new_project@, now) {
                old(store)@.dirs + crate::store::dir_chain(new_folder(with_project(self@, new_project@)))
            } else {
                old(store)@.dirs
            },
            (final(store)@.files, r) == change_project_outcome(
                old(store)@.files,
                self@,
                new_project@,
                fresh@,
                now,
            ),
    {
        let msg = concat_str("Project changed to ", new_project);
        match self.add_comment(store, msg.as_str(), true, now) {
            Err(e) => {
                return Err(e);
            },
            Ok(()) => {},
        }
        let src = self.new_location();
        if !store.has(src.as_str()) {
            return Err(TaskError::NotFound);
        }
        let mut moved = self.duplicate();
        moved.path = repath_exec(self.path.as_str(), new_project);
        moved.project = new_project.to_string();
        assert(moved@ == with_project(self@, new_project@));
        let dst = moved.new_location();
        let folder = moved.new_folder();
        let ghost f1 = store@.files;
        store.create_dir_all(folder.as_str());
        store.rename(src.as_str(), dst.as_str());
        proof {
            crate::store::lemma_rename(f1, src@, dst@);
        }
        let text = store.read(dst.as_str()).unwrap();
        let mut t = match Task::decode(text.as_str(), now) {
            Ok(t) => t,
            Err(e) => {
                return Err(e);
            },
        };
        t.path = repath_exec(t.path.as_str(), new_project);
        t.project = new_project.to_string();
        t.save_with(store, fresh, now)
    }

    /// Moves every new task of `old_year` to `new_year`: the file moves to
    /// the new year's tree and its stored path follows. A file that cannot
    /// be read or saved is left where the move put it, and the others go on.
    pub fn year_turnover(
        store: &mut Store,
        folder_name: &str,
        old_year: &str,
        new_year: &str,
        now: Stamp,
    ) -> (r: Result<(), TaskError>)
        requires
            old(store).wf(),
        ensures
            final(store).wf(),
            extends(old(store)@, final(store)@),
            final(store)@.dirs == old(store)@.dirs + turnover_dirs(
                turnover_paths(old(store)@.files, folder_name@, old_year@),
                folder_name@,
                old_year@,
                new_year@,
            ),
            r is Ok,
            exists|fresh: Seq<Seq<char>>|
                fresh.len() == turnover_paths(old(store)@.files, folder_name@, old_year@).len()
                    && final(store)@.files == turnover_files(
                    old(store)@.files,
                    turnover_paths(old(store)@.files, folder_name@, old_year@),
                    folder_name@,
                    old_year@,
                    new_year@,
                    fresh,
                    now,
                ),
    {
        let ghost fs0 = store@.files;
        let ghost pred = |p: Seq<char>| turnover_candidate(p, folder_name@, old_year@);
        let mut pre: Vec<char> = Vec::new();
        push_str(&mut pre, folder_name);
        push_str(&mut pre, "/");
        push_str(&mut pre, old_year);
        push_str(&mut pre, "/");
        let md = chars_of(".md");
        let nw = chars_of("/new/");
        let mut cands: Vec<String> = Vec::new();
        let mut i: usize = 0;
        while i < store.len()
            invariant
                store@.files == fs0,
                pred == (|p: Seq<char>| turnover_candidate(p, folder_name@, old_year@)),
                i <= fs0.len(),
                pre@ == folder_name@ + "/"@ + old_year@ + "/"@,
                md@ == ".md"@,
                nw@ == "/new/"@,
                cands@.map_values(|c: String| c@) == paths_of(fs0).take(i as int).filter(pred),
            decreases fs0.len() - i,
        {
            let pc = chars_of(store.path_at(i).as_str());
            let ghost before = cands@.map_values(|c: String| c@);
            let ghost sq = paths_of(fs0).take(i + 1);
            proof {
                reveal(Seq::filter);
            }
            assert(sq.drop_last() == paths_of(fs0).take(i as int));
            assert(sq.last() == fs0[i as int].0);
            assert(sq.filter(pred) == if pred(sq.last()) {
                sq.drop_last().filter(pred).push(sq.last())
            } else {
                sq.drop_last().filter(pred)
            });
            if starts_with_exec(pc.as_slice(), pre.as_slice()) && ends_with_exec(
                pc.as_slice(),
                md.as_slice(),
            ) && contains_exec(pc.as_slice(), nw.as_slice()) {
                cands.push(store.path_at(i).clone());
                assert(cands@.map_values(|c: String| c@) == before.push(fs0[i as int].0));
            }
            i = i + 1;
        }
        assert(paths_of(fs0).take(fs0.len() as int) == paths_of(fs0));
        let ghost ps = turnover_paths(fs0, folder_name@, old_year@);
        assert(cands@.map_values(|c: String| c@) == ps);
        let mut npre: Vec<char> = Vec::new();
        push_str(&mut npre, folder_name);
        push_str(&mut npre, "/");
        push_str(&mut npre, new_year);
        push_str(&mut npre, "/");
        let ghost mut fresh: Seq<Seq<char>> = seq![];
        let mut k: usize = 0;
        while k < cands.len()
            invariant
                store.wf(),
                k <= cands@.len(),
                ps.len() == cands@.len(),
                cands@.map_values(|c: String| c@) == ps,
                fresh.len() == k,
                pre@ == year_prefix(folder_name@, old_year@),
                npre@ == year_prefix(folder_name@, new_year@),
                store@.files == turnover_files(
                    fs0,
                    ps.take(k as int),
                    folder_name@,
                    old_year@,
                    new_year@,
                    fresh,
                    now,
                ),
                store@.dirs == old(store)@.dirs + turnover_dirs(
                    ps.take(k as int),
                    folder_name@,
                    old_year@,
                    new_year@,
                ),
                extends(old(store)@, store@),
            decreases cands@.len() - k,
        {
            let f = new_id();
            let ghost f0 = store@.files;
            let p = &cands[k];
            assert(p@ == ps[k as int]);
            let np = swap_prefix_exec(p.as_str(), pre.as_slice(), npre.as_slice());
            let nc = chars_of(np.as_str());
            let folder = folder_of(nc.as_slice());
            let ghost d0 = store@.dirs;
            store.create_dir_all(folder.as_str());
            assert(store@.dirs == old(store)@.dirs + (turnover_dirs(
                ps.take(k as int),
                folder_name@,
                old_year@,
                new_year@,
            ) + crate::store::dir_chain(folder@)));
            store.rename(p.as_str(), np.as_str());
            match store.read(np.as_str()) {
                None => {},
                Some(c) => match Task::decode(c.as_str(), now) {
                    Err(_) => {},
                    Ok(mut t) => {
                        t.path = swap_prefix_exec(t.path.as_str(), pre.as_slice(), npre.as_slice());
                        let _ = t.save_with(store, f.as_str(), now);
                    },
                },
            }
            proof {
                assert(ps.take(k + 1).drop_last() == ps.take(k as int));
                assert(fresh.push(f@).drop_last() == fresh);
                assert(ps.take(k + 1).last() == ps[k as int]);
                fresh = fresh.push(f@);
            }
            k = k + 1;
        }
        assert(ps.take(ps.len() as int) == ps);
        Ok(())
    }

    /// The first task under the current year's projects (only `project`'s
    /// folder when it is not empty; only `new/` files when `new_only`)
    /// whose identifier or name is `key`.
    pub fn get_by_id_or_name(
        store: &Store,
        task: &str,
        new_only: bool,
        project: &str,
        folders: &Folders,
        today: Stamp,
    ) -> (r: Result<Task, TaskError>)
        requires
            store.wf(),
        ensures
            match resolve_in(
                store@.files,
                scope_prefix(folders.project_folder@, project@),
                task@,
                new_only,
                today,
            ) {
                Ok(t) => r matches Ok(x) && x@ == t,
                Err(e) => r == Err::<Task, TaskError>(e),
            },
    {
        let prefix = scope_exec(folders.project_folder.as_str(), project);
        let ghost fs = store@.files;
        let mut i: usize = 0;
        assert(fs.skip(0) == fs);
        while i < store.len()
            invariant
                store@.files == fs,
                prefix@ == scope_prefix(folders.project_folder@, project@),
                i <= fs.len(),
                resolve_in(fs, prefix@, task@, new_only, today) == resolve_in(
                    fs.skip(i as int),
                    prefix@,
                    task@,
                    new_only,
                    today,
                ),
            decreases fs.len() - i,
        {
            assert(fs.skip(i as int)[0] == fs[i as int]);
            assert(fs.skip(i as int).skip(1) == fs.skip(i + 1));
            if scanned_exec(store.path_at(i).as_str(), prefix.as_str(), new_only) {
                match Task::decode(store.content_at(i).as_str(), today) {
                    Err(e) => {
                        assert(decode_file(fs[i as int].1, today) is None);
                        return Err(e);
                    },
                    Ok(t) => {
                        assert(t@ == decode_file(fs[i as int].1, today)->0);
                        if t.id == task.to_string() || t.task_name == task.to_string() {
                            assert(scanned(fs.skip(i as int)[0].0, prefix@, new_only));
                            assert(decode_file(fs.skip(i as int)[0].1, today) == Some(t@));
                            assert(t@.id == task@ || t@.task_name == task@);
                            assert(resolve_in(fs.skip(i as int), prefix@, task@, new_only, today)
                                == Ok::<Record, TaskError>(t@));
                            return Ok(t);
                        }
                    },
                }
            }
            i = i + 1;
        }
        Err(TaskError::NotFound)
    }

    /// Every task under the current year's projects (only `project`'s folder
    /// when it is not empty; only `new/` files when `new_only`), in walk
    /// order; a file that cannot be read is skipped.
    pub fn get_all(
        store: &Store,
        new_only: bool,
        project: &str,
        folders: &Folders,
        today: Stamp,
    ) -> (r: Vec<Task>)
        requires
            store.wf(),
        ensures
            views(r@) == list_in(
                store@.files,
                scope_prefix(folders.project_folder@, project@),
                new_only,
                today,
            ),
    {
        let prefix = scope_exec(folders.project_folder.as_str(), project);
        let ghost fs = store@.files;
        let mut out: Vec<Task> = Vec::new();
        let mut i: usize = store.len();
        assert(fs.skip(fs.len() as int) == Seq::<(Seq<char>, Seq<char>)>::empty());
        while i > 0
            invariant
                store@.files == fs,
                prefix@ == scope_prefix(folders.project_folder@, project@),
                i <= fs.len(),
                views(out@) == list_in(fs.skip(i as int), prefix@, new_only, today),
            decreases i,
        {
            i = i - 1;
            assert(fs.skip(i as int)[0] == fs[i as int]);
            assert(fs.skip(i as int).skip(1) == fs.skip(i + 1));
            if scanned_exec(store.path_at(i).as_str(), prefix.as_str(), new_only) {
                match Task::decode(store.content_at(i).as_str(), today) {
                    Err(_) => {},
                    Ok(t) => {
                        let ghost v = views(out@);
                        out.insert(0, t);
                        assert(views(out@) == seq![t@] + v);
                    },
                }
            }
        }
        assert(fs.skip(0) == fs);
        out
    }
}

fn scope_exec(project_folder: &str, project: &str) -> (r: String)
    ensures
        r@ == scope_prefix(project_folder@, project@),
{
    let mut out: Vec<char> = Vec::new();
    push_str(&mut out, project_folder);
    push_str(&mut out, "/");
    if project.unicode_len() > 0 {
        push_str(&mut out, project);
        push_str(&mut out, "/");
    }
    string_of(out.as_slice())
}

fn scanned_exec(p: &str, prefix: &str, new_only: bool) -> (r: bool)
    ensures
        r == scanned(p@, prefix@, new_only),
{
    let pc = chars_of(p);
    let pre = chars_of(prefix);
    let md = chars_of(".md");
    let nw = chars_of("/new/");
    starts_with_exec(pc.as_slice(), pre.as_slice()) && ends_with_exec(pc.as_slice(), md.as_slice())
        && (!new_only || contains_exec(pc.as_slice(), nw.as_slice()))
}

/// `<name>/<year>/<MM> - <Month name>`, the folder of a month's journals or reviews.
pub open spec fn month_folder(name: Seq<char>, day: Stamp) -> Seq<char> {
    name + "/"@ + signed_text(day.year as int, 1) + "/"@ + padded_month(day.month) + " - "@
        + month_name(day.month)
}

fn month_folder_exec(name: &str, day: Stamp) -> (r: String)
    ensures
        r@ == month_folder(name@, day),
{
    let mut out: Vec<char> = Vec::new();
    push_str(&mut out, name);
    push_str(&mut out, "/");
    push_signed(&mut out, day.year, 1);
    push_str(&mut out, "/");
    crate::text::push_padded(&mut out, day.month as u64, 2);
    push_str(&mut out, " - ");
    let m = month_name_of(day.month);
    push_str(&mut out, m.as_str());
    string_of(out.as_slice())
}

impl Folders {
    /// The folders for `day`, from the names of the projects, journal and
    /// review folders under the root.
    pub fn for_day(
        project_folder_name: &str,
        journal_folder_name: &str,
        review_folder_name: &str,
        day: Stamp,
    ) -> (r: Folders)
        ensures
            r.project_folder_name@ == project_folder_name@,
            r.project_folder@ == project_folder_name@ + "/"@ + signed_text(day.year as int, 1),
            r.journal_folder@ == month_folder(journal_folder_name@, day),
            r.review_folder@ == month_folder(review_folder_name@, day),
    {
        let mut p: Vec<char> = Vec::new();
        push_str(&mut p, project_folder_name);
        push_str(&mut p, "/");
        push_signed(&mut p, day.year, 1);
        Folders {
            project_folder_name: project_folder_name.to_string(),
            project_folder: string_of(p.as_slice()),
            journal_folder: month_folder_exec(journal_folder_name, day),
            review_folder: month_folder_exec(review_folder_name, day),
        }
    }
}

/// The folder of `project`'s tasks under `task_folder` (its `new` folder
/// when `is_new`), created if needed.
pub fn get_taskfolder(store: &mut Store, task_folder: &str, project: &str, is_new: bool) -> (r: String)
    requires
        old(store).wf(),
    ensures
        final(store).wf(),
        extends(old(store)@, final(store)@),
        r@ == task_folder@ + "/"@ + project@ + "/"@ + if is_new {
            "new"@
        } else {
            seq![]
        },
        final(store)@.files == old(store)@.files,
        final(store)@.dirs == old(store)@.dirs + crate::store::dir_chain(r@),
{
    let mut out: Vec<char> = Vec::new();
    push_str(&mut out, task_folder);
    push_str(&mut out, "/");
    push_str(&mut out, project);
    push_str(&mut out, "/");
    if is_new {
        push_str(&mut out, "new");
    }
    let r = string_of(out.as_slice());
    store.create_dir_all(r.as_str());
    r
}

/// The file of task `task_name` of `project` under `project_folder`: the one
/// in `new/` if it exists, else the active one.
pub fn get_task_path_old(store: &Store, task_name: &str, project: &str, project_folder: &str) -> (r: String)
    requires
        store.wf(),
    ensures
        ({
            let base = project_folder@ + "/"@ + project@ + "/"@;
            let newp = base + "new/"@ + task_name@ + ".md"@;
            r@ == if has_file(store@.files, newp) {
                newp
            } else {
                base + task_name@ + ".md"@
            }
        }),
{
    let mut base: Vec<char> = Vec::new();
    push_str(&mut base, project_folder);
    push_str(&mut base, "/");
    push_str(&mut base, project);
    push_str(&mut base, "/");
    let mut newp: Vec<char> = Vec::new();
    push_all(&mut newp, base.as_slice());
    push_str(&mut newp, "new/");
    push_str(&mut newp, task_name);
    push_str(&mut newp, ".md");
    let mut active: Vec<char> = Vec::new();
    push_all(&mut active, base.as_slice());
    push_str(&mut active, task_name);
    push_str(&mut active, ".md");
    let n = string_of(newp.as_slice());
    if store.has(n.as_str()) {
        n
    } else {
        string_of(active.as_slice())
    }
}

} // verus!
