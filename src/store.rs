//! The folder tree that holds tasks, lists and journals, kept in memory:
//! files (path and text, in walk order) and folders, with paths relative to
//! the root folder. Every change is also recorded as an operation, so that
//! the same changes can be carried out on a real disk in the same order.
use vstd::prelude::*;
use crate::text::{chars_of, push_all, string_of};

verus! {

/// One file: its path under the root and its text.
#[derive(Clone, Debug)]
pub struct StoredFile {
    pub path: String,
    pub content: String,
}

/// A change made to the tree.
#[derive(Clone, Debug)]
pub enum Op {
    /// Create a folder and the folders above it.
    CreateDir(String),
    /// Create or overwrite a file with the given text.
    Write(String, String),
    /// Move a file, replacing any file at the destination.
    Rename(String, String),
    /// Delete a file.
    Remove(String),
}

/// A change as plain values.
pub enum OpView {
    CreateDir(Seq<char>),
    Write(Seq<char>, Seq<char>),
    Rename(Seq<char>, Seq<char>),
    Remove(Seq<char>),
}

impl View for Op {
    type V = OpView;

    open spec fn view(&self) -> OpView {
        match self {
            Op::CreateDir(p) => OpView::CreateDir(p@),
            Op::Write(p, c) => OpView::Write(p@, c@),
            Op::Rename(a, b) => OpView::Rename(a@, b@),
            Op::Remove(p) => OpView::Remove(p@),
        }
    }
}

/// The tree of files and folders under the root, with the changes made to it.
pub struct Store {
    files: Vec<StoredFile>,
    dirs: Vec<String>,
    log: Vec<Op>,
    loaded_files: Ghost<Files>,
    loaded_dirs: Ghost<Seq<Seq<char>>>,
}

/// The tree as plain values: the view of `Store`.
pub struct StoreView {
    /// Path and text of each file, in walk order.
    pub files: Seq<(Seq<char>, Seq<char>)>,
    /// The folders that exist.
    pub dirs: Seq<Seq<char>>,
    /// The changes made so far, oldest first.
    pub log: Seq<OpView>,
    /// The files as they were loaded, before the recorded changes.
    pub loaded_files: Seq<(Seq<char>, Seq<char>)>,
    /// The folders as they were loaded, before the recorded changes.
    pub loaded_dirs: Seq<Seq<char>>,
}

pub type Files = Seq<(Seq<char>, Seq<char>)>;

/// No two files share a path.
pub open spec fn unique_paths(fs: Files) -> bool {
    forall|i: int, j: int| 0 <= i < j < fs.len() ==> fs[i].0 != fs[j].0
}

pub open spec fn has_file(fs: Files, p: Seq<char>) -> bool {
    exists|i: int| 0 <= i < fs.len() && fs[i].0 == p
}

pub open spec fn index_of_file(fs: Files, p: Seq<char>) -> int {
    choose|i: int| 0 <= i < fs.len() && fs[i].0 == p
}

/// The text of the file at `p`, if there is one.
pub open spec fn file_at(fs: Files, p: Seq<char>) -> Option<Seq<char>> {
    if has_file(fs, p) {
        Some(fs[index_of_file(fs, p)].1)
    } else {
        None
    }
}

/// The files after writing `c` at `p`: in place when `p` exists, else last.
pub open spec fn write_files(fs: Files, p: Seq<char>, c: Seq<char>) -> Files {
    if has_file(fs, p) {
        fs.update(index_of_file(fs, p), (p, c))
    } else {
        fs.push((p, c))
    }
}

/// The files after deleting the one at `p`, if any.
pub open spec fn remove_files(fs: Files, p: Seq<char>) -> Files {
    if has_file(fs, p) {
        fs.remove(index_of_file(fs, p))
    } else {
        fs
    }
}

/// The files after moving the one at `a` to `b`: any file at `b` goes, and
/// the moved file keeps its place in the walk order.
pub open spec fn rename_files(fs: Files, a: Seq<char>, b: Seq<char>) -> Files {
    if !has_file(fs, a) || a == b {
        fs
    } else {
        let c = file_at(fs, a)->0;
        let g = remove_files(fs, b);
        g.update(index_of_file(g, a), (b, c))
    }
}

/// The text of the file at `p` (empty when there is none) followed by `c`.
pub open spec fn appended(fs: Files, p: Seq<char>, c: Seq<char>) -> Seq<char> {
    let t = match file_at(fs, p) {
        Some(t) => t,
        None => Seq::<char>::empty(),
    };
    t + c
}

/// The files after one recorded change.
pub open spec fn step_files(fs: Files, op: OpView) -> Files {
    match op {
        OpView::CreateDir(_) => fs,
        OpView::Write(p, c) => write_files(fs, p, c),
        OpView::Rename(a, b) => rename_files(fs, a, b),
        OpView::Remove(p) => remove_files(fs, p),
    }
}

/// The folders after one recorded change.
pub open spec fn step_dirs(ds: Seq<Seq<char>>, op: OpView) -> Seq<Seq<char>> {
    match op {
        OpView::CreateDir(p) => ds + dir_chain(p),
        _ => ds,
    }
}

/// The files after carrying out `ops` in order.
pub open spec fn replay_files(fs: Files, ops: Seq<OpView>) -> Files
    decreases ops.len(),
{
    if ops.len() == 0 {
        fs
    } else {
        step_files(replay_files(fs, ops.drop_last()), ops.last())
    }
}

/// The folders after carrying out `ops` in order.
pub open spec fn replay_dirs(ds: Seq<Seq<char>>, ops: Seq<OpView>) -> Seq<Seq<char>>
    decreases ops.len(),
{
    if ops.len() == 0 {
        ds
    } else {
        step_dirs(replay_dirs(ds, ops.drop_last()), ops.last())
    }
}

/// `b` comes from `a` by recording further changes: the loaded tree is the
/// same and `a`'s log is the start of `b`'s.
pub open spec fn extends(a: StoreView, b: StoreView) -> bool {
    &&& a.loaded_files == b.loaded_files
    &&& a.loaded_dirs == b.loaded_dirs
    &&& a.log.len() <= b.log.len()
    &&& forall|i: int| 0 <= i < a.log.len() ==> #[trigger] b.log[i] == a.log[i]
}

/// The folder `p` and every folder above it.
pub open spec fn dir_chain(p: Seq<char>) -> Seq<Seq<char>> {
    dir_prefixes(p, p.len() as int).push(p)
}

/// The prefixes of `p` that end just before a `/` at an index below `n`.
pub open spec fn dir_prefixes(p: Seq<char>, n: int) -> Seq<Seq<char>>
    decreases n,
{
    if n <= 0 {
        seq![]
    } else if p[n - 1] == '/' && n - 1 > 0 {
        dir_prefixes(p, n - 1).push(p.take(n - 1))
    } else {
        dir_prefixes(p, n - 1)
    }
}

impl Store {
    pub closed spec fn view(&self) -> StoreView {
        StoreView {
            files: self.files@.map_values(|f: StoredFile| (f.path@, f.content@)),
            dirs: self.dirs@.map_values(|d: String| d@),
            log: self.log@.map_values(|o: Op| o@),
            loaded_files: self.loaded_files@,
            loaded_dirs: self.loaded_dirs@,
        }
    }

    /// Paths are unique, and carrying out the recorded changes on the loaded
    /// tree gives the current files and folders.
    pub open spec fn wf(&self) -> bool {
        &&& unique_paths(self@.files)
        &&& replay_files(self@.loaded_files, self@.log) == self@.files
        &&& replay_dirs(self@.loaded_dirs, self@.log) == self@.dirs
    }

    /// An empty tree.
    pub fn new() -> (r: Store)
        ensures
            r.wf(),
            r@.files.len() == 0,
            r@.dirs.len() == 0,
            r@.log.len() == 0,
    {
        let r = Store {
            files: Vec::new(),
            dirs: Vec::new(),
            log: Vec::new(),
            loaded_files: Ghost(Seq::empty()),
            loaded_dirs: Ghost(Seq::empty()),
        };
        assert(r@.files == Seq::<(Seq<char>, Seq<char>)>::empty());
        assert(r@.dirs == Seq::<Seq<char>>::empty());
        r
    }

    /// The number of files.
    pub fn len(&self) -> (r: usize)
        ensures
            r == self@.files.len(),
    {
        self.files.len()
    }

    /// The path of the `i`-th file in walk order.
    pub fn path_at(&self, i: usize) -> (r: &String)
        requires
            i < self@.files.len(),
        ensures
            r@ == self@.files[i as int].0,
    {
        &self.files[i].path
    }

    /// The text of the `i`-th file in walk order.
    pub fn content_at(&self, i: usize) -> (r: &String)
        requires
            i < self@.files.len(),
        ensures
            r@ == self@.files[i as int].1,
    {
        &self.files[i].content
    }

    /// The changes made so far, oldest first.
    pub fn log(&self) -> (r: &Vec<Op>)
        ensures
            r@.map_values(|o: Op| o@) == self@.log,
    {
        &self.log
    }

    /// Forgets the recorded changes, once they have been carried out: the
    /// current tree becomes the loaded one.
    pub fn clear_log(&mut self)
        requires
            old(self).wf(),
        ensures
            final(self).wf(),
            final(self)@.files == old(self)@.files,
            final(self)@.dirs == old(self)@.dirs,
            final(self)@.log.len() == 0,
            final(self)@.loaded_files == old(self)@.files,
            final(self)@.loaded_dirs == old(self)@.dirs,
    {
        self.log = Vec::new();
        self.loaded_files = Ghost(self@.files);
        self.loaded_dirs = Ghost(self@.dirs);
        assert(self@.log.len() == 0);
    }

    fn find(&self, p: &str) -> (r: Option<usize>)
        requires
            unique_paths(self@.files),
        ensures
            r is None <==> !has_file(self@.files, p@),
            r matches Some(i) ==> i == index_of_file(self@.files, p@) && i < self@.files.len()
                && self@.files[i as int].0 == p@,
    {
        let mut i: usize = 0;
        while i < self.files.len()
            invariant
                unique_paths(self@.files),
                i <= self@.files.len(),
                forall|j: int| 0 <= j < i ==> self@.files[j].0 != p@,
            decreases self@.files.len() - i,
        {
            assert(self@.files[i as int].0 == self.files@[i as int].path@);
            if self.files[i].path == p.to_string() {
                assert(unique_paths(self@.files));
                return Some(i);
            }
            i = i + 1;
        }
        None
    }

    /// Whether a file exists at `p`.
    pub fn has(&self, p: &str) -> (r: bool)
        requires
            self.wf(),
        ensures
            r == has_file(self@.files, p@),
    {
        self.find(p).is_some()
    }

    /// The text of the file at `p`.
    pub fn read(&self, p: &str) -> (r: Option<String>)
        requires
            self.wf(),
        ensures
            r matches Some(c) ==> file_at(self@.files, p@) == Some(c@),
            r is None ==> file_at(self@.files, p@) is None,
    {
        match self.find(p) {
            Some(i) => Some(self.files[i].content.clone()),
            None => None,
        }
    }

    /// Whether the folder `p` exists.
    pub fn dir_exists(&self, p: &str) -> (r: bool)
        ensures
            r == self@.dirs.contains(p@),
    {
        let mut i: usize = 0;
        while i < self.dirs.len()
            invariant
                i <= self@.dirs.len(),
                forall|j: int| 0 <= j < i ==> self@.dirs[j] != p@,
            decreases self@.dirs.len() - i,
        {
            if self.dirs[i] == p.to_string() {
                assert(self@.dirs[i as int] == p@);
                return true;
            }
            i = i + 1;
        }
        false
    }

    /// Adds a file that is already there on disk, before any change is
    /// recorded; it becomes part of the loaded tree.
    pub fn load_file(&mut self, p: &str, c: &str)
        requires
            old(self).wf(),
            old(self)@.log.len() == 0,
        ensures
            final(self).wf(),
            final(self)@.files == write_files(old(self)@.files, p@, c@),
            final(self)@.dirs == old(self)@.dirs,
            final(self)@.log.len() == 0,
            final(self)@.loaded_files == final(self)@.files,
            final(self)@.loaded_dirs == old(self)@.loaded_dirs,
    {
        self.put(p, c);
        self.loaded_files = Ghost(self@.files);
    }

    /// Adds a folder that is already there on disk, before any change is
    /// recorded; it becomes part of the loaded tree.
    pub fn load_dir(&mut self, p: &str)
        requires
            old(self).wf(),
            old(self)@.log.len() == 0,
        ensures
            final(self).wf(),
            final(self)@.files == old(self)@.files,
            final(self)@.dirs == old(self)@.dirs.push(p@),
            final(self)@.log.len() == 0,
            final(self)@.loaded_files == old(self)@.loaded_files,
            final(self)@.loaded_dirs == final(self)@.dirs,
    {
        self.dirs.push(p.to_string());
        self.loaded_dirs = Ghost(self@.dirs);
        assert(self@.dirs == old(self)@.dirs.push(p@));
        assert(self@.files == old(self)@.files);
    }

    fn put(&mut self, p: &str, c: &str)
        requires
            unique_paths(old(self)@.files),
        ensures
            unique_paths(final(self)@.files),
            final(self)@.files == write_files(old(self)@.files, p@, c@),
            final(self)@.dirs == old(self)@.dirs,
            final(self)@.log == old(self)@.log,
            final(self)@.loaded_files == old(self)@.loaded_files,
            final(self)@.loaded_dirs == old(self)@.loaded_dirs,
    {
        let f = StoredFile { path: p.to_string(), content: c.to_string() };
        match self.find(p) {
            Some(i) => {
                self.files.set(i, f);
                assert(self@.files == write_files(old(self)@.files, p@, c@));
            },
            None => {
                self.files.push(f);
                assert(self@.files == write_files(old(self)@.files, p@, c@));
            },
        }
        assert(self@.dirs == old(self)@.dirs);
        assert(self@.log == old(self)@.log);
        proof {
            lemma_write(old(self)@.files, p@, c@);
        }
    }

    /// Creates or overwrites the file at `p`.
    pub fn write(&mut self, p: &str, c: &str)
        requires
            old(self).wf(),
        ensures
            final(self).wf(),
            final(self)@.files == write_files(old(self)@.files, p@, c@),
            final(self)@.dirs == old(self)@.dirs,
            final(self)@.log == old(self)@.log.push(OpView::Write(p@, c@)),
            extends(old(self)@, final(self)@),
    {
        self.put(p, c);
        self.log.push(Op::Write(p.to_string(), c.to_string()));
        assert(self@.log == old(self)@.log.push(OpView::Write(p@, c@)));
        assert(self@.log.drop_last() == old(self)@.log);
    }

    /// Adds `c` at the end of the file at `p`, creating it if needed.
    pub fn append(&mut self, p: &str, c: &str)
        requires
            old(self).wf(),
        ensures
            final(self).wf(),
            final(self)@.files == write_files(old(self)@.files, p@, appended(old(self)@.files, p@, c@)),
            final(self)@.dirs == old(self)@.dirs,
            final(self)@.log == old(self)@.log.push(
                OpView::Write(p@, appended(old(self)@.files, p@, c@)),
            ),
            extends(old(self)@, final(self)@),
    {
        let mut out: Vec<char> = Vec::new();
        match self.read(p) {
            Some(t) => {
                let tc = chars_of(t.as_str());
                push_all(&mut out, tc.as_slice());
            },
            None => {},
        }
        let cc = chars_of(c);
        push_all(&mut out, cc.as_slice());
        let text = string_of(out.as_slice());
        self.write(p, text.as_str());
    }

    /// Deletes the file at `p`, if there is one.
    pub fn remove(&mut self, p: &str)
        requires
            old(self).wf(),
        ensures
            final(self).wf(),
            final(self)@.files == remove_files(old(self)@.files, p@),
            final(self)@.dirs == old(self)@.dirs,
            final(self)@.log == if has_file(old(self)@.files, p@) {
                old(self)@.log.push(OpView::Remove(p@))
            } else {
                old(self)@.log
            },
            extends(old(self)@, final(self)@),
    {
        match self.find(p) {
            Some(i) => {
                self.files.remove(i);
                self.log.push(Op::Remove(p.to_string()));
                assert(self@.files == remove_files(old(self)@.files, p@));
                assert(self@.log == old(self)@.log.push(OpView::Remove(p@)));
                assert(self@.log.drop_last() == old(self)@.log);
                assert(self@.dirs == old(self)@.dirs);
                proof {
                    lemma_remove(old(self)@.files, p@);
                }
            },
            None => {},
        }
    }

    /// Moves the file at `a` to `b`, replacing any file there.
    pub fn rename(&mut self, a: &str, b: &str)
        requires
            old(self).wf(),
        ensures
            final(self).wf(),
            final(self)@.files == rename_files(old(self)@.files, a@, b@),
            final(self)@.dirs == old(self)@.dirs,
            final(self)@.log == if has_file(old(self)@.files, a@) && a@ != b@ {
                old(self)@.log.push(OpView::Rename(a@, b@))
            } else {
                old(self)@.log
            },
            extends(old(self)@, final(self)@),
    {
        if a.to_string() == b.to_string() {
            return;
        }
        let c = match self.find(a) {
            Some(i) => self.files[i].content.clone(),
            None => {
                return;
            },
        };
        let ghost fs0 = self@.files;
        match self.find(b) {
            Some(j) => {
                self.files.remove(j);
                assert(self@.files == remove_files(fs0, b@));
            },
            None => {},
        }
        let ghost g = self@.files;
        assert(g == remove_files(fs0, b@));
        assert(has_file(g, a@)) by {
            let i = index_of_file(fs0, a@);
            if has_file(fs0, b@) {
                let j = index_of_file(fs0, b@);
                if i < j {
                    assert(g[i].0 == a@);
                } else {
                    assert(g[i - 1].0 == a@);
                }
            } else {
                assert(g[i].0 == a@);
            }
        }
        assert(unique_paths(g)) by {
            if has_file(fs0, b@) {
                assert forall|x: int, y: int| 0 <= x < y < g.len() implies g[x].0 != g[y].0 by {
                    let j = index_of_file(fs0, b@);
                    let xi = if x < j { x } else { x + 1 };
                    let yi = if y < j { y } else { y + 1 };
                    assert(g[x] == fs0[xi]);
                    assert(g[y] == fs0[yi]);
                }
            }
        }
        let k = self.find(a).unwrap();
        self.files.set(k, StoredFile { path: b.to_string(), content: c });
        self.log.push(Op::Rename(a.to_string(), b.to_string()));
        assert(self@.files == rename_files(fs0, a@, b@));
        assert(self@.log == old(self)@.log.push(OpView::Rename(a@, b@)));
        assert(self@.log.drop_last() == old(self)@.log);
        assert(self@.dirs == old(self)@.dirs);
        assert(unique_paths(self@.files)) by {
            assert forall|x: int, y: int|
                0 <= x < y < self@.files.len() implies self@.files[x].0 != self@.files[y].0 by {
                if x == k {
                    assert(!has_file(g.update(k as int, (b@, c@)).remove(k as int), b@)) by {
                        assert(g == remove_files(fs0, b@));
                    }
                    assert(g[y].0 != b@) by {
                        if g[y].0 == b@ {
                            assert(has_file(g, b@));
                        }
                    }
                } else if y == k {
                    assert(g[x].0 != b@) by {
                        if g[x].0 == b@ {
                            assert(has_file(g, b@));
                        }
                    }
                }
            }
        }
    }

    /// Creates the folder `p` and every folder above it.
    pub fn create_dir_all(&mut self, p: &str)
        requires
            old(self).wf(),
        ensures
            final(self).wf(),
            final(self)@.files == old(self)@.files,
            final(self)@.dirs == old(self)@.dirs + dir_chain(p@),
            final(self)@.log == old(self)@.log.push(OpView::CreateDir(p@)),
            extends(old(self)@, final(self)@),
    {
        let pc = chars_of(p);
        let mut i: usize = 0;
        while i < pc.len()
            invariant
                pc@ == p@,
                i <= pc@.len(),
                self@.files == old(self)@.files,
                self@.log == old(self)@.log,
                self@.loaded_files == old(self)@.loaded_files,
                self@.loaded_dirs == old(self)@.loaded_dirs,
                self@.dirs == old(self)@.dirs + dir_prefixes(p@, i as int),
            decreases pc@.len() - i,
        {
            let ghost before = self@.dirs;
            if pc[i] == '/' && i > 0 {
                let mut pre: Vec<char> = Vec::new();
                push_all(&mut pre, vstd::slice::slice_subrange(pc.as_slice(), 0, i));
                assert(pre@ == p@.take(i as int));
                self.dirs.push(string_of(pre.as_slice()));
                assert(self@.dirs == before.push(p@.take(i as int)));
                assert(dir_prefixes(p@, i + 1) == dir_prefixes(p@, i as int).push(p@.take(i as int)));
                assert(self@.dirs == old(self)@.dirs + dir_prefixes(p@, i + 1));
            } else {
                assert(dir_prefixes(p@, i + 1) == dir_prefixes(p@, i as int));
            }
            i = i + 1;
        }
        let ghost before = self@.dirs;
        self.dirs.push(p.to_string());
        self.log.push(Op::CreateDir(p.to_string()));
        assert(self@.dirs == before.push(p@));
        assert(self@.dirs == old(self)@.dirs + dir_chain(p@));
        assert(self@.log == old(self)@.log.push(OpView::CreateDir(p@)));
        assert(self@.log.drop_last() == old(self)@.log);
        assert(self@.files == old(self)@.files);
    }
}

/// What a move leaves: the file at the destination holds the moved text,
/// the source is gone, and every other path keeps its file.
pub proof fn lemma_rename(fs: Files, a: Seq<char>, b: Seq<char>)
    requires
        unique_paths(fs),
        has_file(fs, a),
    ensures
        unique_paths(rename_files(fs, a, b)),
        file_at(rename_files(fs, a, b), b) == file_at(fs, a),
        a != b ==> !has_file(rename_files(fs, a, b), a),
        forall|q: Seq<char>|
            q != a && q != b ==> file_at(#[trigger] rename_files(fs, a, b), q) == file_at(fs, q),
{
    if a != b {
        let i = index_of_file(fs, a);
        let c = fs[i].1;
        let g = remove_files(fs, b);
        lemma_remove(fs, b);
        assert(g[index_of_file(g, a)].0 == a);
        let k = index_of_file(g, a);
        let h = g.update(k, (b, c));
        assert(h == rename_files(fs, a, b));
        assert(file_at(g, a) == file_at(fs, a));
        assert(g[k].1 == c);
        assert(unique_paths(h)) by {
            assert forall|x: int, y: int| 0 <= x < y < h.len() implies h[x].0 != h[y].0 by {
                if x == k {
                    if g[y].0 == b {
                        assert(has_file(g, b));
                    }
                } else if y == k {
                    if g[x].0 == b {
                        assert(has_file(g, b));
                    }
                }
            }
        }
        assert(h[k].0 == b);
        assert(has_file(h, b));
        assert(index_of_file(h, b) == k);
        assert(!has_file(h, a)) by {
            if has_file(h, a) {
                let j = index_of_file(h, a);
                assert(j != k);
                assert(g[j].0 == a);
            }
        }
        assert forall|q: Seq<char>| q != a && q != b implies file_at(
            #[trigger] rename_files(fs, a, b),
            q,
        ) == file_at(fs, q) by {
            assert(file_at(g, q) == file_at(fs, q));
            if has_file(g, q) {
                let j = index_of_file(g, q);
                assert(j != k);
                assert(h[j] == g[j]);
                assert(has_file(h, q));
                assert(index_of_file(h, q) == j);
            } else {
                if has_file(h, q) {
                    let j = index_of_file(h, q);
                    assert(j != k);
                    assert(has_file(g, q));
                }
            }
        }
    }
}

/// What a deletion leaves: no file at `p`, every other path keeps its file.
pub proof fn lemma_remove(fs: Files, p: Seq<char>)
    requires
        unique_paths(fs),
    ensures
        unique_paths(remove_files(fs, p)),
        !has_file(remove_files(fs, p), p),
        forall|q: Seq<char>| q != p ==> file_at(#[trigger] remove_files(fs, p), q) == file_at(fs, q),
{
    if has_file(fs, p) {
        let i = index_of_file(fs, p);
        let g = fs.remove(i);
        assert forall|x: int, y: int| 0 <= x < y < g.len() implies g[x].0 != g[y].0 by {
            let xi = if x < i { x } else { x + 1 };
            let yi = if y < i { y } else { y + 1 };
            assert(g[x] == fs[xi] && g[y] == fs[yi]);
        }
        assert(!has_file(g, p)) by {
            if has_file(g, p) {
                let j = index_of_file(g, p);
                let ji = if j < i { j } else { j + 1 };
                assert(g[j] == fs[ji]);
            }
        }
        assert forall|q: Seq<char>| q != p implies file_at(#[trigger] remove_files(fs, p), q)
            == file_at(fs, q) by {
            if has_file(fs, q) {
                let j = index_of_file(fs, q);
                assert(j != i);
                let jg = if j < i { j } else { j - 1 };
                assert(g[jg] == fs[j]);
                assert(has_file(g, q));
                assert(index_of_file(g, q) == jg);
            } else if has_file(g, q) {
                let j = index_of_file(g, q);
                let ji = if j < i { j } else { j + 1 };
                assert(g[j] == fs[ji]);
            }
        }
    }
}

/// What a write leaves: the new text at `p`, every other path keeps its file.
pub proof fn lemma_write(fs: Files, p: Seq<char>, c: Seq<char>)
    requires
        unique_paths(fs),
    ensures
        unique_paths(write_files(fs, p, c)),
        file_at(write_files(fs, p, c), p) == Some(c),
        forall|q: Seq<char>| q != p ==> file_at(#[trigger] write_files(fs, p, c), q) == file_at(fs, q),
{
    let h = write_files(fs, p, c);
    if has_file(fs, p) {
        let i = index_of_file(fs, p);
        assert(h[i].0 == p);
        assert(index_of_file(h, p) == i);
        assert forall|q: Seq<char>| q != p implies file_at(#[trigger] write_files(fs, p, c), q)
            == file_at(fs, q) by {
            if has_file(fs, q) {
                let j = index_of_file(fs, q);
                assert(h[j] == fs[j]);
                assert(has_file(h, q));
                assert(index_of_file(h, q) == j);
            } else if has_file(h, q) {
                let j = index_of_file(h, q);
                assert(h[j] == fs[j]);
            }
        }
    } else {
        assert(h[fs.len() as int].0 == p);
        assert(index_of_file(h, p) == fs.len());
        assert forall|q: Seq<char>| q != p implies file_at(#[trigger] write_files(fs, p, c), q)
            == file_at(fs, q) by {
            if has_file(fs, q) {
                let j = index_of_file(fs, q);
                assert(h[j] == fs[j]);
                assert(has_file(h, q));
                assert(index_of_file(h, q) == j);
            } else if has_file(h, q) {
                let j = index_of_file(h, q);
                assert(h[j] == fs[j]);
            }
        }
    }
}

} // verus!
