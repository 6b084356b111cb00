//! A small in-memory hierarchical store: fixed tables of file and directory
//! slots and a current-directory cursor that all names are resolved against.
use vstd::prelude::*;
use vstd::slice::slice_to_vec;
use vstd::string::StringSliceAdditionalSpecFns;

verus! {

pub const MAX_FILES: usize = 32;

pub const MAX_FILENAME_LEN: usize = 32;

pub const MAX_FILE_SIZE: usize = 4096;

/// Size of the buffer that receives the current path.
pub const MAX_PATH_LEN: usize = 128;

pub const MAX_DIRS: usize = 16;

/// The path separator and the root directory's name, `/`.
pub const SLASH: u8 = 47;

/// `.`; twice, the name of the parent directory.
pub const DOT: u8 = 46;

/// The root directory's slot: its own parent, never removed.
pub const ROOT_DIR: usize = 0;

/// Why a file-store operation was refused.
#[derive(Clone, Copy, Debug, PartialEq, Eq, Structural)]
pub enum FsError {
    NameTooLong,
    ContentTooLarge,
    AlreadyExists,
    StoreFull,
    NotFound,
    WouldExceedLimit,
    NotEmpty,
}

// ---------------------------------------------------------------------------
// The abstract model

/// A used file slot.
pub struct FileView {
    pub name: Seq<u8>,
    pub data: Seq<u8>,
    pub parent: int,
}

/// A used directory slot.
pub struct DirView {
    pub name: Seq<u8>,
    pub parent: int,
}

/// The whole store: one entry per slot (`None` for a free slot) and the
/// current directory's slot.
pub struct FsView {
    pub files: Seq<Option<FileView>>,
    pub dirs: Seq<Option<DirView>>,
    pub cur: int,
}

/// One line of a directory listing.
pub enum EntryView {
    File(Seq<u8>, nat),
    Directory(Seq<u8>),
}

/// The first index at or after `from` whose element satisfies `p`.
pub open spec fn find_first<A>(s: Seq<A>, p: spec_fn(A) -> bool, from: int) -> Option<int>
    decreases s.len() - from,
{
    if from < 0 || from >= s.len() {
        None
    } else if p(s[from]) {
        Some(from)
    } else {
        find_first(s, p, from + 1)
    }
}

pub proof fn lemma_find_first<A>(s: Seq<A>, p: spec_fn(A) -> bool, from: int)
    requires
        0 <= from,
    ensures
        match find_first(s, p, from) {
            Some(i) => from <= i < s.len() && p(s[i]) && forall|j: int|
                from <= j < i ==> !p(#[trigger] s[j]),
            None => forall|j: int| from <= j < s.len() ==> !p(#[trigger] s[j]),
        },
    decreases s.len() - from,
{
    if from < s.len() && !p(s[from]) {
        lemma_find_first(s, p, from + 1);
    }
}

/// Searching a sequence in which one element was replaced.
pub proof fn lemma_find_first_update<A>(s: Seq<A>, p: spec_fn(A) -> bool, i: int, x: A)
    requires
        0 <= i < s.len(),
    ensures
        p(x) && find_first(s, p, 0) is None ==> find_first(s.update(i, x), p, 0) == Some(i),
        p(x) && find_first(s, p, 0) == Some(i) ==> find_first(s.update(i, x), p, 0) == Some(i),
        !p(x) && !p(s[i]) ==> find_first(s.update(i, x), p, 0) == find_first(s, p, 0),
{
    let t = s.update(i, x);
    lemma_find_first(s, p, 0);
    lemma_find_first(t, p, 0);
    if p(x) && (find_first(s, p, 0) is None || find_first(s, p, 0) == Some(i)) {
        assert(p(t[i]));
        if find_first(t, p, 0) != Some(i) {
            let k = find_first(t, p, 0)->Some_0;
            assert(p(t[k]));
            if k < i {
                assert(t[k] == s[k]);
            }
        }
    }
    if !p(x) && !p(s[i]) {
        if let Some(k) = find_first(s, p, 0) {
            assert(k != i);
            assert(t[k] == s[k]);
            if find_first(t, p, 0) != Some(k) {
                let m = find_first(t, p, 0);
                if let Some(mm) = m {
                    assert(t[mm] == s[mm] || mm == i);
                }
            }
        } else {
            if let Some(mm) = find_first(t, p, 0) {
                assert(t[mm] == s[mm] || mm == i);
            }
        }
    }
}

pub open spec fn file_pred(dir: int, name: Seq<u8>) -> spec_fn(Option<FileView>) -> bool {
    |s: Option<FileView>| s matches Some(f) && f.parent == dir && f.name == name
}

pub open spec fn dir_pred(parent: int, name: Seq<u8>) -> spec_fn(Option<DirView>) -> bool {
    |s: Option<DirView>| s matches Some(d) && d.parent == parent && d.name == name
}

pub open spec fn free_file_pred() -> spec_fn(Option<FileView>) -> bool {
    |s: Option<FileView>| s is None
}

pub open spec fn free_dir_pred() -> spec_fn(Option<DirView>) -> bool {
    |s: Option<DirView>| s is None
}

pub open spec fn root_name() -> Seq<u8> {
    seq![SLASH]
}

pub open spec fn parent_name() -> Seq<u8> {
    seq![DOT, DOT]
}

/// Name of the file that a fresh store is seeded with.
pub const WELCOME_FILE_NAME: &'static str = "readme.hx";

/// Content of the file that a fresh store is seeded with.
pub const WELCOME_TEXT: &'static str = "Welcome to HexiumOS!\n\nThis is a simple in-memory file system.\nUse 'help' to see available commands.\n";

/// Whether walking parent links from directory `d` reaches the root within
/// `f` steps.
pub open spec fn reaches_root(dirs: Seq<Option<DirView>>, d: int, f: nat) -> bool
    decreases f,
{
    d == 0 || (f > 0 && 0 <= d < dirs.len() && dirs[d] is Some && reaches_root(
        dirs,
        dirs[d]->Some_0.parent,
        (f - 1) as nat,
    ))
}

/// Parent links form no cycle: from every directory the walk reaches the
/// root.
#[verifier::opaque]
pub open spec fn all_reach_root(dirs: Seq<Option<DirView>>) -> bool {
    forall|d: int|
        0 <= d < dirs.len() && #[trigger] dirs[d] is Some ==> exists|f: nat| reaches_root(dirs, d, f)
}

impl FsView {
    /// The directory the store starts in: the root alone, and no files.
    pub open spec fn initial() -> FsView {
        FsView {
            files: Seq::new(MAX_FILES as nat, |i: int| None),
            dirs: Seq::new(
                MAX_DIRS as nat,
                |i: int|
                    if i == 0 {
                        Some(DirView { name: root_name(), parent: 0 })
                    } else {
                        None
                    },
            ),
            cur: 0,
        }
    }

    pub open spec fn used_dir(self, d: int) -> bool {
        0 <= d < self.dirs.len() && self.dirs[d] is Some
    }

    pub open spec fn wf(self) -> bool {
        &&& self.files.len() == MAX_FILES
        &&& self.dirs.len() == MAX_DIRS
        &&& self.dirs[0] == Some(DirView { name: root_name(), parent: 0 })
        &&& self.used_dir(self.cur)
        &&& all_reach_root(self.dirs)
        &&& forall|i: int|
            #![trigger self.dirs[i]]
            0 <= i < MAX_DIRS && self.dirs[i] is Some ==> {
                let d = self.dirs[i]->Some_0;
                &&& self.used_dir(d.parent)
                &&& (i != 0 ==> d.parent != i)
                &&& d.name.len() <= MAX_FILENAME_LEN
            }
        &&& forall|i: int|
            #![trigger self.files[i]]
            0 <= i < MAX_FILES && self.files[i] is Some ==> {
                let f = self.files[i]->Some_0;
                &&& f.name.len() <= MAX_FILENAME_LEN
                &&& f.data.len() <= MAX_FILE_SIZE
                &&& 0 <= f.parent < MAX_DIRS
            }
        &&& forall|i: int, j: int|
            #![trigger self.files[i], self.files[j]]
            0 <= i < MAX_FILES && 0 <= j < MAX_FILES && i != j && self.files[i] is Some
                && self.files[j] is Some ==> !(self.files[i]->Some_0.parent
                == self.files[j]->Some_0.parent && self.files[i]->Some_0.name
                == self.files[j]->Some_0.name)
        &&& forall|i: int, j: int|
            #![trigger self.dirs[i], self.dirs[j]]
            0 <= i < MAX_DIRS && 0 <= j < MAX_DIRS && i != j && self.dirs[i] is Some
                && self.dirs[j] is Some ==> !(self.dirs[i]->Some_0.parent
                == self.dirs[j]->Some_0.parent && self.dirs[i]->Some_0.name
                == self.dirs[j]->Some_0.name)
    }

    /// Slot of the file `name` in directory `dir`.
    pub open spec fn file_index(self, dir: int, name: Seq<u8>) -> Option<int> {
        find_first(self.files, file_pred(dir, name), 0)
    }

    /// Slot of the sub-directory `name` of `parent`, searched from `from`.
    pub open spec fn dir_index(self, parent: int, name: Seq<u8>, from: int) -> Option<int> {
        find_first(self.dirs, dir_pred(parent, name), from)
    }

    /// Content of the file `name` in directory `dir`.
    pub open spec fn lookup(self, dir: int, name: Seq<u8>) -> Option<Seq<u8>> {
        match self.file_index(dir, name) {
            Some(i) => Some(self.files[i]->Some_0.data),
            None => None,
        }
    }

    /// Content of the file `name` in the current directory.
    pub open spec fn read(self, name: Seq<u8>) -> Option<Seq<u8>> {
        self.lookup(self.cur, name)
    }

    /// Entries for the sub-directories of the current directory among the
    /// first `n` directory slots, in slot order.
    pub open spec fn dir_entries(self, n: int) -> Seq<EntryView>
        decreases n,
    {
        if n <= 0 {
            Seq::empty()
        } else {
            let i = n - 1;
            self.dir_entries(i) + if i != 0 && self.dirs[i] is Some && self.dirs[i]->Some_0.parent
                == self.cur {
                seq![EntryView::Directory(self.dirs[i]->Some_0.name)]
            } else {
                Seq::empty()
            }
        }
    }

    /// Entries for the files of the current directory among the first `n`
    /// file slots, in slot order.
    pub open spec fn file_entries(self, n: int) -> Seq<EntryView>
        decreases n,
    {
        if n <= 0 {
            Seq::empty()
        } else {
            let i = n - 1;
            self.file_entries(i) + if self.files[i] is Some && self.files[i]->Some_0.parent
                == self.cur {
                seq![
                    EntryView::File(
                        self.files[i]->Some_0.name,
                        self.files[i]->Some_0.data.len(),
                    ),
                ]
            } else {
                Seq::empty()
            }
        }
    }

    /// What a listing of the current directory shows: its directories, then
    /// its files.
    pub open spec fn listing(self) -> Seq<EntryView> {
        self.dir_entries(MAX_DIRS as int) + self.file_entries(MAX_FILES as int)
    }

    /// Slots from directory `d` up to the root (the root excluded), nearest
    /// first, at most `fuel` of them.
    pub open spec fn ancestry(self, d: int, fuel: nat) -> Seq<int>
        decreases fuel,
    {
        if fuel == 0 || d == 0 || !self.used_dir(d) {
            Seq::empty()
        } else {
            seq![d] + self.ancestry(self.dirs[d]->Some_0.parent, (fuel - 1) as nat)
        }
    }

    /// `/name` for each slot of `chain`, outermost (last) first.
    pub open spec fn join_path(self, chain: Seq<int>) -> Seq<u8>
        decreases chain.len(),
    {
        if chain.len() == 0 {
            Seq::empty()
        } else {
            self.join_path(chain.drop_first()) + seq![SLASH] + self.dirs[chain[0]]->Some_0.name
        }
    }

    /// A number of steps in which the walk from `d` reaches the root.
    pub open spec fn root_fuel(self, d: int) -> nat {
        choose|f: nat| reaches_root(self.dirs, d, f)
    }

    /// Absolute path of the current directory, rebuilt by walking parent
    /// links all the way up to the root; the root itself is `/`.
    pub open spec fn path(self) -> Seq<u8> {
        if self.cur == 0 {
            root_name()
        } else {
            self.join_path(self.ancestry(self.cur, self.root_fuel(self.cur)))
        }
    }

    pub open spec fn with_file(self, i: int, f: Option<FileView>) -> FsView {
        FsView { files: self.files.update(i, f), ..self }
    }

    pub open spec fn with_dir(self, i: int, d: Option<DirView>) -> FsView {
        FsView { dirs: self.dirs.update(i, d), ..self }
    }

    pub open spec fn create(self, name: Seq<u8>, content: Seq<u8>) -> (Result<(), FsError>, FsView) {
        if name.len() > MAX_FILENAME_LEN {
            (Err(FsError::NameTooLong), self)
        } else if content.len() > MAX_FILE_SIZE {
            (Err(FsError::ContentTooLarge), self)
        } else if self.file_index(self.cur, name) is Some {
            (Err(FsError::AlreadyExists), self)
        } else {
            match find_first(self.files, free_file_pred(), 0) {
                None => (Err(FsError::StoreFull), self),
                Some(i) => (
                    Ok(()),
                    self.with_file(i, Some(FileView { name, data: content, parent: self.cur })),
                ),
            }
        }
    }

    pub open spec fn write(self, name: Seq<u8>, content: Seq<u8>) -> (Result<(), FsError>, FsView) {
        if content.len() > MAX_FILE_SIZE {
            (Err(FsError::ContentTooLarge), self)
        } else {
            match self.file_index(self.cur, name) {
                Some(i) => (
                    Ok(()),
                    self.with_file(i, Some(FileView { data: content, ..self.files[i]->Some_0 })),
                ),
                None => self.create(name, content),
            }
        }
    }

    pub open spec fn append(self, name: Seq<u8>, content: Seq<u8>) -> (Result<(), FsError>, FsView) {
        match self.file_index(self.cur, name) {
            Some(i) => {
                let f = self.files[i]->Some_0;
                if f.data.len() + content.len() > MAX_FILE_SIZE {
                    (Err(FsError::WouldExceedLimit), self)
                } else {
                    (Ok(()), self.with_file(i, Some(FileView { data: f.data + content, ..f })))
                }
            },
            None => (Err(FsError::NotFound), self),
        }
    }

    pub open spec fn delete(self, name: Seq<u8>) -> (Result<(), FsError>, FsView) {
        match self.file_index(self.cur, name) {
            Some(i) => (Ok(()), self.with_file(i, None)),
            None => (Err(FsError::NotFound), self),
        }
    }

    pub open spec fn mkdir(self, name: Seq<u8>) -> (Result<(), FsError>, FsView) {
        if name.len() > MAX_FILENAME_LEN {
            (Err(FsError::NameTooLong), self)
        } else if self.dir_index(self.cur, name, 0) is Some {
            (Err(FsError::AlreadyExists), self)
        } else {
            match find_first(self.dirs, free_dir_pred(), 1) {
                None => (Err(FsError::StoreFull), self),
                Some(i) => (Ok(()), self.with_dir(i, Some(DirView { name, parent: self.cur }))),
            }
        }
    }

    pub open spec fn cd(self, name: Seq<u8>) -> (Result<(), FsError>, FsView) {
        if name == parent_name() {
            (Ok(()), FsView { cur: self.dirs[self.cur]->Some_0.parent, ..self })
        } else if name == root_name() {
            (Ok(()), FsView { cur: 0, ..self })
        } else {
            match self.dir_index(self.cur, name, 0) {
                Some(i) => (Ok(()), FsView { cur: i, ..self }),
                None => (Err(FsError::NotFound), self),
            }
        }
    }

    /// Whether some file or some directory other than the root lies in `d`.
    pub open spec fn has_children(self, d: int) -> bool {
        ||| exists|j: int|
            0 <= j < self.files.len() && #[trigger] self.files[j] is Some
                && self.files[j]->Some_0.parent == d
        ||| exists|j: int|
            1 <= j < self.dirs.len() && #[trigger] self.dirs[j] is Some
                && self.dirs[j]->Some_0.parent == d
    }

    pub open spec fn rmdir(self, name: Seq<u8>) -> (Result<(), FsError>, FsView) {
        match self.dir_index(self.cur, name, 1) {
            None => (Err(FsError::NotFound), self),
            Some(i) => if self.has_children(i) {
                (Err(FsError::NotEmpty), self)
            } else {
                (Ok(()), self.with_dir(i, None))
            },
        }
    }
}

// ---------------------------------------------------------------------------
// Every operation keeps the model well formed

pub proof fn lemma_create_wf(v: FsView, name: Seq<u8>, content: Seq<u8>)
    requires
        v.wf(),
    ensures
        v.create(name, content).1.wf(),
{
    if let (Ok(()), w) = v.create(name, content) {
        let i = find_first(v.files, free_file_pred(), 0)->Some_0;
        lemma_find_first(v.files, free_file_pred(), 0);
        lemma_find_first(v.files, file_pred(v.cur, name), 0);
        assert forall|a: int, b: int|
            0 <= a < MAX_FILES && 0 <= b < MAX_FILES && a != b && w.files[a] is Some
                && w.files[b] is Some implies !(w.files[a]->Some_0.parent
            == w.files[b]->Some_0.parent && w.files[a]->Some_0.name
            == w.files[b]->Some_0.name) by {
            if a == i {
                assert(!file_pred(v.cur, name)(v.files[b]));
            } else if b == i {
                assert(!file_pred(v.cur, name)(v.files[a]));
            }
        }
    }
}

pub proof fn lemma_write_wf(v: FsView, name: Seq<u8>, content: Seq<u8>)
    requires
        v.wf(),
    ensures
        v.write(name, content).1.wf(),
{
    lemma_create_wf(v, name, content);
    lemma_find_first(v.files, file_pred(v.cur, name), 0);
    let w = v.write(name, content).1;
    if content.len() <= MAX_FILE_SIZE && v.file_index(v.cur, name) is Some {
        let i = v.file_index(v.cur, name)->Some_0;
        assert forall|a: int, b: int|
            0 <= a < MAX_FILES && 0 <= b < MAX_FILES && a != b && w.files[a] is Some
                && w.files[b] is Some implies !(w.files[a]->Some_0.parent
            == w.files[b]->Some_0.parent && w.files[a]->Some_0.name
            == w.files[b]->Some_0.name) by {
            assert(v.files[a] is Some && v.files[b] is Some);
        }
    }
}

pub proof fn lemma_append_wf(v: FsView, name: Seq<u8>, content: Seq<u8>)
    requires
        v.wf(),
    ensures
        v.append(name, content).1.wf(),
{
    lemma_find_first(v.files, file_pred(v.cur, name), 0);
    let w = v.append(name, content).1;
    if v.append(name, content).0 is Ok {
        assert forall|a: int, b: int|
            0 <= a < MAX_FILES && 0 <= b < MAX_FILES && a != b && w.files[a] is Some
                && w.files[b] is Some implies !(w.files[a]->Some_0.parent
            == w.files[b]->Some_0.parent && w.files[a]->Some_0.name
            == w.files[b]->Some_0.name) by {
            assert(v.files[a] is Some && v.files[b] is Some);
        }
    }
}

pub proof fn lemma_delete_wf(v: FsView, name: Seq<u8>)
    requires
        v.wf(),
    ensures
        v.delete(name).1.wf(),
{
    lemma_find_first(v.files, file_pred(v.cur, name), 0);
    let w = v.delete(name).1;
    assert forall|a: int, b: int|
        0 <= a < MAX_FILES && 0 <= b < MAX_FILES && a != b && w.files[a] is Some
            && w.files[b] is Some implies !(w.files[a]->Some_0.parent == w.files[b]->Some_0.parent
        && w.files[a]->Some_0.name == w.files[b]->Some_0.name) by {
        assert(v.files[a] is Some && v.files[b] is Some);
    }
}

/// Adding a directory under the current one keeps every walk reaching the
/// root.
proof fn lemma_all_reach_after_insert(v: FsView, i: int, x: DirView)
    requires
        v.wf(),
        1 <= i < MAX_DIRS,
        v.dirs[i] is None,
        x.parent == v.cur,
    ensures
        all_reach_root(v.dirs.update(i, Some(x))),
{
    let u = v.dirs.update(i, Some(x));
    reveal(all_reach_root);
    assert forall|d: int| 0 <= d < u.len() && #[trigger] u[d] is Some implies exists|f: nat|
        reaches_root(u, d, f) by {
        if d == i {
            assert(v.dirs[v.cur] is Some);
            let f = choose|f: nat| reaches_root(v.dirs, v.cur, f);
            lemma_reach_frame(v, u, i, v.cur, f);
            assert(reaches_root(u, i, f + 1));
        } else {
            assert(v.dirs[d] is Some);
            let f = choose|f: nat| reaches_root(v.dirs, d, f);
            lemma_reach_frame(v, u, i, d, f);
        }
    }
}

/// Removing a directory without sub-directories keeps every other walk
/// reaching the root.
proof fn lemma_all_reach_after_removal(v: FsView, i: int)
    requires
        v.wf(),
        1 <= i < MAX_DIRS,
        !v.has_children(i),
    ensures
        all_reach_root(v.dirs.update(i, None)),
{
    let u = v.dirs.update(i, None);
    reveal(all_reach_root);
    assert forall|d: int| 0 <= d < u.len() && #[trigger] u[d] is Some implies exists|f: nat|
        reaches_root(u, d, f) by {
        assert(d != i);
        assert(v.dirs[d] is Some);
        let f = choose|f: nat| reaches_root(v.dirs, d, f);
        lemma_reach_after_removal(v, i, d, f);
    }
}

pub proof fn lemma_mkdir_wf(v: FsView, name: Seq<u8>)
    requires
        v.wf(),
    ensures
        v.mkdir(name).1.wf(),
{
    if let (Ok(()), w) = v.mkdir(name) {
        let i = find_first(v.dirs, free_dir_pred(), 1)->Some_0;
        lemma_find_first(v.dirs, free_dir_pred(), 1);
        lemma_find_first(v.dirs, dir_pred(v.cur, name), 0);
        assert(v.dirs[v.cur] is Some);
        assert(i != v.cur);
        lemma_all_reach_after_insert(v, i, DirView { name, parent: v.cur });
        assert forall|a: int|
            #![trigger w.dirs[a]]
            0 <= a < MAX_DIRS && w.dirs[a] is Some implies {
            let d = w.dirs[a]->Some_0;
            &&& w.used_dir(d.parent)
            &&& (a != 0 ==> d.parent != a)
            &&& d.name.len() <= MAX_FILENAME_LEN
        } by {
            if a != i {
                assert(v.dirs[a] is Some);
                assert(v.used_dir(v.dirs[a]->Some_0.parent));
            }
        }
        assert forall|a: int, b: int|
            0 <= a < MAX_DIRS && 0 <= b < MAX_DIRS && a != b && w.dirs[a] is Some
                && w.dirs[b] is Some implies !(w.dirs[a]->Some_0.parent
            == w.dirs[b]->Some_0.parent && w.dirs[a]->Some_0.name
            == w.dirs[b]->Some_0.name) by {
            if a == i {
                assert(!dir_pred(v.cur, name)(v.dirs[b]));
            } else if b == i {
                assert(!dir_pred(v.cur, name)(v.dirs[a]));
            }
        }
    }
}

pub proof fn lemma_cd_wf(v: FsView, name: Seq<u8>)
    requires
        v.wf(),
    ensures
        v.cd(name).1.wf(),
{
    lemma_find_first(v.dirs, dir_pred(v.cur, name), 0);
    assert(v.dirs[v.cur] is Some);
}

pub proof fn lemma_rmdir_wf(v: FsView, name: Seq<u8>)
    requires
        v.wf(),
    ensures
        v.rmdir(name).1.wf(),
{
    lemma_find_first(v.dirs, dir_pred(v.cur, name), 1);
    if let (Ok(()), w) = v.rmdir(name) {
        let i = v.dir_index(v.cur, name, 1)->Some_0;
        assert(v.dirs[i] is Some);
        assert(v.dirs[v.cur] is Some);
        assert(v.cur != i);
        lemma_all_reach_after_removal(v, i);
        assert forall|a: int|
            #![trigger w.dirs[a]]
            0 <= a < MAX_DIRS && w.dirs[a] is Some implies {
            let d = w.dirs[a]->Some_0;
            &&& w.used_dir(d.parent)
            &&& (a != 0 ==> d.parent != a)
            &&& d.name.len() <= MAX_FILENAME_LEN
        } by {
            assert(v.dirs[a] is Some);
            if a != 0 {
                assert(v.dirs[a]->Some_0.parent != i);
            }
        }
        assert forall|a: int, b: int|
            0 <= a < MAX_DIRS && 0 <= b < MAX_DIRS && a != b && w.dirs[a] is Some
                && w.dirs[b] is Some implies !(w.dirs[a]->Some_0.parent
            == w.dirs[b]->Some_0.parent && w.dirs[a]->Some_0.name
            == w.dirs[b]->Some_0.name) by {
            assert(v.dirs[a] is Some && v.dirs[b] is Some);
        }
    }
}

/// Once the walk from `d` reaches the root within `f` steps, a larger
/// budget finds the same directories.
pub proof fn lemma_ancestry_fuel(v: FsView, d: int, f: nat, g: nat)
    requires
        reaches_root(v.dirs, d, f),
        f <= g,
    ensures
        v.ancestry(d, g) == v.ancestry(d, f),
    decreases f,
{
    if d != 0 {
        lemma_ancestry_fuel(v, v.dirs[d]->Some_0.parent, (f - 1) as nat, (g - 1) as nat);
    }
}

/// Two budgets that both reach the root find the same directories.
pub proof fn lemma_ancestry_any_fuel(v: FsView, d: int, f: nat, g: nat)
    requires
        reaches_root(v.dirs, d, f),
        reaches_root(v.dirs, d, g),
    ensures
        v.ancestry(d, g) == v.ancestry(d, f),
{
    if f <= g {
        lemma_ancestry_fuel(v, d, f, g);
    } else {
        lemma_ancestry_fuel(v, d, g, f);
    }
}

/// A walk from a directory other than the free slot `i` is not changed by
/// a change to slot `i`.
proof fn lemma_reach_frame(v: FsView, u: Seq<Option<DirView>>, i: int, d: int, f: nat)
    requires
        v.wf(),
        0 <= i < MAX_DIRS,
        v.dirs[i] is None,
        u.len() == v.dirs.len(),
        forall|j: int| 0 <= j < v.dirs.len() && j != i ==> #[trigger] u[j] == v.dirs[j],
        d != i,
    ensures
        reaches_root(u, d, f) == reaches_root(v.dirs, d, f),
    decreases f,
{
    if d != 0 && f > 0 && 0 <= d < MAX_DIRS {
        assert(u[d] == v.dirs[d]);
        if v.dirs[d] is Some {
            let p = v.dirs[d]->Some_0.parent;
            assert(v.used_dir(p));
            lemma_reach_frame(v, u, i, p, (f - 1) as nat);
        }
    }
}

/// Freeing a directory that has no sub-directory leaves every other walk to
/// the root as it was.
proof fn lemma_reach_after_removal(v: FsView, i: int, d: int, f: nat)
    requires
        v.wf(),
        1 <= i < MAX_DIRS,
        !v.has_children(i),
        d != i,
        reaches_root(v.dirs, d, f),
    ensures
        reaches_root(v.dirs.update(i, None), d, f),
    decreases f,
{
    let u = v.dirs.update(i, None);
    if d != 0 {
        assert(u[d] == v.dirs[d]);
        let p = v.dirs[d]->Some_0.parent;
        if p == i {
            assert(1 <= d < v.dirs.len() && v.dirs[d] is Some && v.dirs[d]->Some_0.parent == i);
            assert(v.has_children(i));
        }
        lemma_reach_after_removal(v, i, p, (f - 1) as nat);
    }
}

/// Every slot on the way up from a directory is a used directory.
pub proof fn lemma_ancestry_used(v: FsView, d: int, fuel: nat)
    ensures
        forall|k: int|
            0 <= k < v.ancestry(d, fuel).len() ==> v.used_dir(#[trigger] v.ancestry(d, fuel)[k]),
    decreases fuel,
{
    if !(fuel == 0 || d == 0 || !v.used_dir(d)) {
        let rest = v.ancestry(v.dirs[d]->Some_0.parent, (fuel - 1) as nat);
        lemma_ancestry_used(v, v.dirs[d]->Some_0.parent, (fuel - 1) as nat);
        assert forall|k: int| 0 <= k < v.ancestry(d, fuel).len() implies v.used_dir(
            #[trigger] v.ancestry(d, fuel)[k],
        ) by {
            if k > 0 {
                assert(v.ancestry(d, fuel)[k] == rest[k - 1]);
            }
        }
    }
}

// ---------------------------------------------------------------------------
// Laws of the store

/// Round trip: after a successful create or write, reading the name back
/// gives the content just stored; after a successful delete, reading it gives
/// nothing.
pub proof fn lemma_file_round_trip(v: FsView, name: Seq<u8>, content: Seq<u8>)
    requires
        v.wf(),
    ensures
        v.create(name, content).0 is Ok ==> v.create(name, content).1.read(name) == Some(content),
        v.write(name, content).0 is Ok ==> v.write(name, content).1.read(name) == Some(content),
        v.delete(name).0 is Ok ==> v.delete(name).1.read(name) is None,
{
    let p = file_pred(v.cur, name);
    lemma_find_first(v.files, p, 0);
    lemma_find_first(v.files, free_file_pred(), 0);
    if v.create(name, content).0 is Ok {
        let i = find_first(v.files, free_file_pred(), 0)->Some_0;
        lemma_find_first_update(
            v.files,
            p,
            i,
            Some(FileView { name, data: content, parent: v.cur }),
        );
    }
    if content.len() <= MAX_FILE_SIZE && v.file_index(v.cur, name) is Some {
        let i = v.file_index(v.cur, name)->Some_0;
        lemma_find_first_update(
            v.files,
            p,
            i,
            Some(FileView { data: content, ..v.files[i]->Some_0 }),
        );
    }
    if let Some(i) = v.file_index(v.cur, name) {
        let t = v.files.update(i, None);
        lemma_find_first(t, p, 0);
        if let Some(k) = find_first(t, p, 0) {
            assert(t[k] == v.files[k]);
            assert(p(v.files[i]) && p(v.files[k]));
        }
    }
}

/// Directory scoping: creating a file changes no lookup in any other
/// directory, and a create is refused as a duplicate only when the current
/// directory already holds that name, whatever other directories hold.
pub proof fn lemma_directory_scoping(
    v: FsView,
    name: Seq<u8>,
    content: Seq<u8>,
    d: int,
    n: Seq<u8>,
)
    requires
        v.wf(),
        d != v.cur,
    ensures
        v.create(name, content).1.lookup(d, n) == v.lookup(d, n),
        v.create(name, content).0 == Err::<(), FsError>(FsError::AlreadyExists) <==> (
        name.len() <= MAX_FILENAME_LEN && content.len() <= MAX_FILE_SIZE && v.read(name) is Some),
{
    lemma_find_first(v.files, free_file_pred(), 0);
    if v.create(name, content).0 is Ok {
        let i = find_first(v.files, free_file_pred(), 0)->Some_0;
        let x = Some(FileView { name, data: content, parent: v.cur });
        lemma_find_first_update(v.files, file_pred(d, n), i, x);
        let t = v.files.update(i, x);
        lemma_find_first(v.files, file_pred(d, n), 0);
        if let Some(k) = find_first(v.files, file_pred(d, n), 0) {
            assert(k != i);
            assert(t[k] == v.files[k]);
        }
    }
}

/// A directory that holds a file or a sub-directory cannot be removed, and
/// the refusal changes nothing; once it holds neither, removing it succeeds
/// and frees its slot.
pub proof fn lemma_rmdir_guard(v: FsView, name: Seq<u8>)
    requires
        v.wf(),
        v.dir_index(v.cur, name, 1) is Some,
    ensures
        ({
            let i = v.dir_index(v.cur, name, 1)->Some_0;
            &&& v.has_children(i) ==> v.rmdir(name) == (Err::<(), FsError>(FsError::NotEmpty), v)
            &&& !v.has_children(i) ==> v.rmdir(name).0 is Ok && v.rmdir(name).1.dirs[i] is None
        }),
{
    lemma_find_first(v.dirs, dir_pred(v.cur, name), 1);
}

/// Walking up from a directory other than `i` does not see a change made to
/// the free slot `i`.
proof fn lemma_ancestry_frame(v: FsView, u: FsView, i: int, d: int, fuel: nat)
    requires
        v.wf(),
        0 <= i < MAX_DIRS,
        v.dirs[i] is None,
        u.dirs.len() == v.dirs.len(),
        forall|j: int| 0 <= j < v.dirs.len() && j != i ==> #[trigger] u.dirs[j] == v.dirs[j],
        d != i,
    ensures
        u.ancestry(d, fuel) == v.ancestry(d, fuel),
    decreases fuel,
{
    if 0 <= d < MAX_DIRS {
        assert(u.dirs[d] == v.dirs[d]);
    }
    assert(u.used_dir(d) == v.used_dir(d));
    if !(fuel == 0 || d == 0 || !v.used_dir(d)) {
        let p = v.dirs[d]->Some_0.parent;
        assert(v.used_dir(p));
        lemma_ancestry_frame(v, u, i, p, (fuel - 1) as nat);
    }
}

/// Rebuilding a path through slots other than `i` does not see a change
/// made to slot `i`.
proof fn lemma_join_path_frame(v: FsView, u: FsView, i: int, chain: Seq<int>)
    requires
        u.dirs.len() == v.dirs.len(),
        forall|j: int| 0 <= j < v.dirs.len() && j != i ==> #[trigger] u.dirs[j] == v.dirs[j],
        forall|k: int| 0 <= k < chain.len() ==> #[trigger] chain[k] != i,
        forall|k: int| 0 <= k < chain.len() ==> 0 <= #[trigger] chain[k] < v.dirs.len(),
    ensures
        u.join_path(chain) == v.join_path(chain),
    decreases chain.len(),
{
    if chain.len() > 0 {
        lemma_join_path_frame(v, u, i, chain.drop_first());
        assert(chain[0] != i);
        assert(u.dirs[chain[0]] == v.dirs[chain[0]]);
    }
}

/// Path reconstruction: making a directory and entering it extends the
/// current path by `/` and the new name, provided the name is neither `..`
/// nor `/` (which `cd` reads as moves).
pub proof fn lemma_path_after_mkdir_cd(v: FsView, name: Seq<u8>)
    requires
        v.wf(),
        v.mkdir(name).0 is Ok,
        name != parent_name(),
        name != root_name(),
    ensures
        v.mkdir(name).1.cd(name).0 is Ok,
        v.mkdir(name).1.cd(name).1.path() == (if v.cur == 0 {
            Seq::empty()
        } else {
            v.path()
        }) + seq![SLASH] + name,
{
    let i = find_first(v.dirs, free_dir_pred(), 1)->Some_0;
    lemma_find_first(v.dirs, free_dir_pred(), 1);
    let x = Some(DirView { name, parent: v.cur });
    let w = v.mkdir(name).1;
    assert(name.len() <= MAX_FILENAME_LEN);
    assert(v.dir_index(v.cur, name, 0) is None);
    assert(find_first(v.dirs, free_dir_pred(), 1) == Some(i));
    assert(w == v.with_dir(i, x));
    lemma_find_first_update(v.dirs, dir_pred(v.cur, name), i, x);
    assert(w.dir_index(v.cur, name, 0) == Some(i));
    let z = w.cd(name).1;
    assert(z.cur == i);
    assert(z.dirs == w.dirs);
    assert(v.used_dir(v.cur));
    reveal(all_reach_root);
    let f = v.root_fuel(v.cur);
    assert(reaches_root(v.dirs, v.cur, f));
    assert forall|j: int| 0 <= j < v.dirs.len() && j != i implies #[trigger] z.dirs[j]
        == v.dirs[j] by {}
    lemma_reach_frame(v, z.dirs, i, v.cur, f);
    assert(reaches_root(z.dirs, i, f + 1));
    let big = z.root_fuel(i);
    assert(reaches_root(z.dirs, i, big));
    lemma_ancestry_any_fuel(z, i, f + 1, big);
    lemma_ancestry_frame(v, z, i, v.cur, f);
    let a = v.ancestry(v.cur, f);
    assert(z.ancestry(v.cur, f) == a);
    assert(z.ancestry(i, f + 1) == seq![i] + a);
    lemma_ancestry_used(v, v.cur, f);
    assert forall|k: int| 0 <= k < a.len() implies #[trigger] a[k] != i && 0 <= a[k] < MAX_DIRS by {
        assert(v.used_dir(a[k]));
    }
    lemma_join_path_frame(v, z, i, a);
    assert((seq![i] + a).drop_first() =~= a);
    assert(z.join_path(seq![i] + a) == z.join_path(a) + seq![SLASH] + name);
    if v.cur == 0 {
        assert(a =~= Seq::<int>::empty());
    }
}

// ---------------------------------------------------------------------------
// Byte helpers

/// Byte-wise equality of two names.
pub fn bytes_eq(a: &[u8], b: &[u8]) -> (r: bool)
    ensures
        r == (a@ == b@),
{
    if a.len() != b.len() {
        return false;
    }
    let mut i: usize = 0;
    while i < a.len()
        invariant
            a@.len() == b@.len(),
            0 <= i <= a@.len(),
            forall|k: int| 0 <= k < i ==> a@[k] == b@[k],
        decreases a.len() - i,
    {
        if a[i] != b[i] {
            return false;
        }
        i += 1;
    }
    assert(a@ =~= b@);
    true
}

/// `a` followed by `b`, as a new vector.
pub fn concat_bytes(a: &[u8], b: &[u8]) -> (r: Vec<u8>)
    ensures
        r@ == a@ + b@,
{
    let mut r = slice_to_vec(a);
    let mut i: usize = 0;
    while i < b.len()
        invariant
            0 <= i <= b@.len(),
            r@ == a@ + b@.take(i as int),
        decreases b.len() - i,
    {
        r.push(b[i]);
        i += 1;
        assert(a@ + b@.take(i as int) =~= (a@ + b@.take(i - 1)).push(b@[i - 1]));
    }
    assert(b@.take(b@.len() as int) =~= b@);
    r
}

// ---------------------------------------------------------------------------
// The store

/// A file slot. `is_used` tells a live file from a free slot.
pub struct File {
    pub name: Vec<u8>,
    pub data: Vec<u8>,
    pub is_used: bool,
    pub parent_dir: usize,
}

impl File {
    pub open spec fn slot(&self) -> Option<FileView> {
        if self.is_used {
            Some(FileView { name: self.name@, data: self.data@, parent: self.parent_dir as int })
        } else {
            None
        }
    }

    /// A free slot.
    pub fn empty() -> (r: Self)
        ensures
            r.slot() is None,
            r.name@.len() == 0,
            r.data@.len() == 0,
            r.parent_dir == 0,
    {
        File { name: Vec::new(), data: Vec::new(), is_used: false, parent_dir: 0 }
    }
}

/// A directory slot. A directory is known by its slot, not by its path.
pub struct Directory {
    pub name: Vec<u8>,
    pub is_used: bool,
    pub parent_dir: usize,
}

impl Directory {
    pub open spec fn slot(&self) -> Option<DirView> {
        if self.is_used {
            Some(DirView { name: self.name@, parent: self.parent_dir as int })
        } else {
            None
        }
    }

    /// A free slot.
    pub fn empty() -> (r: Self)
        ensures
            r.slot() is None,
            r.name@.len() == 0,
            r.parent_dir == 0,
    {
        Directory { name: Vec::new(), is_used: false, parent_dir: 0 }
    }
}

/// One line of a directory listing: a file with its size, or a directory.
pub enum FileEntry {
    File(Vec<u8>, usize),
    Directory(Vec<u8>),
}

impl View for FileEntry {
    type V = EntryView;

    open spec fn view(&self) -> EntryView {
        match self {
            FileEntry::File(name, size) => EntryView::File(name@, *size as nat),
            FileEntry::Directory(name) => EntryView::Directory(name@),
        }
    }
}

/// The entries of one listing, handed out one at a time.
pub struct FileIterator {
    entries: Vec<FileEntry>,
}

impl View for FileIterator {
    type V = Seq<EntryView>;

    /// The entries not yet handed out.
    closed spec fn view(&self) -> Seq<EntryView> {
        self.entries@.map_values(|e: FileEntry| e@)
    }
}

impl FileIterator {
    /// The next entry of the listing, if any is left.
    pub fn next(&mut self) -> (r: Option<FileEntry>)
        ensures
            match r {
                Some(e) => old(self)@.len() > 0 && e@ == old(self)@[0] && final(self)@
                    == old(self)@.drop_first(),
                None => old(self)@.len() == 0 && final(self)@ == old(self)@,
            },
    {
        if self.entries.len() == 0 {
            None
        } else {
            let ghost before = self@;
            let e = self.entries.remove(0);
            assert(self@ =~= before.drop_first());
            Some(e)
        }
    }
}

pub struct FileSystem {
    files: Vec<File>,
    directories: Vec<Directory>,
    current_dir: usize,
}

impl View for FileSystem {
    type V = FsView;

    closed spec fn view(&self) -> FsView {
        FsView {
            files: self.files@.map_values(|f: File| f.slot()),
            dirs: self.directories@.map_values(|d: Directory| d.slot()),
            cur: self.current_dir as int,
        }
    }
}

impl FileSystem {
    pub open spec fn wf(&self) -> bool {
        self@.wf()
    }

    /// An empty store: the root directory alone, which is current.
    pub fn new() -> (r: Self)
        ensures
            r.wf(),
            r@ == FsView::initial(),
    {
        let mut files: Vec<File> = Vec::new();
        let mut k: usize = 0;
        while k < MAX_FILES
            invariant
                0 <= k <= MAX_FILES,
                files@.len() == k,
                forall|j: int| 0 <= j < k ==> (#[trigger] files@[j]).slot() is None,
            decreases MAX_FILES - k,
        {
            files.push(File::empty());
            k += 1;
        }
        let mut directories: Vec<Directory> = Vec::new();
        let mut root_name_bytes: Vec<u8> = Vec::new();
        root_name_bytes.push(SLASH);
        directories.push(Directory { name: root_name_bytes, is_used: true, parent_dir: ROOT_DIR });
        let mut k: usize = 1;
        while k < MAX_DIRS
            invariant
                1 <= k <= MAX_DIRS,
                directories@.len() == k,
                directories@[0].slot() == Some(DirView { name: root_name(), parent: 0 }),
                forall|j: int| 1 <= j < k ==> (#[trigger] directories@[j]).slot() is None,
            decreases MAX_DIRS - k,
        {
            directories.push(Directory::empty());
            k += 1;
        }
        let r = FileSystem { files, directories, current_dir: ROOT_DIR };
        assert(r@.files =~= FsView::initial().files);
        assert(r@.dirs =~= FsView::initial().dirs);
        proof {
            reveal(all_reach_root);
            assert forall|d: int| 0 <= d < r@.dirs.len() && #[trigger] r@.dirs[d] is Some implies exists|
                f: nat,
            | reaches_root(r@.dirs, d, f) by {
                assert(d == 0);
                assert(reaches_root(r@.dirs, 0, 0));
            }
        }
        r
    }

    /// Slot of the file `name` in the current directory.
    fn find_file(&self, name: &[u8]) -> (r: Option<usize>)
        requires
            self.wf(),
        ensures
            match r {
                Some(i) => i < MAX_FILES && self@.file_index(self@.cur, name@) == Some(i as int),
                None => self@.file_index(self@.cur, name@) is None,
            },
    {
        let ghost p = file_pred(self@.cur, name@);
        let mut i: usize = 0;
        while i < MAX_FILES
            invariant
                0 <= i <= MAX_FILES,
                self.wf(),
                p == file_pred(self@.cur, name@),
                find_first(self@.files, p, 0) == find_first(self@.files, p, i as int),
            decreases MAX_FILES - i,
        {
            let f = &self.files[i];
            assert(self@.files[i as int] == f.slot());
            if f.is_used && f.parent_dir == self.current_dir && bytes_eq(f.name.as_slice(), name) {
                return Some(i);
            }
            i += 1;
        }
        None
    }

    /// The first free file slot.
    fn find_free_file(&self) -> (r: Option<usize>)
        requires
            self.wf(),
        ensures
            match r {
                Some(i) => i < MAX_FILES && find_first(self@.files, free_file_pred(), 0) == Some(i as int),
                None => find_first(self@.files, free_file_pred(), 0) is None,
            },
    {
        let mut i: usize = 0;
        while i < MAX_FILES
            invariant
                0 <= i <= MAX_FILES,
                self.wf(),
                find_first(self@.files, free_file_pred(), 0) == find_first(
                    self@.files,
                    free_file_pred(),
                    i as int,
                ),
            decreases MAX_FILES - i,
        {
            assert(self@.files[i as int] == self.files[i as int].slot());
            if !self.files[i].is_used {
                return Some(i);
            }
            i += 1;
        }
        None
    }

    /// Slot of the sub-directory `name` of the current directory, searched
    /// from slot `from`.
    fn find_dir(&self, name: &[u8], from: usize) -> (r: Option<usize>)
        requires
            self.wf(),
            from <= 1,
        ensures
            match r {
                Some(i) => i < MAX_DIRS && self@.dir_index(self@.cur, name@, from as int) == Some(
                    i as int,
                ),
                None => self@.dir_index(self@.cur, name@, from as int) is None,
            },
    {
        let ghost p = dir_pred(self@.cur, name@);
        let mut i: usize = from;
        while i < MAX_DIRS
            invariant
                from <= i <= MAX_DIRS,
                self.wf(),
                p == dir_pred(self@.cur, name@),
                find_first(self@.dirs, p, from as int) == find_first(self@.dirs, p, i as int),
            decreases MAX_DIRS - i,
        {
            let d = &self.directories[i];
            assert(self@.dirs[i as int] == d.slot());
            if d.is_used && d.parent_dir == self.current_dir && bytes_eq(d.name.as_slice(), name) {
                return Some(i);
            }
            i += 1;
        }
        None
    }

    /// Seeds a fresh store with its welcome file.
    pub fn init(&mut self)
        requires
            old(self).wf(),
        ensures
            final(self).wf(),
            final(self)@ == old(self)@.create(
                WELCOME_FILE_NAME.spec_bytes(),
                WELCOME_TEXT.spec_bytes(),
            ).1,
    {
        let _ = self.create_file(WELCOME_FILE_NAME.as_bytes(), WELCOME_TEXT.as_bytes());
    }

    /// Creates the file `name` in the current directory.
    pub fn create_file(&mut self, name: &[u8], content: &[u8]) -> (r: Result<(), FsError>)
        requires
            old(self).wf(),
        ensures
            final(self).wf(),
            (r, final(self)@) == old(self)@.create(name@, content@),
    {
        proof {
            lemma_create_wf(self@, name@, content@);
        }
        if name.len() > MAX_FILENAME_LEN {
            return Err(FsError::NameTooLong);
        }
        if content.len() > MAX_FILE_SIZE {
            return Err(FsError::ContentTooLarge);
        }
        if self.find_file(name).is_some() {
            return Err(FsError::AlreadyExists);
        }
        match self.find_free_file() {
            None => Err(FsError::StoreFull),
            Some(i) => {
                let ghost v = self@;
                let f = File {
                    name: slice_to_vec(name),
                    data: slice_to_vec(content),
                    is_used: true,
                    parent_dir: self.current_dir,
                };
                self.files[i] = f;
                assert(self@.files =~= v.create(name@, content@).1.files);
                Ok(())
            },
        }
    }

    /// Content of the file `name` in the current directory, if there is one.
    pub fn read_file(&self, name: &[u8]) -> (r: Option<&[u8]>)
        requires
            self.wf(),
        ensures
            match r {
                Some(s) => self@.read(name@) == Some(s@),
                None => self@.read(name@) is None,
            },
    {
        proof {
            lemma_find_first(self@.files, file_pred(self@.cur, name@), 0);
        }
        match self.find_file(name) {
            Some(i) => {
                assert(self@.files[i as int] == self.files@[i as int].slot());
                Some(self.files[i].data.as_slice())
            },
            None => None,
        }
    }

    /// Replaces the content of the file `name`, creating it when missing.
    pub fn write_file(&mut self, name: &[u8], content: &[u8]) -> (r: Result<(), FsError>)
        requires
            old(self).wf(),
        ensures
            final(self).wf(),
            (r, final(self)@) == old(self)@.write(name@, content@),
    {
        proof {
            lemma_write_wf(self@, name@, content@);
            lemma_find_first(self@.files, file_pred(self@.cur, name@), 0);
        }
        if content.len() > MAX_FILE_SIZE {
            return Err(FsError::ContentTooLarge);
        }
        match self.find_file(name) {
            Some(i) => {
                let ghost v = self@;
                assert(v.files[i as int] == self.files@[i as int].slot());
                let f = File {
                    name: slice_to_vec(self.files[i].name.as_slice()),
                    data: slice_to_vec(content),
                    is_used: true,
                    parent_dir: self.files[i].parent_dir,
                };
                self.files[i] = f;
                assert(self@.files =~= v.write(name@, content@).1.files);
                Ok(())
            },
            None => self.create_file(name, content),
        }
    }

    /// Appends `content` to the file `name`.
    pub fn append_file(&mut self, name: &[u8], content: &[u8]) -> (r: Result<(), FsError>)
        requires
            old(self).wf(),
        ensures
            final(self).wf(),
            (r, final(self)@) == old(self)@.append(name@, content@),
    {
        proof {
            lemma_append_wf(self@, name@, content@);
            lemma_find_first(self@.files, file_pred(self@.cur, name@), 0);
        }
        match self.find_file(name) {
            Some(i) => {
                let ghost v = self@;
                assert(v.files[i as int] == self.files@[i as int].slot());
                let size = self.files[i].data.len();
                if content.len() > MAX_FILE_SIZE - size {
                    return Err(FsError::WouldExceedLimit);
                }
                let f = File {
                    name: slice_to_vec(self.files[i].name.as_slice()),
                    data: concat_bytes(self.files[i].data.as_slice(), content),
                    is_used: true,
                    parent_dir: self.files[i].parent_dir,
                };
                self.files[i] = f;
                assert(self@.files =~= v.append(name@, content@).1.files);
                Ok(())
            },
            None => Err(FsError::NotFound),
        }
    }

    /// Removes the file `name` from the current directory.
    pub fn delete_file(&mut self, name: &[u8]) -> (r: Result<(), FsError>)
        requires
            old(self).wf(),
        ensures
            final(self).wf(),
            (r, final(self)@) == old(self)@.delete(name@),
    {
        proof {
            lemma_delete_wf(self@, name@);
        }
        match self.find_file(name) {
            Some(i) => {
                let ghost v = self@;
                self.files[i] = File::empty();
                assert(self@.files =~= v.delete(name@).1.files);
                Ok(())
            },
            None => Err(FsError::NotFound),
        }
    }

    /// Whether the current directory holds a file `name`.
    pub fn file_exists(&self, name: &[u8]) -> (r: bool)
        requires
            self.wf(),
        ensures
            r == self@.read(name@) is Some,
    {
        self.find_file(name).is_some()
    }

    /// Creates the sub-directory `name` of the current directory.
    pub fn create_directory(&mut self, name: &[u8]) -> (r: Result<(), FsError>)
        requires
            old(self).wf(),
        ensures
            final(self).wf(),
            (r, final(self)@) == old(self)@.mkdir(name@),
    {
        proof {
            lemma_mkdir_wf(self@, name@);
        }
        if name.len() > MAX_FILENAME_LEN {
            return Err(FsError::NameTooLong);
        }
        if self.find_dir(name, 0).is_some() {
            return Err(FsError::AlreadyExists);
        }
        match self.find_free_dir() {
            None => Err(FsError::StoreFull),
            Some(i) => {
                let ghost v = self@;
                let d = Directory {
                    name: slice_to_vec(name),
                    is_used: true,
                    parent_dir: self.current_dir,
                };
                self.directories[i] = d;
                assert(self@.dirs =~= v.mkdir(name@).1.dirs);
                Ok(())
            },
        }
    }

    /// Moves the cursor: `..` to the parent (a no-op at the root), `/` to
    /// the root, anything else to that sub-directory of the current one.
    pub fn change_directory(&mut self, name: &[u8]) -> (r: Result<(), FsError>)
        requires
            old(self).wf(),
        ensures
            final(self).wf(),
            (r, final(self)@) == old(self)@.cd(name@),
    {
        proof {
            lemma_cd_wf(self@, name@);
        }
        if name.len() == 2 && name[0] == DOT && name[1] == DOT {
            assert(name@ =~= parent_name());
            assert(self@.dirs[self@.cur] == self.directories@[self@.cur].slot());
            if self.current_dir == ROOT_DIR {
                return Ok(());
            }
            self.current_dir = self.directories[self.current_dir].parent_dir;
            return Ok(());
        }
        if name.len() == 1 && name[0] == SLASH {
            assert(name@ =~= root_name());
            self.current_dir = ROOT_DIR;
            return Ok(());
        }
        assert(name@ != parent_name() && name@ != root_name()) by {
            if name@ == parent_name() {
                assert(name@.len() == 2 && name@[0] == DOT && name@[1] == DOT);
            }
            if name@ == root_name() {
                assert(name@.len() == 1 && name@[0] == SLASH);
            }
        }
        match self.find_dir(name, 0) {
            Some(i) => {
                self.current_dir = i;
                Ok(())
            },
            None => Err(FsError::NotFound),
        }
    }

    /// Whether directory `d` holds a file or a directory other than the root.
    fn has_children(&self, d: usize) -> (r: bool)
        requires
            self.wf(),
        ensures
            r == self@.has_children(d as int),
    {
        let mut j: usize = 0;
        while j < MAX_FILES
            invariant
                0 <= j <= MAX_FILES,
                self.wf(),
                forall|k: int|
                    0 <= k < j ==> !(#[trigger] self@.files[k] is Some && self@.files[k]->Some_0.parent
                        == d),
            decreases MAX_FILES - j,
        {
            assert(self@.files[j as int] == self.files@[j as int].slot());
            if self.files[j].is_used && self.files[j].parent_dir == d {
                assert(self@.files[j as int] is Some && self@.files[j as int]->Some_0.parent == d);
                return true;
            }
            j += 1;
        }
        let mut j: usize = 1;
        while j < MAX_DIRS
            invariant
                1 <= j <= MAX_DIRS,
                self.wf(),
                forall|k: int|
                    0 <= k < MAX_FILES ==> !(#[trigger] self@.files[k] is Some
                        && self@.files[k]->Some_0.parent == d),
                forall|k: int|
                    1 <= k < j ==> !(#[trigger] self@.dirs[k] is Some && self@.dirs[k]->Some_0.parent
                        == d),
            decreases MAX_DIRS - j,
        {
            assert(self@.dirs[j as int] == self.directories@[j as int].slot());
            if self.directories[j].is_used && self.directories[j].parent_dir == d {
                assert(self@.dirs[j as int] is Some && self@.dirs[j as int]->Some_0.parent == d);
                return true;
            }
            j += 1;
        }
        false
    }

    /// Removes the sub-directory `name` of the current directory, which must
    /// hold no file and no directory.
    pub fn remove_directory(&mut self, name: &[u8]) -> (r: Result<(), FsError>)
        requires
            old(self).wf(),
        ensures
            final(self).wf(),
            (r, final(self)@) == old(self)@.rmdir(name@),
    {
        proof {
            lemma_rmdir_wf(self@, name@);
            lemma_find_first(self@.dirs, dir_pred(self@.cur, name@), 1);
        }
        let idx = match self.find_dir(name, 1) {
            Some(i) => i,
            None => {
                return Err(FsError::NotFound);
            },
        };
        if self.has_children(idx) {
            return Err(FsError::NotEmpty);
        }
        let ghost v = self@;
        self.directories[idx] = Directory::empty();
        assert(self@.dirs =~= v.rmdir(name@).1.dirs);
        Ok(())
    }

    /// Lists the current directory: its sub-directories, then its files
    /// with their sizes, each group in slot order.
    pub fn list_files(&self) -> (r: FileIterator)
        requires
            self.wf(),
        ensures
            r@ == self@.listing(),
    {
        let mut entries: Vec<FileEntry> = Vec::new();
        let mut i: usize = 0;
        while i < MAX_DIRS
            invariant
                0 <= i <= MAX_DIRS,
                self.wf(),
                entries@.map_values(|e: FileEntry| e@) == self@.dir_entries(i as int),
            decreases MAX_DIRS - i,
        {
            let d = &self.directories[i];
            assert(self@.dirs[i as int] == d.slot());
            if d.is_used && d.parent_dir == self.current_dir && i != ROOT_DIR {
                entries.push(FileEntry::Directory(slice_to_vec(d.name.as_slice())));
            }
            i += 1;
            assert(entries@.map_values(|e: FileEntry| e@) =~= self@.dir_entries(i as int));
        }
        let ghost dirs_part = self@.dir_entries(MAX_DIRS as int);
        assert(dirs_part + self@.file_entries(0) =~= dirs_part);
        let mut i: usize = 0;
        while i < MAX_FILES
            invariant
                0 <= i <= MAX_FILES,
                self.wf(),
                dirs_part == self@.dir_entries(MAX_DIRS as int),
                entries@.map_values(|e: FileEntry| e@) == dirs_part + self@.file_entries(i as int),
            decreases MAX_FILES - i,
        {
            let ghost files_part = self@.file_entries(i as int);
            let f = &self.files[i];
            assert(self@.files[i as int] == f.slot());
            if f.is_used && f.parent_dir == self.current_dir {
                let ghost before = entries@.map_values(|e: FileEntry| e@);
                let item = FileEntry::File(slice_to_vec(f.name.as_slice()), f.data.len());
                let ghost ev = item@;
                entries.push(item);
                assert(entries@.map_values(|e: FileEntry| e@) =~= before.push(ev));
                assert(self@.file_entries(i + 1) == files_part + seq![ev]);
                assert(before.push(ev) =~= dirs_part + (files_part + seq![ev]));
            } else {
                assert(self@.file_entries(i + 1) =~= files_part);
            }
            i += 1;
        }
        FileIterator { entries }
    }

    /// The absolute path of the current directory, in full.
    pub fn current_path(&self) -> (r: Vec<u8>)
        requires
            self.wf(),
        ensures
            r@ == self@.path(),
    {
        let v = Ghost(self@);
        let mut path: Vec<u8> = Vec::new();
        if self.current_dir == ROOT_DIR {
            path.push(SLASH);
            assert(path@ =~= root_name());
        } else {
            let ghost total = v@.root_fuel(v@.cur);
            proof {
                reveal(all_reach_root);
                assert(v@.dirs[v@.cur] is Some);
            }
            let mut chain: Vec<usize> = Vec::new();
            let mut current: usize = self.current_dir;
            let ghost mut fl: nat = total;
            while current != ROOT_DIR
                invariant
                    self.wf(),
                    v@ == self@,
                    total == v@.root_fuel(v@.cur),
                    reaches_root(v@.dirs, current as int, fl),
                    chain@.map_values(|x: usize| x as int) + v@.ancestry(current as int, fl)
                        == v@.ancestry(v@.cur, total),
                decreases fl,
            {
                let ghost before = chain@.map_values(|x: usize| x as int);
                assert(self@.dirs[current as int] == self.directories@[current as int].slot());
                let next = self.directories[current].parent_dir;
                assert(v@.ancestry(current as int, fl) == seq![current as int] + v@.ancestry(
                    next as int,
                    (fl - 1) as nat,
                ));
                chain.push(current);
                assert(chain@.map_values(|x: usize| x as int) =~= before.push(current as int));
                assert(before + (seq![current as int] + v@.ancestry(next as int, (fl - 1) as nat))
                    =~= before.push(current as int) + v@.ancestry(next as int, (fl - 1) as nat));
                current = next;
                proof {
                    fl = (fl - 1) as nat;
                }
            }
            let ghost full = chain@.map_values(|x: usize| x as int);
            proof {
                lemma_ancestry_used(v@, v@.cur, total);
            }
            assert(v@.ancestry(current as int, fl) =~= Seq::<int>::empty());
            assert(full + Seq::<int>::empty() =~= full);
            let mut i: usize = chain.len();
            assert(full.subrange(i as int, chain@.len() as int) =~= Seq::<int>::empty());
            while i > 0
                invariant
                    self.wf(),
                    v@ == self@,
                    0 <= i <= chain@.len(),
                    full == chain@.map_values(|x: usize| x as int),
                    full == v@.ancestry(v@.cur, v@.root_fuel(v@.cur)),
                    forall|k: int| 0 <= k < full.len() ==> v@.used_dir(#[trigger] full[k]),
                    path@ == v@.join_path(full.subrange(i as int, full.len() as int)),
                decreases i,
            {
                i -= 1;
                let d = chain[i];
                assert(v@.used_dir(full[i as int]));
                assert(self@.dirs[d as int] == self.directories@[d as int].slot());
                path.push(SLASH);
                path = concat_bytes(path.as_slice(), self.directories[d].name.as_slice());
                let ghost sub = full.subrange(i as int, full.len() as int);
                assert(sub.drop_first() =~= full.subrange(i + 1, full.len() as int));
            }
            assert(full.subrange(0, full.len() as int) =~= full);
        }
        path
    }

    /// Writes the absolute path of the current directory into `buffer` and
    /// returns its length. A path longer than the buffer is cut short.
    pub fn get_current_path(&self, buffer: &mut [u8; MAX_PATH_LEN]) -> (n: usize)
        requires
            self.wf(),
        ensures
            n == if self@.path().len() < MAX_PATH_LEN {
                self@.path().len() as int
            } else {
                MAX_PATH_LEN as int
            },
            forall|k: int| 0 <= k < n ==> final(buffer)@[k] == self@.path()[k],
            forall|k: int| n <= k < MAX_PATH_LEN ==> final(buffer)@[k] == old(buffer)@[k],
    {
        let path = self.current_path();
        let n: usize = if path.len() < MAX_PATH_LEN { path.len() } else { MAX_PATH_LEN };
        let mut k: usize = 0;
        while k < n
            invariant
                0 <= k <= n,
                n <= path@.len(),
                n <= MAX_PATH_LEN,
                forall|m: int| 0 <= m < k ==> buffer@[m] == path@[m],
                forall|m: int| k <= m < MAX_PATH_LEN ==> buffer@[m] == old(buffer)@[m],
            decreases n - k,
        {
            buffer[k] = path[k];
            k += 1;
        }
        n
    }

    /// The first free directory slot after the root's.
    fn find_free_dir(&self) -> (r: Option<usize>)
        requires
            self.wf(),
        ensures
            match r {
                Some(i) => i < MAX_DIRS && find_first(self@.dirs, free_dir_pred(), 1) == Some(i as int),
                None => find_first(self@.dirs, free_dir_pred(), 1) is None,
            },
    {
        let mut i: usize = 1;
        while i < MAX_DIRS
            invariant
                1 <= i <= MAX_DIRS,
                self.wf(),
                find_first(self@.dirs, free_dir_pred(), 1) == find_first(
                    self@.dirs,
                    free_dir_pred(),
                    i as int,
                ),
            decreases MAX_DIRS - i,
        {
            assert(self@.dirs[i as int] == self.directories[i as int].slot());
            if !self.directories[i].is_used {
                return Some(i);
            }
            i += 1;
        }
        None
    }
}

} // verus!
