//! The filesystem as the operation engine sees it: a flat store of records,
//! one per file or directory, each keyed by its absolute path. The root
//! directory is implicit and always present.

use vstd::prelude::*;
use crate::paths::FsPath;

verus! {

/// Default permission bits given to a newly created file.
pub const NEW_FILE_PERMS: u32 = 0o644;

/// Default permission bits given to a newly created directory.
pub const NEW_DIR_PERMS: u32 = 0o755;

/// One filesystem object: its absolute path, whether it is a directory,
/// its bytes (empty for directories), and its permission bits.
pub struct FsRec {
    pub path: FsPath,
    pub is_dir: bool,
    pub content: Vec<u8>,
    pub perms: u32,
}

/// The mathematical image of one record.
pub struct FsRecView {
    pub path: Seq<Seq<char>>,
    pub is_dir: bool,
    pub content: Seq<u8>,
    pub perms: u32,
}

impl View for FsRec {
    type V = FsRecView;

    open spec fn view(&self) -> FsRecView {
        FsRecView {
            path: self.path@,
            is_dir: self.is_dir,
            content: self.content@,
            perms: self.perms,
        }
    }
}

/// A snapshot of a filesystem: every object under the (implicit) root,
/// in a stable order that directory listings follow.
pub struct FsModel {
    pub records: Vec<FsRec>,
}

/// The mathematical images of a sequence of records.
pub open spec fn rec_views(s: Seq<FsRec>) -> Seq<FsRecView> {
    Seq::new(s.len(), |i: int| s[i]@)
}

/// The records that do not sit at or below `p`.
pub open spec fn not_under(p: Seq<Seq<char>>) -> spec_fn(FsRecView) -> bool {
    |r: FsRecView| !p.is_prefix_of(r.path)
}

/// The records that sit at or below `p`.
pub open spec fn under(p: Seq<Seq<char>>) -> spec_fn(FsRecView) -> bool {
    |r: FsRecView| p.is_prefix_of(r.path)
}

impl FsModel {
    /// The records as a mathematical sequence.
    pub open spec fn recs(self) -> Seq<FsRecView> {
        rec_views(self.records@)
    }

    /// Whether an object exists at path `p` (the root is not represented).
    pub open spec fn has(self, p: Seq<Seq<char>>) -> bool {
        exists|i: int| 0 <= i < self.recs().len() && self.recs()[i].path == p
    }

    /// The index of the record at `p`; meaningful only when `has(p)` holds
    /// and paths are distinct.
    pub open spec fn idx_of(self, p: Seq<Seq<char>>) -> int {
        choose|i: int| 0 <= i < self.recs().len() && self.recs()[i].path == p
    }

    /// The record at `p`; meaningful only when `has(p)` holds.
    pub open spec fn rec_at(self, p: Seq<Seq<char>>) -> FsRecView {
        self.recs()[self.idx_of(p)]
    }

    pub open spec fn is_dir_at(self, p: Seq<Seq<char>>) -> bool {
        self.rec_at(p).is_dir
    }

    pub open spec fn content_at(self, p: Seq<Seq<char>>) -> Seq<u8> {
        self.rec_at(p).content
    }

    pub open spec fn perms_at(self, p: Seq<Seq<char>>) -> u32 {
        self.rec_at(p).perms
    }

    /// A directory exists at `p` (the implicit root counts as one).
    pub open spec fn dir_at(self, p: Seq<Seq<char>>) -> bool {
        p.len() == 0 || (self.has(p) && self.is_dir_at(p))
    }

    /// A file exists at `p`.
    pub open spec fn file_at(self, p: Seq<Seq<char>>) -> bool {
        self.has(p) && !self.is_dir_at(p)
    }

    /// No two records share a path.
    pub open spec fn paths_distinct(self) -> bool {
        forall|i: int, j: int|
            0 <= i < j < self.recs().len() ==> self.recs()[i].path != self.recs()[j].path
    }

    /// Every record sits below the root, and every proper prefix of its
    /// path is a directory that is itself recorded.
    pub open spec fn parents_ok(self) -> bool {
        forall|i: int, k: int|
            0 <= i < self.recs().len() && 1 <= k < self.recs()[i].path.len() ==> self.dir_at(
                #[trigger] self.recs()[i].path.take(k),
            )
    }

    pub open spec fn nonempty_paths(self) -> bool {
        forall|i: int| 0 <= i < self.recs().len() ==> self.recs()[i].path.len() > 0
    }

    /// Well-formedness: a snapshot a real filesystem could show.
    pub open spec fn wf(self) -> bool {
        self.paths_distinct() && self.nonempty_paths() && self.parents_ok()
    }

    /// Whether `r` is a child record of directory `d`.
    pub open spec fn child_of(d: Seq<Seq<char>>, r: FsRecView) -> bool {
        r.path.len() == d.len() + 1 && d.is_prefix_of(r.path)
    }

    /// The records that are children of directory `d`.
    pub open spec fn child_pred(d: Seq<Seq<char>>) -> spec_fn(FsRecView) -> bool {
        |r: FsRecView| Self::child_of(d, r)
    }

    /// A record's own name.
    pub open spec fn name_of() -> spec_fn(FsRecView) -> Seq<char> {
        |r: FsRecView| r.path.last()
    }

    /// The child records of directory `d`, in record order.
    pub open spec fn children(self, d: Seq<Seq<char>>) -> Seq<FsRecView> {
        self.recs().filter(Self::child_pred(d))
    }

    /// The names in directory `d`, in record order.
    pub open spec fn listing(self, d: Seq<Seq<char>>) -> Seq<Seq<char>> {
        self.children(d).map_values(Self::name_of())
    }

    /// The two records at one path are one: `idx_of` and `rec_at` agree
    /// with any index that holds the path.
    pub proof fn lemma_rec_at_index(self, i: int)
        requires
            self.paths_distinct(),
            0 <= i < self.recs().len(),
        ensures
            self.has(self.recs()[i].path),
            self.idx_of(self.recs()[i].path) == i,
            self.rec_at(self.recs()[i].path) == self.recs()[i],
    {
        let p = self.recs()[i].path;
        assert(self.has(p));
        let j = self.idx_of(p);
        assert(0 <= j < self.recs().len() && self.recs()[j].path == p);
        if i < j {
            assert(self.recs()[i].path != self.recs()[j].path);
        } else if j < i {
            assert(self.recs()[j].path != self.recs()[i].path);
        }
    }

    /// From existence to a definite index.
    pub proof fn lemma_idx_of(self, p: Seq<Seq<char>>)
        requires
            self.has(p),
        ensures
            0 <= self.idx_of(p) < self.recs().len(),
            self.recs()[self.idx_of(p)].path == p,
            self.rec_at(p).path == p,
    {
        let i = choose|i: int| 0 <= i < self.recs().len() && self.recs()[i].path == p;
        assert(0 <= self.idx_of(p) < self.recs().len() && self.recs()[self.idx_of(p)].path == p);
    }

    /// What `filter` keeps: exactly the records that pass the test.
    pub proof fn lemma_filter_membership(s: Seq<FsRecView>, pred: spec_fn(FsRecView) -> bool)
        ensures
            forall|x: FsRecView| #[trigger] s.filter(pred).contains(x) <==> (s.contains(x)
                && pred(x)),
        decreases s.len(),
    {
        reveal(Seq::filter);
        if s.len() == 0 {
        } else {
            let d = s.drop_last();
            Self::lemma_filter_membership(d, pred);
            let f = s.filter(pred);
            let fd = d.filter(pred);
            assert forall|x: FsRecView| #[trigger] f.contains(x) implies (s.contains(x) && pred(
                x,
            )) by {
                let i = choose|i: int| 0 <= i < f.len() && f[i] == x;
                if pred(s.last()) {
                    if i == f.len() - 1 {
                        assert(s[s.len() - 1] == x);
                    } else {
                        assert(fd[i] == x);
                        assert(fd.contains(x));
                        let j = choose|j: int| 0 <= j < d.len() && d[j] == x;
                        assert(s[j] == x);
                    }
                } else {
                    assert(fd[i] == x);
                    assert(fd.contains(x));
                    let j = choose|j: int| 0 <= j < d.len() && d[j] == x;
                    assert(s[j] == x);
                }
            }
            assert forall|x: FsRecView| s.contains(x) && pred(x) implies #[trigger] f.contains(
                x,
            ) by {
                let i = choose|i: int| 0 <= i < s.len() && s[i] == x;
                if i == s.len() - 1 {
                    assert(pred(s.last()));
                    assert(f[f.len() - 1] == x);
                } else {
                    assert(d[i] == x);
                    assert(d.contains(x));
                    assert(fd.contains(x));
                    let j = choose|j: int| 0 <= j < fd.len() && fd[j] == x;
                    if pred(s.last()) {
                        assert(f[j] == x);
                    } else {
                        assert(f[j] == x);
                    }
                }
            }
        }
    }

    /// `filter` keeps paths pairwise distinct.
    pub proof fn lemma_filter_distinct(s: Seq<FsRecView>, pred: spec_fn(FsRecView) -> bool)
        requires
            forall|i: int, j: int| 0 <= i < j < s.len() ==> s[i].path != s[j].path,
        ensures
            forall|i: int, j: int|
                0 <= i < j < s.filter(pred).len() ==> s.filter(pred)[i].path != s.filter(
                    pred,
                )[j].path,
        decreases s.len(),
    {
        reveal(Seq::filter);
        if s.len() == 0 {
        } else {
            let d = s.drop_last();
            Self::lemma_filter_distinct(d, pred);
            Self::lemma_filter_membership(d, pred);
            let f = s.filter(pred);
            let fd = d.filter(pred);
            assert forall|i: int, j: int| 0 <= i < j < f.len() implies f[i].path != f[j].path by {
                if pred(s.last()) && j == f.len() - 1 {
                    assert(f[j] == s.last());
                    assert(fd[i] == f[i]);
                    assert(fd.contains(f[i]));
                    let a = choose|a: int| 0 <= a < d.len() && d[a] == f[i];
                    assert(s[a] == f[i]);
                    assert(s[a].path != s[s.len() - 1].path);
                } else {
                    assert(f[i] == fd[i] && f[j] == fd[j]);
                }
            }
        }
    }

    /// An empty filesystem: just the implicit root.
    pub fn empty() -> (m: FsModel)
        ensures
            m.wf(),
            m.recs().len() == 0,
            forall|q: Seq<Seq<char>>| !m.has(q),
    {
        FsModel { records: Vec::new() }
    }

    pub fn node_count(&self) -> (n: usize)
        ensures
            n == self.recs().len(),
    {
        self.records.len()
    }

    /// The position of the record at `path`, if one exists.
    pub fn find_index(&self, path: &FsPath) -> (r: Option<usize>)
        ensures
            match r {
                Some(i) => i < self.recs().len() && self.recs()[i as int].path == path@
                    && self.has(path@),
                None => !self.has(path@),
            },
    {
        let mut i: usize = 0;
        while i < self.records.len()
            invariant
                i <= self.records.len(),
                forall|k: int| 0 <= k < i ==> self.recs()[k].path != path@,
            decreases self.records.len() - i,
        {
            let eq = self.records[i].path.path_eq(path);
            proof {
                assert(self.recs()[i as int].path == self.records@[i as int].path@);
            }
            if eq {
                return Some(i);
            }
            i += 1;
        }
        None
    }

    pub fn exists_at(&self, path: &FsPath) -> (r: bool)
        ensures
            r == self.has(path@),
    {
        self.find_index(path).is_some()
    }

    pub fn dir_exists_at(&self, path: &FsPath) -> (r: bool)
        requires
            self.paths_distinct(),
        ensures
            r == self.dir_at(path@),
    {
        if path.is_root() {
            return true;
        }
        match self.find_index(path) {
            Some(i) => {
                proof {
                    self.lemma_rec_at_index(i as int);
                }
                self.records[i].is_dir
            },
            None => false,
        }
    }

    pub fn file_exists_at(&self, path: &FsPath) -> (r: bool)
        requires
            self.paths_distinct(),
        ensures
            r == self.file_at(path@),
    {
        match self.find_index(path) {
            Some(i) => {
                proof {
                    self.lemma_rec_at_index(i as int);
                }
                !self.records[i].is_dir
            },
            None => false,
        }
    }

    /// Appending a fresh record below an existing directory keeps the
    /// snapshot well formed and changes nothing else.
    pub proof fn lemma_push(pre: FsModel, post: FsModel, rv: FsRecView)
        requires
            pre.wf(),
            post.recs() == pre.recs().push(rv),
            !pre.has(rv.path),
            rv.path.len() > 0,
            pre.dir_at(rv.path.drop_last()),
        ensures
            post.wf(),
            forall|q: Seq<Seq<char>>| #[trigger] post.has(q) <==> (pre.has(q) || q == rv.path),
            post.rec_at(rv.path) == rv,
            forall|q: Seq<Seq<char>>|
                pre.has(q) ==> #[trigger] post.rec_at(q) == pre.rec_at(q),
    {
        let n = pre.recs().len() as int;
        assert forall|q: Seq<Seq<char>>| #[trigger] post.has(q) implies (pre.has(q) || q
            == rv.path) by {
            let i = choose|i: int| 0 <= i < post.recs().len() && post.recs()[i].path == q;
            if i < n {
                assert(pre.recs()[i].path == q);
            }
        }
        assert forall|q: Seq<Seq<char>>| (pre.has(q) || q == rv.path) implies #[trigger] post.has(
            q,
        ) by {
            if pre.has(q) {
                let i = choose|i: int| 0 <= i < pre.recs().len() && pre.recs()[i].path == q;
                assert(post.recs()[i].path == q);
            } else {
                assert(post.recs()[n].path == q);
            }
        }
        assert(post.paths_distinct()) by {
            assert forall|i: int, j: int| 0 <= i < j < post.recs().len() implies post.recs()[i].path
                != post.recs()[j].path by {
                if j < n {
                    assert(pre.recs()[i].path != pre.recs()[j].path);
                } else {
                    assert(pre.recs()[i].path == post.recs()[i].path);
                    assert(pre.has(pre.recs()[i].path));
                }
            }
        }
        assert forall|q: Seq<Seq<char>>| pre.has(q) implies #[trigger] post.rec_at(q)
            == pre.rec_at(q) by {
            pre.lemma_idx_of(q);
            let i = pre.idx_of(q);
            assert(post.recs()[i] == pre.recs()[i]);
            post.lemma_rec_at_index(i);
            pre.lemma_rec_at_index(i);
        }
        post.lemma_rec_at_index(n);
        assert(post.parents_ok()) by {
            assert forall|i: int, k: int|
                0 <= i < post.recs().len() && 1 <= k < post.recs()[i].path.len() implies post.dir_at(
                #[trigger] post.recs()[i].path.take(k),
            ) by {
                if i < n {
                    assert(pre.dir_at(pre.recs()[i].path.take(k)));
                    let q = pre.recs()[i].path.take(k);
                    if q.len() > 0 {
                        assert(post.rec_at(q) == pre.rec_at(q));
                    }
                } else {
                    let parent = rv.path.drop_last();
                    if k == parent.len() {
                        assert(rv.path.take(k) =~= parent);
                    } else {
                        pre.lemma_idx_of(parent);
                        let pi = pre.idx_of(parent);
                        assert(pre.dir_at(pre.recs()[pi].path.take(k)));
                        assert(rv.path.take(k) =~= parent.take(k));
                    }
                    let q = rv.path.take(k);
                    if q.len() > 0 {
                        assert(post.rec_at(q) == pre.rec_at(q));
                    }
                }
            }
        }
    }

    /// Appending records at fresh, pairwise distinct paths keeps paths
    /// distinct and changes no existing record.
    pub proof fn lemma_append(pre: FsModel, post: FsModel, added: Seq<FsRecView>)
        requires
            pre.paths_distinct(),
            post.recs() == pre.recs() + added,
            forall|i: int, j: int| 0 <= i < j < added.len() ==> added[i].path != added[j].path,
            forall|i: int| 0 <= i < added.len() ==> !pre.has(#[trigger] added[i].path),
        ensures
            post.paths_distinct(),
            forall|q: Seq<Seq<char>>| #[trigger] post.has(q) <==> (pre.has(q) || exists|i: int|
                0 <= i < added.len() && added[i].path == q),
            forall|q: Seq<Seq<char>>|
                pre.has(q) ==> #[trigger] post.rec_at(q) == pre.rec_at(q),
            forall|i: int|
                0 <= i < added.len() ==> #[trigger] post.rec_at(added[i].path) == added[i],
    {
        let n = pre.recs().len() as int;
        assert(post.paths_distinct()) by {
            assert forall|i: int, j: int| 0 <= i < j < post.recs().len() implies post.recs()[i].path
                != post.recs()[j].path by {
                if j < n {
                    assert(pre.recs()[i].path != pre.recs()[j].path);
                } else if i < n {
                    assert(post.recs()[i] == pre.recs()[i]);
                    assert(pre.has(pre.recs()[i].path));
                    assert(!pre.has(added[j - n].path));
                } else {
                    assert(added[i - n].path != added[j - n].path);
                }
            }
        }
        assert forall|q: Seq<Seq<char>>| #[trigger] post.has(q) implies (pre.has(q) || exists|
            i: int,
        | 0 <= i < added.len() && added[i].path == q) by {
            let i = choose|i: int| 0 <= i < post.recs().len() && post.recs()[i].path == q;
            if i < n {
                assert(pre.recs()[i].path == q);
            } else {
                assert(added[i - n].path == q);
            }
        }
        assert forall|q: Seq<Seq<char>>| (pre.has(q) || exists|i: int|
            0 <= i < added.len() && added[i].path == q) implies #[trigger] post.has(q) by {
            if pre.has(q) {
                let i = choose|i: int| 0 <= i < pre.recs().len() && pre.recs()[i].path == q;
                assert(post.recs()[i].path == q);
            } else {
                let i = choose|i: int| 0 <= i < added.len() && added[i].path == q;
                assert(post.recs()[n + i].path == q);
            }
        }
        assert forall|q: Seq<Seq<char>>| pre.has(q) implies #[trigger] post.rec_at(q)
            == pre.rec_at(q) by {
            pre.lemma_idx_of(q);
            let i = pre.idx_of(q);
            assert(post.recs()[i] == pre.recs()[i]);
            post.lemma_rec_at_index(i);
            pre.lemma_rec_at_index(i);
        }
        assert forall|i: int| 0 <= i < added.len() implies #[trigger] post.rec_at(added[i].path)
            == added[i] by {
            assert(post.recs()[n + i] == added[i]);
            post.lemma_rec_at_index(n + i);
        }
    }

    /// Replacing the record at one path by another record at the same path
    /// and of the same kind keeps the snapshot well formed and changes
    /// nothing else.
    pub proof fn lemma_update(pre: FsModel, post: FsModel, i: int, rv: FsRecView)
        requires
            pre.wf(),
            0 <= i < pre.recs().len(),
            post.recs() == pre.recs().update(i, rv),
            rv.path == pre.recs()[i].path,
            rv.is_dir == pre.recs()[i].is_dir,
        ensures
            post.wf(),
            forall|q: Seq<Seq<char>>| #[trigger] post.has(q) <==> pre.has(q),
            post.rec_at(rv.path) == rv,
            forall|q: Seq<Seq<char>>|
                pre.has(q) && q != rv.path ==> #[trigger] post.rec_at(q) == pre.rec_at(q),
    {
        assert forall|q: Seq<Seq<char>>| #[trigger] post.has(q) implies pre.has(q) by {
            let j = choose|j: int| 0 <= j < post.recs().len() && post.recs()[j].path == q;
            assert(pre.recs()[j].path == q);
        }
        assert forall|q: Seq<Seq<char>>| pre.has(q) implies #[trigger] post.has(q) by {
            let j = choose|j: int| 0 <= j < pre.recs().len() && pre.recs()[j].path == q;
            assert(post.recs()[j].path == q);
        }
        assert(post.paths_distinct()) by {
            assert forall|a: int, b: int| 0 <= a < b < post.recs().len() implies post.recs()[a].path
                != post.recs()[b].path by {
                assert(post.recs()[a].path == pre.recs()[a].path);
                assert(post.recs()[b].path == pre.recs()[b].path);
            }
        }
        post.lemma_rec_at_index(i);
        assert forall|q: Seq<Seq<char>>| pre.has(q) && q != rv.path implies #[trigger] post.rec_at(
            q,
        ) == pre.rec_at(q) by {
            pre.lemma_idx_of(q);
            let j = pre.idx_of(q);
            assert(j != i);
            assert(post.recs()[j] == pre.recs()[j]);
            post.lemma_rec_at_index(j);
            pre.lemma_rec_at_index(j);
        }
        assert(post.parents_ok()) by {
            assert forall|a: int, k: int|
                0 <= a < post.recs().len() && 1 <= k < post.recs()[a].path.len() implies post.dir_at(
                #[trigger] post.recs()[a].path.take(k),
            ) by {
                assert(post.recs()[a].path == pre.recs()[a].path);
                assert(pre.dir_at(pre.recs()[a].path.take(k)));
                let q = pre.recs()[a].path.take(k);
                if q.len() > 0 {
                    if q == rv.path {
                        pre.lemma_rec_at_index(i);
                    } else {
                        assert(post.rec_at(q) == pre.rec_at(q));
                    }
                }
            }
        }
    }

    /// Creates an empty file or directory at `path`, whose parent must be
    /// an existing directory; nothing else changes.
    pub fn create(&mut self, path: &FsPath, make_dir: bool)
        requires
            old(self).wf(),
            !old(self).has(path@),
            path@.len() > 0,
            old(self).dir_at(path@.drop_last()),
        ensures
            final(self).wf(),
            forall|q: Seq<Seq<char>>| #[trigger] final(self).has(q) <==> (old(self).has(q) || q
                == path@),
            final(self).has(path@),
            final(self).is_dir_at(path@) == make_dir,
            final(self).content_at(path@) == Seq::<u8>::empty(),
            final(self).perms_at(path@) == if make_dir {
                NEW_DIR_PERMS
            } else {
                NEW_FILE_PERMS
            },
            forall|q: Seq<Seq<char>>|
                old(self).has(q) ==> #[trigger] final(self).rec_at(q) == old(self).rec_at(q),
    {
        let ghost pre = *self;
        let perms: u32 = if make_dir {
            NEW_DIR_PERMS
        } else {
            NEW_FILE_PERMS
        };
        let rec = FsRec { path: path.clone_path(), is_dir: make_dir, content: Vec::new(), perms };
        let ghost rv = rec@;
        self.records.push(rec);
        proof {
            assert(self.recs() =~= pre.recs().push(rv));
            Self::lemma_push(pre, *self, rv);
        }
    }

    /// Writes `content` to the file at `path`, creating it if absent and
    /// truncating it if present; a directory at `path` is refused by the
    /// precondition. Nothing else changes.
    pub fn write_file(&mut self, path: &FsPath, content: Vec<u8>)
        requires
            old(self).wf(),
            path@.len() > 0,
            old(self).dir_at(path@.drop_last()),
            old(self).has(path@) ==> !old(self).is_dir_at(path@),
        ensures
            final(self).wf(),
            forall|q: Seq<Seq<char>>| #[trigger] final(self).has(q) <==> (old(self).has(q) || q
                == path@),
            final(self).file_at(path@),
            final(self).content_at(path@) == content@,
            forall|q: Seq<Seq<char>>|
                old(self).has(q) && q != path@ ==> #[trigger] final(self).rec_at(q) == old(self).rec_at(
                    q,
                ),
    {
        let ghost pre = *self;
        match self.find_index(path) {
            Some(i) => {
                proof {
                    pre.lemma_rec_at_index(i as int);
                }
                let perms = self.records[i].perms;
                let rec = FsRec { path: path.clone_path(), is_dir: false, content, perms };
                let ghost rv = rec@;
                self.replace_rec(i, rec);
                proof {
                    Self::lemma_update(pre, *self, i as int, rv);
                }
            },
            None => {
                let rec = FsRec {
                    path: path.clone_path(),
                    is_dir: false,
                    content,
                    perms: NEW_FILE_PERMS,
                };
                let ghost rv = rec@;
                self.records.push(rec);
                proof {
                    assert(self.recs() =~= pre.recs().push(rv));
                    Self::lemma_push(pre, *self, rv);
                }
            },
        }
    }

    /// Sets the permission bits of the object at `path`; nothing else
    /// changes.
    pub fn set_perm_bits(&mut self, path: &FsPath, mode_bits: u32)
        requires
            old(self).wf(),
            old(self).has(path@),
        ensures
            final(self).wf(),
            forall|q: Seq<Seq<char>>| #[trigger] final(self).has(q) <==> old(self).has(q),
            final(self).perms_at(path@) == mode_bits,
            final(self).is_dir_at(path@) == old(self).is_dir_at(path@),
            final(self).content_at(path@) == old(self).content_at(path@),
            forall|q: Seq<Seq<char>>|
                old(self).has(q) && q != path@ ==> #[trigger] final(self).rec_at(q) == old(self).rec_at(
                    q,
                ),
    {
        let ghost pre = *self;
        proof {
            pre.lemma_idx_of(path@);
        }
        match self.find_index(path) {
            Some(i) => {
                proof {
                    pre.lemma_rec_at_index(i as int);
                }
                let rec = FsRec {
                    path: path.clone_path(),
                    is_dir: self.records[i].is_dir,
                    content: clone_bytes(&self.records[i].content),
                    perms: mode_bits,
                };
                let ghost rv = rec@;
                self.replace_rec(i, rec);
                proof {
                    Self::lemma_update(pre, *self, i as int, rv);
                }
            },
            None => {
                proof {
                    assert(false);
                }
            },
        }
    }

    /// Rebuilds the store with the record at position `i` replaced.
    fn replace_rec(&mut self, i: usize, rec: FsRec)
        requires
            i < old(self).recs().len(),
        ensures
            final(self).recs() =~= old(self).recs().update(i as int, rec@),
    {
        let ghost target = old(self).recs().update(i as int, rec@);
        let mut out: Vec<FsRec> = Vec::new();
        let n = self.records.len();
        let mut k: usize = 0;
        while k < i
            invariant
                k <= i < n,
                n == old(self).recs().len(),
                self == old(self),
                out@.len() == k,
                target == old(self).recs().update(i as int, rec@),
                forall|m: int| 0 <= m < k ==> #[trigger] out@[m]@ == target[m],
            decreases i - k,
        {
            out.push(clone_rec(&self.records[k]));
            k += 1;
        }
        out.push(rec);
        let mut k: usize = i + 1;
        while k < n
            invariant
                i < k <= n,
                n == old(self).recs().len(),
                self == old(self),
                out@.len() == k,
                target == old(self).recs().update(i as int, rec@),
                forall|m: int| 0 <= m < k ==> #[trigger] out@[m]@ == target[m],
            decreases n - k,
        {
            out.push(clone_rec(&self.records[k]));
            k += 1;
        }
        self.records = out;
        proof {
            assert forall|m: int| 0 <= m < n implies self.recs()[m] == target[m] by {}
            assert(self.recs() =~= target);
        }
    }

    /// The bytes of the file at `path`, or `None` where there is no file.
    pub fn read_file(&self, path: &FsPath) -> (r: Option<Vec<u8>>)
        requires
            self.paths_distinct(),
        ensures
            r is Some <==> self.file_at(path@),
            r is Some ==> r->Some_0@ == self.content_at(path@),
    {
        match self.find_index(path) {
            Some(i) => {
                proof {
                    self.lemma_rec_at_index(i as int);
                }
                if self.records[i].is_dir {
                    None
                } else {
                    Some(clone_bytes(&self.records[i].content))
                }
            },
            None => None,
        }
    }
}

/// A value-preserving copy of one record.
pub fn clone_rec(r: &FsRec) -> (c: FsRec)
    ensures
        c@ == r@,
{
    let c = FsRec {
        path: r.path.clone_path(),
        is_dir: r.is_dir,
        content: clone_bytes(&r.content),
        perms: r.perms,
    };
    c
}

/// A value-preserving copy of a byte vector.
pub fn clone_bytes(v: &Vec<u8>) -> (r: Vec<u8>)
    ensures
        r@ =~= v@,
{
    let mut r: Vec<u8> = Vec::new();
    let mut i: usize = 0;
    while i < v.len()
        invariant
            i <= v.len(),
            r@ =~= v@.take(i as int),
        decreases v.len() - i,
    {
        r.push(v[i]);
        proof {
            assert(r@ =~= v@.take(i + 1));
        }
        i += 1;
    }
    proof {
        assert(v@.take(v@.len() as int) =~= v@);
    }
    r
}

} // verus!
