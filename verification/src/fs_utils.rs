//! The file operation engine: listings, permission formatting, deletion,
//! copying, moving, and collision-avoiding name generation, all specified
//! against the filesystem snapshot model.

use vstd::prelude::*;
use crate::fs_model::{FsModel, FsRec, FsRecView, clone_bytes, clone_rec, not_under, rec_views, under};
use crate::paths::FsPath;
use crate::preview::{get_file_preview, spec_is_text, spec_join_lines, spec_max_scroll, spec_window};
use crate::state::ListCursor;
use crate::text::display_chars;

verus! {

/// The record moved from under a prefix of `src_len` components to under
/// `dest`, its kind and contents kept.
pub open spec fn rerooter(src_len: int, dest: Seq<Seq<char>>) -> spec_fn(FsRecView) -> FsRecView {
    |r: FsRecView|
        FsRecView {
            path: dest + r.path.skip(src_len),
            is_dir: r.is_dir,
            content: r.content,
            perms: r.perms,
        }
}

/// One listed filesystem child, as the panes show it. Synthetic entries
/// (placeholders, previews) carry no permission bits.
pub struct FileInfo {
    pub name: String,
    pub perms: Option<u32>,
    pub is_dir: bool,
    pub is_exec: bool,
}

/// A synthetic entry: a bare name with no metadata.
pub fn create_file_info(name: String) -> (r: FileInfo)
    ensures
        r.name@ == name@,
        r.perms is None,
        !r.is_dir,
        !r.is_exec,
{
    FileInfo { name, perms: None, is_dir: false, is_exec: false }
}

/// Whether permission bits grant execution to anyone.
pub open spec fn spec_is_executable(mode_bits: u32) -> bool {
    (mode_bits & 0o100) != 0 || (mode_bits & 0o010) != 0 || (mode_bits & 0o001) != 0
}

pub fn is_executable(mode_bits: u32) -> (r: bool)
    ensures
        r == spec_is_executable(mode_bits),
{
    (mode_bits & 0o100) != 0 || (mode_bits & 0o010) != 0 || (mode_bits & 0o001) != 0
}

/// The nine-character `rwxrwxrwx` rendering of permission bits.
pub open spec fn spec_permission_string(mode_bits: u32) -> Seq<char> {
    seq![
        if mode_bits & 0o400 != 0 { 'r' } else { '-' },
        if mode_bits & 0o200 != 0 { 'w' } else { '-' },
        if mode_bits & 0o100 != 0 { 'x' } else { '-' },
        if mode_bits & 0o040 != 0 { 'r' } else { '-' },
        if mode_bits & 0o020 != 0 { 'w' } else { '-' },
        if mode_bits & 0o010 != 0 { 'x' } else { '-' },
        if mode_bits & 0o004 != 0 { 'r' } else { '-' },
        if mode_bits & 0o002 != 0 { 'w' } else { '-' },
        if mode_bits & 0o001 != 0 { 'x' } else { '-' },
    ]
}

pub fn get_permissions(mode_bits: u32) -> (r: String)
    ensures
        r@ == spec_permission_string(mode_bits),
{
    proof {
        reveal_strlit("r");
        reveal_strlit("w");
        reveal_strlit("x");
        reveal_strlit("-");
    }
    let mut r = String::new();
    r.append(if mode_bits & 0o400 != 0 { "r" } else { "-" });
    r.append(if mode_bits & 0o200 != 0 { "w" } else { "-" });
    r.append(if mode_bits & 0o100 != 0 { "x" } else { "-" });
    r.append(if mode_bits & 0o040 != 0 { "r" } else { "-" });
    r.append(if mode_bits & 0o020 != 0 { "w" } else { "-" });
    r.append(if mode_bits & 0o010 != 0 { "x" } else { "-" });
    r.append(if mode_bits & 0o004 != 0 { "r" } else { "-" });
    r.append(if mode_bits & 0o002 != 0 { "w" } else { "-" });
    r.append(if mode_bits & 0o001 != 0 { "x" } else { "-" });
    proof {
        assert(r@ =~= spec_permission_string(mode_bits));
    }
    r
}

/// A synthetic pane entry carries no metadata: no permission bits, not a
/// directory, not executable.
pub open spec fn synthetic_entry(info: FileInfo) -> bool {
    info.perms is None && !info.is_dir && !info.is_exec
}

/// `infos` is exactly the pane view of directory `d`: one entry per child,
/// in listing order, with kind, permission bits and executability read
/// off the child's record.
pub open spec fn infos_list_dir(fs: FsModel, d: Seq<Seq<char>>, infos: Seq<FileInfo>) -> bool {
    &&& infos.len() == fs.listing(d).len()
    &&& forall|m: int|
        0 <= m < infos.len() ==> {
            &&& (#[trigger] infos[m].name@) == fs.listing(d)[m]
            &&& fs.has(d.push(infos[m].name@))
            &&& infos[m].is_dir == fs.is_dir_at(d.push(infos[m].name@))
            &&& infos[m].perms == Some(fs.perms_at(d.push(infos[m].name@)))
            &&& infos[m].is_exec == spec_is_executable(fs.perms_at(d.push(infos[m].name@)))
        }
}

/// The entries of directory `d`, in record order.
pub fn get_files_and_dirs(fs: &FsModel, dir: &FsPath) -> (r: Vec<FileInfo>)
    requires
        fs.wf(),
    ensures
        infos_list_dir(*fs, dir@, r@),
{
    let ghost cp = FsModel::child_pred(dir@);
    let mut r: Vec<FileInfo> = Vec::new();
    let n = fs.records.len();
    let mut i: usize = 0;
    while i < n
        invariant
            i <= n,
            n == fs.recs().len(),
            cp == FsModel::child_pred(dir@),
            r@.len() == fs.recs().take(i as int).filter(cp).len(),
            forall|m: int|
                0 <= m < r@.len() ==> {
                    &&& (#[trigger] r@[m].name@) == fs.recs().take(i as int).filter(
                        cp,
                    )[m].path.last()
                    &&& r@[m].is_dir == fs.recs().take(i as int).filter(cp)[m].is_dir
                    &&& r@[m].perms == Some(fs.recs().take(i as int).filter(cp)[m].perms)
                    &&& r@[m].is_exec == spec_is_executable(
                        fs.recs().take(i as int).filter(cp)[m].perms,
                    )
                },
        decreases n - i,
    {
        let ghost prefix = fs.recs().take(i as int);
        let ghost x = fs.recs()[i as int];
        proof {
            assert(x.path == fs.records@[i as int].path@);
        }
        let pl = fs.records[i].path.len();
        let is_child = pl >= 1 && pl - 1 == dir.len() && fs.records[i].path.starts_with(dir);
        proof {
            reveal(Seq::filter);
            assert(fs.recs().take(i + 1).drop_last() =~= prefix);
            assert(fs.recs().take(i + 1).last() == x);
            assert(is_child == cp(x)) by {
                if dir@.is_prefix_of(x.path) {
                    assert(dir@ =~= x.path.take(dir@.len() as int));
                }
            }
        }
        if is_child {
            let name = match fs.records[i].path.file_name() {
                Some(nm) => nm,
                None => {
                    proof {
                        assert(false);
                    }
                    String::new()
                },
            };
            let perms = fs.records[i].perms;
            let ghost rv0 = r@;
            r.push(
                FileInfo {
                    name,
                    perms: Some(perms),
                    is_dir: fs.records[i].is_dir,
                    is_exec: is_executable(perms),
                },
            );
            proof {
                assert(fs.recs().take(i + 1).filter(cp) =~= prefix.filter(cp).push(x));
                assert(r@.len() == rv0.len() + 1);
                assert(r@[r@.len() - 1].name@ == x.path.last());
            }
        } else {
            proof {
                assert(fs.recs().take(i + 1).filter(cp) =~= prefix.filter(cp));
            }
        }
        i += 1;
    }
    proof {
        assert(fs.recs().take(n as int) =~= fs.recs());
        FsModel::lemma_filter_membership(fs.recs(), cp);
        let ch = fs.children(dir@);
        assert forall|m: int| 0 <= m < r@.len() implies {
            &&& (#[trigger] r@[m].name@) == fs.listing(dir@)[m]
            &&& fs.has(dir@.push(r@[m].name@))
            &&& r@[m].is_dir == fs.is_dir_at(dir@.push(r@[m].name@))
            &&& r@[m].perms == Some(fs.perms_at(dir@.push(r@[m].name@)))
            &&& r@[m].is_exec == spec_is_executable(fs.perms_at(dir@.push(r@[m].name@)))
        } by {
            let x = ch[m];
            assert(ch.contains(x));
            assert(fs.recs().contains(x) && cp(x));
            let j = choose|j: int| 0 <= j < fs.recs().len() && fs.recs()[j] == x;
            fs.lemma_rec_at_index(j);
            assert(x.path =~= dir@.push(x.path.last()));
        }
    }
    r
}

/// The entries of `dir`'s parent directory: what the leftmost pane shows.
/// At the filesystem root there is no parent and the view is empty; for
/// any existing directory below the root the view holds at least `dir`'s
/// own name, so it is empty exactly at the root.
pub fn get_parent_content(fs: &FsModel, dir: &FsPath) -> (r: Vec<FileInfo>)
    requires
        fs.wf(),
        dir@.len() > 0 ==> fs.has(dir@),
    ensures
        dir@.len() > 0 ==> infos_list_dir(*fs, dir@.drop_last(), r@),
        r@.len() == 0 <==> dir@.len() == 0,
{
    match dir.parent() {
        Some(parent) => {
            let r = get_files_and_dirs(fs, &parent);
            proof {
                fs.lemma_idx_of(dir@);
                let j = fs.idx_of(dir@);
                let x = fs.recs()[j];
                let cp = FsModel::child_pred(parent@);
                assert(cp(x)) by {
                    assert(parent@ =~= x.path.take(parent@.len() as int));
                }
                FsModel::lemma_filter_membership(fs.recs(), cp);
                assert(fs.recs().contains(x));
                assert(fs.children(parent@).contains(x));
                let m = choose|m: int|
                    0 <= m < fs.children(parent@).len() && fs.children(parent@)[m] == x;
                assert(fs.children(parent@).len() > 0);
            }
            r
        },
        None => Vec::new(),
    }
}

/// The rightmost pane's content for the current selection target, and
/// how far its preview can scroll. With no target at all a placeholder
/// invites a selection; a file is previewed through the preview engine;
/// a directory shows its listing, or a synthetic `empty` entry when it
/// has none (a vanished target reads as an empty directory).
pub fn fetch_children(
    fs: &FsModel,
    selected_dir: Option<&FsPath>,
    scroll_position: usize,
    right_pane_height: usize,
) -> (r: (Vec<FileInfo>, usize))
    requires
        fs.wf(),
    ensures
        selected_dir is None ==> r.0@.len() == 1 && r.0@[0].name@ == "Select a directory or file"@
            && synthetic_entry(r.0@[0]) && r.1 == 0,
        selected_dir matches Some(p) ==> fs.file_at(p@) ==> {
            &&& r.0@.len() == 1
            &&& synthetic_entry(r.0@[0])
            &&& r.1 == spec_max_scroll(fs.content_at(p@), right_pane_height as nat)
            &&& spec_is_text(fs.content_at(p@)) ==> r.0@[0].name@ == display_chars(
                spec_join_lines(
                    spec_window(
                        fs.content_at(p@),
                        scroll_position as nat,
                        right_pane_height as nat,
                    ),
                ),
            )
            &&& !spec_is_text(fs.content_at(p@)) ==> r.0@[0].name@ == "Can't preview file"@
        },
        selected_dir matches Some(p) ==> !fs.file_at(p@) ==> r.1 == 0 && (if fs.listing(
            p@,
        ).len() == 0 {
            r.0@.len() == 1 && r.0@[0].name@ == "empty"@ && synthetic_entry(r.0@[0])
        } else {
            infos_list_dir(*fs, p@, r.0@)
        }),
{
    match selected_dir {
        None => {
            let info = create_file_info(String::from_str("Select a directory or file"));
            let mut v: Vec<FileInfo> = Vec::new();
            v.push(info);
            (v, 0)
        },
        Some(path) => {
            match fs.read_file(path) {
                Some(content) => {
                    let (preview_text, max_scroll_position) = get_file_preview(
                        &content,
                        scroll_position,
                        right_pane_height,
                    );
                    let info = create_file_info(preview_text);
                    let mut v: Vec<FileInfo> = Vec::new();
                    v.push(info);
                    (v, max_scroll_position)
                },
                None => {
                    let contents = get_files_and_dirs(fs, path);
                    if contents.len() == 0 {
                        let info = create_file_info(String::from_str("empty"));
                        let mut v: Vec<FileInfo> = Vec::new();
                        v.push(info);
                        (v, 0)
                    } else {
                        (contents, 0)
                    }
                },
            }
        },
    }
}

/// Follows the cursor: resolves the selected entry to a path, makes it
/// the preview target, and rewinds the preview scroll whenever the
/// target becomes a different file. Entering a directory keeps the
/// scroll as it is, and an empty or out-of-range selection changes
/// nothing.
pub fn update_selected_dir(
    files: &Vec<FileInfo>,
    current_dir: &FsPath,
    selected_dir: &mut FsPath,
    middle_state: &ListCursor,
    scroll_position: &mut usize,
)
    ensures
        ({
            let sel = middle_state.selected_index;
            if sel is Some && sel->Some_0 < files@.len() {
                let target = current_dir@.push(files@[sel->Some_0 as int].name@);
                if !files@[sel->Some_0 as int].is_dir && old(selected_dir)@ != target {
                    final(selected_dir)@ == target && *final(scroll_position) == 0
                } else if files@[sel->Some_0 as int].is_dir {
                    final(selected_dir)@ == target && *final(scroll_position) == *old(
                        scroll_position,
                    )
                } else {
                    final(selected_dir)@ == old(selected_dir)@ && *final(scroll_position) == *old(
                        scroll_position,
                    )
                }
            } else {
                final(selected_dir)@ == old(selected_dir)@ && *final(scroll_position) == *old(
                    scroll_position,
                )
            }
        }),
{
    match middle_state.selected() {
        Some(selected) => {
            if selected < files.len() {
                let path = current_dir.join(&files[selected].name);
                if !files[selected].is_dir && !selected_dir.path_eq(&path) {
                    *scroll_position = 0;
                    *selected_dir = path;
                } else if files[selected].is_dir {
                    *selected_dir = path;
                }
            }
        },
        None => {},
    }
}

/// Copies the object at `src` — for a directory, with its whole subtree,
/// child by child — to the not yet existing `dest`, whose parent must be
/// an existing directory. Everything already recorded stays untouched,
/// and for every suffix `t`, the object at `src + t` reappears at
/// `dest + t` with its kind, its bytes unchanged byte for byte, and its
/// permission bits.
///
/// The engine only ever copies to a fresh destination: a paste goes to a
/// collision-avoided free name, so merging into an existing directory or
/// overwriting an existing file is deliberately outside this operation's
/// precondition.
pub fn copy(fs: &mut FsModel, src: &FsPath, dest: &FsPath)
    requires
        old(fs).wf(),
        old(fs).has(src@),
        !old(fs).has(dest@),
        dest@.len() > 0,
        old(fs).dir_at(dest@.drop_last()),
    ensures
        final(fs).wf(),
        forall|q: Seq<Seq<char>>|
            old(fs).has(q) ==> #[trigger] final(fs).has(q) && final(fs).rec_at(q) == old(
                fs,
            ).rec_at(q),
        forall|t: Seq<Seq<char>>|
            old(fs).has(src@ + t) ==> #[trigger] final(fs).has(dest@ + t) && final(fs).rec_at(
                dest@ + t,
            ).is_dir == old(fs).rec_at(src@ + t).is_dir && final(fs).rec_at(dest@ + t).content
                == old(fs).rec_at(src@ + t).content && final(fs).rec_at(dest@ + t).perms == old(
                fs,
            ).rec_at(src@ + t).perms,
        forall|q: Seq<Seq<char>>| #[trigger] final(fs).has(q) ==> old(fs).has(q) || (
        dest@.is_prefix_of(q) && old(fs).has(src@ + q.skip(dest@.len() as int))),
{
    let ghost pre = *fs;
    let ghost pred = under(src@);
    let ghost f = rerooter(src@.len() as int, dest@);
    let sl = src.len();
    let mut added: Vec<FsRec> = Vec::new();
    let n = fs.records.len();
    let mut i: usize = 0;
    while i < n
        invariant
            i <= n,
            n == pre.recs().len(),
            *fs == pre,
            sl == src@.len(),
            pred == under(src@),
            f == rerooter(src@.len() as int, dest@),
            rec_views(added@) =~= pre.recs().take(i as int).filter(pred).map_values(f),
        decreases n - i,
    {
        let ghost prefix = pre.recs().take(i as int);
        let ghost x = pre.recs()[i as int];
        let ghost av = rec_views(added@);
        if fs.records[i].path.starts_with(src) {
            let rec = FsRec {
                path: fs.records[i].path.reroot(sl, dest),
                is_dir: fs.records[i].is_dir,
                content: clone_bytes(&fs.records[i].content),
                perms: fs.records[i].perms,
            };
            proof {
                assert(rec@ == f(x));
            }
            added.push(rec);
            proof {
                assert(rec_views(added@) =~= av.push(f(x)));
            }
        }
        proof {
            reveal(Seq::filter);
            assert(pre.recs().take(i + 1).drop_last() =~= prefix);
            assert(pre.recs().take(i + 1).last() == x);
            if pred(x) {
                assert(pre.recs().take(i + 1).filter(pred) =~= prefix.filter(pred).push(x));
                assert(prefix.filter(pred).push(x).map_values(f) =~= prefix.filter(pred).map_values(
                    f,
                ).push(f(x)));
            } else {
                assert(pre.recs().take(i + 1).filter(pred) =~= prefix.filter(pred));
            }
            assert(rec_views(added@) =~= pre.recs().take(i + 1).filter(pred).map_values(f));
        }
        i += 1;
    }
    proof {
        assert(pre.recs().take(n as int) =~= pre.recs());
    }
    let ghost bb = pre.recs().filter(pred).map_values(f);
    let ghost ff = pre.recs().filter(pred);
    fs.records.append(&mut added);
    proof {
        let post = *fs;
        assert(post.recs() =~= pre.recs() + bb);
        FsModel::lemma_filter_membership(pre.recs(), pred);
        FsModel::lemma_filter_distinct(pre.recs(), pred);
        // every filtered record really lies under src and decomposes as
        // src + its suffix
        assert forall|m: int| 0 <= m < ff.len() implies src@.is_prefix_of(#[trigger] ff[m].path)
            && ff[m].path =~= src@ + ff[m].path.skip(sl as int) && bb[m].path =~= dest@
            + ff[m].path.skip(sl as int) by {
            assert(ff.contains(ff[m]));
            assert(pred(ff[m]));
        }
        // added paths are pairwise distinct
        assert forall|a: int, b: int| 0 <= a < b < bb.len() implies bb[a].path != bb[b].path by {
            if bb[a].path == bb[b].path {
                let ta = ff[a].path.skip(sl as int);
                let tb = ff[b].path.skip(sl as int);
                assert(ta =~= tb) by {
                    assert(ta.len() == bb[a].path.len() - dest@.len());
                    assert forall|m: int| 0 <= m < ta.len() implies ta[m] == tb[m] by {
                        assert(bb[a].path[dest@.len() + m] == ta[m]);
                        assert(bb[b].path[dest@.len() + m] == tb[m]);
                    }
                }
                assert(ff[a].path =~= ff[b].path);
            }
        }
        // added paths are fresh: nothing existed at or below dest
        assert forall|m: int| 0 <= m < bb.len() implies !pre.has(#[trigger] bb[m].path) by {
            if pre.has(bb[m].path) {
                pre.lemma_idx_of(bb[m].path);
                let j = pre.idx_of(bb[m].path);
                let t = ff[m].path.skip(sl as int);
                if t.len() == 0 {
                    assert(bb[m].path =~= dest@);
                } else {
                    assert(pre.dir_at(pre.recs()[j].path.take(dest@.len() as int)));
                    assert(pre.recs()[j].path.take(dest@.len() as int) =~= dest@);
                }
            }
        }
        FsModel::lemma_append(pre, post, bb);
        // the subtree clause
        assert forall|t: Seq<Seq<char>>| pre.has(src@ + t) implies #[trigger] post.has(dest@ + t)
            && post.rec_at(dest@ + t).is_dir == pre.rec_at(src@ + t).is_dir && post.rec_at(
            dest@ + t,
        ).content == pre.rec_at(src@ + t).content && post.rec_at(dest@ + t).perms == pre.rec_at(
            src@ + t,
        ).perms by {
            pre.lemma_idx_of(src@ + t);
            let j = pre.idx_of(src@ + t);
            let x = pre.recs()[j];
            pre.lemma_rec_at_index(j);
            assert(src@.is_prefix_of(x.path)) by {
                assert((src@ + t).take(sl as int) =~= src@);
            }
            assert(pre.recs().contains(x));
            assert(ff.contains(x));
            let m = choose|m: int| 0 <= m < ff.len() && ff[m] == x;
            assert(x.path.skip(sl as int) =~= t);
            assert(bb[m].path =~= dest@ + t);
            assert(post.rec_at(bb[m].path) == bb[m]);
            assert(post.has(bb[m].path));
        }
        // nothing else appeared
        assert forall|q: Seq<Seq<char>>| #[trigger] post.has(q) implies pre.has(q) || (
        dest@.is_prefix_of(q) && pre.has(src@ + q.skip(dest@.len() as int))) by {
            if !pre.has(q) {
                let m = choose|m: int| 0 <= m < bb.len() && bb[m].path == q;
                let t = ff[m].path.skip(sl as int);
                assert(q =~= dest@ + t);
                assert(dest@.is_prefix_of(q)) by {
                    assert(q.take(dest@.len() as int) =~= dest@);
                }
                assert(q.skip(dest@.len() as int) =~= t);
                assert(ff.contains(ff[m]));
                assert(pre.recs().contains(ff[m]));
                let j = choose|j: int| 0 <= j < pre.recs().len() && pre.recs()[j] == ff[m];
                assert(pre.recs()[j].path == src@ + t);
            }
        }
        // well-formedness of the result
        assert(post.nonempty_paths()) by {
            assert forall|a: int| 0 <= a < post.recs().len() implies post.recs()[a].path.len()
                > 0 by {
                if a >= pre.recs().len() {
                    assert(post.recs()[a] == bb[a - pre.recs().len()]);
                }
            }
        }
        assert(post.parents_ok()) by {
            assert forall|a: int, k: int|
                0 <= a < post.recs().len() && 1 <= k < post.recs()[a].path.len() implies post.dir_at(
                #[trigger] post.recs()[a].path.take(k),
            ) by {
                let nn = pre.recs().len() as int;
                if a < nn {
                    assert(post.recs()[a] == pre.recs()[a]);
                    assert(pre.dir_at(pre.recs()[a].path.take(k)));
                    let q = pre.recs()[a].path.take(k);
                    if q.len() > 0 {
                        assert(post.rec_at(q) == pre.rec_at(q));
                    }
                } else {
                    let m = a - nn;
                    assert(post.recs()[a] == bb[m]);
                    let t = ff[m].path.skip(sl as int);
                    let q = bb[m].path.take(k);
                    if k < dest@.len() {
                        assert(q =~= dest@.take(k));
                        let pd = dest@.drop_last();
                        assert(pre.dir_at(q)) by {
                            if k == pd.len() {
                                assert(q =~= pd);
                            } else {
                                assert(pd.len() > 0);
                                pre.lemma_idx_of(pd);
                                let jj = pre.idx_of(pd);
                                assert(pre.dir_at(pre.recs()[jj].path.take(k)));
                                assert(pre.recs()[jj].path.take(k) =~= q);
                            }
                        }
                        assert(post.rec_at(q) == pre.rec_at(q));
                    } else if k == dest@.len() {
                        assert(q =~= dest@);
                        assert(t.len() > 0);
                        // src itself is a directory because something lies
                        // strictly below it
                        assert(ff.contains(ff[m]));
                        assert(pre.recs().contains(ff[m]));
                        let j = choose|j: int| 0 <= j < pre.recs().len() && pre.recs()[j] == ff[m];
                        assert(pre.dir_at(pre.recs()[j].path.take(sl as int)));
                        assert(pre.recs()[j].path.take(sl as int) =~= src@);
                        assert(pre.has(src@ + Seq::<Seq<char>>::empty())) by {
                            assert(src@ + Seq::<Seq<char>>::empty() =~= src@);
                        }
                        assert(post.has(dest@ + Seq::<Seq<char>>::empty()));
                        assert(dest@ + Seq::<Seq<char>>::empty() =~= dest@);
                        assert(pre.rec_at(src@ + Seq::<Seq<char>>::empty()).is_dir) by {
                            assert(src@ + Seq::<Seq<char>>::empty() =~= src@);
                        }
                    } else {
                        let mm = k - dest@.len();
                        assert(q =~= dest@ + t.take(mm)) by {
                            assert forall|w: int| 0 <= w < k implies q[w] == (dest@ + t.take(
                                mm,
                            ))[w] by {}
                        }
                        assert(ff.contains(ff[m]));
                        assert(pre.recs().contains(ff[m]));
                        let j = choose|j: int| 0 <= j < pre.recs().len() && pre.recs()[j] == ff[m];
                        assert(pre.dir_at(pre.recs()[j].path.take(sl + mm)));
                        assert(pre.recs()[j].path.take(sl + mm) =~= src@ + t.take(mm));
                        assert(pre.has(src@ + t.take(mm)));
                        assert(post.has(dest@ + t.take(mm)));
                        assert(post.rec_at(dest@ + t.take(mm)).is_dir);
                    }
                }
            }
        }
    }
}

/// Removes the object at `path` together with everything below it;
/// nothing else changes.
pub fn delete(fs: &mut FsModel, path: &FsPath)
    requires
        old(fs).wf(),
        old(fs).has(path@),
    ensures
        final(fs).wf(),
        forall|q: Seq<Seq<char>>| #[trigger] final(fs).has(q) <==> (old(fs).has(q)
            && !path@.is_prefix_of(q)),
        forall|q: Seq<Seq<char>>|
            old(fs).has(q) && !path@.is_prefix_of(q) ==> #[trigger] final(fs).rec_at(q) == old(
                fs,
            ).rec_at(q),
{
    let ghost pre = *fs;
    let ghost pred = not_under(path@);
    let mut kept: Vec<FsRec> = Vec::new();
    let n = fs.records.len();
    let mut i: usize = 0;
    while i < n
        invariant
            i <= n,
            n == pre.recs().len(),
            *fs == pre,
            pred == not_under(path@),
            rec_views(kept@) =~= pre.recs().take(i as int).filter(pred),
        decreases n - i,
    {
        let ghost prefix = pre.recs().take(i as int);
        let ghost x = pre.recs()[i as int];
        let ghost kv = rec_views(kept@);
        if !fs.records[i].path.starts_with(path) {
            kept.push(clone_rec(&fs.records[i]));
            proof {
                assert(rec_views(kept@) =~= kv.push(x));
            }
        }
        proof {
            reveal(Seq::filter);
            assert(pre.recs().take(i + 1).drop_last() =~= prefix);
            assert(pre.recs().take(i + 1).last() == x);
            assert(rec_views(kept@) =~= pre.recs().take(i + 1).filter(pred));
        }
        i += 1;
    }
    proof {
        assert(pre.recs().take(n as int) =~= pre.recs());
    }
    fs.records = kept;
    proof {
        assert(fs.recs() =~= pre.recs().filter(pred));
        let post = *fs;
        FsModel::lemma_filter_membership(pre.recs(), pred);
        FsModel::lemma_filter_distinct(pre.recs(), pred);
        assert forall|q: Seq<Seq<char>>| #[trigger] post.has(q) implies (pre.has(q)
            && !path@.is_prefix_of(q)) by {
            let i = choose|i: int| 0 <= i < post.recs().len() && post.recs()[i].path == q;
            let x = post.recs()[i];
            assert(post.recs().contains(x));
            assert(pre.recs().contains(x) && pred(x));
            let j = choose|j: int| 0 <= j < pre.recs().len() && pre.recs()[j] == x;
            assert(pre.recs()[j].path == q);
        }
        assert forall|q: Seq<Seq<char>>| (pre.has(q) && !path@.is_prefix_of(q)) implies (
        #[trigger] post.has(q) && post.rec_at(q) == pre.rec_at(q)) by {
            pre.lemma_idx_of(q);
            let j = pre.idx_of(q);
            let x = pre.recs()[j];
            pre.lemma_rec_at_index(j);
            assert(pre.recs().contains(x));
            assert(pred(x));
            assert(post.recs().contains(x));
            let i = choose|i: int| 0 <= i < post.recs().len() && post.recs()[i] == x;
            assert(post.recs()[i].path == q);
            post.lemma_rec_at_index(i);
        }
        assert forall|q: Seq<Seq<char>>|
            pre.has(q) && !path@.is_prefix_of(q) implies #[trigger] post.rec_at(q) == pre.rec_at(
            q,
        ) by {
            assert(post.has(q));
        }
        assert(post.nonempty_paths()) by {
            assert forall|i: int| 0 <= i < post.recs().len() implies post.recs()[i].path.len()
                > 0 by {
                let x = post.recs()[i];
                assert(post.recs().contains(x));
                assert(pre.recs().contains(x));
                let j = choose|j: int| 0 <= j < pre.recs().len() && pre.recs()[j] == x;
            }
        }
        assert(post.parents_ok()) by {
            assert forall|i: int, k: int|
                0 <= i < post.recs().len() && 1 <= k < post.recs()[i].path.len() implies post.dir_at(
                #[trigger] post.recs()[i].path.take(k),
            ) by {
                let x = post.recs()[i];
                assert(post.recs().contains(x));
                assert(pre.recs().contains(x) && pred(x));
                let j = choose|j: int| 0 <= j < pre.recs().len() && pre.recs()[j] == x;
                assert(pre.dir_at(pre.recs()[j].path.take(k)));
                let q = x.path.take(k);
                assert(!path@.is_prefix_of(q)) by {
                    if path@.is_prefix_of(q) {
                        assert(path@ =~= q.take(path@.len() as int));
                        assert(q.take(path@.len() as int) =~= x.path.take(path@.len() as int));
                        assert(path@.is_prefix_of(x.path));
                    }
                }
                assert(post.has(q) && post.rec_at(q) == pre.rec_at(q));
            }
        }
    }
}

/// Copies one file's bytes to a fresh destination: the destination is
/// created with exactly the source's content, and nothing else changes.
pub fn paste_file(fs: &mut FsModel, src: &FsPath, dest: &FsPath)
    requires
        old(fs).wf(),
        old(fs).file_at(src@),
        !old(fs).has(dest@),
        dest@.len() > 0,
        old(fs).dir_at(dest@.drop_last()),
    ensures
        final(fs).wf(),
        forall|q: Seq<Seq<char>>| #[trigger] final(fs).has(q) <==> (old(fs).has(q) || q == dest@),
        final(fs).file_at(dest@),
        final(fs).content_at(dest@) == old(fs).content_at(src@),
        forall|q: Seq<Seq<char>>|
            old(fs).has(q) && q != dest@ ==> #[trigger] final(fs).rec_at(q) == old(fs).rec_at(q),
{
    let content = match fs.read_file(src) {
        Some(c) => c,
        None => {
            proof {
                assert(false);
            }
            Vec::new()
        },
    };
    fs.write_file(dest, content);
}

/// Moves the object at `src` — with its whole subtree — to the not yet
/// existing `dest`. Afterwards nothing remains at or below `src`, and for
/// every suffix `t` the object once at `src + t` stands at `dest + t`
/// with its kind, its bytes unchanged byte for byte, and its permission
/// bits; everything else is untouched. The outcome is the same whether a
/// real filesystem would take its one-step rename or fall back to a copy
/// followed by a removal; this engine performs the fallback.
///
/// Like the copy it is built on, the move only ever goes to a fresh
/// destination; overwriting an existing entry, as a raw rename onto a
/// taken name would, is deliberately outside the precondition.
pub fn move_file(fs: &mut FsModel, src: &FsPath, dest: &FsPath)
    requires
        old(fs).wf(),
        old(fs).has(src@),
        !old(fs).has(dest@),
        dest@.len() > 0,
        old(fs).dir_at(dest@.drop_last()),
        !src@.is_prefix_of(dest@),
    ensures
        final(fs).wf(),
        forall|q: Seq<Seq<char>>| src@.is_prefix_of(q) ==> !(#[trigger] final(fs).has(q)),
        forall|t: Seq<Seq<char>>|
            old(fs).has(src@ + t) ==> #[trigger] final(fs).has(dest@ + t) && final(fs).rec_at(
                dest@ + t,
            ).is_dir == old(fs).rec_at(src@ + t).is_dir && final(fs).rec_at(dest@ + t).content
                == old(fs).rec_at(src@ + t).content && final(fs).rec_at(dest@ + t).perms == old(
                fs,
            ).rec_at(src@ + t).perms,
        forall|q: Seq<Seq<char>>| #[trigger] final(fs).has(q) ==> (old(fs).has(q)
            && !src@.is_prefix_of(q) && final(fs).rec_at(q) == old(fs).rec_at(q)) || (
        dest@.is_prefix_of(q) && old(fs).has(src@ + q.skip(dest@.len() as int))),
{
    let ghost pre = *fs;
    copy(fs, src, dest);
    let ghost mid = *fs;
    delete(fs, src);
    proof {
        let post = *fs;
        // src is never a prefix of anything at or below dest: it is not a
        // prefix of dest itself, and dest cannot be a proper prefix of src
        // because every proper prefix of src exists while dest does not.
        assert forall|q: Seq<Seq<char>>| dest@.is_prefix_of(q) implies !src@.is_prefix_of(q) by {
            if src@.is_prefix_of(q) {
                if src@.len() <= dest@.len() {
                    assert(src@ =~= q.take(src@.len() as int));
                    assert(dest@ =~= q.take(dest@.len() as int));
                    assert(src@ =~= dest@.take(src@.len() as int));
                    assert(src@.is_prefix_of(dest@));
                } else {
                    assert(src@ =~= q.take(src@.len() as int));
                    assert(dest@ =~= q.take(dest@.len() as int));
                    assert(dest@ =~= src@.take(dest@.len() as int));
                    // dest is a proper prefix of src, so dest would exist
                    pre.lemma_idx_of(src@);
                    let j = pre.idx_of(src@);
                    assert(pre.dir_at(pre.recs()[j].path.take(dest@.len() as int)));
                    assert(pre.recs()[j].path.take(dest@.len() as int) =~= dest@);
                }
            }
        }
        assert forall|t: Seq<Seq<char>>| pre.has(src@ + t) implies #[trigger] post.has(dest@ + t)
            && post.rec_at(dest@ + t).is_dir == pre.rec_at(src@ + t).is_dir && post.rec_at(
            dest@ + t,
        ).content == pre.rec_at(src@ + t).content && post.rec_at(dest@ + t).perms == pre.rec_at(
            src@ + t,
        ).perms by {
            assert(mid.has(dest@ + t));
            assert(dest@.is_prefix_of(dest@ + t)) by {
                assert((dest@ + t).take(dest@.len() as int) =~= dest@);
            }
            assert(!src@.is_prefix_of(dest@ + t));
            assert(post.rec_at(dest@ + t) == mid.rec_at(dest@ + t));
        }
        assert forall|q: Seq<Seq<char>>| #[trigger] post.has(q) implies (pre.has(q)
            && !src@.is_prefix_of(q) && post.rec_at(q) == pre.rec_at(q)) || (dest@.is_prefix_of(q)
            && pre.has(src@ + q.skip(dest@.len() as int))) by {
            assert(mid.has(q) && !src@.is_prefix_of(q));
            if pre.has(q) {
                assert(mid.rec_at(q) == pre.rec_at(q));
                assert(post.rec_at(q) == mid.rec_at(q));
            }
        }
    }
}

/// The character for one decimal digit.
pub open spec fn digit_char(d: nat) -> char {
    if d == 0 {
        '0'
    } else if d == 1 {
        '1'
    } else if d == 2 {
        '2'
    } else if d == 3 {
        '3'
    } else if d == 4 {
        '4'
    } else if d == 5 {
        '5'
    } else if d == 6 {
        '6'
    } else if d == 7 {
        '7'
    } else if d == 8 {
        '8'
    } else {
        '9'
    }
}

/// The value of one digit character.
pub open spec fn digit_val(c: char) -> nat {
    if c == '0' {
        0
    } else if c == '1' {
        1
    } else if c == '2' {
        2
    } else if c == '3' {
        3
    } else if c == '4' {
        4
    } else if c == '5' {
        5
    } else if c == '6' {
        6
    } else if c == '7' {
        7
    } else if c == '8' {
        8
    } else {
        9
    }
}

/// The usual decimal rendering of `n`, most significant digit first.
pub open spec fn dec_digits(n: nat) -> Seq<char>
    decreases n,
{
    if n < 10 {
        seq![digit_char(n)]
    } else {
        dec_digits(n / 10).push(digit_char(n % 10))
    }
}

/// The number a digit sequence denotes.
pub open spec fn dec_value(s: Seq<char>) -> nat
    decreases s.len(),
{
    if s.len() == 0 {
        0
    } else if s.len() == 1 {
        digit_val(s[0])
    } else {
        dec_value(s.drop_last()) * 10 + digit_val(s.last())
    }
}

/// Reading a decimal rendering back gives the number: the rendering is
/// injective.
pub proof fn lemma_dec_digits_value(n: nat)
    ensures
        dec_value(dec_digits(n)) == n,
        dec_digits(n).len() >= 1,
    decreases n,
{
    if n < 10 {
    } else {
        lemma_dec_digits_value(n / 10);
        let s = dec_digits(n);
        assert(s.drop_last() =~= dec_digits(n / 10));
    }
}

pub proof fn lemma_dec_digits_injective(a: nat, b: nat)
    requires
        dec_digits(a) == dec_digits(b),
    ensures
        a == b,
{
    lemma_dec_digits_value(a);
    lemma_dec_digits_value(b);
}

/// One digit as a string slice.
fn digit_str(d: usize) -> (r: &'static str)
    requires
        d < 10,
    ensures
        r@ =~= seq![digit_char(d as nat)],
{
    proof {
        reveal_strlit("0");
        reveal_strlit("1");
        reveal_strlit("2");
        reveal_strlit("3");
        reveal_strlit("4");
        reveal_strlit("5");
        reveal_strlit("6");
        reveal_strlit("7");
        reveal_strlit("8");
        reveal_strlit("9");
    }
    match d {
        0 => "0",
        1 => "1",
        2 => "2",
        3 => "3",
        4 => "4",
        5 => "5",
        6 => "6",
        7 => "7",
        8 => "8",
        _ => "9",
    }
}

/// `n` written in decimal.
pub fn usize_to_string(n: usize) -> (s: String)
    ensures
        s@ == dec_digits(n as nat),
    decreases n,
{
    if n < 10 {
        let mut s = String::new();
        s.append(digit_str(n));
        proof {
            assert(s@ =~= dec_digits(n as nat));
        }
        s
    } else {
        let mut s = usize_to_string(n / 10);
        s.append(digit_str(n % 10));
        proof {
            assert(s@ =~= dec_digits(n as nat));
        }
        s
    }
}

/// The position of the dot that marks the extension: the last dot past
/// the first character. A name whose only dots lead it — a hidden file —
/// has none.
pub open spec fn spec_last_dot(s: Seq<char>) -> Option<int>
    decreases s.len(),
{
    if s.len() <= 1 {
        None
    } else if s.last() == '.' {
        Some(s.len() - 1)
    } else {
        spec_last_dot(s.drop_last())
    }
}

/// `spec_last_dot` finds exactly the last dot at a position past the
/// first character, or correctly reports that there is none.
pub proof fn lemma_spec_last_dot(s: Seq<char>)
    ensures
        match spec_last_dot(s) {
            Some(d) => 1 <= d < s.len() && s[d] == '.' && (forall|i: int|
                d < i < s.len() ==> s[i] != '.'),
            None => forall|i: int| 1 <= i < s.len() ==> s[i] != '.',
        },
    decreases s.len(),
{
    if s.len() <= 1 {
    } else if s.last() == '.' {
    } else {
        lemma_spec_last_dot(s.drop_last());
        let d0 = s.drop_last();
        match spec_last_dot(d0) {
            Some(d) => {
                assert(s[d] == d0[d]);
                assert forall|i: int| d < i < s.len() implies s[i] != '.' by {
                    if i < s.len() - 1 {
                        assert(d0[i] != '.');
                    }
                }
            },
            None => {
                assert forall|i: int| 1 <= i < s.len() implies s[i] != '.' by {
                    if i < s.len() - 1 {
                        assert(d0[i] != '.');
                    }
                }
            },
        }
    }
}

/// The part of a name before the extension dot, or the whole name.
pub open spec fn spec_stem(s: Seq<char>) -> Seq<char> {
    match spec_last_dot(s) {
        Some(d) => s.take(d),
        None => s,
    }
}

/// The part of a name after the extension dot, if the name has one.
pub open spec fn spec_ext(s: Seq<char>) -> Option<Seq<char>> {
    match spec_last_dot(s) {
        Some(d) => Some(s.skip(d + 1)),
        None => None,
    }
}

/// Splits a name into stem and extension at the last dot past the first
/// character, the way paths carry extensions: a dot at the very front
/// marks no extension, and an extension never holds a dot.
pub fn split_name(name: &String) -> (r: (String, Option<String>))
    ensures
        r.0@ == spec_stem(name@),
        r.1 is Some <==> spec_ext(name@) is Some,
        r.1 matches Some(ext) ==> spec_ext(name@) == Some(ext@),
        match r.1 {
            Some(ext) => name@ =~= r.0@ + seq!['.'] + ext@,
            None => r.0@ == name@,
        },
{
    let s = name.as_str();
    let len = s.unicode_len();
    let mut last_dot: Option<usize> = None;
    let mut i: usize = 0;
    while i < len
        invariant
            i <= len,
            len == s@.len(),
            s@ == name@,
            match last_dot {
                Some(d) => 0 < d < i && s@[d as int] == '.' && (forall|k: int|
                    d < k < i ==> s@[k] != '.'),
                None => forall|k: int| 1 <= k < i ==> s@[k] != '.',
            },
        decreases len - i,
    {
        if i > 0 && s.get_char(i) == '.' {
            last_dot = Some(i);
        }
        i += 1;
    }
    proof {
        lemma_spec_last_dot(name@);
        match last_dot {
            Some(d) => {
                match spec_last_dot(name@) {
                    Some(ds) => {
                        if d < ds {
                            assert(name@[ds] != '.');
                        } else if ds < d {
                            assert(name@[d as int] != '.');
                        }
                    },
                    None => {
                        assert(name@[d as int] != '.');
                    },
                }
            },
            None => {
                match spec_last_dot(name@) {
                    Some(ds) => {
                        assert(name@[ds] != '.');
                    },
                    None => {},
                }
            },
        }
    }
    match last_dot {
        Some(d) => {
            let stem = s.substring_char(0, d).to_owned();
            let ext = s.substring_char(d + 1, len).to_owned();
            proof {
                assert(stem@ =~= name@.take(d as int));
                assert(ext@ =~= name@.skip(d + 1));
                assert(name@ =~= stem@ + seq!['.'] + ext@);
            }
            (stem, Some(ext))
        },
        None => (name.clone(), None),
    }
}

/// The name tried at attempt `c`: stem, underscore, counter, and the
/// extension if there was one.
pub open spec fn candidate_name(stem: Seq<char>, ext: Option<Seq<char>>, c: nat) -> Seq<char> {
    match ext {
        Some(e) => stem + seq!['_'] + dec_digits(c) + seq!['.'] + e,
        None => stem + seq!['_'] + dec_digits(c),
    }
}

/// Distinct attempts try distinct names.
pub proof fn lemma_candidate_injective(stem: Seq<char>, ext: Option<Seq<char>>, a: nat, b: nat)
    requires
        candidate_name(stem, ext, a) == candidate_name(stem, ext, b),
    ensures
        a == b,
{
    lemma_dec_digits_value(a);
    lemma_dec_digits_value(b);
    let da = dec_digits(a);
    let db = dec_digits(b);
    let ca = candidate_name(stem, ext, a);
    let cb = candidate_name(stem, ext, b);
    assert(da.len() == db.len()) by {
        match ext {
            Some(e) => {
                assert(ca.len() == stem.len() + 1 + da.len() + 1 + e.len());
                assert(cb.len() == stem.len() + 1 + db.len() + 1 + e.len());
            },
            None => {
                assert(ca.len() == stem.len() + 1 + da.len());
                assert(cb.len() == stem.len() + 1 + db.len());
            },
        }
    }
    assert(da =~= db) by {
        assert forall|m: int| 0 <= m < da.len() implies da[m] == db[m] by {
            let off = stem.len() + 1;
            assert(ca[off + m] == da[m]);
            assert(cb[off + m] == db[m]);
        }
    }
    lemma_dec_digits_injective(a, b);
}

/// No attempted name is the original: it is strictly longer.
pub proof fn lemma_candidate_differs(stem: Seq<char>, ext: Option<Seq<char>>, c: nat)
    ensures
        match ext {
            Some(e) => candidate_name(stem, ext, c) != stem + seq!['.'] + e,
            None => candidate_name(stem, ext, c) != stem,
        },
{
    lemma_dec_digits_value(c);
    let d = dec_digits(c);
    match ext {
        Some(e) => {
            assert(candidate_name(stem, ext, c).len() == stem.len() + 1 + d.len() + 1 + e.len());
            assert((stem + seq!['.'] + e).len() == stem.len() + 1 + e.len());
        },
        None => {
            assert(candidate_name(stem, ext, c).len() == stem.len() + 1 + d.len());
        },
    }
}

/// `result` is the first free name of the attempt sequence: some attempt
/// whose name the taken-test rejects, while every earlier attempt is
/// taken.
pub open spec fn first_free_candidate(
    stem: Seq<char>,
    ext: Option<Seq<char>>,
    taken: spec_fn(Seq<char>) -> bool,
    result: Seq<char>,
) -> bool {
    exists|c: nat|
        1 <= c && result == #[trigger] candidate_name(stem, ext, c) && !taken(
            candidate_name(stem, ext, c),
        ) && (forall|c2: nat| 1 <= c2 < c ==> taken(#[trigger] candidate_name(stem, ext, c2)))
}

/// The names already present as children of `parent`.
pub open spec fn sibling_taken(fs: FsModel, parent: Seq<Seq<char>>) -> spec_fn(Seq<char>) -> bool {
    |nm: Seq<char>| fs.has(parent.push(nm))
}

/// More pigeons than holes: an injection from `[0, m)` into `[0, n)`
/// bounds `m` by `n`.
pub proof fn lemma_pigeonhole(g: spec_fn(int) -> int, m: int, n: int)
    requires
        0 <= m,
        0 <= n,
        forall|c: int| 0 <= c < m ==> 0 <= #[trigger] g(c) < n,
        forall|c1: int, c2: int| 0 <= c1 < c2 < m ==> #[trigger] g(c1) != #[trigger] g(c2),
    ensures
        m <= n,
    decreases m,
{
    if m > 0 {
        let v = g(m - 1);
        let g2 = |c: int| if g(c) < v {
            g(c)
        } else {
            g(c) - 1
        };
        assert forall|c: int| 0 <= c < m - 1 implies 0 <= #[trigger] g2(c) < n - 1 by {
            assert(g(c) != v);
        }
        assert forall|c1: int, c2: int| 0 <= c1 < c2 < m - 1 implies #[trigger] g2(c1) != #[trigger] g2(c2) by {
            assert(g(c1) != v && g(c2) != v && g(c1) != g(c2));
        }
        lemma_pigeonhole(g2, m - 1, n - 1);
    }
}

/// The collision-avoiding destination name. An unused path is returned
/// unchanged; a used one becomes the first free sibling `stem_1.ext`,
/// `stem_2.ext`, … (`name_1`, `name_2`, … without an extension).
pub fn make_unique_path(fs: &FsModel, path: FsPath) -> (r: FsPath)
    requires
        fs.wf(),
        path@.len() > 0,
    ensures
        !fs.has(r@),
        !fs.has(path@) ==> r@ == path@,
        fs.has(path@) ==> r@ != path@ && r@.len() == path@.len() && r@.drop_last()
            == path@.drop_last(),
        fs.has(path@) ==> first_free_candidate(
            spec_stem(path@.last()),
            spec_ext(path@.last()),
            sibling_taken(*fs, path@.drop_last()),
            r@.last(),
        ),
{
    if !fs.exists_at(&path) {
        return path;
    }
    let name = match path.file_name() {
        Some(n) => n,
        None => {
            proof {
                assert(false);
            }
            String::new()
        },
    };
    let parent = match path.parent() {
        Some(p) => p,
        None => {
            proof {
                assert(false);
            }
            FsPath::root()
        },
    };
    let (stem, ext) = split_name(&name);
    let ghost ext_view: Option<Seq<char>> = match ext {
        Some(ref e) => Some(e@),
        None => None,
    };
    let n = fs.node_count();
    proof {
        fs.lemma_idx_of(path@);
    }
    let mut counter: usize = 1;
    while counter <= n
        invariant
            1 <= counter <= n,
            n == fs.recs().len(),
            fs.wf(),
            fs.has(path@),
            path@.len() > 0,
            name@ == path@.last(),
            parent@ == path@.drop_last(),
            ext_view == (match ext {
                Some(ref e) => Some(e@),
                None => None,
            }),
            stem@ == spec_stem(name@),
            ext_view == spec_ext(name@),
            match ext_view {
                Some(e) => name@ =~= stem@ + seq!['.'] + e,
                None => stem@ == name@,
            },
            forall|c: nat|
                1 <= c < counter ==> fs.has(
                    #[trigger] parent@.push(candidate_name(stem@, ext_view, c)),
                ),
        decreases n + 1 - counter,
    {
        let cand = build_candidate(&stem, &ext, counter);
        proof {
            assert(cand@ == candidate_name(stem@, ext_view, counter as nat));
        }
        let cand_path = parent.join(&cand);
        if !fs.exists_at(&cand_path) {
            proof {
                lemma_candidate_differs(stem@, ext_view, counter as nat);
                assert(cand_path@.drop_last() =~= parent@);
                assert(cand_path@.last() == candidate_name(stem@, ext_view, counter as nat));
                let taken = sibling_taken(*fs, path@.drop_last());
                assert(!taken(candidate_name(stem@, ext_view, counter as nat))) by {
                    assert(parent@.push(cand@) =~= cand_path@);
                }
                assert forall|c2: nat| 1 <= c2 < counter implies taken(
                    #[trigger] candidate_name(stem@, ext_view, c2),
                ) by {
                    assert(fs.has(parent@.push(candidate_name(stem@, ext_view, c2))));
                }
            }
            return cand_path;
        }
        if counter == n {
            // Every attempt up to the number of records exists, and the
            // original path does too: more distinct existing paths than
            // records — impossible, so some attempt must have been free.
            proof {
                let g = |c: int|
                    if c == 0 {
                        fs.idx_of(path@)
                    } else {
                        fs.idx_of(parent@.push(candidate_name(stem@, ext_view, c as nat)))
                    };
                assert forall|c: int| 0 <= c < n + 1 implies 0 <= #[trigger] g(c) < n by {
                    if c == 0 {
                        fs.lemma_idx_of(path@);
                    } else {
                        assert(fs.has(parent@.push(candidate_name(stem@, ext_view, c as nat))));
                        fs.lemma_idx_of(parent@.push(candidate_name(stem@, ext_view, c as nat)));
                    }
                }
                assert forall|c1: int, c2: int|
                    0 <= c1 < c2 < n + 1 implies #[trigger] g(c1) != #[trigger] g(c2) by {
                    let q1 = if c1 == 0 {
                        path@
                    } else {
                        parent@.push(candidate_name(stem@, ext_view, c1 as nat))
                    };
                    let q2 = parent@.push(candidate_name(stem@, ext_view, c2 as nat));
                    fs.lemma_idx_of(q1);
                    fs.lemma_idx_of(q2);
                    assert(q1 != q2) by {
                        if c1 == 0 {
                            lemma_candidate_differs(stem@, ext_view, c2 as nat);
                            assert(path@ =~= parent@.push(name@));
                            if q1 == q2 {
                                assert(q1.last() == q2.last());
                            }
                        } else {
                            if q1 == q2 {
                                assert(q1.last() == q2.last());
                                lemma_candidate_injective(stem@, ext_view, c1 as nat, c2 as nat);
                            }
                        }
                    }
                    if g(c1) == g(c2) {
                        assert(fs.recs()[g(c1)].path == q1);
                        assert(fs.recs()[g(c2)].path == q2);
                    }
                }
                lemma_pigeonhole(g, n + 1, n as int);
                assert(false);
            }
        }
        counter += 1;
    }
    // The loop can only be left with no record at all, yet `path` exists.
    proof {
        fs.lemma_idx_of(path@);
        assert(false);
    }
    path
}

/// Builds the attempt name for one counter value.
pub fn build_candidate(stem: &String, ext: &Option<String>, counter: usize) -> (r: String)
    ensures
        r@ == candidate_name(
            stem@,
            match ext {
                Some(e) => Some(e@),
                None => None,
            },
            counter as nat,
        ),
{
    proof {
        reveal_strlit("_");
        reveal_strlit(".");
    }
    let mut r = stem.clone();
    r.append("_");
    let digits = usize_to_string(counter);
    r.append(digits.as_str());
    match ext {
        Some(e) => {
            r.append(".");
            r.append(e.as_str());
            proof {
                assert(r@ =~= candidate_name(stem@, Some(e@), counter as nat));
            }
            r
        },
        None => {
            proof {
                assert(r@ =~= candidate_name(stem@, None, counter as nat));
            }
            r
        },
    }
}

} // verus!
