//! File inventories of the model and dataset directories. The walk is a state
//! machine: the caller lists the directory it is told to, and hands the
//! entries back; every regular file found becomes one `FileInfo`.
use vstd::prelude::*;

use crate::json::{json_quoted, quote};
use crate::platform::{json_list, json_list_text};
use crate::text::{decimal_string, decimal_text, slice_text, views};

verus! {

pub struct FileInfo {
    pub path: String,
    pub size: u64,
    pub creation_time: u64,
}

/// One entry of a directory listing as the file system reported it; `created`
/// is the creation time in seconds since the epoch, where the system has one.
pub struct EntryInfo {
    pub path: String,
    pub is_dir: bool,
    pub size: u64,
    pub created: Option<u64>,
}

/// A file as the inventory records it: path, size and creation time.
pub type FileRow = (Seq<char>, u64, u64);

pub open spec fn file_view(f: FileInfo) -> FileRow {
    (f.path@, f.size, f.creation_time)
}

/// The record of a file entry; a missing creation time reads as the epoch.
pub open spec fn file_row(e: EntryInfo) -> FileRow {
    (
        e.path@,
        e.size,
        match e.created {
            Some(t) => t,
            None => 0,
        },
    )
}

/// The records of the entries of `es` that are not directories, in order.
pub open spec fn files_of(es: Seq<EntryInfo>) -> Seq<FileRow>
    decreases es.len(),
{
    if es.len() == 0 {
        Seq::empty()
    } else if es.last().is_dir {
        files_of(es.drop_last())
    } else {
        files_of(es.drop_last()).push(file_row(es.last()))
    }
}

/// The paths of the entries of `es` that are directories, in order.
pub open spec fn dirs_of(es: Seq<EntryInfo>) -> Seq<Seq<char>>
    decreases es.len(),
{
    if es.len() == 0 {
        Seq::empty()
    } else if es.last().is_dir {
        dirs_of(es.drop_last()).push(es.last().path@)
    } else {
        dirs_of(es.drop_last())
    }
}

fn copy_text(s: &String) -> (r: String)
    ensures
        r@ == s@,
{
    let t = s.as_str();
    let n = t.unicode_len();
    assert(t@.subrange(0, n as int) =~= t@);
    slice_text(t, 0, n)
}

/// The record of one directory entry.
pub fn file_info_of(e: &EntryInfo) -> (r: FileInfo)
    ensures
        file_view(r) == file_row(*e),
{
    let creation_time = match e.created {
        Some(t) => t,
        None => 0,
    };
    FileInfo { path: copy_text(&e.path), size: e.size, creation_time }
}

/// The records of the files of every listing of `ls`, listing by listing.
pub open spec fn all_files(ls: Seq<Seq<EntryInfo>>) -> Seq<FileRow>
    decreases ls.len(),
{
    if ls.len() == 0 {
        Seq::empty()
    } else {
        all_files(ls.drop_last()) + files_of(ls.last())
    }
}

/// How many entries of `es` are not directories.
pub open spec fn count_files(es: Seq<EntryInfo>) -> nat
    decreases es.len(),
{
    if es.len() == 0 {
        0
    } else {
        count_files(es.drop_last()) + if es.last().is_dir {
            0nat
        } else {
            1nat
        }
    }
}

/// How many entries of all the listings of `ls` are not directories.
pub open spec fn total_files(ls: Seq<Seq<EntryInfo>>) -> nat
    decreases ls.len(),
{
    if ls.len() == 0 {
        0
    } else {
        total_files(ls.drop_last()) + count_files(ls.last())
    }
}

/// A walk in progress: the directories still to list, and the files found.
/// It also remembers, as ghost state, the listings it took in, the
/// directories they were of, and every directory it has been shown.
pub struct DirWalk {
    pending: Vec<String>,
    files: Vec<FileInfo>,
    listed: Ghost<Seq<Seq<EntryInfo>>>,
    visited: Ghost<Seq<Seq<char>>>,
    seen: Ghost<Seq<Seq<char>>>,
}

impl DirWalk {
    pub closed spec fn pending_view(&self) -> Seq<Seq<char>> {
        views(self.pending@)
    }

    pub closed spec fn files_view(&self) -> Seq<FileRow> {
        self.files@.map_values(|f: FileInfo| file_view(f))
    }

    /// The listings taken in so far, in order.
    pub closed spec fn listed(&self) -> Seq<Seq<EntryInfo>> {
        self.listed@
    }

    /// The directories listed so far.
    pub closed spec fn visited(&self) -> Seq<Seq<char>> {
        self.visited@
    }

    /// The root, where it is a directory, and every directory of every listing.
    pub closed spec fn seen(&self) -> Seq<Seq<char>> {
        self.seen@
    }

    /// The files found are those of the listings taken in, and every
    /// directory shown to the walk is either listed or still to list.
    pub open spec fn wf(&self) -> bool {
        &&& self.files_view() == all_files(self.listed())
        &&& forall|j: int|
            0 <= j < self.seen().len() ==> self.pending_view().contains(#[trigger] self.seen()[j])
                || self.visited().contains(self.seen()[j])
    }

    /// A walk of `root`. A root that is not a directory (or does not exist)
    /// gives an empty inventory with nothing to list.
    pub fn new(root: String, root_is_dir: bool) -> (r: DirWalk)
        ensures
            r.wf(),
            r.files_view().len() == 0,
            r.listed().len() == 0,
            r.pending_view() == if root_is_dir {
                seq![root@]
            } else {
                Seq::<Seq<char>>::empty()
            },
            r.seen() == r.pending_view(),
    {
        let ghost root_view = root@;
        let mut pending: Vec<String> = Vec::new();
        if root_is_dir {
            pending.push(root);
        }
        let ghost start = views(pending@);
        let r = DirWalk {
            pending,
            files: Vec::new(),
            listed: Ghost(Seq::empty()),
            visited: Ghost(Seq::empty()),
            seen: Ghost(start),
        };
        assert(r.pending_view() =~= if root_is_dir {
            seq![root_view]
        } else {
            Seq::<Seq<char>>::empty()
        });
        assert(r.files_view() =~= Seq::<FileRow>::empty());
        assert forall|j: int| 0 <= j < r.seen().len() implies r.pending_view().contains(
            #[trigger] r.seen()[j],
        ) || r.visited().contains(r.seen()[j]) by {
            assert(r.pending_view()[j] == r.seen()[j]);
        }
        r
    }

    /// The directory to list next, if any is left.
    pub fn next_dir(&self) -> (r: Option<String>)
        ensures
            match r {
                Some(d) => self.pending_view().len() > 0 && d@ == self.pending_view().last(),
                None => self.pending_view().len() == 0,
            },
    {
        let n = self.pending.len();
        if n == 0 {
            None
        } else {
            Some(copy_text(&self.pending[n - 1]))
        }
    }

    /// Takes in the listing of the directory that `next_dir` named: that
    /// directory is done, its subdirectories are to be listed, its other
    /// entries are recorded. An unreadable directory lists as empty.
    pub fn absorb(&mut self, entries: Vec<EntryInfo>)
        requires
            old(self).wf(),
            old(self).pending_view().len() > 0,
        ensures
            final(self).wf(),
            final(self).pending_view() == old(self).pending_view().drop_last() + dirs_of(
                entries@,
            ),
            final(self).files_view() == old(self).files_view() + files_of(entries@),
            final(self).listed() == old(self).listed().push(entries@),
            final(self).visited() == old(self).visited().push(old(self).pending_view().last()),
            final(self).seen() == old(self).seen() + dirs_of(entries@),
    {
        let ghost pending_all = self.pending_view();
        let ghost old_seen = self.seen();
        let ghost old_visited = self.visited();
        let ghost old_listed = self.listed();
        let ghost old_files = self.files_view();
        self.pending.pop();
        let ghost pending_before = self.pending_view();
        assert(pending_before =~= pending_all.drop_last());
        let ghost found_before = self.files_view();
        let mut i: usize = 0;
        assert(entries@.take(0) =~= Seq::<EntryInfo>::empty());
        assert(pending_before =~= pending_before + dirs_of(entries@.take(0)));
        assert(found_before =~= found_before + files_of(entries@.take(0)));
        while i < entries.len()
            invariant
                i <= entries@.len(),
                self.pending_view() == pending_before + dirs_of(entries@.take(i as int)),
                self.files_view() == found_before + files_of(entries@.take(i as int)),
                self.seen() == old_seen,
                self.visited() == old_visited,
                self.listed() == old_listed,
            decreases entries@.len() - i,
        {
            let e = &entries[i];
            assert(entries@.take(i + 1).drop_last() =~= entries@.take(i as int));
            assert(entries@.take(i + 1).last() == *e);
            if e.is_dir {
                let ghost before = self.pending_view();
                self.pending.push(copy_text(&e.path));
                assert(self.pending_view() =~= before.push(e.path@));
                assert(self.pending_view() =~= pending_before + dirs_of(entries@.take(i + 1)));
            } else {
                let ghost before = self.files_view();
                self.files.push(file_info_of(e));
                assert(self.files_view() =~= before.push(file_row(*e)));
                assert(self.files_view() =~= found_before + files_of(entries@.take(i + 1)));
            }
            i = i + 1;
        }
        assert(entries@.take(entries@.len() as int) =~= entries@);
        let ghost new_dirs = dirs_of(entries@);
        self.listed = Ghost(old_listed.push(entries@));
        self.visited = Ghost(old_visited.push(pending_all.last()));
        self.seen = Ghost(old_seen + new_dirs);
        proof {
            let pv = self.pending_view();
            assert(pv == pending_before + new_dirs);
            assert(self.listed().drop_last() =~= old_listed);
            assert(self.files_view() == all_files(self.listed()));
            assert forall|j: int| 0 <= j < self.seen().len() implies self.pending_view().contains(
                #[trigger] self.seen()[j],
            ) || self.visited().contains(self.seen()[j]) by {
                let d = self.seen()[j];
                if j < old_seen.len() {
                    assert(d == old_seen[j]);
                    if old_visited.contains(d) {
                        let k = choose|k: int| 0 <= k < old_visited.len() && old_visited[k] == d;
                        assert(self.visited()[k] == d);
                    } else {
                        assert(pending_all.contains(d));
                        let k = choose|k: int| 0 <= k < pending_all.len() && pending_all[k] == d;
                        if k == pending_all.len() - 1 {
                            assert(self.visited()[old_visited.len() as int] == d);
                        } else {
                            assert(pv[k] == d);
                        }
                    }
                } else {
                    let k = j - old_seen.len();
                    assert(d == new_dirs[k]);
                    assert(pv[pending_before.len() + k] == d);
                }
            }
        }
    }

    /// The files found so far.
    pub fn files(&self) -> (r: &Vec<FileInfo>)
        ensures
            r@.map_values(|f: FileInfo| file_view(f)) == self.files_view(),
    {
        &self.files
    }
}

/// A finished walk (nothing left to list) has listed every directory it was
/// shown, the root included, and recorded exactly one file for each entry of
/// its listings that is not a directory: every such entry is among the files,
/// and their number is the number of such entries.
pub proof fn lemma_walk_complete(w: DirWalk)
    requires
        w.wf(),
        w.pending_view().len() == 0,
    ensures
        forall|j: int| 0 <= j < w.seen().len() ==> w.visited().contains(#[trigger] w.seen()[j]),
        w.files_view().len() == total_files(w.listed()),
        forall|k: int, i: int|
            0 <= k < w.listed().len() && 0 <= i < w.listed()[k].len() && !w.listed()[k][i].is_dir
                ==> w.files_view().contains(#[trigger] file_row(w.listed()[k][i])),
{
    assert forall|j: int| 0 <= j < w.seen().len() implies w.visited().contains(
        #[trigger] w.seen()[j],
    ) by {
        if w.pending_view().contains(w.seen()[j]) {
            let k = choose|k: int| 0 <= k < w.pending_view().len() && w.pending_view()[k] == w.seen()[j];
        }
    }
    lemma_walk_counts(w.listed());
}

/// The files of a run of listings: one per entry that is not a directory,
/// each of those entries among them.
pub proof fn lemma_walk_counts(ls: Seq<Seq<EntryInfo>>)
    ensures
        all_files(ls).len() == total_files(ls),
        forall|k: int, i: int|
            0 <= k < ls.len() && 0 <= i < ls[k].len() && !ls[k][i].is_dir ==> all_files(
                ls,
            ).contains(#[trigger] file_row(ls[k][i])),
    decreases ls.len(),
{
    if ls.len() > 0 {
        let init = ls.drop_last();
        lemma_walk_counts(init);
        lemma_files_count(ls.last());
        lemma_listing_counts(ls.last());
        assert forall|k: int, i: int|
            0 <= k < ls.len() && 0 <= i < ls[k].len() && !ls[k][i].is_dir implies all_files(
                ls,
            ).contains(#[trigger] file_row(ls[k][i])) by {
            let a = all_files(init);
            let b = files_of(ls.last());
            assert(all_files(ls) == a + b);
            if k < ls.len() - 1 {
                assert(init[k] == ls[k]);
                let q = choose|q: int| 0 <= q < a.len() && a[q] == file_row(init[k][i]);
                assert((a + b)[q] == file_row(ls[k][i]));
            } else {
                let q = choose|q: int| 0 <= q < b.len() && b[q] == file_row(ls.last()[i]);
                assert((a + b)[a.len() + q] == file_row(ls[k][i]));
            }
        }
    }
}

/// The records of a listing are as many as its entries that are not directories.
pub proof fn lemma_files_count(es: Seq<EntryInfo>)
    ensures
        files_of(es).len() == count_files(es),
    decreases es.len(),
{
    if es.len() > 0 {
        lemma_files_count(es.drop_last());
    }
}

/// A listing of N regular files and M directories records exactly N files,
/// every file of it among them, and leaves exactly M directories to list.
pub proof fn lemma_listing_counts(es: Seq<EntryInfo>)
    ensures
        files_of(es).len() + dirs_of(es).len() == es.len(),
        forall|i: int| 0 <= i < es.len() && !es[i].is_dir ==> files_of(es).contains(#[trigger] file_row(es[i])),
        forall|i: int| 0 <= i < es.len() && es[i].is_dir ==> dirs_of(es).contains(#[trigger] es[i].path@),
    decreases es.len(),
{
    if es.len() > 0 {
        let init = es.drop_last();
        lemma_listing_counts(init);
        assert forall|i: int| 0 <= i < es.len() && !es[i].is_dir implies files_of(es).contains(
            #[trigger] file_row(es[i]),
        ) by {
            if i < es.len() - 1 {
                assert(init[i] == es[i]);
                let k = choose|k: int| 0 <= k < files_of(init).len() && files_of(init)[k] == file_row(init[i]);
                assert(files_of(es)[k] == file_row(es[i]));
            } else {
                assert(files_of(es).last() == file_row(es[i]));
            }
        }
        assert forall|i: int| 0 <= i < es.len() && es[i].is_dir implies dirs_of(es).contains(
            #[trigger] es[i].path@,
        ) by {
            if i < es.len() - 1 {
                assert(init[i] == es[i]);
                let k = choose|k: int| 0 <= k < dirs_of(init).len() && dirs_of(init)[k] == init[i].path@;
                assert(dirs_of(es)[k] == es[i].path@);
            } else {
                assert(dirs_of(es).last() == es[i].path@);
            }
        }
    }
}

/// The stored entry of one file.
pub open spec fn file_entry(f: FileRow) -> Seq<char> {
    "{\"path\":"@ + json_quoted(f.0) + ",\"size\":"@ + decimal_text(f.1 as nat)
        + ",\"creation_time\":"@ + decimal_text(f.2 as nat) + "}"@
}

/// The document stored for a file inventory: a JSON list of its files.
pub open spec fn inventory_json(files: Seq<FileRow>) -> Seq<char> {
    json_list(files.map_values(|f: FileRow| file_entry(f)))
}

/// Writes an inventory as the JSON list it is stored as.
pub fn inventory_text(files: &Vec<FileInfo>) -> (r: String)
    ensures
        r@ == inventory_json(files@.map_values(|f: FileInfo| file_view(f))),
{
    let ghost fv = files@.map_values(|f: FileInfo| file_view(f));
    let mut entries: Vec<String> = Vec::new();
    let mut i: usize = 0;
    while i < files.len()
        invariant
            fv == files@.map_values(|f: FileInfo| file_view(f)),
            i <= files@.len(),
            entries@.len() == i,
            forall|q: int| 0 <= q < i ==> #[trigger] entries@[q]@ == file_entry(fv[q]),
        decreases files@.len() - i,
    {
        let f = &files[i];
        assert(file_view(*f) == fv[i as int]);
        let mut e = "{\"path\":".to_string();
        e.append(quote(f.path.as_str()).as_str());
        e.append(",\"size\":");
        e.append(decimal_string(f.size).as_str());
        e.append(",\"creation_time\":");
        e.append(decimal_string(f.creation_time).as_str());
        e.append("}");
        entries.push(e);
        i = i + 1;
    }
    assert(views(entries@) =~= fv.map_values(|f: FileRow| file_entry(f)));
    json_list_text(&entries)
}

} // verus!
