//! Listing a folder tree as the rows of the file tree panel: folders first,
//! each followed by its own rows, then the folder's text files, down to the
//! deepest level shown and up to the most rows shown.
use crate::file_tree::{
    listed_dir, listed_file, order_dir_entries, sorted_by_name, DirEntryInfo, FileTreeItem,
    MAX_TREE_DEPTH, MAX_TREE_ITEMS,
};
use crate::model::copy_string;
use crate::paths::{join, join_path, Platform};
use crate::seqs::{first_where, lemma_first_where};
use crate::text::str_equals;
use vstd::prelude::*;

verus! {

/// An entry of a folder as read from disk: its name, whether it is a folder,
/// and, for a folder that was read, its own entries.
pub struct DirChild {
    pub name: String,
    pub is_dir: bool,
    pub sub: Option<Vec<DirChild>>,
}

/// A row of the file tree as plain values: depth, name, path, folder or not.
pub type RowView = (int, Seq<char>, Seq<char>, bool);

/// The rows `v` as plain values.
pub open spec fn rows_view(v: Seq<FileTreeItem>) -> Seq<RowView> {
    v.map_values(|r: FileTreeItem| (r.depth as int, r.name@, r.path@, r.is_dir))
}

/// The name and kind of each entry of `ch`.
pub open spec fn infos(ch: Seq<DirChild>) -> Seq<DirEntryInfo> {
    ch.map_values(|c: DirChild| DirEntryInfo { name: c.name, is_dir: c.is_dir })
}

/// Whether an entry is the folder named `name`.
pub open spec fn is_folder_named(name: Seq<char>) -> spec_fn(DirChild) -> bool {
    |c: DirChild| c.is_dir && c.name@ == name
}

/// Whether a folder at `depth` is read while the tree has `count` rows.
pub open spec fn has_room(depth: int, count: int) -> bool {
    0 <= depth <= MAX_TREE_DEPTH && count < MAX_TREE_ITEMS
}

/// The rows after `items` once the folder `dir` at `depth`, with entries
/// `listing` (none when it could not be read), is listed: nothing when the
/// tree is too deep or full, else its folders (see `walk_dirs`), then its
/// files (see `walk_files`).
pub open spec fn walk(p: Platform, dir: Seq<char>, listing: Option<Vec<DirChild>>, depth: int, items: Seq<RowView>) -> Seq<RowView>
    decreases listing, 0int,
{
    if !has_room(depth, items.len() as int) {
        items
    } else {
        match listing {
            None => items,
            Some(v) => {
                let e = infos(v@);
                let after = walk_dirs(p, dir, v@, sorted_by_name(e.filter(listed_dir())), 0, depth, items);
                walk_files(p, dir, sorted_by_name(e.filter(listed_file())), 0, depth, after)
            },
        }
    }
}

/// The rows after `items` once the folders `ds[i..]` of `dir` (whose entries
/// are `ch`) are listed, in order: each folder's row, then the rows of its
/// own listing one level deeper.
pub open spec fn walk_dirs(p: Platform, dir: Seq<char>, ch: Seq<DirChild>, ds: Seq<DirEntryInfo>, i: int, depth: int, items: Seq<RowView>) -> Seq<RowView>
    decreases ch, ds.len() - i,
{
    if i < 0 || i >= ds.len() {
        items
    } else {
        let name = ds[i].name@;
        let path = join_path(p, dir, name);
        let with_row = items.push((depth, name, path, true));
        let k = first_where(ch, is_folder_named(name));
        let after = if 0 <= k < ch.len() {
            walk(p, path, ch[k].sub, depth + 1, with_row)
        } else {
            with_row
        };
        walk_dirs(p, dir, ch, ds, i + 1, depth, after)
    }
}

/// The rows after `items` once the files `fs[j..]` of `dir` are listed, in
/// order, stopping as soon as the tree is full.
pub open spec fn walk_files(p: Platform, dir: Seq<char>, fs: Seq<DirEntryInfo>, j: int, depth: int, items: Seq<RowView>) -> Seq<RowView>
    decreases fs.len() - j,
{
    if j < 0 || j >= fs.len() {
        items
    } else {
        let name = fs[j].name@;
        let with_row = items.push((depth, name, join_path(p, dir, name), false));
        if !has_room(0, with_row.len() as int) {
            with_row
        } else {
            walk_files(p, dir, fs, j + 1, depth, with_row)
        }
    }
}

/// The names and kinds of the entries `ch`.
fn infos_of(ch: &Vec<DirChild>) -> (r: Vec<DirEntryInfo>)
    ensures
        r@ == infos(ch@),
{
    let mut out: Vec<DirEntryInfo> = Vec::new();
    let mut i: usize = 0;
    while i < ch.len()
        invariant
            i <= ch@.len(),
            out@ == infos(ch@).take(i as int),
        decreases ch@.len() - i,
    {
        out.push(DirEntryInfo { name: copy_string(&ch[i].name), is_dir: ch[i].is_dir });
        assert(infos(ch@).take(i + 1) =~= infos(ch@).take(i as int).push(infos(ch@)[i as int]));
        i = i + 1;
    }
    assert(infos(ch@).take(ch@.len() as int) =~= infos(ch@));
    out
}

/// The position of the folder named `name` among `ch`.
fn folder_position(ch: &Vec<DirChild>, name: &str) -> (r: Option<usize>)
    ensures
        match r {
            Some(k) => k == first_where(ch@, is_folder_named(name@)) && k < ch@.len(),
            None => first_where(ch@, is_folder_named(name@)) < 0,
        },
{
    proof {
        lemma_first_where(ch@, is_folder_named(name@));
    }
    let mut i: usize = 0;
    while i < ch.len()
        invariant
            i <= ch@.len(),
            forall|j: int| 0 <= j < i ==> !is_folder_named(name@)(#[trigger] ch@[j]),
        decreases ch@.len() - i,
    {
        if ch[i].is_dir && str_equals(ch[i].name.as_str(), name) {
            proof {
                crate::seqs::lemma_first_where_is(ch@, is_folder_named(name@), i as int);
            }
            return Some(i);
        }
        i = i + 1;
    }
    proof {
        crate::seqs::lemma_first_where_none(ch@, is_folder_named(name@));
    }
    None
}

/// Lists the folder `dir` at `depth` with entries `listing` after the rows
/// `items` (see `walk`).
fn walk_into(p: Platform, dir: &str, listing: &Option<Vec<DirChild>>, depth: usize, items: &mut Vec<FileTreeItem>)
    ensures
        rows_view(final(items)@) == walk(p, dir@, *listing, depth as int, rows_view(old(items)@)),
    decreases *listing, 0int,
{
    if !(depth <= MAX_TREE_DEPTH && items.len() < MAX_TREE_ITEMS) {
        return;
    }
    match listing {
        None => {},
        Some(v) => {
            let (ds, fs) = order_dir_entries(infos_of(v));
            let ghost start = rows_view(items@);
            let mut i: usize = 0;
            while i < ds.len()
                invariant
                    i <= ds@.len(),
                    depth <= MAX_TREE_DEPTH,
                    *listing == Some(*v),
                    walk_dirs(p, dir@, v@, ds@, i as int, depth as int, rows_view(items@)) == walk_dirs(
                        p,
                        dir@,
                        v@,
                        ds@,
                        0,
                        depth as int,
                        start,
                    ),
                decreases ds@.len() - i,
            {
                let name = ds[i].name.as_str();
                let path = join(p, dir, name);
                let ghost before = rows_view(items@);
                items.push(
                    FileTreeItem { depth, name: copy_string(&ds[i].name), path: copy_string(&path), is_dir: true },
                );
                assert(rows_view(items@) =~= before.push((depth as int, name@, path@, true)));
                match folder_position(v, name) {
                    Some(k) => {
                        proof {
                            assert(decreases_to!(*listing => (*listing)->0));
                            assert((*listing)->0 == *v);
                            assert(decreases_to!(*v => v@));
                            assert(decreases_to!(v@ => v@[k as int]));
                            assert(decreases_to!(v@[k as int] => v@[k as int].sub));
                        }
                        walk_into(p, path.as_str(), &v[k].sub, depth + 1, items);
                    },
                    None => {},
                }
                i = i + 1;
            }
            let ghost after_dirs = rows_view(items@);
            assert(walk(p, dir@, *listing, depth as int, rows_view(old(items)@)) == walk_files(
                p,
                dir@,
                fs@,
                0,
                depth as int,
                after_dirs,
            ));
            let mut j: usize = 0;
            while j < fs.len()
                invariant
                    j <= fs@.len(),
                    walk(p, dir@, *listing, depth as int, rows_view(old(items)@)) == walk_files(
                        p,
                        dir@,
                        fs@,
                        0,
                        depth as int,
                        after_dirs,
                    ),
                    walk_files(p, dir@, fs@, j as int, depth as int, rows_view(items@)) == walk_files(
                        p,
                        dir@,
                        fs@,
                        0,
                        depth as int,
                        after_dirs,
                    ),
                decreases fs@.len() - j,
            {
                let name = fs[j].name.as_str();
                let path = join(p, dir, name);
                let ghost before = rows_view(items@);
                items.push(FileTreeItem { depth, name: copy_string(&fs[j].name), path, is_dir: false });
                assert(rows_view(items@) =~= before.push((depth as int, name@, join_path(p, dir@, name@), false)));
                if !(items.len() < MAX_TREE_ITEMS) {
                    return;
                }
                j = j + 1;
            }
        },
    }
}

/// The rows of the file tree of the folder `root`, whose entries are
/// `listing` (see `walk`).
pub fn file_tree_rows(p: Platform, root: &str, listing: &Option<Vec<DirChild>>) -> (r: Vec<FileTreeItem>)
    ensures
        rows_view(r@) == walk(p, root@, *listing, 0, Seq::empty()),
{
    let mut items: Vec<FileTreeItem> = Vec::new();
    assert(rows_view(items@) =~= Seq::<RowView>::empty());
    walk_into(p, root, listing, 0, &mut items);
    items
}

} // verus!
