//! The workspace file tree shown in the side panel: its entries and which file
//! names count as text files worth listing.
use crate::seqs::{first_where, lemma_filter_take_step, lemma_first_where_is, lemma_first_where_none};
use crate::text::{last_index_of, rfind_char, starts_with, str_equals, to_lowercase, unicode_lower};
use vstd::prelude::*;

verus! {

/// One row of the file tree.
pub struct FileTreeItem {
    pub depth: usize,
    pub name: String,
    pub path: String,
    pub is_dir: bool,
}

/// The extensions of files listed in the tree.
pub open spec fn text_extensions() -> Seq<Seq<char>> {
    seq![
        "rs"@, "toml"@, "md"@, "txt"@, "json"@, "yaml"@, "yml"@, "xml"@, "html"@, "css"@, "js"@,
        "ts"@, "jsx"@, "tsx"@, "py"@, "rb"@, "go"@, "java"@, "kt"@, "swift"@, "c"@, "cpp"@, "h"@,
        "hpp"@, "sql"@, "sh"@, "bash"@, "zsh"@, "ps1"@, "bat"@, "cfg"@, "ini"@, "env"@, "lock"@,
        "gradle"@, "properties"@, "conf"@, "dockerfile"@, "gitignore"@, "gitattributes"@,
    ]
}

/// The extension-less file names listed in the tree.
pub open spec fn text_file_names() -> Seq<Seq<char>> {
    seq!["dockerfile"@, "makefile"@, "cmakelists"@]
}

/// Whether a file name is listed: its lower-cased extension is a known text
/// extension, or its whole lower-cased name is a known build-file name.
pub open spec fn is_text_name(name: Seq<char>) -> bool {
    let lower = unicode_lower(name);
    let dot = last_index_of(lower, '.');
    (dot >= 0 && text_extensions().contains(lower.subrange(dot + 1, lower.len() as int)))
        || text_file_names().contains(lower)
}

fn in_list(s: &str, list: &[&str]) -> (r: bool)
    ensures
        r == list@.map_values(|e: &str| e@).contains(s@),
{
    let ghost views = list@.map_values(|e: &str| e@);
    let mut i: usize = 0;
    while i < list.len()
        invariant
            views == list@.map_values(|e: &str| e@),
            i <= list@.len(),
            forall|j: int| 0 <= j < i ==> views[j] != s@,
        decreases list@.len() - i,
    {
        if str_equals(s, list[i]) {
            assert(views[i as int] == s@);
            return true;
        }
        i = i + 1;
    }
    false
}

/// Whether the file `name` is listed in the tree.
pub fn is_text_file(name: &str) -> (r: bool)
    ensures
        r == is_text_name(name@),
{
    let exts: [&str; 40] = [
        "rs", "toml", "md", "txt", "json", "yaml", "yml", "xml", "html", "css", "js", "ts", "jsx",
        "tsx", "py", "rb", "go", "java", "kt", "swift", "c", "cpp", "h", "hpp", "sql", "sh",
        "bash", "zsh", "ps1", "bat", "cfg", "ini", "env", "lock", "gradle", "properties", "conf",
        "dockerfile", "gitignore", "gitattributes",
    ];
    let names: [&str; 3] = ["dockerfile", "makefile", "cmakelists"];
    assert(exts@.map_values(|e: &str| e@) =~= text_extensions());
    assert(names@.map_values(|e: &str| e@) =~= text_file_names());
    let lower = to_lowercase(name);
    let l = lower.as_str();
    if let Some(dot) = rfind_char(l, '.') {
        let n = l.unicode_len();
        if in_list(l.substring_char(dot + 1, n), exts.as_slice()) {
            return true;
        }
    }
    in_list(l, names.as_slice())
}

/// An entry of a directory as read from disk: its name and whether it is a
/// directory.
pub struct DirEntryInfo {
    pub name: String,
    pub is_dir: bool,
}

/// Whether `a` comes before `b` in the order of `str`'s comparison: the first
/// differing character decides, and a proper prefix comes first.
pub open spec fn text_lt(a: Seq<char>, b: Seq<char>) -> bool
    decreases a.len(),
{
    if b.len() == 0 {
        false
    } else if a.len() == 0 {
        true
    } else if a[0] != b[0] {
        a[0] < b[0]
    } else {
        text_lt(a.drop_first(), b.drop_first())
    }
}

/// The key entries are ordered by: the lower-cased name.
pub open spec fn name_key(e: DirEntryInfo) -> Seq<char> {
    unicode_lower(e.name@)
}

/// Whether entry `y` sorts strictly after a key `k`.
pub open spec fn after_key(k: Seq<char>) -> spec_fn(DirEntryInfo) -> bool {
    |y: DirEntryInfo| text_lt(k, name_key(y))
}

/// `sorted` with `x` placed before the first entry whose key is greater than
/// its own, so that equal keys keep their order.
pub open spec fn insert_by_name(sorted: Seq<DirEntryInfo>, x: DirEntryInfo) -> Seq<DirEntryInfo> {
    let k = first_where(sorted, after_key(name_key(x)));
    if k < 0 {
        sorted.push(x)
    } else {
        sorted.insert(k, x)
    }
}

/// The entries `s` sorted by lower-cased name, equal keys keeping their order.
pub open spec fn sorted_by_name(s: Seq<DirEntryInfo>) -> Seq<DirEntryInfo>
    decreases s.len(),
{
    if s.len() == 0 {
        Seq::empty()
    } else {
        insert_by_name(sorted_by_name(s.drop_last()), s.last())
    }
}

/// Whether an entry is left out of the tree: hidden names, `node_modules…`
/// and `target`.
pub open spec fn is_skipped_name(name: Seq<char>) -> bool {
    "."@.is_prefix_of(name) || "node_modules"@.is_prefix_of(name) || name == "target"@
}

/// Whether an entry is listed as a folder.
pub open spec fn listed_dir() -> spec_fn(DirEntryInfo) -> bool {
    |e: DirEntryInfo| !is_skipped_name(e.name@) && e.is_dir
}

/// Whether an entry is listed as a file.
pub open spec fn listed_file() -> spec_fn(DirEntryInfo) -> bool {
    |e: DirEntryInfo| !is_skipped_name(e.name@) && !e.is_dir && is_text_name(e.name@)
}

fn text_less(a: &str, b: &str) -> (r: bool)
    ensures
        r == text_lt(a@, b@),
{
    let n = a.unicode_len();
    let m = b.unicode_len();
    let mut i: usize = 0;
    assert(a@.skip(0) =~= a@);
    assert(b@.skip(0) =~= b@);
    while i < n && i < m
        invariant
            n == a@.len(),
            m == b@.len(),
            i <= n,
            i <= m,
            text_lt(a@, b@) == text_lt(a@.skip(i as int), b@.skip(i as int)),
        decreases n - i,
    {
        let x = a.get_char(i);
        let y = b.get_char(i);
        assert(a@.skip(i as int)[0] == x);
        assert(b@.skip(i as int)[0] == y);
        if x != y {
            return x < y;
        }
        assert(a@.skip(i as int).drop_first() =~= a@.skip(i + 1));
        assert(b@.skip(i as int).drop_first() =~= b@.skip(i + 1));
        i = i + 1;
    }
    assert(b@.skip(i as int).len() == m - i);
    assert(a@.skip(i as int).len() == n - i);
    i < m
}

fn insert_entry(sorted: &mut Vec<DirEntryInfo>, keys: &mut Vec<String>, x: DirEntryInfo)
    requires
        old(keys)@.len() == old(sorted)@.len(),
        forall|j: int| 0 <= j < old(sorted)@.len() ==> (#[trigger] old(keys)@[j])@ == name_key(old(sorted)@[j]),
    ensures
        final(sorted)@ == insert_by_name(old(sorted)@, x),
        final(keys)@.len() == final(sorted)@.len(),
        forall|j: int| 0 <= j < final(sorted)@.len() ==> (#[trigger] final(keys)@[j])@ == name_key(final(sorted)@[j]),
{
    let key = to_lowercase(x.name.as_str());
    let ghost p = after_key(name_key(x));
    let n = sorted.len();
    let mut j: usize = 0;
    while j < n && !text_less(key.as_str(), keys[j].as_str())
        invariant
            n == sorted@.len(),
            n == keys@.len(),
            sorted@ == old(sorted)@,
            keys@ == old(keys)@,
            j <= n,
            key@ == name_key(x),
            p == after_key(name_key(x)),
            forall|q: int| 0 <= q < n ==> (#[trigger] keys@[q])@ == name_key(sorted@[q]),
            forall|q: int| 0 <= q < j ==> !p(#[trigger] sorted@[q]),
        decreases n - j,
    {
        j = j + 1;
    }
    proof {
        if j < n {
            assert(p(sorted@[j as int]));
            lemma_first_where_is(sorted@, p, j as int);
        } else {
            lemma_first_where_none(sorted@, p);
        }
    }
    let ghost before = sorted@;
    let ghost before_keys = keys@;
    if j < n {
        sorted.insert(j, x);
        keys.insert(j, key);
    } else {
        sorted.push(x);
        keys.push(key);
    }
    proof {
        assert forall|q: int| 0 <= q < sorted@.len() implies (#[trigger] keys@[q])@ == name_key(sorted@[q]) by {
            if q < j {
                assert(keys@[q] == before_keys[q] && sorted@[q] == before[q]);
            } else if q > j {
                assert(keys@[q] == before_keys[q - 1] && sorted@[q] == before[q - 1]);
            }
        }
    }
}

/// The entries of one directory in the order the tree lists them: folders,
/// then text files, each sorted by lower-cased name; hidden entries,
/// `node_modules…` and `target` are left out.
pub fn order_dir_entries(entries: Vec<DirEntryInfo>) -> (r: (Vec<DirEntryInfo>, Vec<DirEntryInfo>))
    ensures
        r.0@ == sorted_by_name(entries@.filter(listed_dir())),
        r.1@ == sorted_by_name(entries@.filter(listed_file())),
{
    let ghost orig = entries@;
    assert(orig.len() == entries.len());
    let mut rest = entries;
    let mut dirs: Vec<DirEntryInfo> = Vec::new();
    let mut dir_keys: Vec<String> = Vec::new();
    let mut files: Vec<DirEntryInfo> = Vec::new();
    let mut file_keys: Vec<String> = Vec::new();
    let mut k: usize = 0;
    assert(orig.take(0).filter(listed_dir()) =~= Seq::<DirEntryInfo>::empty()) by {
        reveal(Seq::filter);
    }
    assert(orig.take(0).filter(listed_file()) =~= Seq::<DirEntryInfo>::empty()) by {
        reveal(Seq::filter);
    }
    proof {
        reveal_strlit(".");
        reveal_strlit("node_modules");
        reveal_strlit("target");
    }
    while rest.len() > 0
        invariant
            k <= orig.len() <= usize::MAX,
            rest@.len() == orig.len() - k,
            rest@ == orig.skip(k as int),
            dirs@ == sorted_by_name(orig.take(k as int).filter(listed_dir())),
            files@ == sorted_by_name(orig.take(k as int).filter(listed_file())),
            dir_keys@.len() == dirs@.len(),
            file_keys@.len() == files@.len(),
            forall|j: int| 0 <= j < dirs@.len() ==> (#[trigger] dir_keys@[j])@ == name_key(dirs@[j]),
            forall|j: int| 0 <= j < files@.len() ==> (#[trigger] file_keys@[j])@ == name_key(files@[j]),
        decreases rest@.len(),
    {
        let e = rest.remove(0);
        proof {
            assert(orig.skip(k as int)[0] == orig[k as int]);
            assert(orig.skip(k as int).drop_first() =~= orig.skip(k + 1));
            lemma_filter_take_step(orig, listed_dir(), k as int);
            lemma_filter_take_step(orig, listed_file(), k as int);
        }
        let name = e.name.as_str();
        let skipped = starts_with(name, ".") || starts_with(name, "node_modules") || str_equals(name, "target");
        if !skipped {
            if e.is_dir {
                let ghost pre = orig.take(k as int).filter(listed_dir());
                insert_entry(&mut dirs, &mut dir_keys, e);
                assert(pre.push(orig[k as int]).drop_last() =~= pre);
            } else if is_text_file(name) {
                let ghost pre = orig.take(k as int).filter(listed_file());
                insert_entry(&mut files, &mut file_keys, e);
                assert(pre.push(orig[k as int]).drop_last() =~= pre);
            }
        }
        k = k + 1;
    }
    assert(orig.take(orig.len() as int) =~= orig);
    (dirs, files)
}

/// The deepest folder level the tree descends to.
pub const MAX_TREE_DEPTH: usize = 4;

/// The most rows the tree lists.
pub const MAX_TREE_ITEMS: usize = 500;

/// Whether a folder at `depth` is read while the tree has `count` rows: it is
/// not too deep and the tree is not full.
pub fn tree_has_room(depth: usize, count: usize) -> (r: bool)
    ensures
        r == (depth <= MAX_TREE_DEPTH && count < MAX_TREE_ITEMS),
{
    depth <= MAX_TREE_DEPTH && count < MAX_TREE_ITEMS
}

} // verus!
