//! The path rules the application applies to the paths the user types or picks:
//! separators, the final component, its extension, the parent, absolute paths
//! and joining. Windows accepts both `\` and `/` as separators, Unix only `/`.
use crate::text::{last_index_of, push_char, rfind_char, str_equals};
use vstd::prelude::*;

verus! {

/// The operating system whose path conventions apply.
#[derive(Clone, Copy, Debug, PartialEq, Eq, Structural)]
pub enum Platform {
    Windows,
    Unix,
}

/// Whether `c` separates path components on `p`.
pub open spec fn is_sep(p: Platform, c: char) -> bool {
    c == '/' || (p == Platform::Windows && c == '\\')
}

/// Whether `c` separates path components on `p`.
pub fn is_separator(p: Platform, c: char) -> (r: bool)
    ensures
        r == is_sep(p, c),
{
    c == '/' || (matches!(p, Platform::Windows) && c == '\\')
}

/// The separator `p` writes when it joins paths.
pub open spec fn main_sep(p: Platform) -> char {
    if p == Platform::Windows {
        '\\'
    } else {
        '/'
    }
}

/// Index of the last separator in `s`, or -1.
pub open spec fn last_sep(p: Platform, s: Seq<char>) -> int
    decreases s.len(),
{
    if s.len() == 0 {
        -1
    } else if is_sep(p, s.last()) {
        s.len() - 1
    } else {
        last_sep(p, s.drop_last())
    }
}

/// The length of the drive prefix of `s`: on Windows a letter and `:` (as in
/// `C:`), else none.
pub open spec fn prefix_len(p: Platform, s: Seq<char>) -> int {
    if p == Platform::Windows && s.len() >= 2 && is_ascii_letter(s[0]) && s[1] == ':' {
        2
    } else {
        0
    }
}

/// Whether a separator follows the prefix, making the path rooted.
pub open spec fn has_root(p: Platform, s: Seq<char>) -> bool {
    prefix_len(p, s) < s.len() && is_sep(p, s[prefix_len(p, s)])
}

/// 1 when an unrooted path starts (after its prefix) with a `.` component,
/// which counts as a component of its own; else 0.
pub open spec fn cur_dir_len(p: Platform, s: Seq<char>) -> int {
    let k = prefix_len(p, s);
    if !has_root(p, s) && k < s.len() && s[k] == '.' && (k + 1 == s.len() || is_sep(p, s[k + 1])) {
        1
    } else {
        0
    }
}

/// Where the components after the prefix, the root and a leading `.` begin.
pub open spec fn body_start(p: Platform, s: Seq<char>) -> int {
    prefix_len(p, s) + (if has_root(p, s) {
        1int
    } else {
        0int
    }) + cur_dir_len(p, s)
}

/// Where the last component of `t` begins: after its last separator at or
/// past `b`, else at `b`.
pub open spec fn comp_start(p: Platform, t: Seq<char>, b: int) -> int {
    if last_sep(p, t) >= b {
        last_sep(p, t) + 1
    } else {
        b
    }
}

/// The last component of `t`, whose body begins at `b`.
pub open spec fn last_comp(p: Platform, t: Seq<char>, b: int) -> Seq<char> {
    t.subrange(comp_start(p, t, b), t.len() as int)
}

/// `t` without its last component and the separator before it.
pub open spec fn without_last_comp(p: Platform, t: Seq<char>, b: int) -> Seq<char> {
    if last_sep(p, t) >= b {
        t.take(last_sep(p, t))
    } else {
        t.take(b)
    }
}

/// `t` without the empty and `.` components that end it (trailing separators
/// and `/.` steps), never cutting into the first `b` characters.
pub open spec fn trim_back(p: Platform, t: Seq<char>, b: int) -> Seq<char>
    decreases t.len(),
{
    if 0 <= b < t.len() && (last_comp(p, t, b).len() == 0 || last_comp(p, t, b) == "."@) {
        proof {
            lemma_last_sep_bounds(p, t);
            assert(without_last_comp(p, t, b).len() < t.len());
        }
        trim_back(p, without_last_comp(p, t, b), b)
    } else {
        t
    }
}

/// `s` without the empty and `.` components that end it.
pub open spec fn trimmed_path(p: Platform, s: Seq<char>) -> Seq<char> {
    trim_back(p, s, body_start(p, s))
}

/// The final component of `s`: its last component once empty and `.`
/// components are dropped; none when there is none (a bare prefix, root or
/// leading `.`) or it is `..`.
pub open spec fn file_name_of(p: Platform, s: Seq<char>) -> Option<Seq<char>> {
    let b = body_start(p, s);
    let t = trimmed_path(p, s);
    if t.len() > b {
        let c = last_comp(p, t, b);
        if c == ".."@ {
            None
        } else {
            Some(c)
        }
    } else {
        None
    }
}

/// The extension of the final component: the text after its last `.`, none when
/// it has no `.` past its first character.
pub open spec fn extension_of(p: Platform, s: Seq<char>) -> Option<Seq<char>> {
    match file_name_of(p, s) {
        None => None,
        Some(name) => {
            let j = last_index_of(name, '.');
            if j <= 0 {
                None
            } else {
                Some(name.subrange(j + 1, name.len() as int))
            }
        },
    }
}

/// The path without its final component: what is left once the last
/// component (a name, `.` or `..`) and the empty and `.` components before it
/// are dropped, keeping the prefix and the root; none for a bare prefix or
/// root, or an empty path.
pub open spec fn parent_of(p: Platform, s: Seq<char>) -> Option<Seq<char>> {
    let b = body_start(p, s);
    let t = trimmed_path(p, s);
    if t.len() > b {
        Some(trim_back(p, without_last_comp(p, t, b), b))
    } else if cur_dir_len(p, s) == 1 {
        Some(s.take(prefix_len(p, s)))
    } else {
        None
    }
}

/// Whether `c` is an ASCII letter.
pub open spec fn is_ascii_letter(c: char) -> bool {
    ('a' <= c && c <= 'z') || ('A' <= c && c <= 'Z')
}

/// Whether `s` is absolute on `p`: rooted at `/` on Unix; on Windows a drive
/// letter, `:` and a separator, or two leading separators.
pub open spec fn is_absolute_path(p: Platform, s: Seq<char>) -> bool {
    if p == Platform::Unix {
        s.len() > 0 && s[0] == '/'
    } else {
        (s.len() >= 3 && is_ascii_letter(s[0]) && s[1] == ':' && is_sep(p, s[2])) || (s.len()
            >= 2 && is_sep(p, s[0]) && is_sep(p, s[1]))
    }
}

/// `rel` resolved against `base`, as `Path::join` does it: `rel` itself when
/// it is absolute or (on Windows) has a drive prefix; on Windows, `base`'s
/// drive prefix followed by `rel` when `rel` starts with a separator;
/// otherwise `base` and `rel` with one separator between them, none being
/// added after a separator, to an empty `base` or to a bare drive prefix.
pub open spec fn join_path(p: Platform, base: Seq<char>, rel: Seq<char>) -> Seq<char> {
    if is_absolute_path(p, rel) || prefix_len(p, rel) == 2 {
        rel
    } else if has_root(p, rel) {
        base.take(prefix_len(p, base)) + rel
    } else if base.len() == 0 || is_sep(p, base.last()) || (prefix_len(p, base) == 2 && base.len()
        == 2) {
        base + rel
    } else {
        base.push(main_sep(p)) + rel
    }
}

/// The length of the drive prefix of `s` (see `prefix_len`).
fn prefix_len_of(p: Platform, s: &str) -> (r: usize)
    ensures
        r == prefix_len(p, s@),
{
    if matches!(p, Platform::Windows) && s.unicode_len() >= 2 {
        let c = s.get_char(0);
        if (('a' <= c && c <= 'z') || ('A' <= c && c <= 'Z')) && s.get_char(1) == ':' {
            return 2;
        }
    }
    0
}

/// Index of the last separator among the first `hi` characters of `s`.
fn last_sep_before(p: Platform, s: &str, hi: usize) -> (r: Option<usize>)
    requires
        hi <= s@.len(),
    ensures
        match r {
            Some(k) => k == last_sep(p, s@.take(hi as int)),
            None => last_sep(p, s@.take(hi as int)) == -1,
        },
{
    let mut i: usize = hi;
    while i > 0
        invariant
            hi <= s@.len(),
            i <= hi,
            last_sep(p, s@.take(hi as int)) == last_sep(p, s@.take(i as int)),
        decreases i,
    {
        if is_separator(p, s.get_char(i - 1)) {
            assert(s@.take(i as int).last() == s@[i - 1]);
            return Some(i - 1);
        }
        assert(s@.take(i as int).drop_last() =~= s@.take(i - 1));
        i = i - 1;
    }
    None
}

pub proof fn lemma_last_sep_bounds(p: Platform, s: Seq<char>)
    ensures
        -1 <= last_sep(p, s) < s.len(),
        last_sep(p, s) >= 0 ==> is_sep(p, s[last_sep(p, s)]),
    decreases s.len(),
{
    if s.len() > 0 && !is_sep(p, s.last()) {
        lemma_last_sep_bounds(p, s.drop_last());
        if last_sep(p, s) >= 0 {
            assert(s[last_sep(p, s)] == s.drop_last()[last_sep(p, s)]);
        }
    }
}

fn body_start_of(p: Platform, s: &str) -> (r: usize)
    ensures
        r == body_start(p, s@),
        r <= s@.len(),
{
    let n = s.unicode_len();
    let windows = matches!(p, Platform::Windows);
    let mut k: usize = 0;
    if windows && n >= 2 {
        let c = s.get_char(0);
        if (('a' <= c && c <= 'z') || ('A' <= c && c <= 'Z')) && s.get_char(1) == ':' {
            k = 2;
        }
    }
    if k < n && is_separator(p, s.get_char(k)) {
        return k + 1;
    }
    if k < n && s.get_char(k) == '.' && (k + 1 == n || is_separator(p, s.get_char(k + 1))) {
        return k + 1;
    }
    k
}

/// The start of the last component of the first `hi` characters of `s`.
fn comp_start_of(p: Platform, s: &str, hi: usize, b: usize) -> (r: usize)
    requires
        b <= hi <= s@.len(),
    ensures
        r == comp_start(p, s@.take(hi as int), b as int),
        b <= r <= hi,
{
    proof {
        lemma_last_sep_bounds(p, s@.take(hi as int));
    }
    match last_sep_before(p, s, hi) {
        Some(k) => if k >= b {
            k + 1
        } else {
            b
        },
        None => b,
    }
}

/// The end of the first `hi` characters of `s` once its trailing empty and `.`
/// components past `b` are dropped.
fn trim_back_len(p: Platform, s: &str, hi: usize, b: usize) -> (r: usize)
    requires
        b <= hi <= s@.len(),
    ensures
        b <= r <= hi,
        trim_back(p, s@.take(hi as int), b as int) == s@.take(r as int),
{
    let mut h = hi;
    while h > b
        invariant
            b <= h <= hi <= s@.len(),
            trim_back(p, s@.take(hi as int), b as int) == trim_back(p, s@.take(h as int), b as int),
        decreases h,
    {
        let ghost t = s@.take(h as int);
        let cs = comp_start_of(p, s, h, b);
        let c = s.substring_char(cs, h);
        assert(c@ =~= last_comp(p, t, b as int));
        if c.unicode_len() == 0 || str_equals(c, ".") {
            proof {
                lemma_last_sep_bounds(p, t);
            }
            let next = if cs > b {
                cs - 1
            } else {
                b
            };
            assert(without_last_comp(p, t, b as int) =~= s@.take(next as int));
            h = next;
        } else {
            return h;
        }
    }
    h
}

/// The final component of `path`, as `Path::file_name` gives it.
pub fn file_name(p: Platform, path: &str) -> (r: Option<String>)
    ensures
        match r {
            Some(v) => file_name_of(p, path@) == Some(v@),
            None => file_name_of(p, path@) is None,
        },
{
    let n = path.unicode_len();
    let b = body_start_of(p, path);
    assert(path@.take(n as int) =~= path@);
    let hi = trim_back_len(p, path, n, b);
    if hi <= b {
        return None;
    }
    let cs = comp_start_of(p, path, hi, b);
    let name = path.substring_char(cs, hi);
    assert(name@ =~= last_comp(p, path@.take(hi as int), b as int));
    if str_equals(name, "..") {
        None
    } else {
        Some(String::from_str(name))
    }
}

/// The extension of the final component of `path`, as `Path::extension`
/// gives it.
pub fn extension(p: Platform, path: &str) -> (r: Option<String>)
    ensures
        match r {
            Some(v) => extension_of(p, path@) == Some(v@),
            None => extension_of(p, path@) is None,
        },
{
    match file_name(p, path) {
        None => None,
        Some(name) => {
            match rfind_char(name.as_str(), '.') {
                None => None,
                Some(j) => {
                    if j == 0 {
                        None
                    } else {
                        let n = name.as_str().unicode_len();
                        Some(String::from_str(name.as_str().substring_char(j + 1, n)))
                    }
                },
            }
        },
    }
}

/// The path without its final component, as `Path::parent` gives it.
#[verifier::rlimit(40)]
#[verifier::spinoff_prover]
pub fn parent(p: Platform, path: &str) -> (r: Option<String>)
    ensures
        match r {
            Some(v) => parent_of(p, path@) == Some(v@),
            None => parent_of(p, path@) is None,
        },
{
    let n = path.unicode_len();
    let b = body_start_of(p, path);
    assert(path@.take(n as int) =~= path@);
    let hi = trim_back_len(p, path, n, b);
    if hi > b {
        let ghost t = path@.take(hi as int);
        proof {
            lemma_last_sep_bounds(p, t);
        }
        let cs = comp_start_of(p, path, hi, b);
        let cut = if cs > b {
            cs - 1
        } else {
            b
        };
        assert(without_last_comp(p, t, b as int) =~= path@.take(cut as int));
        let h = trim_back_len(p, path, cut, b);
        return Some(String::from_str(path.substring_char(0, h)));
    }
    let windows = matches!(p, Platform::Windows);
    let mut k: usize = 0;
    if windows && n >= 2 {
        let c = path.get_char(0);
        if (('a' <= c && c <= 'z') || ('A' <= c && c <= 'Z')) && path.get_char(1) == ':' {
            k = 2;
        }
    }
    let rooted = k < n && is_separator(p, path.get_char(k));
    if !rooted && k < n && path.get_char(k) == '.' && (k + 1 == n || is_separator(
        p,
        path.get_char(k + 1),
    )) {
        return Some(String::from_str(path.substring_char(0, k)));
    }
    None
}

/// Whether `path` is absolute on `p`.
pub fn is_absolute(p: Platform, path: &str) -> (r: bool)
    ensures
        r == is_absolute_path(p, path@),
{
    let n = path.unicode_len();
    match p {
        Platform::Unix => n > 0 && path.get_char(0) == '/',
        Platform::Windows => {
            if n >= 3 {
                let c = path.get_char(0);
                if (('a' <= c && c <= 'z') || ('A' <= c && c <= 'Z')) && path.get_char(1) == ':'
                    && is_separator(p, path.get_char(2)) {
                    return true;
                }
            }
            n >= 2 && is_separator(p, path.get_char(0)) && is_separator(p, path.get_char(1))
        },
    }
}

/// `rel` resolved against `base`, as `Path::join` combines them.
pub fn join(p: Platform, base: &str, rel: &str) -> (r: String)
    ensures
        r@ == join_path(p, base@, rel@),
{
    let rk = prefix_len_of(p, rel);
    if is_absolute(p, rel) || rk == 2 {
        return String::from_str(rel);
    }
    if rel.unicode_len() > 0 && is_separator(p, rel.get_char(0)) {
        let bk = prefix_len_of(p, base);
        let mut out = String::from_str(base.substring_char(0, bk));
        out.append(rel);
        return out;
    }
    let mut out = String::from_str(base);
    let n = base.unicode_len();
    let bare_drive = n == 2 && prefix_len_of(p, base) == 2;
    if n > 0 && !is_separator(p, base.get_char(n - 1)) && !bare_drive {
        push_char(&mut out, if matches!(p, Platform::Windows) { '\\' } else { '/' });
    }
    out.append(rel);
    out
}

/// Dropping the trailing empty and `.` components never lengthens a path.
pub proof fn lemma_trim_back_len(p: Platform, t: Seq<char>, b: int)
    ensures
        trim_back(p, t, b).len() <= t.len(),
    decreases t.len(),
{
    if 0 <= b < t.len() && (last_comp(p, t, b).len() == 0 || last_comp(p, t, b) == "."@) {
        lemma_last_sep_bounds(p, t);
        lemma_trim_back_len(p, without_last_comp(p, t, b), b);
    }
}

/// The components of `t` from its body start `b` on, first to last: the
/// texts between separators, without the empty and `.` ones.
pub open spec fn body_components(p: Platform, t: Seq<char>, b: int) -> Seq<Seq<char>>
    decreases t.len(),
{
    let u = trim_back(p, t, b);
    if 0 <= b < u.len() {
        proof {
            lemma_trim_back_len(p, t, b);
            lemma_last_sep_bounds(p, u);
            assert(without_last_comp(p, u, b).len() < u.len());
        }
        body_components(p, without_last_comp(p, u, b), b).push(last_comp(p, u, b))
    } else {
        Seq::empty()
    }
}

/// The components of `s`, as `Path::components` lists them: the drive prefix
/// (by its text), the root (as `/`, whichever separator wrote it), a leading
/// `.`, then the body's components. Paths with the same components are the
/// same path.
pub open spec fn path_components(p: Platform, s: Seq<char>) -> Seq<Seq<char>> {
    (if prefix_len(p, s) == 2 {
        seq![s.take(2)]
    } else {
        Seq::empty()
    }) + (if has_root(p, s) {
        seq!["/"@]
    } else {
        Seq::empty()
    }) + (if cur_dir_len(p, s) == 1 {
        seq!["."@]
    } else {
        Seq::empty()
    }) + body_components(p, s, body_start(p, s))
}

/// The texts of `v`.
pub open spec fn texts(v: Seq<String>) -> Seq<Seq<char>> {
    v.map_values(|x: String| x@)
}

/// The body components of the first `hi` characters of `s`, from `b` on.
fn body_components_of(p: Platform, s: &str, hi: usize, b: usize) -> (r: Vec<String>)
    requires
        b <= hi <= s@.len(),
    ensures
        texts(r@) == body_components(p, s@.take(hi as int), b as int),
    decreases hi,
{
    let ghost t = s@.take(hi as int);
    let h = trim_back_len(p, s, hi, b);
    let ghost u = s@.take(h as int);
    if h <= b {
        return Vec::new();
    }
    proof {
        lemma_last_sep_bounds(p, u);
    }
    let cs = comp_start_of(p, s, h, b);
    let cut = if cs > b {
        cs - 1
    } else {
        b
    };
    assert(without_last_comp(p, u, b as int) =~= s@.take(cut as int));
    let mut v = body_components_of(p, s, cut, b);
    let c = s.substring_char(cs, h);
    assert(c@ =~= last_comp(p, u, b as int));
    let ghost before = v@;
    v.push(String::from_str(c));
    assert(texts(v@) =~= texts(before).push(c@));
    v
}

/// The components of `path` (see `path_components`).
pub fn components(p: Platform, path: &str) -> (r: Vec<String>)
    ensures
        texts(r@) == path_components(p, path@),
{
    let n = path.unicode_len();
    let windows = matches!(p, Platform::Windows);
    let mut out: Vec<String> = Vec::new();
    let mut k: usize = 0;
    if windows && n >= 2 {
        let c = path.get_char(0);
        if (('a' <= c && c <= 'z') || ('A' <= c && c <= 'Z')) && path.get_char(1) == ':' {
            k = 2;
            out.push(String::from_str(path.substring_char(0, 2)));
        }
    }
    assert(k == prefix_len(p, path@));
    let ghost head1 = texts(out@);
    assert(head1 =~= (if prefix_len(p, path@) == 2 { seq![path@.take(2)] } else { Seq::<Seq<char>>::empty() }));
    let rooted = k < n && is_separator(p, path.get_char(k));
    if rooted {
        out.push(String::from_str("/"));
    }
    let cur = !rooted && k < n && path.get_char(k) == '.' && (k + 1 == n || is_separator(
        p,
        path.get_char(k + 1),
    ));
    if cur {
        out.push(String::from_str("."));
    }
    let ghost head = texts(out@);
    assert(head =~= (if prefix_len(p, path@) == 2 {
        seq![path@.take(2)]
    } else {
        Seq::<Seq<char>>::empty()
    }) + (if has_root(p, path@) {
        seq!["/"@]
    } else {
        Seq::<Seq<char>>::empty()
    }) + (if cur_dir_len(p, path@) == 1 {
        seq!["."@]
    } else {
        Seq::<Seq<char>>::empty()
    }));
    let b = body_start_of(p, path);
    assert(path@.take(n as int) =~= path@);
    let body = body_components_of(p, path, n, b);
    let mut i: usize = 0;
    while i < body.len()
        invariant
            i <= body@.len(),
            texts(out@) == head + texts(body@).take(i as int),
        decreases body@.len() - i,
    {
        let ghost before = out@;
        out.push(crate::model::copy_string(&body[i]));
        assert(texts(out@) =~= texts(before).push(body@[i as int]@));
        assert(texts(body@).take(i + 1) =~= texts(body@).take(i as int).push(body@[i as int]@));
        i = i + 1;
    }
    assert(texts(body@).take(body@.len() as int) =~= texts(body@));
    out
}

/// Whether `a` and `b` are the same path on `p`: their components agree, as
/// `Path`'s equality compares them.
pub fn same_path(p: Platform, a: &str, b: &str) -> (r: bool)
    ensures
        r == (path_components(p, a@) == path_components(p, b@)),
{
    let ca = components(p, a);
    let cb = components(p, b);
    if ca.len() != cb.len() {
        assert(texts(ca@).len() != texts(cb@).len());
        return false;
    }
    let mut i: usize = 0;
    while i < ca.len()
        invariant
            ca@.len() == cb@.len(),
            i <= ca@.len(),
            texts(ca@) == path_components(p, a@),
            texts(cb@) == path_components(p, b@),
            forall|j: int| 0 <= j < i ==> ca@[j]@ == cb@[j]@,
        decreases ca@.len() - i,
    {
        if !str_equals(ca[i].as_str(), cb[i].as_str()) {
            assert(texts(ca@)[i as int] != texts(cb@)[i as int]);
            return false;
        }
        i = i + 1;
    }
    assert(texts(ca@) =~= texts(cb@));
    true
}

/// What dropping the trailing empty and `.` components leaves: a prefix of
/// `t` that keeps the first `b` characters and ends at the end of `t`, at `b`
/// or just before a separator of `t`; and a second drop changes nothing.
pub proof fn lemma_trim_back_shape(p: Platform, t: Seq<char>, b: int)
    requires
        0 <= b <= t.len(),
    ensures
        ({
            let u = trim_back(p, t, b);
            &&& b <= u.len() <= t.len()
            &&& u == t.take(u.len() as int)
            &&& u.len() == t.len() || u.len() == b || is_sep(p, t[u.len() as int])
            &&& trim_back(p, u, b) == u
        }),
    decreases t.len(),
{
    if b < t.len() && (last_comp(p, t, b).len() == 0 || last_comp(p, t, b) == "."@) {
        lemma_last_sep_bounds(p, t);
        let w = without_last_comp(p, t, b);
        lemma_trim_back_shape(p, w, b);
        let u = trim_back(p, w, b);
        assert(u == t.take(u.len() as int));
        if u.len() == w.len() && u.len() != b {
            assert(w.len() == last_sep(p, t));
        }
    } else {
        assert(t.take(t.len() as int) =~= t);
    }
}

/// Whether `n` is a plain file name: it starts with an ASCII letter and holds
/// no separator and no `:`.
pub open spec fn plain_name(p: Platform, n: Seq<char>) -> bool {
    &&& n.len() > 0
    &&& is_ascii_letter(n[0])
    &&& forall|i: int| 0 <= i < n.len() ==> !is_sep(p, #[trigger] n[i]) && n[i] != ':'
}

/// A separator-free tail leaves the last separator where it was.
proof fn lemma_last_sep_append(p: Platform, a: Seq<char>, n: Seq<char>)
    requires
        forall|i: int| 0 <= i < n.len() ==> !is_sep(p, #[trigger] n[i]),
    ensures
        last_sep(p, a + n) == last_sep(p, a),
    decreases n.len(),
{
    if n.len() > 0 {
        assert((a + n).drop_last() =~= a + n.drop_last());
        assert((a + n).last() == n[n.len() - 1]);
        lemma_last_sep_append(p, a, n.drop_last());
    } else {
        assert(a + n =~= a);
    }
}

/// A path whose trailing empty and `.` components are dropped has the
/// components of the path.
pub proof fn lemma_trimmed_components(p: Platform, t: Seq<char>)
    ensures
        path_components(p, trim_back(p, t, body_start(p, t))) == path_components(p, t),
{
    let b = body_start(p, t);
    let k = prefix_len(p, t);
    let u = trim_back(p, t, b);
    lemma_trim_back_shape(p, t, b);
    assert(u.take(b) =~= t.take(b));
    assert(prefix_len(p, u) == k);
    assert(has_root(p, u) == has_root(p, t));
    assert(cur_dir_len(p, u) == cur_dir_len(p, t));
    assert(body_start(p, u) == b);
    if k == 2 {
        assert(u.take(2) =~= t.take(2));
    }
}

/// A plain file name joined to `dir` is a path whose final component is the
/// name and whose parent is `dir` as a path (the same components).
pub proof fn lemma_joined_name_parent(p: Platform, dir: Seq<char>, n: Seq<char>)
    requires
        plain_name(p, n),
    ensures
        file_name_of(p, join_path(p, dir, n)) == Some(n),
        parent_of(p, join_path(p, dir, n)) matches Some(d) && path_components(p, d)
            == path_components(p, dir),
{
    let c = join_path(p, dir, n);
    let k = prefix_len(p, dir);
    let b = body_start(p, dir);
    assert(!is_absolute_path(p, n));
    assert(prefix_len(p, n) == 0);
    assert(!has_root(p, n));
    let added = !(dir.len() == 0 || is_sep(p, dir.last()) || (k == 2 && dir.len() == 2));
    let j: int = dir.len() + if added {
        1int
    } else {
        0int
    };
    assert(c.len() == j + n.len());
    assert(c.subrange(j, c.len() as int) =~= n);
    assert(c.take(dir.len() as int) =~= dir);
    assert forall|i: int| 0 <= i < dir.len() implies c[i] == dir[i] by {
        assert(c.take(dir.len() as int)[i] == c[i]);
    }
    assert(c[j] == n[0]);
    // the prefix, the root and a leading `.` of `c` are those of `dir`
    assert(prefix_len(p, c) == k);
    assert(has_root(p, c) == has_root(p, dir));
    assert(cur_dir_len(p, c) == cur_dir_len(p, dir));
    assert(body_start(p, c) == b);
    assert(b <= dir.len());
    // the last separator of `c`
    let head = c.take(j);
    assert(head + n =~= c);
    lemma_last_sep_append(p, head, n);
    lemma_last_sep_bounds(p, head);
    lemma_last_sep_bounds(p, dir);
    if added {
        assert(head =~= dir.push(main_sep(p)));
        assert(head.last() == main_sep(p));
        assert(last_sep(p, head) == dir.len());
    } else if dir.len() > 0 && is_sep(p, dir.last()) {
        assert(head =~= dir);
        assert(last_sep(p, head) == dir.len() - 1);
    } else {
        assert(head =~= dir);
        if dir.len() == 2 {
            assert(dir.drop_last().drop_last() =~= Seq::<char>::empty());
            assert(last_sep(p, dir.drop_last()) == -1);
        }
        assert(last_sep(p, head) == -1);
    }
    assert(comp_start(p, c, b) == j);
    assert(last_comp(p, c, b) =~= n);
    assert(n != "."@) by {
        reveal_strlit(".");
        if n == "."@ {
            assert(n[0] == '.');
        }
    }
    assert(n != ".."@) by {
        reveal_strlit("..");
        if n == ".."@ {
            assert(n[0] == '.');
        }
    }
    assert(trim_back(p, c, b) == c);
    assert(trimmed_path(p, c) == c);
    // the parent is `dir` with its own trailing empty and `.` components dropped
    let w = without_last_comp(p, c, b);
    lemma_trim_back_shape(p, dir, b);
    if added {
        assert(w =~= dir);
    } else if dir.len() > 0 && is_sep(p, dir.last()) && dir.len() - 1 >= b {
        assert(w =~= dir.drop_last());
        lemma_last_sep_bounds(p, dir);
        assert(last_sep(p, dir) == dir.len() - 1);
        assert(comp_start(p, dir, b) == dir.len());
        assert(last_comp(p, dir, b).len() == 0);
        assert(without_last_comp(p, dir, b) =~= dir.drop_last());
        assert(trim_back(p, dir, b) == trim_back(p, dir.drop_last(), b));
    } else {
        assert(b == dir.len());
        assert(w =~= dir);
    }
    assert(trim_back(p, w, b) == trim_back(p, dir, b));
    lemma_trimmed_components(p, dir);
}

} // verus!
