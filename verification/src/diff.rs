//! The line diff shown before a file is written: which lines stay, go or
//! come, each marked and cut to a readable width.
use crate::summary::utf8_len;
use vstd::prelude::*;
use vstd::utf8::{encode_scalar, encode_utf8, is_char_boundary};

verus! {

/// The most diff lines shown.
pub const MAX_DIFF_LINES: usize = 400;

/// The most bytes of a line shown.
pub const MAX_DIFF_LINE_BYTES: usize = 200;

/// What happened to a line.
#[derive(Clone, Copy, Debug, PartialEq, Eq, Structural)]
pub enum DiffTag {
    Equal,
    Delete,
    Insert,
}

/// The line changes that turn `old` into `new`, each with the line's text as
/// the diff gives it (its line break included).
pub uninterp spec fn line_changes(old: Seq<char>, new: Seq<char>) -> Seq<(DiffTag, Seq<char>)>;

/// The plain values of line changes.
pub open spec fn change_views(v: Seq<(DiffTag, String)>) -> Seq<(DiffTag, Seq<char>)> {
    v.map_values(|c: (DiffTag, String)| (c.0, c.1@))
}

/// `similar::TextDiff::from_lines(old, new).iter_all_changes()`: every change
/// with its tag and line text. The diff uses the default configuration, with
/// no deadline, so its result depends on the two texts alone; the algorithm is
/// not restated here.
#[verifier::external_body]
fn diff_changes(old: &str, new: &str) -> (r: Vec<(DiffTag, String)>)
    ensures
        change_views(r@) == line_changes(old@, new@),
{
    similar::TextDiff::from_lines(old, new).iter_all_changes().map(|c| {
        let tag = match c.tag() {
            similar::ChangeTag::Equal => DiffTag::Equal,
            similar::ChangeTag::Delete => DiffTag::Delete,
            similar::ChangeTag::Insert => DiffTag::Insert,
        };
        (tag, c.value().to_string())
    }).collect()
}

/// Whether `n` bytes into the UTF-8 text of `s` falls between characters.
pub open spec fn cuts_between_chars(s: Seq<char>, n: nat) -> bool {
    exists|k: int| 0 <= k <= s.len() && #[trigger] encode_utf8(s.take(k)).len() == n
}

/// The encoding of two texts one after the other is the two encodings one
/// after the other.
proof fn lemma_encode_append(a: Seq<char>, b: Seq<char>)
    ensures
        encode_utf8(a + b) == encode_utf8(a) + encode_utf8(b),
    decreases a.len(),
{
    if a.len() == 0 {
        assert(a + b =~= b);
        assert(encode_utf8(a) + encode_utf8(b) =~= encode_utf8(b));
    } else {
        lemma_encode_append(a.drop_first(), b);
        assert((a + b).drop_first() =~= a.drop_first() + b);
        assert((a + b)[0] == a[0]);
        assert(encode_utf8(a + b) =~= encode_utf8(a) + encode_utf8(b));
    }
}

/// A byte index of the encoding of `s` is a character boundary exactly when
/// it is the encoded length of a prefix of `s`.
proof fn lemma_boundary_is_cut(s: Seq<char>, n: int)
    ensures
        is_char_boundary(encode_utf8(s), n) <==> cuts_between_chars(s, n as nat) && n >= 0,
    decreases s.len(),
{
    broadcast use vstd::utf8::encode_utf8_valid_utf8;

    let e = encode_utf8(s);
    if n == 0 {
        assert(s.take(0) =~= Seq::<char>::empty());
        assert(encode_utf8(s.take(0)).len() == 0);
    } else if n < 0 || e.len() < n {
        assert forall|k: int| 0 <= k <= s.len() implies #[trigger] encode_utf8(s.take(k)).len() != n by {
            lemma_encode_append(s.take(k), s.skip(k));
            assert(s.take(k) + s.skip(k) =~= s);
        }
    } else {
        if s.len() == 0 {
            assert(e.len() == 0);
        }
        let t = s.drop_first();
        vstd::utf8::encode_utf8_first_scalar(s);
        let w = encode_scalar(s[0] as u32).len() as int;
        assert(vstd::utf8::pop_first_scalar(e) =~= encode_utf8(t));
        lemma_boundary_is_cut(t, n - w);
        if cuts_between_chars(t, (n - w) as nat) && n - w >= 0 {
            let k = choose|k: int| 0 <= k <= t.len() && #[trigger] encode_utf8(t.take(k)).len() == n - w;
            assert(s.take(k + 1).drop_first() =~= t.take(k));
            assert(s.take(k + 1)[0] == s[0]);
            assert(encode_utf8(s.take(k + 1)).len() == n);
        }
        if cuts_between_chars(s, n as nat) {
            let k = choose|k: int| 0 <= k <= s.len() && #[trigger] encode_utf8(s.take(k)).len() == n;
            if k == 0 {
                assert(s.take(0) =~= Seq::<char>::empty());
            } else {
                assert(s.take(k).drop_first() =~= t.take(k - 1));
                assert(s.take(k)[0] == s[0]);
                assert(encode_utf8(t.take(k - 1)).len() == n - w);
            }
        }
    }
}

/// The first `n` bytes of `s` as text, when `n` is within `s` and falls
/// between characters, else nothing; as `str::get(..n)` gives them.
fn byte_prefix(s: &str, n: usize) -> (r: Option<&str>)
    ensures
        r matches Some(p) ==> exists|k: int|
            0 <= k <= s@.len() && p@ == s@.take(k) && #[trigger] encode_utf8(s@.take(k)).len() == n,
        r is None ==> !cuts_between_chars(s@, n as nat),
{
    proof {
        lemma_boundary_is_cut(s@, n as int);
    }
    if !s.is_char_boundary(n) {
        return None;
    }
    let (p, _) = s.split_at(n);
    proof {
        broadcast use vstd::utf8::encode_utf8_decode_utf8;

        let k = choose|k: int| 0 <= k <= s@.len() && #[trigger] encode_utf8(s@.take(k)).len() == n;
        lemma_encode_append(s@.take(k), s@.skip(k));
        assert(s@.take(k) + s@.skip(k) =~= s@);
        assert(encode_utf8(p@) =~= encode_utf8(s@.take(k)));
        assert(vstd::utf8::decode_utf8(encode_utf8(p@)) == p@);
        assert(vstd::utf8::decode_utf8(encode_utf8(s@.take(k))) == s@.take(k));
    }
    Some(p)
}

/// The line without the line breaks that end it.
pub open spec fn without_trailing_breaks(s: Seq<char>) -> Seq<char>
    decreases s.len(),
{
    if s.len() > 0 && s.last() == '\n' {
        without_trailing_breaks(s.drop_last())
    } else {
        s
    }
}

/// The mark of a change: `-` for a removed line, `+` for an added one, a
/// space for one that stays.
pub open spec fn tag_mark(t: DiffTag) -> Seq<char> {
    match t {
        DiffTag::Delete => "-"@,
        DiffTag::Insert => "+"@,
        DiffTag::Equal => " "@,
    }
}

/// Whether `shown` is how change `(t, raw)` is shown: its mark, a space and
/// the line without its breaks; a line over the byte limit is cut there and
/// marked with `…`.
pub open spec fn shows_change(shown: Seq<char>, t: DiffTag, raw: Seq<char>) -> bool {
    let line = without_trailing_breaks(raw);
    if utf8_len(line) > MAX_DIFF_LINE_BYTES {
        exists|k: int|
            0 <= k <= line.len() && #[trigger] encode_utf8(line.take(k)).len() == MAX_DIFF_LINE_BYTES
                && shown == tag_mark(t) + " "@ + line.take(k) + "…"@
    } else {
        shown == tag_mark(t) + " "@ + line
    }
}

/// Whether a change can be shown: a line over the byte limit must be cut
/// between characters.
pub open spec fn showable(raw: Seq<char>) -> bool {
    let line = without_trailing_breaks(raw);
    utf8_len(line) > MAX_DIFF_LINE_BYTES ==> cuts_between_chars(line, MAX_DIFF_LINE_BYTES as nat)
}

/// Whether `shown` are the diff lines of `changes`: the first
/// `MAX_DIFF_LINES` changes, then a note when there are more.
pub open spec fn shows_changes(shown: Seq<Seq<char>>, changes: Seq<(DiffTag, Seq<char>)>) -> bool {
    let n = if changes.len() > MAX_DIFF_LINES {
        MAX_DIFF_LINES as int
    } else {
        changes.len() as int
    };
    &&& shown.len() == if changes.len() > MAX_DIFF_LINES {
        n + 1
    } else {
        n
    }
    &&& forall|i: int| 0 <= i < n ==> shows_change(#[trigger] shown[i], changes[i].0, changes[i].1)
    &&& changes.len() > MAX_DIFF_LINES ==> shown[n] == "…(diff 라인 400+ 생략)"@
}

fn trim_breaks(s: &str) -> (r: &str)
    ensures
        r@ == without_trailing_breaks(s@),
{
    let mut n = s.unicode_len();
    assert(s@.take(n as int) =~= s@);
    while n > 0 && s.get_char(n - 1) == '\n'
        invariant
            n <= s@.len(),
            without_trailing_breaks(s@) == without_trailing_breaks(s@.take(n as int)),
        decreases n,
    {
        assert(s@.take(n as int).drop_last() =~= s@.take(n - 1));
        n = n - 1;
    }
    s.substring_char(0, n)
}

fn show_change(t: DiffTag, raw: &str) -> (r: String)
    requires
        showable(raw@),
    ensures
        shows_change(r@, t, raw@),
{
    let line = trim_breaks(raw);
    let mut out = String::from_str(
        match t {
            DiffTag::Delete => "-",
            DiffTag::Insert => "+",
            DiffTag::Equal => " ",
        },
    );
    out.append(" ");
    proof {
        reveal_strlit("-");
        reveal_strlit("+");
        reveal_strlit(" ");
        reveal_strlit("…");
    }
    if line.len() > MAX_DIFF_LINE_BYTES {
        match byte_prefix(line, MAX_DIFF_LINE_BYTES) {
            Some(p) => {
                out.append(p);
                out.append("…");
            },
            None => {
                assert(false);
            },
        }
    } else {
        out.append(line);
    }
    out
}

/// The diff lines of `changes` (see `shows_changes`).
pub fn diff_display_lines(changes: &Vec<(DiffTag, String)>) -> (r: Vec<String>)
    requires
        forall|i: int| 0 <= i < changes@.len() && i < MAX_DIFF_LINES ==> showable((#[trigger] changes@[i]).1@),
    ensures
        shows_changes(views_of(r@), change_views(changes@)),
{
    let mut out: Vec<String> = Vec::new();
    let mut i: usize = 0;
    let n = changes.len();
    while i < n
        invariant
            n == changes@.len(),
            i <= n,
            i <= MAX_DIFF_LINES,
            out@.len() == i,
            forall|i: int| 0 <= i < changes@.len() && i < MAX_DIFF_LINES ==> showable((#[trigger] changes@[i]).1@),
            forall|j: int| 0 <= j < i ==> shows_change(#[trigger] out@[j]@, changes@[j].0, changes@[j].1@),
        decreases n - i,
    {
        if i >= MAX_DIFF_LINES {
            out.push(String::from_str("…(diff 라인 400+ 생략)"));
            proof {
                reveal_strlit("…(diff 라인 400+ 생략)");
            }
            assert(views_of(out@)[i as int] == out@[i as int]@);
            return out;
        }
        let s = show_change(changes[i].0, changes[i].1.as_str());
        out.push(s);
        i = i + 1;
    }
    out
}

/// The texts of `v`.
pub open spec fn views_of(v: Seq<String>) -> Seq<Seq<char>> {
    v.map_values(|s: String| s@)
}

/// The diff lines that show how `old` becomes `new` (see `shows_changes`), or
/// `None` when a long line among the changes shown (the first
/// `MAX_DIFF_LINES`) cannot be cut between characters at the byte limit.
pub fn render_diff_lines(old: &str, new: &str) -> (r: Option<Vec<String>>)
    ensures
        match r {
            Some(lines) => shows_changes(views_of(lines@), line_changes(old@, new@)),
            None => exists|i: int|
                0 <= i < line_changes(old@, new@).len() && i < MAX_DIFF_LINES && !showable(
                    #[trigger] line_changes(old@, new@)[i].1,
                ),
        },
{
    let changes = diff_changes(old, new);
    let mut i: usize = 0;
    while i < changes.len() && i < MAX_DIFF_LINES
        invariant
            i <= changes@.len(),
            i <= MAX_DIFF_LINES,
            change_views(changes@) == line_changes(old@, new@),
            forall|j: int| 0 <= j < i ==> showable((#[trigger] changes@[j]).1@),
        decreases changes@.len() - i,
    {
        let line = trim_breaks(changes[i].1.as_str());
        if line.len() > MAX_DIFF_LINE_BYTES && byte_prefix(line, MAX_DIFF_LINE_BYTES).is_none() {
            assert(change_views(changes@)[i as int].1 == changes@[i as int].1@);
            return None;
        }
        i = i + 1;
    }
    Some(diff_display_lines(&changes))
}

} // verus!
