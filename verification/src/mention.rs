//! The `@` file-mention popup and attachment context: extracting the query the
//! user is typing after `@`, filtering candidate paths by it, and framing
//! attached files as fenced blocks for the model.
use crate::text::{contains_str, has_substring, last_index_of, rfind_char, to_lowercase, unicode_lower};
use vstd::prelude::*;

verus! {

/// The views of a sequence of strings.
pub open spec fn views(v: Seq<String>) -> Seq<Seq<char>> {
    v.map_values(|s: String| s@)
}

/// Whether `c` ends a mention: a space, a newline or a tab.
pub open spec fn is_mention_break(c: char) -> bool {
    c == ' ' || c == '\n' || c == '\t'
}

/// The text after the last `@`, unless that text already holds a space,
/// newline or tab (the mention is complete), or there is no `@` at all.
pub open spec fn mention_query(input: Seq<char>) -> Option<Seq<char>> {
    let k = last_index_of(input, '@');
    if k < 0 {
        None
    } else {
        let rest = input.subrange(k + 1, input.len() as int);
        if exists|j: int| 0 <= j < rest.len() && is_mention_break(#[trigger] rest[j]) {
            None
        } else {
            Some(rest)
        }
    }
}

/// The mention query being typed at the end of `input`.
pub fn extract_mention_query(input: &str) -> (r: Option<String>)
    ensures
        match r {
            Some(q) => mention_query(input@) == Some(q@),
            None => mention_query(input@) is None,
        },
{
    let at = match rfind_char(input, '@') {
        Some(i) => i,
        None => return None,
    };
    let n = input.unicode_len();
    let rest = input.substring_char(at + 1, n);
    let m = rest.unicode_len();
    let mut j: usize = 0;
    while j < m
        invariant
            m == rest@.len(),
            n == input@.len(),
            at == last_index_of(input@, '@'),
            rest@ == input@.subrange(at + 1, n as int),
            j <= m,
            forall|t: int| 0 <= t < j ==> !is_mention_break(#[trigger] rest@[t]),
        decreases m - j,
    {
        let c = rest.get_char(j);
        if c == ' ' || c == '\n' || c == '\t' {
            assert(is_mention_break(rest@[j as int]));
            return None;
        }
        j = j + 1;
    }
    Some(String::from_str(rest))
}

/// Whether the path `p` matches the query `q`: the lower-cased query occurs in
/// the lower-cased path.
pub open spec fn path_matches(p: Seq<char>, q: Seq<char>) -> bool {
    has_substring(unicode_lower(p), unicode_lower(q))
}

/// The candidates that match `q`, in their order.
pub open spec fn matching_paths(cands: Seq<Seq<char>>, q: Seq<char>) -> Seq<Seq<char>>
    decreases cands.len(),
{
    if cands.len() == 0 {
        Seq::empty()
    } else {
        let rest = matching_paths(cands.drop_last(), q);
        if path_matches(cands.last(), q) {
            rest.push(cands.last())
        } else {
            rest
        }
    }
}

/// At most `max` elements from the front of `s`.
pub open spec fn take_at_most<A>(s: Seq<A>, max: nat) -> Seq<A> {
    if max < s.len() {
        s.take(max as int)
    } else {
        s
    }
}

/// The paths offered for a query: the first `max` candidates when the query is
/// empty, otherwise the first `max` candidates that match it.
pub open spec fn fuzzy_matches(cands: Seq<Seq<char>>, q: Seq<char>, max: nat) -> Seq<Seq<char>> {
    if q.len() == 0 {
        take_at_most(cands, max)
    } else {
        take_at_most(matching_paths(cands, q), max)
    }
}

proof fn lemma_matching_prefix(cands: Seq<Seq<char>>, q: Seq<char>, i: int)
    requires
        0 <= i <= cands.len(),
    ensures
        matching_paths(cands.take(i), q).len() <= matching_paths(cands, q).len(),
        matching_paths(cands.take(i), q) =~= matching_paths(cands, q).take(
            matching_paths(cands.take(i), q).len() as int,
        ),
    decreases cands.len(),
{
    if i == cands.len() {
        assert(cands.take(i) =~= cands);
    } else {
        lemma_matching_prefix(cands.drop_last(), q, i);
        assert(cands.drop_last().take(i) =~= cands.take(i));
    }
}

/// The candidate paths offered by the mention popup for `query`.
pub fn fuzzy_match_paths(candidates: &Vec<String>, query: &str, max_results: usize) -> (r: Vec<
    String,
>)
    ensures
        views(r@) == fuzzy_matches(views(candidates@), query@, max_results as nat),
{
    let ghost cv = views(candidates@);
    let mut out: Vec<String> = Vec::new();
    let n = candidates.len();
    if query.unicode_len() == 0 {
        let mut i: usize = 0;
        while i < n && i < max_results
            invariant
                n == candidates@.len(),
                cv == views(candidates@),
                i <= n,
                i <= max_results,
                views(out@) =~= cv.take(i as int),
            decreases n - i,
        {
            out.push(candidates[i].clone());
            assert(cv.take(i + 1) =~= cv.take(i as int).push(cv[i as int]));
            i = i + 1;
        }
        assert(cv.take(n as int) =~= cv);
        assert(views(out@) =~= take_at_most(cv, max_results as nat));
        return out;
    }
    let q = to_lowercase(query);
    let mut i: usize = 0;
    while i < n
        invariant
            n == candidates@.len(),
            cv == views(candidates@),
            q@ == unicode_lower(query@),
            query@.len() > 0,
            i <= n,
            views(out@) =~= matching_paths(cv.take(i as int), query@),
            out@.len() <= max_results,
        decreases n - i,
    {
        if out.len() >= max_results {
            proof {
                lemma_matching_prefix(cv, query@, i as int);
            }
            proof {
                let mp = matching_paths(cv, query@);
                assert(views(out@).len() == out@.len());
                if (max_results as nat) < mp.len() {
                    assert(views(out@) =~= mp.take(max_results as int));
                } else {
                    assert(views(out@) =~= mp);
                }
            }
            return out;
        }
        let p = to_lowercase(candidates[i].as_str());
        let hit = contains_str(p.as_str(), q.as_str());
        let ghost before = cv.take(i as int);
        assert(cv.take(i + 1).drop_last() =~= before);
        if hit {
            out.push(candidates[i].clone());
        }
        i = i + 1;
    }
    assert(cv.take(n as int) =~= cv);
    out
}

/// One attachment framed as a fenced block labelled with its path.
pub open spec fn file_block(path: Seq<char>, content: Seq<char>) -> Seq<char> {
    "```"@ + path + "\n"@ + content + "\n```"@
}

/// The framed attachments, separated by blank lines.
pub open spec fn file_context(files: Seq<(Seq<char>, Seq<char>)>) -> Seq<char>
    decreases files.len(),
{
    if files.len() == 0 {
        Seq::empty()
    } else if files.len() == 1 {
        file_block(files[0].0, files[0].1)
    } else {
        file_context(files.drop_last()) + "\n\n"@ + file_block(files.last().0, files.last().1)
    }
}

/// The views of (path, content) pairs.
pub open spec fn pair_views(v: Seq<(String, String)>) -> Seq<(Seq<char>, Seq<char>)> {
    v.map_values(|e: (String, String)| (e.0@, e.1@))
}

/// The context text that precedes a message sent with attachments.
pub fn build_file_context(files: &Vec<(String, String)>) -> (r: String)
    ensures
        r@ == file_context(pair_views(files@)),
{
    let ghost fv = pair_views(files@);
    let mut out = String::new();
    let n = files.len();
    let mut i: usize = 0;
    while i < n
        invariant
            n == files@.len(),
            fv == pair_views(files@),
            i <= n,
            out@ == file_context(fv.take(i as int)),
        decreases n - i,
    {
        let ghost before = out@;
        if i > 0 {
            out.append("\n\n");
        }
        out.append("```");
        out.append(files[i].0.as_str());
        out.append("\n");
        out.append(files[i].1.as_str());
        out.append("\n```");
        let ghost t = fv.take(i + 1);
        assert(t.drop_last() =~= fv.take(i as int));
        assert(t.last() == fv[i as int]);
        if i == 0 {
            assert(out@ =~= file_block(t[0].0, t[0].1));
        } else {
            assert(out@ =~= before + "\n\n"@ + file_block(t.last().0, t.last().1));
        }
        i = i + 1;
    }
    assert(fv.take(n as int) =~= fv);
    out
}

} // verus!
