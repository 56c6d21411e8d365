//! Local inference runtime helpers: recognising loopback endpoints and the port
//! they name, locating an engine binary inside a chosen directory, and the
//! files to look for when checking that a runtime command can be run.
use crate::paths::{
    extension, extension_of, file_name, file_name_of, join, join_path, Platform,
};
use crate::tabbyapi::{first_true, string_views};
use crate::text::{
    opt_view,
    first_index_of, find_char, has_substring, last_index_of, lower_ascii, parse_u16,
    parse_u16_spec, rfind_char, starts_with, contains_str, str_equals, to_ascii_lowercase, trim,
    trim_seq,
};
use vstd::prelude::*;

verus! {

/// Whether `url` points at this machine: its trimmed, ASCII-lowered text holds
/// `localhost`, `127.0.0.1` or `[::1]`.
pub open spec fn is_loopback(url: Seq<char>) -> bool {
    let l = lower_ascii(trim_seq(url));
    has_substring(l, "localhost"@) || has_substring(l, "127.0.0.1"@) || has_substring(
        l,
        "[::1]"@,
    )
}

/// Whether `url` points at this machine.
pub fn is_loopback_url(url: &str) -> (r: bool)
    ensures
        r == is_loopback(url@),
{
    let l = to_ascii_lowercase(trim(url));
    let s = l.as_str();
    contains_str(s, "localhost") || contains_str(s, "127.0.0.1") || contains_str(s, "[::1]")
}

/// `s` without a leading `http://` or `https://`.
pub open spec fn strip_scheme(s: Seq<char>) -> Seq<char> {
    if "http://"@.is_prefix_of(s) {
        s.skip(7)
    } else if "https://"@.is_prefix_of(s) {
        s.skip(8)
    } else {
        s
    }
}

/// The text of `s` before its first `c`, all of `s` when it holds none.
pub open spec fn before_first(s: Seq<char>, c: char) -> Seq<char> {
    let k = first_index_of(s, c);
    if k < 0 {
        s
    } else {
        s.take(k)
    }
}

/// The port of a loopback URL: the authority must be `localhost` (any ASCII
/// case), `127.0.0.1` or `[::1]` (any ASCII case) followed by `:` and a port.
pub open spec fn loopback_port(url: Seq<char>) -> Option<u16> {
    let t = trim_seq(url);
    let a = trim_seq(before_first(strip_scheme(t), '/'));
    if t.len() == 0 || a.len() == 0 {
        None
    } else if a[0] == '[' {
        let c = first_index_of(a, ']');
        if c < 0 || lower_ascii(a.take(c + 1)) != "[::1]"@ {
            None
        } else {
            let rest = a.skip(c + 1);
            if rest.len() > 0 && rest[0] == ':' {
                parse_u16_spec(rest.skip(1))
            } else {
                None
            }
        }
    } else {
        let k = last_index_of(a, ':');
        if k < 0 {
            None
        } else if lower_ascii(a.take(k)) == "localhost"@ || a.take(k) == "127.0.0.1"@ {
            parse_u16_spec(a.skip(k + 1))
        } else {
            None
        }
    }
}

/// The port that a loopback URL names.
pub fn extract_loopback_port(url: &str) -> (r: Option<u16>)
    ensures
        r == loopback_port(url@),
{
    let t = trim(url);
    let n = t.unicode_len();
    if n == 0 {
        return None;
    }
    proof {
        reveal_strlit("http://");
        reveal_strlit("https://");
    }
    let rest = if starts_with(t, "http://") {
        t.substring_char(7, n)
    } else if starts_with(t, "https://") {
        t.substring_char(8, n)
    } else {
        t
    };
    assert(rest@ =~= strip_scheme(t@));
    let m = rest.unicode_len();
    let head = match find_char(rest, '/') {
        Some(k) => rest.substring_char(0, k),
        None => rest,
    };
    assert(head@ =~= before_first(rest@, '/'));
    let a = trim(head);
    let al = a.unicode_len();
    if al == 0 {
        return None;
    }
    if a.get_char(0) == '[' {
        let c = match find_char(a, ']') {
            Some(c) => c,
            None => return None,
        };
        let host = to_ascii_lowercase(a.substring_char(0, c + 1));
        assert(a@.subrange(0, c + 1) =~= a@.take(c + 1));
        if !str_equals(host.as_str(), "[::1]") {
            return None;
        }
        let after = a.substring_char(c + 1, al);
        assert(after@ =~= a@.skip(c + 1));
        let an = after.unicode_len();
        if an > 0 && after.get_char(0) == ':' {
            let port = after.substring_char(1, an);
            assert(port@ =~= after@.skip(1));
            return parse_u16(port);
        }
        return None;
    }
    let k = match rfind_char(a, ':') {
        Some(k) => k,
        None => return None,
    };
    let host = a.substring_char(0, k);
    assert(host@ =~= a@.take(k as int));
    let lh = to_ascii_lowercase(host);
    if str_equals(lh.as_str(), "localhost") || str_equals(host, "127.0.0.1") {
        let port = a.substring_char(k + 1, al);
        assert(port@ =~= a@.skip(k + 1));
        parse_u16(port)
    } else {
        None
    }
}

/// The final component of `program`, or all of it when it has none.
pub open spec fn program_base(p: Platform, program: Seq<char>) -> Seq<char> {
    match file_name_of(p, program) {
        Some(n) => n,
        None => program,
    }
}

fn program_base_of(p: Platform, program: &str) -> (r: String)
    ensures
        r@ == program_base(p, program@),
{
    match file_name(p, program) {
        Some(n) => n,
        None => String::from_str(program),
    }
}

/// The executable name an engine's program is looked for under: on Windows the
/// base name with `.exe` added when it has no extension, elsewhere the base name.
pub open spec fn expected_binary(p: Platform, program: Seq<char>) -> Seq<char> {
    let base = program_base(p, program);
    if p == Platform::Windows && extension_of(p, base) is None {
        base + ".exe"@
    } else {
        base
    }
}

/// The executable name an engine's program is looked for under.
pub fn expected_binary_name(p: Platform, program: &str) -> (r: String)
    ensures
        r@ == expected_binary(p, program@),
{
    let base = program_base_of(p, program);
    if matches!(p, Platform::Windows) && extension(p, base.as_str()).is_none() {
        let mut s = base;
        s.append(".exe");
        s
    } else {
        base
    }
}

/// The files that may hold `program` inside `dir`, in the order they are tried:
/// the base name, and on Windows, when it has no extension, the base name with
/// `.exe`, `.cmd`, `.bat` and `.com`.
pub open spec fn binary_candidates(p: Platform, dir: Seq<char>, program: Seq<char>) -> Seq<
    Seq<char>,
> {
    let base = program_base(p, program);
    if p == Platform::Windows && extension_of(p, base) is None {
        seq![
            join_path(p, dir, base),
            join_path(p, dir, base + ".exe"@),
            join_path(p, dir, base + ".cmd"@),
            join_path(p, dir, base + ".bat"@),
            join_path(p, dir, base + ".com"@),
        ]
    } else {
        seq![join_path(p, dir, base)]
    }
}

/// The files that may hold `program` inside `dir`, in the order they are tried.
pub fn binary_candidates_in_dir(p: Platform, dir: &str, program: &str) -> (r: Vec<String>)
    ensures
        string_views(r@) == binary_candidates(p, dir@, program@),
{
    let base = program_base_of(p, program);
    let mut v: Vec<String> = Vec::new();
    v.push(join(p, dir, base.as_str()));
    if matches!(p, Platform::Windows) && extension(p, base.as_str()).is_none() {
        let mut e = base.clone();
        e.append(".exe");
        v.push(join(p, dir, e.as_str()));
        let mut c = base.clone();
        c.append(".cmd");
        v.push(join(p, dir, c.as_str()));
        let mut b = base.clone();
        b.append(".bat");
        v.push(join(p, dir, b.as_str()));
        let mut m = base.clone();
        m.append(".com");
        v.push(join(p, dir, m.as_str()));
    }
    assert(string_views(v@) =~= binary_candidates(p, dir@, program@));
    v
}

/// The file inside `dir` that holds `program`: the first of
/// `binary_candidates_in_dir(p, dir, program)` that is a file, where
/// `is_file[i]` tells whether the `i`-th candidate is one.
pub fn resolve_binary_from_dir(p: Platform, dir: &str, program: &str, is_file: &Vec<bool>) -> (r:
    Option<String>)
    requires
        is_file@.len() == binary_candidates(p, dir@, program@).len(),
    ensures
        match r {
            Some(b) => 0 <= first_true(is_file@) < is_file@.len() && b@ == binary_candidates(
                p,
                dir@,
                program@,
            )[first_true(is_file@)],
            None => first_true(is_file@) == -1,
        },
{
    let cands = binary_candidates_in_dir(p, dir, program);
    let r = crate::tabbyapi::find_tabbyapi_launcher(&cands, is_file);
    proof {
        if r is Some {
            let k = first_true(is_file@);
            assert(string_views(cands@)[k] == cands@[k]@);
        }
    }
    r
}

/// The `;`-separated entries of `s` (a `PATHEXT` value), trimmed, without
/// the empty ones, in ASCII lower case.
pub open spec fn listed_extensions(s: Seq<char>) -> Seq<Seq<char>>
    decreases s.len(),
{
    let k = first_index_of(s, ';');
    let piece = if k < 0 {
        s
    } else {
        s.take(k)
    };
    let e = trim_seq(piece);
    let here = if e.len() > 0 {
        seq![lower_ascii(e)]
    } else {
        Seq::empty()
    };
    if k < 0 {
        here
    } else {
        proof {
            crate::text::lemma_first_index_of_props(s, ';');
        }
        here + listed_extensions(s.skip(k + 1))
    }
}

/// The extensions tried after a command name: on Windows, for a name with no
/// extension, those `PATHEXT` lists (`pathext`), or `.com`, `.exe`, `.bat`
/// and `.cmd` when it lists none or is not set; otherwise only the name as
/// it is.
pub open spec fn probe_extensions(p: Platform, name: Seq<char>, pathext: Option<Seq<char>>) -> Seq<Seq<char>> {
    if p == Platform::Windows && extension_of(p, name) is None {
        let listed = match pathext {
            Some(t) => listed_extensions(t),
            None => Seq::empty(),
        };
        if listed.len() > 0 {
            listed
        } else {
            seq![".com"@, ".exe"@, ".bat"@, ".cmd"@]
        }
    } else {
        seq![Seq::empty()]
    }
}

/// The files tried for command `name` in the directories `dirs`, directory
/// by directory and, within one, extension by extension.
pub open spec fn probe_files(p: Platform, dirs: Seq<Seq<char>>, name: Seq<char>, exts: Seq<Seq<char>>) -> Seq<Seq<char>>
    decreases dirs.len(),
{
    if dirs.len() == 0 {
        Seq::empty()
    } else {
        probe_files(p, dirs.drop_last(), name, exts) + exts.map_values(
            |e: Seq<char>| join_path(p, dirs.last(), name + e),
        )
    }
}

/// The files whose existence decides whether `command` can be run: none for
/// an empty command; the trimmed command itself when it holds a separator;
/// else, when `PATH` is set (`dirs`, its entries), the command name with each
/// extension to try in each entry; none when `PATH` is not set.
pub open spec fn command_probe(p: Platform, command: Seq<char>, dirs: Option<Seq<Seq<char>>>, pathext: Option<Seq<char>>) -> Seq<Seq<char>> {
    let name = trim_seq(command);
    if name.len() == 0 {
        Seq::empty()
    } else if first_index_of(name, '/') >= 0 || first_index_of(name, '\\') >= 0 {
        seq![name]
    } else {
        match dirs {
            None => Seq::empty(),
            Some(d) => probe_files(p, d, name, probe_extensions(p, name, pathext)),
        }
    }
}

/// The texts of an optional list of strings.
pub open spec fn opt_string_views(o: Option<Vec<String>>) -> Option<Seq<Seq<char>>> {
    match o {
        Some(v) => Some(string_views(v@)),
        None => None,
    }
}

/// The entries of a `PATHEXT` value (see `listed_extensions`).
pub fn listed_extensions_of(s: &str) -> (r: Vec<String>)
    ensures
        string_views(r@) == listed_extensions(s@),
{
    let mut out: Vec<String> = Vec::new();
    let mut rest: &str = s;
    loop
        invariant
            string_views(out@) + listed_extensions(rest@) == listed_extensions(s@),
        decreases rest@.len(),
    {
        let k = find_char(rest, ';');
        proof {
            crate::text::lemma_first_index_of_props(rest@, ';');
        }
        let n = rest.unicode_len();
        let piece = match k {
            Some(i) => rest.substring_char(0, i),
            None => rest,
        };
        let e = trim(piece);
        let ghost before = out@;
        if e.unicode_len() > 0 {
            out.push(to_ascii_lowercase(e));
        }
        let ghost here = if trim_seq(piece@).len() > 0 {
            seq![lower_ascii(trim_seq(piece@))]
        } else {
            Seq::<Seq<char>>::empty()
        };
        assert(string_views(out@) =~= string_views(before) + here);
        match k {
            None => {
                assert(piece@ =~= rest@);
                assert(string_views(out@) =~= string_views(out@) + Seq::<Seq<char>>::empty());
                return out;
            },
            Some(i) => {
                assert(piece@ =~= rest@.take(i as int));
                let next = rest.substring_char(i + 1, n);
                assert(next@ =~= rest@.skip(i + 1));
                assert(string_views(before) + (here + listed_extensions(next@)) =~= string_views(out@)
                    + listed_extensions(next@));
                rest = next;
            },
        }
    }
}

/// The extensions tried after a command name (see `probe_extensions`).
pub fn probe_extensions_of(p: Platform, name: &str, pathext: &Option<String>) -> (r: Vec<String>)
    ensures
        string_views(r@) == probe_extensions(p, name@, opt_view(*pathext)),
{
    if matches!(p, Platform::Windows) && extension(p, name).is_none() {
        let listed = match pathext {
            Some(t) => listed_extensions_of(t.as_str()),
            None => Vec::new(),
        };
        if listed.len() > 0 {
            return listed;
        }
        let mut v: Vec<String> = Vec::new();
        v.push(String::from_str(".com"));
        v.push(String::from_str(".exe"));
        v.push(String::from_str(".bat"));
        v.push(String::from_str(".cmd"));
        assert(string_views(v@) =~= seq![".com"@, ".exe"@, ".bat"@, ".cmd"@]);
        v
    } else {
        let mut v: Vec<String> = Vec::new();
        v.push(String::new());
        assert(string_views(v@) =~= seq![Seq::<char>::empty()]);
        v
    }
}

/// The files tried for command `name` in the directories `dirs` (see
/// `probe_files`).
pub fn probe_files_of(p: Platform, dirs: &Vec<String>, name: &str, exts: &Vec<String>) -> (r: Vec<String>)
    ensures
        string_views(r@) == probe_files(p, string_views(dirs@), name@, string_views(exts@)),
{
    let ghost ev = string_views(exts@);
    let mut out: Vec<String> = Vec::new();
    let mut i: usize = 0;
    while i < dirs.len()
        invariant
            i <= dirs@.len(),
            ev == string_views(exts@),
            string_views(out@) == probe_files(p, string_views(dirs@.take(i as int)), name@, ev),
        decreases dirs@.len() - i,
    {
        let ghost before = out@;
        let dir = dirs[i].as_str();
        let mut j: usize = 0;
        while j < exts.len()
            invariant
                j <= exts@.len(),
                ev == string_views(exts@),
                dir@ == dirs@[i as int]@,
                string_views(out@) == string_views(before) + ev.take(j as int).map_values(
                    |e: Seq<char>| join_path(p, dir@, name@ + e),
                ),
            decreases exts@.len() - j,
        {
            let mut file = String::from_str(name);
            file.append(exts[j].as_str());
            let ghost mid = out@;
            out.push(join(p, dir, file.as_str()));
            assert(string_views(out@) =~= string_views(mid).push(join_path(p, dir@, name@ + ev[j as int])));
            assert(ev.take(j + 1).map_values(|e: Seq<char>| join_path(p, dir@, name@ + e)) =~= ev.take(
                j as int,
            ).map_values(|e: Seq<char>| join_path(p, dir@, name@ + e)).push(
                join_path(p, dir@, name@ + ev[j as int]),
            ));
            j = j + 1;
        }
        assert(ev.take(exts@.len() as int) =~= ev);
        assert(string_views(dirs@.take(i + 1)).drop_last() =~= string_views(dirs@.take(i as int)));
        assert(string_views(dirs@.take(i + 1)).last() == dir@);
        i = i + 1;
    }
    assert(dirs@.take(dirs@.len() as int) =~= dirs@);
    out
}

/// The files whose existence decides whether `command` can be run (see
/// `command_probe`); `path_dirs` are the entries of `PATH` when it is set,
/// `pathext` the text of `PATHEXT` when it is set.
pub fn command_probe_files(p: Platform, command: &str, path_dirs: Option<Vec<String>>, pathext: Option<String>) -> (r: Vec<String>)
    ensures
        string_views(r@) == command_probe(p, command@, opt_string_views(path_dirs), opt_view(pathext)),
{
    let name = trim(command);
    if name.unicode_len() == 0 {
        let v: Vec<String> = Vec::new();
        assert(string_views(v@) =~= Seq::<Seq<char>>::empty());
        return v;
    }
    if find_char(name, '/').is_some() || find_char(name, '\\').is_some() {
        let mut v: Vec<String> = Vec::new();
        v.push(String::from_str(name));
        assert(string_views(v@) =~= seq![name@]);
        return v;
    }
    match path_dirs {
        None => {
            let v: Vec<String> = Vec::new();
            assert(string_views(v@) =~= Seq::<Seq<char>>::empty());
            v
        },
        Some(dirs) => {
            let exts = probe_extensions_of(p, name, &pathext);
            probe_files_of(p, &dirs, name, &exts)
        },
    }
}

} // verus!
