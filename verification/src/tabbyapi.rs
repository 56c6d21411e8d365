//! TabbyAPI launcher rules: which script names start TabbyAPI, which names are
//! the TabbyML CLI (which cannot serve EXL2 models), how a chosen launcher path
//! is judged, where a runtime directory keeps its launcher, and how values are
//! quoted in the generated `config.yml`.
use crate::paths::{file_name, file_name_of, join, join_path, Platform};
use crate::text::{lower_ascii, push_char, str_equals, to_ascii_lowercase, trim, trim_seq};
use vstd::prelude::*;

verus! {

/// What the file system holds at a path.
#[derive(Clone, Copy, Debug, PartialEq, Eq, Structural)]
pub enum PathKind {
    Directory,
    File,
    Missing,
}

/// The message shown when no TabbyAPI launcher script is set.
pub open spec fn launcher_required_text() -> Seq<char> {
    "TabbyAPI 런타임 스크립트가 비어 있습니다. EXL2 모델 폴더만으로는 서버가 실행되지 않습니다. TabbyAPI 프로젝트의 Start.bat/Start.cmd(Windows), start.sh(macOS/Linux), 또는 main.py 경로를 지정해 주세요. 해당 파일이 없다면 TabbyAPI를 먼저 설치해야 합니다."@
}

/// The message shown when the launcher is the TabbyML CLI.
pub open spec fn reject_tabbyml_text() -> Seq<char> {
    "지정한 tabby/tabby.exe/tabby.cmd/tabby.bat(tabby CLI)는 TabbyML CLI라 EXL2 모델을 실행할 수 없습니다. TabbyAPI 프로젝트의 Start.bat/Start.cmd, start.sh, 또는 main.py를 지정해 주세요."@
}

/// The message for a launcher path that names a folder.
pub open spec fn launcher_is_dir_text(path: Seq<char>) -> Seq<char> {
    "지정한 TabbyAPI script 경로가 폴더입니다: "@ + path
        + ". Start.bat/Start.cmd(Windows), start.sh(macOS/Linux), 또는 main.py 파일을 직접 지정해 주세요."@
}

/// The message for a launcher path where nothing exists.
pub open spec fn launcher_missing_text(path: Seq<char>) -> Seq<char> {
    "지정한 TabbyAPI script 파일을 찾을 수 없습니다: "@ + path
        + ". Start.bat/Start.cmd(Windows), start.sh(macOS/Linux), 또는 main.py 경로를 다시 지정해 주세요."@
}

/// The message for a launcher file whose name TabbyAPI does not use.
pub open spec fn launcher_bad_name_text(path: Seq<char>) -> Seq<char> {
    "TabbyAPI script 파일명이 올바르지 않습니다: "@ + path
        + ". Start.bat/Start.cmd(Windows), start.sh(macOS/Linux), 또는 main.py를 지정해 주세요."@
}

/// The message shown when no TabbyAPI launcher script is set.
pub fn tabbyapi_launcher_required_message() -> (r: String)
    ensures
        r@ == launcher_required_text(),
{
    String::from_str(
        "TabbyAPI 런타임 스크립트가 비어 있습니다. EXL2 모델 폴더만으로는 서버가 실행되지 않습니다. TabbyAPI 프로젝트의 Start.bat/Start.cmd(Windows), start.sh(macOS/Linux), 또는 main.py 경로를 지정해 주세요. 해당 파일이 없다면 TabbyAPI를 먼저 설치해야 합니다.",
    )
}

/// The message shown when the launcher is the TabbyML CLI.
pub fn tabbyapi_reject_tabbyml_message() -> (r: String)
    ensures
        r@ == reject_tabbyml_text(),
{
    String::from_str(
        "지정한 tabby/tabby.exe/tabby.cmd/tabby.bat(tabby CLI)는 TabbyML CLI라 EXL2 모델을 실행할 수 없습니다. TabbyAPI 프로젝트의 Start.bat/Start.cmd, start.sh, 또는 main.py를 지정해 주세요.",
    )
}

/// Whether a file name, ignoring ASCII case, is the TabbyML CLI.
pub open spec fn is_tabbyml_cli_name(name: Seq<char>) -> bool {
    let l = lower_ascii(name);
    l == "tabby"@ || l == "tabby.exe"@ || l == "tabby.cmd"@ || l == "tabby.bat"@
}

/// Whether a file name, ignoring ASCII case, is a TabbyAPI launcher script.
pub open spec fn is_tabbyapi_launcher_name(name: Seq<char>) -> bool {
    let l = lower_ascii(name);
    l == "start.bat"@ || l == "start.cmd"@ || l == "start.sh"@ || l == "main.py"@
}

/// Whether `name` is `tabby`, `tabby.exe`, `tabby.cmd` or `tabby.bat`, in any
/// ASCII case.
pub fn is_tabbyml_cli_launcher_name(name: &str) -> (r: bool)
    ensures
        r == is_tabbyml_cli_name(name@),
{
    let l = to_ascii_lowercase(name);
    let s = l.as_str();
    str_equals(s, "tabby") || str_equals(s, "tabby.exe") || str_equals(s, "tabby.cmd")
        || str_equals(s, "tabby.bat")
}

/// Whether `name` is `start.bat`, `start.cmd`, `start.sh` or `main.py`, in any
/// ASCII case.
pub fn tabbyapi_allowed_launcher_name(name: &str) -> (r: bool)
    ensures
        r == is_tabbyapi_launcher_name(name@),
{
    let l = to_ascii_lowercase(name);
    let s = l.as_str();
    str_equals(s, "start.bat") || str_equals(s, "start.cmd") || str_equals(s, "start.sh")
        || str_equals(s, "main.py")
}

/// The final component of `path`, empty when there is none.
pub open spec fn name_or_empty(p: Platform, path: Seq<char>) -> Seq<char> {
    match file_name_of(p, path) {
        Some(n) => n,
        None => Seq::empty(),
    }
}

fn name_or_empty_of(p: Platform, path: &str) -> (r: String)
    ensures
        r@ == name_or_empty(p, path@),
{
    match file_name(p, path) {
        Some(n) => n,
        None => String::new(),
    }
}

/// The verdict on a TabbyAPI launcher path, given what the file system holds at
/// the path with surrounding white space removed.
pub open spec fn launcher_verdict(p: Platform, path: Seq<char>, kind: PathKind) -> Result<
    (),
    Seq<char>,
> {
    let t = trim_seq(path);
    let name = name_or_empty(p, t);
    if t.len() == 0 {
        Err(launcher_required_text())
    } else if is_tabbyml_cli_name(name) {
        Err(reject_tabbyml_text())
    } else if kind == PathKind::Directory {
        Err(launcher_is_dir_text(t))
    } else if kind != PathKind::File {
        Err(launcher_missing_text(t))
    } else if !is_tabbyapi_launcher_name(name) {
        Err(launcher_bad_name_text(t))
    } else {
        Ok(())
    }
}

/// Judges `path` as a TabbyAPI launcher; `kind` is what the file system holds at
/// the trimmed path.
pub fn validate_tabbyapi_launcher_path(p: Platform, path: &str, kind: PathKind) -> (r: Result<
    (),
    String,
>)
    ensures
        match r {
            Ok(()) => launcher_verdict(p, path@, kind) == Ok::<(), Seq<char>>(()),
            Err(m) => launcher_verdict(p, path@, kind) == Err::<(), Seq<char>>(m@),
        },
{
    let t = trim(path);
    if t.unicode_len() == 0 {
        return Err(tabbyapi_launcher_required_message());
    }
    let name = name_or_empty_of(p, t);
    if is_tabbyml_cli_launcher_name(name.as_str()) {
        return Err(tabbyapi_reject_tabbyml_message());
    }
    match kind {
        PathKind::Directory => {
            let mut m = String::from_str("지정한 TabbyAPI script 경로가 폴더입니다: ");
            m.append(t);
            m.append(
                ". Start.bat/Start.cmd(Windows), start.sh(macOS/Linux), 또는 main.py 파일을 직접 지정해 주세요.",
            );
            return Err(m);
        },
        PathKind::Missing => {
            let mut m = String::from_str("지정한 TabbyAPI script 파일을 찾을 수 없습니다: ");
            m.append(t);
            m.append(
                ". Start.bat/Start.cmd(Windows), start.sh(macOS/Linux), 또는 main.py 경로를 다시 지정해 주세요.",
            );
            return Err(m);
        },
        PathKind::File => {},
    }
    if !tabbyapi_allowed_launcher_name(name.as_str()) {
        let mut m = String::from_str("TabbyAPI script 파일명이 올바르지 않습니다: ");
        m.append(t);
        m.append(". Start.bat/Start.cmd(Windows), start.sh(macOS/Linux), 또는 main.py를 지정해 주세요.");
        return Err(m);
    }
    Ok(())
}

/// Whether `path`, trimmed, ends in a TabbyAPI launcher script name.
pub open spec fn is_launcher_path(p: Platform, path: Seq<char>) -> bool {
    let t = trim_seq(path);
    t.len() > 0 && is_tabbyapi_launcher_name(name_or_empty(p, t))
}

/// Whether `path` names a TabbyAPI launcher script.
pub fn is_tabbyapi_launcher_path(p: Platform, path: &str) -> (r: bool)
    ensures
        r == is_launcher_path(p, path@),
{
    let t = trim(path);
    if t.unicode_len() == 0 {
        return false;
    }
    let name = name_or_empty_of(p, t);
    tabbyapi_allowed_launcher_name(name.as_str())
}

/// The script names looked for in a TabbyAPI runtime directory, in order.
pub open spec fn launcher_script_names(p: Platform) -> Seq<Seq<char>> {
    if p == Platform::Windows {
        seq!["start.bat"@, "Start.bat"@, "start.cmd"@, "Start.cmd"@, "main.py"@]
    } else {
        seq!["start.sh"@, "main.py"@]
    }
}

/// The launcher paths looked for in `runtime_dir`, in order.
pub open spec fn launcher_candidates(p: Platform, runtime_dir: Seq<char>) -> Seq<Seq<char>> {
    launcher_script_names(p).map_values(|n: Seq<char>| join_path(p, runtime_dir, n))
}

/// The views of a sequence of strings.
pub open spec fn string_views(v: Seq<String>) -> Seq<Seq<char>> {
    v.map_values(|s: String| s@)
}

/// The launcher paths looked for in `runtime_dir`, in order.
pub fn tabbyapi_launcher_candidates(p: Platform, runtime_dir: &str) -> (r: Vec<String>)
    ensures
        string_views(r@) == launcher_candidates(p, runtime_dir@),
{
    let mut v: Vec<String> = Vec::new();
    match p {
        Platform::Windows => {
            v.push(join(p, runtime_dir, "start.bat"));
            v.push(join(p, runtime_dir, "Start.bat"));
            v.push(join(p, runtime_dir, "start.cmd"));
            v.push(join(p, runtime_dir, "Start.cmd"));
            v.push(join(p, runtime_dir, "main.py"));
        },
        Platform::Unix => {
            v.push(join(p, runtime_dir, "start.sh"));
            v.push(join(p, runtime_dir, "main.py"));
        },
    }
    assert(string_views(v@) =~= launcher_candidates(p, runtime_dir@));
    v
}

/// Index of the first `true` in `flags`, or -1.
pub open spec fn first_true(flags: Seq<bool>) -> int
    decreases flags.len(),
{
    if flags.len() == 0 {
        -1
    } else if flags[0] {
        0
    } else if first_true(flags.drop_first()) < 0 {
        -1
    } else {
        1 + first_true(flags.drop_first())
    }
}

proof fn lemma_first_true_bounds(flags: Seq<bool>)
    ensures
        -1 <= first_true(flags) < flags.len(),
    decreases flags.len(),
{
    if flags.len() > 0 && !flags[0] {
        lemma_first_true_bounds(flags.drop_first());
    }
}

/// The first of `candidates` that is a file; `is_file[i]` tells whether the
/// `i`-th candidate is one.
pub fn find_tabbyapi_launcher(candidates: &Vec<String>, is_file: &Vec<bool>) -> (r: Option<String>)
    requires
        candidates@.len() == is_file@.len(),
    ensures
        match r {
            Some(l) => 0 <= first_true(is_file@) < is_file@.len() && l@ == candidates@[first_true(
                is_file@,
            )]@,
            None => first_true(is_file@) == -1,
        },
{
    let n = candidates.len();
    let mut i: usize = 0;
    proof {
        lemma_first_true_bounds(is_file@);
    }
    assert(is_file@.skip(0) =~= is_file@);
    while i < n
        invariant
            n == candidates@.len(),
            n == is_file@.len(),
            i <= n,
            first_true(is_file@) == if first_true(is_file@.skip(i as int)) < 0 {
                -1
            } else {
                i + first_true(is_file@.skip(i as int))
            },
        decreases n - i,
    {
        if is_file[i] {
            assert(is_file@.skip(i as int)[0]);
            return Some(candidates[i].clone());
        }
        assert(is_file@.skip(i as int).drop_first() =~= is_file@.skip(i + 1));
        i = i + 1;
    }
    assert(is_file@.skip(n as int) =~= Seq::<bool>::empty());
    None
}

/// `s` with every `'` doubled.
pub open spec fn double_quotes(s: Seq<char>) -> Seq<char>
    decreases s.len(),
{
    if s.len() == 0 {
        Seq::empty()
    } else if s.last() == '\'' {
        double_quotes(s.drop_last()) + seq!['\'', '\'']
    } else {
        double_quotes(s.drop_last()).push(s.last())
    }
}

/// `value` as a single-quoted YAML scalar.
pub fn yaml_quote(value: &str) -> (r: String)
    ensures
        r@ == seq!['\''] + double_quotes(value@) + seq!['\''],
{
    let mut out = String::new();
    push_char(&mut out, '\'');
    let n = value.unicode_len();
    let mut i: usize = 0;
    while i < n
        invariant
            n == value@.len(),
            i <= n,
            out@ == seq!['\''] + double_quotes(value@.take(i as int)),
        decreases n - i,
    {
        let c = value.get_char(i);
        let ghost before = out@;
        assert(value@.take(i + 1).drop_last() =~= value@.take(i as int));
        if c == '\'' {
            push_char(&mut out, '\'');
            push_char(&mut out, '\'');
            assert(out@ =~= before + seq!['\'', '\'']);
        } else {
            push_char(&mut out, c);
        }
        i = i + 1;
        assert(out@ =~= seq!['\''] + double_quotes(value@.take(i as int)));
    }
    push_char(&mut out, '\'');
    assert(value@.take(n as int) =~= value@);
    out
}

} // verus!
