//! The one-line summary and success flag shown on a tool-result chip after a
//! tool call finishes.
use crate::mention::take_at_most;
use crate::text::{
    first_index_of,
    has_substring, lower_ascii, push_char, push_decimal, dec, starts_with, contains_str,
    to_ascii_lowercase, str_equals,
};
use vstd::prelude::*;
use vstd::utf8::encode_utf8;

verus! {

/// The string value under `key` when `text` parses as a JSON object holding a
/// string there.
pub uninterp spec fn json_string_field(text: Seq<char>, key: Seq<char>) -> Option<Seq<char>>;

/// Parses `text` with `serde_json::from_str` into a `serde_json::Value` and
/// reads the string stored under `key`. The result is named by
/// `json_string_field`, a function of the two arguments alone; which texts parse
/// is serde_json's grammar and is not restated here.
#[verifier::external_body]
fn json_string_field_of(text: &str, key: &str) -> (r: Option<String>)
    ensures
        match r {
            Some(v) => json_string_field(text@, key@) == Some(v@),
            None => json_string_field(text@, key@) is None,
        },
{
    match serde_json::from_str::<serde_json::Value>(text) {
        Ok(value) => value.get(key).and_then(|field| field.as_str()).map(|v| v.to_string()),
        Err(_) => None,
    }
}

/// The UTF-8 byte length of `s` as `str::len` reports it.
pub open spec fn utf8_len(s: Seq<char>) -> usize {
    encode_utf8(s).len() as usize
}

/// The first line of `s` as `str::lines` yields it: the text before the first
/// `\n`, without a `\r` that ends it; all of `s` when it holds no `\n`.
pub open spec fn first_line(s: Seq<char>) -> Seq<char> {
    let k = first_index_of(s, '\n');
    if k < 0 {
        s
    } else {
        let line = s.take(k);
        if line.len() > 0 && line.last() == '\r' {
            line.drop_last()
        } else {
            line
        }
    }
}

/// Whether a tool result reports success: it starts neither with `Error` nor,
/// ignoring ASCII case, with `error`, and holds no `[err]` marker in any case.
pub open spec fn tool_succeeded(result: Seq<char>) -> bool {
    !("Error"@.is_prefix_of(result) || has_substring(lower_ascii(result), "[err]"@)
        || "error"@.is_prefix_of(lower_ascii(result)))
}

/// The chip summary of a call of the tool `name` with arguments `args` that
/// returned `result`.
pub open spec fn tool_summary(name: Seq<char>, args: Seq<char>, result: Seq<char>) -> Seq<char> {
    if name == "write_file"@ {
        match (json_string_field(args, "path"@), json_string_field(args, "content"@)) {
            (Some(path), Some(content)) => path + " ("@ + dec(utf8_len(content) as nat)
                + " bytes)"@,
            _ => "?"@,
        }
    } else if name == "run_command"@ {
        match json_string_field(args, "command"@) {
            Some(cmd) => "$ "@ + take_at_most(cmd, 60),
            None => "?"@,
        }
    } else {
        take_at_most(first_line(result), 80)
    }
}

fn first_line_of(s: &str) -> (r: String)
    ensures
        r@ == first_line(s@),
{
    let n = s.unicode_len();
    let mut i: usize = 0;
    assert(s@.skip(0) =~= s@);
    while i < n && s.get_char(i) != '\n'
        invariant
            n == s@.len(),
            i <= n,
            forall|j: int| 0 <= j < i ==> s@[j] != '\n',
            first_index_of(s@, '\n') == if first_index_of(s@.skip(i as int), '\n') < 0 {
                -1
            } else {
                i + first_index_of(s@.skip(i as int), '\n')
            },
        decreases n - i,
    {
        assert(s@.skip(i as int).drop_first() =~= s@.skip(i + 1));
        i = i + 1;
    }
    if i == n {
        assert(s@.skip(i as int) =~= Seq::<char>::empty());
        return String::from_str(s);
    }
    assert(s@.skip(i as int)[0] == '\n');
    assert(first_index_of(s@, '\n') == i);
    let mut end = i;
    if i > 0 && s.get_char(i - 1) == '\r' {
        end = i - 1;
        assert(s@.take(i as int).drop_last() =~= s@.subrange(0, end as int));
    } else {
        assert(s@.take(i as int) =~= s@.subrange(0, end as int));
    }
    let line = s.substring_char(0, end);
    String::from_str(line)
}

fn take_chars(s: &str, max: usize) -> (r: String)
    ensures
        r@ == take_at_most(s@, max as nat),
{
    let n = s.unicode_len();
    if max < n {
        String::from_str(s.substring_char(0, max))
    } else {
        String::from_str(s)
    }
}

/// The chip text and success flag for a finished call of tool `name` with JSON
/// arguments `args_json` that returned `result`.
pub fn summarize_tool_result(name: &str, args_json: &str, result: &str) -> (r: (String, bool))
    ensures
        r.0@ == tool_summary(name@, args_json@, result@),
        r.1 == tool_succeeded(result@),
{
    let lower = to_ascii_lowercase(result);
    let success = !(starts_with(result, "Error") || contains_str(lower.as_str(), "[err]")
        || starts_with(lower.as_str(), "error"));
    let summary = if str_equals(name, "write_file") {
        match (json_string_field_of(args_json, "path"), json_string_field_of(args_json, "content")) {
            (Some(path), Some(content)) => {
                let mut s = path;
                s.append(" (");
                let len = content.as_str().len();
                assert(len == utf8_len(content@));
                push_decimal(&mut s, len as u64);
                s.append(" bytes)");
                assert(s@ =~= path@ + " ("@ + dec(utf8_len(content@) as nat) + " bytes)"@);
                s
            },
            _ => String::from_str("?"),
        }
    } else if str_equals(name, "run_command") {
        match json_string_field_of(args_json, "command") {
            Some(cmd) => {
                let mut s = String::from_str("$ ");
                let head = take_chars(cmd.as_str(), 60);
                s.append(head.as_str());
                assert(s@ =~= "$ "@ + take_at_most(cmd@, 60));
                s
            },
            None => String::from_str("?"),
        }
    } else {
        let line = first_line_of(result);
        take_chars(line.as_str(), 80)
    };
    (summary, success)
}

} // verus!
