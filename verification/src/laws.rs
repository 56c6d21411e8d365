//! Properties of the application that span several operations or hold of
//! every state they reach.
use crate::chat::{blocks_without_compare, stream_stopped};
use crate::inference::capped_log;
use crate::model::{Block, PersistedBlock};
use crate::palette::moved_selection;
use crate::selection::{first_option, lemma_first_option, selected_index, chat_base_url, synced_provider, trim_trailing_slashes};
use crate::seqs::{first_where, lemma_first_where};
use crate::sessions::{
    data_of_current, data_of_kept, record_of, restored_from, saved_as, session_has_id,
    stored_block,
};
use crate::state::{next_generation, App};
use crate::engine::url_follows_port;
use crate::inference::localhost_url;
use crate::runtime::{before_first, is_loopback, loopback_port, strip_scheme};
use crate::text::{
    all_digits, dec, digit_char, digits_value, first_index_of, has_substring, is_ws,
    last_index_of, lower_ascii, parse_u16_spec, trim_seq, unicode_lower,
};
use crate::hf_download::folder_of_repo;
use crate::mcp_servers::{
    is_current_load, mcp_server_added, mcp_server_removed, server_named, server_names_unique,
    McpTool, McpToolLoad,
};
use crate::model::{ChatMessage, PendingToolCall};
use crate::send::{conversation_text, system_ensured, system_prompt};
use crate::tabbyapi::double_quotes;
use crate::file_tree::{after_key, insert_by_name, name_key, sorted_by_name, text_lt, DirEntryInfo};
use crate::blocks::flipped;
use crate::provider::{favorites_toggled, not_id};
use crate::paths::{
    file_name_of, lemma_joined_name_parent, parent_of, path_components, plain_name, Platform,
};
use crate::tabbyapi::{launcher_candidates, launcher_script_names};
use crate::workspace::{folder_toggled, listed_paths, lists_path};
use crate::tool_rounds::{approved_run_awaited, calls_of, mcp_answer_awaited, ToolClass};
use vstd::prelude::*;

verus! {

/// The runtime log never holds more than its cap, and its last line is the
/// line just added.
pub proof fn law_runtime_log_is_capped(log: Seq<String>, line: String, cap: nat)
    requires
        cap > 0,
    ensures
        capped_log(log, line, cap).len() <= cap,
        capped_log(log, line, cap).last() == line,
        log.len() < cap ==> capped_log(log, line, cap) == log.push(line),
{
    let s = log.push(line);
    if s.len() > cap {
        assert(s.skip(s.len() - cap).last() == s.last());
    }
}

/// A stored user or assistant block, brought back on screen and stored again
/// while it is not the block being streamed, is stored exactly as it was.
pub proof fn law_restored_block_stores_back(b: Block, p: PersistedBlock, sid: Option<u64>, raw: Seq<char>)
    requires
        restored_from(b, p),
        p.role@ == "user"@ || p.role@ == "assistant"@,
        sid != Some(p.id),
    ensures
        stored_block(b, sid, raw) == Some(record_of(p)),
{
    if p.model@.len() == 0 {
        assert(p.model@ =~= Seq::<char>::empty());
    }
    if p.role@ != "user"@ {
        assert(b.body is Assistant);
    }
}

/// What is written to disk marks, as active, a session with the id of the
/// session on screen, and the last session written is the one on screen.
pub proof fn law_saved_active_session_is_current(app: App, p: crate::model::PersistedAllSessions)
    requires
        saved_as(app, p),
    ensures
        0 <= p.active_idx < p.sessions@.len(),
        p.sessions@[p.active_idx as int].id == app.current_session_id,
        data_of_current(p.sessions@.last(), app),
{
    let kept = app.inactive_sessions@;
    lemma_first_where(kept, session_has_id(app.current_session_id));
    let k = first_where(kept, session_has_id(app.current_session_id));
    if k >= 0 {
        assert(data_of_kept(p.sessions@[k], kept[k]));
    }
}

/// Stopping a stream that is already stopped changes nothing but the
/// generation counters: no block, message or tool call is touched.
pub proof fn law_stopping_twice_changes_nothing_more(o: App, f: App, g: App, keep: bool, keep2: bool)
    requires
        stream_stopped(o, f, keep),
        stream_stopped(f, g, keep2),
    ensures
        g.blocks@ == f.blocks@,
        g.conversation == f.conversation,
        g.streaming_block_id is None,
        g.pending_tool_calls@.len() == 0,
        g.pending_write_calls@.len() == 0,
        g.compare_block_ids == f.compare_block_ids,
        g.ui == f.ui,
{
    assert(blocks_without_compare(f) == f.blocks@);
    assert(g.blocks@ == f.blocks@);
}

/// Bringing the recorded provider of a selection in line with the options is
/// idempotent: once synced, syncing again keeps it.
pub proof fn law_provider_sync_is_idempotent(app: App)
    ensures
        synced_provider(App { selected_model_provider: synced_provider(app), ..app }) == synced_provider(
            app,
        ),
{
}

/// Two session ids handed out one after the other differ, and ids only grow.
pub proof fn law_session_ids_are_fresh(a: App, b: App, c: App, id1: u64, id2: u64)
    requires
        id1 == a.next_session_id,
        b.next_session_id == id1 + 1,
        id2 == b.next_session_id,
        c.next_session_id == id2 + 1,
    ensures
        id1 < id2,
        c.next_session_id > id2,
{
}

/// A retry of the provider's model listing that was scheduled for retry
/// generation `g` is stale once the generation has advanced: changing the URL
/// or token, listing by hand, or clearing the settings all advance it.
pub proof fn law_advanced_generation_makes_retries_stale(g: u64)
    requires
        g < u64::MAX,
    ensures
        next_generation(g) != g,
        next_generation(g) > g,
{
}

/// The highlighted palette entry, after any move, is in the list (or none is
/// highlighted when the list is empty).
pub proof fn law_palette_move_stays_in_list(active: Option<usize>, delta: int, n: nat)
    requires
        n <= usize::MAX,
    ensures
        n == 0 ==> moved_selection(active, delta, n) is None,
        n > 0 ==> (moved_selection(active, delta, n) matches Some(i) && i < n),
{
}

/// The chat API base of an OpenAI-compatible provider is already its own
/// chat API base: deriving it twice gives the same URL.
pub proof fn law_chat_base_is_idempotent(base: Seq<char>)
    ensures
        chat_base_url(chat_base_url(base)) == chat_base_url(base),
{
    let b = trim_seq(base);
    let t = trim_trailing_slashes(b);
    let c = chat_base_url(base);
    crate::text::lemma_trim_shape(base);
    crate::selection::lemma_trim_slashes_prefix(b);
    reveal_strlit("/v1");
    if t.len() > 0 {
        assert(t[0] == b[0]);
    }
    if "/v1"@.is_suffix_of(t) {
        assert(c == t);
        assert(t.subrange(t.len() - 3, t.len() as int) =~= "/v1"@);
        assert(t.last() == t.subrange(t.len() - 3, t.len() as int)[2]);
    } else {
        assert(c == t + "/v1"@);
        assert(c.last() == '1');
        assert("/v1"@.is_suffix_of(c)) by {
            assert(c.subrange(c.len() - 3, c.len() as int) =~= "/v1"@);
        }
        if t.len() == 0 {
            assert(c[0] == '/');
        } else {
            assert(c[0] == t[0]);
        }
    }
    assert(c.len() >= 3);
    assert(c.last() == '1');
    crate::text::lemma_trim_of_trimmed(c);
    assert(trim_trailing_slashes(c) == c);
}


/// A launcher path that passes validation is a TabbyAPI launcher script path,
/// the kind the runtime runs through its script interpreter.
pub proof fn law_valid_launcher_is_launcher_path(p: crate::paths::Platform, path: Seq<char>, kind: crate::tabbyapi::PathKind)
    requires
        crate::tabbyapi::launcher_verdict(p, path, kind) is Ok,
    ensures
        crate::tabbyapi::is_launcher_path(p, path),
{
    crate::text::lemma_trim_shape(path);
    crate::text::lemma_trim_of_trimmed(trim_seq(path));
}

/// An attachment the limit check accepts keeps every attachment of the
/// message, together, within the limit.
pub proof fn law_accepted_attachment_fits(path: Seq<char>, len: nat, existing: nat)
    requires
        crate::workspace::attachment_verdict(path, len, existing) is Ok,
    ensures
        existing + len <= crate::workspace::MAX_ATTACH_BYTES,
{
}

/// The paths the @-mention picker offers are at most `max` of the candidates,
/// each of them a candidate.
pub proof fn law_mention_matches_are_candidates(cands: Seq<Seq<char>>, q: Seq<char>, max: nat)
    ensures
        crate::mention::fuzzy_matches(cands, q, max).len() <= max,
        forall|i: int|
            0 <= i < crate::mention::fuzzy_matches(cands, q, max).len() ==> cands.contains(
                #[trigger] crate::mention::fuzzy_matches(cands, q, max)[i],
            ),
{
    lemma_matching_paths_are_candidates(cands, q);
    let m = if q.len() == 0 {
        cands
    } else {
        crate::mention::matching_paths(cands, q)
    };
    assert forall|i: int|
        0 <= i < crate::mention::fuzzy_matches(cands, q, max).len() implies cands.contains(
        #[trigger] crate::mention::fuzzy_matches(cands, q, max)[i],
    ) by {
        assert(crate::mention::fuzzy_matches(cands, q, max)[i] == m[i]);
        if q.len() == 0 {
            assert(cands[i] == m[i]);
        }
    }
}

proof fn lemma_matching_paths_are_candidates(cands: Seq<Seq<char>>, q: Seq<char>)
    ensures
        crate::mention::matching_paths(cands, q).len() <= cands.len(),
        forall|i: int|
            0 <= i < crate::mention::matching_paths(cands, q).len() ==> cands.contains(
                #[trigger] crate::mention::matching_paths(cands, q)[i],
            ),
    decreases cands.len(),
{
    if cands.len() > 0 {
        let rest = cands.drop_last();
        lemma_matching_paths_are_candidates(rest, q);
        let m = crate::mention::matching_paths(cands, q);
        assert forall|i: int| 0 <= i < m.len() implies cands.contains(#[trigger] m[i]) by {
            if i < crate::mention::matching_paths(rest, q).len() {
                let x = m[i];
                assert(x == crate::mention::matching_paths(rest, q)[i]);
                assert(rest.contains(x));
                let j = choose|j: int| 0 <= j < rest.len() && rest[j] == x;
                assert(cands[j] == x);
            } else {
                assert(m[i] == cands.last());
                assert(cands[cands.len() - 1] == m[i]);
            }
        }
    }
}

/// Closing the window goes through its steps in order: the stream and MCP
/// calls are cancelled, the owned processes reaped, the sessions persisted,
/// the clean shutdown marked, and the window closed.
pub proof fn law_close_steps_in_order(
    a0: App,
    a1: App,
    a2: App,
    a3: App,
    a4: App,
)
    requires
        !a0.close_in_progress,
        a1.close_lifecycle_events@ == a0.close_lifecycle_events@.push(
            crate::model::CloseLifecycleEvent::CancelStreamAndMcp,
        ).push(crate::model::CloseLifecycleEvent::ReapInferenceAndPty),
        a2.close_lifecycle_events@ == a1.close_lifecycle_events@.push(
            crate::model::CloseLifecycleEvent::Persist,
        ),
        a3.close_lifecycle_events@ == a2.close_lifecycle_events@.push(
            crate::model::CloseLifecycleEvent::MarkClean,
        ),
        a4.close_lifecycle_events@ == a3.close_lifecycle_events@.push(
            crate::model::CloseLifecycleEvent::CloseWindow,
        ),
    ensures
        a4.close_lifecycle_events@ == a0.close_lifecycle_events@ + seq![
            crate::model::CloseLifecycleEvent::CancelStreamAndMcp,
            crate::model::CloseLifecycleEvent::ReapInferenceAndPty,
            crate::model::CloseLifecycleEvent::Persist,
            crate::model::CloseLifecycleEvent::MarkClean,
            crate::model::CloseLifecycleEvent::CloseWindow,
        ],
{
    assert(a4.close_lifecycle_events@ =~= a0.close_lifecycle_events@ + seq![
        crate::model::CloseLifecycleEvent::CancelStreamAndMcp,
        crate::model::CloseLifecycleEvent::ReapInferenceAndPty,
        crate::model::CloseLifecycleEvent::Persist,
        crate::model::CloseLifecycleEvent::MarkClean,
        crate::model::CloseLifecycleEvent::CloseWindow,
    ]);
}


proof fn lemma_dec_digits(n: nat)
    ensures
        dec(n).len() > 0,
        all_digits(dec(n)),
        digits_value(dec(n)) == n,
    decreases n,
{
    if n >= 10 {
        lemma_dec_digits(n / 10);
        let s = dec(n / 10);
        let t = s.push(digit_char(n % 10));
        assert(t.drop_last() =~= s);
        assert(t.last() == digit_char(n % 10));
        assert(((digit_char(n % 10) as u32) - ('0' as u32)) as nat == n % 10);
        assert(digits_value(t) == digits_value(s) * 10 + n % 10);
        assert(n / 10 * 10 + n % 10 == n);
        assert(dec(n) == t);
        assert forall|i: int| 0 <= i < t.len() implies '0' <= #[trigger] t[i] && t[i] <= '9' by {
            if i < s.len() {
                assert(t[i] == s[i]);
            }
        }
    } else {
        assert(((digit_char(n) as u32) - ('0' as u32)) as nat == n);
        let t = seq![digit_char(n)];
        assert(dec(n) == t);
        assert(t.drop_last() =~= Seq::<char>::empty());
        assert(t.last() == digit_char(n));
        assert(digits_value(t) == digits_value(t.drop_last()) * 10 + ((t.last() as u32) - ('0' as u32)) as nat);
    }
}

/// A port's decimal numeral parses back as the port.
pub proof fn law_port_numeral_parses_back(p: u16)
    ensures
        parse_u16_spec(dec(p as nat)) == Some(p),
{
    lemma_dec_digits(p as nat);
    assert(dec(p as nat)[0] != '+');
}

/// The provider URL of the local runtime on port `p` points at this machine
/// and names port `p`; so a provider URL set from the runtime port keeps
/// following later port changes (see `url_follows_port`).
pub proof fn law_localhost_url_names_its_port(p: u16)
    ensures
        is_loopback(localhost_url(p)),
        loopback_port(localhost_url(p)) == Some(p),
        url_follows_port(localhost_url(p), Some(p)),
{
    let d = dec(p as nat);
    lemma_dec_digits(p as nat);
    law_port_numeral_parses_back(p);
    reveal_strlit("http://localhost:");
    reveal_strlit("http://");
    reveal_strlit("localhost");
    reveal_strlit("localhost:");
    let u = localhost_url(p);
    assert(u == "http://localhost:"@ + d);
    assert(u.len() == 17 + d.len());
    assert(u[0] == 'h');
    assert(u.last() == d.last());
    assert(!is_ws(d.last()));
    crate::text::lemma_trim_of_trimmed(u);
    let a = u.skip(7);
    assert("http://"@.is_prefix_of(u)) by {
        assert(u.subrange(0, 7) =~= "http://"@);
    }
    assert(!("https://"@.is_prefix_of(u))) by {
        reveal_strlit("https://");
        if "https://"@.is_prefix_of(u) {
            assert(u[4] == "https://"@[4]);
        }
    }
    assert(a =~= "localhost:"@ + d);
    crate::text::lemma_first_index_of_props(a, '/');
    assert forall|j: int| 0 <= j < a.len() implies a[j] != '/' by {
        if j >= 10 {
            assert(a[j] == d[j - 10]);
        }
    }
    if first_index_of(a, '/') >= 0 {
        assert(a[first_index_of(a, '/')] == '/');
    }
    assert(before_first(a, '/') == a);
    assert(!is_ws(a[0]) && !is_ws(a.last()));
    crate::text::lemma_trim_of_trimmed(a);
    crate::text::lemma_last_index_of_props(a, ':');
    assert(a[9] == ':');
    assert forall|j: int| 9 < j < a.len() implies a[j] != ':' by {
        assert(a[j] == d[j - 10]);
    }
    if last_index_of(a, ':') > 9 {
        assert(a[last_index_of(a, ':')] == ':');
    }
    assert(last_index_of(a, ':') == 9);
    assert(a.take(9) =~= "localhost"@);
    assert(lower_ascii(a.take(9)) =~= "localhost"@);
    assert(a.skip(10) =~= d);
    assert(trim_seq(u) == u);
    assert(strip_scheme(u) == a);
    assert(loopback_port(u) == Some(p));
    let l = lower_ascii(trim_seq(u));
    assert(l.subrange(7, 7 + "localhost"@.len() as int) =~= "localhost"@);
    assert(has_substring(l, "localhost"@));
}

/// Registered MCP servers keep distinct names: registering one never adds a
/// second server under a name already in use.
pub proof fn law_mcp_server_names_stay_unique(o: App, f: App, r: Option<McpToolLoad>)
    requires
        server_names_unique(o.mcp_servers@),
        mcp_server_added(o, f, r),
    ensures
        server_names_unique(f.mcp_servers@),
{
    let name = trim_seq(o.mcp_input.name_input@);
    let command = trim_seq(o.mcp_input.command_input@);
    if name.len() > 0 && command.len() > 0 && !server_named(o.mcp_servers@, name) {
        let fs = f.mcp_servers@;
        let os = o.mcp_servers@;
        assert forall|i: int, j: int|
            0 <= i < fs.len() && 0 <= j < fs.len() && i != j implies (#[trigger] fs[i]).name@
            != (#[trigger] fs[j]).name@ by {
            if i < os.len() && j < os.len() {
                assert(fs[i] == os[i] && fs[j] == os[j]);
            } else if i < os.len() {
                assert(fs[i] == os[i]);
                assert(fs[j] == fs.last());
            } else {
                assert(fs[j] == os[j]);
                assert(fs[i] == fs.last());
            }
        }
    }
}

/// Once a server is removed, no tool list loaded for it is taken any more,
/// whatever generation it carries.
pub proof fn law_removed_mcp_server_answers_are_stale(o: App, f: App, idx: int, g: u64)
    requires
        0 <= idx < o.mcp_servers@.len(),
        server_names_unique(o.mcp_servers@),
        mcp_server_removed(o, f, idx),
    ensures
        !is_current_load(f, o.mcp_servers@[idx].name@, g),
{
    let name = o.mcp_servers@[idx].name@;
    let fs = f.mcp_servers@;
    let os = o.mcp_servers@;
    if server_named(fs, name) {
        let i = choose|i: int| 0 <= i < fs.len() && (#[trigger] fs[i]).name@ == name;
        if i < idx {
            assert(fs[i] == os[i]);
        } else {
            assert(fs[i] == os[i + 1]);
        }
    }
}

/// Once the stream stops, late results are not taken: no MCP answer is
/// awaited and no approved run either, whatever generation they carry.
pub proof fn law_stopped_stream_takes_no_late_results(o: App, f: App, keep: bool, g: u64)
    requires
        stream_stopped(o, f, keep),
    ensures
        !mcp_answer_awaited(f, g),
        !approved_run_awaited(f, g),
{
}

/// Every tool call of a round is answered by exactly one route: its MCP
/// server, a read-only built-in tool, or a built-in write after approval.
pub proof fn law_tool_calls_are_partitioned(tools: Seq<McpTool>, calls: Seq<PendingToolCall>, read_only: Seq<bool>)
    requires
        read_only.len() == calls.len(),
    ensures
        calls_of(tools, calls, read_only, ToolClass::Mcp).len() + calls_of(
            tools,
            calls,
            read_only,
            ToolClass::Read,
        ).len() + calls_of(tools, calls, read_only, ToolClass::Write).len() == calls.len(),
    decreases calls.len(),
{
    if calls.len() > 0 {
        law_tool_calls_are_partitioned(tools, calls.drop_last(), read_only.drop_last());
        lemma_calls_of_prefix_flags(tools, calls.drop_last(), read_only, ToolClass::Mcp);
        lemma_calls_of_prefix_flags(tools, calls.drop_last(), read_only, ToolClass::Read);
        lemma_calls_of_prefix_flags(tools, calls.drop_last(), read_only, ToolClass::Write);
    }
}

/// `calls_of` reads the flags of the calls it has only.
proof fn lemma_calls_of_prefix_flags(
    tools: Seq<McpTool>,
    calls: Seq<PendingToolCall>,
    read_only: Seq<bool>,
    k: ToolClass,
)
    requires
        calls.len() < read_only.len(),
    ensures
        calls_of(tools, calls, read_only, k) == calls_of(tools, calls, read_only.drop_last(), k),
    decreases calls.len(),
{
    if calls.len() > 0 {
        lemma_calls_of_prefix_flags(tools, calls.drop_last(), read_only, k);
        assert(read_only[calls.len() - 1] == read_only.drop_last()[calls.len() - 1]);
    }
}

/// The folder a repository is downloaded to has no `/` in it.
pub proof fn law_download_folder_has_no_slash(repo: Seq<char>)
    ensures
        !folder_of_repo(repo).contains('/'),
    decreases repo.len(),
{
    if repo.len() > 0 {
        law_download_folder_has_no_slash(repo.drop_last());
        let prev = folder_of_repo(repo.drop_last());
        let tail = if repo.last() == '/' {
            "--"@
        } else {
            seq![repo.last()]
        };
        reveal_strlit("--");
        assert forall|i: int| 0 <= i < prev.len() + tail.len() implies (prev + tail)[i] != '/' by {
            if i < prev.len() {
                assert((prev + tail)[i] == prev[i]);
            } else {
                assert((prev + tail)[i] == tail[i - prev.len()]);
            }
        }
    }
}

/// Toggling a favourite twice gives back the same favourites: exactly when it
/// was not one, and as a set when it was (it then moves to the end).
pub proof fn law_favorite_toggle_twice(ids: Seq<Seq<char>>, id: Seq<char>)
    ensures
        favorites_toggled(favorites_toggled(ids, id), id).to_set() == ids.to_set(),
        !ids.contains(id) ==> favorites_toggled(favorites_toggled(ids, id), id) == ids,
{
    broadcast use vstd::seq_lib::group_filter_ensures;
    let once = favorites_toggled(ids, id);
    if ids.contains(id) {
        let kept = ids.filter(not_id(id));
        assert(!kept.contains(id)) by {
            if kept.contains(id) {
                let i = choose|i: int| 0 <= i < kept.len() && kept[i] == id;
                assert(not_id(id)(kept[i]));
            }
        }
        let twice = kept.push(id);
        assert forall|x: Seq<char>| #[trigger] twice.contains(x) == ids.contains(x) by {
            if x == id {
                assert(twice[twice.len() - 1] == id);
            } else {
                if ids.contains(x) {
                    let i = choose|i: int| 0 <= i < ids.len() && ids[i] == x;
                    assert(not_id(id)(ids[i]));
                    ids.lemma_filter_contains(not_id(id), i);
                    assert(kept.contains(x));
                    let j = choose|j: int| 0 <= j < kept.len() && kept[j] == x;
                    assert(twice[j] == x);
                }
                if twice.contains(x) {
                    let j = choose|j: int| 0 <= j < twice.len() && twice[j] == x;
                    assert(j < kept.len());
                    assert(kept[j] == x);
                    assert(kept.contains(x));
                    ids.lemma_filter_contains_rev(not_id(id), x);
                }
            }
        }
        assert forall|x: Seq<char>| twice.to_set().contains(x) == ids.to_set().contains(x) by {
            assert(twice.contains(x) == ids.contains(x));
        }
        assert(twice.to_set() =~= ids.to_set());
    } else {
        let pushed = ids.push(id);
        assert(pushed.contains(id)) by {
            assert(pushed[pushed.len() - 1] == id);
        }
        assert(pushed.filter(not_id(id)) =~= ids) by {
            lemma_filter_push(ids, not_id(id), id);
            lemma_filter_all(ids, not_id(id));
        }
    }
}

proof fn lemma_filter_push<A>(s: Seq<A>, p: spec_fn(A) -> bool, x: A)
    requires
        !p(x),
    ensures
        s.push(x).filter(p) == s.filter(p),
{
    reveal(Seq::filter);
    assert(s.push(x).drop_last() =~= s);
}

proof fn lemma_filter_all<A>(s: Seq<A>, p: spec_fn(A) -> bool)
    requires
        forall|i: int| 0 <= i < s.len() ==> p(#[trigger] s[i]),
    ensures
        s.filter(p) == s,
    decreases s.len(),
{
    reveal(Seq::filter);
    if s.len() > 0 {
        lemma_filter_all(s.drop_last(), p);
        assert(s.drop_last().push(s.last()) =~= s);
    } else {
        assert(s.filter(p) =~= s);
    }
}

/// Switching a block's view twice leaves the blocks as they were.
pub proof fn law_view_toggle_twice(blocks: Seq<Block>, k: int)
    requires
        0 <= k < blocks.len(),
    ensures
        ({
            let b = blocks[k];
            let once = blocks.update(k, Block { view_mode: flipped(b.view_mode), ..b });
            once.update(k, Block { view_mode: flipped(once[k].view_mode), ..once[k] }) == blocks
        }),
{
    let b = blocks[k];
    let once = blocks.update(k, Block { view_mode: flipped(b.view_mode), ..b });
    assert(once.update(k, Block { view_mode: flipped(once[k].view_mode), ..once[k] }) =~= blocks);
}

proof fn lemma_text_lt_irreflexive(a: Seq<char>)
    ensures
        !text_lt(a, a),
    decreases a.len(),
{
    if a.len() > 0 {
        lemma_text_lt_irreflexive(a.drop_first());
    }
}

proof fn lemma_text_lt_transitive(a: Seq<char>, b: Seq<char>, c: Seq<char>)
    requires
        text_lt(a, b),
        text_lt(b, c),
    ensures
        text_lt(a, c),
    decreases a.len(),
{
    if a.len() > 0 && b.len() > 0 && c.len() > 0 && a[0] == b[0] && b[0] == c[0] {
        lemma_text_lt_transitive(a.drop_first(), b.drop_first(), c.drop_first());
    }
}

proof fn lemma_text_lt_total(a: Seq<char>, b: Seq<char>)
    ensures
        text_lt(a, b) || text_lt(b, a) || a == b,
    decreases a.len(),
{
    if a.len() > 0 && b.len() > 0 && a[0] == b[0] {
        lemma_text_lt_total(a.drop_first(), b.drop_first());
        if a.drop_first() == b.drop_first() {
            assert(a =~= seq![a[0]] + a.drop_first());
            assert(b =~= seq![b[0]] + b.drop_first());
        }
    } else if a.len() == 0 && b.len() == 0 {
        assert(a =~= b);
    }
}

/// Whether the entries are in name order: no entry's key comes before an
/// earlier entry's.
pub open spec fn in_name_order(s: Seq<DirEntryInfo>) -> bool {
    forall|i: int, j: int| 0 <= i < j < s.len() ==> !text_lt(name_key(#[trigger] s[j]), name_key(#[trigger] s[i]))
}

proof fn lemma_insert_keeps_order(sorted: Seq<DirEntryInfo>, x: DirEntryInfo)
    requires
        in_name_order(sorted),
    ensures
        in_name_order(insert_by_name(sorted, x)),
        insert_by_name(sorted, x).len() == sorted.len() + 1,
{
    let p = after_key(name_key(x));
    lemma_first_where(sorted, p);
    let k = first_where(sorted, p);
    let r = insert_by_name(sorted, x);
    let kx = name_key(x);
    // Every entry before the insertion point is not after x.
    assert forall|i: int| 0 <= i < sorted.len() && (k < 0 || i < k) implies !text_lt(kx, name_key(sorted[i])) by {
        assert(!p(sorted[i]));
    }
    // Every entry from the insertion point on is after x.
    assert forall|j: int| k >= 0 && k <= j < sorted.len() implies text_lt(kx, name_key(sorted[j])) by {
        assert(p(sorted[k]));
        if j > k {
            assert(!text_lt(name_key(sorted[j]), name_key(sorted[k])));
            lemma_text_lt_total(name_key(sorted[j]), name_key(sorted[k]));
            if name_key(sorted[j]) != name_key(sorted[k]) {
                lemma_text_lt_transitive(kx, name_key(sorted[k]), name_key(sorted[j]));
            }
        }
    }
    assert forall|i: int, j: int| 0 <= i < j < r.len() implies !text_lt(name_key(#[trigger] r[j]), name_key(#[trigger] r[i])) by {
        if k < 0 {
            if j == sorted.len() {
                assert(r[j] == x);
                assert(r[i] == sorted[i]);
                lemma_text_lt_total(kx, name_key(sorted[i]));
                if text_lt(kx, name_key(sorted[i])) {
                } else if kx == name_key(sorted[i]) {
                    lemma_text_lt_irreflexive(kx);
                }
            } else {
                assert(r[j] == sorted[j] && r[i] == sorted[i]);
            }
        } else {
            if j < k {
                assert(r[j] == sorted[j] && r[i] == sorted[i]);
            } else if j == k {
                assert(r[j] == x && r[i] == sorted[i]);
                lemma_text_lt_total(kx, name_key(sorted[i]));
                if kx == name_key(sorted[i]) {
                    lemma_text_lt_irreflexive(kx);
                }
            } else if i < k {
                assert(r[j] == sorted[j - 1] && r[i] == sorted[i]);
                assert(text_lt(kx, name_key(sorted[j - 1])));
                lemma_text_lt_total(kx, name_key(sorted[i]));
                if text_lt(name_key(sorted[j - 1]), name_key(sorted[i])) {
                    if text_lt(kx, name_key(sorted[i])) {
                    } else if kx == name_key(sorted[i]) {
                        lemma_text_lt_transitive(kx, name_key(sorted[j - 1]), name_key(sorted[i]));
                        lemma_text_lt_irreflexive(kx);
                    } else {
                        lemma_text_lt_transitive(kx, name_key(sorted[j - 1]), name_key(sorted[i]));
                        lemma_text_lt_transitive(kx, name_key(sorted[i]), kx);
                        lemma_text_lt_irreflexive(kx);
                    }
                }
            } else if i == k {
                assert(r[i] == x && r[j] == sorted[j - 1]);
                assert(text_lt(kx, name_key(sorted[j - 1])));
                if text_lt(name_key(sorted[j - 1]), kx) {
                    lemma_text_lt_transitive(kx, name_key(sorted[j - 1]), kx);
                    lemma_text_lt_irreflexive(kx);
                }
            } else {
                assert(r[j] == sorted[j - 1] && r[i] == sorted[i - 1]);
            }
        }
    }
}

/// The tree lists each directory's folders, and its files, in order of
/// lower-cased name.
pub proof fn law_directory_entries_are_in_name_order(s: Seq<DirEntryInfo>)
    ensures
        in_name_order(sorted_by_name(s)),
        sorted_by_name(s).len() == s.len(),
    decreases s.len(),
{
    if s.len() > 0 {
        law_directory_entries_are_in_name_order(s.drop_last());
        lemma_insert_keeps_order(sorted_by_name(s.drop_last()), s.last());
    }
}

/// Where `trim_seq(s)` sits in `s`.
proof fn lemma_trim_offset(s: Seq<char>) -> (i: int)
    ensures
        0 <= i,
        i + trim_seq(s).len() <= s.len(),
        s.subrange(i, i + trim_seq(s).len()) == trim_seq(s),
    decreases s.len(),
{
    if s.len() > 0 && is_ws(s[0]) {
        let j = lemma_trim_offset(s.drop_first());
        let n = trim_seq(s).len();
        assert(s.drop_first().subrange(j, j + n) =~= s.subrange(j + 1, j + 1 + n));
        j + 1
    } else if s.len() > 0 && is_ws(s.last()) {
        let j = lemma_trim_offset(s.drop_last());
        let n = trim_seq(s).len();
        assert(s.drop_last().subrange(j, j + n) =~= s.subrange(j, j + n));
        j
    } else {
        assert(s.subrange(0, s.len() as int) =~= s);
        0
    }
}

/// A URL in which a loopback port is found points at this machine.
pub proof fn law_loopback_port_implies_loopback_url(url: Seq<char>)
    requires
        loopback_port(url) is Some,
    ensures
        is_loopback(url),
{
    reveal_strlit("http://");
    reveal_strlit("https://");
    reveal_strlit("localhost");
    reveal_strlit("127.0.0.1");
    reveal_strlit("[::1]");
    let t = trim_seq(url);
    let l = lower_ascii(t);
    let st = strip_scheme(t);
    let o1: int = if "http://"@.is_prefix_of(t) {
        7
    } else if "https://"@.is_prefix_of(t) {
        8
    } else {
        0
    };
    assert(st =~= t.subrange(o1, t.len() as int));
    let bf = before_first(st, '/');
    crate::text::lemma_first_index_of_props(st, '/');
    assert(bf =~= st.subrange(0, bf.len() as int));
    let a = trim_seq(bf);
    let o2 = lemma_trim_offset(bf);
    let o = o1 + o2;
    assert(a =~= t.subrange(o, o + a.len()));
    lemma_loopback_host_in_url(t, a, o);
}

/// When the authority `a`, found at `o` in the trimmed URL `t`, names a
/// loopback host with a port, the lowered `t` holds that host.
proof fn lemma_loopback_host_in_url(t: Seq<char>, a: Seq<char>, o: int)
    requires
        0 <= o,
        o + a.len() <= t.len(),
        a == t.subrange(o, o + a.len()),
        a.len() > 0,
        a[0] == '[' ==> ({
            let c = first_index_of(a, ']');
            c >= 0 && lower_ascii(a.take(c + 1)) == "[::1]"@
        }),
        a[0] != '[' ==> ({
            let k = last_index_of(a, ':');
            k >= 0 && (lower_ascii(a.take(k)) == "localhost"@ || a.take(k) == "127.0.0.1"@)
        }),
    ensures
        ({
            let l = lower_ascii(t);
            has_substring(l, "localhost"@) || has_substring(l, "127.0.0.1"@) || has_substring(l, "[::1]"@)
        }),
{
    reveal_strlit("localhost");
    reveal_strlit("127.0.0.1");
    reveal_strlit("[::1]");
    let l = lower_ascii(t);
    if a[0] == '[' {
        let c = first_index_of(a, ']');
        crate::text::lemma_first_index_of_props(a, ']');
        let h = a.take(c + 1);
        assert(lower_ascii(h).len() == h.len());
        assert(h.len() == 5);
        assert(l.subrange(o, o + 5) =~= lower_ascii(h));
        assert(has_substring(l, "[::1]"@));
    } else {
        let k = last_index_of(a, ':');
        crate::text::lemma_last_index_of_props(a, ':');
        let h = a.take(k);
        assert(lower_ascii(h).len() == h.len());
        if lower_ascii(h) == "localhost"@ {
            assert(h.len() == 9);
            assert(l.subrange(o, o + 9) =~= lower_ascii(h));
            assert(has_substring(l, "localhost"@));
        } else {
            assert(h.len() == 9);
            assert(lower_ascii(h) =~= h);
            assert(l.subrange(o, o + 9) =~= lower_ascii(h));
            assert(has_substring(l, "127.0.0.1"@));
        }
    }
}

/// The text inside single quotes with every doubled `'` read as one.
pub open spec fn undouble_quotes(s: Seq<char>) -> Seq<char>
    decreases s.len(),
{
    if s.len() >= 2 && s[0] == '\'' && s[1] == '\'' {
        seq!['\''] + undouble_quotes(s.skip(2))
    } else if s.len() > 0 {
        seq![s[0]] + undouble_quotes(s.drop_first())
    } else {
        Seq::empty()
    }
}

/// The value a single-quoted YAML scalar stands for: its text between the
/// quotes with each `''` read as `'`.
pub open spec fn yaml_unquote(q: Seq<char>) -> Seq<char> {
    undouble_quotes(q.subrange(1, q.len() - 1))
}

/// Reading back the doubled `v` followed by `a` gives `v` followed by `a`
/// read back.
proof fn lemma_undouble_append(a: Seq<char>, v: Seq<char>)
    ensures
        undouble_quotes(double_quotes(v) + a) == v + undouble_quotes(a),
    decreases v.len(),
{
    if v.len() == 0 {
        assert(double_quotes(v) + a =~= a);
        assert(v + undouble_quotes(a) =~= undouble_quotes(a));
    } else {
        let c = v[0];
        let w = v.drop_first();
        lemma_double_quotes_first(v);
        lemma_undouble_append(a, w);
        if c == '\'' {
            let d = seq!['\'', '\''] + double_quotes(w) + a;
            assert(double_quotes(v) + a =~= d);
            assert(d.skip(2) =~= double_quotes(w) + a);
            assert(v =~= seq![c] + w);
            assert(seq!['\''] + (w + undouble_quotes(a)) =~= v + undouble_quotes(a));
        } else {
            let d = seq![c] + double_quotes(w) + a;
            assert(double_quotes(v) + a =~= d);
            assert(d.drop_first() =~= double_quotes(w) + a);
            assert(seq![c] + (w + undouble_quotes(a)) =~= v + undouble_quotes(a));
        }
    }
}

/// `double_quotes` read from the front: the first character doubled when it
/// is `'`, then the rest.
proof fn lemma_double_quotes_first(v: Seq<char>)
    requires
        v.len() > 0,
    ensures
        double_quotes(v) == (if v[0] == '\'' {
            seq!['\'', '\'']
        } else {
            seq![v[0]]
        }) + double_quotes(v.drop_first()),
    decreases v.len(),
{
    if v.len() == 1 {
        assert(v.drop_last() =~= Seq::<char>::empty());
        assert(v.drop_first() =~= Seq::<char>::empty());
        assert(double_quotes(Seq::<char>::empty()) == Seq::<char>::empty());
        if v[0] == '\'' {
            assert(double_quotes(v) =~= seq!['\'', '\'']);
        } else {
            assert(double_quotes(v) =~= seq![v[0]]);
        }
    } else {
        lemma_double_quotes_first(v.drop_last());
        assert(v.drop_last().drop_first() =~= v.drop_first().drop_last());
        assert(v.drop_first().last() == v.last());
        assert(v.drop_last()[0] == v[0]);
    }
}

/// Whether, read from the left, every `'` in `s` is followed by a second one
/// that pairs with it, so that every run of quotes in `s` has even length.
pub open spec fn quotes_paired(s: Seq<char>) -> bool
    decreases s.len(),
{
    if s.len() == 0 {
        true
    } else if s[0] == '\'' {
        s.len() >= 2 && s[1] == '\'' && quotes_paired(s.skip(2))
    } else {
        quotes_paired(s.drop_first())
    }
}

/// The doubled `v` in front of `a` pairs its quotes exactly when `a` does.
proof fn lemma_paired_append(a: Seq<char>, v: Seq<char>)
    ensures
        quotes_paired(double_quotes(v) + a) == quotes_paired(a),
    decreases v.len(),
{
    if v.len() == 0 {
        assert(double_quotes(v) + a =~= a);
    } else {
        let c = v[0];
        let w = v.drop_first();
        lemma_double_quotes_first(v);
        lemma_paired_append(a, w);
        if c == '\'' {
            let d = seq!['\'', '\''] + double_quotes(w) + a;
            assert(double_quotes(v) + a =~= d);
            assert(d.skip(2) =~= double_quotes(w) + a);
        } else {
            let d = seq![c] + double_quotes(w) + a;
            assert(double_quotes(v) + a =~= d);
            assert(d.drop_first() =~= double_quotes(w) + a);
        }
    }
}

/// Reading back a quoted YAML scalar gives the quoted value: the quotes
/// enclose it, the quotes inside come in pairs, and each `''` stands for one
/// `'`.
pub proof fn law_yaml_quote_round_trip(value: Seq<char>)
    ensures
        ({
            let q = seq!['\''] + double_quotes(value) + seq!['\''];
            &&& q.len() >= 2
            &&& q[0] == '\''
            &&& q.last() == '\''
            &&& yaml_unquote(q) == value
            &&& quotes_paired(q.subrange(1, q.len() - 1))
        }),
{
    let q = seq!['\''] + double_quotes(value) + seq!['\''];
    assert(q.subrange(1, q.len() - 1) =~= double_quotes(value));
    lemma_undouble_append(Seq::empty(), value);
    lemma_paired_append(Seq::empty(), value);
    assert(double_quotes(value) + Seq::<char>::empty() =~= double_quotes(value));
    assert(value + undouble_quotes(Seq::<char>::empty()) =~= value);
}

/// Putting the system prompt in place a second time, with the workspace and
/// agent mode unchanged, leaves the conversation as the first time did.
pub proof fn law_system_message_twice_is_once(o: App, m: App, f: App)
    requires
        system_ensured(o.conversation@, m.conversation@, system_prompt(o.cwd@, o.agent_mode)),
        m == (App { conversation: m.conversation, ..o }),
        system_ensured(m.conversation@, f.conversation@, system_prompt(m.cwd@, m.agent_mode)),
        f == (App { conversation: f.conversation, ..m }),
    ensures
        conversation_text(f.conversation@) == conversation_text(m.conversation@),
        f == (App { conversation: f.conversation, ..o }),
{
    let c1 = m.conversation@;
    let c2 = f.conversation@;
    assert(c1[0].role@ == "system"@);
    assert(c2.drop_first() == c1.drop_first());
    assert(c2.len() == c1.len());
    assert forall|i: int| 0 <= i < c2.len() implies #[trigger] crate::send::message_text_view(c2[i])
        == crate::send::message_text_view(c1[i]) by {
        if i > 0 {
            assert(c2[i] == c2.drop_first()[i - 1]);
            assert(c1[i] == c1.drop_first()[i - 1]);
        }
    }
    assert(conversation_text(c2) =~= conversation_text(c1));
}

/// An option is selected (`selected_option` gives one) exactly when some
/// option has the selected id (`selected_model_exists_in_options`); the
/// selected option has that id, and the recorded provider whenever an option
/// with both exists, so `selected_provider` is the provider of that option.
pub proof fn law_selected_option_exists_iff_model_listed(app: App)
    ensures
        selected_index(app) >= 0 <==> (app.selected_model is Some && first_option(
            app.model_options@,
            app.selected_model->0@,
            None,
        ) >= 0),
        selected_index(app) >= 0 ==> selected_index(app) < app.model_options@.len()
            && app.model_options@[selected_index(app)].id@ == app.selected_model->0@,
        selected_index(app) >= 0 && app.selected_model_provider is Some && (exists|i: int|
            0 <= i < app.model_options@.len() && #[trigger] app.model_options@[i].id@
                == app.selected_model->0@ && app.model_options@[i].provider
                == app.selected_model_provider->0) ==> app.model_options@[selected_index(app)].provider
            == app.selected_model_provider->0,
{
    if let Some(id) = app.selected_model {
        let opts = app.model_options@;
        lemma_first_option(opts, id@, None);
        lemma_first_option(opts, id@, app.selected_model_provider);
        if first_option(opts, id@, app.selected_model_provider) >= 0 {
            let j = first_option(opts, id@, app.selected_model_provider);
            assert(opts[j].id@ == id@);
        }
    }
}

/// Toggling the same file-tree folder twice leaves the set of open folders as
/// it was.
pub proof fn law_folder_toggle_twice(p: Platform, o: Seq<String>, m: Seq<String>, f: Seq<String>, path: String)
    requires
        folder_toggled(p, o, m, path),
        folder_toggled(p, m, f, path),
    ensures
        listed_paths(p, f) == listed_paths(p, o),
{
    let c = path_components(p, path@);
    assert(lists_path(p, o, c) == listed_paths(p, o).contains(c));
    assert(lists_path(p, m, c) == listed_paths(p, m).contains(c));
    assert(listed_paths(p, f) =~= listed_paths(p, o));
}

/// Every TabbyAPI launcher looked for in a runtime directory, and so the one
/// `find_tabbyapi_launcher` picks among them, is a script in that directory:
/// its final component is the script's name and its parent is the runtime
/// directory as a path (the same components).
pub proof fn law_launcher_candidates_sit_in_runtime_dir(p: Platform, dir: Seq<char>, i: int)
    requires
        0 <= i < launcher_candidates(p, dir).len(),
    ensures
        file_name_of(p, launcher_candidates(p, dir)[i]) == Some(launcher_script_names(p)[i]),
        parent_of(p, launcher_candidates(p, dir)[i]) matches Some(d) && path_components(p, d)
            == path_components(p, dir),
{
    reveal_strlit("start.bat");
    reveal_strlit("Start.bat");
    reveal_strlit("start.cmd");
    reveal_strlit("Start.cmd");
    reveal_strlit("main.py");
    reveal_strlit("start.sh");
    let n = launcher_script_names(p)[i];
    assert(plain_name(p, n));
    lemma_joined_name_parent(p, dir, n);
}

/// The commands among `cmds` that match the lowercased filter `q` are listed
/// by index, each once, in increasing order.
proof fn lemma_matching_commands(cmds: Seq<(Seq<char>, Seq<char>)>, q: Seq<char>)
    ensures
        forall|i: int|
            crate::palette::matching_commands(cmds, q).contains(i) <==> (0 <= i < cmds.len()
                && crate::palette::command_matches(#[trigger] cmds[i], q)),
        forall|a: int, b: int|
            0 <= a < b < crate::palette::matching_commands(cmds, q).len() ==> #[trigger] crate::palette::matching_commands(cmds, q)[a]
                < #[trigger] crate::palette::matching_commands(cmds, q)[b],
        forall|a: int|
            0 <= a < crate::palette::matching_commands(cmds, q).len() ==> 0 <= #[trigger] crate::palette::matching_commands(cmds, q)[a]
                < cmds.len(),
    decreases cmds.len(),
{
    if cmds.len() > 0 {
        let rest = cmds.drop_last();
        lemma_matching_commands(rest, q);
        let m = crate::palette::matching_commands(cmds, q);
        let r = crate::palette::matching_commands(rest, q);
        assert forall|i: int| m.contains(i) <==> (0 <= i < cmds.len() && crate::palette::command_matches(#[trigger] cmds[i], q)) by {
            if 0 <= i < rest.len() {
                assert(cmds[i] == rest[i]);
            }
            if m.contains(i) && i != cmds.len() - 1 {
                let j = choose|j: int| 0 <= j < m.len() && m[j] == i;
                assert(r.contains(m[j])) by {
                    assert(r[j] == m[j]);
                }
            }
            if 0 <= i < rest.len() && crate::palette::command_matches(cmds[i], q) {
                assert(r.contains(i));
                let j = choose|j: int| 0 <= j < r.len() && r[j] == i;
                assert(m[j] == i);
            }
            if i == cmds.len() - 1 && crate::palette::command_matches(cmds[i], q) {
                assert(m[m.len() - 1] == i);
            }
        }
    }
}

/// Filtering the palette searches labels and hints alike: a command is
/// listed exactly when the lower-cased input is empty or occurs in its
/// lower-cased label or in its lower-cased hint; the listed commands come in
/// their order, each once.
pub proof fn law_palette_filter_matches_label_or_hint(input: Seq<char>)
    ensures
        forall|i: int|
            crate::palette::filtered_commands(input).contains(i) <==> (0 <= i
                < crate::palette::palette_entries().len() && (unicode_lower(input).len() == 0
                || has_substring(unicode_lower((#[trigger] crate::palette::palette_entries()[i]).0), unicode_lower(input))
                || has_substring(unicode_lower(crate::palette::palette_entries()[i].1), unicode_lower(input)))),
        forall|a: int, b: int|
            0 <= a < b < crate::palette::filtered_commands(input).len() ==> #[trigger] crate::palette::filtered_commands(input)[a]
                < #[trigger] crate::palette::filtered_commands(input)[b],
{
    lemma_matching_commands(crate::palette::palette_entries(), unicode_lower(input));
}

/// The candidates that match `q` are those of `cands` that match it.
proof fn lemma_matching_paths_members(cands: Seq<Seq<char>>, q: Seq<char>)
    ensures
        forall|x: Seq<char>|
            #[trigger] crate::mention::matching_paths(cands, q).contains(x) <==> (cands.contains(x)
                && crate::mention::path_matches(x, q)),
    decreases cands.len(),
{
    if cands.len() > 0 {
        let rest = cands.drop_last();
        lemma_matching_paths_members(rest, q);
        let m = crate::mention::matching_paths(cands, q);
        let r = crate::mention::matching_paths(rest, q);
        assert forall|x: Seq<char>| #[trigger] m.contains(x) <==> (cands.contains(x) && crate::mention::path_matches(x, q)) by {
            if m.contains(x) {
                let j = choose|j: int| 0 <= j < m.len() && m[j] == x;
                if j < r.len() {
                    assert(r[j] == x);
                    assert(r.contains(x));
                    assert(rest.contains(x) && crate::mention::path_matches(x, q));
                    let k = choose|k: int| 0 <= k < rest.len() && rest[k] == x;
                    assert(cands[k] == x);
                } else {
                    assert(cands[cands.len() - 1] == x);
                }
            }
            if cands.contains(x) && crate::mention::path_matches(x, q) {
                let k = choose|k: int| 0 <= k < cands.len() && cands[k] == x;
                if k < rest.len() {
                    assert(rest[k] == x);
                    assert(rest.contains(x));
                    assert(r.contains(x));
                    let j = choose|j: int| 0 <= j < r.len() && r[j] == x;
                    assert(m[j] == x);
                } else {
                    assert(m[m.len() - 1] == x);
                }
            }
        }
    }
}

/// Queries with the same lower-cased text match the same candidates.
proof fn lemma_matching_paths_case(cands: Seq<Seq<char>>, q1: Seq<char>, q2: Seq<char>)
    requires
        unicode_lower(q1) == unicode_lower(q2),
    ensures
        crate::mention::matching_paths(cands, q1) == crate::mention::matching_paths(cands, q2),
    decreases cands.len(),
{
    if cands.len() > 0 {
        lemma_matching_paths_case(cands.drop_last(), q1, q2);
    }
}

/// Picking a file to mention ignores letter case: with room for every
/// candidate, a non-empty query offers exactly the candidates whose
/// lower-cased path holds the lower-cased query.
pub proof fn law_mention_match_ignores_case(cands: Seq<Seq<char>>, q: Seq<char>, max: nat)
    requires
        q.len() > 0,
        max >= cands.len(),
    ensures
        forall|x: Seq<char>|
            crate::mention::fuzzy_matches(cands, q, max).contains(x) <==> (cands.contains(x)
                && has_substring(#[trigger] unicode_lower(x), unicode_lower(q))),
{
    lemma_matching_paths_members(cands, q);
    lemma_matching_paths_are_candidates(cands, q);
    assert(crate::mention::fuzzy_matches(cands, q, max) == crate::mention::matching_paths(cands, q));
    assert forall|x: Seq<char>|
        crate::mention::fuzzy_matches(cands, q, max).contains(x) <==> (cands.contains(x)
            && has_substring(#[trigger] unicode_lower(x), unicode_lower(q))) by {
        assert(crate::mention::path_matches(x, q) == has_substring(unicode_lower(x), unicode_lower(q)));
    }
}

/// Whether the lower-cased path `x` holds the lower-cased query `q`.
pub open spec fn holds_query(q: Seq<char>) -> spec_fn(Seq<char>) -> bool {
    |x: Seq<char>| has_substring(unicode_lower(x), unicode_lower(q))
}

proof fn lemma_matching_paths_filter(cands: Seq<Seq<char>>, q: Seq<char>)
    ensures
        crate::mention::matching_paths(cands, q) == cands.filter(holds_query(q)),
    decreases cands.len(),
{
    reveal(Seq::filter);
    if cands.len() > 0 {
        lemma_matching_paths_filter(cands.drop_last(), q);
    }
}

/// The files offered for a mention are the first `max` candidates, in their
/// order: all candidates for an empty query, else those whose lower-cased
/// path holds the lower-cased query.
pub proof fn law_mention_offers_first_matches(cands: Seq<Seq<char>>, q: Seq<char>, max: nat)
    ensures
        ({
            let pool = if q.len() == 0 {
                cands
            } else {
                cands.filter(holds_query(q))
            };
            crate::mention::fuzzy_matches(cands, q, max) == if max < pool.len() {
                pool.take(max as int)
            } else {
                pool
            }
        }),
{
    lemma_matching_paths_filter(cands, q);
}

/// Two queries that differ only in letter case offer the same files.
pub proof fn law_mention_queries_alike_in_case(cands: Seq<Seq<char>>, q1: Seq<char>, q2: Seq<char>, max: nat)
    requires
        q1.len() > 0,
        q2.len() > 0,
        unicode_lower(q1) == unicode_lower(q2),
    ensures
        crate::mention::fuzzy_matches(cands, q1, max) == crate::mention::fuzzy_matches(cands, q2, max),
{
    lemma_matching_paths_case(cands, q1, q2);
}

/// The user message a turn sends ends with the typed text: it is the typed
/// text alone without attachments, and otherwise the framed attachments and a
/// blank line followed by the typed text.
pub proof fn law_sent_turn_ends_with_typed_text(o: App, f: App, text: Seq<char>)
    requires
        crate::send::turn_committed(o, f, text),
    ensures
        ({
            let content = f.conversation@.last().content->0@;
            &&& content.len() >= text.len()
            &&& content.skip(content.len() - text.len()) == text
            &&& o.attached_files@.len() == 0 ==> content == text
            &&& o.attached_files@.len() > 0 ==> content.take(content.len() - text.len())
                == crate::mention::file_context(crate::mention::pair_views(o.attached_files@)) + "\n\n"@
        }),
{
    let content = f.conversation@.last().content->0@;
    if o.attached_files@.len() > 0 {
        let head = crate::mention::file_context(crate::mention::pair_views(o.attached_files@)) + "\n\n"@;
        assert(content == head + text);
        assert(content.skip(head.len() as int) =~= text);
        assert(content.take(head.len() as int) =~= head);
    } else {
        assert(content.skip(0) =~= content);
    }
}

/// The compare transcript puts each provider's reply under its own label:
/// the text right after `[OpenRouter]` is the reply filled into the
/// OpenRouter block, and the text after `[Tabby]` the one filled into the
/// Tabby block.
pub proof fn law_compare_transcript_matches_blocks(
    before: Seq<Block>,
    mid: Seq<Block>,
    after: Seq<Block>,
    or_id: u64,
    tabby_id: u64,
    a: Seq<char>,
    b: Seq<char>,
)
    requires
        crate::chat::reply_filled(before, mid, or_id, a),
        crate::chat::reply_filled(mid, after, tabby_id, b),
        or_id != tabby_id,
        crate::chat::block_index(before, or_id) >= 0,
        crate::chat::block_index(before, tabby_id) >= 0,
        before[crate::chat::block_index(before, or_id)].body is Assistant,
        before[crate::chat::block_index(before, tabby_id)].body is Assistant,
    ensures
        ({
            let ka = crate::chat::block_index(before, or_id);
            let kb = crate::chat::block_index(before, tabby_id);
            let t = crate::send::compare_transcript(a, b);
            let ta = crate::model::body_text(after[ka].body);
            let tb = crate::model::body_text(after[kb].body);
            &&& after[ka].id == or_id
            &&& after[kb].id == tabby_id
            &&& t == "[OpenRouter]\n"@ + ta + "\n\n[Tabby]\n"@ + tb
        }),
{
    let ka = crate::chat::block_index(before, or_id);
    let kb = crate::chat::block_index(before, tabby_id);
    lemma_first_where(before, crate::chat::has_id(or_id));
    lemma_first_where(before, crate::chat::has_id(tabby_id));
    assert(ka != kb);
    // the Tabby block is found at the same place once the OpenRouter reply is in
    assert forall|j: int| 0 <= j < kb implies !crate::chat::has_id(tabby_id)(#[trigger] mid[j]) by {
        assert(!crate::chat::has_id(tabby_id)(before[j]));
        if j == ka {
            assert(mid[j].id == before[j].id);
        } else {
            assert(mid[j] == before[j]);
        }
    }
    assert(mid[kb] == before[kb]);
    crate::seqs::lemma_first_where_is(mid, crate::chat::has_id(tabby_id), kb);
    assert(crate::chat::block_index(mid, tabby_id) == kb);
    assert(after[ka] == mid[ka]);
}

/// Starting TabbyAPI runs its launcher from the launcher's folder, with the
/// engine's arguments last: either the launcher's file name comes right
/// before them (a `.bat` or `.cmd` script run by `cmd.exe /C`, a `.py` script
/// by `python` on Windows and `python3` elsewhere), or the program run is the
/// launcher itself (`./` and its name for a `.sh` script). Other engines keep their arguments
/// and no working folder.
pub proof fn law_tabbyapi_launcher_is_run(
    app: App,
    program: Seq<char>,
    args: Seq<Seq<char>>,
    override_is_dir: bool,
    dir_binary: Option<Seq<char>>,
)
    ensures
        ({
            let r = crate::inference::spawn_command(app, program, args, override_is_dir, dir_binary);
            let p = app.platform;
            let ov = trim_seq(app.inference_binary_path@);
            let script = if ov.len() == 0 {
                program
            } else {
                ov
            };
            let name = match crate::paths::file_name_of(p, script) {
                Some(n) => n,
                None => script,
            };
            &&& app.inference_engine != crate::model::InferenceEngine::TabbyApi ==> r.1 == args && r.2 is None
            &&& app.inference_engine == crate::model::InferenceEngine::TabbyApi ==> {
                &&& r.2 == crate::paths::parent_of(p, script)
                &&& r.1.len() >= args.len()
                &&& r.1.skip(r.1.len() - args.len()) == args
                &&& r.1.len() > args.len() ==> r.1[r.1.len() - args.len() - 1] == name
                &&& r.1.len() == args.len() ==> (r.0 == script || r.0 == "./"@ + name)
                &&& (crate::paths::extension_of(p, script) matches Some(e) && lower_ascii(e) == "py"@)
                    ==> r.1.len() == args.len() + 1 && r.0 == (if p == crate::paths::Platform::Windows {
                    "python"@
                } else {
                    "python3"@
                })
                &&& (p == crate::paths::Platform::Windows && (crate::paths::extension_of(p, script) matches Some(e)
                    && (lower_ascii(e) == "bat"@ || lower_ascii(e) == "cmd"@))) ==> r.0 == "cmd.exe"@
                    && r.1.len() == args.len() + 2 && r.1[0] == "/C"@
                &&& (p == crate::paths::Platform::Unix && (crate::paths::extension_of(p, script) matches Some(e)
                    && lower_ascii(e) == "sh"@)) ==> r.0 == "./"@ + name && r.1 == args
            }
        }),
{
    let r = crate::inference::spawn_command(app, program, args, override_is_dir, dir_binary);
    reveal_strlit("py");
    reveal_strlit("bat");
    reveal_strlit("cmd");
    reveal_strlit("sh");
    if app.inference_engine == crate::model::InferenceEngine::TabbyApi {
        let p = app.platform;
        let ov = trim_seq(app.inference_binary_path@);
        let script = if ov.len() == 0 {
            program
        } else {
            ov
        };
        let name = match crate::paths::file_name_of(p, script) {
            Some(n) => n,
            None => script,
        };
        let ext = match crate::paths::extension_of(p, script) {
            Some(e) => lower_ascii(e),
            None => Seq::empty(),
        };
        assert("py"@ != "bat"@ && "py"@ != "cmd"@ && "py"@ != "sh"@) by {
            assert("py"@[0] != "bat"@[0]);
            assert("py"@[0] != "cmd"@[0]);
            assert("py"@.len() != "bat"@.len());
        }
        if p == crate::paths::Platform::Windows && (ext == "bat"@ || ext == "cmd"@) {
            let pre = seq!["/C"@, name];
            assert(r.1 == pre + args);
            assert(r.1.skip(2) =~= args);
            assert(r.1[1] == name);
        } else if (p == crate::paths::Platform::Windows && ext == "py"@) || (p
            == crate::paths::Platform::Unix && ext == "py"@) {
            assert(r.1 == seq![name] + args);
            assert(r.1.skip(1) =~= args);
            assert(r.1[0] == name);
        } else {
            assert(r.1 == args);
            assert(r.1.skip(0) =~= args);
        }
    }
}

proof fn lemma_all_commands_match_empty(cmds: Seq<(Seq<char>, Seq<char>)>, q: Seq<char>)
    requires
        q.len() == 0,
    ensures
        crate::palette::matching_commands(cmds, q).len() == cmds.len(),
        forall|i: int| 0 <= i < cmds.len() ==> #[trigger] crate::palette::matching_commands(cmds, q)[i] == i,
    decreases cmds.len(),
{
    if cmds.len() > 0 {
        lemma_all_commands_match_empty(cmds.drop_last(), q);
    }
}

/// With nothing typed the palette lists every command, in order, so running
/// entry `i` runs the `i`-th command.
pub proof fn law_empty_palette_lists_every_command(input: Seq<char>)
    requires
        unicode_lower(input).len() == 0,
    ensures
        crate::palette::filtered_commands(input).len() == crate::palette::palette_actions().len(),
        forall|i: int|
            0 <= i < crate::palette::palette_actions().len() ==> #[trigger] crate::palette::filtered_commands(input)[i] == i,
{
    lemma_all_commands_match_empty(crate::palette::palette_entries(), unicode_lower(input));
}

/// The mention being typed is the text after the last `@`: the input ends
/// with `@` and the query, and the query holds no `@` and no space, newline
/// or tab; with no `@` in the input there is none.
pub proof fn law_mention_query_follows_last_at(input: Seq<char>)
    ensures
        crate::mention::mention_query(input) matches Some(q) ==> {
            &&& input.len() >= q.len() + 1
            &&& input.skip(input.len() - q.len() - 1) == seq!['@'] + q
            &&& forall|j: int| 0 <= j < q.len() ==> #[trigger] q[j] != '@' && q[j] != ' ' && q[j] != '\n' && q[j] != '\t'
        },
        !input.contains('@') ==> crate::mention::mention_query(input) is None,
{
    crate::text::lemma_last_index_of_props(input, '@');
    let k = last_index_of(input, '@');
    if let Some(q) = crate::mention::mention_query(input) {
        assert(q == input.subrange(k + 1, input.len() as int));
        assert(input.skip(input.len() - q.len() - 1) =~= seq!['@'] + q);
        assert forall|j: int| 0 <= j < q.len() implies #[trigger] q[j] != '@' && q[j] != ' ' && q[j]
            != '\n' && q[j] != '\t' by {
            assert(q[j] == input[k + 1 + j]);
            assert(!crate::mention::is_mention_break(q[j]));
        }
    }
    if !input.contains('@') && k >= 0 {
        assert(input[k] == '@');
    }
}

/// The system prompt names the workspace folder and the current mode's
/// instructions.
pub proof fn law_system_prompt_names_folder_and_mode(cwd: Seq<char>, m: crate::model::AgentMode)
    ensures
        has_substring(system_prompt(cwd, m), cwd),
        m == crate::model::AgentMode::Plan ==> has_substring(system_prompt(cwd, m), crate::send::PLAN_MODE_TEXT@),
        m == crate::model::AgentMode::Build ==> has_substring(system_prompt(cwd, m), crate::send::BUILD_MODE_TEXT@),
{
    let a = crate::send::PROMPT_INTRO@;
    let b = crate::send::PROMPT_AFTER_DIR@;
    let t = crate::send::mode_text(m);
    let s = system_prompt(cwd, m);
    assert(s.subrange(a.len() as int, (a.len() + cwd.len()) as int) =~= cwd);
    let o: int = (a.len() + cwd.len() + b.len()) as int;
    assert(s.subrange(o, o + t.len()) =~= t);
}

} // verus!
