//! The workspace around the chat: the @-mention picker, attachments, the
//! terminal panel, the file tree, the theme editor and a few interface
//! switches.
use crate::bytes::{fmt_bytes, fmt_bytes_spec};
use crate::file_tree::FileTreeItem;
use crate::mention::{extract_mention_query, fuzzy_match_paths, fuzzy_matches, mention_query, views};
use crate::model::{copy_string, AgentMode};
use crate::paths::{
    file_name, file_name_of, is_absolute, is_absolute_path, join, join_path, path_components,
    same_path, Platform,
};
use crate::send::mode_label;
use crate::state::{next_generation, App, PtyState, UiState};
use crate::summary::utf8_len;
use crate::text::{dec, decimal, str_equals, trim, trim_seq};
use vstd::prelude::*;

verus! {

/// The most bytes all attachments of a message may hold together.
pub const MAX_ATTACH_BYTES: u64 = 512 * 1024;

/// The number of terminal lines kept.
pub const PTY_MAX_LINES: usize = 500;

/// The byte size of the attached contents, in order.
pub open spec fn attached_bytes(files: Seq<(String, String)>) -> nat
    decreases files.len(),
{
    if files.len() == 0 {
        0
    } else {
        attached_bytes(files.drop_last()) + utf8_len(files.last().1@) as nat
    }
}

/// `path` as the attachment list compares it: as it is when absolute, else
/// joined to the workspace directory.
pub open spec fn normalized_path(app: App, path: Seq<char>) -> Seq<char> {
    if is_absolute_path(app.platform, path) {
        path
    } else {
        join_path(app.platform, app.cwd@, path)
    }
}

/// Whether some attachment has the normalized path of `path`.
pub open spec fn attached(app: App, path: Seq<char>) -> bool {
    exists|i: int|
        0 <= i < app.attached_files@.len() && normalized_path(app, #[trigger] app.attached_files@[i].0@)
            == normalized_path(app, path)
}

/// The name an attachment is shown by: its file name, or the whole path.
pub open spec fn shown_name(app: App, path: Seq<char>) -> Seq<char> {
    match file_name_of(app.platform, path) {
        Some(n) => n,
        None => path,
    }
}

/// Why an attachment of `len` bytes at `path` cannot join attachments
/// totalling `existing` bytes, if it cannot: it is larger than the limit
/// alone, or the total would exceed it.
pub open spec fn attachment_verdict(path: Seq<char>, len: nat, existing: nat) -> Result<(), Seq<char>> {
    if len > MAX_ATTACH_BYTES {
        Err(
            "Attachment too large (max "@ + fmt_bytes_spec(MAX_ATTACH_BYTES as nat) + "): "@ + path,
        )
    } else if existing + len > MAX_ATTACH_BYTES {
        Err(
            "Attachment limit exceeded: "@ + fmt_bytes_spec(existing + len) + " / "@
                + fmt_bytes_spec(MAX_ATTACH_BYTES as nat),
        )
    } else {
        Ok(())
    }
}

/// The theme colours the theme editor edits, in order.
pub open spec fn theme_fields() -> Seq<Seq<char>> {
    seq![
        "background"@,
        "text"@,
        "primary"@,
        "success"@,
        "warning"@,
        "danger"@,
        "accent_user"@,
        "accent_assistant"@,
        "accent_error"@,
    ]
}

/// Whether an entry names a path other than the one with components `c`.
pub open spec fn names_other_path(p: Platform, c: Seq<Seq<char>>) -> spec_fn(String) -> bool {
    |e: String| path_components(p, e@) != c
}

/// Whether some entry of `v` is the path with components `c`.
pub open spec fn lists_path(p: Platform, v: Seq<String>, c: Seq<Seq<char>>) -> bool {
    exists|i: int| 0 <= i < v.len() && path_components(p, #[trigger] v[i]@) == c
}

/// The paths the entries of `v` name, each by its components.
pub open spec fn listed_paths(p: Platform, v: Seq<String>) -> Set<Seq<Seq<char>>> {
    Set::new(|c: Seq<Seq<char>>| lists_path(p, v, c))
}

/// Whether no two entries of `v` are the same path.
pub open spec fn paths_distinct(p: Platform, v: Seq<String>) -> bool {
    forall|i: int, j: int|
        0 <= i < j < v.len() ==> path_components(p, #[trigger] v[i]@) != path_components(p, #[trigger] v[j]@)
}

/// Whether `f` is the list of open folders `o` once folder `path` is
/// toggled: the entries that are the same path are dropped when there are
/// any, else `path` is added; as sets of paths, `path` leaves or joins, and
/// a list with no path twice keeps that property.
pub open spec fn folder_toggled(p: Platform, o: Seq<String>, f: Seq<String>, path: String) -> bool {
    let c = path_components(p, path@);
    &&& lists_path(p, o, c) ==> f == o.filter(names_other_path(p, c))
    &&& !lists_path(p, o, c) ==> f == o.push(path)
    &&& listed_paths(p, f) == (if lists_path(p, o, c) {
        listed_paths(p, o).remove(c)
    } else {
        listed_paths(p, o).insert(c)
    })
    &&& paths_distinct(p, o) ==> paths_distinct(p, f)
}

/// Whether some entry of `v` is the same path as `path` (see `lists_path`).
pub fn lists_path_of(p: Platform, v: &Vec<String>, path: &str) -> (r: bool)
    ensures
        r == lists_path(p, v@, path_components(p, path@)),
{
    let mut i: usize = 0;
    while i < v.len()
        invariant
            i <= v@.len(),
            forall|j: int| 0 <= j < i ==> path_components(p, #[trigger] v@[j]@) != path_components(p, path@),
        decreases v@.len() - i,
    {
        if same_path(p, v[i].as_str(), path) {
            return true;
        }
        i = i + 1;
    }
    false
}

proof fn lemma_listed_after_filter(p: Platform, o: Seq<String>, c: Seq<Seq<char>>)
    ensures
        listed_paths(p, o.filter(names_other_path(p, c))) == listed_paths(p, o).remove(c),
{
    let keep = names_other_path(p, c);
    let f = o.filter(keep);
    assert forall|x: Seq<Seq<char>>| lists_path(p, f, x) <==> (lists_path(p, o, x) && x != c) by {
        if lists_path(p, f, x) {
            let i = choose|i: int| 0 <= i < f.len() && path_components(p, #[trigger] f[i]@) == x;
            assert(f.contains(f[i]));
            o.lemma_filter_contains_rev(keep, f[i]);
            let j = choose|j: int| 0 <= j < o.len() && o[j] == f[i];
            assert(path_components(p, o[j]@) == x);
            o.lemma_filter_pred(keep, i);
        }
        if lists_path(p, o, x) && x != c {
            let j = choose|j: int| 0 <= j < o.len() && path_components(p, #[trigger] o[j]@) == x;
            o.lemma_filter_contains(keep, j);
            let i = choose|i: int| 0 <= i < f.len() && f[i] == o[j];
            assert(path_components(p, f[i]@) == x);
        }
    }
    assert(listed_paths(p, f) =~= listed_paths(p, o).remove(c));
}

proof fn lemma_listed_after_push(p: Platform, o: Seq<String>, e: String)
    ensures
        listed_paths(p, o.push(e)) == listed_paths(p, o).insert(path_components(p, e@)),
{
    let f = o.push(e);
    assert forall|x: Seq<Seq<char>>| lists_path(p, f, x) <==> (lists_path(p, o, x) || x == path_components(p, e@)) by {
        if lists_path(p, f, x) {
            let i = choose|i: int| 0 <= i < f.len() && path_components(p, #[trigger] f[i]@) == x;
            if i < o.len() {
                assert(f[i] == o[i]);
            }
        }
        if lists_path(p, o, x) {
            let j = choose|j: int| 0 <= j < o.len() && path_components(p, #[trigger] o[j]@) == x;
            assert(f[j] == o[j]);
        }
        if x == path_components(p, e@) {
            assert(f[o.len() as int] == e);
        }
    }
    assert(listed_paths(p, f) =~= listed_paths(p, o).insert(path_components(p, e@)));
}

proof fn lemma_distinct_after_filter(p: Platform, o: Seq<String>, c: Seq<Seq<char>>)
    requires
        paths_distinct(p, o),
    ensures
        paths_distinct(p, o.filter(names_other_path(p, c))),
    decreases o.len(),
{
    let keep = names_other_path(p, c);
    if o.len() > 0 {
        let r = o.drop_last();
        let e = o.last();
        assert(paths_distinct(p, r)) by {
            assert forall|i: int, j: int| 0 <= i < j < r.len() implies path_components(p, #[trigger] r[i]@)
                != path_components(p, #[trigger] r[j]@) by {
                assert(r[i] == o[i] && r[j] == o[j]);
            }
        }
        lemma_distinct_after_filter(p, r, c);
        assert(r.push(e) =~= o);
        r.lemma_filter_push(e, keep);
        if keep(e) {
            let g = r.filter(keep);
            let f = g.push(e);
            assert forall|i: int, j: int| 0 <= i < j < f.len() implies path_components(p, #[trigger] f[i]@)
                != path_components(p, #[trigger] f[j]@) by {
                if j == g.len() {
                    assert(g.contains(g[i]));
                    r.lemma_filter_contains_rev(keep, g[i]);
                    let k = choose|k: int| 0 <= k < r.len() && r[k] == g[i];
                    assert(o[k] == g[i] && o[o.len() - 1] == e);
                } else {
                    assert(f[i] == g[i] && f[j] == g[j]);
                }
            }
        }
    }
}

/// Whether a theme field name is `field`.
pub open spec fn names_field(field: Seq<char>) -> spec_fn(Seq<char>) -> bool {
    |f: Seq<char>| f == field
}

/// The position of theme field `field` among the theme fields, or -1.
pub open spec fn theme_field_index(field: Seq<char>) -> int {
    crate::seqs::first_where(theme_fields(), names_field(field))
}

fn theme_field_position(field: &str) -> (r: Option<usize>)
    ensures
        match r {
            Some(i) => i < 9 && i == theme_field_index(field@),
            None => theme_field_index(field@) == -1,
        },
{
    let fields: Vec<&str> = vec![
        "background",
        "text",
        "primary",
        "success",
        "warning",
        "danger",
        "accent_user",
        "accent_assistant",
        "accent_error",
    ];
    let ghost names = theme_fields();
    assert(names.len() == 9);
    assert forall|j: int| 0 <= j < 9 implies fields@[j]@ == #[trigger] names[j] by {}
    let mut idx: usize = 0;
    while idx < 9
        invariant
            idx <= 9,
            fields@.len() == 9,
            names == theme_fields(),
            forall|j: int| 0 <= j < 9 ==> fields@[j]@ == #[trigger] names[j],
            forall|j: int| 0 <= j < idx ==> !names_field(field@)(#[trigger] names[j]),
        decreases 9 - idx,
    {
        if str_equals(fields[idx], field) {
            proof {
                crate::seqs::lemma_first_where_is(names, names_field(field@), idx as int);
            }
            return Some(idx);
        }
        idx = idx + 1;
    }
    proof {
        crate::seqs::lemma_first_where_none(names, names_field(field@));
    }
    None
}

/// What letting the terminal session go asks the surrounding program to do.
pub enum PtyStop {
    /// Nothing.
    Nothing,
    /// Start a new session.
    Start,
    /// Shut the session down (gracefully, or by waiting for its exit), then
    /// report back under `generation`, starting a new one when `restart` asks.
    Stop { restart: bool, graceful: bool, generation: u64 },
}

/// Whether `f` and `r` are the outcome of letting the session of `o` go: with
/// no session, a new one is started when `restart` asks; otherwise the
/// session is handed over to be shut down.
pub open spec fn pty_stopping(o: App, f: App, restart: bool, graceful: bool, r: PtyStop) -> bool {
    &&& !o.pty.session ==> f == o && (if restart {
        r is Start
    } else {
        r is Nothing
    })
    &&& o.pty.session ==> {
        &&& r == (PtyStop::Stop { restart, graceful, generation: o.pty.generation })
        &&& f == (App { pty: PtyState { session: false, ..o.pty }, ..o })
    }
}

/// The load generation recorded for MCP server `name`, 0 when none is.
pub open spec fn load_generation(entries: Seq<(String, u64)>, name: Seq<char>) -> u64
    decreases entries.len(),
{
    if entries.len() == 0 {
        0
    } else if entries.last().0@ == name {
        entries.last().1
    } else {
        load_generation(entries.drop_last(), name)
    }
}

proof fn lemma_attached_bytes_step(files: Seq<(String, String)>, i: int)
    requires
        0 <= i < files.len(),
    ensures
        attached_bytes(files.take(i + 1)) == attached_bytes(files.take(i)) + utf8_len(
            files[i].1@,
        ) as nat,
{
    assert(files.take(i + 1).drop_last() =~= files.take(i));
}

proof fn lemma_attached_bytes_prefix(files: Seq<(String, String)>, i: int)
    requires
        0 <= i <= files.len(),
    ensures
        attached_bytes(files.take(i)) <= attached_bytes(files),
    decreases files.len(),
{
    if i == files.len() {
        assert(files.take(i) =~= files);
    } else {
        lemma_attached_bytes_prefix(files.drop_last(), i);
        assert(files.drop_last().take(i) =~= files.take(i));
    }
}

/// Whether an attachment of `content_len` bytes at `path` may join attachments
/// totalling `existing` bytes (see `attachment_verdict`).
pub fn check_attachment(path: &str, content_len: u64, existing: u64) -> (r: Result<(), String>)
    requires
        content_len + existing <= u64::MAX,
    ensures
        match r {
            Ok(()) => attachment_verdict(path@, content_len as nat, existing as nat) is Ok,
            Err(m) => attachment_verdict(path@, content_len as nat, existing as nat) == Err::<
                (),
                Seq<char>,
            >(m@),
        },
{
    if content_len > MAX_ATTACH_BYTES {
        let mut m = String::from_str("Attachment too large (max ");
        m.append(fmt_bytes(MAX_ATTACH_BYTES).as_str());
        m.append("): ");
        m.append(path);
        return Err(m);
    }
    if existing > MAX_ATTACH_BYTES - content_len {
        let mut m = String::from_str("Attachment limit exceeded: ");
        let shown = fmt_bytes(existing + content_len);
        m.append(shown.as_str());
        m.append(" / ");
        m.append(fmt_bytes(MAX_ATTACH_BYTES).as_str());
        return Err(m);
    }
    Ok(())
}

impl App {
    /// Closes the @-mention picker and forgets its query and selection.
    pub fn close_mention(&mut self)
        ensures
            !final(self).show_mention,
            final(self).mention_query@ == Seq::<char>::empty(),
            final(self).mention_selected == 0,
            *final(self) == (App {
                show_mention: false,
                mention_query: final(self).mention_query,
                mention_selected: 0,
                ..*old(self)
            }),
    {
        self.show_mention = false;
        self.mention_query = String::new();
        self.mention_selected = 0;
    }

    /// `path` as the attachment list compares it (see `normalized_path`).
    pub fn normalized_attachment_path(&self, path: &str) -> (r: String)
        ensures
            r@ == normalized_path(*self, path@),
    {
        if is_absolute(self.platform, path) {
            String::from_str(path)
        } else {
            join(self.platform, self.cwd.as_str(), path)
        }
    }

    /// Whether `path` is attached already (see `attached`).
    pub fn is_already_attached(&self, path: &str) -> (r: bool)
        ensures
            r == attached(*self, path@),
    {
        let needle = self.normalized_attachment_path(path);
        let n = self.attached_files.len();
        let mut i: usize = 0;
        while i < n
            invariant
                n == self.attached_files@.len(),
                i <= n,
                needle@ == normalized_path(*self, path@),
                forall|j: int|
                    0 <= j < i ==> normalized_path(*self, #[trigger] self.attached_files@[j].0@)
                        != needle@,
            decreases n - i,
        {
            let p = self.normalized_attachment_path(self.attached_files[i].0.as_str());
            if str_equals(p.as_str(), needle.as_str()) {
                return true;
            }
            i = i + 1;
        }
        false
    }

    /// The byte size of the attached contents.
    pub fn total_attached_bytes(&self) -> (r: u64)
        requires
            attached_bytes(self.attached_files@) <= u64::MAX,
        ensures
            r == attached_bytes(self.attached_files@),
    {
        let n = self.attached_files.len();
        let mut total: u64 = 0;
        let mut i: usize = 0;
        assert(self.attached_files@.take(0) =~= Seq::<(String, String)>::empty());
        while i < n
            invariant
                n == self.attached_files@.len(),
                i <= n,
                attached_bytes(self.attached_files@) <= u64::MAX,
                total == attached_bytes(self.attached_files@.take(i as int)),
            decreases n - i,
        {
            proof {
                lemma_attached_bytes_step(self.attached_files@, i as int);
                lemma_attached_bytes_prefix(self.attached_files@, i + 1);
            }
            let len = self.attached_files[i].1.as_str().len();
            total = total + len as u64;
            i = i + 1;
        }
        assert(self.attached_files@.take(n as int) =~= self.attached_files@);
        total
    }

    /// Removes attachment `idx`, if there is one, and reports it.
    pub fn remove_attachment(&mut self, idx: usize)
        ensures
            idx >= old(self).attached_files@.len() ==> *final(self) == *old(self),
            idx < old(self).attached_files@.len() ==> {
                &&& final(self).attached_files@ == old(self).attached_files@.remove(idx as int)
                &&& final(self).status@ == "Removed attachment: "@ + shown_name(
                    *old(self),
                    old(self).attached_files@[idx as int].0@,
                ) + " ("@ + dec(final(self).attached_files@.len()) + " left)"@
                &&& *final(self) == (App {
                    attached_files: final(self).attached_files,
                    status: final(self).status,
                    ..*old(self)
                })
            },
    {
        if idx < self.attached_files.len() {
            let removed = self.attached_files.remove(idx);
            let name = match file_name(self.platform, removed.0.as_str()) {
                Some(n) => n,
                None => copy_string(&removed.0),
            };
            let mut st = String::from_str("Removed attachment: ");
            st.append(name.as_str());
            st.append(" (");
            let left = self.attached_files.len();
            st.append(decimal(left as u64).as_str());
            st.append(" left)");
            self.status = st;
        }
    }

    /// Removes every attachment and reports how many and how large they were.
    pub fn clear_attachments(&mut self)
        requires
            attached_bytes(old(self).attached_files@) <= u64::MAX,
        ensures
            old(self).attached_files@.len() == 0 ==> *final(self) == *old(self),
            old(self).attached_files@.len() > 0 ==> {
                &&& final(self).attached_files@.len() == 0
                &&& final(self).status@ == "Cleared attachments: "@ + dec(
                    old(self).attached_files@.len(),
                ) + " files ("@ + fmt_bytes_spec(attached_bytes(old(self).attached_files@))
                    + ")"@
                &&& *final(self) == (App {
                    attached_files: final(self).attached_files,
                    status: final(self).status,
                    ..*old(self)
                })
            },
    {
        if self.attached_files.len() > 0 {
            let count = self.attached_files.len();
            let bytes = self.total_attached_bytes();
            self.attached_files = Vec::new();
            let mut st = String::from_str("Cleared attachments: ");
            st.append(decimal(count as u64).as_str());
            st.append(" files (");
            st.append(fmt_bytes(bytes).as_str());
            st.append(")");
            self.status = st;
        }
    }

    /// Takes in a file that was read for attaching: it is attached unless it
    /// is attached already, and the outcome is reported.
    pub fn on_file_read_done(&mut self, path: String, content: String)
        requires
            attached_bytes(old(self).attached_files@) + utf8_len(content@) <= u64::MAX,
        ensures
            attached(*old(self), path@) ==> {
                &&& final(self).status@ == "Already attached: "@ + path@
                &&& *final(self) == (App { status: final(self).status, ..*old(self) })
            },
            !attached(*old(self), path@) ==> {
                &&& final(self).attached_files@ == old(self).attached_files@.push((path, content))
                &&& final(self).status@ == "Attached ("@ + dec(final(self).attached_files@.len())
                    + " files): "@ + fmt_bytes_spec(attached_bytes(final(self).attached_files@))
                    + "/"@ + fmt_bytes_spec(MAX_ATTACH_BYTES as nat)
                &&& *final(self) == (App {
                    attached_files: final(self).attached_files,
                    status: final(self).status,
                    ..*old(self)
                })
            },
    {
        if self.is_already_attached(path.as_str()) {
            let mut st = String::from_str("Already attached: ");
            st.append(path.as_str());
            self.status = st;
            return;
        }
        let ghost before = self.attached_files@;
        self.attached_files.push((path, content));
        assert(self.attached_files@.drop_last() =~= before);
        let total = self.total_attached_bytes();
        let mut st = String::from_str("Attached (");
        st.append(decimal(self.attached_files.len() as u64).as_str());
        st.append(" files): ");
        st.append(fmt_bytes(total).as_str());
        st.append("/");
        st.append(fmt_bytes(MAX_ATTACH_BYTES).as_str());
        self.status = st;
    }

    /// Takes in the typed input: an @-mention being typed opens the picker on
    /// its query (returning whether the mention candidates are to be loaded,
    /// which is when the picker was closed), and its absence closes it.
    pub fn on_input_changed(&mut self, value: String) -> (load: bool)
        ensures
            final(self).input == value,
            match mention_query(value@) {
                Some(q) => {
                    &&& load == !old(self).show_mention
                    &&& final(self).show_mention
                    &&& final(self).mention_query@ == q
                    &&& final(self).mention_selected == 0
                    &&& *final(self) == (App {
                        input: value,
                        show_mention: true,
                        mention_query: final(self).mention_query,
                        mention_selected: 0,
                        ..*old(self)
                    })
                },
                None => {
                    &&& !load
                    &&& old(self).show_mention ==> !final(self).show_mention
                        && final(self).mention_query@.len() == 0 && final(self).mention_selected == 0
                        && *final(self) == (App {
                        input: value,
                        show_mention: false,
                        mention_query: final(self).mention_query,
                        mention_selected: 0,
                        ..*old(self)
                    })
                    &&& !old(self).show_mention ==> *final(self) == (App {
                        input: value,
                        ..*old(self)
                    })
                },
            },
    {
        self.input = value;
        match extract_mention_query(self.input.as_str()) {
            Some(q) => {
                self.mention_query = q;
                self.mention_selected = 0;
                if !self.show_mention {
                    self.show_mention = true;
                    return true;
                }
                false
            },
            None => {
                if self.show_mention {
                    self.close_mention();
                }
                false
            },
        }
    }

    /// Moves the @-mention selection by `delta` through the at most eight
    /// candidates that match the query, wrapping around; nothing happens while
    /// the picker is closed or nothing matches.
    pub fn move_mention_selection(&mut self, delta: i32)
        requires
            old(self).mention_selected <= i64::MAX,
        ensures
            ({
                let o = *old(self);
                let n = fuzzy_matches(views(o.mention_candidates@), o.mention_query@, 8).len();
                &&& (!o.show_mention || o.mention_candidates@.len() == 0 || n == 0) ==> *final(self)
                    == o
                &&& !(!o.show_mention || o.mention_candidates@.len() == 0 || n == 0)
                    ==> *final(self) == (App {
                    mention_selected: ((o.mention_selected + delta) % (n as int)) as usize,
                    ..o
                })
            }),
    {
        if !self.show_mention || self.mention_candidates.len() == 0 {
            return;
        }
        let filtered = fuzzy_match_paths(&self.mention_candidates, self.mention_query.as_str(), 8);
        let n = filtered.len();
        if n == 0 {
            return;
        }
        let offset: i128 = (n as i128) * 2147483648;
        let y: i128 = self.mention_selected as i128 + delta as i128 + offset;
        let r: i128 = y % (n as i128);
        proof {
            assert(offset == (n as int) * 2147483648) by (nonlinear_arith)
                requires
                    offset == (n as i128) * 2147483648,
                    0 < n <= 8,
            ;
            vstd::arithmetic::div_mod::lemma_mod_multiples_vanish(
                2147483648,
                self.mention_selected + delta,
                n as int,
            );
            assert((n as int) * 2147483648 + (self.mention_selected + delta) == y);
        }
        self.mention_selected = r as usize;
    }

    /// Appends a line to the terminal panel, keeping the newest lines only.
    pub fn push_pty_line(&mut self, line: String)
        ensures
            final(self).pty_output@ == if old(self).pty_output@.len() + 1 > PTY_MAX_LINES {
                old(self).pty_output@.push(line).drop_first()
            } else {
                old(self).pty_output@.push(line)
            },
            *final(self) == (App { pty_output: final(self).pty_output, ..*old(self) }),
    {
        self.pty_output.push(line);
        if self.pty_output.len() > PTY_MAX_LINES {
            let ghost pushed = self.pty_output@;
            let _ = self.pty_output.remove(0);
            assert(self.pty_output@ =~= pushed.drop_first());
        }
    }

    /// Takes output line `clean` (its terminal escapes removed) of the session
    /// of generation `generation`; a line of an earlier session, or one with
    /// nothing but white space, changes nothing.
    pub fn on_pty_line(&mut self, generation: u64, clean: String)
        ensures
            (generation != old(self).pty.generation || trim_seq(clean@).len() == 0) ==> *final(self)
                == *old(self),
            generation == old(self).pty.generation && trim_seq(clean@).len() > 0 ==> final(self).pty_output@ == if old(self).pty_output@.len() + 1 > PTY_MAX_LINES {
                old(self).pty_output@.push(clean).drop_first()
            } else {
                old(self).pty_output@.push(clean)
            } && *final(self) == (App { pty_output: final(self).pty_output, ..*old(self) }),
    {
        if generation != self.pty.generation {
            return;
        }
        if trim(clean.as_str()).unicode_len() > 0 {
            self.push_pty_line(clean);
        }
    }

    /// Takes the end of the shell of the session of generation `generation`;
    /// the end of an earlier session changes nothing. Otherwise the session is
    /// let go (see `stop_pty`), waiting for its exit.
    pub fn on_pty_exited(&mut self, generation: u64) -> (r: PtyStop)
        ensures
            generation != old(self).pty.generation ==> r is Nothing && *final(self) == *old(self),
            generation == old(self).pty.generation ==> pty_stopping(
                *old(self),
                *final(self),
                false,
                false,
                r,
            ),
    {
        if generation != self.pty.generation {
            return PtyStop::Nothing;
        }
        self.stop_pty(false, false)
    }

    /// Starts the terminal: with a session running it is restarted (stopped
    /// first, see `stop_pty`); otherwise `None` asks the caller to spawn a
    /// shell and report with `on_pty_spawned`.
    pub fn pty_start(&mut self) -> (r: Option<PtyStop>)
        ensures
            !old(self).pty.session ==> r is None && *final(self) == *old(self),
            old(self).pty.session ==> (r matches Some(stop) && pty_stopping(
                *old(self),
                *final(self),
                true,
                true,
                stop,
            )),
    {
        if self.pty.session {
            return Some(self.stop_pty(true, true));
        }
        None
    }

    /// Takes the outcome of spawning a shell: on success (with the process id
    /// when known) a new session generation starts with an empty panel, and
    /// its generation is returned for tagging the session's events; a failure
    /// is reported.
    pub fn on_pty_spawned(&mut self, result: Result<Option<u32>, String>) -> (r: Option<u64>)
        ensures
            ({
                let o = *old(self);
                let f = *final(self);
                match result {
                    Err(e) => {
                        &&& r is None
                        &&& f.status@ == "터미널 시작 실패: "@ + e@
                        &&& f == (App { status: f.status, ..o })
                    },
                    Ok(pid) => {
                        let g = next_generation(o.pty.generation);
                        &&& r == Some(g)
                        &&& f.pty_output@.len() == 0
                        &&& f.status@ == match pid {
                            Some(p) => "터미널 시작됨 (pid "@ + dec(p as nat) + ")"@,
                            None => "터미널 시작됨"@,
                        }
                        &&& f == (App {
                            pty: PtyState { generation: g, session: true },
                            pty_output: f.pty_output,
                            status: f.status,
                            ..o
                        })
                    },
                }
            }),
    {
        match result {
            Err(e) => {
                let mut st = String::from_str("터미널 시작 실패: ");
                st.append(e.as_str());
                self.status = st;
                None
            },
            Ok(pid) => {
                self.pty.generation = self.pty.generation.saturating_add(1);
                self.pty.session = true;
                self.pty_output = Vec::new();
                self.status = match pid {
                    Some(p) => {
                        let mut st = String::from_str("터미널 시작됨 (pid ");
                        st.append(decimal(p as u64).as_str());
                        st.append(")");
                        st
                    },
                    None => String::from_str("터미널 시작됨"),
                };
                Some(self.pty.generation)
            },
        }
    }

    /// Takes the outcome of stopping the session of generation `generation`;
    /// an outcome for an earlier session changes nothing. On success the
    /// receipt line joins the panel, the stop of process `pid` is reported,
    /// and `true` asks for a new shell when `restart` did; on failure the
    /// session is held again and the failure reported.
    pub fn on_pty_stopped(&mut self, result: Result<(u32, String), String>, restart: bool, generation: u64) -> (r: bool)
        ensures
            ({
                let o = *old(self);
                let f = *final(self);
                &&& generation != o.pty.generation ==> !r && f == o
                &&& generation == o.pty.generation ==> match result {
                    Err(e) => {
                        &&& !r
                        &&& f.status@ == "터미널 종료 실패: "@ + e@
                        &&& f == (App {
                            status: f.status,
                            pty: PtyState { session: true, ..o.pty },
                            ..o
                        })
                    },
                    Ok((pid, receipt)) => {
                        &&& r == restart
                        &&& f.pty_output@ == if o.pty_output@.len() + 1 > PTY_MAX_LINES {
                            o.pty_output@.push(receipt).drop_first()
                        } else {
                            o.pty_output@.push(receipt)
                        }
                        &&& f.status@ == "터미널 종료됨 (pid "@ + dec(pid as nat) + ")"@
                        &&& f == (App { pty_output: f.pty_output, status: f.status, ..o })
                    },
                }
            }),
    {
        if generation != self.pty.generation {
            return false;
        }
        match result {
            Err(e) => {
                let mut st = String::from_str("터미널 종료 실패: ");
                st.append(e.as_str());
                self.status = st;
                self.pty.session = true;
                false
            },
            Ok((pid, receipt)) => {
                self.push_pty_line(receipt);
                let mut st = String::from_str("터미널 종료됨 (pid ");
                st.append(decimal(pid as u64).as_str());
                st.append(")");
                self.status = st;
                restart
            },
        }
    }

    /// Shows or hides the terminal panel: shown without a session, a shell is
    /// to be started; hidden, the session is let go gracefully (see
    /// `stop_pty`).
    pub fn toggle_pty(&mut self) -> (r: PtyStop)
        ensures
            ({
                let o = *old(self);
                let f = *final(self);
                let shown = !o.ui.pty_visible;
                let mid = App { ui: UiState { pty_visible: shown, ..o.ui }, ..o };
                &&& shown && !o.pty.session ==> r is Start && f == mid
                &&& shown && o.pty.session ==> r is Nothing && f == mid
                &&& !shown ==> pty_stopping(mid, f, false, true, r)
            }),
    {
        self.ui.pty_visible = !self.ui.pty_visible;
        if self.ui.pty_visible && !self.pty.session {
            return PtyStop::Start;
        }
        if !self.ui.pty_visible {
            return self.stop_pty(false, true);
        }
        PtyStop::Nothing
    }

    /// Empties the terminal panel.
    pub fn pty_clear(&mut self)
        ensures
            final(self).pty_output@.len() == 0,
            *final(self) == (App { pty_output: final(self).pty_output, ..*old(self) }),
    {
        self.pty_output = Vec::new();
    }

    /// Lets the terminal session go (see `pty_stopping`).
    pub fn stop_pty(&mut self, restart: bool, graceful: bool) -> (r: PtyStop)
        ensures
            pty_stopping(*old(self), *final(self), restart, graceful, r),
    {
        if !self.pty.session {
            return if restart {
                PtyStop::Start
            } else {
                PtyStop::Nothing
            };
        }
        self.pty.session = false;
        PtyStop::Stop { restart, graceful, generation: self.pty.generation }
    }

    /// Opens the file-tree folder `path` when it is closed, and closes it when
    /// it is open; a folder is open when a listed entry is the same path.
    pub fn toggle_file_tree_dir(&mut self, path: String)
        ensures
            folder_toggled(old(self).platform, old(self).file_tree_expanded@, final(self).file_tree_expanded@, path),
            *final(self) == (App { file_tree_expanded: final(self).file_tree_expanded, ..*old(self) }),
    {
        let p = self.platform;
        let ghost c = path_components(p, path@);
        let ghost orig = self.file_tree_expanded@;
        if lists_path_of(p, &self.file_tree_expanded, path.as_str()) {
            let ghost keep = names_other_path(p, c);
            let mut rest: Vec<String> = Vec::new();
            std::mem::swap(&mut rest, &mut self.file_tree_expanded);
            let mut k: usize = 0;
            assert(orig.len() == rest.len());
            assert(orig.take(0).filter(keep) =~= Seq::<String>::empty()) by {
                reveal(Seq::filter);
            }
            while rest.len() > 0
                invariant
                    k <= orig.len() <= usize::MAX,
                    rest@.len() == orig.len() - k,
                    rest@ == orig.skip(k as int),
                    self.file_tree_expanded@ == orig.take(k as int).filter(keep),
                    keep == names_other_path(p, c),
                    c == path_components(p, path@),
                    *self == (App { file_tree_expanded: self.file_tree_expanded, ..*old(self) }),
                decreases rest@.len(),
            {
                let e = rest.remove(0);
                proof {
                    assert(orig.skip(k as int)[0] == orig[k as int]);
                    assert(orig.skip(k as int).drop_first() =~= orig.skip(k + 1));
                    crate::seqs::lemma_filter_take_step(orig, keep, k as int);
                }
                if !same_path(p, e.as_str(), path.as_str()) {
                    self.file_tree_expanded.push(e);
                }
                k = k + 1;
            }
            assert(orig.take(orig.len() as int) =~= orig);
            proof {
                lemma_listed_after_filter(p, orig, c);
                if paths_distinct(p, orig) {
                    lemma_distinct_after_filter(p, orig, c);
                }
            }
        } else {
            self.file_tree_expanded.push(path);
            proof {
                lemma_listed_after_push(p, orig, self.file_tree_expanded@.last());
                assert(self.file_tree_expanded@ == orig.push(self.file_tree_expanded@.last()));
            }
        }
    }

    /// Shows the freshly scanned file tree `items`, all folders closed.
    pub fn refresh_file_tree(&mut self, items: Vec<FileTreeItem>)
        ensures
            final(self).file_tree_items == items,
            final(self).file_tree_expanded@.len() == 0,
            *final(self) == (App {
                file_tree_items: items,
                file_tree_expanded: final(self).file_tree_expanded,
                ..*old(self)
            }),
    {
        self.file_tree_items = items;
        self.file_tree_expanded = Vec::new();
    }

    /// Records the colour typed for theme field `field`; unknown fields are
    /// ignored.
    pub fn on_theme_hex_changed(&mut self, field: &str, value: String)
        ensures
            ({
                let k = theme_field_index(field@);
                let before = old(self).ui.theme_hex_inputs@;
                let after = final(self).ui.theme_hex_inputs@;
                &&& k < 0 ==> *final(self) == *old(self)
                &&& k >= 0 ==> {
                    &&& after.len() == if before.len() > k {
                        before.len() as int
                    } else {
                        k + 1
                    }
                    &&& after[k] == value
                    &&& forall|j: int|
                        0 <= j < after.len() && j != k ==> (#[trigger] after[j])@ == if j
                            < before.len() {
                            before[j]@
                        } else {
                            Seq::<char>::empty()
                        }
                    &&& *final(self) == (App {
                        ui: UiState { theme_hex_inputs: final(self).ui.theme_hex_inputs, ..old(self).ui },
                        ..*old(self)
                    })
                }
            }),
    {
        let i = match theme_field_position(field) {
            None => return,
            Some(i) => i,
        };
        while self.ui.theme_hex_inputs.len() <= i
            invariant
                i < 9,
                old(self).ui.theme_hex_inputs@.len() <= self.ui.theme_hex_inputs@.len(),
                self.ui.theme_hex_inputs@.len() <= if old(self).ui.theme_hex_inputs@.len() > i {
                    old(self).ui.theme_hex_inputs@.len() as int
                } else {
                    i + 1
                },
                forall|j: int|
                    0 <= j < self.ui.theme_hex_inputs@.len() ==> (
                    #[trigger] self.ui.theme_hex_inputs@[j])@ == if j < old(self).ui.theme_hex_inputs@.len() {
                        old(self).ui.theme_hex_inputs@[j]@
                    } else {
                        Seq::<char>::empty()
                    },
                *self == (App {
                    ui: UiState { theme_hex_inputs: self.ui.theme_hex_inputs, ..old(self).ui },
                    ..*old(self)
                }),
            decreases i + 1 - self.ui.theme_hex_inputs@.len(),
        {
            self.ui.theme_hex_inputs.push(String::new());
        }
        self.ui.theme_hex_inputs.set(i, value);
    }
}


impl App {
    /// Shows the details of pending write `idx`, or hides them when they are
    /// shown.
    pub fn toggle_write_confirm_expand(&mut self, idx: usize)
        ensures
            *final(self) == (App {
                ui: UiState {
                    expanded_confirm_idx: if old(self).ui.expanded_confirm_idx == Some(idx) {
                        None
                    } else {
                        Some(idx)
                    },
                    ..old(self).ui
                },
                ..*old(self)
            }),
    {
        let same = match self.ui.expanded_confirm_idx {
            Some(i) => i == idx,
            None => false,
        };
        self.ui.expanded_confirm_idx = if same {
            None
        } else {
            Some(idx)
        };
    }

    /// Arms the delete button of session `id`, or disarms it when it is armed.
    pub fn ask_delete_session(&mut self, id: u64)
        ensures
            *final(self) == (App {
                ui: UiState {
                    pending_delete_session: if old(self).ui.pending_delete_session == Some(id) {
                        None
                    } else {
                        Some(id)
                    },
                    ..old(self).ui
                },
                ..*old(self)
            }),
    {
        let same = match self.ui.pending_delete_session {
            Some(i) => i == id,
            None => false,
        };
        self.ui.pending_delete_session = if same {
            None
        } else {
            Some(id)
        };
    }

    /// Disarms the armed delete button.
    pub fn cancel_delete_session(&mut self)
        ensures
            *final(self) == (App {
                ui: UiState { pending_delete_session: None, ..old(self).ui },
                ..*old(self)
            }),
    {
        self.ui.pending_delete_session = None;
    }

    /// Turns compare mode on or off and says what it means.
    pub fn set_compare_both(&mut self, enabled: bool)
        ensures
            final(self).status@ == if enabled {
                "Compare 모드 — OpenRouter와 Tabby가 각각 답변합니다."@
            } else {
                "Single 모드 — 선택한 모델 하나만 답변합니다."@
            },
            *final(self) == (App { compare_both: enabled, status: final(self).status, ..*old(self) }),
    {
        self.compare_both = enabled;
        self.status = String::from_str(
            if enabled {
                "Compare 모드 — OpenRouter와 Tabby가 각각 답변합니다."
            } else {
                "Single 모드 — 선택한 모델 하나만 답변합니다."
            },
        );
    }

    /// Sets the agent mode and reports it.
    pub fn set_agent_mode(&mut self, mode: AgentMode)
        ensures
            final(self).status@ == mode_label(mode) + " 모드"@,
            *final(self) == (App { agent_mode: mode, status: final(self).status, ..*old(self) }),
    {
        self.agent_mode = mode;
        let mut st = String::from_str(
            match mode {
                AgentMode::Plan => "Plan",
                AgentMode::Build => "Build",
            },
        );
        st.append(" 모드");
        proof {
            reveal_strlit("Plan");
            reveal_strlit("Build");
        }
        self.status = st;
    }

    /// Switches between the Plan and Build modes and reports the new one.
    pub fn toggle_agent_mode(&mut self)
        ensures
            ({
                let m = match old(self).agent_mode {
                    AgentMode::Plan => AgentMode::Build,
                    AgentMode::Build => AgentMode::Plan,
                };
                &&& final(self).status@ == mode_label(m) + " 모드"@
                &&& *final(self) == (App { agent_mode: m, status: final(self).status, ..*old(self) })
            }),
    {
        let m = match self.agent_mode {
            AgentMode::Plan => AgentMode::Build,
            AgentMode::Build => AgentMode::Plan,
        };
        self.set_agent_mode(m);
    }

    /// Closes the palette, the settings, the write confirmation and the
    /// @-mention picker.
    pub fn close_all_overlays(&mut self)
        ensures
            !final(self).show_mention,
            final(self).mention_query@.len() == 0,
            *final(self) == (App {
                ui: UiState {
                    show_command_palette: false,
                    show_settings: false,
                    show_write_confirm: false,
                    ..old(self).ui
                },
                show_mention: false,
                mention_query: final(self).mention_query,
                mention_selected: 0,
                ..*old(self)
            }),
    {
        self.ui.show_command_palette = false;
        self.ui.show_settings = false;
        self.ui.show_write_confirm = false;
        self.close_mention();
    }

    /// Reports a failed attachment.
    pub fn file_attach_error(&mut self, msg: String)
        ensures
            *final(self) == (App { status: msg, ..*old(self) }),
    {
        self.status = msg;
    }

    /// Advances the tool-load generation of MCP server `server_name` (from 0
    /// when it has none) and returns it; answers for older generations are
    /// then recognised as stale.
    pub fn next_mcp_tool_load_generation(&mut self, server_name: &str) -> (g: u64)
        ensures
            g == next_generation(load_generation(old(self).mcp_tool_load_generations@, server_name@)),
            load_generation(final(self).mcp_tool_load_generations@, server_name@) == g,
            final(self).mcp_tool_load_generations@.drop_last() == old(self).mcp_tool_load_generations@,
            final(self).mcp_tool_load_generations@.len() > 0,
            final(self).mcp_tool_load_generations@.last().0@ == server_name@,
            final(self).mcp_tool_load_generations@.last().1 == g,
            forall|other: Seq<char>|
                other != server_name@ ==> #[trigger] load_generation(
                    final(self).mcp_tool_load_generations@,
                    other,
                ) == load_generation(old(self).mcp_tool_load_generations@, other),
            *final(self) == (App {
                mcp_tool_load_generations: final(self).mcp_tool_load_generations,
                ..*old(self)
            }),
    {
        let ghost before = self.mcp_tool_load_generations@;
        let g = next_generation_of(load_generation_of(&self.mcp_tool_load_generations, server_name));
        self.mcp_tool_load_generations.push((String::from_str(server_name), g));
        assert(self.mcp_tool_load_generations@.drop_last() =~= before);
        g
    }
}

fn next_generation_of(g: u64) -> (r: u64)
    ensures
        r == next_generation(g),
{
    g.saturating_add(1)
}

pub(crate) fn load_generation_of(entries: &Vec<(String, u64)>, name: &str) -> (r: u64)
    ensures
        r == load_generation(entries@, name@),
{
    let mut i = entries.len();
    assert(entries@.take(i as int) =~= entries@);
    while i > 0
        invariant
            i <= entries@.len(),
            load_generation(entries@, name@) == load_generation(entries@.take(i as int), name@),
        decreases i,
    {
        assert(entries@.take(i as int).drop_last() =~= entries@.take(i - 1));
        assert(entries@.take(i as int).last() == entries@[i - 1]);
        if str_equals(entries[i - 1].0.as_str(), name) {
            return entries[i - 1].1;
        }
        i = i - 1;
    }
    0
}

} // verus!
