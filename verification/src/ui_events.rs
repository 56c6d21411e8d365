//! Interface bookkeeping that only the application's own state takes part in:
//! the loading skeleton's animation, the code blocks under the mouse, the
//! toast, and which change summaries are expanded.
use crate::chat::{block_index, block_position};
use crate::state::{App, UiState};
use vstd::prelude::*;

verus! {

/// What a change summary shows of one proposed file.
pub struct TldrFileEntry {
    pub path: String,
    pub is_new_file: bool,
    pub proposed_lines: usize,
    pub existing_lines: usize,
}

/// The number of line breaks in `s`.
pub open spec fn count_breaks(s: Seq<char>) -> nat
    decreases s.len(),
{
    if s.len() == 0 {
        0
    } else {
        count_breaks(s.drop_last()) + if s.last() == '\n' {
            1nat
        } else {
            0nat
        }
    }
}

proof fn lemma_count_breaks_le(s: Seq<char>)
    ensures
        count_breaks(s) <= s.len(),
    decreases s.len(),
{
    if s.len() > 0 {
        lemma_count_breaks_le(s.drop_last());
    }
}

/// The number of lines `str::lines` finds in `s`: one per line break, and one
/// more for text after the last break.
pub open spec fn line_count(s: Seq<char>) -> nat {
    count_breaks(s) + if s.len() > 0 && s.last() != '\n' {
        1nat
    } else {
        0nat
    }
}

/// The number of lines of `s` (see `line_count`).
pub fn count_lines(s: &str) -> (r: usize)
    ensures
        r == line_count(s@),
{
    let n = s.unicode_len();
    let mut breaks: usize = 0;
    let mut i: usize = 0;
    while i < n
        invariant
            n == s@.len(),
            i <= n,
            breaks == count_breaks(s@.take(i as int)),
            breaks <= i,
        decreases n - i,
    {
        assert(s@.take(i + 1).drop_last() =~= s@.take(i as int));
        if s.get_char(i) == '\n' {
            breaks = breaks + 1;
        }
        i = i + 1;
    }
    assert(s@.take(n as int) =~= s@);
    if n > 0 && s.get_char(n - 1) != '\n' {
        proof {
            lemma_count_breaks_le(s@.drop_last());
        }
        breaks + 1
    } else {
        breaks
    }
}

/// The summary entry of a proposed file `path` with content `proposed`:
/// when no file `path` exists it is new and has no lines on disk; else it
/// has the lines of its text `existing`, none when it could not be read.
pub fn tldr_entry(path: String, proposed: &str, is_file: bool, existing: Option<String>) -> (r: TldrFileEntry)
    ensures
        r.path == path,
        r.is_new_file == !is_file,
        r.proposed_lines == line_count(proposed@),
        r.existing_lines == (match existing {
            Some(t) if is_file => line_count(t@),
            _ => 0,
        }),
{
    let proposed_lines = count_lines(proposed);
    let existing_lines = if is_file {
        match &existing {
            Some(t) => count_lines(t.as_str()),
            None => 0,
        }
    } else {
        0
    };
    TldrFileEntry { path, is_new_file: !is_file, proposed_lines, existing_lines }
}

/// Whether no id occurs twice in `s`, so that `s` stands for a set.
pub open spec fn no_dup_ids(s: Seq<u64>) -> bool {
    forall|i: int, j: int| 0 <= i < j < s.len() ==> s[i] != s[j]
}

/// The position of `x` in `v`.
pub fn find_id(v: &Vec<u64>, x: u64) -> (r: Option<usize>)
    ensures
        match r {
            Some(i) => i < v@.len() && v@[i as int] == x,
            None => !v@.contains(x),
        },
{
    let mut i: usize = 0;
    while i < v.len()
        invariant
            i <= v@.len(),
            forall|j: int| 0 <= j < i ==> v@[j] != x,
        decreases v@.len() - i,
    {
        if v[i] == x {
            return Some(i);
        }
        i = i + 1;
    }
    None
}

/// Adds `x` to the id set `v`.
pub fn id_set_insert(v: &mut Vec<u64>, x: u64)
    requires
        no_dup_ids(old(v)@),
    ensures
        no_dup_ids(final(v)@),
        final(v)@.to_set() == old(v)@.to_set().insert(x),
{
    if find_id(v, x).is_none() {
        v.push(x);
        assert(v@.to_set() =~= old(v)@.to_set().insert(x)) by {
            assert(forall|y: u64| v@.contains(y) <==> (old(v)@.contains(y) || y == x)) by {
                assert forall|y: u64| old(v)@.contains(y) implies v@.contains(y) by {
                    let j = choose|j: int| 0 <= j < old(v)@.len() && old(v)@[j] == y;
                    assert(v@[j] == y);
                }
                assert(v@[v@.len() - 1] == x);
            }
        }
    } else {
        assert(v@.to_set() =~= old(v)@.to_set().insert(x));
    }
}

/// Takes `x` out of the id set `v`; whether it was there.
pub fn id_set_remove(v: &mut Vec<u64>, x: u64) -> (was: bool)
    requires
        no_dup_ids(old(v)@),
    ensures
        was == old(v)@.contains(x),
        no_dup_ids(final(v)@),
        final(v)@.to_set() == old(v)@.to_set().remove(x),
{
    match find_id(v, x) {
        None => {
            assert(v@.to_set() =~= old(v)@.to_set().remove(x));
            false
        },
        Some(i) => {
            let ghost o = v@;
            v.remove(i);
            assert(v@ =~= o.remove(i as int));
            assert forall|a: int, b: int| 0 <= a < b < v@.len() implies v@[a] != v@[b] by {
                let a2 = if a < i { a } else { a + 1 };
                let b2 = if b < i { b } else { b + 1 };
                assert(v@[a] == o[a2] && v@[b] == o[b2]);
            }
            assert(v@.to_set() =~= o.to_set().remove(x)) by {
                assert forall|y: u64| v@.contains(y) <==> (o.contains(y) && y != x) by {
                    if v@.contains(y) {
                        let j = choose|j: int| 0 <= j < v@.len() && v@[j] == y;
                        let j2 = if j < i { j } else { j + 1 };
                        assert(o[j2] == y);
                        assert(j2 != i);
                    }
                    if o.contains(y) && y != x {
                        let j = choose|j: int| 0 <= j < o.len() && o[j] == y;
                        assert(j != i);
                        let j1 = if j < i { j } else { j - 1 };
                        assert(v@[j1] == y);
                    }
                }
            }
            true
        },
    }
}

/// Whether `data` holds entries for block `id`.
pub open spec fn has_tldr(data: Seq<(u64, Vec<TldrFileEntry>)>, id: u64) -> bool {
    exists|i: int| 0 <= i < data.len() && data[i].0 == id
}

/// Whether `data` holds entries for block `id` (see `has_tldr`).
pub fn has_tldr_entries(data: &Vec<(u64, Vec<TldrFileEntry>)>, id: u64) -> (r: bool)
    ensures
        r == has_tldr(data@, id),
{
    let mut i: usize = 0;
    while i < data.len()
        invariant
            i <= data@.len(),
            forall|j: int| 0 <= j < i ==> data@[j].0 != id,
        decreases data@.len() - i,
    {
        if data[i].0 == id {
            return true;
        }
        i = i + 1;
    }
    false
}

/// The interface state's own invariant: the id lists stand for sets.
pub open spec fn ui_wf(u: UiState) -> bool {
    &&& no_dup_ids(u.hovered_code_blocks@)
    &&& no_dup_ids(u.tldr_expanded@)
}

impl App {
    /// Advances the loading skeleton's animation to the next of its four
    /// phases.
    pub fn skeleton_tick(&mut self)
        ensures
            final(self).ui.skeleton_phase == (old(self).ui.skeleton_phase + 1) % 4,
            *final(self) == (App {
                ui: UiState { skeleton_phase: final(self).ui.skeleton_phase, ..old(self).ui },
                ..*old(self)
            }),
    {
        self.ui.skeleton_phase = ((self.ui.skeleton_phase as u32 + 1) % 4) as u8;
    }

    /// Records that the mouse entered (`hovered`) or left code block `id`.
    pub fn set_code_block_hovered(&mut self, id: u64, hovered: bool)
        requires
            ui_wf(old(self).ui),
        ensures
            ui_wf(final(self).ui),
            hovered ==> final(self).ui.hovered_code_blocks@.to_set()
                == old(self).ui.hovered_code_blocks@.to_set().insert(id),
            !hovered ==> final(self).ui.hovered_code_blocks@.to_set()
                == old(self).ui.hovered_code_blocks@.to_set().remove(id),
            *final(self) == (App {
                ui: UiState { hovered_code_blocks: final(self).ui.hovered_code_blocks, ..old(self).ui },
                ..*old(self)
            }),
    {
        if hovered {
            id_set_insert(&mut self.ui.hovered_code_blocks, id);
        } else {
            id_set_remove(&mut self.ui.hovered_code_blocks, id);
        }
    }

    /// Closes the toast.
    pub fn dismiss_toast(&mut self)
        ensures
            final(self).ui.toast is None,
            *final(self) == (App { ui: UiState { toast: None, ..old(self).ui }, ..*old(self) }),
    {
        self.ui.toast = None;
    }

    /// Expands or collapses the change summary of block `id`. Returns whether
    /// the summary was just expanded for a block that exists and has no
    /// entries yet, so that the caller computes them (`store_tldr_entries`).
    pub fn toggle_tldr_view(&mut self, id: u64) -> (compute: bool)
        requires
            ui_wf(old(self).ui),
        ensures
            ui_wf(final(self).ui),
            old(self).ui.tldr_expanded@.contains(id) ==> final(self).ui.tldr_expanded@.to_set()
                == old(self).ui.tldr_expanded@.to_set().remove(id) && !compute,
            !old(self).ui.tldr_expanded@.contains(id) ==> final(self).ui.tldr_expanded@.to_set()
                == old(self).ui.tldr_expanded@.to_set().insert(id) && compute == (!has_tldr(
                old(self).ui.tldr_data@,
                id,
            ) && block_index(old(self).blocks@, id) >= 0),
            *final(self) == (App {
                ui: UiState { tldr_expanded: final(self).ui.tldr_expanded, ..old(self).ui },
                ..*old(self)
            }),
    {
        if id_set_remove(&mut self.ui.tldr_expanded, id) {
            return false;
        }
        id_set_insert(&mut self.ui.tldr_expanded, id);
        if has_tldr_entries(&self.ui.tldr_data, id) {
            return false;
        }
        proof {
            crate::seqs::lemma_first_where(self.blocks@, crate::chat::has_id(id));
        }
        block_position(&self.blocks, id).is_some()
    }

    /// Keeps the computed summary `entries` of block `id`, unless entries for
    /// it are kept already.
    pub fn store_tldr_entries(&mut self, id: u64, entries: Vec<TldrFileEntry>)
        ensures
            has_tldr(old(self).ui.tldr_data@, id) ==> *final(self) == *old(self),
            !has_tldr(old(self).ui.tldr_data@, id) ==> final(self).ui.tldr_data@
                == old(self).ui.tldr_data@.push((id, entries)),
            *final(self) == (App {
                ui: UiState { tldr_data: final(self).ui.tldr_data, ..old(self).ui },
                ..*old(self)
            }),
    {
        if !has_tldr_entries(&self.ui.tldr_data, id) {
            self.ui.tldr_data.push((id, entries));
        }
    }
}

} // verus!
