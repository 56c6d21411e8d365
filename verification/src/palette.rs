//! The command palette: its commands, the filter typed into it, and the
//! highlighted entry moved by the keyboard or the mouse.
use crate::state::{App, UiState};
use crate::text::{contains_str, has_substring, to_lowercase, unicode_lower};
use vstd::prelude::*;

verus! {

/// What a palette command does.
#[derive(Clone, Copy, Debug, PartialEq, Eq, Structural)]
pub enum PaletteAction {
    NewChat,
    PlanMode,
    BuildMode,
    OpenSettings,
    PickCwd,
    CycleSort,
    ToggleFavorite,
}

/// A palette command: its label, a hint, and its action.
pub struct PaletteCommand {
    pub label: String,
    pub hint: String,
    pub action: PaletteAction,
}

/// The palette's commands as (label, hint) pairs, in order.
pub open spec fn palette_entries() -> Seq<(Seq<char>, Seq<char>)> {
    seq![
        ("새 채팅"@, "New chat"@),
        ("Plan 모드"@, "분석/계획 전용"@),
        ("Build 모드"@, "파일 변경·명령 실행"@),
        ("설정 열기"@, "Settings"@),
        ("작업 폴더 선택"@, "Working directory"@),
        ("모델 정렬 변경"@, "Sort models"@),
        ("즐겨찾기 토글"@, "Favorite model"@),
    ]
}

/// The palette's actions, in the order of its commands.
pub open spec fn palette_actions() -> Seq<PaletteAction> {
    seq![
        PaletteAction::NewChat,
        PaletteAction::PlanMode,
        PaletteAction::BuildMode,
        PaletteAction::OpenSettings,
        PaletteAction::PickCwd,
        PaletteAction::CycleSort,
        PaletteAction::ToggleFavorite,
    ]
}

/// Whether a command matches the lowercased filter `q`: every command matches
/// an empty filter, otherwise its lowercased label or hint contains it.
pub open spec fn command_matches(c: (Seq<char>, Seq<char>), q: Seq<char>) -> bool {
    q.len() == 0 || has_substring(unicode_lower(c.0), q) || has_substring(unicode_lower(c.1), q)
}

/// The indices of the commands among `cmds` that match the lowercased filter
/// `q`, in order.
pub open spec fn matching_commands(cmds: Seq<(Seq<char>, Seq<char>)>, q: Seq<char>) -> Seq<int>
    decreases cmds.len(),
{
    if cmds.len() == 0 {
        Seq::empty()
    } else {
        let rest = matching_commands(cmds.drop_last(), q);
        if command_matches(cmds.last(), q) {
            rest.push(cmds.len() - 1)
        } else {
            rest
        }
    }
}

/// The indices of the commands that match the palette input `input`.
pub open spec fn filtered_commands(input: Seq<char>) -> Seq<int> {
    matching_commands(palette_entries(), unicode_lower(input))
}

/// The highlighted entry of a fresh list of `n` entries: the first one, or
/// none when the list is empty.
pub open spec fn first_selection(n: nat) -> Option<usize> {
    if n > 0 {
        Some(0)
    } else {
        None
    }
}

/// The highlighted entry after moving `delta` entries from `active` in a list
/// of `n` entries, wrapping around; with none highlighted the first entry is.
pub open spec fn moved_selection(active: Option<usize>, delta: int, n: nat) -> Option<usize> {
    if n == 0 {
        None
    } else {
        match active {
            Some(i) => Some(((i + delta) % (n as int)) as usize),
            None => Some(0),
        }
    }
}

/// The highlighted entry when it is in a list of `n` entries.
pub open spec fn resolved_selection(active: Option<usize>, n: nat) -> Option<usize> {
    match active {
        Some(i) => if i < n {
            Some(i)
        } else {
            None
        },
        None => None,
    }
}

/// The palette's commands.
pub fn palette_commands() -> (r: Vec<PaletteCommand>)
    ensures
        r@.len() == palette_entries().len(),
        forall|i: int|
            0 <= i < r@.len() ==> (#[trigger] r@[i]).label@ == palette_entries()[i].0 && r@[i].hint@
                == palette_entries()[i].1 && r@[i].action == palette_actions()[i],
{
    let mut r: Vec<PaletteCommand> = Vec::new();
    r.push(PaletteCommand { label: String::from_str("새 채팅"), hint: String::from_str("New chat"), action: PaletteAction::NewChat });
    r.push(PaletteCommand { label: String::from_str("Plan 모드"), hint: String::from_str("분석/계획 전용"), action: PaletteAction::PlanMode });
    r.push(PaletteCommand { label: String::from_str("Build 모드"), hint: String::from_str("파일 변경·명령 실행"), action: PaletteAction::BuildMode });
    r.push(PaletteCommand { label: String::from_str("설정 열기"), hint: String::from_str("Settings"), action: PaletteAction::OpenSettings });
    r.push(PaletteCommand { label: String::from_str("작업 폴더 선택"), hint: String::from_str("Working directory"), action: PaletteAction::PickCwd });
    r.push(PaletteCommand { label: String::from_str("모델 정렬 변경"), hint: String::from_str("Sort models"), action: PaletteAction::CycleSort });
    r.push(PaletteCommand { label: String::from_str("즐겨찾기 토글"), hint: String::from_str("Favorite model"), action: PaletteAction::ToggleFavorite });
    r
}

/// The highlighted entry of a fresh list of `n` entries (see
/// `first_selection`).
pub fn palette_selection_for_result_count(n: usize) -> (r: Option<usize>)
    ensures
        r == first_selection(n as nat),
{
    if n > 0 {
        Some(0)
    } else {
        None
    }
}

/// The highlighted entry after moving `delta` entries (see `moved_selection`).
pub fn move_palette_selection(active: Option<usize>, delta: i32, n: usize) -> (r: Option<usize>)
    ensures
        r == moved_selection(active, delta as int, n as nat),
{
    if n == 0 {
        return None;
    }
    match active {
        None => Some(0),
        Some(i) => {
            let offset: i128 = (n as i128) * 2147483648;
            let y: i128 = i as i128 + delta as i128 + offset;
            let r: i128 = y % (n as i128);
            proof {
                assert(offset == (n as int) * 2147483648) by (nonlinear_arith)
                    requires
                        offset == (n as i128) * 2147483648,
                        0 < n <= usize::MAX,
                ;
                vstd::arithmetic::div_mod::lemma_mod_multiples_vanish(2147483648, i + delta, n as int);
                assert((n as int) * 2147483648 + (i + delta) == y);
            }
            Some(r as usize)
        },
    }
}

/// The highlighted entry when it is in a list of `n` entries.
pub fn resolve_palette_selection(active: Option<usize>, n: usize) -> (r: Option<usize>)
    ensures
        r == resolved_selection(active, n as nat),
{
    match active {
        Some(i) => if i < n {
            Some(i)
        } else {
            None
        },
        None => None,
    }
}

impl App {
    /// The indices of the palette commands that match the palette input, in
    /// order.
    pub fn filtered_palette_commands(&self) -> (r: Vec<usize>)
        ensures
            r@.len() == filtered_commands(self.ui.command_palette_input@).len(),
            forall|i: int|
                0 <= i < r@.len() ==> #[trigger] r@[i] as int == filtered_commands(
                    self.ui.command_palette_input@,
                )[i],
    {
        let cmds = palette_commands();
        let q = to_lowercase(self.ui.command_palette_input.as_str());
        let ghost entries = palette_entries();
        let mut out: Vec<usize> = Vec::new();
        let n = cmds.len();
        let mut i: usize = 0;
        assert(entries.take(0) =~= Seq::<(Seq<char>, Seq<char>)>::empty());
        while i < n
            invariant
                n == cmds@.len(),
                n == entries.len(),
                entries == palette_entries(),
                i <= n,
                q@ == unicode_lower(self.ui.command_palette_input@),
                forall|j: int|
                    0 <= j < n ==> (#[trigger] cmds@[j]).label@ == entries[j].0 && cmds@[j].hint@
                        == entries[j].1,
                out@.len() == matching_commands(entries.take(i as int), q@).len(),
                forall|j: int|
                    0 <= j < out@.len() ==> #[trigger] out@[j] as int == matching_commands(
                        entries.take(i as int),
                        q@,
                    )[j],
            decreases n - i,
        {
            let ghost before = out@;
            assert(entries.take(i + 1).drop_last() =~= entries.take(i as int));
            assert(entries.take(i + 1).last() == entries[i as int]);
            let hit = q.as_str().unicode_len() == 0 || contains_str(
                to_lowercase(cmds[i].label.as_str()).as_str(),
                q.as_str(),
            ) || contains_str(to_lowercase(cmds[i].hint.as_str()).as_str(), q.as_str());
            if hit {
                out.push(i);
            }
            i = i + 1;
        }
        assert(entries.take(n as int) =~= entries);
        out
    }

    /// Opens the command palette with an empty filter and the first command
    /// highlighted.
    pub fn open_command_palette(&mut self)
        ensures
            final(self).ui.command_palette_input@.len() == 0,
            *final(self) == (App {
                ui: UiState {
                    show_command_palette: true,
                    command_palette_input: final(self).ui.command_palette_input,
                    active_palette_idx: first_selection(palette_entries().len()),
                    ..old(self).ui
                },
                ..*old(self)
            }),
    {
        self.ui.show_command_palette = true;
        self.ui.command_palette_input = String::new();
        self.ui.active_palette_idx = palette_selection_for_result_count(palette_commands().len());
    }

    /// Closes the command palette; nothing stays highlighted or hovered.
    pub fn close_command_palette(&mut self)
        ensures
            *final(self) == (App {
                ui: UiState { show_command_palette: false, active_palette_idx: None, ..old(self).ui },
                hovered_palette_idx: None,
                ..*old(self)
            }),
    {
        self.ui.show_command_palette = false;
        self.ui.active_palette_idx = None;
        self.hovered_palette_idx = None;
    }

    /// Sets the palette filter; the first matching command is highlighted.
    pub fn update_command_palette_input(&mut self, value: String)
        ensures
            *final(self) == (App {
                ui: UiState {
                    command_palette_input: value,
                    active_palette_idx: first_selection(filtered_commands(value@).len()),
                    ..old(self).ui
                },
                ..*old(self)
            }),
    {
        self.ui.command_palette_input = value;
        let n = self.filtered_palette_commands().len();
        self.ui.active_palette_idx = palette_selection_for_result_count(n);
    }

    /// Moves the palette highlight by `delta` when the palette is open and
    /// returns false; returns true, changing nothing, when it is closed, for
    /// the @-mention picker to move instead.
    pub fn move_palette_selection_or_mention(&mut self, delta: i32) -> (to_mention: bool)
        ensures
            to_mention == !old(self).ui.show_command_palette,
            to_mention ==> *final(self) == *old(self),
            !to_mention ==> *final(self) == (App {
                ui: UiState {
                    active_palette_idx: moved_selection(
                        old(self).ui.active_palette_idx,
                        delta as int,
                        filtered_commands(old(self).ui.command_palette_input@).len(),
                    ),
                    ..old(self).ui
                },
                ..*old(self)
            }),
    {
        if self.ui.show_command_palette {
            let n = self.filtered_palette_commands().len();
            self.ui.active_palette_idx = move_palette_selection(self.ui.active_palette_idx, delta, n);
            return false;
        }
        true
    }

    /// The highlighted palette entry, when the palette is open and the entry
    /// is in its filtered list.
    pub fn resolve_active_palette_command(&self) -> (r: Option<usize>)
        ensures
            r == if self.ui.show_command_palette {
                resolved_selection(
                    self.ui.active_palette_idx,
                    filtered_commands(self.ui.command_palette_input@).len(),
                )
            } else {
                None
            },
    {
        if self.ui.show_command_palette {
            resolve_palette_selection(
                self.ui.active_palette_idx,
                self.filtered_palette_commands().len(),
            )
        } else {
            None
        }
    }

    /// Marks palette entry `idx` as hovered; a hovered entry is highlighted.
    pub fn on_palette_hovered(&mut self, idx: Option<usize>)
        ensures
            *final(self) == (App {
                hovered_palette_idx: idx,
                ui: UiState {
                    active_palette_idx: if idx is Some {
                        idx
                    } else {
                        old(self).ui.active_palette_idx
                    },
                    ..old(self).ui
                },
                ..*old(self)
            }),
    {
        self.hovered_palette_idx = idx;
        if idx.is_some() {
            self.ui.active_palette_idx = idx;
        }
    }

    /// Runs entry `idx` of the filtered palette list: the palette closes with
    /// its filter cleared and the entry's action is returned; an index past
    /// the list does nothing.
    pub fn execute_palette_command(&mut self, idx: usize) -> (r: Option<PaletteAction>)
        ensures
            ({
                let f = filtered_commands(old(self).ui.command_palette_input@);
                &&& idx >= f.len() ==> r is None && *final(self) == *old(self)
                &&& idx < f.len() ==> {
                    &&& r == Some(palette_actions()[f[idx as int]])
                    &&& final(self).ui.command_palette_input@.len() == 0
                    &&& *final(self) == (App {
                        ui: UiState {
                            show_command_palette: false,
                            active_palette_idx: None,
                            command_palette_input: final(self).ui.command_palette_input,
                            ..old(self).ui
                        },
                        hovered_palette_idx: None,
                        ..*old(self)
                    })
                }
            }),
    {
        let filtered = self.filtered_palette_commands();
        if idx >= filtered.len() {
            return None;
        }
        let k = filtered[idx];
        proof {
            lemma_matching_commands_bound(palette_entries(), crate::text::unicode_lower(self.ui.command_palette_input@));
        }
        let cmds = palette_commands();
        let action = cmds[k].action;
        self.close_command_palette();
        self.ui.command_palette_input = String::new();
        Some(action)
    }
}

proof fn lemma_matching_commands_bound(cmds: Seq<(Seq<char>, Seq<char>)>, q: Seq<char>)
    ensures
        forall|j: int|
            0 <= j < matching_commands(cmds, q).len() ==> 0 <= #[trigger] matching_commands(
                cmds,
                q,
            )[j] < cmds.len(),
    decreases cmds.len(),
{
    if cmds.len() > 0 {
        lemma_matching_commands_bound(cmds.drop_last(), q);
        let rest = matching_commands(cmds.drop_last(), q);
        assert forall|j: int| 0 <= j < matching_commands(cmds, q).len() implies 0
            <= #[trigger] matching_commands(cmds, q)[j] < cmds.len() by {
            if j < rest.len() {
                assert(matching_commands(cmds, q)[j] == rest[j]);
            }
        }
    }
}

} // verus!
