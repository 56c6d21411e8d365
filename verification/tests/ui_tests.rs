use codewarp::model::{Block, BlockBody, ViewMode};
use codewarp::paths::Platform;
use codewarp::state::App;
use codewarp::ui_events::TldrFileEntry;
use codewarp::ui_events::{count_lines, tldr_entry};

#[test]
fn skeleton_tick_cycles_through_four_phases() {
    let mut app = App::new(Platform::Unix);
    assert_eq!(app.ui.skeleton_phase, 0);
    let mut seen = Vec::new();
    for _ in 0..5 {
        app.skeleton_tick();
        seen.push(app.ui.skeleton_phase);
    }
    assert_eq!(seen, vec![1, 2, 3, 0, 1]);
}

#[test]
fn code_block_hover_is_a_set() {
    let mut app = App::new(Platform::Unix);
    app.set_code_block_hovered(7, true);
    app.set_code_block_hovered(7, true);
    app.set_code_block_hovered(9, true);
    assert_eq!(app.ui.hovered_code_blocks, vec![7, 9]);
    app.set_code_block_hovered(7, false);
    assert_eq!(app.ui.hovered_code_blocks, vec![9]);
    app.set_code_block_hovered(3, false);
    assert_eq!(app.ui.hovered_code_blocks, vec![9]);
}

#[test]
fn dismiss_toast_clears_it() {
    let mut app = App::new(Platform::Unix);
    app.ui.toast = Some("saved".into());
    app.dismiss_toast();
    assert!(app.ui.toast.is_none());
}

#[test]
fn tldr_view_toggles_and_asks_for_entries_once() {
    let mut app = App::new(Platform::Unix);
    app.blocks.push(Block {
        id: 5,
        body: BlockBody::Assistant("```rust\n// path: a.rs\n```".into()),
        view_mode: ViewMode::Rendered,
        model: None,
    });
    assert!(app.toggle_tldr_view(5));
    assert_eq!(app.ui.tldr_expanded, vec![5]);
    app.store_tldr_entries(
        5,
        vec![TldrFileEntry { path: "a.rs".into(), is_new_file: true, proposed_lines: 1, existing_lines: 0 }],
    );
    app.store_tldr_entries(
        5,
        vec![TldrFileEntry { path: "b.rs".into(), is_new_file: false, proposed_lines: 2, existing_lines: 3 }],
    );
    assert_eq!(app.ui.tldr_data.len(), 1);
    assert_eq!(app.ui.tldr_data[0].1[0].path, "a.rs");
    assert!(!app.toggle_tldr_view(5));
    assert!(app.ui.tldr_expanded.is_empty());
    assert!(!app.toggle_tldr_view(5));
    assert_eq!(app.ui.tldr_expanded, vec![5]);
    assert!(!app.toggle_tldr_view(6));
    assert_eq!(app.ui.tldr_expanded, vec![5, 6]);
}

#[test]
fn file_tree_folder_toggles_by_path_equality() {
    let mut app = App::new(Platform::Unix);
    app.toggle_file_tree_dir("src/util".into());
    assert_eq!(app.file_tree_expanded, vec!["src/util".to_string()]);
    app.toggle_file_tree_dir("src/util/".into());
    assert!(app.file_tree_expanded.is_empty());
    app.toggle_file_tree_dir("src".into());
    app.toggle_file_tree_dir("docs".into());
    app.toggle_file_tree_dir("./src".into());
    assert_eq!(app.file_tree_expanded, vec!["src".to_string(), "docs".to_string(), "./src".to_string()]);
    app.toggle_file_tree_dir("src/".into());
    assert_eq!(app.file_tree_expanded, vec!["docs".to_string(), "./src".to_string()]);
}

#[test]
fn count_lines_follows_str_lines() {
    for s in ["", "a", "a\n", "a\nb", "a\r\nb\r\n", "\n\n", "\n", "x\n\ny"] {
        assert_eq!(count_lines(s), s.lines().count(), "{s:?}");
    }
    assert_eq!(count_lines("a\nb\nc"), 3);
}

#[test]
fn tldr_entry_reports_new_and_existing_files() {
    let e = tldr_entry("a.rs".into(), "fn a() {}\n", false, None);
    assert!(e.is_new_file);
    assert_eq!((e.proposed_lines, e.existing_lines), (1, 0));
    let e = tldr_entry("b.rs".into(), "x\ny\nz", true, Some("1\n2\n".into()));
    assert!(!e.is_new_file);
    assert_eq!((e.proposed_lines, e.existing_lines), (3, 2));
    let e = tldr_entry("c.rs".into(), "", true, None);
    assert!(!e.is_new_file);
    assert_eq!((e.proposed_lines, e.existing_lines), (0, 0));
}
