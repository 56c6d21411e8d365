use codewarp::file_tree::{order_dir_entries, tree_has_room};
use codewarp::model::{Block, BlockBody, LlmProvider, ModelOption, ViewMode};
use codewarp::paths::Platform;
use codewarp::state::App;

fn new_app() -> App {
    App::new(Platform::Windows)
}

fn block(id: u64, body: BlockBody, view_mode: ViewMode) -> Block {
    Block { id, body, view_mode, model: None }
}

#[test]
fn toggling_a_raw_reply_renders_it_and_hands_out_its_text() {
    let mut app = new_app();
    app.blocks = vec![block(42, BlockBody::Assistant("**bold** text".into()), ViewMode::Raw)];

    let text = app.toggle_block_view(42);

    assert_eq!(app.blocks[0].view_mode, ViewMode::Rendered);
    assert_eq!(text.as_deref(), Some("**bold** text"));

    assert!(app.toggle_block_view(42).is_none());
    assert_eq!(app.blocks[0].view_mode, ViewMode::Raw);
    assert!(app.toggle_block_view(7).is_none());
}

#[test]
fn copying_prefers_the_text_still_streaming() {
    let mut app = new_app();
    app.blocks = vec![block(1, BlockBody::User("question".into()), ViewMode::Rendered)];
    assert_eq!(app.copy_block(1).as_deref(), Some("question"));
    app.streaming_block_id = Some(1);
    app.streaming_raw = "partial".into();
    assert_eq!(app.copy_block(1).as_deref(), Some("partial"));
    assert!(app.copy_block(9).is_none());
}

#[test]
fn javascript_links_are_blocked() {
    let mut app = new_app();
    assert!(!app.check_link("JavaScript:alert(1)"));
    assert_eq!(app.status, "차단된 링크 스킴입니다.");
    assert!(app.check_link("https://example.com"));
    app.on_link_opened("https://example.com", Ok(()));
    assert_eq!(app.status, "브라우저에서 열기: https://example.com");
    app.on_link_opened("https://example.com", Err("no browser".into()));
    assert_eq!(app.status, "링크 열기 실패: no browser");
}

#[test]
fn favourites_toggle_and_are_stored() {
    let mut app = new_app();
    assert!(app.toggle_favorite().is_none());
    app.model_options = vec![ModelOption {
        id: "m".into(),
        provider: LlmProvider::OpenRouter,
        provider_label: String::new(),
        ko_friendly: false,
        favorite: false,
        context_length: None,
    }];
    app.selected_model = Some("m".into());

    let stored = app.toggle_favorite().expect("favourites to store");
    assert_eq!(stored, vec!["m".to_string()]);
    assert!(app.model_options[0].favorite);

    let stored = app.toggle_favorite().expect("favourites to store");
    assert!(stored.is_empty());
    assert!(!app.model_options[0].favorite);
}

fn entry(name: &str, is_dir: bool) -> codewarp::file_tree::DirEntryInfo {
    codewarp::file_tree::DirEntryInfo { name: name.into(), is_dir }
}

#[test]
fn directory_entries_list_folders_first_by_name_and_skip_hidden_ones() {
    let (dirs, files) = order_dir_entries(vec![
        entry("zzz_dir", true),
        entry("aaa_file.txt", false),
        entry(".hidden", true),
        entry("target", true),
        entry("node_modules", true),
        entry("Beta.rs", false),
        entry("alpha.md", false),
        entry("image.png", false),
        entry("Src", true),
    ]);
    let dir_names: Vec<&str> = dirs.iter().map(|e| e.name.as_str()).collect();
    let file_names: Vec<&str> = files.iter().map(|e| e.name.as_str()).collect();
    assert_eq!(dir_names, vec!["Src", "zzz_dir"]);
    assert_eq!(file_names, vec!["aaa_file.txt", "alpha.md", "Beta.rs"]);
}

#[test]
fn the_tree_stops_at_its_depth_and_size() {
    assert!(tree_has_room(4, 499));
    assert!(!tree_has_room(5, 0));
    assert!(!tree_has_room(0, 500));
}

#[test]
fn diff_lines_mark_kept_removed_and_added_lines() {
    let lines = codewarp::diff::render_diff_lines("a\nb\nc\n", "a\nx\nc\n").expect("diff shown");
    assert_eq!(lines, vec!["  a", "- b", "+ x", "  c"]);
}

#[test]
fn long_diff_lines_are_cut_and_long_diffs_end_with_a_note() {
    let long = "y".repeat(250);
    let lines = codewarp::diff::render_diff_lines("", &format!("{long}\n")).expect("diff shown");
    assert_eq!(lines, vec![format!("+ {}…", "y".repeat(200))]);

    let old: String = (0..450).map(|i| format!("{i}\n")).collect();
    let lines = codewarp::diff::render_diff_lines(&old, &old).expect("diff shown");
    assert_eq!(lines.len(), 401);
    assert_eq!(lines[400], "…(diff 라인 400+ 생략)");

    // A cut inside a two-byte character cannot be shown.
    let wide = format!("y{}\n", "é".repeat(150));
    assert!(codewarp::diff::render_diff_lines("", &wide).is_none());
}

#[test]
fn uncuttable_line_past_the_shown_changes_still_shows_the_diff() {
    let old: String = (0..410).map(|i| format!("{i}\n")).collect();
    let new = format!("{old}y{}\n", "é".repeat(150));
    let lines = codewarp::diff::render_diff_lines(&old, &new).expect("diff shown");
    assert_eq!(lines.len(), 401);
    assert_eq!(lines[0], "  0");
    assert_eq!(lines[400], "…(diff 라인 400+ 생략)");
}
