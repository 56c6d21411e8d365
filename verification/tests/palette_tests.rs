use codewarp::paths::Platform;
use codewarp::state::App;

#[test]
fn palette_keyboard_moves_active_selection() {
    let mut app = App::new(Platform::Windows);

    app.open_command_palette();
    let _ = app.move_palette_selection_or_mention(1);

    assert_eq!(app.ui.active_palette_idx, Some(1));
}

#[test]
fn palette_keyboard_enter_resolves_active_command() {
    let mut app = App::new(Platform::Windows);

    app.open_command_palette();
    let _ = app.move_palette_selection_or_mention(1);
    let activated = app.resolve_active_palette_command();

    assert_eq!(activated, Some(1));
}

#[test]
fn palette_keyboard_closed_is_noop() {
    let mut app = App::new(Platform::Windows);
    let initial_active = app.ui.active_palette_idx;

    let to_mention = app.move_palette_selection_or_mention(1);

    assert!(to_mention);
    assert_eq!(app.ui.active_palette_idx, initial_active);
}

#[test]
fn palette_keyboard_empty_enter_is_noop() {
    let mut app = App::new(Platform::Windows);

    app.open_command_palette();
    app.update_command_palette_input("no matching command".into());
    let activated = app.resolve_active_palette_command();

    assert!(app.ui.show_command_palette);
    assert_eq!(app.ui.active_palette_idx, None);
    assert!(activated.is_none());
}

#[test]
fn palette_filter_resets_active_selection_through_dispatch() {
    let mut app = App::new(Platform::Windows);

    app.open_command_palette();
    let _ = app.move_palette_selection_or_mention(1);
    app.update_command_palette_input("설정".into());

    assert_eq!(app.ui.active_palette_idx, Some(0));
}

#[test]
fn palette_mouse_entry_updates_active_and_hover_state() {
    let mut app = App::new(Platform::Windows);

    app.open_command_palette();
    app.on_palette_hovered(Some(2));

    assert_eq!(app.ui.active_palette_idx, Some(2));
    assert_eq!(app.hovered_palette_idx, Some(2));
}

#[test]
fn palette_close_clears_active_and_hover_state() {
    let mut app = App::new(Platform::Windows);

    app.open_command_palette();
    app.on_palette_hovered(Some(2));
    app.close_command_palette();

    assert_eq!(app.ui.active_palette_idx, None);
    assert_eq!(app.hovered_palette_idx, None);
}
