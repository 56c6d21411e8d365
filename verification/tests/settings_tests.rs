use codewarp::paths::Platform;
use codewarp::state::App;

#[test]
fn update_settings_stale_tabby_retry_message_is_ignored() {
    let mut app = App::new(Platform::Windows);
    app.tabby_retry_generation = 10;
    app.status = "keep".into();

    let fetch = app.retry_fetch_tabby_models(9);

    assert!(fetch.is_none());
    assert_eq!(app.status, "keep");
    assert_eq!(app.tabby_retry_generation, 10);
}

#[test]
fn update_settings_manual_tabby_fetch_bumps_retry_generation() {
    let mut app = App::new(Platform::Windows);
    app.tabby_retry_generation = 7;
    app.tabby_url_input = "http://localhost:5000".into();

    let _ = app.fetch_tabby_models();

    assert_eq!(app.tabby_retry_generation, 8);
}

#[test]
fn update_settings_tabby_url_change_invalidates_retry_generation() {
    let mut app = App::new(Platform::Windows);
    app.tabby_retry_generation = 11;
    app.tabby_connect_retry_left = 2;

    app.set_tabby_url("http://localhost:5001".to_string());

    assert_eq!(app.tabby_retry_generation, 12);
    assert_eq!(app.tabby_connect_retry_left, 0);
}

#[test]
fn update_settings_tabby_token_change_invalidates_retry_generation() {
    let mut app = App::new(Platform::Windows);
    app.tabby_retry_generation = 5;
    app.tabby_connect_retry_left = 1;

    app.set_tabby_token("secret".to_string());

    assert_eq!(app.tabby_retry_generation, 6);
    assert_eq!(app.tabby_connect_retry_left, 0);
}

#[test]
fn update_settings_clear_tabby_invalidates_retry_generation() {
    let mut app = App::new(Platform::Windows);
    app.tabby_retry_generation = 3;
    app.tabby_connect_retry_left = 2;
    app.tabby_url_input = "http://localhost:5000".into();
    app.tabby_token_input = "secret".into();

    let _ = app.clear_tabby_settings();

    assert_eq!(app.tabby_retry_generation, 4);
    assert_eq!(app.tabby_connect_retry_left, 0);
    assert!(app.tabby_url_input.is_empty());
    assert!(app.tabby_token_input.is_empty());
}

#[test]
fn tests_stale_tabby_retry_message_is_ignored() {
    let mut app = App::new(Platform::Windows);
    app.tabby_retry_generation = 10;
    app.status = "keep".into();

    let fetch = app.retry_fetch_tabby_models(9);

    assert!(fetch.is_none());
    assert_eq!(app.status, "keep");
    assert_eq!(app.tabby_retry_generation, 10);
}

#[test]
fn tests_manual_tabby_fetch_bumps_retry_generation() {
    let mut app = App::new(Platform::Windows);
    app.tabby_retry_generation = 7;
    app.tabby_url_input = "http://localhost:5000".into();

    let _ = app.fetch_tabby_models();

    assert_eq!(app.tabby_retry_generation, 8);
}

#[test]
fn tests_tabby_url_change_invalidates_retry_generation() {
    let mut app = App::new(Platform::Windows);
    app.tabby_retry_generation = 11;
    app.tabby_connect_retry_left = 2;

    app.set_tabby_url("http://localhost:5001".to_string());

    assert_eq!(app.tabby_retry_generation, 12);
    assert_eq!(app.tabby_connect_retry_left, 0);
}

#[test]
fn tests_tabby_token_change_invalidates_retry_generation() {
    let mut app = App::new(Platform::Windows);
    app.tabby_retry_generation = 5;
    app.tabby_connect_retry_left = 1;

    app.set_tabby_token("secret".to_string());

    assert_eq!(app.tabby_retry_generation, 6);
    assert_eq!(app.tabby_connect_retry_left, 0);
}

#[test]
fn tests_clear_tabby_invalidates_retry_generation() {
    let mut app = App::new(Platform::Windows);
    app.tabby_retry_generation = 3;
    app.tabby_connect_retry_left = 2;
    app.tabby_url_input = "http://localhost:5000".into();
    app.tabby_token_input = "secret".into();

    let _ = app.clear_tabby_settings();

    assert_eq!(app.tabby_retry_generation, 4);
    assert_eq!(app.tabby_connect_retry_left, 0);
    assert!(app.tabby_url_input.is_empty());
    assert!(app.tabby_token_input.is_empty());
}

#[test]
fn update_chat_toggle_compare_mode_updates_status() {
    let mut app = App::new(Platform::Windows);

    app.set_compare_both(true);

    assert!(app.compare_both);
    assert!(app.status.contains("Compare 모드"), "got: {}", app.status);

    app.set_compare_both(false);

    assert!(!app.compare_both);
    assert!(app.status.contains("Single 모드"), "got: {}", app.status);
}

#[test]
fn update_settings_ui_toggle_compare_mode_updates_status() {
    let mut app = App::new(Platform::Windows);

    app.set_compare_both(true);

    assert!(app.compare_both);
    assert!(app.status.contains("Compare 모드"), "got: {}", app.status);

    app.set_compare_both(false);

    assert!(!app.compare_both);
    assert!(app.status.contains("Single 모드"), "got: {}", app.status);
}
