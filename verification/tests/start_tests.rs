use codewarp::engine::TABBY_API_DEFAULT_PORT;
use codewarp::model::InferenceEngine;
use codewarp::paths::Platform;
use codewarp::start::StartFacts;
use codewarp::state::App;
use codewarp::tabbyapi::PathKind;

fn facts(binary_kind: PathKind) -> StartFacts {
    StartFacts {
        default_port: TABBY_API_DEFAULT_PORT,
        engine_label: "TabbyAPI".into(),
        binary_kind,
        parsed_command: Ok(Vec::new()),
        tabbyapi_model_dir: None,
        model_path_exists: false,
        downloaded: Vec::new(),
        engine_command: None,
        dir_binary: None,
    }
}

#[test]
fn update_inference_tabbyapi_start_button_can_show_missing_launcher_error() {
    let mut app = App::new(Platform::Windows);
    app.inference_engine = InferenceEngine::TabbyApi;
    app.inference_selected_model = r"C:\models\Local-EXL2".into();
    app.inference_binary_path.clear();

    assert!(!app.can_start_inference(&Vec::new()));
    assert!(app.can_attempt_start_inference(&Vec::new()));

    let _ = app.start_inference(&facts(PathKind::Missing));

    assert!(app.status.contains("Start.bat"), "got: {}", app.status);
    assert!(
        app.status.contains("TabbyAPI 런타임"),
        "got: {}",
        app.status
    );
    assert!(app.status.contains("먼저 설치"), "got: {}", app.status);
    assert!(app.inference_pid.is_none());
}

#[test]
fn tabby_launcher_tests_tabbyapi_start_button_can_show_missing_launcher_error() {
    let mut app = App::new(Platform::Windows);
    app.inference_engine = InferenceEngine::TabbyApi;
    app.inference_selected_model = r"C:\models\Local-EXL2".into();
    app.inference_binary_path.clear();

    assert!(!app.can_start_inference(&Vec::new()));
    assert!(app.can_attempt_start_inference(&Vec::new()));

    let _ = app.start_inference(&facts(PathKind::Missing));

    assert!(app.status.contains("Start.bat"), "got: {}", app.status);
    assert!(
        app.status.contains("TabbyAPI 런타임"),
        "got: {}",
        app.status
    );
    assert!(app.status.contains("먼저 설치"), "got: {}", app.status);
    assert!(app.inference_pid.is_none());
}

#[test]
fn update_inference_tabbyapi_start_rejects_tabbyml_binary_with_specific_guidance() {
    let mut app = App::new(Platform::Windows);
    app.inference_engine = InferenceEngine::TabbyApi;
    app.inference_selected_model = r"C:\models\Local-EXL2".into();
    app.inference_binary_path = r"C:\tools\tabby.exe".into();

    let _ = app.start_inference(&facts(PathKind::Missing));

    assert!(app.status.contains("TabbyML CLI"), "got: {}", app.status);
    assert!(app.status.contains("EXL2"), "got: {}", app.status);
    assert!(app.status.contains("Start.bat"), "got: {}", app.status);
    assert!(app.inference_pid.is_none());
}

#[test]
fn tabby_launcher_tests_tabbyapi_start_rejects_tabbyml_binary_with_specific_guidance() {
    let mut app = App::new(Platform::Windows);
    app.inference_engine = InferenceEngine::TabbyApi;
    app.inference_selected_model = r"C:\models\Local-EXL2".into();
    app.inference_binary_path = r"C:\tools\tabby.exe".into();

    let _ = app.start_inference(&facts(PathKind::Missing));

    assert!(app.status.contains("TabbyML CLI"), "got: {}", app.status);
    assert!(app.status.contains("EXL2"), "got: {}", app.status);
    assert!(app.status.contains("Start.bat"), "got: {}", app.status);
    assert!(app.inference_pid.is_none());
}

#[test]
fn update_inference_tabbyapi_start_rejects_tabbyml_cli_without_extension() {
    let mut app = App::new(Platform::Windows);
    app.inference_engine = InferenceEngine::TabbyApi;
    app.inference_selected_model = r"C:\models\Local-EXL2".into();
    app.inference_binary_path = r"C:\tools\tabby".into();

    let _ = app.start_inference(&facts(PathKind::Missing));

    assert!(app.status.contains("TabbyML CLI"), "got: {}", app.status);
    assert!(app.status.contains("EXL2"), "got: {}", app.status);
    assert!(app.status.contains("Start.bat"), "got: {}", app.status);
    assert!(app.inference_pid.is_none());
}

#[test]
fn tabby_launcher_tests_tabbyapi_start_rejects_tabbyml_cli_without_extension() {
    let mut app = App::new(Platform::Windows);
    app.inference_engine = InferenceEngine::TabbyApi;
    app.inference_selected_model = r"C:\models\Local-EXL2".into();
    app.inference_binary_path = r"C:\tools\tabby".into();

    let _ = app.start_inference(&facts(PathKind::Missing));

    assert!(app.status.contains("TabbyML CLI"), "got: {}", app.status);
    assert!(app.status.contains("EXL2"), "got: {}", app.status);
    assert!(app.status.contains("Start.bat"), "got: {}", app.status);
    assert!(app.inference_pid.is_none());
}

#[test]
fn update_inference_tabbyapi_start_rejects_tabbyml_cli_cmd_launcher() {
    let mut app = App::new(Platform::Windows);
    app.inference_engine = InferenceEngine::TabbyApi;
    app.inference_selected_model = r"C:\models\Local-EXL2".into();
    app.inference_binary_path = r"C:\tools\tabby.cmd".into();

    let _ = app.start_inference(&facts(PathKind::Missing));

    assert!(app.status.contains("TabbyML CLI"), "got: {}", app.status);
    assert!(app.status.contains("tabby.cmd"), "got: {}", app.status);
    assert!(app.status.contains("Start.bat"), "got: {}", app.status);
    assert!(app.inference_pid.is_none());
}

#[test]
fn tabby_launcher_tests_tabbyapi_start_rejects_tabbyml_cli_cmd_launcher() {
    let mut app = App::new(Platform::Windows);
    app.inference_engine = InferenceEngine::TabbyApi;
    app.inference_selected_model = r"C:\models\Local-EXL2".into();
    app.inference_binary_path = r"C:\tools\tabby.cmd".into();

    let _ = app.start_inference(&facts(PathKind::Missing));

    assert!(app.status.contains("TabbyML CLI"), "got: {}", app.status);
    assert!(app.status.contains("tabby.cmd"), "got: {}", app.status);
    assert!(app.status.contains("Start.bat"), "got: {}", app.status);
    assert!(app.inference_pid.is_none());
}

#[test]
fn update_inference_tabbyapi_start_rejects_tabbyml_cli_bat_launcher() {
    let mut app = App::new(Platform::Windows);
    app.inference_engine = InferenceEngine::TabbyApi;
    app.inference_selected_model = r"C:\models\Local-EXL2".into();
    app.inference_binary_path = r"C:\tools\tabby.bat".into();

    let _ = app.start_inference(&facts(PathKind::Missing));

    assert!(app.status.contains("TabbyML CLI"), "got: {}", app.status);
    assert!(app.status.contains("tabby.bat"), "got: {}", app.status);
    assert!(app.status.contains("Start.bat"), "got: {}", app.status);
    assert!(app.inference_pid.is_none());
}

#[test]
fn tabby_launcher_tests_tabbyapi_start_rejects_tabbyml_cli_bat_launcher() {
    let mut app = App::new(Platform::Windows);
    app.inference_engine = InferenceEngine::TabbyApi;
    app.inference_selected_model = r"C:\models\Local-EXL2".into();
    app.inference_binary_path = r"C:\tools\tabby.bat".into();

    let _ = app.start_inference(&facts(PathKind::Missing));

    assert!(app.status.contains("TabbyML CLI"), "got: {}", app.status);
    assert!(app.status.contains("tabby.bat"), "got: {}", app.status);
    assert!(app.status.contains("Start.bat"), "got: {}", app.status);
    assert!(app.inference_pid.is_none());
}
