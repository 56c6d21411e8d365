use codewarp::engine::TABBY_API_DEFAULT_PORT;
use codewarp::model::{InferenceEngine, LlmProvider, ModelOption};
use codewarp::paths::Platform;
use codewarp::provider::ListedModel;
use codewarp::state::App;

fn or_opt(id: &str) -> ModelOption {
    codewarp::model::or_opt(id)
}

fn no_models() -> Vec<String> {
    Vec::new()
}

#[test]
fn update_inference_select_inference_engine_keeps_selection_within_local_namespace() {
    let mut app = App::new(Platform::Windows);
    app.inference_engine = InferenceEngine::XLlm;
    app.inference_selected_model = "Qwen--7B".into();

    let _ = app.select_inference_engine(InferenceEngine::VLlm, 8000);
    assert_eq!(app.inference_selected_model, "Qwen--7B");
}

#[test]
fn select_select_inference_engine_keeps_selection_within_local_namespace() {
    let mut app = App::new(Platform::Windows);
    app.inference_engine = InferenceEngine::XLlm;
    app.inference_selected_model = "Qwen--7B".into();

    let _ = app.select_inference_engine(InferenceEngine::VLlm, 8000);
    assert_eq!(app.inference_selected_model, "Qwen--7B");
}

#[test]
fn update_inference_select_inference_engine_clears_selection_across_namespaces() {
    let mut app = App::new(Platform::Windows);
    app.inference_engine = InferenceEngine::XLlm;
    app.inference_selected_model = "Qwen--7B".into();

    let _ = app.select_inference_engine(InferenceEngine::TabbyMl, 8080);
    assert!(app.inference_selected_model.is_empty());
}

#[test]
fn select_select_inference_engine_clears_selection_across_namespaces() {
    let mut app = App::new(Platform::Windows);
    app.inference_engine = InferenceEngine::XLlm;
    app.inference_selected_model = "Qwen--7B".into();

    let _ = app.select_inference_engine(InferenceEngine::TabbyMl, 8080);
    assert!(app.inference_selected_model.is_empty());
}

#[test]
fn update_inference_can_start_inference_tabby_requires_model_id() {
    let mut app = App::new(Platform::Windows);
    app.inference_engine = InferenceEngine::TabbyMl;
    app.inference_selected_model = String::new();
    assert!(!app.can_start_inference(&no_models()));

    app.inference_selected_model = "TabbyML/Qwen2.5-Coder-7B".into();
    assert!(app.can_start_inference(&no_models()));
}

#[test]
fn start_can_start_inference_tabby_requires_model_id() {
    let mut app = App::new(Platform::Windows);
    app.inference_engine = InferenceEngine::TabbyMl;
    app.inference_selected_model = String::new();
    assert!(!app.can_start_inference(&no_models()));

    app.inference_selected_model = "TabbyML/Qwen2.5-Coder-7B".into();
    assert!(app.can_start_inference(&no_models()));
}

#[test]
fn update_inference_selecting_tabbyapi_runtime_sets_provider_endpoint() {
    let mut app = App::new(Platform::Windows);
    app.tabby_url_input = "http://localhost:8080".into();
    app.openai_compat_label = "TabbyML".into();

    let _ = app.select_inference_engine(InferenceEngine::TabbyApi, TABBY_API_DEFAULT_PORT);

    assert_eq!(app.inference_port_input, TABBY_API_DEFAULT_PORT.to_string());
    assert_eq!(app.tabby_url_input, "http://localhost:5000");
    assert_eq!(app.openai_compat_label, "TabbyAPI");
}

#[test]
fn tabby_models_tests_selecting_tabbyapi_runtime_sets_provider_endpoint() {
    let mut app = App::new(Platform::Windows);
    app.tabby_url_input = "http://localhost:8080".into();
    app.openai_compat_label = "TabbyML".into();

    let _ = app.select_inference_engine(InferenceEngine::TabbyApi, TABBY_API_DEFAULT_PORT);

    assert_eq!(app.inference_port_input, TABBY_API_DEFAULT_PORT.to_string());
    assert_eq!(app.tabby_url_input, "http://localhost:5000");
    assert_eq!(app.openai_compat_label, "TabbyAPI");
}

#[test]
fn update_inference_tabbyapi_port_change_syncs_loopback_provider_url() {
    let mut app = App::new(Platform::Windows);
    app.inference_engine = InferenceEngine::TabbyApi;
    app.inference_port_input = "5000".into();
    app.tabby_url_input = "http://localhost:5000".into();

    let _ = app.set_inference_port("5001");

    assert_eq!(app.inference_port_input, "5001");
    assert_eq!(app.tabby_url_input, "http://localhost:5001");
}

#[test]
fn tabby_models_tests_tabbyapi_port_change_syncs_loopback_provider_url() {
    let mut app = App::new(Platform::Windows);
    app.inference_engine = InferenceEngine::TabbyApi;
    app.inference_port_input = "5000".into();
    app.tabby_url_input = "http://localhost:5000".into();

    let _ = app.set_inference_port("5001");

    assert_eq!(app.inference_port_input, "5001");
    assert_eq!(app.tabby_url_input, "http://localhost:5001");
}

#[test]
fn update_inference_tabbyapi_port_change_does_not_override_non_loopback_provider_url() {
    let mut app = App::new(Platform::Windows);
    app.inference_engine = InferenceEngine::TabbyApi;
    app.inference_port_input = "5000".into();
    app.tabby_url_input = "http://192.168.0.20:5000".into();

    let _ = app.set_inference_port("5001");

    assert_eq!(app.inference_port_input, "5001");
    assert_eq!(app.tabby_url_input, "http://192.168.0.20:5000");
}

#[test]
fn tabby_models_tests_tabbyapi_port_change_does_not_override_non_loopback_provider_url() {
    let mut app = App::new(Platform::Windows);
    app.inference_engine = InferenceEngine::TabbyApi;
    app.inference_port_input = "5000".into();
    app.tabby_url_input = "http://192.168.0.20:5000".into();

    let _ = app.set_inference_port("5001");

    assert_eq!(app.inference_port_input, "5001");
    assert_eq!(app.tabby_url_input, "http://192.168.0.20:5000");
}

#[test]
fn update_inference_saved_shared_model_prefers_tabby_when_tabby_url_is_set() {
    let mut app = App::new(Platform::Windows);
    app.selected_model = Some("shared-model".into());
    app.selected_model_provider = None;
    app.tabby_url_input = "http://localhost:5000".into();
    app.model_options = vec![or_opt("shared-model")];

    let _ = app.on_tabby_models_loaded(Ok(vec!["shared-model".into()]), &vec![false], false, false);

    assert_eq!(app.selected_model_provider, Some(LlmProvider::OpenAICompat));
}

#[test]
fn tabby_models_tests_saved_shared_model_prefers_tabby_when_tabby_url_is_set() {
    let mut app = App::new(Platform::Windows);
    app.selected_model = Some("shared-model".into());
    app.selected_model_provider = None;
    app.tabby_url_input = "http://localhost:5000".into();
    app.model_options = vec![or_opt("shared-model")];

    let _ = app.on_tabby_models_loaded(Ok(vec!["shared-model".into()]), &vec![false], false, false);

    assert_eq!(app.selected_model_provider, Some(LlmProvider::OpenAICompat));
}

#[test]
fn update_inference_tabby_models_loaded_selects_first_local_model() {
    let mut app = App::new(Platform::Windows);
    app.model_options.clear();
    app.selected_model = Some("openrouter-model".into());
    app.openai_compat_label = "TabbyAPI".into();

    let _ = app.on_tabby_models_loaded(
        Ok(vec!["tabby-a".into(), "tabby-b".into()]),
        &vec![false, false],
        false,
        false,
    );

    assert_eq!(app.selected_model.as_deref(), Some("tabby-a"));
    assert!(
        app.model_options
            .iter()
            .any(|o| { o.id == "tabby-a" && o.provider == LlmProvider::OpenAICompat })
    );
}

#[test]
fn tabby_models_tests_tabby_models_loaded_selects_first_local_model() {
    let mut app = App::new(Platform::Windows);
    app.model_options.clear();
    app.selected_model = Some("openrouter-model".into());
    app.openai_compat_label = "TabbyAPI".into();

    let _ = app.on_tabby_models_loaded(
        Ok(vec!["tabby-a".into(), "tabby-b".into()]),
        &vec![false, false],
        false,
        false,
    );

    assert_eq!(app.selected_model.as_deref(), Some("tabby-a"));
    assert!(
        app.model_options
            .iter()
            .any(|o| { o.id == "tabby-a" && o.provider == LlmProvider::OpenAICompat })
    );
}

#[test]
fn update_inference_openrouter_models_loaded_preserves_existing_tabby_selection() {
    let mut app = App::new(Platform::Windows);
    app.model_options = vec![ModelOption {
        id: "tabby-a".into(),
        provider: LlmProvider::OpenAICompat,
        provider_label: "TabbyAPI".into(),
        ko_friendly: false,
        favorite: false,
        context_length: None,
    }];
    app.selected_model = Some("tabby-a".into());
    app.tabby_url_input = "http://localhost:5000".into();

    let _ = app.on_models_loaded(Ok(vec![ListedModel {
        id: "openrouter-a".into(),
        context_length: None,
        ko_friendly: false,
    }]));

    assert_eq!(app.selected_model.as_deref(), Some("tabby-a"));
    assert!(
        app.model_options
            .iter()
            .any(|o| { o.id == "tabby-a" && o.provider == LlmProvider::OpenAICompat })
    );
}

#[test]
fn tabby_models_tests_openrouter_models_loaded_preserves_existing_tabby_selection() {
    let mut app = App::new(Platform::Windows);
    app.model_options = vec![ModelOption {
        id: "tabby-a".into(),
        provider: LlmProvider::OpenAICompat,
        provider_label: "TabbyAPI".into(),
        ko_friendly: false,
        favorite: false,
        context_length: None,
    }];
    app.selected_model = Some("tabby-a".into());
    app.tabby_url_input = "http://localhost:5000".into();

    let _ = app.on_models_loaded(Ok(vec![ListedModel {
        id: "openrouter-a".into(),
        context_length: None,
        ko_friendly: false,
    }]));

    assert_eq!(app.selected_model.as_deref(), Some("tabby-a"));
    assert!(
        app.model_options
            .iter()
            .any(|o| { o.id == "tabby-a" && o.provider == LlmProvider::OpenAICompat })
    );
}

#[test]
fn update_inference_openrouter_models_loaded_waits_for_tabby_when_saved_selection_not_loaded_yet() {
    let mut app = App::new(Platform::Windows);
    app.model_options.clear();
    app.selected_model = Some("tabby-a".into());
    app.tabby_url_input = "http://localhost:5000".into();

    let _ = app.on_models_loaded(Ok(vec![ListedModel {
        id: "openrouter-a".into(),
        context_length: None,
        ko_friendly: false,
    }]));

    assert_eq!(app.selected_model.as_deref(), Some("tabby-a"));
}

#[test]
fn tabby_models_tests_openrouter_models_loaded_waits_for_tabby_when_saved_selection_not_loaded_yet() {
    let mut app = App::new(Platform::Windows);
    app.model_options.clear();
    app.selected_model = Some("tabby-a".into());
    app.tabby_url_input = "http://localhost:5000".into();

    let _ = app.on_models_loaded(Ok(vec![ListedModel {
        id: "openrouter-a".into(),
        context_length: None,
        ko_friendly: false,
    }]));

    assert_eq!(app.selected_model.as_deref(), Some("tabby-a"));
}

#[test]
fn update_inference_non_tabby_runtime_keeps_custom_binary_override() {
    let mut app = App::new(Platform::Windows);
    app.inference_engine = InferenceEngine::XLlm;
    app.inference_binary_path = r"C:\tools\xllm.exe".into();

    let (program, args, work_dir) =
        app.resolve_runtime_spawn_command("xllm".into(), vec!["serve".into()], false, None);

    assert_eq!(program, r"C:\tools\xllm.exe");
    assert_eq!(args, vec!["serve".to_string()]);
    assert!(work_dir.is_none());
}

#[test]
fn runtime_non_tabby_runtime_keeps_custom_binary_override() {
    let mut app = App::new(Platform::Windows);
    app.inference_engine = InferenceEngine::XLlm;
    app.inference_binary_path = r"C:\tools\xllm.exe".into();

    let (program, args, work_dir) =
        app.resolve_runtime_spawn_command("xllm".into(), vec!["serve".into()], false, None);

    assert_eq!(program, r"C:\tools\xllm.exe");
    assert_eq!(args, vec!["serve".to_string()]);
    assert!(work_dir.is_none());
}

#[test]
fn update_inference_can_start_inference_custom_requires_non_empty_command() {
    let mut app = App::new(Platform::Windows);
    app.inference_engine = InferenceEngine::Custom;
    app.inference_command_input = "   ".into();
    assert!(!app.can_start_inference(&no_models()));

    app.inference_command_input = "xllm serve --model X".into();
    assert!(app.can_start_inference(&no_models()));
}

#[test]
fn start_can_start_inference_custom_requires_non_empty_command() {
    let mut app = App::new(Platform::Windows);
    app.inference_engine = InferenceEngine::Custom;
    app.inference_command_input = "   ".into();
    assert!(!app.can_start_inference(&no_models()));

    app.inference_command_input = "xllm serve --model X".into();
    assert!(app.can_start_inference(&no_models()));
}

#[test]
fn update_inference_can_start_inference_ollama_always_true() {
    let mut app = App::new(Platform::Windows);
    app.inference_engine = InferenceEngine::Ollama;
    app.inference_selected_model = String::new();
    app.inference_command_input = String::new();
    assert!(app.can_start_inference(&no_models()));
}

#[test]
fn start_can_start_inference_ollama_always_true() {
    let mut app = App::new(Platform::Windows);
    app.inference_engine = InferenceEngine::Ollama;
    app.inference_selected_model = String::new();
    app.inference_command_input = String::new();
    assert!(app.can_start_inference(&no_models()));
}

#[test]
fn update_inference_model_dir_picked_none_keeps_selection() {
    let mut app = App::new(Platform::Windows);
    app.inference_engine = InferenceEngine::XLlm;
    app.inference_selected_model = "Qwen--7B".into();

    let _ = app.on_model_dir_picked(None, &no_models());
    assert_eq!(app.inference_selected_model, "Qwen--7B");
}

#[test]
fn mod_model_dir_picked_none_keeps_selection() {
    let mut app = App::new(Platform::Windows);
    app.inference_engine = InferenceEngine::XLlm;
    app.inference_selected_model = "Qwen--7B".into();

    let _ = app.on_model_dir_picked(None, &no_models());
    assert_eq!(app.inference_selected_model, "Qwen--7B");
}

#[test]
fn tabbyapi_can_start_with_launcher_without_model_path() {
    let mut app = App::new(Platform::Windows);
    app.inference_engine = InferenceEngine::TabbyApi;
    app.inference_selected_model.clear();
    app.inference_binary_path = r"C:\TabbyAPI\Start.bat".into();

    assert!(app.can_start_inference(&no_models()));
    assert!(app.can_attempt_start_inference(&no_models()));
}

#[test]
fn tabby_models_loaded_error_decrements_auto_retry_while_runtime_alive() {
    let mut app = App::new(Platform::Windows);
    app.inference_engine = InferenceEngine::TabbyApi;
    app.inference_pid = Some(42);
    app.inference_binary_path = r"C:\TabbyAPI\Start.bat".into();
    app.tabby_url_input = "http://localhost:5000".into();
    app.tabby_connect_retry_left = 2;

    let _ = app.on_tabby_models_loaded(Err("operation timed out".into()), &Vec::new(), true, false);

    assert_eq!(app.tabby_connect_retry_left, 1);
    assert!(app.status.contains("자동 재시도"), "got: {}", app.status);
    app.inference_pid = None;
}

#[test]
fn tabby_models_loaded_error_without_retry_budget_reports_failure() {
    let mut app = App::new(Platform::Windows);
    app.inference_engine = InferenceEngine::TabbyApi;
    app.inference_pid = Some(42);
    app.inference_binary_path = r"C:\TabbyAPI\Start.bat".into();
    app.tabby_url_input = "http://localhost:5000".into();
    app.tabby_connect_retry_left = 0;

    let _ = app.on_tabby_models_loaded(Err("operation timed out".into()), &Vec::new(), true, false);

    assert_eq!(app.tabby_connect_retry_left, 0);
    assert!(app.status.contains("연결 실패"), "got: {}", app.status);
    app.inference_pid = None;
}

#[test]
fn tabbyapi_bat_launcher_runs_via_cmd_in_script_dir() {
    let mut app = App::new(Platform::Windows);
    app.inference_engine = InferenceEngine::TabbyApi;
    app.inference_binary_path = r"C:\TabbyAPI\Start.bat".into();

    let (program, args, work_dir) = app.resolve_runtime_spawn_command(
        "Start.bat".into(),
        vec!["--config".into(), "config.yml".into()],
        false,
        None,
    );

    assert_eq!(program, "cmd.exe");
    assert_eq!(
        args,
        vec![
            "/C".to_string(),
            "Start.bat".to_string(),
            "--config".to_string(),
            "config.yml".to_string()
        ]
    );
    assert_eq!(work_dir.as_deref(), Some(r"C:\TabbyAPI"));
}

#[test]
fn tabbyapi_launcher_at_drive_root_runs_in_drive_root() {
    let mut app = App::new(Platform::Windows);
    app.inference_engine = InferenceEngine::TabbyApi;
    app.inference_binary_path = r"C:\x.bat".into();

    let (program, args, work_dir) =
        app.resolve_runtime_spawn_command("x.bat".into(), vec![], false, None);

    assert_eq!(program, "cmd.exe");
    assert_eq!(args, vec!["/C".to_string(), "x.bat".to_string()]);
    assert_eq!(work_dir.as_deref(), Some(r"C:\"));
}
