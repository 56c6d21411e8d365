use codewarp::attach::AttachmentRead;
use codewarp::hf_download::{DownloadEvent, DownloadStep};
use codewarp::model::{Effect, InferenceEngine, LlmProvider, ModelOption};
use codewarp::paths::Platform;
use codewarp::state::App;
use codewarp::workspace::PtyStop;

fn new_app() -> App {
    App::new(Platform::Windows)
}

fn option(id: &str, provider: LlmProvider) -> ModelOption {
    ModelOption {
        id: id.into(),
        provider,
        provider_label: String::new(),
        ko_friendly: false,
        favorite: false,
        context_length: None,
    }
}

#[test]
fn successful_health_line_reports_runtime_started() {
    let mut app = new_app();
    app.status = "starting".to_string();

    let generation = app.inference_process.generation;
    app.on_inference_log_line(generation, "[ready] http://127.0.0.1:9000/v1/models".to_string());

    assert_eq!(app.status, "inference 서버 시작됨: http://127.0.0.1:9000/v1/models");
}

#[test]
fn unexpected_exit_clears_stale_runtime_state() {
    let mut app = new_app();
    app.inference_pid = Some(42);

    let generation = app.inference_process.generation;
    app.on_inference_exited(generation, 17);

    assert!(app.inference_pid.is_none());
    assert!(app.status.contains("exit 17"));
    assert!(app.tabby_status.as_ref().is_some_and(Result::is_err));
}

#[test]
fn stale_runtime_events_do_not_mutate_current_runtime_state() {
    let mut app = new_app();
    app.inference_process.generation = 2;
    app.inference_pid = Some(42);
    app.status = "current runtime".into();

    app.on_inference_log_line(1, "[ready] stale".into());
    app.on_inference_exited(1, 17);

    assert_eq!(app.inference_pid, Some(42));
    assert_eq!(app.status, "current runtime");
}

#[test]
fn stale_pty_events_do_not_mutate_a_restarted_session() {
    let mut app = new_app();
    app.pty.generation = 2;

    app.on_pty_line(1, "stale output".into());
    let _ = app.on_pty_exited(1);

    assert!(app.pty_output.is_empty());
    assert!(!app.pty.session);
}

// Further cases.

#[test]
fn log_lines_record_the_pid_and_spawn_failures() {
    let mut app = new_app();
    app.on_inference_log_line(0, "[pid: 4321 ] started".into());
    assert_eq!(app.inference_pid, Some(4321));
    app.on_inference_log_line(0, "[spawn 실패] 실행 파일 없음".into());
    assert_eq!(app.status, "실행 파일 없음");
    assert_eq!(app.tabby_status, Some(Err("실행 파일 없음".to_string())));
    assert_eq!(app.inference_log.len(), 2);
}

#[test]
fn exit_codes_are_explained() {
    let mut app = new_app();
    app.inference_log.push("[spawn 실패] no binary".into());
    app.on_inference_exited(0, -1);
    assert_eq!(app.status, "no binary");
    assert_eq!(app.inference_log.last().map(String::as_str), Some("[exited] code -1"));

    let mut app = new_app();
    app.inference_log.push("[err] out of memory".into());
    app.model_options = vec![option("a", LlmProvider::OpenRouter), option("b", LlmProvider::OpenAICompat)];
    app.on_inference_exited(0, 3);
    assert_eq!(app.status, "inference 서버 종료 (exit 3) — [err] out of memory");
    assert_eq!(app.model_options.len(), 1);
    assert_eq!(app.model_options[0].id, "a");
    assert_eq!(app.tabby_retry_generation, 1);

    let mut app = new_app();
    app.on_inference_exited(0, -1);
    assert_eq!(app.status, "inference 서버 시작 실패");
}

#[test]
fn stopping_reports_the_process() {
    let mut app = new_app();
    app.tabby_connect_retry_left = 3;
    app.stop_inference(true);
    assert_eq!(app.tabby_connect_retry_left, 0);
    assert_eq!(app.status, "");

    app.inference_process.stop_handle = true;
    app.inference_pid = Some(7);
    app.stop_inference(true);
    assert!(app.inference_process.stopping);
    assert_eq!(app.status, "inference 서버 중지 중 (pid 7)");

    app.inference_pid = None;
    app.stop_inference(false);
    assert_eq!(app.status, "inference 서버 종료 요청 실패 (starting process)");
}

#[test]
fn exited_shell_is_let_go() {
    let mut app = new_app();
    app.pty.session = true;
    match app.on_pty_exited(0) {
        PtyStop::Stop { restart, graceful, generation } => {
            assert!(!restart);
            assert!(!graceful);
            assert_eq!(generation, 0);
        }
        _ => panic!("expected the session to be stopped"),
    }
    assert!(!app.pty.session);
    assert!(matches!(app.stop_pty(true, true), PtyStop::Start));
}

#[test]
fn download_runs_from_request_to_adopted_model() {
    let mut app = new_app();
    app.hf.repo_input = " org/model-exl2 ".into();
    app.hf.token_input = "  ".into();
    let dir = app.prepare_hf_download().expect("download can start");
    assert_eq!(dir, "");

    let (request, effects) = app.start_hf_download("C:\\models".into(), Ok(()), Some("hf_stored".into()));
    let request = request.expect("download starts");
    assert_eq!(request.repo, "org/model-exl2");
    assert_eq!(request.folder_name, "org--model-exl2");
    assert_eq!(request.token.as_deref(), Some("hf_stored"));
    assert!(matches!(&effects[0], Effect::PersistModelDir(d) if d == "C:\\models"));
    assert_eq!(app.status, "다운로드 시작: org/model-exl2");
    assert!(app.hf.abort_handle);

    // A second download is refused while this one runs.
    assert!(app.prepare_hf_download().is_none());
    assert_eq!(app.status, "이미 다운로드가 진행 중입니다.");

    let _ = app.on_hf_download_event(DownloadEvent::Started { total_files: 3 });
    let _ = app.on_hf_download_event(DownloadEvent::FileStart { idx: 1, name: "a.safetensors".into(), size: Some(10) });
    let _ = app.on_hf_download_event(DownloadEvent::FileProgress { idx: 1, bytes_done: 4, bytes_total: Some(10) });
    let dl = app.hf.dl.as_ref().unwrap();
    assert_eq!(dl.total_files, 3);
    assert_eq!(dl.file_name, "a.safetensors");
    assert_eq!(dl.file_bytes_done, 4);

    let (folder, path) = match app.on_hf_download_event(DownloadEvent::AllDone) {
        DownloadStep::Finished { folder_name, model_path } => (folder_name, model_path),
        DownloadStep::Nothing => panic!("expected the finished download"),
    };
    assert_eq!(path, "C:\\models\\org--model-exl2");

    let effects = app.on_hf_download_finished(&folder, &path, Some(path.clone()), None);
    assert!(app.hf.dl.is_none());
    assert_eq!(app.inference_engine, InferenceEngine::TabbyApi);
    assert_eq!(app.inference_selected_model, path);
    assert_eq!(app.tabby_url_input, "http://localhost:5000");
    assert_eq!(app.openai_compat_label, "TabbyAPI");
    assert_eq!(effects.len(), 3);
    assert_eq!(app.status, "다운로드 완료: org--model-exl2 — Runtime에서 시작을 누른 뒤 연결 테스트");
}

#[test]
fn download_failures_are_reported() {
    let mut app = new_app();
    assert!(app.prepare_hf_download().is_none());
    assert_eq!(app.status, "HF repo ID 비어있음");

    app.hf.repo_input = "org/m".into();
    let (request, effects) = app.start_hf_download("/x".into(), Err("denied".into()), None);
    assert!(request.is_none());
    assert!(effects.is_empty());
    assert_eq!(app.status, "다운로드 경로 생성 실패 (/x): denied");

    let _ = app.start_hf_download("/x".into(), Ok(()), None);
    let _ = app.on_hf_download_event(DownloadEvent::Error("network".into()));
    assert_eq!(app.status, "다운로드 실패: network");
    assert!(app.hf.dl.is_none());

    app.cancel_hf_download();
    assert_eq!(app.status, "다운로드 취소됨");
}

#[test]
fn attachments_are_asked_for_once() {
    let mut app = new_app();
    app.cwd = "C:\\work".into();
    let read: AttachmentRead = app.on_file_dropped("C:\\work\\a.rs".into()).expect("file is read");
    assert_eq!(read.read_path, "C:\\work\\a.rs");
    assert_eq!(read.existing, 0);
    app.on_file_read_done("C:\\work\\a.rs".into(), "fn main() {}".into());
    assert!(app.on_attachment_picked(Some("C:\\work\\a.rs".into())).is_none());
    assert_eq!(app.status, "Already attached: C:\\work\\a.rs");
    assert!(app.on_attachment_picked(None).is_none());
}

#[test]
fn confirming_a_mention_cuts_the_query_and_reads_the_file() {
    let mut app = new_app();
    app.cwd = "C:\\work".into();
    app.mention_candidates = vec!["src\\main.rs".into(), "src\\lib.rs".into()];
    app.input = "look at @li".into();
    app.show_mention = true;
    app.mention_query = "li".into();
    app.mention_selected = 0;

    let read = app.confirm_mention().expect("file is read");

    assert_eq!(read.attach_as, "src\\lib.rs");
    assert_eq!(read.read_path, "C:\\work\\src\\lib.rs");
    assert_eq!(app.input, "look at ");
    assert!(!app.show_mention);
}

#[test]
fn terminal_sessions_start_stop_and_restart() {
    let mut app = new_app();
    assert!(app.pty_start().is_none());
    let generation = app.on_pty_spawned(Ok(Some(99))).expect("session starts");
    assert_eq!(generation, 1);
    assert_eq!(app.status, "터미널 시작됨 (pid 99)");
    assert!(app.pty.session);

    app.on_pty_line(1, "hello".into());
    assert_eq!(app.pty_output, vec!["hello".to_string()]);

    assert!(matches!(app.pty_start(), Some(PtyStop::Stop { restart: true, graceful: true, generation: 1 })));
    assert!(!app.on_pty_stopped(Ok((99, "-- 셸 종료 pid=99 --".into())), true, 0));
    assert!(app.on_pty_stopped(Ok((99, "-- 셸 종료 pid=99 --".into())), true, 1));
    assert_eq!(app.status, "터미널 종료됨 (pid 99)");
    assert_eq!(app.pty_output.last().map(String::as_str), Some("-- 셸 종료 pid=99 --"));

    assert!(!app.on_pty_stopped(Err("busy".into()), false, 1));
    assert!(app.pty.session);
    assert_eq!(app.status, "터미널 종료 실패: busy");

    assert!(app.on_pty_spawned(Err("no shell".into())).is_none());
    assert_eq!(app.status, "터미널 시작 실패: no shell");
}

#[test]
fn the_terminal_panel_starts_and_lets_go_of_its_shell() {
    let mut app = new_app();
    assert!(matches!(app.toggle_pty(), PtyStop::Start));
    assert!(app.ui.pty_visible);
    app.on_pty_spawned(Ok(None));
    assert_eq!(app.status, "터미널 시작됨");
    app.push_pty_line("x".into());
    app.pty_clear();
    assert!(app.pty_output.is_empty());
    assert!(matches!(app.toggle_pty(), PtyStop::Stop { restart: false, graceful: true, .. }));
    assert!(!app.ui.pty_visible);
    assert!(!app.pty.session);
}
