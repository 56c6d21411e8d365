use codewarp::paths::{extension, file_name, join, parent, Platform};
use codewarp::model::InferenceEngine;
use codewarp::paths::{components, same_path};
use codewarp::runtime::{command_probe_files, listed_extensions_of};
use codewarp::start::engine_model_path_of;
use codewarp::tabbyapi::tabbyapi_launcher_candidates;

#[test]
fn paths_drive_root_parent_keeps_root() {
    assert_eq!(parent(Platform::Windows, r"C:\x.bat").as_deref(), Some(r"C:\"));
    assert_eq!(parent(Platform::Windows, r"C:\"), None);
    assert_eq!(parent(Platform::Windows, "C:"), None);
}

#[test]
fn paths_drive_relative_splits_after_prefix() {
    assert_eq!(parent(Platform::Windows, "C:x.bat").as_deref(), Some("C:"));
    assert_eq!(file_name(Platform::Windows, "C:x.bat").as_deref(), Some("x.bat"));
    assert_eq!(extension(Platform::Windows, "C:x.bat").as_deref(), Some("bat"));
    assert_eq!(file_name(Platform::Windows, "C:"), None);
}

#[test]
fn paths_drive_prefix_is_only_windows() {
    assert_eq!(file_name(Platform::Unix, "C:x.bat").as_deref(), Some("C:x.bat"));
    assert_eq!(parent(Platform::Unix, "C:x.bat").as_deref(), Some(""));
}

#[test]
fn paths_cur_dir_components_are_normalised() {
    assert_eq!(file_name(Platform::Unix, "a/.").as_deref(), Some("a"));
    assert_eq!(parent(Platform::Unix, "a/.").as_deref(), Some(""));
    assert_eq!(parent(Platform::Unix, "a/./b").as_deref(), Some("a"));
    assert_eq!(parent(Platform::Unix, "./a").as_deref(), Some("."));
    assert_eq!(parent(Platform::Unix, ".").as_deref(), Some(""));
    assert_eq!(file_name(Platform::Unix, "."), None);
}

#[test]
fn paths_parent_dir_and_root() {
    assert_eq!(parent(Platform::Unix, "..").as_deref(), Some(""));
    assert_eq!(file_name(Platform::Unix, ".."), None);
    assert_eq!(parent(Platform::Unix, "/"), None);
    assert_eq!(parent(Platform::Unix, "/a").as_deref(), Some("/"));
    assert_eq!(parent(Platform::Unix, "").as_deref(), None);
}

#[test]
fn paths_trailing_separators_are_ignored() {
    assert_eq!(file_name(Platform::Unix, "dir/sub//").as_deref(), Some("sub"));
    assert_eq!(parent(Platform::Unix, "dir/sub//").as_deref(), Some("dir"));
    assert_eq!(file_name(Platform::Windows, r"C:\a\b.tar.gz").as_deref(), Some("b.tar.gz"));
    assert_eq!(extension(Platform::Windows, r"C:\a\b.tar.gz").as_deref(), Some("gz"));
    assert_eq!(extension(Platform::Unix, ".bashrc"), None);
}

#[test]
fn paths_join_absolute_and_relative() {
    assert_eq!(join(Platform::Unix, "/base", "rel"), "/base/rel");
    assert_eq!(join(Platform::Unix, "/base/", "rel"), "/base/rel");
    assert_eq!(join(Platform::Unix, "/base", "/abs"), "/abs");
    assert_eq!(join(Platform::Windows, r"C:\base", "rel"), r"C:\base\rel");
    assert_eq!(join(Platform::Windows, r"C:\base", r"D:\abs"), r"D:\abs");
}

#[test]
fn paths_same_path_compares_components() {
    assert!(same_path(Platform::Unix, "a/b/", "a/b"));
    assert!(same_path(Platform::Unix, "a//./b", "a/b"));
    assert!(!same_path(Platform::Unix, "/a/b", "a/b"));
    assert!(!same_path(Platform::Unix, "a/../b", "b"));
    assert!(same_path(Platform::Windows, r"C:\x\y", "C:/x/y/"));
    assert!(!same_path(Platform::Windows, r"C:\x", r"\x"));
    assert_eq!(components(Platform::Windows, r"C:\x\.\y"), vec!["C:", "/", "x", "y"]);
    assert_eq!(components(Platform::Unix, "./a/"), vec![".", "a"]);
}

#[test]
fn engine_model_path_joins_the_model_directory() {
    assert_eq!(engine_model_path_of(Platform::Unix, InferenceEngine::XLlm, "qwen", "/models"), "/models/qwen");
    assert_eq!(engine_model_path_of(Platform::Unix, InferenceEngine::LlamaServer, "/abs/m.gguf", "/models"), "/abs/m.gguf");
    assert_eq!(engine_model_path_of(Platform::Windows, InferenceEngine::VLlm, "m", r"D:\models"), r"D:\models\m");
    assert_eq!(engine_model_path_of(Platform::Unix, InferenceEngine::TabbyApi, "qwen", "/models"), "qwen");
    assert_eq!(engine_model_path_of(Platform::Unix, InferenceEngine::TabbyMl, "StarCoder-1B", "/models"), "StarCoder-1B");
}

#[test]
fn command_probe_lists_files_to_look_for() {
    let dirs = Some(vec!["/usr/bin".to_string(), "/opt/bin/".to_string()]);
    assert_eq!(
        command_probe_files(Platform::Unix, " xllm ", dirs.clone(), None),
        vec!["/usr/bin/xllm", "/opt/bin/xllm"]
    );
    assert_eq!(command_probe_files(Platform::Unix, "./run.sh", dirs.clone(), None), vec!["./run.sh"]);
    assert!(command_probe_files(Platform::Unix, "   ", dirs, None).is_empty());
    assert!(command_probe_files(Platform::Unix, "xllm", None, None).is_empty());

    let win = Some(vec![r"C:\bin".to_string()]);
    assert_eq!(
        command_probe_files(Platform::Windows, "xllm", win.clone(), Some(" .EXE ; ;.Cmd".into())),
        vec![r"C:\bin\xllm.exe", r"C:\bin\xllm.cmd"]
    );
    assert_eq!(
        command_probe_files(Platform::Windows, "xllm", win.clone(), Some(";;".into())),
        vec![r"C:\bin\xllm.com", r"C:\bin\xllm.exe", r"C:\bin\xllm.bat", r"C:\bin\xllm.cmd"]
    );
    assert_eq!(command_probe_files(Platform::Windows, "xllm.exe", win, None), vec![r"C:\bin\xllm.exe"]);
    assert_eq!(listed_extensions_of(".A;.b ; "), vec![".a", ".b"]);
}

#[test]
fn paths_join_follows_windows_prefix_rules() {
    assert_eq!(join(Platform::Windows, "C:", "x"), "C:x");
    assert_eq!(join(Platform::Windows, r"C:\a", r"\x"), r"C:\x");
    assert_eq!(join(Platform::Windows, "a", r"\x"), r"\x");
    assert_eq!(join(Platform::Windows, r"C:\a", "D:x"), "D:x");
    assert_eq!(join(Platform::Windows, "", "x"), "x");
    assert_eq!(join(Platform::Unix, "C:", "x"), "C:/x");
}

#[test]
fn launcher_candidates_have_the_runtime_dir_as_parent() {
    for (p, dir) in [
        (Platform::Windows, r"C:\rt\"),
        (Platform::Windows, "C:"),
        (Platform::Unix, "/opt/tabbyAPI/./"),
        (Platform::Unix, ""),
    ] {
        for c in tabbyapi_launcher_candidates(p, dir) {
            let parent_dir = parent(p, &c).expect("has a parent");
            assert!(same_path(p, &parent_dir, dir), "{c} in {dir}");
            assert!(file_name(p, &c).is_some());
        }
    }
}
