use locaryn_plugin_voice_tts::paths::{
    choose_python, file_extension, file_name, file_stem, is_absolute_path, join_path, models_dir, models_dirs,
    output_dir, parent, repo_candidates, repo_path, venv_candidates, venv_python,
};

fn some(s: &str) -> Option<String> {
    Some(s.to_string())
}

#[test]
fn joining_puts_one_separator_and_keeps_absolute_names() {
    assert_eq!(join_path("/data/models", "kokoro", false), "/data/models/kokoro");
    assert_eq!(join_path("/data/models/", "kokoro", false), "/data/models/kokoro");
    assert_eq!(join_path("", "kokoro", false), "kokoro");
    assert_eq!(join_path("/data", "/abs/repo", false), "/abs/repo");
}

#[test]
fn joining_on_windows_uses_backslashes_and_drive_roots() {
    assert_eq!(join_path(r"C:\data", "kokoro", true), r"C:\data\kokoro");
    assert_eq!(join_path(r"C:\data\", "kokoro", true), r"C:\data\kokoro");
    assert_eq!(join_path("C:/data/", "kokoro", true), "C:/data/kokoro");
    assert_eq!(join_path(r"C:\data", r"D:\repo", true), r"D:\repo");
    assert_eq!(join_path(r"C:\data", r"\\srv\share\x", true), r"\\srv\share\x");
    assert_eq!(join_path(r"C:\data", r"\repo", true), r"C:\repo");
    assert_eq!(join_path(r"\\srv\share\data", r"\repo", true), r"\\srv\share\repo");
    assert_eq!(join_path("C:", "repo", true), "C:repo");
    assert_eq!(join_path("/data", "/repo", true), "/repo");
    assert_eq!(join_path("data", "repo", true), r"data\repo");
    assert_eq!(join_path("/data", r"C:\repo", false), r"/data/C:\repo");
}

#[test]
fn model_folders_come_from_the_environment_then_the_working_directory() {
    assert_eq!(
        models_dirs(&some("/lib"), &some("/private"), &some("/work"), false),
        vec!["/lib", "/private", "/work/models"]
    );
    assert_eq!(
        models_dirs(&some("   "), &None, &None, false),
        vec!["./models"]
    );
    assert_eq!(models_dir(&models_dirs(&None, &some("/p"), &some("/w"), false)), "/p");
    assert_eq!(models_dir(&Vec::new()), "models");
}

#[test]
fn the_output_folder_is_the_host_media_folder_when_set() {
    assert_eq!(output_dir(&some("/media"), &some("/w"), false), "/media");
    assert_eq!(output_dir(&some(" \t"), &some("/w"), false), "/w/output");
    assert_eq!(output_dir(&None, &None, false), "./output");
    assert_eq!(output_dir(&None, &some(r"C:\w"), true), r"C:\w\output");
}

#[test]
fn a_repository_is_the_first_existing_candidate() {
    let dirs = vec!["/a".to_string(), "/b".to_string(), "/c".to_string()];
    let candidates = repo_candidates("kokoro", &dirs, false);
    assert_eq!(candidates, vec!["/a/kokoro", "/b/kokoro", "/c/kokoro"]);
    assert_eq!(
        repo_path(&candidates, &vec![false, true, true]),
        Some("/b/kokoro".to_string())
    );
    assert_eq!(repo_path(&candidates, &vec![false, false, false]), None);
}

#[test]
fn file_names_extensions_and_stems_read_like_std_path() {
    assert_eq!(file_name("/x/y/a.wav", false), some("a.wav"));
    assert_eq!(file_name(r"C:\x\b.mp3", true), some("b.mp3"));
    assert_eq!(file_name(r"C:\x\b.mp3", false), some(r"C:\x\b.mp3"));
    assert_eq!(file_name("plain", false), some("plain"));
    assert_eq!(file_name("m/Qwen3-TTS-Base/", false), some("Qwen3-TTS-Base"));
    assert_eq!(file_name("m/a.txt/.//", false), some("a.txt"));
    assert_eq!(file_name("m/..", false), None);
    assert_eq!(file_name("/", false), None);
    assert_eq!(file_name("", false), None);
    assert_eq!(file_name(".", false), None);
    assert_eq!(file_extension("a.tar.gz"), Some("gz".to_string()));
    assert_eq!(file_extension(".hidden"), None);
    assert_eq!(file_extension("noext"), None);
    assert_eq!(file_extension(".."), None);
    assert_eq!(file_extension("trailing."), Some(String::new()));
    assert_eq!(file_stem("a.tar.gz"), "a.tar");
    assert_eq!(file_stem(".hidden"), ".hidden");
    assert_eq!(file_stem("noext"), "noext");
}

#[test]
fn parents_read_like_std_path() {
    assert_eq!(parent("/data/models", false), Some("/data".to_string()));
    assert_eq!(parent("/data/models/", false), Some("/data".to_string()));
    assert_eq!(parent("/models", false), Some("/".to_string()));
    assert_eq!(parent("models", false), Some(String::new()));
    assert_eq!(parent("/", false), None);
    assert_eq!(parent("", false), None);
    assert_eq!(parent("a/./b", false), Some("a".to_string()));
    assert_eq!(parent("a/b/.", false), Some("a".to_string()));
    assert_eq!(parent("./a", false), Some(".".to_string()));
    assert_eq!(parent("/x/..", false), Some("/x".to_string()));
    assert_eq!(parent(r"d\e", true), Some("d".to_string()));
    assert_eq!(parent(r"d\e", false), Some(String::new()));
}

#[test]
fn python_environments_are_looked_for_in_order() {
    let dirs = vec!["/data/models".to_string(), "/".to_string()];
    assert_eq!(
        venv_candidates(&some("/venv"), &dirs, &some("/w"), false),
        vec!["/venv", "/data/python-env", "/data/.venv", "/w/.venv"]
    );
    assert_eq!(venv_candidates(&some(""), &Vec::new(), &None, false), Vec::<String>::new());
    assert_eq!(venv_python("/v", false), "/v/bin/python");
    assert_eq!(venv_python(r"C:\v", true), r"C:\v\Scripts\python.exe");
}

#[test]
fn python_is_taken_from_an_environment_then_the_path_then_a_user_install() {
    assert_eq!(choose_python(some("/v/bin/python"), true, some("L")), some("/v/bin/python"));
    assert_eq!(choose_python(None, true, some("L")), some("python"));
    assert_eq!(choose_python(None, false, some("L")), some("L"));
    assert_eq!(choose_python(None, false, None), None);
}

#[test]
fn absolute_paths_start_at_a_root() {
    assert!(is_absolute_path("/data", false));
    assert!(!is_absolute_path(r"C:\data", false));
    assert!(is_absolute_path(r"C:\data", true));
    assert!(is_absolute_path("C:/data", true));
    assert!(is_absolute_path(r"\\server\share", true));
    assert!(!is_absolute_path("/data", true));
    assert!(!is_absolute_path("C:data", true));
    assert!(!is_absolute_path("data", false));
    assert!(!is_absolute_path("./data", false));
    assert!(!is_absolute_path("", false));
}
