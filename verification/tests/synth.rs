use locaryn_plugin_voice_tts::json::json_str;
use locaryn_plugin_voice_tts::synth::{
    choose_model, kokoro_lang_code, kokoro_script_text, kokoro_voice_file, missing_model,
    output_file_name, python_env, python_failure, qwen_repo_accepted, qwen_script_text,
    speakable_text, speech_language, KOKORO_0, KOKORO_6, QWEN_0, QWEN_4,
};

#[test]
fn un_texte_vide_est_refuse_sans_lancer_python() {
    let err = speakable_text("   ").unwrap_err();
    assert!(err.contains("vide"), "{err}");
}

#[test]
fn an_empty_text_gets_the_exact_refusal() {
    assert_eq!(speakable_text("\t\n").unwrap_err(), "Texte vide : rien à dire.");
    assert!(speakable_text(" bonjour ").is_ok());
}

#[test]
fn without_a_choice_the_first_usable_model_speaks() {
    let usable = vec!["hexgrad__Kokoro-82M".to_string(), "piper".to_string()];
    assert_eq!(choose_model("", &usable).unwrap(), "hexgrad__Kokoro-82M");
    assert_eq!(choose_model(" x ", &usable).unwrap(), " x ");
    let err = choose_model("  ", &Vec::new()).unwrap_err();
    assert!(err.starts_with("Aucun modèle de synthèse installé."));
    assert_eq!(
        missing_model("m"),
        "Modèle introuvable dans la bibliothèque : m"
    );
}

#[test]
fn the_language_is_the_requested_one_or_guessed() {
    assert_eq!(speech_language(&Some(" ja ".to_string()), "hello"), "ja");
    assert_eq!(speech_language(&Some("  ".to_string()), "où est la clé"), "fr");
    assert_eq!(speech_language(&None, "привет"), "ru");
}

#[test]
fn the_output_is_named_after_the_time() {
    assert_eq!(output_file_name(1_725_029_869_123), "tts_1725029869123.wav");
    assert_eq!(output_file_name(0), "tts_0.wav");
}

#[test]
fn the_base_variant_is_refused_by_its_folder_name() {
    let err = qwen_repo_accepted("/models/Qwen__Qwen3-TTS-12Hz-0.6B-Base", false).unwrap_err();
    assert!(err.contains("Base"));
    assert!(qwen_repo_accepted("/models/Qwen__Qwen3-TTS-12Hz-1.7B-CustomVoice", false).is_ok());
    // Only the folder's own name counts.
    assert!(qwen_repo_accepted("/database/Qwen__Qwen3-TTS-CustomVoice", false).is_ok());
    // Trailing separators and `.` components name no folder of their own.
    assert!(qwen_repo_accepted("m/Qwen3-TTS-Base/", false).is_err());
    assert!(qwen_repo_accepted("m/Qwen3-TTS-Base/.", false).is_err());
    assert!(qwen_repo_accepted(r"m\Qwen3-TTS-Base\", true).is_err());
    // Without a folder name there is nothing to refuse.
    assert!(qwen_repo_accepted("/", false).is_ok());
}

#[test]
fn kokoro_speaks_the_language_of_its_voice() {
    assert_eq!(kokoro_lang_code("ff_siwis"), "fr");
    assert_eq!(kokoro_lang_code("xx_unknown"), "en");
    assert_eq!(kokoro_voice_file("/m/kokoro", "af_heart", false), "/m/kokoro/voices/af_heart.pt");
    assert_eq!(kokoro_voice_file(r"C:\m\kokoro", "af_heart", true), r"C:\m\kokoro\voices\af_heart.pt");
}

#[test]
fn json_literals_escape_what_python_would_misread() {
    assert_eq!(json_str("plain"), "\"plain\"");
    assert_eq!(json_str("a\"b"), "\"a\\\"b\"");
    assert_eq!(json_str("l1\nl2\t"), "\"l1\\nl2\\t\"");
    assert_eq!(json_str("\u{1}"), "\"\\u0001\"");
    assert_eq!(json_str("\u{1f}"), "\"\\u001f\"");
    assert_eq!(json_str("été 日本"), "\"été 日本\"");
}

#[test]
fn scripts_carry_their_arguments_as_literals() {
    let k = kokoro_script_text("/w/k.pth", "/w/voices/af.pt", r"C:\out.wav", "af", "en", "1.5");
    assert!(k.starts_with(KOKORO_0));
    assert!(k.ends_with(KOKORO_6));
    assert!(k.contains("model_path = \"/w/k.pth\"\n"));
    assert!(k.contains("out_path   = \"C:\\\\out.wav\"\n"));
    assert!(k.contains("speed = 1.5\n"));
    let q = qwen_script_text("/w/q", "/o.wav", "fr", "1");
    assert!(q.starts_with(QWEN_0));
    assert!(q.ends_with(QWEN_4));
    assert!(q.contains("repo_dir = \"/w/q\"\nout_path = \"/o.wav\"\nlang  = \"fr\"\nspeed = 1\n"));
}

#[test]
fn a_failed_run_reports_its_last_three_telling_lines() {
    let trace = "Traceback (most recent call last):\n  File \"x\"\n\n   \nValueError: bad\r\nend\n";
    assert_eq!(
        python_failure(trace, "exit status: 1"),
        "  File \"x\" / ValueError: bad / end"
    );
    assert_eq!(python_failure("one\n\n", "s"), "one");
    assert_eq!(python_failure(" \n\t\n", "exit status: 2"), "code de sortie exit status: 2");
}

#[test]
fn python_gets_the_host_folders_when_set() {
    let env = python_env(&Some("/hf".to_string()), &Some("/tmp/x".to_string()));
    let names: Vec<(&str, &str)> = env.iter().map(|(a, b)| (a.as_str(), b.as_str())).collect();
    assert_eq!(
        names,
        vec![
            ("TRANSFORMERS_NO_TF", "1"),
            ("USE_TF", "0"),
            ("TF_CPP_MIN_LOG_LEVEL", "3"),
            ("HF_HOME", "/hf"),
            ("TMPDIR", "/tmp/x"),
            ("TEMP", "/tmp/x"),
            ("TMP", "/tmp/x"),
        ]
    );
    assert_eq!(python_env(&Some(" ".to_string()), &None).len(), 3);
}
