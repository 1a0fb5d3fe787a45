use locaryn_plugin_voice_tts::{
    applies_to, detect_language, has_own_voice, json_str, kokoro_voice_lang, resolve_engine, Engine,
};

#[test]
fn la_langue_se_devine_sur_les_ecritures_et_les_accents() {
    assert_eq!(detect_language("hello there"), "en");
    assert_eq!(detect_language("où est la clé"), "fr");
    assert_eq!(detect_language("grüße dich"), "de");
    assert_eq!(detect_language("こんにちは"), "ja");
    assert_eq!(detect_language("你好世界"), "zh");
    assert_eq!(detect_language("привет"), "ru");
}

#[test]
fn le_prefixe_d_une_voix_kokoro_donne_sa_langue() {
    assert_eq!(kokoro_voice_lang("af_heart"), Some("en"));
    assert_eq!(kokoro_voice_lang("ff_siwis"), Some("fr"));
    assert_eq!(kokoro_voice_lang("jf_alpha"), Some("ja"));
    assert_eq!(kokoro_voice_lang("_bizarre"), None);
}

/// The Base variant can only clone: it must never be the default choice,
/// or every request without a voice fails.
#[test]
fn la_variante_base_n_est_pas_une_voix_autonome() {
    assert!(!has_own_voice("Qwen__Qwen3-TTS-Base"));
    assert!(has_own_voice("Qwen__Qwen3-TTS-CustomVoice"));
    assert!(has_own_voice("hexgrad__Kokoro-82M"));
}

#[test]
fn le_moteur_se_deduit_du_nom_du_depot() {
    assert!(matches!(
        resolve_engine("hexgrad__Kokoro-82M"),
        Ok(Engine::Kokoro)
    ));
    assert!(matches!(
        resolve_engine("Qwen__Qwen3-TTS-CustomVoice"),
        Ok(Engine::Qwen3)
    ));
    assert!(resolve_engine("llama-3-8b").is_err());
}

/// A Windows path holds backslashes: put raw into the Python script, it
/// would produce escape sequences.
#[test]
fn les_chemins_partent_en_litteraux_python_surs() {
    assert_eq!(json_str(r"C:\models\a.pth"), r#""C:\\models\\a.pth""#);
}

#[test]
fn engine_support_reports_what_each_model_really_honours() {
    let base = applies_to("Qwen__Qwen3-TTS-12Hz-0.6B-Base");
    assert!(base.cloning);
    assert!(
        base.reference_text,
        "only the Base variant takes a transcript"
    );
    assert!(base.temperature);

    // CustomVoice ships fixed speakers: it cannot clone from a recording.
    let custom = applies_to("Qwen__Qwen3-TTS-12Hz-1.7B-CustomVoice");
    assert!(!custom.cloning);
    assert!(!custom.reference_text);

    let piper = applies_to("fr_FR-siwis-medium.onnx");
    assert!(!piper.cloning);
    assert!(piper.speed);

    // Pause scaling is post-processing, so it applies everywhere.
    for m in ["piper.onnx", "kokoro", "xtts_v2", "whatever"] {
        assert!(applies_to(m).pause_scale, "{m}");
    }
}

#[test]
fn ascii_text_around_a_text_keeps_its_language() {
    for s in ["où est la clé", "東京に行きます", "Привет", "hello", "¿qué tal?"] {
        let lang = detect_language(s);
        assert_eq!(detect_language(&format!("{s} -- ok 123")), lang);
        assert_eq!(detect_language(&format!("Note: {s}")), lang);
    }
}
