use locaryn_plugin_voice_tts::voices::{
    kokoro_voices_in_repo, list_usable_voices, list_voices, pick_weights, resolve_engine,
    resolve_kokoro_voice, ModelEntry,
};

fn entry(name: &str, is_dir: bool) -> ModelEntry {
    ModelEntry { name: name.to_string(), is_dir }
}

fn strings(v: &[&str]) -> Vec<String> {
    v.iter().map(|s| s.to_string()).collect()
}

#[test]
fn installed_models_are_recognised_sorted_and_deduplicated() {
    let entries = vec![
        entry("Qwen__Qwen3-TTS-CustomVoice", true),
        entry("hexgrad__Kokoro-82M", true),
        entry("fr_FR-siwis-medium.onnx", false),
        entry("llama-3-8b", true),
        entry("notes.txt", false),
        entry("stray.onnx", true),
        entry("hexgrad__Kokoro-82M", true),
        entry("coqui__XTTS-v2", true),
        entry("Qwen__Qwen3-Base", true),
        entry("FR.ONNX", false),
    ];
    assert_eq!(
        list_voices(&entries),
        strings(&[
            "FR.ONNX",
            "Qwen__Qwen3-TTS-CustomVoice",
            "coqui__XTTS-v2",
            "fr_FR-siwis-medium.onnx",
            "hexgrad__Kokoro-82M",
        ])
    );
    assert!(list_voices(&Vec::new()).is_empty());
}

#[test]
fn usable_voices_put_kokoro_first_then_piper_and_drop_base_variants() {
    let installed = strings(&[
        "Qwen__Qwen3-TTS-Base",
        "Qwen__Qwen3-TTS-CustomVoice",
        "a_piper_voice",
        "fr_FR-siwis-medium.onnx",
        "hexgrad__Kokoro-82M",
        "zz_kokoro",
    ]);
    assert_eq!(
        list_usable_voices(&installed),
        strings(&[
            "hexgrad__Kokoro-82M",
            "zz_kokoro",
            "a_piper_voice",
            "fr_FR-siwis-medium.onnx",
            "Qwen__Qwen3-TTS-CustomVoice",
        ])
    );
}

#[test]
fn unsupported_models_are_refused_with_their_name() {
    assert_eq!(
        resolve_engine("llama-3-8b").unwrap_err(),
        "Modèle audio non pris en charge : llama-3-8b. Moteurs connus : Kokoro, Qwen3-TTS."
    );
    // Qwen3 without "tts" is not a speech model.
    assert!(resolve_engine("Qwen__Qwen3-8B").is_err());
}

#[test]
fn kokoro_voices_are_the_sorted_stems_of_pt_files() {
    let files = strings(&[
        "am_michael.pt",
        "af_heart.pt",
        "README.md",
        ".pt",
        "ff.siwis.pt",
        "bf_emma.PT",
        "voices.bin",
        "af_heart.pt",
    ]);
    assert_eq!(
        kokoro_voices_in_repo(&files),
        strings(&["af_heart", "af_heart", "am_michael", "ff.siwis"])
    );
    assert!(kokoro_voices_in_repo(&Vec::new()).is_empty());
}

#[test]
fn a_kokoro_voice_is_picked_by_language_then_english_then_first() {
    let voices = strings(&["af_heart", "ff_siwis", "jf_alpha"]);
    assert_eq!(resolve_kokoro_voice(&voices, "fr").unwrap(), "ff_siwis");
    assert_eq!(resolve_kokoro_voice(&voices, "ko").unwrap(), "af_heart");
    let no_english = strings(&["jf_alpha", "ff_siwis"]);
    assert_eq!(resolve_kokoro_voice(&no_english, "de").unwrap(), "jf_alpha");
    assert_eq!(
        resolve_kokoro_voice(&Vec::new(), "fr").unwrap_err(),
        "Aucune voix Kokoro dans le dossier voices/."
    );
}

#[test]
fn the_first_weights_file_is_found_in_any_case() {
    let files = strings(&["config.json", "voices", "kokoro-v1_0.PTH", "model.onnx"]);
    assert_eq!(pick_weights(&files), Some(2));
    assert_eq!(pick_weights(&strings(&["a.json", ".onnx"])), None);
}
