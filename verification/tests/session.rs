use locaryn_plugin_voice_tts::session::{AwaitPython, FoundFile, KokoroRun, QwenScript, Request};
use locaryn_plugin_voice_tts::Engine;

fn request(text: &str, voice: &str, language: Option<&str>) -> Request {
    Request {
        text: text.to_string(),
        voice: voice.to_string(),
        language: language.map(|l| l.to_string()),
        reference_audio: None,
        reference_text: None,
        preset: None,
    }
}

#[test]
fn a_blank_text_stops_the_course_at_once() {
    let err = AwaitPython::begin(request(" \n ", "", None)).err().unwrap();
    assert_eq!(err, "Texte vide : rien à dire.");
}

#[test]
fn a_full_course_reports_the_model_voice_and_language() {
    let course = AwaitPython::begin(request("où est la clé", "", None)).ok().unwrap();
    let course = course.python_found(Some("python".to_string())).ok().unwrap();
    let usable = vec!["hexgrad__Kokoro-82M".to_string(), "piper".to_string()];
    let course = course.models_listed(usable).ok().unwrap();
    assert_eq!(course.model_name(), "hexgrad__Kokoro-82M");
    let course = course.repo_located(Some("/m/hexgrad__Kokoro-82M".to_string())).ok().unwrap();
    let course = course.output_prepared(Ok(())).ok().unwrap();
    assert_eq!(course.engine_to_run(), Engine::Kokoro);
    assert_eq!(course.language_code(), "fr");
    assert_eq!(course.python_exe(), "python");
    assert_eq!(course.repo_folder(), "/m/hexgrad__Kokoro-82M");
    assert_eq!(course.text_to_speak(), "où est la clé");
    let course = course.kokoro_finished(Ok("ff_siwis".to_string())).ok().unwrap();
    let done = course.audio_checked(true).ok().unwrap();
    assert_eq!(done.model, "hexgrad__Kokoro-82M");
    assert_eq!(done.voice, Some("ff_siwis".to_string()));
    assert_eq!(done.language, "fr");
}

#[test]
fn each_step_stops_the_course_with_its_own_refusal() {
    let start = || AwaitPython::begin(request("hello", "", Some("en"))).ok().unwrap();
    assert_eq!(
        start().python_found(None).err().unwrap(),
        "Python introuvable. Installez Python 3.10 ou plus récent."
    );
    let models = || start().python_found(Some("py".to_string())).ok().unwrap();
    assert!(models().models_listed(Vec::new()).err().unwrap().starts_with("Aucun modèle"));
    let repo = || models().models_listed(vec!["llama-3-8b".to_string()]).ok().unwrap();
    assert_eq!(
        repo().repo_located(None).err().unwrap(),
        "Modèle introuvable dans la bibliothèque : llama-3-8b"
    );
    let output = || repo().repo_located(Some("/m/llama".to_string())).ok().unwrap();
    assert_eq!(output().output_prepared(Err("disque plein".to_string())).err().unwrap(), "disque plein");
    assert!(output().output_prepared(Ok(())).err().unwrap().starts_with("Modèle audio non pris en charge"));
}

#[test]
fn an_engine_failure_or_a_missing_file_stops_the_course() {
    let ready = || {
        AwaitPython::begin(request("hi", "Qwen__Qwen3-TTS-CustomVoice", Some(" ja ")))
            .ok()
            .unwrap()
            .python_found(Some("py".to_string()))
            .ok()
            .unwrap()
            .models_listed(Vec::new())
            .ok()
            .unwrap()
            .repo_located(Some("/m/q".to_string()))
            .ok()
            .unwrap()
            .output_prepared(Ok(()))
            .ok()
            .unwrap()
    };
    assert_eq!(ready().engine_to_run(), Engine::Qwen3);
    assert_eq!(ready().language_code(), "ja");
    assert_eq!(ready().qwen_finished(Err("boom".to_string())).err().unwrap(), "boom");
    let done = ready().qwen_finished(Ok(())).ok().unwrap().audio_checked(true).ok().unwrap();
    assert_eq!(done.voice, None);
    assert_eq!(done.model, "Qwen__Qwen3-TTS-CustomVoice");
    let audio = ready().qwen_finished(Ok(())).ok().unwrap();
    assert_eq!(
        audio.audio_checked(false).err().unwrap(),
        "Le moteur s'est terminé sans écrire de fichier audio."
    );
}

fn found(path: &str) -> FoundFile {
    FoundFile {
        path: path.to_string(),
        name: path.rsplit('/').next().unwrap().to_string(),
    }
}

#[test]
fn a_kokoro_run_finds_weights_voice_and_writes_its_script() {
    let run = KokoroRun::new(
        "/m/kokoro".to_string(),
        "/o/tts_1.wav".to_string(),
        "fr".to_string(),
        "1.2".to_string(),
        false,
    );
    let files = vec![found("/m/kokoro/config.json"), found("/m/kokoro/kokoro-v1_0.pth")];
    let run = run.files_found(files).ok().unwrap();
    let voices = vec!["af_heart".to_string(), "ff_siwis".to_string()];
    let run = run.voices_listed(voices).ok().unwrap();
    assert_eq!(run.voice_path(), "/m/kokoro/voices/ff_siwis.pt");
    let script = run.voice_file_checked(true).ok().unwrap();
    assert!(script.script_text().contains("model_path = \"/m/kokoro/kokoro-v1_0.pth\""));
    assert!(script.script_text().contains("voice_name = \"ff_siwis\"\nlang_code  = \"fr\""));
    assert_eq!(script.ran(Ok(())).unwrap(), "ff_siwis");
}

#[test]
fn a_kokoro_run_stops_at_the_first_thing_missing() {
    let run = || KokoroRun::new("/m/k".to_string(), "/o.wav".to_string(), "en".to_string(), "1".to_string(), false);
    assert_eq!(
        run().files_found(vec![found("/m/k/a.json")]).err().unwrap(),
        "Aucun fichier .pth ou .onnx dans le dépôt Kokoro."
    );
    let voices = || run().files_found(vec![found("/m/k/w.onnx")]).ok().unwrap();
    assert_eq!(
        voices().voices_listed(Vec::new()).err().unwrap(),
        "Aucune voix Kokoro dans le dossier voices/."
    );
    let file = voices().voices_listed(vec!["jf_alpha".to_string()]).ok().unwrap();
    assert_eq!(
        file.voice_file_checked(false).err().unwrap(),
        "Voix Kokoro introuvable : /m/k/voices/jf_alpha.pt"
    );
    let script = voices()
        .voices_listed(vec!["jf_alpha".to_string()])
        .ok()
        .unwrap()
        .voice_file_checked(true)
        .ok()
        .unwrap();
    assert!(script.script_text().contains("lang_code  = \"ja\""));
    assert_eq!(script.ran(Err("x".to_string())).unwrap_err(), "Kokoro a échoué : x");
}

#[test]
fn a_qwen_run_refuses_the_base_variant_and_reports_failures() {
    assert!(QwenScript::prepare("/m/Qwen3-TTS-Base", "/o.wav", "fr", "1", &None, &None, false).is_err());
    assert!(QwenScript::prepare("/m/Qwen3-TTS-Base/", "/o.wav", "fr", "1", &None, &None, false).is_err());
    let script =
        QwenScript::prepare("/m/Qwen3-TTS-CustomVoice", "/o.wav", "fr", "1", &None, &None, false).ok().unwrap();
    assert!(script.script_text().contains("repo_dir = \"/m/Qwen3-TTS-CustomVoice\""));
    assert_eq!(script.ran(Err("y".to_string())).unwrap_err(), "Qwen3-TTS a échoué : y");
}

#[test]
fn kokoro_refuses_a_reference_recording_rather_than_ignore_it() {
    let mut req = request("Bonjour", "hexgrad__Kokoro-82M", None);
    req.reference_audio = Some("/tmp/ref.wav".to_string());
    let models = AwaitPython::begin(req).ok().unwrap().python_found(Some("py".to_string())).ok().unwrap();
    let err = models.models_listed(Vec::new()).err().unwrap();
    assert!(err.starts_with("Kokoro ne clone pas"));

    let mut req = request("Bonjour", "", None);
    req.reference_audio = Some("/tmp/ref.wav".to_string());
    let models = AwaitPython::begin(req).ok().unwrap().python_found(Some("py".to_string())).ok().unwrap();
    assert!(models.models_listed(vec!["hexgrad__Kokoro-82M".to_string()]).is_err());

    let mut req = request("Bonjour", "Qwen__Qwen3-TTS-CustomVoice", None);
    req.reference_audio = Some("/tmp/ref.wav".to_string());
    let models = AwaitPython::begin(req).ok().unwrap().python_found(Some("py".to_string())).ok().unwrap();
    assert!(models.models_listed(Vec::new()).is_ok());

    let mut req = request("Bonjour", "hexgrad__Kokoro-82M", None);
    req.reference_audio = Some(String::new());
    let models = AwaitPython::begin(req).ok().unwrap().python_found(Some("py".to_string())).ok().unwrap();
    assert!(models.models_listed(Vec::new()).is_ok());
}

fn course_with(voice: &str, reference: Option<&str>, preset: Option<&str>) -> AwaitPython {
    let mut req = request("Bonjour", voice, Some("fr"));
    req.reference_audio = reference.map(|r| r.to_string());
    req.reference_text = reference.map(|_| "Bonjour a tous".to_string());
    req.preset = preset.map(|p| p.to_string());
    AwaitPython::begin(req).ok().unwrap()
}

fn ready_from(course: AwaitPython, repo: &str) -> locaryn_plugin_voice_tts::session::ReadyToRun {
    course
        .python_found(Some("py".to_string()))
        .ok()
        .unwrap()
        .models_listed(Vec::new())
        .ok()
        .unwrap()
        .repo_located(Some(repo.to_string()))
        .ok()
        .unwrap()
        .output_prepared(Ok(()))
        .ok()
        .unwrap()
}

#[test]
fn a_preset_lends_its_recording_and_transcript_to_the_run() {
    let course = course_with("Qwen__Qwen3-TTS-12Hz-1.7B-Base", None, Some("abc"));
    assert_eq!(course.preset_wanted(), Some("abc".to_string()));
    let course = course
        .preset_loaded(Some(("/p/abc/reference.wav".to_string(), "Salut".to_string())))
        .ok()
        .unwrap();
    let ready = ready_from(course, "/m/Qwen__Qwen3-TTS-12Hz-1.7B-Base");
    let script = ready.qwen_script("/o.wav", "1", false).ok().unwrap();
    assert!(script.script_text().contains("ref_audio = \"/p/abc/reference.wav\""));
    assert!(script.script_text().contains("ref_text = \"Salut\""));
    assert!(script.script_text().contains("generate_voice_clone"));
}

#[test]
fn a_missing_preset_stops_the_course() {
    let course = course_with("", None, Some("nope"));
    assert_eq!(course.preset_loaded(None).err().unwrap(), "Préréglage introuvable : nope");
    let course = course_with("", None, None);
    assert_eq!(course.preset_wanted(), None);
    assert!(course.preset_loaded(None).is_ok());
}

#[test]
fn a_direct_recording_wins_over_the_preset() {
    let course = course_with("Qwen__Qwen3-TTS-Base", Some("/d/moi.wav"), Some("abc"));
    let course = course.preset_loaded(Some(("/p/ref.wav".to_string(), "x".to_string()))).ok().unwrap();
    let ready = ready_from(course, "/m/Qwen3-TTS-Base");
    let script = ready.qwen_script("/o.wav", "1", false).ok().unwrap();
    assert!(script.script_text().contains("ref_audio = \"/d/moi.wav\""));
    assert!(script.script_text().contains("ref_text = \"Bonjour a tous\""));
}

#[test]
fn only_the_base_variant_clones() {
    let ready = ready_from(course_with("Qwen__Qwen3-TTS-CustomVoice", Some("/d/moi.wav"), None), "/m/Qwen3-TTS-CustomVoice");
    assert!(ready.qwen_script("/o.wav", "1", false).err().unwrap().contains("ne clone pas"));
    let ready = ready_from(course_with("Qwen__Qwen3-TTS-Base", None, None), "/m/Qwen3-TTS-Base");
    assert!(ready.qwen_script("/o.wav", "1", false).err().unwrap().contains("Base"));
    let script = QwenScript::prepare(
        "/m/Qwen3-TTS-Base",
        "/o.wav",
        "fr",
        "1",
        &Some("/d/moi.wav".to_string()),
        &None,
        false,
    )
    .ok()
    .unwrap();
    assert!(script.script_text().contains("ref_text = \"\""));
}
