use locaryn_plugin_voice_tts::presets::{
    applies_to, assemble_preset, clamp_top_k, default_top_k, deletion, is_previous_sample,
    kept_sample, manifest_path, newest_first, not_a_preset, preset_dir, preset_id, preset_name,
    presets_dir, reference_file_name, sample_source, stale_samples, stamp, transcript,
    voice_preset_support, yes, Deletion, PresetRequest, SaveCourse,
};
use locaryn_plugin_voice_tts::stamps::stamp_time;

fn request(id: Option<&str>, name: &str) -> PresetRequest {
    PresetRequest {
        id: id.map(|s| s.to_string()),
        name: name.to_string(),
        note: " voix douce ".to_string(),
        reference_audio: None,
        reference_text: " et ca m'enerve ".to_string(),
        language: "fr ".to_string(),
        engine: " Qwen3-TTS".to_string(),
    }
}

#[test]
fn saving_without_a_name_or_a_recording_is_refused() {
    let e = preset_name("   ").unwrap_err();
    assert!(e.contains("nom"), "got: {e}");
}

#[test]
fn a_preset_name_is_trimmed() {
    assert_eq!(preset_name("  Ma soeur ").unwrap(), "Ma soeur");
    assert_eq!(preset_name("").unwrap_err(), "Donnez un nom au préréglage.");
}

#[test]
fn new_presets_get_a_random_v4_identifier() {
    let a = preset_id(&None);
    let b = preset_id(&None);
    assert_ne!(a, b);
    assert_eq!(a.len(), 36);
    assert_eq!(a.as_bytes()[14], b'4');
    assert!(matches!(a.as_bytes()[19], b'8' | b'9' | b'a' | b'b'));
    assert_eq!(a.matches('-').count(), 4);
    assert_eq!(preset_id(&Some("abc".to_string())), "abc");
}

#[test]
fn the_sample_is_copied_under_a_reference_name() {
    assert_eq!(sample_source(&Some(String::new())), None);
    assert_eq!(sample_source(&None), None);
    assert_eq!(sample_source(&Some("/d/x.wav".to_string())), Some("/d/x.wav".to_string()));
    assert_eq!(reference_file_name("/downloads/ma_soeur.mp3", false), "reference.mp3");
    assert_eq!(reference_file_name("/downloads/sans_extension", false), "reference.wav");
    assert_eq!(reference_file_name(r"C:\d\voix.flac", true), "reference.flac");
    assert_eq!(reference_file_name("/downloads/", false), "reference.wav");
    assert_eq!(reference_file_name("/downloads/voix.ogg/", false), "reference.ogg");
    assert!(is_previous_sample("reference.mp3", "reference.wav"));
    assert!(!is_previous_sample("reference.wav", "reference.wav"));
    assert!(!is_previous_sample("preset.json", "reference.wav"));
    assert_eq!(kept_sample(&Some("/p/reference.wav".to_string())).unwrap(), "/p/reference.wav");
    assert_eq!(
        kept_sample(&None).unwrap_err(),
        "Aucun enregistrement de référence fourni."
    );
    assert!(kept_sample(&Some(String::new())).is_err());
}

#[test]
fn updating_keeps_the_identifier_the_creation_date_and_the_sample() {
    let created = assemble_preset(
        &request(None, " Ma petite soeur "),
        "id-1".to_string(),
        "/root/id-1/reference.wav".to_string(),
        None,
        "100".to_string(),
        None,
    );
    assert_eq!(created.name, "Ma petite soeur");
    assert_eq!(created.note, "voix douce");
    assert_eq!(created.language, "fr");
    assert_eq!(created.engine, "Qwen3-TTS");
    assert_eq!(created.created_at, "100");
    assert_eq!(created.updated_at, "");

    let kept = kept_sample(&Some(created.reference_audio.clone())).unwrap();
    let updated = assemble_preset(
        &request(Some("id-1"), "Petite soeur"),
        preset_id(&Some(created.id.clone())),
        kept,
        Some(created.created_at.clone()),
        "200".to_string(),
        None,
    );
    assert_eq!(updated.id, created.id);
    assert_eq!(updated.created_at, created.created_at);
    assert_eq!(updated.reference_audio, created.reference_audio);
    assert!(!updated.updated_at.is_empty(), "une mise a jour est horodatee");
    assert_eq!(updated.name, "Petite soeur");
}

#[test]
fn presets_are_listed_newest_first() {
    let created: Vec<String> = ["100", "300", "200", "300"].iter().map(|s| s.to_string()).collect();
    assert_eq!(newest_first(&created), vec![1, 3, 2, 0]);
    assert!(newest_first(&Vec::new()).is_empty());
}

#[test]
fn newest_first_reads_epoch_seconds_and_iso_dates_alike() {
    let created: Vec<String> = ["2020-01-01T00:00:00Z", "1704067200", "pas une date", "2026-07-31T10:00:00Z"]
        .iter()
        .map(|s| s.to_string())
        .collect();
    assert_eq!(newest_first(&created), vec![3, 1, 0, 2]);
    let tied: Vec<String> = ["1577836800", "2020-01-01T00:00:00", "2020-01-01"]
        .iter()
        .map(|s| s.to_string())
        .collect();
    assert_eq!(newest_first(&tied), vec![0, 1, 2]);
    let zoned: Vec<String> = ["2024-05-01T08:00:00+02:00", "2025-05-01T08:00:00.250+02:00", "2025-05-01T06:00:00.5Z"]
        .iter()
        .map(|s| s.to_string())
        .collect();
    assert_eq!(newest_first(&zoned), vec![2, 1, 0]);
    let unread: Vec<String> = ["b", "1", "c", "a", "c"].iter().map(|s| s.to_string()).collect();
    assert_eq!(newest_first(&unread), vec![1, 2, 4, 0, 3]);
}

#[test]
fn creation_stamps_read_as_seconds_since_the_epoch() {
    assert_eq!(stamp_time("1785492000"), Some(1_785_492_000_000));
    assert_eq!(stamp_time("2026-07-31T10:00:00Z"), Some(1_785_492_000_000));
    assert_eq!(stamp_time("2020-01-01"), Some(1_577_836_800_000));
    assert_eq!(stamp_time("2000-02-29T12:30:05"), Some(951_827_405_000));
    assert_eq!(stamp_time("1969-12-31T23:59:59Z"), Some(-1_000));
    assert_eq!(stamp_time("0001-01-01T00:00:00Z"), Some(-62_135_596_800_000));
    assert_eq!(stamp_time("0"), Some(0));
    assert_eq!(stamp_time("2026-07-31T12:00:00+02:00"), Some(1_785_492_000_000));
    assert_eq!(stamp_time("2026-07-31T05:30:00-04:30"), Some(1_785_492_000_000));
    assert_eq!(stamp_time("2026-07-31T10:00:00.5Z"), Some(1_785_492_000_500));
    assert_eq!(stamp_time("2026-07-31T10:00:00.123456+00:00"), Some(1_785_492_000_123));
    assert_eq!(stamp_time("2026-07-31 10:00:00.07"), Some(1_785_492_000_070));
    assert_eq!(stamp_time(""), None);
    assert_eq!(stamp_time("2026-13-01"), None);
    assert_eq!(stamp_time("2026-07-31T24:00:00Z"), None);
    assert_eq!(stamp_time("2026-07-31T10:00:00."), None);
    assert_eq!(stamp_time("2026-07-31T10:00:00+2:00"), None);
    assert_eq!(stamp_time("12a"), None);
}

#[test]
fn presets_live_in_the_host_data_folder() {
    assert_eq!(
        presets_dir(&Some("/data".to_string()), &Some("/w".to_string()), false),
        "/data/voice_presets"
    );
    assert_eq!(presets_dir(&Some("".to_string()), &Some("/w".to_string()), false), "/w/voice_presets");
    assert_eq!(presets_dir(&None, &None, false), "./voice_presets");
    assert_eq!(
        presets_dir(&Some("donnees".to_string()), &Some("/w".to_string()), false),
        "/w/donnees/voice_presets"
    );
    assert_eq!(
        presets_dir(&Some(r"D:\donnees".to_string()), &Some(r"C:\w".to_string()), true),
        r"D:\donnees\voice_presets"
    );
    assert_eq!(presets_dir(&Some("donnees".to_string()), &None, false), "./donnees/voice_presets");
    assert_eq!(
        presets_dir(&Some("donnees".to_string()), &Some(r"C:\w".to_string()), true),
        r"C:\w\donnees\voice_presets"
    );
    assert_eq!(preset_dir("/r", "abc", false), "/r/abc");
    assert_eq!(manifest_path("/r", "abc", false), "/r/abc/preset.json");
    assert_eq!(manifest_path(r"C:\r", "abc", true), r"C:\r\abc\preset.json");
}

#[test]
fn deleting_is_idempotent_and_refuses_foreign_folders() {
    assert_eq!(deletion(false, false), Deletion::Nothing);
    assert_eq!(deletion(true, false), Deletion::NotAPreset);
    assert_eq!(deletion(true, true), Deletion::Remove);
    assert_eq!(not_a_preset(), "Ce dossier ne contient pas de préréglage.");
}

#[test]
fn stamps_and_sampler_defaults() {
    assert_eq!(stamp(Some(1_785_492_000)), "1785492000");
    assert_eq!(stamp(None), "0");
    assert!(yes());
    assert_eq!(default_top_k(), 50);
    assert_eq!(clamp_top_k(0), 1);
    assert_eq!(clamp_top_k(50), 50);
    assert_eq!(clamp_top_k(999), 200);
}

#[test]
fn support_names_the_engine_family() {
    assert_eq!(applies_to("coqui__XTTS-v2").engine, "XTTS");
    assert!(applies_to("coqui__XTTS-v2").cloning);
    let f5 = applies_to("SWivid__F5-TTS");
    assert_eq!(f5.engine, "F5-TTS");
    assert!(!f5.speed);
    assert!(f5.temperature);
    assert_eq!(applies_to("parler-tts-mini").engine, "Parler-TTS");
    assert!(applies_to("parler-tts-mini").instruct);
    assert_eq!(applies_to("hexgrad__Kokoro-82M").engine, "Kokoro");
    assert_eq!(applies_to("whatever").engine, "générique");
    assert_eq!(voice_preset_support("piper.onnx".to_string()).unwrap().engine, "Piper");
}

#[test]
fn a_save_course_refuses_a_blank_name_and_keeps_a_given_id() {
    assert_eq!(
        SaveCourse::begin(request(None, " ")).err().unwrap(),
        "Donnez un nom au préréglage."
    );
    let mut req = request(Some("abc"), "Ma soeur");
    req.reference_audio = Some("/d/x.wav".to_string());
    let course = SaveCourse::begin(req).ok().unwrap();
    assert_eq!(course.preset_id(), "abc");
    assert_eq!(course.sample_to_copy(), Some("/d/x.wav".to_string()));
    let p = course.finish("/r/abc/reference.wav".to_string(), Some("7".to_string()), "9".to_string(), None);
    assert_eq!(p.id, "abc");
    assert_eq!(p.note, "voix douce");
    assert_eq!(p.reference_text, "et ca m'enerve");
    assert_eq!(p.language, "fr");
    assert_eq!(p.engine, "Qwen3-TTS");
    assert_eq!(p.name, "Ma soeur");
    assert_eq!(p.created_at, "7");
    assert_eq!(p.updated_at, "9");
    let fresh = SaveCourse::begin(request(None, "x")).ok().unwrap();
    assert_eq!(fresh.preset_id().len(), 36);
}

#[test]
fn a_blank_transcript_is_replaced_by_what_recognition_heard() {
    assert_eq!(transcript("  ", &Some(" bonjour a tous ".to_string())), "bonjour a tous");
    assert_eq!(transcript(" dit ", &Some("entendu".to_string())), "dit");
    assert_eq!(transcript(" ", &None), "");
    let mut req = request(None, "Voix");
    req.reference_text = " ".to_string();
    let course = SaveCourse::begin(req).ok().unwrap();
    let p = course.finish("/r/x/reference.wav".to_string(), None, "5".to_string(), Some("salut".to_string()));
    assert_eq!(p.reference_text, "salut");
    assert_eq!(p.created_at, "5");
    assert_eq!(p.updated_at, "");
}

#[test]
fn a_save_removes_the_samples_of_earlier_saves() {
    let files: Vec<String> = ["preset.json", "reference.mp3", "reference.wav", "reference.flac", "notes.txt"]
        .iter()
        .map(|s| s.to_string())
        .collect();
    assert_eq!(
        stale_samples(&files, "reference.wav"),
        vec!["reference.mp3".to_string(), "reference.flac".to_string()]
    );
    assert!(stale_samples(&Vec::new(), "reference.wav").is_empty());
}
