//! Voice presets: what an engine honours of a preset's settings, and the
//! decisions behind saving, listing and deleting presets.

use vstd::prelude::*;
use vstd::string::StringExecFns;
use crate::order::{descending_order, goes_before, is_permutation, stable_order};
use crate::stamps::{stamp_millis, stamp_time};
use crate::paths::{
    drive_relative, extension_of, file_extension, file_name, file_name_of, file_stem, is_absolute, is_drive,
    is_separator, join_path, joined, lemma_joined_keeps_absolute, main_separator, opt_view, set_value, stem_of,
    under_cwd,
};
use crate::text::{
    blank, chars_of, contains_ci, decimal, ends_ci_str, ends_with_ci, has_ci_str, is_blank, push_decimal, trim,
    trimmed, views,
};
use crate::text::{equals_str, lemma_push_contains, lex_lt};

verus! {

/// Which of a preset's settings a given engine actually honours, so that a
/// control that does nothing can be greyed out rather than left to mislead.
pub struct EngineSupport {
    pub engine: String,
    /// Can clone from a reference recording at all.
    pub cloning: bool,
    /// Honours the reference transcript (in-context cloning).
    pub reference_text: bool,
    pub temperature: bool,
    pub speed: bool,
    pub pitch: bool,
    /// Always true: pause scaling is post-processing on the rendered audio.
    pub pause_scale: bool,
    pub instruct: bool,
}

/// A Qwen3-TTS model.
pub open spec fn qwen3_model(m: Seq<char>) -> bool {
    contains_ci(m, "qwen3"@) && contains_ci(m, "tts"@)
}

/// The Base variant of Qwen3-TTS, the one that clones.
pub open spec fn qwen3_base_model(m: Seq<char>) -> bool {
    qwen3_model(m) && contains_ci(m, "base"@)
}

/// An XTTS (Coqui) model.
pub open spec fn xtts_model(m: Seq<char>) -> bool {
    contains_ci(m, "xtts"@) || contains_ci(m, "coqui"@)
}

/// An F5-TTS model.
pub open spec fn f5_model(m: Seq<char>) -> bool {
    contains_ci(m, "f5-tts"@) || contains_ci(m, "f5_tts"@) || contains_ci(m, "f5tts"@)
}

/// A Piper model.
pub open spec fn piper_model(m: Seq<char>) -> bool {
    contains_ci(m, "piper"@) || ends_with_ci(m, ".onnx"@)
}

/// A Kokoro model.
pub open spec fn kokoro_model(m: Seq<char>) -> bool {
    contains_ci(m, "kokoro"@)
}

/// A Parler-TTS model.
pub open spec fn parler_model(m: Seq<char>) -> bool {
    contains_ci(m, "parler"@)
}

/// The engine a model name designates, the first family that matches.
pub open spec fn engine_label(m: Seq<char>) -> Seq<char> {
    if qwen3_model(m) {
        "Qwen3-TTS"@
    } else if xtts_model(m) {
        "XTTS"@
    } else if f5_model(m) {
        "F5-TTS"@
    } else if piper_model(m) {
        "Piper"@
    } else if kokoro_model(m) {
        "Kokoro"@
    } else if parler_model(m) {
        "Parler-TTS"@
    } else {
        "générique"@
    }
}

/// The support a model name implies: Qwen3-TTS clones only in its Base
/// variant, which alone takes a transcript; the others ship fixed speakers.
pub open spec fn supports(s: EngineSupport, m: Seq<char>) -> bool {
    &&& s.engine@ == engine_label(m)
    &&& s.cloning == (qwen3_base_model(m) || xtts_model(m) || f5_model(m))
    &&& s.reference_text == qwen3_base_model(m)
    &&& s.temperature == (qwen3_model(m) || f5_model(m))
    &&& s.speed == !f5_model(m)
    &&& s.pitch == (piper_model(m) || qwen3_model(m))
    &&& s.pause_scale
    &&& s.instruct == (qwen3_model(m) || parler_model(m))
}

/// What each engine honours of a preset, read off the model's name (in
/// any case): Qwen3-TTS (`qwen3` and `tts`) clones and takes a transcript
/// only in its Base variant, and has temperature, pitch and instructions;
/// XTTS (`xtts` or `coqui`) clones; F5-TTS (`f5-tts`, `f5_tts` or `f5tts`)
/// clones and has temperature but no speed; Piper (`piper` or a `.onnx`
/// file) has pitch; Parler-TTS (`parler`) takes instructions; every engine
/// scales pauses.
pub proof fn law_what_engines_honour(s: EngineSupport, m: Seq<char>)
    requires
        supports(s, m),
    ensures
        ({
            let qwen3 = contains_ci(m, "qwen3"@) && contains_ci(m, "tts"@);
            let base = qwen3 && contains_ci(m, "base"@);
            let xtts = contains_ci(m, "xtts"@) || contains_ci(m, "coqui"@);
            let f5 = contains_ci(m, "f5-tts"@) || contains_ci(m, "f5_tts"@) || contains_ci(m, "f5tts"@);
            let piper = contains_ci(m, "piper"@) || ends_with_ci(m, ".onnx"@);
            let parler = contains_ci(m, "parler"@);
            &&& s.cloning <==> (base || xtts || f5)
            &&& s.reference_text <==> base
            &&& s.temperature <==> (qwen3 || f5)
            &&& s.speed <==> !f5
            &&& s.pitch <==> (piper || qwen3)
            &&& s.instruct <==> (qwen3 || parler)
            &&& s.pause_scale
            &&& qwen3 ==> s.engine@ == "Qwen3-TTS"@
            &&& !qwen3 && xtts ==> s.engine@ == "XTTS"@
            &&& !qwen3 && !xtts && f5 ==> s.engine@ == "F5-TTS"@
            &&& !qwen3 && !xtts && !f5 && piper ==> s.engine@ == "Piper"@
            &&& !qwen3 && !xtts && !f5 && !piper && contains_ci(m, "kokoro"@) ==> s.engine@ == "Kokoro"@
            &&& !qwen3 && !xtts && !f5 && !piper && !contains_ci(m, "kokoro"@) && parler ==> s.engine@
                == "Parler-TTS"@
            &&& !qwen3 && !xtts && !f5 && !piper && !contains_ci(m, "kokoro"@) && !parler ==> s.engine@
                == "générique"@
        }),
{
}

/// Every F5-TTS model can clone, and every XTTS model too.
pub proof fn law_f5_and_xtts_clone(s: EngineSupport, m: Seq<char>)
    requires
        supports(s, m),
        contains_ci(m, "f5-tts"@) || contains_ci(m, "f5_tts"@) || contains_ci(m, "f5tts"@) || contains_ci(m, "xtts"@)
            || contains_ci(m, "coqui"@),
    ensures
        s.cloning,
{
}

/// What a model can do with a preset, keyed off its name.
pub fn applies_to(model: &str) -> (s: EngineSupport)
    ensures
        supports(s, model@),
{
    let m = chars_of(model);
    let qwen3 = has_ci_str(&m, "qwen3") && has_ci_str(&m, "tts");
    let qwen3_base = qwen3 && has_ci_str(&m, "base");
    let xtts = has_ci_str(&m, "xtts") || has_ci_str(&m, "coqui");
    let f5 = has_ci_str(&m, "f5-tts") || has_ci_str(&m, "f5_tts") || has_ci_str(&m, "f5tts");
    let piper = has_ci_str(&m, "piper") || ends_ci_str(&m, ".onnx");
    let kokoro = has_ci_str(&m, "kokoro");
    let parler = has_ci_str(&m, "parler");
    let engine = if qwen3 {
        String::from_str("Qwen3-TTS")
    } else if xtts {
        String::from_str("XTTS")
    } else if f5 {
        String::from_str("F5-TTS")
    } else if piper {
        String::from_str("Piper")
    } else if kokoro {
        String::from_str("Kokoro")
    } else if parler {
        String::from_str("Parler-TTS")
    } else {
        String::from_str("générique")
    };
    EngineSupport {
        engine,
        cloning: qwen3_base || xtts || f5,
        reference_text: qwen3_base,
        temperature: qwen3 || f5,
        speed: !f5,
        pitch: piper || qwen3,
        pause_scale: true,
        instruct: qwen3 || parler,
    }
}

/// The support of `model` (see [`applies_to`]); never an error.
pub fn voice_preset_support(model: String) -> (r: Result<EngineSupport, String>)
    ensures
        match r {
            Ok(s) => supports(s, model@),
            Err(_) => false,
        },
{
    Ok(applies_to(model.as_str()))
}

/// The default of the expressive switch: on, since turning in-context
/// cloning off audibly changes who the voice sounds like.
pub fn yes() -> (b: bool)
    ensures
        b,
{
    true
}

/// The default number of candidates the sampler keeps.
pub fn default_top_k() -> (k: u32)
    ensures
        k == 50,
{
    50
}

/// The sampler's candidate count brought into the range engines accept,
/// `1..=200`.
pub fn clamp_top_k(top_k: u32) -> (k: u32)
    ensures
        k == if top_k < 1 {
            1
        } else if top_k > 200 {
            200
        } else {
            top_k
        },
{
    if top_k < 1 {
        1
    } else if top_k > 200 {
        200
    } else {
        top_k
    }
}


/// A lowercase hexadecimal digit.
pub open spec fn is_lower_hex(c: char) -> bool {
    ('0' <= c && c <= '9') || ('a' <= c && c <= 'f')
}

/// The lowercase hyphenated text of a random (version 4, RFC 9562 variant)
/// UUID: `xxxxxxxx-xxxx-4xxx-Nxxx-xxxxxxxxxxxx`, N being one of `8`, `9`,
/// `a`, `b`.
pub open spec fn uuid_v4_text(s: Seq<char>) -> bool {
    &&& s.len() == 36
    &&& forall|i: int| 0 <= i < 36 ==> if i == 8 || i == 13 || i == 18 || i == 23 {
        #[trigger] s[i] == '-'
    } else {
        is_lower_hex(s[i])
    }
    &&& s[14] == '4'
    &&& (s[19] == '8' || s[19] == '9' || s[19] == 'a' || s[19] == 'b')
}

/// A fresh random identifier: `uuid::Uuid::new_v4`, written by its
/// `Display` impl. The crate's source masks the version nibble to 4 and
/// the variant bits to `10`, and writes the 16 bytes as lowercase hex in
/// the 8-4-4-4-12 hyphenated layout; the random bits themselves are unknown.
/// The call panics only if the operating system's random source fails.
#[verifier::external_body]
fn fresh_uuid() -> (id: String)
    ensures
        uuid_v4_text(id@),
{
    uuid::Uuid::new_v4().to_string()
}

/// The identifier of a preset being saved: the given one when updating, a
/// fresh random UUID when creating.
pub fn preset_id(given: &Option<String>) -> (id: String)
    ensures
        match given {
            Some(g) => id@ == g@,
            None => uuid_v4_text(id@),
        },
{
    match given {
        Some(g) => g.clone(),
        None => fresh_uuid(),
    }
}


/// The text of a preset manifest. The numeric settings and the sample's
/// duration travel beside it.
pub struct PresetText {
    pub id: String,
    pub name: String,
    pub note: String,
    /// Path of the copied reference recording.
    pub reference_audio: String,
    pub reference_text: String,
    pub language: String,
    pub engine: String,
    pub created_at: String,
    pub updated_at: String,
}

/// The text of a request to save a preset.
pub struct PresetRequest {
    /// Present when updating an existing preset; absent creates one.
    pub id: Option<String>,
    pub name: String,
    pub note: String,
    /// Source recording; needed when creating, or to replace the sample.
    pub reference_audio: Option<String>,
    pub reference_text: String,
    pub language: String,
    pub engine: String,
}

/// The fields of a preset manifest, as character sequences.
pub struct PresetFields {
    pub id: Seq<char>,
    pub name: Seq<char>,
    pub note: Seq<char>,
    pub reference_audio: Seq<char>,
    pub reference_text: Seq<char>,
    pub language: Seq<char>,
    pub engine: Seq<char>,
    pub created_at: Seq<char>,
    pub updated_at: Seq<char>,
}

impl View for PresetText {
    type V = PresetFields;

    open spec fn view(&self) -> PresetFields {
        PresetFields {
            id: self.id@,
            name: self.name@,
            note: self.note@,
            reference_audio: self.reference_audio@,
            reference_text: self.reference_text@,
            language: self.language@,
            engine: self.engine@,
            created_at: self.created_at@,
            updated_at: self.updated_at@,
        }
    }
}

/// The manifest a save writes: the given texts trimmed, the identifier and
/// stored sample chosen beforehand, the creation date kept from the
/// existing manifest (else now), and the update date empty on creation,
/// now on an update.
pub open spec fn saved_fields(
    name: Seq<char>,
    note: Seq<char>,
    reference_text: Seq<char>,
    recognised: Option<Seq<char>>,
    language: Seq<char>,
    engine: Seq<char>,
    creating: bool,
    id: Seq<char>,
    stored_audio: Seq<char>,
    existing_created: Option<Seq<char>>,
    now: Seq<char>,
) -> PresetFields {
    PresetFields {
        id,
        name: trimmed(name),
        note: trimmed(note),
        reference_audio: stored_audio,
        reference_text: transcript_of(reference_text, recognised),
        language: trimmed(language),
        engine: trimmed(engine),
        created_at: match existing_created {
            Some(c) => c,
            None => now,
        },
        updated_at: if creating {
            Seq::empty()
        } else {
            now
        },
    }
}

/// The transcript a preset keeps of its sample: the given one, trimmed;
/// when it is blank, what speech recognition heard in the sample
/// (`recognised`, trimmed), if it was run.
pub open spec fn transcript_of(given: Seq<char>, recognised: Option<Seq<char>>) -> Seq<char> {
    match recognised {
        Some(r) => if is_blank(given) {
            trimmed(r)
        } else {
            trimmed(given)
        },
        None => trimmed(given),
    }
}

/// The transcript a preset keeps of its sample (see [`transcript_of`]).
pub fn transcript(given: &str, recognised: &Option<String>) -> (t: String)
    ensures
        t@ == transcript_of(given@, opt_view(recognised)),
{
    let g = trim(given);
    match recognised {
        Some(r) => if g.as_str().unicode_len() == 0 {
            trim(r.as_str())
        } else {
            g
        },
        None => g,
    }
}

/// The refusal of a preset without a name.
pub open spec fn unnamed_message() -> Seq<char> {
    "Donnez un nom au préréglage."@
}

/// The name a preset is saved under: `name` trimmed, refused when blank.
pub fn preset_name(name: &str) -> (r: Result<String, String>)
    ensures
        match r {
            Ok(n) => !is_blank(name@) && n@ == trimmed(name@),
            Err(msg) => is_blank(name@) && msg@ == unnamed_message(),
        },
{
    let t = trim(name);
    if t.as_str().unicode_len() == 0 {
        Err(String::from_str("Donnez un nom au préréglage."))
    } else {
        Ok(t)
    }
}

/// The source recording a save copies in: the given path, unless absent or
/// empty.
pub fn sample_source(given: &Option<String>) -> (src: Option<String>)
    ensures
        match given {
            Some(g) => if g@.len() > 0 {
                src is Some && src->0@ == g@
            } else {
                src is None
            },
            None => src is None,
        },
{
    match given {
        Some(g) => if g.as_str().unicode_len() > 0 {
            Some(g.clone())
        } else {
            None
        },
        None => None,
    }
}

/// The refusal of a source recording that is not a file.
pub open spec fn missing_sample_message(src: Seq<char>) -> Seq<char> {
    "enregistrement introuvable : "@ + src
}

/// The refusal of a source recording that is not a file.
pub fn missing_sample(src: &str) -> (msg: String)
    ensures
        msg@ == missing_sample_message(src@),
{
    let mut m = String::from_str("enregistrement introuvable : ");
    m.append(src);
    m
}

/// The name the copied sample takes in the preset's folder: `reference`
/// with the extension of the source's file name, `wav` when it has none.
pub open spec fn reference_name(source: Seq<char>, windows: bool) -> Seq<char> {
    "reference."@ + match file_name_of(source, windows) {
        Some(f) => match extension_of(f) {
            Some(e) => e,
            None => "wav"@,
        },
        None => "wav"@,
    }
}

/// The name the copied sample takes in the preset's folder.
pub fn reference_file_name(source: &str, windows: bool) -> (name: String)
    ensures
        name@ == reference_name(source@, windows),
{
    let mut n = String::from_str("reference.");
    match file_name(source, windows) {
        Some(f) => match file_extension(f.as_str()) {
            Some(e) => n.append(e.as_str()),
            None => n.append("wav"),
        },
        None => n.append("wav"),
    }
    n
}

/// A file of the preset's folder is a sample from a previous save, to be
/// removed: its stem is `reference` and it is not the sample just kept.
pub open spec fn previous_sample(file: Seq<char>, kept: Seq<char>) -> bool {
    stem_of(file) == "reference"@ && file != kept
}

/// Whether a file of the preset's folder is a sample from a previous save.
pub fn is_previous_sample(file: &str, kept: &str) -> (b: bool)
    ensures
        b == previous_sample(file@, kept@),
{
    let stem = file_stem(file);
    equals_str(stem.as_str(), "reference") && !equals_str(file, kept)
}

/// The files of a preset's folder that a save keeping the sample `kept`
/// removes: the samples from previous saves, whatever their format.
pub fn stale_samples(files: &Vec<String>, kept: &str) -> (out: Vec<String>)
    ensures
        forall|f: Seq<char>|
            #[trigger] views(out@).contains(f) <==> views(files@).contains(f) && previous_sample(f, kept@),
{
    let mut out: Vec<String> = Vec::new();
    let mut i: usize = 0;
    while i < files.len()
        invariant
            i <= files.len(),
            forall|f: Seq<char>|
                #[trigger] views(out@).contains(f) <==> views(files@.take(i as int)).contains(f) && previous_sample(
                    f,
                    kept@,
                ),
        decreases files.len() - i,
    {
        let ghost before = views(out@);
        let ghost seen = views(files@.take(i as int));
        assert(views(files@.take(i + 1)) =~= seen.push(files@[i as int]@));
        let keep = is_previous_sample(files[i].as_str(), kept);
        if keep {
            out.push(files[i].clone());
            assert(views(out@) =~= before.push(files@[i as int]@));
        }
        proof {
            assert forall|f: Seq<char>|
                #[trigger] views(out@).contains(f) <==> views(files@.take(i + 1)).contains(f) && previous_sample(
                    f,
                    kept@,
                ) by {
                lemma_push_contains(seen, files@[i as int]@, f);
                if keep {
                    lemma_push_contains(before, files@[i as int]@, f);
                }
            }
        }
        i = i + 1;
    }
    assert(files@.take(files.len() as int) =~= files@);
    out
}

/// The files of a preset's folder once a save has copied the sample `kept`
/// in and removed the stale samples among the files `before` (see
/// [`stale_samples`]).
pub open spec fn folder_after_save(before: Set<Seq<char>>, kept: Seq<char>) -> Set<Seq<char>> {
    before.filter(|f: Seq<char>| !previous_sample(f, kept)).insert(kept)
}

/// After a save that keeps a new sample, the preset's folder holds one
/// sample at most: every file whose stem is `reference` is the one kept.
pub proof fn law_one_sample_after_save(before: Set<Seq<char>>, kept: Seq<char>)
    ensures
        forall|f: Seq<char>|
            #[trigger] folder_after_save(before, kept).contains(f) && stem_of(f) == "reference"@ ==> f == kept,
{
}

/// The refusal of a save that has no sample to keep.
pub open spec fn no_sample_message() -> Seq<char> {
    "Aucun enregistrement de référence fourni."@
}

/// The sample a save keeps when it is given none: the existing manifest's,
/// refused when there is no manifest or it names no sample.
pub fn kept_sample(existing: &Option<String>) -> (r: Result<String, String>)
    ensures
        match r {
            Ok(s) => existing is Some && existing->0@.len() > 0 && s@ == existing->0@,
            Err(msg) => (existing is None || existing->0@.len() == 0) && msg@ == no_sample_message(),
        },
{
    match existing {
        Some(a) => if a.as_str().unicode_len() > 0 {
            Ok(a.clone())
        } else {
            Err(String::from_str("Aucun enregistrement de référence fourni."))
        },
        None => Err(String::from_str("Aucun enregistrement de référence fourni.")),
    }
}

/// The manifest a save writes (see [`saved_fields`]); `id` and
/// `stored_audio` are those chosen by [`preset_id`] and by the sample
/// handling, `existing_created` the creation date of the manifest being
/// replaced, if any, and `recognised` what speech recognition heard in the
/// sample, if it was run.
pub fn assemble_preset(
    req: &PresetRequest,
    id: String,
    stored_audio: String,
    existing_created: Option<String>,
    now: String,
    recognised: Option<String>,
) -> (p: PresetText)
    ensures
        p@ == saved_fields(
            req.name@,
            req.note@,
            req.reference_text@,
            opt_view(&recognised),
            req.language@,
            req.engine@,
            req.id is None,
            id@,
            stored_audio@,
            opt_view(&existing_created),
            now@,
        ),
{
    let creating = req.id.is_none();
    let created_at = match existing_created {
        Some(c) => c,
        None => now.clone(),
    };
    let updated_at = if creating {
        String::new()
    } else {
        now
    };
    PresetText {
        id,
        name: trim(req.name.as_str()),
        note: trim(req.note.as_str()),
        reference_audio: stored_audio,
        reference_text: transcript(req.reference_text.as_str(), &recognised),
        language: trim(req.language.as_str()),
        engine: trim(req.engine.as_str()),
        created_at,
        updated_at,
    }
}

/// Saving again under the identifier of a saved preset, keeping its sample
/// (as [`kept_sample`] does when no new one is given), keeps its identifier,
/// its creation date and its sample, and stamps the update.
pub proof fn law_update_keeps_identity(
    saved: PresetFields,
    name: Seq<char>,
    note: Seq<char>,
    reference_text: Seq<char>,
    recognised: Option<Seq<char>>,
    language: Seq<char>,
    engine: Seq<char>,
    now: Seq<char>,
)
    ensures
        ({
            let updated = saved_fields(
                name,
                note,
                reference_text,
                recognised,
                language,
                engine,
                false,
                saved.id,
                saved.reference_audio,
                Some(saved.created_at),
                now,
            );
            &&& updated.id == saved.id
            &&& updated.created_at == saved.created_at
            &&& updated.reference_audio == saved.reference_audio
            &&& updated.updated_at == now
        }),
{
}


/// Where presets live: `voice_presets` under the folder the host gives this
/// extension (`LOCARYN_EXTENSION_DATA_DIR`, when set and not blank; a
/// relative one is taken from the working directory), else under the working
/// directory (or `.` when it is unknown). Voice samples are the person's
/// data, not weights: they follow the storage root they chose.
pub open spec fn presets_dir_of(data_dir: Option<Seq<char>>, cwd: Option<Seq<char>>, windows: bool) -> Seq<char> {
    match set_value(data_dir) {
        Some(d) => joined(under_cwd(cwd, d, windows), "voice_presets"@, windows),
        None => under_cwd(cwd, "voice_presets"@, windows),
    }
}

/// The presets folder (see [`presets_dir_of`]): it starts at a root
/// whenever the working directory does (unless the data folder is given
/// relative to another drive, such as `D:data`), so the samples saved in it
/// are recorded by absolute paths.
pub fn presets_dir(data_dir: &Option<String>, cwd: &Option<String>, windows: bool) -> (dir: String)
    ensures
        dir@ == presets_dir_of(opt_view(data_dir), opt_view(cwd), windows),
        (opt_view(cwd) matches Some(c) && is_absolute(c, windows) && !(set_value(opt_view(data_dir)) matches Some(
            d,
        ) && drive_relative(d, windows))) ==> is_absolute(dir@, windows),
{
    let base: String = match data_dir {
        Some(d) if !blank(d.as_str()) => match cwd {
            Some(c) => join_path(c.as_str(), d.as_str(), windows),
            None => join_path(".", d.as_str(), windows),
        },
        _ => match cwd {
            Some(c) => c.clone(),
            None => String::from_str("."),
        },
    };
    proof {
        if let Some(c) = opt_view(cwd) {
            if is_absolute(c, windows) {
                if let Some(d) = set_value(opt_view(data_dir)) {
                    if !drive_relative(d, windows) {
                        lemma_joined_keeps_absolute(c, d, windows);
                    }
                }
            }
        }
        reveal_strlit("voice_presets");
        assert(!drive_relative("voice_presets"@, windows));
        if is_absolute(base@, windows) {
            lemma_joined_keeps_absolute(base@, "voice_presets"@, windows);
        }
    }
    join_path(base.as_str(), "voice_presets", windows)
}

/// A sample kept in a preset's folder under a presets folder that starts
/// at a root is recorded by a path that starts at a root too (the preset's
/// identifier and the sample's name being no paths relative to another
/// drive).
pub proof fn law_saved_sample_path_is_absolute(root: Seq<char>, id: Seq<char>, kept: Seq<char>, windows: bool)
    requires
        is_absolute(root, windows),
        !drive_relative(id, windows),
        !drive_relative(kept, windows),
    ensures
        is_absolute(joined(joined(root, id, windows), kept, windows), windows),
{
    lemma_joined_keeps_absolute(root, id, windows);
    lemma_joined_keeps_absolute(joined(root, id, windows), kept, windows);
}

/// The sample a save keeps lies in the preset's own folder: its path is
/// the folder's path followed by the sample's name, whatever the source's
/// path.
pub proof fn law_saved_sample_in_preset_folder(root: Seq<char>, id: Seq<char>, source: Seq<char>, windows: bool)
    ensures
        ({
            let dir = joined(root, id, windows);
            let kept = joined(dir, reference_name(source, windows), windows);
            &&& kept.len() > dir.len()
            &&& kept.take(dir.len() as int) == dir
            &&& kept.skip(kept.len() - reference_name(source, windows).len()) == reference_name(source, windows)
        }),
{
    reveal_strlit("reference.");
    let dir = joined(root, id, windows);
    let name = reference_name(source, windows);
    assert(name[0] == 'r' && name[1] == 'e');
    let kept = joined(dir, name, windows);
    assert(kept.take(dir.len() as int) =~= dir);
    assert(kept.skip(kept.len() - name.len()) =~= name);
}

/// The folder of the preset `id` under the presets folder `root`.
pub fn preset_dir(root: &str, id: &str, windows: bool) -> (dir: String)
    ensures
        dir@ == joined(root@, id@, windows),
{
    join_path(root, id, windows)
}

/// The manifest of the preset `id` under the presets folder `root`.
pub fn manifest_path(root: &str, id: &str, windows: bool) -> (path: String)
    ensures
        path@ == joined(joined(root@, id@, windows), "preset.json"@, windows),
{
    let dir = preset_dir(root, id, windows);
    join_path(dir.as_str(), "preset.json", windows)
}

/// Stamp `a`, read at position `ia`, may be listed before stamp `b`, read at
/// position `ib`, newest first: stamps that name a time come first, the
/// later time first, equal times in the order read; stamps that name none
/// come last, by their text, the greater first, equal texts in the order
/// read.
pub open spec fn listed_before(a: Seq<char>, b: Seq<char>, ia: int, ib: int) -> bool {
    match stamp_millis(a) {
        Some(x) => match stamp_millis(b) {
            Some(y) => y <= x && (x == y ==> ia < ib),
            None => true,
        },
        None => match stamp_millis(b) {
            Some(_) => false,
            None => !lex_lt(a, b) && (a == b ==> ia < ib),
        },
    }
}

/// The order to list presets in, newest first: the indices of the presets,
/// each creation stamp (`created`) read as a time whether it holds decimal
/// seconds or an ISO-8601 stamp, with or without a fraction and a zone
/// (see [`listed_before`]).
pub fn newest_first(created: &Vec<String>) -> (order: Vec<usize>)
    ensures
        is_permutation(order@, created@.len()),
        forall|i: int, j: int|
            0 <= i < j < order@.len() ==> listed_before(
                created@[#[trigger] order@[i] as int]@,
                created@[#[trigger] order@[j] as int]@,
                order@[i] as int,
                order@[j] as int,
            ),
{
    let mut dated: Vec<usize> = Vec::new();
    let mut times: Vec<i64> = Vec::new();
    let mut undated: Vec<usize> = Vec::new();
    let mut texts: Vec<Vec<char>> = Vec::new();
    let mut i: usize = 0;
    while i < created.len()
        invariant
            i <= created.len(),
            dated@.len() == times@.len(),
            undated@.len() == texts@.len(),
            dated@.len() + undated@.len() == i,
            forall|k: int|
                0 <= k < dated@.len() ==> (#[trigger] dated@[k]) < i && stamp_millis(created@[dated@[k] as int]@)
                    == Some(times@[k] as int),
            forall|k: int|
                0 <= k < undated@.len() ==> (#[trigger] undated@[k]) < i && stamp_millis(
                    created@[undated@[k] as int]@,
                ) is None && texts@[k]@ == created@[undated@[k] as int]@,
            forall|a: int, b: int| 0 <= a < b < dated@.len() ==> #[trigger] dated@[a] < #[trigger] dated@[b],
            forall|a: int, b: int| 0 <= a < b < undated@.len() ==> #[trigger] undated@[a] < #[trigger] undated@[b],
        decreases created.len() - i,
    {
        match stamp_time(created[i].as_str()) {
            Some(t) => {
                dated.push(i);
                times.push(t);
            },
            None => {
                undated.push(i);
                texts.push(chars_of(created[i].as_str()));
            },
        }
        i = i + 1;
    }
    let o1 = descending_order(&times);
    let o2 = stable_order(&texts, true);
    let ghost ks = texts@.map_values(|k: Vec<char>| k@);
    let ghost nd = dated@.len() as int;
    let mut out: Vec<usize> = Vec::new();
    let mut k: usize = 0;
    while k < o1.len()
        invariant
            k <= o1.len(),
            o1@.len() == dated@.len(),
            forall|a: int| 0 <= a < o1@.len() ==> (#[trigger] o1@[a]) < dated@.len(),
            out@.len() == k,
            forall|q: int| 0 <= q < k ==> (#[trigger] out@[q]) == dated@[o1@[q] as int],
        decreases o1.len() - k,
    {
        out.push(dated[o1[k]]);
        k = k + 1;
    }
    let mut k: usize = 0;
    while k < o2.len()
        invariant
            k <= o2.len(),
            o1@.len() == nd,
            o2@.len() == undated@.len(),
            forall|a: int| 0 <= a < o2@.len() ==> (#[trigger] o2@[a]) < undated@.len(),
            out@.len() == nd + k,
            forall|q: int| 0 <= q < nd ==> (#[trigger] out@[q]) == dated@[o1@[q] as int],
            forall|q: int| 0 <= q < k ==> (#[trigger] out@[nd + q]) == undated@[o2@[q] as int],
        decreases o2.len() - k,
    {
        out.push(undated[o2[k]]);
        k = k + 1;
    }
    proof {
        let n = created@.len();
        assert forall|q: int| 0 <= q < out@.len() implies (#[trigger] out@[q]) < n by {
            if q < nd {
                assert(o1@[q] < dated@.len());
            } else {
                assert(out@[nd + (q - nd)] == undated@[o2@[q - nd] as int]);
                assert(o2@[q - nd] < undated@.len());
            }
        }
        assert forall|i: int, j: int| 0 <= i < j < out@.len() implies {
            &&& #[trigger] out@[i] != #[trigger] out@[j]
            &&& listed_before(created@[out@[i] as int]@, created@[out@[j] as int]@, out@[i] as int, out@[j] as int)
        } by {
            if j < nd {
                let (a, b) = (o1@[i], o1@[j]);
                assert(a != b);
                assert(times@[b as int] <= times@[a as int]);
                if a < b {
                    assert(dated@[a as int] < dated@[b as int]);
                } else {
                    assert(dated@[b as int] < dated@[a as int]);
                }
            } else if i < nd {
                assert(out@[nd + (j - nd)] == undated@[o2@[j - nd] as int]);
                assert(o2@[j - nd] < undated@.len());
                assert(o1@[i] < dated@.len());
            } else {
                assert(out@[nd + (i - nd)] == undated@[o2@[i - nd] as int]);
                assert(out@[nd + (j - nd)] == undated@[o2@[j - nd] as int]);
                let (a, b) = (o2@[i - nd], o2@[j - nd]);
                assert(a != b);
                assert(!goes_before(ks[b as int], ks[a as int], true));
                assert(ks[a as int] == texts@[a as int]@);
                assert(ks[b as int] == texts@[b as int]@);
                if a < b {
                    assert(undated@[a as int] < undated@[b as int]);
                } else {
                    assert(undated@[b as int] < undated@[a as int]);
                }
            }
        }
    }
    out
}

/// What deleting a preset comes to.
#[derive(Debug, Clone, Copy, PartialEq, Eq, Structural)]
pub enum Deletion {
    /// There is no such folder: nothing to do, and no error.
    Nothing,
    /// The folder holds no manifest: it is not a preset, refuse.
    NotAPreset,
    /// Remove the folder.
    Remove,
}

/// The refusal of a folder that is not a preset.
pub open spec fn not_a_preset_message() -> Seq<char> {
    "Ce dossier ne contient pas de préréglage."@
}

/// What deleting a preset does, given whether its folder and its manifest
/// exist: deleting twice is no error, and a folder without a manifest is
/// never removed, so a bad identifier cannot delete an unrelated tree.
pub open spec fn deletion_of(dir_exists: bool, manifest_exists: bool) -> Deletion {
    if !dir_exists {
        Deletion::Nothing
    } else if !manifest_exists {
        Deletion::NotAPreset
    } else {
        Deletion::Remove
    }
}

/// What deleting a preset does (see [`deletion_of`]).
pub fn deletion(dir_exists: bool, manifest_exists: bool) -> (d: Deletion)
    ensures
        d == deletion_of(dir_exists, manifest_exists),
{
    if !dir_exists {
        Deletion::Nothing
    } else if !manifest_exists {
        Deletion::NotAPreset
    } else {
        Deletion::Remove
    }
}

/// Deleting a saved preset removes its folder, and deleting it again, its
/// folder gone, does nothing and is no error.
pub proof fn law_deleting_twice_is_no_error(manifest_exists: bool)
    ensures
        deletion_of(true, true) == Deletion::Remove,
        deletion_of(false, manifest_exists) == Deletion::Nothing,
{
}

/// The refusal of a folder that is not a preset.
pub fn not_a_preset() -> (msg: String)
    ensures
        msg@ == not_a_preset_message(),
{
    String::from_str("Ce dossier ne contient pas de préréglage.")
}


/// A creation or update stamp: seconds since the epoch, written in
/// decimal; `0` when the clock reads before the epoch. An integer is enough
/// to order presets newest first, which is its only use.
pub fn stamp(seconds: Option<u64>) -> (s: String)
    ensures
        s@ == match seconds {
            Some(n) => decimal(n as nat),
            None => "0"@,
        },
{
    match seconds {
        Some(n) => {
            let mut s = String::new();
            push_decimal(&mut s, n as u128);
            assert(s@ =~= decimal(n as nat));
            s
        },
        None => String::from_str("0"),
    }
}


/// A fresh identifier names exactly one folder right under the presets
/// folder: it holds no separator, so the preset folder is the root, the
/// platform's separator, and the identifier.
pub proof fn law_fresh_id_stays_under_root(root: Seq<char>, id: Seq<char>, windows: bool)
    requires
        uuid_v4_text(id),
        root.len() > 0,
        !is_separator(root.last(), windows),
        !(windows && root.len() == 2 && is_drive(root)),
    ensures
        !id.contains('/'),
        !id.contains('\\'),
        joined(root, id, windows) == root.push(main_separator(windows)) + id,
{
    assert(is_lower_hex(id[0]));
    assert(is_lower_hex(id[1]));
    assert forall|i: int| 0 <= i < id.len() implies id[i] != '/' && id[i] != '\\' by {
        if i == 8 || i == 13 || i == 18 || i == 23 {
            assert(id[i] == '-');
        } else {
            assert(is_lower_hex(id[i]));
        }
    }
}


/// A save under way: the name has been accepted and the identifier chosen,
/// before anything is written.
pub struct SaveCourse {
    req: PresetRequest,
    id: String,
}

impl SaveCourse {
    /// The request being saved.
    pub closed spec fn name(&self) -> Seq<char> {
        self.req.name@
    }

    /// The identifier the preset is saved under.
    pub closed spec fn id(&self) -> Seq<char> {
        self.id@
    }

    /// Whether the save creates a preset rather than updating one.
    pub closed spec fn creating(&self) -> bool {
        self.req.id is None
    }

    /// The source recording asked for, if any.
    pub closed spec fn asked_sample(&self) -> Option<Seq<char>> {
        opt_view(&self.req.reference_audio)
    }

    /// The note asked for.
    pub closed spec fn note(&self) -> Seq<char> {
        self.req.note@
    }

    /// The transcript of the sample given with the request.
    pub closed spec fn reference_text(&self) -> Seq<char> {
        self.req.reference_text@
    }

    /// The language asked for.
    pub closed spec fn language(&self) -> Seq<char> {
        self.req.language@
    }

    /// The engine asked for.
    pub closed spec fn engine(&self) -> Seq<char> {
        self.req.engine@
    }

    /// Starts a save: a preset without a name is refused before anything
    /// else; then the identifier is the given one, or a fresh random one
    /// when creating.
    pub fn begin(req: PresetRequest) -> (r: Result<SaveCourse, String>)
        ensures
            match r {
                Ok(c) => {
                    &&& !is_blank(req.name@)
                    &&& c.name() == req.name@
                    &&& c.note() == req.note@
                    &&& c.reference_text() == req.reference_text@
                    &&& c.language() == req.language@
                    &&& c.engine() == req.engine@
                    &&& c.creating() == (req.id is None)
                    &&& c.asked_sample() == opt_view(&req.reference_audio)
                    &&& match req.id {
                        Some(g) => c.id() == g@,
                        None => uuid_v4_text(c.id()),
                    }
                },
                Err(msg) => is_blank(req.name@) && msg@ == unnamed_message(),
            },
    {
        match preset_name(req.name.as_str()) {
            Err(msg) => Err(msg),
            Ok(_) => {
                let id = preset_id(&req.id);
                Ok(SaveCourse { req, id })
            },
        }
    }

    /// The identifier the preset is saved under.
    pub fn preset_id(&self) -> (id: &str)
        ensures
            id@ == self.id(),
    {
        self.id.as_str()
    }

    /// The source recording to copy in, unless absent or empty.
    pub fn sample_to_copy(&self) -> (src: Option<String>)
        ensures
            match self.asked_sample() {
                Some(g) => if g.len() > 0 {
                    src is Some && src->0@ == g
                } else {
                    src is None
                },
                None => src is None,
            },
    {
        sample_source(&self.req.reference_audio)
    }

    /// The manifest to write, once the sample is kept (see
    /// [`saved_fields`]): `existing_created` is the creation date of the
    /// manifest replaced, if any, and `recognised` what speech recognition
    /// heard in the sample, if it was run.
    pub fn finish(
        self,
        stored_audio: String,
        existing_created: Option<String>,
        now: String,
        recognised: Option<String>,
    ) -> (p: PresetText)
        ensures
            p@ == saved_fields(
                self.name(),
                self.note(),
                self.reference_text(),
                opt_view(&recognised),
                self.language(),
                self.engine(),
                self.creating(),
                self.id(),
                stored_audio@,
                opt_view(&existing_created),
                now@,
            ),
    {
        assemble_preset(&self.req, self.id, stored_audio, existing_created, now, recognised)
    }
}

} // verus!
