//! The course of one synthesis, as a sequence of states. Each state is
//! reached only from the one before, once the outside work it waits for
//! (finding Python, listing the models, finding the repository, preparing
//! the output folder, running the engine, checking the file) has been done
//! and its outcome handed in. Every refusal happens at its own step, and an
//! empty text is refused before anything else is done.

use vstd::prelude::*;
use crate::language::voice_language;
use crate::paths::{joined, opt_view};
use crate::synth::{
    base_variant_message, choose_model, empty_text_message, kokoro_lang_code, kokoro_script, kokoro_script_text,
    kokoro_voice_file, missing_model, missing_model_message, missing_voice_file, no_audio, no_model_message,
    no_python, no_weights, prefixed, qwen_repo_accepted, names_base_variant, qwen_script, qwen_script_text, speakable_text,
    qwen_clone_script, qwen_clone_script_text, custom_voice_reference_message, custom_voice_refuses_reference,
    speech_language, speech_language_of,
};
use crate::text::{blank, is_blank, views};
use crate::voices::{
    engine_of, kokoro_pick, pick_weights, resolve_engine, resolve_kokoro_voice, unsupported_model_message,
    weights_file, Engine,
};

verus! {

/// What was asked: the text, the model (blank for the first usable one),
/// the language (absent or blank to guess it from the text), the reference
/// recording to clone and its transcript, if any, and the voice preset to
/// speak with, if any (its recording and transcript serve when no recording
/// is given directly).
pub struct Request {
    pub text: String,
    pub voice: String,
    pub language: Option<String>,
    pub reference_audio: Option<String>,
    pub reference_text: Option<String>,
    pub preset: Option<String>,
}

/// A preset is asked for: named, and not blank.
pub open spec fn preset_asked(preset: Option<Seq<char>>) -> bool {
    preset is Some && !is_blank(preset->0)
}

/// The refusal of a preset that is not saved.
pub open spec fn missing_preset_message(id: Seq<char>) -> Seq<char> {
    "Préréglage introuvable : "@ + id
}

/// A transcript, or the empty text when there is none.
pub open spec fn transcript_or_empty(t: Option<Seq<char>>) -> Seq<char> {
    match t {
        Some(v) => v,
        None => Seq::empty(),
    }
}

/// A reference recording is given: present and not empty.
pub open spec fn reference_given(reference: Option<Seq<char>>) -> bool {
    reference is Some && reference->0.len() > 0
}

/// The refusal of a reference recording given to Kokoro.
pub open spec fn kokoro_reference_message() -> Seq<char> {
    "Kokoro ne clone pas : il parle avec ses voix livrées. Retirez l'enregistrement de référence, ou prenez un modèle Qwen3-TTS."@
}

/// The refusal of a reference recording given to Kokoro.
pub fn kokoro_refuses_reference() -> (msg: String)
    ensures
        msg@ == kokoro_reference_message(),
{
    String::from_str(
        "Kokoro ne clone pas : il parle avec ses voix livrées. Retirez l'enregistrement de référence, ou prenez un modèle Qwen3-TTS.",
    )
}

/// The model a synthesis speaks with: the one asked for, or when none is,
/// the first of the usable installed models.
pub open spec fn chosen_model(voice: Seq<char>, usable: Seq<String>) -> Seq<char> {
    if is_blank(voice) {
        usable[0]@
    } else {
        voice
    }
}

/// The request accepted; waiting for the Python interpreter to be found.
pub struct AwaitPython {
    req: Request,
}

/// Python found; waiting for the list of usable installed models.
pub struct AwaitModels {
    req: Request,
    python: String,
}

/// Model chosen; waiting for its repository to be found.
pub struct AwaitRepo {
    req: Request,
    python: String,
    model: String,
}

/// Repository found; waiting for the output folder to be prepared.
pub struct AwaitOutput {
    req: Request,
    python: String,
    model: String,
    repo_dir: String,
}

/// Everything is set; waiting for the engine to run.
pub struct ReadyToRun {
    req: Request,
    python: String,
    model: String,
    repo_dir: String,
    language: String,
    engine: Engine,
}

/// The engine ran; waiting to know whether it wrote the audio file.
pub struct AwaitAudio {
    model: String,
    language: String,
    voice: Option<String>,
}

/// A finished synthesis: the repository that spoke, the voice chosen
/// inside it, and the language spoken.
pub struct Synthesized {
    pub model: String,
    pub voice: Option<String>,
    pub language: String,
}

impl AwaitPython {
    /// The text to speak.
    pub closed spec fn text(&self) -> Seq<char> {
        self.req.text@
    }

    /// The model asked for.
    pub closed spec fn voice(&self) -> Seq<char> {
        self.req.voice@
    }

    /// The language asked for.
    pub closed spec fn asked_language(&self) -> Option<Seq<char>> {
        opt_view(&self.req.language)
    }

    /// The reference recording given, if any.
    pub closed spec fn reference(&self) -> Option<Seq<char>> {
        opt_view(&self.req.reference_audio)
    }

    /// The transcript of the reference recording, if any.
    pub closed spec fn reference_text(&self) -> Option<Seq<char>> {
        opt_view(&self.req.reference_text)
    }

    /// The preset asked for, if any.
    pub closed spec fn preset(&self) -> Option<Seq<char>> {
        opt_view(&self.req.preset)
    }

    /// Starts a synthesis: a blank text is refused at once, before Python
    /// is even looked for.
    pub fn begin(req: Request) -> (r: Result<AwaitPython, String>)
        ensures
            match r {
                Ok(s) => !is_blank(req.text@) && s.text() == req.text@ && s.voice() == req.voice@
                    && s.asked_language() == opt_view(&req.language) && s.reference() == opt_view(
                    &req.reference_audio,
                ) && s.reference_text() == opt_view(&req.reference_text) && s.preset() == opt_view(&req.preset),
                Err(msg) => is_blank(req.text@) && msg@ == empty_text_message(),
            },
    {
        match speakable_text(req.text.as_str()) {
            Ok(()) => Ok(AwaitPython { req }),
            Err(msg) => Err(msg),
        }
    }

    /// The preset whose recording and transcript are to be read, if one is
    /// asked for.
    pub fn preset_wanted(&self) -> (id: Option<String>)
        ensures
            match id {
                Some(p) => preset_asked(self.preset()) && p@ == self.preset()->0,
                None => !preset_asked(self.preset()),
            },
    {
        match &self.req.preset {
            Some(p) => if blank(p.as_str()) {
                None
            } else {
                Some(p.clone())
            },
            None => None,
        }
    }

    /// Hands in the recording and the transcript of the preset asked for,
    /// as read from its manifest (none when it is not saved). A preset that
    /// is asked for and missing stops the synthesis; one that is found lends
    /// its recording and transcript unless a recording is given directly.
    /// Without a preset asked for, nothing changes.
    pub fn preset_loaded(self, preset: Option<(String, String)>) -> (r: Result<AwaitPython, String>)
        ensures
            match r {
                Ok(s) => {
                    &&& s.text() == self.text()
                    &&& s.voice() == self.voice()
                    &&& s.asked_language() == self.asked_language()
                    &&& s.preset() == self.preset()
                    &&& if preset_asked(self.preset()) && !reference_given(self.reference()) {
                        &&& preset matches Some((audio, text))
                        &&& s.reference() == Some(audio@)
                        &&& s.reference_text() == Some(text@)
                    } else {
                        &&& (preset_asked(self.preset()) ==> preset is Some)
                        &&& s.reference() == self.reference()
                        &&& s.reference_text() == self.reference_text()
                    }
                },
                Err(msg) => preset_asked(self.preset()) && preset is None && msg@ == missing_preset_message(
                    self.preset()->0,
                ),
            },
    {
        let asked = self.preset_wanted();
        match asked {
            None => Ok(self),
            Some(id) => match preset {
                None => Err(prefixed("Préréglage introuvable : ", id.as_str())),
                Some((audio, text)) => {
                    let given = match &self.req.reference_audio {
                        Some(a) => a.as_str().unicode_len() > 0,
                        None => false,
                    };
                    if given {
                        Ok(self)
                    } else {
                        let mut req = self.req;
                        req.reference_audio = Some(audio);
                        req.reference_text = Some(text);
                        Ok(AwaitPython { req })
                    }
                },
            },
        }
    }

    /// Hands in the interpreter found, if any; without one the synthesis
    /// stops.
    pub fn python_found(self, python: Option<String>) -> (r: Result<AwaitModels, String>)
        ensures
            match r {
                Ok(s) => python is Some && s.python() == python->0@ && s.text() == self.text()
                    && s.voice() == self.voice() && s.asked_language() == self.asked_language()
                    && s.reference() == self.reference() && s.reference_text() == self.reference_text(),
                Err(msg) => python is None && msg@ == "Python introuvable. Installez Python 3.10 ou plus récent."@,
            },
    {
        match python {
            Some(p) => Ok(AwaitModels { req: self.req, python: p }),
            None => Err(no_python()),
        }
    }
}

impl AwaitModels {
    /// The text to speak.
    pub closed spec fn text(&self) -> Seq<char> {
        self.req.text@
    }

    /// The model asked for.
    pub closed spec fn voice(&self) -> Seq<char> {
        self.req.voice@
    }

    /// The language asked for.
    pub closed spec fn asked_language(&self) -> Option<Seq<char>> {
        opt_view(&self.req.language)
    }

    /// The Python interpreter.
    pub closed spec fn python(&self) -> Seq<char> {
        self.python@
    }

    /// The reference recording given, if any.
    pub closed spec fn reference(&self) -> Option<Seq<char>> {
        opt_view(&self.req.reference_audio)
    }

    /// The transcript of the reference recording, if any.
    pub closed spec fn reference_text(&self) -> Option<Seq<char>> {
        opt_view(&self.req.reference_text)
    }

    /// Hands in the usable installed models, the most self-sufficient first;
    /// the model asked for is kept, else the first of them speaks. Kokoro
    /// does not clone: a reference recording given to it is refused here,
    /// before anything is run, rather than silently ignored.
    pub fn models_listed(self, usable: Vec<String>) -> (r: Result<AwaitRepo, String>)
        ensures
            match r {
                Ok(s) => {
                    &&& if is_blank(self.voice()) {
                        usable@.len() > 0 && s.model() == usable@[0]@
                    } else {
                        s.model() == self.voice()
                    }
                    &&& s.text() == self.text()
                    &&& s.asked_language() == self.asked_language()
                    &&& s.python() == self.python()
                    &&& s.reference() == self.reference()
                    &&& s.reference_text() == self.reference_text()
                    &&& !(engine_of(s.model()) == Some(Engine::Kokoro) && reference_given(self.reference()))
                },
                Err(msg) => if is_blank(self.voice()) && usable@.len() == 0 {
                    msg@ == no_model_message()
                } else {
                    &&& engine_of(chosen_model(self.voice(), usable@)) == Some(Engine::Kokoro)
                    &&& reference_given(self.reference())
                    &&& msg@ == kokoro_reference_message()
                },
            },
    {
        match choose_model(self.req.voice.as_str(), &usable) {
            Ok(model) => {
                let given = match &self.req.reference_audio {
                    Some(a) => a.as_str().unicode_len() > 0,
                    None => false,
                };
                if given {
                    if let Ok(Engine::Kokoro) = resolve_engine(model.as_str()) {
                        return Err(kokoro_refuses_reference());
                    }
                }
                Ok(AwaitRepo { req: self.req, python: self.python, model })
            },
            Err(msg) => Err(msg),
        }
    }
}

impl AwaitRepo {
    /// The text to speak.
    pub closed spec fn text(&self) -> Seq<char> {
        self.req.text@
    }

    /// The language asked for.
    pub closed spec fn asked_language(&self) -> Option<Seq<char>> {
        opt_view(&self.req.language)
    }

    /// The Python interpreter.
    pub closed spec fn python(&self) -> Seq<char> {
        self.python@
    }

    /// The model that will speak.
    pub closed spec fn model(&self) -> Seq<char> {
        self.model@
    }

    /// The reference recording given, if any.
    pub closed spec fn reference(&self) -> Option<Seq<char>> {
        opt_view(&self.req.reference_audio)
    }

    /// The transcript of the reference recording, if any.
    pub closed spec fn reference_text(&self) -> Option<Seq<char>> {
        opt_view(&self.req.reference_text)
    }

    /// The model whose repository is to be found.
    pub fn model_name(&self) -> (m: &str)
        ensures
            m@ == self.model(),
    {
        self.model.as_str()
    }

    /// Hands in the repository found for the model, if any; a model absent
    /// from every model folder stops the synthesis.
    pub fn repo_located(self, repo_dir: Option<String>) -> (r: Result<AwaitOutput, String>)
        ensures
            match r {
                Ok(s) => repo_dir is Some && s.repo_dir() == repo_dir->0@ && s.model() == self.model()
                    && s.text() == self.text() && s.asked_language() == self.asked_language()
                    && s.python() == self.python() && s.reference() == self.reference()
                    && s.reference_text() == self.reference_text(),
                Err(msg) => repo_dir is None && msg@ == missing_model_message(self.model()),
            },
    {
        match repo_dir {
            Some(d) => Ok(AwaitOutput { req: self.req, python: self.python, model: self.model, repo_dir: d }),
            None => Err(missing_model(self.model.as_str())),
        }
    }
}

impl AwaitOutput {
    /// The text to speak.
    pub closed spec fn text(&self) -> Seq<char> {
        self.req.text@
    }

    /// The language asked for.
    pub closed spec fn asked_language(&self) -> Option<Seq<char>> {
        opt_view(&self.req.language)
    }

    /// The Python interpreter.
    pub closed spec fn python(&self) -> Seq<char> {
        self.python@
    }

    /// The model that will speak.
    pub closed spec fn model(&self) -> Seq<char> {
        self.model@
    }

    /// The repository of the model.
    pub closed spec fn repo_dir(&self) -> Seq<char> {
        self.repo_dir@
    }

    /// The reference recording given, if any.
    pub closed spec fn reference(&self) -> Option<Seq<char>> {
        opt_view(&self.req.reference_audio)
    }

    /// The transcript of the reference recording, if any.
    pub closed spec fn reference_text(&self) -> Option<Seq<char>> {
        opt_view(&self.req.reference_text)
    }

    /// Hands in the outcome of preparing the output folder (its failure
    /// stops the synthesis with the message given); then the language to
    /// speak is settled and the engine is told by the model's name, a model
    /// no engine drives stopping the synthesis.
    pub fn output_prepared(self, prepared: Result<(), String>) -> (r: Result<ReadyToRun, String>)
        ensures
            match r {
                Ok(s) => {
                    &&& prepared is Ok
                    &&& engine_of(self.model()) == Some(s.engine())
                    &&& s.language() == speech_language_of(self.asked_language(), self.text())
                    &&& s.model() == self.model()
                    &&& s.repo_dir() == self.repo_dir()
                    &&& s.python() == self.python()
                    &&& s.text() == self.text()
                    &&& s.reference() == self.reference()
                    &&& s.reference_text() == self.reference_text()
                },
                Err(msg) => match prepared {
                    Err(e) => msg@ == e@,
                    Ok(()) => engine_of(self.model()) is None && msg@ == unsupported_model_message(self.model()),
                },
            },
    {
        if let Err(e) = prepared {
            return Err(e);
        }
        let language = speech_language(&self.req.language, self.req.text.as_str());
        match resolve_engine(self.model.as_str()) {
            Ok(engine) => Ok(ReadyToRun {
                req: self.req,
                python: self.python,
                model: self.model,
                repo_dir: self.repo_dir,
                language,
                engine,
            }),
            Err(msg) => Err(msg),
        }
    }
}

impl ReadyToRun {
    /// The text to speak.
    pub closed spec fn text(&self) -> Seq<char> {
        self.req.text@
    }

    /// The Python interpreter.
    pub closed spec fn python(&self) -> Seq<char> {
        self.python@
    }

    /// The model that will speak.
    pub closed spec fn model(&self) -> Seq<char> {
        self.model@
    }

    /// The repository of the model.
    pub closed spec fn repo_dir(&self) -> Seq<char> {
        self.repo_dir@
    }

    /// The language to speak.
    pub closed spec fn language(&self) -> Seq<char> {
        self.language@
    }

    /// The engine to run.
    pub closed spec fn engine(&self) -> Engine {
        self.engine
    }

    /// The reference recording given, if any.
    pub closed spec fn reference(&self) -> Option<Seq<char>> {
        opt_view(&self.req.reference_audio)
    }

    /// The transcript of the reference recording, if any.
    pub closed spec fn reference_text(&self) -> Option<Seq<char>> {
        opt_view(&self.req.reference_text)
    }

    /// The engine is the one the model's name tells.
    #[verifier::type_invariant]
    closed spec fn engine_matches(self) -> bool {
        engine_of(self.model@) == Some(self.engine)
    }

    /// The engine to run.
    pub fn engine_to_run(&self) -> (e: Engine)
        ensures
            e == self.engine(),
    {
        self.engine
    }

    /// The Python interpreter to run it with.
    pub fn python_exe(&self) -> (p: &str)
        ensures
            p@ == self.python(),
    {
        self.python.as_str()
    }

    /// The repository to run it from.
    pub fn repo_folder(&self) -> (p: &str)
        ensures
            p@ == self.repo_dir(),
    {
        self.repo_dir.as_str()
    }

    /// The text to speak.
    pub fn text_to_speak(&self) -> (t: &str)
        ensures
            t@ == self.text(),
    {
        self.req.text.as_str()
    }

    /// The language to speak.
    pub fn language_code(&self) -> (l: &str)
        ensures
            l@ == self.language(),
    {
        self.language.as_str()
    }

    /// Prepares the Qwen3-TTS run of this synthesis, writing `out_file` at
    /// `speed` (as Python reads it), with the reference recording and its
    /// transcript, if any (see [`QwenScript::prepare`]).
    pub fn qwen_script(&self, out_file: &str, speed: &str, windows: bool) -> (r: Result<QwenScript, String>)
        ensures
            qwen_outcome(
                r,
                self.repo_dir(),
                out_file@,
                self.language(),
                speed@,
                self.reference(),
                self.reference_text(),
                windows,
            ),
    {
        QwenScript::prepare(
            self.repo_dir.as_str(),
            out_file,
            self.language.as_str(),
            speed,
            &self.req.reference_audio,
            &self.req.reference_text,
            windows,
        )
    }

    /// Hands in the outcome of running Kokoro: the voice it spoke with, or
    /// its failure, which stops the synthesis.
    pub fn kokoro_finished(self, run: Result<String, String>) -> (r: Result<AwaitAudio, String>)
        requires
            self.engine() == Engine::Kokoro,
        ensures
            match r {
                Ok(s) => run is Ok && s.model() == self.model() && s.language() == self.language()
                    && s.voice() == Some(run->Ok_0@) && engine_of(s.model()) == Some(Engine::Kokoro),
                Err(msg) => run is Err && msg@ == run->Err_0@,
            },
    {
        proof {
            use_type_invariant(&self);
        }
        match run {
            Ok(voice) => Ok(AwaitAudio { model: self.model, language: self.language, voice: Some(voice) }),
            Err(e) => Err(e),
        }
    }

    /// Hands in the outcome of running Qwen3-TTS, which names no voice: done,
    /// or its failure, which stops the synthesis.
    pub fn qwen_finished(self, run: Result<(), String>) -> (r: Result<AwaitAudio, String>)
        requires
            self.engine() == Engine::Qwen3,
        ensures
            match r {
                Ok(s) => run is Ok && s.model() == self.model() && s.language() == self.language()
                    && s.voice() is None && engine_of(s.model()) == Some(Engine::Qwen3),
                Err(msg) => run is Err && msg@ == run->Err_0@,
            },
    {
        proof {
            use_type_invariant(&self);
        }
        match run {
            Ok(()) => Ok(AwaitAudio { model: self.model, language: self.language, voice: None }),
            Err(e) => Err(e),
        }
    }
}

impl AwaitAudio {
    /// The model that spoke.
    pub closed spec fn model(&self) -> Seq<char> {
        self.model@
    }

    /// The language spoken.
    pub closed spec fn language(&self) -> Seq<char> {
        self.language@
    }

    /// The voice spoken with.
    pub closed spec fn voice(&self) -> Option<Seq<char>> {
        opt_view(&self.voice)
    }

    /// A voice is named exactly when Kokoro spoke.
    #[verifier::type_invariant]
    closed spec fn voice_matches(self) -> bool {
        (self.voice is Some) <==> engine_of(self.model@) == Some(Engine::Kokoro)
    }

    /// Hands in whether the engine wrote the audio file: an engine that
    /// ended without writing it is a failure.
    pub fn audio_checked(self, written: bool) -> (r: Result<Synthesized, String>)
        ensures
            match r {
                Ok(s) => written && s.model@ == self.model() && s.language@ == self.language()
                    && opt_view(&s.voice) == self.voice() && (s.voice is Some <==> engine_of(s.model@) == Some(
                    Engine::Kokoro,
                )),
                Err(msg) => !written && msg@ == "Le moteur s'est terminé sans écrire de fichier audio."@,
            },
    {
        proof {
            use_type_invariant(&self);
        }
        if written {
            Ok(Synthesized { model: self.model, voice: self.voice, language: self.language })
        } else {
            Err(no_audio())
        }
    }
}

/// A file found under a Kokoro repository: its path, and its own name.
pub struct FoundFile {
    pub path: String,
    pub name: String,
}

/// A Kokoro run being prepared: waiting for the files of the repository.
pub struct KokoroRun {
    repo_dir: String,
    out_file: String,
    language: String,
    speed: String,
    windows: bool,
}

/// Weights found; waiting for the voices the repository ships.
pub struct KokoroVoices {
    run: KokoroRun,
    weights: String,
}

/// Voice chosen; waiting to know whether its file is there.
pub struct KokoroVoiceFile {
    run: KokoroRun,
    weights: String,
    voice: String,
    voice_pt: String,
}

/// The script is written; waiting for Python to run it.
pub struct KokoroScript {
    voice: String,
    script: String,
}

impl KokoroRun {
    /// The repository.
    pub closed spec fn repo_dir(&self) -> Seq<char> {
        self.repo_dir@
    }

    /// The WAV to write.
    pub closed spec fn out_file(&self) -> Seq<char> {
        self.out_file@
    }

    /// The language to speak.
    pub closed spec fn language(&self) -> Seq<char> {
        self.language@
    }

    /// The speed, as Python reads it.
    pub closed spec fn speed(&self) -> Seq<char> {
        self.speed@
    }

    /// Whether paths are those of Windows.
    pub closed spec fn windows(&self) -> bool {
        self.windows
    }

    /// Prepares a Kokoro run of the repository `repo_dir`, writing
    /// `out_file`, in `language`, at `speed` (as Python reads it), with the
    /// paths of Windows when `windows` holds.
    pub fn new(repo_dir: String, out_file: String, language: String, speed: String, windows: bool) -> (r: KokoroRun)
        ensures
            r.repo_dir() == repo_dir@,
            r.out_file() == out_file@,
            r.language() == language@,
            r.speed() == speed@,
            r.windows() == windows,
    {
        KokoroRun { repo_dir, out_file, language, speed, windows }
    }

    /// Hands in the files under the repository: the first weights file
    /// among them is used; without one the run stops.
    pub fn files_found(self, files: Vec<FoundFile>) -> (r: Result<KokoroVoices, String>)
        ensures
            match r {
                Ok(s) => exists|i: int|
                    0 <= i < files@.len() && weights_file((#[trigger] files@[i]).name@) && s.weights() == files@[i].path@
                        && forall|k: int| 0 <= k < i ==> !weights_file((#[trigger] files@[k]).name@),
                Err(msg) => (forall|k: int| 0 <= k < files@.len() ==> !weights_file((#[trigger] files@[k]).name@))
                    && msg@ == "Aucun fichier .pth ou .onnx dans le dépôt Kokoro."@,
            },
            r matches Ok(s) ==> s.run() == self,
    {
        let mut names: Vec<String> = Vec::new();
        let mut i: usize = 0;
        while i < files.len()
            invariant
                i <= files.len(),
                names@.len() == i,
                forall|k: int| 0 <= k < i ==> (#[trigger] names@[k])@ == files@[k].name@,
            decreases files.len() - i,
        {
            names.push(files[i].name.clone());
            i = i + 1;
        }
        match pick_weights(&names) {
            Some(k) => {
                let weights = files[k].path.clone();
                assert(weights_file(files@[k as int].name@));
                assert forall|j: int| 0 <= j < k implies !weights_file((#[trigger] files@[j]).name@) by {
                    assert(names@[j]@ == files@[j].name@);
                }
                Ok(KokoroVoices { run: self, weights })
            },
            None => {
                assert forall|j: int| 0 <= j < files@.len() implies !weights_file((#[trigger] files@[j]).name@) by {
                    assert(names@[j]@ == files@[j].name@);
                }
                Err(no_weights())
            },
        }
    }
}

impl KokoroVoices {
    /// The run being prepared.
    pub closed spec fn run(&self) -> KokoroRun {
        self.run
    }

    /// The weights file.
    pub closed spec fn weights(&self) -> Seq<char> {
        self.weights@
    }

    /// Hands in the voices the repository ships (see
    /// `kokoro_voices_in_repo`): one in the language to speak, else an
    /// English one, else the first; without any the run stops.
    pub fn voices_listed(self, voices: Vec<String>) -> (r: Result<KokoroVoiceFile, String>)
        ensures
            match r {
                Ok(s) => {
                    &&& voices@.len() > 0
                    &&& s.voice() == kokoro_pick(views(voices@), self.run().language())
                    &&& s.voice_file() == joined(
                        joined(self.run().repo_dir(), "voices"@, self.run().windows()),
                        s.voice() + ".pt"@,
                        self.run().windows(),
                    )
                    &&& s.weights() == self.weights()
                    &&& s.run() == self.run()
                },
                Err(msg) => voices@.len() == 0 && msg@ == "Aucune voix Kokoro dans le dossier voices/."@,
            },
    {
        match resolve_kokoro_voice(&voices, self.run.language.as_str()) {
            Ok(voice) => {
                let voice_pt = kokoro_voice_file(self.run.repo_dir.as_str(), voice.as_str(), self.run.windows);
                Ok(KokoroVoiceFile { run: self.run, weights: self.weights, voice, voice_pt })
            },
            Err(msg) => Err(msg),
        }
    }
}

impl KokoroVoiceFile {
    /// The run being prepared.
    pub closed spec fn run(&self) -> KokoroRun {
        self.run
    }

    /// The weights file.
    pub closed spec fn weights(&self) -> Seq<char> {
        self.weights@
    }

    /// The voice chosen.
    pub closed spec fn voice(&self) -> Seq<char> {
        self.voice@
    }

    /// The file of the voice chosen.
    pub closed spec fn voice_file(&self) -> Seq<char> {
        self.voice_pt@
    }

    /// The file of the voice chosen, whose presence is to be checked.
    pub fn voice_path(&self) -> (p: &str)
        ensures
            p@ == self.voice_file(),
    {
        self.voice_pt.as_str()
    }

    /// Hands in whether the voice file is there: without it the run stops;
    /// with it the script is written, the pipeline started in the language
    /// the voice's prefix announces.
    pub fn voice_file_checked(self, present: bool) -> (r: Result<KokoroScript, String>)
        ensures
            match r {
                Ok(s) => {
                    let lang = match voice_language(self.voice()) {
                        Some(l) => l,
                        None => "en"@,
                    };
                    &&& present
                    &&& s.voice() == self.voice()
                    &&& s.script() == kokoro_script(
                        self.weights(),
                        self.voice_file(),
                        self.run().out_file(),
                        self.voice(),
                        lang,
                        self.run().speed(),
                    )
                },
                Err(msg) => !present && msg@ == "Voix Kokoro introuvable : "@ + self.voice_file(),
            },
    {
        if !present {
            return Err(missing_voice_file(self.voice_pt.as_str()));
        }
        let lang = kokoro_lang_code(self.voice.as_str());
        let script = kokoro_script_text(
            self.weights.as_str(),
            self.voice_pt.as_str(),
            self.run.out_file.as_str(),
            self.voice.as_str(),
            lang,
            self.run.speed.as_str(),
        );
        Ok(KokoroScript { voice: self.voice, script })
    }
}

impl KokoroScript {
    /// The voice spoken with.
    pub closed spec fn voice(&self) -> Seq<char> {
        self.voice@
    }

    /// The script to run.
    pub closed spec fn script(&self) -> Seq<char> {
        self.script@
    }

    /// The script to run, with the text on standard input.
    pub fn script_text(&self) -> (s: &str)
        ensures
            s@ == self.script(),
    {
        self.script.as_str()
    }

    /// Hands in the outcome of running the script: the voice spoken with,
    /// or the failure, reported as Kokoro's.
    pub fn ran(self, run: Result<(), String>) -> (r: Result<String, String>)
        ensures
            match r {
                Ok(v) => run is Ok && v@ == self.voice(),
                Err(msg) => run is Err && msg@ == "Kokoro a échoué : "@ + run->Err_0@,
            },
    {
        match run {
            Ok(()) => Ok(self.voice),
            Err(e) => Err(prefixed("Kokoro a échoué : ", e.as_str())),
        }
    }
}

/// What preparing a Qwen3-TTS run of the repository `repo` gives. With a
/// reference recording, the Base variant clones it (with its transcript,
/// empty when there is none) and the other variants, which speak only
/// their shipped voices, refuse it rather than ignore it. Without one, the
/// Base variant, which can only clone, is refused, and the others speak
/// with their first shipped voice.
pub open spec fn qwen_outcome(
    r: Result<QwenScript, String>,
    repo: Seq<char>,
    out: Seq<char>,
    lang: Seq<char>,
    speed: Seq<char>,
    reference: Option<Seq<char>>,
    reference_text: Option<Seq<char>>,
    windows: bool,
) -> bool {
    if reference_given(reference) {
        if names_base_variant(repo, windows) {
            r matches Ok(s) && s.script() == qwen_clone_script(
                repo,
                out,
                lang,
                speed,
                reference->0,
                transcript_or_empty(reference_text),
            )
        } else {
            r matches Err(msg) && msg@ == custom_voice_reference_message()
        }
    } else if names_base_variant(repo, windows) {
        r matches Err(msg) && msg@ == base_variant_message()
    } else {
        r matches Ok(s) && s.script() == qwen_script(repo, out, lang, speed)
    }
}

/// A Qwen3-TTS run, its script written; waiting for Python to run it.
pub struct QwenScript {
    script: String,
}

impl QwenScript {
    /// The script to run.
    pub closed spec fn script(&self) -> Seq<char> {
        self.script@
    }

    /// Prepares a Qwen3-TTS run of the repository `repo_dir`, writing
    /// `out_file`, in `language`, at `speed` (as Python reads it), cloning
    /// the reference recording when one is given (see [`qwen_outcome`]).
    pub fn prepare(
        repo_dir: &str,
        out_file: &str,
        language: &str,
        speed: &str,
        reference_audio: &Option<String>,
        reference_text: &Option<String>,
        windows: bool,
    ) -> (r: Result<QwenScript, String>)
        ensures
            qwen_outcome(
                r,
                repo_dir@,
                out_file@,
                language@,
                speed@,
                opt_view(reference_audio),
                opt_view(reference_text),
                windows,
            ),
    {
        let given = match reference_audio {
            Some(a) => a.as_str().unicode_len() > 0,
            None => false,
        };
        let base = qwen_repo_accepted(repo_dir, windows).is_err();
        if given {
            if base {
                let audio = reference_audio.as_ref().unwrap();
                let script = match reference_text {
                    Some(t) => qwen_clone_script_text(repo_dir, out_file, language, speed, audio.as_str(), t.as_str()),
                    None => qwen_clone_script_text(repo_dir, out_file, language, speed, audio.as_str(), ""),
                };
                proof {
                    reveal_strlit("");
                    assert(""@ =~= Seq::<char>::empty());
                }
                Ok(QwenScript { script })
            } else {
                Err(custom_voice_refuses_reference())
            }
        } else {
            match qwen_repo_accepted(repo_dir, windows) {
                Ok(()) => Ok(QwenScript { script: qwen_script_text(repo_dir, out_file, language, speed) }),
                Err(msg) => Err(msg),
            }
        }
    }

    /// The script to run, with the text on standard input.
    pub fn script_text(&self) -> (s: &str)
        ensures
            s@ == self.script(),
    {
        self.script.as_str()
    }

    /// Hands in the outcome of running the script, a failure being reported
    /// as Qwen3-TTS's.
    pub fn ran(self, run: Result<(), String>) -> (r: Result<(), String>)
        ensures
            match r {
                Ok(()) => run is Ok,
                Err(msg) => run is Err && msg@ == "Qwen3-TTS a échoué : "@ + run->Err_0@,
            },
    {
        match run {
            Ok(()) => Ok(()),
            Err(e) => Err(prefixed("Qwen3-TTS a échoué : ", e.as_str())),
        }
    }
}

} // verus!
