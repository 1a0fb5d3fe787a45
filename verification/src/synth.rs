//! The decisions of a synthesis: refusing what cannot be spoken, choosing
//! the model, the language and the voice, naming the output, writing the
//! Python script each engine runs, and reporting a failed run.

use vstd::prelude::*;
use vstd::string::StringExecFns;
use crate::json::{json_literal, json_str};
use crate::language::{detect_language, kokoro_voice_lang, language_of, voice_language};
use crate::paths::{file_name, file_name_of, join_path, joined, opt_view, set_value};
use crate::text::{
    blank, chars_of, contains_ci, decimal, has_ci_str, is_blank, lines_of, push_decimal, split_lines, trim, trimmed,
    views,
};

verus! {

/// Piece 0 of the Kokoro script.
pub const KOKORO_0: &'static str = "\nimport sys\nmodel_path = ";

/// Piece 1 of the Kokoro script.
pub const KOKORO_1: &'static str = "\nvoice_pt   = ";

/// Piece 2 of the Kokoro script.
pub const KOKORO_2: &'static str = "\nout_path   = ";

/// Piece 3 of the Kokoro script.
pub const KOKORO_3: &'static str = "\nvoice_name = ";

/// Piece 4 of the Kokoro script.
pub const KOKORO_4: &'static str = "\nlang_code  = ";

/// Piece 5 of the Kokoro script.
pub const KOKORO_5: &'static str = "\nspeed = ";

/// Piece 6 of the Kokoro script.
pub const KOKORO_6: &'static str = "\n\ntext = sys.stdin.read()\n\ntry:\n    from kokoro import KPipeline\n    import soundfile as sf\n    import numpy as np\n    pipeline = KPipeline(lang_code=lang_code[0])\n    chunks = []\n    for _gs, _ps, audio in pipeline(text, voice=voice_name, speed=speed):\n        chunks.append(audio)\n    if not chunks:\n        print(\"Kokoro n'a produit aucun segment audio.\", file=sys.stderr)\n        sys.exit(1)\n    sf.write(out_path, np.concatenate(chunks), 24000)\nexcept ImportError:\n    try:\n        from kokoro_onnx import Kokoro\n        import soundfile as sf\n        k = Kokoro(model_path, voice_pt)\n        audio, sr = k.create(text, voice=voice_name, speed=speed, lang=lang_code)\n        sf.write(out_path, audio, sr)\n    except ImportError:\n        print(\"Ni `kokoro` ni `kokoro-onnx` n'est installe dans ce Python.\", file=sys.stderr)\n        sys.exit(1)\n";

/// Piece 0 of the Qwen3-TTS script.
pub const QWEN_0: &'static str = "\nimport sys\nrepo_dir = ";

/// Piece 1 of the Qwen3-TTS script.
pub const QWEN_1: &'static str = "\nout_path = ";

/// Piece 2 of the Qwen3-TTS script.
pub const QWEN_2: &'static str = "\nlang  = ";

/// Piece 3 of the Qwen3-TTS script.
pub const QWEN_3: &'static str = "\nspeed = ";

/// Piece 4 of the Qwen3-TTS script.
pub const QWEN_4: &'static str = "\n\ntext = sys.stdin.read()\n\ntry:\n    from qwen_tts import Qwen3TTSModel\nexcept ImportError:\n    print(\"Le paquet `qwen-tts` n'est pas installe dans ce Python.\", file=sys.stderr)\n    sys.exit(1)\n\nimport torch\ndevice = \"cuda\" if torch.cuda.is_available() else \"cpu\"\ndtype  = torch.float16 if device == \"cuda\" else torch.float32\n\nmodel = Qwen3TTSModel.from_pretrained(repo_dir, dtype=dtype, device_map=device)\nspeakers = model.get_supported_speakers()\nwavs, sr = model.generate_custom_voice(\n    text=text,\n    speaker=speakers[0] if speakers else None,\n    language=lang,\n    temperature=max(0.05, 0.7 + (1.0 - speed) * 0.1),\n)\n\nwav = wavs[0] if isinstance(wavs, list) else wavs\nif hasattr(wav, \"detach\"):\n    wav = wav.detach().cpu().numpy()\nelif hasattr(wav, \"numpy\"):\n    wav = wav.numpy()\n\nimport soundfile as sf\nsf.write(out_path, wav, sr)\n";

/// The script that renders `text` (read on standard input) with Kokoro:
/// the `kokoro` pipeline when installed, else `kokoro-onnx`.
pub open spec fn kokoro_script(
    model: Seq<char>,
    voice_pt: Seq<char>,
    out: Seq<char>,
    voice: Seq<char>,
    lang: Seq<char>,
    speed: Seq<char>,
) -> Seq<char> {
    KOKORO_0@ + json_literal(model) + KOKORO_1@ + json_literal(voice_pt) + KOKORO_2@ + json_literal(out)
        + KOKORO_3@ + json_literal(voice) + KOKORO_4@ + json_literal(lang) + KOKORO_5@ + speed
        + KOKORO_6@
}

/// The Kokoro script for the weights `model`, the voice file `voice_pt`, the
/// output `out`, the voice `voice`, the language code `lang`, and the speed
/// as Python reads it.
pub fn kokoro_script_text(model: &str, voice_pt: &str, out: &str, voice: &str, lang: &str, speed: &str) -> (s: String)
    ensures
        s@ == kokoro_script(model@, voice_pt@, out@, voice@, lang@, speed@),
{
    let mut s = String::from_str(KOKORO_0);
    s.append(json_str(model).as_str());
    s.append(KOKORO_1);
    s.append(json_str(voice_pt).as_str());
    s.append(KOKORO_2);
    s.append(json_str(out).as_str());
    s.append(KOKORO_3);
    s.append(json_str(voice).as_str());
    s.append(KOKORO_4);
    s.append(json_str(lang).as_str());
    s.append(KOKORO_5);
    s.append(speed);
    s.append(KOKORO_6);
    s
}

/// The script that renders `text` (read on standard input) with Qwen3-TTS
/// and its first shipped speaker, on the GPU when there is one.
pub open spec fn qwen_script(repo: Seq<char>, out: Seq<char>, lang: Seq<char>, speed: Seq<char>) -> Seq<char> {
    QWEN_0@ + json_literal(repo) + QWEN_1@ + json_literal(out) + QWEN_2@ + json_literal(lang) + QWEN_3@
        + speed + QWEN_4@
}

/// The Qwen3-TTS script for the repository `repo`, the output `out`, the
/// language `lang`, and the speed as Python reads it.
pub fn qwen_script_text(repo: &str, out: &str, lang: &str, speed: &str) -> (s: String)
    ensures
        s@ == qwen_script(repo@, out@, lang@, speed@),
{
    let mut s = String::from_str(QWEN_0);
    s.append(json_str(repo).as_str());
    s.append(QWEN_1);
    s.append(json_str(out).as_str());
    s.append(QWEN_2);
    s.append(json_str(lang).as_str());
    s.append(QWEN_3);
    s.append(speed);
    s.append(QWEN_4);
    s
}


/// Piece 5 of the Qwen3-TTS cloning script, after the speed: the reference
/// recording.
pub const QWEN_CLONE_5: &'static str = "\nref_audio = ";

/// Piece 6 of the Qwen3-TTS cloning script: the reference transcript.
pub const QWEN_CLONE_6: &'static str = "\nref_text = ";

/// Piece 7 of the Qwen3-TTS cloning script.
pub const QWEN_CLONE_7: &'static str = "\n\ntext = sys.stdin.read()\n\ntry:\n    from qwen_tts import Qwen3TTSModel\nexcept ImportError:\n    print(\"Le paquet `qwen-tts` n'est pas installe dans ce Python.\", file=sys.stderr)\n    sys.exit(1)\n\nimport torch\ndevice = \"cuda\" if torch.cuda.is_available() else \"cpu\"\ndtype  = torch.float16 if device == \"cuda\" else torch.float32\n\nmodel = Qwen3TTSModel.from_pretrained(repo_dir, dtype=dtype, device_map=device)\nwavs, sr = model.generate_voice_clone(\n    text=text,\n    language=lang,\n    ref_audio=ref_audio,\n    ref_text=ref_text if ref_text else None,\n    x_vector_only_mode=not ref_text,\n    temperature=max(0.05, 0.7 + (1.0 - speed) * 0.1),\n)\n\nwav = wavs[0] if isinstance(wavs, list) else wavs\nif hasattr(wav, \"detach\"):\n    wav = wav.detach().cpu().numpy()\nelif hasattr(wav, \"numpy\"):\n    wav = wav.numpy()\n\nimport soundfile as sf\nsf.write(out_path, wav, sr)\n";

/// The script that renders `text` (read on standard input) with Qwen3-TTS's
/// Base variant in the voice of the recording `ref_audio`, whose transcript
/// `ref_text` helps when it is not empty.
pub open spec fn qwen_clone_script(
    repo: Seq<char>,
    out: Seq<char>,
    lang: Seq<char>,
    speed: Seq<char>,
    ref_audio: Seq<char>,
    ref_text: Seq<char>,
) -> Seq<char> {
    QWEN_0@ + json_literal(repo) + QWEN_1@ + json_literal(out) + QWEN_2@ + json_literal(lang) + QWEN_3@ + speed
        + QWEN_CLONE_5@ + json_literal(ref_audio) + QWEN_CLONE_6@ + json_literal(ref_text) + QWEN_CLONE_7@
}

/// The Qwen3-TTS cloning script (see [`qwen_clone_script`]).
pub fn qwen_clone_script_text(
    repo: &str,
    out: &str,
    lang: &str,
    speed: &str,
    ref_audio: &str,
    ref_text: &str,
) -> (s: String)
    ensures
        s@ == qwen_clone_script(repo@, out@, lang@, speed@, ref_audio@, ref_text@),
{
    let mut s = String::from_str(QWEN_0);
    s.append(json_str(repo).as_str());
    s.append(QWEN_1);
    s.append(json_str(out).as_str());
    s.append(QWEN_2);
    s.append(json_str(lang).as_str());
    s.append(QWEN_3);
    s.append(speed);
    s.append(QWEN_CLONE_5);
    s.append(json_str(ref_audio).as_str());
    s.append(QWEN_CLONE_6);
    s.append(json_str(ref_text).as_str());
    s.append(QWEN_CLONE_7);
    s
}

/// The refusal of a reference recording given to a Qwen3-TTS variant that
/// speaks only its shipped voices.
pub open spec fn custom_voice_reference_message() -> Seq<char> {
    "Cette variante de Qwen3-TTS parle avec ses voix livrées et ne clone pas : pour une voix de référence, prenez la variante « Base »."@
}

/// The refusal of a reference recording given to a Qwen3-TTS variant that
/// speaks only its shipped voices.
pub fn custom_voice_refuses_reference() -> (msg: String)
    ensures
        msg@ == custom_voice_reference_message(),
{
    String::from_str(
        "Cette variante de Qwen3-TTS parle avec ses voix livrées et ne clone pas : pour une voix de référence, prenez la variante « Base ».",
    )
}

/// The refusal of a text with nothing to say.
pub open spec fn empty_text_message() -> Seq<char> {
    "Texte vide : rien à dire."@
}

/// A text can be spoken unless it is blank; a blank one is refused before
/// any engine is started.
pub fn speakable_text(text: &str) -> (r: Result<(), String>)
    ensures
        r is Ok <==> !is_blank(text@),
        r matches Err(msg) ==> msg@ == empty_text_message(),
{
    if blank(text) {
        Err(String::from_str("Texte vide : rien à dire."))
    } else {
        Ok(())
    }
}

/// The refusal when nothing is installed to speak with.
pub open spec fn no_model_message() -> Seq<char> {
    "Aucun modèle de synthèse installé. Ajoutez par exemple hexgrad/Kokoro-82M depuis le catalogue de modèles."@
}

/// The model to speak with: the requested one, or without a choice the
/// first usable installed model (see `list_usable_voices`).
pub fn choose_model(voice: &str, usable: &Vec<String>) -> (r: Result<String, String>)
    ensures
        match r {
            Ok(m) => if is_blank(voice@) {
                usable@.len() > 0 && m@ == usable@[0]@
            } else {
                m@ == voice@
            },
            Err(msg) => is_blank(voice@) && usable@.len() == 0 && msg@ == no_model_message(),
        },
{
    if blank(voice) {
        if usable.len() > 0 {
            Ok(usable[0].clone())
        } else {
            Err(
                String::from_str(
                    "Aucun modèle de synthèse installé. Ajoutez par exemple hexgrad/Kokoro-82M depuis le catalogue de modèles.",
                ),
            )
        }
    } else {
        Ok(String::from_str(voice))
    }
}

/// The refusal of a model absent from every model folder.
pub open spec fn missing_model_message(model: Seq<char>) -> Seq<char> {
    "Modèle introuvable dans la bibliothèque : "@ + model
}

/// The refusal of a model absent from every model folder.
pub fn missing_model(model: &str) -> (msg: String)
    ensures
        msg@ == missing_model_message(model@),
{
    let mut m = String::from_str("Modèle introuvable dans la bibliothèque : ");
    m.append(model);
    m
}

/// The language to speak: the requested code, trimmed, unless absent or
/// blank; else the one guessed from the text.
pub open spec fn speech_language_of(requested: Option<Seq<char>>, text: Seq<char>) -> Seq<char> {
    match requested {
        Some(l) => if trimmed(l).len() > 0 {
            trimmed(l)
        } else {
            language_of(text)
        },
        None => language_of(text),
    }
}

/// The language to speak `text` in (see [`speech_language_of`]).
pub fn speech_language(requested: &Option<String>, text: &str) -> (lang: String)
    ensures
        lang@ == speech_language_of(opt_view(requested), text@),
{
    if let Some(l) = requested {
        let t = trim(l.as_str());
        if t.as_str().unicode_len() > 0 {
            return t;
        }
    }
    String::from_str(detect_language(text))
}

/// The name of the WAV written at `millis` milliseconds past the epoch.
pub open spec fn output_file_name_of(millis: nat) -> Seq<char> {
    "tts_"@ + decimal(millis) + ".wav"@
}

/// The name of the WAV written at `millis` milliseconds past the epoch.
pub fn output_file_name(millis: u128) -> (name: String)
    ensures
        name@ == output_file_name_of(millis as nat),
{
    let mut n = String::from_str("tts_");
    push_decimal(&mut n, millis);
    n.append(".wav");
    n
}

/// The refusal of Qwen3-TTS's Base variant, which can only clone.
pub open spec fn base_variant_message() -> Seq<char> {
    "La variante « Base » de Qwen3-TTS exige un enregistrement de référence (clonage vocal), que ce morph ne fait pas. Prenez « CustomVoice », ou Kokoro."@
}

/// Whether the folder name of the repository `repo_dir` says it is
/// Qwen3-TTS's Base variant: it holds `base`, in any case.
pub open spec fn names_base_variant(repo_dir: Seq<char>, windows: bool) -> bool {
    match file_name_of(repo_dir, windows) {
        Some(n) => contains_ci(n, "base"@),
        None => false,
    }
}

/// Qwen3-TTS is run from the repository `repo_dir` unless its folder name
/// says it is the Base variant, which is refused by name rather than left
/// to end in an unreadable Python trace.
pub fn qwen_repo_accepted(repo_dir: &str, windows: bool) -> (r: Result<(), String>)
    ensures
        r is Ok <==> !names_base_variant(repo_dir@, windows),
        r matches Err(msg) ==> msg@ == base_variant_message(),
{
    let base = match file_name(repo_dir, windows) {
        Some(name) => {
            let cs = chars_of(name.as_str());
            has_ci_str(&cs, "base")
        },
        None => false,
    };
    if base {
        Err(
            String::from_str(
                "La variante « Base » de Qwen3-TTS exige un enregistrement de référence (clonage vocal), que ce morph ne fait pas. Prenez « CustomVoice », ou Kokoro.",
            ),
        )
    } else {
        Ok(())
    }
}

/// The language code the Kokoro pipeline is started with: the one its
/// voice's prefix announces, English for an unknown prefix.
pub fn kokoro_lang_code(voice: &str) -> (code: &'static str)
    ensures
        code@ == match voice_language(voice@) {
            Some(l) => l,
            None => "en"@,
        },
{
    match kokoro_voice_lang(voice) {
        Some(l) => l,
        None => "en",
    }
}

/// The file of a Kokoro voice: `voices/<voice>.pt` in the repository.
pub fn kokoro_voice_file(repo_dir: &str, voice: &str, windows: bool) -> (path: String)
    ensures
        path@ == joined(joined(repo_dir@, "voices"@, windows), voice@ + ".pt"@, windows),
{
    let dir = join_path(repo_dir, "voices", windows);
    let mut f = String::from_str(voice);
    f.append(".pt");
    join_path(dir.as_str(), f.as_str(), windows)
}

/// `prefix` followed by `detail`.
pub fn prefixed(prefix: &str, detail: &str) -> (msg: String)
    ensures
        msg@ == prefix@ + detail@,
{
    let mut m = String::from_str(prefix);
    m.append(detail);
    m
}


/// The elements of `list`, with `sep` between each two.
pub open spec fn joined_with(list: Seq<Seq<char>>, sep: Seq<char>) -> Seq<char>
    decreases list.len(),
{
    if list.len() == 0 {
        Seq::empty()
    } else if list.len() == 1 {
        list[0]
    } else {
        joined_with(list.drop_last(), sep) + sep + list.last()
    }
}

/// A line that says something.
pub open spec fn telling_line() -> spec_fn(Seq<char>) -> bool {
    |l: Seq<char>| !is_blank(l)
}

/// The last three of `lines`, or all of them when there are fewer.
pub open spec fn last_three(lines: Seq<Seq<char>>) -> Seq<Seq<char>> {
    if lines.len() > 3 {
        lines.skip(lines.len() - 3)
    } else {
        lines
    }
}

/// What a failed Python run is reported as: the last three non-blank lines
/// of its error output, joined by ` / ` (a full trace drowns the useful
/// message, its last lines carry it); the exit status when there are none.
pub open spec fn failure_report(stderr: Seq<char>, status: Seq<char>) -> Seq<char> {
    let m = joined_with(last_three(lines_of(stderr).filter(telling_line())), " / "@);
    if m.len() == 0 {
        "code de sortie "@ + status
    } else {
        m
    }
}

/// The report of a failed Python run, from its error output (decoded) and
/// its exit status (as displayed).
pub fn python_failure(stderr: &str, status: &str) -> (msg: String)
    ensures
        msg@ == failure_report(stderr@, status@),
{
    let lines = split_lines(stderr);
    let ghost all = views(lines@);
    let ghost f = telling_line();
    let mut kept: Vec<String> = Vec::new();
    let mut i: usize = 0;
    while i < lines.len()
        invariant
            i <= lines.len(),
            all == views(lines@),
            f == telling_line(),
            views(kept@) == all.take(i as int).filter(f),
        decreases lines.len() - i,
    {
        let ghost t = all.take(i + 1);
        assert(t.drop_last() =~= all.take(i as int));
        reveal_with_fuel(Seq::filter, 1);
        let ghost before = views(kept@);
        if !blank(lines[i].as_str()) {
            kept.push(lines[i].clone());
            assert(views(kept@) =~= before.push(all[i as int]));
        }
        i = i + 1;
    }
    assert(all.take(lines.len() as int) =~= all);
    let ghost k = views(kept@);
    let from: usize = if kept.len() > 3 {
        kept.len() - 3
    } else {
        0
    };
    assert(k.skip(from as int) == last_three(k)) by {
        if kept.len() <= 3 {
            assert(k.skip(0) =~= k);
        }
    }
    let mut m = String::new();
    let mut j: usize = from;
    while j < kept.len()
        invariant
            from <= j <= kept.len(),
            k == views(kept@),
            m@ == joined_with(k.subrange(from as int, j as int), " / "@),
        decreases kept.len() - j,
    {
        let ghost part = k.subrange(from as int, j + 1);
        assert(part.drop_last() =~= k.subrange(from as int, j as int));
        if j > from {
            m.append(" / ");
        } else {
            assert(part.len() == 1);
        }
        m.append(kept[j].as_str());
        j = j + 1;
    }
    assert(k.subrange(from as int, kept.len() as int) =~= k.skip(from as int));
    if m.as_str().unicode_len() == 0 {
        let mut e = String::from_str("code de sortie ");
        e.append(status);
        e
    } else {
        m
    }
}


/// The character views of a list of name/value pairs.
pub open spec fn pair_views(v: Seq<(String, String)>) -> Seq<(Seq<char>, Seq<char>)> {
    v.map_values(|p: (String, String)| (p.0@, p.1@))
}

/// The environment every Python started here inherits. `transformers` pulls
/// in TensorFlow only to guess an engine that is not used, so it is turned
/// off; downloads go to the cache folder the host gives
/// (`LOCARYN_HF_CACHE_DIR`) and temporary files to its temporary folder
/// (`LOCARYN_TEMP_DIR`), when set and not blank, rather than filling the
/// system disk.
pub open spec fn python_env_of(hf_cache: Option<Seq<char>>, temp: Option<Seq<char>>) -> Seq<(Seq<char>, Seq<char>)> {
    let base = seq![
        ("TRANSFORMERS_NO_TF"@, "1"@),
        ("USE_TF"@, "0"@),
        ("TF_CPP_MIN_LOG_LEVEL"@, "3"@),
    ];
    let hf: Seq<(Seq<char>, Seq<char>)> = match set_value(hf_cache) {
        Some(h) => seq![("HF_HOME"@, h)],
        None => seq![],
    };
    let tmp: Seq<(Seq<char>, Seq<char>)> = match set_value(temp) {
        Some(t) => seq![("TMPDIR"@, t), ("TEMP"@, t), ("TMP"@, t)],
        None => seq![],
    };
    base + hf + tmp
}

fn pair(name: &str, value: &str) -> (p: (String, String))
    ensures
        p.0@ == name@,
        p.1@ == value@,
{
    (String::from_str(name), String::from_str(value))
}

/// The environment for Python (see [`python_env_of`]), given the values of
/// `LOCARYN_HF_CACHE_DIR` and `LOCARYN_TEMP_DIR`. The folders named there are
/// the caller's to create.
pub fn python_env(hf_cache: &Option<String>, temp: &Option<String>) -> (env: Vec<(String, String)>)
    ensures
        pair_views(env@) == python_env_of(opt_view(hf_cache), opt_view(temp)),
{
    let mut env: Vec<(String, String)> = Vec::new();
    env.push(pair("TRANSFORMERS_NO_TF", "1"));
    env.push(pair("USE_TF", "0"));
    env.push(pair("TF_CPP_MIN_LOG_LEVEL", "3"));
    let ghost base = pair_views(env@);
    assert(base =~= seq![("TRANSFORMERS_NO_TF"@, "1"@), ("USE_TF"@, "0"@), ("TF_CPP_MIN_LOG_LEVEL"@, "3"@)]);
    if let Some(h) = hf_cache {
        if !blank(h.as_str()) {
            env.push(pair("HF_HOME", h.as_str()));
        }
    }
    let ghost with_hf = pair_views(env@);
    let ghost hf_part: Seq<(Seq<char>, Seq<char>)> = match set_value(opt_view(hf_cache)) {
        Some(h) => seq![("HF_HOME"@, h)],
        None => seq![],
    };
    assert(with_hf =~= base + hf_part);
    if let Some(t) = temp {
        if !blank(t.as_str()) {
            env.push(pair("TMPDIR", t.as_str()));
            env.push(pair("TEMP", t.as_str()));
            env.push(pair("TMP", t.as_str()));
        }
    }
    let ghost tmp_part: Seq<(Seq<char>, Seq<char>)> = match set_value(opt_view(temp)) {
        Some(t) => seq![("TMPDIR"@, t), ("TEMP"@, t), ("TMP"@, t)],
        None => seq![],
    };
    assert(pair_views(env@) =~= with_hf + tmp_part);
    env
}


/// The refusal when no Python interpreter is found.
pub fn no_python() -> (msg: String)
    ensures
        msg@ == "Python introuvable. Installez Python 3.10 ou plus récent."@,
{
    String::from_str("Python introuvable. Installez Python 3.10 ou plus récent.")
}

/// The refusal of a Kokoro repository without weights.
pub fn no_weights() -> (msg: String)
    ensures
        msg@ == "Aucun fichier .pth ou .onnx dans le dépôt Kokoro."@,
{
    String::from_str("Aucun fichier .pth ou .onnx dans le dépôt Kokoro.")
}

/// The refusal of a Kokoro voice whose file is missing.
pub fn missing_voice_file(path: &str) -> (msg: String)
    ensures
        msg@ == "Voix Kokoro introuvable : "@ + path@,
{
    prefixed("Voix Kokoro introuvable : ", path)
}

/// The failure of an engine that ended without writing its audio.
pub fn no_audio() -> (msg: String)
    ensures
        msg@ == "Le moteur s'est terminé sans écrire de fichier audio."@,
{
    String::from_str("Le moteur s'est terminé sans écrire de fichier audio.")
}

} // verus!
