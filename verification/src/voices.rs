//! Which installed models can speak, in which order to offer them, and which
//! engine and Kokoro voice to use.

use vstd::prelude::*;
use vstd::string::StringExecFns;
use crate::language::{kokoro_voice_lang, voice_language};
use crate::order::{goes_before, is_permutation, stable_order};
use crate::paths::{equals_ci, equals_ci_str, extension_of, file_extension, file_stem, stem_of};
use crate::text::{
    chars_of, contains_ci, ends_ci_str, ends_with_ci, has_ci_str, lemma_push_contains, lex_lt, sorted_unique,
    strictly_sorted, views, equals_str,
};

verus! {

/// A model speaks on its own unless its name says it is a "base" variant,
/// which can only clone a reference recording.
pub open spec fn own_voice(name: Seq<char>) -> bool {
    !contains_ci(name, "base"@)
}

/// A voice able to speak alone, without a reference recording.
///
/// Qwen3-TTS's "Base" variant has no voice of its own: it can only clone
/// the one it is given.
pub fn has_own_voice(name: &str) -> (b: bool)
    ensures
        b == own_voice(name@),
{
    let cs = chars_of(name);
    !has_ci_str(&cs, "base")
}

/// A Qwen3-TTS repository: its name holds both "qwen3" and "tts".
pub open spec fn is_qwen3_tts(name: Seq<char>) -> bool {
    contains_ci(name, "qwen3"@) && contains_ci(name, "tts"@)
}

/// An entry of a model directory is a speech model: a directory named after
/// a known engine, or a Piper `.onnx` file.
pub open spec fn speech_model_entry(name: Seq<char>, is_dir: bool) -> bool {
    if is_dir {
        ||| is_qwen3_tts(name)
        ||| contains_ci(name, "kokoro"@)
        ||| contains_ci(name, "xtts"@)
        ||| contains_ci(name, "piper"@)
        ||| contains_ci(name, "parler"@)
        ||| contains_ci(name, "omni"@)
    } else {
        ends_with_ci(name, ".onnx"@)
    }
}

/// Whether a directory entry is a speech model.
pub fn is_speech_model_entry(name: &str, is_dir: bool) -> (b: bool)
    ensures
        b == speech_model_entry(name@, is_dir),
{
    let cs = chars_of(name);
    if is_dir {
        let qwen = has_ci_str(&cs, "qwen3") && has_ci_str(&cs, "tts");
        qwen || has_ci_str(&cs, "kokoro") || has_ci_str(&cs, "xtts") || has_ci_str(&cs, "piper")
            || has_ci_str(&cs, "parler") || has_ci_str(&cs, "omni")
    } else {
        ends_ci_str(&cs, ".onnx")
    }
}

/// One entry of a model directory, as listed on disk.
pub struct ModelEntry {
    pub name: String,
    pub is_dir: bool,
}

/// Some entry bears the name `y` and is a speech model.
pub open spec fn listed_model(entries: Seq<ModelEntry>, y: Seq<char>) -> bool {
    exists|i: int| 0 <= i < entries.len() && (#[trigger] entries[i]).name@ == y && speech_model_entry(y, entries[i].is_dir)
}

/// The installed speech models among the entries of all model directories,
/// sorted by name without repetition. Empty when nothing is installed:
/// announcing absent voices would only move the failure.
pub fn list_voices(entries: &Vec<ModelEntry>) -> (names: Vec<String>)
    ensures
        strictly_sorted(views(names@)),
        forall|y: Seq<char>| views(names@).contains(y) <==> listed_model(entries@, y),
        entries@.len() == 0 ==> names@.len() == 0,
{
    let mut picked: Vec<String> = Vec::new();
    let mut i: usize = 0;
    while i < entries.len()
        invariant
            i <= entries.len(),
            forall|y: Seq<char>| views(picked@).contains(y) <==> listed_model(entries@.take(i as int), y),
        decreases entries.len() - i,
    {
        let ghost before = views(picked@);
        if is_speech_model_entry(entries[i].name.as_str(), entries[i].is_dir) {
            picked.push(entries[i].name.clone());
            proof {
                assert(views(picked@) =~= before.push(entries@[i as int].name@));
            }
        }
        proof {
            let e = entries@[i as int];
            assert forall|y: Seq<char>| views(picked@).contains(y) <==> listed_model(entries@.take(i + 1), y) by {
                lemma_push_contains(before, e.name@, y);
                if listed_model(entries@.take(i + 1), y) {
                    let k = choose|k: int| 0 <= k < i + 1 && (#[trigger] entries@.take(i + 1)[k]).name@ == y
                        && speech_model_entry(y, entries@.take(i + 1)[k].is_dir);
                    if k < i {
                        assert(entries@.take(i as int)[k] == entries@.take(i + 1)[k]);
                    }
                }
                if listed_model(entries@.take(i as int), y) {
                    let k = choose|k: int| 0 <= k < i && (#[trigger] entries@.take(i as int)[k]).name@ == y
                        && speech_model_entry(y, entries@.take(i as int)[k].is_dir);
                    assert(entries@.take(i + 1)[k] == entries@.take(i as int)[k]);
                }
                if views(picked@).contains(y) && !before.contains(y) {
                    assert(entries@.take(i + 1)[i as int] == e);
                }
            }
        }
        i = i + 1;
    }
    proof {
        assert(entries@.take(entries.len() as int) =~= entries@);
    }
    let names = sorted_unique(picked);
    proof {
        if entries@.len() == 0 && names@.len() > 0 {
            assert(views(names@)[0] == names@[0]@);
            assert(views(names@).contains(names@[0]@));
            assert(listed_model(entries@, names@[0]@));
        }
    }
    names
}


/// How readily a usable model answers: Kokoro runs with what the install
/// ships (0), Piper next (1), everything else last (2).
pub open spec fn voice_rank(name: Seq<char>) -> int {
    if contains_ci(name, "kokoro"@) {
        0
    } else if ends_with_ci(name, ".onnx"@) || contains_ci(name, "piper"@) {
        1
    } else {
        2
    }
}

/// The usable models of rank `r`.
pub open spec fn usable_of_rank(r: int) -> spec_fn(Seq<char>) -> bool {
    |n: Seq<char>| own_voice(n) && voice_rank(n) == r
}

/// The usable models among `names`, most self-sufficient first, keeping the
/// given order within each rank.
pub open spec fn usable_order(names: Seq<Seq<char>>) -> Seq<Seq<char>> {
    names.filter(usable_of_rank(0)) + names.filter(usable_of_rank(1)) + names.filter(usable_of_rank(2))
}

fn rank_of(name: &str) -> (r: u8)
    ensures
        r as int == voice_rank(name@),
{
    let cs = chars_of(name);
    if has_ci_str(&cs, "kokoro") {
        0
    } else if ends_ci_str(&cs, ".onnx") || has_ci_str(&cs, "piper") {
        1
    } else {
        2
    }
}

fn usable_with_rank(names: &Vec<String>, r: u8) -> (out: Vec<String>)
    ensures
        views(out@) == views(names@).filter(usable_of_rank(r as int)),
{
    let ghost all = views(names@);
    let mut out: Vec<String> = Vec::new();
    let mut i: usize = 0;
    while i < names.len()
        invariant
            i <= names.len(),
            all == views(names@),
            views(out@) == all.take(i as int).filter(usable_of_rank(r as int)),
        decreases names.len() - i,
    {
        let ghost before = views(out@);
        let ghost t = all.take(i + 1);
        assert(t.drop_last() =~= all.take(i as int));
        assert(t.last() == names@[i as int]@);
        let keep = has_own_voice(names[i].as_str()) && rank_of(names[i].as_str()) == r;
        let ghost f = usable_of_rank(r as int);
        assert(keep == f(t.last()));
        reveal_with_fuel(Seq::filter, 1);
        assert(t.filter(f) == (if f(t.last()) {
            t.drop_last().filter(f).push(t.last())
        } else {
            t.drop_last().filter(f)
        }));
        if keep {
            out.push(names[i].clone());
            assert(views(out@) =~= before.push(t.last()));
        }
        i = i + 1;
    }
    assert(all.take(names.len() as int) =~= all);
    out
}

/// The installed models (as listed by [`list_voices`]) that speak without a
/// reference recording, the most self-sufficient first: Kokoro, then Piper,
/// then the rest, each group in the given order.
pub fn list_usable_voices(installed: &Vec<String>) -> (usable: Vec<String>)
    ensures
        views(usable@) == usable_order(views(installed@)),
{
    let mut out = usable_with_rank(installed, 0);
    let mut one = usable_with_rank(installed, 1);
    let mut two = usable_with_rank(installed, 2);
    let ghost a = views(out@);
    let ghost b = views(one@);
    let ghost c = views(two@);
    out.append(&mut one);
    out.append(&mut two);
    assert(views(out@) =~= a + b + c);
    out
}

/// The engines this library drives.
#[derive(Debug, Clone, Copy, PartialEq, Eq, Structural)]
pub enum Engine {
    Kokoro,
    Qwen3,
}

/// The engine a repository name designates, if any.
pub open spec fn engine_of(model: Seq<char>) -> Option<Engine> {
    if contains_ci(model, "kokoro"@) {
        Some(Engine::Kokoro)
    } else if is_qwen3_tts(model) {
        Some(Engine::Qwen3)
    } else {
        None
    }
}

/// The refusal of a model that no known engine drives.
pub open spec fn unsupported_model_message(model: Seq<char>) -> Seq<char> {
    "Modèle audio non pris en charge : "@ + model + ". Moteurs connus : Kokoro, Qwen3-TTS."@
}

/// The engine for a weights repository, deduced from its name.
pub fn resolve_engine(model: &str) -> (r: Result<Engine, String>)
    ensures
        match r {
            Ok(e) => engine_of(model@) == Some(e),
            Err(msg) => engine_of(model@) is None && msg@ == unsupported_model_message(model@),
        },
{
    let cs = chars_of(model);
    if has_ci_str(&cs, "kokoro") {
        Ok(Engine::Kokoro)
    } else if has_ci_str(&cs, "qwen3") && has_ci_str(&cs, "tts") {
        Ok(Engine::Qwen3)
    } else {
        let mut msg = String::from_str("Modèle audio non pris en charge : ");
        msg.append(model);
        msg.append(". Moteurs connus : Kokoro, Qwen3-TTS.");
        Err(msg)
    }
}


/// The voice a file of a Kokoro `voices/` directory ships: the stem of a
/// `.pt` file.
pub open spec fn voice_stem(name: Seq<char>) -> Option<Seq<char>> {
    if extension_of(name) == Some("pt"@) {
        Some(stem_of(name))
    } else {
        None
    }
}

/// The voices shipped by the files `names`, in the order of the files.
pub open spec fn voice_stems(names: Seq<Seq<char>>) -> Seq<Seq<char>> {
    names.filter_map(|n: Seq<char>| voice_stem(n))
}

/// Each name is not after the next one: sorted, repetitions allowed.
pub open spec fn sorted_names(s: Seq<Seq<char>>) -> bool {
    forall|i: int, j: int| 0 <= i < j < s.len() ==> !lex_lt(#[trigger] s[j], #[trigger] s[i])
}

/// `out` lists the elements of `src` in some order, each as often as there.
pub open spec fn rearranges(out: Seq<Seq<char>>, src: Seq<Seq<char>>) -> bool {
    exists|p: Seq<usize>|
        is_permutation(p, src.len()) && forall|k: int| 0 <= k < out.len() ==> (#[trigger] out[k]) == src[p[k] as int]
}

/// The voices shipped in a Kokoro repository (`af_heart`, `am_michael`...),
/// given the file names of its `voices/` directory, sorted by name.
pub fn kokoro_voices_in_repo(file_names: &Vec<String>) -> (voices: Vec<String>)
    ensures
        views(voices@).len() == voice_stems(views(file_names@)).len(),
        sorted_names(views(voices@)),
        rearranges(views(voices@), voice_stems(views(file_names@))),
{
    let ghost all = views(file_names@);
    let ghost f = |n: Seq<char>| voice_stem(n);
    let mut stems: Vec<String> = Vec::new();
    let mut keys: Vec<Vec<char>> = Vec::new();
    let mut i: usize = 0;
    while i < file_names.len()
        invariant
            i <= file_names.len(),
            all == views(file_names@),
            f == (|n: Seq<char>| voice_stem(n)),
            views(stems@) == all.take(i as int).filter_map(f),
            keys@.len() == stems@.len(),
            forall|k: int| 0 <= k < keys@.len() ==> (#[trigger] keys@[k])@ == stems@[k]@,
        decreases file_names.len() - i,
    {
        proof {
            all.lemma_filter_map_take_succ(f, i as int);
        }
        let name = file_names[i].as_str();
        let ext = file_extension(name);
        let is_pt = match ext {
            Some(e) => equals_str(e.as_str(), "pt"),
            None => false,
        };
        assert(is_pt == (extension_of(all[i as int]) == Some("pt"@)));
        if is_pt {
            let stem = file_stem(name);
            let ghost before = views(stems@);
            keys.push(chars_of(stem.as_str()));
            stems.push(stem);
            assert(views(stems@) =~= before + seq![stem_of(all[i as int])]);
        } else {
            assert(all.take(i + 1).filter_map(f) =~= all.take(i as int).filter_map(f));
        }
        i = i + 1;
    }
    assert(all.take(file_names.len() as int) =~= all);
    let order = stable_order(&keys, false);
    let ghost ks = keys@.map_values(|k: Vec<char>| k@);
    assert(ks =~= views(stems@));
    let mut voices: Vec<String> = Vec::new();
    let mut j: usize = 0;
    while j < order.len()
        invariant
            j <= order.len(),
            is_permutation(order@, keys@.len()),
            keys@.len() == stems@.len(),
            ks == views(stems@),
            voices@.len() == j,
            forall|k: int| 0 <= k < j ==> (#[trigger] views(voices@)[k]) == ks[order@[k] as int],
        decreases order.len() - j,
    {
        let ghost before = views(voices@);
        voices.push(stems[order[j]].clone());
        assert(views(voices@) =~= before.push(ks[order@[j as int] as int]));
        j = j + 1;
    }
    proof {
        let vv = views(voices@);
        assert forall|a: int, b: int| 0 <= a < b < vv.len() implies !lex_lt(#[trigger] vv[b], #[trigger] vv[a]) by {
            assert(vv[a] == ks[order@[a] as int]);
            assert(vv[b] == ks[order@[b] as int]);
            assert(!goes_before(ks[order@[b] as int], ks[order@[a] as int], false));
        }
        assert(forall|k: int| 0 <= k < vv.len() ==> (#[trigger] vv[k]) == views(stems@)[order@[k] as int]);
    }
    voices
}


/// The first voice of `vs` whose prefix announces language `lang`.
pub open spec fn first_voice_in(vs: Seq<Seq<char>>, lang: Seq<char>) -> Option<Seq<char>>
    decreases vs.len(),
{
    if vs.len() == 0 {
        None
    } else if voice_language(vs[0]) == Some(lang) {
        Some(vs[0])
    } else {
        first_voice_in(vs.drop_first(), lang)
    }
}

/// The voice to speak `lang` with: one in that language, else an English
/// one, else the first available; a wrong accent beats a refusal.
pub open spec fn kokoro_pick(vs: Seq<Seq<char>>, lang: Seq<char>) -> Seq<char> {
    match first_voice_in(vs, lang) {
        Some(v) => v,
        None => match first_voice_in(vs, "en"@) {
            Some(v) => v,
            None => vs[0],
        },
    }
}

fn first_voice(voices: &Vec<String>, lang: &str) -> (r: Option<String>)
    ensures
        match r {
            Some(v) => first_voice_in(views(voices@), lang@) == Some(v@),
            None => first_voice_in(views(voices@), lang@) is None,
        },
{
    let ghost all = views(voices@);
    let mut i: usize = 0;
    assert(all.skip(0) =~= all);
    while i < voices.len()
        invariant
            i <= voices.len(),
            all == views(voices@),
            first_voice_in(all, lang@) == first_voice_in(all.skip(i as int), lang@),
        decreases voices.len() - i,
    {
        assert(all.skip(i as int)[0] == voices@[i as int]@);
        assert(all.skip(i as int).drop_first() =~= all.skip(i + 1));
        let l = kokoro_voice_lang(voices[i].as_str());
        let hit = match l {
            Some(x) => equals_str(x, lang),
            None => false,
        };
        if hit {
            return Some(voices[i].clone());
        }
        i = i + 1;
    }
    None
}

/// The Kokoro voice to use for `language`, among the voices the repository
/// ships (see [`kokoro_voices_in_repo`]).
pub fn resolve_kokoro_voice(voices: &Vec<String>, language: &str) -> (r: Result<String, String>)
    ensures
        match r {
            Ok(v) => voices@.len() > 0 && v@ == kokoro_pick(views(voices@), language@),
            Err(msg) => voices@.len() == 0 && msg@ == "Aucune voix Kokoro dans le dossier voices/."@,
        },
{
    if voices.len() == 0 {
        return Err(String::from_str("Aucune voix Kokoro dans le dossier voices/."));
    }
    match first_voice(voices, language) {
        Some(v) => Ok(v),
        None => match first_voice(voices, "en") {
            Some(v) => Ok(v),
            None => Ok(voices[0].clone()),
        },
    }
}

/// A weights file: extension `pth` or `onnx`, in any case.
pub open spec fn weights_file(name: Seq<char>) -> bool {
    match extension_of(name) {
        Some(e) => equals_ci(e, "pth"@) || equals_ci(e, "onnx"@),
        None => false,
    }
}

/// The index of the first weights file among the file names of a Kokoro
/// repository, if there is one.
pub fn pick_weights(file_names: &Vec<String>) -> (r: Option<usize>)
    ensures
        match r {
            Some(i) => i < file_names.len() && weights_file(file_names@[i as int]@)
                && forall|k: int| 0 <= k < i ==> !weights_file(#[trigger] file_names@[k]@),
            None => forall|k: int| 0 <= k < file_names.len() ==> !weights_file(#[trigger] file_names@[k]@),
        },
{
    let mut i: usize = 0;
    while i < file_names.len()
        invariant
            i <= file_names.len(),
            forall|k: int| 0 <= k < i ==> !weights_file(#[trigger] file_names@[k]@),
        decreases file_names.len() - i,
    {
        let hit = match file_extension(file_names[i].as_str()) {
            Some(e) => equals_ci_str(e.as_str(), "pth") || equals_ci_str(e.as_str(), "onnx"),
            None => false,
        };
        if hit {
            return Some(i);
        }
        i = i + 1;
    }
    None
}


/// What is offered without a choice never needs a reference recording, and
/// is always installed: every model of the usable list (see
/// [`list_usable_voices`]) speaks on its own and is among the installed ones.
/// The Base variant in particular is never the default.
pub proof fn law_usable_voices_speak_alone(installed: Seq<Seq<char>>, x: Seq<char>)
    requires
        usable_order(installed).contains(x),
    ensures
        own_voice(x),
        installed.contains(x),
{
    let a = installed.filter(usable_of_rank(0));
    let b = installed.filter(usable_of_rank(1));
    let c = installed.filter(usable_of_rank(2));
    let k = choose|k: int| 0 <= k < (a + b + c).len() && (a + b + c)[k] == x;
    if k < a.len() {
        installed.lemma_filter_pred(usable_of_rank(0), k);
        assert(a[k] == x);
        installed.lemma_filter_contains_rev(usable_of_rank(0), x);
    } else if k < a.len() + b.len() {
        installed.lemma_filter_pred(usable_of_rank(1), k - a.len());
        assert(b[k - a.len()] == x);
        installed.lemma_filter_contains_rev(usable_of_rank(1), x);
    } else {
        installed.lemma_filter_pred(usable_of_rank(2), k - a.len() - b.len());
        assert(c[k - a.len() - b.len()] == x);
        installed.lemma_filter_contains_rev(usable_of_rank(2), x);
    }
}

/// Every installed model that speaks on its own is offered: the usable list
/// misses none of them.
pub proof fn law_usable_voices_miss_none(installed: Seq<Seq<char>>, x: Seq<char>)
    requires
        installed.contains(x),
        own_voice(x),
    ensures
        usable_order(installed).contains(x),
{
    let i = choose|i: int| 0 <= i < installed.len() && installed[i] == x;
    let r = voice_rank(x);
    let a = installed.filter(usable_of_rank(0));
    let b = installed.filter(usable_of_rank(1));
    let c = installed.filter(usable_of_rank(2));
    let all = a + b + c;
    if r == 0 {
        installed.lemma_filter_contains(usable_of_rank(0), i);
        let k = choose|k: int| 0 <= k < a.len() && a[k] == x;
        assert(all[k] == x);
    } else if r == 1 {
        installed.lemma_filter_contains(usable_of_rank(1), i);
        let k = choose|k: int| 0 <= k < b.len() && b[k] == x;
        assert(all[a.len() + k] == x);
    } else {
        installed.lemma_filter_contains(usable_of_rank(2), i);
        let k = choose|k: int| 0 <= k < c.len() && c[k] == x;
        assert(all[a.len() + b.len() + k] == x);
    }
}

/// Which entries of the model folders are listed: a folder whose name
/// holds (in any case) `kokoro`, `xtts`, `piper`, `parler` or `omni`, or
/// both `qwen3` and `tts`; a file whose name ends in `.onnx`; nothing else.
pub proof fn law_listed_models(entries: Seq<ModelEntry>, y: Seq<char>)
    ensures
        listed_model(entries, y) <==> exists|i: int|
            0 <= i < entries.len() && (#[trigger] entries[i]).name@ == y && if entries[i].is_dir {
                ||| contains_ci(y, "kokoro"@)
                ||| contains_ci(y, "xtts"@)
                ||| contains_ci(y, "piper"@)
                ||| contains_ci(y, "parler"@)
                ||| contains_ci(y, "omni"@)
                ||| (contains_ci(y, "qwen3"@) && contains_ci(y, "tts"@))
            } else {
                ends_with_ci(y, ".onnx"@)
            },
{
}

/// How self-sufficient a model is reckoned: Kokoro first, then Piper (a
/// `piper` name or a `.onnx` file), then every other model alike.
pub proof fn law_voice_ranks(name: Seq<char>)
    ensures
        contains_ci(name, "kokoro"@) ==> voice_rank(name) == 0,
        !contains_ci(name, "kokoro"@) && (contains_ci(name, "piper"@) || ends_with_ci(name, ".onnx"@)) ==> voice_rank(
            name,
        ) == 1,
        !contains_ci(name, "kokoro"@) && !contains_ci(name, "piper"@) && !ends_with_ci(name, ".onnx"@) ==> voice_rank(
            name,
        ) == 2,
{
}

/// The usable models are offered Kokoro first, then Piper, then every other
/// model that speaks alone, each group in the order given; a Base variant
/// is never offered.
pub proof fn law_usable_voices_order(installed: Seq<Seq<char>>)
    ensures
        usable_order(installed) == installed.filter(
            |n: Seq<char>| !contains_ci(n, "base"@) && contains_ci(n, "kokoro"@),
        ) + installed.filter(
            |n: Seq<char>|
                !contains_ci(n, "base"@) && !contains_ci(n, "kokoro"@) && (contains_ci(n, "piper"@) || ends_with_ci(
                    n,
                    ".onnx"@,
                )),
        ) + installed.filter(
            |n: Seq<char>|
                !contains_ci(n, "base"@) && !contains_ci(n, "kokoro"@) && !contains_ci(n, "piper"@) && !ends_with_ci(
                    n,
                    ".onnx"@,
                ),
        ),
{
    assert(usable_of_rank(0) =~= (|n: Seq<char>| !contains_ci(n, "base"@) && contains_ci(n, "kokoro"@)));
    assert(usable_of_rank(1) =~= (|n: Seq<char>|
        !contains_ci(n, "base"@) && !contains_ci(n, "kokoro"@) && (contains_ci(n, "piper"@) || ends_with_ci(
            n,
            ".onnx"@,
        ))));
    assert(usable_of_rank(2) =~= (|n: Seq<char>|
        !contains_ci(n, "base"@) && !contains_ci(n, "kokoro"@) && !contains_ci(n, "piper"@) && !ends_with_ci(
            n,
            ".onnx"@,
        )));
}

/// The language each Kokoro voice prefix announces: `a` and `b` English,
/// `f` French, `e` Spanish, `d` German, `i` Italian, `p` Portuguese, `j`
/// Japanese, `z` and `c` Chinese; any other first letter, or an empty
/// name, none.
pub proof fn law_voice_prefixes(v: Seq<char>)
    ensures
        v.len() == 0 ==> voice_language(v) is None,
        v.len() > 0 ==> voice_language(v) == if v[0] == 'a' || v[0] == 'b' {
            Some("en"@)
        } else if v[0] == 'f' {
            Some("fr"@)
        } else if v[0] == 'e' {
            Some("es"@)
        } else if v[0] == 'd' {
            Some("de"@)
        } else if v[0] == 'i' {
            Some("it"@)
        } else if v[0] == 'p' {
            Some("pt"@)
        } else if v[0] == 'j' {
            Some("ja"@)
        } else if v[0] == 'z' || v[0] == 'c' {
            Some("zh"@)
        } else {
            None::<Seq<char>>
        },
{
}

/// The voice chosen for a language is the first shipped voice that
/// announces it, whatever comes after.
pub proof fn law_first_voice_of_the_language(vs: Seq<Seq<char>>, lang: Seq<char>, k: int)
    requires
        0 <= k < vs.len(),
        voice_language(vs[k]) == Some(lang),
        forall|j: int| 0 <= j < k ==> voice_language(#[trigger] vs[j]) != Some(lang),
    ensures
        kokoro_pick(vs, lang) == vs[k],
{
    lemma_first_voice_at(vs, lang, k);
}

proof fn lemma_first_voice_at(vs: Seq<Seq<char>>, lang: Seq<char>, k: int)
    requires
        0 <= k < vs.len(),
        voice_language(vs[k]) == Some(lang),
        forall|j: int| 0 <= j < k ==> voice_language(#[trigger] vs[j]) != Some(lang),
    ensures
        first_voice_in(vs, lang) == Some(vs[k]),
    decreases k,
{
    if k > 0 {
        let rest = vs.drop_first();
        assert forall|j: int| 0 <= j < k - 1 implies voice_language(#[trigger] rest[j]) != Some(lang) by {
            assert(rest[j] == vs[j + 1]);
        }
        assert(rest[k - 1] == vs[k]);
        lemma_first_voice_at(rest, lang, k - 1);
        assert(voice_language(vs[0]) != Some(lang));
    }
}

/// A Spanish text is spoken with the first shipped voice whose name starts
/// with `e`, when there is one.
pub proof fn law_spanish_voice(vs: Seq<Seq<char>>, k: int)
    requires
        0 <= k < vs.len(),
        vs[k].len() > 0 && vs[k][0] == 'e',
        forall|j: int| 0 <= j < k ==> (#[trigger] vs[j]).len() == 0 || vs[j][0] != 'e',
    ensures
        kokoro_pick(vs, "es"@) == vs[k],
{
    reveal_strlit("es");
    reveal_strlit("en");
    reveal_strlit("fr");
    reveal_strlit("de");
    reveal_strlit("it");
    reveal_strlit("pt");
    reveal_strlit("ja");
    reveal_strlit("zh");
    law_voice_prefixes(vs[k]);
    assert forall|j: int| 0 <= j < k implies voice_language(#[trigger] vs[j]) != Some("es"@) by {
        law_voice_prefixes(vs[j]);
        assert("en"@[1] != "es"@[1]);
        assert("fr"@[0] != "es"@[0]);
        assert("de"@[0] != "es"@[0]);
        assert("it"@[0] != "es"@[0]);
        assert("pt"@[0] != "es"@[0]);
        assert("ja"@[0] != "es"@[0]);
        assert("zh"@[0] != "es"@[0]);
    }
    law_first_voice_of_the_language(vs, "es"@, k);
}

} // verus!
