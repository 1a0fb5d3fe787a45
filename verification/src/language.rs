//! Guessing the language of a text, and reading it off a Kokoro voice name.

use vstd::prelude::*;
use crate::text::{any_in_range, any_of, chars_of, has_any_of, has_in_range};

verus! {

/// The language code that the script and accents of `t` point to: the
/// CJK, kana, hangul, Arabic and Cyrillic blocks first, then the accents
/// typical of Portuguese, German, French, Spanish and Italian, else English.
pub open spec fn language_of(t: Seq<char>) -> Seq<char> {
    if any_in_range(t, 0x4e00, 0x9fff) || any_in_range(t, 0x3400, 0x4dbf) {
        "zh"@
    } else if any_in_range(t, 0x3040, 0x309f) || any_in_range(t, 0x30a0, 0x30ff) {
        "ja"@
    } else if any_in_range(t, 0xac00, 0xd7af) {
        "ko"@
    } else if any_in_range(t, 0x0600, 0x06ff) {
        "ar"@
    } else if any_in_range(t, 0x0400, 0x04ff) {
        "ru"@
    } else if any_of(t, "ãõ"@) {
        "pt"@
    } else if any_of(t, "äöüÄÖÜ"@) {
        "de"@
    } else if any_of(t, "àèéêëçôû"@) {
        "fr"@
    } else if any_of(t, "ñ¿¡"@) {
        "es"@
    } else if any_of(t, "ìòù"@) {
        "it"@
    } else {
        "en"@
    }
}

/// The language of `text`, by the same heuristic as the rest of the
/// application.
pub fn detect_language(text: &str) -> (code: &'static str)
    ensures
        code@ == language_of(text@),
{
    let t = chars_of(text);
    if has_in_range(&t, 0x4e00, 0x9fff) || has_in_range(&t, 0x3400, 0x4dbf) {
        return "zh";
    }
    if has_in_range(&t, 0x3040, 0x309f) || has_in_range(&t, 0x30a0, 0x30ff) {
        return "ja";
    }
    if has_in_range(&t, 0xac00, 0xd7af) {
        return "ko";
    }
    if has_in_range(&t, 0x0600, 0x06ff) {
        return "ar";
    }
    if has_in_range(&t, 0x0400, 0x04ff) {
        return "ru";
    }
    if has_any_of(&t, "ãõ") {
        return "pt";
    }
    if has_any_of(&t, "äöüÄÖÜ") {
        return "de";
    }
    if has_any_of(&t, "àèéêëçôû") {
        return "fr";
    }
    if has_any_of(&t, "ñ¿¡") {
        return "es";
    }
    if has_any_of(&t, "ìòù") {
        return "it";
    }
    "en"
}

/// The language that the first letter of a Kokoro voice name announces.
pub open spec fn voice_language(v: Seq<char>) -> Option<Seq<char>> {
    if v.len() == 0 {
        None
    } else {
        let c = v[0];
        if c == 'a' || c == 'b' {
            Some("en"@)
        } else if c == 'f' {
            Some("fr"@)
        } else if c == 'e' {
            Some("es"@)
        } else if c == 'd' {
            Some("de"@)
        } else if c == 'i' {
            Some("it"@)
        } else if c == 'p' {
            Some("pt"@)
        } else if c == 'j' {
            Some("ja"@)
        } else if c == 'z' || c == 'c' {
            Some("zh"@)
        } else {
            None
        }
    }
}

/// The language announced by the prefix of a Kokoro voice (`af_heart` is
/// English, `ff_siwis` French, ...); `None` for an unknown prefix.
pub fn kokoro_voice_lang(voice: &str) -> (lang: Option<&'static str>)
    ensures
        match lang {
            Some(l) => voice_language(voice@) == Some(l@),
            None => voice_language(voice@) is None,
        },
{
    let cs = chars_of(voice);
    if cs.len() == 0 {
        return None;
    }
    let c = cs[0];
    if c == 'a' || c == 'b' {
        Some("en")
    } else if c == 'f' {
        Some("fr")
    } else if c == 'e' {
        Some("es")
    } else if c == 'd' {
        Some("de")
    } else if c == 'i' {
        Some("it")
    } else if c == 'p' {
        Some("pt")
    } else if c == 'j' {
        Some("ja")
    } else if c == 'z' || c == 'c' {
        Some("zh")
    } else {
        None
    }
}

/// A text written in ASCII alone is taken for English: every script and
/// accent that points elsewhere lies outside ASCII.
pub proof fn law_ascii_text_is_english(t: Seq<char>)
    requires
        forall|i: int| 0 <= i < t.len() ==> (#[trigger] t[i] as u32) < 0x80,
    ensures
        language_of(t) == "en"@,
{
    reveal_strlit("ãõ");
    reveal_strlit("äöüÄÖÜ");
    reveal_strlit("àèéêëçôû");
    reveal_strlit("ñ¿¡");
    reveal_strlit("ìòù");
    assert forall|set: Seq<char>|
        (forall|k: int| 0 <= k < set.len() ==> (#[trigger] set[k] as u32) >= 0x80) implies !any_of(t, set) by {
        if any_of(t, set) {
            let i = choose|i: int| 0 <= i < t.len() && set.contains(#[trigger] t[i]);
            let k = choose|k: int| 0 <= k < set.len() && set[k] == t[i];
            assert(set[k] as u32 >= 0x80);
        }
    }
    assert forall|k: int| 0 <= k < "ãõ"@.len() implies (#[trigger] "ãõ"@[k] as u32) >= 0x80 by {}
    assert forall|k: int| 0 <= k < "äöüÄÖÜ"@.len() implies (#[trigger] "äöüÄÖÜ"@[k] as u32) >= 0x80 by {}
    assert forall|k: int| 0 <= k < "àèéêëçôû"@.len() implies (#[trigger] "àèéêëçôû"@[k] as u32) >= 0x80 by {}
    assert forall|k: int| 0 <= k < "ñ¿¡"@.len() implies (#[trigger] "ñ¿¡"@[k] as u32) >= 0x80 by {}
    assert forall|k: int| 0 <= k < "ìòù"@.len() implies (#[trigger] "ìòù"@[k] as u32) >= 0x80 by {}
}

/// Joining ASCII text `t` to a text, before or after it, leaves the
/// range tests on non-ASCII characters as they were.
proof fn lemma_ascii_join_keeps_marks(s: Seq<char>, t: Seq<char>)
    requires
        forall|i: int| 0 <= i < t.len() ==> (#[trigger] t[i] as u32) < 0x80,
    ensures
        forall|lo: u32, hi: u32|
            lo >= 0x80 ==> (any_in_range(s + t, lo, hi) == any_in_range(s, lo, hi) && any_in_range(t + s, lo, hi)
                == any_in_range(s, lo, hi)),
        forall|set: Seq<char>|
            (forall|k: int| 0 <= k < set.len() ==> (#[trigger] set[k] as u32) >= 0x80) ==> (any_of(s + t, set)
                == any_of(s, set) && any_of(t + s, set) == any_of(s, set)),
{
    assert forall|lo: u32, hi: u32| lo >= 0x80 implies (any_in_range(s + t, lo, hi) == any_in_range(s, lo, hi)
        && any_in_range(t + s, lo, hi) == any_in_range(s, lo, hi)) by {
        if any_in_range(s + t, lo, hi) {
            let i = choose|i: int| 0 <= i < (s + t).len() && lo <= (#[trigger] (s + t)[i]) as u32 <= hi;
            if i >= s.len() {
                assert((s + t)[i] == t[i - s.len()]);
            } else {
                assert((s + t)[i] == s[i]);
            }
        }
        if any_in_range(s, lo, hi) {
            let i = choose|i: int| 0 <= i < s.len() && lo <= (#[trigger] s[i]) as u32 <= hi;
            assert((s + t)[i] == s[i]);
            assert((t + s)[i + t.len()] == s[i]);
        }
        if any_in_range(t + s, lo, hi) {
            let i = choose|i: int| 0 <= i < (t + s).len() && lo <= (#[trigger] (t + s)[i]) as u32 <= hi;
            if i >= t.len() {
                assert((t + s)[i] == s[i - t.len()]);
            } else {
                assert((t + s)[i] == t[i]);
            }
        }
    }
    assert forall|set: Seq<char>|
        (forall|k: int| 0 <= k < set.len() ==> (#[trigger] set[k] as u32) >= 0x80) implies (any_of(s + t, set)
        == any_of(s, set) && any_of(t + s, set) == any_of(s, set)) by {
        if any_of(s + t, set) {
            let i = choose|i: int| 0 <= i < (s + t).len() && set.contains(#[trigger] (s + t)[i]);
            if i >= s.len() {
                assert((s + t)[i] == t[i - s.len()]);
                let k = choose|k: int| 0 <= k < set.len() && set[k] == (s + t)[i];
                assert(set[k] as u32 >= 0x80);
            } else {
                assert((s + t)[i] == s[i]);
            }
        }
        if any_of(s, set) {
            let i = choose|i: int| 0 <= i < s.len() && set.contains(#[trigger] s[i]);
            assert((s + t)[i] == s[i]);
            assert((t + s)[i + t.len()] == s[i]);
        }
        if any_of(t + s, set) {
            let i = choose|i: int| 0 <= i < (t + s).len() && set.contains(#[trigger] (t + s)[i]);
            if i >= t.len() {
                assert((t + s)[i] == s[i - t.len()]);
            } else {
                assert((t + s)[i] == t[i]);
                let k = choose|k: int| 0 <= k < set.len() && set[k] == (t + s)[i];
                assert(set[k] as u32 >= 0x80);
            }
        }
    }
}

/// Adding ASCII text before or after a text leaves its language as it
/// was: only characters outside ASCII point away from English.
pub proof fn law_ascii_text_keeps_the_language(s: Seq<char>, t: Seq<char>)
    requires
        forall|i: int| 0 <= i < t.len() ==> (#[trigger] t[i] as u32) < 0x80,
    ensures
        language_of(s + t) == language_of(s),
        language_of(t + s) == language_of(s),
{
    lemma_ascii_join_keeps_marks(s, t);
    reveal_strlit("ãõ");
    reveal_strlit("äöüÄÖÜ");
    reveal_strlit("àèéêëçôû");
    reveal_strlit("ñ¿¡");
    reveal_strlit("ìòù");
    assert forall|k: int| 0 <= k < "ãõ"@.len() implies (#[trigger] "ãõ"@[k] as u32) >= 0x80 by {}
    assert forall|k: int| 0 <= k < "äöüÄÖÜ"@.len() implies (#[trigger] "äöüÄÖÜ"@[k] as u32) >= 0x80 by {}
    assert forall|k: int| 0 <= k < "àèéêëçôû"@.len() implies (#[trigger] "àèéêëçôû"@[k] as u32) >= 0x80 by {}
    assert forall|k: int| 0 <= k < "ñ¿¡"@.len() implies (#[trigger] "ñ¿¡"@[k] as u32) >= 0x80 by {}
    assert forall|k: int| 0 <= k < "ìòù"@.len() implies (#[trigger] "ìòù"@[k] as u32) >= 0x80 by {}
}

/// Some character of `t` is one of those of `set`, said with indices.
proof fn lemma_any_of_indices(t: Seq<char>, set: Seq<char>)
    ensures
        any_of(t, set) <==> exists|i: int, k: int| 0 <= i < t.len() && 0 <= k < set.len() && #[trigger] t[i] == #[trigger] set[k],
{
    if any_of(t, set) {
        let i = choose|i: int| 0 <= i < t.len() && set.contains(#[trigger] t[i]);
        let k = choose|k: int| 0 <= k < set.len() && set[k] == t[i];
        assert(t[i] == set[k]);
    }
    if exists|i: int, k: int| 0 <= i < t.len() && 0 <= k < set.len() && #[trigger] t[i] == #[trigger] set[k] {
        let (i, k) = choose|i: int, k: int| 0 <= i < t.len() && 0 <= k < set.len() && #[trigger] t[i] == #[trigger] set[k];
        assert(set.contains(t[i]));
    }
}

/// The accent marks that the heuristic reads, each group with its language.
proof fn lemma_mark_groups()
    ensures
        "ãõ"@ == seq!['ã', 'õ'],
        "äöüÄÖÜ"@ == seq!['ä', 'ö', 'ü', 'Ä', 'Ö', 'Ü'],
        "àèéêëçôû"@ == seq!['à', 'è', 'é', 'ê', 'ë', 'ç', 'ô', 'û'],
        "ñ¿¡"@ == seq!['ñ', '¿', '¡'],
        "ìòù"@ == seq!['ì', 'ò', 'ù'],
{
    reveal_strlit("ãõ");
    reveal_strlit("äöüÄÖÜ");
    reveal_strlit("àèéêëçôû");
    reveal_strlit("ñ¿¡");
    reveal_strlit("ìòù");
    assert("ãõ"@ =~= seq!['ã', 'õ']);
    assert("äöüÄÖÜ"@ =~= seq!['ä', 'ö', 'ü', 'Ä', 'Ö', 'Ü']);
    assert("àèéêëçôû"@ =~= seq!['à', 'è', 'é', 'ê', 'ë', 'ç', 'ô', 'û']);
    assert("ñ¿¡"@ =~= seq!['ñ', '¿', '¡']);
    assert("ìòù"@ =~= seq!['ì', 'ò', 'ù']);
}

/// A text with a Chinese character (CJK ideographs, main block or
/// extension A) is Chinese, whatever else it holds.
pub proof fn law_chinese_text(t: Seq<char>, i: int)
    requires
        0 <= i < t.len(),
        (0x4e00 <= (t[i] as u32) <= 0x9fff) || (0x3400 <= (t[i] as u32) <= 0x4dbf),
    ensures
        language_of(t) == "zh"@,
{
}

/// A text with kana and no Chinese character is Japanese.
pub proof fn law_japanese_text(t: Seq<char>, i: int)
    requires
        0 <= i < t.len(),
        0x3040 <= (t[i] as u32) <= 0x30ff,
        forall|j: int|
            0 <= j < t.len() ==> !(0x4e00 <= (#[trigger] t[j] as u32) <= 0x9fff) && !(0x3400 <= (t[j] as u32) <= 0x4dbf),
    ensures
        language_of(t) == "ja"@,
{
}

/// A text with hangul and neither Chinese characters nor kana is Korean.
pub proof fn law_korean_text(t: Seq<char>, i: int)
    requires
        0 <= i < t.len(),
        0xac00 <= (t[i] as u32) <= 0xd7af,
        forall|j: int|
            0 <= j < t.len() ==> !(0x4e00 <= (#[trigger] t[j] as u32) <= 0x9fff) && !(0x3400 <= (t[j] as u32) <= 0x4dbf)
                && !(0x3040 <= (t[j] as u32) <= 0x30ff),
    ensures
        language_of(t) == "ko"@,
{
}

/// A text with Arabic letters and no CJK, kana or hangul is Arabic.
pub proof fn law_arabic_text(t: Seq<char>, i: int)
    requires
        0 <= i < t.len(),
        0x0600 <= (t[i] as u32) <= 0x06ff,
        forall|j: int|
            0 <= j < t.len() ==> !(0x4e00 <= (#[trigger] t[j] as u32) <= 0x9fff) && !(0x3400 <= (t[j] as u32) <= 0x4dbf)
                && !(0x3040 <= (t[j] as u32) <= 0x30ff) && !(0xac00 <= (t[j] as u32) <= 0xd7af),
    ensures
        language_of(t) == "ar"@,
{
}

/// A text with Cyrillic letters and no CJK, kana, hangul or Arabic is
/// Russian.
pub proof fn law_russian_text(t: Seq<char>, i: int)
    requires
        0 <= i < t.len(),
        0x0400 <= (t[i] as u32) <= 0x04ff,
        forall|j: int|
            0 <= j < t.len() ==> !(0x4e00 <= (#[trigger] t[j] as u32) <= 0x9fff) && !(0x3400 <= (t[j] as u32) <= 0x4dbf)
                && !(0x3040 <= (t[j] as u32) <= 0x30ff) && !(0xac00 <= (t[j] as u32) <= 0xd7af) && !(0x0600 <= (
                t[j] as u32) <= 0x06ff),
    ensures
        language_of(t) == "ru"@,
{
}

/// Latin text (ASCII) marked only with `ã` or `õ` is Portuguese.
pub proof fn law_portuguese_text(t: Seq<char>, i: int)
    requires
        0 <= i < t.len(),
        t[i] == 'ã' || t[i] == 'õ',
        forall|j: int| 0 <= j < t.len() ==> (#[trigger] t[j] as u32) < 0x80 || t[j] == 'ã' || t[j] == 'õ',
    ensures
        language_of(t) == "pt"@,
{
    lemma_mark_groups();
    lemma_any_of_indices(t, "ãõ"@);
    assert(t[i] == "ãõ"@[0] || t[i] == "ãõ"@[1]);
}

/// Latin text marked only with umlauts (`ä`, `ö`, `ü`, in either case) is
/// German.
pub proof fn law_german_text(t: Seq<char>, i: int)
    requires
        0 <= i < t.len(),
        t[i] == 'ä' || t[i] == 'ö' || t[i] == 'ü' || t[i] == 'Ä' || t[i] == 'Ö' || t[i] == 'Ü',
        forall|j: int|
            0 <= j < t.len() ==> (#[trigger] t[j] as u32) < 0x80 || t[j] == 'ä' || t[j] == 'ö' || t[j] == 'ü' || t[j]
                == 'Ä' || t[j] == 'Ö' || t[j] == 'Ü',
    ensures
        language_of(t) == "de"@,
{
    lemma_mark_groups();
    lemma_any_of_indices(t, "ãõ"@);
    lemma_any_of_indices(t, "äöüÄÖÜ"@);
    let set = "äöüÄÖÜ"@;
    assert(t[i] == set[0] || t[i] == set[1] || t[i] == set[2] || t[i] == set[3] || t[i] == set[4] || t[i] == set[5]);
}

/// Latin text marked only with French accents (`à`, `è`, `é`, `ê`, `ë`,
/// `ç`, `ô`, `û`) is French.
pub proof fn law_french_text(t: Seq<char>, i: int)
    requires
        0 <= i < t.len(),
        t[i] == 'à' || t[i] == 'è' || t[i] == 'é' || t[i] == 'ê' || t[i] == 'ë' || t[i] == 'ç' || t[i] == 'ô' || t[i]
            == 'û',
        forall|j: int|
            0 <= j < t.len() ==> (#[trigger] t[j] as u32) < 0x80 || t[j] == 'à' || t[j] == 'è' || t[j] == 'é' || t[j]
                == 'ê' || t[j] == 'ë' || t[j] == 'ç' || t[j] == 'ô' || t[j] == 'û',
    ensures
        language_of(t) == "fr"@,
{
    lemma_mark_groups();
    lemma_any_of_indices(t, "ãõ"@);
    lemma_any_of_indices(t, "äöüÄÖÜ"@);
    lemma_any_of_indices(t, "àèéêëçôû"@);
    let set = "àèéêëçôû"@;
    assert(t[i] == set[0] || t[i] == set[1] || t[i] == set[2] || t[i] == set[3] || t[i] == set[4] || t[i] == set[5]
        || t[i] == set[6] || t[i] == set[7]);
}

/// Latin text marked only with `ñ`, `¿` or `¡` is Spanish.
pub proof fn law_spanish_text(t: Seq<char>, i: int)
    requires
        0 <= i < t.len(),
        t[i] == 'ñ' || t[i] == '¿' || t[i] == '¡',
        forall|j: int| 0 <= j < t.len() ==> (#[trigger] t[j] as u32) < 0x80 || t[j] == 'ñ' || t[j] == '¿' || t[j] == '¡',
    ensures
        language_of(t) == "es"@,
{
    lemma_mark_groups();
    lemma_any_of_indices(t, "ãõ"@);
    lemma_any_of_indices(t, "äöüÄÖÜ"@);
    lemma_any_of_indices(t, "àèéêëçôû"@);
    lemma_any_of_indices(t, "ñ¿¡"@);
    let set = "ñ¿¡"@;
    assert(t[i] == set[0] || t[i] == set[1] || t[i] == set[2]);
}

/// Latin text marked only with `ì`, `ò` or `ù` is Italian.
pub proof fn law_italian_text(t: Seq<char>, i: int)
    requires
        0 <= i < t.len(),
        t[i] == 'ì' || t[i] == 'ò' || t[i] == 'ù',
        forall|j: int| 0 <= j < t.len() ==> (#[trigger] t[j] as u32) < 0x80 || t[j] == 'ì' || t[j] == 'ò' || t[j] == 'ù',
    ensures
        language_of(t) == "it"@,
{
    lemma_mark_groups();
    lemma_any_of_indices(t, "ãõ"@);
    lemma_any_of_indices(t, "äöüÄÖÜ"@);
    lemma_any_of_indices(t, "àèéêëçôû"@);
    lemma_any_of_indices(t, "ñ¿¡"@);
    lemma_any_of_indices(t, "ìòù"@);
    let set = "ìòù"@;
    assert(t[i] == set[0] || t[i] == set[1] || t[i] == set[2]);
}

} // verus!
