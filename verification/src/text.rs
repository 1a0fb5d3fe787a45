//! Character-level helpers over strings, each with its mathematical model.

use vstd::prelude::*;
use vstd::string::{StrSliceExecFns, StringExecFns};

verus! {

/// The characters of `s`, in order.
pub fn chars_of(s: &str) -> (v: Vec<char>)
    ensures
        v@ == s@,
{
    broadcast use vstd::string::group_string_axioms;
    let mut v: Vec<char> = Vec::new();
    for c in it: s.chars()
        invariant
            v@ == it.seq().take(it.index() as int),
            it.seq() == s@,
    {
        v.push(c);
    }
    v
}


/// The code point of `c` after ASCII lowercasing (`A`..`Z` become `a`..`z`;
/// every other character keeps its code point).
pub open spec fn ascii_lower(c: char) -> u32 {
    if 65 <= (c as u32) && (c as u32) <= 90 {
        ((c as u32) + 32) as u32
    } else {
        c as u32
    }
}

/// `pat` occurs in `s` at index `i`, comparing `s` ASCII-lowercased.
pub open spec fn matches_ci_at(s: Seq<char>, pat: Seq<char>, i: int) -> bool {
    &&& 0 <= i
    &&& i + pat.len() <= s.len()
    &&& forall|j: int| 0 <= j < pat.len() ==> ascii_lower(s[i + j]) == (#[trigger] pat[j]) as u32
}

/// `s`, ASCII-lowercased, contains `pat`.
pub open spec fn contains_ci(s: Seq<char>, pat: Seq<char>) -> bool {
    exists|i: int| matches_ci_at(s, pat, i)
}

/// `s`, ASCII-lowercased, ends with `pat`.
pub open spec fn ends_with_ci(s: Seq<char>, pat: Seq<char>) -> bool {
    pat.len() <= s.len() && matches_ci_at(s, pat, s.len() - pat.len())
}

/// ASCII lowercasing of one character, as a code point.
pub fn lower_code(c: char) -> (r: u32)
    ensures
        r == ascii_lower(c),
{
    let u = c as u32;
    if 65 <= u && u <= 90 {
        u + 32
    } else {
        u
    }
}

fn matches_ci_here(s: &Vec<char>, pat: &Vec<char>, i: usize) -> (b: bool)
    requires
        i + pat.len() <= s.len(),
    ensures
        b == matches_ci_at(s@, pat@, i as int),
{
    let mut j: usize = 0;
    while j < pat.len()
        invariant
            i + pat.len() <= s.len(),
            j <= pat.len(),
            forall|k: int| 0 <= k < j ==> ascii_lower(s@[i + k]) == (#[trigger] pat@[k]) as u32,
        decreases pat.len() - j,
    {
        if lower_code(s[i + j]) != pat[j] as u32 {
            return false;
        }
        j = j + 1;
    }
    true
}

/// Whether `s`, ASCII-lowercased, contains `pat`.
pub fn has_ci(s: &Vec<char>, pat: &Vec<char>) -> (b: bool)
    ensures
        b == contains_ci(s@, pat@),
{
    if pat.len() > s.len() {
        return false;
    }
    let last = s.len() - pat.len();
    let mut i: usize = 0;
    loop
        invariant
            i <= last,
            last + pat.len() == s.len(),
            forall|k: int| 0 <= k < i ==> !matches_ci_at(s@, pat@, k),
        decreases last - i,
    {
        if matches_ci_here(s, pat, i) {
            return true;
        }
        if i == last {
            assert forall|k: int| !matches_ci_at(s@, pat@, k) by {
                if 0 <= k && k < i {
                }
            }
            return false;
        }
        i = i + 1;
    }
}

/// Whether `s`, ASCII-lowercased, contains the literal `pat`.
pub fn has_ci_str(s: &Vec<char>, pat: &str) -> (b: bool)
    ensures
        b == contains_ci(s@, pat@),
{
    let p = chars_of(pat);
    has_ci(s, &p)
}

/// Whether `s`, ASCII-lowercased, ends with the literal `pat`.
pub fn ends_ci_str(s: &Vec<char>, pat: &str) -> (b: bool)
    ensures
        b == ends_with_ci(s@, pat@),
{
    let p = chars_of(pat);
    if p.len() > s.len() {
        false
    } else {
        matches_ci_here(s, &p, s.len() - p.len())
    }
}


/// Some character of `s` has its code point in `lo..=hi`.
pub open spec fn any_in_range(s: Seq<char>, lo: u32, hi: u32) -> bool {
    exists|i: int| 0 <= i < s.len() && lo <= (#[trigger] s[i]) as u32 <= hi
}

/// Some character of `s` is one of the characters of `set`.
pub open spec fn any_of(s: Seq<char>, set: Seq<char>) -> bool {
    exists|i: int| 0 <= i < s.len() && set.contains(#[trigger] s[i])
}

/// Whether some character of `s` lies in `lo..=hi`.
pub fn has_in_range(s: &Vec<char>, lo: u32, hi: u32) -> (b: bool)
    ensures
        b == any_in_range(s@, lo, hi),
{
    let mut i: usize = 0;
    while i < s.len()
        invariant
            i <= s.len(),
            forall|k: int| 0 <= k < i ==> !(lo <= (#[trigger] s@[k]) as u32 <= hi),
        decreases s.len() - i,
    {
        let u = s[i] as u32;
        if lo <= u && u <= hi {
            return true;
        }
        i = i + 1;
    }
    false
}

/// Whether `c` is one of the characters of `set`.
pub fn char_in(set: &Vec<char>, c: char) -> (b: bool)
    ensures
        b == set@.contains(c),
{
    let mut i: usize = 0;
    while i < set.len()
        invariant
            i <= set.len(),
            forall|k: int| 0 <= k < i ==> set@[k] != c,
        decreases set.len() - i,
    {
        if set[i] == c {
            return true;
        }
        i = i + 1;
    }
    false
}

/// Whether some character of `s` is one of the characters of `set`.
pub fn has_any_of(s: &Vec<char>, set: &str) -> (b: bool)
    ensures
        b == any_of(s@, set@),
{
    let cs = chars_of(set);
    let mut i: usize = 0;
    while i < s.len()
        invariant
            i <= s.len(),
            cs@ == set@,
            forall|k: int| 0 <= k < i ==> !set@.contains(#[trigger] s@[k]),
        decreases s.len() - i,
    {
        if char_in(&cs, s[i]) {
            return true;
        }
        i = i + 1;
    }
    false
}


/// Lexicographic order on character sequences, by code point. On UTF-8
/// strings this is the order of `str`'s `Ord` (byte order).
pub open spec fn lex_lt(a: Seq<char>, b: Seq<char>) -> bool
    decreases a.len(),
{
    if a.len() == 0 {
        b.len() > 0
    } else if b.len() == 0 {
        false
    } else if a[0] != b[0] {
        (a[0] as u32) < (b[0] as u32)
    } else {
        lex_lt(a.drop_first(), b.drop_first())
    }
}

/// Different characters have different code points.
pub proof fn lemma_char_code_injective(x: char, y: char)
    requires
        x != y,
    ensures
        (x as u32) != (y as u32),
{
}

/// No sequence precedes itself.
pub proof fn lemma_lex_irreflexive(a: Seq<char>)
    ensures
        !lex_lt(a, a),
    decreases a.len(),
{
    if a.len() > 0 {
        lemma_lex_irreflexive(a.drop_first());
    }
}

/// The order is transitive.
pub proof fn lemma_lex_transitive(a: Seq<char>, b: Seq<char>, c: Seq<char>)
    requires
        lex_lt(a, b),
        lex_lt(b, c),
    ensures
        lex_lt(a, c),
    decreases a.len(),
{
    if a.len() > 0 && b.len() > 0 && c.len() > 0 {
        if a[0] == b[0] && b[0] == c[0] {
            lemma_lex_transitive(a.drop_first(), b.drop_first(), c.drop_first());
        }
    }
}

/// Two different sequences are ordered one way or the other.
pub proof fn lemma_lex_total(a: Seq<char>, b: Seq<char>)
    requires
        a != b,
    ensures
        lex_lt(a, b) || lex_lt(b, a),
    decreases a.len(),
{
    if a.len() > 0 && b.len() > 0 {
        if a[0] == b[0] {
            if a.drop_first() == b.drop_first() {
                assert(a =~= seq![a[0]] + a.drop_first());
                assert(b =~= seq![b[0]] + b.drop_first());
            }
            lemma_lex_total(a.drop_first(), b.drop_first());
        } else {
            lemma_char_code_injective(a[0], b[0]);
        }
    } else if a.len() == 0 && b.len() == 0 {
        assert(a =~= b);
    }
}

/// The order is asymmetric.
pub proof fn lemma_lex_asymmetric(a: Seq<char>, b: Seq<char>)
    requires
        lex_lt(a, b),
    ensures
        !lex_lt(b, a),
{
    if lex_lt(b, a) {
        lemma_lex_transitive(a, b, a);
        lemma_lex_irreflexive(a);
    }
}

/// Whether `a` precedes `b` lexicographically.
pub fn lex_less(a: &Vec<char>, b: &Vec<char>) -> (r: bool)
    ensures
        r == lex_lt(a@, b@),
{
    let mut i: usize = 0;
    assert(a@.skip(0) =~= a@);
    assert(b@.skip(0) =~= b@);
    loop
        invariant
            i <= a.len(),
            i <= b.len(),
            lex_lt(a@, b@) == lex_lt(a@.skip(i as int), b@.skip(i as int)),
        decreases a.len() - i,
    {
        if i == a.len() {
            return i < b.len();
        }
        if i == b.len() {
            return false;
        }
        let x = a[i];
        let y = b[i];
        if x != y {
            return (x as u32) < (y as u32);
        }
        assert(a@.skip(i as int).drop_first() =~= a@.skip(i + 1));
        assert(b@.skip(i as int).drop_first() =~= b@.skip(i + 1));
        i = i + 1;
    }
}

/// The character views of a sequence of strings.
pub open spec fn views(v: Seq<String>) -> Seq<Seq<char>> {
    v.map_values(|s: String| s@)
}

/// Every element precedes every later one: sorted, without repetition.
pub open spec fn strictly_sorted(s: Seq<Seq<char>>) -> bool {
    forall|i: int, j: int| 0 <= i < j < s.len() ==> lex_lt(#[trigger] s[i], #[trigger] s[j])
}

/// `a` and `b` hold the same elements, each any number of times.
pub open spec fn same_elements(a: Seq<Seq<char>>, b: Seq<Seq<char>>) -> bool {
    forall|x: Seq<char>| a.contains(x) <==> b.contains(x)
}

/// Where `x` belongs in the strictly sorted `out`: the index of the first
/// element that does not precede it, and whether that element equals it.
fn find_slot(out: &Vec<String>, xs: &Vec<char>) -> (r: (usize, bool))
    ensures
        r.0 <= out.len(),
        forall|k: int| 0 <= k < r.0 ==> lex_lt(#[trigger] views(out@)[k], xs@),
        r.1 ==> r.0 < out.len() && views(out@)[r.0 as int] == xs@,
        !r.1 ==> r.0 == out.len() || lex_lt(xs@, views(out@)[r.0 as int]),
{
    let ghost v = views(out@);
    let mut p: usize = 0;
    while p < out.len()
        invariant
            p <= out.len(),
            v == views(out@),
            forall|k: int| 0 <= k < p ==> lex_lt(#[trigger] v[k], xs@),
        decreases out.len() - p,
    {
        let cs = chars_of(out[p].as_str());
        assert(cs@ == v[p as int]);
        if lex_less(&xs, &cs) {
            return (p, false);
        }
        if !lex_less(&cs, &xs) {
            proof {
                if cs@ != xs@ {
                    lemma_lex_total(cs@, xs@);
                }
            }
            return (p, true);
        }
        p = p + 1;
    }
    (p, false)
}

/// Inserts `x` into the strictly sorted `out`, unless it is already there.
fn insert_sorted(out: &mut Vec<String>, x: String)
    requires
        strictly_sorted(views(old(out)@)),
    ensures
        strictly_sorted(views(final(out)@)),
        forall|y: Seq<char>| views(final(out)@).contains(y) <==> (views(old(out)@).contains(y) || y == x@),
{
    let xs = chars_of(x.as_str());
    let ghost old_v = views(out@);
    let (p, equal) = find_slot(out, &xs);
    if equal {
        proof {
            assert(old_v[p as int] == x@);
            assert forall|y: Seq<char>| old_v.contains(y) <==> (old_v.contains(y) || y == x@) by {
                if y == x@ {
                    assert(old_v[p as int] == y);
                }
            }
        }
        return;
    }
    proof {
        if p < old_v.len() {
            assert forall|j: int| p < j < old_v.len() implies lex_lt(x@, #[trigger] old_v[j]) by {
                lemma_lex_transitive(x@, old_v[p as int], old_v[j]);
            }
        }
    }
    out.insert(p, x);
    proof {
        let nv = views(out@);
        assert(nv =~= old_v.take(p as int).push(x@) + old_v.skip(p as int));
        assert forall|i: int, j: int| 0 <= i < j < nv.len() implies lex_lt(#[trigger] nv[i], #[trigger] nv[j]) by {
            if i < p && j > p {
                assert(nv[j] == old_v[j - 1]);
                assert(lex_lt(old_v[i], old_v[j - 1]));
            } else if i > p {
                assert(nv[i] == old_v[i - 1]);
                assert(nv[j] == old_v[j - 1]);
            } else if i == p && j > p {
                assert(nv[j] == old_v[j - 1]);
            }
        }
        assert forall|y: Seq<char>| nv.contains(y) <==> (old_v.contains(y) || y == x@) by {
            if nv.contains(y) {
                let k = choose|k: int| 0 <= k < nv.len() && nv[k] == y;
                if k < p {
                    assert(old_v[k] == y);
                } else if k > p {
                    assert(old_v[k - 1] == y);
                }
            }
            if old_v.contains(y) {
                let k = choose|k: int| 0 <= k < old_v.len() && old_v[k] == y;
                if k < p {
                    assert(nv[k] == y);
                } else {
                    assert(nv[k + 1] == y);
                }
            }
            if y == x@ {
                assert(nv[p as int] == y);
            }
        }
    }
}

/// A sequence extended by one element holds exactly the old elements and the new one.
pub proof fn lemma_push_contains(s: Seq<Seq<char>>, e: Seq<char>, y: Seq<char>)
    ensures
        s.push(e).contains(y) <==> (s.contains(y) || y == e),
{
    if s.push(e).contains(y) {
        let k = choose|k: int| 0 <= k < s.push(e).len() && s.push(e)[k] == y;
        if k < s.len() {
            assert(s[k] == y);
        }
    }
    if s.contains(y) {
        let k = choose|k: int| 0 <= k < s.len() && s[k] == y;
        assert(s.push(e)[k] == y);
    }
    if y == e {
        assert(s.push(e)[s.len() as int] == y);
    }
}

/// The elements of `v`, sorted in lexicographic order with repetitions
/// removed.
pub fn sorted_unique(v: Vec<String>) -> (out: Vec<String>)
    ensures
        strictly_sorted(views(out@)),
        same_elements(views(out@), views(v@)),
{
    let mut out: Vec<String> = Vec::new();
    let mut i: usize = 0;
    while i < v.len()
        invariant
            i <= v.len(),
            strictly_sorted(views(out@)),
            forall|y: Seq<char>| views(out@).contains(y) <==> views(v@).take(i as int).contains(y),
        decreases v.len() - i,
    {
        let x = v[i].clone();
        proof {
            assert(views(v@).take(i + 1) =~= views(v@).take(i as int).push(v@[i as int]@));
        }
        insert_sorted(&mut out, x);
        proof {
            assert forall|y: Seq<char>| views(out@).contains(y) <==> views(v@).take(i + 1).contains(y) by {
                lemma_push_contains(views(v@).take(i as int), v@[i as int]@, y);
            }
        }
        i = i + 1;
    }
    proof {
        assert(views(v@).take(v.len() as int) =~= views(v@));
    }
    out
}


/// The characters of `s` from `from` up to `to`, as a new string.
pub fn substring(s: &str, from: usize, to: usize) -> (t: String)
    requires
        from <= to <= s@.len(),
    ensures
        t@ == s@.subrange(from as int, to as int),
{
    String::from_str(s.substring_char(from, to))
}


/// Unicode white space, as `char::is_whitespace` defines it (the
/// `White_Space` property).
pub open spec fn is_white(c: char) -> bool {
    let u = c as u32;
    ||| 9 <= u <= 13
    ||| u == 32
    ||| u == 0x85
    ||| u == 0xa0
    ||| u == 0x1680
    ||| 0x2000 <= u <= 0x200a
    ||| u == 0x2028
    ||| u == 0x2029
    ||| u == 0x202f
    ||| u == 0x205f
    ||| u == 0x3000
}

/// Whether `c` is white space.
pub fn white(c: char) -> (b: bool)
    ensures
        b == is_white(c),
{
    let u = c as u32;
    (9 <= u && u <= 13) || u == 32 || u == 0x85 || u == 0xa0 || u == 0x1680 || (0x2000 <= u && u
        <= 0x200a) || u == 0x2028 || u == 0x2029 || u == 0x202f || u == 0x205f || u == 0x3000
}

/// `s` without its leading white space.
pub open spec fn trim_start(s: Seq<char>) -> Seq<char>
    decreases s.len(),
{
    if s.len() > 0 && is_white(s[0]) {
        trim_start(s.drop_first())
    } else {
        s
    }
}

/// `s` without its trailing white space.
pub open spec fn trim_end(s: Seq<char>) -> Seq<char>
    decreases s.len(),
{
    if s.len() > 0 && is_white(s.last()) {
        trim_end(s.drop_last())
    } else {
        s
    }
}

/// `s` without leading and trailing white space, as `str::trim` gives it.
pub open spec fn trimmed(s: Seq<char>) -> Seq<char> {
    trim_end(trim_start(s))
}

/// `s` holds nothing but white space.
pub open spec fn is_blank(s: Seq<char>) -> bool {
    trimmed(s).len() == 0
}

/// `s` without leading and trailing white space.
pub fn trim(s: &str) -> (t: String)
    ensures
        t@ == trimmed(s@),
{
    let cs = chars_of(s);
    let mut i: usize = 0;
    assert(cs@.skip(0) =~= cs@);
    while i < cs.len() && white(cs[i])
        invariant
            i <= cs.len(),
            cs@ == s@,
            trim_start(s@) == trim_start(cs@.skip(i as int)),
        decreases cs.len() - i,
    {
        assert(cs@.skip(i as int).drop_first() =~= cs@.skip(i + 1));
        i = i + 1;
    }
    assert(trim_start(s@) == cs@.skip(i as int));
    let mut j: usize = cs.len();
    assert(cs@.subrange(i as int, j as int) =~= cs@.skip(i as int));
    while j > i && white(cs[j - 1])
        invariant
            i <= j <= cs.len(),
            trimmed(s@) == trim_end(cs@.subrange(i as int, j as int)),
        decreases j,
    {
        assert(cs@.subrange(i as int, j as int).drop_last() =~= cs@.subrange(i as int, j - 1));
        j = j - 1;
    }
    substring(s, i, j)
}

/// Whether `s` holds nothing but white space.
pub fn blank(s: &str) -> (b: bool)
    ensures
        b == is_blank(s@),
{
    let t = trim(s);
    t.as_str().unicode_len() == 0
}


/// The decimal digit of `d` (below ten).
pub open spec fn digit_char(d: nat) -> char {
    ((48 + d) as u8) as char
}

/// The decimal writing of `n`, without leading zeros.
pub open spec fn decimal(n: nat) -> Seq<char>
    decreases n,
{
    if n < 10 {
        seq![digit_char(n)]
    } else {
        decimal(n / 10).push(digit_char(n % 10))
    }
}

/// Appends the decimal writing of `n` to `s`.
pub fn push_decimal(s: &mut String, n: u128)
    ensures
        final(s)@ == old(s)@ + decimal(n as nat),
    decreases n,
{
    if n >= 10 {
        push_decimal(s, n / 10);
    }
    let d = (n % 10) as usize;
    let digits: &str = "0123456789";
    proof {
        reveal_strlit("0123456789");
    }
    let t = digits.substring_char(d, d + 1);
    assert(t@ =~= seq![digits@[d as int]]);
    assert(digits@[d as int] == digit_char(d as nat)) by {
        assert(digits@ =~= seq!['0', '1', '2', '3', '4', '5', '6', '7', '8', '9']);
        if d == 0 {} else if d == 1 {} else if d == 2 {} else if d == 3 {} else if d == 4 {}
        else if d == 5 {} else if d == 6 {} else if d == 7 {} else if d == 8 {} else {}
    }
    s.append(t);
    assert(n < 10 ==> old(s)@ + decimal(n as nat) =~= old(s)@.push(digit_char(n as nat)));
}


/// Index of the first line feed in `s`, or -1 when there is none.
pub open spec fn first_newline(s: Seq<char>) -> int
    decreases s.len(),
{
    if s.len() == 0 {
        -1
    } else if s[0] == '\n' {
        0
    } else {
        let r = first_newline(s.drop_first());
        if r < 0 {
            -1
        } else {
            r + 1
        }
    }
}

/// The lines of `s`, as `str::lines` splits them: at each line feed, a
/// carriage return just before it dropped, and no empty line after a final
/// line feed.
pub open spec fn lines_of(s: Seq<char>) -> Seq<Seq<char>>
    decreases s.len(),
{
    if s.len() == 0 {
        Seq::empty()
    } else {
        let k = first_newline(s);
        if k < 0 {
            seq![s]
        } else {
            let line = if k > 0 && s[k - 1] == '\r' {
                s.take(k - 1)
            } else {
                s.take(k)
            };
            if 0 <= k < s.len() {
                seq![line] + lines_of(s.skip(k + 1))
            } else {
                seq![line]
            }
        }
    }
}

/// The first line feed of `s` from its character `start` on is the one at
/// `k`, when the characters in between hold none.
proof fn lemma_first_newline_at(s: Seq<char>, start: int, k: int)
    requires
        0 <= start <= k <= s.len(),
        forall|j: int| start <= j < k ==> s[j] != '\n',
        k == s.len() || s[k] == '\n',
    ensures
        first_newline(s.skip(start)) == if k == s.len() {
            -1
        } else {
            k - start
        },
    decreases k - start,
{
    let t = s.skip(start);
    if start < k {
        assert(t.drop_first() =~= s.skip(start + 1));
        lemma_first_newline_at(s, start + 1, k);
    } else if k < s.len() {
        assert(t[0] == s[k]);
    } else {
        assert(t.len() == 0);
    }
}

/// The lines of `s` (see [`lines_of`]).
pub fn split_lines(s: &str) -> (lines: Vec<String>)
    ensures
        views(lines@) == lines_of(s@),
{
    let cs = chars_of(s);
    let mut out: Vec<String> = Vec::new();
    let mut start: usize = 0;
    assert(cs@.skip(0) =~= cs@);
    while start < cs.len()
        invariant
            start <= cs.len(),
            cs@ == s@,
            lines_of(s@) == views(out@) + lines_of(cs@.skip(start as int)),
        decreases cs.len() - start,
    {
        let mut k: usize = start;
        while k < cs.len() && cs[k] != '\n'
            invariant
                start <= k <= cs.len(),
                forall|j: int| start <= j < k ==> cs@[j] != '\n',
            decreases cs.len() - k,
        {
            k = k + 1;
        }
        proof {
            lemma_first_newline_at(cs@, start as int, k as int);
        }
        let ghost rest = cs@.skip(start as int);
        let end = if k < cs.len() && k > start && cs[k - 1] == '\r' {
            k - 1
        } else {
            k
        };
        let ghost before = views(out@);
        out.push(substring(s, start, end));
        if k < cs.len() {
            assert(rest.take(end - start) =~= cs@.subrange(start as int, end as int));
            assert(rest.skip(k - start + 1) =~= cs@.skip(k + 1));
            assert(lines_of(rest) == seq![cs@.subrange(start as int, end as int)] + lines_of(cs@.skip(k + 1)));
            assert(views(out@) + lines_of(cs@.skip(k + 1)) =~= before + lines_of(rest));
            start = k + 1;
        } else {
            assert(rest =~= cs@.subrange(start as int, end as int));
            assert(lines_of(rest) == seq![rest]);
            assert(cs@.skip(cs.len() as int) =~= Seq::<char>::empty());
            assert(views(out@) + lines_of(cs@.skip(cs.len() as int)) =~= before + lines_of(rest));
            start = cs.len();
        }
    }
    assert(cs@.skip(cs.len() as int) =~= Seq::<char>::empty());
    assert(views(out@) + Seq::<Seq<char>>::empty() =~= views(out@));
    out
}


/// Whether two strings are equal.
pub fn equals_str(a: &str, b: &str) -> (r: bool)
    ensures
        r == (a@ == b@),
{
    let x = chars_of(a);
    let y = chars_of(b);
    if x.len() != y.len() {
        return false;
    }
    let mut i: usize = 0;
    while i < x.len()
        invariant
            x.len() == y.len(),
            i <= x.len(),
            x@ == a@,
            y@ == b@,
            forall|k: int| 0 <= k < i ==> x@[k] == y@[k],
        decreases x.len() - i,
    {
        if x[i] != y[i] {
            return false;
        }
        i = i + 1;
    }
    assert(x@ =~= y@);
    true
}

} // verus!
