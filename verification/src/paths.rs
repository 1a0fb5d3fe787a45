//! File names and paths, handled as text: extensions and stems the way
//! `std::path` reads them, and joining a directory with a relative name.

use vstd::prelude::*;
use vstd::string::StringExecFns;
use crate::text::{ascii_lower, blank, chars_of, is_blank, matches_ci_at, substring, views};

verus! {

/// Index of the last `.` in `s`, or -1 when there is none.
pub open spec fn last_dot(s: Seq<char>) -> int
    decreases s.len(),
{
    if s.len() == 0 {
        -1
    } else if s.last() == '.' {
        s.len() - 1
    } else {
        last_dot(s.drop_last())
    }
}

/// The extension of a file name: what follows its last `.`, unless that dot
/// is the first character (a hidden file) or the name is `..`.
pub open spec fn extension_of(name: Seq<char>) -> Option<Seq<char>> {
    let d = last_dot(name);
    if name == ".."@ || d <= 0 {
        None
    } else {
        Some(name.subrange(d + 1, name.len() as int))
    }
}

/// The stem of a file name: what precedes its extension, or the whole name
/// when it has none.
pub open spec fn stem_of(name: Seq<char>) -> Seq<char> {
    let d = last_dot(name);
    if name == ".."@ || d <= 0 {
        name
    } else {
        name.subrange(0, d)
    }
}

proof fn lemma_last_dot_bounds(s: Seq<char>)
    ensures
        -1 <= last_dot(s) < s.len(),
        last_dot(s) >= 0 ==> s[last_dot(s)] == '.',
        forall|k: int| last_dot(s) < k < s.len() ==> s[k] != '.',
    decreases s.len(),
{
    if s.len() > 0 && s.last() != '.' {
        let t = s.drop_last();
        lemma_last_dot_bounds(t);
        assert forall|k: int| last_dot(s) < k < s.len() implies s[k] != '.' by {
            if k < s.len() - 1 {
                assert(s[k] == t[k]);
            }
        }
    }
}

fn find_last_dot(cs: &Vec<char>) -> (d: Option<usize>)
    ensures
        match d {
            Some(k) => k == last_dot(cs@),
            None => last_dot(cs@) == -1,
        },
{
    let mut i: usize = cs.len();
    assert(cs@.take(cs.len() as int) =~= cs@);
    loop
        invariant
            i <= cs.len(),
            last_dot(cs@) == last_dot(cs@.take(i as int)),
        decreases i,
    {
        if i == 0 {
            return None;
        }
        let ghost t = cs@.take(i as int);
        assert(t.drop_last() =~= cs@.take(i - 1));
        if cs[i - 1] == '.' {
            return Some(i - 1);
        }
        i = i - 1;
    }
}

fn is_dot_dot(cs: &Vec<char>) -> (b: bool)
    ensures
        b == (cs@ == ".."@),
{
    proof {
        reveal_strlit("..");
    }
    if cs.len() == 2 && cs[0] == '.' && cs[1] == '.' {
        assert(cs@ =~= ".."@);
        true
    } else {
        false
    }
}

/// The extension of a file name, if it has one.
pub fn file_extension(name: &str) -> (ext: Option<String>)
    ensures
        match ext {
            Some(e) => extension_of(name@) == Some(e@),
            None => extension_of(name@) is None,
        },
{
    let cs = chars_of(name);
    let found = find_last_dot(&cs);
    let d = match found {
        Some(k) => k,
        None => {
            return None;
        },
    };
    if d == 0 || is_dot_dot(&cs) {
        return None;
    }
    proof {
        lemma_last_dot_bounds(cs@);
    }
    assert(d == last_dot(cs@));
    assert(d < cs.len());
    Some(substring(name, d + 1, cs.len()))
}

/// The stem of a file name.
pub fn file_stem(name: &str) -> (stem: String)
    ensures
        stem@ == stem_of(name@),
{
    let cs = chars_of(name);
    let found = find_last_dot(&cs);
    let d = match found {
        Some(k) => k,
        None => {
            return String::from_str(name);
        },
    };
    if d == 0 || is_dot_dot(&cs) {
        return String::from_str(name);
    }
    proof {
        lemma_last_dot_bounds(cs@);
    }
    substring(name, 0, d)
}

/// `s` equals `pat` once ASCII-lowercased (`pat` being lowercase).
pub open spec fn equals_ci(s: Seq<char>, pat: Seq<char>) -> bool {
    s.len() == pat.len() && matches_ci_at(s, pat, 0)
}

/// Whether `s` equals the lowercase literal `pat`, ignoring ASCII case.
pub fn equals_ci_str(s: &str, pat: &str) -> (b: bool)
    ensures
        b == equals_ci(s@, pat@),
{
    let a = chars_of(s);
    let p = chars_of(pat);
    if a.len() != p.len() {
        return false;
    }
    let mut j: usize = 0;
    while j < p.len()
        invariant
            a.len() == p.len(),
            j <= p.len(),
            a@ == s@,
            p@ == pat@,
            forall|k: int| 0 <= k < j ==> ascii_lower(a@[0 + k]) == (#[trigger] p@[k]) as u32,
        decreases p.len() - j,
    {
        if crate::text::lower_code(a[j]) != p[j] as u32 {
            return false;
        }
        j = j + 1;
    }
    true
}


/// The separator `Path::join` puts between a folder and a name: `\` on
/// Windows, `/` elsewhere.
pub open spec fn main_separator(windows: bool) -> char {
    if windows {
        '\\'
    } else {
        '/'
    }
}

/// `s` starts with a Windows drive prefix: an ASCII letter and `:`.
pub open spec fn is_drive(s: Seq<char>) -> bool {
    &&& s.len() >= 2
    &&& s[1] == ':'
    &&& ((65 <= (s[0] as u32) && (s[0] as u32) <= 90) || (97 <= (s[0] as u32) && (s[0] as u32) <= 122))
}

/// `s` starts with a Windows share prefix: two backslashes.
pub open spec fn is_unc(s: Seq<char>) -> bool {
    s.len() >= 2 && s[0] == '\\' && s[1] == '\\'
}

/// A name that `Path::join` takes in place of the folder it is joined to:
/// one starting with `/` elsewhere; one with a prefix (a drive or a share)
/// on Windows.
pub open spec fn replaces(name: Seq<char>, windows: bool) -> bool {
    if windows {
        is_drive(name) || is_unc(name)
    } else {
        name.len() > 0 && name[0] == '/'
    }
}

/// The first index from `i` on where `s` holds a separator, or `s.len()`.
pub open spec fn separator_from(s: Seq<char>, i: int, windows: bool) -> int
    decreases s.len() - i,
{
    if i >= s.len() {
        s.len() as int
    } else if is_separator(s[i], windows) {
        i
    } else {
        separator_from(s, i + 1, windows)
    }
}

/// Where the prefix of a share path `\\server\share` ends.
pub open spec fn unc_prefix_end(s: Seq<char>) -> int {
    let a = separator_from(s, 2, true);
    if a >= s.len() {
        s.len() as int
    } else {
        separator_from(s, a + 1, true)
    }
}

/// `dir` joined with `name`, as `Path::join` does it: `name` itself when it
/// has a prefix (on Windows) or starts at the root (elsewhere); on Windows a
/// name that starts with a separator keeps only the prefix of `dir`;
/// otherwise the two, with the platform's separator between them unless
/// `dir` is empty, ends with a separator, or is a bare drive.
pub open spec fn joined(dir: Seq<char>, name: Seq<char>, windows: bool) -> Seq<char> {
    if replaces(name, windows) {
        name
    } else if windows && name.len() > 0 && is_separator(name[0], true) {
        if is_drive(dir) {
            dir.take(2) + name
        } else if is_unc(dir) {
            dir.take(unc_prefix_end(dir)) + name
        } else {
            name
        }
    } else if dir.len() == 0 || is_separator(dir.last(), windows) || (windows && dir.len() == 2 && is_drive(dir)) {
        dir + name
    } else {
        dir.push(main_separator(windows)) + name
    }
}

fn drive_at_start(cs: &Vec<char>) -> (b: bool)
    ensures
        b == is_drive(cs@),
{
    cs.len() >= 2 && cs[1] == ':' && ((65 <= (cs[0] as u32) && (cs[0] as u32) <= 90) || (97 <= (cs[0] as u32)
        && (cs[0] as u32) <= 122))
}

fn unc_at_start(cs: &Vec<char>) -> (b: bool)
    ensures
        b == is_unc(cs@),
{
    cs.len() >= 2 && cs[0] == '\\' && cs[1] == '\\'
}

fn find_separator(cs: &Vec<char>, i: usize, windows: bool) -> (k: usize)
    requires
        i <= cs.len(),
    ensures
        k == separator_from(cs@, i as int, windows),
        i <= k <= cs.len(),
    decreases cs.len() - i,
{
    if i >= cs.len() {
        cs.len()
    } else if separator(cs[i], windows) {
        i
    } else {
        find_separator(cs, i + 1, windows)
    }
}

/// `dir` joined with `name` (see [`joined`]).
pub fn join_path(dir: &str, name: &str, windows: bool) -> (p: String)
    ensures
        p@ == joined(dir@, name@, windows),
{
    proof {
        reveal_strlit("/");
        reveal_strlit("\\");
    }
    let d = chars_of(dir);
    let n = chars_of(name);
    let named = if windows {
        drive_at_start(&n) || unc_at_start(&n)
    } else {
        n.len() > 0 && n[0] == '/'
    };
    if named {
        return String::from_str(name);
    }
    if windows && n.len() > 0 && separator(n[0], true) {
        if drive_at_start(&d) {
            let mut p = substring(dir, 0, 2);
            p.append(name);
            return p;
        }
        if unc_at_start(&d) {
            let a = find_separator(&d, 2, true);
            let b = if a >= d.len() {
                d.len()
            } else {
                find_separator(&d, a + 1, true)
            };
            let mut p = substring(dir, 0, b);
            p.append(name);
            return p;
        }
        return String::from_str(name);
    }
    let mut p = String::from_str(dir);
    if d.len() == 0 || separator(d[d.len() - 1], windows) || (windows && d.len() == 2 && drive_at_start(&d)) {
        p.append(name);
        return p;
    }
    if windows {
        p.append("\\");
        assert("\\"@ =~= seq![main_separator(windows)]);
    } else {
        p.append("/");
        assert("/"@ =~= seq![main_separator(windows)]);
    }
    p.append(name);
    assert(p@ =~= dir@.push(main_separator(windows)) + name@);
    p
}

/// A path that starts at a root: one starting with `/` elsewhere; on
/// Windows a drive followed by a separator (`C:\`, `C:/`) or a share
/// (`\\server\share`).
pub open spec fn is_absolute(p: Seq<char>, windows: bool) -> bool {
    if windows {
        (is_drive(p) && p.len() >= 3 && is_separator(p[2], true)) || is_unc(p)
    } else {
        p.len() > 0 && p[0] == '/'
    }
}

/// Whether `p` starts at a root (see [`is_absolute`]).
pub fn is_absolute_path(p: &str, windows: bool) -> (b: bool)
    ensures
        b == is_absolute(p@, windows),
{
    let cs = chars_of(p);
    if windows {
        (drive_at_start(&cs) && cs.len() >= 3 && separator(cs[2], true)) || unc_at_start(&cs)
    } else {
        cs.len() > 0 && cs[0] == '/'
    }
}

/// A name that takes the place of the folder without starting at a root
/// itself: on Windows, one relative to a drive's own working directory,
/// such as `D:notes`.
pub open spec fn drive_relative(name: Seq<char>, windows: bool) -> bool {
    replaces(name, windows) && !is_absolute(name, windows)
}

proof fn lemma_separator_from_bounds(s: Seq<char>, i: int, windows: bool)
    requires
        0 <= i,
    ensures
        i <= s.len() ==> i <= separator_from(s, i, windows) <= s.len(),
        i > s.len() ==> separator_from(s, i, windows) == s.len(),
    decreases s.len() - i,
{
    if i < s.len() && !is_separator(s[i], windows) {
        lemma_separator_from_bounds(s, i + 1, windows);
    }
}

/// Joining a name onto a path that starts at a root gives a path that
/// starts at a root, unless the name is relative to another drive.
pub proof fn lemma_joined_keeps_absolute(dir: Seq<char>, name: Seq<char>, windows: bool)
    requires
        is_absolute(dir, windows),
        !drive_relative(name, windows),
    ensures
        is_absolute(joined(dir, name, windows), windows),
{
    let j = joined(dir, name, windows);
    if replaces(name, windows) {
    } else if windows && name.len() > 0 && is_separator(name[0], true) {
        if is_drive(dir) {
            assert(j[0] == dir[0] && j[1] == dir[1] && j[2] == name[0]);
        } else {
            lemma_separator_from_bounds(dir, 2, true);
            let a = separator_from(dir, 2, true);
            if a < dir.len() {
                lemma_separator_from_bounds(dir, a + 1, true);
            }
            assert(j[0] == dir[0] && j[1] == dir[1]);
        }
    } else {
        assert(j.len() >= dir.len());
        assert(forall|k: int| 0 <= k < dir.len() ==> j[k] == dir[k]);
        assert(is_drive(j) ==> is_drive(dir));
    }
}

/// The directory that holds the working directory's `name` folder: the
/// working directory when it is known, else `.`.
pub open spec fn under_cwd(cwd: Option<Seq<char>>, name: Seq<char>, windows: bool) -> Seq<char> {
    match cwd {
        Some(c) => joined(c, name, windows),
        None => joined("."@, name, windows),
    }
}

/// `value`, when it is set and not blank.
pub open spec fn set_value(value: Option<Seq<char>>) -> Option<Seq<char>> {
    match value {
        Some(v) => if is_blank(v) {
            None
        } else {
            Some(v)
        },
        None => None,
    }
}

fn cwd_child(cwd: &Option<String>, name: &str, windows: bool) -> (p: String)
    ensures
        p@ == under_cwd(opt_view(cwd), name@, windows),
{
    match cwd {
        Some(c) => join_path(c.as_str(), name, windows),
        None => join_path(".", name, windows),
    }
}

/// The view of an optional string.
pub open spec fn opt_view(o: &Option<String>) -> Option<Seq<char>> {
    match o {
        Some(s) => Some(s@),
        None => None,
    }
}

/// Where to look for weights, given the values of `LOCARYN_MODELS_DIR` (the
/// person's library, where downloaded models live) and
/// `LOCARYN_EXTENSION_MODELS_DIR` (this extension's private folder), and the
/// working directory: each set, non-blank variable in that order, then
/// `models` under the working directory (or `.`), to work outside the host.
pub open spec fn model_dirs_of(
    library: Option<Seq<char>>,
    private: Option<Seq<char>>,
    cwd: Option<Seq<char>>,
    windows: bool,
) -> Seq<Seq<char>> {
    let a: Seq<Seq<char>> = match set_value(library) {
        Some(v) => seq![v],
        None => seq![],
    };
    let b: Seq<Seq<char>> = match set_value(private) {
        Some(v) => seq![v],
        None => seq![],
    };
    a + b + seq![under_cwd(cwd, "models"@, windows)]
}

fn push_if_set(out: &mut Vec<String>, value: &Option<String>)
    ensures
        views(final(out)@) == views(old(out)@) + match set_value(opt_view(value)) {
            Some(v) => seq![v],
            None => Seq::<Seq<char>>::empty(),
        },
{
    let ghost before = views(out@);
    match value {
        Some(v) => {
            if !blank(v.as_str()) {
                out.push(v.clone());
                assert(views(out@) =~= before + seq![v@]);
            } else {
                assert(views(out@) =~= before + Seq::<Seq<char>>::empty());
            }
        },
        None => {
            assert(views(out@) =~= before + Seq::<Seq<char>>::empty());
        },
    }
}

/// The places to look for weights (see [`model_dirs_of`]).
pub fn models_dirs(library: &Option<String>, private: &Option<String>, cwd: &Option<String>, windows: bool) -> (dirs: Vec<
    String,
>)
    ensures
        views(dirs@) == model_dirs_of(opt_view(library), opt_view(private), opt_view(cwd), windows),
{
    let mut out: Vec<String> = Vec::new();
    assert(views(out@) =~= Seq::<Seq<char>>::empty());
    push_if_set(&mut out, library);
    push_if_set(&mut out, private);
    let ghost before = views(out@);
    out.push(cwd_child(cwd, "models", windows));
    assert(views(out@) =~= before + seq![under_cwd(opt_view(cwd), "models"@, windows)]);
    proof {
        let a: Seq<Seq<char>> = match set_value(opt_view(library)) {
            Some(v) => seq![v],
            None => seq![],
        };
        let b: Seq<Seq<char>> = match set_value(opt_view(private)) {
            Some(v) => seq![v],
            None => seq![],
        };
        assert(views(out@) =~= a + b + seq![under_cwd(opt_view(cwd), "models"@, windows)]);
    }
    out
}

/// The first place to look for weights, for code that wants only one:
/// the first of `dirs`, or `models` when there is none.
pub fn models_dir(dirs: &Vec<String>) -> (dir: String)
    ensures
        dir@ == if dirs@.len() > 0 {
            dirs@[0]@
        } else {
            "models"@
        },
{
    if dirs.len() > 0 {
        dirs[0].clone()
    } else {
        String::from_str("models")
    }
}

/// Where to put the produced WAV: `LOCARYN_EXTENSION_MEDIA_DIR` when set and
/// not blank, else `output` under the working directory (or `.`).
pub fn output_dir(media: &Option<String>, cwd: &Option<String>, windows: bool) -> (dir: String)
    ensures
        dir@ == match set_value(opt_view(media)) {
            Some(m) => m,
            None => under_cwd(opt_view(cwd), "output"@, windows),
        },
{
    if let Some(m) = media {
        if !blank(m.as_str()) {
            return m.clone();
        }
    }
    cwd_child(cwd, "output", windows)
}

/// The directory that would hold `model` under each of `dirs`, in order.
pub fn repo_candidates(model: &str, dirs: &Vec<String>, windows: bool) -> (paths: Vec<String>)
    ensures
        paths@.len() == dirs@.len(),
        forall|i: int| 0 <= i < dirs@.len() ==> (#[trigger] paths@[i])@ == joined(dirs@[i]@, model@, windows),
{
    let mut out: Vec<String> = Vec::new();
    let mut i: usize = 0;
    while i < dirs.len()
        invariant
            i <= dirs.len(),
            out@.len() == i,
            forall|k: int| 0 <= k < i ==> (#[trigger] out@[k])@ == joined(dirs@[k]@, model@, windows),
        decreases dirs.len() - i,
    {
        out.push(join_path(dirs[i].as_str(), model, windows));
        i = i + 1;
    }
    out
}

/// The folder of a weights repository: the first of the candidate folders
/// (see [`repo_candidates`]) that exists, `present[i]` telling whether
/// `candidates[i]` does.
pub fn repo_path(candidates: &Vec<String>, present: &Vec<bool>) -> (found: Option<String>)
    requires
        present@.len() == candidates@.len(),
    ensures
        match found {
            Some(p) => exists|i: int|
                0 <= i < candidates@.len() && present@[i] && p@ == (#[trigger] candidates@[i])@
                    && forall|k: int| 0 <= k < i ==> !present@[k],
            None => forall|k: int| 0 <= k < present@.len() ==> !present@[k],
        },
{
    let mut i: usize = 0;
    while i < candidates.len()
        invariant
            i <= candidates.len(),
            present@.len() == candidates@.len(),
            forall|k: int| 0 <= k < i ==> !present@[k],
        decreases candidates.len() - i,
    {
        if present[i] {
            return Some(candidates[i].clone());
        }
        i = i + 1;
    }
    None
}


/// A character that separates the components of a path: `/`, and `\` too
/// on Windows.
pub open spec fn is_separator(c: char, windows: bool) -> bool {
    c == '/' || (windows && c == '\\')
}

fn separator(c: char, windows: bool) -> (b: bool)
    ensures
        b == is_separator(c, windows),
{
    c == '/' || (windows && c == '\\')
}

/// Index of the last separator in `s`, or -1 when there is none.
pub open spec fn last_separator(s: Seq<char>, windows: bool) -> int
    decreases s.len(),
{
    if s.len() == 0 {
        -1
    } else if is_separator(s.last(), windows) {
        s.len() - 1
    } else {
        last_separator(s.drop_last(), windows)
    }
}

/// `s` without what `Path` reads as nothing at its end: separators after
/// the first character, and `.` components that follow a separator.
pub open spec fn trim_tail(s: Seq<char>, windows: bool) -> Seq<char>
    decreases s.len(),
{
    if s.len() > 1 && (is_separator(s.last(), windows) || (s.last() == '.' && is_separator(
        s[s.len() - 2],
        windows,
    ))) {
        trim_tail(s.drop_last(), windows)
    } else {
        s
    }
}

/// A component that names no file: empty, `.` or `..`.
pub open spec fn is_dot_name(n: Seq<char>) -> bool {
    n.len() == 0 || (n.len() == 1 && n[0] == '.') || (n.len() == 2 && n[0] == '.' && n[1] == '.')
}

/// The last component of a path, as `Path::file_name` reads it: trailing
/// separators and `.` components are passed over; there is none for an
/// empty path, a bare root, or a path that ends in `..`.
pub open spec fn file_name_of(path: Seq<char>, windows: bool) -> Option<Seq<char>> {
    let q = trim_tail(path, windows);
    let name = q.subrange(last_separator(q, windows) + 1, q.len() as int);
    if is_dot_name(name) {
        None
    } else {
        Some(name)
    }
}

/// The folder holding `path`, as `Path::parent` reads it: none for an empty
/// path or a bare root, the empty path for a single relative component,
/// else what precedes the last component, without its trailing separators
/// and `.` components. A Windows drive prefix is read as a component.
pub open spec fn parent_of(path: Seq<char>, windows: bool) -> Option<Seq<char>> {
    let q = trim_tail(path, windows);
    let i = last_separator(q, windows);
    if q.len() == 0 {
        None
    } else if i < 0 {
        Some(Seq::empty())
    } else if i == q.len() - 1 {
        None
    } else {
        Some(trim_tail(q.take(i + 1), windows))
    }
}

proof fn lemma_last_separator_bounds(s: Seq<char>, windows: bool)
    ensures
        -1 <= last_separator(s, windows) < s.len(),
    decreases s.len(),
{
    if s.len() > 0 && !is_separator(s.last(), windows) {
        lemma_last_separator_bounds(s.drop_last(), windows);
    }
}

/// The length of `cs`'s first `end` characters once `trim_tail` has run.
fn tail_kept(cs: &Vec<char>, end: usize, windows: bool) -> (k: usize)
    requires
        end <= cs.len(),
    ensures
        k <= end,
        trim_tail(cs@.take(end as int), windows) == cs@.take(k as int),
{
    let mut k = end;
    while k > 1 && (separator(cs[k - 1], windows) || (cs[k - 1] == '.' && separator(cs[k - 2], windows)))
        invariant
            k <= end <= cs.len(),
            trim_tail(cs@.take(end as int), windows) == trim_tail(cs@.take(k as int), windows),
        decreases k,
    {
        assert(cs@.take(k as int).drop_last() =~= cs@.take(k - 1));
        assert(cs@.take(k as int)[k - 2] == cs@[k - 2]);
        k = k - 1;
    }
    proof {
        let s = cs@.take(k as int);
        if s.len() > 1 {
            assert(s[s.len() - 2] == cs@[k - 2]);
        }
    }
    k
}

/// Where, in `cs`'s first `q` characters, the last component starts: one
/// past the last separator, 0 when there is none.
fn component_start(cs: &Vec<char>, q: usize, windows: bool) -> (j: usize)
    requires
        q <= cs.len(),
    ensures
        j <= q,
        last_separator(cs@.take(q as int), windows) == j - 1,
{
    let ghost qs = cs@.take(q as int);
    let mut j: usize = q;
    assert(qs.take(q as int) =~= qs);
    while j > 0 && !separator(cs[j - 1], windows)
        invariant
            j <= q <= cs.len(),
            qs == cs@.take(q as int),
            last_separator(qs, windows) == last_separator(qs.take(j as int), windows),
        decreases j,
    {
        assert(qs.take(j as int).drop_last() =~= qs.take(j - 1));
        assert(qs.take(j as int).last() == cs@[j - 1]);
        j = j - 1;
    }
    if j == 0 {
        assert(qs.take(0) =~= Seq::<char>::empty());
    } else {
        assert(qs.take(j as int).last() == cs@[j - 1]);
    }
    j
}

/// The last component of a path (see [`file_name_of`]).
pub fn file_name(path: &str, windows: bool) -> (name: Option<String>)
    ensures
        match name {
            Some(n) => file_name_of(path@, windows) == Some(n@),
            None => file_name_of(path@, windows) is None,
        },
{
    let cs = chars_of(path);
    assert(cs@.take(cs.len() as int) =~= cs@);
    let q = tail_kept(&cs, cs.len(), windows);
    let j = component_start(&cs, q, windows);
    let ghost n = cs@.subrange(j as int, q as int);
    assert(cs@.take(q as int).subrange(j as int, q as int) =~= n);
    if q == j || (q - j == 1 && cs[j] == '.') || (q - j == 2 && cs[j] == '.' && cs[j + 1] == '.') {
        None
    } else {
        Some(substring(path, j, q))
    }
}

/// The folder holding `path` (see [`parent_of`]).
pub fn parent(path: &str, windows: bool) -> (p: Option<String>)
    ensures
        match p {
            Some(s) => parent_of(path@, windows) == Some(s@),
            None => parent_of(path@, windows) is None,
        },
{
    let cs = chars_of(path);
    assert(cs@.take(cs.len() as int) =~= cs@);
    let q = tail_kept(&cs, cs.len(), windows);
    if q == 0 {
        return None;
    }
    let j = component_start(&cs, q, windows);
    if j == 0 {
        return Some(String::new());
    }
    if j == q {
        return None;
    }
    assert(cs@.take(q as int).take(j as int) =~= cs@.take(j as int));
    let r = tail_kept(&cs, j, windows);
    assert(cs@.take(r as int) =~= path@.subrange(0, r as int));
    Some(substring(path, 0, r))
}

/// Where a Python environment may live: `LOCARYN_PYTHON_VENV` when set and
/// not blank, then `python-env` and `.venv` beside each model folder, then
/// `.venv` in the working directory when it is known.
pub open spec fn venv_candidates_of(
    venv: Option<Seq<char>>,
    dirs: Seq<Seq<char>>,
    cwd: Option<Seq<char>>,
    windows: bool,
) -> Seq<Seq<char>> {
    let first: Seq<Seq<char>> = match set_value(venv) {
        Some(v) => seq![v],
        None => seq![],
    };
    let last: Seq<Seq<char>> = match cwd {
        Some(c) => seq![joined(c, ".venv"@, windows)],
        None => seq![],
    };
    first + beside_dirs(dirs, windows) + last
}

/// `python-env` and `.venv` beside each folder of `dirs` that has a parent.
pub open spec fn beside_dirs(dirs: Seq<Seq<char>>, windows: bool) -> Seq<Seq<char>>
    decreases dirs.len(),
{
    if dirs.len() == 0 {
        Seq::empty()
    } else {
        beside_dirs(dirs.drop_last(), windows) + match parent_of(dirs.last(), windows) {
            Some(p) => seq![joined(p, "python-env"@, windows), joined(p, ".venv"@, windows)],
            None => Seq::empty(),
        }
    }
}

/// Where a Python environment may live (see [`venv_candidates_of`]), given
/// `LOCARYN_PYTHON_VENV`, the model folders and the working directory.
pub fn venv_candidates(venv: &Option<String>, dirs: &Vec<String>, cwd: &Option<String>, windows: bool) -> (out: Vec<String>)
    ensures
        views(out@) == venv_candidates_of(opt_view(venv), views(dirs@), opt_view(cwd), windows),
{
    let mut out: Vec<String> = Vec::new();
    if let Some(v) = venv {
        if !blank(v.as_str()) {
            out.push(v.clone());
        }
    }
    let ghost first = views(out@);
    assert(first =~= match set_value(opt_view(venv)) {
        Some(v) => seq![v],
        None => Seq::<Seq<char>>::empty(),
    });
    let ghost all = views(dirs@);
    let mut i: usize = 0;
    while i < dirs.len()
        invariant
            i <= dirs.len(),
            all == views(dirs@),
            views(out@) == first + beside_dirs(all.take(i as int), windows),
        decreases dirs.len() - i,
    {
        assert(all.take(i + 1).drop_last() =~= all.take(i as int));
        let ghost before = views(out@);
        match parent(dirs[i].as_str(), windows) {
            Some(p) => {
                out.push(join_path(p.as_str(), "python-env", windows));
                out.push(join_path(p.as_str(), ".venv", windows));
                assert(views(out@) =~= before + seq![joined(p@, "python-env"@, windows), joined(p@, ".venv"@, windows)]);
            },
            None => {
                assert(views(out@) =~= before + Seq::<Seq<char>>::empty());
            },
        }
        i = i + 1;
    }
    assert(all.take(dirs.len() as int) =~= all);
    let ghost middle = views(out@);
    if let Some(c) = cwd {
        out.push(join_path(c.as_str(), ".venv", windows));
        assert(views(out@) =~= middle + seq![joined(c@, ".venv"@, windows)]);
    } else {
        assert(views(out@) =~= middle + Seq::<Seq<char>>::empty());
    }
    out
}

/// The interpreter of a Python environment: `Scripts/python.exe` on
/// Windows, `bin/python` elsewhere.
pub fn venv_python(venv: &str, windows: bool) -> (exe: String)
    ensures
        exe@ == if windows {
            joined(joined(venv@, "Scripts"@, windows), "python.exe"@, windows)
        } else {
            joined(joined(venv@, "bin"@, windows), "python"@, windows)
        },
{
    if windows {
        let d = join_path(venv, "Scripts", windows);
        join_path(d.as_str(), "python.exe", windows)
    } else {
        let d = join_path(venv, "bin", windows);
        join_path(d.as_str(), "python", windows)
    }
}

/// The Python interpreter a synthesis runs with: the first environment's
/// interpreter that exists (`venv_exe`), else `python` from the PATH when it
/// answers, else a per-user install (`local_exe`, Windows only), else none.
pub fn choose_python(venv_exe: Option<String>, path_python_runs: bool, local_exe: Option<String>) -> (p: Option<String>)
    ensures
        opt_view(&p) == match venv_exe {
            Some(e) => Some(e@),
            None => if path_python_runs {
                Some("python"@)
            } else {
                opt_view(&local_exe)
            },
        },
{
    match venv_exe {
        Some(e) => Some(e),
        None => if path_python_runs {
            Some(String::from_str("python"))
        } else {
            local_exe
        },
    }
}

} // verus!
