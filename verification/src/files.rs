//! File names: extensions, which files can be launched, how the files found
//! in an install folder are ranked, and file-name-safe segments.

use vstd::prelude::*;
use crate::text::{is_blank, str_is_blank, chars_of, contains_str, equals_str, has_sub, lower, lower_chars, eq_ignore_case, chars_contain, string_of, strip_chars, strip_ends, is_control, char_is_control, slice_chars, owned, same_chars};

verus! {

/// The index of the last `.` in a file name.
pub open spec fn last_dot(name: Seq<char>) -> Option<int>
    decreases name.len(),
{
    if name.len() == 0 {
        None
    } else if name.last() == '.' {
        Some(name.len() - 1)
    } else {
        last_dot(name.drop_last())
    }
}

/// `Path::extension` of a file name: what follows the last `.`, unless there
/// is no `.` or the only one begins the name.
pub open spec fn extension(name: Seq<char>) -> Option<Seq<char>> {
    if name == ".."@ {
        None
    } else {
        match last_dot(name) {
            Some(i) => if i == 0 {
                None
            } else {
                Some(name.subrange(i + 1, name.len() as int))
            },
            None => None,
        }
    }
}

/// `Path::file_stem` of a file name: what precedes the last `.`, or the whole
/// name where `extension` has none.
pub open spec fn stem(name: Seq<char>) -> Seq<char> {
    if name == ".."@ {
        name
    } else {
        match last_dot(name) {
            Some(i) => if i == 0 {
                name
            } else {
                name.subrange(0, i)
            },
            None => name,
        }
    }
}

/// Whether the file name's extension is `ext`, ignoring ASCII case.
pub open spec fn has_extension(name: Seq<char>, ext: Seq<char>) -> bool {
    match extension(name) {
        Some(e) => eq_ignore_case(e, ext),
        None => false,
    }
}

pub proof fn lemma_last_dot_bounds(name: Seq<char>)
    ensures
        match last_dot(name) {
            Some(i) => 0 <= i < name.len() && name[i] == '.',
            None => true,
        },
    decreases name.len(),
{
    if name.len() > 0 && name.last() != '.' {
        lemma_last_dot_bounds(name.drop_last());
    }
}

pub fn last_dot_index(name: &Vec<char>) -> (r: Option<usize>)
    ensures
        match r {
            Some(i) => last_dot(name@) == Some(i as int),
            None => last_dot(name@) is None,
        },
        match r {
            Some(i) => i < name.len() && name@[i as int] == '.',
            None => true,
        },
{
    proof {
        lemma_last_dot_bounds(name@);
    }
    let mut end: usize = name.len();
    assert(name@.subrange(0, end as int) =~= name@);
    while end > 0
        invariant
            end <= name.len(),
            last_dot(name@) == last_dot(name@.subrange(0, end as int)),
        decreases end,
    {
        assert(name@.subrange(0, end as int).drop_last() =~= name@.subrange(0, end - 1));
        if name[end - 1] == '.' {
            return Some(end - 1);
        }
        end = end - 1;
    }
    None
}

/// `Path::extension` of a file name.
pub fn file_extension(name: &str) -> (r: Option<String>)
    ensures
        match r {
            Some(e) => extension(name@) == Some(e@),
            None => extension(name@) is None,
        },
{
    let v = chars_of(name);
    if equals_str(&v, "..") {
        return None;
    }
    assert(v@ == name@);
    assert(name@.subrange(0, name@.len() as int) =~= name@);
    match last_dot_index(&v) {
        Some(i) => if i == 0 {
            None
        } else {
            let e = slice_chars(&v, i + 1, v.len());
            Some(string_of(&e))
        },
        None => None,
    }
}

/// `Path::file_stem` of a file name.
pub fn file_stem(name: &str) -> (r: String)
    ensures
        r@ == stem(name@),
{
    let v = chars_of(name);
    if equals_str(&v, "..") {
        return string_of(&v);
    }
    assert(name@.subrange(0, name@.len() as int) =~= name@);
    match last_dot_index(&v) {
        Some(i) => if i == 0 {
            string_of(&v)
        } else {
            let s = slice_chars(&v, 0, i);
            string_of(&s)
        },
        None => string_of(&v),
    }
}

pub fn has_extension_ignoring_case(name: &str, ext: &str) -> (r: bool)
    ensures
        r == has_extension(name@, ext@),
{
    match file_extension(name) {
        Some(e) => {
            let ev = chars_of(e.as_str());
            let xv = chars_of(ext);
            let el = lower_chars(&ev);
            let xl = lower_chars(&xv);
            same_chars(&el, &xl)
        },
        None => false,
    }
}

/// Whether a lower-cased name marks a setup, installer, uninstaller or updater.
pub open spec fn names_maintenance_tool(n: Seq<char>) -> bool {
    has_sub(n, "setup"@) || has_sub(n, "installer"@) || has_sub(n, "uninstall"@) || has_sub(
        n,
        "update"@,
    )
}

/// An `.exe` that is not a setup, installer, uninstaller or updater.
pub open spec fn launchable_executable(name: Seq<char>) -> bool {
    has_extension(name, "exe"@) && !names_maintenance_tool(lower(name))
}

/// An `.html` or `.htm` page.
pub open spec fn web_launch_file(name: Seq<char>) -> bool {
    has_extension(name, "html"@) || has_extension(name, "htm"@)
}

pub open spec fn launch_file(name: Seq<char>) -> bool {
    launchable_executable(name) || web_launch_file(name)
}

fn lower_of(s: &str) -> (r: Vec<char>)
    ensures
        r@ == lower(s@),
{
    let v = chars_of(s);
    lower_chars(&v)
}

fn maintenance_tool_name(n: &Vec<char>) -> (r: bool)
    ensures
        r == names_maintenance_tool(n@),
{
    contains_str(n, "setup") || contains_str(n, "installer") || contains_str(n, "uninstall")
        || contains_str(n, "update")
}

/// Whether a file name is one the launcher starts as a program.
pub fn is_launchable_executable_path(file_name: &str) -> (r: bool)
    ensures
        r == launchable_executable(file_name@),
{
    if !has_extension_ignoring_case(file_name, "exe") {
        return false;
    }
    let n = lower_of(file_name);
    !maintenance_tool_name(&n)
}

pub fn is_web_launch_path(file_name: &str) -> (r: bool)
    ensures
        r == web_launch_file(file_name@),
{
    has_extension_ignoring_case(file_name, "html") || has_extension_ignoring_case(file_name, "htm")
}

pub fn is_launch_path(file_name: &str) -> (r: bool)
    ensures
        r == launch_file(file_name@),
{
    is_launchable_executable_path(file_name) || is_web_launch_path(file_name)
}

/// Whether a lower-cased file name mentions the app by id or by repository.
pub open spec fn names_app(n: Seq<char>, app_id: Seq<char>, repo: Seq<char>) -> bool {
    has_sub(n, lower(app_id)) || has_sub(n, lower(repo))
}

pub open spec fn executable_rank(name: Seq<char>, app_id: Seq<char>, repo: Seq<char>) -> int {
    let n = lower(name);
    10 + (if names_app(n, app_id, repo) {
        40int
    } else {
        0
    }) + (if has_sub(n, "portable"@) {
        20int
    } else {
        0
    }) - (if names_maintenance_tool(n) {
        35int
    } else {
        0
    })
}

pub open spec fn update_executable_rank(name: Seq<char>) -> int {
    let n = lower(name);
    let compact = n.filter(|c: char| crate::text::is_alnum(c));
    10 + (if n == "neko-legends-control-center-portable.exe"@ {
        140int
    } else {
        0
    }) + (if has_sub(compact, "nekolegendscontrolcenter"@) {
        80int
    } else {
        0
    }) + (if has_sub(n, "control"@) {
        40int
    } else {
        0
    }) + (if has_sub(n, "portable"@) || has_sub(n, "standalone"@) {
        35int
    } else {
        0
    })
}

pub open spec fn web_launch_rank(name: Seq<char>, app_id: Seq<char>, repo: Seq<char>) -> int {
    let n = lower(name);
    10 + (if n == "wallpaper.html"@ {
        90int
    } else {
        0
    }) + (if n == "index.html"@ {
        70int
    } else {
        0
    }) + (if names_app(n, app_id, repo) {
        30int
    } else {
        0
    }) - (if has_sub(n, "readme"@) || has_sub(n, "license"@) {
        100int
    } else {
        0
    })
}

pub open spec fn package_archive_rank(name: Seq<char>, app_id: Seq<char>, repo: Seq<char>) -> int {
    let n = lower(name);
    10 + (if names_app(n, app_id, repo) {
        50int
    } else {
        0
    }) - (if has_sub(n, "source"@) || has_sub(n, "src"@) {
        40int
    } else {
        0
    })
}

fn names_app_exec(n: &Vec<char>, app_id: &str, repo: &str) -> (r: bool)
    ensures
        r == names_app(n@, app_id@, repo@),
{
    let id = lower_of(app_id);
    let rp = lower_of(repo);
    chars_contain(n, &id) || chars_contain(n, &rp)
}

pub fn executable_score(file_name: &str, app_id: &str, repo: &str) -> (r: i32)
    ensures
        r == executable_rank(file_name@, app_id@, repo@),
{
    let n = lower_of(file_name);
    let mut score: i32 = 10;
    if names_app_exec(&n, app_id, repo) {
        score = score + 40;
    }
    if contains_str(&n, "portable") {
        score = score + 20;
    }
    if maintenance_tool_name(&n) {
        score = score - 35;
    }
    score
}

/// The ASCII letters and digits of `v`, in order.
fn alnum_only(v: &Vec<char>) -> (r: Vec<char>)
    ensures
        r@ == v@.filter(|c: char| crate::text::is_alnum(c)),
{
    let ghost keep = |c: char| crate::text::is_alnum(c);
    let mut r: Vec<char> = Vec::new();
    let mut i: usize = 0;
    while i < v.len()
        invariant
            i <= v.len(),
            keep == (|c: char| crate::text::is_alnum(c)),
            r@ == v@.subrange(0, i as int).filter(keep),
        decreases v.len() - i,
    {
        proof {
            v@.subrange(0, i as int).lemma_filter_push(v@[i as int], keep);
            assert(v@.subrange(0, i + 1) =~= v@.subrange(0, i as int).push(v@[i as int]));
        }
        if crate::text::char_is_alnum(v[i]) {
            r.push(v[i]);
        }
        i = i + 1;
    }
    assert(v@.subrange(0, v.len() as int) =~= v@);
    r
}

pub fn control_center_executable_score(file_name: &str) -> (r: i32)
    ensures
        r == update_executable_rank(file_name@),
{
    let n = lower_of(file_name);
    let compact = alnum_only(&n);
    let mut score: i32 = 10;
    if equals_str(&n, "neko-legends-control-center-portable.exe") {
        score = score + 140;
    }
    if contains_str(&compact, "nekolegendscontrolcenter") {
        score = score + 80;
    }
    if contains_str(&n, "control") {
        score = score + 40;
    }
    if contains_str(&n, "portable") || contains_str(&n, "standalone") {
        score = score + 35;
    }
    score
}

pub fn web_launch_score(file_name: &str, app_id: &str, repo: &str) -> (r: i32)
    ensures
        r == web_launch_rank(file_name@, app_id@, repo@),
{
    let n = lower_of(file_name);
    let mut score: i32 = 10;
    if equals_str(&n, "wallpaper.html") {
        score = score + 90;
    }
    if equals_str(&n, "index.html") {
        score = score + 70;
    }
    if names_app_exec(&n, app_id, repo) {
        score = score + 30;
    }
    if contains_str(&n, "readme") || contains_str(&n, "license") {
        score = score - 100;
    }
    score
}

pub fn package_archive_score(file_name: &str, app_id: &str, repo: &str) -> (r: i32)
    ensures
        r == package_archive_rank(file_name@, app_id@, repo@),
{
    let n = lower_of(file_name);
    let mut score: i32 = 10;
    if names_app_exec(&n, app_id, repo) {
        score = score + 50;
    }
    if contains_str(&n, "source") || contains_str(&n, "src") {
        score = score - 40;
    }
    score
}

/// `i` holds the highest score of all candidates, and no earlier candidate
/// reaches it: the file a search that keeps the first strictly better file
/// ends with.
pub open spec fn is_first_best(scores: Seq<Option<int>>, i: int) -> bool {
    &&& 0 <= i < scores.len()
    &&& scores[i] is Some
    &&& forall|j: int| 0 <= j < scores.len() && scores[j] is Some ==> scores[j]->0 <= scores[i]->0
    &&& forall|j: int| 0 <= j < i && scores[j] is Some ==> scores[j]->0 < scores[i]->0
}

pub open spec fn no_candidate(scores: Seq<Option<int>>) -> bool {
    forall|j: int| 0 <= j < scores.len() ==> scores[j] is None
}

pub open spec fn score_view(scores: Seq<Option<i32>>) -> Seq<Option<int>> {
    scores.map_values(
        |s: Option<i32>|
            match s {
                Some(v) => Some(v as int),
                None => None,
            },
    )
}

/// The first best-scored candidate, where `None` marks a file that is no
/// candidate.
pub fn first_best(scores: &Vec<Option<i32>>) -> (r: Option<usize>)
    ensures
        match r {
            Some(i) => is_first_best(score_view(scores@), i as int),
            None => no_candidate(score_view(scores@)),
        },
{
    let ghost sv = score_view(scores@);
    let mut best: Option<usize> = None;
    let mut i: usize = 0;
    while i < scores.len()
        invariant
            i <= scores.len(),
            sv == score_view(scores@),
            sv.len() == scores.len(),
            match best {
                Some(b) => is_first_best(sv.subrange(0, i as int), b as int) && b < i,
                None => no_candidate(sv.subrange(0, i as int)),
            },
        decreases scores.len() - i,
    {
        let ghost before = sv.subrange(0, i as int);
        let ghost after = sv.subrange(0, i + 1);
        assert(forall|j: int| 0 <= j < i ==> after[j] == before[j]);
        assert(after[i as int] == sv[i as int]);
        match scores[i] {
            Some(s) => {
                let replace = match best {
                    Some(b) => match scores[b] {
                        Some(bs) => s > bs,
                        None => true,
                    },
                    None => true,
                };
                if replace {
                    best = Some(i);
                }
            },
            None => {},
        }
        i = i + 1;
    }
    assert(sv.subrange(0, sv.len() as int) =~= sv);
    best
}

pub open spec fn executable_candidates(
    names: Seq<Seq<char>>,
    app_id: Seq<char>,
    repo: Seq<char>,
) -> Seq<Option<int>> {
    names.map_values(
        |n: Seq<char>|
            if has_extension(n, "exe"@) {
                Some(executable_rank(n, app_id, repo))
            } else {
                None
            },
    )
}

pub open spec fn update_executable_candidates(names: Seq<Seq<char>>) -> Seq<Option<int>> {
    names.map_values(
        |n: Seq<char>|
            if launchable_executable(n) {
                Some(update_executable_rank(n))
            } else {
                None
            },
    )
}

pub open spec fn web_launch_candidates(
    names: Seq<Seq<char>>,
    app_id: Seq<char>,
    repo: Seq<char>,
) -> Seq<Option<int>> {
    names.map_values(
        |n: Seq<char>|
            if web_launch_file(n) {
                Some(web_launch_rank(n, app_id, repo))
            } else {
                None
            },
    )
}

pub open spec fn package_archive_candidates(
    names: Seq<Seq<char>>,
    app_id: Seq<char>,
    repo: Seq<char>,
) -> Seq<Option<int>> {
    names.map_values(
        |n: Seq<char>|
            if has_extension(n, "zip"@) {
                Some(package_archive_rank(n, app_id, repo))
            } else {
                None
            },
    )
}

/// The file kinds a search of an install folder looks for.
#[derive(Clone, Copy, Debug, PartialEq, Eq, Structural)]
pub enum FileSearch {
    Executable,
    UpdateExecutable,
    WebLaunch,
    PackageArchive,
}

pub open spec fn search_candidates(
    kind: FileSearch,
    names: Seq<Seq<char>>,
    app_id: Seq<char>,
    repo: Seq<char>,
) -> Seq<Option<int>> {
    match kind {
        FileSearch::Executable => executable_candidates(names, app_id, repo),
        FileSearch::UpdateExecutable => update_executable_candidates(names),
        FileSearch::WebLaunch => web_launch_candidates(names, app_id, repo),
        FileSearch::PackageArchive => package_archive_candidates(names, app_id, repo),
    }
}

/// The score of one file for a search, or `None` where the file is no
/// candidate for it.
pub fn search_score(kind: FileSearch, name: &str, app_id: &str, repo: &str) -> (r: Option<i32>)
    ensures
        match r {
            Some(v) => search_candidates(kind, seq![name@], app_id@, repo@)[0] == Some(v as int),
            None => search_candidates(kind, seq![name@], app_id@, repo@)[0] is None,
        },
{
    match kind {
        FileSearch::Executable => if has_extension_ignoring_case(name, "exe") {
            Some(executable_score(name, app_id, repo))
        } else {
            None
        },
        FileSearch::UpdateExecutable => if is_launchable_executable_path(name) {
            Some(control_center_executable_score(name))
        } else {
            None
        },
        FileSearch::WebLaunch => if is_web_launch_path(name) {
            Some(web_launch_score(name, app_id, repo))
        } else {
            None
        },
        FileSearch::PackageArchive => if has_extension_ignoring_case(name, "zip") {
            Some(package_archive_score(name, app_id, repo))
        } else {
            None
        },
    }
}

/// The file that a walk of an install folder settles on, given the names of
/// the files in the order the walk met them: the first best-scored candidate,
/// and for the updater's own executable only where it scores above 20.
pub fn best_file(kind: FileSearch, names: &Vec<String>, app_id: &str, repo: &str) -> (r: Option<
    usize,
>)
    ensures
        ({
            let c = search_candidates(kind, names.deep_view(), app_id@, repo@);
            match r {
                Some(i) => is_first_best(c, i as int) && (kind == FileSearch::UpdateExecutable
                    ==> c[i as int]->0 > 20),
                None => no_candidate(c) || (kind == FileSearch::UpdateExecutable && exists|i: int|
                    is_first_best(c, i) && c[i]->0 <= 20),
            }
        }),
{
    let ghost nv = names.deep_view();
    let ghost c = search_candidates(kind, nv, app_id@, repo@);
    let mut scores: Vec<Option<i32>> = Vec::new();
    let mut i: usize = 0;
    while i < names.len()
        invariant
            i <= names.len(),
            nv == names.deep_view(),
            c == search_candidates(kind, nv, app_id@, repo@),
            c.len() == names.len(),
            scores.len() == i,
            score_view(scores@) == c.subrange(0, i as int),
        decreases names.len() - i,
    {
        let s = search_score(kind, names[i].as_str(), app_id, repo);
        let ghost before = scores@;
        scores.push(s);
        assert(search_candidates(kind, seq![nv[i as int]], app_id@, repo@)[0] == c[i as int]);
        assert(score_view(scores@) =~= c.subrange(0, i + 1)) by {
            assert(scores@ == before.push(s));
            assert forall|k: int| 0 <= k < i implies score_view(scores@)[k] == c[k] by {
                assert(scores@[k] == before[k]);
                assert(score_view(before)[k] == c.subrange(0, i as int)[k]);
            }
            assert(score_view(scores@)[i as int] == c[i as int]);
        }
        i = i + 1;
    }
    assert(c.subrange(0, c.len() as int) =~= c);
    let best = first_best(&scores);
    match best {
        Some(b) => if kind == FileSearch::UpdateExecutable {
            match scores[b] {
                Some(v) => if v > 20 {
                    Some(b)
                } else {
                    None
                },
                None => None,
            }
        } else {
            Some(b)
        },
        None => None,
    }
}

pub open spec fn forbidden_in_file_name(c: char) -> bool {
    c == '<' || c == '>' || c == ':' || c == '"' || c == '/' || c == '\\' || c == '|' || c == '?'
        || c == '*' || is_control(c)
}

pub open spec fn segment_char(c: char) -> char {
    if forbidden_in_file_name(c) {
        '_'
    } else {
        c
    }
}

/// A name made safe for one folder or file name: reserved and control
/// characters become `_`, spaces and dots are stripped at both ends, and an
/// empty result becomes `download`.
pub open spec fn safe_segment(value: Seq<char>) -> Seq<char> {
    let t = strip_ends(value.map_values(|c: char| segment_char(c)), |c: char| c == ' ' || c == '.');
    if t.len() == 0 {
        "download"@
    } else {
        t
    }
}

pub fn safe_file_segment(value: &str) -> (r: String)
    ensures
        r@ == safe_segment(value@),
{
    let v = chars_of(value);
    let mut mapped: Vec<char> = Vec::new();
    let mut i: usize = 0;
    while i < v.len()
        invariant
            i <= v.len(),
            v@ == value@,
            mapped@ == v@.subrange(0, i as int).map_values(|c: char| segment_char(c)),
        decreases v.len() - i,
    {
        let c = v[i];
        let m = if c == '<' || c == '>' || c == ':' || c == '"' || c == '/' || c == '\\' || c == '|'
            || c == '?' || c == '*' || char_is_control(c) {
            '_'
        } else {
            c
        };
        mapped.push(m);
        assert(mapped@ =~= v@.subrange(0, i + 1).map_values(|c: char| segment_char(c)));
        i = i + 1;
    }
    assert(v@.subrange(0, v.len() as int) =~= v@);
    let t = strip_chars(&mapped, ' ', '.');
    if t.len() == 0 {
        owned("download")
    } else {
        string_of(&t)
    }
}

/// Whether a file is a Lively wallpaper description, which names the
/// wallpaper's launch file.
pub fn is_lively_info_file(file_name: &str) -> (r: bool)
    ensures
        r == eq_ignore_case(file_name@, "LivelyInfo.json"@),
{
    let v = chars_of(file_name);
    let l = lower_chars(&v);
    let w = chars_of("LivelyInfo.json");
    let wl = lower_chars(&w);
    same_chars(&l, &wl)
}

/// What `serde_json` reads as the string field `key` of the JSON object
/// `raw`: none where `raw` is no JSON, is not an object, lacks the field, or
/// the field is not a string.
pub uninterp spec fn json_string_field(raw: Seq<char>, key: Seq<char>) -> Option<Seq<char>>;

/// `serde_json::from_str::<serde_json::Value>` on `raw`, then the string
/// field `key` of the value read (`Value::get`, `Value::as_str`). Its result
/// is stated only through the name `json_string_field`.
#[verifier::external_body]
pub(crate) fn json_string_field_of(raw: &str, key: &str) -> (r: Option<String>)
    ensures
        match r {
            Some(s) => json_string_field(raw@, key@) == Some(s@),
            None => json_string_field(raw@, key@) is None,
        },
{
    serde_json::from_str::<serde_json::Value>(raw).ok().and_then(
        |v| v.get(key).and_then(|f| f.as_str().map(|s| s.to_string())),
    )
}

/// The launch file that a Lively wallpaper description names: its
/// `FileName` field, where that is a string that is not blank.
pub fn lively_info_launch_name(raw: &str) -> (r: Option<String>)
    ensures
        match json_string_field(raw@, "FileName"@) {
            Some(n) => if is_blank(n) {
                r is None
            } else {
                r matches Some(s) && s@ == n
            },
            None => r is None,
        },
{
    match json_string_field_of(raw, "FileName") {
        Some(name) => if str_is_blank(name.as_str()) {
            None
        } else {
            Some(name)
        },
        None => None,
    }
}

} // verus!
