//! Recognising an app among the programs that Windows lists as installed:
//! the names an app may be listed under, the executables it may be started
//! by, and the program path inside a listed command line.

use vstd::prelude::*;
use crate::model::{LauncherApp, LauncherAppView};
use crate::order::{chars_strictly_sorted, dedup_sorted, sort_strings};
use crate::text::{
    char_is_alnum, char_lower, chars_of, chars_occur_at, concat, contains_str, has_sub, is_alnum,
    lower, lower_char, lower_chars, occurs_at, owned, same_chars, slice_chars, string_of,
    strip_chars, strip_ends, trim, trim_chars,
};

verus! {

/// A name reduced to its ASCII letters and digits, lower-cased.
pub open spec fn install_name(value: Seq<char>) -> Seq<char> {
    lower(value.filter(|c: char| is_alnum(c)))
}

fn install_name_chars(v: &Vec<char>) -> (r: Vec<char>)
    ensures
        r@ == install_name(v@),
{
    let ghost keep = |c: char| is_alnum(c);
    let mut r: Vec<char> = Vec::new();
    let mut i: usize = 0;
    while i < v.len()
        invariant
            i <= v.len(),
            keep == (|c: char| is_alnum(c)),
            r@ == lower(v@.subrange(0, i as int).filter(keep)),
        decreases v.len() - i,
    {
        proof {
            v@.subrange(0, i as int).lemma_filter_push(v@[i as int], keep);
            assert(v@.subrange(0, i + 1) =~= v@.subrange(0, i as int).push(v@[i as int]));
        }
        if char_is_alnum(v[i]) {
            let ghost before = r@;
            r.push(char_lower(v[i]));
            assert(lower(v@.subrange(0, i as int).filter(keep).push(v@[i as int])) =~= before.push(
                lower_char(v@[i as int]),
            ));
        }
        i = i + 1;
    }
    assert(v@.subrange(0, v.len() as int) =~= v@);
    r
}

pub fn normalized_install_name(value: &str) -> (r: String)
    ensures
        r@ == install_name(value@),
{
    let v = chars_of(value);
    let n = install_name_chars(&v);
    string_of(&n)
}

/// The names an app may be listed under: its name, repository and id, and
/// for Venice Media Local its full product name too.
pub open spec fn install_aliases(a: LauncherAppView) -> Seq<Seq<char>> {
    let base = seq![a.name, a.repo, a.id];
    if a.id == "venice-media-local"@ {
        base.push("Venice Media Local"@)
    } else {
        base
    }
}

pub fn app_install_name_aliases(launcher_app: &LauncherApp) -> (r: Vec<String>)
    ensures
        r.deep_view() == install_aliases(launcher_app@),
{
    let mut r = vec![launcher_app.name.clone(), launcher_app.repo.clone(), launcher_app.id.clone()];
    let id = chars_of(launcher_app.id.as_str());
    let venice = chars_of("venice-media-local");
    if same_chars(&id, &venice) {
        r.push(owned("Venice Media Local"));
    }
    assert(r.deep_view() =~= install_aliases(launcher_app@));
    r
}

/// Whether a listed display name is one of the app's names, compared by
/// letters and digits only, ignoring case.
pub open spec fn display_name_matches(display_name: Seq<char>, a: LauncherAppView) -> bool {
    exists|i: int|
        0 <= i < install_aliases(a).len() && install_name(#[trigger] install_aliases(a)[i])
            == install_name(display_name)
}

pub fn registry_display_name_matches_app(display_name: &str, launcher_app: &LauncherApp) -> (r:
    bool)
    ensures
        r == display_name_matches(display_name@, launcher_app@),
{
    let target = normalized_install_name(display_name);
    let tv = chars_of(target.as_str());
    let aliases = app_install_name_aliases(launcher_app);
    let ghost al = aliases.deep_view();
    let mut i: usize = 0;
    while i < aliases.len()
        invariant
            i <= aliases.len(),
            al == aliases.deep_view(),
            al == install_aliases(launcher_app@),
            tv@ == install_name(display_name@),
            forall|j: int| 0 <= j < i ==> install_name(#[trigger] al[j]) != install_name(display_name@),
        decreases aliases.len() - i,
    {
        let n = normalized_install_name(aliases[i].as_str());
        let nv = chars_of(n.as_str());
        if same_chars(&nv, &tv) {
            assert(install_name(al[i as int]) == install_name(display_name@));
            return true;
        }
        i = i + 1;
    }
    false
}

/// The four file names an app's executable may have.
pub open spec fn executable_name_candidates(a: LauncherAppView) -> Seq<Seq<char>> {
    seq![
        lower(a.id) + ".exe"@,
        lower(a.repo) + ".exe"@,
        install_name(a.repo) + ".exe"@,
        install_name(a.name) + ".exe"@,
    ]
}

/// The file names an app's executable may have, in order, each once.
pub fn expected_executable_names(launcher_app: &LauncherApp) -> (r: Vec<String>)
    ensures
        chars_strictly_sorted(r.deep_view()),
        r.deep_view().to_set() == executable_name_candidates(launcher_app@).to_set(),
{
    let idv = chars_of(launcher_app.id.as_str());
    let repov = chars_of(launcher_app.repo.as_str());
    let id_l = lower_chars(&idv);
    let repo_l = lower_chars(&repov);
    let id_s = string_of(&id_l);
    let repo_s = string_of(&repo_l);
    let repo_n = normalized_install_name(launcher_app.repo.as_str());
    let name_n = normalized_install_name(launcher_app.name.as_str());
    let names = vec![
        concat(id_s.as_str(), ".exe"),
        concat(repo_s.as_str(), ".exe"),
        concat(repo_n.as_str(), ".exe"),
        concat(name_n.as_str(), ".exe"),
    ];
    let ghost cands = names.deep_view();
    assert(cands =~= executable_name_candidates(launcher_app@));
    let sorted = sort_strings(names);
    proof {
        assert forall|x: Seq<char>| sorted.deep_view().to_set().contains(x) == cands.to_set().contains(x) by {
            vstd::seq_lib::to_multiset_contains(sorted.deep_view(), x);
            vstd::seq_lib::to_multiset_contains(cands, x);
        }
        assert(sorted.deep_view().to_set() =~= cands.to_set());
    }
    dedup_sorted(sorted)
}

/// The part of `s` before the first occurrence of `t`, or all of `s` where
/// `t` does not occur.
pub open spec fn before_first(s: Seq<char>, t: Seq<char>) -> Seq<char>
    decreases s.len(),
{
    if occurs_at(s, t, 0) || s.len() == 0 {
        seq![]
    } else {
        seq![s[0]] + before_first(s.drop_first(), t)
    }
}

proof fn lemma_occurs_in_tail(s: Seq<char>, t: Seq<char>, i: int)
    requires
        0 <= i <= s.len(),
    ensures
        occurs_at(s.subrange(i, s.len() as int), t, 0) == occurs_at(s, t, i),
{
    let sub = s.subrange(i, s.len() as int);
    if i + t.len() <= s.len() {
        assert(sub.subrange(0, t.len() as int) =~= s.subrange(i, i + t.len()));
    }
}

fn prefix_before(v: &Vec<char>, t: &str) -> (r: Vec<char>)
    ensures
        r@ == before_first(v@, t@),
{
    let tv = chars_of(t);
    let len = v.len();
    let mut i: usize = 0;
    assert(v@.subrange(0, len as int) =~= v@);
    assert(v@ =~= v@.subrange(0, 0) + v@.subrange(0, len as int));
    while i < len
        invariant
            i <= len == v.len(),
            tv@ == t@,
            before_first(v@, t@) == v@.subrange(0, i as int) + before_first(
                v@.subrange(i as int, len as int),
                t@,
            ),
        decreases len - i,
    {
        proof {
            lemma_occurs_in_tail(v@, t@, i as int);
        }
        if chars_occur_at(v, &tv, i) {
            assert(before_first(v@.subrange(i as int, len as int), t@) =~= Seq::<char>::empty());
            assert(v@.subrange(0, i as int) + Seq::<char>::empty() =~= v@.subrange(0, i as int));
            return slice_chars(v, 0, i);
        }
        proof {
            let sub = v@.subrange(i as int, len as int);
            assert(sub.drop_first() =~= v@.subrange(i + 1, len as int));
            assert(sub[0] == v@[i as int]);
            assert(v@.subrange(0, i as int) + (seq![v@[i as int]] + before_first(sub.drop_first(), t@))
                =~= v@.subrange(0, i + 1) + before_first(v@.subrange(i + 1, len as int), t@));
        }
        i = i + 1;
    }
    assert(before_first(v@.subrange(len as int, len as int), t@) =~= Seq::<char>::empty());
    assert(v@.subrange(0, len as int) + Seq::<char>::empty() =~= v@);
    slice_chars(v, 0, len)
}

/// The program a listed command line starts: a quoted path up to its closing
/// quote; else everything up to and with the first `.exe`; else everything
/// before the first comma; trimmed and stripped of quotes at both ends.
pub open spec fn registry_command(value: Seq<char>) -> Option<Seq<char>> {
    let t = trim(value);
    if t.len() == 0 {
        None
    } else {
        let command = if t[0] == '"' {
            trim(before_first(t.drop_first(), seq!['"']))
        } else if has_sub(t, ".exe"@) {
            trim(before_first(t, ".exe"@) + ".exe"@)
        } else {
            trim(before_first(t, ","@))
        };
        let c = strip_ends(command, |ch: char| ch == '"' || ch == '"');
        if c.len() == 0 {
            None
        } else {
            Some(c)
        }
    }
}

pub fn command_path_from_registry_value(value: &str) -> (r: Option<String>)
    ensures
        match r {
            Some(p) => registry_command(value@) == Some(p@),
            None => registry_command(value@) is None,
        },
{
    let raw = chars_of(value);
    let t = trim_chars(&raw);
    if t.len() == 0 {
        return None;
    }
    let command = if t[0] == '"' {
        let rest = slice_chars(&t, 1, t.len());
        assert(rest@ =~= t@.drop_first());
        let inner = prefix_before(&rest, "\"");
        proof {
            reveal_strlit("\"");
            assert("\""@ =~= seq!['"']);
        }
        trim_chars(&inner)
    } else if contains_str(&t, ".exe") {
        let head = prefix_before(&t, ".exe");
        let mut with_ext = head;
        let mut ext = chars_of(".exe");
        with_ext.append(&mut ext);
        trim_chars(&with_ext)
    } else {
        let head = prefix_before(&t, ",");
        trim_chars(&head)
    };
    let c = strip_chars(&command, '"', '"');
    if c.len() == 0 {
        None
    } else {
        Some(string_of(&c))
    }
}

} // verus!
