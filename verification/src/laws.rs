//! Properties of the library as a whole: what holds across calls, for every
//! input, stated over the same views the functions' contracts use.

use vstd::prelude::*;
use crate::release::{asset_candidates, asset_rank, chooses_best, max_len, numbers_newer, part_at, release_asset_rank, version_newer, version_numbers};
use crate::settings::{default_categories_view, distinct_nonempty, normalized_categories, under_development_category};
use crate::text::{ends_with, has_sub, is_blank, is_space, is_upper, lower, lower_char, trim, trim_end, trim_start};
use crate::catalog::{builtin_catalog_view, catalog_id, cleaned_catalog, cleaned_tool, cleaned_tools, effective_catalog, first_usable_catalog, id_char};
use crate::install::{overlaid, app_index, is_first_app, lemma_app_index_at, lemma_app_index_none, lemma_app_index_some, merged_catalog, merged_saved, settled, with_missing_defaults};
use crate::layout::{layout_reset, layout_saved, all_hidden, shown, reset_entry};
use crate::model::{AssetView, InstalledVersionView, LauncherAppView, PackagePreference, ReleaseView, ToolsCatalogView};
use crate::download::{downloaded, kept_versions, pruned};
use crate::agent_api::{entry_index, is_first_entry, merged_entry, overlaid_entries, EntryView};
use crate::catalog::{coming_soon, development_normalized, release_state_cleared};
use crate::model::ToolStatus;
use crate::provider::provider_state;
use crate::install::{artifact_on_disk, find_version, install_normalized, is_first_version, lemma_find_version_at, version_on_disk, with_version_added};
use crate::files::{executable_rank, has_extension, is_first_best, search_candidates, FileSearch, forbidden_in_file_name, safe_segment, segment_char};
use crate::settings::{default_theme, loaded_settings, max_u32, min_u32, preferred_size, retired_theme, settings_saved, AppSettingsView, SaveSettingsRequestView};

verus! {

/// No version is newer than itself.
pub proof fn law_version_not_newer_than_itself(v: Seq<char>)
    ensures
        !version_newer(v, v),
{
}

/// Of two versions, at most one is newer than the other.
pub proof fn law_version_newer_asymmetric(a: Seq<char>, b: Seq<char>)
    requires
        version_newer(a, b),
    ensures
        !version_newer(b, a),
{
    let x = version_numbers(a);
    let y = version_numbers(b);
    let k = choose|k: int|
        0 <= k < max_len(x, y) && part_at(x, k) > part_at(y, k) && forall|j: int|
            0 <= j < k ==> part_at(x, j) == part_at(y, j);
    if numbers_newer(y, x) {
        let m = choose|m: int|
            0 <= m < max_len(y, x) && part_at(y, m) > part_at(x, m) && forall|j: int|
                0 <= j < m ==> part_at(y, j) == part_at(x, j);
        if m < k {
            assert(part_at(x, m) == part_at(y, m));
        } else if k < m {
            assert(part_at(y, k) == part_at(x, k));
        }
    }
}

proof fn lemma_part_positive_in_range(p: Seq<u32>, k: int)
    requires
        part_at(p, k) > 0,
    ensures
        0 <= k < p.len(),
{
}

/// Newer than a version that is newer than a third is newer than the third.
pub proof fn law_version_newer_transitive(a: Seq<char>, b: Seq<char>, c: Seq<char>)
    requires
        version_newer(a, b),
        version_newer(b, c),
    ensures
        version_newer(a, c),
{
    let x = version_numbers(a);
    let y = version_numbers(b);
    let z = version_numbers(c);
    let k1 = choose|k: int|
        0 <= k < max_len(x, y) && part_at(x, k) > part_at(y, k) && forall|j: int|
            0 <= j < k ==> part_at(x, j) == part_at(y, j);
    let k2 = choose|k: int|
        0 <= k < max_len(y, z) && part_at(y, k) > part_at(z, k) && forall|j: int|
            0 <= j < k ==> part_at(y, j) == part_at(z, j);
    let k = if k1 <= k2 {
        k1
    } else {
        k2
    };
    assert(forall|j: int| 0 <= j < k ==> part_at(x, j) == part_at(z, j));
    assert(part_at(x, k) > part_at(z, k));
    assert(part_at(z, k) >= 0);
    lemma_part_positive_in_range(x, k);
    assert(0 <= k < max_len(x, z));
}

proof fn lemma_trim_start_head(s: Seq<char>)
    ensures
        trim_start(s).len() > 0 ==> !is_space(trim_start(s)[0]),
        trim_start(s).len() <= s.len(),
        s.len() > 0 && !is_space(s[0]) ==> trim_start(s) == s,
    decreases s.len(),
{
    if s.len() > 0 && is_space(s[0]) {
        lemma_trim_start_head(s.drop_first());
    }
}

proof fn lemma_trim_end_prefix(s: Seq<char>)
    ensures
        trim_end(s).len() <= s.len(),
        trim_end(s) == s.subrange(0, trim_end(s).len() as int),
        trim_end(s).len() > 0 ==> !is_space(trim_end(s).last()),
        s.len() > 0 && !is_space(s.last()) ==> trim_end(s) == s,
    decreases s.len(),
{
    if s.len() > 0 && is_space(s.last()) {
        lemma_trim_end_prefix(s.drop_last());
        assert(s.drop_last().subrange(0, trim_end(s).len() as int) =~= s.subrange(
            0,
            trim_end(s).len() as int,
        ));
    } else {
        assert(s.subrange(0, s.len() as int) =~= s);
    }
}

/// A trimmed string neither starts nor ends with white space.
pub proof fn lemma_trim_ends(s: Seq<char>)
    ensures
        trim(s).len() > 0 ==> !is_space(trim(s)[0]) && !is_space(trim(s).last()),
{
    lemma_trim_start_head(s);
    lemma_trim_end_prefix(trim_start(s));
    let t = trim_start(s);
    if trim(s).len() > 0 {
        assert(trim(s)[0] == t[0]);
    }
}

/// Trimming twice is trimming once.
pub proof fn lemma_trim_idempotent(s: Seq<char>)
    ensures
        trim(trim(s)) == trim(s),
{
    let t = trim(s);
    lemma_trim_ends(s);
    if t.len() > 0 {
        lemma_trim_start_head(t);
        lemma_trim_end_prefix(t);
    }
}

/// Whether every entry is trimmed and not blank, and no entry occurs twice.
pub open spec fn clean_list(s: Seq<Seq<char>>) -> bool {
    &&& forall|i: int| 0 <= i < s.len() ==> trim(#[trigger] s[i]) == s[i] && s[i].len() > 0
    &&& forall|i: int, j: int| 0 <= i < j < s.len() ==> #[trigger] s[i] != #[trigger] s[j]
}

proof fn lemma_distinct_nonempty_clean(s: Seq<Seq<char>>)
    ensures
        clean_list(distinct_nonempty(s)),
    decreases s.len(),
{
    if s.len() > 0 {
        lemma_distinct_nonempty_clean(s.drop_last());
        lemma_trim_idempotent(s.last());
    }
}

proof fn lemma_distinct_nonempty_of_clean(s: Seq<Seq<char>>)
    requires
        clean_list(s),
    ensures
        distinct_nonempty(s) == s,
    decreases s.len(),
{
    if s.len() > 0 {
        let d = s.drop_last();
        assert(clean_list(d)) by {
            assert forall|i: int, j: int| 0 <= i < j < d.len() implies #[trigger] d[i] != #[trigger] d[j] by {
                assert(s[i] != s[j]);
            }
        }
        lemma_distinct_nonempty_of_clean(d);
        assert(trim(s.last()) == s.last());
        assert(!d.contains(s.last())) by {
            if d.contains(s.last()) {
                let i = choose|i: int| 0 <= i < d.len() && d[i] == s.last();
                assert(s[i] != s[s.len() - 1]);
            }
        }
        assert(d.push(s.last()) =~= s);
    }
}

proof fn lemma_default_categories_clean()
    ensures
        clean_list(default_categories_view()),
{
    reveal_strlit("-= Released Work Stuff =-");
    reveal_strlit("Fun Stuff");
    reveal_strlit("Under Development");
    let d = default_categories_view();
    assert forall|i: int| 0 <= i < d.len() implies trim(#[trigger] d[i]) == d[i] && d[i].len() > 0 by {
        let s = d[i];
        assert(!is_space(s[0]) && !is_space(s.last()));
        lemma_trim_start_head(s);
        lemma_trim_end_prefix(s);
    }
}

/// A normalized category list is never empty, and its entries are trimmed,
/// not blank, and distinct.
pub proof fn law_normalized_categories_clean(s: Seq<Seq<char>>)
    ensures
        normalized_categories(s).len() > 0,
        clean_list(normalized_categories(s)),
        forall|i: int|
            0 <= i < normalized_categories(s).len() ==> !is_blank(#[trigger] normalized_categories(s)[i]),
{
    lemma_distinct_nonempty_clean(s);
    lemma_default_categories_clean();
}

/// Normalizing a category list twice gives what normalizing it once gives.
pub proof fn law_normalize_categories_idempotent(s: Seq<Seq<char>>)
    ensures
        normalized_categories(normalized_categories(s)) == normalized_categories(s),
{
    law_normalized_categories_clean(s);
    lemma_distinct_nonempty_of_clean(normalized_categories(s));
}

proof fn lemma_lower_char_idempotent(c: char)
    ensures
        lower_char(lower_char(c)) == lower_char(c),
        !is_upper(lower_char(c)),
{
}

/// A cleaned catalog id is its own cleaned form.
pub proof fn law_catalog_id_idempotent(value: Seq<char>)
    requires
        catalog_id(value) is Some,
    ensures
        catalog_id(catalog_id(value)->0) == catalog_id(value),
{
    let x = catalog_id(value)->0;
    assert(id_char(x[0]) && id_char(x.last()));
    lemma_trim_start_head(x);
    lemma_trim_end_prefix(x);
    assert(trim(x) == x);
    assert forall|i: int| 0 <= i < x.len() implies lower_char(x[i]) == x[i] by {
        let t = trim(value);
        assert(x[i] == lower_char(t[i]));
        lemma_lower_char_idempotent(t[i]);
    }
    assert(lower(x) =~= x);
}

/// Whether a catalog tool carries nothing of an install or of releases.
pub open spec fn fresh_tool(t: LauncherAppView) -> bool {
    &&& t.executable_path is None
    &&& t.installed_version is None
    &&& t.selected_version is None
    &&& t.installed_versions.len() == 0
    &&& t.latest_version is None
    &&& t.release_url is None
    &&& t.release_checked_at is None
    &&& t.release_notes is None
    &&& t.release_options.len() == 0
    &&& t.package_path is None
}

/// The tools of a cleaned catalog have valid, distinct ids, and carry
/// nothing of an install or of releases.
pub proof fn law_cleaned_tools_are_fresh_and_distinct(s: Seq<LauncherAppView>)
    ensures
        forall|i: int|
            0 <= i < cleaned_tools(s).len() ==> catalog_id(#[trigger] cleaned_tools(s)[i].id) == Some(
                cleaned_tools(s)[i].id,
            ) && fresh_tool(cleaned_tools(s)[i]),
        forall|i: int, j: int|
            0 <= i < j < cleaned_tools(s).len() ==> #[trigger] cleaned_tools(s)[i].id
                != #[trigger] cleaned_tools(s)[j].id,
    decreases s.len(),
{
    if s.len() > 0 {
        law_cleaned_tools_are_fresh_and_distinct(s.drop_last());
        let prev = cleaned_tools(s.drop_last());
        match cleaned_tool(s.last()) {
            Some(t) => {
                law_catalog_id_idempotent(s.last().id);
                if app_index(prev, t.id) is None {
                    lemma_app_index_none(prev, t.id);
                }
            },
            None => {},
        }
    }
}

proof fn lemma_first_usable_nonempty(c: Seq<ToolsCatalogView>)
    ensures
        first_usable_catalog(c) matches Some(k) ==> k.tools.len() > 0,
    decreases c.len(),
{
    if c.len() > 0 && cleaned_catalog(c[0]) is None {
        lemma_first_usable_nonempty(c.drop_first());
    }
}

/// The catalog in use always lists at least one tool.
pub proof fn law_effective_catalog_nonempty(
    use_remote: bool,
    stored: ToolsCatalogView,
    local: Seq<ToolsCatalogView>,
)
    ensures
        effective_catalog(use_remote, stored, local).tools.len() > 0,
{
    lemma_first_usable_nonempty(local);
    assert(builtin_catalog_view().tools.len() == 15);
}

proof fn lemma_merged_saved_ids(
    saved: Seq<LauncherAppView>,
    defaults: Seq<LauncherAppView>,
    disk: Seq<Seq<char>>,
    now: Seq<char>,
)
    ensures
        forall|j: int|
            0 <= j < merged_saved(saved, defaults, disk, now).len() ==> exists|i: int|
                0 <= i < defaults.len() && defaults[i].id == #[trigger] merged_saved(
                    saved,
                    defaults,
                    disk,
                    now,
                )[j].id,
    decreases saved.len(),
{
    if saved.len() > 0 {
        lemma_merged_saved_ids(saved.drop_last(), defaults, disk, now);
        let prev = merged_saved(saved.drop_last(), defaults, disk, now);
        let r = merged_saved(saved, defaults, disk, now);
        let s = saved.last();
        if app_index(defaults, s.id) is Some {
            lemma_app_index_some(defaults, s.id);
        }
        assert forall|j: int| 0 <= j < r.len() implies exists|k: int|
            0 <= k < defaults.len() && defaults[k].id == #[trigger] r[j].id by {
            if j < prev.len() {
                assert(r[j] == prev[j]);
                let k = choose|k: int| 0 <= k < defaults.len() && defaults[k].id == prev[j].id;
                assert(defaults[k].id == r[j].id);
            } else {
                let i = app_index(defaults, s.id)->0;
                assert(r == prev.push(settled(overlaid(defaults[i], s), disk, now)));
                assert(r[j].id == defaults[i].id);
            }
        }
    }
}

proof fn lemma_with_missing_ids(
    acc: Seq<LauncherAppView>,
    defaults: Seq<LauncherAppView>,
    disk: Seq<Seq<char>>,
    now: Seq<char>,
)
    ensures
        ({
            let r = with_missing_defaults(acc, defaults, disk, now);
            &&& r.len() >= acc.len()
            &&& forall|j: int| 0 <= j < acc.len() ==> #[trigger] r[j] == acc[j]
            &&& forall|k: int|
                0 <= k < defaults.len() ==> exists|j: int|
                    0 <= j < r.len() && r[j].id == #[trigger] defaults[k].id
            &&& forall|j: int|
                acc.len() <= j < r.len() ==> exists|k: int|
                    0 <= k < defaults.len() && defaults[k].id == #[trigger] r[j].id
        }),
    decreases defaults.len(),
{
    if defaults.len() > 0 {
        let dl = defaults.drop_last();
        lemma_with_missing_ids(acc, dl, disk, now);
        let prev = with_missing_defaults(acc, dl, disk, now);
        let d = defaults.last();
        let r = with_missing_defaults(acc, defaults, disk, now);
        assert forall|k: int| 0 <= k < defaults.len() implies exists|j: int|
            0 <= j < r.len() && r[j].id == #[trigger] defaults[k].id by {
            if k < defaults.len() - 1 {
                assert(defaults[k] == dl[k]);
                let j = choose|j: int| 0 <= j < prev.len() && prev[j].id == dl[k].id;
                assert(r[j] == prev[j]);
            } else if app_index(prev, d.id) is Some {
                lemma_app_index_some(prev, d.id);
                let j = app_index(prev, d.id)->0;
                assert(r[j] == prev[j]);
            } else {
                assert(r[prev.len() as int] == settled(d, disk, now));
            }
        }
        assert forall|j: int| acc.len() <= j < r.len() implies exists|k: int|
            0 <= k < defaults.len() && defaults[k].id == #[trigger] r[j].id by {
            if j < prev.len() {
                assert(r[j] == prev[j]);
                let k = choose|k: int| 0 <= k < dl.len() && dl[k].id == prev[j].id;
                assert(defaults[k] == dl[k]);
            } else {
                assert(defaults[defaults.len() - 1] == d);
            }
        }
    }
}

/// A merge of saved state into a catalog lists every app of the catalog,
/// and only apps of the catalog.
pub proof fn law_merge_lists_exactly_the_catalog(
    saved: Seq<LauncherAppView>,
    defaults: Seq<LauncherAppView>,
    disk: Seq<Seq<char>>,
    now: Seq<char>,
)
    ensures
        forall|k: int|
            0 <= k < defaults.len() ==> exists|j: int|
                0 <= j < merged_catalog(saved, defaults, disk, now).len() && merged_catalog(
                    saved,
                    defaults,
                    disk,
                    now,
                )[j].id == #[trigger] defaults[k].id,
        forall|j: int|
            0 <= j < merged_catalog(saved, defaults, disk, now).len() ==> exists|k: int|
                0 <= k < defaults.len() && defaults[k].id == #[trigger] merged_catalog(
                    saved,
                    defaults,
                    disk,
                    now,
                )[j].id,
{
    let ms = merged_saved(saved, defaults, disk, now);
    lemma_merged_saved_ids(saved, defaults, disk, now);
    lemma_with_missing_ids(ms, defaults, disk, now);
    let r = merged_catalog(saved, defaults, disk, now);
    assert forall|j: int| 0 <= j < r.len() implies exists|k: int|
        0 <= k < defaults.len() && defaults[k].id == #[trigger] r[j].id by {
        if j < ms.len() {
            assert(r[j] == ms[j]);
            let k = choose|k: int| 0 <= k < defaults.len() && defaults[k].id == ms[j].id;
        }
    }
}

/// A saved layout never hides every app, unless there is none.
pub proof fn law_saved_layout_shows_an_app(
    layout: Seq<LauncherAppView>,
    catalog: Seq<LauncherAppView>,
    disk: Seq<Seq<char>>,
    now: Seq<char>,
)
    ensures
        layout_saved(layout, catalog, disk, now).len() > 0 ==> exists|i: int|
            0 <= i < layout_saved(layout, catalog, disk, now).len() && (#[trigger] layout_saved(
                layout,
                catalog,
                disk,
                now,
            )[i]).visible,
{
    let m = merged_catalog(layout, catalog, disk, now);
    let r = layout_saved(layout, catalog, disk, now);
    if r.len() > 0 {
        if all_hidden(m) {
            assert(r[0] == shown(m[0]));
            assert(r[0].visible);
        } else {
            let i = choose|i: int| 0 <= i < m.len() && m[i].visible;
            assert(r[i].visible);
        }
    }
}

/// A reset layout lists the catalog's apps in catalog order, all shown.
pub proof fn law_reset_layout_shows_the_catalog(
    catalog: Seq<LauncherAppView>,
    current: Seq<LauncherAppView>,
)
    ensures
        layout_reset(catalog, current).len() == catalog.len(),
        forall|i: int|
            0 <= i < catalog.len() ==> (#[trigger] layout_reset(catalog, current)[i]).id == catalog[i].id
                && layout_reset(catalog, current)[i].visible,
{
    assert forall|i: int| 0 <= i < catalog.len() implies (#[trigger] layout_reset(
        catalog,
        current,
    )[i]).id == catalog[i].id && layout_reset(catalog, current)[i].visible by {
        assert(layout_reset(catalog, current)[i] == reset_entry(catalog[i], current));
    }
}

/// After a download, the downloaded version is the installed and the
/// selected one and leads the app's downloads; at most two downloads are
/// kept, each the new version or the one installed before.
pub proof fn law_download_installs_and_selects(
    a: LauncherAppView,
    releases: Seq<ReleaseView>,
    tag: Seq<char>,
    preference: PackagePreference,
    executable_path: Option<Seq<char>>,
    package_path: Option<Seq<char>>,
    previous: Option<Seq<char>>,
    now: Seq<char>,
)
    ensures
        ({
            let r = pruned(
                downloaded(a, releases, tag, preference, executable_path, package_path, now),
                previous,
                tag,
            );
            &&& r.installed_version == Some(tag)
            &&& r.selected_version == Some(tag)
            &&& 1 <= r.installed_versions.len() <= 2
            &&& r.installed_versions[0].version == tag
            &&& forall|i: int|
                0 <= i < r.installed_versions.len() ==> (#[trigger] r.installed_versions[i]).version
                    == tag || previous == Some(r.installed_versions[i].version)
        }),
{
    let d = downloaded(a, releases, tag, preference, executable_path, package_path, now);
    let keep = kept_versions(previous, tag);
    let pred = |iv: InstalledVersionView| keep.contains(iv.version);
    let new = d.installed_versions[0];
    let rest = d.installed_versions.drop_first();
    assert(d.installed_versions =~= seq![new] + rest);
    assert(keep[0] == tag);
    assert(keep.contains(tag));
    assert(pred(new));
    rest.lemma_filter_prepend(new, pred);
    let vs = d.installed_versions.filter(pred);
    assert(vs == seq![new] + rest.filter(pred));
    assert(vs[0] == new);
    let vs2 = vs.take(
        if vs.len() > 2 {
            2
        } else {
            vs.len() as int
        },
    );
    assert(vs2[0] == new);
    assert(is_first_version(vs2, tag, 0));
    lemma_find_version_at(vs2, tag, 0);
    let r = pruned(d, previous, tag);
    assert(r.installed_versions == vs2);
    assert forall|i: int| 0 <= i < r.installed_versions.len() implies (
    #[trigger] r.installed_versions[i]).version == tag || previous == Some(
        r.installed_versions[i].version,
    ) by {
        assert(r.installed_versions[i] == vs[i]);
        d.installed_versions.lemma_filter_pred(pred, i);
        assert(keep.contains(vs[i].version));
        let k = choose|k: int| 0 <= k < keep.len() && keep[k] == vs[i].version;
    }
}

/// Normalizing an app's install state keeps at most two downloads.
pub proof fn law_install_normalized_keeps_two(a: LauncherAppView, disk: Seq<Seq<char>>, now: Seq<char>)
    ensures
        install_normalized(a, disk, now).installed_versions.len() <= 2,
{
}

/// A recorded download leads the app's downloads, and no other record has
/// its version.
pub proof fn law_added_version_leads(
    a: LauncherAppView,
    version: Seq<char>,
    executable_path: Option<Seq<char>>,
    package_path: Option<Seq<char>>,
    now: Seq<char>,
)
    ensures
        ({
            let vs = with_version_added(a, version, executable_path, package_path, now).installed_versions;
            &&& vs.len() >= 1
            &&& vs[0].version == version
            &&& forall|i: int| 1 <= i < vs.len() ==> (#[trigger] vs[i]).version != version
        }),
{
    let p = |iv: InstalledVersionView| iv.version != version;
    let vs = with_version_added(a, version, executable_path, package_path, now).installed_versions;
    assert forall|i: int| 1 <= i < vs.len() implies (#[trigger] vs[i]).version != version by {
        assert(vs[i] == a.installed_versions.filter(p)[i - 1]);
        a.installed_versions.lemma_filter_pred(p, i - 1);
    }
}

proof fn lemma_strip_start_sub(s: Seq<char>, strip: spec_fn(char) -> bool)
    ensures
        exists|k: int| 0 <= k <= s.len() && crate::text::strip_start(s, strip) == s.subrange(k, s.len() as int),
    decreases s.len(),
{
    if s.len() > 0 && strip(s[0]) {
        lemma_strip_start_sub(s.drop_first(), strip);
        let k = choose|k: int|
            0 <= k <= s.drop_first().len() && crate::text::strip_start(s.drop_first(), strip)
                == s.drop_first().subrange(k, s.drop_first().len() as int);
        assert(s.drop_first().subrange(k, s.drop_first().len() as int) =~= s.subrange(k + 1, s.len() as int));
    } else {
        assert(s.subrange(0, s.len() as int) =~= s);
    }
}

proof fn lemma_strip_end_sub(s: Seq<char>, strip: spec_fn(char) -> bool)
    ensures
        exists|k: int| 0 <= k <= s.len() && crate::text::strip_end(s, strip) == s.subrange(0, k),
    decreases s.len(),
{
    if s.len() > 0 && strip(s.last()) {
        lemma_strip_end_sub(s.drop_last(), strip);
        let k = choose|k: int|
            0 <= k <= s.drop_last().len() && crate::text::strip_end(s.drop_last(), strip)
                == s.drop_last().subrange(0, k);
        assert(s.drop_last().subrange(0, k) =~= s.subrange(0, k));
    } else {
        assert(s.subrange(0, s.len() as int) =~= s);
    }
}

/// A name made safe for a file or folder is never empty and holds no
/// reserved or control character.
pub proof fn law_safe_segment_is_safe(value: Seq<char>)
    ensures
        safe_segment(value).len() > 0,
        forall|i: int| 0 <= i < safe_segment(value).len() ==> !forbidden_in_file_name(
            #[trigger] safe_segment(value)[i],
        ),
{
    reveal_strlit("download");
    let m = value.map_values(|c: char| segment_char(c));
    let strip = |c: char| c == ' ' || c == '.';
    lemma_strip_start_sub(m, strip);
    let st = crate::text::strip_start(m, strip);
    let k1 = choose|k: int| 0 <= k <= m.len() && st == m.subrange(k, m.len() as int);
    lemma_strip_end_sub(st, strip);
    let k2 = choose|k: int| 0 <= k <= st.len() && crate::text::strip_end(st, strip) == st.subrange(0, k);
    let t = crate::text::strip_ends(m, strip);
    assert forall|i: int| 0 <= i < t.len() implies !forbidden_in_file_name(#[trigger] t[i]) by {
        assert(t[i] == m[k1 + i]);
        assert(m[k1 + i] == segment_char(value[k1 + i]));
    }
}

/// The window opens at a size that fits the monitor: each side between the
/// minimum (or the monitor's extent, where that is smaller) and the
/// monitor's extent, counted as at least one pixel.
pub proof fn law_window_fits_monitor(
    s: AppSettingsView,
    monitor_width: u32,
    monitor_height: u32,
    default_size: (u32, u32),
)
    ensures
        ({
            let (w, h) = preferred_size(s, monitor_width, monitor_height, default_size);
            &&& min_u32(520, max_u32(monitor_width, 1)) <= w <= max_u32(monitor_width, 1)
            &&& min_u32(390, max_u32(monitor_height, 1)) <= h <= max_u32(monitor_height, 1)
        }),
{
}

/// Saved registry entries laid over the built-in ones keep every built-in
/// app at its place, and list every saved app.
pub proof fn law_registry_overlay_lists_every_app(base: Seq<EntryView>, saved: Seq<EntryView>)
    ensures
        overlaid_entries(base, saved).len() >= base.len(),
        forall|k: int|
            0 <= k < base.len() ==> (#[trigger] overlaid_entries(base, saved)[k]).app_id
                == base[k].app_id,
        forall|k: int|
            0 <= k < saved.len() ==> exists|j: int|
                0 <= j < overlaid_entries(base, saved).len() && overlaid_entries(base, saved)[j].app_id
                    == (#[trigger] saved[k]).app_id,
    decreases saved.len(),
{
    if saved.len() > 0 {
        let sd = saved.drop_last();
        law_registry_overlay_lists_every_app(base, sd);
        let prev = overlaid_entries(base, sd);
        let s = saved.last();
        let r = overlaid_entries(base, saved);
        if entry_index(prev, s.app_id) is Some {
            let i = entry_index(prev, s.app_id)->0;
            assert(is_first_entry(prev, s.app_id, i));
            assert(r == prev.update(i, merged_entry(prev[i], s)));
            assert(r[i].app_id == prev[i].app_id);
        } else {
            assert(r == prev.push(s));
        }
        assert forall|k: int| 0 <= k < base.len() implies (#[trigger] r[k]).app_id == base[k].app_id by {
            assert(prev[k].app_id == base[k].app_id);
        }
        assert forall|k: int| 0 <= k < saved.len() implies exists|j: int|
            0 <= j < r.len() && r[j].app_id == (#[trigger] saved[k]).app_id by {
            if k < saved.len() - 1 {
                assert(saved[k] == sd[k]);
                let j = choose|j: int| 0 <= j < prev.len() && prev[j].app_id == sd[k].app_id;
                assert(r[j].app_id == prev[j].app_id);
            } else if entry_index(prev, s.app_id) is Some {
                let i = entry_index(prev, s.app_id)->0;
                assert(is_first_entry(prev, s.app_id, i));
                assert(r[i].app_id == s.app_id);
            } else {
                assert(r[prev.len() as int] == s);
            }
        }
    }
}

/// An app that is coming soon is filed under "Under Development" and marked
/// coming soon; settling the development status twice changes nothing more.
pub proof fn law_development_status_settles(a: LauncherAppView)
    ensures
        coming_soon(a) ==> development_normalized(a).status == ToolStatus::ComingSoon
            && development_normalized(a).category == under_development_category(),
        !coming_soon(a) ==> development_normalized(a) == a,
        development_normalized(development_normalized(a)) == development_normalized(a),
{
}

/// No Agent API is reachable and no app is a ready provider, whatever the
/// launcher knows of it, since no endpoint is probed.
pub proof fn law_no_provider_is_ready(
    id: Seq<char>,
    catalog: Seq<LauncherAppView>,
    apps: Seq<LauncherAppView>,
    disk: Seq<Seq<char>>,
    entries: Seq<EntryView>,
)
    ensures
        !provider_state(id, catalog, apps, disk, entries).api_reachable,
        !provider_state(id, catalog, apps, disk, entries).provider_ready,
{
}

/// Settings as read from disk, once saved through the settings form with any
/// theme but the retired one, read back unchanged; and reading settings
/// twice gives what reading them once gives.
pub proof fn law_saved_settings_read_back(stored: AppSettingsView, request: SaveSettingsRequestView)
    requires
        request.theme != Some(retired_theme()),
    ensures
        loaded_settings(loaded_settings(stored)) == loaded_settings(stored),
        loaded_settings(settings_saved(loaded_settings(stored), request)) == settings_saved(
            loaded_settings(stored),
            request,
        ),
{
    reveal_strlit("neko-tron");
    reveal_strlit("eva-dark");
    assert(default_theme() != retired_theme()) by {
        assert(default_theme()[0] != retired_theme()[0]);
    }
    law_normalize_categories_idempotent(stored.categories);
    match request.categories {
        Some(c) => law_normalize_categories_idempotent(c),
        None => {},
    }
    let l = loaded_settings(stored);
    assert(loaded_settings(l) =~= l);
    let saved = settings_saved(l, request);
    assert(loaded_settings(saved) =~= saved);
}


proof fn lemma_filter_keeps_all(s: Seq<InstalledVersionView>, p: spec_fn(InstalledVersionView) -> bool)
    requires
        forall|i: int| 0 <= i < s.len() ==> p(#[trigger] s[i]),
    ensures
        s.filter(p) == s,
    decreases s.len(),
{
    if s.len() > 0 {
        let rest = s.drop_first();
        assert forall|i: int| 0 <= i < rest.len() implies p(#[trigger] rest[i]) by {
            assert(rest[i] == s[i + 1]);
        }
        lemma_filter_keeps_all(rest, p);
        assert(s =~= seq![s[0]] + rest);
        rest.lemma_filter_prepend(s[0], p);
    } else {
        s.lemma_filter_len(p);
        assert(s.filter(p) =~= s);
    }
}

proof fn lemma_first_version_exists(s: Seq<InstalledVersionView>, v: Seq<char>, j: int)
    requires
        0 <= j < s.len(),
        s[j].version == v,
    ensures
        exists|i: int| 0 <= i <= j && is_first_version(s, v, i),
    decreases j,
{
    if exists|k: int| 0 <= k < j && s[k].version == v {
        let k = choose|k: int| 0 <= k < j && s[k].version == v;
        lemma_first_version_exists(s, v, k);
    } else {
        assert(is_first_version(s, v, j));
    }
}

/// A record that is the first of its version in a list, and whose version
/// some record of a prefix of that list also has, is found there.
proof fn lemma_first_version_in_prefix(
    s: Seq<InstalledVersionView>,
    n: int,
    x: InstalledVersionView,
    i: int,
    j: int,
)
    requires
        0 <= n <= s.len(),
        is_first_version(s, x.version, i),
        s[i] == x,
        0 <= j < n,
        s[j].version == x.version,
    ensures
        find_version(s.take(n), x.version) == Some(x),
{
    assert(i <= j);
    assert(is_first_version(s.take(n), x.version, i));
    lemma_find_version_at(s.take(n), x.version, i);
}

/// Normalizing an app's install state a second time, against the same files
/// on disk, changes nothing, wherever the first pass left no version
/// installed or the installed version among the downloads it kept.
pub proof fn law_normalize_install_state_settles(
    a: LauncherAppView,
    disk: Seq<Seq<char>>,
    now: Seq<char>,
    later: Seq<char>,
)
    requires
        ({
            let b = install_normalized(a, disk, now);
            b.installed_version is None || exists|j: int|
                0 <= j < b.installed_versions.len() && b.installed_versions[j].version
                    == b.installed_version->0
        }),
    ensures
        install_normalized(install_normalized(a, disk, now), disk, later) == install_normalized(
            a,
            disk,
            now,
        ),
{
    let b = install_normalized(a, disk, now);
    let pa = |iv: InstalledVersionView| version_on_disk(a, iv, disk);
    let a1 = LauncherAppView { installed_versions: a.installed_versions.filter(pa), ..a };
    let added = match a.installed_version {
        Some(v) => artifact_on_disk(a, disk) && find_version(a1.installed_versions, v) is None,
        None => false,
    };
    let a2 = if added {
        with_version_added(a1, a.installed_version->0, a.executable_path, a.package_path, now)
    } else {
        a1
    };
    let s2 = a2.installed_versions;
    let n: int = if s2.len() > 2 {
        2
    } else {
        s2.len() as int
    };
    let s = s2.take(n);
    assert(b.installed_versions == s);
    assert(b.selected_version == a.selected_version);
    assert(b.demo_url == a.demo_url);

    // Every kept download is on disk.
    assert forall|i: int| 0 <= i < s2.len() implies version_on_disk(a, #[trigger] s2[i], disk) by {
        if !added {
            a.installed_versions.lemma_filter_pred(pa, i);
        } else if i > 0 {
            let v = a.installed_version->0;
            let q = |iv: InstalledVersionView| iv.version != v;
            let f = a1.installed_versions.filter(q);
            assert(s2[i] == f[i - 1]);
            assert(f.contains(f[i - 1]));
            a1.installed_versions.lemma_filter_contains_rev(q, f[i - 1]);
            let k = choose|k: int|
                0 <= k < a1.installed_versions.len() && a1.installed_versions[k] == f[i - 1];
            a.installed_versions.lemma_filter_pred(pa, k);
        }
    }
    let pb = |iv: InstalledVersionView| version_on_disk(b, iv, disk);
    assert forall|i: int| 0 <= i < s.len() implies pb(#[trigger] s[i]) by {
        assert(s[i] == s2[i]);
    }
    lemma_filter_keeps_all(s, pb);
    let b1 = LauncherAppView { installed_versions: b.installed_versions.filter(pb), ..b };
    assert(b1 == b);

    // The installed version is recorded, so nothing is added.
    if b.installed_version is Some {
        let v = b.installed_version->0;
        let j = choose|j: int| 0 <= j < s.len() && s[j].version == v;
        lemma_first_version_exists(s, v, j);
        let i = choose|i: int| 0 <= i <= j && is_first_version(s, v, i);
        lemma_find_version_at(s, v, i);
    }

    // The same download is chosen again.
    let preferred = if a2.selected_version is Some {
        a2.selected_version
    } else {
        a2.installed_version
    };
    if s2.len() == 0 {
        assert(s =~= s2);
        assert(!exists|i: int| is_first_version(s, b.installed_version->0, i));
        assert(!exists|i: int| is_first_version(s, b.selected_version->0, i));
        assert(install_normalized(b, disk, later).installed_versions =~= s);
    } else {
        let x = match preferred {
            Some(v) => match find_version(s2, v) {
                Some(iv) => iv,
                None => s2[0],
            },
            None => s2[0],
        };
        let ix: int = match preferred {
            Some(v) => match find_version(s2, v) {
                Some(iv) => choose|i: int| is_first_version(s2, v, i),
                None => 0,
            },
            None => 0,
        };
        assert(is_first_version(s2, x.version, ix) && s2[ix] == x);
        assert(b.installed_version == Some(x.version));
        assert(b.executable_path == x.executable_path);
        assert(b.package_path == x.package_path);
        if a.selected_version is Some && find_version(s2, a.selected_version->0) is None {
            let sv = a.selected_version->0;
            if exists|i: int| is_first_version(s, sv, i) {
                let k = choose|i: int| is_first_version(s, sv, i);
                assert(s2[k].version == sv);
                lemma_first_version_exists(s2, sv, k);
                let k2 = choose|i: int| 0 <= i <= k && is_first_version(s2, sv, i);
            }
            assert(find_version(s, sv) is None);
            assert(x == s2[0]);
            assert(s[0] == x);
        } else {
            let j = choose|j: int| 0 <= j < s.len() && s[j].version == x.version;
            assert(s2[j] == s[j]);
            lemma_first_version_in_prefix(s2, n, x, ix, j);
        }
        let r = install_normalized(b, disk, later);
        assert(r.installed_versions =~= s);
        assert(r == b);
    }
}

/// An asset built for Linux or macOS is never a Windows download: whatever
/// package kind is preferred, its score rules it out.
pub proof fn law_other_platform_assets_score_out(name: Seq<char>, preference: PackagePreference)
    requires
        has_sub(lower(name), "linux"@) || has_sub(lower(name), "mac"@) || has_sub(
            lower(name),
            "darwin"@,
        ),
    ensures
        asset_rank(name, preference) == -100,
{
}

/// The asset chosen from a release for download is never a Linux or macOS
/// build.
pub proof fn law_chosen_asset_is_not_for_another_platform(
    assets: Seq<AssetView>,
    preference: PackagePreference,
    i: usize,
)
    requires
        chooses_best(asset_candidates(assets, release_asset_rank(preference)), Some(i)),
    ensures
        !has_sub(lower(assets[i as int].name), "linux"@),
        !has_sub(lower(assets[i as int].name), "mac"@),
        !has_sub(lower(assets[i as int].name), "darwin"@),
{
    let n = assets[i as int].name;
    let scores = asset_candidates(assets, release_asset_rank(preference));
    assert(scores[i as int] == Some(asset_rank(n, preference)));
    if has_sub(lower(n), "linux"@) || has_sub(lower(n), "mac"@) || has_sub(lower(n), "darwin"@) {
        law_other_platform_assets_score_out(n, preference);
    }
}

/// How a file found in an install folder is scored as the app's program:
/// 10, plus 40 where its lower-cased name holds the app's id or repository
/// name, plus 20 where it says portable, less 35 where it marks a setup,
/// installer, uninstaller or updater.
pub proof fn law_executable_score_parts(name: Seq<char>, app_id: Seq<char>, repo: Seq<char>)
    ensures
        ({
            let n = lower(name);
            executable_rank(name, app_id, repo) == 10 + (if has_sub(n, lower(app_id)) || has_sub(
                n,
                lower(repo),
            ) {
                40int
            } else {
                0
            }) + (if has_sub(n, "portable"@) {
                20int
            } else {
                0
            }) - (if has_sub(n, "setup"@) || has_sub(n, "installer"@) || has_sub(n, "uninstall"@)
                || has_sub(n, "update"@) {
                35int
            } else {
                0
            })
        }),
{
}

/// Of two files that name the app alike and say portable alike, an
/// uninstaller, setup, installer or updater scores lower than a file that
/// is none of these.
pub proof fn law_maintenance_tools_score_lower(
    tool: Seq<char>,
    program: Seq<char>,
    app_id: Seq<char>,
    repo: Seq<char>,
)
    requires
        has_sub(lower(tool), "setup"@) || has_sub(lower(tool), "installer"@) || has_sub(
            lower(tool),
            "uninstall"@,
        ) || has_sub(lower(tool), "update"@),
        !has_sub(lower(program), "setup"@),
        !has_sub(lower(program), "installer"@),
        !has_sub(lower(program), "uninstall"@),
        !has_sub(lower(program), "update"@),
        (has_sub(lower(tool), lower(app_id)) || has_sub(lower(tool), lower(repo))) == (has_sub(
            lower(program),
            lower(app_id),
        ) || has_sub(lower(program), lower(repo))),
        has_sub(lower(tool), "portable"@) == has_sub(lower(program), "portable"@),
    ensures
        executable_rank(tool, app_id, repo) < executable_rank(program, app_id, repo),
{
    law_executable_score_parts(tool, app_id, repo);
    law_executable_score_parts(program, app_id, repo);
}

/// A saved registry entry laid over the built-in one keeps what the user
/// saved: its app, port, state and note, and its name and bind address
/// where they are not blank; the built-in entry only fills in a missing
/// note, a blank name or bind address, and keeps its default port.
pub proof fn law_saved_entry_values_win(existing: EntryView, saved: EntryView)
    ensures
        ({
            let m = merged_entry(existing, saved);
            &&& m.app_id == saved.app_id
            &&& m.port == saved.port
            &&& m.enabled == saved.enabled
            &&& m.busy == saved.busy
            &&& m.active_job_id == saved.active_job_id
            &&& m.last_seen == saved.last_seen
            &&& m.default_port == existing.default_port
            &&& (saved.note is Some ==> m.note == saved.note)
            &&& (saved.note is None ==> m.note == existing.note)
            &&& (!is_blank(saved.app_name) ==> m.app_name == saved.app_name)
            &&& (is_blank(saved.app_name) ==> m.app_name == existing.app_name)
            &&& (!is_blank(saved.bind_address) ==> m.bind_address == saved.bind_address)
            &&& (is_blank(saved.bind_address) ==> m.bind_address == existing.bind_address)
        }),
{
}

/// After the saved registry is laid over the built-in entries, the first
/// listing of the app of the last saved entry carries that entry's port and
/// state, and its note where it has one.
pub proof fn law_registry_overlay_keeps_last_saved(base: Seq<EntryView>, saved: Seq<EntryView>)
    requires
        saved.len() > 0,
    ensures
        ({
            let r = overlaid_entries(base, saved);
            let s = saved.last();
            exists|i: int|
                is_first_entry(r, s.app_id, i) && r[i].port == s.port && r[i].enabled == s.enabled
                    && (s.note is Some ==> r[i].note == s.note)
        }),
{
    let prev = overlaid_entries(base, saved.drop_last());
    let s = saved.last();
    let r = overlaid_entries(base, saved);
    if entry_index(prev, s.app_id) is Some {
        let i = entry_index(prev, s.app_id)->0;
        assert(is_first_entry(prev, s.app_id, i));
        assert(r == prev.update(i, merged_entry(prev[i], s)));
        assert(is_first_entry(r, s.app_id, i));
    } else {
        assert(r == prev.push(s));
        assert forall|j: int| 0 <= j < prev.len() implies prev[j].app_id != s.app_id by {
            if prev[j].app_id == s.app_id {
                lemma_first_entry_exists(prev, s.app_id, j);
                let k = choose|k: int| 0 <= k <= j && is_first_entry(prev, s.app_id, k);
            }
        }
        assert(is_first_entry(r, s.app_id, prev.len() as int));
    }
}

proof fn lemma_first_entry_exists(s: Seq<EntryView>, id: Seq<char>, j: int)
    requires
        0 <= j < s.len(),
        s[j].app_id == id,
    ensures
        exists|i: int| 0 <= i <= j && is_first_entry(s, id, i),
    decreases j,
{
    if exists|k: int| 0 <= k < j && s[k].app_id == id {
        let k = choose|k: int| 0 <= k < j && s[k].app_id == id;
        lemma_first_entry_exists(s, id, k);
    } else {
        assert(is_first_entry(s, id, j));
    }
}

/// A layout reset keeps the catalog's own description of each app, shows
/// it, and carries the install and release state of the first app with its
/// id that the launcher knew; an app it did not know starts from the
/// catalog's entry.
pub proof fn law_reset_layout_keeps_install_state(
    catalog: Seq<LauncherAppView>,
    current: Seq<LauncherAppView>,
    k: int,
)
    requires
        0 <= k < catalog.len(),
    ensures
        ({
            let r = layout_reset(catalog, current)[k];
            let d = catalog[k];
            &&& r.id == d.id && r.name == d.name && r.repo == d.repo && r.description
                == d.description && r.accent == d.accent && r.icon == d.icon && r.category
                == d.category && r.demo_url == d.demo_url && r.status == d.status
            &&& r.visible
            &&& forall|i: int|
                is_first_app(current, d.id, i) ==> {
                    let e = current[i];
                    &&& r.installed_versions == e.installed_versions
                    &&& r.installed_version == e.installed_version
                    &&& r.selected_version == e.selected_version
                    &&& r.executable_path == e.executable_path
                    &&& r.package_path == e.package_path
                    &&& r.package_preference == e.package_preference
                    &&& r.latest_version == e.latest_version
                    &&& r.release_url == e.release_url
                    &&& r.release_checked_at == e.release_checked_at
                    &&& r.release_notes == e.release_notes
                    &&& r.release_options == e.release_options
                }
            &&& (forall|i: int| 0 <= i < current.len() ==> current[i].id != d.id) ==> r == shown(d)
        }),
{
    let d = catalog[k];
    assert(layout_reset(catalog, current)[k] == reset_entry(d, current));
    lemma_app_index_none(current, d.id);
    assert forall|i: int| is_first_app(current, d.id, i) implies app_index(current, d.id) == Some(i) by {
        lemma_app_index_at(current, d.id, i);
    }
}

proof fn lemma_settled_keeps_saved_install(
    a: LauncherAppView,
    disk: Seq<Seq<char>>,
    now: Seq<char>,
)
    requires
        a.installed_versions.len() == 0,
        a.installed_version is None,
    ensures
        ({
            let r = settled(a, disk, now);
            &&& r.executable_path == a.executable_path
            &&& r.package_path == a.package_path
            &&& r.selected_version == a.selected_version
            &&& r.package_preference == a.package_preference
            &&& r.visible == a.visible
        }),
{
    let n = development_normalized(a);
    let c = if n.status == ToolStatus::ComingSoon {
        release_state_cleared(n)
    } else {
        n
    };
    let p = |iv: InstalledVersionView| version_on_disk(c, iv, disk);
    c.installed_versions.lemma_filter_len(p);
    assert(c.installed_versions.filter(p).len() == 0);
    let v = c.selected_version;
    if v is Some {
        assert(!exists|i: int| is_first_version(c.installed_versions.filter(p), v->0, i));
    }
}

proof fn lemma_merged_saved_keeps_install(
    saved: Seq<LauncherAppView>,
    defaults: Seq<LauncherAppView>,
    disk: Seq<Seq<char>>,
    now: Seq<char>,
    k: int,
)
    requires
        0 <= k < saved.len(),
        exists|i: int| 0 <= i < defaults.len() && defaults[i].id == saved[k].id,
        saved[k].installed_versions.len() == 0,
        saved[k].installed_version is None,
    ensures
        ({
            let m = merged_saved(saved, defaults, disk, now);
            exists|j: int|
                0 <= j < m.len() && m[j].id == saved[k].id && m[j].executable_path
                    == saved[k].executable_path && m[j].package_path == saved[k].package_path
                    && m[j].selected_version == saved[k].selected_version
                    && m[j].package_preference == saved[k].package_preference && m[j].visible
                    == saved[k].visible
        }),
    decreases saved.len(),
{
    let sd = saved.drop_last();
    let prev = merged_saved(sd, defaults, disk, now);
    let m = merged_saved(saved, defaults, disk, now);
    let s = saved.last();
    if k < saved.len() - 1 {
        assert(saved[k] == sd[k]);
        lemma_merged_saved_keeps_install(sd, defaults, disk, now, k);
        let j = choose|j: int|
            0 <= j < prev.len() && prev[j].id == sd[k].id && prev[j].executable_path
                == sd[k].executable_path && prev[j].package_path == sd[k].package_path
                && prev[j].selected_version == sd[k].selected_version
                && prev[j].package_preference == sd[k].package_preference && prev[j].visible
                == sd[k].visible;
        if app_index(defaults, s.id) is Some {
            assert(m == prev.push(settled(overlaid(defaults[app_index(defaults, s.id)->0], s), disk, now)));
        }
        assert(m[j] == prev[j]);
    } else {
        lemma_app_index_none(defaults, s.id);
        lemma_app_index_some(defaults, s.id);
        let i = app_index(defaults, s.id)->0;
        let o = overlaid(defaults[i], s);
        lemma_settled_keeps_saved_install(o, disk, now);
        assert(m == prev.push(settled(o, disk, now)));
        assert(m[prev.len() as int] == settled(o, disk, now));
    }
}

/// A saved app with no recorded download keeps, through a merge into a
/// catalog that still lists it, the launch file and package the user
/// configured, the selected version, the package preference and whether it
/// is shown.
pub proof fn law_merge_keeps_saved_launch_file(
    saved: Seq<LauncherAppView>,
    defaults: Seq<LauncherAppView>,
    disk: Seq<Seq<char>>,
    now: Seq<char>,
    k: int,
)
    requires
        0 <= k < saved.len(),
        exists|i: int| 0 <= i < defaults.len() && defaults[i].id == saved[k].id,
        saved[k].installed_versions.len() == 0,
        saved[k].installed_version is None,
    ensures
        ({
            let m = merged_catalog(saved, defaults, disk, now);
            exists|j: int|
                0 <= j < m.len() && m[j].id == saved[k].id && m[j].executable_path
                    == saved[k].executable_path && m[j].package_path == saved[k].package_path
                    && m[j].selected_version == saved[k].selected_version
                    && m[j].package_preference == saved[k].package_preference && m[j].visible
                    == saved[k].visible
        }),
{
    let ms = merged_saved(saved, defaults, disk, now);
    lemma_merged_saved_keeps_install(saved, defaults, disk, now, k);
    lemma_with_missing_ids(ms, defaults, disk, now);
    let m = merged_catalog(saved, defaults, disk, now);
    let j = choose|j: int|
        0 <= j < ms.len() && ms[j].id == saved[k].id && ms[j].executable_path
            == saved[k].executable_path && ms[j].package_path == saved[k].package_path
            && ms[j].selected_version == saved[k].selected_version
            && ms[j].package_preference == saved[k].package_preference && ms[j].visible
            == saved[k].visible;
    assert(m[j] == ms[j]);
}

/// How a release asset is scored for download. A checksum or signature
/// file, a macOS or Linux package, or a name that mentions Linux or macOS
/// scores -100. Otherwise, for a portable download: -100 unless it is a zip,
/// says portable or standalone, or is an `.exe` that is no installer (an
/// `.msi` or a name with setup or installer); else 80 for an `.exe`, 65 for
/// a zip, 40 for portable, 35 for standalone, less 120 for an installer.
/// For an installer: -100 unless it is one; else 80 for an `.msi`, 70 for
/// setup or installer, 45 for an `.exe`. Either way 25 more for win or
/// windows and 15 more for x64 or amd64. Names are compared lower-cased.
pub proof fn law_asset_score_parts(name: Seq<char>, preference: PackagePreference)
    ensures
        ({
            let n = lower(name);
            let excluded = ends_with(n, ".blockmap"@) || ends_with(n, ".sig"@) || ends_with(
                n,
                ".sha256"@,
            ) || ends_with(n, ".sha512"@) || ends_with(n, ".dmg"@) || ends_with(n, ".appimage"@)
                || ends_with(n, ".deb"@) || ends_with(n, ".rpm"@) || has_sub(n, "linux"@)
                || has_sub(n, "mac"@) || has_sub(n, "darwin"@);
            let installer = ends_with(n, ".msi"@) || has_sub(n, "setup"@) || has_sub(
                n,
                "installer"@,
            );
            let portable = ends_with(n, ".zip"@) || has_sub(n, "portable"@) || has_sub(
                n,
                "standalone"@,
            ) || (ends_with(n, ".exe"@) && !installer);
            let platform = (if has_sub(n, "win"@) || has_sub(n, "windows"@) {
                25int
            } else {
                0
            }) + (if has_sub(n, "x64"@) || has_sub(n, "amd64"@) {
                15int
            } else {
                0
            });
            &&& excluded ==> asset_rank(name, preference) == -100
            &&& (!excluded && preference == PackagePreference::Portable) ==> asset_rank(
                name,
                preference,
            ) == if !portable {
                -100
            } else {
                (if ends_with(n, ".exe"@) {
                    80int
                } else {
                    0
                }) + (if ends_with(n, ".zip"@) {
                    65int
                } else {
                    0
                }) + (if has_sub(n, "portable"@) {
                    40int
                } else {
                    0
                }) + (if has_sub(n, "standalone"@) {
                    35int
                } else {
                    0
                }) - (if installer {
                    120int
                } else {
                    0
                }) + platform
            }
            &&& (!excluded && preference == PackagePreference::Installer) ==> asset_rank(
                name,
                preference,
            ) == if !installer {
                -100
            } else {
                (if ends_with(n, ".msi"@) {
                    80int
                } else {
                    0
                }) + (if has_sub(n, "setup"@) || has_sub(n, "installer"@) {
                    70int
                } else {
                    0
                }) + (if ends_with(n, ".exe"@) {
                    45int
                } else {
                    0
                }) + platform
            }
        }),
{
}

/// A saved app laid over its catalog entry carries the saved install,
/// release and layout state, and the saved category where it is not blank;
/// the rest of the entry is the catalog's.
pub proof fn law_overlay_carries_saved_state(d: LauncherAppView, s: LauncherAppView)
    ensures
        ({
            let r = overlaid(d, s);
            &&& r.executable_path == s.executable_path
            &&& r.installed_version == s.installed_version
            &&& r.selected_version == s.selected_version
            &&& r.installed_versions == s.installed_versions
            &&& r.latest_version == s.latest_version
            &&& r.release_url == s.release_url
            &&& r.release_checked_at == s.release_checked_at
            &&& r.release_notes == s.release_notes
            &&& r.release_options == s.release_options
            &&& r.package_preference == s.package_preference
            &&& r.package_path == s.package_path
            &&& r.visible == s.visible
            &&& r.category == (if is_blank(s.category) {
                d.category
            } else {
                s.category
            })
            &&& r.id == d.id && r.name == d.name && r.repo == d.repo && r.description
                == d.description && r.accent == d.accent && r.icon == d.icon && r.demo_url
                == d.demo_url && r.status == d.status
        }),
{
}

/// The program found in an install folder is an `.exe` that scores at least
/// as high as every other `.exe` there, and higher than each one before it.
pub proof fn law_best_executable_scores_highest(
    names: Seq<Seq<char>>,
    app_id: Seq<char>,
    repo: Seq<char>,
    i: int,
)
    requires
        is_first_best(search_candidates(FileSearch::Executable, names, app_id, repo), i),
    ensures
        has_extension(names[i], "exe"@),
        forall|j: int|
            0 <= j < names.len() && has_extension(#[trigger] names[j], "exe"@) ==> executable_rank(
                names[j],
                app_id,
                repo,
            ) <= executable_rank(names[i], app_id, repo),
        forall|j: int|
            0 <= j < i && has_extension(#[trigger] names[j], "exe"@) ==> executable_rank(
                names[j],
                app_id,
                repo,
            ) < executable_rank(names[i], app_id, repo),
{
    let c = search_candidates(FileSearch::Executable, names, app_id, repo);
    assert forall|j: int| 0 <= j < names.len() && has_extension(#[trigger] names[j], "exe"@) implies executable_rank(
        names[j],
        app_id,
        repo,
    ) <= executable_rank(names[i], app_id, repo) && (j < i ==> executable_rank(names[j], app_id, repo)
        < executable_rank(names[i], app_id, repo)) by {
        assert(c[j] == Some(executable_rank(names[j], app_id, repo)));
    }
}
} // verus!
