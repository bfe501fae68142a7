//! Releases: which asset of a release to download, version comparison, and
//! the release information recorded on an app.

use vstd::prelude::*;
use crate::model::{
    AssetView, GitHubRelease, GitHubReleaseAsset, LauncherApp, LauncherAppView, PackagePreference,
    ReleaseOption, ReleaseOptionView, ReleaseView, opt_view,
};
use crate::text::{chars_of, contains_str, ends_with_str, equals_str, has_sub, ends_with, lower, lower_chars, is_blank, str_is_blank, take_chars, string_of, trim, trim_chars, strip_start, is_digit, char_is_digit, owned};

verus! {

pub open spec fn excluded_asset(n: Seq<char>) -> bool {
    ||| ends_with(n, ".blockmap"@)
    ||| ends_with(n, ".sig"@)
    ||| ends_with(n, ".sha256"@)
    ||| ends_with(n, ".sha512"@)
    ||| ends_with(n, ".dmg"@)
    ||| ends_with(n, ".appimage"@)
    ||| ends_with(n, ".deb"@)
    ||| ends_with(n, ".rpm"@)
    ||| has_sub(n, "linux"@)
    ||| has_sub(n, "mac"@)
    ||| has_sub(n, "darwin"@)
}

/// An installer: an `.msi`, or a name that says setup or installer.
pub open spec fn installer_asset(n: Seq<char>) -> bool {
    ends_with(n, ".msi"@) || has_sub(n, "setup"@) || has_sub(n, "installer"@)
}

/// A portable download: a zip, a name that says portable or standalone, or
/// an `.exe` that is no installer.
pub open spec fn portable_asset(n: Seq<char>) -> bool {
    ||| ends_with(n, ".zip"@)
    ||| has_sub(n, "portable"@)
    ||| has_sub(n, "standalone"@)
    ||| (ends_with(n, ".exe"@) && !installer_asset(n))
}

pub open spec fn bonus(b: bool, points: int) -> int {
    if b {
        points
    } else {
        0
    }
}

pub open spec fn platform_bonus(n: Seq<char>) -> int {
    bonus(has_sub(n, "win"@) || has_sub(n, "windows"@), 25) + bonus(
        has_sub(n, "x64"@) || has_sub(n, "amd64"@),
        15,
    )
}

/// How well an asset name fits the preferred package kind; -100 rules it out.
pub open spec fn asset_rank(name: Seq<char>, preference: PackagePreference) -> int {
    let n = lower(name);
    if excluded_asset(n) {
        -100
    } else {
        match preference {
            PackagePreference::Portable => if !portable_asset(n) {
                -100
            } else {
                bonus(ends_with(n, ".exe"@), 80) + bonus(ends_with(n, ".zip"@), 65) + bonus(
                    has_sub(n, "portable"@),
                    40,
                ) + bonus(has_sub(n, "standalone"@), 35) - bonus(installer_asset(n), 120)
                    + platform_bonus(n)
            },
            PackagePreference::Installer => if !installer_asset(n) {
                -100
            } else {
                bonus(ends_with(n, ".msi"@), 80) + bonus(
                    has_sub(n, "setup"@) || has_sub(n, "installer"@),
                    70,
                ) + bonus(ends_with(n, ".exe"@), 45) + platform_bonus(n)
            },
        }
    }
}

/// How well an asset fits as the launcher's own portable update.
pub open spec fn update_asset_rank(name: Seq<char>) -> int {
    let n = lower(name);
    if has_sub(n, "updater"@) || has_sub(n, "uninstall"@) {
        -100
    } else {
        let base = asset_rank(name, PackagePreference::Portable);
        if base <= 0 {
            base
        } else {
            base + bonus(n == "neko-legends-control-center-portable.exe"@, 140) + bonus(
                has_sub(n, "control"@) || has_sub(n, "nekolegends"@) || has_sub(n, "neko-legends"@),
                50,
            ) + bonus(has_sub(n, "portable"@), 50) + bonus(ends_with(n, ".exe"@), 25) - bonus(
                installer_asset(n),
                200,
            )
        }
    }
}

pub fn is_installer_asset_name(name: &str) -> (r: bool)
    ensures
        r == installer_asset(name@),
{
    let n = chars_of(name);
    ends_with_str(&n, ".msi") || contains_str(&n, "setup") || contains_str(&n, "installer")
}

pub fn is_portable_asset_name(name: &str) -> (r: bool)
    ensures
        r == portable_asset(name@),
{
    let n = chars_of(name);
    ends_with_str(&n, ".zip") || contains_str(&n, "portable") || contains_str(&n, "standalone") || (
    ends_with_str(&n, ".exe") && !is_installer_asset_name(name))
}

fn is_excluded_asset(n: &Vec<char>) -> (r: bool)
    ensures
        r == excluded_asset(n@),
{
    ends_with_str(n, ".blockmap") || ends_with_str(n, ".sig") || ends_with_str(n, ".sha256")
        || ends_with_str(n, ".sha512") || ends_with_str(n, ".dmg") || ends_with_str(n, ".appimage")
        || ends_with_str(n, ".deb") || ends_with_str(n, ".rpm") || contains_str(n, "linux")
        || contains_str(n, "mac") || contains_str(n, "darwin")
}

fn platform_points(n: &Vec<char>) -> (r: i32)
    ensures
        r == platform_bonus(n@),
{
    let mut score: i32 = 0;
    if contains_str(n, "win") || contains_str(n, "windows") {
        score = score + 25;
    }
    if contains_str(n, "x64") || contains_str(n, "amd64") {
        score = score + 15;
    }
    score
}

pub fn release_asset_score(asset: &GitHubReleaseAsset, package_preference: &PackagePreference) -> (r:
    i32)
    ensures
        r == asset_rank(asset.name@, *package_preference),
{
    let raw = chars_of(asset.name.as_str());
    let n = lower_chars(&raw);
    if is_excluded_asset(&n) {
        return -100;
    }
    let name = string_of(&n);
    let mut score: i32 = 0;
    match package_preference {
        PackagePreference::Portable => {
            if !is_portable_asset_name(name.as_str()) {
                return -100;
            }
            if ends_with_str(&n, ".exe") {
                score = score + 80;
            }
            if ends_with_str(&n, ".zip") {
                score = score + 65;
            }
            if contains_str(&n, "portable") {
                score = score + 40;
            }
            if contains_str(&n, "standalone") {
                score = score + 35;
            }
            if is_installer_asset_name(name.as_str()) {
                score = score - 120;
            }
        },
        PackagePreference::Installer => {
            if !is_installer_asset_name(name.as_str()) {
                return -100;
            }
            if ends_with_str(&n, ".msi") {
                score = score + 80;
            }
            if contains_str(&n, "setup") || contains_str(&n, "installer") {
                score = score + 70;
            }
            if ends_with_str(&n, ".exe") {
                score = score + 45;
            }
        },
    }
    score + platform_points(&n)
}

pub fn control_center_asset_score(asset: &GitHubReleaseAsset) -> (r: i32)
    ensures
        r == update_asset_rank(asset.name@),
{
    let raw = chars_of(asset.name.as_str());
    let n = lower_chars(&raw);
    if contains_str(&n, "updater") || contains_str(&n, "uninstall") {
        return -100;
    }
    let base_score = release_asset_score(asset, &PackagePreference::Portable);
    if base_score <= 0 {
        return base_score;
    }
    let name = string_of(&n);
    let mut score: i32 = base_score;
    if equals_str(&n, "neko-legends-control-center-portable.exe") {
        score = score + 140;
    }
    if contains_str(&n, "control") || contains_str(&n, "nekolegends") || contains_str(
        &n,
        "neko-legends",
    ) {
        score = score + 50;
    }
    if contains_str(&n, "portable") {
        score = score + 50;
    }
    if ends_with_str(&n, ".exe") {
        score = score + 25;
    }
    if is_installer_asset_name(name.as_str()) {
        score = score - 200;
    }
    score
}

/// `i` holds the highest score of all candidates and no later candidate
/// reaches it: the element `Iterator::max_by_key` returns.
pub open spec fn is_last_best(scores: Seq<Option<int>>, i: int) -> bool {
    &&& 0 <= i < scores.len()
    &&& scores[i] is Some
    &&& forall|j: int| 0 <= j < scores.len() && scores[j] is Some ==> scores[j]->0 <= scores[i]->0
    &&& forall|j: int| i < j < scores.len() && scores[j] is Some ==> scores[j]->0 < scores[i]->0
}

/// The assets with a download link, each with its rank.
pub open spec fn asset_candidates(
    assets: Seq<AssetView>,
    rank: spec_fn(Seq<char>) -> int,
) -> Seq<Option<int>> {
    assets.map_values(
        |a: AssetView|
            if is_blank(a.browser_download_url) {
                None
            } else {
                Some(rank(a.name))
            },
    )
}

/// The best asset of a release: the last of the best-ranked assets with a
/// download link, where its rank is positive.
pub open spec fn chooses_best(scores: Seq<Option<int>>, r: Option<usize>) -> bool {
    match r {
        Some(i) => is_last_best(scores, i as int) && scores[i as int]->0 > 0,
        None => forall|j: int| 0 <= j < scores.len() && scores[j] is Some ==> scores[j]->0 <= 0,
    }
}

fn last_best_positive(scores: &Vec<Option<i32>>, sv: Ghost<Seq<Option<int>>>) -> (r: Option<usize>)
    requires
        sv@.len() == scores.len(),
        forall|j: int|
            0 <= j < scores.len() ==> sv@[j] == match scores@[j] {
                Some(v) => Some(v as int),
                None => None::<int>,
            },
    ensures
        chooses_best(sv@, r),
{
    let mut best: Option<usize> = None;
    let mut i: usize = 0;
    while i < scores.len()
        invariant
            i <= scores.len(),
            sv@.len() == scores.len(),
            forall|j: int|
                0 <= j < scores.len() ==> sv@[j] == match scores@[j] {
                    Some(v) => Some(v as int),
                    None => None::<int>,
                },
            match best {
                Some(b) => is_last_best(sv@.subrange(0, i as int), b as int) && b < i,
                None => forall|j: int| 0 <= j < i ==> sv@[j] is None,
            },
        decreases scores.len() - i,
    {
        let ghost before = sv@.subrange(0, i as int);
        let ghost after = sv@.subrange(0, i + 1);
        assert(forall|j: int| 0 <= j < i ==> after[j] == before[j]);
        match scores[i] {
            Some(s) => {
                let replace = match best {
                    Some(b) => match scores[b] {
                        Some(bs) => s >= bs,
                        None => true,
                    },
                    None => true,
                };
                if replace {
                    best = Some(i);
                }
            },
            None => {},
        }
        i = i + 1;
    }
    assert(sv@.subrange(0, sv@.len() as int) =~= sv@);
    match best {
        Some(b) => match scores[b] {
            Some(v) => if v > 0 {
                Some(b)
            } else {
                None
            },
            None => None,
        },
        None => None,
    }
}

pub open spec fn release_asset_rank(preference: PackagePreference) -> spec_fn(Seq<char>) -> int {
    |name: Seq<char>| asset_rank(name, preference)
}

pub open spec fn control_center_asset_rank() -> spec_fn(Seq<char>) -> int {
    |name: Seq<char>| update_asset_rank(name)
}

/// The index of the asset to download for the preferred package kind.
pub fn best_release_asset(release: &GitHubRelease, package_preference: &PackagePreference) -> (r:
    Option<usize>)
    ensures
        chooses_best(
            asset_candidates(release.assets.deep_view(), release_asset_rank(*package_preference)),
            r,
        ),
{
    let ghost sv = asset_candidates(
        release.assets.deep_view(),
        release_asset_rank(*package_preference),
    );
    let mut scores: Vec<Option<i32>> = Vec::new();
    let mut i: usize = 0;
    while i < release.assets.len()
        invariant
            i <= release.assets.len(),
            sv == asset_candidates(
                release.assets.deep_view(),
                release_asset_rank(*package_preference),
            ),
            scores.len() == i,
            forall|j: int|
                0 <= j < i ==> sv[j] == match scores@[j] {
                    Some(v) => Some(v as int),
                    None => None::<int>,
                },
        decreases release.assets.len() - i,
    {
        let asset = &release.assets[i];
        if str_is_blank(asset.browser_download_url.as_str()) {
            scores.push(None);
        } else {
            scores.push(Some(release_asset_score(asset, package_preference)));
        }
        i = i + 1;
    }
    last_best_positive(&scores, Ghost(sv))
}

/// The index of the asset that updates the launcher itself.
pub fn best_control_center_asset(release: &GitHubRelease) -> (r: Option<usize>)
    ensures
        chooses_best(
            asset_candidates(release.assets.deep_view(), control_center_asset_rank()),
            r,
        ),
{
    let ghost sv = asset_candidates(release.assets.deep_view(), control_center_asset_rank());
    let mut scores: Vec<Option<i32>> = Vec::new();
    let mut i: usize = 0;
    while i < release.assets.len()
        invariant
            i <= release.assets.len(),
            sv == asset_candidates(release.assets.deep_view(), control_center_asset_rank()),
            scores.len() == i,
            forall|j: int|
                0 <= j < i ==> sv[j] == match scores@[j] {
                    Some(v) => Some(v as int),
                    None => None::<int>,
                },
        decreases release.assets.len() - i,
    {
        let asset = &release.assets[i];
        if str_is_blank(asset.browser_download_url.as_str()) {
            scores.push(None);
        } else {
            scores.push(Some(control_center_asset_score(asset)));
        }
        i = i + 1;
    }
    last_best_positive(&scores, Ghost(sv))
}

pub open spec fn digit_value(c: char) -> nat {
    ((c as u32) - 0x30) as nat
}

/// The number a run of decimal digits spells.
pub open spec fn run_value(r: Seq<char>) -> nat
    decreases r.len(),
{
    if r.len() == 0 {
        0
    } else {
        run_value(r.drop_last()) * 10 + digit_value(r.last())
    }
}

/// `str::parse::<u32>` of a run of digits, with 0 where it overflows.
pub open spec fn parsed_part(r: Seq<char>) -> u32 {
    if run_value(r) <= u32::MAX {
        run_value(r) as u32
    } else {
        0
    }
}

/// The maximal runs of ASCII digits in `s`, in order.
pub open spec fn digit_runs(s: Seq<char>) -> Seq<Seq<char>>
    decreases s.len(),
{
    if s.len() == 0 {
        seq![]
    } else {
        let p = digit_runs(s.drop_last());
        let c = s.last();
        if !is_digit(c) {
            p
        } else if s.len() >= 2 && is_digit(s[s.len() - 2]) {
            p.update(p.len() - 1, p.last().push(c))
        } else {
            p.push(seq![c])
        }
    }
}

/// The numeric parts of a version string: it is trimmed, leading `v`s are
/// dropped, and each run of digits is one part.
pub open spec fn version_numbers(version: Seq<char>) -> Seq<u32> {
    digit_runs(strip_start(trim(version), |c: char| c == 'v')).map_values(
        |r: Seq<char>| parsed_part(r),
    )
}

/// The part at index `i`, where a missing part counts as 0.
pub open spec fn part_at(p: Seq<u32>, i: int) -> int {
    if 0 <= i < p.len() {
        p[i] as int
    } else {
        0
    }
}

pub open spec fn max_len(a: Seq<u32>, b: Seq<u32>) -> int {
    if a.len() >= b.len() {
        a.len() as int
    } else {
        b.len() as int
    }
}

/// `a` is ahead of `b` at the first part where they differ.
pub open spec fn numbers_newer(a: Seq<u32>, b: Seq<u32>) -> bool {
    exists|k: int|
        0 <= k < max_len(a, b) && part_at(a, k) > part_at(b, k) && forall|j: int|
            0 <= j < k ==> part_at(a, j) == part_at(b, j)
}

pub open spec fn version_newer(latest: Seq<char>, current: Seq<char>) -> bool {
    numbers_newer(version_numbers(latest), version_numbers(current))
}

proof fn lemma_digit_runs_nonempty(s: Seq<char>)
    requires
        s.len() > 0,
        is_digit(s.last()),
    ensures
        digit_runs(s).len() > 0,
    decreases s.len(),
{
    if s.len() >= 2 && is_digit(s[s.len() - 2]) {
        assert(s.drop_last().last() == s[s.len() - 2]);
        lemma_digit_runs_nonempty(s.drop_last());
    }
}

pub open spec fn parts_of(runs: Seq<Seq<char>>) -> Seq<u32> {
    runs.map_values(|r: Seq<char>| parsed_part(r))
}

/// The numeric parts of a version string.
pub fn version_parts(version: &str) -> (r: Vec<u32>)
    ensures
        r@ == version_numbers(version@),
{
    let raw = chars_of(version);
    let trimmed = trim_chars(&raw);
    let mut start: usize = 0;
    let ghost strip = |c: char| c == 'v';
    assert(trimmed@.subrange(0, trimmed.len() as int) =~= trimmed@);
    while start < trimmed.len() && trimmed[start] == 'v'
        invariant
            start <= trimmed.len(),
            strip == (|c: char| c == 'v'),
            strip_start(trimmed@, strip) == strip_start(
                trimmed@.subrange(start as int, trimmed.len() as int),
                strip,
            ),
        decreases trimmed.len() - start,
    {
        assert(strip(trimmed@[start as int]));
        assert(trimmed@.subrange(start as int, trimmed.len() as int).drop_first()
            =~= trimmed@.subrange(start + 1, trimmed.len() as int));
        start = start + 1;
    }
    let ghost s = trimmed@.subrange(start as int, trimmed.len() as int);
    assert(strip_start(trimmed@, strip) == s);
    let mut parts: Vec<u32> = Vec::new();
    let mut current: u64 = 0;
    let mut overflowed: bool = false;
    let mut i: usize = start;
    while i < trimmed.len()
        invariant
            start <= i <= trimmed.len(),
            s == trimmed@.subrange(start as int, trimmed.len() as int),
            parts@ == parts_of(digit_runs(s.subrange(0, i - start))),
            current <= u32::MAX,
            i > start && is_digit(trimmed@[i - 1]) ==> {
                let runs = digit_runs(s.subrange(0, i - start));
                &&& runs.len() > 0
                &&& overflowed == (run_value(runs.last()) > u32::MAX)
                &&& !overflowed ==> current == run_value(runs.last())
            },
        decreases trimmed.len() - i,
    {
        let ghost prefix = s.subrange(0, i - start);
        let ghost next = s.subrange(0, i + 1 - start);
        assert(next.drop_last() =~= prefix);
        assert(next.last() == trimmed@[i as int]);
        let c = trimmed[i];
        if char_is_digit(c) {
            let d: u64 = ((c as u32) - 0x30) as u64;
            if i > start && char_is_digit(trimmed[i - 1]) {
                assert(next[next.len() - 2] == trimmed@[i - 1]);
                let ghost runs = digit_runs(prefix);
                let ghost last_run = runs.last();
                assert(run_value(last_run.push(c)) == run_value(last_run) * 10 + digit_value(c)) by {
                    assert(last_run.push(c).drop_last() =~= last_run);
                }
                if overflowed || current * 10 + d > 0xffff_ffff {
                    overflowed = true;
                    current = 0;
                } else {
                    current = current * 10 + d;
                }
                let idx = parts.len() - 1;
                let value: u32 = if overflowed {
                    0
                } else {
                    current as u32
                };
                parts.set(idx, value);
                assert(parts@ =~= parts_of(digit_runs(next)));
            } else {
                current = d;
                overflowed = false;
                parts.push(d as u32);
                assert(run_value(seq![c]) == digit_value(c)) by {
                    assert(seq![c].drop_last() =~= Seq::<char>::empty());
                    assert(run_value(Seq::<char>::empty()) == 0);
                }
                assert(parts@ =~= parts_of(digit_runs(next)));
            }
        } else {
            assert(digit_runs(next) == digit_runs(prefix));
        }
        i = i + 1;
    }
    assert(s.subrange(0, trimmed.len() - start) =~= s);
    parts
}

/// Whether `latest` names a newer version than `current`.
pub fn is_newer_version(latest: &str, current: &str) -> (r: bool)
    ensures
        r == version_newer(latest@, current@),
{
    let latest_parts = version_parts(latest);
    let current_parts = version_parts(current);
    let mut max: usize = if latest_parts.len() >= current_parts.len() {
        latest_parts.len()
    } else {
        current_parts.len()
    };
    if max < 1 {
        max = 1;
    }
    let ghost a = latest_parts@;
    let ghost b = current_parts@;
    let mut index: usize = 0;
    while index < max
        invariant
            a == latest_parts@,
            b == current_parts@,
            a == version_numbers(latest@),
            b == version_numbers(current@),
            max >= max_len(a, b),
            index <= max,
            forall|j: int| 0 <= j < index ==> part_at(a, j) == part_at(b, j),
        decreases max - index,
    {
        let latest_part: u32 = if index < latest_parts.len() {
            latest_parts[index]
        } else {
            0
        };
        let current_part: u32 = if index < current_parts.len() {
            current_parts[index]
        } else {
            0
        };
        assert(part_at(a, index as int) == latest_part as int);
        assert(part_at(b, index as int) == current_part as int);
        if latest_part > current_part {
            proof {
                lemma_newer_at(a, b, index as int);
            }
            return true;
        }
        if latest_part < current_part {
            proof {
                lemma_not_newer_at(a, b, index as int);
            }
            return false;
        }
        index = index + 1;
    }
    proof {
        lemma_not_newer_equal(a, b);
    }
    false
}

proof fn lemma_newer_at(a: Seq<u32>, b: Seq<u32>, k: int)
    requires
        0 <= k,
        part_at(a, k) > part_at(b, k),
        forall|j: int| 0 <= j < k ==> part_at(a, j) == part_at(b, j),
    ensures
        numbers_newer(a, b),
{
    assert(k < max_len(a, b));
}

proof fn lemma_not_newer_at(a: Seq<u32>, b: Seq<u32>, k: int)
    requires
        0 <= k,
        part_at(a, k) < part_at(b, k),
        forall|j: int| 0 <= j < k ==> part_at(a, j) == part_at(b, j),
    ensures
        !numbers_newer(a, b),
{
    if numbers_newer(a, b) {
        let m = choose|m: int|
            0 <= m < max_len(a, b) && part_at(a, m) > part_at(b, m) && forall|j: int|
                0 <= j < m ==> part_at(a, j) == part_at(b, j);
        if m < k {
            assert(part_at(a, m) == part_at(b, m));
        } else if m > k {
            assert(part_at(a, k) == part_at(b, k));
        }
    }
}

proof fn lemma_not_newer_equal(a: Seq<u32>, b: Seq<u32>)
    requires
        forall|j: int| 0 <= j < max_len(a, b) ==> part_at(a, j) == part_at(b, j),
    ensures
        !numbers_newer(a, b),
{
    if numbers_newer(a, b) {
        let m = choose|m: int|
            0 <= m < max_len(a, b) && part_at(a, m) > part_at(b, m) && forall|j: int|
                0 <= j < m ==> part_at(a, j) == part_at(b, j);
        assert(part_at(a, m) == part_at(b, m));
    }
}

/// At most the first 240 characters of a release body.
pub open spec fn notes_of(body: Option<Seq<char>>) -> Option<Seq<char>> {
    match body {
        Some(b) => Some(b.take(if b.len() < 240 {
            b.len() as int
        } else {
            240
        })),
        None => None,
    }
}

pub open spec fn with_release_metadata(
    a: LauncherAppView,
    release: ReleaseView,
    checked_at: Seq<char>,
) -> LauncherAppView {
    LauncherAppView {
        latest_version: Some(release.tag_name),
        release_url: Some(release.html_url),
        release_notes: notes_of(release.body),
        release_checked_at: Some(checked_at),
        ..a
    }
}

pub open spec fn option_of(release: ReleaseView) -> ReleaseOptionView {
    ReleaseOptionView { tag_name: release.tag_name, html_url: release.html_url }
}

pub fn release_notes_excerpt(body: &Option<String>) -> (r: Option<String>)
    ensures
        opt_view(r) == notes_of(opt_view(*body)),
{
    match body {
        Some(b) => {
            let v = chars_of(b.as_str());
            let t = take_chars(&v, 240);
            Some(string_of(&t))
        },
        None => None,
    }
}

pub fn apply_release_metadata(launcher_app: &mut LauncherApp, release: &GitHubRelease, checked_at: &str)
    ensures
        final(launcher_app)@ == with_release_metadata(old(launcher_app)@, release@, checked_at@),
{
    launcher_app.latest_version = Some(release.tag_name.clone());
    launcher_app.release_url = Some(release.html_url.clone());
    launcher_app.release_notes = release_notes_excerpt(&release.body);
    launcher_app.release_checked_at = Some(owned(checked_at));
}

pub fn release_options(releases: &Vec<GitHubRelease>) -> (r: Vec<ReleaseOption>)
    ensures
        r.deep_view() == releases.deep_view().map_values(|rv: ReleaseView| option_of(rv)),
{
    let mut r: Vec<ReleaseOption> = Vec::new();
    let mut i: usize = 0;
    while i < releases.len()
        invariant
            i <= releases.len(),
            r.deep_view() == releases.deep_view().subrange(0, i as int).map_values(
                |rv: ReleaseView| option_of(rv),
            ),
        decreases releases.len() - i,
    {
        r.push(
            ReleaseOption {
                tag_name: releases[i].tag_name.clone(),
                html_url: releases[i].html_url.clone(),
            },
        );
        proof {
            let rs = releases.deep_view();
            assert(rs.subrange(0, i + 1) =~= rs.subrange(0, i as int).push(rs[i as int]));
            assert(rs.subrange(0, i as int).push(rs[i as int]).map_values(
                |rv: ReleaseView| option_of(rv),
            ) =~= rs.subrange(0, i as int).map_values(|rv: ReleaseView| option_of(rv)).push(
                option_of(rs[i as int]),
            ));
            assert(r.deep_view() =~= rs.subrange(0, i as int).map_values(
                |rv: ReleaseView| option_of(rv),
            ).push(option_of(rs[i as int])));
        }
        i = i + 1;
    }
    assert(releases.deep_view().subrange(0, i as int) =~= releases.deep_view());
    r
}

} // verus!
