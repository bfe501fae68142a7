//! The tools catalog: development status, the built-in entries, and the
//! cleaning that a downloaded catalog goes through before it is used.

use vstd::prelude::*;
use crate::model::{
    clone_apps, clone_opt, opt_view, InstalledVersionView, LauncherApp, LauncherAppView, PackagePreference,
    ReleaseOptionView, ToolStatus, ToolsCatalog, ToolsCatalogView,
};
use crate::settings::{default_category, released_category, under_development, under_development_category};
use crate::text::{
    chars_of, eq_ignore_case, owned, str_eq_ignore_case, trim, trim_chars, string_of, lower, upper,
    lower_chars, upper_chars, is_alnum, char_is_alnum, is_hex_digit, char_is_hex_digit, strip_ends,
    strip_chars, starts_with, starts_with_str, has_sub, contains_str, slice_chars, take_chars,
};
use crate::install::{app_index, find_app_index};

verus! {

/// Whether a category names the "Under Development" group, ignoring case
/// and surrounding white space.
pub open spec fn is_development_category(category: Seq<char>) -> bool {
    eq_ignore_case(trim(category), under_development_category())
}

pub open spec fn coming_soon(a: LauncherAppView) -> bool {
    a.status == ToolStatus::ComingSoon || is_development_category(a.category)
}

/// An entry moved to the "Under Development" group where it is coming soon.
pub open spec fn development_normalized(a: LauncherAppView) -> LauncherAppView {
    if coming_soon(a) {
        LauncherAppView {
            status: ToolStatus::ComingSoon,
            category: under_development_category(),
            ..a
        }
    } else {
        a
    }
}

pub open spec fn coming_soon_note() -> Seq<char> {
    "Coming soon."@
}

/// An entry whose release information is replaced by the coming-soon note.
pub open spec fn release_state_cleared(a: LauncherAppView) -> LauncherAppView {
    LauncherAppView {
        latest_version: None,
        release_url: None,
        release_checked_at: None,
        release_notes: Some(coming_soon_note()),
        release_options: Seq::empty(),
        ..a
    }
}

pub fn is_under_development_category(category: &str) -> (r: bool)
    ensures
        r == is_development_category(category@),
{
    let v = chars_of(category);
    let t = trim_chars(&v);
    let ts = string_of(&t);
    str_eq_ignore_case(ts.as_str(), "Under Development")
}

pub fn is_coming_soon_app(launcher_app: &LauncherApp) -> (r: bool)
    ensures
        r == coming_soon(launcher_app@),
{
    launcher_app.status == ToolStatus::ComingSoon || is_under_development_category(
        launcher_app.category.as_str(),
    )
}

pub fn normalize_development_status(launcher_app: &mut LauncherApp)
    ensures
        final(launcher_app)@ == development_normalized(old(launcher_app)@),
{
    if is_coming_soon_app(launcher_app) {
        launcher_app.status = ToolStatus::ComingSoon;
        launcher_app.category = under_development();
    }
}

pub fn clear_coming_soon_release_state(launcher_app: &mut LauncherApp)
    ensures
        final(launcher_app)@ == release_state_cleared(old(launcher_app)@),
{
    launcher_app.latest_version = None;
    launcher_app.release_url = None;
    launcher_app.release_checked_at = None;
    launcher_app.release_notes = Some(owned("Coming soon."));
    launcher_app.release_options = Vec::new();
    assert(launcher_app.release_options.deep_view() =~= Seq::<crate::model::ReleaseOptionView>::empty());
}

pub open spec fn id_char(c: char) -> bool {
    is_alnum(c) || c == '-' || c == '_'
}

pub open spec fn repo_char(c: char) -> bool {
    is_alnum(c) || c == '-' || c == '_' || c == '.'
}

pub open spec fn all_chars(s: Seq<char>, ok: spec_fn(char) -> bool) -> bool {
    forall|i: int| 0 <= i < s.len() ==> ok(s[i])
}

/// A catalog id: trimmed and lower-cased, non-empty, of letters, digits,
/// `-` and `_` only.
pub open spec fn catalog_id(value: Seq<char>) -> Option<Seq<char>> {
    let v = lower(trim(value));
    if v.len() == 0 || !all_chars(v, |c: char| id_char(c)) {
        None
    } else {
        Some(v)
    }
}

pub open spec fn owner_prefix() -> Seq<char> {
    "neko-legends/"@
}

/// A repository name of the tools' owner: trimmed, slashes stripped, the
/// owner prefix dropped; non-empty, no path separator or `..`, of letters,
/// digits, `-`, `_` and `.` only.
pub open spec fn catalog_repo(value: Seq<char>) -> Option<Seq<char>> {
    let t = strip_ends(trim(value), |c: char| c == '/');
    let r0 = if starts_with(t, owner_prefix()) {
        t.subrange(owner_prefix().len() as int, t.len() as int)
    } else {
        t
    };
    let r = trim(r0);
    if r.len() == 0 || has_sub(r, "/"@) || has_sub(r, "\\"@) || has_sub(r, ".."@) || !all_chars(
        r,
        |c: char| repo_char(c),
    ) {
        None
    } else {
        Some(r)
    }
}

/// An optional address kept, trimmed, only where it is `https://`.
pub open spec fn https_url(value: Option<Seq<char>>) -> Option<Seq<char>> {
    match value {
        Some(u) => if starts_with(trim(u), "https://"@) {
            Some(trim(u))
        } else {
            None
        },
        None => None,
    }
}

/// A `#rrggbb` color, trimmed, else the fallback.
pub open spec fn hex_color(value: Seq<char>, fallback: Seq<char>) -> Seq<char> {
    let v = trim(value);
    if v.len() == 7 && v[0] == '#' && all_chars(v.drop_first(), |c: char| is_hex_digit(c)) {
        v
    } else {
        fallback
    }
}

pub open spec fn category_or_default(value: Seq<char>) -> Seq<char> {
    if trim(value).len() == 0 {
        released_category()
    } else {
        trim(value)
    }
}

pub open spec fn first_chars(s: Seq<char>, n: int) -> Seq<char> {
    s.take(if s.len() < n {
        s.len() as int
    } else {
        n
    })
}

/// The icon label: the first four characters of the trimmed icon, else the
/// first two letters or digits of the name, upper-cased.
pub open spec fn icon_label(icon: Seq<char>, name: Seq<char>) -> Seq<char> {
    let i0 = first_chars(trim(icon), 4);
    if i0.len() == 0 {
        upper(first_chars(name.filter(|c: char| is_alnum(c)), 2))
    } else {
        i0
    }
}

/// A catalog entry as the launcher accepts it from a downloaded catalog: its
/// id and repository cleaned (or the entry refused), its texts trimmed and
/// given defaults, its development status settled, and nothing of an install
/// or of releases kept.
pub open spec fn cleaned_tool(a: LauncherAppView) -> Option<LauncherAppView> {
    match catalog_id(a.id) {
        None => None,
        Some(id) => match catalog_repo(a.repo) {
            None => None,
            Some(repo) => {
                let name = if trim(a.name).len() == 0 {
                    repo
                } else {
                    trim(a.name)
                };
                let description = if trim(a.description).len() == 0 {
                    "Neko Legends tool."@
                } else {
                    trim(a.description)
                };
                let b = LauncherAppView {
                    id,
                    repo,
                    name,
                    description,
                    accent: hex_color(a.accent, "#ff6a00"@),
                    icon: icon_label(a.icon, name),
                    category: category_or_default(a.category),
                    ..a
                };
                let n = development_normalized(b);
                Some(
                    LauncherAppView {
                        demo_url: https_url(n.demo_url),
                        executable_path: None,
                        installed_version: None,
                        selected_version: None,
                        installed_versions: Seq::empty(),
                        latest_version: None,
                        release_url: None,
                        release_checked_at: None,
                        release_notes: None,
                        release_options: Seq::empty(),
                        package_path: None,
                        ..n
                    },
                )
            },
        },
    }
}

fn all_id_chars(v: &Vec<char>) -> (r: bool)
    ensures
        r == all_chars(v@, |c: char| id_char(c)),
{
    let mut i: usize = 0;
    while i < v.len()
        invariant
            i <= v.len(),
            forall|j: int| 0 <= j < i ==> id_char(v@[j]),
        decreases v.len() - i,
    {
        let c = v[i];
        if !(char_is_alnum(c) || c == '-' || c == '_') {
            return false;
        }
        i = i + 1;
    }
    true
}

fn all_repo_chars(v: &Vec<char>) -> (r: bool)
    ensures
        r == all_chars(v@, |c: char| repo_char(c)),
{
    let mut i: usize = 0;
    while i < v.len()
        invariant
            i <= v.len(),
            forall|j: int| 0 <= j < i ==> repo_char(v@[j]),
        decreases v.len() - i,
    {
        let c = v[i];
        if !(char_is_alnum(c) || c == '-' || c == '_' || c == '.') {
            return false;
        }
        i = i + 1;
    }
    true
}

pub fn clean_catalog_id(value: &str) -> (r: Option<String>)
    ensures
        opt_view(r) == catalog_id(value@),
{
    let raw = chars_of(value);
    let t = trim_chars(&raw);
    let v = lower_chars(&t);
    if v.len() == 0 || !all_id_chars(&v) {
        return None;
    }
    Some(string_of(&v))
}

pub fn clean_catalog_repo(value: &str) -> (r: Option<String>)
    ensures
        opt_view(r) == catalog_repo(value@),
{
    let raw = chars_of(value);
    let trimmed = trim_chars(&raw);
    let t = strip_chars(&trimmed, '/', '/');
    assert((|c: char| c == '/' || c == '/') =~= (|c: char| c == '/'));
    let r0 = if starts_with_str(&t, "neko-legends/") {
        proof {
            reveal_strlit("neko-legends/");
        }
        slice_chars(&t, 13, t.len())
    } else {
        slice_chars(&t, 0, t.len())
    };
    assert(t@.subrange(0, t@.len() as int) =~= t@);
    let r = trim_chars(&r0);
    if r.len() == 0 || contains_str(&r, "/") || contains_str(&r, "\\") || contains_str(&r, "..")
        || !all_repo_chars(&r) {
        return None;
    }
    Some(string_of(&r))
}

pub fn clean_optional_https_url(value: Option<String>) -> (r: Option<String>)
    ensures
        opt_view(r) == https_url(opt_view(value)),
{
    match value {
        Some(url) => {
            let raw = chars_of(url.as_str());
            let t = trim_chars(&raw);
            if starts_with_str(&t, "https://") {
                Some(string_of(&t))
            } else {
                None
            }
        },
        None => None,
    }
}

pub fn clean_hex_color(value: &str, fallback: &str) -> (r: String)
    ensures
        r@ == hex_color(value@, fallback@),
{
    let raw = chars_of(value);
    let v = trim_chars(&raw);
    if v.len() == 7 && v[0] == '#' {
        let mut i: usize = 1;
        while i < v.len()
            invariant
                1 <= i <= v.len(),
                v.len() == 7,
                v@ == trim(value@),
                v@[0] == '#',
                forall|j: int| 1 <= j < i ==> is_hex_digit(v@[j]),
            decreases v.len() - i,
        {
            if !char_is_hex_digit(v[i]) {
                assert(!is_hex_digit(v@.drop_first()[i - 1]));
                return owned(fallback);
            }
            i = i + 1;
        }
        assert(all_chars(v@.drop_first(), |c: char| is_hex_digit(c))) by {
            assert forall|j: int| 0 <= j < v@.drop_first().len() implies is_hex_digit(
                v@.drop_first()[j],
            ) by {
                assert(v@.drop_first()[j] == v@[j + 1]);
            }
        }
        string_of(&v)
    } else {
        owned(fallback)
    }
}

pub fn default_category_if_empty(value: &str) -> (r: String)
    ensures
        r@ == category_or_default(value@),
{
    let raw = chars_of(value);
    let t = trim_chars(&raw);
    if t.len() == 0 {
        default_category()
    } else {
        string_of(&t)
    }
}

fn alnum_prefix(v: &Vec<char>, n: usize) -> (r: Vec<char>)
    ensures
        r@ == first_chars(v@.filter(|c: char| is_alnum(c)), n as int),
{
    let ghost keep = |c: char| is_alnum(c);
    let mut all: Vec<char> = Vec::new();
    let mut i: usize = 0;
    while i < v.len()
        invariant
            i <= v.len(),
            keep == (|c: char| is_alnum(c)),
            all@ == v@.subrange(0, i as int).filter(keep),
        decreases v.len() - i,
    {
        proof {
            v@.subrange(0, i as int).lemma_filter_push(v@[i as int], keep);
            assert(v@.subrange(0, i + 1) =~= v@.subrange(0, i as int).push(v@[i as int]));
        }
        if char_is_alnum(v[i]) {
            all.push(v[i]);
        }
        i = i + 1;
    }
    assert(v@.subrange(0, v.len() as int) =~= v@);
    take_chars(&all, n)
}

pub fn clean_catalog_tool(launcher_app: LauncherApp) -> (r: Option<LauncherApp>)
    ensures
        match r {
            Some(t) => cleaned_tool(launcher_app@) == Some(t@),
            None => cleaned_tool(launcher_app@) is None,
        },
{
    let mut launcher_app = launcher_app;
    let ghost a = launcher_app@;
    launcher_app.id = match clean_catalog_id(launcher_app.id.as_str()) {
        Some(id) => id,
        None => {
            return None;
        },
    };
    launcher_app.repo = match clean_catalog_repo(launcher_app.repo.as_str()) {
        Some(repo) => repo,
        None => {
            return None;
        },
    };
    let name_raw = chars_of(launcher_app.name.as_str());
    let name = trim_chars(&name_raw);
    launcher_app.name = if name.len() == 0 {
        launcher_app.repo.clone()
    } else {
        string_of(&name)
    };
    let desc_raw = chars_of(launcher_app.description.as_str());
    let desc = trim_chars(&desc_raw);
    launcher_app.description = if desc.len() == 0 {
        owned("Neko Legends tool.")
    } else {
        string_of(&desc)
    };
    launcher_app.accent = clean_hex_color(launcher_app.accent.as_str(), "#ff6a00");
    let icon_raw = chars_of(launcher_app.icon.as_str());
    let icon_trimmed = trim_chars(&icon_raw);
    let icon = take_chars(&icon_trimmed, 4);
    launcher_app.icon = if icon.len() == 0 {
        let name_chars = chars_of(launcher_app.name.as_str());
        let letters = alnum_prefix(&name_chars, 2);
        let up = upper_chars(&letters);
        string_of(&up)
    } else {
        string_of(&icon)
    };
    launcher_app.category = default_category_if_empty(launcher_app.category.as_str());
    normalize_development_status(&mut launcher_app);
    let demo = launcher_app.demo_url.take();
    launcher_app.demo_url = clean_optional_https_url(demo);
    launcher_app.executable_path = None;
    launcher_app.installed_version = None;
    launcher_app.selected_version = None;
    launcher_app.installed_versions = Vec::new();
    launcher_app.latest_version = None;
    launcher_app.release_url = None;
    launcher_app.release_checked_at = None;
    launcher_app.release_notes = None;
    launcher_app.release_options = Vec::new();
    launcher_app.package_path = None;
    assert(launcher_app.installed_versions.deep_view() =~= Seq::<InstalledVersionView>::empty());
    assert(launcher_app.release_options.deep_view() =~= Seq::<ReleaseOptionView>::empty());
    assert(launcher_app@ =~= cleaned_tool(a)->0);
    Some(launcher_app)
}

/// The cleaned entries of a catalog, in order, each id kept at its first
/// usable entry.
pub open spec fn cleaned_tools(s: Seq<LauncherAppView>) -> Seq<LauncherAppView>
    decreases s.len(),
{
    if s.len() == 0 {
        seq![]
    } else {
        let prev = cleaned_tools(s.drop_last());
        match cleaned_tool(s.last()) {
            Some(t) => if app_index(prev, t.id) is Some {
                prev
            } else {
                prev.push(t)
            },
            None => prev,
        }
    }
}

/// A catalog with its tools cleaned, or nothing where no tool is usable.
pub open spec fn cleaned_catalog(c: ToolsCatalogView) -> Option<ToolsCatalogView> {
    let tools = cleaned_tools(c.tools);
    if tools.len() == 0 {
        None
    } else {
        Some(ToolsCatalogView { tools, ..c })
    }
}

pub open spec fn no_usable_tools_message() -> Seq<char> {
    "Tools catalog did not include any usable tools."@
}

pub fn clean_tools_catalog(catalog: ToolsCatalog) -> (r: Result<ToolsCatalog, String>)
    ensures
        match r {
            Ok(c) => cleaned_catalog(catalog@) == Some(c@),
            Err(e) => cleaned_catalog(catalog@) is None && e@ == no_usable_tools_message(),
        },
{
    let ghost src = catalog.tools.deep_view();
    let mut tools: Vec<LauncherApp> = Vec::new();
    let mut i: usize = 0;
    while i < catalog.tools.len()
        invariant
            i <= catalog.tools.len(),
            src == catalog.tools.deep_view(),
            tools.deep_view() == cleaned_tools(src.subrange(0, i as int)),
        decreases catalog.tools.len() - i,
    {
        proof {
            assert(src.subrange(0, i + 1).drop_last() =~= src.subrange(0, i as int));
            assert(src.subrange(0, i + 1).last() == src[i as int]);
        }
        if let Some(t) = clean_catalog_tool(catalog.tools[i].clone()) {
            if find_app_index(&tools, &t.id).is_none() {
                let ghost before = tools.deep_view();
                tools.push(t);
                assert(tools.deep_view() =~= before.push(t@));
            }
        }
        i = i + 1;
    }
    assert(src.subrange(0, src.len() as int) =~= src);
    if tools.len() == 0 {
        return Err(owned("Tools catalog did not include any usable tools."));
    }
    Ok(ToolsCatalog { catalog_version: catalog.catalog_version, updated_at: catalog.updated_at, tools })
}


/// A catalog entry as the built-in list writes it: nothing installed, no
/// release known, portable packages preferred, shown.
pub open spec fn catalog_entry(
    id: Seq<char>,
    name: Seq<char>,
    repo: Seq<char>,
    description: Seq<char>,
    accent: Seq<char>,
    icon: Seq<char>,
    category: Seq<char>,
    status: ToolStatus,
    demo_url: Option<Seq<char>>,
) -> LauncherAppView {
    LauncherAppView {
        id,
        name,
        repo,
        description,
        accent,
        icon,
        category,
        executable_path: None,
        installed_version: None,
        selected_version: None,
        installed_versions: Seq::empty(),
        latest_version: None,
        release_url: None,
        release_checked_at: None,
        release_notes: None,
        release_options: Seq::empty(),
        package_preference: PackagePreference::Portable,
        package_path: None,
        demo_url,
        status,
        visible: true,
    }
}

pub fn app(
    id: &str,
    name: &str,
    repo: &str,
    description: &str,
    accent: &str,
    icon: &str,
    category: &str,
    status: ToolStatus,
    demo_url: Option<&str>,
) -> (r: LauncherApp)
    ensures
        r@ == catalog_entry(
            id@,
            name@,
            repo@,
            description@,
            accent@,
            icon@,
            category@,
            status,
            match demo_url {
                Some(d) => Some(d@),
                None => None,
            },
        ),
{
    let r = LauncherApp {
        id: owned(id),
        name: owned(name),
        repo: owned(repo),
        description: owned(description),
        accent: owned(accent),
        icon: owned(icon),
        category: owned(category),
        executable_path: None,
        installed_version: None,
        selected_version: None,
        installed_versions: Vec::new(),
        latest_version: None,
        release_url: None,
        release_checked_at: None,
        release_notes: None,
        release_options: Vec::new(),
        package_preference: PackagePreference::Portable,
        package_path: None,
        demo_url: match demo_url {
            Some(d) => Some(owned(d)),
            None => None,
        },
        status,
        visible: true,
    };
    assert(r.installed_versions.deep_view() =~= Seq::<InstalledVersionView>::empty());
    assert(r.release_options.deep_view() =~= Seq::<ReleaseOptionView>::empty());
    r
}

/// The tools the launcher knows without any catalog file.
pub open spec fn default_apps_view() -> Seq<LauncherAppView> {
    seq![
        catalog_entry(
            "asset-vault"@,
            "Asset Vault"@,
            "AssetVault"@,
            "Local-first library for AI-generated game assets: import, triage, dedupe, search, export."@,
            "#c9a04e"@,
            "AV"@,
            "-= Released Work Stuff =-"@,
            ToolStatus::ComingSoon,
            None,
        ),
        catalog_entry(
            "batchlapse"@,
            "BatchLapse"@,
            "BatchLapse"@,
            "Batch video timelapse exporter for MP4, WebM, and GitHub-friendly GIFs."@,
            "#5b8def"@,
            "BL"@,
            "-= Released Work Stuff =-"@,
            ToolStatus::Available,
            None,
        ),
        catalog_entry(
            "cutscene-converter"@,
            "Cutscene Converter"@,
            "CutsceneConverter"@,
            "Godot-friendly cutscene video converter for MP4, WebM, and OGV."@,
            "#f06f48"@,
            "CC"@,
            "-= Released Work Stuff =-"@,
            ToolStatus::Available,
            None,
        ),
        catalog_entry(
            "depth-map-ai-generator"@,
            "DepthMap AI"@,
            "DepthMapAIGenerator"@,
            "Batch depth-map and WebP generator for local AI image workflows."@,
            "#43b883"@,
            "DM"@,
            "Under Development"@,
            ToolStatus::ComingSoon,
            None,
        ),
        catalog_entry(
            "image-to-ascii-3d"@,
            "ASCII 3D"@,
            "ImageToASCII3D"@,
            "Image-to-ASCII converter with optional depth-map driven 3D parallax exports."@,
            "#f0a848"@,
            "A3"@,
            "Under Development"@,
            ToolStatus::ComingSoon,
            None,
        ),
        catalog_entry(
            "image-to-3d"@,
            "Image to 3D"@,
            "ImageTo3D"@,
            "Local image-to-3D workflow for mesh, texture, and 3D asset generation."@,
            "#8c65df"@,
            "I3"@,
            "Under Development"@,
            ToolStatus::Available,
            None,
        ),
        catalog_entry(
            "multi-angle-edit"@,
            "Multi-Angle Edit"@,
            "MultiAngleEdit"@,
            "Local multi-angle image editor: re-render a photo from a new camera angle with Qwen-Image-Edit + the Multiple-Angles LoRA on your own GPU."@,
            "#b14bff"@,
            "MA"@,
            "Under Development"@,
            ToolStatus::ComingSoon,
            None,
        ),
        catalog_entry(
            "image-to-splat"@,
            "ImageToSplat"@,
            "ImageToSplat"@,
            "Local TripoSplat workflow for turning a single image into Gaussian splat and point-cloud 3D exports."@,
            "#55c7f7"@,
            "IS"@,
            "Under Development"@,
            ToolStatus::ComingSoon,
            None,
        ),
        catalog_entry(
            "splatscape"@,
            "SplatScape"@,
            "SplatScape"@,
            "Portable FPS-style explorer for 3D Gaussian splat scenes with WASD and mouse-look navigation."@,
            "#7adfbb"@,
            "SS"@,
            "Under Development"@,
            ToolStatus::ComingSoon,
            None,
        ),
        catalog_entry(
            "markrush"@,
            "MarkRush"@,
            "MarkRush"@,
            "Fast local Markdown viewer/editor built for huge files and folders."@,
            "#e05d7b"@,
            "MR"@,
            "-= Released Work Stuff =-"@,
            ToolStatus::Available,
            None,
        ),
        catalog_entry(
            "opensplit"@,
            "OpenSplit"@,
            "OpenSplit"@,
            "Multi-pane terminal harness for AI coding agents, shells, and SSH sessions."@,
            "#4fb6d8"@,
            "OS"@,
            "-= Released Work Stuff =-"@,
            ToolStatus::Available,
            None,
        ),
        catalog_entry(
            "seamless-image-edit"@,
            "Seamless Image Edit"@,
            "SeamlessImageEdit"@,
            "Local image tiling and seamless texture prep for game art workflows."@,
            "#d889ff"@,
            "SI"@,
            "-= Released Work Stuff =-"@,
            ToolStatus::Available,
            None,
        ),
        catalog_entry(
            "venice-media-local"@,
            "Venice Media"@,
            "VeniceMediaLocal"@,
            "Local Venice API media workspace for images, video, music, voice, and cleanup."@,
            "#34c6a3"@,
            "VM"@,
            "-= Released Work Stuff =-"@,
            ToolStatus::Available,
            None,
        ),
        catalog_entry(
            "purpleplanet"@,
            "PurplePlanet"@,
            "PurplePlanet"@,
            "Luminous Three.js planet motion art for live wallpapers and screensavers."@,
            "#8c65df"@,
            "PP"@,
            "Fun Stuff"@,
            ToolStatus::Available,
            Some("https://nekolegends.com/res/projects/purplePlanet/"@),
        ),
        catalog_entry(
            "stargaze"@,
            "StarGaze"@,
            "StarGaze"@,
            "Glittering Three.js starfield wallpaper and screensaver with tunable motion."@,
            "#6b7cff"@,
            "SG"@,
            "Fun Stuff"@,
            ToolStatus::Available,
            Some("https://nekolegends.com/res/projects/starGaze/"@),
        ),
    ]
}

pub fn default_apps() -> (r: Vec<LauncherApp>)
    ensures
        r.deep_view() == default_apps_view(),
{
    let r = vec![
        app(
            "asset-vault",
            "Asset Vault",
            "AssetVault",
            "Local-first library for AI-generated game assets: import, triage, dedupe, search, export.",
            "#c9a04e",
            "AV",
            "-= Released Work Stuff =-",
            ToolStatus::ComingSoon,
            None,
        ),
        app(
            "batchlapse",
            "BatchLapse",
            "BatchLapse",
            "Batch video timelapse exporter for MP4, WebM, and GitHub-friendly GIFs.",
            "#5b8def",
            "BL",
            "-= Released Work Stuff =-",
            ToolStatus::Available,
            None,
        ),
        app(
            "cutscene-converter",
            "Cutscene Converter",
            "CutsceneConverter",
            "Godot-friendly cutscene video converter for MP4, WebM, and OGV.",
            "#f06f48",
            "CC",
            "-= Released Work Stuff =-",
            ToolStatus::Available,
            None,
        ),
        app(
            "depth-map-ai-generator",
            "DepthMap AI",
            "DepthMapAIGenerator",
            "Batch depth-map and WebP generator for local AI image workflows.",
            "#43b883",
            "DM",
            "Under Development",
            ToolStatus::ComingSoon,
            None,
        ),
        app(
            "image-to-ascii-3d",
            "ASCII 3D",
            "ImageToASCII3D",
            "Image-to-ASCII converter with optional depth-map driven 3D parallax exports.",
            "#f0a848",
            "A3",
            "Under Development",
            ToolStatus::ComingSoon,
            None,
        ),
        app(
            "image-to-3d",
            "Image to 3D",
            "ImageTo3D",
            "Local image-to-3D workflow for mesh, texture, and 3D asset generation.",
            "#8c65df",
            "I3",
            "Under Development",
            ToolStatus::Available,
            None,
        ),
        app(
            "multi-angle-edit",
            "Multi-Angle Edit",
            "MultiAngleEdit",
            "Local multi-angle image editor: re-render a photo from a new camera angle with Qwen-Image-Edit + the Multiple-Angles LoRA on your own GPU.",
            "#b14bff",
            "MA",
            "Under Development",
            ToolStatus::ComingSoon,
            None,
        ),
        app(
            "image-to-splat",
            "ImageToSplat",
            "ImageToSplat",
            "Local TripoSplat workflow for turning a single image into Gaussian splat and point-cloud 3D exports.",
            "#55c7f7",
            "IS",
            "Under Development",
            ToolStatus::ComingSoon,
            None,
        ),
        app(
            "splatscape",
            "SplatScape",
            "SplatScape",
            "Portable FPS-style explorer for 3D Gaussian splat scenes with WASD and mouse-look navigation.",
            "#7adfbb",
            "SS",
            "Under Development",
            ToolStatus::ComingSoon,
            None,
        ),
        app(
            "markrush",
            "MarkRush",
            "MarkRush",
            "Fast local Markdown viewer/editor built for huge files and folders.",
            "#e05d7b",
            "MR",
            "-= Released Work Stuff =-",
            ToolStatus::Available,
            None,
        ),
        app(
            "opensplit",
            "OpenSplit",
            "OpenSplit",
            "Multi-pane terminal harness for AI coding agents, shells, and SSH sessions.",
            "#4fb6d8",
            "OS",
            "-= Released Work Stuff =-",
            ToolStatus::Available,
            None,
        ),
        app(
            "seamless-image-edit",
            "Seamless Image Edit",
            "SeamlessImageEdit",
            "Local image tiling and seamless texture prep for game art workflows.",
            "#d889ff",
            "SI",
            "-= Released Work Stuff =-",
            ToolStatus::Available,
            None,
        ),
        app(
            "venice-media-local",
            "Venice Media",
            "VeniceMediaLocal",
            "Local Venice API media workspace for images, video, music, voice, and cleanup.",
            "#34c6a3",
            "VM",
            "-= Released Work Stuff =-",
            ToolStatus::Available,
            None,
        ),
        app(
            "purpleplanet",
            "PurplePlanet",
            "PurplePlanet",
            "Luminous Three.js planet motion art for live wallpapers and screensavers.",
            "#8c65df",
            "PP",
            "Fun Stuff",
            ToolStatus::Available,
            Some("https://nekolegends.com/res/projects/purplePlanet/"),
        ),
        app(
            "stargaze",
            "StarGaze",
            "StarGaze",
            "Glittering Three.js starfield wallpaper and screensaver with tunable motion.",
            "#6b7cff",
            "SG",
            "Fun Stuff",
            ToolStatus::Available,
            Some("https://nekolegends.com/res/projects/starGaze/"),
        ),
    ];
    assert(r.deep_view() =~= default_apps_view());
    r
}

/// The catalog format version that this launcher reads.
pub open spec fn catalog_format_version() -> u32 {
    14
}

pub fn default_catalog_version() -> (r: u32)
    ensures
        r == catalog_format_version(),
{
    14
}

pub open spec fn builtin_catalog_view() -> ToolsCatalogView {
    ToolsCatalogView {
        catalog_version: catalog_format_version(),
        updated_at: Some("built-in"@),
        tools: default_apps_view(),
    }
}

pub fn builtin_tools_catalog() -> (r: ToolsCatalog)
    ensures
        r@ == builtin_catalog_view(),
{
    ToolsCatalog {
        catalog_version: default_catalog_version(),
        updated_at: Some(owned("built-in")),
        tools: default_apps(),
    }
}

/// The catalog that a stored remote catalog yields: itself cleaned, where
/// some tool is usable and its format is not older than this launcher's;
/// else the built-in catalog.
pub open spec fn effective_remote_catalog(stored: ToolsCatalogView) -> ToolsCatalogView {
    match cleaned_catalog(stored) {
        Some(c) => if c.catalog_version >= catalog_format_version() {
            c
        } else {
            builtin_catalog_view()
        },
        None => builtin_catalog_view(),
    }
}

/// Chooses between the stored remote catalog (the built-in one where none
/// could be read) and the built-in catalog.
pub fn select_remote_catalog(stored: ToolsCatalog) -> (r: ToolsCatalog)
    ensures
        r@ == effective_remote_catalog(stored@),
{
    let fallback = builtin_tools_catalog();
    match clean_tools_catalog(stored) {
        Ok(catalog) => if catalog.catalog_version >= fallback.catalog_version {
            catalog
        } else {
            fallback
        },
        Err(_) => fallback,
    }
}

/// The first of the local catalog files, in search order, that has a usable
/// tool, cleaned.
pub open spec fn first_usable_catalog(candidates: Seq<ToolsCatalogView>) -> Option<ToolsCatalogView>
    decreases candidates.len(),
{
    if candidates.len() == 0 {
        None
    } else {
        match cleaned_catalog(candidates[0]) {
            Some(c) => Some(c),
            None => first_usable_catalog(candidates.drop_first()),
        }
    }
}

/// Picks the local catalog among the files that could be read and parsed,
/// given in search order.
pub fn select_local_catalog(candidates: Vec<ToolsCatalog>) -> (r: Option<ToolsCatalog>)
    ensures
        match r {
            Some(c) => first_usable_catalog(candidates.deep_view()) == Some(c@),
            None => first_usable_catalog(candidates.deep_view()) is None,
        },
{
    let ghost all = candidates.deep_view();
    assert(all.subrange(0, all.len() as int) =~= all);
    let mut i: usize = 0;
    while i < candidates.len()
        invariant
            i <= candidates.len(),
            all == candidates.deep_view(),
            first_usable_catalog(all) == first_usable_catalog(all.subrange(i as int, all.len() as int)),
        decreases candidates.len() - i,
    {
        let ghost rest = all.subrange(i as int, all.len() as int);
        assert(rest[0] == all[i as int]);
        assert(rest.drop_first() =~= all.subrange(i + 1, all.len() as int));
        let c = ToolsCatalog {
            catalog_version: candidates[i].catalog_version,
            updated_at: clone_opt(&candidates[i].updated_at),
            tools: clone_apps(&candidates[i].tools),
        };
        assert(c@ == all[i as int]);
        if let Ok(cleaned) = clean_tools_catalog(c) {
            return Some(cleaned);
        }
        i = i + 1;
    }
    assert(all.subrange(i as int, all.len() as int) =~= Seq::<ToolsCatalogView>::empty());
    None
}

/// The catalog in use: the stored remote one where the settings ask for it,
/// else the first usable local file, else the built-in catalog.
pub open spec fn effective_catalog(
    use_remote: bool,
    stored: ToolsCatalogView,
    local: Seq<ToolsCatalogView>,
) -> ToolsCatalogView {
    if use_remote {
        effective_remote_catalog(stored)
    } else {
        match first_usable_catalog(local) {
            Some(c) => c,
            None => builtin_catalog_view(),
        }
    }
}

pub fn select_effective_catalog(
    use_remote: bool,
    stored: ToolsCatalog,
    local: Vec<ToolsCatalog>,
) -> (r: ToolsCatalog)
    ensures
        r@ == effective_catalog(use_remote, stored@, local.deep_view()),
{
    if use_remote {
        select_remote_catalog(stored)
    } else {
        match select_local_catalog(local) {
            Some(c) => c,
            None => builtin_tools_catalog(),
        }
    }
}

/// A freshly downloaded catalog made ready to store: cleaned, and stamped
/// with the download time where it carries no time of its own.
pub open spec fn prepared_catalog(c: ToolsCatalogView, now: Seq<char>) -> Option<ToolsCatalogView> {
    match cleaned_catalog(c) {
        Some(k) => Some(
            ToolsCatalogView {
                updated_at: if k.updated_at is None {
                    Some(now)
                } else {
                    k.updated_at
                },
                ..k
            },
        ),
        None => None,
    }
}

pub fn prepare_downloaded_catalog(catalog: ToolsCatalog, now: &str) -> (r: Result<ToolsCatalog, String>)
    ensures
        match r {
            Ok(c) => prepared_catalog(catalog@, now@) == Some(c@),
            Err(e) => prepared_catalog(catalog@, now@) is None && e@ == no_usable_tools_message(),
        },
{
    let mut catalog = match clean_tools_catalog(catalog) {
        Ok(c) => c,
        Err(e) => {
            return Err(e);
        },
    };
    if catalog.updated_at.is_none() {
        catalog.updated_at = Some(owned(now));
    }
    Ok(catalog)
}

} // verus!
