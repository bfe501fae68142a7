//! The launcher's data: catalog entries, their install state, settings, and
//! the abstract views that the contracts speak of.

use vstd::prelude::*;

verus! {

/// Whether a tool can be used today or is announced only.
#[derive(Clone, Copy, Debug, PartialEq, Eq, Structural)]
pub enum ToolStatus {
    Available,
    ComingSoon,
}

/// Which kind of release asset the user prefers to download.
#[derive(Clone, Copy, Debug, PartialEq, Eq, Structural)]
pub enum PackagePreference {
    Portable,
    Installer,
}

impl Default for ToolStatus {
    fn default() -> (r: Self)
        ensures
            r == ToolStatus::Available,
    {
        ToolStatus::Available
    }
}

impl Default for PackagePreference {
    fn default() -> (r: Self)
        ensures
            r == PackagePreference::Portable,
    {
        PackagePreference::Portable
    }
}

/// The deep view of an optional string.
pub open spec fn opt_view(o: Option<String>) -> Option<Seq<char>> {
    match o {
        Some(s) => Some(s@),
        None => None,
    }
}

pub fn clone_opt(o: &Option<String>) -> (r: Option<String>)
    ensures
        opt_view(*o) == opt_view(r),
        r == *o,
{
    match o {
        Some(s) => Some(s.clone()),
        None => None,
    }
}

/// One downloaded version of an app, kept on disk beside the others.
#[derive(Debug)]
pub struct InstalledVersion {
    pub version: String,
    pub executable_path: Option<String>,
    pub package_path: Option<String>,
    pub installed_at: String,
}

#[verifier::ext_equal]
pub struct InstalledVersionView {
    pub version: Seq<char>,
    pub executable_path: Option<Seq<char>>,
    pub package_path: Option<Seq<char>>,
    pub installed_at: Seq<char>,
}

impl View for InstalledVersion {
    type V = InstalledVersionView;

    open spec fn view(&self) -> InstalledVersionView {
        InstalledVersionView {
            version: self.version@,
            executable_path: opt_view(self.executable_path),
            package_path: opt_view(self.package_path),
            installed_at: self.installed_at@,
        }
    }
}

impl DeepView for InstalledVersion {
    type V = InstalledVersionView;

    open spec fn deep_view(&self) -> InstalledVersionView {
        self@
    }
}

impl Clone for InstalledVersion {
    fn clone(&self) -> (r: Self)
        ensures
            r@ == self@,
    {
        InstalledVersion {
            version: self.version.clone(),
            executable_path: clone_opt(&self.executable_path),
            package_path: clone_opt(&self.package_path),
            installed_at: self.installed_at.clone(),
        }
    }
}

/// One published release that the user may pick.
#[derive(Debug)]
pub struct ReleaseOption {
    pub tag_name: String,
    pub html_url: String,
}

#[verifier::ext_equal]
pub struct ReleaseOptionView {
    pub tag_name: Seq<char>,
    pub html_url: Seq<char>,
}

impl View for ReleaseOption {
    type V = ReleaseOptionView;

    open spec fn view(&self) -> ReleaseOptionView {
        ReleaseOptionView { tag_name: self.tag_name@, html_url: self.html_url@ }
    }
}

impl DeepView for ReleaseOption {
    type V = ReleaseOptionView;

    open spec fn deep_view(&self) -> ReleaseOptionView {
        self@
    }
}

impl Clone for ReleaseOption {
    fn clone(&self) -> (r: Self)
        ensures
            r@ == self@,
    {
        ReleaseOption { tag_name: self.tag_name.clone(), html_url: self.html_url.clone() }
    }
}

pub fn clone_installed_versions(v: &Vec<InstalledVersion>) -> (r: Vec<InstalledVersion>)
    ensures
        r.deep_view() == v.deep_view(),
{
    let r = v.clone();
    assert(r.deep_view() =~= v.deep_view()) by {
        assert forall|i: int| 0 <= i < r.len() implies r.deep_view()[i] == v.deep_view()[i] by {
            assert(cloned::<InstalledVersion>(v[i], r[i]));
        }
    }
    r
}

pub fn clone_release_options(v: &Vec<ReleaseOption>) -> (r: Vec<ReleaseOption>)
    ensures
        r.deep_view() == v.deep_view(),
{
    let r = v.clone();
    assert(r.deep_view() =~= v.deep_view()) by {
        assert forall|i: int| 0 <= i < r.len() implies r.deep_view()[i] == v.deep_view()[i] by {
            assert(cloned::<ReleaseOption>(v[i], r[i]));
        }
    }
    r
}

pub fn clone_strings(v: &Vec<String>) -> (r: Vec<String>)
    ensures
        r.deep_view() == v.deep_view(),
        r@ == v@,
{
    let r = v.clone();
    assert(r@ =~= v@) by {
        assert forall|i: int| 0 <= i < r.len() implies r@[i] == v@[i] by {
            assert(cloned::<String>(v[i], r[i]));
        }
    }
    r
}

/// A tool of the catalog, with what the launcher knows of its install on
/// this machine and of its published releases.
#[derive(Debug)]
pub struct LauncherApp {
    pub id: String,
    pub name: String,
    pub repo: String,
    pub description: String,
    pub accent: String,
    pub icon: String,
    pub category: String,
    pub executable_path: Option<String>,
    pub installed_version: Option<String>,
    pub selected_version: Option<String>,
    pub installed_versions: Vec<InstalledVersion>,
    pub latest_version: Option<String>,
    pub release_url: Option<String>,
    pub release_checked_at: Option<String>,
    pub release_notes: Option<String>,
    pub release_options: Vec<ReleaseOption>,
    pub package_preference: PackagePreference,
    pub package_path: Option<String>,
    pub demo_url: Option<String>,
    pub status: ToolStatus,
    pub visible: bool,
}

#[verifier::ext_equal]
pub struct LauncherAppView {
    pub id: Seq<char>,
    pub name: Seq<char>,
    pub repo: Seq<char>,
    pub description: Seq<char>,
    pub accent: Seq<char>,
    pub icon: Seq<char>,
    pub category: Seq<char>,
    pub executable_path: Option<Seq<char>>,
    pub installed_version: Option<Seq<char>>,
    pub selected_version: Option<Seq<char>>,
    pub installed_versions: Seq<InstalledVersionView>,
    pub latest_version: Option<Seq<char>>,
    pub release_url: Option<Seq<char>>,
    pub release_checked_at: Option<Seq<char>>,
    pub release_notes: Option<Seq<char>>,
    pub release_options: Seq<ReleaseOptionView>,
    pub package_preference: PackagePreference,
    pub package_path: Option<Seq<char>>,
    pub demo_url: Option<Seq<char>>,
    pub status: ToolStatus,
    pub visible: bool,
}

impl View for LauncherApp {
    type V = LauncherAppView;

    open spec fn view(&self) -> LauncherAppView {
        LauncherAppView {
            id: self.id@,
            name: self.name@,
            repo: self.repo@,
            description: self.description@,
            accent: self.accent@,
            icon: self.icon@,
            category: self.category@,
            executable_path: opt_view(self.executable_path),
            installed_version: opt_view(self.installed_version),
            selected_version: opt_view(self.selected_version),
            installed_versions: self.installed_versions.deep_view(),
            latest_version: opt_view(self.latest_version),
            release_url: opt_view(self.release_url),
            release_checked_at: opt_view(self.release_checked_at),
            release_notes: opt_view(self.release_notes),
            release_options: self.release_options.deep_view(),
            package_preference: self.package_preference,
            package_path: opt_view(self.package_path),
            demo_url: opt_view(self.demo_url),
            status: self.status,
            visible: self.visible,
        }
    }
}

impl DeepView for LauncherApp {
    type V = LauncherAppView;

    open spec fn deep_view(&self) -> LauncherAppView {
        self@
    }
}

impl Clone for LauncherApp {
    fn clone(&self) -> (r: Self)
        ensures
            r@ == self@,
    {
        LauncherApp {
            id: self.id.clone(),
            name: self.name.clone(),
            repo: self.repo.clone(),
            description: self.description.clone(),
            accent: self.accent.clone(),
            icon: self.icon.clone(),
            category: self.category.clone(),
            executable_path: clone_opt(&self.executable_path),
            installed_version: clone_opt(&self.installed_version),
            selected_version: clone_opt(&self.selected_version),
            installed_versions: clone_installed_versions(&self.installed_versions),
            latest_version: clone_opt(&self.latest_version),
            release_url: clone_opt(&self.release_url),
            release_checked_at: clone_opt(&self.release_checked_at),
            release_notes: clone_opt(&self.release_notes),
            release_options: clone_release_options(&self.release_options),
            package_preference: self.package_preference,
            package_path: clone_opt(&self.package_path),
            demo_url: clone_opt(&self.demo_url),
            status: self.status,
            visible: self.visible,
        }
    }
}

pub fn clone_apps(v: &Vec<LauncherApp>) -> (r: Vec<LauncherApp>)
    ensures
        r.deep_view() == v.deep_view(),
{
    let r = v.clone();
    assert(r.deep_view() =~= v.deep_view()) by {
        assert forall|i: int| 0 <= i < r.len() implies r.deep_view()[i] == v.deep_view()[i] by {
            assert(cloned::<LauncherApp>(v[i], r[i]));
        }
    }
    r
}

/// One downloadable file of a published release.
#[derive(Debug)]
pub struct GitHubReleaseAsset {
    pub name: String,
    pub browser_download_url: String,
}

#[verifier::ext_equal]
pub struct AssetView {
    pub name: Seq<char>,
    pub browser_download_url: Seq<char>,
}

impl View for GitHubReleaseAsset {
    type V = AssetView;

    open spec fn view(&self) -> AssetView {
        AssetView { name: self.name@, browser_download_url: self.browser_download_url@ }
    }
}

impl DeepView for GitHubReleaseAsset {
    type V = AssetView;

    open spec fn deep_view(&self) -> AssetView {
        self@
    }
}

/// A published release of one of the tools, as the releases listing gives it.
#[derive(Debug)]
pub struct GitHubRelease {
    pub tag_name: String,
    pub html_url: String,
    pub body: Option<String>,
    pub assets: Vec<GitHubReleaseAsset>,
}

#[verifier::ext_equal]
pub struct ReleaseView {
    pub tag_name: Seq<char>,
    pub html_url: Seq<char>,
    pub body: Option<Seq<char>>,
    pub assets: Seq<AssetView>,
}

impl View for GitHubRelease {
    type V = ReleaseView;

    open spec fn view(&self) -> ReleaseView {
        ReleaseView {
            tag_name: self.tag_name@,
            html_url: self.html_url@,
            body: opt_view(self.body),
            assets: self.assets.deep_view(),
        }
    }
}

impl DeepView for GitHubRelease {
    type V = ReleaseView;

    open spec fn deep_view(&self) -> ReleaseView {
        self@
    }
}

/// A catalog of tools: its format version, when it was published, and the
/// tools.
#[derive(Debug)]
pub struct ToolsCatalog {
    pub catalog_version: u32,
    pub updated_at: Option<String>,
    pub tools: Vec<LauncherApp>,
}

#[verifier::ext_equal]
pub struct ToolsCatalogView {
    pub catalog_version: u32,
    pub updated_at: Option<Seq<char>>,
    pub tools: Seq<LauncherAppView>,
}

impl View for ToolsCatalog {
    type V = ToolsCatalogView;

    open spec fn view(&self) -> ToolsCatalogView {
        ToolsCatalogView {
            catalog_version: self.catalog_version,
            updated_at: opt_view(self.updated_at),
            tools: self.tools.deep_view(),
        }
    }
}

impl DeepView for ToolsCatalog {
    type V = ToolsCatalogView;

    open spec fn deep_view(&self) -> ToolsCatalogView {
        self@
    }
}

} // verus!
