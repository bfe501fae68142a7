//! Updating the launcher itself: the report of the newest release, the
//! choice of the release and asset an update installs, and the kind of file
//! that was downloaded.

use vstd::prelude::*;
use crate::files::{has_extension, has_extension_ignoring_case, is_launchable_executable_path, launchable_executable};
use crate::model::{opt_view, GitHubRelease, ReleaseView};
use crate::release::{
    asset_candidates, best_control_center_asset, chooses_best, control_center_asset_rank, is_newer_version,
    notes_of, release_notes_excerpt, version_newer,
};
use crate::text::{is_blank, owned, str_is_blank};

verus! {

/// What a check for a newer launcher found.
#[derive(Debug)]
pub struct ControlCenterUpdate {
    pub current_version: String,
    pub latest_version: Option<String>,
    pub release_url: Option<String>,
    pub release_notes: Option<String>,
    pub checked_at: String,
    pub update_available: bool,
}

#[verifier::ext_equal]
pub struct ControlCenterUpdateView {
    pub current_version: Seq<char>,
    pub latest_version: Option<Seq<char>>,
    pub release_url: Option<Seq<char>>,
    pub release_notes: Option<Seq<char>>,
    pub checked_at: Seq<char>,
    pub update_available: bool,
}

impl View for ControlCenterUpdate {
    type V = ControlCenterUpdateView;

    open spec fn view(&self) -> ControlCenterUpdateView {
        ControlCenterUpdateView {
            current_version: self.current_version@,
            latest_version: opt_view(self.latest_version),
            release_url: opt_view(self.release_url),
            release_notes: opt_view(self.release_notes),
            checked_at: self.checked_at@,
            update_available: self.update_available,
        }
    }
}

/// The report on the newest release of the launcher: its tag, page and
/// notes, and whether it is newer than the running version.
pub open spec fn update_report(
    releases: Seq<ReleaseView>,
    current: Seq<char>,
    checked_at: Seq<char>,
) -> ControlCenterUpdateView {
    if releases.len() > 0 {
        ControlCenterUpdateView {
            current_version: current,
            latest_version: Some(releases[0].tag_name),
            release_url: Some(releases[0].html_url),
            release_notes: notes_of(releases[0].body),
            checked_at,
            update_available: version_newer(releases[0].tag_name, current),
        }
    } else {
        ControlCenterUpdateView {
            current_version: current,
            latest_version: None,
            release_url: None,
            release_notes: None,
            checked_at,
            update_available: false,
        }
    }
}

pub fn control_center_update_from(
    releases: &Vec<GitHubRelease>,
    current_version: &str,
    checked_at: &str,
) -> (r: ControlCenterUpdate)
    ensures
        r@ == update_report(releases.deep_view(), current_version@, checked_at@),
{
    if releases.len() > 0 {
        let latest = &releases[0];
        ControlCenterUpdate {
            current_version: owned(current_version),
            latest_version: Some(latest.tag_name.clone()),
            release_url: Some(latest.html_url.clone()),
            release_notes: release_notes_excerpt(&latest.body),
            checked_at: owned(checked_at),
            update_available: is_newer_version(latest.tag_name.as_str(), current_version),
        }
    } else {
        ControlCenterUpdate {
            current_version: owned(current_version),
            latest_version: None,
            release_url: None,
            release_notes: None,
            checked_at: owned(checked_at),
            update_available: false,
        }
    }
}

pub open spec fn launcher_releases_page() -> Seq<char> {
    "https://github.com/neko-legends/NekoLegendsControlCenter/releases"@
}

/// The page the update dialog opens: the release's page where the report
/// has one, else the launcher's releases list.
pub fn control_center_release_url(update: &ControlCenterUpdate) -> (r: String)
    ensures
        r@ == match update@.release_url {
            Some(u) => if !is_blank(u) {
                u
            } else {
                launcher_releases_page()
            },
            None => launcher_releases_page(),
        },
{
    match &update.release_url {
        Some(u) => if !str_is_blank(u.as_str()) {
            u.clone()
        } else {
            owned("https://github.com/neko-legends/NekoLegendsControlCenter/releases")
        },
        None => owned("https://github.com/neko-legends/NekoLegendsControlCenter/releases"),
    }
}

/// The asset an update installs, from the newest release, where that release
/// is newer than the running version and has a portable Windows download.
/// The asset is given by its index in the newest release's assets.
pub fn plan_control_center_update(releases: &Vec<GitHubRelease>, current_version: &str) -> (r:
    Result<usize, String>)
    ensures
        releases.len() == 0 ==> (r matches Err(e) && e@ == "No public Control Center releases found yet."@),
        releases.len() > 0 && !version_newer(releases.deep_view()[0].tag_name, current_version@) ==> (
        r matches Err(e) && e@ == "Control Center is already up to date."@),
        releases.len() > 0 && version_newer(releases.deep_view()[0].tag_name, current_version@) ==> {
            let c = asset_candidates(releases.deep_view()[0].assets, control_center_asset_rank());
            match r {
                Ok(i) => chooses_best(c, Some(i)),
                Err(e) => chooses_best(c, None) && e@
                    == "The latest Control Center release does not have a portable Windows download yet."@,
            }
        },
{
    if releases.len() == 0 {
        return Err(owned("No public Control Center releases found yet."));
    }
    let release = &releases[0];
    if !is_newer_version(release.tag_name.as_str(), current_version) {
        return Err(owned("Control Center is already up to date."));
    }
    match best_control_center_asset(release) {
        Some(i) => Ok(i),
        None => Err(
            owned("The latest Control Center release does not have a portable Windows download yet."),
        ),
    }
}

/// What the downloaded update file is.
#[derive(Clone, Copy, Debug, PartialEq, Eq, Structural)]
pub enum UpdatePackage {
    /// The new launcher itself.
    Executable,
    /// An archive that holds it.
    Archive,
}

/// The kind of the downloaded update file, by its name.
pub fn update_package_kind(file_name: &str) -> (r: Result<UpdatePackage, String>)
    ensures
        launchable_executable(file_name@) ==> r matches Ok(UpdatePackage::Executable),
        !launchable_executable(file_name@) && has_extension(file_name@, "zip"@) ==> r matches Ok(
            UpdatePackage::Archive,
        ),
        !launchable_executable(file_name@) && !has_extension(file_name@, "zip"@) ==> (r matches Err(e)
            && e@ == "The latest Control Center download is not a portable Windows app."@),
{
    if is_launchable_executable_path(file_name) {
        Ok(UpdatePackage::Executable)
    } else if has_extension_ignoring_case(file_name, "zip") {
        Ok(UpdatePackage::Archive)
    } else {
        Err(owned("The latest Control Center download is not a portable Windows app."))
    }
}

} // verus!
