//! Launcher settings: category lists, the settings form, window sizes.

use vstd::prelude::*;
use crate::text::{chars_of, owned, same_chars, str_eq, string_of, trim, trim_chars};
use crate::model::clone_strings;

verus! {

pub open spec fn released_category() -> Seq<char> {
    "-= Released Work Stuff =-"@
}

pub open spec fn fun_category() -> Seq<char> {
    "Fun Stuff"@
}

pub open spec fn under_development_category() -> Seq<char> {
    "Under Development"@
}

/// The categories a fresh install shows.
pub open spec fn default_categories_view() -> Seq<Seq<char>> {
    seq![released_category(), fun_category(), under_development_category()]
}

/// The category given to a catalog entry that names none.
pub fn default_category() -> (r: String)
    ensures
        r@ == released_category(),
{
    owned("-= Released Work Stuff =-")
}

pub fn under_development() -> (r: String)
    ensures
        r@ == under_development_category(),
{
    owned("Under Development")
}

pub fn default_categories() -> (r: Vec<String>)
    ensures
        r.deep_view() == default_categories_view(),
{
    let r = vec![default_category(), owned("Fun Stuff"), under_development()];
    assert(r.deep_view() =~= default_categories_view());
    r
}

/// The trimmed, non-empty entries of `s`, each kept at its first occurrence.
pub open spec fn distinct_nonempty(s: Seq<Seq<char>>) -> Seq<Seq<char>>
    decreases s.len(),
{
    if s.len() == 0 {
        seq![]
    } else {
        let prev = distinct_nonempty(s.drop_last());
        let x = trim(s.last());
        if x.len() == 0 || prev.contains(x) {
            prev
        } else {
            prev.push(x)
        }
    }
}

/// What a saved category list becomes: its trimmed, non-empty, distinct
/// entries in order, or the default list where none is left.
pub open spec fn normalized_categories(s: Seq<Seq<char>>) -> Seq<Seq<char>> {
    let d = distinct_nonempty(s);
    if d.len() == 0 {
        default_categories_view()
    } else {
        d
    }
}

/// Whether `s` is among the strings of `v`.
pub fn contains_string(v: &Vec<String>, s: &Vec<char>) -> (r: bool)
    ensures
        r == v.deep_view().contains(s@),
{
    let mut i: usize = 0;
    while i < v.len()
        invariant
            i <= v.len(),
            forall|j: int| 0 <= j < i ==> v.deep_view()[j] != s@,
        decreases v.len() - i,
    {
        let c = chars_of(v[i].as_str());
        if same_chars(&c, s) {
            assert(v.deep_view()[i as int] == s@);
            return true;
        }
        i = i + 1;
    }
    false
}

pub fn normalize_categories(categories: Vec<String>) -> (r: Vec<String>)
    ensures
        r.deep_view() == normalized_categories(categories.deep_view()),
{
    let ghost s = categories.deep_view();
    let mut normalized: Vec<String> = Vec::new();
    let mut i: usize = 0;
    while i < categories.len()
        invariant
            i <= categories.len(),
            s == categories.deep_view(),
            normalized.deep_view() == distinct_nonempty(s.subrange(0, i as int)),
        decreases categories.len() - i,
    {
        let c = chars_of(categories[i].as_str());
        let t = trim_chars(&c);
        assert(s.subrange(0, i + 1).drop_last() =~= s.subrange(0, i as int));
        if t.len() != 0 && !contains_string(&normalized, &t) {
            let ghost before = normalized.deep_view();
            normalized.push(string_of(&t));
            assert(normalized.deep_view() =~= before.push(t@));
        }
        i = i + 1;
    }
    assert(s.subrange(0, s.len() as int) =~= s);
    if normalized.len() == 0 {
        default_categories()
    } else {
        normalized
    }
}

/// The launcher's saved preferences.
#[derive(Debug)]
pub struct AppSettings {
    pub theme: String,
    pub compact_labels: bool,
    pub use_remote_catalog: bool,
    pub agent_control_auto_start: bool,
    pub categories: Vec<String>,
    pub window_width: Option<u32>,
    pub window_height: Option<u32>,
}

#[verifier::ext_equal]
pub struct AppSettingsView {
    pub theme: Seq<char>,
    pub compact_labels: bool,
    pub use_remote_catalog: bool,
    pub agent_control_auto_start: bool,
    pub categories: Seq<Seq<char>>,
    pub window_width: Option<u32>,
    pub window_height: Option<u32>,
}

impl View for AppSettings {
    type V = AppSettingsView;

    open spec fn view(&self) -> AppSettingsView {
        AppSettingsView {
            theme: self.theme@,
            compact_labels: self.compact_labels,
            use_remote_catalog: self.use_remote_catalog,
            agent_control_auto_start: self.agent_control_auto_start,
            categories: self.categories.deep_view(),
            window_width: self.window_width,
            window_height: self.window_height,
        }
    }
}

pub open spec fn default_theme() -> Seq<char> {
    "neko-tron"@
}

pub open spec fn retired_theme() -> Seq<char> {
    "eva-dark"@
}

/// The settings of a fresh install.
pub open spec fn default_settings_view() -> AppSettingsView {
    AppSettingsView {
        theme: default_theme(),
        compact_labels: false,
        use_remote_catalog: true,
        agent_control_auto_start: false,
        categories: default_categories_view(),
        window_width: None,
        window_height: None,
    }
}

impl Default for AppSettings {
    fn default() -> (r: Self)
        ensures
            r@ == default_settings_view(),
    {
        AppSettings {
            theme: owned("neko-tron"),
            compact_labels: false,
            use_remote_catalog: true,
            agent_control_auto_start: false,
            categories: default_categories(),
            window_width: None,
            window_height: None,
        }
    }
}

impl Clone for AppSettings {
    fn clone(&self) -> (r: Self)
        ensures
            r@ == self@,
    {
        AppSettings {
            theme: self.theme.clone(),
            compact_labels: self.compact_labels,
            use_remote_catalog: self.use_remote_catalog,
            agent_control_auto_start: self.agent_control_auto_start,
            categories: clone_strings(&self.categories),
            window_width: self.window_width,
            window_height: self.window_height,
        }
    }
}

/// Settings as read from disk: the retired theme replaced by the current
/// default theme, the category list normalized.
pub open spec fn loaded_settings(s: AppSettingsView) -> AppSettingsView {
    AppSettingsView {
        theme: if s.theme == retired_theme() {
            default_theme()
        } else {
            s.theme
        },
        categories: normalized_categories(s.categories),
        ..s
    }
}

pub fn normalize_loaded_settings(settings: AppSettings) -> (r: AppSettings)
    ensures
        r@ == loaded_settings(settings@),
{
    let mut settings = settings;
    if str_eq(settings.theme.as_str(), "eva-dark") {
        settings.theme = owned("neko-tron");
    }
    let categories = clone_strings(&settings.categories);
    settings.categories = normalize_categories(categories);
    settings
}

/// The fields of the settings form; each one left out keeps its saved value.
#[derive(Debug)]
pub struct SaveSettingsRequest {
    pub theme: Option<String>,
    pub compact_labels: Option<bool>,
    pub use_remote_catalog: Option<bool>,
    pub agent_control_auto_start: Option<bool>,
    pub categories: Option<Vec<String>>,
}

pub struct SaveSettingsRequestView {
    pub theme: Option<Seq<char>>,
    pub compact_labels: Option<bool>,
    pub use_remote_catalog: Option<bool>,
    pub agent_control_auto_start: Option<bool>,
    pub categories: Option<Seq<Seq<char>>>,
}

impl View for SaveSettingsRequest {
    type V = SaveSettingsRequestView;

    open spec fn view(&self) -> SaveSettingsRequestView {
        SaveSettingsRequestView {
            theme: match self.theme {
                Some(t) => Some(t@),
                None => None,
            },
            compact_labels: self.compact_labels,
            use_remote_catalog: self.use_remote_catalog,
            agent_control_auto_start: self.agent_control_auto_start,
            categories: match self.categories {
                Some(c) => Some(c.deep_view()),
                None => None,
            },
        }
    }
}

pub open spec fn or_keep<T>(new: Option<T>, old: T) -> T {
    match new {
        Some(v) => v,
        None => old,
    }
}

/// The settings after the form is saved: each field given replaces the saved
/// one, a given category list is normalized first.
pub open spec fn settings_saved(s: AppSettingsView, req: SaveSettingsRequestView) -> AppSettingsView {
    AppSettingsView {
        theme: or_keep(req.theme, s.theme),
        compact_labels: or_keep(req.compact_labels, s.compact_labels),
        use_remote_catalog: or_keep(req.use_remote_catalog, s.use_remote_catalog),
        agent_control_auto_start: or_keep(req.agent_control_auto_start, s.agent_control_auto_start),
        categories: match req.categories {
            Some(c) => normalized_categories(c),
            None => s.categories,
        },
        ..s
    }
}

pub fn apply_settings_request(settings: &mut AppSettings, request: SaveSettingsRequest)
    ensures
        final(settings)@ == settings_saved(old(settings)@, request@),
{
    let SaveSettingsRequest {
        theme,
        compact_labels,
        use_remote_catalog,
        agent_control_auto_start,
        categories,
    } = request;
    if let Some(theme) = theme {
        settings.theme = theme;
    }
    if let Some(compact_labels) = compact_labels {
        settings.compact_labels = compact_labels;
    }
    if let Some(use_remote_catalog) = use_remote_catalog {
        settings.use_remote_catalog = use_remote_catalog;
    }
    if let Some(agent_control_auto_start) = agent_control_auto_start {
        settings.agent_control_auto_start = agent_control_auto_start;
    }
    if let Some(categories) = categories {
        settings.categories = normalize_categories(categories);
    }
}

/// A window size is remembered only where neither side is zero.
pub open spec fn window_size_recorded(s: AppSettingsView, width: u32, height: u32) -> AppSettingsView {
    if width == 0 || height == 0 {
        s
    } else {
        AppSettingsView { window_width: Some(width), window_height: Some(height), ..s }
    }
}

/// Records the size the window was resized to; returns whether the settings
/// changed and are to be written.
pub fn record_window_size(settings: &mut AppSettings, width: u32, height: u32) -> (r: bool)
    ensures
        final(settings)@ == window_size_recorded(old(settings)@, width, height),
        r == (width != 0 && height != 0),
{
    if width == 0 || height == 0 {
        return false;
    }
    settings.window_width = Some(width);
    settings.window_height = Some(height);
    true
}

pub open spec fn min_window_width() -> u32 {
    520
}

pub open spec fn min_window_height() -> u32 {
    390
}

pub open spec fn fallback_window_width() -> u32 {
    720
}

pub open spec fn fallback_window_height() -> u32 {
    520
}

pub open spec fn max_u32(a: u32, b: u32) -> u32 {
    if a >= b {
        a
    } else {
        b
    }
}

pub open spec fn min_u32(a: u32, b: u32) -> u32 {
    if a <= b {
        a
    } else {
        b
    }
}

/// `value` held between `min` and the monitor's extent (at least one pixel);
/// where `min` exceeds the extent, the extent wins.
pub open spec fn clamped_dimension(value: u32, min: u32, monitor_max: u32) -> u32 {
    let max = max_u32(monitor_max, 1);
    min_u32(max_u32(value, min_u32(min, max)), max)
}

pub fn clamp_window_dimension(value: u32, min: u32, monitor_max: u32) -> (r: u32)
    ensures
        r == clamped_dimension(value, min, monitor_max),
{
    let max = if monitor_max >= 1 {
        monitor_max
    } else {
        1
    };
    let low = if min <= max {
        min
    } else {
        max
    };
    let v = if value >= low {
        value
    } else {
        low
    };
    if v <= max {
        v
    } else {
        max
    }
}

/// The monitor's size, or the fallback window size where no monitor is known.
pub open spec fn monitor_dimensions(monitor: Option<(u32, u32)>) -> (u32, u32) {
    match monitor {
        Some(m) => m,
        None => (fallback_window_width(), fallback_window_height()),
    }
}

pub fn monitor_size_or_fallback(monitor: Option<(u32, u32)>) -> (r: (u32, u32))
    ensures
        r == monitor_dimensions(monitor),
{
    match monitor {
        Some(m) => m,
        None => (720, 520),
    }
}

/// The first-run window size on a monitor: on a portrait monitor the size
/// scaled from its width (computed by the caller), else a quarter of the
/// monitor, but never below the fallback window size.
pub open spec fn default_window_size(
    monitor_width: u32,
    monitor_height: u32,
    portrait_size: (u32, u32),
) -> (u32, u32) {
    if monitor_width < monitor_height {
        (max_u32(portrait_size.0, 1), max_u32(portrait_size.1, 1))
    } else {
        (
            max_u32((monitor_width / 4) as u32, fallback_window_width()),
            max_u32((monitor_height / 4) as u32, fallback_window_height()),
        )
    }
}

pub fn default_window_size_for_monitor(
    monitor_width: u32,
    monitor_height: u32,
    portrait_size: (u32, u32),
) -> (r: (u32, u32))
    ensures
        r == default_window_size(monitor_width, monitor_height, portrait_size),
{
    if monitor_width < monitor_height {
        let w = if portrait_size.0 >= 1 {
            portrait_size.0
        } else {
            1
        };
        let h = if portrait_size.1 >= 1 {
            portrait_size.1
        } else {
            1
        };
        return (w, h);
    }
    let qw = monitor_width / 4;
    let qh = monitor_height / 4;
    (if qw >= 720 {
        qw
    } else {
        720
    }, if qh >= 520 {
        qh
    } else {
        520
    })
}

/// The window size to open with: the remembered size, else the default for
/// the monitor, each side clamped to the monitor.
pub open spec fn preferred_size(
    s: AppSettingsView,
    monitor_width: u32,
    monitor_height: u32,
    default_size: (u32, u32),
) -> (u32, u32) {
    (
        clamped_dimension(or_keep(s.window_width, default_size.0), min_window_width(), monitor_width),
        clamped_dimension(
            or_keep(s.window_height, default_size.1),
            min_window_height(),
            monitor_height,
        ),
    )
}

pub fn preferred_window_size(
    settings: &AppSettings,
    monitor_width: u32,
    monitor_height: u32,
    default_size: (u32, u32),
) -> (r: (u32, u32))
    ensures
        r == preferred_size(settings@, monitor_width, monitor_height, default_size),
{
    let width = match settings.window_width {
        Some(w) => w,
        None => default_size.0,
    };
    let height = match settings.window_height {
        Some(h) => h,
        None => default_size.1,
    };
    (clamp_window_dimension(width, 520, monitor_width), clamp_window_dimension(height, 390, monitor_height))
}

} // verus!
