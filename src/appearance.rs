//! Decisions of the light/dark appearance toggle: which desktop is in use,
//! what to change on it, and where the toggle keeps its state.
use vstd::prelude::*;
use vstd::string::*;
use crate::text::{contains, contains_text};
use crate::discovery::{chars_of, line_spans, lines, spans_view, word_spans, words};

verus! {

/// The desktops whose appearance can be changed.
#[derive(Clone, Copy, PartialEq, Eq, Structural)]
pub enum Desktop {
    MacOs,
    Kde,
    Unsupported,
}

#[derive(Clone, Copy, PartialEq, Eq, Structural)]
pub enum AppearanceError {
    UnsupportedPlatform,
}

impl AppearanceError {
    pub fn message(&self) -> (r: String)
        ensures
            r@ == "Unsupported platform"@,
    {
        String::from_str("Unsupported platform")
    }
}

/// One change that the desktop is asked to make.
pub enum AppearanceAction {
    /// Switch the system dark mode on or off.
    MacosDarkMode { dark: bool },
    /// Set every desktop picture to the solid color of that name.
    MacosWallpaper { color: String },
    /// Apply a color scheme.
    KdeColorScheme { scheme: String },
    /// Set every desktop's wallpaper to a plain color, as "r,g,b".
    KdeWallpaper { rgb: String },
}

/// How the current theme is read.
#[derive(Clone, Copy, PartialEq, Eq, Structural)]
pub enum ThemeQuery {
    /// Ask the system appearance preferences whether dark mode is on.
    MacosDarkMode,
    /// List the color schemes and find the current one.
    KdeColorSchemes,
}

/// What opening the appearance settings means on a desktop.
#[derive(Clone, Copy, PartialEq, Eq, Structural)]
pub enum SettingsPane {
    MacosWallpaper,
    KdeAppearance,
}

/// Whether the target operating system is macOS.
pub fn is_macos(target_os: &str) -> (r: bool)
    ensures
        r == (target_os@ == "macos"@),
{
    let t = String::from_str(target_os);
    t == String::from_str("macos")
}

/// Whether the desktop session name announces KDE Plasma.
pub fn is_kde_session(current_desktop: &str) -> (r: bool)
    ensures
        r == (contains(current_desktop@, "KDE"@) || contains(current_desktop@, "Plasma"@)),
{
    contains_text(current_desktop, "KDE") || contains_text(current_desktop, "Plasma")
}

/// The desktop to act on: macOS first, then KDE Plasma.
pub open spec fn desktop_of(macos: bool, kde: bool) -> Desktop {
    if macos {
        Desktop::MacOs
    } else if kde {
        Desktop::Kde
    } else {
        Desktop::Unsupported
    }
}

pub fn detect_desktop(macos: bool, kde: bool) -> (r: Desktop)
    ensures
        r == desktop_of(macos, kde),
{
    if macos {
        Desktop::MacOs
    } else if kde {
        Desktop::Kde
    } else {
        Desktop::Unsupported
    }
}

pub open spec fn wallpaper_color(dark: bool) -> Seq<char> {
    if dark {
        "Black"@
    } else {
        "Silver"@
    }
}

/// The plain color that stands for a wallpaper color name on KDE.
pub open spec fn kde_rgb(color: Seq<char>) -> Seq<char> {
    if color == "Black"@ {
        "0,0,0"@
    } else {
        "192,192,192"@
    }
}

pub open spec fn kde_scheme(dark: bool) -> Seq<char> {
    if dark {
        "BreezeDark"@
    } else {
        "BreezeLight"@
    }
}

pub fn kde_wallpaper_rgb(color: &str) -> (r: String)
    ensures
        r@ == kde_rgb(color@),
{
    if String::from_str(color) == String::from_str("Black") {
        String::from_str("0,0,0")
    } else {
        String::from_str("192,192,192")
    }
}

/// The changes that switch a desktop to dark (or light) mode, in the order
/// they are made: the theme, then a black (or silver) wallpaper.
pub open spec fn dark_mode_plan_matches(
    r: Result<Vec<AppearanceAction>, AppearanceError>,
    desktop: Desktop,
    dark: bool,
) -> bool {
    match desktop {
        Desktop::Unsupported => r == Err::<Vec<AppearanceAction>, AppearanceError>(
            AppearanceError::UnsupportedPlatform,
        ),
        Desktop::MacOs => r is Ok && r->Ok_0@.len() == 2 && r->Ok_0@[0] == (
        AppearanceAction::MacosDarkMode { dark }) && match r->Ok_0@[1] {
            AppearanceAction::MacosWallpaper { color } => color@ == wallpaper_color(dark),
            _ => false,
        },
        Desktop::Kde => r is Ok && r->Ok_0@.len() == 2 && match r->Ok_0@[0] {
            AppearanceAction::KdeColorScheme { scheme } => scheme@ == kde_scheme(dark),
            _ => false,
        } && match r->Ok_0@[1] {
            AppearanceAction::KdeWallpaper { rgb } => rgb@ == kde_rgb(wallpaper_color(dark)),
            _ => false,
        },
    }
}

/// Plans the switch of a desktop to dark or light mode.
pub fn set_dark_mode(desktop: Desktop, dark: bool) -> (r: Result<Vec<AppearanceAction>, AppearanceError>)
    ensures
        dark_mode_plan_matches(r, desktop, dark),
{
    let color = if dark {
        "Black"
    } else {
        "Silver"
    };
    match desktop {
        Desktop::MacOs => {
            let mut v: Vec<AppearanceAction> = Vec::new();
            v.push(AppearanceAction::MacosDarkMode { dark });
            v.push(AppearanceAction::MacosWallpaper { color: String::from_str(color) });
            Ok(v)
        },
        Desktop::Kde => {
            let scheme = if dark {
                "BreezeDark"
            } else {
                "BreezeLight"
            };
            let mut v: Vec<AppearanceAction> = Vec::new();
            v.push(AppearanceAction::KdeColorScheme { scheme: String::from_str(scheme) });
            v.push(AppearanceAction::KdeWallpaper { rgb: kde_wallpaper_rgb(color) });
            Ok(v)
        },
        Desktop::Unsupported => Err(AppearanceError::UnsupportedPlatform),
    }
}

/// How to read the current theme of a desktop.
pub fn get_current_theme(desktop: Desktop) -> (r: Result<ThemeQuery, AppearanceError>)
    ensures
        r == match desktop {
            Desktop::MacOs => Ok(ThemeQuery::MacosDarkMode),
            Desktop::Kde => Ok(ThemeQuery::KdeColorSchemes),
            Desktop::Unsupported => Err(AppearanceError::UnsupportedPlatform),
        },
{
    match desktop {
        Desktop::MacOs => Ok(ThemeQuery::MacosDarkMode),
        Desktop::Kde => Ok(ThemeQuery::KdeColorSchemes),
        Desktop::Unsupported => Err(AppearanceError::UnsupportedPlatform),
    }
}

/// Which settings pane to open on a desktop, if any.
pub fn open_settings(desktop: Desktop) -> (r: Option<SettingsPane>)
    ensures
        r == match desktop {
            Desktop::MacOs => Some(SettingsPane::MacosWallpaper),
            Desktop::Kde => Some(SettingsPane::KdeAppearance),
            Desktop::Unsupported => None,
        },
{
    match desktop {
        Desktop::MacOs => Some(SettingsPane::MacosWallpaper),
        Desktop::Kde => Some(SettingsPane::KdeAppearance),
        Desktop::Unsupported => None,
    }
}

/// `base` joined with the relative path component `part`, with one slash
/// between them.
pub open spec fn path_join(base: Seq<char>, part: Seq<char>) -> Seq<char> {
    if base.len() == 0 {
        part
    } else if base.last() == '/' {
        base + part
    } else {
        base + "/"@ + part
    }
}

/// The file where the toggle records its last run: under the home
/// directory, or under /tmp when there is none.
pub open spec fn state_file_path(home: Option<Seq<char>>) -> Seq<char> {
    let h = match home {
        Some(h) => h,
        None => "/tmp"@,
    };
    path_join(
        path_join(path_join(path_join(h, ".local"@), "state"@), "switch-appearance"@),
        "last-run"@,
    )
}

fn join(base: String, part: &str) -> (r: String)
    ensures
        r@ == path_join(base@, part@),
{
    let n = base.as_str().unicode_len();
    if n == 0 {
        String::from_str(part)
    } else if base.as_str().get_char(n - 1) == '/' {
        base.concat(part)
    } else {
        base.concat("/").concat(part)
    }
}

/// The path of the file where the toggle records its last run.
pub fn get_state_file(home: &Option<String>) -> (r: String)
    ensures
        r@ == state_file_path(crate::model::opt_view(*home)),
{
    let h = match home {
        Some(h) => h.clone(),
        None => String::from_str("/tmp"),
    };
    join(join(join(join(h, ".local"), "state"), "switch-appearance"), "last-run")
}


/// The macOS answer to "is dark mode on": the output is the single word
/// `true`, white space aside.
pub open spec fn macos_dark(s: Seq<char>) -> bool {
    let w = word_spans(s, 0, s.len() as int);
    w.len() == 1 && s.subrange(w[0].0, w[0].1) == "true"@
}

/// Reads whether dark mode is on from the macOS appearance query's output.
pub fn macos_theme_is_dark(output: &str) -> (r: bool)
    ensures
        r == macos_dark(output@),
{
    let cs = chars_of(output);
    let w = words(&cs, 0, cs.len());
    if w.len() != 1 {
        return false;
    }
    let (a, b) = w[0];
    assert(spans_view(w@)[0] == (a as int, b as int));
    String::from_str(output.substring_char(a, b)) == String::from_str("true")
}

/// In a listing of KDE color schemes, whether the line that marks the
/// current scheme names a dark one; false when no line marks it.
pub open spec fn kde_dark_from(s: Seq<char>, ls: Seq<(int, int)>, k: int) -> bool
    decreases ls.len() - k,
{
    if k < 0 || k >= ls.len() {
        false
    } else {
        let line = s.subrange(ls[k].0, ls[k].1);
        if contains(line, "(current color scheme)"@) {
            contains(line, "Dark"@)
        } else {
            kde_dark_from(s, ls, k + 1)
        }
    }
}

/// Reads whether the current KDE color scheme is dark from the output of
/// `plasma-apply-colorscheme --list-schemes`.
pub fn kde_theme_is_dark(output: &str) -> (r: bool)
    ensures
        r == kde_dark_from(output@, line_spans(output@), 0),
{
    let cs = chars_of(output);
    let ls = lines(&cs);
    let ghost lv = spans_view(ls@);
    let mut k: usize = 0;
    while k < ls.len()
        invariant
            cs@ == output@,
            lv == spans_view(ls@),
            lv == line_spans(cs@),
            forall|j: int| 0 <= j < ls@.len() ==> (#[trigger] ls@[j]).0 <= ls@[j].1 <= cs@.len(),
            kde_dark_from(cs@, lv, k as int) == kde_dark_from(cs@, lv, 0),
        decreases ls.len() - k,
    {
        let (lo, hi) = ls[k];
        assert(lv[k as int] == (lo as int, hi as int));
        let line = output.substring_char(lo, hi);
        if contains_text(line, "(current color scheme)") {
            return contains_text(line, "Dark");
        }
        k = k + 1;
    }
    false
}


/// The span of `s` without its leading and trailing white space.
pub open spec fn trim_span(s: Seq<char>) -> (int, int) {
    let w = word_spans(s, 0, s.len() as int);
    if w.len() == 0 {
        (0, 0)
    } else {
        (w[0].0, w[w.len() - 1].1)
    }
}

/// The non-empty pieces of `s[lo..i)` that a comma ends, and the start of
/// the piece still open at `i`.
pub open spec fn comma_scan(s: Seq<char>, lo: int, i: int) -> (Seq<Seq<char>>, int)
    decreases i - lo,
{
    if i <= lo {
        (seq![], lo)
    } else {
        let p = comma_scan(s, lo, i - 1);
        if s[i - 1] == ',' {
            (
                if i - 1 > p.1 {
                    p.0.push(s.subrange(p.1, i - 1))
                } else {
                    p.0
                },
                i,
            )
        } else {
            p
        }
    }
}

/// The desktop identities in the comma-separated list that the Plasma
/// shell prints, white space around the list removed and empty items
/// skipped.
pub open spec fn desktop_ids(s: Seq<char>) -> Seq<Seq<char>> {
    let t = trim_span(s);
    let p = comma_scan(s, t.0, t.1);
    if t.1 > p.1 {
        p.0.push(s.subrange(p.1, t.1))
    } else {
        p.0
    }
}

pub open spec fn strings_view(v: Seq<String>) -> Seq<Seq<char>> {
    v.map_values(|x: String| x@)
}

/// Reads the desktop identities from the Plasma shell's answer.
pub fn kde_desktop_ids(output: &str) -> (r: Vec<String>)
    ensures
        strings_view(r@) == desktop_ids(output@),
{
    let cs = chars_of(output);
    let w = words(&cs, 0, cs.len());
    let (lo, hi): (usize, usize) = if w.len() == 0 {
        (0, 0)
    } else {
        (w[0].0, w[w.len() - 1].1)
    };
    proof {
        if w@.len() > 0 {
            assert(spans_view(w@)[0] == (w@[0].0 as int, w@[0].1 as int));
            let l = w@.len() - 1;
            assert(spans_view(w@)[l] == (w@[l].0 as int, w@[l].1 as int));
            if l > 0 {
                assert(w@[0].1 <= w@[l].0);
            }
        }
    }
    assert(trim_span(cs@) == (lo as int, hi as int));
    let mut out: Vec<String> = Vec::new();
    let mut st: usize = lo;
    let mut i: usize = lo;
    while i < hi
        invariant
            cs@ == output@,
            lo <= st <= i <= hi <= cs@.len(),
            (strings_view(out@), st as int) == comma_scan(cs@, lo as int, i as int),
        decreases hi - i,
    {
        if cs[i] == ',' {
            if i > st {
                let ghost old_out = out@;
                let piece = String::from_str(output.substring_char(st, i));
                out.push(piece);
                assert(strings_view(out@) =~= strings_view(old_out).push(piece@));
            }
            st = i + 1;
        }
        i = i + 1;
    }
    if hi > st {
        let ghost old_out = out@;
        let piece = String::from_str(output.substring_char(st, hi));
        out.push(piece);
        assert(strings_view(out@) =~= strings_view(old_out).push(piece@));
    }
    out
}

/// The Plasma shell script that gives desktop `id` a plain `rgb` wallpaper.
pub open spec fn kde_wallpaper_script_text(id: Seq<char>, rgb: Seq<char>) -> Seq<char> {
    "\nvar d = desktopById("@ + id + ");\nd.wallpaperPlugin = 'org.kde.color';\nd.currentConfigGroup = ['Wallpaper', 'org.kde.color', 'General'];\nd.writeConfig('Color', '"@
        + rgb + "');\n"@
}

/// Writes the script that sets one desktop's wallpaper to a plain color.
pub fn kde_wallpaper_script(id: &str, rgb: &str) -> (r: String)
    ensures
        r@ == kde_wallpaper_script_text(id@, rgb@),
{
    let mut out = String::from_str("\nvar d = desktopById(");
    out.append(id);
    out.append(
        ");\nd.wallpaperPlugin = 'org.kde.color';\nd.currentConfigGroup = ['Wallpaper', 'org.kde.color', 'General'];\nd.writeConfig('Color', '",
    );
    out.append(rgb);
    out.append("');\n");
    assert(out@ =~= kde_wallpaper_script_text(id@, rgb@));
    out
}

} // verus!
