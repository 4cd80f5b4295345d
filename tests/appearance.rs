use syncthing_status::text::{contains_text, extract_api_key};
use syncthing_status::appearance::{
    detect_desktop, get_current_theme, get_state_file, is_kde_session, is_macos,
    kde_desktop_ids, kde_theme_is_dark, kde_wallpaper_script, macos_theme_is_dark,
    open_settings, set_dark_mode, AppearanceAction, AppearanceError, Desktop, SettingsPane,
    ThemeQuery,
};

#[test]
fn macos_detection() {
    assert!(is_macos("macos"));
    assert!(!is_macos("linux"));
}

#[test]
fn kde_session_names() {
    assert!(is_kde_session("KDE"));
    assert!(is_kde_session("ubuntu:Plasma"));
    assert!(!is_kde_session("GNOME"));
    assert!(!is_kde_session(""));
    assert!(contains_text("abc", ""));
    assert!(!contains_text("ab", "abc"));
}

#[test]
fn desktop_priority() {
    assert!(detect_desktop(true, true) == Desktop::MacOs);
    assert!(detect_desktop(false, true) == Desktop::Kde);
    assert!(detect_desktop(false, false) == Desktop::Unsupported);
}

#[test]
fn dark_mode_plans() {
    let mac = set_dark_mode(Desktop::MacOs, true).ok().unwrap();
    assert!(matches!(mac[0], AppearanceAction::MacosDarkMode { dark: true }));
    match &mac[1] {
        AppearanceAction::MacosWallpaper { color } => assert_eq!(color, "Black"),
        _ => panic!("expected a wallpaper change"),
    }
    let kde = set_dark_mode(Desktop::Kde, false).ok().unwrap();
    match (&kde[0], &kde[1]) {
        (AppearanceAction::KdeColorScheme { scheme }, AppearanceAction::KdeWallpaper { rgb }) => {
            assert_eq!(scheme, "BreezeLight");
            assert_eq!(rgb, "192,192,192");
        }
        _ => panic!("expected a scheme and a wallpaper"),
    }
    let kde_dark = set_dark_mode(Desktop::Kde, true).ok().unwrap();
    match &kde_dark[1] {
        AppearanceAction::KdeWallpaper { rgb } => assert_eq!(rgb, "0,0,0"),
        _ => panic!("expected a wallpaper"),
    }
    let err = set_dark_mode(Desktop::Unsupported, true).err().unwrap();
    assert!(err == AppearanceError::UnsupportedPlatform);
    assert_eq!(err.message(), "Unsupported platform");
}

#[test]
fn theme_queries_and_settings() {
    assert!(get_current_theme(Desktop::MacOs) == Ok(ThemeQuery::MacosDarkMode));
    assert!(get_current_theme(Desktop::Kde) == Ok(ThemeQuery::KdeColorSchemes));
    assert!(get_current_theme(Desktop::Unsupported) == Err(AppearanceError::UnsupportedPlatform));
    assert!(open_settings(Desktop::MacOs) == Some(SettingsPane::MacosWallpaper));
    assert!(open_settings(Desktop::Kde) == Some(SettingsPane::KdeAppearance));
    assert!(open_settings(Desktop::Unsupported).is_none());
}

#[test]
fn state_file_paths() {
    assert_eq!(
        get_state_file(&Some("/home/ann".to_string())),
        "/home/ann/.local/state/switch-appearance/last-run"
    );
    assert_eq!(
        get_state_file(&Some("/home/ann/".to_string())),
        "/home/ann/.local/state/switch-appearance/last-run"
    );
    assert_eq!(get_state_file(&None), "/tmp/.local/state/switch-appearance/last-run");
}

#[test]
fn api_key_extraction() {
    let doc = "<configuration>\n  <gui>\n    <apikey>SECRET-REDACTED</apikey>\n  </gui>\n</configuration>";
    assert_eq!(extract_api_key(doc).as_deref(), Some("SECRET-REDACTED"));
    assert_eq!(extract_api_key("<apikey></apikey>").as_deref(), Some(""));
    assert_eq!(extract_api_key("<apikey>abc").as_deref(), None);
    assert_eq!(extract_api_key("no key here").as_deref(), None);
    assert_eq!(extract_api_key("</apikey><apikey>k1</apikey><apikey>k2</apikey>").as_deref(), Some("k1"));
}

#[test]
fn macos_theme_output() {
    assert!(macos_theme_is_dark("true\n"));
    assert!(macos_theme_is_dark("  true "));
    assert!(!macos_theme_is_dark("false\n"));
    assert!(!macos_theme_is_dark("true true"));
    assert!(!macos_theme_is_dark(""));
}

#[test]
fn kde_theme_output() {
    let dark = "You have the following color schemes on your system:\n * BreezeClassic\n * BreezeDark (current color scheme)\n * BreezeLight\n";
    assert!(kde_theme_is_dark(dark));
    let light = " * BreezeDark\n * BreezeLight (current color scheme)\n";
    assert!(!kde_theme_is_dark(light));
    assert!(!kde_theme_is_dark(" * BreezeDark\n"));
}

#[test]
fn kde_desktop_id_list() {
    assert_eq!(kde_desktop_ids("1,2,3\n"), vec!["1", "2", "3"]);
    assert_eq!(kde_desktop_ids("  7,,9, \n"), vec!["7", "9"]);
    assert_eq!(kde_desktop_ids("1, 2"), vec!["1", " 2"]);
    assert!(kde_desktop_ids("\n").is_empty());
    assert!(kde_desktop_ids(",").is_empty());
}

#[test]
fn kde_script_text() {
    assert_eq!(
        kde_wallpaper_script("4", "0,0,0"),
        "\nvar d = desktopById(4);\nd.wallpaperPlugin = 'org.kde.color';\nd.currentConfigGroup = ['Wallpaper', 'org.kde.color', 'General'];\nd.writeConfig('Color', '0,0,0');\n"
    );
}
