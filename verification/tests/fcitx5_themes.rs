use snout::fcitx5::{
    apply_theme, builtin_theme_choices, builtin_themes_available, current_theme, install_theme,
    read_theme_key, reload_theme, shipped_theme_choices, theme_supported, upsert_key_value, ReloadStep, ThemeError,
    ThemeFile, ThemeProbes,
};
use snout::platform::Platform;

fn no_probes() -> ThemeProbes {
    ThemeProbes {
        fcitx5_on_path: false,
        fcitx5_remote_on_path: false,
        theme_root_exists: false,
        classicui_config_exists: false,
    }
}

fn files() -> Vec<ThemeFile> {
    vec![
        ThemeFile { theme: "OriDark".into(), rel_path: "theme.conf".into() },
        ThemeFile { theme: "OriLight".into(), rel_path: "theme.conf".into() },
        ThemeFile { theme: "OriDark".into(), rel_path: "panel.png".into() },
    ]
}

#[test]
fn builtin_theme_manifest_is_not_empty() {
    assert!(builtin_themes_available());
}

#[test]
fn read_theme_key_extracts_theme_value() {
    assert_eq!(
        read_theme_key("[Groups/0]\nTheme=OriLight\nUseDarkTheme=False\n"),
        Some("OriLight".into())
    );
}

#[test]
fn upsert_key_value_replaces_existing_theme() {
    let output = upsert_key_value("Theme=Old\nUseDarkTheme=False\n", "Theme", "New");
    assert_eq!(output, "Theme=New\nUseDarkTheme=False\n");
}

#[test]
fn upsert_key_value_appends_missing_theme() {
    let output = upsert_key_value("UseDarkTheme=False\n", "Theme", "OriDark");
    assert_eq!(output, "UseDarkTheme=False\nTheme=OriDark\n");
}

#[test]
fn read_theme_key_trims_and_skips_empty_values() {
    assert_eq!(read_theme_key("  Theme =   \nTheme = OriDark \r\n"), Some("OriDark".into()));
    assert_eq!(read_theme_key("Theme\nNoTheme=x\n"), None);
    assert_eq!(read_theme_key(""), None);
}

#[test]
fn upsert_key_value_replaces_every_matching_line_and_handles_empty_text() {
    assert_eq!(upsert_key_value("", "Theme", "A"), "Theme=A\n");
    assert_eq!(
        upsert_key_value(" Theme =x\nA=b\nTheme=y", "Theme", "Z"),
        "Theme=Z\nA=b\nTheme=Z\n"
    );
    assert_eq!(upsert_key_value("a\r\nb", "K", "v"), "a\nb\nK=v\n");
}

#[test]
fn theme_read_after_write_gives_the_theme() {
    for config in ["", "Theme=Old\n", "[x]\nTheme=\nFoo=bar\n"] {
        let written = upsert_key_value(config, "Theme", "OriLight");
        assert_eq!(read_theme_key(&written), Some("OriLight".into()));
    }
}

#[test]
fn builtin_choices_pair_each_name_with_itself() {
    let choices = builtin_theme_choices();
    assert_eq!(
        choices,
        vec![
            ("OriDark".to_string(), "OriDark".to_string()),
            ("OriLight".to_string(), "OriLight".to_string())
        ]
    );
}

#[test]
fn theme_support_needs_linux_and_some_sign_of_fcitx5() {
    let engines = vec!["ibus".to_string(), "fcitx5".to_string()];
    assert!(theme_supported(Platform::Linux, &engines, &no_probes()));
    assert!(!theme_supported(Platform::Linux, &vec!["ibus".to_string()], &no_probes()));
    let mut probes = no_probes();
    probes.classicui_config_exists = true;
    assert!(theme_supported(Platform::Linux, &Vec::new(), &probes));
    assert!(!theme_supported(Platform::MacOs, &engines, &probes));
}

#[test]
fn install_theme_picks_the_theme_files_in_order() {
    assert_eq!(install_theme("OriDark", &files()), Ok(vec![0, 2]));
    assert_eq!(install_theme("Nope", &files()), Err(ThemeError::UnknownTheme));
    assert_eq!(install_theme("OriLight", &Vec::new()), Err(ThemeError::NoFiles));
}

#[test]
fn apply_theme_plans_files_and_config() {
    let plan = apply_theme("OriLight", &files(), Some("Theme=OriDark\n")).ok().unwrap();
    assert_eq!(plan.files, vec![1]);
    assert_eq!(plan.config, "Theme=OriLight\n");
    let plan = apply_theme("OriDark", &files(), None).ok().unwrap();
    assert_eq!(plan.config, "Theme=OriDark\n");
    assert!(matches!(apply_theme("x", &files(), None), Err(ThemeError::UnknownTheme)));
}

#[test]
fn current_theme_reads_the_config_when_present() {
    assert_eq!(current_theme(None), None);
    assert_eq!(current_theme(Some("Theme=OriDark\n")), Some("OriDark".into()));
}

#[test]
fn reload_tries_qdbus6_then_fcitx5_remote_then_deploy() {
    assert_eq!(reload_theme(None), Some(ReloadStep::Qdbus6));
    assert_eq!(reload_theme(Some((ReloadStep::Qdbus6, true))), None);
    assert_eq!(reload_theme(Some((ReloadStep::Qdbus6, false))), Some(ReloadStep::Fcitx5Remote));
    assert_eq!(
        reload_theme(Some((ReloadStep::Fcitx5Remote, false))),
        Some(ReloadStep::DeployFcitx5)
    );
    assert_eq!(reload_theme(Some((ReloadStep::DeployFcitx5, false))), None);
}

#[test]
fn installed_themes_are_the_directories() {
    let entries = vec![("OriDark".to_string(), true), ("notes.txt".to_string(), false)];
    assert_eq!(snout::fcitx5::installed_theme_names(true, &entries), vec!["OriDark".to_string()]);
    assert!(snout::fcitx5::installed_theme_names(false, &entries).is_empty());
}

#[test]
fn skin_choices_are_the_themes_with_files() {
    let files = vec![
        ThemeFile { theme: "OriLight".into(), rel_path: "theme.conf".into() },
        ThemeFile { theme: "Unknown".into(), rel_path: "theme.conf".into() },
        ThemeFile { theme: "OriLight".into(), rel_path: "panel.png".into() },
    ];
    assert_eq!(
        shipped_theme_choices(&files),
        vec![("OriLight".to_string(), "OriLight".to_string())]
    );
    assert!(shipped_theme_choices(&Vec::new()).is_empty());
}
