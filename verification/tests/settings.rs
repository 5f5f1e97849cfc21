use cliip_show::config::{
    ConfigKey, HudBackgroundColor, HudPosition, LanguageSetting, DEFAULT_HUD_EMOJI,
    DEFAULT_TRUNCATE_MAX_LINES, DEFAULT_TRUNCATE_MAX_WIDTH, MAX_HUD_IMAGE_MAX_HEIGHT,
    MAX_TRUNCATE_MAX_LINES, MIN_TRUNCATE_MAX_WIDTH,
};
use cliip_show::config::StartupConfigFile;
use cliip_show::settings::{
    apply_config_file, apply_env_overrides_with, default_discrete_settings, env_var_name,
    is_real_valued, set_config_value, DiscreteConfigFile, DiscreteSettings,
};

/// A lookup that answers from fixed name/value pairs.
fn env_from(pairs: &'static [(&'static str, &'static str)]) -> impl Fn(&str) -> Option<String> {
    move |name| {
        pairs
            .iter()
            .find(|(key, _)| *key == name)
            .map(|(_, value)| (*value).to_string())
    }
}

fn no_env(_: &str) -> Option<String> {
    None
}

#[test]
fn discrete_defaults() {
    let s = default_discrete_settings();
    assert_eq!(s.truncate_max_width, DEFAULT_TRUNCATE_MAX_WIDTH);
    assert_eq!(s.truncate_max_lines, DEFAULT_TRUNCATE_MAX_LINES);
    assert_eq!(s.hud_position, HudPosition::Top);
    assert_eq!(s.hud_background_color, HudBackgroundColor::Default);
    assert_eq!(s.hud_emoji, DEFAULT_HUD_EMOJI);
    assert_eq!(s.hud_image_max_height, 160);
    assert_eq!(s.language, LanguageSetting::Auto);
    assert!(s.show_menu_bar_icon);
}

#[test]
fn apply_config_file_clamps_values_above_max() {
    let mut config = DiscreteConfigFile::default();
    config.max_lines = Some(999);
    config.hud_image_max_height = Some(9999);

    let (settings, _) = apply_config_file(default_discrete_settings(), &config);
    assert_eq!(settings.truncate_max_lines, MAX_TRUNCATE_MAX_LINES);
    assert_eq!(settings.hud_image_max_height, MAX_HUD_IMAGE_MAX_HEIGHT);
}

#[test]
fn clamped_config_values_are_reported_in_key_order() {
    let mut config = DiscreteConfigFile::default();
    config.hud_image_max_height = Some(9999);
    config.max_chars_per_line = Some(0);
    config.max_lines = Some(3);

    let (settings, warnings) = apply_config_file(default_discrete_settings(), &config);
    assert_eq!(settings.truncate_max_width, MIN_TRUNCATE_MAX_WIDTH);
    assert_eq!(settings.truncate_max_lines, 3);
    assert_eq!(
        warnings,
        vec![
            "max_chars_per_line was clamped from 0 to 1 (allowed range: 1..=500)".to_string(),
            "hud_image_max_height was clamped from 9999 to 240 (allowed range: 40..=240)"
                .to_string(),
        ]
    );
}

#[test]
fn apply_config_file_keeps_boundary_values_unchanged() {
    let mut config = DiscreteConfigFile::default();
    config.max_lines = Some(MAX_TRUNCATE_MAX_LINES);

    let (settings, warnings) = apply_config_file(default_discrete_settings(), &config);
    assert_eq!(settings.truncate_max_lines, MAX_TRUNCATE_MAX_LINES);
    assert!(warnings.is_empty());
}

#[test]
fn apply_config_file_keeps_defaults_for_absent_keys() {
    let config = DiscreteConfigFile::default();

    let defaults = default_discrete_settings();
    let (settings, warnings) = apply_config_file(defaults.clone(), &config);
    assert_eq!(settings.hud_emoji, defaults.hud_emoji);
    assert_eq!(settings.language, defaults.language);
    assert_eq!(settings, defaults);
    assert!(warnings.is_empty());
}

#[test]
fn config_file_values_replace_the_defaults() {
    let mut config = DiscreteConfigFile::default();
    config.hud_position = Some(HudPosition::Bottom);
    config.hud_background_color = Some(HudBackgroundColor::Purple);
    config.hud_emoji = Some(" 🍺 ".to_string());
    config.language = Some(LanguageSetting::En);
    config.show_menu_bar_icon = Some(false);

    let (settings, _) = apply_config_file(default_discrete_settings(), &config);
    assert_eq!(settings.hud_position, HudPosition::Bottom);
    assert_eq!(settings.hud_background_color, HudBackgroundColor::Purple);
    assert_eq!(settings.hud_emoji, "🍺");
    assert_eq!(settings.language, LanguageSetting::En);
    assert!(!settings.show_menu_bar_icon);
}

#[test]
fn unacceptable_config_emoji_keeps_the_previous_icon() {
    let mut config = DiscreteConfigFile::default();
    config.hud_emoji = Some("ab".to_string());

    let (settings, _) = apply_config_file(default_discrete_settings(), &config);
    assert_eq!(settings.hud_emoji, DEFAULT_HUD_EMOJI);
}

#[test]
fn env_overrides_take_precedence_over_the_config_file() {
    let mut config = DiscreteConfigFile::default();
    config.hud_position = Some(HudPosition::Center);
    let (from_file, _) = apply_config_file(default_discrete_settings(), &config);

    let settings = apply_env_overrides_with(
        from_file,
        env_from(&[
            ("CLIIP_SHOW_HUD_SCALE", "0.8"),
            ("CLIIP_SHOW_HUD_POSITION", "bottom"),
            ("CLIIP_SHOW_LANGUAGE", "ja"),
        ]),
    );
    assert_eq!(settings.hud_position, HudPosition::Bottom);
    assert_eq!(settings.language, LanguageSetting::Ja);
}

#[test]
fn invalid_env_values_fall_back_to_the_base_value() {
    let base = default_discrete_settings();
    let settings = apply_env_overrides_with(
        base.clone(),
        env_from(&[
            ("CLIIP_SHOW_HUD_SCALE", "abc"),
            ("CLIIP_SHOW_HUD_POSITION", "middle"),
            ("CLIIP_SHOW_HUD_EMOJI", "📋🍣"),
            ("CLIIP_SHOW_MAX_LINES", "-1"),
        ]),
    );
    assert_eq!(settings, base);
}

#[test]
fn out_of_range_env_counts_are_clamped() {
    let settings = apply_env_overrides_with(
        default_discrete_settings(),
        env_from(&[
            ("CLIIP_SHOW_MAX_LINES", "99"),
            ("CLIIP_SHOW_MAX_CHARS_PER_LINE", "0"),
        ]),
    );
    assert_eq!(settings.truncate_max_lines, MAX_TRUNCATE_MAX_LINES);
    assert_eq!(settings.truncate_max_width, MIN_TRUNCATE_MAX_WIDTH);
}

#[test]
fn env_values_are_trimmed_before_parsing() {
    let settings = apply_env_overrides_with(
        default_discrete_settings(),
        env_from(&[
            ("CLIIP_SHOW_HUD_SCALE", " 1.5 "),
            ("CLIIP_SHOW_HUD_POSITION", " bottom "),
            ("CLIIP_SHOW_MAX_LINES", " 7 "),
        ]),
    );
    assert_eq!(settings.hud_position, HudPosition::Bottom);
    assert_eq!(settings.truncate_max_lines, 7);
}

#[test]
fn every_config_key_is_reachable_via_env() {
    for key in ConfigKey::ALL {
        let value = match key {
            ConfigKey::MaxCharsPerLine => "50",
            ConfigKey::MaxLines => "3",
            ConfigKey::HudPosition => "bottom",
            ConfigKey::HudBackgroundColor => "blue",
            ConfigKey::HudEmoji => "🍺",
            ConfigKey::HudImageMaxHeight => "80",
            ConfigKey::Language => "ja",
            _ => continue,
        };
        let env_name = format!("CLIIP_SHOW_{}", key.as_str().to_uppercase());
        assert_eq!(env_var_name(key), env_name);
        let settings = apply_env_overrides_with(default_discrete_settings(), |name: &str| {
            if name == env_name {
                Some(value.to_string())
            } else {
                None
            }
        });
        assert_ne!(
            settings,
            default_discrete_settings(),
            "{env_name} is not applied"
        );
    }
}

#[test]
fn empty_env_emoji_disables_the_icon() {
    let settings = apply_env_overrides_with(
        default_discrete_settings(),
        env_from(&[("CLIIP_SHOW_HUD_EMOJI", "")]),
    );
    assert_eq!(settings.hud_emoji, "");
}

#[test]
fn no_environment_keeps_the_settings() {
    let mut config = DiscreteConfigFile::default();
    config.max_chars_per_line = Some(42);
    let (from_file, _) = apply_config_file(default_discrete_settings(), &config);
    let settings: DiscreteSettings = apply_env_overrides_with(from_file.clone(), no_env);
    assert_eq!(settings, from_file);
    assert_eq!(settings.truncate_max_width, 42);
}

#[test]
fn show_menu_bar_icon_has_no_environment_variable() {
    let mut base = default_discrete_settings();
    base.show_menu_bar_icon = false;
    let settings = apply_env_overrides_with(
        base,
        env_from(&[("CLIIP_SHOW_SHOW_MENU_BAR_ICON", "true")]),
    );
    assert!(!settings.show_menu_bar_icon);
}

fn empty_files() -> (DiscreteConfigFile, StartupConfigFile) {
    (DiscreteConfigFile::default(), StartupConfigFile::default())
}

#[test]
fn set_config_value_clamps_values() {
    let (mut config, mut startup) = empty_files();
    let lines_warning = set_config_value(&mut config, &mut startup, ConfigKey::MaxLines, "999")
        .expect("set max lines");

    assert_eq!(config.max_lines, Some(20));
    assert!(lines_warning.is_some());
    assert_eq!(
        lines_warning.unwrap(),
        "max_lines was clamped from 999 to 20 (allowed range: 1..=20)"
    );
}

#[test]
fn set_config_value_accepts_new_display_options() {
    let (mut config, mut startup) = empty_files();
    let position_warning =
        set_config_value(&mut config, &mut startup, ConfigKey::HudPosition, "bottom")
            .expect("set position");
    let color_warning =
        set_config_value(&mut config, &mut startup, ConfigKey::HudBackgroundColor, "blue")
            .expect("set background color");

    assert_eq!(config.hud_position, Some(HudPosition::Bottom));
    assert_eq!(config.hud_background_color, Some(HudBackgroundColor::Blue));
    assert!(position_warning.is_none());
    assert!(color_warning.is_none());
}

#[test]
fn set_config_value_clamps_hud_image_max_height() {
    let (mut config, mut startup) = empty_files();
    let warning = set_config_value(&mut config, &mut startup, ConfigKey::HudImageMaxHeight, "9999")
        .expect("set hud image max height");
    assert_eq!(config.hud_image_max_height, Some(MAX_HUD_IMAGE_MAX_HEIGHT));
    assert!(warning.is_some());

    let warning = set_config_value(&mut config, &mut startup, ConfigKey::HudImageMaxHeight, "120")
        .expect("set hud image max height");
    assert_eq!(config.hud_image_max_height, Some(120));
    assert!(warning.is_none());

    let err = set_config_value(&mut config, &mut startup, ConfigKey::HudImageMaxHeight, "tall")
        .expect_err("reject non-integer");
    assert!(err.message().contains("hud_image_max_height"));
    assert_eq!(err.message(), "invalid value for hud_image_max_height: invalid integer: tall");
    assert_eq!(config.hud_image_max_height, Some(120));
}

#[test]
fn set_config_value_accepts_hud_emoji() {
    let (mut config, mut startup) = empty_files();
    set_config_value(&mut config, &mut startup, ConfigKey::HudEmoji, "🍺").expect("set hud emoji");
    assert_eq!(config.hud_emoji, Some("🍺".to_string()));

    set_config_value(&mut config, &mut startup, ConfigKey::HudEmoji, "  ")
        .expect("set empty hud emoji");
    assert_eq!(config.hud_emoji, Some(String::new()));

    let err = set_config_value(&mut config, &mut startup, ConfigKey::HudEmoji, "📋🍣")
        .expect_err("reject multiple graphemes");
    assert!(err.message().contains("hud_emoji"));
    assert_eq!(config.hud_emoji, Some(String::new()));
}

#[test]
fn set_config_value_rejects_invalid_enum_values() {
    let (mut config, mut startup) = empty_files();
    let position_err = set_config_value(&mut config, &mut startup, ConfigKey::HudPosition, "middle")
        .expect_err("reject invalid position");
    let color_err =
        set_config_value(&mut config, &mut startup, ConfigKey::HudBackgroundColor, "orange")
            .expect_err("reject invalid color");

    assert!(position_err.message().contains("hud_position"));
    assert!(color_err.message().contains("hud_background_color"));
    assert_eq!(
        position_err.message(),
        "invalid value for hud_position: middle (allowed: top, center, bottom)"
    );
    assert_eq!(config.hud_position, None);
    assert_eq!(config.hud_background_color, None);
}

#[test]
fn set_config_value_accepts_language() {
    let (mut config, mut startup) = empty_files();
    let warning = set_config_value(&mut config, &mut startup, ConfigKey::Language, "ja")
        .expect("set language");
    assert_eq!(config.language, Some(LanguageSetting::Ja));
    assert!(warning.is_none());

    let err = set_config_value(&mut config, &mut startup, ConfigKey::Language, "fr")
        .expect_err("reject invalid language");
    assert!(err.message().contains("language"));
}

#[test]
fn set_config_value_reads_flags() {
    let (mut config, mut startup) = empty_files();
    set_config_value(&mut config, &mut startup, ConfigKey::ShowMenuBarIcon, " false ")
        .expect("set menu bar icon");
    set_config_value(&mut config, &mut startup, ConfigKey::StartAtLogin, "true")
        .expect("set start at login");
    assert_eq!(config.show_menu_bar_icon, Some(false));
    assert_eq!(startup.start_at_login, Some(true));

    let err = set_config_value(&mut config, &mut startup, ConfigKey::StartAtLogin, "yes")
        .expect_err("reject a flag that is not true or false");
    assert_eq!(
        err.message(),
        "invalid value for start_at_login: yes (allowed: true, false)"
    );
    assert_eq!(startup.start_at_login, Some(true));
}

#[test]
fn real_valued_keys_are_the_durations_scale_and_opacity() {
    let real: Vec<ConfigKey> = ConfigKey::ALL.iter().copied().filter(|k| is_real_valued(*k)).collect();
    assert_eq!(
        real,
        vec![
            ConfigKey::PollIntervalSecs,
            ConfigKey::HudDurationSecs,
            ConfigKey::HudFadeDurationSecs,
            ConfigKey::HudScale,
            ConfigKey::HudBackgroundOpacity,
        ]
    );
}

#[test]
fn apply_config_file_treats_empty_hud_emoji_as_no_icon() {
    let base = default_discrete_settings();
    assert_ne!(base.hud_emoji, "");
    let mut config = DiscreteConfigFile::default();
    config.hud_emoji = Some(String::new());
    let (settings, _) = apply_config_file(base, &config);
    assert_eq!(settings.hud_emoji, "");
}

#[test]
fn apply_config_file_clamps_out_of_range_values() {
    let base = default_discrete_settings();
    let mut config = DiscreteConfigFile::default();
    config.max_chars_per_line = Some(1000);
    let (settings, _) = apply_config_file(base, &config);
    assert_eq!(settings.truncate_max_width, cliip_show::config::MAX_TRUNCATE_MAX_WIDTH);
}

#[test]
fn discrete_settings_survive_a_config_file_round_trip() {
    let mut settings = default_discrete_settings();
    settings.truncate_max_width = 42;
    settings.truncate_max_lines = 3;
    settings.hud_position = HudPosition::Center;
    settings.hud_background_color = HudBackgroundColor::Green;
    settings.hud_emoji = "🍣".to_string();
    settings.hud_image_max_height = 80;
    settings.language = LanguageSetting::En;
    settings.show_menu_bar_icon = false;

    let file = cliip_show::settings::settings_to_config_file(&settings);
    let (loaded, warnings) = apply_config_file(default_discrete_settings(), &file);
    assert_eq!(loaded, settings);
    assert!(warnings.is_empty());
}

#[test]
fn empty_icon_survives_a_config_file_round_trip() {
    let mut settings = default_discrete_settings();
    settings.hud_emoji = String::new();
    let file = cliip_show::settings::settings_to_config_file(&settings);
    assert_eq!(file.hud_emoji, Some(String::new()));
    let (loaded, _) = apply_config_file(default_discrete_settings(), &file);
    assert_eq!(loaded.hud_emoji, "");
}
