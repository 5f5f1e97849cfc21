use cliip_show::config::{
    config_file_path_with, hud_background_color_value, hud_emoji_value, hud_position_value,
    language_value, parse_usize_config, hud_emoji_validation_error, parse_hud_background_color,
    parse_hud_emoji, parse_hud_position, parse_language, parse_usize_setting, parse_usize_value,
    ConfigKey, HudBackgroundColor, HudPosition, LanguageSetting,
};
use cliip_show::error::AppError;
use cliip_show::i18n::Msg;

/// `CLIIP_SHOW_CONFIG_PATH` wins over `HOME` and is trimmed.
#[test]
fn explicit_config_path_wins_over_home() {
    let path = config_file_path_with(|name: &str| match name {
        "CLIIP_SHOW_CONFIG_PATH" => Some(" /tmp/custom.toml ".to_string()),
        "HOME" => Some("/Users/example".to_string()),
        _ => None,
    })
    .expect("resolve path");
    assert_eq!(path, "/tmp/custom.toml");
}

/// A blank `CLIIP_SHOW_CONFIG_PATH` counts as unset.
#[test]
fn blank_config_path_falls_back_to_home() {
    let path = config_file_path_with(|name: &str| match name {
        "CLIIP_SHOW_CONFIG_PATH" => Some("   ".to_string()),
        "HOME" => Some("/Users/example".to_string()),
        _ => None,
    })
    .expect("resolve path");
    assert_eq!(
        path,
        "/Users/example/Library/Application Support/cliip-show/config.toml"
    );
}

/// Without a usable `HOME` there is no config path.
#[test]
fn missing_or_blank_home_is_an_error() {
    let error = config_file_path_with(|_: &str| None).expect_err("must fail without HOME");
    assert!(matches!(error, AppError::ConfigResolve(_)), "{error:?}");

    let error = config_file_path_with(|name: &str| match name {
        "HOME" => Some("  ".to_string()),
        _ => None,
    })
    .expect_err("must fail with blank HOME");
    assert!(matches!(error, AppError::ConfigResolve(_)), "{error:?}");
    assert_eq!(error.message(), "failed to resolve HOME for config path");
}

#[test]
fn home_with_a_trailing_slash_is_joined_without_doubling_it() {
    let path = config_file_path_with(|name: &str| match name {
        "HOME" => Some(" /Users/example/ ".to_string()),
        _ => None,
    })
    .expect("resolve path");
    assert_eq!(
        path,
        "/Users/example/Library/Application Support/cliip-show/config.toml"
    );
}

#[test]
fn parse_usize_setting_clamps_and_fallbacks() {
    assert_eq!(parse_usize_setting("0", 10, 1, 20), 1);
    assert_eq!(parse_usize_setting("100", 10, 1, 20), 20);
    assert_eq!(parse_usize_setting("5", 10, 1, 20), 5);
    assert_eq!(parse_usize_setting("abc", 10, 1, 20), 10);
}

#[test]
fn parse_usize_value_clamps_to_the_range() {
    assert_eq!(parse_usize_value(0, 1, 500), 1);
    assert_eq!(parse_usize_value(501, 1, 500), 500);
    assert_eq!(parse_usize_value(42, 1, 500), 42);
}

#[test]
fn parse_hud_position_accepts_valid_values() {
    assert_eq!(parse_hud_position("top"), Some(HudPosition::Top));
    assert_eq!(parse_hud_position("center"), Some(HudPosition::Center));
    assert_eq!(parse_hud_position("bottom"), Some(HudPosition::Bottom));
    assert_eq!(parse_hud_position("  Top  "), Some(HudPosition::Top));
    assert_eq!(parse_hud_position("CENTER"), Some(HudPosition::Center));
    assert_eq!(parse_hud_position("invalid"), None);
}

#[test]
fn parse_hud_background_color_accepts_valid_values() {
    assert_eq!(
        parse_hud_background_color("default"),
        Some(HudBackgroundColor::Default)
    );
    assert_eq!(
        parse_hud_background_color("yellow"),
        Some(HudBackgroundColor::Yellow)
    );
    assert_eq!(
        parse_hud_background_color("  Green  "),
        Some(HudBackgroundColor::Green)
    );
    assert_eq!(parse_hud_background_color("invalid"), None);
}

#[test]
fn parse_hud_emoji_trims_and_accepts_empty_as_no_icon() {
    assert_eq!(parse_hud_emoji("📋").unwrap(), "📋");
    assert_eq!(parse_hud_emoji("🍣").unwrap(), "🍣");
    assert_eq!(parse_hud_emoji("  🎯  ").unwrap(), "🎯");
    assert_eq!(parse_hud_emoji("").unwrap(), "");
    assert_eq!(parse_hud_emoji("   ").unwrap(), "");
    assert!(parse_hud_emoji("📋🍣").is_none());
    assert!(parse_hud_emoji("a").is_none());
    assert!(parse_hud_emoji("あ").is_none());
    assert!(parse_hud_emoji("1").is_none());
    assert_eq!(parse_hud_emoji("🇯🇵").unwrap(), "🇯🇵");
    assert_eq!(parse_hud_emoji("1️⃣").unwrap(), "1️⃣");
}

#[test]
fn hud_emoji_validation_error_reports_reason() {
    assert_eq!(hud_emoji_validation_error(""), None);
    assert_eq!(hud_emoji_validation_error("   "), None);
    assert_eq!(hud_emoji_validation_error("📋"), None);
    assert_eq!(hud_emoji_validation_error("🇯🇵"), None);
    assert_eq!(hud_emoji_validation_error("1️⃣"), None);
    assert_eq!(hud_emoji_validation_error("📋🍣"), Some(Msg::EmojiTooLong));
    assert_eq!(hud_emoji_validation_error("a"), Some(Msg::EmojiNotEmoji));
    assert_eq!(hud_emoji_validation_error("あ"), Some(Msg::EmojiNotEmoji));
}

#[test]
fn parse_language_accepts_valid_values() {
    assert_eq!(parse_language("auto"), Some(LanguageSetting::Auto));
    assert_eq!(parse_language("ja"), Some(LanguageSetting::Ja));
    assert_eq!(parse_language("en"), Some(LanguageSetting::En));
    assert_eq!(parse_language("  JA  "), Some(LanguageSetting::Ja));
    assert_eq!(parse_language("invalid"), None);
}

#[test]
fn choices_accept_hyphens_for_underscores_and_names_round_trip() {
    for p in [HudPosition::Top, HudPosition::Center, HudPosition::Bottom] {
        assert_eq!(parse_hud_position(p.as_str()), Some(p));
    }
    for c in [
        HudBackgroundColor::Default,
        HudBackgroundColor::Yellow,
        HudBackgroundColor::Blue,
        HudBackgroundColor::Green,
        HudBackgroundColor::Red,
        HudBackgroundColor::Purple,
    ] {
        assert_eq!(parse_hud_background_color(c.as_str()), Some(c));
    }
    for l in [LanguageSetting::Auto, LanguageSetting::Ja, LanguageSetting::En] {
        assert_eq!(parse_language(l.as_str()), Some(l));
    }
}

#[test]
fn config_keys_are_named_as_in_the_config_file() {
    let names: Vec<&str> = ConfigKey::ALL.iter().map(|k| k.as_str()).collect();
    assert_eq!(
        names,
        vec![
            "poll_interval_secs",
            "hud_duration_secs",
            "hud_fade_duration_secs",
            "max_chars_per_line",
            "max_lines",
            "hud_position",
            "hud_scale",
            "hud_background_color",
            "hud_background_opacity",
            "hud_emoji",
            "hud_image_max_height",
            "language",
            "show_menu_bar_icon",
            "start_at_login",
        ]
    );
}

#[test]
fn integer_values_are_clamped_with_a_warning() {
    let (value, warning) = parse_usize_config("max_lines", "999", 1, 20).expect("set max lines");
    assert_eq!(value, 20);
    assert_eq!(
        warning.as_deref(),
        Some("max_lines was clamped from 999 to 20 (allowed range: 1..=20)")
    );

    let (value, warning) =
        parse_usize_config("hud_image_max_height", " 120 ", 40, 240).expect("in range");
    assert_eq!(value, 120);
    assert!(warning.is_none());

    let err = parse_usize_config("hud_image_max_height", "tall", 40, 240).expect_err("not a number");
    assert!(err.message().contains("hud_image_max_height"));
    assert_eq!(
        err.message(),
        "invalid value for hud_image_max_height: invalid integer: tall"
    );
}

#[test]
fn choice_values_name_the_allowed_choices() {
    assert_eq!(hud_position_value("bottom"), Ok(HudPosition::Bottom));
    assert_eq!(
        hud_background_color_value(" blue "),
        Ok(HudBackgroundColor::Blue)
    );
    assert_eq!(language_value("ja"), Ok(LanguageSetting::Ja));

    let position_err = hud_position_value("middle").expect_err("reject invalid position");
    assert_eq!(
        position_err.message(),
        "invalid value for hud_position: middle (allowed: top, center, bottom)"
    );
    let color_err = hud_background_color_value("orange").expect_err("reject invalid color");
    assert!(color_err.message().contains("hud_background_color"));
    let language_err = language_value("fr").expect_err("reject invalid language");
    assert_eq!(
        language_err.message(),
        "invalid value for language: fr (allowed: auto, ja, en)"
    );
}

#[test]
fn emoji_values_are_trimmed_or_rejected_with_the_reason() {
    assert_eq!(hud_emoji_value("🍺"), Ok("🍺".to_string()));
    assert_eq!(hud_emoji_value("  "), Ok(String::new()));
    let err = hud_emoji_value("📋🍣").expect_err("reject multiple graphemes");
    assert!(err.message().contains("hud_emoji"));
    assert!(err.message().ends_with(", got: 📋🍣"));
}

#[test]
fn icon_clusters_are_judged_as_one_emoji() {
    let one = vec!["🍺".to_string()];
    let two = vec!["📋".to_string(), "🍣".to_string()];
    let letter = vec!["a".to_string()];
    assert_eq!(cliip_show::config::emoji_clusters_problem(&one), None);
    assert_eq!(cliip_show::config::emoji_clusters_problem(&two), Some(Msg::EmojiTooLong));
    assert_eq!(cliip_show::config::emoji_clusters_problem(&letter), Some(Msg::EmojiNotEmoji));
    assert_eq!(cliip_show::config::emoji_clusters_problem(&Vec::new()), None);
}

#[test]
fn config_key_names_are_distinct() {
    let names: Vec<&str> = ConfigKey::ALL.iter().map(|k| k.as_str()).collect();
    let mut unique = names.clone();
    unique.sort_unstable();
    unique.dedup();
    assert_eq!(unique.len(), names.len());
}
