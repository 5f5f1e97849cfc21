use cliip_show::config::LanguageSetting;
use cliip_show::i18n::{
    lang_from_bcp47, language_label, preview_long_line, preview_numbered_line,
    resolve_with_system, text, Lang, Msg, APP_NAME, LANGUAGE_CHOICES,
};

#[test]
fn lang_from_bcp47_picks_japanese_only_for_ja() {
    assert_eq!(lang_from_bcp47("ja"), Lang::Ja);
    assert_eq!(lang_from_bcp47("ja-JP"), Lang::Ja);
    assert_eq!(lang_from_bcp47("ja_JP"), Lang::Ja);
    assert_eq!(lang_from_bcp47("JA-jp"), Lang::Ja);
    assert_eq!(lang_from_bcp47("en-US"), Lang::En);
    assert_eq!(lang_from_bcp47("jam"), Lang::En);
    assert_eq!(lang_from_bcp47(""), Lang::En);
}

/// The language popup maps indices to `LANGUAGE_CHOICES`; every setting must
/// be among them.
#[test]
fn language_choices_cover_every_setting() {
    for setting in [
        LanguageSetting::Auto,
        LanguageSetting::Ja,
        LanguageSetting::En,
    ] {
        assert!(
            LANGUAGE_CHOICES.contains(&setting),
            "{setting:?} is missing from LANGUAGE_CHOICES"
        );
    }
    assert_eq!(LANGUAGE_CHOICES.len(), 3);
}

#[test]
fn language_labels_are_distinct_in_both_languages() {
    for lang in [Lang::Ja, Lang::En] {
        let labels: Vec<&str> = LANGUAGE_CHOICES
            .iter()
            .map(|setting| language_label(lang, *setting))
            .collect();
        let mut unique = labels.clone();
        unique.sort_unstable();
        unique.dedup();
        assert_eq!(unique.len(), labels.len(), "{lang:?} repeats a label");
    }
}

/// Messages that name the app use its display name.
#[test]
fn messages_naming_the_app_use_the_display_name() {
    for msg in [
        Msg::MenuAbout,
        Msg::MenuQuit,
        Msg::LoginPromptMessage,
        Msg::MenuBarIconHiddenDetail,
        Msg::SettingsTitle,
        Msg::SupportMessage,
        Msg::LaunchNotice,
    ] {
        for lang in [Lang::Ja, Lang::En] {
            let rendered = text(lang, msg);
            assert!(
                rendered.contains(APP_NAME),
                "{msg:?} ({lang:?}) lacks {APP_NAME}: {rendered}"
            );
        }
    }
}

#[test]
fn resolve_with_system_follows_system_only_for_auto() {
    assert_eq!(
        resolve_with_system(LanguageSetting::Auto, Lang::Ja),
        Lang::Ja
    );
    assert_eq!(
        resolve_with_system(LanguageSetting::Auto, Lang::En),
        Lang::En
    );
    assert_eq!(resolve_with_system(LanguageSetting::Ja, Lang::En), Lang::Ja);
    assert_eq!(resolve_with_system(LanguageSetting::En, Lang::Ja), Lang::En);
}

#[test]
fn preview_lines_repeat_and_number_the_sample() {
    let long = preview_long_line(Lang::En);
    assert_eq!(
        long,
        "A fairly long line of sample text for checking how the preview looks. ".repeat(5)
    );
    assert_eq!(preview_numbered_line(Lang::En, 12), "This is sample line 12.");
    assert_eq!(preview_numbered_line(Lang::Ja, 3), "これは3行目のサンプル行です。");
}

#[test]
fn menu_wording_differs_by_language() {
    assert_eq!(text(Lang::En, Msg::MenuPause), "Pause");
    assert_eq!(text(Lang::Ja, Msg::MenuPause), "一時停止");
}
