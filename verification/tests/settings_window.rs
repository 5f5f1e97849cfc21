use cliip_show::config::ConfigKey;
use cliip_show::i18n::{text, Lang, Msg};
use cliip_show::settings_window::{
    config_key_to_tag, filter_digits, format_trimmed, label_text, login_item_control_state,
    normalize_digit, preview_long_text, range_hint_text, tag_to_config_key, tooltip_text,
    EMOJI_PALETTE_SHORTCUT,
};

// The limits as the settings use them, in their own units.
const MIN_POLL_INTERVAL_SECS: f64 = 0.05;
const MAX_POLL_INTERVAL_SECS: f64 = 5.0;
const MIN_HUD_DURATION_SECS: f64 = 0.1;
const MAX_HUD_DURATION_SECS: f64 = 10.0;
const MIN_HUD_FADE_DURATION_SECS: f64 = 0.0;
const MAX_HUD_FADE_DURATION_SECS: f64 = 2.0;
const MIN_HUD_SCALE: f64 = 0.5;
const MAX_HUD_SCALE: f64 = 2.0;
const MIN_TRUNCATE_MAX_WIDTH: usize = 1;
const MAX_TRUNCATE_MAX_WIDTH: usize = 500;
const MIN_TRUNCATE_MAX_LINES: usize = 1;
const MAX_TRUNCATE_MAX_LINES: usize = 20;
const MIN_HUD_IMAGE_MAX_HEIGHT: usize = 40;
const MAX_HUD_IMAGE_MAX_HEIGHT: usize = 240;

const RANGE_LABEL_MSGS: [Msg; 7] = [
    Msg::LabelPollInterval,
    Msg::LabelHudDuration,
    Msg::LabelHudFadeDuration,
    Msg::LabelHudScale,
    Msg::LabelMaxCharsPerLine,
    Msg::LabelMaxLines,
    Msg::LabelHudImageMaxHeight,
];

const RANGE_HINT_MSGS: [Msg; 3] = [
    Msg::LabelMaxCharsPerLine,
    Msg::LabelMaxLines,
    Msg::LabelHudImageMaxHeight,
];

fn all_config_keys() -> [ConfigKey; 14] {
    ConfigKey::ALL
}

#[test]
fn mod_tag_round_trips_for_all_config_keys() {
    for key in all_config_keys() {
        let tag = config_key_to_tag(key);
        assert_eq!(tag_to_config_key(tag), Some(key));
    }
}

#[test]
fn settings_window_tag_round_trips_for_all_config_keys() {
    for key in ConfigKey::ALL {
        let tag = config_key_to_tag(key);
        assert_eq!(tag_to_config_key(tag), Some(key));
    }
}

#[test]
fn mod_tag_to_config_key_rejects_unknown_tags() {
    assert_eq!(tag_to_config_key(-1), None);
    assert_eq!(tag_to_config_key(14), None);
    assert_eq!(tag_to_config_key(9999), None);
}

#[test]
fn toggle_state_is_on_only_when_enabled() {
    assert_eq!(login_item_control_state(true), 1);
    assert_eq!(login_item_control_state(false), 0);
}

#[test]
fn passes_through_ascii_digits() {
    assert_eq!(filter_digits("123", 3), ("123".to_string(), 3));
}

/// The removed `a` moves the caret back by one.
#[test]
fn removes_non_digit_characters() {
    assert_eq!(filter_digits("12a3", 3), ("123".to_string(), 2));
}

#[test]
fn normalizes_fullwidth_digits_to_ascii() {
    assert_eq!(filter_digits("\u{FF11}\u{FF12}", 2), ("12".to_string(), 2));
}

#[test]
fn mixed_ascii_and_junk_keeps_only_digits() {
    assert_eq!(filter_digits("1a2b3", 5), ("123".to_string(), 3));
}

#[test]
fn empty_input_stays_empty() {
    assert_eq!(filter_digits("", 0), (String::new(), 0));
}

#[test]
fn caret_at_start_stays_at_start() {
    assert_eq!(filter_digits("abc123", 0), ("123".to_string(), 0));
}

#[test]
fn caret_beyond_input_clamps_to_end() {
    assert_eq!(filter_digits("12a3", 100), ("123".to_string(), 3));
}

#[test]
fn caret_counts_utf16_units_of_astral_characters() {
    // The emoji takes two UTF-16 units; the caret after it is at 3.
    assert_eq!(filter_digits("1😀2", 3), ("12".to_string(), 1));
    assert_eq!(filter_digits("1😀2", 4), ("12".to_string(), 2));
}

#[test]
fn normalize_digit_maps_only_digits() {
    assert_eq!(normalize_digit('7'), Some('7'));
    assert_eq!(normalize_digit('\u{FF19}'), Some('9'));
    assert_eq!(normalize_digit('\u{FF10}'), Some('0'));
    assert_eq!(normalize_digit('x'), None);
}

#[test]
fn format_trimmed_drops_trailing_zeros() {
    assert_eq!(format_trimmed(5), "0.05");
    assert_eq!(format_trimmed(10), "0.1");
    assert_eq!(format_trimmed(50), "0.5");
    assert_eq!(format_trimmed(0), "0");
    assert_eq!(format_trimmed(200), "2");
    assert_eq!(format_trimmed(500), "5");
    assert_eq!(format_trimmed(1000), "10");
}

fn trimmed(value: f64) -> String {
    let formatted = format!("{value:.2}");
    formatted
        .trim_end_matches('0')
        .trim_end_matches('.')
        .to_string()
}

fn expected_seconds_suffix(min: f64, max: f64) -> (String, String) {
    let min = trimmed(min);
    let max = trimmed(max);
    (format!("（{min}–{max} 秒）"), format!(" ({min}–{max} sec)"))
}

fn expected_scale_suffix(min: f64, max: f64) -> (String, String) {
    let min = trimmed(min);
    let max = trimmed(max);
    (format!("（{min}–{max} 倍）"), format!(" ({min}–{max}×)"))
}

fn expected_count_suffix(min: usize, max: usize) -> (String, String) {
    (format!("（{min}–{max}）"), format!(" ({min}–{max})"))
}

fn expected_px_suffix(min: usize, max: usize) -> (String, String) {
    (format!("（{min}–{max} px）"), format!(" ({min}–{max} px)"))
}

/// Each ranged label ends with the range of its own setting.
#[test]
fn label_text_ranges_match_config_constants() {
    let (poll_ja, poll_en) = expected_seconds_suffix(MIN_POLL_INTERVAL_SECS, MAX_POLL_INTERVAL_SECS);
    let (duration_ja, duration_en) =
        expected_seconds_suffix(MIN_HUD_DURATION_SECS, MAX_HUD_DURATION_SECS);
    let (fade_ja, fade_en) =
        expected_seconds_suffix(MIN_HUD_FADE_DURATION_SECS, MAX_HUD_FADE_DURATION_SECS);
    let (scale_ja, scale_en) = expected_scale_suffix(MIN_HUD_SCALE, MAX_HUD_SCALE);
    let (chars_ja, chars_en) = expected_count_suffix(MIN_TRUNCATE_MAX_WIDTH, MAX_TRUNCATE_MAX_WIDTH);
    let (lines_ja, lines_en) = expected_count_suffix(MIN_TRUNCATE_MAX_LINES, MAX_TRUNCATE_MAX_LINES);
    let (height_ja, height_en) =
        expected_px_suffix(MIN_HUD_IMAGE_MAX_HEIGHT, MAX_HUD_IMAGE_MAX_HEIGHT);

    let expectations: [(Msg, String, String); 7] = [
        (Msg::LabelPollInterval, poll_ja, poll_en),
        (Msg::LabelHudDuration, duration_ja, duration_en),
        (Msg::LabelHudFadeDuration, fade_ja, fade_en),
        (Msg::LabelHudScale, scale_ja, scale_en),
        (Msg::LabelMaxCharsPerLine, chars_ja, chars_en),
        (Msg::LabelMaxLines, lines_ja, lines_en),
        (Msg::LabelHudImageMaxHeight, height_ja, height_en),
    ];
    assert_eq!(expectations.len(), RANGE_LABEL_MSGS.len());

    for (msg, ja_suffix, en_suffix) in expectations {
        assert!(RANGE_LABEL_MSGS.contains(&msg), "{msg:?} is not a ranged label");
        let rendered_ja = label_text(Lang::Ja, msg);
        assert!(
            rendered_ja.ends_with(&ja_suffix),
            "{msg:?} (Ja) does not end with {ja_suffix:?}: {rendered_ja}"
        );
        let rendered_en = label_text(Lang::En, msg);
        assert!(
            rendered_en.ends_with(&en_suffix),
            "{msg:?} (En) does not end with {en_suffix:?}: {rendered_en}"
        );
    }
}

#[test]
fn label_text_passes_through_msgs_without_a_range() {
    for lang in [Lang::Ja, Lang::En] {
        assert_eq!(
            label_text(lang, Msg::LabelHudPosition),
            text(lang, Msg::LabelHudPosition)
        );
    }
}

#[test]
fn label_text_writes_the_whole_label() {
    assert_eq!(
        label_text(Lang::En, Msg::LabelPollInterval),
        "Polling interval (sec) (0.05–5 sec)"
    );
}

/// The prefix of the range hint is fixed.
#[test]
fn range_hint_prefix_text_is_fixed() {
    assert_eq!(text(Lang::Ja, Msg::RangeHintPrefix), "有効範囲：");
    assert_eq!(text(Lang::En, Msg::RangeHintPrefix), "Valid range: ");
}

/// Each numeric field's hint names its own range.
#[test]
fn range_hint_text_matches_config_constants() {
    const PREFIX: &str = "有効範囲：";

    fn expected_count(min: usize, max: usize) -> String {
        format!("{PREFIX}{min}–{max}")
    }
    fn expected_px(min: usize, max: usize) -> String {
        format!("{PREFIX}{min}–{max} px")
    }

    let expectations: [(Msg, String); 3] = [
        (
            Msg::LabelMaxCharsPerLine,
            expected_count(MIN_TRUNCATE_MAX_WIDTH, MAX_TRUNCATE_MAX_WIDTH),
        ),
        (
            Msg::LabelMaxLines,
            expected_count(MIN_TRUNCATE_MAX_LINES, MAX_TRUNCATE_MAX_LINES),
        ),
        (
            Msg::LabelHudImageMaxHeight,
            expected_px(MIN_HUD_IMAGE_MAX_HEIGHT, MAX_HUD_IMAGE_MAX_HEIGHT),
        ),
    ];
    assert_eq!(expectations.len(), RANGE_HINT_MSGS.len());

    for (msg, expected) in expectations {
        assert!(RANGE_HINT_MSGS.contains(&msg), "{msg:?} has no hint");
        assert_eq!(range_hint_text(Lang::Ja, msg), expected, "{msg:?}");
    }
}

#[test]
fn range_hint_text_is_empty_for_msgs_without_a_range() {
    for lang in [Lang::Ja, Lang::En] {
        assert_eq!(range_hint_text(lang, Msg::LabelHudPosition), "");
    }
}

/// A rough estimate, with approximate glyph widths of the 13 pt system font,
/// that every range hint fits in its popover.
#[test]
fn range_hint_popover_text_fits_within_its_frame() {
    const RANGE_HINT_POPOVER_WIDTH: f64 = 220.0;
    const RANGE_HINT_POPOVER_HEIGHT: f64 = 40.0;
    const RANGE_HINT_POPOVER_INSET: f64 = 10.0;
    const CHAR_WIDTH_JA: f64 = 13.0;
    const CHAR_WIDTH_EN: f64 = 7.0;
    const LINE_HEIGHT: f64 = 16.0;

    let available_width = RANGE_HINT_POPOVER_WIDTH - RANGE_HINT_POPOVER_INSET * 2.0;
    let available_height = RANGE_HINT_POPOVER_HEIGHT - RANGE_HINT_POPOVER_INSET * 2.0;

    for (lang, char_width) in [(Lang::Ja, CHAR_WIDTH_JA), (Lang::En, CHAR_WIDTH_EN)] {
        for msg in RANGE_HINT_MSGS {
            let text = range_hint_text(lang, msg);
            let chars_per_line = (available_width / char_width).floor().max(1.0) as usize;
            let estimated_lines = text.chars().count().div_ceil(chars_per_line).max(1);
            let estimated_height = estimated_lines as f64 * LINE_HEIGHT;
            assert!(
                estimated_height <= available_height,
                "{lang:?} {msg:?}: estimated height {estimated_height} exceeds \
                 {available_height} ({estimated_lines} lines: {text})"
            );
        }
    }
}

#[test]
fn tooltip_text_for_emoji_mentions_the_palette_shortcut() {
    for lang in [Lang::Ja, Lang::En] {
        let rendered = tooltip_text(lang, Msg::TooltipHudEmoji);
        assert!(
            rendered.contains(EMOJI_PALETTE_SHORTCUT),
            "{lang:?} lacks {EMOJI_PALETTE_SHORTCUT}: {rendered}"
        );
    }
}

#[test]
fn tooltip_text_for_emoji_uses_the_macos_palette_name_in_japanese() {
    let rendered = tooltip_text(Lang::Ja, Msg::TooltipHudEmoji);
    assert!(rendered.contains("絵文字と記号"), "{rendered}");
}

#[test]
fn tooltip_text_passes_through_msgs_without_special_handling() {
    for lang in [Lang::Ja, Lang::En] {
        assert_eq!(
            tooltip_text(lang, Msg::TooltipHudScale),
            text(lang, Msg::TooltipHudScale)
        );
    }
}

#[test]
fn preview_long_text_has_the_long_line_and_six_numbered_lines() {
    let preview = preview_long_text(Lang::En);
    let lines: Vec<&str> = preview.split('\n').collect();
    assert_eq!(lines.len(), 7);
    assert!(lines[0].starts_with("A fairly long line"));
    assert_eq!(lines[1], "This is sample line 2.");
    assert_eq!(lines[6], "This is sample line 7.");
}
