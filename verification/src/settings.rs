//! The settings in effect that are whole numbers, choices or text: their
//! defaults, the config file over them, and the environment over both.
//!
//! The durations, the scale and the opacity are real numbers; the
//! application keeps them beside these and works them out the same way.

use vstd::prelude::*;

use crate::chars::{
    ascii_upper, chars_eq_str, chars_of, owned, parse_usize, string_of, string_views, to_ascii_upper,
    trim, trim_str,
};
use crate::config::{
    background_color_named, clamp_warning, clamp_warning_text, clamped, config_key_name,
    emoji_problem, hud_background_color_value, hud_emoji_value, hud_position_named,
    hud_position_value, invalid_value, language_named, language_value, normalized_choice,
    not_allowed, opt_string_view, parse_hud_background_color_setting, parse_hud_emoji,
    parse_hud_position_setting, parse_language_setting, parse_usize_config, parse_usize_setting,
    parse_usize_value, usize_config_outcome, ConfigKey, HudBackgroundColor, HudPosition,
    LanguageSetting, StartupConfigFile, DEFAULT_HUD_EMOJI, DEFAULT_HUD_IMAGE_MAX_HEIGHT,
    DEFAULT_TRUNCATE_MAX_LINES, DEFAULT_TRUNCATE_MAX_WIDTH, MAX_HUD_IMAGE_MAX_HEIGHT,
    MAX_TRUNCATE_MAX_LINES, MAX_TRUNCATE_MAX_WIDTH, MIN_HUD_IMAGE_MAX_HEIGHT,
    MIN_TRUNCATE_MAX_LINES, MIN_TRUNCATE_MAX_WIDTH,
};
use crate::error::AppError;
use crate::i18n::{localized, Lang};

verus! {

/// The displayed settings that are whole numbers, choices or text.
#[derive(Debug, Clone, PartialEq, Eq)]
pub struct DiscreteSettings {
    /// Characters per HUD line.
    pub truncate_max_width: usize,
    /// Lines shown in the HUD.
    pub truncate_max_lines: usize,
    pub hud_position: HudPosition,
    pub hud_background_color: HudBackgroundColor,
    /// The icon at the left of the HUD; empty for none.
    pub hud_emoji: String,
    /// Cap on the thumbnail height, in points.
    pub hud_image_max_height: usize,
    pub language: LanguageSetting,
    pub show_menu_bar_icon: bool,
}

/// The `[display]` entries of the config file for those settings; `None`
/// where the file says nothing.
#[derive(Debug, Clone, PartialEq, Eq)]
pub struct DiscreteConfigFile {
    pub max_chars_per_line: Option<usize>,
    pub max_lines: Option<usize>,
    pub hud_position: Option<HudPosition>,
    pub hud_background_color: Option<HudBackgroundColor>,
    pub hud_emoji: Option<String>,
    pub hud_image_max_height: Option<usize>,
    pub language: Option<LanguageSetting>,
    pub show_menu_bar_icon: Option<bool>,
}

impl Default for DiscreteConfigFile {
    fn default() -> (f: Self)
        ensures
            f.max_chars_per_line is None,
            f.max_lines is None,
            f.hud_position is None,
            f.hud_background_color is None,
            f.hud_emoji is None,
            f.hud_image_max_height is None,
            f.language is None,
            f.show_menu_bar_icon is None,
    {
        DiscreteConfigFile {
            max_chars_per_line: None,
            max_lines: None,
            hud_position: None,
            hud_background_color: None,
            hud_emoji: None,
            hud_image_max_height: None,
            language: None,
            show_menu_bar_icon: None,
        }
    }
}

/// What a `DiscreteSettings` holds, with the icon as its characters.
pub struct DiscreteView {
    pub truncate_max_width: usize,
    pub truncate_max_lines: usize,
    pub hud_position: HudPosition,
    pub hud_background_color: HudBackgroundColor,
    pub hud_emoji: Seq<char>,
    pub hud_image_max_height: usize,
    pub language: LanguageSetting,
    pub show_menu_bar_icon: bool,
}

impl View for DiscreteSettings {
    type V = DiscreteView;

    open spec fn view(&self) -> DiscreteView {
        DiscreteView {
            truncate_max_width: self.truncate_max_width,
            truncate_max_lines: self.truncate_max_lines,
            hud_position: self.hud_position,
            hud_background_color: self.hud_background_color,
            hud_emoji: self.hud_emoji@,
            hud_image_max_height: self.hud_image_max_height,
            language: self.language,
            show_menu_bar_icon: self.show_menu_bar_icon,
        }
    }
}

/// The settings before the config file and the environment say anything.
pub open spec fn default_view() -> DiscreteView {
    DiscreteView {
        truncate_max_width: DEFAULT_TRUNCATE_MAX_WIDTH,
        truncate_max_lines: DEFAULT_TRUNCATE_MAX_LINES,
        hud_position: HudPosition::Top,
        hud_background_color: HudBackgroundColor::Default,
        hud_emoji: DEFAULT_HUD_EMOJI@,
        hud_image_max_height: DEFAULT_HUD_IMAGE_MAX_HEIGHT,
        language: LanguageSetting::Auto,
        show_menu_bar_icon: true,
    }
}

/// The defaults.
pub fn default_discrete_settings() -> (s: DiscreteSettings)
    ensures
        s@ == default_view(),
{
    DiscreteSettings {
        truncate_max_width: DEFAULT_TRUNCATE_MAX_WIDTH,
        truncate_max_lines: DEFAULT_TRUNCATE_MAX_LINES,
        hud_position: HudPosition::Top,
        hud_background_color: HudBackgroundColor::Default,
        hud_emoji: owned(DEFAULT_HUD_EMOJI),
        hud_image_max_height: DEFAULT_HUD_IMAGE_MAX_HEIGHT,
        language: LanguageSetting::Auto,
        show_menu_bar_icon: true,
    }
}

// ---------------------------------------------------------------------------
// The config file
// ---------------------------------------------------------------------------

/// A count from the config file: clamped into `min..=max`, so that a value
/// edited by hand never stops the application from starting.
pub open spec fn count_from_file(value: Option<usize>, current: usize, min: usize, max: usize) -> usize {
    match value {
        Some(v) => clamped(v as int, min as int, max as int) as usize,
        None => current,
    }
}

/// The warning for a count of the config file that had to be clamped.
pub open spec fn count_warning(key: ConfigKey, value: Option<usize>, min: usize, max: usize) -> Seq<
    Seq<char>,
> {
    match value {
        Some(v) => if v < min || v > max {
            seq![
                clamp_warning(
                    config_key_name(key),
                    v as nat,
                    clamped(v as int, min as int, max as int) as nat,
                    min as nat,
                    max as nat,
                ),
            ]
        } else {
            seq![]
        },
        None => seq![],
    }
}

/// The icon that `raw` selects when it is acceptable, else `current`.
pub open spec fn emoji_or(raw: Seq<char>, current: Seq<char>) -> Seq<char> {
    if emoji_problem(raw) is None {
        trim(raw)
    } else {
        current
    }
}

/// `base` with what the config file says put over it.
pub open spec fn file_applied(base: DiscreteView, f: DiscreteConfigView) -> DiscreteView {
    DiscreteView {
        truncate_max_width: count_from_file(
            f.max_chars_per_line,
            base.truncate_max_width,
            MIN_TRUNCATE_MAX_WIDTH,
            MAX_TRUNCATE_MAX_WIDTH,
        ),
        truncate_max_lines: count_from_file(
            f.max_lines,
            base.truncate_max_lines,
            MIN_TRUNCATE_MAX_LINES,
            MAX_TRUNCATE_MAX_LINES,
        ),
        hud_position: match f.hud_position {
            Some(p) => p,
            None => base.hud_position,
        },
        hud_background_color: match f.hud_background_color {
            Some(c) => c,
            None => base.hud_background_color,
        },
        hud_emoji: match f.hud_emoji {
            Some(e) => emoji_or(e, base.hud_emoji),
            None => base.hud_emoji,
        },
        hud_image_max_height: count_from_file(
            f.hud_image_max_height,
            base.hud_image_max_height,
            MIN_HUD_IMAGE_MAX_HEIGHT,
            MAX_HUD_IMAGE_MAX_HEIGHT,
        ),
        language: match f.language {
            Some(l) => l,
            None => base.language,
        },
        show_menu_bar_icon: match f.show_menu_bar_icon {
            Some(b) => b,
            None => base.show_menu_bar_icon,
        },
    }
}

/// The warnings the config file gives, in the order of its keys.
pub open spec fn file_warnings(f: DiscreteConfigView) -> Seq<Seq<char>> {
    count_warning(
        ConfigKey::MaxCharsPerLine,
        f.max_chars_per_line,
        MIN_TRUNCATE_MAX_WIDTH,
        MAX_TRUNCATE_MAX_WIDTH,
    ) + count_warning(ConfigKey::MaxLines, f.max_lines, MIN_TRUNCATE_MAX_LINES, MAX_TRUNCATE_MAX_LINES)
        + count_warning(
        ConfigKey::HudImageMaxHeight,
        f.hud_image_max_height,
        MIN_HUD_IMAGE_MAX_HEIGHT,
        MAX_HUD_IMAGE_MAX_HEIGHT,
    )
}

fn file_count(
    key: ConfigKey,
    value: Option<usize>,
    current: usize,
    min: usize,
    max: usize,
    warnings: &mut Vec<String>,
) -> (n: usize)
    requires
        min <= max,
    ensures
        n == count_from_file(value, current, min, max),
        string_views(final(warnings)@) == string_views(old(warnings)@) + count_warning(
            key,
            value,
            min,
            max,
        ),
{
    match value {
        Some(v) => {
            let c = parse_usize_value(v, min, max);
            if v < min || v > max {
                let w = clamp_warning_text(key.as_str(), v, c, min, max);
                warnings.push(w);
                assert(string_views(warnings@) =~= string_views(old(warnings)@) + count_warning(
                    key,
                    value,
                    min,
                    max,
                ));
            } else {
                assert(string_views(warnings@) =~= string_views(old(warnings)@) + count_warning(
                    key,
                    value,
                    min,
                    max,
                ));
            }
            c
        },
        None => {
            assert(string_views(warnings@) =~= string_views(old(warnings)@) + count_warning(
                key,
                value,
                min,
                max,
            ));
            current
        },
    }
}

/// Puts what the config file says over `base`, clamping counts that are out
/// of range; also returns a warning for each count that was clamped.
pub fn apply_config_file(base: DiscreteSettings, file: &DiscreteConfigFile) -> (r: (
    DiscreteSettings,
    Vec<String>,
))
    ensures
        r.0@ == file_applied(base@, file@),
        string_views(r.1@) == file_warnings(file@),
{
    let ghost b = base@;
    let mut warnings: Vec<String> = Vec::new();
    let truncate_max_width = file_count(
        ConfigKey::MaxCharsPerLine,
        file.max_chars_per_line,
        base.truncate_max_width,
        MIN_TRUNCATE_MAX_WIDTH,
        MAX_TRUNCATE_MAX_WIDTH,
        &mut warnings,
    );
    let truncate_max_lines = file_count(
        ConfigKey::MaxLines,
        file.max_lines,
        base.truncate_max_lines,
        MIN_TRUNCATE_MAX_LINES,
        MAX_TRUNCATE_MAX_LINES,
        &mut warnings,
    );
    let hud_image_max_height = file_count(
        ConfigKey::HudImageMaxHeight,
        file.hud_image_max_height,
        base.hud_image_max_height,
        MIN_HUD_IMAGE_MAX_HEIGHT,
        MAX_HUD_IMAGE_MAX_HEIGHT,
        &mut warnings,
    );
    let hud_position = match file.hud_position {
        Some(p) => p,
        None => base.hud_position,
    };
    let hud_background_color = match file.hud_background_color {
        Some(c) => c,
        None => base.hud_background_color,
    };
    let language = match file.language {
        Some(l) => l,
        None => base.language,
    };
    let show_menu_bar_icon = match file.show_menu_bar_icon {
        Some(v) => v,
        None => base.show_menu_bar_icon,
    };
    let hud_emoji = match &file.hud_emoji {
        Some(e) => match parse_hud_emoji(e.as_str()) {
            Some(icon) => icon,
            None => base.hud_emoji,
        },
        None => base.hud_emoji,
    };
    let s = DiscreteSettings {
        truncate_max_width,
        truncate_max_lines,
        hud_position,
        hud_background_color,
        hud_emoji,
        hud_image_max_height,
        language,
        show_menu_bar_icon,
    };
    assert(s@ == file_applied(b, file@));
    (s, warnings)
}

// ---------------------------------------------------------------------------
// The environment
// ---------------------------------------------------------------------------

/// What every environment variable of a setting starts with.
pub const ENV_PREFIX: &'static str = "CLIIP_SHOW_";

/// The environment variable of a setting: the prefix, then the setting's key
/// in capitals.
pub open spec fn env_var(key: ConfigKey) -> Seq<char> {
    ENV_PREFIX@ + config_key_name(key).map_values(|c: char| ascii_upper(c))
}

/// The name of the environment variable of `key`.
pub fn env_var_name(key: ConfigKey) -> (s: String)
    ensures
        s@ == env_var(key),
{
    let name = chars_of(key.as_str());
    let mut out = chars_of(ENV_PREFIX);
    let mut i: usize = 0;
    while i < name.len()
        invariant
            i <= name@.len(),
            name@ == config_key_name(key),
            out@ == ENV_PREFIX@ + name@.take(i as int).map_values(|c: char| ascii_upper(c)),
        decreases name@.len() - i,
    {
        out.push(to_ascii_upper(name[i]));
        assert(name@.take(i + 1).map_values(|c: char| ascii_upper(c)) =~= name@.take(
            i as int,
        ).map_values(|c: char| ascii_upper(c)).push(ascii_upper(name@[i as int])));
        i += 1;
    }
    assert(name@.take(name@.len() as int) == name@);
    string_of(out.as_slice())
}

/// The raw values of the environment variables of those settings; `None`
/// where a variable is unset. (No variable sets `show_menu_bar_icon`.)
pub struct EnvView {
    pub max_chars_per_line: Option<Seq<char>>,
    pub max_lines: Option<Seq<char>>,
    pub hud_position: Option<Seq<char>>,
    pub hud_background_color: Option<Seq<char>>,
    pub hud_emoji: Option<Seq<char>>,
    pub hud_image_max_height: Option<Seq<char>>,
    pub language: Option<Seq<char>>,
}

/// The count a variable sets: its trimmed value as an integer, clamped into
/// `min..=max`; `current` when it is unset or not an integer.
pub open spec fn count_from_env(raw: Option<Seq<char>>, current: usize, min: usize, max: usize) -> usize {
    match raw {
        Some(t) => match parse_usize(trim(t)) {
            Some(n) => clamped(n as int, min as int, max as int) as usize,
            None => current,
        },
        None => current,
    }
}

/// The position a variable names, else `current`; likewise below for the
/// background color, the language and the icon.
pub open spec fn position_from_env(raw: Option<Seq<char>>, current: HudPosition) -> HudPosition {
    match raw {
        Some(t) => match hud_position_named(normalized_choice(t)) {
            Some(p) => p,
            None => current,
        },
        None => current,
    }
}

pub open spec fn color_from_env(raw: Option<Seq<char>>, current: HudBackgroundColor) -> HudBackgroundColor {
    match raw {
        Some(t) => match background_color_named(normalized_choice(t)) {
            Some(c) => c,
            None => current,
        },
        None => current,
    }
}

pub open spec fn language_from_env(raw: Option<Seq<char>>, current: LanguageSetting) -> LanguageSetting {
    match raw {
        Some(t) => match language_named(normalized_choice(t)) {
            Some(l) => l,
            None => current,
        },
        None => current,
    }
}

pub open spec fn emoji_from_env(raw: Option<Seq<char>>, current: Seq<char>) -> Seq<char> {
    match raw {
        Some(t) => emoji_or(t, current),
        None => current,
    }
}

/// `base` with what the environment says put over it.
pub open spec fn env_applied(base: DiscreteView, e: EnvView) -> DiscreteView {
    DiscreteView {
        truncate_max_width: count_from_env(
            e.max_chars_per_line,
            base.truncate_max_width,
            MIN_TRUNCATE_MAX_WIDTH,
            MAX_TRUNCATE_MAX_WIDTH,
        ),
        truncate_max_lines: count_from_env(
            e.max_lines,
            base.truncate_max_lines,
            MIN_TRUNCATE_MAX_LINES,
            MAX_TRUNCATE_MAX_LINES,
        ),
        hud_position: position_from_env(e.hud_position, base.hud_position),
        hud_background_color: color_from_env(e.hud_background_color, base.hud_background_color),
        hud_emoji: emoji_from_env(e.hud_emoji, base.hud_emoji),
        hud_image_max_height: count_from_env(
            e.hud_image_max_height,
            base.hud_image_max_height,
            MIN_HUD_IMAGE_MAX_HEIGHT,
            MAX_HUD_IMAGE_MAX_HEIGHT,
        ),
        language: language_from_env(e.language, base.language),
        show_menu_bar_icon: base.show_menu_bar_icon,
    }
}

/// `lookup` answered `v` when asked for the variable of `key`.
pub open spec fn env_gave<F: Fn(&str) -> Option<String>>(
    lookup: F,
    key: ConfigKey,
    v: Option<Seq<char>>,
) -> bool {
    exists|q: &str, r: Option<String>|
        q@ == env_var(key) && #[trigger] lookup.ensures((q,), r) && opt_string_view(r) == v
}

/// `lookup` answered the values of `e` for the variables of those settings.
pub open spec fn env_read<F: Fn(&str) -> Option<String>>(lookup: F, e: EnvView) -> bool {
    &&& env_gave(lookup, ConfigKey::MaxCharsPerLine, e.max_chars_per_line)
    &&& env_gave(lookup, ConfigKey::MaxLines, e.max_lines)
    &&& env_gave(lookup, ConfigKey::HudPosition, e.hud_position)
    &&& env_gave(lookup, ConfigKey::HudBackgroundColor, e.hud_background_color)
    &&& env_gave(lookup, ConfigKey::HudEmoji, e.hud_emoji)
    &&& env_gave(lookup, ConfigKey::HudImageMaxHeight, e.hud_image_max_height)
    &&& env_gave(lookup, ConfigKey::Language, e.language)
}

fn env_count(raw: &Option<String>, current: usize, min: usize, max: usize) -> (n: usize)
    requires
        min <= max,
    ensures
        n == count_from_env(opt_string_view(*raw), current, min, max),
{
    match raw {
        Some(t) => {
            let trimmed = string_of(trim_str(t.as_str()).as_slice());
            parse_usize_setting(trimmed.as_str(), current, min, max)
        },
        None => current,
    }
}

/// Puts the environment variables over `base`, reading each through
/// `lookup`: a variable that is unset or whose value cannot be read leaves
/// the setting as it was; a count out of range is clamped.
pub fn apply_env_overrides_with<F: Fn(&str) -> Option<String>>(base: DiscreteSettings, lookup: F) -> (s:
    DiscreteSettings)
    requires
        forall|q: &str| lookup.requires((q,)),
    ensures
        exists|e: EnvView| #[trigger] env_applied(base@, e) == s@ && env_read(lookup, e),
{
    let ghost b = base@;
    let n1 = env_var_name(ConfigKey::MaxCharsPerLine);
    let v1 = lookup(n1.as_str());
    let n2 = env_var_name(ConfigKey::MaxLines);
    let v2 = lookup(n2.as_str());
    let n3 = env_var_name(ConfigKey::HudPosition);
    let v3 = lookup(n3.as_str());
    let n4 = env_var_name(ConfigKey::HudBackgroundColor);
    let v4 = lookup(n4.as_str());
    let n5 = env_var_name(ConfigKey::HudEmoji);
    let v5 = lookup(n5.as_str());
    let n6 = env_var_name(ConfigKey::HudImageMaxHeight);
    let v6 = lookup(n6.as_str());
    let n7 = env_var_name(ConfigKey::Language);
    let v7 = lookup(n7.as_str());
    let truncate_max_width = env_count(
        &v1,
        base.truncate_max_width,
        MIN_TRUNCATE_MAX_WIDTH,
        MAX_TRUNCATE_MAX_WIDTH,
    );
    let truncate_max_lines = env_count(
        &v2,
        base.truncate_max_lines,
        MIN_TRUNCATE_MAX_LINES,
        MAX_TRUNCATE_MAX_LINES,
    );
    let hud_position = match &v3 {
        Some(t) => parse_hud_position_setting(t.as_str(), base.hud_position),
        None => base.hud_position,
    };
    let hud_background_color = match &v4 {
        Some(t) => parse_hud_background_color_setting(t.as_str(), base.hud_background_color),
        None => base.hud_background_color,
    };
    let hud_image_max_height = env_count(
        &v6,
        base.hud_image_max_height,
        MIN_HUD_IMAGE_MAX_HEIGHT,
        MAX_HUD_IMAGE_MAX_HEIGHT,
    );
    let language = match &v7 {
        Some(t) => parse_language_setting(t.as_str(), base.language),
        None => base.language,
    };
    let show_menu_bar_icon = base.show_menu_bar_icon;
    let hud_emoji = match &v5 {
        Some(t) => match parse_hud_emoji(t.as_str()) {
            Some(icon) => icon,
            None => base.hud_emoji,
        },
        None => base.hud_emoji,
    };
    let s = DiscreteSettings {
        truncate_max_width,
        truncate_max_lines,
        hud_position,
        hud_background_color,
        hud_emoji,
        hud_image_max_height,
        language,
        show_menu_bar_icon,
    };
    proof {
        let e = EnvView {
            max_chars_per_line: opt_string_view(v1),
            max_lines: opt_string_view(v2),
            hud_position: opt_string_view(v3),
            hud_background_color: opt_string_view(v4),
            hud_emoji: opt_string_view(v5),
            hud_image_max_height: opt_string_view(v6),
            language: opt_string_view(v7),
        };
        assert(env_gave(lookup, ConfigKey::MaxCharsPerLine, e.max_chars_per_line));
        assert(env_gave(lookup, ConfigKey::MaxLines, e.max_lines));
        assert(env_gave(lookup, ConfigKey::HudPosition, e.hud_position));
        assert(env_gave(lookup, ConfigKey::HudBackgroundColor, e.hud_background_color));
        assert(env_gave(lookup, ConfigKey::HudEmoji, e.hud_emoji));
        assert(env_gave(lookup, ConfigKey::HudImageMaxHeight, e.hud_image_max_height));
        assert(env_gave(lookup, ConfigKey::Language, e.language));
        assert(env_applied(b, e) == s@);
    }
    s
}

// ---------------------------------------------------------------------------
// Setting one key of the config file
// ---------------------------------------------------------------------------

/// What a `DiscreteConfigFile` holds, with the icon as its characters.
pub struct DiscreteConfigView {
    pub max_chars_per_line: Option<usize>,
    pub max_lines: Option<usize>,
    pub hud_position: Option<HudPosition>,
    pub hud_background_color: Option<HudBackgroundColor>,
    pub hud_emoji: Option<Seq<char>>,
    pub hud_image_max_height: Option<usize>,
    pub language: Option<LanguageSetting>,
    pub show_menu_bar_icon: Option<bool>,
}

impl View for DiscreteConfigFile {
    type V = DiscreteConfigView;

    open spec fn view(&self) -> DiscreteConfigView {
        DiscreteConfigView {
            max_chars_per_line: self.max_chars_per_line,
            max_lines: self.max_lines,
            hud_position: self.hud_position,
            hud_background_color: self.hud_background_color,
            hud_emoji: opt_string_view(self.hud_emoji),
            hud_image_max_height: self.hud_image_max_height,
            language: self.language,
            show_menu_bar_icon: self.show_menu_bar_icon,
        }
    }
}

/// Whether `key` names a duration, the scale or the opacity: real numbers,
/// which the application reads itself.
pub open spec fn is_real_key(key: ConfigKey) -> bool {
    match key {
        ConfigKey::PollIntervalSecs => true,
        ConfigKey::HudDurationSecs => true,
        ConfigKey::HudFadeDurationSecs => true,
        ConfigKey::HudScale => true,
        ConfigKey::HudBackgroundOpacity => true,
        _ => false,
    }
}

pub fn is_real_valued(key: ConfigKey) -> (b: bool)
    ensures
        b == is_real_key(key),
{
    match key {
        ConfigKey::PollIntervalSecs => true,
        ConfigKey::HudDurationSecs => true,
        ConfigKey::HudFadeDurationSecs => true,
        ConfigKey::HudScale => true,
        ConfigKey::HudBackgroundOpacity => true,
        _ => false,
    }
}

/// The limits of a key that holds a count.
pub open spec fn count_limits(key: ConfigKey) -> Option<(usize, usize)> {
    match key {
        ConfigKey::MaxCharsPerLine => Some((MIN_TRUNCATE_MAX_WIDTH, MAX_TRUNCATE_MAX_WIDTH)),
        ConfigKey::MaxLines => Some((MIN_TRUNCATE_MAX_LINES, MAX_TRUNCATE_MAX_LINES)),
        ConfigKey::HudImageMaxHeight => Some((MIN_HUD_IMAGE_MAX_HEIGHT, MAX_HUD_IMAGE_MAX_HEIGHT)),
        _ => None,
    }
}

/// `true` and `false`, the only texts `bool::from_str` reads.
pub open spec fn flag_named(t: Seq<char>) -> Option<bool> {
    if t == "true"@ {
        Some(true)
    } else if t == "false"@ {
        Some(false)
    } else {
        None
    }
}

/// `{raw} (allowed: {choices})`.
pub open spec fn not_allowed_message(raw: Seq<char>, choices: Seq<char>) -> Seq<char> {
    trim(raw) + " (allowed: "@ + choices + ")"@
}

/// What giving `raw` for `key` comes to: the warning to show (for a count
/// that had to be clamped), or the message of the error. (Keys of real
/// numbers are not read here.)
pub open spec fn set_outcome(key: ConfigKey, raw: Seq<char>) -> Result<Option<Seq<char>>, Seq<char>> {
    match count_limits(key) {
        Some(limits) => match usize_config_outcome(config_key_name(key), raw, limits.0, limits.1) {
            Ok(v) => Ok(v.1),
            Err(m) => Err(m),
        },
        None => match key {
            ConfigKey::HudPosition => if hud_position_named(normalized_choice(raw)) is Some {
                Ok(None)
            } else {
                Err(not_allowed_message(raw, "top, center, bottom"@))
            },
            ConfigKey::HudBackgroundColor => if background_color_named(normalized_choice(raw)) is Some {
                Ok(None)
            } else {
                Err(not_allowed_message(raw, "default, yellow, blue, green, red, purple"@))
            },
            ConfigKey::Language => if language_named(normalized_choice(raw)) is Some {
                Ok(None)
            } else {
                Err(not_allowed_message(raw, "auto, ja, en"@))
            },
            ConfigKey::HudEmoji => match emoji_problem(raw) {
                None => Ok(None),
                Some(msg) => Err(localized(Lang::En, msg) + ", got: "@ + trim(raw)),
            },
            ConfigKey::ShowMenuBarIcon => if flag_named(trim(raw)) is Some {
                Ok(None)
            } else {
                Err(not_allowed_message(raw, "true, false"@))
            },
            ConfigKey::StartAtLogin => if flag_named(trim(raw)) is Some {
                Ok(None)
            } else {
                Err(not_allowed_message(raw, "true, false"@))
            },
            _ => Ok(None),
        },
    }
}

/// The count `raw` gives: its trimmed text as an integer, clamped.
pub open spec fn count_given(raw: Seq<char>, min: usize, max: usize) -> usize {
    clamped((parse_usize(trim(raw))->0) as int, min as int, max as int) as usize
}

/// The `[display]` entries after an accepted `raw` was given for `key`.
pub open spec fn file_set(f: DiscreteConfigView, key: ConfigKey, raw: Seq<char>) -> DiscreteConfigView {
    match key {
        ConfigKey::MaxCharsPerLine => DiscreteConfigView {
            max_chars_per_line: Some(count_given(raw, MIN_TRUNCATE_MAX_WIDTH, MAX_TRUNCATE_MAX_WIDTH)),
            ..f
        },
        ConfigKey::MaxLines => DiscreteConfigView {
            max_lines: Some(count_given(raw, MIN_TRUNCATE_MAX_LINES, MAX_TRUNCATE_MAX_LINES)),
            ..f
        },
        ConfigKey::HudImageMaxHeight => DiscreteConfigView {
            hud_image_max_height: Some(
                count_given(raw, MIN_HUD_IMAGE_MAX_HEIGHT, MAX_HUD_IMAGE_MAX_HEIGHT),
            ),
            ..f
        },
        ConfigKey::HudPosition => DiscreteConfigView {
            hud_position: hud_position_named(normalized_choice(raw)),
            ..f
        },
        ConfigKey::HudBackgroundColor => DiscreteConfigView {
            hud_background_color: background_color_named(normalized_choice(raw)),
            ..f
        },
        ConfigKey::Language => DiscreteConfigView { language: language_named(normalized_choice(raw)), ..f },
        ConfigKey::HudEmoji => DiscreteConfigView { hud_emoji: Some(trim(raw)), ..f },
        ConfigKey::ShowMenuBarIcon => DiscreteConfigView {
            show_menu_bar_icon: flag_named(trim(raw)),
            ..f
        },
        _ => f,
    }
}

/// The `[startup]` section after an accepted `raw` was given for `key`.
pub open spec fn startup_set(s: StartupConfigFile, key: ConfigKey, raw: Seq<char>) -> StartupConfigFile {
    if key == ConfigKey::StartAtLogin {
        StartupConfigFile { start_at_login: flag_named(trim(raw)) }
    } else {
        s
    }
}

/// `bool::from_str` on the trimmed text, or the error naming the choices.
fn flag_value(key: ConfigKey, raw: &str) -> (r: Result<bool, AppError>)
    ensures
        match flag_named(trim(raw@)) {
            Some(b) => r == Ok::<bool, AppError>(b),
            None => r matches Err(e) && invalid_value(
                e,
                config_key_name(key),
                not_allowed_message(raw@, "true, false"@),
            ),
        },
{
    let t = trim_str(raw);
    if chars_eq_str(t.as_slice(), "true") {
        Ok(true)
    } else if chars_eq_str(t.as_slice(), "false") {
        Ok(false)
    } else {
        Err(not_allowed(key.as_str(), &t, "true, false"))
    }
}

/// Records `value` for `key` in the config file, as `--config set` does:
/// a count is clamped into its range (the warning says so), a choice must
/// be one of its names, the icon must be acceptable and a flag `true` or
/// `false`. On an error nothing changes.
pub fn set_config_value(
    file: &mut DiscreteConfigFile,
    startup: &mut StartupConfigFile,
    key: ConfigKey,
    value: &str,
) -> (r: Result<Option<String>, AppError>)
    requires
        !is_real_key(key),
    ensures
        match set_outcome(key, value@) {
            Ok(w) => r matches Ok(w2) && opt_string_view(w2) == w && final(file)@ == file_set(
                old(file)@,
                key,
                value@,
            ) && *final(startup) == startup_set(*old(startup), key, value@),
            Err(m) => r matches Err(e) && invalid_value(e, config_key_name(key), m) && final(file)@
                == old(file)@ && *final(startup) == *old(startup),
        },
{
    let name = key.as_str();
    match key {
        ConfigKey::MaxCharsPerLine => {
            let (v, w) = match parse_usize_config(name, value, MIN_TRUNCATE_MAX_WIDTH, MAX_TRUNCATE_MAX_WIDTH) {
                Ok(x) => x,
                Err(e) => return Err(e),
            };
            file.max_chars_per_line = Some(v);
            Ok(w)
        },
        ConfigKey::MaxLines => {
            let (v, w) = match parse_usize_config(name, value, MIN_TRUNCATE_MAX_LINES, MAX_TRUNCATE_MAX_LINES) {
                Ok(x) => x,
                Err(e) => return Err(e),
            };
            file.max_lines = Some(v);
            Ok(w)
        },
        ConfigKey::HudImageMaxHeight => {
            let (v, w) = match parse_usize_config(name, value, MIN_HUD_IMAGE_MAX_HEIGHT, MAX_HUD_IMAGE_MAX_HEIGHT) {
                Ok(x) => x,
                Err(e) => return Err(e),
            };
            file.hud_image_max_height = Some(v);
            Ok(w)
        },
        ConfigKey::HudPosition => {
            let v = match hud_position_value(value) {
                Ok(x) => x,
                Err(e) => return Err(e),
            };
            file.hud_position = Some(v);
            Ok(None)
        },
        ConfigKey::HudBackgroundColor => {
            let v = match hud_background_color_value(value) {
                Ok(x) => x,
                Err(e) => return Err(e),
            };
            file.hud_background_color = Some(v);
            Ok(None)
        },
        ConfigKey::Language => {
            let v = match language_value(value) {
                Ok(x) => x,
                Err(e) => return Err(e),
            };
            file.language = Some(v);
            Ok(None)
        },
        ConfigKey::HudEmoji => {
            let v = match hud_emoji_value(value) {
                Ok(x) => x,
                Err(e) => return Err(e),
            };
            file.hud_emoji = Some(v);
            Ok(None)
        },
        ConfigKey::ShowMenuBarIcon => {
            let v = match flag_value(key, value) {
                Ok(x) => x,
                Err(e) => return Err(e),
            };
            file.show_menu_bar_icon = Some(v);
            Ok(None)
        },
        ConfigKey::StartAtLogin => {
            let v = match flag_value(key, value) {
                Ok(x) => x,
                Err(e) => return Err(e),
            };
            startup.start_at_login = Some(v);
            Ok(None)
        },
        _ => Ok(None),
    }
}


// ---------------------------------------------------------------------------
// How the sources of a setting combine
// ---------------------------------------------------------------------------

/// A variable's value that gives its setting a value: an integer for a
/// count, a known name for a choice, an acceptable icon for the icon.
pub open spec fn count_readable(raw: Option<Seq<char>>) -> bool {
    raw matches Some(t) && parse_usize(trim(t)) is Some
}

pub open spec fn position_readable(raw: Option<Seq<char>>) -> bool {
    raw matches Some(t) && hud_position_named(normalized_choice(t)) is Some
}

pub open spec fn color_readable(raw: Option<Seq<char>>) -> bool {
    raw matches Some(t) && background_color_named(normalized_choice(t)) is Some
}

pub open spec fn language_readable(raw: Option<Seq<char>>) -> bool {
    raw matches Some(t) && language_named(normalized_choice(t)) is Some
}

pub open spec fn emoji_readable(raw: Option<Seq<char>>) -> bool {
    raw matches Some(t) && emoji_problem(t) is None
}

/// The environment takes precedence over the config file: a variable whose
/// value can be read decides its setting, whatever the settings were before
/// (`a` and `b`, such as those of two config files).
pub proof fn lemma_env_over_file(a: DiscreteView, b: DiscreteView, e: EnvView)
    ensures
        count_readable(e.max_chars_per_line) ==> env_applied(a, e).truncate_max_width == env_applied(
            b,
            e,
        ).truncate_max_width,
        count_readable(e.max_lines) ==> env_applied(a, e).truncate_max_lines == env_applied(
            b,
            e,
        ).truncate_max_lines,
        position_readable(e.hud_position) ==> env_applied(a, e).hud_position == env_applied(
            b,
            e,
        ).hud_position,
        color_readable(e.hud_background_color) ==> env_applied(a, e).hud_background_color
            == env_applied(b, e).hud_background_color,
        emoji_readable(e.hud_emoji) ==> env_applied(a, e).hud_emoji == env_applied(b, e).hud_emoji,
        count_readable(e.hud_image_max_height) ==> env_applied(a, e).hud_image_max_height
            == env_applied(b, e).hud_image_max_height,
        language_readable(e.language) ==> env_applied(a, e).language == env_applied(b, e).language,
{
}

/// Variables that are unset or cannot be read are ignored: the settings stay
/// as they were.
pub proof fn lemma_unreadable_env_keeps_settings(a: DiscreteView, e: EnvView)
    requires
        !count_readable(e.max_chars_per_line),
        !count_readable(e.max_lines),
        !position_readable(e.hud_position),
        !color_readable(e.hud_background_color),
        !emoji_readable(e.hud_emoji),
        !count_readable(e.hud_image_max_height),
        !language_readable(e.language),
    ensures
        env_applied(a, e) == a,
{
}

/// Keys that the config file leaves out keep the settings they had, and
/// such a file gives no warning.
pub proof fn lemma_silent_file_keeps_settings(a: DiscreteView, f: DiscreteConfigFile)
    requires
        f.max_chars_per_line is None,
        f.max_lines is None,
        f.hud_position is None,
        f.hud_background_color is None,
        f.hud_emoji is None,
        f.hud_image_max_height is None,
        f.language is None,
        f.show_menu_bar_icon is None,
    ensures
        file_applied(a, f@) == a,
        file_warnings(f@) == Seq::<Seq<char>>::empty(),
{
    assert(file_warnings(f@) =~= Seq::<Seq<char>>::empty());
}

/// The config file that holds `s`: every entry set to the setting's value.
pub open spec fn config_of(s: DiscreteView) -> DiscreteConfigView {
    DiscreteConfigView {
        max_chars_per_line: Some(s.truncate_max_width),
        max_lines: Some(s.truncate_max_lines),
        hud_position: Some(s.hud_position),
        hud_background_color: Some(s.hud_background_color),
        hud_emoji: Some(s.hud_emoji),
        hud_image_max_height: Some(s.hud_image_max_height),
        language: Some(s.language),
        show_menu_bar_icon: Some(s.show_menu_bar_icon),
    }
}

/// The `[display]` entries that store `s`, as the settings window saves them.
pub fn settings_to_config_file(s: &DiscreteSettings) -> (f: DiscreteConfigFile)
    ensures
        f@ == config_of(s@),
{
    DiscreteConfigFile {
        max_chars_per_line: Some(s.truncate_max_width),
        max_lines: Some(s.truncate_max_lines),
        hud_position: Some(s.hud_position),
        hud_background_color: Some(s.hud_background_color),
        hud_emoji: Some(s.hud_emoji.clone()),
        hud_image_max_height: Some(s.hud_image_max_height),
        language: Some(s.language),
        show_menu_bar_icon: Some(s.show_menu_bar_icon),
    }
}

/// Settings that a config file gives back as they are: every count within
/// its range, and an icon that is acceptable and has no surrounding
/// whitespace.
pub open spec fn storable(s: DiscreteView) -> bool {
    &&& MIN_TRUNCATE_MAX_WIDTH <= s.truncate_max_width <= MAX_TRUNCATE_MAX_WIDTH
    &&& MIN_TRUNCATE_MAX_LINES <= s.truncate_max_lines <= MAX_TRUNCATE_MAX_LINES
    &&& MIN_HUD_IMAGE_MAX_HEIGHT <= s.hud_image_max_height <= MAX_HUD_IMAGE_MAX_HEIGHT
    &&& emoji_problem(s.hud_emoji) is None
    &&& trim(s.hud_emoji) == s.hud_emoji
}

/// Saving settings and loading them back gives the same settings, whatever
/// the settings were before the file was applied, and loading warns
/// nothing.
pub proof fn lemma_config_round_trip(base: DiscreteView, s: DiscreteView)
    requires
        storable(s),
    ensures
        file_applied(base, config_of(s)) == s,
        file_warnings(config_of(s)) == Seq::<Seq<char>>::empty(),
{
    assert(file_warnings(config_of(s)) =~= Seq::<Seq<char>>::empty());
}

/// `r` is what a count `n` comes to in `min..=max`: `n` itself when it lies
/// there, else the nearer end.
pub open spec fn lands_in(r: usize, n: usize, min: usize, max: usize) -> bool {
    &&& min <= n <= max ==> r == n
    &&& n < min ==> r == min
    &&& n > max ==> r == max
}

/// Each count is kept to its own setting's range, from the environment and
/// from the config file alike: characters per line to
/// `MIN_TRUNCATE_MAX_WIDTH..=MAX_TRUNCATE_MAX_WIDTH`, lines to
/// `MIN_TRUNCATE_MAX_LINES..=MAX_TRUNCATE_MAX_LINES`, the thumbnail height to
/// `MIN_HUD_IMAGE_MAX_HEIGHT..=MAX_HUD_IMAGE_MAX_HEIGHT`; a value inside the
/// range is taken as it is.
pub proof fn lemma_counts_kept_to_their_ranges(a: DiscreteView, e: EnvView, f: DiscreteConfigView)
    ensures
        forall|t: Seq<char>|
            e.max_chars_per_line == Some(t) && #[trigger] parse_usize(trim(t)) is Some ==> lands_in(
                env_applied(a, e).truncate_max_width,
                parse_usize(trim(t))->0,
                MIN_TRUNCATE_MAX_WIDTH,
                MAX_TRUNCATE_MAX_WIDTH,
            ),
        forall|t: Seq<char>|
            e.max_lines == Some(t) && #[trigger] parse_usize(trim(t)) is Some ==> lands_in(
                env_applied(a, e).truncate_max_lines,
                parse_usize(trim(t))->0,
                MIN_TRUNCATE_MAX_LINES,
                MAX_TRUNCATE_MAX_LINES,
            ),
        forall|t: Seq<char>|
            e.hud_image_max_height == Some(t) && #[trigger] parse_usize(trim(t)) is Some
                ==> lands_in(
                env_applied(a, e).hud_image_max_height,
                parse_usize(trim(t))->0,
                MIN_HUD_IMAGE_MAX_HEIGHT,
                MAX_HUD_IMAGE_MAX_HEIGHT,
            ),
        f.max_chars_per_line matches Some(n) ==> lands_in(
            file_applied(a, f).truncate_max_width,
            n,
            MIN_TRUNCATE_MAX_WIDTH,
            MAX_TRUNCATE_MAX_WIDTH,
        ),
        f.max_lines matches Some(n) ==> lands_in(
            file_applied(a, f).truncate_max_lines,
            n,
            MIN_TRUNCATE_MAX_LINES,
            MAX_TRUNCATE_MAX_LINES,
        ),
        f.hud_image_max_height matches Some(n) ==> lands_in(
            file_applied(a, f).hud_image_max_height,
            n,
            MIN_HUD_IMAGE_MAX_HEIGHT,
            MAX_HUD_IMAGE_MAX_HEIGHT,
        ),
{
}

} // verus!
