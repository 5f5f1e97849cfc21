//! Settings: their names, limits and defaults, and the parsing of the values a
//! user may write in the config file, the environment or the settings window.

use vstd::prelude::*;

use crate::chars::{
    string_views,
    ascii_lower, chars_eq_str, chars_of, decimal, is_white_space, parse_usize_chars, push_chars, push_decimal, trim_end, trim_start, owned, parse_usize, parse_usize_str, string_of,
    to_ascii_lower, trim, trim_str,
};
use crate::graphemes::{extended_grapheme_clusters, graphemes};
use crate::error::AppError;
use crate::i18n::{localized, text, Lang, Msg};
use crate::login_item::{home_chars, home_directory};
use crate::path::{join_path, joined_path};

verus! {

broadcast use vstd::seq_lib::group_seq_properties;

/// Default characters per HUD line.
pub const DEFAULT_TRUNCATE_MAX_WIDTH: usize = 100;
/// Default number of HUD lines.
pub const DEFAULT_TRUNCATE_MAX_LINES: usize = 5;
/// Default cap on the thumbnail height, in points.
pub const DEFAULT_HUD_IMAGE_MAX_HEIGHT: usize = 160;
pub const MIN_TRUNCATE_MAX_WIDTH: usize = 1;
pub const MAX_TRUNCATE_MAX_WIDTH: usize = 500;
pub const MIN_TRUNCATE_MAX_LINES: usize = 1;
pub const MAX_TRUNCATE_MAX_LINES: usize = 20;
/// The upper limit matches the height that `DEFAULT_HUD_SCALE_PERCENT` leaves
/// for a thumbnail; a larger scale raises the real limit.
pub const MIN_HUD_IMAGE_MAX_HEIGHT: usize = 40;
pub const MAX_HUD_IMAGE_MAX_HEIGHT: usize = 240;

/// Clipboard polling interval, in hundredths of a second.
pub const POLL_INTERVAL_CENTISECS: u32 = 30;
pub const MIN_POLL_INTERVAL_CENTISECS: u32 = 5;
pub const MAX_POLL_INTERVAL_CENTISECS: u32 = 500;
/// How long the HUD stays up, in hundredths of a second.
pub const HUD_DURATION_CENTISECS: u32 = 100;
pub const MIN_HUD_DURATION_CENTISECS: u32 = 10;
pub const MAX_HUD_DURATION_CENTISECS: u32 = 1000;
/// Fade-out time, in hundredths of a second; 0 hides the HUD at once.
pub const DEFAULT_HUD_FADE_DURATION_CENTISECS: u32 = 30;
pub const MIN_HUD_FADE_DURATION_CENTISECS: u32 = 0;
pub const MAX_HUD_FADE_DURATION_CENTISECS: u32 = 200;
/// HUD scale, in percent.
pub const DEFAULT_HUD_SCALE_PERCENT: u32 = 110;
pub const MIN_HUD_SCALE_PERCENT: u32 = 50;
pub const MAX_HUD_SCALE_PERCENT: u32 = 200;
/// Background opacity, in percent.
pub const DEFAULT_HUD_BACKGROUND_OPACITY_PERCENT: u32 = 90;
pub const MIN_HUD_BACKGROUND_OPACITY_PERCENT: u32 = 20;
pub const MAX_HUD_BACKGROUND_OPACITY_PERCENT: u32 = 100;
/// The icon shown at the left of the HUD unless the user picks another.
pub const DEFAULT_HUD_EMOJI: &'static str = "📋";

/// Where on the screen the HUD appears.
#[derive(Debug, Clone, Copy, PartialEq, Eq, Structural)]
pub enum HudPosition {
    Top,
    Center,
    Bottom,
}

/// Language choice for the UI; `Auto` follows the system.
#[derive(Debug, Clone, Copy, PartialEq, Eq, Structural)]
pub enum LanguageSetting {
    Auto,
    Ja,
    En,
}

/// Tint of the HUD background.
#[derive(Debug, Clone, Copy, PartialEq, Eq, Structural)]
pub enum HudBackgroundColor {
    Default,
    Yellow,
    Blue,
    Green,
    Red,
    Purple,
}

/// The `[startup]` section of the config file.
#[derive(Debug, Clone, Copy, PartialEq, Eq, Structural)]
pub struct StartupConfigFile {
    /// `None` when the file does not say, which is not the same as `false`.
    pub start_at_login: Option<bool>,
}

/// Every key the config file knows.
#[derive(Debug, Clone, Copy, PartialEq, Eq, Structural)]
pub enum ConfigKey {
    PollIntervalSecs,
    HudDurationSecs,
    HudFadeDurationSecs,
    MaxCharsPerLine,
    MaxLines,
    HudPosition,
    HudScale,
    HudBackgroundColor,
    HudBackgroundOpacity,
    HudEmoji,
    HudImageMaxHeight,
    Language,
    ShowMenuBarIcon,
    StartAtLogin,
}

impl Default for HudPosition {
    fn default() -> (p: Self)
        ensures
            p == HudPosition::Top,
    {
        HudPosition::Top
    }
}

impl Default for LanguageSetting {
    fn default() -> (l: Self)
        ensures
            l == LanguageSetting::Auto,
    {
        LanguageSetting::Auto
    }
}

impl Default for HudBackgroundColor {
    fn default() -> (c: Self)
        ensures
            c == HudBackgroundColor::Default,
    {
        HudBackgroundColor::Default
    }
}

impl Default for StartupConfigFile {
    fn default() -> (s: Self)
        ensures
            s.start_at_login is None,
    {
        StartupConfigFile { start_at_login: None }
    }
}

/// The name a position is written as.
pub open spec fn hud_position_name(p: HudPosition) -> Seq<char> {
    match p {
        HudPosition::Top => "top"@,
        HudPosition::Center => "center"@,
        HudPosition::Bottom => "bottom"@,
    }
}

/// The name a language setting is written as.
pub open spec fn language_setting_name(l: LanguageSetting) -> Seq<char> {
    match l {
        LanguageSetting::Auto => "auto"@,
        LanguageSetting::Ja => "ja"@,
        LanguageSetting::En => "en"@,
    }
}

/// The name a background color is written as.
pub open spec fn background_color_name(c: HudBackgroundColor) -> Seq<char> {
    match c {
        HudBackgroundColor::Default => "default"@,
        HudBackgroundColor::Yellow => "yellow"@,
        HudBackgroundColor::Blue => "blue"@,
        HudBackgroundColor::Green => "green"@,
        HudBackgroundColor::Red => "red"@,
        HudBackgroundColor::Purple => "purple"@,
    }
}

/// The name a key has in the config file.
pub open spec fn config_key_name(k: ConfigKey) -> Seq<char> {
    match k {
        ConfigKey::PollIntervalSecs => "poll_interval_secs"@,
        ConfigKey::HudDurationSecs => "hud_duration_secs"@,
        ConfigKey::HudFadeDurationSecs => "hud_fade_duration_secs"@,
        ConfigKey::MaxCharsPerLine => "max_chars_per_line"@,
        ConfigKey::MaxLines => "max_lines"@,
        ConfigKey::HudPosition => "hud_position"@,
        ConfigKey::HudScale => "hud_scale"@,
        ConfigKey::HudBackgroundColor => "hud_background_color"@,
        ConfigKey::HudBackgroundOpacity => "hud_background_opacity"@,
        ConfigKey::HudEmoji => "hud_emoji"@,
        ConfigKey::HudImageMaxHeight => "hud_image_max_height"@,
        ConfigKey::Language => "language"@,
        ConfigKey::ShowMenuBarIcon => "show_menu_bar_icon"@,
        ConfigKey::StartAtLogin => "start_at_login"@,
    }
}

impl HudPosition {
    pub fn as_str(self) -> (s: &'static str)
        ensures
            s@ == hud_position_name(self),
    {
        match self {
            HudPosition::Top => "top",
            HudPosition::Center => "center",
            HudPosition::Bottom => "bottom",
        }
    }
}

impl LanguageSetting {
    pub fn as_str(self) -> (s: &'static str)
        ensures
            s@ == language_setting_name(self),
    {
        match self {
            LanguageSetting::Auto => "auto",
            LanguageSetting::Ja => "ja",
            LanguageSetting::En => "en",
        }
    }
}

impl HudBackgroundColor {
    pub fn as_str(self) -> (s: &'static str)
        ensures
            s@ == background_color_name(self),
    {
        match self {
            HudBackgroundColor::Default => "default",
            HudBackgroundColor::Yellow => "yellow",
            HudBackgroundColor::Blue => "blue",
            HudBackgroundColor::Green => "green",
            HudBackgroundColor::Red => "red",
            HudBackgroundColor::Purple => "purple",
        }
    }
}

impl ConfigKey {
    /// Every key, in the order the config file lists them.
    pub const ALL: [ConfigKey; 14] = [
        ConfigKey::PollIntervalSecs,
        ConfigKey::HudDurationSecs,
        ConfigKey::HudFadeDurationSecs,
        ConfigKey::MaxCharsPerLine,
        ConfigKey::MaxLines,
        ConfigKey::HudPosition,
        ConfigKey::HudScale,
        ConfigKey::HudBackgroundColor,
        ConfigKey::HudBackgroundOpacity,
        ConfigKey::HudEmoji,
        ConfigKey::HudImageMaxHeight,
        ConfigKey::Language,
        ConfigKey::ShowMenuBarIcon,
        ConfigKey::StartAtLogin,
    ];

    pub fn as_str(self) -> (s: &'static str)
        ensures
            s@ == config_key_name(self),
    {
        match self {
            ConfigKey::PollIntervalSecs => "poll_interval_secs",
            ConfigKey::HudDurationSecs => "hud_duration_secs",
            ConfigKey::HudFadeDurationSecs => "hud_fade_duration_secs",
            ConfigKey::MaxCharsPerLine => "max_chars_per_line",
            ConfigKey::MaxLines => "max_lines",
            ConfigKey::HudPosition => "hud_position",
            ConfigKey::HudScale => "hud_scale",
            ConfigKey::HudBackgroundColor => "hud_background_color",
            ConfigKey::HudBackgroundOpacity => "hud_background_opacity",
            ConfigKey::HudEmoji => "hud_emoji",
            ConfigKey::HudImageMaxHeight => "hud_image_max_height",
            ConfigKey::Language => "language",
            ConfigKey::ShowMenuBarIcon => "show_menu_bar_icon",
            ConfigKey::StartAtLogin => "start_at_login",
        }
    }
}

/// How a typed choice is compared with the known names: whitespace around it
/// is ignored, ASCII letters are lowercased and `-` counts as `_`.
pub open spec fn normalized_choice(raw: Seq<char>) -> Seq<char> {
    trim(raw).map_values(|c: char| choice_char(c))
}

pub open spec fn choice_char(c: char) -> char {
    if c == '-' {
        '_'
    } else {
        ascii_lower(c)
    }
}

fn normalize_choice(raw: &str) -> (out: Vec<char>)
    ensures
        out@ == normalized_choice(raw@),
{
    let t = trim_str(raw);
    let mut out: Vec<char> = Vec::new();
    let mut i: usize = 0;
    while i < t.len()
        invariant
            i <= t@.len(),
            t@ == trim(raw@),
            out@ == t@.take(i as int).map_values(|c: char| choice_char(c)),
        decreases t@.len() - i,
    {
        let c = t[i];
        let n = if c == '-' {
            '_'
        } else {
            to_ascii_lower(c)
        };
        out.push(n);
        assert(out@ =~= t@.take(i + 1).map_values(|c: char| choice_char(c)));
        i += 1;
    }
    assert(t@.take(t@.len() as int) == t@);
    out
}

/// The position a normalized name stands for.
pub open spec fn hud_position_named(name: Seq<char>) -> Option<HudPosition> {
    if name == "top"@ {
        Some(HudPosition::Top)
    } else if name == "center"@ {
        Some(HudPosition::Center)
    } else if name == "bottom"@ {
        Some(HudPosition::Bottom)
    } else {
        None
    }
}

/// The background color a normalized name stands for.
pub open spec fn background_color_named(name: Seq<char>) -> Option<HudBackgroundColor> {
    if name == "default"@ {
        Some(HudBackgroundColor::Default)
    } else if name == "yellow"@ {
        Some(HudBackgroundColor::Yellow)
    } else if name == "blue"@ {
        Some(HudBackgroundColor::Blue)
    } else if name == "green"@ {
        Some(HudBackgroundColor::Green)
    } else if name == "red"@ {
        Some(HudBackgroundColor::Red)
    } else if name == "purple"@ {
        Some(HudBackgroundColor::Purple)
    } else {
        None
    }
}

/// The language setting a normalized name stands for.
pub open spec fn language_named(name: Seq<char>) -> Option<LanguageSetting> {
    if name == "auto"@ {
        Some(LanguageSetting::Auto)
    } else if name == "ja"@ {
        Some(LanguageSetting::Ja)
    } else if name == "en"@ {
        Some(LanguageSetting::En)
    } else {
        None
    }
}

pub fn parse_hud_position(raw: &str) -> (p: Option<HudPosition>)
    ensures
        p == hud_position_named(normalized_choice(raw@)),
{
    let n = normalize_choice(raw);
    if chars_eq_str(n.as_slice(), "top") {
        Some(HudPosition::Top)
    } else if chars_eq_str(n.as_slice(), "center") {
        Some(HudPosition::Center)
    } else if chars_eq_str(n.as_slice(), "bottom") {
        Some(HudPosition::Bottom)
    } else {
        None
    }
}

pub fn parse_hud_background_color(raw: &str) -> (c: Option<HudBackgroundColor>)
    ensures
        c == background_color_named(normalized_choice(raw@)),
{
    let n = normalize_choice(raw);
    if chars_eq_str(n.as_slice(), "default") {
        Some(HudBackgroundColor::Default)
    } else if chars_eq_str(n.as_slice(), "yellow") {
        Some(HudBackgroundColor::Yellow)
    } else if chars_eq_str(n.as_slice(), "blue") {
        Some(HudBackgroundColor::Blue)
    } else if chars_eq_str(n.as_slice(), "green") {
        Some(HudBackgroundColor::Green)
    } else if chars_eq_str(n.as_slice(), "red") {
        Some(HudBackgroundColor::Red)
    } else if chars_eq_str(n.as_slice(), "purple") {
        Some(HudBackgroundColor::Purple)
    } else {
        None
    }
}

pub fn parse_language(raw: &str) -> (l: Option<LanguageSetting>)
    ensures
        l == language_named(normalized_choice(raw@)),
{
    let n = normalize_choice(raw);
    if chars_eq_str(n.as_slice(), "auto") {
        Some(LanguageSetting::Auto)
    } else if chars_eq_str(n.as_slice(), "ja") {
        Some(LanguageSetting::Ja)
    } else if chars_eq_str(n.as_slice(), "en") {
        Some(LanguageSetting::En)
    } else {
        None
    }
}

/// `parse_hud_position`, keeping `default` when the text names no position.
pub fn parse_hud_position_setting(raw: &str, default: HudPosition) -> (p: HudPosition)
    ensures
        p == (match hud_position_named(normalized_choice(raw@)) {
            Some(q) => q,
            None => default,
        }),
{
    match parse_hud_position(raw) {
        Some(p) => p,
        None => default,
    }
}

/// `parse_hud_background_color`, keeping `default` when the text names no color.
pub fn parse_hud_background_color_setting(raw: &str, default: HudBackgroundColor) -> (c:
    HudBackgroundColor)
    ensures
        c == (match background_color_named(normalized_choice(raw@)) {
            Some(d) => d,
            None => default,
        }),
{
    match parse_hud_background_color(raw) {
        Some(c) => c,
        None => default,
    }
}

/// `parse_language`, keeping `default` when the text names no language.
pub fn parse_language_setting(raw: &str, default: LanguageSetting) -> (l: LanguageSetting)
    ensures
        l == (match language_named(normalized_choice(raw@)) {
            Some(m) => m,
            None => default,
        }),
{
    match parse_language(raw) {
        Some(l) => l,
        None => default,
    }
}

/// `value` limited to `min..=max`.
pub open spec fn clamped(value: int, min: int, max: int) -> int {
    if value < min {
        min
    } else if value > max {
        max
    } else {
        value
    }
}

/// Clamps `value` into `min..=max` (an integer cannot be NaN, so no default
/// is needed).
pub fn parse_usize_value(value: usize, min: usize, max: usize) -> (v: usize)
    requires
        min <= max,
    ensures
        v == clamped(value as int, min as int, max as int),
{
    if value < min {
        min
    } else if value > max {
        max
    } else {
        value
    }
}

/// An integer setting from text: `default` when the text is not an integer,
/// otherwise the integer clamped into `min..=max`.
pub fn parse_usize_setting(raw: &str, default: usize, min: usize, max: usize) -> (v: usize)
    requires
        parse_usize(raw@) is Some ==> min <= max,
    ensures
        v == (match parse_usize(raw@) {
            Some(n) => clamped(n as int, min as int, max as int) as usize,
            None => default,
        }),
{
    match parse_usize_str(raw) {
        Some(n) => parse_usize_value(n, min, max),
        None => default,
    }
}

/// Code points found in emoji: the main emoji blocks of the Unicode emoji
/// data, the variation selector, the zero-width joiner and the keycap mark.
/// Regional indicators (flags) fall inside `U+1F000..=U+1FAFF`.
pub open spec fn is_emoji_code_point(c: char) -> bool {
    let u: u32 = c as u32;
    ||| u == 0x00A9
    ||| u == 0x00AE
    ||| u == 0x203C
    ||| u == 0x2049
    ||| u == 0x2122
    ||| u == 0x2139
    ||| 0x2194 <= u <= 0x21AA
    ||| 0x231A <= u <= 0x231B
    ||| u == 0x2328
    ||| u == 0x23CF
    ||| 0x23E9 <= u <= 0x23FA
    ||| u == 0x24C2
    ||| 0x25AA <= u <= 0x25FE
    ||| 0x2600 <= u <= 0x27BF
    ||| 0x2934 <= u <= 0x2935
    ||| 0x2B00 <= u <= 0x2BFF
    ||| u == 0x3030
    ||| u == 0x303D
    ||| u == 0x3297
    ||| u == 0x3299
    ||| 0x1F000 <= u <= 0x1FAFF
    ||| u == 0xFE0F
    ||| u == 0x20E3
    ||| u == 0x200D
}

pub fn is_emoji_codepoint(c: char) -> (b: bool)
    ensures
        b == is_emoji_code_point(c),
{
    let u: u32 = c as u32;
    u == 0x00A9 || u == 0x00AE || u == 0x203C || u == 0x2049 || u == 0x2122 || u == 0x2139 || (
    0x2194 <= u && u <= 0x21AA) || (0x231A <= u && u <= 0x231B) || u == 0x2328 || u == 0x23CF || (
    0x23E9 <= u && u <= 0x23FA) || u == 0x24C2 || (0x25AA <= u && u <= 0x25FE) || (0x2600 <= u
        && u <= 0x27BF) || (0x2934 <= u && u <= 0x2935) || (0x2B00 <= u && u <= 0x2BFF) || u
        == 0x3030 || u == 0x303D || u == 0x3297 || u == 0x3299 || (0x1F000 <= u && u <= 0x1FAFF)
        || u == 0xFE0F || u == 0x20E3 || u == 0x200D
}

/// Some character of `s` is an emoji code point.
pub open spec fn has_emoji_code_point(s: Seq<char>) -> bool {
    exists|i: int| 0 <= i < s.len() && is_emoji_code_point(#[trigger] s[i])
}

/// Why `raw` is not an acceptable HUD icon, or `None` when it is: an empty
/// (after trimming) value means no icon; otherwise it must be one grapheme
/// cluster holding an emoji code point.
pub open spec fn emoji_problem(raw: Seq<char>) -> Option<Msg> {
    let t = trim(raw);
    let clusters = extended_grapheme_clusters(t);
    if t.len() == 0 {
        None
    } else if clusters.len() >= 2 {
        Some(Msg::EmojiTooLong)
    } else if clusters.len() == 1 && has_emoji_code_point(clusters[0]) {
        None
    } else {
        Some(Msg::EmojiNotEmoji)
    }
}

fn contains_emoji_code_point(s: &str) -> (b: bool)
    ensures
        b == has_emoji_code_point(s@),
{
    let cs = crate::chars::chars_of(s);
    let mut i: usize = 0;
    while i < cs.len()
        invariant
            i <= cs@.len(),
            cs@ == s@,
            forall|k: int| 0 <= k < i ==> !is_emoji_code_point(#[trigger] cs@[k]),
        decreases cs@.len() - i,
    {
        if is_emoji_codepoint(cs[i]) {
            return true;
        }
        i += 1;
    }
    false
}

/// Why a non-empty icon made of the grapheme clusters `clusters` is not
/// acceptable, or `None` when it is one cluster holding an emoji code point.
pub open spec fn clusters_problem(clusters: Seq<Seq<char>>) -> Option<Msg> {
    if clusters.len() == 0 {
        None
    } else if clusters.len() >= 2 {
        Some(Msg::EmojiTooLong)
    } else if has_emoji_code_point(clusters[0]) {
        None
    } else {
        Some(Msg::EmojiNotEmoji)
    }
}

/// Checks an icon given as its grapheme clusters (see `clusters_problem`).
pub fn emoji_clusters_problem(clusters: &Vec<String>) -> (problem: Option<Msg>)
    ensures
        problem == clusters_problem(string_views(clusters@)),
{
    if clusters.len() == 0 {
        return None;
    }
    if clusters.len() >= 2 {
        return Some(Msg::EmojiTooLong);
    }
    if contains_emoji_code_point(clusters[0].as_str()) {
        None
    } else {
        Some(Msg::EmojiNotEmoji)
    }
}

/// Checks a `hud_emoji` value: `None` when it is acceptable, otherwise the
/// message that says why not.
pub fn hud_emoji_validation_error(raw: &str) -> (problem: Option<Msg>)
    ensures
        problem == emoji_problem(raw@),
{
    let t = trim_str(raw);
    if t.len() == 0 {
        return None;
    }
    let trimmed = string_of(t.as_slice());
    let clusters = graphemes(trimmed.as_str());
    proof {
        if clusters@.len() == 0 {
            assert(string_views(clusters@) =~= Seq::<Seq<char>>::empty());
        }
    }
    emoji_clusters_problem(&clusters)
}

/// The icon a `hud_emoji` value selects: the trimmed value when acceptable
/// (empty meaning no icon), `None` otherwise.
pub fn parse_hud_emoji(raw: &str) -> (emoji: Option<String>)
    ensures
        emoji_problem(raw@) is None ==> (emoji matches Some(e) && e@ == trim(raw@)),
        emoji_problem(raw@) is Some ==> emoji is None,
{
    match hud_emoji_validation_error(raw) {
        None => {
            let t = trim_str(raw);
            Some(string_of(t.as_slice()))
        },
        Some(_) => None,
    }
}

/// A name made of lowercase ASCII letters and `_` is its own normalized form.
proof fn lemma_plain_name_is_normalized(name: Seq<char>)
    requires
        forall|i: int| 0 <= i < name.len() ==> ('a' <= #[trigger] name[i] <= 'z' || name[i] == '_'),
    ensures
        normalized_choice(name) == name,
{
    assert(trim_start(name) == name) by {
        if name.len() > 0 {
            assert(!is_white_space(name[0]));
        }
    }
    assert(trim_end(name) == name) by {
        if name.len() > 0 {
            assert(!is_white_space(name.last()));
        }
    }
    assert(normalized_choice(name) =~= name);
}

/// Writing a position by its name and reading the name back gives the same
/// position.
pub proof fn lemma_hud_position_name_round_trip(p: HudPosition)
    ensures
        hud_position_named(normalized_choice(hud_position_name(p))) == Some(p),
{
    reveal_strlit("top");
    reveal_strlit("center");
    reveal_strlit("bottom");
    lemma_plain_name_is_normalized(hud_position_name(p));
}

/// Writing a background color by its name and reading the name back gives the
/// same color.
pub proof fn lemma_background_color_name_round_trip(c: HudBackgroundColor)
    ensures
        background_color_named(normalized_choice(background_color_name(c))) == Some(c),
{
    reveal_strlit("default");
    reveal_strlit("yellow");
    reveal_strlit("blue");
    reveal_strlit("green");
    reveal_strlit("red");
    reveal_strlit("purple");
    lemma_plain_name_is_normalized(background_color_name(c));
}

/// Writing a language setting by its name and reading the name back gives the
/// same setting.
pub proof fn lemma_language_setting_name_round_trip(l: LanguageSetting)
    ensures
        language_named(normalized_choice(language_setting_name(l))) == Some(l),
{
    reveal_strlit("auto");
    reveal_strlit("ja");
    reveal_strlit("en");
    lemma_plain_name_is_normalized(language_setting_name(l));
}

/// The environment variable that names the config file outright.
pub const CONFIG_PATH_VAR: &'static str = "CLIIP_SHOW_CONFIG_PATH";

/// The environment variable of the home directory.
pub const HOME_VAR: &'static str = "HOME";

/// Where the config file lies under the home directory.
pub const DEFAULT_CONFIG_RELATIVE_PATH: &'static str = "Library/Application Support/cliip-show/config.toml";

/// The text of an optional `String`.
pub open spec fn opt_string_view(o: Option<String>) -> Option<Seq<char>> {
    match o {
        Some(s) => Some(s@),
        None => None,
    }
}

/// The config path for the values of `CONFIG_PATH_VAR` and `HOME`: the
/// former trimmed when it is not blank, else the default place under the
/// trimmed home directory; `None` when neither gives one.
pub open spec fn config_path_for(explicit: Option<Seq<char>>, home: Option<Seq<char>>) -> Option<Seq<char>> {
    match home_directory(explicit) {
        Some(p) => Some(p),
        None => match home_directory(home) {
            Some(h) => Some(joined_path(h, DEFAULT_CONFIG_RELATIVE_PATH@)),
            None => None,
        },
    }
}

/// The config file's path, reading the environment through `lookup`:
/// `CONFIG_PATH_VAR` first, and `HOME` only when that is unset or blank.
pub fn config_file_path_with<F: Fn(&str) -> Option<String>>(lookup: F) -> (r: Result<String, AppError>)
    requires
        forall|q: &str| lookup.requires((q,)),
    ensures
        exists|q1: &str, v1: Option<String>|
            q1@ == CONFIG_PATH_VAR@ && lookup.ensures((q1,), v1) && match home_directory(
                opt_string_view(v1),
            ) {
                Some(p) => r matches Ok(s) && s@ == p,
                None => exists|q2: &str, v2: Option<String>|
                    q2@ == HOME_VAR@ && lookup.ensures((q2,), v2) && match home_directory(
                        opt_string_view(v2),
                    ) {
                        Some(h) => r matches Ok(s) && s@ == joined_path(h, DEFAULT_CONFIG_RELATIVE_PATH@),
                        None => r matches Err(AppError::ConfigResolve(m))
                            && m@ == "failed to resolve HOME for config path"@,
                    },
            },
{
    let explicit = lookup(CONFIG_PATH_VAR);
    let chosen = match &explicit {
        Some(v) => home_chars(Some(v.as_str())),
        None => home_chars(None),
    };
    if let Some(p) = chosen {
        return Ok(string_of(p.as_slice()));
    }
    let home = lookup(HOME_VAR);
    let h = match &home {
        Some(v) => home_chars(Some(v.as_str())),
        None => home_chars(None),
    };
    match h {
        Some(h) => {
            let p = join_path(h.as_slice(), chars_of(DEFAULT_CONFIG_RELATIVE_PATH).as_slice());
            Ok(string_of(p.as_slice()))
        },
        None => Err(AppError::ConfigResolve(owned("failed to resolve HOME for config path"))),
    }
}

// ---------------------------------------------------------------------------
// Values given for one key, with the error or warning the user sees
// ---------------------------------------------------------------------------

/// `{key} was clamped from {value} to {clamped} (allowed range: {min}..={max})`.
pub open spec fn clamp_warning(key: Seq<char>, value: nat, clamped: nat, min: nat, max: nat) -> Seq<
    char,
> {
    key + " was clamped from "@ + decimal(value) + " to "@ + decimal(clamped) + " (allowed range: "@
        + decimal(min) + "..="@ + decimal(max) + ")"@
}

/// The text of `clamp_warning`.
pub(crate) fn clamp_warning_text(key: &str, value: usize, clamped: usize, min: usize, max: usize) -> (s:
    String)
    ensures
        s@ == clamp_warning(key@, value as nat, clamped as nat, min as nat, max as nat),
{
    let mut m = chars_of(key);
    push_chars(&mut m, chars_of(" was clamped from ").as_slice());
    push_decimal(&mut m, value);
    push_chars(&mut m, chars_of(" to ").as_slice());
    push_decimal(&mut m, clamped);
    push_chars(&mut m, chars_of(" (allowed range: ").as_slice());
    push_decimal(&mut m, min);
    push_chars(&mut m, chars_of("..=").as_slice());
    push_decimal(&mut m, max);
    push_chars(&mut m, chars_of(")").as_slice());
    string_of(m.as_slice())
}

/// An integer value for `key`: the trimmed text as an integer, clamped into
/// `min..=max`, with the warning when it had to be clamped; the message of
/// the error otherwise.
pub open spec fn usize_config_outcome(key: Seq<char>, raw: Seq<char>, min: usize, max: usize) -> Result<
    (usize, Option<Seq<char>>),
    Seq<char>,
> {
    match parse_usize(trim(raw)) {
        None => Err("invalid integer: "@ + trim(raw)),
        Some(v) => {
            let c: usize = clamped(v as int, min as int, max as int) as usize;
            Ok(
                (
                    c,
                    if v < min || v > max {
                        Some(clamp_warning(key, v as nat, c as nat, min as nat, max as nat))
                    } else {
                        None
                    },
                ),
            )
        },
    }
}

/// An error about the value given for `key`.
pub open spec fn invalid_value(e: AppError, key: Seq<char>, message: Seq<char>) -> bool {
    e matches AppError::InvalidValue { key: k, message: m } && k@ == key && m@ == message
}

fn invalid(key: &str, message: Vec<char>) -> (e: AppError)
    ensures
        invalid_value(e, key@, message@),
{
    AppError::InvalidValue { key: owned(key), message: string_of(message.as_slice()) }
}

/// Parses an integer value for `key` (see `usize_config_outcome`).
pub fn parse_usize_config(key: &str, raw: &str, min: usize, max: usize) -> (r: Result<
    (usize, Option<String>),
    AppError,
>)
    requires
        min <= max,
    ensures
        match (r, usize_config_outcome(key@, raw@, min, max)) {
            (Ok((v, w)), Ok((ev, ew))) => v == ev && match (w, ew) {
                (Some(a), Some(b)) => a@ == b,
                (None, None) => true,
                _ => false,
            },
            (Err(e), Err(m)) => invalid_value(e, key@, m),
            _ => false,
        },
{
    let t = trim_str(raw);
    match parse_usize_chars(t.as_slice()) {
        None => {
            let mut m = chars_of("invalid integer: ");
            push_chars(&mut m, t.as_slice());
            Err(invalid(key, m))
        },
        Some(v) => {
            let c: usize = parse_usize_value(v, min, max);
            if v < min || v > max {
                Ok((c, Some(clamp_warning_text(key, v, c, min, max))))
            } else {
                Ok((c, None))
            }
        },
    }
}

/// `{raw} (allowed: {choices})` for a choice that is not one of them.
pub(crate) fn not_allowed(key: &str, t: &Vec<char>, choices: &str) -> (e: AppError)
    ensures
        invalid_value(e, key@, t@ + " (allowed: "@ + choices@ + ")"@),
{
    let mut m = t.clone();
    assert(m@ == t@);
    push_chars(&mut m, chars_of(" (allowed: ").as_slice());
    push_chars(&mut m, chars_of(choices).as_slice());
    push_chars(&mut m, chars_of(")").as_slice());
    invalid(key, m)
}

/// A `hud_position` value, or the error naming the choices.
pub fn hud_position_value(raw: &str) -> (r: Result<HudPosition, AppError>)
    ensures
        match hud_position_named(normalized_choice(raw@)) {
            Some(p) => r == Ok::<HudPosition, AppError>(p),
            None => r matches Err(e) && invalid_value(
                e,
                "hud_position"@,
                trim(raw@) + " (allowed: "@ + "top, center, bottom"@ + ")"@,
            ),
        },
{
    match parse_hud_position(raw) {
        Some(p) => Ok(p),
        None => Err(not_allowed("hud_position", &trim_str(raw), "top, center, bottom")),
    }
}

/// A `hud_background_color` value, or the error naming the choices.
pub fn hud_background_color_value(raw: &str) -> (r: Result<HudBackgroundColor, AppError>)
    ensures
        match background_color_named(normalized_choice(raw@)) {
            Some(c) => r == Ok::<HudBackgroundColor, AppError>(c),
            None => r matches Err(e) && invalid_value(
                e,
                "hud_background_color"@,
                trim(raw@) + " (allowed: "@ + "default, yellow, blue, green, red, purple"@ + ")"@,
            ),
        },
{
    match parse_hud_background_color(raw) {
        Some(c) => Ok(c),
        None => Err(
            not_allowed(
                "hud_background_color",
                &trim_str(raw),
                "default, yellow, blue, green, red, purple",
            ),
        ),
    }
}

/// A `language` value, or the error naming the choices.
pub fn language_value(raw: &str) -> (r: Result<LanguageSetting, AppError>)
    ensures
        match language_named(normalized_choice(raw@)) {
            Some(l) => r == Ok::<LanguageSetting, AppError>(l),
            None => r matches Err(e) && invalid_value(
                e,
                "language"@,
                trim(raw@) + " (allowed: "@ + "auto, ja, en"@ + ")"@,
            ),
        },
{
    match parse_language(raw) {
        Some(l) => Ok(l),
        None => Err(not_allowed("language", &trim_str(raw), "auto, ja, en")),
    }
}

/// A `hud_emoji` value (the trimmed text, empty for no icon), or the error
/// that gives the reason in English and the value.
pub fn hud_emoji_value(raw: &str) -> (r: Result<String, AppError>)
    ensures
        match emoji_problem(raw@) {
            None => r matches Ok(e) && e@ == trim(raw@),
            Some(msg) => r matches Err(e) && invalid_value(
                e,
                "hud_emoji"@,
                localized(Lang::En, msg) + ", got: "@ + trim(raw@),
            ),
        },
{
    match hud_emoji_validation_error(raw) {
        None => {
            let t = trim_str(raw);
            Ok(string_of(t.as_slice()))
        },
        Some(msg) => {
            let mut m = chars_of(text(Lang::En, msg));
            push_chars(&mut m, chars_of(", got: ").as_slice());
            let t = trim_str(raw);
            push_chars(&mut m, t.as_slice());
            Err(invalid("hud_emoji", m))
        },
    }
}

/// Different keys have different names, so a name in the config file stands
/// for one key.
pub proof fn lemma_config_key_names_distinct(a: ConfigKey, b: ConfigKey)
    requires
        a != b,
    ensures
        config_key_name(a) != config_key_name(b),
{
    reveal_strlit("poll_interval_secs");
    reveal_strlit("hud_duration_secs");
    reveal_strlit("hud_fade_duration_secs");
    reveal_strlit("max_chars_per_line");
    reveal_strlit("max_lines");
    reveal_strlit("hud_position");
    reveal_strlit("hud_scale");
    reveal_strlit("hud_background_color");
    reveal_strlit("hud_background_opacity");
    reveal_strlit("hud_emoji");
    reveal_strlit("hud_image_max_height");
    reveal_strlit("language");
    reveal_strlit("show_menu_bar_icon");
    reveal_strlit("start_at_login");
    let x = config_key_name(a);
    let y = config_key_name(b);
    if x == y {
        assert(x.len() == y.len());
        assert(x[0] == y[0]);
        assert(x[x.len() - 1] == y[y.len() - 1]);
        assert(x[4] == y[4]);
    }
}

/// The emoji code points: the miscellaneous symbols and dingbats
/// (U+2600..=U+27BF, such as U+2705, U+2615, U+26A1, U+2728), the
/// pictographs, emoticons and flags (U+1F000..=U+1FAFF), the arrows and
/// geometric shapes of the emoji data, the single symbols © ® ‼ ⁉ ™ ℹ ⌨ ⏏ Ⓜ
/// 〰 〽 ㊗ ㊙, and the variation selector, keycap mark and zero-width joiner
/// that join emoji sequences.
pub proof fn lemma_emoji_code_points(c: char)
    ensures
        ({
            let u = c as u32;
            0x2600 <= u <= 0x27BF || 0x1F000 <= u <= 0x1FAFF || 0x2B00 <= u <= 0x2BFF
            || 0x25AA <= u <= 0x25FE || 0x2194 <= u <= 0x21AA || 0x23E9 <= u <= 0x23FA
            || 0x231A <= u <= 0x231B || 0x2934 <= u <= 0x2935 || u == 0x00A9 || u == 0x00AE
            || u == 0x203C || u == 0x2049 || u == 0x2122 || u == 0x2139 || u == 0x2328
            || u == 0x23CF || u == 0x24C2 || u == 0x3030 || u == 0x303D || u == 0x3297
            || u == 0x3299 || u == 0xFE0F || u == 0x20E3 || u == 0x200D
        }) ==> is_emoji_code_point(c),
{
}

/// An icon that is one grapheme cluster holding an emoji code point is
/// accepted, whatever else the cluster holds.
pub proof fn lemma_single_emoji_icon_accepted(raw: Seq<char>, i: int)
    requires
        trim(raw).len() > 0,
        extended_grapheme_clusters(trim(raw)).len() == 1,
        0 <= i < extended_grapheme_clusters(trim(raw))[0].len(),
        ({
            let u = extended_grapheme_clusters(trim(raw))[0][i] as u32;
            0x2600 <= u <= 0x27BF || 0x1F000 <= u <= 0x1FAFF || 0x2B00 <= u <= 0x2BFF
            || 0x25AA <= u <= 0x25FE || 0x2194 <= u <= 0x21AA || 0x23E9 <= u <= 0x23FA
            || 0x231A <= u <= 0x231B || 0x2934 <= u <= 0x2935 || u == 0x00A9 || u == 0x00AE
            || u == 0x203C || u == 0x2049 || u == 0x2122 || u == 0x2139 || u == 0x2328
            || u == 0x23CF || u == 0x24C2 || u == 0x3030 || u == 0x303D || u == 0x3297
            || u == 0x3299 || u == 0xFE0F || u == 0x20E3 || u == 0x200D
        }),
    ensures
        emoji_problem(raw) is None,
{
    lemma_emoji_code_points(extended_grapheme_clusters(trim(raw))[0][i]);
}

/// The choices are read from their own English names, in lowercase: `top`,
/// `center`, `bottom`; `default`, `yellow`, `blue`, `green`, `red`,
/// `purple`; `auto`, `ja`, `en`. Each choice is written under the same name.
pub proof fn lemma_choice_names()
    ensures
        hud_position_named("top"@) == Some(HudPosition::Top),
        hud_position_named("center"@) == Some(HudPosition::Center),
        hud_position_named("bottom"@) == Some(HudPosition::Bottom),
        background_color_named("default"@) == Some(HudBackgroundColor::Default),
        background_color_named("yellow"@) == Some(HudBackgroundColor::Yellow),
        background_color_named("blue"@) == Some(HudBackgroundColor::Blue),
        background_color_named("green"@) == Some(HudBackgroundColor::Green),
        background_color_named("red"@) == Some(HudBackgroundColor::Red),
        background_color_named("purple"@) == Some(HudBackgroundColor::Purple),
        language_named("auto"@) == Some(LanguageSetting::Auto),
        language_named("ja"@) == Some(LanguageSetting::Ja),
        language_named("en"@) == Some(LanguageSetting::En),
        hud_position_name(HudPosition::Top) == "top"@,
        hud_position_name(HudPosition::Center) == "center"@,
        hud_position_name(HudPosition::Bottom) == "bottom"@,
        background_color_name(HudBackgroundColor::Default) == "default"@,
        background_color_name(HudBackgroundColor::Yellow) == "yellow"@,
        background_color_name(HudBackgroundColor::Blue) == "blue"@,
        background_color_name(HudBackgroundColor::Green) == "green"@,
        background_color_name(HudBackgroundColor::Red) == "red"@,
        background_color_name(HudBackgroundColor::Purple) == "purple"@,
        language_setting_name(LanguageSetting::Auto) == "auto"@,
        language_setting_name(LanguageSetting::Ja) == "ja"@,
        language_setting_name(LanguageSetting::En) == "en"@,
{
    reveal_strlit("top");
    reveal_strlit("center");
    reveal_strlit("bottom");
    reveal_strlit("default");
    reveal_strlit("yellow");
    reveal_strlit("blue");
    reveal_strlit("green");
    reveal_strlit("red");
    reveal_strlit("purple");
    reveal_strlit("auto");
    reveal_strlit("ja");
    reveal_strlit("en");
    assert("center"@ != "top"@) by {
        assert("center"@.len() != "top"@.len());
    }
    assert("bottom"@ != "top"@) by {
        assert("bottom"@.len() != "top"@.len());
    }
    assert("bottom"@ != "center"@) by {
        assert("bottom"@[0] != "center"@[0]);
    }
    assert("yellow"@ != "default"@) by {
        assert("yellow"@.len() != "default"@.len());
    }
    assert("blue"@ != "default"@) by {
        assert("blue"@.len() != "default"@.len());
    }
    assert("blue"@ != "yellow"@) by {
        assert("blue"@.len() != "yellow"@.len());
    }
    assert("green"@ != "default"@) by {
        assert("green"@.len() != "default"@.len());
    }
    assert("green"@ != "yellow"@) by {
        assert("green"@.len() != "yellow"@.len());
    }
    assert("green"@ != "blue"@) by {
        assert("green"@.len() != "blue"@.len());
    }
    assert("red"@ != "default"@) by {
        assert("red"@.len() != "default"@.len());
    }
    assert("red"@ != "yellow"@) by {
        assert("red"@.len() != "yellow"@.len());
    }
    assert("red"@ != "blue"@) by {
        assert("red"@.len() != "blue"@.len());
    }
    assert("red"@ != "green"@) by {
        assert("red"@.len() != "green"@.len());
    }
    assert("purple"@ != "default"@) by {
        assert("purple"@.len() != "default"@.len());
    }
    assert("purple"@ != "yellow"@) by {
        assert("purple"@[0] != "yellow"@[0]);
    }
    assert("purple"@ != "blue"@) by {
        assert("purple"@.len() != "blue"@.len());
    }
    assert("purple"@ != "green"@) by {
        assert("purple"@.len() != "green"@.len());
    }
    assert("purple"@ != "red"@) by {
        assert("purple"@.len() != "red"@.len());
    }
    assert("ja"@ != "auto"@) by {
        assert("ja"@.len() != "auto"@.len());
    }
    assert("en"@ != "auto"@) by {
        assert("en"@.len() != "auto"@.len());
    }
    assert("en"@ != "ja"@) by {
        assert("en"@[0] != "ja"@[0]);
    }
}

/// A choice is read the same whatever the case of its ASCII letters and
/// whatever whitespace surrounds it, with `-` standing for `_`: any text
/// whose normalized form is a choice's name reads as that choice.
pub proof fn lemma_choices_read_by_normalized_name(raw: Seq<char>)
    ensures
        normalized_choice(raw) == "red"@ ==> background_color_named(normalized_choice(raw)) == Some(
            HudBackgroundColor::Red,
        ),
        normalized_choice(raw) == "purple"@ ==> background_color_named(normalized_choice(raw))
            == Some(HudBackgroundColor::Purple),
        normalized_choice(raw) == "bottom"@ ==> hud_position_named(normalized_choice(raw)) == Some(
            HudPosition::Bottom,
        ),
        normalized_choice(raw) == "ja"@ ==> language_named(normalized_choice(raw)) == Some(
            LanguageSetting::Ja,
        ),
{
    lemma_choice_names();
}

/// Each key is named in the config file by its setting in snake case.
pub proof fn lemma_config_key_name_table()
    ensures
        config_key_name(ConfigKey::PollIntervalSecs) == "poll_interval_secs"@,
        config_key_name(ConfigKey::HudDurationSecs) == "hud_duration_secs"@,
        config_key_name(ConfigKey::HudFadeDurationSecs) == "hud_fade_duration_secs"@,
        config_key_name(ConfigKey::MaxCharsPerLine) == "max_chars_per_line"@,
        config_key_name(ConfigKey::MaxLines) == "max_lines"@,
        config_key_name(ConfigKey::HudPosition) == "hud_position"@,
        config_key_name(ConfigKey::HudScale) == "hud_scale"@,
        config_key_name(ConfigKey::HudBackgroundColor) == "hud_background_color"@,
        config_key_name(ConfigKey::HudBackgroundOpacity) == "hud_background_opacity"@,
        config_key_name(ConfigKey::HudEmoji) == "hud_emoji"@,
        config_key_name(ConfigKey::HudImageMaxHeight) == "hud_image_max_height"@,
        config_key_name(ConfigKey::Language) == "language"@,
        config_key_name(ConfigKey::ShowMenuBarIcon) == "show_menu_bar_icon"@,
        config_key_name(ConfigKey::StartAtLogin) == "start_at_login"@,
{
}

} // verus!
