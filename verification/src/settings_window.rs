//! The parts of the settings window that do not touch AppKit: the tags that
//! tie controls to config keys, the wording of row labels, range hints and
//! tooltips, the long preview text, and the filter of the numeric fields.

use vstd::prelude::*;

use crate::chars::{
    chars_of, decimal, digit_char, join_with, push_chars, push_decimal, push_joined, push_str,
    string_of, vec_views,
};
use crate::config::{
    ConfigKey, MAX_HUD_DURATION_CENTISECS, MAX_HUD_FADE_DURATION_CENTISECS,
    MAX_HUD_IMAGE_MAX_HEIGHT, MAX_HUD_SCALE_PERCENT, MAX_POLL_INTERVAL_CENTISECS,
    MAX_TRUNCATE_MAX_LINES, MAX_TRUNCATE_MAX_WIDTH, MIN_HUD_DURATION_CENTISECS,
    MIN_HUD_FADE_DURATION_CENTISECS, MIN_HUD_IMAGE_MAX_HEIGHT, MIN_HUD_SCALE_PERCENT,
    MIN_POLL_INTERVAL_CENTISECS, MIN_TRUNCATE_MAX_LINES, MIN_TRUNCATE_MAX_WIDTH,
};
use crate::i18n::{localized, numbered_line, preview_long_line, preview_numbered_line, preview_unit, repeated, text, Lang, Msg};

verus! {

broadcast use vstd::seq_lib::group_seq_properties;

/// How a localized control takes its new wording when the language changes.
#[derive(Debug, Clone, Copy, PartialEq, Eq, Structural)]
pub enum LocalizedKind {
    /// A text field label (`setStringValue:`).
    StringValue,
    /// A button, menu item, menu or window title (`setTitle:`).
    Title,
    /// A tab name (`setLabel:`).
    TabLabel,
    /// A tooltip (`setToolTip:`).
    ToolTip,
}

/// The initial state of the toggle rows that are saved as soon as they are
/// clicked, named so that the two cannot be swapped by mistake.
#[derive(Debug, Clone, Copy, PartialEq, Eq, Structural)]
pub struct InitialToggles {
    pub start_at_login: bool,
    pub show_menu_bar_icon: bool,
}

/// `NSControlStateValueOn`.
pub const NS_CONTROL_STATE_VALUE_ON: isize = 1;

/// `NSControlStateValueOff`.
pub const NS_CONTROL_STATE_VALUE_OFF: isize = 0;

/// The shortcut that opens the macOS emoji palette, quoted by the emoji tooltip.
pub const EMOJI_PALETTE_SHORTCUT: &'static str = "Ctrl + Cmd + Space";

// ---------------------------------------------------------------------------
// Control tags
// ---------------------------------------------------------------------------

/// The `tag` of the control that edits `key`.
pub open spec fn key_tag(key: ConfigKey) -> int {
    match key {
        ConfigKey::PollIntervalSecs => 0,
        ConfigKey::HudDurationSecs => 1,
        ConfigKey::HudFadeDurationSecs => 2,
        ConfigKey::MaxCharsPerLine => 3,
        ConfigKey::MaxLines => 4,
        ConfigKey::HudPosition => 5,
        ConfigKey::HudScale => 6,
        ConfigKey::HudBackgroundColor => 7,
        ConfigKey::HudEmoji => 8,
        ConfigKey::HudImageMaxHeight => 9,
        ConfigKey::Language => 10,
        ConfigKey::HudBackgroundOpacity => 11,
        ConfigKey::StartAtLogin => 12,
        ConfigKey::ShowMenuBarIcon => 13,
    }
}

/// The key whose control carries `tag`, if any.
pub open spec fn tag_key(tag: int) -> Option<ConfigKey> {
    if tag == 0 {
        Some(ConfigKey::PollIntervalSecs)
    } else if tag == 1 {
        Some(ConfigKey::HudDurationSecs)
    } else if tag == 2 {
        Some(ConfigKey::HudFadeDurationSecs)
    } else if tag == 3 {
        Some(ConfigKey::MaxCharsPerLine)
    } else if tag == 4 {
        Some(ConfigKey::MaxLines)
    } else if tag == 5 {
        Some(ConfigKey::HudPosition)
    } else if tag == 6 {
        Some(ConfigKey::HudScale)
    } else if tag == 7 {
        Some(ConfigKey::HudBackgroundColor)
    } else if tag == 8 {
        Some(ConfigKey::HudEmoji)
    } else if tag == 9 {
        Some(ConfigKey::HudImageMaxHeight)
    } else if tag == 10 {
        Some(ConfigKey::Language)
    } else if tag == 11 {
        Some(ConfigKey::HudBackgroundOpacity)
    } else if tag == 12 {
        Some(ConfigKey::StartAtLogin)
    } else if tag == 13 {
        Some(ConfigKey::ShowMenuBarIcon)
    } else {
        None
    }
}

/// Encodes `key` as a control `tag`.
pub fn config_key_to_tag(key: ConfigKey) -> (tag: isize)
    ensures
        tag == key_tag(key),
{
    match key {
        ConfigKey::PollIntervalSecs => 0,
        ConfigKey::HudDurationSecs => 1,
        ConfigKey::HudFadeDurationSecs => 2,
        ConfigKey::MaxCharsPerLine => 3,
        ConfigKey::MaxLines => 4,
        ConfigKey::HudPosition => 5,
        ConfigKey::HudScale => 6,
        ConfigKey::HudBackgroundColor => 7,
        ConfigKey::HudEmoji => 8,
        ConfigKey::HudImageMaxHeight => 9,
        ConfigKey::Language => 10,
        ConfigKey::HudBackgroundOpacity => 11,
        ConfigKey::StartAtLogin => 12,
        ConfigKey::ShowMenuBarIcon => 13,
    }
}

/// Decodes a control `tag`; `None` for a tag that no control carries.
pub fn tag_to_config_key(tag: isize) -> (key: Option<ConfigKey>)
    ensures
        key == tag_key(tag as int),
{
    match tag {
        0 => Some(ConfigKey::PollIntervalSecs),
        1 => Some(ConfigKey::HudDurationSecs),
        2 => Some(ConfigKey::HudFadeDurationSecs),
        3 => Some(ConfigKey::MaxCharsPerLine),
        4 => Some(ConfigKey::MaxLines),
        5 => Some(ConfigKey::HudPosition),
        6 => Some(ConfigKey::HudScale),
        7 => Some(ConfigKey::HudBackgroundColor),
        8 => Some(ConfigKey::HudEmoji),
        9 => Some(ConfigKey::HudImageMaxHeight),
        10 => Some(ConfigKey::Language),
        11 => Some(ConfigKey::HudBackgroundOpacity),
        12 => Some(ConfigKey::StartAtLogin),
        13 => Some(ConfigKey::ShowMenuBarIcon),
        _ => None,
    }
}

/// Every key survives the trip through its control tag.
pub proof fn lemma_tag_round_trip(key: ConfigKey)
    ensures
        tag_key(key_tag(key)) == Some(key),
        0 <= key_tag(key) < 14,
{
}

/// Decoding a tag and encoding the key again gives the tag back, so no two
/// keys share a tag and every tag in `0..14` names a key.
pub proof fn lemma_tag_decode_encode(tag: int)
    ensures
        tag_key(tag) is Some <==> 0 <= tag < 14,
        tag_key(tag) matches Some(key) ==> key_tag(key) == tag,
{
}

/// The state a toggle button shows for `enabled`.
pub fn login_item_control_state(enabled: bool) -> (state: isize)
    ensures
        state == (if enabled {
            NS_CONTROL_STATE_VALUE_ON
        } else {
            NS_CONTROL_STATE_VALUE_OFF
        }),
{
    if enabled {
        NS_CONTROL_STATE_VALUE_ON
    } else {
        NS_CONTROL_STATE_VALUE_OFF
    }
}

// ---------------------------------------------------------------------------
// The long preview sample
// ---------------------------------------------------------------------------

/// The lines of the long preview sample: the long line, then the numbered
/// lines 2 to 7.
pub open spec fn preview_long_lines(lang: Lang) -> Seq<Seq<char>> {
    seq![repeated(preview_unit(lang), 5)] + Seq::new(6, |i: int| numbered_line(lang, (i + 2) as nat))
}

/// The long preview sample: `preview_long_lines` joined by newlines.
pub fn preview_long_text(lang: Lang) -> (s: String)
    ensures
        s@ == join_with(preview_long_lines(lang), '\n'),
{
    let mut lines: Vec<Vec<char>> = Vec::new();
    let first = preview_long_line(lang);
    lines.push(chars_of(first.as_str()));
    let mut n: usize = 2;
    while n <= 7
        invariant
            2 <= n <= 8,
            vec_views(lines@) == preview_long_lines(lang).take(n - 1),
        decreases 8 - n,
    {
        let line = preview_numbered_line(lang, n);
        let ghost before = vec_views(lines@);
        lines.push(chars_of(line.as_str()));
        assert(vec_views(lines@) =~= before.push(numbered_line(lang, n as nat)));
        assert(preview_long_lines(lang).take(n as int) =~= preview_long_lines(lang).take(n - 1).push(
            preview_long_lines(lang)[n - 1],
        ));
        n += 1;
    }
    assert(preview_long_lines(lang).take(7) =~= preview_long_lines(lang));
    let mut out: Vec<char> = Vec::new();
    push_joined(&mut out, &lines, '\n');
    assert(out@ =~= join_with(preview_long_lines(lang), '\n'));
    string_of(out.as_slice())
}

// ---------------------------------------------------------------------------
// The digit filter of the numeric fields
// ---------------------------------------------------------------------------

/// The number of UTF-16 code units of `c`.
pub open spec fn utf16_units(c: char) -> nat {
    if (c as u32) < 0x10000 {
        1
    } else {
        2
    }
}

/// The number of UTF-16 code units of `s`.
pub open spec fn utf16_len(s: Seq<char>) -> nat
    decreases s.len(),
{
    if s.len() == 0 {
        0
    } else {
        utf16_len(s.drop_last()) + utf16_units(s.last())
    }
}

/// The ASCII digit that `c` stands for: itself for `0`–`9`, the ASCII
/// counterpart for a full-width digit, nothing otherwise.
pub open spec fn digit_for(c: char) -> Option<char> {
    if '0' <= c <= '9' {
        Some(c)
    } else if '\u{FF10}' <= c <= '\u{FF19}' {
        Some(digit_char((c as u32 - 0xFF10) as nat))
    } else {
        None
    }
}

/// The digits that remain of `s`, in order.
pub open spec fn kept_digits(s: Seq<char>) -> Seq<char>
    decreases s.len(),
{
    if s.len() == 0 {
        Seq::empty()
    } else {
        match digit_for(s.last()) {
            Some(d) => kept_digits(s.drop_last()).push(d),
            None => kept_digits(s.drop_last()),
        }
    }
}

/// The first `i >= from` at which the characters before `i` span at least
/// `caret` UTF-16 units, or the end of `s`.
pub open spec fn caret_index(s: Seq<char>, caret: nat, from: int) -> int
    decreases s.len() - from,
{
    if from >= s.len() {
        s.len() as int
    } else if utf16_len(s.take(from)) >= caret {
        from
    } else {
        caret_index(s, caret, from + 1)
    }
}

/// The caret after filtering: the number of digits kept before the caret's
/// character position (each kept digit is one UTF-16 unit), clamped to the
/// end of the text.
pub open spec fn filtered_caret(s: Seq<char>, caret: nat) -> nat {
    kept_digits(s.take(caret_index(s, caret, 0))).len()
}

/// The filtered text holds nothing but ASCII digits.
pub proof fn lemma_kept_digits_are_ascii(s: Seq<char>)
    ensures
        forall|i: int| 0 <= i < kept_digits(s).len() ==> '0' <= #[trigger] kept_digits(s)[i] <= '9',
    decreases s.len(),
{
    if s.len() > 0 {
        lemma_kept_digits_are_ascii(s.drop_last());
        let c = s.last();
        let before = kept_digits(s.drop_last());
        match digit_for(c) {
            Some(d) => {
                if '\u{FF10}' <= c <= '\u{FF19}' {
                    let k: nat = (c as u32 - 0xFF10) as nat;
                    assert(0 <= k < 10);
                    let b: u8 = (k + 48) as u8;
                    assert(b == k + 48);
                    assert((b as char) as u32 == b as u32);
                }
                assert('0' <= d <= '9');
                assert(kept_digits(s) == before.push(d));
                assert forall|i: int| 0 <= i < kept_digits(s).len() implies '0' <= #[trigger] kept_digits(s)[i] <= '9' by {
                    if i < before.len() {
                        assert(kept_digits(s)[i] == before[i]);
                    }
                }
            },
            None => {
                assert(kept_digits(s) == before);
            },
        }
    }
}

/// Filtering a longer prefix keeps at least as many digits.
proof fn lemma_kept_digits_grow(s: Seq<char>, i: int, j: int)
    requires
        0 <= i <= j <= s.len(),
    ensures
        kept_digits(s.take(i)).len() <= kept_digits(s.take(j)).len(),
    decreases j - i,
{
    if i < j {
        lemma_kept_digits_grow(s, i, j - 1);
        assert(s.take(j).drop_last() =~= s.take(j - 1));
    }
}

proof fn lemma_caret_index_bounds(s: Seq<char>, caret: nat, from: int)
    requires
        0 <= from,
    ensures
        from <= s.len() ==> from <= caret_index(s, caret, from) <= s.len(),
    decreases s.len() - from,
{
    if from < s.len() && utf16_len(s.take(from)) < caret {
        lemma_caret_index_bounds(s, caret, from + 1);
    }
}

/// The filtered caret lies within the filtered text.
pub proof fn lemma_filtered_caret_within_text(s: Seq<char>, caret: nat)
    ensures
        filtered_caret(s, caret) <= kept_digits(s).len(),
{
    lemma_caret_index_bounds(s, caret, 0);
    lemma_kept_digits_grow(s, caret_index(s, caret, 0), s.len() as int);
    assert(s.take(s.len() as int) =~= s);
}

/// `digit_for`.
pub fn normalize_digit(c: char) -> (d: Option<char>)
    ensures
        d == digit_for(c),
{
    if '0' <= c && c <= '9' {
        Some(c)
    } else if '\u{FF10}' <= c && c <= '\u{FF19}' {
        let k: u8 = (c as u32 - 0xFF10) as u8;
        Some((k + 48) as char)
    } else {
        None
    }
}

/// Keeps only the digits of `raw`, full-width digits turned into ASCII, and
/// moves the caret (a UTF-16 offset into `raw`, as `NSRange.location` gives
/// it) back by what was removed before it; a caret past the end lands at the
/// end.
pub fn filter_digits(raw: &str, caret_utf16: usize) -> (r: (String, usize))
    ensures
        r.0@ == kept_digits(raw@),
        r.1 == filtered_caret(raw@, caret_utf16 as nat),
{
    let cs = chars_of(raw);
    let ghost s = raw@;
    let mut out: Vec<char> = Vec::new();
    let mut consumed: u128 = 0;
    let mut caret_out: usize = 0;
    let mut placed = false;
    let mut i: usize = 0;
    while i < cs.len()
        invariant
            cs@ == s,
            i <= s.len(),
            out@ == kept_digits(s.take(i as int)),
            out@.len() <= i,
            !placed ==> consumed == utf16_len(s.take(i as int)) && consumed < caret_utf16 + 3
                && caret_index(s, caret_utf16 as nat, 0) == caret_index(s, caret_utf16 as nat, i as int),
            placed ==> caret_out == filtered_caret(s, caret_utf16 as nat),
        decreases s.len() - i,
    {
        let c = cs[i];
        assert(s.take(i + 1).drop_last() == s.take(i as int));
        if !placed && consumed >= caret_utf16 as u128 {
            caret_out = out.len();
            placed = true;
        }
        match normalize_digit(c) {
            Some(d) => out.push(d),
            None => {},
        }
        if !placed {
            if (c as u32) < 0x10000 {
                consumed = consumed + 1;
            } else {
                consumed = consumed + 2;
            }
        }
        i += 1;
    }
    if !placed {
        caret_out = out.len();
    }
    assert(s.take(s.len() as int) == s);
    (string_of(out.as_slice()), caret_out)
}

// ---------------------------------------------------------------------------
// Row labels
// ---------------------------------------------------------------------------

/// A value given in hundredths, as `{:.2}` prints it with trailing zeros and
/// a bare decimal point dropped: `5` → `0.05`, `50` → `0.5`, `500` → `5`.
pub open spec fn hundredths_text(h: nat) -> Seq<char> {
    let frac = h % 100;
    if frac == 0 {
        decimal(h / 100)
    } else if frac % 10 == 0 {
        decimal(h / 100) + seq!['.', digit_char(frac / 10)]
    } else {
        decimal(h / 100) + seq!['.', digit_char(frac / 10), digit_char(frac % 10)]
    }
}

/// A range suffix as the language brackets it: full-width brackets in
/// Japanese, a space and ASCII brackets in English.
pub open spec fn bracketed(lang: Lang, body: Seq<char>) -> Seq<char> {
    match lang {
        Lang::Ja => "（"@ + body + "）"@,
        Lang::En => " ("@ + body + ")"@,
    }
}

/// `min–max`.
pub open spec fn span(min: Seq<char>, max: Seq<char>) -> Seq<char> {
    min + "–"@ + max
}

/// The suffix of a count range.
pub open spec fn count_suffix(lang: Lang, min: nat, max: nat) -> Seq<char> {
    bracketed(lang, span(decimal(min), decimal(max)))
}

/// The suffix of a range in pixels.
pub open spec fn px_suffix(lang: Lang, min: nat, max: nat) -> Seq<char> {
    bracketed(lang, span(decimal(min), decimal(max)) + " px"@)
}

/// The suffix of a range in seconds, both ends given in hundredths.
pub open spec fn seconds_suffix(lang: Lang, min: nat, max: nat) -> Seq<char> {
    bracketed(
        lang,
        span(hundredths_text(min), hundredths_text(max)) + match lang {
            Lang::Ja => " 秒"@,
            Lang::En => " sec"@,
        },
    )
}

/// The suffix of a scale range, both ends given in hundredths.
pub open spec fn scale_suffix(lang: Lang, min: nat, max: nat) -> Seq<char> {
    bracketed(
        lang,
        span(hundredths_text(min), hundredths_text(max)) + match lang {
            Lang::Ja => " 倍"@,
            Lang::En => "×"@,
        },
    )
}

/// The label of the row for `msg`: its wording, followed for a setting with a
/// range by that range, taken from the configuration limits.
pub open spec fn label_wording(lang: Lang, msg: Msg) -> Seq<char> {
    localized(lang, msg) + match msg {
        Msg::LabelPollInterval => seconds_suffix(
            lang,
            MIN_POLL_INTERVAL_CENTISECS as nat,
            MAX_POLL_INTERVAL_CENTISECS as nat,
        ),
        Msg::LabelHudDuration => seconds_suffix(
            lang,
            MIN_HUD_DURATION_CENTISECS as nat,
            MAX_HUD_DURATION_CENTISECS as nat,
        ),
        Msg::LabelHudFadeDuration => seconds_suffix(
            lang,
            MIN_HUD_FADE_DURATION_CENTISECS as nat,
            MAX_HUD_FADE_DURATION_CENTISECS as nat,
        ),
        Msg::LabelHudScale => scale_suffix(
            lang,
            MIN_HUD_SCALE_PERCENT as nat,
            MAX_HUD_SCALE_PERCENT as nat,
        ),
        Msg::LabelMaxCharsPerLine => count_suffix(
            lang,
            MIN_TRUNCATE_MAX_WIDTH as nat,
            MAX_TRUNCATE_MAX_WIDTH as nat,
        ),
        Msg::LabelMaxLines => count_suffix(
            lang,
            MIN_TRUNCATE_MAX_LINES as nat,
            MAX_TRUNCATE_MAX_LINES as nat,
        ),
        Msg::LabelHudImageMaxHeight => px_suffix(
            lang,
            MIN_HUD_IMAGE_MAX_HEIGHT as nat,
            MAX_HUD_IMAGE_MAX_HEIGHT as nat,
        ),
        _ => Seq::empty(),
    }
}

/// Appends `hundredths_text(h)`.
fn push_hundredths(out: &mut Vec<char>, h: u32)
    ensures
        final(out)@ == old(out)@ + hundredths_text(h as nat),
{
    push_decimal(out, (h / 100) as usize);
    let frac = h % 100;
    if frac != 0 {
        out.push('.');
        out.push(((frac / 10) as u8 + 48) as char);
        if frac % 10 != 0 {
            out.push(((frac % 10) as u8 + 48) as char);
        }
    }
}

/// A value in hundredths as `hundredths_text` writes it.
pub fn format_trimmed(hundredths: u32) -> (s: String)
    ensures
        s@ == hundredths_text(hundredths as nat),
{
    let mut out: Vec<char> = Vec::new();
    push_hundredths(&mut out, hundredths);
    string_of(out.as_slice())
}

/// Appends `bracketed(lang, …)`'s opening bracket.
fn push_open(out: &mut Vec<char>, lang: Lang)
    ensures
        final(out)@ == old(out)@ + match lang {
            Lang::Ja => "（"@,
            Lang::En => " ("@,
        },
{
    let s = match lang {
        Lang::Ja => "（",
        Lang::En => " (",
    };
    let cs = chars_of(s);
    push_chars(out, cs.as_slice());
}

/// Appends `bracketed(lang, …)`'s closing bracket.
fn push_close(out: &mut Vec<char>, lang: Lang)
    ensures
        final(out)@ == old(out)@ + match lang {
            Lang::Ja => "）"@,
            Lang::En => ")"@,
        },
{
    let s = match lang {
        Lang::Ja => "）",
        Lang::En => ")",
    };
    let cs = chars_of(s);
    push_chars(out, cs.as_slice());
}

/// Appends the characters of `s`.
fn push_text(out: &mut Vec<char>, s: &str)
    ensures
        final(out)@ == old(out)@ + s@,
{
    let cs = chars_of(s);
    push_chars(out, cs.as_slice());
}

/// `count_suffix`.
pub fn count_range_suffix(lang: Lang, min: usize, max: usize) -> (s: String)
    ensures
        s@ == count_suffix(lang, min as nat, max as nat),
{
    let mut out: Vec<char> = Vec::new();
    push_open(&mut out, lang);
    push_decimal(&mut out, min);
    push_text(&mut out, "–");
    push_decimal(&mut out, max);
    push_close(&mut out, lang);
    assert(out@ =~= count_suffix(lang, min as nat, max as nat));
    string_of(out.as_slice())
}

/// `px_suffix`.
pub fn px_range_suffix(lang: Lang, min: usize, max: usize) -> (s: String)
    ensures
        s@ == px_suffix(lang, min as nat, max as nat),
{
    let mut out: Vec<char> = Vec::new();
    push_open(&mut out, lang);
    push_decimal(&mut out, min);
    push_text(&mut out, "–");
    push_decimal(&mut out, max);
    push_text(&mut out, " px");
    push_close(&mut out, lang);
    assert(out@ =~= px_suffix(lang, min as nat, max as nat));
    string_of(out.as_slice())
}

/// `seconds_suffix`, with both ends in hundredths of a second.
pub fn seconds_range_suffix(lang: Lang, min: u32, max: u32) -> (s: String)
    ensures
        s@ == seconds_suffix(lang, min as nat, max as nat),
{
    let mut out: Vec<char> = Vec::new();
    push_open(&mut out, lang);
    push_hundredths(&mut out, min);
    push_text(&mut out, "–");
    push_hundredths(&mut out, max);
    match lang {
        Lang::Ja => push_text(&mut out, " 秒"),
        Lang::En => push_text(&mut out, " sec"),
    }
    push_close(&mut out, lang);
    assert(out@ =~= seconds_suffix(lang, min as nat, max as nat));
    string_of(out.as_slice())
}

/// `scale_suffix`, with both ends in hundredths.
pub fn scale_range_suffix(lang: Lang, min: u32, max: u32) -> (s: String)
    ensures
        s@ == scale_suffix(lang, min as nat, max as nat),
{
    let mut out: Vec<char> = Vec::new();
    push_open(&mut out, lang);
    push_hundredths(&mut out, min);
    push_text(&mut out, "–");
    push_hundredths(&mut out, max);
    match lang {
        Lang::Ja => push_text(&mut out, " 倍"),
        Lang::En => push_text(&mut out, "×"),
    }
    push_close(&mut out, lang);
    assert(out@ =~= scale_suffix(lang, min as nat, max as nat));
    string_of(out.as_slice())
}

/// The label of the row for `msg` (see `label_wording`).
pub fn label_text(lang: Lang, msg: Msg) -> (s: String)
    ensures
        s@ == label_wording(lang, msg),
{
    let base = text(lang, msg);
    let suffix = match msg {
        Msg::LabelPollInterval => seconds_range_suffix(
            lang,
            MIN_POLL_INTERVAL_CENTISECS,
            MAX_POLL_INTERVAL_CENTISECS,
        ),
        Msg::LabelHudDuration => seconds_range_suffix(
            lang,
            MIN_HUD_DURATION_CENTISECS,
            MAX_HUD_DURATION_CENTISECS,
        ),
        Msg::LabelHudFadeDuration => seconds_range_suffix(
            lang,
            MIN_HUD_FADE_DURATION_CENTISECS,
            MAX_HUD_FADE_DURATION_CENTISECS,
        ),
        Msg::LabelHudScale => scale_range_suffix(lang, MIN_HUD_SCALE_PERCENT, MAX_HUD_SCALE_PERCENT),
        Msg::LabelMaxCharsPerLine => count_range_suffix(
            lang,
            MIN_TRUNCATE_MAX_WIDTH,
            MAX_TRUNCATE_MAX_WIDTH,
        ),
        Msg::LabelMaxLines => count_range_suffix(lang, MIN_TRUNCATE_MAX_LINES, MAX_TRUNCATE_MAX_LINES),
        Msg::LabelHudImageMaxHeight => px_range_suffix(
            lang,
            MIN_HUD_IMAGE_MAX_HEIGHT,
            MAX_HUD_IMAGE_MAX_HEIGHT,
        ),
        _ => String::new(),
    };
    let mut out = string_of(chars_of(base).as_slice());
    push_str(&mut out, suffix.as_str());
    out
}

// ---------------------------------------------------------------------------
// Range hints and tooltips
// ---------------------------------------------------------------------------

/// `min–max`, as a range hint writes a count range.
pub open spec fn count_span(min: nat, max: nat) -> Seq<char> {
    span(decimal(min), decimal(max))
}

/// `min–max px`, as a range hint writes a range in pixels.
pub open spec fn px_span(min: nat, max: nat) -> Seq<char> {
    span(decimal(min), decimal(max)) + " px"@
}

/// The range hint of a numeric field, identified by its row label: the
/// localized prefix and the field's range; empty for a row without one.
pub open spec fn range_hint_wording(lang: Lang, msg: Msg) -> Seq<char> {
    match msg {
        Msg::LabelMaxCharsPerLine => localized(lang, Msg::RangeHintPrefix) + count_span(
            MIN_TRUNCATE_MAX_WIDTH as nat,
            MAX_TRUNCATE_MAX_WIDTH as nat,
        ),
        Msg::LabelMaxLines => localized(lang, Msg::RangeHintPrefix) + count_span(
            MIN_TRUNCATE_MAX_LINES as nat,
            MAX_TRUNCATE_MAX_LINES as nat,
        ),
        Msg::LabelHudImageMaxHeight => localized(lang, Msg::RangeHintPrefix) + px_span(
            MIN_HUD_IMAGE_MAX_HEIGHT as nat,
            MAX_HUD_IMAGE_MAX_HEIGHT as nat,
        ),
        _ => Seq::empty(),
    }
}

/// `count_span`.
pub fn count_range(min: usize, max: usize) -> (s: String)
    ensures
        s@ == count_span(min as nat, max as nat),
{
    let mut out: Vec<char> = Vec::new();
    push_decimal(&mut out, min);
    push_text(&mut out, "–");
    push_decimal(&mut out, max);
    string_of(out.as_slice())
}

/// `px_span`.
pub fn px_range(min: usize, max: usize) -> (s: String)
    ensures
        s@ == px_span(min as nat, max as nat),
{
    let mut out: Vec<char> = Vec::new();
    push_decimal(&mut out, min);
    push_text(&mut out, "–");
    push_decimal(&mut out, max);
    push_text(&mut out, " px");
    assert(out@ =~= px_span(min as nat, max as nat));
    string_of(out.as_slice())
}

/// The range hint of the field whose row label is `msg` (see
/// `range_hint_wording`); empty means the field has none.
pub fn range_hint_text(lang: Lang, msg: Msg) -> (s: String)
    ensures
        s@ == range_hint_wording(lang, msg),
{
    let range = match msg {
        Msg::LabelMaxCharsPerLine => count_range(MIN_TRUNCATE_MAX_WIDTH, MAX_TRUNCATE_MAX_WIDTH),
        Msg::LabelMaxLines => count_range(MIN_TRUNCATE_MAX_LINES, MAX_TRUNCATE_MAX_LINES),
        Msg::LabelHudImageMaxHeight => px_range(MIN_HUD_IMAGE_MAX_HEIGHT, MAX_HUD_IMAGE_MAX_HEIGHT),
        _ => {
            return String::new();
        },
    };
    let mut out = string_of(chars_of(text(lang, Msg::RangeHintPrefix)).as_slice());
    push_str(&mut out, range.as_str());
    out
}

/// The note on the emoji palette that the emoji tooltip ends with.
pub open spec fn palette_hint(lang: Lang) -> Seq<char> {
    match lang {
        Lang::Ja => "\n入力には「絵文字と記号」パレット（"@ + EMOJI_PALETTE_SHORTCUT@ + "）が便利です。"@,
        Lang::En => "\nThe Emoji & Symbols palette ("@ + EMOJI_PALETTE_SHORTCUT@
            + ") is handy for entering it."@,
    }
}

/// The tooltip of the control for `msg`: its wording, and for the emoji
/// field also the note on the emoji palette.
pub open spec fn tooltip_wording(lang: Lang, msg: Msg) -> Seq<char> {
    match msg {
        Msg::TooltipHudEmoji => localized(lang, msg) + palette_hint(lang),
        _ => localized(lang, msg),
    }
}

/// `palette_hint`.
pub fn emoji_palette_hint(lang: Lang) -> (s: String)
    ensures
        s@ == palette_hint(lang),
{
    let (before, after) = match lang {
        Lang::Ja => ("\n入力には「絵文字と記号」パレット（", "）が便利です。"),
        Lang::En => ("\nThe Emoji & Symbols palette (", ") is handy for entering it."),
    };
    let mut out: Vec<char> = Vec::new();
    push_text(&mut out, before);
    push_text(&mut out, EMOJI_PALETTE_SHORTCUT);
    push_text(&mut out, after);
    string_of(out.as_slice())
}

/// The tooltip of the control for `msg` (see `tooltip_wording`).
pub fn tooltip_text(lang: Lang, msg: Msg) -> (s: String)
    ensures
        s@ == tooltip_wording(lang, msg),
{
    let mut out = string_of(chars_of(text(lang, msg)).as_slice());
    match msg {
        Msg::TooltipHudEmoji => {
            let hint = emoji_palette_hint(lang);
            push_str(&mut out, hint.as_str());
        },
        _ => {},
    }
    out
}

} // verus!
