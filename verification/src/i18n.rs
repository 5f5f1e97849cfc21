//! UI wording in Japanese and English. Messages shown on stderr and `--help`
//! stay in English and are not part of this table.

use vstd::prelude::*;

use crate::chars::{chars_eq_str, chars_of, decimal, push_chars, push_decimal, push_str, string_of, to_ascii_lower, ascii_lower};
use crate::config::LanguageSetting;

verus! {

broadcast use vstd::seq_lib::group_seq_properties;

/// The application name shown in the UI, whatever the language.
pub const APP_NAME: &'static str = "Cliip Show";

/// The language the UI is shown in: the resolution of `LanguageSetting`.
#[derive(Debug, Clone, Copy, PartialEq, Eq, Structural)]
pub enum Lang {
    Ja,
    En,
}

/// A UI message that has a wording in every language.
#[derive(Debug, Clone, Copy, PartialEq, Eq, Structural)]
pub enum Msg {
    MenuSettings,
    MenuPause,
    MenuAbout,
    MenuQuit,
    MenuEdit,
    MenuCut,
    MenuCopy,
    MenuPaste,
    MenuSelectAll,
    LoginPromptMessage,
    LoginPromptDetail,
    LoginPromptEnable,
    LoginPromptLater,
    LoginPromptSuppress,
    MenuBarIconHiddenMessage,
    MenuBarIconHiddenDetail,
    SettingsTitle,
    TabSettings,
    TabSupport,
    SettingsStartAtLogin,
    SettingsShowMenuBarIcon,
    LabelPollInterval,
    LabelHudDuration,
    LabelHudFadeDuration,
    LabelHudScale,
    LabelMaxCharsPerLine,
    LabelMaxLines,
    LabelHudImageMaxHeight,
    LabelHudPosition,
    LabelHudBackgroundColor,
    LabelHudBackgroundOpacity,
    LabelHudEmoji,
    TooltipPollInterval,
    TooltipHudDuration,
    TooltipHudFadeDuration,
    TooltipHudScale,
    TooltipMaxCharsPerLine,
    TooltipMaxLines,
    TooltipHudImageMaxHeight,
    TooltipHudBackgroundOpacity,
    TooltipHudEmoji,
    RangeHintPrefix,
    LabelLanguage,
    LanguageAuto,
    ButtonRestoreDefaults,
    ButtonPreview,
    ButtonSave,
    SupportBuyBeer,
    SupportMessage,
    AboutDescription,
    EmojiTooLong,
    EmojiNotEmoji,
    PreviewShortText,
    LaunchNotice,
}

/// The Japanese and English wording of `msg`.
pub open spec fn wording(msg: Msg) -> (Seq<char>, Seq<char>) {
    match msg {
        Msg::MenuSettings => ("設定…"@, "Settings…"@),
        Msg::MenuPause => ("一時停止"@, "Pause"@),
        Msg::MenuAbout => ("Cliip Show について"@, "About Cliip Show"@),
        Msg::MenuQuit => ("Cliip Show を終了"@, "Quit Cliip Show"@),
        Msg::MenuEdit => ("編集"@, "Edit"@),
        Msg::MenuCut => ("切り取り"@, "Cut"@),
        Msg::MenuCopy => ("コピー"@, "Copy"@),
        Msg::MenuPaste => ("ペースト"@, "Paste"@),
        Msg::MenuSelectAll => ("すべてを選択"@, "Select All"@),
        Msg::LoginPromptMessage => ("ログイン時に Cliip Show を自動起動しますか？"@, "Start Cliip Show automatically at login?"@),
        Msg::LoginPromptDetail => ("設定ウィンドウの「ログイン時に自動起動」からいつでも変更できます。"@, "You can change this any time from “Start at login” in the settings window."@),
        Msg::LoginPromptEnable => ("有効にする"@, "Enable"@),
        Msg::LoginPromptLater => ("あとで"@, "Not Now"@),
        Msg::LoginPromptSuppress => ("今後表示しない"@, "Don’t ask again"@),
        Msg::MenuBarIconHiddenMessage => ("メニューバーのアイコンを非表示にしました"@, "The menu bar icon is now hidden"@),
        Msg::MenuBarIconHiddenDetail => ("Cliip Show をもう一度起動すると設定ウィンドウが開きます。アイコンはそこから表示に戻せます。"@, "Launch Cliip Show again to open the settings window, where you can show the icon again."@),
        Msg::SettingsTitle => ("Cliip Show 設定"@, "Cliip Show Settings"@),
        Msg::TabSettings => ("設定"@, "Settings"@),
        Msg::TabSupport => ("寄付"@, "Support"@),
        Msg::SettingsStartAtLogin => ("ログイン時に自動起動"@, "Start at login"@),
        Msg::SettingsShowMenuBarIcon => ("メニューバーにアイコンを表示"@, "Show icon in menu bar"@),
        Msg::LabelPollInterval => ("ポーリング間隔（秒）"@, "Polling interval (sec)"@),
        Msg::LabelHudDuration => ("表示時間（秒）"@, "Display duration (sec)"@),
        Msg::LabelHudFadeDuration => ("フェード時間（秒）"@, "Fade duration (sec)"@),
        Msg::LabelHudScale => ("HUDサイズ倍率"@, "HUD scale"@),
        Msg::LabelMaxCharsPerLine => ("1行の最大文字数"@, "Max characters per line"@),
        Msg::LabelMaxLines => ("最大行数"@, "Max lines"@),
        Msg::LabelHudImageMaxHeight => ("画像サムネイル高さ上限（px）"@, "Max thumbnail height (px)"@),
        Msg::LabelHudPosition => ("表示位置"@, "Position"@),
        Msg::LabelHudBackgroundColor => ("背景色"@, "Background color"@),
        Msg::LabelHudBackgroundOpacity => ("背景の不透明度"@, "Background opacity"@),
        Msg::LabelHudEmoji => ("アイコン絵文字"@, "Icon emoji"@),
        Msg::TooltipPollInterval => ("クリップボードの内容を確認する間隔。"@, "How often the clipboard is checked for changes."@),
        Msg::TooltipHudDuration => ("HUD を表示し続ける時間。"@, "How long the HUD stays visible."@),
        Msg::TooltipHudFadeDuration => ("HUD が消えるときのフェード時間。0 秒にするとフェードせず即座に消えます。"@, "Fade-out duration when the HUD disappears. Set to 0 to disappear instantly with no fade."@),
        Msg::TooltipHudScale => ("HUD 全体の表示サイズの倍率。画像サムネイル高さの上限にも掛かります。"@, "Overall display scale of the HUD. Also multiplies the image thumbnail height limit."@),
        Msg::TooltipMaxCharsPerLine => ("1行に表示する最大文字数。超えた分は省略されます。"@, "Maximum number of characters shown per line. Extra characters are truncated."@),
        Msg::TooltipMaxLines => ("表示する最大行数。超えた行は省略されます。"@, "Maximum number of lines shown. Extra lines are truncated."@),
        Msg::TooltipHudImageMaxHeight => ("画像プレビューのサムネイル高さの上限（px）。実際の上限はこの値に HUDサイズ倍率を掛けた値になります。"@, "Maximum thumbnail height for image previews (px). The actual limit is this value multiplied by the HUD scale."@),
        Msg::TooltipHudBackgroundOpacity => ("HUD の背景の不透明度。1.00 で背景が透けなくなります。文字とアイコンは常に透けません。"@, "Opacity of the HUD background. At 1.00 the background is fully opaque. Text and icon are always opaque."@),
        Msg::TooltipHudEmoji => ("HUD の左端に表示するアイコン絵文字。絵文字1文字だけ入力できます。空にするとアイコンは出ません。"@, "The icon emoji shown at the left edge of the HUD. Only a single emoji is allowed. Leave it empty to show no icon."@),
        Msg::RangeHintPrefix => ("有効範囲："@, "Valid range: "@),
        Msg::LabelLanguage => ("言語"@, "Language"@),
        Msg::LanguageAuto => ("システムに合わせる"@, "Match System"@),
        Msg::ButtonRestoreDefaults => ("デフォルトに戻す"@, "Restore Defaults"@),
        Msg::ButtonPreview => ("お試し表示"@, "Preview"@),
        Msg::ButtonSave => ("保存"@, "Save"@),
        Msg::SupportBuyBeer => ("ビールを奢る…"@, "Buy me a beer…"@),
        Msg::SupportMessage => ("Cliip Show はすべての機能を無償で提供しています。\nビールを奢ってもらえると開発の励みになります 🍺"@, "Cliip Show is free, with every feature included.\nBuying me a beer keeps the work going 🍺"@),
        Msg::AboutDescription => ("コピーした内容を画面中央に表示する macOS の常駐アプリ 🥜"@, "A macOS menu bar app that shows what you just copied 🥜"@),
        Msg::EmojiTooLong => ("絵文字1文字だけ入力できます"@, "Enter a single emoji"@),
        Msg::EmojiNotEmoji => ("絵文字を入力してください"@, "Enter an emoji"@),
        Msg::PreviewShortText => ("サンプル表示：短いテキストです"@, "Preview: a short line of text"@),
        Msg::LaunchNotice => ("Cliip Show を起動しました"@, "Cliip Show started"@),
    }
}

/// The wording of `msg` in `lang`.
pub open spec fn localized(lang: Lang, msg: Msg) -> Seq<char> {
    match lang {
        Lang::Ja => wording(msg).0,
        Lang::En => wording(msg).1,
    }
}

/// `msg` as worded in `lang`.
pub fn text(lang: Lang, msg: Msg) -> (s: &'static str)
    ensures
        s@ == localized(lang, msg),
{
    let (ja, en) = match msg {
        Msg::MenuSettings => ("設定…", "Settings…"),
        Msg::MenuPause => ("一時停止", "Pause"),
        Msg::MenuAbout => ("Cliip Show について", "About Cliip Show"),
        Msg::MenuQuit => ("Cliip Show を終了", "Quit Cliip Show"),
        Msg::MenuEdit => ("編集", "Edit"),
        Msg::MenuCut => ("切り取り", "Cut"),
        Msg::MenuCopy => ("コピー", "Copy"),
        Msg::MenuPaste => ("ペースト", "Paste"),
        Msg::MenuSelectAll => ("すべてを選択", "Select All"),
        Msg::LoginPromptMessage => ("ログイン時に Cliip Show を自動起動しますか？", "Start Cliip Show automatically at login?"),
        Msg::LoginPromptDetail => ("設定ウィンドウの「ログイン時に自動起動」からいつでも変更できます。", "You can change this any time from “Start at login” in the settings window."),
        Msg::LoginPromptEnable => ("有効にする", "Enable"),
        Msg::LoginPromptLater => ("あとで", "Not Now"),
        Msg::LoginPromptSuppress => ("今後表示しない", "Don’t ask again"),
        Msg::MenuBarIconHiddenMessage => ("メニューバーのアイコンを非表示にしました", "The menu bar icon is now hidden"),
        Msg::MenuBarIconHiddenDetail => ("Cliip Show をもう一度起動すると設定ウィンドウが開きます。アイコンはそこから表示に戻せます。", "Launch Cliip Show again to open the settings window, where you can show the icon again."),
        Msg::SettingsTitle => ("Cliip Show 設定", "Cliip Show Settings"),
        Msg::TabSettings => ("設定", "Settings"),
        Msg::TabSupport => ("寄付", "Support"),
        Msg::SettingsStartAtLogin => ("ログイン時に自動起動", "Start at login"),
        Msg::SettingsShowMenuBarIcon => ("メニューバーにアイコンを表示", "Show icon in menu bar"),
        Msg::LabelPollInterval => ("ポーリング間隔（秒）", "Polling interval (sec)"),
        Msg::LabelHudDuration => ("表示時間（秒）", "Display duration (sec)"),
        Msg::LabelHudFadeDuration => ("フェード時間（秒）", "Fade duration (sec)"),
        Msg::LabelHudScale => ("HUDサイズ倍率", "HUD scale"),
        Msg::LabelMaxCharsPerLine => ("1行の最大文字数", "Max characters per line"),
        Msg::LabelMaxLines => ("最大行数", "Max lines"),
        Msg::LabelHudImageMaxHeight => ("画像サムネイル高さ上限（px）", "Max thumbnail height (px)"),
        Msg::LabelHudPosition => ("表示位置", "Position"),
        Msg::LabelHudBackgroundColor => ("背景色", "Background color"),
        Msg::LabelHudBackgroundOpacity => ("背景の不透明度", "Background opacity"),
        Msg::LabelHudEmoji => ("アイコン絵文字", "Icon emoji"),
        Msg::TooltipPollInterval => ("クリップボードの内容を確認する間隔。", "How often the clipboard is checked for changes."),
        Msg::TooltipHudDuration => ("HUD を表示し続ける時間。", "How long the HUD stays visible."),
        Msg::TooltipHudFadeDuration => ("HUD が消えるときのフェード時間。0 秒にするとフェードせず即座に消えます。", "Fade-out duration when the HUD disappears. Set to 0 to disappear instantly with no fade."),
        Msg::TooltipHudScale => ("HUD 全体の表示サイズの倍率。画像サムネイル高さの上限にも掛かります。", "Overall display scale of the HUD. Also multiplies the image thumbnail height limit."),
        Msg::TooltipMaxCharsPerLine => ("1行に表示する最大文字数。超えた分は省略されます。", "Maximum number of characters shown per line. Extra characters are truncated."),
        Msg::TooltipMaxLines => ("表示する最大行数。超えた行は省略されます。", "Maximum number of lines shown. Extra lines are truncated."),
        Msg::TooltipHudImageMaxHeight => ("画像プレビューのサムネイル高さの上限（px）。実際の上限はこの値に HUDサイズ倍率を掛けた値になります。", "Maximum thumbnail height for image previews (px). The actual limit is this value multiplied by the HUD scale."),
        Msg::TooltipHudBackgroundOpacity => ("HUD の背景の不透明度。1.00 で背景が透けなくなります。文字とアイコンは常に透けません。", "Opacity of the HUD background. At 1.00 the background is fully opaque. Text and icon are always opaque."),
        Msg::TooltipHudEmoji => ("HUD の左端に表示するアイコン絵文字。絵文字1文字だけ入力できます。空にするとアイコンは出ません。", "The icon emoji shown at the left edge of the HUD. Only a single emoji is allowed. Leave it empty to show no icon."),
        Msg::RangeHintPrefix => ("有効範囲：", "Valid range: "),
        Msg::LabelLanguage => ("言語", "Language"),
        Msg::LanguageAuto => ("システムに合わせる", "Match System"),
        Msg::ButtonRestoreDefaults => ("デフォルトに戻す", "Restore Defaults"),
        Msg::ButtonPreview => ("お試し表示", "Preview"),
        Msg::ButtonSave => ("保存", "Save"),
        Msg::SupportBuyBeer => ("ビールを奢る…", "Buy me a beer…"),
        Msg::SupportMessage => ("Cliip Show はすべての機能を無償で提供しています。\nビールを奢ってもらえると開発の励みになります 🍺", "Cliip Show is free, with every feature included.\nBuying me a beer keeps the work going 🍺"),
        Msg::AboutDescription => ("コピーした内容を画面中央に表示する macOS の常駐アプリ 🥜", "A macOS menu bar app that shows what you just copied 🥜"),
        Msg::EmojiTooLong => ("絵文字1文字だけ入力できます", "Enter a single emoji"),
        Msg::EmojiNotEmoji => ("絵文字を入力してください", "Enter an emoji"),
        Msg::PreviewShortText => ("サンプル表示：短いテキストです", "Preview: a short line of text"),
        Msg::LaunchNotice => ("Cliip Show を起動しました", "Cliip Show started"),
    };
    match lang {
        Lang::Ja => ja,
        Lang::En => en,
    }
}

/// The choices of the language popup, in the order shown.
pub const LANGUAGE_CHOICES: [LanguageSetting; 3] = [
    LanguageSetting::Auto,
    LanguageSetting::Ja,
    LanguageSetting::En,
];

/// The label of `setting` in the language popup. Japanese and English are
/// always written in their own language, so each is easy to find.
pub open spec fn language_label_text(lang: Lang, setting: LanguageSetting) -> Seq<char> {
    match setting {
        LanguageSetting::Auto => localized(lang, Msg::LanguageAuto),
        LanguageSetting::Ja => "日本語"@,
        LanguageSetting::En => "English"@,
    }
}

/// Every language setting is offered in the popup, and no two of them carry
/// the same label, in either language.
pub proof fn lemma_language_choices(lang: Lang, a: LanguageSetting, b: LanguageSetting)
    ensures
        LANGUAGE_CHOICES@.contains(a),
        a != b ==> language_label_text(lang, a) != language_label_text(lang, b),
{
    reveal_strlit("日本語");
    reveal_strlit("English");
    reveal_strlit("システムに合わせる");
    reveal_strlit("Match System");
    let c = LANGUAGE_CHOICES@;
    match a {
        LanguageSetting::Auto => assert(c[0] == a),
        LanguageSetting::Ja => assert(c[1] == a),
        LanguageSetting::En => assert(c[2] == a),
    }
    if a != b {
        let la = language_label_text(lang, a);
        let lb = language_label_text(lang, b);
        if la.len() == lb.len() {
            assert(la[0] != lb[0]);
        }
    }
}

/// The label of `setting` in the language popup.
pub fn language_label(lang: Lang, setting: LanguageSetting) -> (s: &'static str)
    ensures
        s@ == language_label_text(lang, setting),
{
    match setting {
        LanguageSetting::Auto => text(lang, Msg::LanguageAuto),
        LanguageSetting::Ja => "日本語",
        LanguageSetting::En => "English",
    }
}

/// `s` repeated `n` times.
pub open spec fn repeated(s: Seq<char>, n: nat) -> Seq<char>
    decreases n,
{
    if n == 0 {
        Seq::empty()
    } else {
        repeated(s, (n - 1) as nat) + s
    }
}

/// The sentence repeated in the long preview line.
pub open spec fn preview_unit(lang: Lang) -> Seq<char> {
    match lang {
        Lang::Ja => "サンプル表示の見た目を確認するための長めの一行です。"@,
        Lang::En => "A fairly long line of sample text for checking how the preview looks. "@,
    }
}

/// The long single line used by the preview, long enough to wrap.
pub fn preview_long_line(lang: Lang) -> (s: String)
    ensures
        s@ == repeated(preview_unit(lang), 5),
{
    let unit = match lang {
        Lang::Ja => "サンプル表示の見た目を確認するための長めの一行です。",
        Lang::En => "A fairly long line of sample text for checking how the preview looks. ",
    };
    let mut out = String::new();
    let mut i: usize = 0;
    while i < 5
        invariant
            i <= 5,
            unit@ == preview_unit(lang),
            out@ == repeated(preview_unit(lang), i as nat),
        decreases 5 - i,
    {
        push_str(&mut out, unit);
        i += 1;
    }
    out
}

/// The `n`-th numbered sample line of the preview.
pub open spec fn numbered_line(lang: Lang, n: nat) -> Seq<char> {
    match lang {
        Lang::Ja => "これは"@ + decimal(n) + "行目のサンプル行です。"@,
        Lang::En => "This is sample line "@ + decimal(n) + "."@,
    }
}

pub fn preview_numbered_line(lang: Lang, n: usize) -> (s: String)
    ensures
        s@ == numbered_line(lang, n as nat),
{
    let (before, after) = match lang {
        Lang::Ja => ("これは", "行目のサンプル行です。"),
        Lang::En => ("This is sample line ", "."),
    };
    let mut cs = chars_of(before);
    push_decimal(&mut cs, n);
    let tail = chars_of(after);
    push_chars(&mut cs, tail.as_slice());
    string_of(cs.as_slice())
}

/// The language a setting shows the UI in, given the system's language.
pub open spec fn resolved_language(setting: LanguageSetting, system: Lang) -> Lang {
    match setting {
        LanguageSetting::Auto => system,
        LanguageSetting::Ja => Lang::Ja,
        LanguageSetting::En => Lang::En,
    }
}

/// `resolve` with the system language passed in.
pub fn resolve_with_system(setting: LanguageSetting, system: Lang) -> (lang: Lang)
    ensures
        lang == resolved_language(setting, system),
{
    match setting {
        LanguageSetting::Auto => system,
        LanguageSetting::Ja => Lang::Ja,
        LanguageSetting::En => Lang::En,
    }
}

/// The primary subtag of a BCP 47 tag: everything before the first `-` or `_`.
pub open spec fn primary_subtag(tag: Seq<char>) -> Seq<char>
    decreases tag.len(),
{
    if tag.len() == 0 || tag[0] == '-' || tag[0] == '_' {
        Seq::empty()
    } else {
        seq![tag[0]] + primary_subtag(tag.drop_first())
    }
}

/// The UI language for a system language tag: Japanese for `ja` in any case,
/// English for everything else.
pub open spec fn lang_for_tag(tag: Seq<char>) -> Lang {
    if primary_subtag(tag).map_values(|c: char| ascii_lower(c)) == "ja"@ {
        Lang::Ja
    } else {
        Lang::En
    }
}

pub fn lang_from_bcp47(tag: &str) -> (lang: Lang)
    ensures
        lang == lang_for_tag(tag@),
{
    let cs = chars_of(tag);
    let mut primary: Vec<char> = Vec::new();
    let mut i: usize = 0;
    assert(cs@.skip(0) == cs@);
    while i < cs.len() && cs[i] != '-' && cs[i] != '_'
        invariant
            i <= cs@.len(),
            primary_subtag(cs@) == cs@.take(i as int) + primary_subtag(cs@.skip(i as int)),
            primary@ == cs@.take(i as int).map_values(|c: char| ascii_lower(c)),
        decreases cs@.len() - i,
    {
        proof {
            assert(cs@.skip(i as int).drop_first() == cs@.skip(i + 1));
            assert(cs@.take(i + 1) == cs@.take(i as int).push(cs@[i as int]));
            assert(cs@.take(i as int) + seq![cs@[i as int]] == cs@.take(i + 1));
        }
        primary.push(to_ascii_lower(cs[i]));
        proof {
            assert(primary@ =~= cs@.take(i + 1).map_values(|c: char| ascii_lower(c)));
        }
        i += 1;
    }
    assert(primary_subtag(cs@.skip(i as int)) == Seq::<char>::empty());
    assert(primary_subtag(cs@) == cs@.take(i as int));
    if chars_eq_str(primary.as_slice(), "ja") {
        Lang::Ja
    } else {
        Lang::En
    }
}

} // verus!
