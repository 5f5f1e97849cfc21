//! Parsing of the command-line options of the snapshot and diff commands.

use vstd::prelude::*;

use crate::chars::{
    chars_eq_str, chars_of, copy_range, decimal, owned, parse_usize, parse_usize_chars,
    push_char, push_chars, push_decimal, push_str, string_of, trim, trim_chars,
};
use crate::png::{DiffSummary, SettingsPane};

verus! {

broadcast use vstd::seq_lib::group_seq_properties;

/// What `--render-hud-png` puts in the HUD.
#[derive(Debug, PartialEq, Eq)]
pub enum RenderContent {
    Text(String),
    ImageFixture { width: usize, height: usize },
}

/// The parsed options of `--render-hud-png`.
#[derive(Debug, PartialEq, Eq)]
pub struct RenderHudArgs {
    pub content: RenderContent,
    pub output_path: String,
}

/// The parsed options of `--render-settings-png`.
#[derive(Debug, PartialEq, Eq)]
pub struct SettingsPngArgs {
    pub pane: SettingsPane,
    pub output_path: String,
}

/// The parsed options of `--diff-png`.
#[derive(Debug, PartialEq, Eq)]
pub struct DiffPngArgs {
    pub baseline_path: String,
    pub current_path: String,
    pub output_path: String,
}

/// The arguments as character sequences.
pub open spec fn arg_views(args: Seq<String>) -> Seq<Seq<char>> {
    args.map_values(|a: String| a@)
}

pub open spec fn opt_view(o: Option<String>) -> Option<Seq<char>> {
    match o {
        Some(s) => Some(s@),
        None => None,
    }
}

/// The index of the first `x` or `X` in `s` at or after `i`.
pub open spec fn size_separator(s: Seq<char>, i: int) -> Option<int>
    decreases s.len() - i,
{
    if i < 0 || i >= s.len() {
        None
    } else if s[i] == 'x' || s[i] == 'X' {
        Some(i)
    } else {
        size_separator(s, i + 1)
    }
}

/// `<W>x<H>` (or `X`), with optional whitespace around each part; both sizes
/// positive.
pub open spec fn fixture_size(raw: Seq<char>) -> Option<(usize, usize)> {
    let t = trim(raw);
    match size_separator(t, 0) {
        None => None,
        Some(k) => {
            let w = parse_usize(trim(t.take(k)));
            let h = parse_usize(trim(t.skip(k + 1)));
            match (w, h) {
                (Some(w), Some(h)) => if w != 0 && h != 0 {
                    Some((w, h))
                } else {
                    None
                },
                _ => None,
            }
        },
    }
}

/// Reads `<W>x<H>` for `--image-fixture`.
pub fn parse_image_fixture_size(raw: &str) -> (size: Option<(usize, usize)>)
    ensures
        size == fixture_size(raw@),
{
    let cs = chars_of(raw);
    let t = trim_chars(cs.as_slice());
    let mut k: usize = 0;
    while k < t.len() && t[k] != 'x' && t[k] != 'X'
        invariant
            k <= t@.len(),
            t@ == trim(raw@),
            size_separator(t@, 0) == size_separator(t@, k as int),
        decreases t@.len() - k,
    {
        k += 1;
    }
    if k == t.len() {
        return None;
    }
    let left = copy_range(t.as_slice(), 0, k);
    let right = copy_range(t.as_slice(), k + 1, t.len());
    assert(left@ == t@.take(k as int));
    assert(right@ == t@.skip(k + 1));
    let w = parse_usize_chars(trim_chars(left.as_slice()).as_slice());
    let h = parse_usize_chars(trim_chars(right.as_slice()).as_slice());
    match (w, h) {
        (Some(w), Some(h)) => if w != 0 && h != 0 {
            Some((w, h))
        } else {
            None
        },
        _ => None,
    }
}

/// The options of `--render-hud-png` seen so far.
pub struct HudOptions {
    pub text: Option<Seq<char>>,
    pub image_fixture: Option<(usize, usize)>,
    pub output: Option<Seq<char>>,
}

/// Reads `--render-hud-png` options from position `i` on, each option taking
/// the next argument verbatim as its value.
pub open spec fn scan_hud_options(args: Seq<Seq<char>>, i: int, seen: HudOptions) -> Result<
    HudOptions,
    Seq<char>,
>
    decreases args.len() - i,
{
    if i < 0 || i >= args.len() {
        Ok(seen)
    } else if args[i] == "--text"@ {
        if i + 1 >= args.len() {
            Err("Missing value for --text"@)
        } else {
            scan_hud_options(args, i + 2, HudOptions { text: Some(args[i + 1]), ..seen })
        }
    } else if args[i] == "--image-fixture"@ {
        if i + 1 >= args.len() {
            Err("Missing value for --image-fixture"@)
        } else {
            match fixture_size(args[i + 1]) {
                None => Err(
                    "Invalid value for --image-fixture: "@ + args[i + 1]
                        + " (expected <W>x<H>, e.g. 320x180)"@,
                ),
                Some(size) => scan_hud_options(
                    args,
                    i + 2,
                    HudOptions { image_fixture: Some(size), ..seen },
                ),
            }
        }
    } else if args[i] == "--output"@ {
        if i + 1 >= args.len() {
            Err("Missing value for --output"@)
        } else {
            scan_hud_options(args, i + 2, HudOptions { output: Some(args[i + 1]), ..seen })
        }
    } else {
        Err("Unknown option for --render-hud-png: "@ + args[i])
    }
}

/// The outcome of `--render-hud-png` parsing: problems found while reading the
/// options come first, then the exclusivity of `--text` and
/// `--image-fixture`, then the missing `--output`.
pub open spec fn render_hud_outcome(args: Seq<Seq<char>>) -> Result<
    (RenderContentView, Seq<char>),
    Seq<char>,
> {
    match scan_hud_options(args, 0, HudOptions { text: None, image_fixture: None, output: None }) {
        Err(e) => Err(e),
        Ok(o) => if o.text is Some && o.image_fixture is Some {
            Err("--text and --image-fixture are mutually exclusive"@)
        } else if o.output is None {
            Err("--output is required for --render-hud-png"@)
        } else {
            let content = match o.image_fixture {
                Some((w, h)) => RenderContentView::ImageFixture { width: w, height: h },
                None => RenderContentView::Text(
                    match o.text {
                        Some(t) => t,
                        None => "Clipboard text"@,
                    },
                ),
            };
            Ok((content, o.output.unwrap()))
        },
    }
}

/// `RenderContent` with its text as characters.
pub enum RenderContentView {
    Text(Seq<char>),
    ImageFixture { width: usize, height: usize },
}

impl View for RenderContent {
    type V = RenderContentView;

    open spec fn view(&self) -> RenderContentView {
        match self {
            RenderContent::Text(t) => RenderContentView::Text(t@),
            RenderContent::ImageFixture { width, height } => RenderContentView::ImageFixture {
                width: *width,
                height: *height,
            },
        }
    }
}

/// The options following `--render-hud-png`. `Err` holds the usage message.
pub fn parse_render_hud_args(args: &[String]) -> (r: Result<RenderHudArgs, String>)
    ensures
        match (r, render_hud_outcome(arg_views(args@))) {
            (Ok(a), Ok((content, output))) => a.content@ == content && a.output_path@ == output,
            (Err(e), Err(m)) => e@ == m,
            _ => false,
        },
{
    let ghost av = arg_views(args@);
    let ghost start = HudOptions { text: None, image_fixture: None, output: None };
    let mut text: Option<String> = None;
    let mut image_fixture: Option<(usize, usize)> = None;
    let mut output_path: Option<String> = None;
    let mut i: usize = 0;
    while i < args.len()
        invariant
            i <= args@.len(),
            av == arg_views(args@),
            start == (HudOptions { text: None, image_fixture: None, output: None }),
            scan_hud_options(av, 0, start) == scan_hud_options(
                av,
                i as int,
                HudOptions { text: opt_view(text), image_fixture, output: opt_view(output_path) },
            ),
        decreases args@.len() - i,
    {
        let arg = chars_of(args[i].as_str());
        assert(av[i as int] == args@[i as int]@);
        if chars_eq_str(arg.as_slice(), "--text") {
            if i + 1 >= args.len() {
                return Err(owned("Missing value for --text"));
            }
            text = Some(owned(args[i + 1].as_str()));
            i += 2;
        } else if chars_eq_str(arg.as_slice(), "--image-fixture") {
            if i + 1 >= args.len() {
                return Err(owned("Missing value for --image-fixture"));
            }
            match parse_image_fixture_size(args[i + 1].as_str()) {
                None => {
                    let mut message = owned("Invalid value for --image-fixture: ");
                    push_str(&mut message, args[i + 1].as_str());
                    push_str(&mut message, " (expected <W>x<H>, e.g. 320x180)");
                    return Err(message);
                },
                Some(size) => {
                    image_fixture = Some(size);
                },
            }
            i += 2;
        } else if chars_eq_str(arg.as_slice(), "--output") {
            if i + 1 >= args.len() {
                return Err(owned("Missing value for --output"));
            }
            output_path = Some(owned(args[i + 1].as_str()));
            i += 2;
        } else {
            let mut message = owned("Unknown option for --render-hud-png: ");
            push_str(&mut message, args[i].as_str());
            return Err(message);
        }
    }
    if text.is_some() && image_fixture.is_some() {
        return Err(owned("--text and --image-fixture are mutually exclusive"));
    }
    let output_path = match output_path {
        Some(p) => p,
        None => {
            return Err(owned("--output is required for --render-hud-png"));
        },
    };
    let content = match image_fixture {
        Some((width, height)) => RenderContent::ImageFixture { width, height },
        None => RenderContent::Text(
            match text {
                Some(t) => t,
                None => owned("Clipboard text"),
            },
        ),
    };
    Ok(RenderHudArgs { content, output_path })
}

/// The pane a `--pane` value names.
pub open spec fn pane_named(v: Seq<char>) -> Option<SettingsPane> {
    if v == "settings"@ {
        Some(SettingsPane::Settings)
    } else if v == "support"@ {
        Some(SettingsPane::Support)
    } else {
        None
    }
}

/// Reads `--render-settings-png` options from position `i` on.
pub open spec fn scan_settings_options(
    args: Seq<Seq<char>>,
    i: int,
    pane: Option<SettingsPane>,
    output: Option<Seq<char>>,
) -> Result<(Option<SettingsPane>, Option<Seq<char>>), Seq<char>>
    decreases args.len() - i,
{
    if i < 0 || i >= args.len() {
        Ok((pane, output))
    } else if args[i] == "--pane"@ {
        if i + 1 >= args.len() {
            Err("Missing value for --pane"@)
        } else {
            match pane_named(args[i + 1]) {
                None => Err(
                    "Invalid value for --pane: "@ + args[i + 1] + " (expected settings or support)"@,
                ),
                Some(p) => scan_settings_options(args, i + 2, Some(p), output),
            }
        }
    } else if args[i] == "--output"@ {
        if i + 1 >= args.len() {
            Err("Missing value for --output"@)
        } else {
            scan_settings_options(args, i + 2, pane, Some(args[i + 1]))
        }
    } else {
        Err("Unknown option for --render-settings-png: "@ + args[i])
    }
}

/// The outcome of `--render-settings-png` parsing.
pub open spec fn settings_png_outcome(args: Seq<Seq<char>>) -> Result<
    (SettingsPane, Seq<char>),
    Seq<char>,
> {
    match scan_settings_options(args, 0, None, None) {
        Err(e) => Err(e),
        Ok((None, _)) => Err("--pane is required for --render-settings-png"@),
        Ok((_, None)) => Err("--output is required for --render-settings-png"@),
        Ok((Some(p), Some(o))) => Ok((p, o)),
    }
}

/// The options following `--render-settings-png`. `Err` holds the usage
/// message.
pub fn parse_settings_png_args(args: &[String]) -> (r: Result<SettingsPngArgs, String>)
    ensures
        match (r, settings_png_outcome(arg_views(args@))) {
            (Ok(a), Ok((pane, output))) => a.pane == pane && a.output_path@ == output,
            (Err(e), Err(m)) => e@ == m,
            _ => false,
        },
{
    let ghost av = arg_views(args@);
    let mut pane: Option<SettingsPane> = None;
    let mut output_path: Option<String> = None;
    let mut i: usize = 0;
    while i < args.len()
        invariant
            i <= args@.len(),
            av == arg_views(args@),
            scan_settings_options(av, 0, None, None) == scan_settings_options(
                av,
                i as int,
                pane,
                opt_view(output_path),
            ),
        decreases args@.len() - i,
    {
        let arg = chars_of(args[i].as_str());
        assert(av[i as int] == args@[i as int]@);
        if chars_eq_str(arg.as_slice(), "--pane") {
            if i + 1 >= args.len() {
                return Err(owned("Missing value for --pane"));
            }
            let value = chars_of(args[i + 1].as_str());
            assert(av[i + 1] == args@[i + 1]@);
            if chars_eq_str(value.as_slice(), "settings") {
                pane = Some(SettingsPane::Settings);
            } else if chars_eq_str(value.as_slice(), "support") {
                pane = Some(SettingsPane::Support);
            } else {
                let mut message = owned("Invalid value for --pane: ");
                push_str(&mut message, args[i + 1].as_str());
                push_str(&mut message, " (expected settings or support)");
                return Err(message);
            }
            i += 2;
        } else if chars_eq_str(arg.as_slice(), "--output") {
            if i + 1 >= args.len() {
                return Err(owned("Missing value for --output"));
            }
            output_path = Some(owned(args[i + 1].as_str()));
            i += 2;
        } else {
            let mut message = owned("Unknown option for --render-settings-png: ");
            push_str(&mut message, args[i].as_str());
            return Err(message);
        }
    }
    let pane = match pane {
        Some(p) => p,
        None => {
            return Err(owned("--pane is required for --render-settings-png"));
        },
    };
    match output_path {
        Some(output_path) => Ok(SettingsPngArgs { pane, output_path }),
        None => Err(owned("--output is required for --render-settings-png")),
    }
}

/// The paths given to `--diff-png` so far: baseline, current, output.
pub type DiffPaths = (Option<Seq<char>>, Option<Seq<char>>, Option<Seq<char>>);

/// Reads `--diff-png` options from position `i` on.
pub open spec fn scan_diff_options(args: Seq<Seq<char>>, i: int, seen: DiffPaths) -> Result<
    DiffPaths,
    Seq<char>,
>
    decreases args.len() - i,
{
    if i < 0 || i >= args.len() {
        Ok(seen)
    } else if args[i] == "--baseline"@ {
        if i + 1 >= args.len() {
            Err("Missing value for --baseline"@)
        } else {
            scan_diff_options(args, i + 2, (Some(args[i + 1]), seen.1, seen.2))
        }
    } else if args[i] == "--current"@ {
        if i + 1 >= args.len() {
            Err("Missing value for --current"@)
        } else {
            scan_diff_options(args, i + 2, (seen.0, Some(args[i + 1]), seen.2))
        }
    } else if args[i] == "--output"@ {
        if i + 1 >= args.len() {
            Err("Missing value for --output"@)
        } else {
            scan_diff_options(args, i + 2, (seen.0, seen.1, Some(args[i + 1])))
        }
    } else {
        Err("Unknown option for --diff-png: "@ + args[i])
    }
}

/// The outcome of `--diff-png` parsing; a missing baseline is reported before
/// a missing current image, and that before a missing output.
pub open spec fn diff_png_outcome(args: Seq<Seq<char>>) -> Result<
    (Seq<char>, Seq<char>, Seq<char>),
    Seq<char>,
> {
    match scan_diff_options(args, 0, (None, None, None)) {
        Err(e) => Err(e),
        Ok((None, _, _)) => Err("--baseline is required for --diff-png"@),
        Ok((_, None, _)) => Err("--current is required for --diff-png"@),
        Ok((_, _, None)) => Err("--output is required for --diff-png"@),
        Ok((Some(b), Some(c), Some(o))) => Ok((b, c, o)),
    }
}

/// The options following `--diff-png`. `Err` holds the usage message.
pub fn parse_diff_png_args(args: &[String]) -> (r: Result<DiffPngArgs, String>)
    ensures
        match (r, diff_png_outcome(arg_views(args@))) {
            (Ok(a), Ok((b, c, o))) => a.baseline_path@ == b && a.current_path@ == c
                && a.output_path@ == o,
            (Err(e), Err(m)) => e@ == m,
            _ => false,
        },
{
    let ghost av = arg_views(args@);
    let mut baseline_path: Option<String> = None;
    let mut current_path: Option<String> = None;
    let mut output_path: Option<String> = None;
    let mut i: usize = 0;
    while i < args.len()
        invariant
            i <= args@.len(),
            av == arg_views(args@),
            scan_diff_options(av, 0, (None, None, None)) == scan_diff_options(
                av,
                i as int,
                (opt_view(baseline_path), opt_view(current_path), opt_view(output_path)),
            ),
        decreases args@.len() - i,
    {
        let arg = chars_of(args[i].as_str());
        assert(av[i as int] == args@[i as int]@);
        if chars_eq_str(arg.as_slice(), "--baseline") {
            if i + 1 >= args.len() {
                return Err(owned("Missing value for --baseline"));
            }
            baseline_path = Some(owned(args[i + 1].as_str()));
            i += 2;
        } else if chars_eq_str(arg.as_slice(), "--current") {
            if i + 1 >= args.len() {
                return Err(owned("Missing value for --current"));
            }
            current_path = Some(owned(args[i + 1].as_str()));
            i += 2;
        } else if chars_eq_str(arg.as_slice(), "--output") {
            if i + 1 >= args.len() {
                return Err(owned("Missing value for --output"));
            }
            output_path = Some(owned(args[i + 1].as_str()));
            i += 2;
        } else {
            let mut message = owned("Unknown option for --diff-png: ");
            push_str(&mut message, args[i].as_str());
            return Err(message);
        }
    }
    let baseline_path = match baseline_path {
        Some(p) => p,
        None => {
            return Err(owned("--baseline is required for --diff-png"));
        },
    };
    let current_path = match current_path {
        Some(p) => p,
        None => {
            return Err(owned("--current is required for --diff-png"));
        },
    };
    match output_path {
        Some(output_path) => Ok(DiffPngArgs { baseline_path, current_path, output_path }),
        None => Err(owned("--output is required for --diff-png")),
    }
}

// ---------------------------------------------------------------------------
// The command line as a whole
// ---------------------------------------------------------------------------

/// What the command line asks for.
#[derive(Debug, PartialEq, Eq)]
pub enum CliCommand {
    /// No option: run the app.
    Run,
    /// `--version`, `-V` or `-v`.
    Version,
    /// `--help` or `-h`.
    Help,
    /// `--config-show`; `Err` holds the usage message when more follows.
    ConfigShow(Result<(), String>),
    /// `--render-hud-png` and its parsed options.
    RenderHud(Result<RenderHudArgs, String>),
    /// `--render-settings-png` and its parsed options.
    RenderSettings(Result<SettingsPngArgs, String>),
    /// `--diff-png` and its parsed options.
    DiffPng(Result<DiffPngArgs, String>),
    /// Any other first option.
    Unknown(String),
}

/// The usage message of `--config-show`, which takes no options.
pub const CONFIG_SHOW_USAGE: &'static str = "Usage: cliip-show --config-show";

/// The line printed after an unknown option.
pub const HELP_HINT: &'static str = "Use --help to see available options.";

/// `r` is what `parse_render_hud_args` returns for `args`.
pub open spec fn hud_parse_of(r: Result<RenderHudArgs, String>, args: Seq<Seq<char>>) -> bool {
    match (r, render_hud_outcome(args)) {
        (Ok(a), Ok((content, output))) => a.content@ == content && a.output_path@ == output,
        (Err(e), Err(m)) => e@ == m,
        _ => false,
    }
}

/// `r` is what `parse_settings_png_args` returns for `args`.
pub open spec fn settings_parse_of(r: Result<SettingsPngArgs, String>, args: Seq<Seq<char>>) -> bool {
    match (r, settings_png_outcome(args)) {
        (Ok(a), Ok((pane, output))) => a.pane == pane && a.output_path@ == output,
        (Err(e), Err(m)) => e@ == m,
        _ => false,
    }
}

/// `r` is what `parse_diff_png_args` returns for `args`.
pub open spec fn diff_parse_of(r: Result<DiffPngArgs, String>, args: Seq<Seq<char>>) -> bool {
    match (r, diff_png_outcome(args)) {
        (Ok(a), Ok((b, c, o))) => a.baseline_path@ == b && a.current_path@ == c && a.output_path@
            == o,
        (Err(e), Err(m)) => e@ == m,
        _ => false,
    }
}

/// `c` is the command that the arguments `args` (the program name first)
/// ask for: decided by the first option, whose followers are parsed by the
/// command that takes them.
pub open spec fn command_of(c: CliCommand, args: Seq<Seq<char>>) -> bool {
    if args.len() < 2 {
        c is Run
    } else {
        let flag = args[1];
        let rest = args.skip(2);
        if flag == "--version"@ || flag == "-V"@ || flag == "-v"@ {
            c is Version
        } else if flag == "--help"@ || flag == "-h"@ {
            c is Help
        } else if flag == "--config-show"@ {
            match c {
                CliCommand::ConfigShow(Ok(())) => rest.len() == 0,
                CliCommand::ConfigShow(Err(m)) => rest.len() > 0 && m@ == CONFIG_SHOW_USAGE@,
                _ => false,
            }
        } else if flag == "--render-hud-png"@ {
            match c {
                CliCommand::RenderHud(r) => hud_parse_of(r, rest),
                _ => false,
            }
        } else if flag == "--render-settings-png"@ {
            match c {
                CliCommand::RenderSettings(r) => settings_parse_of(r, rest),
                _ => false,
            }
        } else if flag == "--diff-png"@ {
            match c {
                CliCommand::DiffPng(r) => diff_parse_of(r, rest),
                _ => false,
            }
        } else {
            match c {
                CliCommand::Unknown(f) => f@ == flag,
                _ => false,
            }
        }
    }
}

/// The command that `args` (the program name first) asks for.
pub fn cli_command(args: &[String]) -> (c: CliCommand)
    ensures
        command_of(c, arg_views(args@)),
{
    let ghost av = arg_views(args@);
    if args.len() < 2 {
        return CliCommand::Run;
    }
    let mut rest: Vec<String> = Vec::new();
    let mut i: usize = 2;
    while i < args.len()
        invariant
            2 <= i <= args@.len(),
            av == arg_views(args@),
            arg_views(rest@) == av.subrange(2, i as int),
        decreases args@.len() - i,
    {
        let ghost before = rest@;
        rest.push(owned(args[i].as_str()));
        assert(arg_views(rest@) =~= arg_views(before).push(av[i as int]));
        assert(av.subrange(2, i + 1) =~= av.subrange(2, i as int).push(av[i as int]));
        i += 1;
    }
    assert(av.subrange(2, args@.len() as int) =~= av.skip(2));
    let flag = chars_of(args[1].as_str());
    assert(av[1] == args@[1]@);
    let f = flag.as_slice();
    if chars_eq_str(f, "--version") || chars_eq_str(f, "-V") || chars_eq_str(f, "-v") {
        CliCommand::Version
    } else if chars_eq_str(f, "--help") || chars_eq_str(f, "-h") {
        CliCommand::Help
    } else if chars_eq_str(f, "--config-show") {
        if rest.len() == 0 {
            CliCommand::ConfigShow(Ok(()))
        } else {
            CliCommand::ConfigShow(Err(owned(CONFIG_SHOW_USAGE)))
        }
    } else if chars_eq_str(f, "--render-hud-png") {
        CliCommand::RenderHud(parse_render_hud_args(rest.as_slice()))
    } else if chars_eq_str(f, "--render-settings-png") {
        CliCommand::RenderSettings(parse_settings_png_args(rest.as_slice()))
    } else if chars_eq_str(f, "--diff-png") {
        CliCommand::DiffPng(parse_diff_png_args(rest.as_slice()))
    } else {
        CliCommand::Unknown(owned(args[1].as_str()))
    }
}

/// The first line printed for an unknown option.
pub fn unknown_option_message(flag: &str) -> (s: String)
    ensures
        s@ == "Unknown option: "@ + flag@,
{
    let mut s = owned("Unknown option: ");
    push_str(&mut s, flag);
    s
}

/// The line `--diff-png` prints, which snapshot scripts parse:
/// `diff_pixels=<n> total_pixels=<n>`.
pub fn diff_summary_line(summary: DiffSummary) -> (s: String)
    ensures
        s@ == "diff_pixels="@ + decimal(summary.diff_pixels as nat) + " total_pixels="@ + decimal(
            summary.total_pixels as nat,
        ),
{
    let mut out = chars_of("diff_pixels=");
    push_decimal(&mut out, summary.diff_pixels);
    push_chars(&mut out, chars_of(" total_pixels=").as_slice());
    push_decimal(&mut out, summary.total_pixels);
    string_of(out.as_slice())
}

/// Lines, each ended by a newline.
pub open spec fn lines_text(lines: Seq<Seq<char>>) -> Seq<char>
    decreases lines.len(),
{
    if lines.len() == 0 {
        Seq::empty()
    } else {
        lines_text(lines.drop_last()) + lines.last().push('\n')
    }
}

/// The lines of `--help` after the first, which names the version.
pub open spec fn help_body() -> Seq<Seq<char>> {
    seq![
        "clipboard HUD resident app for macOS"@,
        ""@,
        "Options:"@,
        "  -h, --help       Print help"@,
        "  -v, -V, --version    Print version"@,
        "  --render-hud-png --text <TEXT> --output <PATH>    Render HUD snapshot PNG and exit"@,
        "  --render-hud-png --image-fixture <W>x<H> --output <PATH>    Render image HUD snapshot PNG and exit"@,
        "  --render-settings-png --pane <settings|support> --output <PATH>    Render settings window pane PNG and exit"@,
        "  --diff-png --baseline <PATH> --current <PATH> --output <PATH>    Generate visual diff PNG and exit"@,
        "  --config-show    Print the current settings and exit"@,
        ""@,
        "Settings are edited in the settings window (\"Settings…\" in the menu bar)."@,
        "Changes are hot-reloaded automatically (no restart needed)."@,
        ""@,
        "Persistent config file:"@,
        "  default: ~/Library/Application Support/cliip-show/config.toml"@,
        "  override path via: CLIIP_SHOW_CONFIG_PATH"@,
        ""@,
        "Display settings via env vars (override file):"@,
        "  CLIIP_SHOW_POLL_INTERVAL_SECS   Poll interval seconds (0.05 - 5.0)"@,
        "  CLIIP_SHOW_HUD_DURATION_SECS    HUD visible seconds (0.1 - 10.0)"@,
        "  CLIIP_SHOW_HUD_FADE_DURATION_SECS  HUD fade seconds (0.0 - 2.0; 0.0 disables)"@,
        "  CLIIP_SHOW_MAX_CHARS_PER_LINE   Max chars per line (1 - 500)"@,
        "  CLIIP_SHOW_MAX_LINES            Max lines in HUD (1 - 20)"@,
        "  CLIIP_SHOW_HUD_POSITION         HUD position (top|center|bottom)"@,
        "  CLIIP_SHOW_HUD_SCALE            HUD scale (0.5 - 2.0)"@,
        "  CLIIP_SHOW_HUD_BACKGROUND_COLOR HUD background color (default|yellow|blue|green|red|purple)"@,
        "  CLIIP_SHOW_HUD_BACKGROUND_OPACITY  HUD background opacity (0.2 - 1.0)"@,
        "  CLIIP_SHOW_HUD_EMOJI            HUD icon emoji (default: 📋)"@,
        "  CLIIP_SHOW_HUD_IMAGE_MAX_HEIGHT Max thumbnail height for copied images (40 - 240)"@,
        "  CLIIP_SHOW_LANGUAGE             UI language (auto|ja|en)"@,
    ]
}

/// The `--help` text for the given version: `cliip-show <version>`, then
/// `help_body`, each line ended by a newline.
pub fn help_text(version: &str) -> (s: String)
    ensures
        s@ == lines_text(seq!["cliip-show "@ + version@] + help_body()),
{
    let body: [&str; 31] = [
        "clipboard HUD resident app for macOS",
        "",
        "Options:",
        "  -h, --help       Print help",
        "  -v, -V, --version    Print version",
        "  --render-hud-png --text <TEXT> --output <PATH>    Render HUD snapshot PNG and exit",
        "  --render-hud-png --image-fixture <W>x<H> --output <PATH>    Render image HUD snapshot PNG and exit",
        "  --render-settings-png --pane <settings|support> --output <PATH>    Render settings window pane PNG and exit",
        "  --diff-png --baseline <PATH> --current <PATH> --output <PATH>    Generate visual diff PNG and exit",
        "  --config-show    Print the current settings and exit",
        "",
        "Settings are edited in the settings window (\"Settings…\" in the menu bar).",
        "Changes are hot-reloaded automatically (no restart needed).",
        "",
        "Persistent config file:",
        "  default: ~/Library/Application Support/cliip-show/config.toml",
        "  override path via: CLIIP_SHOW_CONFIG_PATH",
        "",
        "Display settings via env vars (override file):",
        "  CLIIP_SHOW_POLL_INTERVAL_SECS   Poll interval seconds (0.05 - 5.0)",
        "  CLIIP_SHOW_HUD_DURATION_SECS    HUD visible seconds (0.1 - 10.0)",
        "  CLIIP_SHOW_HUD_FADE_DURATION_SECS  HUD fade seconds (0.0 - 2.0; 0.0 disables)",
        "  CLIIP_SHOW_MAX_CHARS_PER_LINE   Max chars per line (1 - 500)",
        "  CLIIP_SHOW_MAX_LINES            Max lines in HUD (1 - 20)",
        "  CLIIP_SHOW_HUD_POSITION         HUD position (top|center|bottom)",
        "  CLIIP_SHOW_HUD_SCALE            HUD scale (0.5 - 2.0)",
        "  CLIIP_SHOW_HUD_BACKGROUND_COLOR HUD background color (default|yellow|blue|green|red|purple)",
        "  CLIIP_SHOW_HUD_BACKGROUND_OPACITY  HUD background opacity (0.2 - 1.0)",
        "  CLIIP_SHOW_HUD_EMOJI            HUD icon emoji (default: 📋)",
        "  CLIIP_SHOW_HUD_IMAGE_MAX_HEIGHT Max thumbnail height for copied images (40 - 240)",
        "  CLIIP_SHOW_LANGUAGE             UI language (auto|ja|en)",
    ];
    let ghost lines = seq!["cliip-show "@ + version@] + help_body();
    assert(forall|k: int| 0 <= k < 31 ==> #[trigger] body@[k]@ == help_body()[k]);
    let mut out = owned("cliip-show ");
    push_str(&mut out, version);
    push_char(&mut out, '\n');
    assert(lines.take(1) =~= seq!["cliip-show "@ + version@]);
    assert(lines_text(lines.take(1).drop_last()) =~= Seq::<char>::empty());
    assert(out@ =~= lines_text(lines.take(1)));
    let mut i: usize = 0;
    while i < 31
        invariant
            i <= 31,
            lines == seq!["cliip-show "@ + version@] + help_body(),
            forall|k: int| 0 <= k < 31 ==> #[trigger] body@[k]@ == help_body()[k],
            out@ == lines_text(lines.take(i + 1)),
        decreases 31 - i,
    {
        push_str(&mut out, body[i]);
        push_char(&mut out, '\n');
        assert(lines.take(i + 2).drop_last() =~= lines.take(i + 1));
        assert(lines[i + 1] == body@[i as int]@);
        i += 1;
    }
    assert(lines.take(32) =~= lines);
    out
}

} // verus!
