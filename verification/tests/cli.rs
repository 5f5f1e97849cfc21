use cliip_show::cli::{
    cli_command, diff_summary_line, help_text, parse_diff_png_args, parse_image_fixture_size,
    parse_render_hud_args, parse_settings_png_args, unknown_option_message, CliCommand,
    DiffPngArgs, RenderContent, RenderHudArgs, SettingsPngArgs,
};
use cliip_show::png::{DiffSummary, SettingsPane};

fn args(list: &[&str]) -> Vec<String> {
    list.iter().map(|s| s.to_string()).collect()
}

#[test]
fn render_args_accept_text_and_output() {
    let parsed = parse_render_hud_args(&args(&["--text", "hello", "--output", "/tmp/out.png"]));
    assert_eq!(
        parsed,
        Ok(RenderHudArgs {
            content: RenderContent::Text("hello".to_string()),
            output_path: "/tmp/out.png".to_string(),
        })
    );
}

#[test]
fn render_args_accept_image_fixture() {
    let parsed = parse_render_hud_args(&args(&[
        "--image-fixture",
        "320x180",
        "--output",
        "/tmp/o.png",
    ]));
    assert_eq!(
        parsed,
        Ok(RenderHudArgs {
            content: RenderContent::ImageFixture {
                width: 320,
                height: 180
            },
            output_path: "/tmp/o.png".to_string(),
        })
    );
}

/// Without `--text` the HUD shows a placeholder text.
#[test]
fn render_args_default_to_placeholder_text() {
    let parsed = parse_render_hud_args(&args(&["--output", "/tmp/out.png"]));
    assert_eq!(
        parsed.map(|p| p.content),
        Ok(RenderContent::Text("Clipboard text".to_string()))
    );
}

/// Exclusivity is reported before the missing `--output`.
#[test]
fn render_args_reject_text_with_image_fixture() {
    let parsed =
        parse_render_hud_args(&args(&["--text", "hello", "--image-fixture", "320x180"]));
    assert_eq!(
        parsed,
        Err("--text and --image-fixture are mutually exclusive".to_string())
    );
}

/// An unknown option is reported before exclusivity.
#[test]
fn render_args_report_loop_errors_before_exclusivity() {
    let parsed = parse_render_hud_args(&args(&[
        "--text",
        "hello",
        "--image-fixture",
        "320x180",
        "--bogus",
    ]));
    assert_eq!(
        parsed,
        Err("Unknown option for --render-hud-png: --bogus".to_string())
    );
}

#[test]
fn render_args_require_output() {
    let parsed = parse_render_hud_args(&args(&["--text", "hello"]));
    assert_eq!(
        parsed,
        Err("--output is required for --render-hud-png".to_string())
    );
}

#[test]
fn render_args_reject_unknown_options_and_missing_values() {
    assert_eq!(
        parse_render_hud_args(&args(&["--textt", "hello"])),
        Err("Unknown option for --render-hud-png: --textt".to_string())
    );
    assert_eq!(
        parse_render_hud_args(&args(&["--text"])),
        Err("Missing value for --text".to_string())
    );
    assert_eq!(
        parse_render_hud_args(&args(&["--image-fixture"])),
        Err("Missing value for --image-fixture".to_string())
    );
    assert_eq!(
        parse_render_hud_args(&args(&["--output"])),
        Err("Missing value for --output".to_string())
    );
    assert_eq!(
        parse_render_hud_args(&args(&["--image-fixture", "320"])),
        Err(
            "Invalid value for --image-fixture: 320 (expected <W>x<H>, e.g. 320x180)"
                .to_string()
        )
    );
}

/// The token after an option is its value even when it looks like a flag.
#[test]
fn render_args_take_the_next_token_verbatim_as_a_value() {
    let parsed = parse_render_hud_args(&args(&["--text", "--output", "/tmp/x.png"]));
    assert_eq!(
        parsed,
        Err("Unknown option for --render-hud-png: /tmp/x.png".to_string())
    );
}

#[test]
fn diff_args_accept_all_three_paths() {
    let parsed = parse_diff_png_args(&args(&[
        "--baseline",
        "/tmp/b.png",
        "--current",
        "/tmp/c.png",
        "--output",
        "/tmp/d.png",
    ]));
    assert_eq!(
        parsed,
        Ok(DiffPngArgs {
            baseline_path: "/tmp/b.png".to_string(),
            current_path: "/tmp/c.png".to_string(),
            output_path: "/tmp/d.png".to_string(),
        })
    );
}

/// Each missing path is named, baseline first, then current, then output.
#[test]
fn diff_args_require_each_path() {
    assert_eq!(
        parse_diff_png_args(&args(&[])),
        Err("--baseline is required for --diff-png".to_string())
    );
    assert_eq!(
        parse_diff_png_args(&args(&["--current", "/tmp/c.png", "--output", "/tmp/d.png"])),
        Err("--baseline is required for --diff-png".to_string())
    );
    assert_eq!(
        parse_diff_png_args(&args(&[
            "--baseline",
            "/tmp/b.png",
            "--output",
            "/tmp/d.png"
        ])),
        Err("--current is required for --diff-png".to_string())
    );
    assert_eq!(
        parse_diff_png_args(&args(&[
            "--baseline",
            "/tmp/b.png",
            "--current",
            "/tmp/c.png"
        ])),
        Err("--output is required for --diff-png".to_string())
    );
}

#[test]
fn diff_args_reject_unknown_options() {
    assert_eq!(
        parse_diff_png_args(&args(&["--base", "/tmp/b.png"])),
        Err("Unknown option for --diff-png: --base".to_string())
    );
}

#[test]
fn diff_args_reject_missing_values() {
    assert_eq!(
        parse_diff_png_args(&args(&["--baseline"])),
        Err("Missing value for --baseline".to_string())
    );
    assert_eq!(
        parse_diff_png_args(&args(&["--current"])),
        Err("Missing value for --current".to_string())
    );
    assert_eq!(
        parse_diff_png_args(&args(&["--output"])),
        Err("Missing value for --output".to_string())
    );
}

#[test]
fn settings_args_accept_pane_and_output() {
    assert_eq!(
        parse_settings_png_args(&args(&["--pane", "support", "--output", "/tmp/s.png"])),
        Ok(SettingsPngArgs {
            pane: SettingsPane::Support,
            output_path: "/tmp/s.png".to_string(),
        })
    );
    assert_eq!(
        parse_settings_png_args(&args(&["--pane", "settings", "--output", "/tmp/s.png"]))
            .map(|parsed| parsed.pane),
        Ok(SettingsPane::Settings)
    );
}

#[test]
fn settings_args_reject_invalid_or_missing_options() {
    assert_eq!(
        parse_settings_png_args(&args(&["--pane", "about", "--output", "/tmp/s.png"])),
        Err("Invalid value for --pane: about (expected settings or support)".to_string())
    );
    assert_eq!(
        parse_settings_png_args(&args(&["--output", "/tmp/s.png"])),
        Err("--pane is required for --render-settings-png".to_string())
    );
    assert_eq!(
        parse_settings_png_args(&args(&["--pane", "settings"])),
        Err("--output is required for --render-settings-png".to_string())
    );
    assert_eq!(
        parse_settings_png_args(&args(&["--panes", "settings"])),
        Err("Unknown option for --render-settings-png: --panes".to_string())
    );
}

#[test]
fn settings_args_reject_missing_values() {
    assert_eq!(
        parse_settings_png_args(&args(&["--pane"])),
        Err("Missing value for --pane".to_string())
    );
    assert_eq!(
        parse_settings_png_args(&args(&["--output"])),
        Err("Missing value for --output".to_string())
    );
}

#[test]
fn parse_image_fixture_size_accepts_valid_sizes() {
    assert_eq!(parse_image_fixture_size("320x180"), Some((320, 180)));
    assert_eq!(parse_image_fixture_size(" 16X16 "), Some((16, 16)));
}

#[test]
fn parse_image_fixture_size_rejects_invalid_sizes() {
    assert_eq!(parse_image_fixture_size("320"), None);
    assert_eq!(parse_image_fixture_size("320x"), None);
    assert_eq!(parse_image_fixture_size("0x180"), None);
    assert_eq!(parse_image_fixture_size("320x0"), None);
    assert_eq!(parse_image_fixture_size("-1x10"), None);
    assert_eq!(parse_image_fixture_size("axb"), None);
}

#[test]
fn cli_command_without_options_runs_the_app() {
    assert_eq!(cli_command(&args(&["cliip-show"])), CliCommand::Run);
}

#[test]
fn cli_command_recognizes_version_and_help() {
    for flag in ["--version", "-V", "-v"] {
        assert_eq!(cli_command(&args(&["cliip-show", flag])), CliCommand::Version);
    }
    for flag in ["--help", "-h"] {
        assert_eq!(cli_command(&args(&["cliip-show", flag])), CliCommand::Help);
    }
}

#[test]
fn cli_command_config_show_takes_no_options() {
    assert_eq!(
        cli_command(&args(&["cliip-show", "--config-show"])),
        CliCommand::ConfigShow(Ok(()))
    );
    assert_eq!(
        cli_command(&args(&["cliip-show", "--config-show", "extra"])),
        CliCommand::ConfigShow(Err("Usage: cliip-show --config-show".to_string()))
    );
}

#[test]
fn cli_command_parses_the_options_of_each_command() {
    assert_eq!(
        cli_command(&args(&["cliip-show", "--render-hud-png", "--text", "hi", "--output", "/o.png"])),
        CliCommand::RenderHud(Ok(RenderHudArgs {
            content: RenderContent::Text("hi".to_string()),
            output_path: "/o.png".to_string(),
        }))
    );
    assert_eq!(
        cli_command(&args(&["cliip-show", "--render-settings-png", "--pane", "settings"])),
        CliCommand::RenderSettings(Err(
            "--output is required for --render-settings-png".to_string()
        ))
    );
    assert_eq!(
        cli_command(&args(&["cliip-show", "--diff-png", "--baseline"])),
        CliCommand::DiffPng(Err("Missing value for --baseline".to_string()))
    );
}

#[test]
fn cli_command_reports_unknown_options() {
    assert_eq!(
        cli_command(&args(&["cliip-show", "--bogus"])),
        CliCommand::Unknown("--bogus".to_string())
    );
    assert_eq!(unknown_option_message("--bogus"), "Unknown option: --bogus");
}

#[test]
fn diff_summary_line_is_what_scripts_parse() {
    let line = diff_summary_line(DiffSummary {
        diff_pixels: 12,
        total_pixels: 3400,
    });
    assert_eq!(line, "diff_pixels=12 total_pixels=3400");
}

#[test]
fn help_text_names_the_version_and_the_options() {
    let help = help_text("1.2.3");
    assert!(help.starts_with("cliip-show 1.2.3\nclipboard HUD resident app for macOS\n\nOptions:\n"));
    assert!(help.contains("  --config-show    Print the current settings and exit\n"));
    assert!(help.ends_with("  CLIIP_SHOW_LANGUAGE             UI language (auto|ja|en)\n"));
    assert_eq!(help.lines().count(), 32);
}
