use cliip_show::login_item::{
    cellar_to_opt_path, escape_xml, has_prompted, homebrew_agent_path,
    is_enabled, is_installed_app_bundle, launch_agents_dir, launched_with_login_flag,
    login_item_action, needs_repair, plist_path, plist_xml, program_arguments_in_plist,
    prompted_marker_path, resolved_start_at_login, stable_executable_path,
    start_at_login_to_persist, sync_plist_with_config, unescape_xml, LoginItemAction, LOGIN_FLAG,
    LOGIN_ITEM_LABEL,
};
use cliip_show::config::StartupConfigFile;

const APP_EXE: &str = "/Applications/Cliip Show.app/Contents/MacOS/cliip-show";

fn plist_pointing_at(executable: &str) -> String {
    plist_xml(executable, "/tmp/cliip-show.log")
}

/// A plist as written before `LOGIN_FLAG` was added to it.
fn plist_without_login_flag(executable: &str) -> String {
    let xml = plist_pointing_at(executable)
        .replace(&format!("\t\t<string>{LOGIN_FLAG}</string>\n"), "");
    assert!(!xml.contains(LOGIN_FLAG), "the flag is still there");
    xml
}

#[test]
fn cellar_path_converts_to_opt_path_when_it_exists() {
    let exe = "/opt/homebrew/Cellar/cliip-show/0.2.0/bin/cliip-show";
    let opt = "/opt/homebrew/opt/cliip-show/bin/cliip-show";
    let result = stable_executable_path(exe, |p: &str| p == opt);
    assert_eq!(result, opt);
}

#[test]
fn cellar_path_falls_back_to_original_when_opt_path_is_missing() {
    let exe = "/opt/homebrew/Cellar/cliip-show/0.2.0/bin/cliip-show";
    let result = stable_executable_path(exe, |_: &str| false);
    assert_eq!(result, exe);
}

#[test]
fn non_cellar_path_passes_through_unchanged() {
    let exe = "/usr/local/bin/cliip-show";
    let result = stable_executable_path(exe, |_: &str| true);
    assert_eq!(result, exe);
}

#[test]
fn cellar_paths_need_a_name_a_version_and_a_rest() {
    assert_eq!(cellar_to_opt_path("/opt/homebrew/Cellar/cliip-show/0.2.0"), None);
    assert_eq!(
        cellar_to_opt_path("/opt/homebrew/Cellar/cliip-show/0.2.0/cliip-show"),
        Some("/opt/homebrew/opt/cliip-show/cliip-show".to_string())
    );
}

#[test]
fn plist_xml_contains_expected_keys() {
    let xml = plist_xml(
        "/opt/homebrew/opt/cliip-show/bin/cliip-show",
        "/Users/someone/Library/Logs/cliip-show.log",
    );
    assert!(xml.contains(&format!("<string>{LOGIN_ITEM_LABEL}</string>")));
    assert!(xml.contains("<string>/opt/homebrew/opt/cliip-show/bin/cliip-show</string>"));
    assert!(xml.contains("<key>RunAtLoad</key>"));
    assert!(xml.contains("<true/>"));
    assert!(xml.contains("<key>SuccessfulExit</key>"));
    assert!(xml.contains("<false/>"));
    assert!(xml.contains("<string>/Users/someone/Library/Logs/cliip-show.log</string>"));
}

/// Read back still escaped, an existing path would look missing and the
/// plist would be rewritten at every launch.
#[test]
fn program_arguments_round_trip_through_xml_escaping() {
    let executable = "/Applications/A & <B> \"C\".app/Contents/MacOS/cliip-show";
    let xml = plist_pointing_at(executable);
    assert_eq!(
        program_arguments_in_plist(&xml).as_deref(),
        Some([executable.to_string(), LOGIN_FLAG.to_string()].as_slice())
    );
}

#[test]
fn program_arguments_are_none_for_a_plist_without_program_arguments() {
    assert_eq!(program_arguments_in_plist("<plist><dict/></plist>"), None);
}

/// An empty array and an unclosed `<string>` are both unreadable, so a
/// plist some other tool wrote is left alone.
#[test]
fn program_arguments_are_none_for_a_malformed_array() {
    let empty = "<key>ProgramArguments</key><array></array>";
    assert_eq!(program_arguments_in_plist(empty), None);
    assert!(!needs_repair(empty, APP_EXE, |_: &str| false));

    let unterminated = "<key>ProgramArguments</key><array><string>/bin/x</array>";
    assert_eq!(program_arguments_in_plist(unterminated), None);
    assert!(!needs_repair(unterminated, APP_EXE, |_: &str| false));
}

#[test]
fn repair_is_needed_when_the_plist_points_at_a_missing_executable() {
    let xml = plist_pointing_at("/opt/homebrew/bin/cliip-show");
    assert!(needs_repair(&xml, APP_EXE, |_: &str| false));
}

#[test]
fn repair_is_skipped_when_the_plist_still_points_at_an_existing_executable() {
    let xml = plist_pointing_at("/opt/homebrew/bin/cliip-show");
    assert!(!needs_repair(&xml, APP_EXE, |_: &str| true));
}

/// A development build must not make the plist point into `target/`.
#[test]
fn repair_is_skipped_when_the_running_executable_is_not_in_an_app_bundle() {
    let xml = plist_pointing_at("/opt/homebrew/bin/cliip-show");
    let exe = "/Users/someone/repo/target/debug/cliip-show";
    assert!(!needs_repair(&xml, exe, |_: &str| false));
}

/// A bundle assembled under the build directory is rebuilt every time.
#[test]
fn repair_is_skipped_for_an_app_bundle_outside_applications() {
    let xml = plist_pointing_at("/opt/homebrew/bin/cliip-show");
    let exe = "/Users/someone/repo/target/bundle/Cliip Show.app/Contents/MacOS/cliip-show";
    assert!(!needs_repair(&xml, exe, |_: &str| false));
}

#[test]
fn repair_is_needed_for_an_app_bundle_in_the_home_applications_folder() {
    let xml = plist_pointing_at("/opt/homebrew/bin/cliip-show");
    let exe = "/Users/someone/Applications/Cliip Show.app/Contents/MacOS/cliip-show";
    assert!(needs_repair(&xml, exe, |_: &str| false));
}

#[test]
fn repair_is_skipped_for_a_plist_this_app_did_not_write() {
    assert!(!needs_repair(
        "<plist><dict/></plist>",
        APP_EXE,
        |_: &str| false
    ));
}

/// An unreadable plist also lacks the flag; it is still left alone.
#[test]
fn repair_is_skipped_for_an_unreadable_plist_even_though_it_has_no_login_flag() {
    assert!(!needs_repair(
        "<plist><dict/></plist>",
        APP_EXE,
        |_: &str| true
    ));
}

/// A plist that already points at the running executable may gain the flag
/// even from outside a bundle: the path does not change.
#[test]
fn repair_is_needed_outside_a_bundle_when_the_plist_already_points_at_the_running_executable() {
    let exe = "/Users/someone/repo/target/debug/cliip-show";
    let xml = plist_without_login_flag(exe);
    assert!(needs_repair(&xml, exe, |_: &str| true));
}

/// Without the flag every login would be announced.
#[test]
fn repair_is_needed_when_the_plist_has_no_login_flag() {
    let xml = plist_without_login_flag("/opt/homebrew/bin/cliip-show");
    assert!(needs_repair(&xml, APP_EXE, |_: &str| true));
}

#[test]
fn program_arguments_are_read_back_in_order() {
    let xml = plist_pointing_at("/opt/homebrew/bin/cliip-show");
    assert_eq!(
        program_arguments_in_plist(&xml),
        Some(vec![
            "/opt/homebrew/bin/cliip-show".to_string(),
            LOGIN_FLAG.to_string(),
        ])
    );
}

#[test]
fn the_login_flag_is_detected_only_when_it_is_passed() {
    let args = |list: &[&str]| list.iter().map(|s| s.to_string()).collect::<Vec<_>>();
    assert!(launched_with_login_flag(&args(&[
        "/Applications/Cliip Show.app/Contents/MacOS/cliip-show",
        LOGIN_FLAG
    ])));
    assert!(!launched_with_login_flag(&args(&[
        "/Applications/Cliip Show.app/Contents/MacOS/cliip-show"
    ])));
    // The program name is not an argument.
    assert!(!launched_with_login_flag(&args(&[LOGIN_FLAG])));
}

#[test]
fn plist_xml_escapes_special_characters_in_paths() {
    let xml = plist_xml("/opt/A & B/cliip-show", "/tmp/log.log");
    assert!(xml.contains("A &amp; B"));
    assert!(!xml.contains("A & B"));
}

#[test]
fn login_item_action_enables_when_desired_missing_and_installed() {
    assert_eq!(
        login_item_action(true, false, true),
        LoginItemAction::Enable
    );
}

/// Outside an installed `.app` a new plist would point at a path that the
/// next build or uninstall removes; nothing is written.
#[test]
fn login_item_action_does_nothing_when_desired_missing_and_not_installed() {
    assert_eq!(login_item_action(true, false, false), LoginItemAction::Nothing);
}

#[test]
fn login_item_action_repairs_when_desired_and_present() {
    assert_eq!(
        login_item_action(true, true, false),
        LoginItemAction::Repair
    );
    assert_eq!(login_item_action(true, true, true), LoginItemAction::Repair);
}

#[test]
fn login_item_action_disables_when_not_desired_but_present() {
    assert_eq!(
        login_item_action(false, true, false),
        LoginItemAction::Disable
    );
    assert_eq!(
        login_item_action(false, true, true),
        LoginItemAction::Disable
    );
}

#[test]
fn login_item_action_does_nothing_when_not_desired_and_absent() {
    assert_eq!(
        login_item_action(false, false, false),
        LoginItemAction::Nothing
    );
    assert_eq!(login_item_action(false, false, true), LoginItemAction::Nothing);
}

#[test]
fn start_at_login_to_persist_writes_back_true_when_plist_exists() {
    assert_eq!(start_at_login_to_persist(true), Some(true));
}

#[test]
fn start_at_login_to_persist_writes_nothing_when_plist_is_absent() {
    assert_eq!(start_at_login_to_persist(false), None);
}

#[test]
fn escaping_round_trips_and_leaves_no_markup() {
    let raw = "a&b<c>\"d\"'e'&amp;";
    let escaped = escape_xml(raw);
    assert_eq!(escaped, "a&amp;b&lt;c&gt;&quot;d&quot;&apos;e&apos;&amp;amp;");
    assert_eq!(unescape_xml(&escaped), raw);
    assert_eq!(unescape_xml("&amp;lt;"), "&lt;");
}

#[test]
fn agent_paths_live_under_the_launch_agents_directory() {
    assert_eq!(
        launch_agents_dir(Some(" /Users/a ")),
        Some("/Users/a/Library/LaunchAgents".to_string())
    );
    assert_eq!(launch_agents_dir(Some("   ")), None);
    assert_eq!(launch_agents_dir(None), None);
    assert_eq!(
        plist_path(Some("/Users/a")),
        Some("/Users/a/Library/LaunchAgents/io.github.somei-san.cliip-show.plist".to_string())
    );
    assert_eq!(
        homebrew_agent_path(Some("/Users/a")),
        Some("/Users/a/Library/LaunchAgents/homebrew.mxcl.cliip-show.plist".to_string())
    );
}

#[test]
fn enabled_means_the_plist_exists() {
    let expected = "/Users/a/Library/LaunchAgents/io.github.somei-san.cliip-show.plist";
    assert!(is_enabled(Some("/Users/a"), |p: &str| p == expected));
    assert!(!is_enabled(Some("/Users/a"), |_: &str| false));
    assert!(!is_enabled(None, |_: &str| true));
}

#[test]
fn the_prompt_marker_sits_next_to_the_config_file() {
    assert_eq!(
        prompted_marker_path("/Users/a/cfg/config.toml"),
        Some("/Users/a/cfg/.login-item-prompted".to_string())
    );
    assert!(has_prompted("/Users/a/cfg/config.toml", |p: &str| p
        == "/Users/a/cfg/.login-item-prompted"));
    assert!(!has_prompted("/", |_: &str| true));
}

#[test]
fn the_config_decides_start_at_login_unless_it_is_silent() {
    let unset = StartupConfigFile { start_at_login: None };
    let on = StartupConfigFile { start_at_login: Some(true) };
    let off = StartupConfigFile { start_at_login: Some(false) };
    assert!(resolved_start_at_login(&unset, true));
    assert!(!resolved_start_at_login(&unset, false));
    assert!(resolved_start_at_login(&on, false));
    assert!(!resolved_start_at_login(&off, true));

    let plan = sync_plist_with_config(None, true);
    assert!(plan.desired);
    assert_eq!(plan.persist, Some(true));
    let plan = sync_plist_with_config(Some(false), true);
    assert!(!plan.desired);
    assert_eq!(plan.persist, None);
}

#[test]
fn installed_bundles_are_those_under_an_applications_folder() {
    assert!(is_installed_app_bundle(APP_EXE));
    assert!(!is_installed_app_bundle("/tmp/Cliip Show.app/Contents/MacOS/cliip-show"));
    assert!(!is_installed_app_bundle("/usr/local/bin/cliip-show"));
}

#[test]
fn home_dir_is_trimmed_and_blank_means_none() {
    assert_eq!(
        cliip_show::login_item::home_dir(Some("  /Users/example ")),
        Some("/Users/example".to_string())
    );
    assert_eq!(cliip_show::login_item::home_dir(Some("   ")), None);
    assert_eq!(cliip_show::login_item::home_dir(None), None);
}

#[test]
fn agent_log_goes_under_library_logs() {
    assert_eq!(
        cliip_show::login_item::log_path(Some("/Users/example")),
        Some("/Users/example/Library/Logs/cliip-show.log".to_string())
    );
    assert_eq!(cliip_show::login_item::log_path(Some("")), None);
}
