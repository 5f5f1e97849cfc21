use cliip_show::text::{split_non_trailing_lines, truncate_text};

#[test]
fn truncates_single_long_line() {
    let input = "abcdefghijklmnopqrstuvwxyz";
    assert_eq!(truncate_text(input, 10, 5), "abcdefg...");
}

#[test]
fn truncates_lines_count_and_adds_ellipsis_to_last_line() {
    let input = "line1\nline2\nline3\nline4\nline5\nline6";
    assert_eq!(
        truncate_text(input, 100, 5),
        "line1\nline2\nline3\nline4\nline5..."
    );
}

#[test]
fn handles_utf8_by_char_count() {
    let input = "あいうえおかきくけこ";
    assert_eq!(truncate_text(input, 6, 5), "あいう...");
}

#[test]
fn handles_grapheme_clusters() {
    // The family emoji is seven chars but one grapheme cluster.
    let family = "👨\u{200D}👩\u{200D}👧\u{200D}👦";
    assert_eq!(truncate_text(family, 1, 5), family.to_string());

    // Five families at width 3 leave no cluster before the ellipsis.
    let five_families = format!("{family}{family}{family}{family}{family}");
    let result = truncate_text(&five_families, 3, 5);
    assert_eq!(result, "...");

    // At width 4 one cluster is kept.
    let result = truncate_text(&five_families, 4, 5);
    assert_eq!(result, format!("{family}..."));
}

#[test]
fn handles_flag_emoji_graphemes() {
    // A flag is two chars but one grapheme cluster.
    let flags = "🇯🇵🇺🇸🇬🇧🇫🇷🇩🇪";
    let result = truncate_text(flags, 4, 5);
    assert_eq!(result, "🇯🇵...");
}

#[test]
fn short_text_is_left_alone() {
    assert_eq!(truncate_text("hello", 10, 5), "hello");
    assert_eq!(truncate_text("", 10, 5), "");
}

#[test]
fn trailing_blank_lines_are_dropped_and_carriage_returns_removed() {
    assert_eq!(
        split_non_trailing_lines("a\r\nb\n\n  \n"),
        vec!["a".to_string(), "b".to_string()]
    );
    assert_eq!(truncate_text("a\r\nb\n\n", 10, 5), "a\nb");
}

#[test]
fn at_most_max_lines_lines_are_kept() {
    let out = truncate_text("1\n2\n3\n4", 10, 2);
    assert_eq!(out, "1\n2...");
    assert!(out.lines().count() <= 2);
}

fn owned_clusters(clusters: &[&str]) -> Vec<String> {
    clusters.iter().map(|c| c.to_string()).collect()
}

#[test]
fn clusters_are_truncated_whole() {
    let dots = owned_clusters(&[".", ".", "."]);
    let line = owned_clusters(&["a", "🇯🇵", "b", "👨‍👩‍👧", "c", "d"]);
    assert_eq!(cliip_show::text::truncate_clusters(&line, &dots, 6), "a🇯🇵b👨‍👩‍👧cd");
    assert_eq!(cliip_show::text::truncate_clusters(&line, &dots, 5), "a🇯🇵...");
    assert_eq!(cliip_show::text::truncate_clusters(&line, &dots, 2), "..");
}

#[test]
fn ellipsis_is_added_within_the_width() {
    let dots = owned_clusters(&[".", ".", "."]);
    let line = owned_clusters(&["a", "🇯🇵", "b"]);
    assert_eq!(cliip_show::text::ellipsis_clusters(&line, &dots, 6), "a🇯🇵b...");
    assert_eq!(cliip_show::text::ellipsis_clusters(&line, &dots, 5), "a🇯🇵...");
    assert_eq!(cliip_show::text::ellipsis_clusters(&line, &dots, 1), ".");
    assert_eq!(cliip_show::text::ellipsis_clusters(&line, &dots, 0), "");
}
