//! Truncation of clipboard text for the HUD, counted in extended grapheme
//! clusters so that combined emoji and flags are never split.

use vstd::prelude::*;
use vstd::string::*;

use crate::chars::{
    lemma_trim_blank, trim,
    chars_of, copy_range, is_blank, lemma_split_on_len, split_chars, split_on, owned, push_char, push_str, string_views, strings_of, vec_views,
    all_whitespace,
};
use crate::graphemes::{extended_grapheme_clusters, graphemes};

verus! {

broadcast use vstd::seq_lib::group_seq_properties, Seq::lemma_flatten_push;

/// Number of extended grapheme clusters in `s`.
pub open spec fn grapheme_count(s: Seq<char>) -> nat {
    extended_grapheme_clusters(s).len()
}

/// The first `n` grapheme clusters of `clusters` (all of them if there are
/// fewer), concatenated.
pub open spec fn first_clusters(clusters: Seq<Seq<char>>, n: nat) -> Seq<char> {
    if n <= clusters.len() {
        clusters.take(n as int).flatten()
    } else {
        clusters.flatten()
    }
}

/// The first `n` grapheme clusters of `s`, concatenated.
pub open spec fn grapheme_prefix(s: Seq<char>, n: nat) -> Seq<char> {
    first_clusters(extended_grapheme_clusters(s), n)
}

/// A line shortened to at most `max_width` grapheme clusters: long lines keep
/// `max_width - 3` clusters and end in `...`; a width of 3 or less leaves only
/// (part of) the dots.
pub open spec fn truncated_line(line: Seq<char>, max_width: nat) -> Seq<char> {
    if grapheme_count(line) <= max_width {
        line
    } else if max_width <= 3 {
        grapheme_prefix("..."@, max_width)
    } else {
        grapheme_prefix(line, (max_width - 3) as nat) + "..."@
    }
}

/// The last kept line when lines were dropped: it gains `...`, shortened so the
/// result stays within `max_width` grapheme clusters.
pub open spec fn line_with_ellipsis(line: Seq<char>, max_width: nat) -> Seq<char> {
    if max_width == 0 {
        Seq::empty()
    } else if max_width <= 3 {
        grapheme_prefix("..."@, max_width)
    } else if grapheme_count(line) + 3 <= max_width {
        line + "..."@
    } else {
        grapheme_prefix(line, (max_width - 3) as nat) + "..."@
    }
}

/// `str::split_terminator('\n')`: the pieces between newlines, without a
/// trailing empty piece.
pub open spec fn newline_terminated_pieces(s: Seq<char>) -> Seq<Seq<char>> {
    let pieces = split_on(s, '\n');
    if pieces.last().len() == 0 {
        pieces.drop_last()
    } else {
        pieces
    }
}

/// `str::trim_end_matches('\r')`.
pub open spec fn strip_trailing_cr(s: Seq<char>) -> Seq<char>
    decreases s.len(),
{
    if s.len() > 0 && s.last() == '\r' {
        strip_trailing_cr(s.drop_last())
    } else {
        s
    }
}

/// Each line with its trailing carriage returns removed.
pub open spec fn strip_crs(lines: Seq<Seq<char>>) -> Seq<Seq<char>> {
    lines.map_values(|l: Seq<char>| strip_trailing_cr(l))
}

/// Each line shortened to `max_width` grapheme clusters.
pub open spec fn truncated_lines(lines: Seq<Seq<char>>, max_width: nat) -> Seq<Seq<char>> {
    lines.map_values(|l: Seq<char>| truncated_line(l, max_width))
}

/// `lines` without its trailing blank lines.
pub open spec fn drop_blank_tail(lines: Seq<Seq<char>>) -> Seq<Seq<char>>
    decreases lines.len(),
{
    if lines.len() > 0 && is_blank(lines.last()) {
        drop_blank_tail(lines.drop_last())
    } else {
        lines
    }
}

/// The lines of `text`: split at newlines, trailing carriage returns removed,
/// trailing blank lines dropped; a text with no non-blank line yields one
/// empty line.
pub open spec fn non_trailing_lines(text: Seq<char>) -> Seq<Seq<char>> {
    let lines = drop_blank_tail(strip_crs(newline_terminated_pieces(text)));
    if lines.len() == 0 {
        seq![Seq::empty()]
    } else {
        lines
    }
}

/// The lines joined with `\n` between them.
pub open spec fn join_lines(lines: Seq<Seq<char>>) -> Seq<char>
    decreases lines.len(),
{
    if lines.len() == 0 {
        Seq::empty()
    } else if lines.len() == 1 {
        lines[0]
    } else {
        join_lines(lines.drop_last()).push('\n') + lines.last()
    }
}

/// The lines kept when at most `max_lines` may show: extra lines are dropped
/// and the last kept line gains an ellipsis.
pub open spec fn kept_lines(lines: Seq<Seq<char>>, max_width: nat, max_lines: nat) -> Seq<
    Seq<char>,
> {
    if lines.len() > max_lines {
        let kept = lines.take(max_lines as int);
        if max_lines > 0 {
            kept.update(max_lines - 1, line_with_ellipsis(kept[max_lines - 1], max_width))
        } else {
            kept
        }
    } else {
        lines
    }
}

/// At most `max_lines` lines are shown; when nothing has to go, every line
/// is shown as it was shortened, and when lines go, the shown ones are the
/// first lines, with only the last of them changed.
pub proof fn lemma_kept_lines_bound(lines: Seq<Seq<char>>, max_width: nat, max_lines: nat)
    ensures
        kept_lines(lines, max_width, max_lines).len() <= max_lines,
        lines.len() <= max_lines ==> kept_lines(lines, max_width, max_lines) == lines,
        lines.len() > max_lines ==> forall|i: int|
            0 <= i < max_lines - 1 ==> #[trigger] kept_lines(lines, max_width, max_lines)[i]
                == lines[i],
{
}

/// What the HUD shows for `text`.
pub open spec fn truncated_text(text: Seq<char>, max_width: nat, max_lines: nat) -> Seq<char> {
    join_lines(
        kept_lines(
            truncated_lines(non_trailing_lines(text), max_width),
            max_width,
            max_lines,
        ),
    )
}

/// The first `n` clusters of `clusters`, concatenated into a `String`.
fn concat_first(clusters: &Vec<String>, n: usize) -> (out: String)
    ensures
        out@ == first_clusters(string_views(clusters@), n as nat),
{
    let ghost views = string_views(clusters@);
    let count = if n < clusters.len() {
        n
    } else {
        clusters.len()
    };
    let mut out = String::new();
    let mut i: usize = 0;
    while i < count
        invariant
            count <= clusters@.len(),
            i <= count,
            views == string_views(clusters@),
            out@ == views.take(i as int).flatten(),
        decreases count - i,
    {
        push_str(&mut out, clusters[i].as_str());
        proof {
            assert(views.take(i + 1) == views.take(i as int).push(views[i as int]));
        }
        i += 1;
    }
    proof {
        if n as nat > clusters@.len() {
            assert(views.take(count as int) == views);
        }
    }
    out
}

/// A line given as its grapheme clusters, shortened to at most `max_width`
/// of them; `dots` are the clusters of `...`.
pub open spec fn clusters_truncated(clusters: Seq<Seq<char>>, dots: Seq<Seq<char>>, max_width: nat) -> Seq<
    char,
> {
    if clusters.len() <= max_width {
        clusters.flatten()
    } else if max_width <= 3 {
        first_clusters(dots, max_width)
    } else {
        first_clusters(clusters, (max_width - 3) as nat) + "..."@
    }
}

/// The last kept line, given as its grapheme clusters, with `...` added
/// within `max_width` clusters; `dots` are the clusters of `...`.
pub open spec fn clusters_with_ellipsis(
    clusters: Seq<Seq<char>>,
    dots: Seq<Seq<char>>,
    max_width: nat,
) -> Seq<char> {
    if max_width == 0 {
        Seq::empty()
    } else if max_width <= 3 {
        first_clusters(dots, max_width)
    } else if clusters.len() + 3 <= max_width {
        clusters.flatten() + "..."@
    } else {
        first_clusters(clusters, (max_width - 3) as nat) + "..."@
    }
}

/// The line made of `clusters`, shortened to at most `max_width` of them
/// (see `clusters_truncated`).
pub fn truncate_clusters(clusters: &Vec<String>, dots: &Vec<String>, max_width: usize) -> (out:
    String)
    ensures
        out@ == clusters_truncated(string_views(clusters@), string_views(dots@), max_width as nat),
{
    if clusters.len() <= max_width {
        return concat_first(clusters, clusters.len());
    }
    if max_width <= 3 {
        return concat_first(dots, max_width);
    }
    let mut kept = concat_first(clusters, max_width - 3);
    push_str(&mut kept, "...");
    kept
}

/// The line made of `clusters` with `...` added within `max_width` clusters
/// (see `clusters_with_ellipsis`).
pub fn ellipsis_clusters(clusters: &Vec<String>, dots: &Vec<String>, max_width: usize) -> (out:
    String)
    ensures
        out@ == clusters_with_ellipsis(string_views(clusters@), string_views(dots@), max_width as nat),
{
    if max_width == 0 {
        return String::new();
    }
    if max_width <= 3 {
        return concat_first(dots, max_width);
    }
    if clusters.len() <= max_width - 3 {
        let mut out = concat_first(clusters, clusters.len());
        push_str(&mut out, "...");
        return out;
    }
    let mut kept = concat_first(clusters, max_width - 3);
    push_str(&mut kept, "...");
    kept
}

/// A line shortened to at most `max_width` grapheme clusters.
fn truncate_line(line: &str, max_width: usize) -> (out: String)
    ensures
        out@ == truncated_line(line@, max_width as nat),
{
    let clusters = graphemes(line);
    let dots = graphemes("...");
    truncate_clusters(&clusters, &dots, max_width)
}

/// The last kept line with an ellipsis added, within `max_width` clusters.
fn append_ellipsis(line: &str, max_width: usize) -> (out: String)
    ensures
        out@ == line_with_ellipsis(line@, max_width as nat),
{
    let clusters = graphemes(line);
    let dots = graphemes("...");
    ellipsis_clusters(&clusters, &dots, max_width)
}

/// `text` split at `\n`, without a trailing empty piece.
fn newline_pieces(cs: &[char]) -> (pieces: Vec<Vec<char>>)
    ensures
        vec_views(pieces@) == newline_terminated_pieces(cs@),
{
    let mut pieces = split_chars(cs, '\n');
    proof {
        lemma_split_on_len(cs@, '\n');
    }
    let last: usize = pieces.len() - 1;
    if pieces[last].len() == 0 {
        let ghost before = vec_views(pieces@);
        pieces.pop();
        assert(vec_views(pieces@) == before.drop_last());
    }
    pieces
}

/// `str::trim_end_matches('\r')` on characters.
fn strip_cr(cs: &[char]) -> (out: Vec<char>)
    ensures
        out@ == strip_trailing_cr(cs@),
{
    let mut j: usize = cs.len();
    assert(cs@.take(j as int) == cs@);
    while j > 0 && cs[j - 1] == '\r'
        invariant
            j <= cs@.len(),
            strip_trailing_cr(cs@) == strip_trailing_cr(cs@.take(j as int)),
        decreases j,
    {
        assert(cs@.take(j as int).drop_last() == cs@.take(j - 1));
        j -= 1;
    }
    let out = copy_range(cs, 0, j);
    assert(out@ == cs@.take(j as int));
    out
}

/// The lines of `text` with trailing carriage returns and trailing blank
/// lines removed; at least one line.
pub fn split_non_trailing_lines(text: &str) -> (lines: Vec<String>)
    ensures
        string_views(lines@) == non_trailing_lines(text@),
{
    let cs = chars_of(text);
    let pieces = newline_pieces(cs.as_slice());
    let ghost pv = vec_views(pieces@);
    let mut stripped: Vec<Vec<char>> = Vec::new();
    let mut i: usize = 0;
    while i < pieces.len()
        invariant
            i <= pieces@.len(),
            pv == vec_views(pieces@),
            vec_views(stripped@) == strip_crs(pv.take(i as int)),
        decreases pieces@.len() - i,
    {
        let s = strip_cr(pieces[i].as_slice());
        let ghost before = vec_views(stripped@);
        let ghost sv = s@;
        stripped.push(s);
        assert(vec_views(stripped@) =~= before.push(sv));
        assert(pv.take(i + 1) == pv.take(i as int).push(pv[i as int]));
        assert(strip_crs(pv.take(i + 1)) =~= strip_crs(pv.take(i as int)).push(sv));
        i += 1;
    }
    assert(pv.take(pieces@.len() as int) == pv);
    let ghost all = vec_views(stripped@);
    while stripped.len() > 0 && all_whitespace(stripped[stripped.len() - 1].as_slice())
        invariant
            drop_blank_tail(all) == drop_blank_tail(vec_views(stripped@)),
        decreases stripped@.len(),
    {
        let ghost before = vec_views(stripped@);
        stripped.pop();
        assert(vec_views(stripped@) == before.drop_last());
    }
    if stripped.len() == 0 {
        stripped.push(Vec::new());
    }
    strings_of(&stripped)
}

/// Appends `\n`-joined `lines` into a `String`.
fn join_with_newlines(lines: &Vec<String>) -> (out: String)
    ensures
        out@ == join_lines(string_views(lines@)),
{
    let ghost views = string_views(lines@);
    let mut out = String::new();
    let mut i: usize = 0;
    while i < lines.len()
        invariant
            i <= lines@.len(),
            views == string_views(lines@),
            out@ == join_lines(views.take(i as int)),
        decreases lines@.len() - i,
    {
        if i > 0 {
            push_char(&mut out, '\n');
        }
        push_str(&mut out, lines[i].as_str());
        proof {
            assert(views.take(i + 1).drop_last() == views.take(i as int));
            if i == 0 {
                assert(views.take(1)[0] == views[0]);
            }
        }
        i += 1;
    }
    assert(views.take(lines@.len() as int) == views);
    out
}

/// Truncates clipboard text for the HUD: every line is cut to `max_width`
/// grapheme clusters, at most `max_lines` lines are kept, and the last kept
/// line gains `...` when lines were dropped.
pub fn truncate_text(text: &str, max_width: usize, max_lines: usize) -> (out: String)
    ensures
        out@ == truncated_text(text@, max_width as nat, max_lines as nat),
{
    let lines = split_non_trailing_lines(text);
    let ghost source = string_views(lines@);
    let mut shortened: Vec<String> = Vec::new();
    let mut i: usize = 0;
    while i < lines.len()
        invariant
            i <= lines@.len(),
            source == string_views(lines@),
            string_views(shortened@) == truncated_lines(source.take(i as int), max_width as nat),
        decreases lines@.len() - i,
    {
        let line = truncate_line(lines[i].as_str(), max_width);
        let ghost before = string_views(shortened@);
        let ghost lv = line@;
        shortened.push(line);
        assert(string_views(shortened@) =~= before.push(lv));
        assert(source.take(i + 1) == source.take(i as int).push(source[i as int]));
        assert(truncated_lines(source.take(i + 1), max_width as nat) =~= truncated_lines(
            source.take(i as int),
            max_width as nat,
        ).push(lv));
        i += 1;
    }
    assert(source.take(lines@.len() as int) == source);
    let ghost all = string_views(shortened@);
    if shortened.len() > max_lines {
        shortened.truncate(max_lines);
        assert(string_views(shortened@) == all.take(max_lines as int));
        if max_lines > 0 {
            let last = append_ellipsis(shortened[max_lines - 1].as_str(), max_width);
            shortened.set(max_lines - 1, last);
            assert(string_views(shortened@) == all.take(max_lines as int).update(
                max_lines - 1,
                line_with_ellipsis(all.take(max_lines as int)[max_lines - 1], max_width as nat),
            ));
        }
    }
    join_with_newlines(&shortened)
}

/// Only blank lines are dropped from the end: what stays is a prefix of the
/// lines, every line dropped holds nothing but whitespace, and the last line
/// kept, if any, holds something else.
pub proof fn lemma_only_blank_lines_dropped(lines: Seq<Seq<char>>)
    ensures
        drop_blank_tail(lines).len() <= lines.len(),
        drop_blank_tail(lines) == lines.take(drop_blank_tail(lines).len() as int),
        forall|i: int|
            drop_blank_tail(lines).len() <= i < lines.len() ==> trim(#[trigger] lines[i]).len() == 0,
        drop_blank_tail(lines).len() > 0 ==> trim(drop_blank_tail(lines).last()).len() > 0,
    decreases lines.len(),
{
    if lines.len() > 0 {
        lemma_trim_blank(lines.last());
        if is_blank(lines.last()) {
            let rest = lines.drop_last();
            lemma_only_blank_lines_dropped(rest);
            let r = drop_blank_tail(rest);
            assert(drop_blank_tail(lines) == r);
            assert(rest.take(r.len() as int) =~= lines.take(r.len() as int));
            assert forall|i: int| r.len() <= i < lines.len() implies trim(#[trigger] lines[i]).len()
                == 0 by {
                if i < lines.len() - 1 {
                    assert(lines[i] == rest[i]);
                }
            }
        } else {
            assert(lines.take(lines.len() as int) =~= lines);
        }
    } else {
        assert(lines.take(0) =~= lines);
    }
}

/// The last line of a text is kept whenever it holds anything but
/// whitespace (carriage returns at its end aside): the lines of such a text
/// are all its newline-separated pieces.
pub proof fn lemma_last_line_with_text_kept(text: Seq<char>)
    ensures
        strip_crs(newline_terminated_pieces(text)).len() > 0 && trim(
            strip_crs(newline_terminated_pieces(text)).last(),
        ).len() > 0 ==> non_trailing_lines(text) == strip_crs(newline_terminated_pieces(text)),
{
    let p = strip_crs(newline_terminated_pieces(text));
    if p.len() > 0 && trim(p.last()).len() > 0 {
        lemma_trim_blank(p.last());
        assert(drop_blank_tail(p) == p);
    }
}

} // verus!
