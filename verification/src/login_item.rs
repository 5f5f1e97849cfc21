//! Start-at-login: the LaunchAgent plist this app writes and reads back, the
//! paths involved, and the decisions about when to write, repair or remove it.

use vstd::prelude::*;

use crate::chars::{
    chars_eq, chars_eq_str, chars_of, copy_range, find_chars, find_from, lemma_find_from_bounds,
    occurs_at, occurs_at_exec, push_chars, push_str, string_of, string_views, trim, trim_chars,
    trim_end, trim_start, is_white_space,
    vec_views,
};
use crate::config::StartupConfigFile;
use crate::path::{
    components, extension, is_normal_component, join_path, joined_path, last_dot, parent,
    parent_path, path_components, render, render_components, same_path, lemma_beside,
};

verus! {

broadcast use vstd::seq_lib::group_seq_properties;

/// The launchd label of the agent, also the plist's file name.
pub const LOGIN_ITEM_LABEL: &'static str = "io.github.somei-san.cliip-show";

/// The argument launchd passes when it starts the app at login.
pub const LOGIN_FLAG: &'static str = "--login";

/// The agent Homebrew's `service` block used to install; only ever looked for.
pub const HOMEBREW_LOGIN_ITEM_LABEL: &'static str = "homebrew.mxcl.cliip-show";

/// The XML entity for each character that `escape_xml` replaces.
pub open spec fn escaped_char(c: char) -> Seq<char> {
    if c == '&' {
        seq!['&', 'a', 'm', 'p', ';']
    } else if c == '<' {
        seq!['&', 'l', 't', ';']
    } else if c == '>' {
        seq!['&', 'g', 't', ';']
    } else if c == '"' {
        seq!['&', 'q', 'u', 'o', 't', ';']
    } else if c == '\'' {
        seq!['&', 'a', 'p', 'o', 's', ';']
    } else {
        seq![c]
    }
}

/// `s` with `& < > " '` written as XML entities.
pub open spec fn escaped(s: Seq<char>) -> Seq<char>
    decreases s.len(),
{
    if s.len() == 0 {
        Seq::empty()
    } else {
        escaped_char(s[0]) + escaped(s.drop_first())
    }
}

pub open spec fn starts_with(s: Seq<char>, pat: Seq<char>) -> bool {
    pat.len() <= s.len() && s.take(pat.len() as int) == pat
}

/// The character and length of the XML entity `s` starts with, if any.
pub open spec fn leading_entity(s: Seq<char>) -> Option<(char, int)> {
    if starts_with(s, seq!['&', 'l', 't', ';']) {
        Some(('<', 4))
    } else if starts_with(s, seq!['&', 'g', 't', ';']) {
        Some(('>', 4))
    } else if starts_with(s, seq!['&', 'q', 'u', 'o', 't', ';']) {
        Some(('"', 6))
    } else if starts_with(s, seq!['&', 'a', 'p', 'o', 's', ';']) {
        Some(('\'', 6))
    } else if starts_with(s, seq!['&', 'a', 'm', 'p', ';']) {
        Some(('&', 5))
    } else {
        None
    }
}

/// `s` with the five XML entities decoded, left to right, so that `&amp;lt;`
/// becomes `&lt;`.
pub open spec fn unescaped(s: Seq<char>) -> Seq<char>
    decreases s.len(),
{
    if s.len() == 0 {
        Seq::empty()
    } else {
        match leading_entity(s) {
            Some((c, n)) => seq![c] + unescaped(s.skip(n)),
            None => seq![s[0]] + unescaped(s.skip(1)),
        }
    }
}

/// Writes `& < > " '` as XML entities.
pub fn escape_xml(value: &str) -> (out: String)
    ensures
        out@ == escaped(value@),
{
    let cs = chars_of(value);
    let mut out: Vec<char> = Vec::new();
    let mut k: usize = 0;
    while k < cs.len()
        invariant
            k <= cs@.len(),
            escaped(cs@) == out@ + escaped(cs@.skip(k as int)),
        decreases cs@.len() - k,
    {
        let c = cs[k];
        assert(cs@.skip(k as int).drop_first() == cs@.skip(k + 1));
        if c == '&' {
            push_chars(&mut out, &['&', 'a', 'm', 'p', ';']);
        } else if c == '<' {
            push_chars(&mut out, &['&', 'l', 't', ';']);
        } else if c == '>' {
            push_chars(&mut out, &['&', 'g', 't', ';']);
        } else if c == '"' {
            push_chars(&mut out, &['&', 'q', 'u', 'o', 't', ';']);
        } else if c == '\'' {
            push_chars(&mut out, &['&', 'a', 'p', 'o', 's', ';']);
        } else {
            out.push(c);
        }
        k += 1;
    }
    assert(cs@.skip(cs@.len() as int) == Seq::<char>::empty());
    string_of(out.as_slice())
}

fn starts_with_at(cs: &[char], i: usize, pat: &[char]) -> (b: bool)
    requires
        i <= cs@.len(),
    ensures
        b == starts_with(cs@.skip(i as int), pat@),
{
    if pat.len() > cs.len() - i {
        return false;
    }
    let r = occurs_at_exec(cs, pat, i);
    assert(cs@.skip(i as int).take(pat@.len() as int) == cs@.subrange(i as int, i + pat@.len()));
    r
}

/// Decodes the XML entities `escape_xml` writes.
pub fn unescape_xml(value: &str) -> (out: String)
    ensures
        out@ == unescaped(value@),
{
    let cs = chars_of(value);
    let out = unescape_chars(cs.as_slice());
    string_of(out.as_slice())
}

#[verifier::rlimit(30)]
fn unescape_chars(cs: &[char]) -> (out: Vec<char>)
    ensures
        out@ == unescaped(cs@),
{
    let mut out: Vec<char> = Vec::new();
    let mut i: usize = 0;
    assert(cs@.skip(0) == cs@);
    while i < cs.len()
        invariant
            i <= cs@.len(),
            unescaped(cs@) == out@ + unescaped(cs@.skip(i as int)),
        decreases cs@.len() - i,
    {
        let ghost rest = cs@.skip(i as int);
        let (c, n): (char, usize) = if starts_with_at(cs, i, &['&', 'l', 't', ';']) {
            ('<', 4)
        } else if starts_with_at(cs, i, &['&', 'g', 't', ';']) {
            ('>', 4)
        } else if starts_with_at(cs, i, &['&', 'q', 'u', 'o', 't', ';']) {
            ('"', 6)
        } else if starts_with_at(cs, i, &['&', 'a', 'p', 'o', 's', ';']) {
            ('\'', 6)
        } else if starts_with_at(cs, i, &['&', 'a', 'm', 'p', ';']) {
            ('&', 5)
        } else {
            (cs[i], 1)
        };
        assert(n as int <= rest.len());
        assert(rest.skip(n as int) == cs@.skip(i + n));
        out.push(c);
        i += n;
    }
    assert(cs@.skip(cs@.len() as int) == Seq::<char>::empty());
    out
}

/// Decoding what was encoded gives the original text back.
pub proof fn lemma_unescape_escape(s: Seq<char>)
    ensures
        unescaped(escaped(s)) == s,
    decreases s.len(),
{
    if s.len() > 0 {
        lemma_unescape_escape(s.drop_first());
        let e = escaped(s);
        let rest = escaped(s.drop_first());
        let ec = escaped_char(s[0]);
        assert(e == ec + rest);
        assert(e.skip(ec.len() as int) == rest);
        assert(e.take(ec.len() as int) == ec);
        if s[0] == '&' {
            assert(!starts_with(e, seq!['&', 'l', 't', ';'])) by {
                assert(e[1] == 'a');
            }
            assert(!starts_with(e, seq!['&', 'g', 't', ';'])) by {
                assert(e[1] == 'a');
            }
            assert(!starts_with(e, seq!['&', 'q', 'u', 'o', 't', ';'])) by {
                assert(e[1] == 'a');
            }
            assert(!starts_with(e, seq!['&', 'a', 'p', 'o', 's', ';'])) by {
                assert(e[2] == 'm');
            }
            assert(starts_with(e, seq!['&', 'a', 'm', 'p', ';']));
        } else if s[0] == '<' {
            assert(starts_with(e, seq!['&', 'l', 't', ';']));
        } else if s[0] == '>' {
            assert(!starts_with(e, seq!['&', 'l', 't', ';'])) by {
                assert(e[1] == 'g');
            }
            assert(starts_with(e, seq!['&', 'g', 't', ';']));
        } else if s[0] == '"' {
            assert(!starts_with(e, seq!['&', 'l', 't', ';'])) by {
                assert(e[1] == 'q');
            }
            assert(!starts_with(e, seq!['&', 'g', 't', ';'])) by {
                assert(e[1] == 'q');
            }
            assert(starts_with(e, seq!['&', 'q', 'u', 'o', 't', ';']));
        } else if s[0] == '\'' {
            assert(!starts_with(e, seq!['&', 'l', 't', ';'])) by {
                assert(e[1] == 'a');
            }
            assert(!starts_with(e, seq!['&', 'g', 't', ';'])) by {
                assert(e[1] == 'a');
            }
            assert(!starts_with(e, seq!['&', 'q', 'u', 'o', 't', ';'])) by {
                assert(e[1] == 'a');
            }
            assert(starts_with(e, seq!['&', 'a', 'p', 'o', 's', ';']));
        } else {
            assert(e[0] == s[0]);
            assert(leading_entity(e) is None) by {
                assert(e[0] != '&');
                if starts_with(e, seq!['&', 'l', 't', ';']) {
                    assert(e.take(4)[0] == '&');
                }
                if starts_with(e, seq!['&', 'g', 't', ';']) {
                    assert(e.take(4)[0] == '&');
                }
                if starts_with(e, seq!['&', 'q', 'u', 'o', 't', ';']) {
                    assert(e.take(6)[0] == '&');
                }
                if starts_with(e, seq!['&', 'a', 'p', 'o', 's', ';']) {
                    assert(e.take(6)[0] == '&');
                }
                if starts_with(e, seq!['&', 'a', 'm', 'p', ';']) {
                    assert(e.take(5)[0] == '&');
                }
            }
        }
        assert(unescaped(e) == seq![s[0]] + unescaped(rest));
        assert(seq![s[0]] + s.drop_first() == s);
    }
}

/// The LaunchAgent plist for `executable`, logging to `log_path`. The agent
/// runs at load and is restarted only after a crash
/// (`KeepAlive.SuccessfulExit = false`), so quitting from the menu sticks.
pub open spec fn plist_document(executable: Seq<char>, log_path: Seq<char>) -> Seq<char> {
    plist_head()@ + LOGIN_ITEM_LABEL@ + plist_program_open()@ + escaped(executable)
        + plist_flag_open()@ + LOGIN_FLAG@ + plist_tail_open()@ + escaped(log_path)
        + plist_error_open()@ + escaped(log_path) + plist_end()@
}

pub open spec fn plist_head() -> &'static str {
    "<?xml version=\"1.0\" encoding=\"UTF-8\"?>\n<!DOCTYPE plist PUBLIC \"-//Apple//DTD PLIST 1.0//EN\" \"http://www.apple.com/DTDs/PropertyList-1.0.dtd\">\n<plist version=\"1.0\">\n<dict>\n\t<key>Label</key>\n\t<string>"
}

pub open spec fn plist_program_open() -> &'static str {
    "</string>\n\t<key>ProgramArguments</key>\n\t<array>\n\t\t<string>"
}

pub open spec fn plist_flag_open() -> &'static str {
    "</string>\n\t\t<string>"
}

pub open spec fn plist_tail_open() -> &'static str {
    "</string>\n\t</array>\n\t<key>RunAtLoad</key>\n\t<true/>\n\t<key>KeepAlive</key>\n\t<dict>\n\t\t<key>SuccessfulExit</key>\n\t\t<false/>\n\t</dict>\n\t<key>StandardOutPath</key>\n\t<string>"
}

pub open spec fn plist_error_open() -> &'static str {
    "</string>\n\t<key>StandardErrorPath</key>\n\t<string>"
}

pub open spec fn plist_end() -> &'static str {
    "</string>\n</dict>\n</plist>\n"
}

/// Builds the LaunchAgent plist (see `plist_document`).
pub fn plist_xml(executable: &str, log_path: &str) -> (xml: String)
    ensures
        xml@ == plist_document(executable@, log_path@),
{
    let executable = escape_xml(executable);
    let log_path = escape_xml(log_path);
    let mut xml = String::new();
    push_str(&mut xml, "<?xml version=\"1.0\" encoding=\"UTF-8\"?>\n<!DOCTYPE plist PUBLIC \"-//Apple//DTD PLIST 1.0//EN\" \"http://www.apple.com/DTDs/PropertyList-1.0.dtd\">\n<plist version=\"1.0\">\n<dict>\n\t<key>Label</key>\n\t<string>");
    push_str(&mut xml, LOGIN_ITEM_LABEL);
    push_str(&mut xml, "</string>\n\t<key>ProgramArguments</key>\n\t<array>\n\t\t<string>");
    push_str(&mut xml, executable.as_str());
    push_str(&mut xml, "</string>\n\t\t<string>");
    push_str(&mut xml, LOGIN_FLAG);
    push_str(&mut xml, "</string>\n\t</array>\n\t<key>RunAtLoad</key>\n\t<true/>\n\t<key>KeepAlive</key>\n\t<dict>\n\t\t<key>SuccessfulExit</key>\n\t\t<false/>\n\t</dict>\n\t<key>StandardOutPath</key>\n\t<string>");
    push_str(&mut xml, log_path.as_str());
    push_str(&mut xml, "</string>\n\t<key>StandardErrorPath</key>\n\t<string>");
    push_str(&mut xml, log_path.as_str());
    push_str(&mut xml, "</string>\n</dict>\n</plist>\n");
    xml
}

pub open spec fn open_string_tag() -> Seq<char> {
    seq!['<', 's', 't', 'r', 'i', 'n', 'g', '>']
}

pub open spec fn close_string_tag() -> Seq<char> {
    seq!['<', '/', 's', 't', 'r', 'i', 'n', 'g', '>']
}

/// The decoded, trimmed values of the `<string>` elements in `rest`, in order;
/// `None` when an element is not closed.
pub open spec fn string_values(rest: Seq<char>) -> Option<Seq<Seq<char>>>
    decreases rest.len(),
{
    match find_from(rest, open_string_tag(), 0) {
        None => Some(Seq::empty()),
        Some(i) => {
            let after_open = rest.skip(i + 8);
            match find_from(after_open, close_string_tag(), 0) {
                None => None,
                Some(j) => {
                    proof {
                        lemma_find_from_bounds(rest, open_string_tag(), 0);
                        lemma_find_from_bounds(after_open, close_string_tag(), 0);
                    }
                    match string_values(after_open.skip(j + 9)) {
                        None => None,
                        Some(tail) => Some(seq![unescaped(trim(after_open.take(j)))] + tail),
                    }
                },
            }
        },
    }
}

/// What follows the first occurrence of `pat` in `s`.
pub open spec fn after_first(s: Seq<char>, pat: Seq<char>) -> Option<Seq<char>> {
    match find_from(s, pat, 0) {
        Some(i) => Some(s.skip(i + pat.len())),
        None => None,
    }
}

/// What precedes the first occurrence of `pat` in `s`.
pub open spec fn before_first(s: Seq<char>, pat: Seq<char>) -> Option<Seq<char>> {
    match find_from(s, pat, 0) {
        Some(i) => Some(s.take(i)),
        None => None,
    }
}

/// The `ProgramArguments` of a plist in the layout `plist_xml` writes: the
/// `<string>` values of the first `<array>` after the first
/// `<key>ProgramArguments</key>`. `None` when that layout is not found or
/// the array is empty (a plist without a program is not this app's).
pub open spec fn plist_program_arguments(xml: Seq<char>) -> Option<Seq<Seq<char>>> {
    match after_first(xml, "<key>ProgramArguments</key>"@) {
        None => None,
        Some(after_key) => match after_first(after_key, "<array>"@) {
            None => None,
            Some(array) => match before_first(array, "</array>"@) {
                None => None,
                Some(body) => match string_values(body) {
                    None => None,
                    Some(values) => if values.len() == 0 {
                        None
                    } else {
                        Some(values)
                    },
                },
            },
        },
    }
}

/// The text after the first `pat` in `s`.
fn after_first_exec(s: &[char], pat: &str) -> (r: Option<Vec<char>>)
    ensures
        match (r, after_first(s@, pat@)) {
            (Some(a), Some(b)) => a@ == b,
            (None, None) => true,
            _ => false,
        },
{
    let p = chars_of(pat);
    let n: usize = s.len();
    match find_chars(s, p.as_slice(), 0) {
        None => None,
        Some(i) => Some(copy_range(s, i + p.len(), s.len())),
    }
}

/// The `<string>` values in `body` (see `string_values`).
fn string_values_exec(body: &[char]) -> (r: Option<Vec<String>>)
    ensures
        match (r, string_values(body@)) {
            (Some(a), Some(b)) => string_views(a@) == b,
            (None, None) => true,
            _ => false,
        },
{
    let open: [char; 8] = ['<', 's', 't', 'r', 'i', 'n', 'g', '>'];
    let close: [char; 9] = ['<', '/', 's', 't', 'r', 'i', 'n', 'g', '>'];
    assert(open@ == open_string_tag());
    assert(close@ == close_string_tag());
    let mut values: Vec<String> = Vec::new();
    let mut rest = copy_range(body, 0, body.len());
    assert(body@.subrange(0, body@.len() as int) == body@);
    loop
        invariant
            open@ == open_string_tag(),
            close@ == close_string_tag(),
            string_values(body@) == match string_values(rest@) {
                None => None,
                Some(tail) => Some(string_views(values@) + tail),
            },
        decreases rest@.len(),
    {
        let n: usize = rest.len();
        match find_chars(rest.as_slice(), open.as_slice(), 0) {
            None => {
                assert(string_views(values@) + Seq::<Seq<char>>::empty() == string_views(
                    values@,
                ));
                return Some(values);
            },
            Some(i) => {
                proof {
                    lemma_find_from_bounds(rest@, open_string_tag(), 0);
                }
                let after_open = copy_range(rest.as_slice(), i + 8, rest.len());
                assert(after_open@ == rest@.skip(i + 8));
                match find_chars(after_open.as_slice(), close.as_slice(), 0) {
                    None => {
                        return None;
                    },
                    Some(j) => {
                        proof {
                            lemma_find_from_bounds(after_open@, close_string_tag(), 0);
                        }
                        let raw = copy_range(after_open.as_slice(), 0, j);
                        assert(raw@ == after_open@.take(j as int));
                        let trimmed = trim_chars(raw.as_slice());
                        let decoded = unescape_chars(trimmed.as_slice());
                        let value = string_of(decoded.as_slice());
                        let ghost before = string_views(values@);
                        values.push(value);
                        assert(string_views(values@) == before.push(value@));
                        let next = copy_range(after_open.as_slice(), j + 9, after_open.len());
                        assert(next@ == after_open@.skip(j + 9));
                        proof {
                            match string_values(next@) {
                                None => {},
                                Some(tail) => {
                                    assert(before.push(value@) + tail == before + (seq![value@]
                                        + tail));
                                },
                            }
                        }
                        rest = next;
                    },
                }
            },
        }
    }
}

/// The `ProgramArguments` of a plist this app wrote (see
/// `plist_program_arguments`).
pub fn program_arguments_in_plist(xml: &str) -> (r: Option<Vec<String>>)
    ensures
        match (r, plist_program_arguments(xml@)) {
            (Some(a), Some(b)) => string_views(a@) == b,
            (None, None) => true,
            _ => false,
        },
{
    let cs = chars_of(xml);
    let after_key = match after_first_exec(cs.as_slice(), "<key>ProgramArguments</key>") {
        Some(a) => a,
        None => {
            return None;
        },
    };
    let array = match after_first_exec(after_key.as_slice(), "<array>") {
        Some(a) => a,
        None => {
            return None;
        },
    };
    let close = chars_of("</array>");
    let body = match find_chars(array.as_slice(), close.as_slice(), 0) {
        Some(k) => copy_range(array.as_slice(), 0, k),
        None => {
            return None;
        },
    };
    match string_values_exec(body.as_slice()) {
        None => None,
        Some(values) => if values.len() == 0 {
            None
        } else {
            Some(values)
        },
    }
}

/// `HOME` as the app uses it: trimmed, and absent when blank.
pub open spec fn home_directory(home: Option<Seq<char>>) -> Option<Seq<char>> {
    match home {
        None => None,
        Some(h) => if trim(h).len() == 0 {
            None
        } else {
            Some(trim(h))
        },
    }
}

pub(crate) fn home_chars(home: Option<&str>) -> (r: Option<Vec<char>>)
    ensures
        match (r, home_directory(opt_str_view(home))) {
            (Some(a), Some(b)) => a@ == b,
            (None, None) => true,
            _ => false,
        },
{
    match home {
        None => None,
        Some(h) => {
            let t = trim_chars(chars_of(h).as_slice());
            if t.len() == 0 {
                None
            } else {
                Some(t)
            }
        },
    }
}

pub open spec fn opt_str_view(o: Option<&str>) -> Option<Seq<char>> {
    match o {
        Some(s) => Some(s@),
        None => None,
    }
}

/// `~/Library/LaunchAgents` for the given `HOME`.
pub open spec fn launch_agents_directory(home: Option<Seq<char>>) -> Option<Seq<char>> {
    match home_directory(home) {
        None => None,
        Some(h) => Some(joined_path(h, "Library/LaunchAgents"@)),
    }
}

/// The agent's plist path for the given `HOME`.
pub open spec fn agent_plist_path(home: Option<Seq<char>>, label: Seq<char>) -> Option<Seq<char>> {
    match launch_agents_directory(home) {
        None => None,
        Some(dir) => Some(joined_path(dir, label + ".plist"@)),
    }
}

/// The home directory, given `HOME` (see `home_directory`).
pub fn home_dir(home: Option<&str>) -> (r: Option<String>)
    ensures
        match (r, home_directory(opt_str_view(home))) {
            (Some(a), Some(b)) => a@ == b,
            (None, None) => true,
            _ => false,
        },
{
    match home_chars(home) {
        Some(h) => Some(string_of(h.as_slice())),
        None => None,
    }
}

/// Where the agent's output goes, under the home directory.
pub const LOG_RELATIVE_PATH: &'static str = "Library/Logs/cliip-show.log";

/// The agent's log file, given `HOME`.
pub open spec fn log_file_path(home: Option<Seq<char>>) -> Option<Seq<char>> {
    match home_directory(home) {
        None => None,
        Some(h) => Some(joined_path(h, LOG_RELATIVE_PATH@)),
    }
}

/// `~/Library/Logs/cliip-show.log`, given `HOME`.
pub fn log_path(home: Option<&str>) -> (r: Option<String>)
    ensures
        match (r, log_file_path(opt_str_view(home))) {
            (Some(a), Some(b)) => a@ == b,
            (None, None) => true,
            _ => false,
        },
{
    match home_chars(home) {
        Some(h) => {
            let p = join_path(h.as_slice(), chars_of(LOG_RELATIVE_PATH).as_slice());
            Some(string_of(p.as_slice()))
        },
        None => None,
    }
}

/// `~/Library/LaunchAgents`, given `HOME`.
pub fn launch_agents_dir(home: Option<&str>) -> (r: Option<String>)
    ensures
        match (r, launch_agents_directory(opt_str_view(home))) {
            (Some(a), Some(b)) => a@ == b,
            (None, None) => true,
            _ => false,
        },
{
    match home_chars(home) {
        Some(h) => {
            let dir = join_path(h.as_slice(), chars_of("Library/LaunchAgents").as_slice());
            Some(string_of(dir.as_slice()))
        },
        None => None,
    }
}

fn agent_path(home: Option<&str>, label: &str) -> (r: Option<String>)
    ensures
        match (r, agent_plist_path(opt_str_view(home), label@)) {
            (Some(a), Some(b)) => a@ == b,
            (None, None) => true,
            _ => false,
        },
{
    let dir = match launch_agents_dir(home) {
        Some(d) => chars_of(d.as_str()),
        None => {
            return None;
        },
    };
    let mut name = chars_of(label);
    push_chars(&mut name, chars_of(".plist").as_slice());
    let p = join_path(dir.as_slice(), name.as_slice());
    Some(string_of(p.as_slice()))
}

/// `~/Library/LaunchAgents/<LOGIN_ITEM_LABEL>.plist`, given `HOME`.
pub fn plist_path(home: Option<&str>) -> (r: Option<String>)
    ensures
        match (r, agent_plist_path(opt_str_view(home), LOGIN_ITEM_LABEL@)) {
            (Some(a), Some(b)) => a@ == b,
            (None, None) => true,
            _ => false,
        },
{
    agent_path(home, LOGIN_ITEM_LABEL)
}

/// The plist Homebrew's service block wrote, given `HOME`; only checked for.
pub fn homebrew_agent_path(home: Option<&str>) -> (r: Option<String>)
    ensures
        match (r, agent_plist_path(opt_str_view(home), HOMEBREW_LOGIN_ITEM_LABEL@)) {
            (Some(a), Some(b)) => a@ == b,
            (None, None) => true,
            _ => false,
        },
{
    agent_path(home, HOMEBREW_LOGIN_ITEM_LABEL)
}

/// Whether start at login is on: the plist exists, as `is_present` reports
/// for its path; off when `HOME` gives no path.
pub fn is_enabled<F: Fn(&str) -> bool>(home: Option<&str>, is_present: F) -> (b: bool)
    requires
        forall|q: &str| is_present.requires((q,)),
    ensures
        match agent_plist_path(opt_str_view(home), LOGIN_ITEM_LABEL@) {
            None => !b,
            Some(path) => exists|q: &str| q@ == path && is_present.ensures((q,), b),
        },
{
    match plist_path(home) {
        None => false,
        Some(path) => is_present(path.as_str()),
    }
}

/// Whether the app starts at login: the config file decides; when it does
/// not say, whether the plist exists.
pub fn resolved_start_at_login(startup: &StartupConfigFile, plist_exists: bool) -> (b: bool)
    ensures
        b == match startup.start_at_login {
            Some(v) => v,
            None => plist_exists,
        },
{
    match startup.start_at_login {
        Some(v) => v,
        None => plist_exists,
    }
}

/// What to write back to the config file when it does not say whether to
/// start at login: `true` only when the plist exists, so that users who do
/// not use the feature are not given a config file just for this.
pub fn start_at_login_to_persist(plist_exists: bool) -> (r: Option<bool>)
    ensures
        r == (if plist_exists {
            Some(true)
        } else {
            None
        }),
{
    if plist_exists {
        Some(true)
    } else {
        None
    }
}

/// The plan for bringing the plist in line with the config file.
#[derive(Debug, Clone, Copy, PartialEq, Eq, Structural)]
pub struct StartupSync {
    /// Whether the app should start at login.
    pub desired: bool,
    /// A value to save to the config file first, if any.
    pub persist: Option<bool>,
}

/// Decides how the plist follows the config file: a saved value wins; with
/// none saved, the plist's existence is the answer and `true` is written
/// back when the plist exists.
pub fn sync_plist_with_config(saved: Option<bool>, plist_exists: bool) -> (plan: StartupSync)
    ensures
        plan == match saved {
            Some(v) => StartupSync { desired: v, persist: None },
            None => StartupSync {
                desired: plist_exists,
                persist: if plist_exists {
                    Some(true)
                } else {
                    None
                },
            },
        },
{
    match saved {
        Some(v) => StartupSync { desired: v, persist: None },
        None => StartupSync { desired: plist_exists, persist: start_at_login_to_persist(plist_exists) },
    }
}

/// What to do with the plist.
#[derive(Debug, Clone, Copy, PartialEq, Eq, Structural)]
pub enum LoginItemAction {
    Enable,
    Repair,
    Disable,
    Nothing,
}

/// Chooses the action from the wish, the plist's existence and whether the
/// running executable is an installed `.app`: a new plist is written only
/// from an installed app, so a development build's path is never recorded.
pub fn login_item_action(desired_enabled: bool, plist_exists: bool, installed_app_bundle: bool) -> (a:
    LoginItemAction)
    ensures
        a == (if desired_enabled && !plist_exists {
            if installed_app_bundle {
                LoginItemAction::Enable
            } else {
                LoginItemAction::Nothing
            }
        } else if desired_enabled {
            LoginItemAction::Repair
        } else if plist_exists {
            LoginItemAction::Disable
        } else {
            LoginItemAction::Nothing
        }),
{
    match (desired_enabled, plist_exists) {
        (true, false) => if installed_app_bundle {
            LoginItemAction::Enable
        } else {
            LoginItemAction::Nothing
        },
        (true, true) => LoginItemAction::Repair,
        (false, true) => LoginItemAction::Disable,
        (false, false) => LoginItemAction::Nothing,
    }
}

/// The marker that records that the start-at-login question was answered,
/// next to the config file.
pub fn prompted_marker_path(config_path: &str) -> (r: Option<String>)
    ensures
        match (r, parent_path(config_path@)) {
            (Some(a), Some(dir)) => a@ == joined_path(dir, ".login-item-prompted"@),
            (None, None) => true,
            _ => false,
        },
{
    match parent(chars_of(config_path).as_slice()) {
        None => None,
        Some(dir) => {
            let p = join_path(dir.as_slice(), chars_of(".login-item-prompted").as_slice());
            Some(string_of(p.as_slice()))
        },
    }
}

/// The marker lies beside the config file, under `.login-item-prompted`.
pub proof fn lemma_marker_beside_config(config_path: Seq<char>)
    requires
        parent_path(config_path) is Some,
    ensures
        parent_path(joined_path(parent_path(config_path)->0, ".login-item-prompted"@))
            == parent_path(config_path),
        path_components(joined_path(parent_path(config_path)->0, ".login-item-prompted"@)).last()
            == ".login-item-prompted"@,
{
    reveal_strlit(".login-item-prompted");
    let n = ".login-item-prompted"@;
    assert(!n.contains('/')) by {
        if n.contains('/') {
            let i = choose|i: int| 0 <= i < n.len() && n[i] == '/';
        }
    }
    assert(n != seq!['.']) by {
        assert(n.len() != 1);
    }
    lemma_beside(config_path, n);
}

/// Whether the start-at-login question was already asked: the marker beside
/// the config file exists, as `is_present` reports for its path.
pub fn has_prompted<F: Fn(&str) -> bool>(config_path: &str, is_present: F) -> (b: bool)
    requires
        forall|q: &str| is_present.requires((q,)),
    ensures
        match parent_path(config_path@) {
            None => !b,
            Some(dir) => exists|q: &str|
                q@ == joined_path(dir, ".login-item-prompted"@) && is_present.ensures((q,), b),
        },
{
    match prompted_marker_path(config_path) {
        None => false,
        Some(path) => is_present(path.as_str()),
    }
}

/// Whether launchd started the app at login: some argument after the program
/// name is `LOGIN_FLAG`.
pub fn launched_with_login_flag(arguments: &[String]) -> (b: bool)
    ensures
        b == exists|i: int| 1 <= i < arguments@.len() && (#[trigger] arguments@[i])@ == LOGIN_FLAG@,
{
    let mut i: usize = 1;
    while i < arguments.len()
        invariant
            1 <= i,
            forall|k: int| 1 <= k < i && k < arguments@.len() ==> (#[trigger] arguments@[k])@
                != LOGIN_FLAG@,
        decreases arguments@.len() - i,
    {
        if chars_eq_str(chars_of(arguments[i].as_str()).as_slice(), LOGIN_FLAG) {
            return true;
        }
        i += 1;
    }
    false
}

/// A component that names an `.app` bundle.
pub open spec fn is_app_component(c: Seq<char>) -> bool {
    is_normal_component(c) && extension(c) == Some("app"@)
}

/// The index of the last component before `n` that names an `.app` bundle:
/// the nearest bundle among the path's ancestors.
pub open spec fn last_app_component(c: Seq<Seq<char>>, n: int) -> Option<int>
    decreases n,
{
    if n <= 0 || n > c.len() {
        None
    } else if is_app_component(c[n - 1]) {
        Some(n - 1)
    } else {
        last_app_component(c, n - 1)
    }
}

/// The executable lies inside an `.app` bundle whose parent directory is
/// named `Applications` (either `/Applications` or `~/Applications`), which
/// excludes bundles assembled under a build directory.
pub open spec fn inside_installed_app(exe: Seq<char>) -> bool {
    let c = path_components(exe);
    match last_app_component(c, c.len() as int) {
        None => false,
        Some(k) => k >= 1 && c[k - 1] == "Applications"@,
    }
}

fn is_app_component_exec(c: &[char]) -> (b: bool)
    ensures
        b == is_app_component(c@),
{
    let root = c.len() == 1 && c[0] == '/';
    let dot = c.len() == 1 && c[0] == '.';
    let dotdot = c.len() == 2 && c[0] == '.' && c[1] == '.';
    proof {
        if c@ == seq!['/'] || c@ == seq!['.'] {
            assert(c@[0] == c@[0]);
        }
        if c@ == seq!['.', '.'] {
            assert(c@[1] == '.');
        }
        if root {
            assert(c@ == seq!['/']);
        }
        if dot {
            assert(c@ == seq!['.']);
        }
        if dotdot {
            assert(c@ == seq!['.', '.']);
        }
    }
    if root || dot || dotdot {
        return false;
    }
    let mut n: usize = c.len();
    while n > 0 && c[n - 1] != '.'
        invariant
            n <= c@.len(),
            last_dot(c@, c@.len() as int) == last_dot(c@, n as int),
        decreases n,
    {
        n -= 1;
    }
    if n <= 1 {
        return false;
    }
    let ext = copy_range(c, n, c.len());
    assert(ext@ == c@.skip(n as int));
    chars_eq_str(ext.as_slice(), "app")
}

/// Whether `exe` lies inside an installed `.app` (see `inside_installed_app`).
pub fn is_installed_app_bundle(exe: &str) -> (b: bool)
    ensures
        b == inside_installed_app(exe@),
{
    let c = components(chars_of(exe).as_slice());
    let ghost cv = vec_views(c@);
    let mut n: usize = c.len();
    while n > 0 && !is_app_component_exec(c[n - 1].as_slice())
        invariant
            n <= c@.len(),
            cv == vec_views(c@),
            last_app_component(cv, c@.len() as int) == last_app_component(cv, n as int),
        decreases n,
    {
        n -= 1;
    }
    if n <= 1 {
        return false;
    }
    chars_eq_str(c[n - 2].as_slice(), "Applications")
}

/// The index of the first component at or after `i` that is `Cellar`.
pub open spec fn first_cellar(c: Seq<Seq<char>>, i: int) -> Option<int>
    decreases c.len() - i,
{
    if i < 0 || i >= c.len() {
        None
    } else if c[i] == "Cellar"@ {
        Some(i)
    } else {
        first_cellar(c, i + 1)
    }
}

/// The version-independent `opt` path for an executable inside a Homebrew
/// keg: `…/Cellar/<name>/<version>/<rest>` becomes `…/opt/<name>/<rest>`.
/// `None` when there is no `Cellar` component or nothing after the version.
pub open spec fn homebrew_opt_path(exe: Seq<char>) -> Option<Seq<char>> {
    let c = path_components(exe);
    match first_cellar(c, 0) {
        None => None,
        Some(k) => if k + 3 >= c.len() {
            None
        } else {
            Some(render_components(c.take(k) + seq![seq!['o', 'p', 't'], c[k + 1]] + c.skip(k + 3)))
        },
    }
}

/// `…/Cellar/<name>/<version>/<rest>` → `…/opt/<name>/<rest>`.
pub fn cellar_to_opt_path(exe: &str) -> (r: Option<String>)
    ensures
        match (r, homebrew_opt_path(exe@)) {
            (Some(a), Some(b)) => a@ == b,
            (None, None) => true,
            _ => false,
        },
{
    let c = components(chars_of(exe).as_slice());
    let ghost cv = vec_views(c@);
    let mut k: usize = 0;
    while k < c.len() && !chars_eq_str(c[k].as_slice(), "Cellar")
        invariant
            k <= c@.len(),
            cv == vec_views(c@),
            first_cellar(cv, 0) == first_cellar(cv, k as int),
        decreases c@.len() - k,
    {
        k += 1;
    }
    if k == c.len() || c.len() - k <= 3 {
        return None;
    }
    let mut out: Vec<Vec<char>> = Vec::new();
    let mut i: usize = 0;
    while i < c.len()
        invariant
            k + 3 < c@.len(),
            i <= c@.len(),
            cv == vec_views(c@),
            i <= k ==> vec_views(out@) == cv.take(i as int),
            k < i ==> i >= k + 3,
            k + 3 <= i ==> vec_views(out@) == cv.take(k as int) + seq![
                seq!['o', 'p', 't'],
                cv[k + 1],
            ] + cv.subrange(k + 3, i as int),
        decreases c@.len() - i,
    {
        let ghost before = vec_views(out@);
        if i == k {
            let mut opt: Vec<char> = Vec::new();
            opt.push('o');
            opt.push('p');
            opt.push('t');
            let name = copy_range(c[k + 1].as_slice(), 0, c[k + 1].len());
            assert(c@[k + 1]@.subrange(0, c@[k + 1]@.len() as int) == c@[k + 1]@);
            assert(opt@ == seq!['o', 'p', 't']);
            let ghost out0 = out@;
            out.push(opt);
            out.push(name);
            assert(out@ == out0.push(opt).push(name));
            assert(vec_views(out@) =~= vec_views(out0).push(opt@).push(name@));
            assert(vec_views(out@) == before.push(seq!['o', 'p', 't']).push(cv[k + 1]));
            assert(cv.subrange(k + 3, k + 3) == Seq::<Seq<char>>::empty());
            i = k + 3;
        } else {
            out.push(copy_range(c[i].as_slice(), 0, c[i].len()));
            assert(c@[i as int]@.subrange(0, c@[i as int]@.len() as int) == c@[i as int]@);
            assert(vec_views(out@) == before.push(cv[i as int]));
            if i < k {
                assert(cv.take(i + 1) == cv.take(i as int).push(cv[i as int]));
            } else {
                assert(cv.subrange(k + 3, i + 1) == cv.subrange(k + 3, i as int).push(cv[i as int]));
            }
            i += 1;
        }
    }
    assert(cv.subrange(k + 3, c@.len() as int) == cv.skip(k + 3));
    let p = render(&out);
    Some(string_of(p.as_slice()))
}

/// The executable path to record in the plist: the Homebrew `opt` path when
/// one exists for `exe` and `is_present` says it is there, otherwise `exe`.
pub fn stable_executable_path<F: Fn(&str) -> bool>(exe: &str, is_present: F) -> (p: String)
    requires
        forall|q: &str| is_present.requires((q,)),
    ensures
        match homebrew_opt_path(exe@) {
            None => p@ == exe@,
            Some(opt) => exists|q: &str, found: bool|
                q@ == opt && is_present.ensures((q,), found) && p@ == (if found {
                    opt
                } else {
                    exe@
                }),
        },
{
    match cellar_to_opt_path(exe) {
        Some(opt) => {
            let found = is_present(opt.as_str());
            if found {
                opt
            } else {
                string_of(chars_of(exe).as_slice())
            }
        },
        None => string_of(chars_of(exe).as_slice()),
    }
}

/// Whether the plist should be rewritten. Only a plist in this app's own
/// layout is considered. One whose program is not the current executable is
/// rewritten only from an installed `.app`, so that development builds never
/// end up in it. Otherwise it is rewritten when its program is missing (as
/// `is_present` reports it) or its arguments lack `LOGIN_FLAG`.
pub fn needs_repair<F: Fn(&str) -> bool>(xml: &str, current_exe: &str, is_present: F) -> (b: bool)
    requires
        forall|q: &str| is_present.requires((q,)),
    ensures
        match plist_program_arguments(xml@) {
            None => !b,
            Some(args) => if path_components(args[0]) != path_components(current_exe@)
                && !inside_installed_app(current_exe@) {
                !b
            } else {
                exists|q: &str, found: bool|
                    q@ == args[0] && is_present.ensures((q,), found) && b == (!found
                        || !args.contains(LOGIN_FLAG@))
            },
        },
{
    let arguments = match program_arguments_in_plist(xml) {
        None => {
            return false;
        },
        Some(a) => a,
    };
    let ghost args = string_views(arguments@);
    assert(args[0] == arguments@[0]@);
    if !same_path(arguments[0].as_str(), current_exe) && !is_installed_app_bundle(current_exe) {
        return false;
    }
    let mut has_flag = false;
    let mut i: usize = 0;
    while i < arguments.len()
        invariant
            i <= arguments@.len(),
            args == string_views(arguments@),
            !has_flag ==> forall|k: int| 0 <= k < i ==> args[k] != LOGIN_FLAG@,
            has_flag ==> args.contains(LOGIN_FLAG@),
        decreases arguments@.len() - i,
    {
        if chars_eq_str(chars_of(arguments[i].as_str()).as_slice(), LOGIN_FLAG) {
            assert(args[i as int] == LOGIN_FLAG@);
            has_flag = true;
        }
        i += 1;
    }
    assert(has_flag == args.contains(LOGIN_FLAG@));
    let found = is_present(arguments[0].as_str());
    !found || !has_flag
}

// ---------------------------------------------------------------------------
// Reading back what `plist_xml` wrote
// ---------------------------------------------------------------------------

/// The first match of `pat` at or after `from` is at `k` when it occurs
/// there and nowhere in between.
proof fn lemma_find_first(hay: Seq<char>, pat: Seq<char>, from: int, k: int)
    requires
        0 <= from <= k,
        occurs_at(hay, pat, k),
        forall|i: int| from <= i < k ==> !occurs_at(hay, pat, i),
    ensures
        find_from(hay, pat, from) == Some(k),
    decreases k - from,
{
    if from < k {
        assert(!occurs_at(hay, pat, from));
        lemma_find_first(hay, pat, from + 1, k);
    }
}

/// A match agrees with the pattern character by character.
proof fn lemma_occurs_char(hay: Seq<char>, pat: Seq<char>, i: int, j: int)
    requires
        occurs_at(hay, pat, i),
        0 <= j < pat.len(),
    ensures
        hay[i + j] == pat[j],
{
    assert(hay.subrange(i, i + pat.len())[j] == pat[j]);
}

/// Escaped text holds none of `< > " '`, so it cannot open or close markup
/// or end an attribute value.
pub proof fn lemma_escaped_has_no_markup(s: Seq<char>)
    ensures
        forall|i: int|
            0 <= i < escaped(s).len() ==> {
                let c = #[trigger] escaped(s)[i];
                c != '<' && c != '>' && c != '"' && c != '\''
            },
    decreases s.len(),
{
    if s.len() > 0 {
        lemma_escaped_has_no_markup(s.drop_first());
        let e = escaped_char(s[0]);
        assert(forall|i: int|
            0 <= i < e.len() ==> e[i] != '<' && e[i] != '>' && e[i] != '"' && e[i] != '\'');
        assert(escaped(s) == e + escaped(s.drop_first()));
    }
}

/// Escaped text holds no `<`.
proof fn lemma_escaped_has_no_lt(s: Seq<char>)
    ensures
        forall|i: int| 0 <= i < escaped(s).len() ==> escaped(s)[i] != '<',
{
    lemma_escaped_has_no_markup(s);
}

/// Escaping works character by character from the end as well.
proof fn lemma_escaped_push(s: Seq<char>)
    requires
        s.len() > 0,
    ensures
        escaped(s) == escaped(s.drop_last()) + escaped_char(s.last()),
    decreases s.len(),
{
    if s.len() == 1 {
        assert(s.drop_first() =~= Seq::<char>::empty());
        assert(s.drop_last() =~= Seq::<char>::empty());
        assert(escaped(s.drop_first()) =~= Seq::<char>::empty());
        assert(escaped(s.drop_last()) =~= Seq::<char>::empty());
        assert(escaped(s) =~= escaped_char(s[0]));
    } else {
        lemma_escaped_push(s.drop_first());
        assert(s.drop_first().drop_last() =~= s.drop_last().drop_first());
        assert(s.drop_first().last() == s.last());
        assert(s.drop_last()[0] == s[0]);
        assert(escaped(s) =~= escaped(s.drop_last()) + escaped_char(s.last()));
    }
}

proof fn lemma_trim_start_len(s: Seq<char>)
    ensures
        trim_start(s).len() <= s.len(),
    decreases s.len(),
{
    if s.len() > 0 && is_white_space(s[0]) {
        lemma_trim_start_len(s.drop_first());
    }
}

proof fn lemma_trim_end_len(s: Seq<char>)
    ensures
        trim_end(s).len() <= s.len(),
    decreases s.len(),
{
    if s.len() > 0 && is_white_space(s.last()) {
        lemma_trim_end_len(s.drop_last());
    }
}

/// Text that trimming leaves alone neither starts nor ends with whitespace.
proof fn lemma_trimmed_ends(s: Seq<char>)
    requires
        trim(s) == s,
        s.len() > 0,
    ensures
        !is_white_space(s[0]),
        !is_white_space(s.last()),
{
    if is_white_space(s[0]) {
        lemma_trim_start_len(s.drop_first());
        lemma_trim_end_len(trim_start(s));
        assert(trim(s).len() < s.len());
    }
    assert(trim_start(s) == s);
    if is_white_space(s.last()) {
        lemma_trim_end_len(s.drop_last());
        assert(trim(s).len() < s.len());
    }
}

/// Escaping text without surrounding whitespace gives text without it.
proof fn lemma_escaped_keeps_trim(s: Seq<char>)
    requires
        trim(s) == s,
    ensures
        trim(escaped(s)) == escaped(s),
{
    let e = escaped(s);
    if s.len() == 0 {
        assert(trim_start(e) == e);
        assert(trim_end(e) == e);
    } else {
        lemma_trimmed_ends(s);
        assert(e == escaped_char(s[0]) + escaped(s.drop_first()));
        assert(e[0] == escaped_char(s[0])[0]);
        lemma_escaped_push(s);
        let last = escaped_char(s.last());
        assert(e.last() == last.last());
        assert(!is_white_space(e[0]));
        assert(!is_white_space(e.last()));
        assert(trim_start(e) == e);
        assert(trim_end(e) == e);
    }
}

/// In a document that starts with the plist's head, label and program
/// opening, the `ProgramArguments` key is found inside the opening.
proof fn lemma_plist_key(rest: Seq<char>)
    ensures
        after_first(
            plist_head()@ + LOGIN_ITEM_LABEL@ + plist_program_open()@ + rest,
            "<key>ProgramArguments</key>"@,
        ) == Some(plist_program_open()@.skip(38) + rest),
{
    reveal_strlit("<?xml version=\"1.0\" encoding=\"UTF-8\"?>\n<!DOCTYPE plist PUBLIC \"-//Apple//DTD PLIST 1.0//EN\" \"http://www.apple.com/DTDs/PropertyList-1.0.dtd\">\n<plist version=\"1.0\">\n<dict>\n\t<key>Label</key>\n\t<string>");
    reveal_strlit("io.github.somei-san.cliip-show");
    reveal_strlit("</string>\n\t<key>ProgramArguments</key>\n\t<array>\n\t\t<string>");
    reveal_strlit("<key>ProgramArguments</key>");
    let h = plist_head()@;
    let l = LOGIN_ITEM_LABEL@;
    let p = plist_program_open()@;
    let key = "<key>ProgramArguments</key>"@;
    let doc = h + l + p + rest;
    let k: int = (h.len() + l.len() + 11) as int;
    assert(key.len() == 27);
    assert(key[1] == 'k' && key[15] == 'u');
    assert(forall|m: int| 0 <= m < h.len() ==> h[m] != 'u');
    assert(forall|m: int| 0 <= m < l.len() && l[m] == 'u' ==> m == 7);
    assert(forall|m: int| 0 <= m < 26 ==> p[m] != 'u');
    assert(h[h.len() - 7] == 's');
    assert(doc.subrange(k, k + 27) =~= key);
    assert forall|i: int| 0 <= i < k implies !occurs_at(doc, key, i) by {
        if occurs_at(doc, key, i) {
            lemma_occurs_char(doc, key, i, 15);
            lemma_occurs_char(doc, key, i, 1);
            if i + 15 < h.len() {
                assert(doc[i + 15] == h[i + 15]);
            } else if i + 15 < h.len() + l.len() {
                assert(doc[i + 15] == l[i + 15 - h.len()]);
                assert(i == h.len() - 8);
                assert(doc[i + 1] == h[h.len() - 7]);
            } else {
                assert(doc[i + 15] == p[i + 15 - h.len() - l.len()]);
            }
        }
    }
    lemma_find_first(doc, key, 0, k);
    assert(doc.skip(k + 27) =~= p.skip(38) + rest);
}

/// After the key, the array opens at once; it closes after the program
/// and flag strings, since the escaped program holds no `<`.
proof fn lemma_plist_array(e: Seq<char>, tail: Seq<char>)
    requires
        forall|i: int| 0 <= i < e.len() ==> e[i] != '<',
    ensures
        after_first(
            plist_program_open()@.skip(38) + e + plist_flag_open()@ + LOGIN_FLAG@ + plist_tail_open()@
                + tail,
            "<array>"@,
        ) == Some(
            plist_program_open()@.skip(47) + e + plist_flag_open()@ + LOGIN_FLAG@ + plist_tail_open()@
                + tail,
        ),
        before_first(
            plist_program_open()@.skip(47) + e + plist_flag_open()@ + LOGIN_FLAG@ + plist_tail_open()@
                + tail,
            "</array>"@,
        ) == Some(
            plist_program_open()@.skip(47) + e + plist_flag_open()@ + LOGIN_FLAG@
                + plist_tail_open()@.take(11),
        ),
{
    reveal_strlit("</string>\n\t<key>ProgramArguments</key>\n\t<array>\n\t\t<string>");
    reveal_strlit("</string>\n\t\t<string>");
    reveal_strlit("--login");
    reveal_strlit("</string>\n\t</array>\n\t<key>RunAtLoad</key>\n\t<true/>\n\t<key>KeepAlive</key>\n\t<dict>\n\t\t<key>SuccessfulExit</key>\n\t\t<false/>\n\t</dict>\n\t<key>StandardOutPath</key>\n\t<string>");
    reveal_strlit("<array>");
    reveal_strlit("</array>");
    let p = plist_program_open()@;
    let f = plist_flag_open()@;
    let g = LOGIN_FLAG@;
    let t = plist_tail_open()@;
    let open = "<array>"@;
    let close = "</array>"@;
    let r1 = p.skip(38) + e + f + g + t + tail;
    assert(p.len() == 58);
    assert(r1.subrange(2, 9) =~= open);
    assert(r1[0] == '\n' && r1[1] == '\t');
    assert forall|i: int| 0 <= i < 2 implies !occurs_at(r1, open, i) by {
        if occurs_at(r1, open, i) {
            lemma_occurs_char(r1, open, i, 0);
        }
    }
    lemma_find_first(r1, open, 0, 2);
    assert(r1.skip(9) =~= p.skip(47) + e + f + g + t + tail);

    let q = p.skip(47);
    let r2 = q + e + f + g + t + tail;
    let k: int = (11 + e.len() + 20 + 7 + 11) as int;
    assert(q.len() == 11 && f.len() == 20 && g.len() == 7);
    assert(forall|m: int| 0 <= m < 11 && q[m] == '<' ==> m == 3);
    assert(q[5] == 't');
    assert(forall|m: int| 0 <= m < 20 && f[m] == '<' ==> m == 0 || m == 12);
    assert(f[2] == 's' && f[14] == 't');
    assert(forall|m: int| 0 <= m < 7 ==> g[m] != '<');
    assert(forall|m: int| 0 <= m < 11 && t[m] == '<' ==> m == 0);
    assert(t[2] == 's');
    assert(r2.subrange(k, k + 8) =~= close);
    assert forall|i: int| 0 <= i < k implies !occurs_at(r2, close, i) by {
        if occurs_at(r2, close, i) {
            lemma_occurs_char(r2, close, i, 0);
            lemma_occurs_char(r2, close, i, 2);
            let b1: int = 11;
            let b2: int = (11 + e.len()) as int;
            let b3: int = b2 + 20;
            let b4: int = b3 + 7;
            if i < b1 {
                assert(r2[i] == q[i]);
                assert(r2[i + 2] == q[i + 2]);
            } else if i < b2 {
                assert(r2[i] == e[i - b1]);
            } else if i < b3 {
                assert(r2[i] == f[i - b2]);
                assert(r2[i + 2] == f[i + 2 - b2]);
            } else if i < b4 {
                assert(r2[i] == g[i - b3]);
            } else {
                assert(r2[i] == t[i - b4]);
                assert(r2[i + 2] == t[i + 2 - b4]);
            }
        }
    }
    lemma_find_first(r2, close, 0, k);
    assert(r2.take(k) =~= q + e + f + g + t.take(11));
}

/// Where `<string>` occurs at the start of an indented element: not in the
/// indentation, and right after it.
#[verifier::spinoff_prover]
proof fn lemma_indented_string_tag(y: Seq<char>)
    ensures
        !occurs_at(seq!['\n', '\t', '\t'] + open_string_tag() + y, open_string_tag(), 0),
        !occurs_at(seq!['\n', '\t', '\t'] + open_string_tag() + y, open_string_tag(), 1),
        !occurs_at(seq!['\n', '\t', '\t'] + open_string_tag() + y, open_string_tag(), 2),
        occurs_at(seq!['\n', '\t', '\t'] + open_string_tag() + y, open_string_tag(), 3),
{
    let open = open_string_tag();
    let head = seq!['\n', '\t', '\t'] + open;
    let x = head + y;
    assert(head.len() == 11);
    assert(x[0] == '\n' && x[1] == '\t' && x[2] == '\t');
    assert(x.subrange(0, 8)[0] == x[0]);
    assert(x.subrange(1, 9)[0] == x[1]);
    assert(x.subrange(2, 10)[0] == x[2]);
    assert(head.subrange(3, 11) =~= open);
    assert(x.subrange(3, 11) =~= head.subrange(3, 11));
}

/// After the indentation, the first `<string>` opens at index 3.
#[verifier::spinoff_prover]
proof fn lemma_string_opens_after_indent(y: Seq<char>)
    ensures
        find_from(seq!['\n', '\t', '\t'] + open_string_tag() + y, open_string_tag(), 0) == Some(3int),
{
    lemma_indented_string_tag(y);
    lemma_find_first(seq!['\n', '\t', '\t'] + open_string_tag() + y, open_string_tag(), 0, 3);
}

/// In text without `<`, the first `</string>` is the one right after it.
#[verifier::spinoff_prover]
proof fn lemma_string_closes_after(v: Seq<char>, rest: Seq<char>)
    requires
        forall|i: int| 0 <= i < v.len() ==> v[i] != '<',
    ensures
        find_from(v + close_string_tag() + rest, close_string_tag(), 0) == Some(v.len() as int),
{
    let close = close_string_tag();
    let y = v + close + rest;
    assert(y.subrange(v.len() as int, v.len() + 9int) =~= close);
    assert forall|i: int| 0 <= i < v.len() implies !occurs_at(y, close, i) by {
        if occurs_at(y, close, i) {
            lemma_occurs_char(y, close, i, 0);
            assert(y[i] == v[i]);
        }
    }
    lemma_find_first(y, close, 0, v.len() as int);
}

/// One `<string>` element, indented by whitespace, whose text holds no `<`,
/// followed by `rest`.
#[verifier::spinoff_prover]
proof fn lemma_one_string(v: Seq<char>, rest: Seq<char>)
    requires
        forall|i: int| 0 <= i < v.len() ==> v[i] != '<',
    ensures
        string_values(seq!['\n', '\t', '\t'] + open_string_tag() + v + close_string_tag() + rest)
            == match string_values(rest) {
            None => None,
            Some(tail) => Some(seq![unescaped(trim(v))] + tail),
        },
{
    let open = open_string_tag();
    let close = close_string_tag();
    let ws = seq!['\n', '\t', '\t'];
    let y = v + close + rest;
    let x = ws + open + v + close + rest;
    assert(x =~= ws + open + y);
    lemma_string_opens_after_indent(y);
    let after_open = x.skip(11);
    assert(after_open =~= y);
    lemma_string_closes_after(v, rest);
    assert(after_open.take(v.len() as int) =~= v);
    assert(after_open.skip(v.len() + 9int) =~= rest);
}

/// The array's body yields the program, decoded, and the flag.
proof fn lemma_plist_values(executable: Seq<char>)
    requires
        trim(executable) == executable,
    ensures
        string_values(
            plist_program_open()@.skip(47) + escaped(executable) + plist_flag_open()@ + LOGIN_FLAG@
                + plist_tail_open()@.take(11),
        ) == Some(seq![executable, LOGIN_FLAG@]),
{
    reveal_strlit("</string>\n\t<key>ProgramArguments</key>\n\t<array>\n\t\t<string>");
    reveal_strlit("</string>\n\t\t<string>");
    reveal_strlit("--login");
    reveal_strlit("</string>\n\t</array>\n\t<key>RunAtLoad</key>\n\t<true/>\n\t<key>KeepAlive</key>\n\t<dict>\n\t\t<key>SuccessfulExit</key>\n\t\t<false/>\n\t</dict>\n\t<key>StandardOutPath</key>\n\t<string>");
    let ws = seq!['\n', '\t', '\t'];
    let open = open_string_tag();
    let close = close_string_tag();
    let e = escaped(executable);
    let g = LOGIN_FLAG@;
    let end = seq!['\n', '\t'];
    assert(plist_program_open()@.skip(47) =~= ws + open);
    assert(plist_flag_open()@ =~= close + ws + open);
    assert(plist_tail_open()@.take(11) =~= close + end);
    let body = plist_program_open()@.skip(47) + e + plist_flag_open()@ + g + plist_tail_open()@.take(11);
    let second = ws + open + g + close + end;
    assert(body =~= ws + open + e + close + second);
    lemma_escaped_has_no_lt(executable);
    lemma_escaped_keeps_trim(executable);
    lemma_unescape_escape(executable);
    assert(forall|i: int| 0 <= i < g.len() ==> g[i] != '<');
    assert(find_from(end, open, 0) is None);
    assert(string_values(end) == Some(Seq::<Seq<char>>::empty()));
    lemma_one_string(g, end);
    assert(trim_start(g) == g);
    assert(trim_end(g) == g);
    lemma_unescape_escape(g);
    reveal_with_fuel(escaped, 8);
    assert(escaped(g) =~= g);
    assert(string_values(second) == Some(seq![g] + Seq::<Seq<char>>::empty()));
    lemma_one_string(e, second);
    assert(string_values(body) == Some(seq![executable] + (seq![g] + Seq::<Seq<char>>::empty())));
    assert(seq![executable] + (seq![g] + Seq::<Seq<char>>::empty()) =~= seq![executable, g]);
}

/// Reading the program arguments back from a plist that `plist_xml` wrote
/// gives the executable and `LOGIN_FLAG`, in that order, for every
/// executable path without leading or trailing whitespace (the reader trims
/// each value).
pub proof fn lemma_plist_round_trip(executable: Seq<char>, log_path: Seq<char>)
    requires
        trim(executable) == executable,
    ensures
        plist_program_arguments(plist_document(executable, log_path)) == Some(
            seq![executable, LOGIN_FLAG@],
        ),
{
    let h = plist_head()@;
    let l = LOGIN_ITEM_LABEL@;
    let p = plist_program_open()@;
    let e = escaped(executable);
    let f = plist_flag_open()@;
    let g = LOGIN_FLAG@;
    let t = plist_tail_open()@;
    let tail = escaped(log_path) + plist_error_open()@ + escaped(log_path) + plist_end()@;
    let doc = plist_document(executable, log_path);
    assert(doc =~= h + l + p + (e + f + g + t + tail));
    lemma_plist_key(e + f + g + t + tail);
    assert(p.skip(38) + (e + f + g + t + tail) =~= p.skip(38) + e + f + g + t + tail);
    lemma_escaped_has_no_lt(executable);
    lemma_plist_array(e, tail);
    lemma_plist_values(executable);
}

} // verus!
