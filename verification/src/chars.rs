//! Character-sequence helpers shared by the rest of the library: conversions
//! between strings and character vectors, Unicode whitespace trimming, ASCII
//! case folding, substring search, and decimal formatting and parsing.

use vstd::prelude::*;
use vstd::string::*;

verus! {

broadcast use vstd::seq_lib::group_seq_properties;

/// The character sequences of a sequence of strings.
pub open spec fn string_views(v: Seq<String>) -> Seq<Seq<char>> {
    v.map_values(|s: String| s@)
}

/// The character sequences of a sequence of character vectors.
pub open spec fn vec_views(v: Seq<Vec<char>>) -> Seq<Seq<char>> {
    v.map_values(|s: Vec<char>| s@)
}

/// Turns character vectors into strings, one for one.
pub fn strings_of(v: &Vec<Vec<char>>) -> (out: Vec<String>)
    ensures
        string_views(out@) == vec_views(v@),
{
    let mut out: Vec<String> = Vec::new();
    let mut i: usize = 0;
    while i < v.len()
        invariant
            i <= v@.len(),
            string_views(out@) == vec_views(v@).take(i as int),
        decreases v@.len() - i,
    {
        let s = string_of(v[i].as_slice());
        out.push(s);
        assert(vec_views(v@).take(i + 1) == vec_views(v@).take(i as int).push(v@[i as int]@));
        assert(string_views(out@) == string_views(old_out_take(out@)).push(s@)) by {
            assert(out@.drop_last() == old_out_take(out@));
        }
        i += 1;
    }
    assert(vec_views(v@).take(v@.len() as int) == vec_views(v@));
    out
}

spec fn old_out_take(v: Seq<String>) -> Seq<String> {
    v.drop_last()
}

/// `String::push`: appends one character.
#[verifier::external_body]
pub(crate) fn push_char(s: &mut String, c: char)
    ensures
        final(s)@ == old(s)@.push(c),
{
    s.push(c)
}

/// The characters of `s`, in order.
pub fn chars_of(s: &str) -> (out: Vec<char>)
    ensures
        out@ == s@,
{
    let mut out: Vec<char> = Vec::new();
    for c in it: s.chars()
        invariant
            out@ == it.seq().take(it.index() as int),
    {
        out.push(c);
    }
    out
}

/// A `String` holding exactly the characters of `cs`.
pub fn string_of(cs: &[char]) -> (s: String)
    ensures
        s@ == cs@,
{
    let mut s = String::new();
    let mut i: usize = 0;
    while i < cs.len()
        invariant
            i <= cs@.len(),
            s@ == cs@.take(i as int),
        decreases cs@.len() - i,
    {
        push_char(&mut s, cs[i]);
        assert(cs@.take(i + 1) == cs@.take(i as int).push(cs@[i as int]));
        i += 1;
    }
    assert(cs@.take(cs@.len() as int) == cs@);
    s
}

/// A fresh `String` equal to `s`.
pub fn owned(s: &str) -> (out: String)
    ensures
        out@ == s@,
{
    let cs = chars_of(s);
    string_of(cs.as_slice())
}

/// Appends the characters of `s` to `out`.
pub fn push_str(out: &mut String, s: &str)
    ensures
        final(out)@ == old(out)@ + s@,
{
    let cs = chars_of(s);
    let mut i: usize = 0;
    while i < cs.len()
        invariant
            i <= cs@.len(),
            cs@ == s@,
            out@ == old(out)@ + cs@.take(i as int),
        decreases cs@.len() - i,
    {
        push_char(out, cs[i]);
        assert(cs@.take(i + 1) == cs@.take(i as int).push(cs@[i as int]));
        i += 1;
    }
    assert(cs@.take(cs@.len() as int) == cs@);
}

/// Appends the characters of `cs` to `out`.
pub fn push_chars(out: &mut Vec<char>, cs: &[char])
    ensures
        final(out)@ == old(out)@ + cs@,
{
    let mut i: usize = 0;
    while i < cs.len()
        invariant
            i <= cs@.len(),
            out@ == old(out)@ + cs@.take(i as int),
        decreases cs@.len() - i,
    {
        out.push(cs[i]);
        assert(cs@.take(i + 1) == cs@.take(i as int).push(cs@[i as int]));
        i += 1;
    }
    assert(cs@.take(cs@.len() as int) == cs@);
}

/// Characters with the Unicode `White_Space` property: the characters that
/// `char::is_whitespace` accepts and that `str::trim` removes.
pub open spec fn is_white_space(c: char) -> bool {
    let u: u32 = c as u32;
    ||| 0x09 <= u <= 0x0D
    ||| u == 0x20
    ||| u == 0x85
    ||| u == 0xA0
    ||| u == 0x1680
    ||| 0x2000 <= u <= 0x200A
    ||| u == 0x2028
    ||| u == 0x2029
    ||| u == 0x202F
    ||| u == 0x205F
    ||| u == 0x3000
}

pub fn is_whitespace_char(c: char) -> (b: bool)
    ensures
        b == is_white_space(c),
{
    let u: u32 = c as u32;
    (0x09 <= u && u <= 0x0D) || u == 0x20 || u == 0x85 || u == 0xA0 || u == 0x1680 || (0x2000
        <= u && u <= 0x200A) || u == 0x2028 || u == 0x2029 || u == 0x202F || u == 0x205F || u
        == 0x3000
}

/// `s` without its leading whitespace.
pub open spec fn trim_start(s: Seq<char>) -> Seq<char>
    decreases s.len(),
{
    if s.len() > 0 && is_white_space(s[0]) {
        trim_start(s.drop_first())
    } else {
        s
    }
}

/// `s` without its trailing whitespace.
pub open spec fn trim_end(s: Seq<char>) -> Seq<char>
    decreases s.len(),
{
    if s.len() > 0 && is_white_space(s.last()) {
        trim_end(s.drop_last())
    } else {
        s
    }
}

/// `str::trim`: `s` without leading and trailing whitespace.
pub open spec fn trim(s: Seq<char>) -> Seq<char> {
    trim_end(trim_start(s))
}

/// Every character of `s` is whitespace (so `trim(s)` is empty).
pub open spec fn is_blank(s: Seq<char>) -> bool {
    forall|i: int| 0 <= i < s.len() ==> is_white_space(#[trigger] s[i])
}

proof fn lemma_trim_start_skip(s: Seq<char>, i: int)
    requires
        0 <= i < s.len(),
        is_white_space(s[i]),
    ensures
        trim_start(s.skip(i)) == trim_start(s.skip(i + 1)),
{
    assert(s.skip(i).drop_first() == s.skip(i + 1));
}

proof fn lemma_trim_end_take(s: Seq<char>, j: int)
    requires
        0 < j <= s.len(),
        is_white_space(s[j - 1]),
    ensures
        trim_end(s.take(j)) == trim_end(s.take(j - 1)),
{
    assert(s.take(j).drop_last() == s.take(j - 1));
}

pub proof fn lemma_trim_blank(s: Seq<char>)
    ensures
        is_blank(s) <==> trim(s).len() == 0,
    decreases s.len(),
{
    lemma_trim_start_blank(s);
    if trim_start(s).len() > 0 {
        lemma_trim_start_front(s);
    }
}

proof fn lemma_trim_start_blank(s: Seq<char>)
    ensures
        is_blank(s) <==> trim_start(s).len() == 0,
    decreases s.len(),
{
    if s.len() > 0 {
        lemma_trim_start_blank(s.drop_first());
        if is_white_space(s[0]) {
            if is_blank(s.drop_first()) {
                assert forall|i: int| 0 <= i < s.len() implies is_white_space(#[trigger] s[i]) by {
                    if i > 0 {
                        assert(s[i] == s.drop_first()[i - 1]);
                    }
                }
            }
            if is_blank(s) {
                assert forall|i: int| 0 <= i < s.drop_first().len() implies is_white_space(
                    #[trigger] s.drop_first()[i],
                ) by {
                    assert(s.drop_first()[i] == s[i + 1]);
                }
            }
        }
    }
}

/// A non-empty `trim_start` result starts with a non-whitespace character, so
/// `trim_end` of it keeps at least that character.
proof fn lemma_trim_start_front(s: Seq<char>)
    requires
        trim_start(s).len() > 0,
    ensures
        !is_white_space(trim_start(s)[0]),
        trim(s).len() > 0,
    decreases s.len(),
{
    if s.len() > 0 && is_white_space(s[0]) {
        lemma_trim_start_front(s.drop_first());
    } else {
        lemma_trim_end_keeps_front(s);
    }
}

proof fn lemma_trim_end_keeps_front(s: Seq<char>)
    requires
        s.len() > 0,
        !is_white_space(s[0]),
    ensures
        trim_end(s).len() > 0,
    decreases s.len(),
{
    if is_white_space(s.last()) {
        assert(s.len() > 1);
        assert(s.drop_last()[0] == s[0]);
        lemma_trim_end_keeps_front(s.drop_last());
    }
}

/// The index of the first non-whitespace character of `cs`, or its length.
fn leading_whitespace_end(cs: &[char]) -> (i: usize)
    ensures
        i <= cs@.len(),
        trim_start(cs@) == cs@.skip(i as int),
        i < cs@.len() ==> !is_white_space(cs@[i as int]),
{
    let mut i: usize = 0;
    while i < cs.len() && is_whitespace_char(cs[i])
        invariant
            i <= cs@.len(),
            trim_start(cs@) == trim_start(cs@.skip(i as int)),
        decreases cs@.len() - i,
    {
        proof {
            lemma_trim_start_skip(cs@, i as int);
        }
        i += 1;
    }
    assert(cs@.skip(0) == cs@);
    i
}

/// The end of `cs` after dropping trailing whitespace, given that `trim_start`
/// of `cs` starts at `i`.
fn trailing_whitespace_start(cs: &[char], i: usize) -> (j: usize)
    requires
        i <= cs@.len(),
        i < cs@.len() ==> !is_white_space(cs@[i as int]),
    ensures
        i <= j <= cs@.len(),
        trim_end(cs@.skip(i as int)) == cs@.subrange(i as int, j as int),
{
    let mut j: usize = cs.len();
    assert(cs@.skip(i as int).take(j - i) == cs@.skip(i as int));
    while j > i && is_whitespace_char(cs[j - 1])
        invariant
            i <= j <= cs@.len(),
            trim_end(cs@.skip(i as int)) == trim_end(cs@.skip(i as int).take(j - i)),
        decreases j,
    {
        proof {
            let t = cs@.skip(i as int);
            assert(t[j - 1 - i] == cs@[j - 1]);
            lemma_trim_end_take(t, j - i);
        }
        j -= 1;
    }
    proof {
        let t = cs@.skip(i as int).take(j - i);
        assert(t == cs@.subrange(i as int, j as int));
        if j > i {
            assert(t.last() == cs@[j - 1]);
            assert(!is_white_space(t.last()));
        } else {
            assert(t.len() == 0);
        }
    }
    j
}

/// Copies `cs[i..j]`.
pub fn copy_range(cs: &[char], i: usize, j: usize) -> (out: Vec<char>)
    requires
        i <= j <= cs@.len(),
    ensures
        out@ == cs@.subrange(i as int, j as int),
{
    let mut out: Vec<char> = Vec::new();
    let mut k: usize = i;
    while k < j
        invariant
            i <= k <= j <= cs@.len(),
            out@ == cs@.subrange(i as int, k as int),
        decreases j - k,
    {
        out.push(cs[k]);
        assert(cs@.subrange(i as int, k + 1) == cs@.subrange(i as int, k as int).push(
            cs@[k as int],
        ));
        k += 1;
    }
    out
}

/// `trim_start`, `trim_end` and `trim` on a character slice.
pub fn trim_chars(cs: &[char]) -> (out: Vec<char>)
    ensures
        out@ == trim(cs@),
{
    let i = leading_whitespace_end(cs);
    let j = trailing_whitespace_start(cs, i);
    copy_range(cs, i, j)
}

/// `str::trim` on a string slice, as characters.
pub fn trim_str(s: &str) -> (out: Vec<char>)
    ensures
        out@ == trim(s@),
{
    let cs = chars_of(s);
    trim_chars(cs.as_slice())
}

/// `is_blank` on a character slice.
pub fn all_whitespace(cs: &[char]) -> (b: bool)
    ensures
        b == is_blank(cs@),
{
    let mut i: usize = 0;
    while i < cs.len()
        invariant
            i <= cs@.len(),
            forall|k: int| 0 <= k < i ==> is_white_space(#[trigger] cs@[k]),
        decreases cs@.len() - i,
    {
        if !is_whitespace_char(cs[i]) {
            return false;
        }
        i += 1;
    }
    true
}

/// Equality of two character slices.
pub fn chars_eq(a: &[char], b: &[char]) -> (eq: bool)
    ensures
        eq == (a@ == b@),
{
    if a.len() != b.len() {
        return false;
    }
    let mut i: usize = 0;
    while i < a.len()
        invariant
            a@.len() == b@.len(),
            i <= a@.len(),
            forall|k: int| 0 <= k < i ==> a@[k] == b@[k],
        decreases a@.len() - i,
    {
        if a[i] != b[i] {
            return false;
        }
        i += 1;
    }
    assert(a@ == b@);
    true
}

/// Equality of a character slice with the characters of a string slice.
pub fn chars_eq_str(a: &[char], s: &str) -> (eq: bool)
    ensures
        eq == (a@ == s@),
{
    let b = chars_of(s);
    chars_eq(a, b.as_slice())
}

/// `char::to_ascii_lowercase`.
pub open spec fn ascii_lower(c: char) -> char {
    if 'A' <= c <= 'Z' {
        ((c as u32) + 32) as char
    } else {
        c
    }
}

pub fn to_ascii_lower(c: char) -> (out: char)
    ensures
        out == ascii_lower(c),
{
    if 'A' <= c && c <= 'Z' {
        ((c as u8) + 32) as char
    } else {
        c
    }
}

/// `char::to_ascii_uppercase`.
pub open spec fn ascii_upper(c: char) -> char {
    if 'a' <= c <= 'z' {
        ((c as u32) - 32) as char
    } else {
        c
    }
}

pub fn to_ascii_upper(c: char) -> (out: char)
    ensures
        out == ascii_upper(c),
{
    if 'a' <= c && c <= 'z' {
        ((c as u8) - 32) as char
    } else {
        c
    }
}

/// The decimal digit character for `d < 10`.
pub open spec fn digit_char(d: nat) -> char {
    ((d + 48) as u8) as char
}

/// The decimal representation of `n`, without leading zeros.
pub open spec fn decimal(n: nat) -> Seq<char>
    decreases n,
{
    if n < 10 {
        seq![digit_char(n)]
    } else {
        decimal(n / 10).push(digit_char(n % 10))
    }
}

/// Appends the decimal representation of `n` to `out`.
pub fn push_decimal(out: &mut Vec<char>, n: usize)
    ensures
        final(out)@ == old(out)@ + decimal(n as nat),
    decreases n,
{
    if n >= 10 {
        push_decimal(out, n / 10);
    }
    let d: u8 = (n % 10) as u8;
    out.push((d + 48) as char);
}

/// `usize::to_string`.
pub fn usize_to_string(n: usize) -> (s: String)
    ensures
        s@ == decimal(n as nat),
{
    let mut cs: Vec<char> = Vec::new();
    push_decimal(&mut cs, n);
    assert(cs@ == decimal(n as nat));
    string_of(cs.as_slice())
}

pub open spec fn is_ascii_digit(c: char) -> bool {
    '0' <= c <= '9'
}

/// The value of a sequence of decimal digits.
pub open spec fn digits_value(s: Seq<char>) -> nat
    decreases s.len(),
{
    if s.len() == 0 {
        0
    } else {
        digits_value(s.drop_last()) * 10 + ((s.last() as u32) - 48) as nat
    }
}

/// `s` without a leading `+`.
pub open spec fn unsigned_digits(s: Seq<char>) -> Seq<char> {
    if s.len() > 0 && s[0] == '+' {
        s.drop_first()
    } else {
        s
    }
}

/// What `str::parse::<usize>` accepts: an optional `+`, then one or more
/// ASCII digits whose value fits in `usize`.
pub open spec fn parse_usize(s: Seq<char>) -> Option<usize> {
    let digits = unsigned_digits(s);
    if digits.len() > 0 && (forall|i: int| 0 <= i < digits.len() ==> is_ascii_digit(
        #[trigger] digits[i],
    )) && digits_value(digits) <= usize::MAX {
        Some(digits_value(digits) as usize)
    } else {
        None
    }
}

proof fn lemma_digits_value_grows(s: Seq<char>, i: int)
    requires
        0 <= i <= s.len(),
        forall|k: int| 0 <= k < s.len() ==> is_ascii_digit(#[trigger] s[k]),
    ensures
        digits_value(s.take(i)) <= digits_value(s),
    decreases s.len() - i,
{
    if i < s.len() {
        lemma_digits_value_grows(s, i + 1);
        assert(s.take(i + 1).drop_last() == s.take(i));
    } else {
        assert(s.take(i) == s);
    }
}

/// `str::parse::<usize>` on characters.
pub fn parse_usize_chars(s: &[char]) -> (r: Option<usize>)
    ensures
        r == parse_usize(s@),
{
    let start: usize = if s.len() > 0 && s[0] == '+' {
        1
    } else {
        0
    };
    let ghost digits = unsigned_digits(s@);
    assert(digits == s@.skip(start as int));
    if start >= s.len() {
        assert(digits.len() == 0);
        return None;
    }
    let mut i: usize = start;
    let mut value: usize = 0;
    while i < s.len()
        invariant
            start <= i <= s@.len(),
            digits == s@.skip(start as int),
            digits == unsigned_digits(s@),
            digits.len() > 0,
            forall|k: int| 0 <= k < i - start ==> is_ascii_digit(#[trigger] digits[k]),
            value as nat == digits_value(digits.take(i - start)),
        decreases s@.len() - i,
    {
        let c = s[i];
        let ghost k = i - start;
        assert(digits[k] == s@[i as int]);
        if !('0' <= c && c <= '9') {
            assert(!is_ascii_digit(digits[k]));
            assert(!(forall|m: int| 0 <= m < digits.len() ==> is_ascii_digit(#[trigger] digits[m])));
            assert(parse_usize(s@).is_none());
            return None;
        }
        proof {
            assert(digits.take(k + 1).drop_last() == digits.take(k));
            assert(digits.take(k + 1).last() == c);
        }
        let d: usize = (c as u32 - 48) as usize;
        assert(digits_value(digits.take(k + 1)) == value as nat * 10 + d as nat);
        let m = value.checked_mul(10);
        if m.is_none() {
            proof {
                if forall|m: int| 0 <= m < digits.len() ==> is_ascii_digit(#[trigger] digits[m]) {
                    lemma_digits_value_grows(digits, k + 1);
                }
            }
            assert(parse_usize(s@).is_none());
            return None;
        }
        let m = m.unwrap();
        let next = m.checked_add(d);
        if next.is_none() {
            proof {
                if forall|m: int| 0 <= m < digits.len() ==> is_ascii_digit(#[trigger] digits[m]) {
                    lemma_digits_value_grows(digits, k + 1);
                }
            }
            assert(parse_usize(s@).is_none());
            return None;
        }
        value = next.unwrap();
        i += 1;
    }
    assert(digits.take(i - start) == digits);
    Some(value)
}

/// `str::parse::<usize>` on a string slice.
pub fn parse_usize_str(s: &str) -> (r: Option<usize>)
    ensures
        r == parse_usize(s@),
{
    let cs = chars_of(s);
    parse_usize_chars(cs.as_slice())
}

/// The first position at or after `from` where `pat` occurs in `hay`.
pub open spec fn occurs_at(hay: Seq<char>, pat: Seq<char>, i: int) -> bool {
    0 <= i && i + pat.len() <= hay.len() && hay.subrange(i, i + pat.len()) == pat
}

pub open spec fn find_from(hay: Seq<char>, pat: Seq<char>, from: int) -> Option<int>
    decreases hay.len() - from,
{
    if from < 0 || from + pat.len() > hay.len() {
        None
    } else if occurs_at(hay, pat, from) {
        Some(from)
    } else if from >= hay.len() {
        None
    } else {
        find_from(hay, pat, from + 1)
    }
}

/// The bounds of a match found by `find_from`.
pub proof fn lemma_find_from_bounds(hay: Seq<char>, pat: Seq<char>, from: int)
    ensures
        find_from(hay, pat, from) matches Some(i) ==> from <= i && i + pat.len() <= hay.len()
            && occurs_at(hay, pat, i),
    decreases hay.len() - from,
{
    if !(from < 0 || from + pat.len() > hay.len()) && !occurs_at(hay, pat, from) && from
        < hay.len() {
        lemma_find_from_bounds(hay, pat, from + 1);
    }
}

/// Whether `pat` occurs in `hay` at position `i`.
pub fn occurs_at_exec(hay: &[char], pat: &[char], i: usize) -> (b: bool)
    requires
        i + pat@.len() <= hay@.len(),
    ensures
        b == occurs_at(hay@, pat@, i as int),
{
    let n: usize = hay.len();
    let mut k: usize = 0;
    while k < pat.len()
        invariant
            i + pat@.len() <= hay@.len(),
            k <= pat@.len(),
            n == hay@.len(),
            forall|m: int| 0 <= m < k ==> hay@[i + m] == pat@[m],
        decreases pat@.len() - k,
    {
        assert(i + k < hay@.len());
        if hay[i + k] != pat[k] {
            assert(hay@.subrange(i as int, i + pat@.len())[k as int] != pat@[k as int]);
            return false;
        }
        k += 1;
    }
    assert(hay@.subrange(i as int, i + pat@.len()) == pat@);
    true
}

/// Substring search: the first occurrence of `pat` in `hay` at or after `from`.
pub fn find_chars(hay: &[char], pat: &[char], from: usize) -> (r: Option<usize>)
    ensures
        r matches Some(i) ==> find_from(hay@, pat@, from as int) == Some(i as int),
        r is None ==> find_from(hay@, pat@, from as int) is None,
        r matches Some(i) ==> from <= i && i + pat@.len() <= hay@.len(),
{
    if pat.len() > hay.len() {
        return None;
    }
    let last: usize = hay.len() - pat.len();
    if from > last {
        return None;
    }
    let mut i: usize = from;
    while i < last
        invariant
            last + pat@.len() == hay@.len(),
            from <= i <= last,
            find_from(hay@, pat@, from as int) == find_from(hay@, pat@, i as int),
        decreases last - i,
    {
        if occurs_at_exec(hay, pat, i) {
            return Some(i);
        }
        i += 1;
    }
    if occurs_at_exec(hay, pat, i) {
        Some(i)
    } else {
        assert(find_from(hay@, pat@, i + 1) is None);
        None
    }
}

/// `s` split at every `sep`; always at least one (possibly empty) piece.
pub open spec fn split_on(s: Seq<char>, sep: char) -> Seq<Seq<char>>
    decreases s.len(),
{
    if s.len() == 0 {
        seq![Seq::empty()]
    } else {
        let prev = split_on(s.drop_last(), sep);
        if s.last() == sep {
            prev.push(Seq::empty())
        } else {
            prev.update(prev.len() - 1, prev.last().push(s.last()))
        }
    }
}

pub proof fn lemma_split_on_len(s: Seq<char>, sep: char)
    ensures
        split_on(s, sep).len() >= 1,
    decreases s.len(),
{
    if s.len() > 0 {
        lemma_split_on_len(s.drop_last(), sep);
    }
}

/// Text without `sep` is one piece.
pub proof fn lemma_split_on_single(s: Seq<char>, sep: char)
    requires
        !s.contains(sep),
    ensures
        split_on(s, sep) == seq![s],
    decreases s.len(),
{
    if s.len() > 0 {
        assert(!s.drop_last().contains(sep)) by {
            if s.drop_last().contains(sep) {
                let i = choose|i: int| 0 <= i < s.drop_last().len() && s.drop_last()[i] == sep;
                assert(s[i] == sep);
            }
        }
        lemma_split_on_single(s.drop_last(), sep);
        assert(s.last() != sep) by {
            assert(s[s.len() - 1] == s.last());
        }
        assert(s.drop_last().push(s.last()) =~= s);
    } else {
        assert(s =~= Seq::<char>::empty());
    }
}

/// Splitting `a`, a separator and then text without separators gives the
/// pieces of `a` and that text.
pub proof fn lemma_split_on_append(a: Seq<char>, b: Seq<char>, sep: char)
    requires
        !b.contains(sep),
    ensures
        split_on(a.push(sep) + b, sep) == split_on(a, sep).push(b),
    decreases b.len(),
{
    let x = a.push(sep) + b;
    if b.len() == 0 {
        assert(x =~= a.push(sep));
        assert(x.drop_last() =~= a);
    } else {
        let b0 = b.drop_last();
        assert(!b0.contains(sep)) by {
            if b0.contains(sep) {
                let i = choose|i: int| 0 <= i < b0.len() && b0[i] == sep;
                assert(b[i] == sep);
            }
        }
        lemma_split_on_append(a, b0, sep);
        assert(x.drop_last() =~= a.push(sep) + b0);
        assert(x.last() == b.last());
        assert(b.last() != sep) by {
            assert(b[b.len() - 1] == b.last());
        }
        assert(b0.push(b.last()) =~= b);
        lemma_split_on_len(a, sep);
    }
}

/// No piece of a split holds the separator.
pub proof fn lemma_split_on_pieces(s: Seq<char>, sep: char)
    ensures
        forall|i: int| 0 <= i < split_on(s, sep).len() ==> !(#[trigger] split_on(s, sep)[i]).contains(sep),
    decreases s.len(),
{
    if s.len() > 0 {
        lemma_split_on_pieces(s.drop_last(), sep);
        lemma_split_on_len(s.drop_last(), sep);
        let prev = split_on(s.drop_last(), sep);
        if s.last() != sep {
            let l = prev.last().push(s.last());
            assert(!prev.last().contains(sep));
            assert(!l.contains(sep)) by {
                if l.contains(sep) {
                    let i = choose|i: int| 0 <= i < l.len() && l[i] == sep;
                    if i < prev.last().len() {
                        assert(prev.last()[i] == sep);
                    }
                }
            }
        }
    }
}

/// Splitting pieces joined by the separator gives them back, when none holds
/// the separator.
pub proof fn lemma_split_join(xs: Seq<Seq<char>>, sep: char)
    requires
        xs.len() > 0,
        forall|i: int| 0 <= i < xs.len() ==> !(#[trigger] xs[i]).contains(sep),
    ensures
        split_on(join_with(xs, sep), sep) == xs,
    decreases xs.len(),
{
    if xs.len() == 1 {
        lemma_split_on_single(xs[0], sep);
        assert(seq![xs[0]] =~= xs);
    } else {
        let init = xs.drop_last();
        lemma_split_join(init, sep);
        assert(!xs.last().contains(sep)) by {
            assert(xs[xs.len() - 1] == xs.last());
        }
        lemma_split_on_append(join_with(init, sep), xs.last(), sep);
        assert(init.push(xs.last()) =~= xs);
    }
}

/// Splitting a separator followed by joined pieces gives an empty piece and
/// then the pieces.
pub proof fn lemma_split_lead_join(xs: Seq<Seq<char>>, sep: char)
    requires
        xs.len() > 0,
        forall|i: int| 0 <= i < xs.len() ==> !(#[trigger] xs[i]).contains(sep),
    ensures
        split_on(seq![sep] + join_with(xs, sep), sep) == seq![Seq::<char>::empty()] + xs,
    decreases xs.len(),
{
    if xs.len() == 1 {
        assert(seq![sep] + join_with(xs, sep) =~= Seq::<char>::empty().push(sep) + xs[0]);
        lemma_split_on_append(Seq::<char>::empty(), xs[0], sep);
        assert(split_on(Seq::<char>::empty(), sep) == seq![Seq::<char>::empty()]);
        assert(seq![Seq::<char>::empty()].push(xs[0]) =~= seq![Seq::<char>::empty()] + xs);
    } else {
        let init = xs.drop_last();
        lemma_split_lead_join(init, sep);
        assert(!xs.last().contains(sep)) by {
            assert(xs[xs.len() - 1] == xs.last());
        }
        assert(seq![sep] + join_with(xs, sep) =~= (seq![sep] + join_with(init, sep)).push(sep)
            + xs.last());
        lemma_split_on_append(seq![sep] + join_with(init, sep), xs.last(), sep);
        assert((seq![Seq::<char>::empty()] + init).push(xs.last()) =~= seq![Seq::<char>::empty()]
            + xs);
    }
}

/// `s` split at every `sep`, as `str::split` does.
pub fn split_chars(cs: &[char], sep: char) -> (pieces: Vec<Vec<char>>)
    ensures
        vec_views(pieces@) == split_on(cs@, sep),
{
    let mut pieces: Vec<Vec<char>> = Vec::new();
    let mut cur: Vec<char> = Vec::new();
    let mut i: usize = 0;
    assert(cs@.take(0) == Seq::<char>::empty());
    while i < cs.len()
        invariant
            i <= cs@.len(),
            vec_views(pieces@).push(cur@) == split_on(cs@.take(i as int), sep),
        decreases cs@.len() - i,
    {
        let c = cs[i];
        proof {
            assert(cs@.take(i + 1).drop_last() == cs@.take(i as int));
            lemma_split_on_len(cs@.take(i as int), sep);
        }
        if c == sep {
            let done = cur;
            pieces.push(done);
            cur = Vec::new();
            assert(vec_views(pieces@) == split_on(cs@.take(i as int), sep));
        } else {
            let ghost before = vec_views(pieces@);
            cur.push(c);
            assert(vec_views(pieces@).push(cur@) == split_on(cs@.take(i as int), sep).update(
                before.len() as int,
                split_on(cs@.take(i as int), sep).last().push(c),
            ));
        }
        i += 1;
    }
    assert(cs@.take(cs@.len() as int) == cs@);
    pieces.push(cur);
    pieces
}

/// `parts` with `sep` between consecutive parts.
pub open spec fn join_with(parts: Seq<Seq<char>>, sep: char) -> Seq<char>
    decreases parts.len(),
{
    if parts.len() == 0 {
        Seq::empty()
    } else if parts.len() == 1 {
        parts[0]
    } else {
        join_with(parts.drop_last(), sep).push(sep) + parts.last()
    }
}

/// Appends `parts` joined by `sep` to `out`.
pub fn push_joined(out: &mut Vec<char>, parts: &Vec<Vec<char>>, sep: char)
    ensures
        final(out)@ == old(out)@ + join_with(vec_views(parts@), sep),
{
    let ghost views = vec_views(parts@);
    let ghost start = out@;
    let mut i: usize = 0;
    while i < parts.len()
        invariant
            i <= parts@.len(),
            views == vec_views(parts@),
            out@ == start + join_with(views.take(i as int), sep),
        decreases parts@.len() - i,
    {
        if i > 0 {
            out.push(sep);
        }
        push_chars(out, parts[i].as_slice());
        proof {
            assert(views.take(i + 1).drop_last() == views.take(i as int));
            if i == 0 {
                assert(views.take(1)[0] == views[0]);
            }
        }
        i += 1;
    }
    assert(views.take(parts@.len() as int) == views);
}

} // verus!
