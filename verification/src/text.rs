//! Character-level models of the string operations the library uses, and the
//! std string functions behind them.
//!
//! Every model works on `Seq<char>`, the view of `str` and `String`.
use vstd::prelude::*;

verus! {

/// Rust's `char::is_whitespace`: the Unicode `White_Space` property.
pub open spec fn is_white_space(c: char) -> bool {
    let u = c as u32;
    ||| 0x9 <= u <= 0xd
    ||| u == 0x20
    ||| u == 0x85
    ||| u == 0xa0
    ||| u == 0x1680
    ||| 0x2000 <= u <= 0x200a
    ||| u == 0x2028
    ||| u == 0x2029
    ||| u == 0x202f
    ||| u == 0x205f
    ||| u == 0x3000
}

/// `s` without its leading white space.
pub open spec fn trim_start_text(s: Seq<char>) -> Seq<char>
    decreases s.len(),
{
    if s.len() > 0 && is_white_space(s[0]) {
        trim_start_text(s.drop_first())
    } else {
        s
    }
}

/// `s` without its trailing white space.
pub open spec fn trim_end_text(s: Seq<char>) -> Seq<char>
    decreases s.len(),
{
    if s.len() > 0 && is_white_space(s.last()) {
        trim_end_text(s.drop_last())
    } else {
        s
    }
}

/// `str::trim`: white space removed at both ends.
pub open spec fn trim_text(s: Seq<char>) -> Seq<char> {
    trim_end_text(trim_start_text(s))
}

/// Index of the first occurrence of `pat` in `s` at or after `i`.
pub open spec fn find_from(s: Seq<char>, pat: Seq<char>, i: int) -> Option<int>
    decreases s.len() + 1 - i,
{
    if i < 0 || i + pat.len() > s.len() {
        None
    } else if s.subrange(i, i + pat.len()) == pat {
        Some(i)
    } else {
        find_from(s, pat, i + 1)
    }
}

/// Index of the first occurrence of `pat` in `s` (`str::find` counted in chars).
pub open spec fn find_text(s: Seq<char>, pat: Seq<char>) -> Option<int> {
    find_from(s, pat, 0)
}

/// `str::contains`.
pub open spec fn contains_text(s: Seq<char>, pat: Seq<char>) -> bool {
    find_text(s, pat) is Some
}

/// `pat` stands in `s` at position `i`.
pub open spec fn occurs_at(s: Seq<char>, pat: Seq<char>, i: int) -> bool {
    0 <= i && i + pat.len() <= s.len() && s.subrange(i, i + pat.len()) == pat
}

/// What stands in a text still stands there with text put after it.
pub proof fn lemma_occurs_before(s: Seq<char>, after: Seq<char>, pat: Seq<char>, i: int)
    requires
        occurs_at(s, pat, i),
    ensures
        occurs_at(s + after, pat, i),
{
    assert((s + after).subrange(i, i + pat.len()) =~= s.subrange(i, i + pat.len()));
}

/// What stands in a text still stands there with text put in front of it,
/// moved by the length of what was put there.
pub proof fn lemma_occurs_after(before: Seq<char>, s: Seq<char>, pat: Seq<char>, i: int)
    requires
        occurs_at(s, pat, i),
    ensures
        occurs_at(before + s, pat, before.len() + i),
{
    assert((before + s).subrange(before.len() + i, before.len() + i + pat.len()) =~= s.subrange(
        i,
        i + pat.len(),
    ));
}

/// A text stands at the end of what it ends.
pub proof fn lemma_occurs_at_end(before: Seq<char>, pat: Seq<char>)
    ensures
        occurs_at(before + pat, pat, before.len() as int),
{
    assert((before + pat).subrange(before.len() as int, (before.len() + pat.len()) as int) =~= pat);
}

/// What stands in a part of a text stands in the text.
pub proof fn lemma_occurs_nested(s: Seq<char>, part: Seq<char>, pat: Seq<char>, i: int, j: int)
    requires
        occurs_at(s, part, i),
        occurs_at(part, pat, j),
    ensures
        occurs_at(s, pat, i + j),
{
    assert(s.subrange(i + j, i + j + pat.len()) =~= part.subrange(j, j + pat.len()));
}

/// `str::starts_with`.
pub open spec fn starts_with_text(s: Seq<char>, p: Seq<char>) -> bool {
    p.len() <= s.len() && s.take(p.len() as int) == p
}

/// `str::ends_with`.
pub open spec fn ends_with_text(s: Seq<char>, p: Seq<char>) -> bool {
    p.len() <= s.len() && s.skip(s.len() - p.len()) == p
}

/// `str::split_once`: the parts before and after the first occurrence of `pat`.
pub open spec fn split_once_text(s: Seq<char>, pat: Seq<char>) -> Option<(Seq<char>, Seq<char>)> {
    match find_text(s, pat) {
        Some(i) => Some((s.take(i), s.skip(i + pat.len()))),
        None => None,
    }
}

/// The part of `s` before the first occurrence of `pat`, or all of `s`
/// (the first item of `str::split` and of `str::splitn`).
pub open spec fn before_first(s: Seq<char>, pat: Seq<char>) -> Seq<char> {
    match find_text(s, pat) {
        Some(i) => s.take(i),
        None => s,
    }
}

/// Length of the run of non-white-space characters that starts `t`.
pub open spec fn word_len(t: Seq<char>) -> nat
    decreases t.len(),
{
    if t.len() == 0 || is_white_space(t[0]) {
        0
    } else {
        1 + word_len(t.drop_first())
    }
}

pub proof fn lemma_trim_start_shorter(s: Seq<char>)
    ensures
        trim_start_text(s).len() <= s.len(),
        trim_start_text(s).len() > 0 ==> !is_white_space(trim_start_text(s)[0]),
    decreases s.len(),
{
    if s.len() > 0 && is_white_space(s[0]) {
        lemma_trim_start_shorter(s.drop_first());
    }
}

pub proof fn lemma_word_len_bound(t: Seq<char>)
    ensures
        word_len(t) <= t.len(),
        t.len() > 0 && !is_white_space(t[0]) ==> word_len(t) >= 1,
    decreases t.len(),
{
    if t.len() > 0 && !is_white_space(t[0]) {
        lemma_word_len_bound(t.drop_first());
    }
}

/// `str::split_whitespace`: the maximal runs of non-white-space characters.
pub open spec fn words_text(s: Seq<char>) -> Seq<Seq<char>>
    decreases s.len(),
{
    let t = trim_start_text(s);
    if t.len() == 0 {
        Seq::empty()
    } else {
        proof {
            lemma_trim_start_shorter(s);
            lemma_word_len_bound(t);
        }
        let k = word_len(t) as int;
        seq![t.take(k)] + words_text(t.skip(k))
    }
}

pub proof fn lemma_find_from_range(s: Seq<char>, pat: Seq<char>, i: int)
    ensures
        find_from(s, pat, i) matches Some(k) ==> i <= k && k + pat.len() <= s.len()
            && s.subrange(k, k + pat.len()) == pat,
    decreases s.len() + 1 - i,
{
    if i < 0 || i + pat.len() > s.len() {
    } else if s.subrange(i, i + pat.len()) == pat {
    } else {
        lemma_find_from_range(s, pat, i + 1);
    }
}

/// A line with the carriage return of a `\r\n` ending removed.
pub open spec fn strip_cr(l: Seq<char>) -> Seq<char> {
    if l.len() > 0 && l.last() == '\r' {
        l.drop_last()
    } else {
        l
    }
}

/// `str::lines`: lines ended by `\n` or `\r\n`; the last ending is optional.
pub open spec fn lines_text(s: Seq<char>) -> Seq<Seq<char>>
    decreases s.len(),
{
    if s.len() == 0 {
        Seq::empty()
    } else {
        match find_text(s, seq!['\n']) {
            Some(i) => {
                proof {
                    lemma_find_from_range(s, seq!['\n'], 0);
                }
                seq![strip_cr(s.take(i))] + lines_text(s.skip(i + 1))
            },
            None => seq![s],
        }
    }
}

/// ASCII lower case of one character; other characters are left as they are.
pub open spec fn ascii_lower(c: char) -> char {
    if 'A' <= c && c <= 'Z' {
        ((c as u32) + 32) as char
    } else {
        c
    }
}

/// `str::eq_ignore_ascii_case`: equal lengths, and equal characters once
/// ASCII upper-case letters are lowered.
pub open spec fn eq_ignore_ascii_case_text(a: Seq<char>, b: Seq<char>) -> bool {
    a.len() == b.len() && forall|i: int| 0 <= i < a.len() ==> ascii_lower(#[trigger] a[i]) == ascii_lower(b[i])
}

/// `str::replace` of one character by a string.
pub open spec fn replace_char_text(s: Seq<char>, from: char, to: Seq<char>) -> Seq<char>
    decreases s.len(),
{
    if s.len() == 0 {
        s
    } else {
        let head = if s[0] == from { to } else { seq![s[0]] };
        head + replace_char_text(s.drop_first(), from, to)
    }
}

/// `str::trim_end_matches` with one character.
pub open spec fn trim_end_char_text(s: Seq<char>, c: char) -> Seq<char>
    decreases s.len(),
{
    if s.len() > 0 && s.last() == c {
        trim_end_char_text(s.drop_last(), c)
    } else {
        s
    }
}

/// The Unicode lower case mapping of `s`, as `str::to_lowercase` computes it.
pub uninterp spec fn unicode_lowercase(s: Seq<char>) -> Seq<char>;

/// Every character is ASCII.
pub open spec fn is_ascii_text(s: Seq<char>) -> bool {
    forall|i: int| 0 <= i < s.len() ==> (#[trigger] s[i] as u32) < 128
}

/// Each character lowered as ASCII.
pub open spec fn ascii_lowercase_text(s: Seq<char>) -> Seq<char> {
    Seq::new(s.len(), |i: int| ascii_lower(s[i]))
}

/// The character of a decimal digit `d` (0 to 9).
pub open spec fn digit_char(d: nat) -> char {
    ((d + 48) as u32) as char
}

/// Decimal notation of a natural number.
pub open spec fn nat_text(n: nat) -> Seq<char>
    decreases n,
{
    if n < 10 {
        seq![digit_char(n)]
    } else {
        nat_text(n / 10).push(digit_char(n % 10))
    }
}

/// Decimal notation of an integer, as `Display` writes it.
pub open spec fn int_text(i: int) -> Seq<char> {
    if i < 0 {
        seq!['-'] + nat_text((-i) as nat)
    } else {
        nat_text(i as nat)
    }
}

pub open spec fn is_digit(c: char) -> bool {
    '0' <= c && c <= '9'
}

pub open spec fn all_digits(s: Seq<char>) -> bool {
    s.len() > 0 && forall|i: int| 0 <= i < s.len() ==> is_digit(#[trigger] s[i])
}

/// The value of a string of decimal digits.
pub open spec fn digits_value(s: Seq<char>) -> int
    decreases s.len(),
{
    if s.len() == 0 {
        0
    } else {
        digits_value(s.drop_last()) * 10 + ((s.last() as u32) - 48)
    }
}

/// What `str::parse::<i64>` reads: an optional sign, then at least one
/// ASCII digit, with a value that fits in `i64`.
pub open spec fn i64_reading(s: Seq<char>) -> Option<i64> {
    if s.len() > 0 && (s[0] == '-' || s[0] == '+') {
        let d = s.drop_first();
        let v = if s[0] == '-' { -digits_value(d) } else { digits_value(d) };
        if all_digits(d) && i64::MIN <= v <= i64::MAX {
            Some(v as i64)
        } else {
            None
        }
    } else if all_digits(s) && digits_value(s) <= i64::MAX {
        Some(digits_value(s) as i64)
    } else {
        None
    }
}

/// `str::trim`: the text without its leading and trailing white space
/// (characters with the Unicode `White_Space` property), as `trim_text` states.
#[verifier::external_body]
pub(crate) fn trim_str<'a>(s: &'a str) -> (r: &'a str)
    ensures
        r@ == trim_text(s@),
{
    s.trim()
}

/// `str::trim_start`: the text without its leading white space.
#[verifier::external_body]
pub(crate) fn trim_start_str<'a>(s: &'a str) -> (r: &'a str)
    ensures
        r@ == trim_start_text(s@),
{
    s.trim_start()
}

/// `str::contains` with a string pattern: whether `pat` occurs in `s`.
#[verifier::external_body]
pub(crate) fn contains_str(s: &str, pat: &str) -> (r: bool)
    ensures
        r == contains_text(s@, pat@),
{
    s.contains(pat)
}

/// `str::starts_with` with a string pattern: whether `s` begins with `p`.
#[verifier::external_body]
pub(crate) fn starts_with_str(s: &str, p: &str) -> (r: bool)
    ensures
        r == starts_with_text(s@, p@),
{
    s.starts_with(p)
}

/// `str::ends_with` with a string pattern: whether `s` ends with `p`.
#[verifier::external_body]
pub(crate) fn ends_with_str(s: &str, p: &str) -> (r: bool)
    ensures
        r == ends_with_text(s@, p@),
{
    s.ends_with(p)
}

/// `str::strip_prefix` with a string pattern: the rest of `s` after `p`, when `s` begins with `p`.
#[verifier::external_body]
pub(crate) fn strip_prefix_str<'a>(s: &'a str, p: &str) -> (r: Option<&'a str>)
    ensures
        match r {
            Some(rest) => starts_with_text(s@, p@) && rest@ == s@.skip(p@.len() as int),
            None => !starts_with_text(s@, p@),
        },
{
    s.strip_prefix(p)
}

/// `str::split_once` with a string pattern: the parts before and after the
/// first occurrence of `pat`, when there is one.
#[verifier::external_body]
pub(crate) fn split_once_str<'a>(s: &'a str, pat: &str) -> (r: Option<(&'a str, &'a str)>)
    ensures
        match r {
            Some((a, b)) => split_once_text(s@, pat@) == Some((a@, b@)),
            None => split_once_text(s@, pat@) is None,
        },
{
    s.split_once(pat)
}

/// `str::to_lowercase`: the Unicode lower case of the text, named by
/// `unicode_lowercase` (its tables are not written out here); on ASCII text it
/// lowers `A`..`Z` and leaves every other character as it is.
#[verifier::external_body]
pub(crate) fn lowercase_str(s: &str) -> (r: String)
    ensures
        r@ == unicode_lowercase(s@),
        is_ascii_text(s@) ==> r@ == ascii_lowercase_text(s@),
{
    s.to_lowercase()
}

/// `==` on `str`: whether the two texts have the same characters.
#[verifier::external_body]
pub(crate) fn str_equal(a: &str, b: &str) -> (r: bool)
    ensures
        r == (a@ == b@),
{
    a == b
}

/// `str::eq_ignore_ascii_case`: equal lengths, and equal characters once
/// ASCII upper-case letters are lowered.
#[verifier::external_body]
pub(crate) fn eq_ignore_ascii_case_str(a: &str, b: &str) -> (r: bool)
    ensures
        r == eq_ignore_ascii_case_text(a@, b@),
{
    a.eq_ignore_ascii_case(b)
}

/// `str::split_whitespace`, collected: the maximal runs of non-white-space characters, in order.
#[verifier::external_body]
pub(crate) fn words_str<'a>(s: &'a str) -> (r: Vec<&'a str>)
    ensures
        r@.len() == words_text(s@).len(),
        forall|i: int| 0 <= i < r@.len() ==> (#[trigger] r@[i])@ == words_text(s@)[i],
{
    s.split_whitespace().collect()
}

/// `str::lines`, collected: the lines ended by `\n` or `\r\n`, the last one
/// possibly unended, without their endings.
#[verifier::external_body]
pub(crate) fn lines_str<'a>(s: &'a str) -> (r: Vec<&'a str>)
    ensures
        r@.len() == lines_text(s@).len(),
        forall|i: int| 0 <= i < r@.len() ==> (#[trigger] r@[i])@ == lines_text(s@)[i],
{
    s.lines().collect()
}

/// `str::replace` of a character by a string: every occurrence of `from` replaced by `to`.
#[verifier::external_body]
pub(crate) fn replace_char_str(s: &str, from: char, to: &str) -> (r: String)
    ensures
        r@ == replace_char_text(s@, from, to@),
{
    s.replace(from, to)
}

/// `str::trim_end_matches` with a character: `s` without the run of `c` that ends it.
#[verifier::external_body]
pub(crate) fn trim_end_char_str(s: &str, c: char) -> (r: &str)
    ensures
        r@ == trim_end_char_text(s@, c),
{
    s.trim_end_matches(c)
}

/// `str::parse::<i64>`: an optional sign and at least one ASCII digit, with a
/// value in range; `None` for anything else.
#[verifier::external_body]
pub(crate) fn parse_i64_str(s: &str) -> (r: Option<i64>)
    ensures
        r == i64_reading(s@),
{
    s.parse::<i64>().ok()
}

/// `i64::to_string`: decimal notation, with a minus sign for negative values.
#[verifier::external_body]
pub(crate) fn i64_to_text(i: i64) -> (r: String)
    ensures
        r@ == int_text(i as int),
{
    i.to_string()
}

/// `usize::to_string`: decimal notation.
#[verifier::external_body]
pub(crate) fn usize_to_text(n: usize) -> (r: String)
    ensures
        r@ == int_text(n as int),
{
    n.to_string()
}

/// `str::to_string`.
pub fn owned(s: &str) -> (r: String)
    ensures
        r@ == s@,
{
    s.to_owned()
}

/// Concatenation of two strings.
pub fn concat2(a: &str, b: &str) -> (r: String)
    ensures
        r@ == a@ + b@,
{
    let mut r = a.to_owned();
    r.append(b);
    r
}

/// Lexicographic order of texts by their characters' code points, the order of
/// `str`'s `<` (by UTF-8 bytes, which order code points alike).
pub open spec fn text_less(a: Seq<char>, b: Seq<char>) -> bool
    decreases a.len(),
{
    if a.len() == 0 {
        b.len() > 0
    } else if b.len() == 0 {
        false
    } else if a[0] != b[0] {
        a[0] < b[0]
    } else {
        text_less(a.drop_first(), b.drop_first())
    }
}

pub proof fn lemma_text_less_irreflexive(a: Seq<char>)
    ensures
        !text_less(a, a),
    decreases a.len(),
{
    if a.len() > 0 {
        lemma_text_less_irreflexive(a.drop_first());
    }
}

pub proof fn lemma_text_less_transitive(a: Seq<char>, b: Seq<char>, c: Seq<char>)
    requires
        text_less(a, b),
        text_less(b, c),
    ensures
        text_less(a, c),
    decreases a.len(),
{
    if a.len() > 0 && b.len() > 0 && c.len() > 0 && a[0] == b[0] && b[0] == c[0] {
        lemma_text_less_transitive(a.drop_first(), b.drop_first(), c.drop_first());
    }
}

pub proof fn lemma_text_less_total(a: Seq<char>, b: Seq<char>)
    requires
        a != b,
    ensures
        text_less(a, b) || text_less(b, a),
    decreases a.len(),
{
    if a.len() > 0 && b.len() > 0 && a[0] == b[0] {
        if a.drop_first() == b.drop_first() {
            assert(a =~= seq![a[0]] + a.drop_first());
            assert(b =~= seq![b[0]] + b.drop_first());
        }
        lemma_text_less_total(a.drop_first(), b.drop_first());
    } else if a.len() == 0 && b.len() == 0 {
        assert(a =~= b);
    }
}

pub proof fn lemma_text_less_asymmetric(a: Seq<char>, b: Seq<char>)
    requires
        text_less(a, b),
    ensures
        !text_less(b, a),
{
    if text_less(b, a) {
        lemma_text_less_transitive(a, b, a);
        lemma_text_less_irreflexive(a);
    }
}

/// `<` on `str`: lexicographic order, as `text_less` states.
#[verifier::external_body]
pub(crate) fn str_less(a: &str, b: &str) -> (r: bool)
    ensures
        r == text_less(a@, b@),
{
    a < b
}

proof fn lemma_trim_end_prefix(t: Seq<char>)
    ensures
        trim_end_text(t).len() <= t.len(),
        trim_end_text(t) == t.take(trim_end_text(t).len() as int),
        trim_end_text(t).len() > 0 ==> !is_white_space(trim_end_text(t).last()),
    decreases t.len(),
{
    if t.len() > 0 && is_white_space(t.last()) {
        lemma_trim_end_prefix(t.drop_last());
        assert(t.drop_last().take(trim_end_text(t).len() as int) =~= t.take(trim_end_text(t).len() as int));
    } else {
        assert(t.take(t.len() as int) =~= t);
    }
}

proof fn lemma_trim_start_fixed(t: Seq<char>)
    requires
        t.len() > 0 ==> !is_white_space(t[0]),
    ensures
        trim_start_text(t) == t,
{
}

proof fn lemma_trim_end_fixed(t: Seq<char>)
    requires
        t.len() > 0 ==> !is_white_space(t.last()),
    ensures
        trim_end_text(t) == t,
{
}

/// Trimming twice trims as much as trimming once.
pub proof fn lemma_trim_idempotent(s: Seq<char>)
    ensures
        trim_text(trim_text(s)) == trim_text(s),
{
    let a = trim_start_text(s);
    lemma_trim_start_shorter(s);
    let b = trim_end_text(a);
    lemma_trim_end_prefix(a);
    if b.len() > 0 {
        assert(b[0] == a[0]);
    }
    lemma_trim_start_fixed(b);
    lemma_trim_end_fixed(b);
}

} // verus!
