//! Character classes, scanning and decimal numbers over the characters of a log line.
use vstd::prelude::*;

verus! {

/// The characters of `s`, in order.
pub fn chars_of(s: &str) -> (r: Vec<char>)
    ensures
        r@ == s@,
{
    let mut out: Vec<char> = Vec::new();
    for c in it: s.chars()
        invariant
            out@ == it.seq().take(it.index() as int),
            it.seq() == s@,
    {
        out.push(c);
    }
    out
}

/// A character outside ASCII that the regular-expression class `\d` matches
/// (Unicode `Decimal_Number`).
pub uninterp spec fn unicode_digit(c: char) -> bool;

/// A character outside ASCII that the regular-expression class `\w` matches
/// (Unicode `Alphabetic`, `Join_Control`, `Decimal_Number`, `Mark` or
/// `Connector_Punctuation`).
pub uninterp spec fn unicode_word(c: char) -> bool;

/// Relies on regex's `Regex::is_match` with the pattern `\A\d\z`: whether `\d`
/// matches the character.
#[verifier::external_body]
fn regex_digit(c: char) -> (r: bool)
    ensures
        r == unicode_digit(c),
{
    regex::Regex::new(r"\A\d\z").unwrap().is_match(&c.to_string())
}

/// Relies on regex's `Regex::is_match` with the pattern `\A\w\z`: whether `\w`
/// matches the character.
#[verifier::external_body]
fn regex_word(c: char) -> (r: bool)
    ensures
        r == unicode_word(c),
{
    regex::Regex::new(r"\A\w\z").unwrap().is_match(&c.to_string())
}

pub open spec fn is_ascii_char(c: char) -> bool {
    (c as u32) < 128
}

/// A character of the class `\d`: an ASCII digit, or a digit of another script.
pub open spec fn is_digit_class(c: char) -> bool {
    if is_ascii_char(c) {
        is_digit(c)
    } else {
        unicode_digit(c)
    }
}

/// A character of the class `\w`: an ASCII letter, digit or underscore, or a word
/// character of another script.
pub open spec fn is_word_class(c: char) -> bool {
    if is_ascii_char(c) {
        is_word(c)
    } else {
        unicode_word(c)
    }
}

/// ASCII decimal digit.
pub open spec fn is_digit(c: char) -> bool {
    '0' <= c && c <= '9'
}

/// Word character: ASCII letter, ASCII digit or underscore.
pub open spec fn is_word(c: char) -> bool {
    ('a' <= c && c <= 'z') || ('A' <= c && c <= 'Z') || is_digit(c) || c == '_'
}

/// The Unicode `White_Space` characters (those for which `char::is_whitespace` holds).
pub open spec fn is_space(c: char) -> bool {
    c == ' ' || ('\t' <= c && c <= '\r') || c == '\u{85}' || c == '\u{a0}' || c == '\u{1680}'
        || ('\u{2000}' <= c && c <= '\u{200a}') || c == '\u{2028}' || c == '\u{2029}'
        || c == '\u{202f}' || c == '\u{205f}' || c == '\u{3000}'
}

/// The sets of characters that a field of a log line is made of.
#[derive(Clone, Copy)]
pub enum CharClass {
    Space,
    Word,
    Digit,
    /// Digits and dots, the characters of a dotted-decimal address.
    Address,
}

pub open spec fn in_class(k: CharClass, c: char) -> bool {
    match k {
        CharClass::Space => is_space(c),
        CharClass::Word => is_word_class(c),
        CharClass::Digit => is_digit_class(c),
        CharClass::Address => is_digit_class(c) || c == '.',
    }
}

pub fn class_contains(k: CharClass, c: char) -> (r: bool)
    ensures
        r == in_class(k, c),
{
    match k {
        CharClass::Space => {
            c == ' ' || ('\t' <= c && c <= '\r') || c == '\u{85}' || c == '\u{a0}' || c
                == '\u{1680}' || ('\u{2000}' <= c && c <= '\u{200a}') || c == '\u{2028}' || c
                == '\u{2029}' || c == '\u{202f}' || c == '\u{205f}' || c == '\u{3000}'
        },
        CharClass::Word => {
            if (c as u32) < 128 {
                ('a' <= c && c <= 'z') || ('A' <= c && c <= 'Z') || ('0' <= c && c <= '9') || c
                    == '_'
            } else {
                regex_word(c)
            }
        },
        CharClass::Digit => {
            if (c as u32) < 128 {
                '0' <= c && c <= '9'
            } else {
                regex_digit(c)
            }
        },
        CharClass::Address => {
            if (c as u32) < 128 {
                ('0' <= c && c <= '9') || c == '.'
            } else {
                regex_digit(c)
            }
        },
    }
}

/// End of the longest run of characters of class `k` that starts at `from`.
pub open spec fn run_end(s: Seq<char>, from: int, k: CharClass) -> int
    decreases s.len() - from,
{
    if 0 <= from < s.len() && in_class(k, s[from]) {
        run_end(s, from + 1, k)
    } else {
        from
    }
}

pub proof fn lemma_run_end_bounds(s: Seq<char>, from: int, k: CharClass)
    requires
        0 <= from <= s.len(),
    ensures
        from <= run_end(s, from, k) <= s.len(),
        forall|i: int| from <= i < run_end(s, from, k) ==> in_class(k, #[trigger] s[i]),
        run_end(s, from, k) < s.len() ==> !in_class(k, s[run_end(s, from, k)]),
    decreases s.len() - from,
{
    if from < s.len() && in_class(k, s[from]) {
        lemma_run_end_bounds(s, from + 1, k);
    }
}

/// Returns the end of the run of class `k` that starts at `from`.
pub fn scan_run(s: &Vec<char>, from: usize, k: CharClass) -> (r: usize)
    requires
        from <= s@.len(),
    ensures
        r == run_end(s@, from as int, k),
        from <= r <= s@.len(),
{
    proof {
        lemma_run_end_bounds(s@, from as int, k);
    }
    let mut i = from;
    while i < s.len() && class_contains(k, s[i])
        invariant
            from <= i <= s@.len(),
            run_end(s@, i as int, k) == run_end(s@, from as int, k),
        decreases s@.len() - i,
    {
        i = i + 1;
    }
    i
}

/// `lit` stands in `s` at position `p`.
pub open spec fn has_at(s: Seq<char>, p: int, lit: Seq<char>) -> bool {
    0 <= p && p + lit.len() <= s.len() && s.subrange(p, p + lit.len()) == lit
}

pub fn matches_at(s: &Vec<char>, p: usize, lit: &Vec<char>) -> (r: bool)
    ensures
        r == has_at(s@, p as int, lit@),
{
    if p > s.len() || lit.len() > s.len() - p {
        return false;
    }
    let n = s.len();
    let mut j: usize = 0;
    while j < lit.len()
        invariant
            n == s@.len(),
            p + lit@.len() <= s@.len(),
            j <= lit@.len(),
            forall|i: int| 0 <= i < j ==> s@[p + i] == lit@[i],
        decreases lit@.len() - j,
    {
        if s[p + j] != lit[j] {
            assert(s@.subrange(p as int, p + lit@.len())[j as int] != lit@[j as int]);
            return false;
        }
        j = j + 1;
    }
    assert(s@.subrange(p as int, p + lit@.len()) =~= lit@);
    true
}

/// First position at or after `p` where `lit` stands in `s`.
pub open spec fn find_from(s: Seq<char>, lit: Seq<char>, p: int) -> Option<int>
    decreases s.len() + 1 - p,
{
    if p < 0 || p + lit.len() > s.len() {
        None
    } else if has_at(s, p, lit) {
        Some(p)
    } else {
        find_from(s, lit, p + 1)
    }
}

pub proof fn lemma_find_from(s: Seq<char>, lit: Seq<char>, p: int)
    requires
        0 <= p,
    ensures
        find_from(s, lit, p) matches Some(q) ==> p <= q && has_at(s, q, lit) && forall|i: int|
            p <= i < q ==> !has_at(s, i, lit),
        find_from(s, lit, p) is None ==> forall|i: int| p <= i ==> !has_at(s, i, lit),
    decreases s.len() + 1 - p,
{
    if p + lit.len() <= s.len() && !has_at(s, p, lit) {
        lemma_find_from(s, lit, p + 1);
    }
}

/// Returns the first position at or after `from` where `lit` stands in `s`.
pub fn find_literal(s: &Vec<char>, lit: &Vec<char>, from: usize) -> (r: Option<usize>)
    ensures
        r matches Some(q) ==> find_from(s@, lit@, from as int) == Some(q as int),
        r is None ==> find_from(s@, lit@, from as int) is None,
{
    let n = s.len();
    if lit.len() == 0 {
        if from <= n {
            assert(s@.subrange(from as int, from as int) =~= lit@);
            return Some(from);
        }
        return None;
    }
    let mut p = from;
    while p <= n && lit.len() <= n - p
        invariant
            n == s@.len(),
            lit@.len() > 0,
            from <= p,
            find_from(s@, lit@, p as int) == find_from(s@, lit@, from as int),
        decreases s@.len() + 1 - p,
    {
        if matches_at(s, p, lit) {
            return Some(p);
        }
        p = p + 1;
    }
    None
}

/// First place at or after `p` where `key` is followed by at least one character of
/// class `k`: the bounds of that run of `k`.
pub open spec fn keyed_run_from(s: Seq<char>, key: Seq<char>, k: CharClass, p: int) -> Option<
    (int, int),
>
    decreases s.len() + 1 - p,
{
    if p < 0 || p + key.len() >= s.len() {
        None
    } else if has_at(s, p, key) && in_class(k, s[p + key.len()]) {
        Some((p + key.len(), run_end(s, p + key.len(), k)))
    } else {
        keyed_run_from(s, key, k, p + 1)
    }
}

/// The first run of class `k` that directly follows `key` in `s`.
pub open spec fn keyed_run(s: Seq<char>, key: Seq<char>, k: CharClass) -> Option<(int, int)> {
    keyed_run_from(s, key, k, 0)
}

pub proof fn lemma_keyed_run_from_bounds(s: Seq<char>, key: Seq<char>, k: CharClass, p: int)
    requires
        0 <= p,
    ensures
        keyed_run_from(s, key, k, p) matches Some((a, b)) ==> 0 <= a <= b <= s.len(),
    decreases s.len() + 1 - p,
{
    if p + key.len() < s.len() {
        if has_at(s, p, key) && in_class(k, s[p + key.len()]) {
            lemma_run_end_bounds(s, p + key.len(), k);
        } else {
            lemma_keyed_run_from_bounds(s, key, k, p + 1);
        }
    }
}

/// Returns the bounds of the first run of class `k` that directly follows `key` in `s`.
pub fn find_keyed_run(s: &Vec<char>, key: &Vec<char>, k: CharClass) -> (r: Option<(usize, usize)>)
    ensures
        r matches Some((a, b)) ==> keyed_run(s@, key@, k) == Some((a as int, b as int)) && a <= b
            <= s@.len(),
        r is None ==> keyed_run(s@, key@, k) is None,
{
    let n = s.len();
    let mut p: usize = 0;
    while p < n && key.len() < n - p
        invariant
            n == s@.len(),
            keyed_run_from(s@, key@, k, p as int) == keyed_run(s@, key@, k),
        decreases n - p,
    {
        if matches_at(s, p, key) && class_contains(k, s[p + key.len()]) {
            let a = p + key.len();
            let b = scan_run(s, a, k);
            return Some((a, b));
        }
        p = p + 1;
    }
    None
}

/// Number of times `c` occurs in `s`.
pub open spec fn count_char(s: Seq<char>, c: char) -> nat
    decreases s.len(),
{
    if s.len() == 0 {
        0
    } else {
        count_char(s.drop_last(), c) + if s.last() == c {
            1nat
        } else {
            0nat
        }
    }
}

/// Counts the occurrences of `c` in `s[from..]`.
pub fn count_from(s: &Vec<char>, from: usize, c: char) -> (r: usize)
    requires
        from <= s@.len(),
    ensures
        r == count_char(s@.subrange(from as int, s@.len() as int), c),
{
    let ghost t = s@.subrange(from as int, s@.len() as int);
    let n = s.len();
    let mut i = from;
    let mut count: usize = 0;
    while i < n
        invariant
            n == s@.len(),
            from <= i <= n,
            t == s@.subrange(from as int, n as int),
            count == count_char(t.take(i - from), c),
            count <= i - from,
        decreases n - i,
    {
        assert(t.take(i + 1 - from).drop_last() =~= t.take(i - from));
        assert(t[i - from] == s@[i as int]);
        if s[i] == c {
            count = count + 1;
        }
        i = i + 1;
    }
    assert(t.take(n - from) =~= t);
    count
}

/// ASCII lower case of one character; other characters are left as they are.
pub open spec fn lower(c: char) -> char {
    if 'A' <= c && c <= 'Z' {
        (((c as u32) + 32) as u8) as char
    } else {
        c
    }
}

pub open spec fn lower_all(s: Seq<char>) -> Seq<char> {
    s.map_values(|c: char| lower(c))
}

/// `s[start..end]`, in lower case, equals `lit`.
pub fn lower_equals(s: &Vec<char>, start: usize, end: usize, lit: &Vec<char>) -> (r: bool)
    requires
        start <= end <= s@.len(),
    ensures
        r == (lower_all(s@.subrange(start as int, end as int)) == lit@),
{
    let ghost t = s@.subrange(start as int, end as int);
    if end - start != lit.len() {
        assert(lower_all(t).len() != lit@.len());
        return false;
    }
    let mut j: usize = 0;
    while j < lit.len()
        invariant
            start <= end <= s@.len(),
            t == s@.subrange(start as int, end as int),
            end - start == lit@.len(),
            j <= lit@.len(),
            forall|i: int| 0 <= i < j ==> lower_all(t)[i] == lit@[i],
        decreases lit@.len() - j,
    {
        let c = s[start + j];
        assert(t[j as int] == c);
        let l = if 'A' <= c && c <= 'Z' {
            (((c as u32) + 32) as u8) as char
        } else {
            c
        };
        if l != lit[j] {
            assert(lower_all(t)[j as int] != lit@[j as int]);
            return false;
        }
        j = j + 1;
    }
    assert(lower_all(t) =~= lit@);
    true
}

/// Numeric value of a character that is an ASCII digit.
pub open spec fn digit_value(c: char) -> nat {
    (c as int - '0' as int) as nat
}

/// Value of a string of ASCII digits, read in base ten.
pub open spec fn digits_value(s: Seq<char>) -> nat
    decreases s.len(),
{
    if s.len() == 0 {
        0
    } else {
        digits_value(s.drop_last()) * 10 + digit_value(s.last())
    }
}

pub open spec fn all_digits(s: Seq<char>) -> bool {
    forall|i: int| 0 <= i < s.len() ==> is_digit(#[trigger] s[i])
}

/// A port number written in decimal: one or more digits, leading zeros allowed,
/// at most 65535.
pub open spec fn port_of(s: Seq<char>) -> Option<u16> {
    if s.len() > 0 && all_digits(s) && digits_value(s) <= 65535 {
        Some(digits_value(s) as u16)
    } else {
        None
    }
}

pub proof fn lemma_digits_value_grows(s: Seq<char>, i: int)
    requires
        0 <= i <= s.len(),
        all_digits(s),
    ensures
        digits_value(s.take(i)) <= digits_value(s),
    decreases s.len() - i,
{
    if i < s.len() {
        lemma_digits_value_grows(s, i + 1);
        assert(s.take(i + 1).drop_last() =~= s.take(i));
    } else {
        assert(s.take(i) =~= s);
    }
}

/// Reads the decimal value of `s[start..end]` as a port number.
pub fn parse_port(s: &Vec<char>, start: usize, end: usize) -> (r: Option<u16>)
    requires
        start <= end <= s@.len(),
    ensures
        r == port_of(s@.subrange(start as int, end as int)),
{
    let ghost t = s@.subrange(start as int, end as int);
    if start == end {
        return None;
    }
    let mut value: u32 = 0;
    let mut i = start;
    while i < end
        invariant
            start <= i <= end <= s@.len(),
            t == s@.subrange(start as int, end as int),
            value <= 65535,
            all_digits(t.take(i - start)),
            value == digits_value(t.take(i - start)),
        decreases end - i,
    {
        let c = s[i];
        assert(t[i - start] == c);
        if !('0' <= c && c <= '9') {
            assert(!all_digits(t));
            return None;
        }
        assert(t.take(i + 1 - start).drop_last() =~= t.take(i - start));
        value = value * 10 + (c as u32 - '0' as u32);
        i = i + 1;
        if value > 65535 {
            proof {
                if all_digits(t) {
                    lemma_digits_value_grows(t, i - start);
                }
            }
            return None;
        }
    }
    assert(t.take(end - start) =~= t);
    Some(value as u16)
}

/// The decimal digit character for `d < 10`.
pub open spec fn digit_char(d: nat) -> char {
    ((d + 48) as u32) as char
}

/// Decimal representation of `n`, without leading zeros.
pub open spec fn decimal(n: nat) -> Seq<char>
    decreases n,
{
    if n < 10 {
        seq![digit_char(n)]
    } else {
        decimal(n / 10).push(digit_char(n % 10))
    }
}

fn digit_text(d: u128) -> (r: &'static str)
    requires
        d < 10,
    ensures
        r@ == seq![digit_char(d as nat)],
{
    if d == 0 {
        proof { reveal_strlit("0"); }
        "0"
    } else if d == 1 {
        proof { reveal_strlit("1"); }
        "1"
    } else if d == 2 {
        proof { reveal_strlit("2"); }
        "2"
    } else if d == 3 {
        proof { reveal_strlit("3"); }
        "3"
    } else if d == 4 {
        proof { reveal_strlit("4"); }
        "4"
    } else if d == 5 {
        proof { reveal_strlit("5"); }
        "5"
    } else if d == 6 {
        proof { reveal_strlit("6"); }
        "6"
    } else if d == 7 {
        proof { reveal_strlit("7"); }
        "7"
    } else if d == 8 {
        proof { reveal_strlit("8"); }
        "8"
    } else {
        proof { reveal_strlit("9"); }
        "9"
    }
}

/// Appends the decimal representation of `n` to `out`.
pub fn push_decimal(out: &mut String, n: u128)
    ensures
        final(out)@ == old(out)@ + decimal(n as nat),
    decreases n,
{
    if n >= 10 {
        push_decimal(out, n / 10);
    }
    out.append(digit_text(n % 10));
}

/// Appends `s` to `out`.
pub fn push_str(out: &mut String, s: &str)
    ensures
        final(out)@ == old(out)@ + s@,
{
    out.append(s);
}

} // verus!
