//! Text helpers shared by the message, ledger and script modules: strings are
//! modelled by their sequence of characters, numbers by their decimal digits.
use vstd::prelude::*;

verus! {

/// The character of a decimal digit.
pub open spec fn spec_digit_char(d: int) -> char {
    if d == 0 { '0' }
    else if d == 1 { '1' }
    else if d == 2 { '2' }
    else if d == 3 { '3' }
    else if d == 4 { '4' }
    else if d == 5 { '5' }
    else if d == 6 { '6' }
    else if d == 7 { '7' }
    else if d == 8 { '8' }
    else { '9' }
}

/// The decimal representation of a natural number, without leading zeros
/// ("0" for zero), as `u64::to_string` writes it.
pub open spec fn spec_decimal(n: nat) -> Seq<char>
    decreases n,
{
    if n < 10 {
        seq![spec_digit_char(n as int)]
    } else {
        spec_decimal(n / 10).push(spec_digit_char((n % 10) as int))
    }
}

/// The value of a sequence of decimal digits (the empty sequence is zero).
pub open spec fn spec_digits_value(s: Seq<char>) -> int
    decreases s.len(),
{
    if s.len() == 0 {
        0
    } else {
        spec_digits_value(s.drop_last()) * 10 + spec_char_digit(s.last())
    }
}

/// Whether a character is a decimal digit.
pub open spec fn spec_is_digit(c: char) -> bool {
    '0' <= c && c <= '9'
}

/// The value of a decimal digit character.
pub open spec fn spec_char_digit(c: char) -> int {
    (c as int) - ('0' as int)
}

/// Appends one character to a string.
/// Calls `String::push`, which the documentation says appends the character
/// to the end of the string.
#[verifier::external_body]
pub(crate) fn string_push(s: &mut String, c: char)
    ensures
        final(s)@ == old(s)@.push(c),
{
    s.push(c);
}

/// The character of a decimal digit below ten.
pub fn digit_char(d: u64) -> (c: char)
    requires
        d < 10,
    ensures
        c == spec_digit_char(d as int),
{
    match d {
        0 => '0',
        1 => '1',
        2 => '2',
        3 => '3',
        4 => '4',
        5 => '5',
        6 => '6',
        7 => '7',
        8 => '8',
        _ => '9',
    }
}

/// Appends the decimal representation of `n` to `s`.
pub fn push_decimal(s: &mut String, n: u64)
    ensures
        final(s)@ == old(s)@ + spec_decimal(n as nat),
    decreases n,
{
    if n < 10 {
        string_push(s, digit_char(n));
        assert(spec_decimal(n as nat) =~= seq![spec_digit_char(n as int)]);
    } else {
        push_decimal(s, n / 10);
        string_push(s, digit_char(n % 10));
        assert(old(s)@ + spec_decimal(n as nat) =~= old(s)@ + spec_decimal((n / 10) as nat)
            + seq![spec_digit_char((n % 10) as int)]);
    }
}

/// The decimal representation of `n`.
pub fn u64_to_decimal(n: u64) -> (s: String)
    ensures
        s@ == spec_decimal(n as nat),
{
    let mut s = String::new();
    push_decimal(&mut s, n);
    assert(s@ =~= seq![] + spec_decimal(n as nat));
    s
}

/// The characters of a string slice.
pub fn str_chars(s: &str) -> (v: Vec<char>)
    ensures
        v@ == s@,
{
    let n = s.unicode_len();
    let mut v: Vec<char> = Vec::new();
    let mut i: usize = 0;
    while i < n
        invariant
            n == s@.len(),
            i <= n,
            v@ == s@.subrange(0, i as int),
        decreases n - i,
    {
        v.push(s.get_char(i));
        i += 1;
        assert(v@ =~= s@.subrange(0, i as int));
    }
    assert(s@.subrange(0, n as int) =~= s@);
    v
}

/// A string made of the characters `v[from..to]`.
pub fn string_from_chars(v: &Vec<char>, from: usize, to: usize) -> (s: String)
    requires
        from <= to <= v.len(),
    ensures
        s@ == v@.subrange(from as int, to as int),
{
    let mut s = String::new();
    let mut i = from;
    while i < to
        invariant
            from <= i <= to <= v.len(),
            s@ == v@.subrange(from as int, i as int),
        decreases to - i,
    {
        string_push(&mut s, v[i]);
        i += 1;
        assert(s@ =~= v@.subrange(from as int, i as int));
    }
    s
}

/// Whether two character sequences are equal.
pub fn chars_equal(a: &Vec<char>, b: &Vec<char>) -> (r: bool)
    ensures
        r == (a@ == b@),
{
    if a.len() != b.len() {
        return false;
    }
    let mut i: usize = 0;
    while i < a.len()
        invariant
            a.len() == b.len(),
            i <= a.len(),
            forall|j: int| 0 <= j < i ==> a@[j] == b@[j],
        decreases a.len() - i,
    {
        if a[i] != b[i] {
            return false;
        }
        i += 1;
    }
    assert(a@ =~= b@);
    true
}

/// Whether two string slices hold the same characters.
pub fn str_equal(a: &str, b: &str) -> (r: bool)
    ensures
        r == (a@ == b@),
{
    let va = str_chars(a);
    let vb = str_chars(b);
    chars_equal(&va, &vb)
}

/// A copy of a string.
pub fn copy_string(s: &String) -> (r: String)
    ensures
        r@ == s@,
{
    s.clone()
}

} // verus!

verus! {

/// Whether a character is white space in Unicode's sense (`char::is_whitespace`).
pub open spec fn spec_is_whitespace(c: char) -> bool {
    ||| ('\u{9}' <= c && c <= '\u{d}')
    ||| c == ' '
    ||| c == '\u{85}'
    ||| c == '\u{a0}'
    ||| c == '\u{1680}'
    ||| ('\u{2000}' <= c && c <= '\u{200a}')
    ||| c == '\u{2028}'
    ||| c == '\u{2029}'
    ||| c == '\u{202f}'
    ||| c == '\u{205f}'
    ||| c == '\u{3000}'
}

pub fn is_whitespace(c: char) -> (r: bool)
    ensures
        r == spec_is_whitespace(c),
{
    ('\u{9}' <= c && c <= '\u{d}') || c == ' ' || c == '\u{85}' || c == '\u{a0}' || c == '\u{1680}'
        || ('\u{2000}' <= c && c <= '\u{200a}') || c == '\u{2028}' || c == '\u{2029}'
        || c == '\u{202f}' || c == '\u{205f}' || c == '\u{3000}'
}

/// The sequence without leading white space.
pub open spec fn spec_trim_start(s: Seq<char>) -> Seq<char>
    decreases s.len(),
{
    if s.len() > 0 && spec_is_whitespace(s[0]) { spec_trim_start(s.drop_first()) } else { s }
}

/// The sequence without trailing white space.
pub open spec fn spec_trim_end(s: Seq<char>) -> Seq<char>
    decreases s.len(),
{
    if s.len() > 0 && spec_is_whitespace(s.last()) { spec_trim_end(s.drop_last()) } else { s }
}

/// The sequence without leading and trailing white space (`str::trim`).
pub open spec fn spec_trim(s: Seq<char>) -> Seq<char> {
    spec_trim_end(spec_trim_start(s))
}

/// `v[from..to]` without leading and trailing white space, as bounds into `v`.
pub fn trim_bounds(v: &Vec<char>, from: usize, to: usize) -> (r: (usize, usize))
    requires
        from <= to <= v.len(),
    ensures
        from <= r.0 <= r.1 <= to,
        v@.subrange(r.0 as int, r.1 as int) == spec_trim(v@.subrange(from as int, to as int)),
{
    let mut a = from;
    while a < to && is_whitespace(v[a])
        invariant
            from <= a <= to <= v.len(),
            spec_trim_start(v@.subrange(from as int, to as int)) == spec_trim_start(v@.subrange(a as int, to as int)),
        decreases to - a,
    {
        assert(v@.subrange(a as int, to as int).drop_first() =~= v@.subrange(a + 1, to as int));
        a += 1;
    }
    assert(spec_trim_start(v@.subrange(a as int, to as int)) == v@.subrange(a as int, to as int));
    let mut b = to;
    while b > a && is_whitespace(v[b - 1])
        invariant
            from <= a <= b <= to <= v.len(),
            spec_trim_end(v@.subrange(a as int, to as int)) == spec_trim_end(v@.subrange(a as int, b as int)),
        decreases b - a,
    {
        assert(v@.subrange(a as int, b as int).drop_last() =~= v@.subrange(a as int, b - 1));
        b -= 1;
    }
    (a, b)
}

/// Whether `pat` occurs in `s` at position `i`.
pub open spec fn spec_occurs_at(s: Seq<char>, pat: Seq<char>, i: int) -> bool {
    0 <= i && i + pat.len() <= s.len() && s.subrange(i, i + pat.len()) == pat
}

/// Whether `s` starts with `pat` (`str::starts_with`).
pub open spec fn spec_starts_with(s: Seq<char>, pat: Seq<char>) -> bool {
    spec_occurs_at(s, pat, 0)
}

/// Whether `pat` occurs in `v` at position `i`.
pub fn occurs_at(v: &Vec<char>, pat: &Vec<char>, i: usize) -> (r: bool)
    ensures
        r == spec_occurs_at(v@, pat@, i as int),
{
    if i > v.len() || pat.len() > v.len() - i {
        return false;
    }
    let mut j: usize = 0;
    while j < pat.len()
        invariant
            i + pat.len() <= v.len(),
            j <= pat.len(),
            forall|k: int| 0 <= k < j ==> v@[i + k] == pat@[k],
        decreases pat.len() - j,
    {
        if v[i + j] != pat[j] {
            assert(v@.subrange(i as int, i + pat.len())[j as int] != pat@[j as int]);
            return false;
        }
        j += 1;
    }
    assert(v@.subrange(i as int, i + pat.len()) =~= pat@);
    true
}

/// The position of the first `c` in `s` at or after `from`, if any.
pub open spec fn spec_find_from(s: Seq<char>, c: char, from: int) -> Option<int>
    decreases s.len() - from,
{
    if from < 0 || from >= s.len() {
        None
    } else if s[from] == c {
        Some(from)
    } else {
        spec_find_from(s, c, from + 1)
    }
}

/// The position of the first `c` in `v` at or after `from`, if any.
pub fn find_from(v: &Vec<char>, c: char, from: usize) -> (r: Option<usize>)
    ensures
        r matches Some(i) ==> spec_find_from(v@, c, from as int) == Some(i as int),
        r is None ==> spec_find_from(v@, c, from as int) is None,
{
    let mut i = from;
    while i < v.len()
        invariant
            from <= i,
            spec_find_from(v@, c, from as int) == spec_find_from(v@, c, i as int),
        decreases v.len() - i,
    {
        if v[i] == c {
            return Some(i);
        }
        i += 1;
    }
    None
}

/// Lemma: a found position lies in bounds, holds `c`, and no earlier one does.
pub proof fn lemma_find_from(s: Seq<char>, c: char, from: int)
    requires
        0 <= from,
    ensures
        spec_find_from(s, c, from) matches Some(i) ==> from <= i < s.len() && s[i] == c
            && forall|j: int| from <= j < i ==> s[j] != c,
        spec_find_from(s, c, from) is None ==> forall|j: int| from <= j < s.len() ==> s[j] != c,
    decreases s.len() - from,
{
    if from < s.len() && s[from] != c {
        lemma_find_from(s, c, from + 1);
    }
}

/// The ASCII lower-case form of a character (`char::to_ascii_lowercase`).
pub open spec fn spec_ascii_lower(c: char) -> char {
    if 'A' <= c && c <= 'Z' { ((c as int) + 32) as char } else { c }
}

/// Whether two sequences are equal ignoring ASCII case (`str::eq_ignore_ascii_case`).
pub open spec fn spec_eq_ignore_ascii_case(a: Seq<char>, b: Seq<char>) -> bool {
    a.len() == b.len() && forall|i: int| 0 <= i < a.len() ==> spec_ascii_lower(a[i]) == spec_ascii_lower(b[i])
}

/// The code of the ASCII lower-case form of a character.
fn ascii_lower_code(c: char) -> (r: u32)
    ensures
        r == spec_ascii_lower(c) as u32,
{
    if 'A' <= c && c <= 'Z' {
        (c as u32) + 32
    } else {
        c as u32
    }
}

pub fn eq_ignore_ascii_case(a: &Vec<char>, b: &Vec<char>) -> (r: bool)
    ensures
        r == spec_eq_ignore_ascii_case(a@, b@),
{
    if a.len() != b.len() {
        return false;
    }
    let mut i: usize = 0;
    while i < a.len()
        invariant
            a.len() == b.len(),
            i <= a.len(),
            forall|j: int| 0 <= j < i ==> spec_ascii_lower(a@[j]) == spec_ascii_lower(b@[j]),
        decreases a.len() - i,
    {
        if ascii_lower_code(a[i]) != ascii_lower_code(b[i]) {
            return false;
        }
        i += 1;
    }
    true
}

} // verus!

verus! {

/// The end of the word that starts at `i`: the first white space at or
/// after `i`, or the end of `s`.
pub open spec fn spec_word_end(s: Seq<char>, i: int) -> int
    decreases s.len() - i,
{
    if i < 0 || i >= s.len() || spec_is_whitespace(s[i]) { i } else { spec_word_end(s, i + 1) }
}

pub proof fn lemma_word_end(s: Seq<char>, i: int)
    requires
        0 <= i <= s.len(),
    ensures
        i <= spec_word_end(s, i) <= s.len(),
        i < s.len() && !spec_is_whitespace(s[i]) ==> spec_word_end(s, i) > i,
    decreases s.len() - i,
{
    if i < s.len() && !spec_is_whitespace(s[i]) {
        lemma_word_end(s, i + 1);
    }
}

/// The white-space separated words of `s` from position `i` on
/// (`str::split_whitespace`).
pub open spec fn spec_words_from(s: Seq<char>, i: int) -> Seq<Seq<char>>
    decreases s.len() - i,
{
    if i < 0 || i >= s.len() {
        seq![]
    } else if spec_is_whitespace(s[i]) {
        spec_words_from(s, i + 1)
    } else {
        let e = spec_word_end(s, i);
        proof { lemma_word_end(s, i); }
        if e <= i {
            seq![]
        } else {
            seq![s.subrange(i, e)] + spec_words_from(s, e)
        }
    }
}

/// The white-space separated words of `s`.
pub open spec fn spec_words(s: Seq<char>) -> Seq<Seq<char>> {
    spec_words_from(s, 0)
}

/// The end of the word of `v` that starts at `i`.
fn word_end(v: &Vec<char>, i: usize) -> (e: usize)
    requires
        i <= v.len(),
    ensures
        e == spec_word_end(v@, i as int),
{
    let mut e = i;
    while e < v.len() && !is_whitespace(v[e])
        invariant
            i <= e <= v.len(),
            spec_word_end(v@, i as int) == spec_word_end(v@, e as int),
        decreases v.len() - e,
    {
        e += 1;
    }
    e
}

/// The white-space separated words of `v`.
pub fn words(v: &Vec<char>) -> (r: Vec<Vec<char>>)
    ensures
        r@.len() == spec_words(v@).len(),
        forall|k: int| 0 <= k < r@.len() ==> #[trigger] r@[k]@ == spec_words(v@)[k],
{
    let mut out: Vec<Vec<char>> = Vec::new();
    let ghost mut done: Seq<Seq<char>> = Seq::empty();
    let mut i: usize = 0;
    while i < v.len()
        invariant
            i <= v.len(),
            out@.len() == done.len(),
            forall|k: int| 0 <= k < out@.len() ==> #[trigger] out@[k]@ == done[k],
            done + spec_words_from(v@, i as int) == spec_words(v@),
        decreases v.len() - i,
    {
        if is_whitespace(v[i]) {
            i += 1;
        } else {
            let e = word_end(v, i);
            proof { lemma_word_end(v@, i as int); }
            let mut w: Vec<char> = Vec::new();
            let mut j = i;
            while j < e
                invariant
                    i <= j <= e <= v.len(),
                    w@ == v@.subrange(i as int, j as int),
                decreases e - j,
            {
                w.push(v[j]);
                j += 1;
                assert(w@ =~= v@.subrange(i as int, j as int));
            }
            proof {
                assert(done.push(w@) + spec_words_from(v@, e as int)
                    =~= done + (seq![v@.subrange(i as int, e as int)] + spec_words_from(v@, e as int)));
                done = done.push(w@);
            }
            out.push(w);
            i = e;
        }
    }
    assert(done + Seq::<Seq<char>>::empty() =~= done);
    out
}

/// Where the line that starts at `start` ends and where the next one starts
/// (`str::lines`): a line ends at a line feed, which a carriage return may
/// precede, or at the end of the text.
pub open spec fn spec_line_bounds(s: Seq<char>, start: int) -> (int, int) {
    match spec_find_from(s, '\n', start) {
        Some(i) => (if i > start && s[i - 1] == '\r' { i - 1 } else { i }, i + 1),
        None => (s.len() as int, s.len() as int),
    }
}

/// The line of `s` that starts at `start`, without its line ending.
pub open spec fn spec_line(s: Seq<char>, start: int) -> Seq<char> {
    s.subrange(start, spec_line_bounds(s, start).0)
}

pub fn line_bounds(v: &Vec<char>, start: usize) -> (r: (usize, usize))
    requires
        start <= v.len(),
    ensures
        r.0 as int == spec_line_bounds(v@, start as int).0,
        r.1 as int == spec_line_bounds(v@, start as int).1,
        start <= r.0 <= r.1 <= v.len(),
{
    proof { lemma_find_from(v@, '\n', start as int); }
    match find_from(v, '\n', start) {
        Some(i) => {
            let end = if i > start && v[i - 1] == '\r' { i - 1 } else { i };
            (end, i + 1)
        },
        None => (v.len(), v.len()),
    }
}

} // verus!

verus! {

/// Whether a text is one or more decimal digits.
pub open spec fn spec_all_digits(s: Seq<char>) -> bool {
    s.len() > 0 && forall|i: int| 0 <= i < s.len() ==> spec_is_digit(#[trigger] s[i])
}

/// What `i32::from_str` gives for a text: an optional `+` or `-` sign, then
/// decimal digits whose signed value fits an `i32`; otherwise nothing.
pub open spec fn spec_parse_i32(s: Seq<char>) -> Option<i32> {
    let signed = s.len() > 0 && (s[0] == '-' || s[0] == '+');
    let digits = if signed { s.drop_first() } else { s };
    let magnitude = spec_digits_value(digits);
    let value = if s.len() > 0 && s[0] == '-' { -magnitude } else { magnitude };
    if spec_all_digits(digits) && i32::MIN <= value <= i32::MAX {
        Some(value as i32)
    } else {
        None
    }
}

/// The value of digits is at least that of any prefix of them.
pub proof fn lemma_digits_value_prefix(s: Seq<char>, k: int)
    requires
        0 <= k <= s.len(),
        forall|i: int| 0 <= i < s.len() ==> spec_is_digit(#[trigger] s[i]),
    ensures
        0 <= spec_digits_value(s.take(k)) <= spec_digits_value(s),
    decreases s.len(),
{
    if s.len() > 0 {
        if k == s.len() {
            assert(s.take(k) =~= s);
            lemma_digits_value_prefix(s.drop_last(), k - 1);
        } else {
            assert(s.drop_last().take(k) =~= s.take(k));
            lemma_digits_value_prefix(s.drop_last(), k);
        }
    } else {
        assert(s.take(k) =~= s);
    }
}

/// Parses `v[from..to]` as `i32::from_str` does.
pub fn parse_i32(v: &Vec<char>, from: usize, to: usize) -> (r: Option<i32>)
    requires
        from <= to <= v.len(),
    ensures
        r == spec_parse_i32(v@.subrange(from as int, to as int)),
{
    let ghost s = v@.subrange(from as int, to as int);
    if from == to {
        return None;
    }
    let negative = v[from] == '-';
    let signed = negative || v[from] == '+';
    let start = if signed { from + 1 } else { from };
    let ghost digits = v@.subrange(start as int, to as int);
    assert(digits =~= (if signed { s.drop_first() } else { s }));
    assert(v@.subrange(start as int, start as int) =~= Seq::<char>::empty());
    if start == to {
        return None;
    }
    let mut acc: i64 = 0;
    let mut i = start;
    while i < to
        invariant
            from <= start <= i <= to <= v.len(),
            digits == v@.subrange(start as int, to as int),
            s == v@.subrange(from as int, to as int),
            signed == (s.len() > 0 && (s[0] == '-' || s[0] == '+')),
            negative == (s.len() > 0 && s[0] == '-'),
            digits == (if signed { s.drop_first() } else { s }),
            forall|j: int| start <= j < i ==> spec_is_digit(#[trigger] v@[j]),
            acc == spec_digits_value(v@.subrange(start as int, i as int)),
            0 <= acc <= 0x8000_0000,
        decreases to - i,
    {
        let c = v[i];
        if !(c >= '0' && c <= '9') {
            assert(!spec_is_digit(digits[i - start]));
            return None;
        }
        let d = (c as u32) - ('0' as u32);
        assert(v@.subrange(start as int, i + 1).drop_last() =~= v@.subrange(start as int, i as int));
        acc = acc * 10 + d as i64;
        if acc > 0x8000_0000 {
            proof {
                if spec_all_digits(digits) {
                    assert(digits.take(i + 1 - start) =~= v@.subrange(start as int, i + 1));
                    lemma_digits_value_prefix(digits, i + 1 - start);
                }
            }
            return None;
        }
        i += 1;
    }
    assert(v@.subrange(start as int, i as int) =~= digits);
    assert(spec_all_digits(digits));
    if negative {
        Some((-acc) as i32)
    } else if acc <= 0x7fff_ffff {
        Some(acc as i32)
    } else {
        None
    }
}

} // verus!
