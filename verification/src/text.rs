//! Character-level text utilities shared by the log grammar, the templates
//! and the configuration migrations. Text is handled as `Vec<char>` whose
//! view is the `Seq<char>` of the Unicode scalar values of a string.
use vstd::prelude::*;

verus! {

/// The Unicode `White_Space` property (Unicode 16), which is what both
/// `char::is_whitespace` and the regular-expression class `\s` accept.
pub open spec fn spec_is_white_space(c: char) -> bool {
    let v = c as u32;
    ||| (0x09 <= v && v <= 0x0d)
    ||| v == 0x20
    ||| v == 0x85
    ||| v == 0xa0
    ||| v == 0x1680
    ||| (0x2000 <= v && v <= 0x200a)
    ||| v == 0x2028
    ||| v == 0x2029
    ||| v == 0x202f
    ||| v == 0x205f
    ||| v == 0x3000
}

#[verifier::when_used_as_spec(spec_is_white_space)]
pub fn is_white_space(c: char) -> (r: bool)
    ensures
        r == spec_is_white_space(c),
{
    let v = c as u32;
    (0x09 <= v && v <= 0x0d) || v == 0x20 || v == 0x85 || v == 0xa0 || v == 0x1680 || (0x2000
        <= v && v <= 0x200a) || v == 0x2028 || v == 0x2029 || v == 0x202f || v == 0x205f || v
        == 0x3000
}

/// First code point of each ten-digit block of the Unicode general category
/// `Nd` (Unicode 16), the class `\d` of a Unicode regular expression.
pub open spec fn in_digit_block(v: u32, first: u32) -> bool {
    first <= v && v <= first + 9
}

/// Membership in the Unicode decimal-number category `Nd` (Unicode 16).
pub open spec fn spec_is_decimal_digit(c: char) -> bool {
    let v = c as u32;
    ||| in_digit_block(v, 0x30)
    ||| in_digit_block(v, 0x660)
    ||| in_digit_block(v, 0x6f0)
    ||| in_digit_block(v, 0x7c0)
    ||| in_digit_block(v, 0x966)
    ||| in_digit_block(v, 0x9e6)
    ||| in_digit_block(v, 0xa66)
    ||| in_digit_block(v, 0xae6)
    ||| in_digit_block(v, 0xb66)
    ||| in_digit_block(v, 0xbe6)
    ||| in_digit_block(v, 0xc66)
    ||| in_digit_block(v, 0xce6)
    ||| in_digit_block(v, 0xd66)
    ||| in_digit_block(v, 0xde6)
    ||| in_digit_block(v, 0xe50)
    ||| in_digit_block(v, 0xed0)
    ||| in_digit_block(v, 0xf20)
    ||| in_digit_block(v, 0x1040)
    ||| in_digit_block(v, 0x1090)
    ||| in_digit_block(v, 0x17e0)
    ||| in_digit_block(v, 0x1810)
    ||| in_digit_block(v, 0x1946)
    ||| in_digit_block(v, 0x19d0)
    ||| in_digit_block(v, 0x1a80)
    ||| in_digit_block(v, 0x1a90)
    ||| in_digit_block(v, 0x1b50)
    ||| in_digit_block(v, 0x1bb0)
    ||| in_digit_block(v, 0x1c40)
    ||| in_digit_block(v, 0x1c50)
    ||| in_digit_block(v, 0xa620)
    ||| in_digit_block(v, 0xa8d0)
    ||| in_digit_block(v, 0xa900)
    ||| in_digit_block(v, 0xa9d0)
    ||| in_digit_block(v, 0xa9f0)
    ||| in_digit_block(v, 0xaa50)
    ||| in_digit_block(v, 0xabf0)
    ||| in_digit_block(v, 0xff10)
    ||| in_digit_block(v, 0x104a0)
    ||| in_digit_block(v, 0x10d30)
    ||| in_digit_block(v, 0x10d40)
    ||| in_digit_block(v, 0x11066)
    ||| in_digit_block(v, 0x110f0)
    ||| in_digit_block(v, 0x11136)
    ||| in_digit_block(v, 0x111d0)
    ||| in_digit_block(v, 0x112f0)
    ||| in_digit_block(v, 0x11450)
    ||| in_digit_block(v, 0x114d0)
    ||| in_digit_block(v, 0x11650)
    ||| in_digit_block(v, 0x116c0)
    ||| (0x116d0 <= v && v <= 0x116e3)
    ||| in_digit_block(v, 0x11730)
    ||| in_digit_block(v, 0x118e0)
    ||| in_digit_block(v, 0x11950)
    ||| in_digit_block(v, 0x11bf0)
    ||| in_digit_block(v, 0x11c50)
    ||| in_digit_block(v, 0x11d50)
    ||| in_digit_block(v, 0x11da0)
    ||| in_digit_block(v, 0x11f50)
    ||| in_digit_block(v, 0x16130)
    ||| in_digit_block(v, 0x16a60)
    ||| in_digit_block(v, 0x16ac0)
    ||| in_digit_block(v, 0x16b50)
    ||| in_digit_block(v, 0x16d70)
    ||| in_digit_block(v, 0x1ccf0)
    ||| (0x1d7ce <= v && v <= 0x1d7ff)
    ||| in_digit_block(v, 0x1e140)
    ||| in_digit_block(v, 0x1e2f0)
    ||| in_digit_block(v, 0x1e4f0)
    ||| in_digit_block(v, 0x1e5f1)
    ||| in_digit_block(v, 0x1e950)
    ||| in_digit_block(v, 0x1fbf0)
}

fn digit_block(v: u32, first: u32) -> (r: bool)
    ensures
        r == in_digit_block(v, first),
{
    first <= v && v - first <= 9
}

#[verifier::when_used_as_spec(spec_is_decimal_digit)]
pub fn is_decimal_digit(c: char) -> (r: bool)
    ensures
        r == spec_is_decimal_digit(c),
{
    let v = c as u32;
    if v < 0x80 {
        return digit_block(v, 0x30);
    }
    digit_block(v, 0x660) || digit_block(v, 0x6f0) || digit_block(v, 0x7c0) || digit_block(v, 0x966)
        || digit_block(v, 0x9e6) || digit_block(v, 0xa66) || digit_block(v, 0xae6) || digit_block(
        v,
        0xb66,
    ) || digit_block(v, 0xbe6) || digit_block(v, 0xc66) || digit_block(v, 0xce6) || digit_block(
        v,
        0xd66,
    ) || digit_block(v, 0xde6) || digit_block(v, 0xe50) || digit_block(v, 0xed0) || digit_block(
        v,
        0xf20,
    ) || digit_block(v, 0x1040) || digit_block(v, 0x1090) || digit_block(v, 0x17e0) || digit_block(
        v,
        0x1810,
    ) || digit_block(v, 0x1946) || digit_block(v, 0x19d0) || digit_block(v, 0x1a80) || digit_block(
        v,
        0x1a90,
    ) || digit_block(v, 0x1b50) || digit_block(v, 0x1bb0) || digit_block(v, 0x1c40) || digit_block(
        v,
        0x1c50,
    ) || digit_block(v, 0xa620) || digit_block(v, 0xa8d0) || digit_block(v, 0xa900) || digit_block(
        v,
        0xa9d0,
    ) || digit_block(v, 0xa9f0) || digit_block(v, 0xaa50) || digit_block(v, 0xabf0) || digit_block(
        v,
        0xff10,
    ) || digit_block(v, 0x104a0) || digit_block(v, 0x10d30) || digit_block(v, 0x10d40)
        || digit_block(v, 0x11066) || digit_block(v, 0x110f0) || digit_block(v, 0x11136)
        || digit_block(v, 0x111d0) || digit_block(v, 0x112f0) || digit_block(v, 0x11450)
        || digit_block(v, 0x114d0) || digit_block(v, 0x11650) || digit_block(v, 0x116c0) || (0x116d0
        <= v && v <= 0x116e3) || digit_block(v, 0x11730) || digit_block(v, 0x118e0) || digit_block(
        v,
        0x11950,
    ) || digit_block(v, 0x11bf0) || digit_block(v, 0x11c50) || digit_block(v, 0x11d50)
        || digit_block(v, 0x11da0) || digit_block(v, 0x11f50) || digit_block(v, 0x16130)
        || digit_block(v, 0x16a60) || digit_block(v, 0x16ac0) || digit_block(v, 0x16b50)
        || digit_block(v, 0x16d70) || digit_block(v, 0x1ccf0) || (0x1d7ce <= v && v <= 0x1d7ff)
        || digit_block(v, 0x1e140) || digit_block(v, 0x1e2f0) || digit_block(v, 0x1e4f0)
        || digit_block(v, 0x1e5f1) || digit_block(v, 0x1e950) || digit_block(v, 0x1fbf0)
}

/// `pat` occurs in `s` starting at index `i`.
pub open spec fn has_at(s: Seq<char>, i: int, pat: Seq<char>) -> bool {
    &&& 0 <= i
    &&& i + pat.len() <= s.len()
    &&& s.subrange(i, i + pat.len()) =~= pat
}

/// `pat` occurs somewhere in `s`.
pub open spec fn contains_seq(s: Seq<char>, pat: Seq<char>) -> bool {
    exists|i: int| has_at(s, i, pat)
}

/// Every character of `s[i..j)` is white space.
pub open spec fn all_white(s: Seq<char>, i: int, j: int) -> bool {
    forall|k: int| i <= k < j ==> spec_is_white_space(#[trigger] s[k])
}

/// End of the longest run of white space that starts at `i`.
pub open spec fn ws_run_end(s: Seq<char>, i: int) -> int
    decreases s.len() - i,
{
    if 0 <= i < s.len() && spec_is_white_space(s[i]) {
        ws_run_end(s, i + 1)
    } else {
        i
    }
}

pub proof fn lemma_ws_run_end(s: Seq<char>, i: int)
    requires
        0 <= i <= s.len(),
    ensures
        i <= ws_run_end(s, i) <= s.len(),
        all_white(s, i, ws_run_end(s, i)),
        ws_run_end(s, i) == s.len() || !spec_is_white_space(s[ws_run_end(s, i)]),
    decreases s.len() - i,
{
    if i < s.len() && spec_is_white_space(s[i]) {
        lemma_ws_run_end(s, i + 1);
    }
}

/// Start of the longest run of white space that ends at `j`.
pub open spec fn ws_run_start(s: Seq<char>, j: int) -> int
    decreases j,
{
    if 0 < j <= s.len() && spec_is_white_space(s[j - 1]) {
        ws_run_start(s, j - 1)
    } else {
        j
    }
}

pub proof fn lemma_ws_run_start(s: Seq<char>, j: int)
    requires
        0 <= j <= s.len(),
    ensures
        0 <= ws_run_start(s, j) <= j,
        all_white(s, ws_run_start(s, j), j),
        ws_run_start(s, j) == 0 || !spec_is_white_space(s[ws_run_start(s, j) - 1]),
    decreases j,
{
    if j > 0 && spec_is_white_space(s[j - 1]) {
        lemma_ws_run_start(s, j - 1);
    }
}

/// `s` without leading and trailing white space, as `str::trim` returns it.
pub open spec fn trimmed(s: Seq<char>) -> Seq<char> {
    let start = ws_run_end(s, 0);
    if start == s.len() {
        Seq::empty()
    } else {
        s.subrange(start, ws_run_start(s, s.len() as int))
    }
}

/// `s` without trailing white space, as `str::trim_end` returns it.
pub open spec fn trimmed_end(s: Seq<char>) -> Seq<char> {
    s.subrange(0, ws_run_start(s, s.len() as int))
}

/// The characters of a string slice.
pub fn chars_of(s: &str) -> (r: Vec<char>)
    ensures
        r@ == s@,
{
    let mut r: Vec<char> = Vec::new();
    for c in it: s.chars()
        invariant
            r@ == it.seq().take(it.index() as int),
    {
        r.push(c);
    }
    proof {
        broadcast use vstd::string::group_string_axioms;

    }
    r
}

/// Appends one character to a string (`String::push`).
#[verifier::external_body]
pub(crate) fn push_char(s: &mut String, c: char)
    ensures
        final(s)@ == old(s)@.push(c),
{
    s.push(c);
}

/// The string whose characters are `v`.
pub fn string_of(v: &[char]) -> (r: String)
    ensures
        r@ == v@,
{
    let mut r = String::new();
    let mut i: usize = 0;
    while i < v.len()
        invariant
            i <= v@.len(),
            r@ == v@.take(i as int),
        decreases v@.len() - i,
    {
        push_char(&mut r, v[i]);
        i = i + 1;
        assert(r@ =~= v@.take(i as int));
    }
    assert(v@.take(v@.len() as int) =~= v@);
    r
}

/// A copy of a string slice as an owned string.
pub fn owned(s: &str) -> (r: String)
    ensures
        r@ == s@,
{
    s.to_owned()
}

/// Appends all characters of `v` to `out`.
pub fn append_chars(out: &mut Vec<char>, v: &[char])
    ensures
        final(out)@ == old(out)@ + v@,
{
    let mut i: usize = 0;
    while i < v.len()
        invariant
            i <= v@.len(),
            out@ == old(out)@ + v@.take(i as int),
        decreases v@.len() - i,
    {
        out.push(v[i]);
        i = i + 1;
        assert(out@ =~= old(out)@ + v@.take(i as int));
    }
    assert(v@.take(v@.len() as int) =~= v@);
}

/// Appends the characters of a string slice to `out`.
pub fn append_str(out: &mut Vec<char>, s: &str)
    ensures
        final(out)@ == old(out)@ + s@,
{
    let v = chars_of(s);
    append_chars(out, &v);
}

/// A copy of `s[from..to)`.
pub fn slice_chars(s: &[char], from: usize, to: usize) -> (r: Vec<char>)
    requires
        from <= to <= s@.len(),
    ensures
        r@ == s@.subrange(from as int, to as int),
{
    let mut r: Vec<char> = Vec::new();
    let mut i = from;
    while i < to
        invariant
            from <= i <= to <= s@.len(),
            r@ == s@.subrange(from as int, i as int),
        decreases to - i,
    {
        r.push(s[i]);
        i = i + 1;
        assert(r@ =~= s@.subrange(from as int, i as int));
    }
    r
}

/// Whether `pat` occurs in `s` at index `i`.
pub fn matches_at(s: &[char], i: usize, pat: &[char]) -> (r: bool)
    ensures
        r == has_at(s@, i as int, pat@),
{
    let n = s.len();
    let m = pat.len();
    if i > n || m > n - i {
        return false;
    }
    let mut k: usize = 0;
    while k < m
        invariant
            k <= m,
            m == pat@.len(),
            n == s@.len(),
            i + m <= n,
            forall|x: int| 0 <= x < k ==> s@[i + x] == pat@[x],
        decreases m - k,
    {
        if s[i + k] != pat[k] {
            assert(s@.subrange(i as int, i + pat@.len())[k as int] != pat@[k as int]);
            return false;
        }
        k = k + 1;
    }
    assert(s@.subrange(i as int, i + pat@.len()) =~= pat@);
    true
}

/// The first index at or after `from` at which `pat` occurs in `s`.
pub fn find_from(s: &[char], pat: &[char], from: usize) -> (r: Option<usize>)
    ensures
        match r {
            Some(i) => from <= i && has_at(s@, i as int, pat@) && forall|j: int|
                from <= j < i ==> !has_at(s@, j, pat@),
            None => forall|j: int| from <= j ==> !has_at(s@, j, pat@),
        },
{
    let n = s.len();
    if from > n {
        return None;
    }
    let mut i = from;
    loop
        invariant
            from <= i <= n,
            n == s@.len(),
            forall|j: int| from <= j < i ==> !has_at(s@, j, pat@),
        decreases n - i,
    {
        if matches_at(s, i, pat) {
            return Some(i);
        }
        if i == n {
            return None;
        }
        i = i + 1;
    }
}

/// Whether `pat` occurs anywhere in `s` (`str::contains`).
pub fn contains(s: &[char], pat: &[char]) -> (r: bool)
    ensures
        r == contains_seq(s@, pat@),
{
    match find_from(s, pat, 0) {
        Some(i) => true,
        None => {
            assert(forall|j: int| !has_at(s@, j, pat@)) by {
                assert forall|j: int| !has_at(s@, j, pat@) by {
                    if j < 0 {
                    }
                }
            }
            false
        },
    }
}

/// Whether the characters of the string slice `pat` occur in `s`.
pub fn contains_str(s: &[char], pat: &str) -> (r: bool)
    ensures
        r == contains_seq(s@, pat@),
{
    let p = chars_of(pat);
    contains(s, &p)
}

/// End of the longest run of white space in `s` starting at `i`.
pub fn skip_white(s: &[char], i: usize) -> (r: usize)
    requires
        i <= s@.len(),
    ensures
        r == ws_run_end(s@, i as int),
        i <= r <= s@.len(),
{
    let mut j = i;
    while j < s.len() && is_white_space(s[j])
        invariant
            i <= j <= s@.len(),
            ws_run_end(s@, j as int) == ws_run_end(s@, i as int),
        decreases s@.len() - j,
    {
        j = j + 1;
    }
    proof {
        lemma_ws_run_end(s@, i as int);
    }
    j
}

/// Start of the longest run of white space in `s` that ends at `j`.
pub fn skip_white_back(s: &[char], j: usize) -> (r: usize)
    requires
        j <= s@.len(),
    ensures
        r == ws_run_start(s@, j as int),
        r <= j,
{
    let mut i = j;
    while i > 0 && is_white_space(s[i - 1])
        invariant
            i <= j <= s@.len(),
            ws_run_start(s@, i as int) == ws_run_start(s@, j as int),
        decreases i,
    {
        i = i - 1;
    }
    proof {
        lemma_ws_run_start(s@, j as int);
    }
    i
}

/// `s` without leading and trailing white space (`str::trim`).
pub fn trim(s: &[char]) -> (r: Vec<char>)
    ensures
        r@ == trimmed(s@),
{
    let start = skip_white(s, 0);
    if start == s.len() {
        return Vec::new();
    }
    let end = skip_white_back(s, s.len());
    proof {
        lemma_ws_run_end(s@, 0);
        lemma_ws_run_start(s@, s@.len() as int);
        if end <= start {
            // every character before `start` is white space, so the backward
            // run would have to cover the non-white character at `start`
            assert(all_white(s@, end as int, s@.len() as int));
            assert(spec_is_white_space(s@[start as int]));
        }
    }
    slice_chars(s, start, end)
}

/// `s` without trailing white space (`str::trim_end`).
pub fn trim_end(s: &[char]) -> (r: Vec<char>)
    ensures
        r@ == trimmed_end(s@),
{
    let end = skip_white_back(s, s.len());
    slice_chars(s, 0, end)
}

/// Whether every character of `s` is white space (`str::trim().is_empty()`).
pub fn is_blank(s: &[char]) -> (r: bool)
    ensures
        r == (trimmed(s@).len() == 0),
        r == all_white(s@, 0, s@.len() as int),
{
    let start = skip_white(s, 0);
    proof {
        lemma_ws_run_end(s@, 0);
        if start < s.len() {
            let end = ws_run_start(s@, s@.len() as int);
            lemma_ws_run_start(s@, s@.len() as int);
            assert(!spec_is_white_space(s@[start as int]));
            assert(end > start);
        }
    }
    start == s.len()
}

/// Whether two character sequences are equal.
pub fn chars_eq(a: &[char], b: &[char]) -> (r: bool)
    ensures
        r == (a@ == b@),
{
    if a.len() != b.len() {
        return false;
    }
    let r = matches_at(a, 0, b);
    proof {
        if r {
            assert(a@.subrange(0, b@.len() as int) =~= a@);
        } else {
            assert(a@.subrange(0, b@.len() as int) =~= a@);
        }
    }
    r
}

/// Whether two strings hold the same characters.
pub fn str_eq(a: &str, b: &str) -> (r: bool)
    ensures
        r == (a@ == b@),
{
    let x = chars_of(a);
    let y = chars_of(b);
    chars_eq(&x, &y)
}

/// The decimal digits of `n` (`u64::to_string`).
pub open spec fn decimal_text(n: nat) -> Seq<char>
    decreases n,
{
    if n < 10 {
        seq![digit_char(n)]
    } else {
        decimal_text(n / 10).push(digit_char(n % 10))
    }
}

pub open spec fn digit_char(d: nat) -> char {
    (('0' as u32) + d) as char
}

/// The decimal representation of `n`.
pub fn decimal_chars(n: u64) -> (r: Vec<char>)
    ensures
        r@ == decimal_text(n as nat),
    decreases n,
{
    if n < 10 {
        let c = digit(n as u8);
        let mut r = Vec::new();
        r.push(c);
        assert(r@ =~= seq![digit_char(n as nat)]);
        r
    } else {
        let mut r = decimal_chars(n / 10);
        r.push(digit((n % 10) as u8));
        r
    }
}

fn digit(d: u8) -> (c: char)
    requires
        d < 10,
    ensures
        c == digit_char(d as nat),
{
    match d {
        0 => '0',
        1 => '1',
        2 => '2',
        3 => '3',
        4 => '4',
        5 => '5',
        6 => '6',
        7 => '7',
        8 => '8',
        _ => '9',
    }
}

/// The decimal representation of `n` as a string.
pub fn decimal_string(n: u64) -> (r: String)
    ensures
        r@ == decimal_text(n as nat),
{
    let v = decimal_chars(n);
    string_of(&v)
}

/// The numeric value of an ASCII decimal digit sequence.
pub open spec fn digits_value(s: Seq<char>) -> nat
    decreases s.len(),
{
    if s.len() == 0 {
        0
    } else {
        digits_value(s.drop_last()) * 10 + ((s.last() as u32) - ('0' as u32)) as nat
    }
}

/// `s` is a non-empty sequence of ASCII digits.
pub open spec fn ascii_digits(s: Seq<char>) -> bool {
    s.len() > 0 && forall|k: int| 0 <= k < s.len() ==> '0' <= #[trigger] s[k] && s[k] <= '9'
}

/// What `str::parse::<u64>` returns for a sequence of decimal digits: the
/// value when every digit is ASCII and the value fits, `None` otherwise.
pub open spec fn parsed_u64(s: Seq<char>) -> Option<u64> {
    if ascii_digits(s) && digits_value(s) <= u64::MAX {
        Some(digits_value(s) as u64)
    } else {
        None
    }
}

/// Parses decimal digits as `str::parse::<u64>` does when no sign is given.
pub fn parse_u64(s: &[char]) -> (r: Option<u64>)
    requires
        s@.len() > 0,
        forall|k: int| 0 <= k < s@.len() ==> spec_is_decimal_digit(#[trigger] s@[k]),
    ensures
        r == parsed_u64(s@),
{
    let mut value: u64 = 0;
    let mut i: usize = 0;
    while i < s.len()
        invariant
            i <= s@.len(),
            forall|k: int| 0 <= k < i ==> '0' <= #[trigger] s@[k] && s@[k] <= '9',
            value as nat == digits_value(s@.take(i as int)),
        decreases s@.len() - i,
    {
        let c = s[i];
        proof {
            assert(s@.take(i + 1).drop_last() =~= s@.take(i as int));
        }
        if c < '0' || c > '9' {
            assert(!('0' <= s@[i as int] && s@[i as int] <= '9'));
            return None;
        }
        let d = (c as u32 - '0' as u32) as u64;
        if value > (u64::MAX - d) / 10 {
            proof {
                if ascii_digits(s@) {
                    lemma_digits_prefix_monotone(s@, i as int + 1);
                }
            }
            return None;
        }
        value = value * 10 + d;
        i = i + 1;
    }
    assert(s@.take(s@.len() as int) =~= s@);
    Some(value)
}

proof fn lemma_digits_prefix_monotone(s: Seq<char>, n: int)
    requires
        0 <= n <= s.len(),
        forall|k: int| 0 <= k < s.len() ==> '0' <= #[trigger] s[k] && s[k] <= '9',
    ensures
        digits_value(s.take(n)) <= digits_value(s),
    decreases s.len() - n,
{
    if n < s.len() {
        lemma_digits_prefix_monotone(s, n + 1);
        assert(s.take(n + 1).drop_last() =~= s.take(n));
    } else {
        assert(s.take(n) =~= s);
    }
}

} // verus!

verus! {

/// `s` with every non-overlapping occurrence of the non-empty `pat`,
/// scanning from the left, replaced by `rep` (`str::replace`).
pub open spec fn replaced(s: Seq<char>, pat: Seq<char>, rep: Seq<char>) -> Seq<char>
    decreases s.len(),
{
    if pat.len() == 0 || s.len() == 0 {
        s
    } else if s.len() >= pat.len() && s.take(pat.len() as int) =~= pat {
        rep + replaced(s.skip(pat.len() as int), pat, rep)
    } else {
        seq![s[0]] + replaced(s.skip(1), pat, rep)
    }
}

/// Replaces every occurrence of the non-empty `pat` in `s` by `rep`.
pub fn replace_all(s: &[char], pat: &[char], rep: &[char]) -> (r: Vec<char>)
    requires
        pat@.len() > 0,
    ensures
        r@ == replaced(s@, pat@, rep@),
{
    let n = s.len();
    let m = pat.len();
    let mut out: Vec<char> = Vec::new();
    let mut i: usize = 0;
    assert(s@.skip(0) =~= s@);
    while i < n
        invariant
            i <= n,
            n == s@.len(),
            m == pat@.len(),
            m > 0,
            out@ + replaced(s@.skip(i as int), pat@, rep@) == replaced(s@, pat@, rep@),
        decreases n - i,
    {
        let ghost rest = s@.skip(i as int);
        if matches_at(s, i, pat) {
            assert(rest.take(m as int) =~= pat@);
            assert(rest.skip(m as int) =~= s@.skip(i + m));
            let ghost out0 = out@;
            append_chars(&mut out, rep);
            assert(out@ + replaced(s@.skip(i + m), pat@, rep@) =~= out0 + (rep@ + replaced(
                s@.skip(i + m),
                pat@,
                rep@,
            )));
            i = i + m;
        } else {
            assert(!(rest.len() >= pat@.len() && rest.take(m as int) =~= pat@)) by {
                if rest.len() >= pat@.len() && rest.take(m as int) =~= pat@ {
                    assert(s@.subrange(i as int, i + m) =~= rest.take(m as int));
                }
            }
            assert(rest.skip(1) =~= s@.skip(i + 1));
            let ghost out0 = out@;
            out.push(s[i]);
            assert(rest[0] == s@[i as int]);
            assert(out@ + replaced(s@.skip(i + 1), pat@, rep@) =~= out0 + (seq![s@[i as int]]
                + replaced(s@.skip(i + 1), pat@, rep@)));
            i = i + 1;
        }
    }
    assert(s@.skip(n as int) =~= Seq::<char>::empty());
    assert(out@ + Seq::<char>::empty() =~= out@);
    out
}


} // verus!
