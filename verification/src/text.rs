//! Text as sequences of characters: trimming, splitting, searching, ordering and
//! hexadecimal numbers.

use vstd::prelude::*;

verus! {

/// The characters that Unicode gives the property `White_Space`.
pub open spec fn is_white(c: char) -> bool {
    let n = c as int;
    ||| 0x09 <= n <= 0x0d
    ||| n == 0x20
    ||| n == 0x85
    ||| n == 0xa0
    ||| n == 0x1680
    ||| 0x2000 <= n <= 0x200a
    ||| n == 0x2028
    ||| n == 0x2029
    ||| n == 0x202f
    ||| n == 0x205f
    ||| n == 0x3000
}

/// `s` without its leading white space.
pub open spec fn spec_trim_start(s: Seq<char>) -> Seq<char>
    decreases s.len(),
{
    if s.len() > 0 && is_white(s[0]) {
        spec_trim_start(s.drop_first())
    } else {
        s
    }
}

/// `s` without its trailing white space.
pub open spec fn spec_trim_end(s: Seq<char>) -> Seq<char>
    decreases s.len(),
{
    if s.len() > 0 && is_white(s.last()) {
        spec_trim_end(s.drop_last())
    } else {
        s
    }
}

/// `s` without the white space around it.
pub open spec fn spec_trim(s: Seq<char>) -> Seq<char> {
    spec_trim_end(spec_trim_start(s))
}

/// `s` starts with `prefix`.
pub open spec fn has_prefix(s: Seq<char>, prefix: Seq<char>) -> bool {
    prefix.len() <= s.len() && s.subrange(0, prefix.len() as int) == prefix
}

/// `needle` occurs somewhere in `s`.
pub open spec fn has_substring(s: Seq<char>, needle: Seq<char>) -> bool {
    exists|i: int|
        0 <= i <= s.len() - needle.len() && #[trigger] s.subrange(i, i + needle.len()) == needle
}

/// The part of `s` before the first `sep`, or all of `s` where there is none.
pub open spec fn before(s: Seq<char>, sep: char) -> Seq<char>
    decreases s.len(),
{
    if s.len() == 0 || s[0] == sep {
        Seq::empty()
    } else {
        seq![s[0]] + before(s.drop_first(), sep)
    }
}

/// The part of `s` after the first `sep`, if `s` has one.
pub open spec fn after(s: Seq<char>, sep: char) -> Option<Seq<char>>
    decreases s.len(),
{
    if s.len() == 0 {
        None
    } else if s[0] == sep {
        Some(s.drop_first())
    } else {
        after(s.drop_first(), sep)
    }
}

/// What follows the first `sep` is shorter than the whole.
pub proof fn lemma_after_shorter(s: Seq<char>, sep: char)
    ensures
        after(s, sep) matches Some(rest) ==> rest.len() < s.len(),
    decreases s.len(),
{
    if s.len() > 0 && s[0] != sep {
        lemma_after_shorter(s.drop_first(), sep);
    }
}

/// The pieces of `s` between the separators. There is one more of them than
/// there are separators in `s`.
pub open spec fn pieces(s: Seq<char>, sep: char) -> Seq<Seq<char>>
    decreases s.len(),
{
    match after(s, sep) {
        None => seq![s],
        Some(rest) => {
            proof {
                lemma_after_shorter(s, sep);
            }
            seq![before(s, sep)] + pieces(rest, sep)
        },
    }
}

/// `line` without one carriage return at its end.
pub open spec fn without_cr(line: Seq<char>) -> Seq<char> {
    if line.len() > 0 && line.last() == '\r' {
        line.drop_last()
    } else {
        line
    }
}

/// The lines of a text. A line ends with a line feed, or with a carriage return
/// and a line feed; after the last line neither is needed.
pub open spec fn spec_lines(s: Seq<char>) -> Seq<Seq<char>>
    decreases s.len(),
{
    if s.len() == 0 {
        Seq::empty()
    } else {
        match after(s, '\n') {
            None => seq![s],
            Some(rest) => {
                proof {
                    lemma_after_shorter(s, '\n');
                }
                seq![without_cr(before(s, '\n'))] + spec_lines(rest)
            },
        }
    }
}

/// The first of `lines` that starts with `prefix`, without the prefix.
pub open spec fn first_with_prefix(lines: Seq<Seq<char>>, prefix: Seq<char>) -> Option<Seq<char>>
    decreases lines.len(),
{
    if lines.len() == 0 {
        None
    } else if has_prefix(lines[0], prefix) {
        Some(lines[0].subrange(prefix.len() as int, lines[0].len() as int))
    } else {
        first_with_prefix(lines.drop_first(), prefix)
    }
}

/// The value of a hexadecimal digit of either case.
pub open spec fn hex_digit(c: char) -> Option<nat> {
    let n = c as int;
    if 0x30 <= n <= 0x39 {
        Some((n - 0x30) as nat)
    } else if 0x61 <= n <= 0x66 {
        Some((n - 0x61 + 10) as nat)
    } else if 0x41 <= n <= 0x46 {
        Some((n - 0x41 + 10) as nat)
    } else {
        None
    }
}

/// The number that a sequence of hexadecimal digits writes down.
pub open spec fn hex_value(digits: Seq<char>) -> nat
    decreases digits.len(),
{
    if digits.len() == 0 {
        0
    } else {
        hex_value(digits.drop_last()) * 16 + hex_digit(digits.last()).unwrap_or(0)
    }
}

/// The digits of a number that may have a plus sign before them.
pub open spec fn unsigned_digits(s: Seq<char>) -> Seq<char> {
    if s.len() > 0 && s[0] == '+' {
        s.drop_first()
    } else {
        s
    }
}

/// The 32-bit number that `s` writes in hexadecimal: an optional plus sign, at
/// least one digit, nothing else, and no more than 32 bits.
pub open spec fn spec_parse_hex(s: Seq<char>) -> Option<u32> {
    let digits = unsigned_digits(s);
    if digits.len() > 0 && (forall|i: int|
        0 <= i < digits.len() ==> (#[trigger] hex_digit(digits[i])) is Some) && hex_value(digits)
        <= u32::MAX {
        Some(hex_value(digits) as u32)
    } else {
        None
    }
}

/// `a` comes before `b` in the order of code points, or equals it.
pub open spec fn lex_le(a: Seq<char>, b: Seq<char>) -> bool
    decreases a.len(),
{
    if a.len() == 0 {
        true
    } else if b.len() == 0 {
        false
    } else if a[0] == b[0] {
        lex_le(a.drop_first(), b.drop_first())
    } else {
        (a[0] as int) < (b[0] as int)
    }
}

/// A text stands inside any text that was put together around it, and starts the
/// one in which nothing stands before it.
pub proof fn law_substring_is_inside(left: Seq<char>, needle: Seq<char>, right: Seq<char>)
    ensures
        has_substring(left + needle + right, needle),
        has_prefix(needle + right, needle),
{
    let s = left + needle + right;
    let i = left.len() as int;
    assert(s.subrange(i, i + needle.len()) =~= needle);
    assert((needle + right).subrange(0, needle.len() as int) =~= needle);
}

/// Where a text is found in another, that one consists of what is left of it, the
/// text, and what is right of it.
pub proof fn law_substring_has_a_place(s: Seq<char>, needle: Seq<char>)
    requires
        has_substring(s, needle),
    ensures
        exists|l: Seq<char>, r: Seq<char>| s == #[trigger] (l + needle + r),
{
    let i = choose|i: int|
        0 <= i <= s.len() - needle.len() && #[trigger] s.subrange(i, i + needle.len()) == needle;
    let (l, r) = (s.take(i), s.skip(i + needle.len()));
    assert(s =~= l + s.subrange(i, i + needle.len()) + r);
    assert(s == l + needle + r);
}

/// A text that starts with another is that one and something after it.
pub proof fn law_prefix_is_split_off(s: Seq<char>, prefix: Seq<char>)
    requires
        has_prefix(s, prefix),
    ensures
        s == prefix + s.skip(prefix.len() as int),
{
    assert(s =~= s.subrange(0, prefix.len() as int) + s.skip(prefix.len() as int));
}

/// The texts that a sequence of strings holds.
pub open spec fn texts(v: Seq<String>) -> Seq<Seq<char>> {
    v.map_values(|s: String| s@)
}

/// The characters of `s`, one by one.
pub fn chars_of(s: &str) -> (v: Vec<char>)
    ensures
        v@ == s@,
{
    let n: usize = s.unicode_len();
    let mut v: Vec<char> = Vec::with_capacity(n);
    for c in it: s.chars()
        invariant
            v@ == it.seq().take(it.index()),
            it.seq() == s@,
    {
        v.push(c);
        assert(v@ =~= it.seq().take(it.index() + 1));
    }
    assert(v@ =~= s@);
    v
}

/// The code point of `c`.
fn code_point(c: char) -> (n: u32)
    ensures
        n == c as int,
{
    c as u32
}

/// Whether `c` is white space.
pub fn is_whitespace(c: char) -> (r: bool)
    ensures
        r == is_white(c),
{
    let n: u32 = c as u32;
    (0x09 <= n && n <= 0x0d) || n == 0x20 || n == 0x85 || n == 0xa0 || n == 0x1680 || (0x2000 <= n
        && n <= 0x200a) || n == 0x2028 || n == 0x2029 || n == 0x202f || n == 0x205f || n == 0x3000
}

/// Trimming the end stops at `j` where everything from there on is white space
/// and the character before it is not.
proof fn lemma_trim_end_is_take(s: Seq<char>, j: int)
    requires
        0 <= j <= s.len(),
        forall|k: int| j <= k < s.len() ==> is_white(#[trigger] s[k]),
        j > 0 ==> !is_white(s[j - 1]),
    ensures
        spec_trim_end(s) == s.take(j),
    decreases s.len(),
{
    if j < s.len() {
        assert(s.drop_last().take(j) =~= s.take(j));
        lemma_trim_end_is_take(s.drop_last(), j);
    } else {
        assert(s.take(j) =~= s);
    }
}

/// Trimming the start stops at `i` where everything before it is white space and
/// the character there is not.
proof fn lemma_trim_start_is_skip(s: Seq<char>, i: int)
    requires
        0 <= i <= s.len(),
        forall|k: int| 0 <= k < i ==> is_white(#[trigger] s[k]),
        i < s.len() ==> !is_white(s[i]),
    ensures
        spec_trim_start(s) == s.skip(i),
    decreases i,
{
    if i > 0 {
        let t = s.drop_first();
        assert forall|k: int| 0 <= k < i - 1 implies is_white(#[trigger] t[k]) by {
            assert(t[k] == s[k + 1]);
        }
        assert(t.skip(i - 1) =~= s.skip(i));
        lemma_trim_start_is_skip(t, i - 1);
    } else {
        assert(s.skip(0) =~= s);
    }
}

/// `s` without the white space after it.
pub fn trim_end(s: &str) -> (r: &str)
    ensures
        r@ == spec_trim_end(s@),
{
    let cs: Vec<char> = chars_of(s);
    let mut j: usize = cs.len();
    while j > 0 && is_whitespace(cs[j - 1])
        invariant
            j <= cs.len(),
            forall|k: int| j <= k < cs.len() ==> is_white(#[trigger] cs@[k]),
        decreases j,
    {
        j = j - 1;
    }
    proof {
        lemma_trim_end_is_take(cs@, j as int);
        assert(s@.subrange(0, j as int) =~= s@.take(j as int));
    }
    s.substring_char(0, j)
}

/// `s` without the white space around it.
pub fn trim(s: &str) -> (r: &str)
    ensures
        r@ == spec_trim(s@),
{
    let cs: Vec<char> = chars_of(s);
    let n: usize = cs.len();
    let mut i: usize = 0;
    while i < n && is_whitespace(cs[i])
        invariant
            i <= n,
            n == cs.len(),
            forall|k: int| 0 <= k < i ==> is_white(#[trigger] cs@[k]),
        decreases n - i,
    {
        i = i + 1;
    }
    proof {
        lemma_trim_start_is_skip(cs@, i as int);
        assert(s@.subrange(i as int, n as int) =~= s@.skip(i as int));
    }
    trim_end(s.substring_char(i, n))
}

/// Whether `s` starts with `prefix`.
pub fn starts_with(s: &str, prefix: &str) -> (r: bool)
    ensures
        r == has_prefix(s@, prefix@),
{
    let n: usize = prefix.unicode_len();
    if n > s.unicode_len() {
        return false;
    }
    same_text(s.substring_char(0, n), prefix)
}

/// Whether two texts hold the same characters.
pub fn same_text(a: &str, b: &str) -> (r: bool)
    ensures
        r == (a@ == b@),
{
    a.to_owned() == b.to_owned()
}

/// Whether `needle` occurs in `s`.
pub fn contains(s: &str, needle: &str) -> (r: bool)
    ensures
        r == has_substring(s@, needle@),
{
    let n: usize = s.unicode_len();
    let m: usize = needle.unicode_len();
    if m > n {
        return false;
    }
    let mut i: usize = 0;
    while i <= n - m
        invariant
            n == s@.len(),
            m == needle@.len(),
            m <= n,
            i <= n - m + 1,
            forall|k: int| 0 <= k < i ==> #[trigger] s@.subrange(k, k + m) != needle@,
        decreases n - m + 1 - i,
    {
        if same_text(s.substring_char(i, i + m), needle) {
            assert(s@.subrange(i as int, i as int + needle@.len()) == needle@);
            return true;
        }
        if i == n - m {
            assert forall|k: int| 0 <= k <= s@.len() - needle@.len() implies #[trigger] s@.subrange(
                k,
                k + needle@.len(),
            ) != needle@ by {
                assert(s@.subrange(k, k + m) != needle@);
            }
            return false;
        }
        i = i + 1;
    }
    false
}

/// `i` is where the first `sep` stands in `s`.
proof fn lemma_split_at(s: Seq<char>, sep: char, i: int)
    requires
        0 <= i < s.len(),
        s[i] == sep,
        forall|k: int| 0 <= k < i ==> #[trigger] s[k] != sep,
    ensures
        before(s, sep) == s.take(i),
        after(s, sep) == Some(s.skip(i + 1)),
    decreases i,
{
    if i > 0 {
        let t = s.drop_first();
        assert forall|k: int| 0 <= k < i - 1 implies #[trigger] t[k] != sep by {
            assert(t[k] == s[k + 1]);
        }
        lemma_split_at(t, sep, i - 1);
        assert(seq![s[0]] + t.take(i - 1) =~= s.take(i));
        assert(t.skip(i) =~= s.skip(i + 1));
    } else {
        assert(s.take(0) =~= Seq::<char>::empty());
        assert(s.drop_first() =~= s.skip(1));
    }
}

/// Where no `sep` stands in `s`, nothing is split off.
pub proof fn lemma_no_split(s: Seq<char>, sep: char)
    requires
        forall|k: int| 0 <= k < s.len() ==> #[trigger] s[k] != sep,
    ensures
        before(s, sep) == s,
        after(s, sep) is None,
    decreases s.len(),
{
    if s.len() > 0 {
        let t = s.drop_first();
        assert forall|k: int| 0 <= k < t.len() implies #[trigger] t[k] != sep by {
            assert(t[k] == s[k + 1]);
        }
        lemma_no_split(t, sep);
        assert(seq![s[0]] + t =~= s);
    } else {
        assert(s =~= Seq::<char>::empty());
    }
}

/// Splits `s` at its first `sep`: what stands before it, and what stands after
/// it if there is one.
pub fn split_once(s: &str, sep: char) -> (r: (&str, Option<&str>))
    ensures
        r.0@ == before(s@, sep),
        match r.1 {
            Some(rest) => after(s@, sep) == Some(rest@),
            None => after(s@, sep) is None,
        },
{
    let cs: Vec<char> = chars_of(s);
    let n: usize = cs.len();
    let mut i: usize = 0;
    while i < n
        invariant
            i <= n,
            n == cs.len(),
            cs@ == s@,
            forall|k: int| 0 <= k < i ==> #[trigger] cs@[k] != sep,
        decreases n - i,
    {
        if cs[i] == sep {
            proof {
                lemma_split_at(s@, sep, i as int);
                assert(s@.subrange(0, i as int) =~= s@.take(i as int));
                assert(s@.subrange(i + 1, n as int) =~= s@.skip(i + 1));
            }
            return (s.substring_char(0, i), Some(s.substring_char(i + 1, n)));
        }
        i = i + 1;
    }
    proof {
        lemma_no_split(s@, sep);
    }
    (s, None)
}

/// The first line of `s` that starts with `prefix`, without the prefix.
pub fn find_line(s: &str, prefix: &str) -> (r: Option<String>)
    ensures
        match r {
            Some(v) => first_with_prefix(spec_lines(s@), prefix@) == Some(v@),
            None => first_with_prefix(spec_lines(s@), prefix@) is None,
        },
    decreases s@.len(),
{
    if s.unicode_len() == 0 {
        return None;
    }
    let (head, rest) = split_once(s, '\n');
    let n: usize = head.unicode_len();
    let line: &str = if rest.is_some() && n > 0 && head.get_char(n - 1) == '\r' {
        assert(head@.subrange(0, n - 1) =~= head@.drop_last());
        head.substring_char(0, n - 1)
    } else {
        head
    };
    proof {
        lemma_after_shorter(s@, '\n');
        if after(s@, '\n') is None {
            lemma_unsplit(s@, '\n');
            assert(line@ == s@);
            assert(spec_lines(s@) == seq![s@]);
            assert(seq![s@].drop_first() =~= Seq::<Seq<char>>::empty());
        } else {
            assert((seq![without_cr(before(s@, '\n'))] + spec_lines(
                after(s@, '\n')->0,
            )).drop_first() =~= spec_lines(after(s@, '\n')->0));
        }
        assert(spec_lines(s@)[0] == line@);
    }
    if starts_with(line, prefix) {
        let m: usize = prefix.unicode_len();
        return Some(line.substring_char(m, line.unicode_len()).to_owned());
    }
    match rest {
        Some(text) => {
            assert(spec_lines(s@).drop_first() =~= spec_lines(text@));
            assert(first_with_prefix(spec_lines(s@), prefix@) == first_with_prefix(
                spec_lines(text@),
                prefix@,
            ));
            find_line(text, prefix)
        },
        None => {
            assert(spec_lines(s@).drop_first() =~= Seq::<Seq<char>>::empty());
            assert(first_with_prefix(Seq::<Seq<char>>::empty(), prefix@) is None);
            None
        },
    }
}

/// A text without a separator is its own first piece.
pub proof fn lemma_unsplit(s: Seq<char>, sep: char)
    requires
        after(s, sep) is None,
    ensures
        before(s, sep) == s,
    decreases s.len(),
{
    if s.len() > 0 {
        lemma_unsplit(s.drop_first(), sep);
        assert(seq![s[0]] + s.drop_first() =~= s);
    } else {
        assert(s =~= Seq::<char>::empty());
    }
}

/// A longer number is at least as large as what it starts with.
proof fn lemma_hex_value_grows(digits: Seq<char>, k: int)
    requires
        0 <= k <= digits.len(),
    ensures
        hex_value(digits.take(k)) <= hex_value(digits),
    decreases digits.len() - k,
{
    if k < digits.len() {
        assert(digits.take(k + 1).drop_last() =~= digits.take(k));
        lemma_hex_value_grows(digits, k + 1);
    } else {
        assert(digits.take(k) =~= digits);
    }
}

/// The value of a hexadecimal digit.
fn digit_value(c: char) -> (r: Option<u32>)
    ensures
        match r {
            Some(d) => hex_digit(c) == Some(d as nat) && d < 16,
            None => hex_digit(c) is None,
        },
{
    let n: u32 = c as u32;
    if 0x30 <= n && n <= 0x39 {
        Some(n - 0x30)
    } else if 0x61 <= n && n <= 0x66 {
        Some(n - 0x61 + 10)
    } else if 0x41 <= n && n <= 0x46 {
        Some(n - 0x41 + 10)
    } else {
        None
    }
}

/// Reads a hexadecimal number of at most 32 bits.
pub fn parse_hex(s: &str) -> (r: Option<u32>)
    ensures
        r == spec_parse_hex(s@),
{
    let cs: Vec<char> = chars_of(s);
    let n: usize = cs.len();
    let start: usize = if n > 0 && cs[0] == '+' {
        1
    } else {
        0
    };
    let ghost digits = unsigned_digits(s@);
    assert(digits =~= s@.skip(start as int));
    if start == n {
        return None;
    }
    let mut value: u32 = 0;
    let mut i: usize = start;
    assert(digits.take(0) =~= Seq::<char>::empty());
    while i < n
        invariant
            start <= i <= n,
            start < n,
            n == cs.len(),
            cs@ == s@,
            digits == unsigned_digits(s@),
            digits == s@.skip(start as int),
            value == hex_value(digits.take(i - start)),
            forall|k: int| 0 <= k < i - start ==> (#[trigger] hex_digit(digits[k])) is Some,
        decreases n - i,
    {
        let ghost k = i - start;
        assert(digits[k] == cs@[i as int]);
        assert(digits.take(k + 1).drop_last() =~= digits.take(k));
        match digit_value(cs[i]) {
            None => {
                assert(hex_digit(digits[k]) is None);
                return None;
            },
            Some(d) => {
                if value > (u32::MAX - d) / 16 {
                    proof {
                        lemma_hex_value_grows(digits, k + 1);
                    }
                    return None;
                }
                value = value * 16 + d;
            },
        }
        i = i + 1;
    }
    assert(digits.take(digits.len() as int) =~= digits);
    Some(value)
}

/// Any two texts can be ordered.
pub proof fn lemma_lex_total(a: Seq<char>, b: Seq<char>)
    ensures
        lex_le(a, b) || lex_le(b, a),
    decreases a.len(),
{
    if a.len() > 0 && b.len() > 0 {
        if a[0] == b[0] {
            lemma_lex_total(a.drop_first(), b.drop_first());
        } else {
            assert(a[0] as int != b[0] as int);
        }
    }
}

/// The order of texts is transitive.
pub proof fn lemma_lex_transitive(a: Seq<char>, b: Seq<char>, c: Seq<char>)
    requires
        lex_le(a, b),
        lex_le(b, c),
    ensures
        lex_le(a, c),
    decreases a.len(),
{
    if a.len() > 0 && b.len() > 0 && c.len() > 0 && a[0] == b[0] && b[0] == c[0] {
        lemma_lex_transitive(a.drop_first(), b.drop_first(), c.drop_first());
    }
}

/// Texts that agree up to `i` are ordered as what follows.
proof fn lemma_lex_common(a: Seq<char>, b: Seq<char>, i: int)
    requires
        0 <= i <= a.len(),
        i <= b.len(),
        a.take(i) == b.take(i),
    ensures
        lex_le(a, b) == lex_le(a.skip(i), b.skip(i)),
    decreases i,
{
    if i > 0 {
        assert(a[0] == a.take(i)[0] && b[0] == b.take(i)[0]);
        assert(a.drop_first().take(i - 1) =~= a.take(i).drop_first());
        assert(b.drop_first().take(i - 1) =~= b.take(i).drop_first());
        lemma_lex_common(a.drop_first(), b.drop_first(), i - 1);
        assert(a.drop_first().skip(i - 1) =~= a.skip(i));
        assert(b.drop_first().skip(i - 1) =~= b.skip(i));
    } else {
        assert(a.skip(0) =~= a);
        assert(b.skip(0) =~= b);
    }
}

/// Whether `a` comes before `b`, or equals it.
pub fn not_after(a: &str, b: &str) -> (r: bool)
    ensures
        r == lex_le(a@, b@),
{
    let x: Vec<char> = chars_of(a);
    let y: Vec<char> = chars_of(b);
    let mut i: usize = 0;
    while i < x.len() && i < y.len() && x[i] == y[i]
        invariant
            i <= x.len(),
            i <= y.len(),
            x@.take(i as int) =~= y@.take(i as int),
        decreases x.len() - i,
    {
        i = i + 1;
    }
    proof {
        lemma_lex_common(a@, b@, i as int);
        if i < x.len() && i < y.len() {
            assert(a@.skip(i as int)[0] == x@[i as int]);
            assert(b@.skip(i as int)[0] == y@[i as int]);
        }
    }
    if i >= x.len() {
        true
    } else if i >= y.len() {
        false
    } else {
        code_point(x[i]) < code_point(y[i])
    }
}

/// The texts of a sequence stand in order.
pub open spec fn in_order(v: Seq<Seq<char>>) -> bool {
    forall|i: int, j: int| 0 <= i <= j < v.len() ==> lex_le(#[trigger] v[i], #[trigger] v[j])
}

/// A text put in its place keeps the order.
proof fn lemma_insert_keeps_order(v: Seq<Seq<char>>, k: int, x: Seq<char>)
    requires
        in_order(v),
        0 <= k <= v.len(),
        forall|i: int| 0 <= i < k ==> lex_le(#[trigger] v[i], x),
        k < v.len() ==> lex_le(x, v[k]),
    ensures
        in_order(v.insert(k, x)),
{
    let w = v.insert(k, x);
    lemma_lex_total(x, x);
    assert forall|i: int, j: int| 0 <= i <= j < w.len() implies lex_le(
        #[trigger] w[i],
        #[trigger] w[j],
    ) by {
        if i == k && j > k {
            assert(w[j] == v[j - 1]);
            assert(lex_le(v[k], v[j - 1]));
            lemma_lex_transitive(x, v[k], v[j - 1]);
        } else if i < k && j == k {
            assert(w[i] == v[i]);
        } else if j < k {
            assert(w[i] == v[i] && w[j] == v[j]);
        } else if i > k {
            assert(w[i] == v[i - 1] && w[j] == v[j - 1]);
        } else if i < k && j > k {
            assert(w[i] == v[i] && w[j] == v[j - 1]);
        }
    }
}

/// Puts `x` into a sorted list of texts.
pub fn insert_sorted(v: &mut Vec<String>, x: String)
    requires
        in_order(texts(old(v)@)),
    ensures
        in_order(texts(final(v)@)),
        texts(final(v)@).to_multiset() == texts(old(v)@).to_multiset().insert(x@),
{
    let n: usize = v.len();
    let mut k: usize = 0;
    while k < n && not_after(v[k].as_str(), x.as_str())
        invariant
            k <= n,
            n == v.len(),
            v@ == old(v)@,
            forall|i: int| 0 <= i < k ==> lex_le(#[trigger] v@[i]@, x@),
        decreases n - k,
    {
        k = k + 1;
    }
    proof {
        if k < n {
            lemma_lex_total(v@[k as int]@, x@);
        }
        lemma_insert_keeps_order(texts(v@), k as int, x@);
        assert(texts(v@.insert(k as int, x)) =~= texts(v@).insert(k as int, x@));
        vstd::seq_lib::to_multiset_insert(texts(v@), k as int, x@);
    }
    v.insert(k, x);
}

/// A text is split at its first separator: what stands before it and what follows it
/// come back as they were.
pub proof fn law_split_at_the_first(word: Seq<char>, sep: char, rest: Seq<char>)
    requires
        forall|k: int| 0 <= k < word.len() ==> #[trigger] word[k] != sep,
    ensures
        before(word + seq![sep] + rest, sep) == word,
        after(word + seq![sep] + rest, sep) == Some(rest),
        before(word, sep) == word,
        after(word, sep) is None,
{
    let s = word + seq![sep] + rest;
    let i = word.len() as int;
    assert forall|k: int| 0 <= k < i implies #[trigger] s[k] != sep by {
        assert(s[k] == word[k]);
    }
    lemma_split_at(s, sep, i);
    assert(s.take(i) =~= word);
    assert(s.skip(i + 1) =~= rest);
    lemma_no_split(word, sep);
}

/// The pieces of a text are those that were put together with separators between
/// them: the first one, and those of what follows the first separator.
pub proof fn law_pieces_are_what_was_joined(word: Seq<char>, sep: char, rest: Seq<char>)
    requires
        forall|k: int| 0 <= k < word.len() ==> #[trigger] word[k] != sep,
    ensures
        pieces(word + seq![sep] + rest, sep) == seq![word] + pieces(rest, sep),
        pieces(word, sep) == seq![word],
{
    law_split_at_the_first(word, sep, rest);
}

/// One carriage return at the end of a line goes, and nothing else does.
pub proof fn law_one_carriage_return_goes(line: Seq<char>)
    ensures
        without_cr(line + seq!['\r']) == line,
        line.len() > 0 && line.last() != '\r' ==> without_cr(line) == line,
        without_cr(Seq::empty()) == Seq::<char>::empty(),
{
    assert((line + seq!['\r']).drop_last() =~= line);
}

/// The lines of a text are those that were put together with line feeds: the first
/// one, and those of the rest. A text without a line feed is one line, as it is, and
/// no text is none.
pub proof fn law_lines_are_what_was_joined(line: Seq<char>, rest: Seq<char>)
    requires
        forall|k: int| 0 <= k < line.len() ==> #[trigger] line[k] != '\n',
    ensures
        spec_lines(line + seq!['\n'] + rest) == seq![without_cr(line)] + spec_lines(rest),
        line.len() > 0 ==> spec_lines(line) == seq![line],
        spec_lines(Seq::empty()) == Seq::<Seq<char>>::empty(),
{
    law_split_at_the_first(line, '\n', rest);
}

/// Whole lines before a text are lines before its lines.
pub proof fn law_lines_add_up(whole: Seq<char>, rest: Seq<char>)
    requires
        whole.len() == 0 || whole.last() == '\n',
    ensures
        spec_lines(whole + rest) == spec_lines(whole) + spec_lines(rest),
    decreases whole.len(),
{
    if whole.len() == 0 {
        assert(whole + rest =~= rest);
        assert(spec_lines(whole) + spec_lines(rest) =~= spec_lines(rest));
    } else {
        lemma_first_place(whole, '\n', whole.len() - 1);
        let i = choose|i: int|
            0 <= i < whole.len() && whole[i] == '\n' && forall|k: int|
                0 <= k < i ==> #[trigger] whole[k] != '\n';
        let (line, more) = (whole.take(i), whole.skip(i + 1));
        assert(whole =~= line + seq!['\n'] + more);
        assert(whole + rest =~= line + seq!['\n'] + (more + rest));
        if more.len() > 0 {
            assert(more.last() == whole.last());
        }
        law_lines_are_what_was_joined(line, more);
        law_lines_are_what_was_joined(line, more + rest);
        law_lines_add_up(more, rest);
        assert(seq![without_cr(line)] + (spec_lines(more) + spec_lines(rest)) =~= seq![
            without_cr(line),
        ] + spec_lines(more) + spec_lines(rest));
    }
}

/// A character that occurs has a first place.
proof fn lemma_first_place(s: Seq<char>, c: char, at: int)
    requires
        0 <= at < s.len(),
        s[at] == c,
    ensures
        exists|i: int|
            0 <= i < s.len() && s[i] == c && forall|k: int| 0 <= k < i ==> #[trigger] s[k] != c,
    decreases at,
{
    if exists|k: int| 0 <= k < at && s[k] == c {
        let k = choose|k: int| 0 <= k < at && s[k] == c;
        lemma_first_place(s, c, k);
    } else {
        assert(s[at] == c && forall|k: int| 0 <= k < at ==> #[trigger] s[k] != c);
    }
}

/// What is found by a prefix is the rest of the first line that starts with it: the
/// lines before it do not, and lines after it play no part.
pub proof fn law_first_line_is_found(
    lines: Seq<Seq<char>>,
    prefix: Seq<char>,
    rest: Seq<char>,
    more: Seq<Seq<char>>,
)
    requires
        forall|i: int| 0 <= i < lines.len() ==> !has_prefix(#[trigger] lines[i], prefix),
    ensures
        first_with_prefix(lines, prefix) is None,
        first_with_prefix(lines + seq![prefix + rest] + more, prefix) == Some(rest),
        first_with_prefix(lines + more, prefix) == first_with_prefix(more, prefix),
    decreases lines.len(),
{
    let all = lines + seq![prefix + rest] + more;
    if lines.len() == 0 {
        law_substring_is_inside(Seq::empty(), prefix, rest);
        assert(all[0] == prefix + rest);
        assert((prefix + rest).subrange(prefix.len() as int, (prefix + rest).len() as int) =~= rest);
        assert(lines + more =~= more);
    } else {
        let tail = lines.drop_first();
        assert forall|i: int| 0 <= i < tail.len() implies !has_prefix(#[trigger] tail[i], prefix) by {
            assert(tail[i] == lines[i + 1]);
        }
        law_first_line_is_found(tail, prefix, rest, more);
        assert(!has_prefix(lines[0], prefix));
        assert(all[0] == lines[0] && (lines + more)[0] == lines[0]);
        assert(all.drop_first() =~= tail + seq![prefix + rest] + more);
        assert((lines + more).drop_first() =~= tail + more);
    }
}

/// The digits are 0 to 9, and A to F in either case for ten to fifteen; no other
/// character is one.
pub proof fn law_hex_digits(c: char)
    ensures
        hex_digit(c) matches Some(d) ==> d < 16,
        hex_digit(c) is Some <==> ('0' as int <= c as int <= '9' as int) || ('a' as int <= c as int
            <= 'f' as int) || ('A' as int <= c as int <= 'F' as int),
        '0' as int <= c as int <= '9' as int ==> hex_digit(c) == Some((c as int - '0' as int) as nat),
        'a' as int <= c as int <= 'f' as int ==> hex_digit(c) == Some(
            (c as int - 'a' as int + 10) as nat,
        ),
        'A' as int <= c as int <= 'F' as int ==> hex_digit(c) == Some(
            (c as int - 'A' as int + 10) as nat,
        ),
{
}

/// A number is read digit by digit: one more digit makes it sixteen times as large,
/// plus the digit, and is refused where that takes more than 32 bits or where it is
/// no digit. A plus sign before the digits changes nothing.
pub proof fn law_hex_is_read_digit_by_digit(digits: Seq<char>, c: char)
    requires
        digits.len() > 0 ==> digits[0] != '+',
        c != '+',
    ensures
        spec_parse_hex(seq!['+'] + digits.push(c)) == spec_parse_hex(digits.push(c)),
        hex_digit(c) is None ==> spec_parse_hex(digits.push(c)) is None,
        digits.len() == 0 ==> (hex_digit(c) matches Some(d) ==> spec_parse_hex(digits.push(c))
            == Some(d as u32)),
        spec_parse_hex(digits) matches Some(n) ==> (hex_digit(c) matches Some(d)
            ==> spec_parse_hex(digits.push(c)) == if n * 16 + d <= u32::MAX {
            Some((n * 16 + d) as u32)
        } else {
            None
        }),
        digits.len() > 0 && spec_parse_hex(digits) is None ==> spec_parse_hex(digits.push(c)) is None,
        spec_parse_hex(Seq::empty()) is None,
        spec_parse_hex(seq!['+']) is None,
{
    let more = digits.push(c);
    law_hex_digits(c);
    assert(more.drop_last() =~= digits);
    assert(more.last() == c);
    assert(unsigned_digits(more) == more);
    assert((seq!['+'] + more).drop_first() =~= more);
    assert(unsigned_digits(digits) == digits);
    assert(hex_value(more) == hex_value(digits) * 16 + hex_digit(c).unwrap_or(0));
    assert(hex_digit(more[more.len() - 1]) == hex_digit(c));
    assert forall|i: int| 0 <= i < digits.len() implies #[trigger] more[i] == digits[i] by {}
    if digits.len() > 0 && spec_parse_hex(digits) is None {
        if hex_value(digits) <= u32::MAX {
            let i = choose|i: int| 0 <= i < digits.len() && hex_digit(digits[i]) is None;
            assert(hex_digit(more[i]) is None);
        }
    }
    if digits.len() == 0 {
        assert(hex_value(digits) == 0);
    }
    assert(seq!['+'].drop_first() =~= Seq::<char>::empty());
}

/// Texts are ordered as in a dictionary of code points: nothing comes before the
/// empty text, texts that start alike are ordered by what follows, and otherwise the
/// first character that differs decides.
pub proof fn law_order_of_texts(
    start: Seq<char>,
    a: Seq<char>,
    b: Seq<char>,
    c: char,
    d: char,
)
    ensures
        lex_le(Seq::empty(), a),
        a.len() > 0 ==> !lex_le(a, Seq::empty()),
        lex_le(start + a, start + b) == lex_le(a, b),
        (c as int) < (d as int) ==> lex_le(start + seq![c] + a, start + seq![d] + b),
        (c as int) > (d as int) ==> !lex_le(start + seq![c] + a, start + seq![d] + b),
        lex_le(a, a),
        lex_le(a, b) && lex_le(b, a) ==> a == b,
        lex_le(a, b) || lex_le(b, a),
{
    lemma_lex_start(start, a, b);
    lemma_lex_start(start, seq![c] + a, seq![d] + b);
    assert(start + (seq![c] + a) =~= start + seq![c] + a);
    assert(start + (seq![d] + b) =~= start + seq![d] + b);
    lemma_lex_total(a, b);
    lemma_lex_total(a, a);
    lemma_lex_antisymmetric(a, b);
}

/// Texts that start alike are ordered by what follows.
proof fn lemma_lex_start(start: Seq<char>, a: Seq<char>, b: Seq<char>)
    ensures
        lex_le(start + a, start + b) == lex_le(a, b),
    decreases start.len(),
{
    if start.len() == 0 {
        assert(start + a =~= a);
        assert(start + b =~= b);
    } else {
        assert((start + a).drop_first() =~= start.drop_first() + a);
        assert((start + b).drop_first() =~= start.drop_first() + b);
        lemma_lex_start(start.drop_first(), a, b);
    }
}

/// No two texts come before each other.
proof fn lemma_lex_antisymmetric(a: Seq<char>, b: Seq<char>)
    ensures
        lex_le(a, b) && lex_le(b, a) ==> a == b,
    decreases a.len(),
{
    if a.len() > 0 && b.len() > 0 && a[0] == b[0] {
        lemma_lex_antisymmetric(a.drop_first(), b.drop_first());
        if lex_le(a, b) && lex_le(b, a) {
            assert(a =~= seq![a[0]] + a.drop_first());
            assert(b =~= seq![b[0]] + b.drop_first());
        }
    } else if a.len() == 0 && b.len() == 0 {
        assert(a =~= b);
    }
}

/// The texts of a list are those of its strings, one by one, and they stand in order
/// if none comes before one that stands ahead of it.
pub proof fn law_texts_are_one_by_one(v: Seq<String>, i: int, j: int)
    requires
        0 <= i <= j < v.len(),
    ensures
        texts(v).len() == v.len(),
        texts(v)[i] == v[i]@,
        in_order(texts(v)) ==> lex_le(v[i]@, v[j]@),
{
    assert(texts(v)[i] == v[i]@ && texts(v)[j] == v[j]@);
}

} // verus!
