//! Character-level text helpers: whitespace, lowercase, decimal numbers,
//! trimming and splitting, each with a specification over `Seq<char>`.

use vstd::prelude::*;
use vstd::string::StrSliceExecFns;
use vstd::string::StringExecFns;

verus! {

// ---------------------------------------------------------------------------
// Whitespace
// ---------------------------------------------------------------------------

/// The characters with the Unicode `White_Space` property, which is the set
/// that `char::is_whitespace` (and so `str::trim` / `split_whitespace`) uses.
pub open spec fn is_white_space(c: char) -> bool {
    let u = c as u32;
    ||| 0x09 <= u <= 0x0D
    ||| u == 0x20
    ||| u == 0x85
    ||| u == 0xA0
    ||| u == 0x1680
    ||| 0x2000 <= u <= 0x200A
    ||| u == 0x2028
    ||| u == 0x2029
    ||| u == 0x202F
    ||| u == 0x205F
    ||| u == 0x3000
}

pub fn char_is_white_space(c: char) -> (b: bool)
    ensures
        b == is_white_space(c),
{
    let u = c as u32;
    (0x09 <= u && u <= 0x0D) || u == 0x20 || u == 0x85 || u == 0xA0 || u == 0x1680 || (0x2000
        <= u && u <= 0x200A) || u == 0x2028 || u == 0x2029 || u == 0x202F || u == 0x205F || u
        == 0x3000
}

// ---------------------------------------------------------------------------
// Lowercase
// ---------------------------------------------------------------------------

/// What `char::to_lowercase` yields for `c` (the Unicode lowercase mapping).
pub uninterp spec fn char_lowercase(c: char) -> Seq<char>;

/// ASCII lowercase of a single character: `A`..`Z` become `a`..`z`.
pub open spec fn ascii_lowercase(c: char) -> char {
    if 'A' <= c && c <= 'Z' {
        ((c as u32) + 32) as char
    } else {
        c
    }
}

/// `char::to_lowercase`, collected. Its documentation gives the Unicode
/// lowercase mapping; for ASCII characters that is the single ASCII
/// lowercase character, which is all that is stated beyond the name.
#[verifier::external_body]
pub(crate) fn lowercase_of(c: char) -> (r: Vec<char>)
    ensures
        r@ == char_lowercase(c),
        (c as u32) < 128 ==> r@ == seq![ascii_lowercase(c)],
{
    c.to_lowercase().collect()
}

// ---------------------------------------------------------------------------
// Conversions between `str`/`String` and characters
// ---------------------------------------------------------------------------

/// The characters of `s`, in order.
pub fn chars_of(s: &str) -> (v: Vec<char>)
    ensures
        v@ == s@,
{
    let n = s.unicode_len();
    let mut v: Vec<char> = Vec::new();
    let mut i: usize = 0;
    while i < n
        invariant
            n == s@.len(),
            i <= n,
            v@ == s@.subrange(0, i as int),
        decreases n - i,
    {
        let c = s.get_char(i);
        v.push(c);
        i = i + 1;
    }
    v
}

/// Whether two character vectors hold the same characters.
pub fn chars_equal(a: &Vec<char>, b: &Vec<char>) -> (r: bool)
    ensures
        r == (a@ == b@),
{
    if a.len() != b.len() {
        return false;
    }
    let mut i: usize = 0;
    while i < a.len()
        invariant
            a@.len() == b@.len(),
            i <= a@.len(),
            forall|k: int| 0 <= k < i ==> a@[k] == b@[k],
        decreases a.len() - i,
    {
        if a[i] != b[i] {
            return false;
        }
        i = i + 1;
    }
    assert(a@ =~= b@);
    true
}

/// Whether two strings hold the same characters.
pub fn str_equal(a: &str, b: &str) -> (r: bool)
    ensures
        r == (a@ == b@),
{
    let x = chars_of(a);
    let y = chars_of(b);
    chars_equal(&x, &y)
}

/// `String::push`: appends one character.
#[verifier::external_body]
pub(crate) fn push_char(s: &mut String, c: char)
    ensures
        final(s)@ == old(s)@.push(c),
{
    s.push(c);
}

/// Appends every character of `v` to `s`.
pub fn push_chars(s: &mut String, v: &Vec<char>)
    ensures
        final(s)@ == old(s)@ + v@,
{
    let mut i: usize = 0;
    while i < v.len()
        invariant
            i <= v@.len(),
            s@ == old(s)@ + v@.subrange(0, i as int),
        decreases v.len() - i,
    {
        push_char(s, v[i]);
        i = i + 1;
        assert(v@.subrange(0, i as int) == v@.subrange(0, i - 1).push(v@[i - 1]));
    }
    assert(v@.subrange(0, v@.len() as int) == v@);
}

/// The string made of the characters of `v`.
pub fn string_of(v: &Vec<char>) -> (s: String)
    ensures
        s@ == v@,
{
    let mut s = String::new();
    push_chars(&mut s, v);
    s
}

/// A string holding a copy of `t`.
pub fn owned(t: &str) -> (s: String)
    ensures
        s@ == t@,
{
    let mut s = String::new();
    s.append(t);
    s
}

// ---------------------------------------------------------------------------
// Decimal numbers
// ---------------------------------------------------------------------------

/// The ASCII digit for `d` (`d < 10`).
pub open spec fn digit_char(d: nat) -> char {
    if d == 0 {
        '0'
    } else if d == 1 {
        '1'
    } else if d == 2 {
        '2'
    } else if d == 3 {
        '3'
    } else if d == 4 {
        '4'
    } else if d == 5 {
        '5'
    } else if d == 6 {
        '6'
    } else if d == 7 {
        '7'
    } else if d == 8 {
        '8'
    } else {
        '9'
    }
}

pub open spec fn is_digit(c: char) -> bool {
    '0' <= c && c <= '9'
}

/// The value of an ASCII digit.
pub open spec fn digit_value(c: char) -> nat {
    ((c as u32) - ('0' as u32)) as nat
}

/// Decimal representation of `n` without sign or leading zeros, as
/// `Display` writes an unsigned integer.
pub open spec fn decimal(n: nat) -> Seq<char>
    decreases n,
{
    if n < 10 {
        seq![digit_char(n)]
    } else {
        decimal(n / 10).push(digit_char(n % 10))
    }
}

/// Decimal representation of a signed integer, as `Display` writes it.
pub open spec fn signed_decimal(n: int) -> Seq<char> {
    if n < 0 {
        seq!['-'] + decimal((-n) as nat)
    } else {
        decimal(n as nat)
    }
}

/// Value of a string of ASCII digits, most significant first.
pub open spec fn digits_value(s: Seq<char>) -> nat
    decreases s.len(),
{
    if s.len() == 0 {
        0
    } else {
        digits_value(s.drop_last()) * 10 + digit_value(s.last())
    }
}

pub open spec fn all_digits(s: Seq<char>) -> bool {
    forall|i: int| 0 <= i < s.len() ==> is_digit(#[trigger] s[i])
}

/// What `str::parse` of an unsigned integer type accepts, before its range
/// check: an optional `+`, then one or more ASCII digits.
pub open spec fn parse_unsigned(s: Seq<char>) -> Option<nat> {
    let body = if s.len() > 0 && s[0] == '+' {
        s.drop_first()
    } else {
        s
    };
    if body.len() > 0 && all_digits(body) {
        Some(digits_value(body))
    } else {
        None
    }
}

/// `str::parse::<T>()` for an unsigned `T` whose largest value is `max`.
pub open spec fn parse_bounded(s: Seq<char>, max: nat) -> Option<nat> {
    match parse_unsigned(s) {
        Some(v) => if v <= max {
            Some(v)
        } else {
            None
        },
        None => None,
    }
}

pub fn digit_of(d: u64) -> (c: char)
    requires
        d < 10,
    ensures
        c == digit_char(d as nat),
        is_digit(c),
        digit_value(c) == d,
{
    match d {
        0 => '0',
        1 => '1',
        2 => '2',
        3 => '3',
        4 => '4',
        5 => '5',
        6 => '6',
        7 => '7',
        8 => '8',
        _ => '9',
    }
}

pub proof fn lemma_digit_char(d: nat)
    requires
        d < 10,
    ensures
        is_digit(digit_char(d)),
        digit_value(digit_char(d)) == d,
        digit_char(d) != '+',
        digit_char(d) != '-',
        !is_white_space(digit_char(d)),
{
}

/// Appends the decimal representation of `n` to `out`.
pub fn push_decimal(out: &mut Vec<char>, n: u64)
    ensures
        final(out)@ == old(out)@ + decimal(n as nat),
    decreases n,
{
    if n >= 10 {
        push_decimal(out, n / 10);
    }
    let c = digit_of(n % 10);
    out.push(c);
    proof {
        if n >= 10 {
            assert(old(out)@ + decimal(n as nat) == (old(out)@ + decimal((n / 10) as nat)).push(c));
        } else {
            assert(old(out)@ + decimal(n as nat) == old(out)@.push(c));
        }
    }
}

/// Decimal representation of `n`, as `n.to_string()` gives it.
pub fn decimal_string(n: u64) -> (s: String)
    ensures
        s@ == decimal(n as nat),
{
    let mut v: Vec<char> = Vec::new();
    push_decimal(&mut v, n);
    assert(v@ == decimal(n as nat));
    string_of(&v)
}

/// Decimal representation of a signed `n`, as `n.to_string()` gives it.
pub fn signed_decimal_string(n: i64) -> (s: String)
    ensures
        s@ == signed_decimal(n as int),
{
    let mut v: Vec<char> = Vec::new();
    if n < 0 {
        v.push('-');
        let magnitude: u64 = if n == i64::MIN {
            0x8000_0000_0000_0000u64
        } else {
            (-n) as u64
        };
        push_decimal(&mut v, magnitude);
        assert(v@ == seq!['-'] + decimal((-n) as nat));
    } else {
        push_decimal(&mut v, n as u64);
        assert(v@ == decimal(n as nat));
    }
    string_of(&v)
}

pub proof fn lemma_decimal_shape(n: nat)
    ensures
        decimal(n).len() > 0,
        all_digits(decimal(n)),
        digits_value(decimal(n)) == n,
        decimal(n)[0] != '+',
        decimal(n)[0] != '-',
        forall|i: int| 0 <= i < decimal(n).len() ==> !is_white_space(#[trigger] decimal(n)[i]),
    decreases n,
{
    if n < 10 {
        lemma_digit_char(n);
        assert(decimal(n).drop_last() =~= Seq::<char>::empty());
        assert(digits_value(Seq::<char>::empty()) == 0);
        assert(digits_value(decimal(n)) == n);
    } else {
        lemma_decimal_shape(n / 10);
        lemma_digit_char(n % 10);
        let d = decimal(n);
        assert(d.drop_last() == decimal(n / 10));
        assert(digits_value(d) == digits_value(decimal(n / 10)) * 10 + digit_value(
            digit_char(n % 10),
        ));
        assert((n / 10) * 10 + n % 10 == n);
        assert(digits_value(d) == n);
        assert(d[0] == decimal(n / 10)[0]);
        assert forall|i: int| 0 <= i < d.len() implies is_digit(#[trigger] d[i]) by {
            if i < d.len() - 1 {
                assert(d[i] == decimal(n / 10)[i]);
            }
        }
        assert forall|i: int| 0 <= i < d.len() implies !is_white_space(#[trigger] d[i]) by {
            if i < d.len() - 1 {
                assert(d[i] == decimal(n / 10)[i]);
            }
        }
    }
}

/// Reading back what `decimal` writes gives the number again.
pub proof fn lemma_parse_decimal(n: nat, max: nat)
    requires
        n <= max,
    ensures
        parse_unsigned(decimal(n)) == Some(n),
        parse_bounded(decimal(n), max) == Some(n),
{
    lemma_decimal_shape(n);
}

/// A longer prefix of a digit string never has a smaller value.
pub proof fn lemma_digits_value_prefix(s: Seq<char>, i: int, j: int)
    requires
        0 <= i <= j <= s.len(),
        all_digits(s),
    ensures
        digits_value(s.subrange(0, i)) <= digits_value(s.subrange(0, j)),
    decreases j - i,
{
    if i < j {
        lemma_digits_value_prefix(s, i, j - 1);
        assert(s.subrange(0, j).drop_last() == s.subrange(0, j - 1));
    }
}

/// `str::parse::<T>()` for an unsigned `T` whose largest value is `max`.
pub fn parse_unsigned_bounded(s: &Vec<char>, max: u64) -> (r: Option<u64>)
    requires
        max <= u32::MAX,
    ensures
        r is Some <==> parse_bounded(s@, max as nat) is Some,
        r is Some ==> r->0 == parse_bounded(s@, max as nat)->0,
{
    let n = s.len();
    let start: usize = if n > 0 && s[0] == '+' {
        1
    } else {
        0
    };
    let ghost body = if s@.len() > 0 && s@[0] == '+' {
        s@.drop_first()
    } else {
        s@
    };
    assert(body == s@.subrange(start as int, n as int));
    if start >= n {
        return None;
    }
    let mut acc: u64 = 0;
    let mut i: usize = start;
    while i < n
        invariant
            start <= i <= n,
            n == s@.len(),
            start < n,
            body == s@.subrange(start as int, n as int),
            body == (if s@.len() > 0 && s@[0] == '+' {
                s@.drop_first()
            } else {
                s@
            }),
            max <= u32::MAX,
            acc <= max,
            forall|k: int| start <= k < i ==> is_digit(#[trigger] s@[k]),
            acc == digits_value(s@.subrange(start as int, i as int)),
        decreases n - i,
    {
        let c = s[i];
        if !('0' <= c && c <= '9') {
            assert(!is_digit(body[i - start]));
            return None;
        }
        let d = (c as u32 - '0' as u32) as u64;
        let next = acc * 10 + d;
        assert(s@.subrange(start as int, i + 1).drop_last() == s@.subrange(start as int, i as int));
        if next > max {
            // The remaining digits can only make the value larger.
            let ghost rest = s@.subrange(start as int, n as int);
            proof {
                if all_digits(rest) {
                    lemma_digits_value_prefix(rest, i + 1 - start, rest.len() as int);
                    assert(rest.subrange(0, i + 1 - start) == s@.subrange(start as int, i + 1));
                    assert(rest.subrange(0, rest.len() as int) == rest);
                }
            }
            return None;
        }
        acc = next;
        i = i + 1;
    }
    assert(all_digits(body)) by {
        assert forall|k: int| 0 <= k < body.len() implies is_digit(#[trigger] body[k]) by {
            assert(body[k] == s@[start + k]);
        }
    }
    Some(acc)
}

// ---------------------------------------------------------------------------
// Trimming and splitting on whitespace
// ---------------------------------------------------------------------------

/// First index at or after `i` that holds no whitespace (or the length).
pub open spec fn skip_white_space(s: Seq<char>, i: int) -> int
    decreases s.len() - i,
{
    if i >= s.len() || i < 0 {
        i
    } else if is_white_space(s[i]) {
        skip_white_space(s, i + 1)
    } else {
        i
    }
}

/// First index at or after `i` that holds whitespace (or the length).
pub open spec fn word_end(s: Seq<char>, i: int) -> int
    decreases s.len() - i,
{
    if i >= s.len() || i < 0 {
        i
    } else if is_white_space(s[i]) {
        i
    } else {
        word_end(s, i + 1)
    }
}

/// End of `s.subrange(0, j)` once trailing whitespace is dropped.
pub open spec fn trimmed_end(s: Seq<char>, j: int) -> int
    decreases j,
{
    if j <= 0 || j > s.len() {
        0
    } else if is_white_space(s[j - 1]) {
        trimmed_end(s, j - 1)
    } else {
        j
    }
}

/// `str::trim`: `s` without leading and trailing whitespace.
pub open spec fn trim(s: Seq<char>) -> Seq<char> {
    let a = skip_white_space(s, 0);
    if a >= s.len() {
        Seq::empty()
    } else {
        s.subrange(a, trimmed_end(s, s.len() as int))
    }
}

/// The words (maximal runs without whitespace) of `s` from index `i` on,
/// as `split_whitespace` yields them.
pub open spec fn words_from(s: Seq<char>, i: int) -> Seq<Seq<char>>
    decreases s.len() - i,
{
    let a = skip_white_space(s, i);
    if i < 0 || a >= s.len() {
        Seq::empty()
    } else {
        let b = word_end(s, a);
        proof {
            if 0 <= i <= s.len() {
                lemma_skip_white_space(s, i);
                lemma_word_end(s, a);
            }
        }
        if b <= a {
            Seq::empty()
        } else {
            seq![s.subrange(a, b)] + words_from(s, b)
        }
    }
}

/// `split_whitespace`, collected.
pub open spec fn words(s: Seq<char>) -> Seq<Seq<char>> {
    words_from(s, 0)
}

pub proof fn lemma_skip_white_space(s: Seq<char>, i: int)
    requires
        0 <= i <= s.len(),
    ensures
        i <= skip_white_space(s, i) <= s.len(),
        forall|k: int| i <= k < skip_white_space(s, i) ==> is_white_space(#[trigger] s[k]),
        skip_white_space(s, i) < s.len() ==> !is_white_space(s[skip_white_space(s, i)]),
    decreases s.len() - i,
{
    if i < s.len() && is_white_space(s[i]) {
        lemma_skip_white_space(s, i + 1);
    }
}

pub proof fn lemma_word_end(s: Seq<char>, i: int)
    requires
        0 <= i <= s.len(),
    ensures
        i <= word_end(s, i) <= s.len(),
        forall|k: int| i <= k < word_end(s, i) ==> !is_white_space(#[trigger] s[k]),
        word_end(s, i) < s.len() ==> is_white_space(s[word_end(s, i)]),
    decreases s.len() - i,
{
    if i < s.len() && !is_white_space(s[i]) {
        lemma_word_end(s, i + 1);
    }
}

pub proof fn lemma_trimmed_end(s: Seq<char>, j: int)
    requires
        0 <= j <= s.len(),
    ensures
        0 <= trimmed_end(s, j) <= j,
        forall|k: int| trimmed_end(s, j) <= k < j ==> is_white_space(#[trigger] s[k]),
        trimmed_end(s, j) > 0 ==> !is_white_space(s[trimmed_end(s, j) - 1]),
    decreases j,
{
    if j > 0 && is_white_space(s[j - 1]) {
        lemma_trimmed_end(s, j - 1);
    }
}

/// The index of the first character at or after `i` that is not whitespace.
pub fn skip_white_space_at(s: &Vec<char>, i: usize) -> (r: usize)
    requires
        i <= s@.len(),
    ensures
        r == skip_white_space(s@, i as int),
        r <= s@.len(),
{
    proof {
        lemma_skip_white_space(s@, i as int);
    }
    let mut j = i;
    while j < s.len() && char_is_white_space(s[j])
        invariant
            i <= j <= s@.len(),
            skip_white_space(s@, j as int) == skip_white_space(s@, i as int),
        decreases s@.len() - j,
    {
        j = j + 1;
    }
    j
}

/// The index of the first whitespace character at or after `i`.
pub fn word_end_at(s: &Vec<char>, i: usize) -> (r: usize)
    requires
        i <= s@.len(),
    ensures
        r == word_end(s@, i as int),
        i <= r <= s@.len(),
{
    proof {
        lemma_word_end(s@, i as int);
    }
    let mut j = i;
    while j < s.len() && !char_is_white_space(s[j])
        invariant
            i <= j <= s@.len(),
            word_end(s@, j as int) == word_end(s@, i as int),
        decreases s@.len() - j,
    {
        j = j + 1;
    }
    j
}

/// The characters `s[from..to]`.
pub fn slice_chars(s: &Vec<char>, from: usize, to: usize) -> (r: Vec<char>)
    requires
        from <= to <= s@.len(),
    ensures
        r@ == s@.subrange(from as int, to as int),
{
    let mut r: Vec<char> = Vec::new();
    let mut i = from;
    while i < to
        invariant
            from <= i <= to <= s@.len(),
            r@ == s@.subrange(from as int, i as int),
        decreases to - i,
    {
        r.push(s[i]);
        i = i + 1;
    }
    r
}

/// `str::trim` on characters.
pub fn trim_chars(s: &Vec<char>) -> (r: Vec<char>)
    ensures
        r@ == trim(s@),
{
    let a = skip_white_space_at(s, 0);
    if a >= s.len() {
        return Vec::new();
    }
    let mut b = s.len();
    proof {
        lemma_skip_white_space(s@, 0);
        lemma_trimmed_end(s@, s@.len() as int);
    }
    while b > 0 && char_is_white_space(s[b - 1])
        invariant
            b <= s@.len(),
            a < s@.len(),
            trimmed_end(s@, b as int) == trimmed_end(s@, s@.len() as int),
        decreases b,
    {
        b = b - 1;
    }
    // Everything before `a` is whitespace and `s[a]` is not, so trimming from
    // the end stops at or after `a + 1`.
    assert(trimmed_end(s@, s@.len() as int) > a) by {
        if trimmed_end(s@, s@.len() as int) <= a {
            assert(is_white_space(s@[a as int]));
        }
    }
    slice_chars(s, a, b)
}

/// The next word of `s` at or after `i`, as the range it occupies.
pub fn next_word(s: &Vec<char>, i: usize) -> (r: Option<(usize, usize)>)
    requires
        i <= s@.len(),
    ensures
        r is None <==> words_from(s@, i as int).len() == 0,
        r matches Some((a, b)) ==> {
            &&& i <= a < b <= s@.len()
            &&& words_from(s@, i as int) == seq![s@.subrange(a as int, b as int)] + words_from(
                s@,
                b as int,
            )
        },
{
    let a = skip_white_space_at(s, i);
    proof {
        lemma_skip_white_space(s@, i as int);
    }
    if a >= s.len() {
        return None;
    }
    let b = word_end_at(s, a);
    proof {
        lemma_word_end(s@, a as int);
    }
    Some((a, b))
}

pub proof fn lemma_skip_white_space_exact(s: Seq<char>, i: int, j: int)
    requires
        0 <= i <= j <= s.len(),
        forall|k: int| i <= k < j ==> is_white_space(#[trigger] s[k]),
        j < s.len() ==> !is_white_space(s[j]),
    ensures
        skip_white_space(s, i) == j,
    decreases j - i,
{
    if i < j {
        lemma_skip_white_space_exact(s, i + 1, j);
    }
}

pub proof fn lemma_word_end_exact(s: Seq<char>, i: int, j: int)
    requires
        0 <= i <= j <= s.len(),
        forall|k: int| i <= k < j ==> !is_white_space(#[trigger] s[k]),
        j < s.len() ==> is_white_space(s[j]),
    ensures
        word_end(s, i) == j,
    decreases j - i,
{
    if i < j {
        lemma_word_end_exact(s, i + 1, j);
    }
}

pub proof fn lemma_trimmed_end_exact(s: Seq<char>, j: int, e: int)
    requires
        0 < e <= j <= s.len(),
        forall|k: int| e <= k < j ==> is_white_space(#[trigger] s[k]),
        !is_white_space(s[e - 1]),
    ensures
        trimmed_end(s, j) == e,
    decreases j - e,
{
    if e < j {
        lemma_trimmed_end_exact(s, j - 1, e);
    }
}

/// A string that starts and ends with non-whitespace trims to itself.
pub proof fn lemma_trim_ends(s: Seq<char>)
    requires
        s.len() > 0,
        !is_white_space(s[0]),
        !is_white_space(s.last()),
    ensures
        trim(s) == s,
{
    assert(skip_white_space(s, 0) == 0);
    assert(trimmed_end(s, s.len() as int) == s.len());
    assert(s.subrange(0, s.len() as int) =~= s);
}

/// Whitespace around a text that starts and ends with non-whitespace is
/// trimmed away.
pub proof fn lemma_trim_surrounded(lead: Seq<char>, x: Seq<char>, pad: Seq<char>)
    requires
        x.len() > 0,
        !is_white_space(x[0]),
        !is_white_space(x.last()),
        forall|k: int| 0 <= k < lead.len() ==> is_white_space(#[trigger] lead[k]),
        forall|k: int| 0 <= k < pad.len() ==> is_white_space(#[trigger] pad[k]),
    ensures
        trim(lead + x + pad) == x,
{
    let s = lead + x + pad;
    let a = lead.len() as int;
    let e = a + x.len();
    assert forall|k: int| 0 <= k < a implies is_white_space(#[trigger] s[k]) by {
        assert(s[k] == lead[k]);
    }
    assert(s[a] == x[0]);
    lemma_skip_white_space_exact(s, 0, a);
    assert forall|k: int| e <= k < s.len() implies is_white_space(#[trigger] s[k]) by {
        assert(s[k] == pad[k - e]);
    }
    assert(s[e - 1] == x.last());
    lemma_trimmed_end_exact(s, s.len() as int, e);
    assert(s.subrange(a, e) =~= x);
}

/// A string without whitespace followed only by whitespace trims to itself.
pub proof fn lemma_trim_padded(w: Seq<char>, pad: Seq<char>)
    requires
        w.len() > 0,
        forall|k: int| 0 <= k < w.len() ==> !is_white_space(#[trigger] w[k]),
        forall|k: int| 0 <= k < pad.len() ==> is_white_space(#[trigger] pad[k]),
    ensures
        trim(w + pad) == w,
{
    let s = w + pad;
    lemma_skip_white_space_exact(s, 0, 0);
    assert forall|k: int| w.len() <= k < s.len() implies is_white_space(#[trigger] s[k]) by {
        assert(s[k] == pad[k - w.len()]);
    }
    lemma_trimmed_end_exact(s, s.len() as int, w.len() as int);
    assert(s.subrange(0, w.len() as int) == w);
}

/// Words read from inside the second part of `x + y` are the words of `y`.
pub proof fn lemma_words_shift(x: Seq<char>, y: Seq<char>, j: int)
    requires
        0 <= j <= y.len(),
    ensures
        words_from(x + y, x.len() + j) == words_from(y, j),
    decreases y.len() - j,
{
    let s = x + y;
    let n = x.len() as int;
    lemma_skip_white_space(y, j);
    let a = skip_white_space(y, j);
    assert forall|k: int| n + j <= k < n + a implies is_white_space(#[trigger] s[k]) by {
        assert(s[k] == y[k - n]);
    }
    if a < y.len() {
        assert(s[n + a] == y[a]);
    }
    lemma_skip_white_space_exact(s, n + j, n + a);
    if a < y.len() {
        lemma_word_end(y, a);
        let b = word_end(y, a);
        assert forall|k: int| n + a <= k < n + b implies !is_white_space(#[trigger] s[k]) by {
            assert(s[k] == y[k - n]);
        }
        if b < y.len() {
            assert(s[n + b] == y[b]);
        }
        lemma_word_end_exact(s, n + a, n + b);
        assert(s.subrange(n + a, n + b) =~= y.subrange(a, b));
        lemma_words_shift(x, y, b);
    }
}

/// Splitting at whitespace: when `x` is empty or ends with whitespace, the
/// words of `x + y` are those of `x` followed by those of `y`.
pub proof fn lemma_words_concat(x: Seq<char>, y: Seq<char>)
    requires
        x.len() == 0 || is_white_space(x.last()),
    ensures
        words(x + y) == words(x) + words(y),
{
    lemma_words_concat_from(x, y, 0);
}

proof fn lemma_words_concat_from(x: Seq<char>, y: Seq<char>, i: int)
    requires
        0 <= i <= x.len(),
        x.len() == 0 || is_white_space(x.last()),
    ensures
        words_from(x + y, i) == words_from(x, i) + words_from(y, 0),
    decreases x.len() - i,
{
    let s = x + y;
    let n = x.len() as int;
    lemma_skip_white_space(x, i);
    let a = skip_white_space(x, i);
    if a >= n {
        lemma_skip_white_space(y, 0);
        let ay = skip_white_space(y, 0);
        assert forall|k: int| i <= k < n + ay implies is_white_space(#[trigger] s[k]) by {
            if k < n {
                assert(s[k] == x[k]);
            } else {
                assert(s[k] == y[k - n]);
            }
        }
        if ay < y.len() {
            assert(s[n + ay] == y[ay]);
        }
        lemma_skip_white_space_exact(s, i, n + ay);
        lemma_skip_white_space_exact(s, n, n + ay);
        assert(words_from(s, i) == words_from(s, n));
        lemma_words_shift(x, y, 0);
        assert(words_from(x, i) =~= Seq::<Seq<char>>::empty());
        assert(words_from(x, i) + words_from(y, 0) =~= words_from(y, 0));
    } else {
        lemma_word_end(x, a);
        let b = word_end(x, a);
        assert(b < n) by {
            if b >= n {
                assert(!is_white_space(x[n - 1]));
            }
        }
        assert forall|k: int| i <= k < a implies is_white_space(#[trigger] s[k]) by {
            assert(s[k] == x[k]);
        }
        assert(s[a] == x[a]);
        lemma_skip_white_space_exact(s, i, a);
        assert forall|k: int| a <= k < b implies !is_white_space(#[trigger] s[k]) by {
            assert(s[k] == x[k]);
        }
        assert(s[b] == x[b]);
        lemma_word_end_exact(s, a, b);
        assert(s.subrange(a, b) =~= x.subrange(a, b));
        lemma_words_concat_from(x, y, b);
        assert(words_from(s, i) == seq![x.subrange(a, b)] + words_from(s, b));
        assert(words_from(x, i) == seq![x.subrange(a, b)] + words_from(x, b));
        assert(words_from(s, i) =~= words_from(x, i) + words_from(y, 0));
    }
}

/// Leading whitespace does not change the words.
pub proof fn lemma_words_skip(ws: Seq<char>, rest: Seq<char>)
    requires
        forall|k: int| 0 <= k < ws.len() ==> is_white_space(#[trigger] ws[k]),
    ensures
        words(ws + rest) == words(rest),
{
    if ws.len() == 0 {
        assert(ws + rest =~= rest);
    } else {
        lemma_words_concat(ws, rest);
        lemma_skip_white_space_exact(ws, 0, ws.len() as int);
        assert(words(ws) =~= Seq::<Seq<char>>::empty());
        assert(words(ws) + words(rest) =~= words(rest));
    }
}

/// A word followed by whitespace (or nothing) is the first word.
pub proof fn lemma_words_first_word(w: Seq<char>, rest: Seq<char>)
    requires
        w.len() > 0,
        forall|k: int| 0 <= k < w.len() ==> !is_white_space(#[trigger] w[k]),
        rest.len() == 0 || is_white_space(rest[0]),
    ensures
        words(w + rest) == seq![w] + words(rest),
{
    let s = w + rest;
    let n = w.len() as int;
    lemma_skip_white_space_exact(s, 0, 0);
    assert forall|k: int| 0 <= k < n implies !is_white_space(#[trigger] s[k]) by {
        assert(s[k] == w[k]);
    }
    if rest.len() > 0 {
        assert(s[n] == rest[0]);
    }
    lemma_word_end_exact(s, 0, n);
    assert(s.subrange(0, n) =~= w);
    lemma_words_shift(w, rest, 0);
}

/// No word of `s` is `t` when `t` occurs nowhere in `s`.
pub proof fn lemma_no_word_is(s: Seq<char>, i: int, t: Seq<char>)
    requires
        0 <= i,
        forall|a: int| 0 <= a && a + t.len() <= s.len() ==> #[trigger] s.subrange(a, a + t.len()) != t,
    ensures
        forall|k: int| 0 <= k < words_from(s, i).len() ==> words_from(s, i)[k] != t,
    decreases s.len() - i,
{
    if i <= s.len() {
        lemma_skip_white_space(s, i);
        let a = skip_white_space(s, i);
        if a < s.len() {
            lemma_word_end(s, a);
            let b = word_end(s, a);
            if b > a {
                lemma_no_word_is(s, b, t);
                let w = s.subrange(a, b);
                if w == t {
                    assert(s.subrange(a, a + t.len()) == t);
                }
                assert forall|k: int| 0 <= k < words_from(s, i).len() implies words_from(s, i)[k] != t by {
                    if k > 0 {
                        assert(words_from(s, i)[k] == words_from(s, b)[k - 1]);
                    }
                }
            }
        }
    }
}

/// The words of `s`, in order (`split_whitespace`, collected).
pub fn split_words(s: &Vec<char>) -> (r: Vec<Vec<char>>)
    ensures
        r@.len() == words(s@).len(),
        forall|i: int| 0 <= i < r@.len() ==> #[trigger] r@[i]@ == words(s@)[i],
{
    let mut r: Vec<Vec<char>> = Vec::new();
    let mut pos: usize = 0;
    let ghost mut done: Seq<Seq<char>> = Seq::empty();
    loop
        invariant
            pos <= s@.len(),
            r@.len() == done.len(),
            forall|i: int| 0 <= i < r@.len() ==> #[trigger] r@[i]@ == done[i],
            words(s@) == done + words_from(s@, pos as int),
        decreases s@.len() - pos,
    {
        match next_word(s, pos) {
            None => {
                assert(done + words_from(s@, pos as int) == done);
                return r;
            },
            Some((a, b)) => {
                let word = slice_chars(s, a, b);
                proof {
                    assert(done.push(word@) + words_from(s@, b as int) == done + (seq![word@]
                        + words_from(s@, b as int)));
                    done = done.push(word@);
                }
                r.push(word);
                pos = b;
            },
        }
    }
}

/// The first two words of `a + " " + b + " " + rest`, where `a` and `b` are
/// words and `rest` is a word followed by whitespace.
pub proof fn lemma_words_of_record(a: Seq<char>, b: Seq<char>, rest: Seq<char>)
    requires
        a.len() > 0,
        b.len() > 0,
        forall|k: int| 0 <= k < a.len() ==> !is_white_space(#[trigger] a[k]),
        forall|k: int| 0 <= k < b.len() ==> !is_white_space(#[trigger] b[k]),
    ensures
        words(a + " "@ + b + " "@ + rest).len() >= 2,
        words(a + " "@ + b + " "@ + rest)[0] == a,
        words(a + " "@ + b + " "@ + rest)[1] == b,
{
    let s = a + " "@ + b + " "@ + rest;
    let al = a.len() as int;
    let bl = b.len() as int;
    reveal_strlit(" ");
    assert(is_white_space(' '));
    assert(s[al] == ' ');
    assert(s[al + 1 + bl] == ' ');
    assert forall|k: int| 0 <= k < al implies !is_white_space(#[trigger] s[k]) by {
        assert(s[k] == a[k]);
    }
    assert forall|k: int| al + 1 <= k < al + 1 + bl implies !is_white_space(#[trigger] s[k]) by {
        assert(s[k] == b[k - al - 1]);
    }
    lemma_skip_white_space_exact(s, 0, 0);
    lemma_word_end_exact(s, 0, al);
    lemma_skip_white_space_exact(s, al, al + 1);
    lemma_word_end_exact(s, al + 1, al + 1 + bl);
    assert(s.subrange(0, al) == a);
    assert(s.subrange(al + 1, al + 1 + bl) == b);
    let tail = words_from(s, al + 1 + bl);
    assert(words_from(s, al) == seq![b] + tail);
    assert(words(s) == seq![a] + (seq![b] + tail));
}

} // verus!
