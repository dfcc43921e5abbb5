//! Character-level helpers shared by the parsers of this crate.
//!
//! Strings are reasoned about through their view, a `Seq<char>`; trimming
//! follows the Unicode `White_Space` property.

use vstd::prelude::*;
use vstd::string::StringExecFns;
use vstd::utf8::{decode_utf8, valid_utf8};

verus! {

/// The text that lossy UTF-8 decoding makes of `bytes`: well-formed sequences
/// decode to their characters, and each malformed stretch becomes U+FFFD.
pub uninterp spec fn utf8_lossy(bytes: Seq<u8>) -> Seq<char>;

/// Calls `String::from_utf8_lossy`. The result depends on the bytes alone, and
/// bytes that already are well-formed UTF-8 decode to exactly their characters.
/// What a malformed stretch turns into is left to the decoder.
#[verifier::external_body]
pub(crate) fn decode_utf8_lossy(bytes: &[u8]) -> (text: String)
    ensures
        text@ == utf8_lossy(bytes@),
        valid_utf8(bytes@) ==> text@ == decode_utf8(bytes@),
{
    String::from_utf8_lossy(bytes).into_owned()
}

/// The character has the Unicode `White_Space` property.
pub open spec fn is_white_space(c: char) -> bool {
    let u = c as u32;
    ||| 0x09 <= u <= 0x0D
    ||| u == 0x20
    ||| u == 0x85
    ||| u == 0xA0
    ||| u == 0x1680
    ||| 0x2000 <= u <= 0x200A
    ||| u == 0x2028
    ||| u == 0x2029
    ||| u == 0x202F
    ||| u == 0x205F
    ||| u == 0x3000
}

/// Executable form of [`is_white_space`].
pub fn char_is_white_space(c: char) -> (r: bool)
    ensures
        r == is_white_space(c),
{
    let u: u32 = c as u32;
    (0x09 <= u && u <= 0x0D) || u == 0x20 || u == 0x85 || u == 0xA0 || u == 0x1680 || (0x2000 <= u
        && u <= 0x200A) || u == 0x2028 || u == 0x2029 || u == 0x202F || u == 0x205F || u == 0x3000
}

/// Number of white-space characters at the front of `s`.
pub open spec fn leading_white_space(s: Seq<char>) -> nat
    decreases s.len(),
{
    if s.len() > 0 && is_white_space(s[0]) {
        1 + leading_white_space(s.skip(1))
    } else {
        0
    }
}

/// Number of white-space characters at the back of `s`.
pub open spec fn trailing_white_space(s: Seq<char>) -> nat
    decreases s.len(),
{
    if s.len() > 0 && is_white_space(s.last()) {
        1 + trailing_white_space(s.drop_last())
    } else {
        0
    }
}

/// `s` without its leading white space.
pub open spec fn trim_start(s: Seq<char>) -> Seq<char> {
    s.skip(leading_white_space(s) as int)
}

/// `s` without its trailing white space.
pub open spec fn trim_end(s: Seq<char>) -> Seq<char> {
    s.take(s.len() - trailing_white_space(s))
}

/// `s` without leading and trailing white space.
pub open spec fn trim(s: Seq<char>) -> Seq<char> {
    trim_end(trim_start(s))
}

/// `s` holds nothing but white space.
pub open spec fn is_blank(s: Seq<char>) -> bool {
    forall|i: int| 0 <= i < s.len() ==> is_white_space(s[i])
}

/// `leading_white_space` is the one `n` with only white space before it and none at it.
pub proof fn lemma_leading_white_space_is(s: Seq<char>, n: int)
    requires
        0 <= n <= s.len(),
        forall|i: int| 0 <= i < n ==> is_white_space(s[i]),
        n < s.len() ==> !is_white_space(s[n]),
    ensures
        leading_white_space(s) == n,
    decreases s.len(),
{
    if n > 0 {
        let rest = s.skip(1);
        assert(forall|i: int| 0 <= i < rest.len() ==> rest[i] == s[i + 1]);
        lemma_leading_white_space_is(rest, n - 1);
    }
}

/// `trailing_white_space` is the one `n` with only white space in the last `n`
/// places and none just before them.
pub proof fn lemma_trailing_white_space_is(s: Seq<char>, n: int)
    requires
        0 <= n <= s.len(),
        forall|i: int| s.len() - n <= i < s.len() ==> is_white_space(s[i]),
        n < s.len() ==> !is_white_space(s[s.len() - n - 1]),
    ensures
        trailing_white_space(s) == n,
    decreases s.len(),
{
    if n > 0 {
        lemma_trailing_white_space_is(s.drop_last(), n - 1);
    }
}

/// The characters of a string slice, in order.
pub fn chars_of(s: &str) -> (v: Vec<char>)
    ensures
        v@ == s@,
{
    let mut v: Vec<char> = Vec::new();
    for c in it: s.chars()
        invariant
            it.seq() == s@,
            v@ == it.seq().take(it.index() as int),
    {
        v.push(c);
    }
    v
}

/// First index in `from..to` that holds no white space, or `to`.
pub(crate) fn skip_white_space(chars: &[char], from: usize, to: usize) -> (p: usize)
    requires
        from <= to <= chars@.len(),
    ensures
        from <= p <= to,
        p == from + leading_white_space(chars@.subrange(from as int, to as int)),
{
    let mut p: usize = from;
    while p < to && char_is_white_space(chars[p])
        invariant
            from <= p <= to <= chars@.len(),
            forall|i: int| from <= i < p ==> is_white_space(chars@[i]),
        decreases to - p,
    {
        p += 1;
    }
    proof {
        lemma_leading_white_space_is(chars@.subrange(from as int, to as int), p - from);
    }
    p
}

/// One past the last index in `from..to` that holds no white space, or `from`.
pub(crate) fn skip_white_space_back(chars: &[char], from: usize, to: usize) -> (p: usize)
    requires
        from <= to <= chars@.len(),
    ensures
        from <= p <= to,
        p == to - trailing_white_space(chars@.subrange(from as int, to as int)),
{
    let mut p: usize = to;
    while p > from && char_is_white_space(chars[p - 1])
        invariant
            from <= p <= to <= chars@.len(),
            forall|i: int| p <= i < to ==> is_white_space(chars@[i]),
        decreases p,
    {
        p -= 1;
    }
    proof {
        lemma_trailing_white_space_is(chars@.subrange(from as int, to as int), to - p);
    }
    p
}

/// Whether `pattern` stands in `chars` at index `at`, wholly before `to`.
pub(crate) fn matches_at(chars: &[char], at: usize, to: usize, pattern: &[char]) -> (r: bool)
    requires
        at <= to <= chars@.len(),
    ensures
        r == pattern@.is_prefix_of(chars@.subrange(at as int, to as int)),
{
    let n = pattern.len();
    if to - at < n {
        return false;
    }
    let ghost window = chars@.subrange(at as int, to as int);
    let mut i: usize = 0;
    while i < n
        invariant
            n == pattern@.len(),
            at + n <= to <= chars@.len(),
            i <= n,
            window == chars@.subrange(at as int, to as int),
            forall|k: int| 0 <= k < i ==> pattern@[k] == chars@[at + k],
        decreases n - i,
    {
        if pattern[i] != chars[at + i] {
            assert(window[i as int] != pattern@[i as int]);
            return false;
        }
        i += 1;
    }
    assert(window.subrange(0, n as int) =~= pattern@);
    true
}

/// Whether two strings hold the same characters.
pub fn same_text(a: &str, b: &str) -> (r: bool)
    ensures
        r == (a@ == b@),
{
    let x = chars_of(a);
    let y = chars_of(b);
    if x.len() != y.len() {
        return false;
    }
    let r = matches_at(x.as_slice(), 0, x.len(), y.as_slice());
    proof {
        assert(x@.subrange(0, x@.len() as int) =~= x@);
        if r {
            assert(y@ =~= x@.subrange(0, y@.len() as int));
        }
    }
    r
}

/// Whether `s`, without the white space around it, reads exactly `expected`.
pub fn trimmed_equals(s: &str, expected: &str) -> (r: bool)
    ensures
        r == (trim(s@) == expected@),
{
    let chars = chars_of(s);
    let want = chars_of(expected);
    let from = skip_white_space(chars.as_slice(), 0, chars.len());
    let to = skip_white_space_back(chars.as_slice(), from, chars.len());
    proof {
        assert(chars@.subrange(0, chars@.len() as int) =~= chars@);
        assert(trim_start(s@) =~= chars@.subrange(from as int, chars@.len() as int));
        assert(trim(s@) =~= chars@.subrange(from as int, to as int));
    }
    if to - from != want.len() {
        return false;
    }
    let r = matches_at(chars.as_slice(), from, to, want.as_slice());
    proof {
        let window = chars@.subrange(from as int, to as int);
        if r {
            assert(want@ =~= window.subrange(0, want@.len() as int));
            assert(window.subrange(0, window.len() as int) =~= window);
        } else {
            if window == want@ {
                assert(window.subrange(0, want@.len() as int) =~= want@);
            }
        }
    }
    r
}

/// `suffix` stands at the end of `s`.
pub open spec fn has_suffix(s: Seq<char>, suffix: Seq<char>) -> bool {
    suffix.len() <= s.len() && s.skip(s.len() - suffix.len()) == suffix
}

/// `needle` occurs somewhere in `haystack`.
pub open spec fn contains_text(haystack: Seq<char>, needle: Seq<char>) -> bool {
    exists|i: int| 0 <= i <= haystack.len() && #[trigger] needle.is_prefix_of(haystack.skip(i))
}

/// Whether `needle` occurs somewhere in `haystack`.
pub fn text_contains(haystack: &str, needle: &str) -> (r: bool)
    ensures
        r == contains_text(haystack@, needle@),
{
    let hay = chars_of(haystack);
    let pat = chars_of(needle);
    let n = hay.len();
    let mut i: usize = 0;
    loop
        invariant
            n == hay@.len(),
            hay@ == haystack@,
            pat@ == needle@,
            i <= n,
            forall|k: int| 0 <= k < i ==> !(#[trigger] pat@.is_prefix_of(hay@.skip(k))),
        decreases n - i,
    {
        assert(hay@.skip(i as int) =~= hay@.subrange(i as int, n as int));
        if matches_at(hay.as_slice(), i, n, pat.as_slice()) {
            return true;
        }
        if i == n {
            return false;
        }
        i += 1;
    }
}

/// Whether `s` holds nothing but white space.
pub fn text_is_blank(s: &str) -> (r: bool)
    ensures
        r == is_blank(s@),
{
    let chars = chars_of(s);
    let p = skip_white_space(chars.as_slice(), 0, chars.len());
    proof {
        let all = chars@.subrange(0, chars@.len() as int);
        assert(all =~= chars@);
        if p == chars@.len() {
            assert forall|i: int| 0 <= i < s@.len() implies is_white_space(s@[i]) by {
                lemma_leading_white_space_covers(s@, i);
            }
        } else {
            lemma_leading_white_space_stops(s@);
        }
    }
    p == chars.len()
}

/// Every place before the count of leading white space holds white space.
pub proof fn lemma_leading_white_space_covers(s: Seq<char>, i: int)
    requires
        0 <= i < leading_white_space(s),
    ensures
        i < s.len(),
        is_white_space(s[i]),
    decreases s.len(),
{
    if i > 0 {
        lemma_leading_white_space_covers(s.skip(1), i - 1);
    }
}

/// The place at the count of leading white space, where there is one, holds none.
pub proof fn lemma_leading_white_space_stops(s: Seq<char>)
    ensures
        leading_white_space(s) <= s.len(),
        leading_white_space(s) < s.len() ==> !is_white_space(s[leading_white_space(s) as int]),
    decreases s.len(),
{
    if s.len() > 0 && is_white_space(s[0]) {
        lemma_leading_white_space_stops(s.skip(1));
    }
}

/// The character for one decimal digit.
pub open spec fn digit_char(d: nat) -> char {
    if d == 0 {
        '0'
    } else if d == 1 {
        '1'
    } else if d == 2 {
        '2'
    } else if d == 3 {
        '3'
    } else if d == 4 {
        '4'
    } else if d == 5 {
        '5'
    } else if d == 6 {
        '6'
    } else if d == 7 {
        '7'
    } else if d == 8 {
        '8'
    } else {
        '9'
    }
}

/// The decimal numeral of `n`, without leading zeros.
pub open spec fn decimal_digits(n: nat) -> Seq<char>
    decreases n,
{
    if n < 10 {
        seq![digit_char(n)]
    } else {
        decimal_digits(n / 10).push(digit_char(n % 10))
    }
}

/// The one-character string for a decimal digit.
pub(crate) fn digit_str(d: u8) -> (s: &'static str)
    requires
        d < 10,
    ensures
        s@ == seq![digit_char(d as nat)],
{
    proof {
        reveal_strlit("0");
        reveal_strlit("1");
        reveal_strlit("2");
        reveal_strlit("3");
        reveal_strlit("4");
        reveal_strlit("5");
        reveal_strlit("6");
        reveal_strlit("7");
        reveal_strlit("8");
        reveal_strlit("9");
    }
    let s = match d {
        0 => "0",
        1 => "1",
        2 => "2",
        3 => "3",
        4 => "4",
        5 => "5",
        6 => "6",
        7 => "7",
        8 => "8",
        _ => "9",
    };
    assert(s@ =~= seq![digit_char(d as nat)]);
    s
}

/// Writes `n` as a decimal numeral.
pub fn decimal_string(n: u64) -> (s: String)
    ensures
        s@ == decimal_digits(n as nat),
{
    let mut low: Vec<u8> = Vec::new();
    let mut rest: u64 = n;
    while rest >= 10
        invariant
            forall|i: int| 0 <= i < low@.len() ==> low@[i] < 10,
            decimal_digits(n as nat) == decimal_digits(rest as nat) + Seq::new(
                low@.len(),
                |i: int| digit_char(low@[low@.len() - 1 - i] as nat),
            ),
        decreases rest,
    {
        let ghost before = low@;
        let ghost tail = Seq::new(
            before.len(),
            |i: int| digit_char(before[before.len() - 1 - i] as nat),
        );
        low.push((rest % 10) as u8);
        proof {
            let after = Seq::new(
                low@.len(),
                |i: int| digit_char(low@[low@.len() - 1 - i] as nat),
            );
            assert(after =~= seq![digit_char((rest % 10) as nat)] + tail);
            assert(decimal_digits(rest as nat) =~= decimal_digits((rest / 10) as nat) + seq![
                digit_char((rest % 10) as nat),
            ]);
        }
        rest = rest / 10;
    }
    let mut s = String::from_str(digit_str(rest as u8));
    let ghost tail = Seq::new(low@.len(), |i: int| digit_char(low@[low@.len() - 1 - i] as nat));
    let mut k: usize = low.len();
    while k > 0
        invariant
            k <= low@.len(),
            forall|i: int| 0 <= i < low@.len() ==> low@[i] < 10,
            tail == Seq::new(low@.len(), |i: int| digit_char(low@[low@.len() - 1 - i] as nat)),
            s@ == decimal_digits(rest as nat) + tail.take(low@.len() - k),
        decreases k,
    {
        k -= 1;
        s.append(digit_str(low[k]));
        proof {
            let done = low@.len() - k;
            assert(tail.take(done) =~= tail.take(done - 1).push(tail[done - 1]));
        }
    }
    assert(tail.take(low@.len() as int) =~= tail);
    s
}

} // verus!
