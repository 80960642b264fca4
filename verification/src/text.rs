//! Character-level text rules shared by every screen: whitespace trimming,
//! ASCII case folding, substring search, decimal formatting and parsing.

use vstd::prelude::*;
use vstd::string::*;

verus! {

// ---------------------------------------------------------------------------
// Specifications
// ---------------------------------------------------------------------------

/// Unicode `White_Space` characters (what `char::is_whitespace` accepts).
pub open spec fn is_white_space(c: char) -> bool {
    let u = c as u32;
    ||| 0x9 <= u <= 0xD
    ||| u == 0x20
    ||| u == 0x85
    ||| u == 0xA0
    ||| u == 0x1680
    ||| 0x2000 <= u <= 0x200A
    ||| u == 0x2028
    ||| u == 0x2029
    ||| u == 0x202F
    ||| u == 0x205F
    ||| u == 0x3000
}

/// `s` without its leading whitespace.
pub open spec fn trim_start_seq(s: Seq<char>) -> Seq<char>
    decreases s.len(),
{
    if s.len() > 0 && is_white_space(s[0]) {
        trim_start_seq(s.drop_first())
    } else {
        s
    }
}

/// `s` without its trailing whitespace.
pub open spec fn trim_end_seq(s: Seq<char>) -> Seq<char>
    decreases s.len(),
{
    if s.len() > 0 && is_white_space(s.last()) {
        trim_end_seq(s.drop_last())
    } else {
        s
    }
}

/// `s` without leading and trailing whitespace (what `str::trim` returns).
pub open spec fn trim_seq(s: Seq<char>) -> Seq<char> {
    trim_end_seq(trim_start_seq(s))
}

/// ASCII upper-case letters mapped to lower case, everything else unchanged.
pub open spec fn ascii_lower_char(c: char) -> char {
    if 'A' <= c && c <= 'Z' {
        ((c as u32) + 32) as char
    } else {
        c
    }
}

/// `s` with ASCII letters folded to lower case (what `to_ascii_lowercase` does).
pub open spec fn ascii_lower_seq(s: Seq<char>) -> Seq<char> {
    s.map_values(|c: char| ascii_lower_char(c))
}

/// Whether `needle` occurs in `hay` as a contiguous run.
pub open spec fn has_infix(hay: Seq<char>, needle: Seq<char>) -> bool {
    exists|i: int| 0 <= i && i + needle.len() <= hay.len() && #[trigger] hay.subrange(i, i + needle.len()) == needle
}

/// Whether `hay` begins with `prefix`.
pub open spec fn has_prefix(hay: Seq<char>, prefix: Seq<char>) -> bool {
    prefix.len() <= hay.len() && hay.subrange(0, prefix.len() as int) == prefix
}

/// The decimal digit `d` (`0 <= d < 10`) as a character.
pub open spec fn digit_char(d: int) -> char {
    if d == 0 { '0' }
    else if d == 1 { '1' }
    else if d == 2 { '2' }
    else if d == 3 { '3' }
    else if d == 4 { '4' }
    else if d == 5 { '5' }
    else if d == 6 { '6' }
    else if d == 7 { '7' }
    else if d == 8 { '8' }
    else { '9' }
}

/// The decimal representation of `n`, without leading zeros.
pub open spec fn decimal(n: nat) -> Seq<char>
    decreases n,
{
    if n < 10 {
        seq![digit_char(n as int)]
    } else {
        decimal(n / 10).push(digit_char((n % 10) as int))
    }
}

/// The decimal representation of `n`, left-padded with zeros to `width`.
pub open spec fn zero_padded(n: nat, width: nat) -> Seq<char> {
    let d = decimal(n);
    if d.len() >= width {
        d
    } else {
        Seq::new((width - d.len()) as nat, |i: int| '0') + d
    }
}

pub open spec fn is_digit(c: char) -> bool {
    '0' <= c && c <= '9'
}

pub open spec fn digit_value(c: char) -> int {
    (c as u32) - ('0' as u32)
}

pub open spec fn all_digits(s: Seq<char>) -> bool {
    forall|i: int| 0 <= i < s.len() ==> #[trigger] is_digit(s[i])
}

/// The number written by the decimal digits `s`.
pub open spec fn digits_value(s: Seq<char>) -> int
    decreases s.len(),
{
    if s.len() == 0 {
        0
    } else {
        digits_value(s.drop_last()) * 10 + digit_value(s.last())
    }
}

/// The digits of an unsigned literal: an optional leading `+` is dropped.
pub open spec fn unsigned_body(s: Seq<char>) -> Seq<char> {
    if s.len() > 0 && s[0] == '+' {
        s.drop_first()
    } else {
        s
    }
}

/// What `str::parse` gives for an unsigned integer type whose largest value is
/// `max`: an optional `+`, then one or more decimal digits, in range.
pub open spec fn parse_unsigned(s: Seq<char>, max: int) -> Option<int> {
    let b = unsigned_body(s);
    if b.len() > 0 && all_digits(b) && digits_value(b) <= max {
        Some(digits_value(b))
    } else {
        None
    }
}

// ---------------------------------------------------------------------------
// Calls into std
// ---------------------------------------------------------------------------

/// Unicode lower-casing of a string, as `str::to_lowercase` computes it.
pub uninterp spec fn unicode_lowercase(s: Seq<char>) -> Seq<char>;

/// Calls `str::to_lowercase`: the result is the Unicode lower-case form of `s`,
/// which depends on `s` alone; the empty string lowers to the empty string.
/// The Unicode case tables themselves are not restated here.
#[verifier::external_body]
pub fn to_lowercase(s: &str) -> (r: String)
    ensures
        r@ == unicode_lowercase(s@),
        s@.len() == 0 ==> r@.len() == 0,
{
    s.to_lowercase()
}

/// Calls `String::push`: appends one character.
#[verifier::external_body]
pub fn push_char(s: &mut String, c: char)
    ensures
        final(s)@ == old(s)@.push(c),
{
    s.push(c)
}

// ---------------------------------------------------------------------------
// Lemmas
// ---------------------------------------------------------------------------

proof fn lemma_trim_start_step(s: Seq<char>, i: int)
    requires
        0 <= i < s.len(),
        is_white_space(s[i]),
    ensures
        trim_start_seq(s.subrange(i, s.len() as int)) == trim_start_seq(s.subrange(i + 1, s.len() as int)),
{
    assert(s.subrange(i, s.len() as int).drop_first() =~= s.subrange(i + 1, s.len() as int));
}

proof fn lemma_trim_end_step(s: Seq<char>, j: int)
    requires
        0 < j <= s.len(),
        is_white_space(s[j - 1]),
    ensures
        trim_end_seq(s.subrange(0, j)) == trim_end_seq(s.subrange(0, j - 1)),
{
    assert(s.subrange(0, j).drop_last() =~= s.subrange(0, j - 1));
}

proof fn lemma_digits_prefix(b: Seq<char>, i: int)
    requires
        all_digits(b),
        0 <= i <= b.len(),
    ensures
        0 <= digits_value(b.subrange(0, i)) <= digits_value(b),
    decreases b.len(),
{
    if i == b.len() {
        assert(b.subrange(0, i) =~= b);
        lemma_digits_nonneg(b);
    } else {
        let d = b.drop_last();
        assert(all_digits(d)) by {
            assert forall|k: int| 0 <= k < d.len() implies #[trigger] is_digit(d[k]) by {
                assert(is_digit(b[k]));
            }
        }
        lemma_digits_prefix(d, i);
        assert(d.subrange(0, i) =~= b.subrange(0, i));
        assert(is_digit(b[b.len() - 1]));
    }
}

proof fn lemma_digits_nonneg(b: Seq<char>)
    requires
        all_digits(b),
    ensures
        digits_value(b) >= 0,
    decreases b.len(),
{
    if b.len() > 0 {
        let d = b.drop_last();
        assert(all_digits(d)) by {
            assert forall|k: int| 0 <= k < d.len() implies #[trigger] is_digit(d[k]) by {
                assert(is_digit(b[k]));
            }
        }
        lemma_digits_nonneg(d);
        assert(is_digit(b[b.len() - 1]));
    }
}

// ---------------------------------------------------------------------------
// Executable text functions
// ---------------------------------------------------------------------------

/// The characters of `s`.
pub fn chars_of(s: &str) -> (v: Vec<char>)
    ensures
        v@ == s@,
{
    let n = s.unicode_len();
    let mut v: Vec<char> = Vec::new();
    let mut i: usize = 0;
    while i < n
        invariant
            n == s@.len(),
            i <= n,
            v@ == s@.subrange(0, i as int),
        decreases n - i,
    {
        let c = s.get_char(i);
        v.push(c);
        i = i + 1;
        assert(v@ =~= s@.subrange(0, i as int));
    }
    assert(v@ =~= s@);
    v
}

/// A `String` holding the characters `v`.
pub fn string_of(v: &[char]) -> (s: String)
    ensures
        s@ == v@,
{
    let mut s = String::new();
    let mut i: usize = 0;
    while i < v.len()
        invariant
            i <= v@.len(),
            s@ == v@.subrange(0, i as int),
        decreases v@.len() - i,
    {
        push_char(&mut s, v[i]);
        i = i + 1;
        assert(s@ =~= v@.subrange(0, i as int));
    }
    assert(s@ =~= v@);
    s
}

/// Character-wise equality of two strings.
pub fn str_eq(a: &str, b: &str) -> (r: bool)
    ensures
        r == (a@ == b@),
{
    let va = chars_of(a);
    let vb = chars_of(b);
    chars_eq(&va, &vb)
}

/// Equality of two character sequences.
pub fn chars_eq(a: &[char], b: &[char]) -> (r: bool)
    ensures
        r == (a@ == b@),
{
    if a.len() != b.len() {
        return false;
    }
    let mut i: usize = 0;
    while i < a.len()
        invariant
            a@.len() == b@.len(),
            i <= a@.len(),
            forall|k: int| 0 <= k < i ==> a@[k] == b@[k],
        decreases a@.len() - i,
    {
        if a[i] != b[i] {
            return false;
        }
        i = i + 1;
    }
    assert(a@ =~= b@);
    true
}

/// Whether the character is Unicode whitespace.
pub fn char_is_white_space(c: char) -> (r: bool)
    ensures
        r == is_white_space(c),
{
    let u = c as u32;
    (0x9 <= u && u <= 0xD) || u == 0x20 || u == 0x85 || u == 0xA0 || u == 0x1680 || (0x2000 <= u
        && u <= 0x200A) || u == 0x2028 || u == 0x2029 || u == 0x202F || u == 0x205F || u == 0x3000
}

/// `v` without leading and trailing whitespace.
pub fn trim_chars(v: &[char]) -> (r: Vec<char>)
    ensures
        r@ == trim_seq(v@),
{
    let n = v.len();
    let mut i: usize = 0;
    assert(v@.subrange(0, n as int) =~= v@);
    while i < n && char_is_white_space(v[i])
        invariant
            n == v@.len(),
            i <= n,
            trim_start_seq(v@) == trim_start_seq(v@.subrange(i as int, n as int)),
        decreases n - i,
    {
        proof {
            lemma_trim_start_step(v@, i as int);
        }
        i = i + 1;
    }
    let ghost rest = v@.subrange(i as int, n as int);
    assert(trim_start_seq(rest) == rest);
    let mut j: usize = n;
    assert(rest.subrange(0, (j - i) as int) =~= rest);
    while j > i && char_is_white_space(v[j - 1])
        invariant
            i <= j <= n,
            n == v@.len(),
            rest == v@.subrange(i as int, n as int),
            trim_end_seq(rest) == trim_end_seq(rest.subrange(0, (j - i) as int)),
        decreases j,
    {
        proof {
            lemma_trim_end_step(rest, (j - i) as int);
        }
        j = j - 1;
    }
    let ghost kept = rest.subrange(0, (j - i) as int);
    assert(trim_end_seq(kept) == kept);
    let mut r: Vec<char> = Vec::new();
    let mut k: usize = i;
    while k < j
        invariant
            i <= k <= j <= n,
            n == v@.len(),
            r@ == v@.subrange(i as int, k as int),
        decreases j - k,
    {
        r.push(v[k]);
        k = k + 1;
        assert(r@ =~= v@.subrange(i as int, k as int));
    }
    assert(kept =~= v@.subrange(i as int, j as int));
    r
}

/// The string `s` without leading and trailing whitespace.
pub fn trim(s: &str) -> (r: Vec<char>)
    ensures
        r@ == trim_seq(s@),
{
    let v = chars_of(s);
    trim_chars(&v)
}

/// ASCII lower-casing of one character.
pub fn ascii_lower(c: char) -> (r: char)
    ensures
        r == ascii_lower_char(c),
{
    if 'A' <= c && c <= 'Z' {
        let u = (c as u32) + 32;
        char_from_ascii_letter(u)
    } else {
        c
    }
}

/// The lower-case ASCII letter with code `u` (97..=122).
fn char_from_ascii_letter(u: u32) -> (r: char)
    requires
        97 <= u <= 122,
    ensures
        r == (u as char),
{
    let b = u as u8;
    b as char
}

/// ASCII lower-casing of every character.
pub fn ascii_lower_chars(v: &[char]) -> (r: Vec<char>)
    ensures
        r@ == ascii_lower_seq(v@),
{
    let mut r: Vec<char> = Vec::new();
    let mut i: usize = 0;
    while i < v.len()
        invariant
            i <= v@.len(),
            r@ == ascii_lower_seq(v@.subrange(0, i as int)),
        decreases v@.len() - i,
    {
        r.push(ascii_lower(v[i]));
        i = i + 1;
        assert(r@ =~= ascii_lower_seq(v@.subrange(0, i as int)));
    }
    assert(v@.subrange(0, v@.len() as int) =~= v@);
    r
}

/// Whether `needle` occurs in `hay`.
pub fn contains_chars(hay: &[char], needle: &[char]) -> (r: bool)
    ensures
        r == has_infix(hay@, needle@),
{
    if needle.len() > hay.len() {
        return false;
    }
    if needle.len() == 0 {
        assert(hay@.subrange(0int, 0int + needle@.len()) =~= needle@);
        return true;
    }
    let n = hay.len();
    let last = n - needle.len();
    let mut i: usize = 0;
    while i <= last
        invariant
            n == hay@.len(),
            needle@.len() >= 1,
            last == hay@.len() - needle@.len(),
            i <= last + 1,
            forall|k: int| 0 <= k < i ==> #[trigger] hay@.subrange(k, k + needle@.len()) != needle@,
        decreases last + 1 - i,
    {
        if matches_at(hay, needle, i) {
            assert(hay@.subrange(i as int, i + needle@.len()) == needle@);
            return true;
        }
        i = i + 1;
    }
    assert forall|k: int| 0 <= k && k + needle@.len() <= hay@.len() implies #[trigger] hay@.subrange(k, k + needle@.len()) != needle@ by {
        assert(k < i);
    }
    false
}

/// Whether `needle` occurs in `hay` starting at position `at`.
pub fn matches_at(hay: &[char], needle: &[char], at: usize) -> (r: bool)
    requires
        at + needle@.len() <= hay@.len(),
    ensures
        r == (hay@.subrange(at as int, at + needle@.len()) == needle@),
{
    let n = hay.len();
    let mut k: usize = 0;
    while k < needle.len()
        invariant
            n == hay@.len(),
            at + needle@.len() <= hay@.len(),
            k <= needle@.len(),
            forall|m: int| 0 <= m < k ==> hay@[at + m] == needle@[m],
        decreases needle@.len() - k,
    {
        if hay[at + k] != needle[k] {
            assert(hay@.subrange(at as int, at + needle@.len())[k as int] != needle@[k as int]);
            return false;
        }
        k = k + 1;
    }
    assert(hay@.subrange(at as int, at + needle@.len()) =~= needle@);
    true
}

/// Whether `hay` begins with `prefix`.
pub fn starts_with_chars(hay: &[char], prefix: &[char]) -> (r: bool)
    ensures
        r == has_prefix(hay@, prefix@),
{
    if prefix.len() > hay.len() {
        return false;
    }
    matches_at(hay, prefix, 0)
}

/// Appends the decimal representation of `n`.
pub fn push_decimal(out: &mut String, n: u64)
    ensures
        final(out)@ == old(out)@ + decimal(n as nat),
    decreases n,
{
    if n >= 10 {
        push_decimal(out, n / 10);
    }
    push_char(out, digit(n % 10));
    assert(final(out)@ =~= old(out)@ + decimal(n as nat)) by {
        if n >= 10 {
            assert(decimal(n as nat) == decimal((n / 10) as nat).push(digit_char((n % 10) as int)));
        }
    }
}

/// The decimal representation of `n`.
pub fn decimal_string(n: u64) -> (s: String)
    ensures
        s@ == decimal(n as nat),
{
    let mut s = String::new();
    push_decimal(&mut s, n);
    assert(s@ =~= decimal(n as nat));
    s
}

/// The decimal digit `d` as a character.
pub fn digit(d: u64) -> (c: char)
    requires
        d < 10,
    ensures
        c == digit_char(d as int),
{
    match d {
        0 => '0',
        1 => '1',
        2 => '2',
        3 => '3',
        4 => '4',
        5 => '5',
        6 => '6',
        7 => '7',
        8 => '8',
        _ => '9',
    }
}

/// Appends `n` in decimal, left-padded with zeros to `width` characters.
pub fn push_zero_padded(out: &mut String, n: u64, width: usize)
    ensures
        final(out)@ == old(out)@ + zero_padded(n as nat, width as nat),
{
    let d = decimal_string(n);
    let len = d.as_str().unicode_len();
    let mut pad: usize = 0;
    let ghost start = out@;
    if len < width {
        let fill = width - len;
        while pad < fill
            invariant
                pad <= fill,
                fill == width - len,
                out@ == start + Seq::new(pad as nat, |i: int| '0'),
            decreases fill - pad,
        {
            push_char(out, '0');
            pad = pad + 1;
            assert(out@ =~= start + Seq::new(pad as nat, |i: int| '0'));
        }
    }
    out.append(d.as_str());
    assert(out@ =~= start + zero_padded(n as nat, width as nat));
}

/// What `str::parse` gives for an unsigned integer type whose largest value is
/// `max`.
pub fn parse_unsigned_chars(s: &[char], max: u64) -> (r: Option<u64>)
    ensures
        r is Some <==> parse_unsigned(s@, max as int) is Some,
        r is Some ==> r->0 == parse_unsigned(s@, max as int)->0,
{
    let n = s.len();
    let start: usize = if n > 0 && s[0] == '+' { 1 } else { 0 };
    let ghost b = unsigned_body(s@);
    assert(b =~= s@.subrange(start as int, n as int));
    if start == n {
        return None;
    }
    let mut acc: u64 = 0;
    let mut i: usize = start;
    assert(b.subrange(0, 0) =~= Seq::<char>::empty());
    while i < n
        invariant
            start <= i <= n,
            n == s@.len(),
            b == s@.subrange(start as int, n as int),
            b == unsigned_body(s@),
            acc as int == digits_value(b.subrange(0, i - start)),
            acc <= max,
            forall|k: int| 0 <= k < i - start ==> #[trigger] is_digit(b[k]),
        decreases n - i,
    {
        let c = s[i];
        assert(b[i - start] == c);
        if !('0' <= c && c <= '9') {
            assert(!is_digit(b[i - start]));
            assert(!all_digits(b));
            return None;
        }
        let d = (c as u32 - '0' as u32) as u64;
        let ghost pre = b.subrange(0, i - start);
        let ghost next = b.subrange(0, i - start + 1);
        assert(next.drop_last() =~= pre);
        assert(digits_value(next) == digits_value(pre) * 10 + d);
        let wide: u128 = (acc as u128) * 10 + (d as u128);
        if wide > max as u128 {
            proof {
                if all_digits(b) {
                    lemma_digits_prefix(b, i - start + 1);
                }
            }
            return None;
        }
        acc = acc * 10 + d;
        i = i + 1;
    }
    assert(b.subrange(0, n - start) =~= b);
    Some(acc)
}

/// `s` with every non-overlapping occurrence of the non-empty pattern `p`,
/// scanning left to right, replaced by `r` (what `str::replace` returns).
pub open spec fn replace_all(s: Seq<char>, p: Seq<char>, r: Seq<char>) -> Seq<char>
    decreases s.len(),
{
    if p.len() == 0 || s.len() < p.len() {
        s
    } else if s.take(p.len() as int) == p {
        r + replace_all(s.skip(p.len() as int), p, r)
    } else {
        seq![s[0]] + replace_all(s.drop_first(), p, r)
    }
}

/// `s` with every occurrence of the non-empty pattern `p` replaced by `r`.
pub fn replace(s: &[char], p: &[char], r: &[char]) -> (out: Vec<char>)
    requires
        p@.len() > 0,
    ensures
        out@ == replace_all(s@, p@, r@),
{
    let n = s.len();
    let mut out: Vec<char> = Vec::new();
    let mut i: usize = 0;
    assert(s@.skip(0) =~= s@);
    while i < n
        invariant
            n == s@.len(),
            p@.len() > 0,
            i <= n,
            replace_all(s@, p@, r@) == out@ + replace_all(s@.skip(i as int), p@, r@),
        decreases n - i,
    {
        let ghost rest = s@.skip(i as int);
        if p.len() <= n - i && matches_at(s, p, i) {
            assert(rest.take(p@.len() as int) =~= s@.subrange(i as int, i + p@.len()));
            assert(rest.skip(p@.len() as int) =~= s@.skip(i + p@.len()));
            let mut k: usize = 0;
            let ghost before = out@;
            while k < r.len()
                invariant
                    k <= r@.len(),
                    out@ == before + r@.take(k as int),
                decreases r@.len() - k,
            {
                out.push(r[k]);
                k = k + 1;
                assert(out@ =~= before + r@.take(k as int));
            }
            assert(r@.take(r@.len() as int) =~= r@);
            assert(out@ + replace_all(s@.skip(i + p@.len()), p@, r@) =~= before + (r@ + replace_all(s@.skip(i + p@.len()), p@, r@)));
            i = i + p.len();
        } else {
            if p.len() <= n - i {
                assert(rest.take(p@.len() as int) =~= s@.subrange(i as int, i + p@.len()));
            }
            assert(rest.drop_first() =~= s@.skip(i + 1));
            assert(rest[0] == s@[i as int]);
            let ghost before = out@;
            out.push(s[i]);
            assert(out@ + replace_all(s@.skip(i + 1), p@, r@) =~= before + (seq![s@[i as int]] + replace_all(s@.skip(i + 1), p@, r@)));
            i = i + 1;
        }
    }
    assert(s@.skip(n as int) =~= Seq::<char>::empty());
    assert(out@ + Seq::<char>::empty() =~= out@);
    out
}

/// The decimal text of `n` is a non-empty run of digits that reads back as `n`.
pub proof fn lemma_decimal_reads_back(n: nat)
    ensures
        decimal(n).len() >= 1,
        all_digits(decimal(n)),
        digits_value(decimal(n)) == n,
    decreases n,
{
    lemma_digit_char_value((n % 10) as int);
    if n < 10 {
        assert(decimal(n) =~= seq![digit_char(n as int)]);
        let one = seq![digit_char(n as int)];
        assert(one.drop_last() =~= Seq::<char>::empty());
        assert(one.last() == digit_char(n as int));
        assert(digits_value(Seq::<char>::empty()) == 0);
        assert(digits_value(one) == digits_value(one.drop_last()) * 10 + digit_value(one.last()));
    }
    if n >= 10 {
        lemma_decimal_reads_back(n / 10);
        let d = decimal(n);
        assert(d.drop_last() =~= decimal(n / 10));
        assert(d.last() == digit_char((n % 10) as int));
        assert(digits_value(d) == digits_value(d.drop_last()) * 10 + digit_value(d.last()));
        assert(n == (n / 10) * 10 + n % 10);
        assert forall|i: int| 0 <= i < d.len() implies #[trigger] is_digit(d[i]) by {
            if i < d.len() - 1 {
                assert(d[i] == decimal(n / 10)[i]);
            }
        }
    }
}

proof fn lemma_digit_char_value(d: int)
    requires
        0 <= d < 10,
    ensures
        is_digit(digit_char(d)),
        digit_value(digit_char(d)) == d,
{
}

/// Leading zeros do not change the number a run of digits reads as.
pub proof fn lemma_leading_zeros(k: nat, d: Seq<char>)
    requires
        all_digits(d),
    ensures
        all_digits(Seq::new(k, |i: int| '0') + d),
        digits_value(Seq::new(k, |i: int| '0') + d) == digits_value(d),
    decreases d.len(),
{
    let z = Seq::new(k, |i: int| '0');
    let s = z + d;
    assert forall|i: int| 0 <= i < s.len() implies #[trigger] is_digit(s[i]) by {
        if i >= k {
            assert(s[i] == d[i - k]);
        }
    }
    if d.len() == 0 {
        assert(s =~= z);
        lemma_zeros_read_zero(k);
    } else {
        let dd = d.drop_last();
        assert(all_digits(dd)) by {
            assert forall|i: int| 0 <= i < dd.len() implies #[trigger] is_digit(dd[i]) by {
                assert(is_digit(d[i]));
            }
        }
        lemma_leading_zeros(k, dd);
        assert(s.drop_last() =~= z + dd);
    }
}

proof fn lemma_zeros_read_zero(k: nat)
    ensures
        digits_value(Seq::new(k, |i: int| '0')) == 0,
    decreases k,
{
    if k > 0 {
        lemma_zeros_read_zero((k - 1) as nat);
        assert(Seq::new(k, |i: int| '0').drop_last() =~= Seq::new((k - 1) as nat, |i: int| '0'));
    }
}

/// Zero-padded decimal text is a non-empty run of digits that reads back as
/// the number.
pub proof fn lemma_zero_padded_reads_back(n: nat, width: nat)
    ensures
        zero_padded(n, width).len() >= 1,
        all_digits(zero_padded(n, width)),
        digits_value(zero_padded(n, width)) == n,
{
    lemma_decimal_reads_back(n);
    let d = decimal(n);
    if d.len() < width {
        lemma_leading_zeros((width - d.len()) as nat, d);
    }
}

/// Parts of `s` between `sep` characters (what `str::split(sep)` yields).
pub open spec fn split_on(s: Seq<char>, sep: char) -> Seq<Seq<char>>
    decreases s.len(),
{
    if s.len() == 0 {
        seq![Seq::<char>::empty()]
    } else {
        let rest = split_on(s.drop_last(), sep);
        if s.last() == sep {
            rest.push(Seq::<char>::empty())
        } else {
            rest.update(rest.len() - 1, rest.last().push(s.last()))
        }
    }
}

pub proof fn lemma_split_nonempty(s: Seq<char>, sep: char)
    ensures
        split_on(s, sep).len() >= 1,
    decreases s.len(),
{
    if s.len() > 0 {
        lemma_split_nonempty(s.drop_last(), sep);
    }
}

/// The parts of `v` between `sep` characters.
pub fn split_chars(v: &[char], sep: char) -> (parts: Vec<Vec<char>>)
    ensures
        parts@.map_values(|p: Vec<char>| p@) == split_on(v@, sep),
{
    let mut parts: Vec<Vec<char>> = Vec::new();
    parts.push(Vec::new());
    let mut i: usize = 0;
    assert(v@.take(0) =~= Seq::<char>::empty());
    assert(parts@.map_values(|p: Vec<char>| p@) =~= split_on(v@.take(0), sep));
    while i < v.len()
        invariant
            i <= v@.len(),
            parts@.len() >= 1,
            parts@.map_values(|p: Vec<char>| p@) == split_on(v@.take(i as int), sep),
        decreases v@.len() - i,
    {
        let ghost before = parts@.map_values(|p: Vec<char>| p@);
        assert(v@.take(i as int + 1).drop_last() =~= v@.take(i as int));
        assert(v@.take(i as int + 1).last() == v@[i as int]);
        let c = v[i];
        if c == sep {
            parts.push(Vec::new());
            assert(parts@.map_values(|p: Vec<char>| p@) =~= before.push(Seq::<char>::empty()));
        } else {
            let last = parts.len() - 1;
            let mut cur = parts.pop().unwrap();
            cur.push(c);
            parts.push(cur);
            assert(parts@.map_values(|p: Vec<char>| p@) =~= before.update(last as int, before.last().push(c)));
        }
        i = i + 1;
    }
    assert(v@.take(v@.len() as int) =~= v@);
    parts
}

/// `s` with every occurrence of the non-empty pattern `p` replaced by `r`.
pub fn replace_str(s: &str, p: &str, r: &str) -> (out: String)
    requires
        p@.len() > 0,
    ensures
        out@ == replace_all(s@, p@, r@),
{
    let v = replace(&chars_of(s), &chars_of(p), &chars_of(r));
    string_of(&v)
}

} // verus!
