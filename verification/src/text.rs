//! Small text utilities used by the protocol, the daemon and the GUI:
//! string comparison and building, decimal and hexadecimal rendering,
//! hexadecimal parsing and whitespace tokenisation.
use vstd::prelude::*;
use vstd::string::*;

verus! {

/// Content equality of two string slices: the same characters in the same order.
pub(crate) fn str_eq(a: &str, b: &str) -> (r: bool)
    ensures
        r == (a@ == b@),
{
    let n = a.unicode_len();
    let m = b.unicode_len();
    if n != m {
        return false;
    }
    let r = matches_at(a, n, b, m, 0);
    assert(a@.subrange(0, n as int) =~= a@);
    r
}

/// Appends one character to a `String` (std's `String::push`).
#[verifier::external_body]
pub(crate) fn push_char(s: &mut String, c: char)
    ensures
        final(s)@ == old(s)@.push(c),
{
    s.push(c)
}

/// An owned copy of a string slice.
pub fn owned(s: &str) -> (r: String)
    ensures
        r@ == s@,
{
    s.to_owned()
}

/// Appends a string slice to a `String`.
pub fn push_str(s: &mut String, t: &str)
    ensures
        final(s)@ == old(s)@ + t@,
{
    s.append(t);
}

/// The concatenation of two string slices.
pub fn concat2(a: &str, b: &str) -> (r: String)
    ensures
        r@ == a@ + b@,
{
    let mut s = owned(a);
    push_str(&mut s, b);
    s
}

/// The concatenation of three string slices.
pub fn concat3(a: &str, b: &str, c: &str) -> (r: String)
    ensures
        r@ == a@ + b@ + c@,
{
    let mut s = owned(a);
    push_str(&mut s, b);
    push_str(&mut s, c);
    s
}

/// Whether `s` contains the character `c`.
pub fn contains_char(s: &str, c: char) -> (r: bool)
    ensures
        r == s@.contains(c),
{
    let n = s.unicode_len();
    let mut i: usize = 0;
    while i < n
        invariant
            n == s@.len(),
            i <= n,
            forall|j: int| 0 <= j < i ==> s@[j] != c,
        decreases n - i,
    {
        if s.get_char(i) == c {
            return true;
        }
        i = i + 1;
    }
    false
}

/// Whether `pat` occurs in `s` as a contiguous piece.
pub open spec fn occurs_at(s: Seq<char>, pat: Seq<char>, i: int) -> bool {
    0 <= i && i + pat.len() <= s.len() && s.subrange(i, i + pat.len()) == pat
}

/// Whether `pat` occurs anywhere in `s` (std's `str::contains` with a string pattern).
pub open spec fn contains_seq(s: Seq<char>, pat: Seq<char>) -> bool {
    exists|i: int| occurs_at(s, pat, i)
}

/// Whether the characters of `pat` stand in `s` from index `i` on.
fn matches_at(s: &str, n: usize, pat: &str, m: usize, i: usize) -> (r: bool)
    requires
        n == s@.len(),
        m == pat@.len(),
        i + m <= n,
    ensures
        r == (s@.subrange(i as int, i + m) == pat@),
{
    let mut k: usize = 0;
    while k < m
        invariant
            n == s@.len(),
            m == pat@.len(),
            i + m <= n,
            k <= m,
            forall|j: int| 0 <= j < k ==> s@[i + j] == pat@[j],
        decreases m - k,
    {
        if s.get_char(i + k) != pat.get_char(k) {
            assert(s@.subrange(i as int, i + m)[k as int] != pat@[k as int]);
            return false;
        }
        k = k + 1;
    }
    assert(s@.subrange(i as int, i + m) =~= pat@);
    true
}

/// Whether `pat` occurs in `s` as a contiguous piece.
pub fn contains_str(s: &str, pat: &str) -> (r: bool)
    ensures
        r == contains_seq(s@, pat@),
{
    let n = s.unicode_len();
    let m = pat.unicode_len();
    if m > n {
        assert forall|i: int| !occurs_at(s@, pat@, i) by {}
        return false;
    }
    let mut i: usize = 0;
    loop
        invariant
            n == s@.len(),
            m == pat@.len(),
            m <= n,
            i <= n - m,
            forall|j: int| 0 <= j < i ==> !occurs_at(s@, pat@, j),
        ensures
            forall|j: int| 0 <= j <= n - m ==> !occurs_at(s@, pat@, j),
        decreases n - m - i,
    {
        if matches_at(s, n, pat, m, i) {
            assert(occurs_at(s@, pat@, i as int));
            return true;
        }
        if i == n - m {
            assert(!occurs_at(s@, pat@, i as int));
            break;
        }
        i = i + 1;
    }
    assert forall|j: int| !occurs_at(s@, pat@, j) by {
    }
    false
}

/// Whether `pre` is a prefix of `s`.
pub open spec fn has_prefix(s: Seq<char>, pre: Seq<char>) -> bool {
    pre.len() <= s.len() && s.subrange(0, pre.len() as int) == pre
}

/// Whether `s` starts with `pre` (std's `str::starts_with`).
pub fn starts_with(s: &str, pre: &str) -> (r: bool)
    ensures
        r == has_prefix(s@, pre@),
{
    let n = s.unicode_len();
    let m = pre.unicode_len();
    if m > n {
        return false;
    }
    matches_at(s, n, pre, m, 0)
}

// ---------------------------------------------------------------------
// Decimal rendering
// ---------------------------------------------------------------------

/// The character of a decimal digit.
pub open spec fn digit_char(d: nat) -> char
    recommends
        d < 10,
{
    if d == 0 { '0' }
    else if d == 1 { '1' }
    else if d == 2 { '2' }
    else if d == 3 { '3' }
    else if d == 4 { '4' }
    else if d == 5 { '5' }
    else if d == 6 { '6' }
    else if d == 7 { '7' }
    else if d == 8 { '8' }
    else { '9' }
}

/// The decimal rendering of `n`, without sign or leading zeros (as `{}` prints it).
pub open spec fn decimal(n: nat) -> Seq<char>
    decreases n,
{
    if n < 10 {
        seq![digit_char(n)]
    } else {
        decimal(n / 10).push(digit_char(n % 10))
    }
}

fn digit_char_exec(d: u64) -> (c: char)
    requires
        d < 10,
    ensures
        c == digit_char(d as nat),
{
    if d == 0 { '0' }
    else if d == 1 { '1' }
    else if d == 2 { '2' }
    else if d == 3 { '3' }
    else if d == 4 { '4' }
    else if d == 5 { '5' }
    else if d == 6 { '6' }
    else if d == 7 { '7' }
    else if d == 8 { '8' }
    else { '9' }
}

/// The decimal rendering of a number.
pub fn decimal_string(n: u64) -> (r: String)
    ensures
        r@ == decimal(n as nat),
    decreases n,
{
    if n < 10 {
        let mut s = String::new();
        push_char(&mut s, digit_char_exec(n));
        assert(s@ =~= seq![digit_char(n as nat)]);
        s
    } else {
        let mut s = decimal_string(n / 10);
        push_char(&mut s, digit_char_exec(n % 10));
        s
    }
}

// ---------------------------------------------------------------------
// Hexadecimal rendering and parsing
// ---------------------------------------------------------------------

/// The upper-case hexadecimal digit of `d`.
pub open spec fn hex_upper_char(d: nat) -> char
    recommends
        d < 16,
{
    if d < 10 { digit_char(d) }
    else if d == 10 { 'A' }
    else if d == 11 { 'B' }
    else if d == 12 { 'C' }
    else if d == 13 { 'D' }
    else if d == 14 { 'E' }
    else { 'F' }
}

/// The lower-case hexadecimal digit of `d`.
pub open spec fn hex_lower_char(d: nat) -> char
    recommends
        d < 16,
{
    if d < 10 { digit_char(d) }
    else if d == 10 { 'a' }
    else if d == 11 { 'b' }
    else if d == 12 { 'c' }
    else if d == 13 { 'd' }
    else if d == 14 { 'e' }
    else { 'f' }
}

/// The lower-case hexadecimal rendering of `n` without leading zeros (as `{:x}` prints it).
pub open spec fn hex_lower(n: nat) -> Seq<char>
    decreases n,
{
    if n < 16 {
        seq![hex_lower_char(n)]
    } else {
        hex_lower(n / 16).push(hex_lower_char(n % 16))
    }
}

/// The upper-case hexadecimal rendering of `n`, padded with zeros to four digits
/// (as `{:04X}` prints a `u16`).
pub open spec fn hex4_upper(n: nat) -> Seq<char> {
    seq![
        hex_upper_char((n / 4096) % 16),
        hex_upper_char((n / 256) % 16),
        hex_upper_char((n / 16) % 16),
        hex_upper_char(n % 16),
    ]
}

fn hex_upper_char_exec(d: u16) -> (c: char)
    requires
        d < 16,
    ensures
        c == hex_upper_char(d as nat),
{
    if d < 10 {
        digit_char_exec(d as u64)
    } else if d == 10 { 'A' }
    else if d == 11 { 'B' }
    else if d == 12 { 'C' }
    else if d == 13 { 'D' }
    else if d == 14 { 'E' }
    else { 'F' }
}

fn hex_lower_char_exec(d: u64) -> (c: char)
    requires
        d < 16,
    ensures
        c == hex_lower_char(d as nat),
{
    if d < 10 {
        digit_char_exec(d)
    } else if d == 10 { 'a' }
    else if d == 11 { 'b' }
    else if d == 12 { 'c' }
    else if d == 13 { 'd' }
    else if d == 14 { 'e' }
    else { 'f' }
}

/// Appends the four-digit upper-case hexadecimal rendering of `v`.
pub fn push_hex4_upper(s: &mut String, v: u16)
    ensures
        final(s)@ == old(s)@ + hex4_upper(v as nat),
{
    push_char(s, hex_upper_char_exec((v / 4096) % 16));
    push_char(s, hex_upper_char_exec((v / 256) % 16));
    push_char(s, hex_upper_char_exec((v / 16) % 16));
    push_char(s, hex_upper_char_exec(v % 16));
    assert(s@ =~= old(s)@ + hex4_upper(v as nat));
}

/// The lower-case hexadecimal rendering of a number.
pub fn hex_lower_string(n: u64) -> (r: String)
    ensures
        r@ == hex_lower(n as nat),
    decreases n,
{
    if n < 16 {
        let mut s = String::new();
        push_char(&mut s, hex_lower_char_exec(n));
        assert(s@ =~= seq![hex_lower_char(n as nat)]);
        s
    } else {
        let mut s = hex_lower_string(n / 16);
        push_char(&mut s, hex_lower_char_exec(n % 16));
        s
    }
}

/// The value of a hexadecimal digit in either case, if `c` is one.
pub open spec fn hex_digit_value(c: char) -> Option<nat> {
    if '0' <= c && c <= '9' {
        Some((c as nat - '0' as nat) as nat)
    } else if 'a' <= c && c <= 'f' {
        Some((c as nat - 'a' as nat + 10) as nat)
    } else if 'A' <= c && c <= 'F' {
        Some((c as nat - 'A' as nat + 10) as nat)
    } else {
        None
    }
}

/// The value of a sequence of hexadecimal digits, most significant first
/// (`None` when a character is not a hexadecimal digit).
pub open spec fn hex_digits_value(s: Seq<char>) -> Option<nat>
    decreases s.len(),
{
    if s.len() == 0 {
        Some(0)
    } else {
        match (hex_digits_value(s.drop_last()), hex_digit_value(s.last())) {
            (Some(v), Some(d)) => Some(v * 16 + d),
            _ => None,
        }
    }
}

/// `s` without one leading `+` sign.
pub open spec fn unsigned_digits(s: Seq<char>) -> Seq<char> {
    if s.len() > 0 && s[0] == '+' {
        s.drop_first()
    } else {
        s
    }
}

/// What `u16::from_str_radix(s, 16)` gives: an optional `+` sign followed by at
/// least one hexadecimal digit, the value fitting in 16 bits.
pub open spec fn parse_hex_u16_spec(s: Seq<char>) -> Option<u16> {
    let digits = unsigned_digits(s);
    if digits.len() == 0 {
        None
    } else {
        match hex_digits_value(digits) {
            Some(v) => if v <= 0xffff { Some(v as u16) } else { None },
            None => None,
        }
    }
}

fn hex_digit_value_exec(c: char) -> (r: Option<u32>)
    ensures
        r matches Some(d) ==> hex_digit_value(c) == Some(d as nat) && d < 16,
        r is None ==> hex_digit_value(c) is None,
{
    if '0' <= c && c <= '9' {
        Some((c as u32) - ('0' as u32))
    } else if 'a' <= c && c <= 'f' {
        Some((c as u32) - ('a' as u32) + 10)
    } else if 'A' <= c && c <= 'F' {
        Some((c as u32) - ('A' as u32) + 10)
    } else {
        None
    }
}

proof fn lemma_hex_digits_prefix(s: Seq<char>, i: int)
    requires
        0 <= i < s.len(),
    ensures
        s.subrange(0, i + 1).drop_last() == s.subrange(0, i),
        s.subrange(0, i + 1).last() == s[i],
{
    assert(s.subrange(0, i + 1).drop_last() =~= s.subrange(0, i));
}

proof fn lemma_hex_digits_none_extends(s: Seq<char>, i: int)
    requires
        0 <= i <= s.len(),
        hex_digits_value(s.subrange(0, i)) is None,
    ensures
        hex_digits_value(s) is None,
    decreases s.len() - i,
{
    if i < s.len() {
        lemma_hex_digits_prefix(s, i);
        lemma_hex_digits_none_extends(s, i + 1);
    } else {
        assert(s.subrange(0, i) =~= s);
    }
}

proof fn lemma_hex_digits_monotone(s: Seq<char>, i: int, v: nat, w: nat)
    requires
        0 <= i <= s.len(),
        hex_digits_value(s.subrange(0, i)) == Some(v),
        hex_digits_value(s) == Some(w),
    ensures
        v <= w,
    decreases s.len() - i,
{
    if i < s.len() {
        lemma_hex_digits_prefix(s, i);
        let next = s.subrange(0, i + 1);
        match hex_digits_value(next) {
            Some(v2) => {
                lemma_hex_digits_monotone(s, i + 1, v2, w);
            },
            None => {
                lemma_hex_digits_none_extends(s, i + 1);
            },
        }
    } else {
        assert(s.subrange(0, i) =~= s);
    }
}

/// Parses a number written in hexadecimal as `u16::from_str_radix(s, 16)` does.
pub fn parse_hex_u16(s: &str) -> (r: Option<u16>)
    ensures
        r == parse_hex_u16_spec(s@),
{
    let n = s.unicode_len();
    let ghost digits = unsigned_digits(s@);
    let start: usize = if n > 0 && s.get_char(0) == '+' { 1 } else { 0 };
    assert(digits =~= s@.subrange(start as int, n as int));
    if start == n {
        return None;
    }
    let mut value: u32 = 0;
    let mut i: usize = start;
    while i < n
        invariant
            n == s@.len(),
            start <= i <= n,
            digits == s@.subrange(start as int, n as int),
            digits == unsigned_digits(s@),
            hex_digits_value(digits.subrange(0, i - start)) == Some(value as nat),
            value <= 0xffff,
        decreases n - i,
    {
        let c = s.get_char(i);
        proof {
            lemma_hex_digits_prefix(digits, i - start);
            assert(digits[i - start] == c);
        }
        match hex_digit_value_exec(c) {
            None => {
                proof {
                    lemma_hex_digits_none_extends(digits, i - start + 1);
                    assert(hex_digits_value(digits) is None);
                }
                return None;
            },
            Some(d) => {
                let next = value * 16 + d;
                if next > 0xffff {
                    proof {
                        match hex_digits_value(digits) {
                            Some(w) => {
                                lemma_hex_digits_monotone(digits, i - start + 1, next as nat, w);
                            },
                            None => {},
                        }
                    }
                    return None;
                }
                value = next;
            },
        }
        i = i + 1;
    }
    assert(digits.subrange(0, n - start) =~= digits);
    Some(value as u16)
}

/// Every upper-case hexadecimal letter has the value of its lower-case form:
/// for `c` in `'A'..='F'`, the character 32 code points above it is the
/// matching letter of `'a'..='f'`, both read as `c - 'A' + 10`.
pub proof fn lemma_hex_letter_cases(c: char, l: char)
    requires
        'A' <= c && c <= 'F',
        l as nat == c as nat + 32,
    ensures
        'a' <= l && l <= 'f',
        hex_digit_value(c) == Some((c as nat - 65 + 10) as nat),
        hex_digit_value(l) == Some((c as nat - 65 + 10) as nat),
        hex_digit_value(c) == hex_digit_value(l),
{
}

/// Each hexadecimal digit reads back as the value it renders, in both cases;
/// the upper-case digit of `d` is the ASCII character `'0' + d` below ten and
/// `'A' + (d - 10)` from ten on.
pub proof fn lemma_hex_char_roundtrip(d: nat)
    requires
        d < 16,
    ensures
        hex_digit_value(hex_upper_char(d)) == Some(d),
        hex_digit_value(hex_lower_char(d)) == Some(d),
        d < 10 ==> hex_upper_char(d) as nat == 48 + d,
        d < 10 ==> hex_lower_char(d) as nat == 48 + d,
        d >= 10 ==> hex_upper_char(d) as nat == 65 + (d - 10),
        d >= 10 ==> hex_lower_char(d) as nat == 97 + (d - 10),
{
    if d == 0 {} else if d == 1 {} else if d == 2 {} else if d == 3 {}
    else if d == 4 {} else if d == 5 {} else if d == 6 {} else if d == 7 {}
    else if d == 8 {} else if d == 9 {} else if d == 10 {} else if d == 11 {}
    else if d == 12 {} else if d == 13 {} else if d == 14 {} else {}
}

/// The four-digit upper-case rendering of a 16-bit number parses back, as
/// `u16::from_str_radix(.., 16)` reads it, to that number.
pub proof fn lemma_hex4_upper_roundtrip(n: u16)
    ensures
        parse_hex_u16_spec(hex4_upper(n as nat)) == Some(n),
{
    let v = n as nat;
    let d3 = (v / 4096) % 16;
    let d2 = (v / 256) % 16;
    let d1 = (v / 16) % 16;
    let d0 = v % 16;
    lemma_hex_char_roundtrip(d3);
    lemma_hex_char_roundtrip(d2);
    lemma_hex_char_roundtrip(d1);
    lemma_hex_char_roundtrip(d0);
    let s = hex4_upper(v);
    assert(s[0] != '+');
    assert(unsigned_digits(s) == s);
    let s3 = seq![hex_upper_char(d3), hex_upper_char(d2), hex_upper_char(d1)];
    let s2 = seq![hex_upper_char(d3), hex_upper_char(d2)];
    let s1 = seq![hex_upper_char(d3)];
    assert(s.drop_last() =~= s3);
    assert(s3.drop_last() =~= s2);
    assert(s2.drop_last() =~= s1);
    assert(s1.drop_last() =~= Seq::<char>::empty());
    assert(hex_digits_value(Seq::<char>::empty()) == Some(0nat));
    assert(hex_digits_value(s1) == Some(0nat * 16 + d3));
    assert(hex_digits_value(s2) == Some((0nat * 16 + d3) * 16 + d2));
    assert(hex_digits_value(s3) == Some(((0nat * 16 + d3) * 16 + d2) * 16 + d1));
    assert(hex_digits_value(s) == Some((((0nat * 16 + d3) * 16 + d2) * 16 + d1) * 16 + d0));
    assert((((0nat * 16 + d3) * 16 + d2) * 16 + d1) * 16 + d0 == v) by (nonlinear_arith)
        requires
            v < 65536,
            d3 == (v / 4096) % 16,
            d2 == (v / 256) % 16,
            d1 == (v / 16) % 16,
            d0 == v % 16,
    ;
}

// ---------------------------------------------------------------------
// Whitespace tokenisation
// ---------------------------------------------------------------------

/// Unicode `White_Space`, the property that `char::is_whitespace` tests.
pub open spec fn is_ws(c: char) -> bool {
    let u = c as u32;
    (0x09 <= u && u <= 0x0d) || u == 0x20 || u == 0x85 || u == 0xa0 || u == 0x1680
        || (0x2000 <= u && u <= 0x200a) || u == 0x2028 || u == 0x2029 || u == 0x202f
        || u == 0x205f || u == 0x3000
}

/// Whether `c` is Unicode white space.
pub fn is_whitespace(c: char) -> (r: bool)
    ensures
        r == is_ws(c),
{
    let u = c as u32;
    (0x09 <= u && u <= 0x0d) || u == 0x20 || u == 0x85 || u == 0xa0 || u == 0x1680
        || (0x2000 <= u && u <= 0x200a) || u == 0x2028 || u == 0x2029 || u == 0x202f
        || u == 0x205f || u == 0x3000
}

/// The longest prefix of `s` without white space.
pub open spec fn leading_word(s: Seq<char>) -> Seq<char>
    decreases s.len(),
{
    if s.len() == 0 || is_ws(s[0]) {
        Seq::empty()
    } else {
        seq![s[0]] + leading_word(s.drop_first())
    }
}

/// The white-space separated words of `s`, in order (what `str::split_whitespace` yields).
pub open spec fn words(s: Seq<char>) -> Seq<Seq<char>>
    decreases s.len(), 1nat,
{
    if s.len() == 0 {
        Seq::empty()
    } else if is_ws(s[0]) {
        words(s.drop_first())
    } else {
        words_from_word(s)
    }
}

/// The words of `s` when `s` starts with a word character.
pub open spec fn words_from_word(s: Seq<char>) -> Seq<Seq<char>>
    decreases s.len(), 0nat,
{
    if s.len() == 0 {
        Seq::empty()
    } else {
        proof {
            lemma_leading_word_len(s);
        }
        let w = leading_word(s);
        if w.len() == 0 {
            Seq::empty()
        } else {
            seq![w] + words(s.skip(w.len() as int))
        }
    }
}

pub proof fn lemma_leading_word_len(s: Seq<char>)
    ensures
        leading_word(s).len() <= s.len(),
        forall|j: int| 0 <= j < leading_word(s).len() ==> leading_word(s)[j] == s[j],
    decreases s.len(),
{
    if s.len() > 0 && !is_ws(s[0]) {
        let t = s.drop_first();
        lemma_leading_word_len(t);
        let w = leading_word(s);
        assert(w == seq![s[0]] + leading_word(t));
        assert forall|j: int| 0 <= j < w.len() implies w[j] == s[j] by {
            if j > 0 {
                assert(w[j] == leading_word(t)[j - 1]);
                assert(t[j - 1] == s[j]);
            }
        }
    }
}

proof fn lemma_leading_word_step(s: Seq<char>, i: int)
    requires
        0 <= i < s.len(),
        !is_ws(s[i]),
    ensures
        leading_word(s.skip(i)) == seq![s[i]] + leading_word(s.skip(i + 1)),
{
    assert(s.skip(i).drop_first() =~= s.skip(i + 1));
}

proof fn lemma_leading_word_stop(s: Seq<char>, i: int)
    requires
        0 <= i <= s.len(),
        i == s.len() || is_ws(s[i]),
    ensures
        leading_word(s.skip(i)) == Seq::<char>::empty(),
{
}

proof fn lemma_words_skip_ws(s: Seq<char>, i: int)
    requires
        0 <= i < s.len(),
        is_ws(s[i]),
    ensures
        words(s.skip(i)) == words(s.skip(i + 1)),
{
    assert(s.skip(i).drop_first() =~= s.skip(i + 1));
}

/// Splits `s` at white space into its words (`str::split_whitespace`).
pub fn split_whitespace(s: &str) -> (r: Vec<String>)
    ensures
        r@.len() == words(s@).len(),
        forall|k: int| 0 <= k < r@.len() ==> #[trigger] r@[k]@ == words(s@)[k],
{
    let n = s.unicode_len();
    let mut out: Vec<String> = Vec::new();
    let ghost mut acc: Seq<Seq<char>> = Seq::empty();
    let mut i: usize = 0;
    assert(s@.skip(0) =~= s@);
    while i < n
        invariant
            n == s@.len(),
            i <= n,
            out@.len() == acc.len(),
            forall|k: int| 0 <= k < out@.len() ==> #[trigger] out@[k]@ == acc[k],
            acc + words(s@.skip(i as int)) == words(s@),
        decreases n - i,
    {
        let c = s.get_char(i);
        if is_whitespace(c) {
            proof {
                lemma_words_skip_ws(s@, i as int);
            }
            i = i + 1;
        } else {
            let start = i;
            let mut w = String::new();
            proof {
                lemma_leading_word_len(s@.skip(start as int));
            }
            while i < n && !is_whitespace(s.get_char(i))
                invariant
                    n == s@.len(),
                    start <= i <= n,
                    start < n,
                    w@.len() == i - start,
                    !is_ws(s@[start as int]),
                    leading_word(s@.skip(start as int)) == w@ + leading_word(s@.skip(i as int)),
                decreases n - i,
            {
                let d = s.get_char(i);
                proof {
                    lemma_leading_word_step(s@, i as int);
                }
                let ghost w_old = w@;
                push_char(&mut w, d);
                assert(w@ + leading_word(s@.skip(i + 1)) =~= w_old + (seq![d] + leading_word(
                    s@.skip(i + 1),
                )));
                i = i + 1;
            }
            proof {
                lemma_leading_word_stop(s@, i as int);
                assert(w@ + Seq::<char>::empty() =~= w@);
                let sk = s@.skip(start as int);
                lemma_leading_word_len(sk);
                assert(w@.len() == i - start);
                assert(sk.skip(w@.len() as int) =~= s@.skip(i as int));
                assert(words(sk) == words_from_word(sk));
                assert(w@.len() > 0) by {
                    lemma_leading_word_step(s@, start as int);
                }
                assert(words(sk) == seq![w@] + words(s@.skip(i as int)));
                acc = acc.push(w@);
                assert(acc + words(s@.skip(i as int)) =~= (acc.drop_last() + seq![w@]) + words(
                    s@.skip(i as int),
                ));
            }
            out.push(w);
        }
    }
    proof {
        assert(s@.skip(n as int) =~= Seq::<char>::empty());
        assert(acc + Seq::<Seq<char>>::empty() =~= acc);
    }
    out
}

/// `s` without leading and trailing white space (`str::trim`).
pub open spec fn trim_spec(s: Seq<char>) -> Seq<char>
    decreases s.len(),
{
    if s.len() > 0 && is_ws(s[0]) {
        trim_spec(s.drop_first())
    } else if s.len() > 0 && is_ws(s.last()) {
        trim_spec(s.drop_last())
    } else {
        s
    }
}

/// Removes leading and trailing white space.
pub fn trim(s: &str) -> (r: String)
    ensures
        r@ == trim_spec(s@),
{
    let n = s.unicode_len();
    let mut start: usize = 0;
    assert(s@.subrange(0, n as int) =~= s@);
    while start < n && is_whitespace(s.get_char(start))
        invariant
            n == s@.len(),
            start <= n,
            trim_spec(s@) == trim_spec(s@.subrange(start as int, n as int)),
        decreases n - start,
    {
        assert(s@.subrange(start as int, n as int).drop_first() =~= s@.subrange(start + 1, n as int));
        start = start + 1;
    }
    let mut end: usize = n;
    while end > start && is_whitespace(s.get_char(end - 1))
        invariant
            n == s@.len(),
            start <= end <= n,
            start == n || !is_ws(s@[start as int]) || end < n,
            trim_spec(s@) == trim_spec(s@.subrange(start as int, end as int)),
            start < end ==> !is_ws(s@[start as int]),
        decreases end - start,
    {
        let ghost sub = s@.subrange(start as int, end as int);
        assert(sub.drop_last() =~= s@.subrange(start as int, end - 1));
        assert(sub.last() == s@[end - 1]);
        end = end - 1;
    }
    proof {
        let sub = s@.subrange(start as int, end as int);
        if sub.len() > 0 {
            assert(sub[0] == s@[start as int]);
            assert(sub.last() == s@[end - 1]);
        }
    }
    owned(s.substring_char(start, end))
}

} // verus!
