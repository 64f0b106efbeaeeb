//! Character-level string helpers shared by the pages' logic.
//!
//! Strings are handled as `Vec<char>` while they are built or scanned, and
//! turned into `String` at the edges. Every helper here is specified over
//! `Seq<char>`, the view of both.
use vstd::prelude::*;

verus! {

/// The characters with the Unicode `White_Space` property: the set that
/// `char::is_whitespace` and `str::trim` work with.
pub open spec fn is_ws(c: char) -> bool {
    ||| ('\u{9}' <= c && c <= '\u{d}')
    ||| c == ' '
    ||| c == '\u{85}'
    ||| c == '\u{a0}'
    ||| c == '\u{1680}'
    ||| ('\u{2000}' <= c && c <= '\u{200a}')
    ||| c == '\u{2028}'
    ||| c == '\u{2029}'
    ||| c == '\u{202f}'
    ||| c == '\u{205f}'
    ||| c == '\u{3000}'
}

/// Index of the first non-whitespace character at or after `i` (or `s.len()`).
pub open spec fn first_non_ws_from(s: Seq<char>, i: int) -> int
    decreases s.len() - i,
{
    if i >= s.len() || i < 0 {
        if i < 0 { 0 } else { s.len() as int }
    } else if is_ws(s[i]) {
        first_non_ws_from(s, i + 1)
    } else {
        i
    }
}

/// End (exclusive) of `s[..j]` once trailing whitespace is dropped.
pub open spec fn last_non_ws_before(s: Seq<char>, j: int) -> int
    decreases j,
{
    if j <= 0 {
        0
    } else if is_ws(s[j - 1]) {
        last_non_ws_before(s, j - 1)
    } else {
        j
    }
}

/// `s` without its leading and trailing whitespace, as `str::trim` gives it.
pub open spec fn trimmed(s: Seq<char>) -> Seq<char> {
    let start = first_non_ws_from(s, 0);
    let end = last_non_ws_before(s, s.len() as int);
    if start >= end {
        Seq::empty()
    } else {
        s.subrange(start, end)
    }
}

pub open spec fn is_ascii_digit(c: char) -> bool {
    '0' <= c && c <= '9'
}

pub open spec fn is_ascii_lower(c: char) -> bool {
    'a' <= c && c <= 'z'
}

pub open spec fn is_ascii_upper(c: char) -> bool {
    'A' <= c && c <= 'Z'
}

pub open spec fn is_ascii_alnum(c: char) -> bool {
    is_ascii_digit(c) || is_ascii_lower(c) || is_ascii_upper(c)
}

/// `char::to_ascii_lowercase`.
pub open spec fn ascii_lower(c: char) -> char {
    if is_ascii_upper(c) {
        ((c as u32) + 32) as char
    } else {
        c
    }
}

/// `s` with every ASCII capital replaced by its small letter.
pub open spec fn ascii_lower_seq(s: Seq<char>) -> Seq<char> {
    Seq::new(s.len(), |i: int| ascii_lower(s[i]))
}

/// `needle` occurs in `hay` as a contiguous run (the empty run occurs everywhere).
pub open spec fn contains_sub(hay: Seq<char>, needle: Seq<char>) -> bool {
    exists|i: int| 0 <= i && i + needle.len() <= hay.len() && #[trigger] hay.subrange(i, i + needle.len()) == needle
}

pub open spec fn starts_with(s: Seq<char>, prefix: Seq<char>) -> bool {
    prefix.len() <= s.len() && s.subrange(0, prefix.len() as int) == prefix
}

/// What `str::to_lowercase` returns for a string: the full Unicode lower-case
/// mapping, which can change the number of characters.
pub uninterp spec fn unicode_lowercase(s: Seq<char>) -> Seq<char>;

/// Decimal digits of `n`, without sign or leading zeros (`"0"` for zero).
pub open spec fn nat_decimal(n: nat) -> Seq<char>
    decreases n,
{
    if n < 10 {
        seq![digit_char(n)]
    } else {
        nat_decimal(n / 10).push(digit_char(n % 10))
    }
}

pub open spec fn digit_char(d: nat) -> char {
    ((d + 48) as u32) as char
}

/// How `Display` writes a signed integer.
pub open spec fn int_decimal(n: int) -> Seq<char> {
    if n < 0 {
        seq!['-'] + nat_decimal((-n) as nat)
    } else {
        nat_decimal(n as nat)
    }
}

/// A key's length with its first and last two characters. The proofs
/// about the pages' fixed key lists tell keys apart by it.
pub(crate) open spec fn key_sig(s: Seq<char>) -> (int, char, char, char) {
    (s.len() as int, s[0], s[s.len() - 1], s[s.len() - 2])
}

/// Keys whose signatures differ are different keys.
pub(crate) proof fn lemma_sig_differs(a: Seq<char>, b: Seq<char>)
    requires
        key_sig(a) != key_sig(b),
    ensures
        a != b,
{
}

/// The characters of `s`, in order.
pub fn chars_of(s: &str) -> (r: Vec<char>)
    ensures
        r@ == s@,
{
    broadcast use vstd::string::axiom_spec_iter;
    let mut out: Vec<char> = Vec::new();
    for c in it: s.chars()
        invariant
            it.seq() == s@,
            out@ == it.seq().take(it.index() as int),
    {
        out.push(c);
    }
    out
}

/// The string made of `v`'s characters, in order.
#[verifier::external_body]
pub(crate) fn string_of(v: &Vec<char>) -> (r: String)
    ensures
        r@ == v@,
{
    v.iter().collect()
}

/// `str::to_lowercase`, the Unicode lower-case mapping of the whole string.
#[verifier::external_body]
pub(crate) fn lowercase(s: &str) -> (r: String)
    ensures
        r@ == unicode_lowercase(s@),
{
    s.to_lowercase()
}

/// `a == b` on strings.
pub fn str_eq(a: &str, b: &str) -> (r: bool)
    ensures
        r == (a@ == b@),
{
    let x = a.to_owned();
    let y = b.to_owned();
    x == y
}

/// The string `s` holds, as an owned `String`.
pub fn owned(s: &str) -> (r: String)
    ensures
        r@ == s@,
{
    s.to_owned()
}

pub fn is_ws_char(c: char) -> (r: bool)
    ensures
        r == is_ws(c),
{
    ('\u{9}' <= c && c <= '\u{d}') || c == ' ' || c == '\u{85}' || c == '\u{a0}' || c
        == '\u{1680}' || ('\u{2000}' <= c && c <= '\u{200a}') || c == '\u{2028}' || c
        == '\u{2029}' || c == '\u{202f}' || c == '\u{205f}' || c == '\u{3000}'
}

proof fn lemma_first_non_ws_bounds(s: Seq<char>, i: int)
    requires
        0 <= i <= s.len(),
    ensures
        i <= first_non_ws_from(s, i) <= s.len(),
        forall|k: int| i <= k < first_non_ws_from(s, i) ==> is_ws(#[trigger] s[k]),
        first_non_ws_from(s, i) < s.len() ==> !is_ws(s[first_non_ws_from(s, i)]),
    decreases s.len() - i,
{
    if i < s.len() && is_ws(s[i]) {
        lemma_first_non_ws_bounds(s, i + 1);
    }
}

proof fn lemma_last_non_ws_bounds(s: Seq<char>, j: int)
    requires
        0 <= j <= s.len(),
    ensures
        0 <= last_non_ws_before(s, j) <= j,
        forall|k: int| last_non_ws_before(s, j) <= k < j ==> is_ws(#[trigger] s[k]),
        last_non_ws_before(s, j) > 0 ==> !is_ws(s[last_non_ws_before(s, j) - 1]),
    decreases j,
{
    if j > 0 && is_ws(s[j - 1]) {
        lemma_last_non_ws_bounds(s, j - 1);
    }
}

/// `str::trim`: drops leading and trailing whitespace.
pub fn trim_chars(s: &Vec<char>) -> (r: Vec<char>)
    ensures
        r@ == trimmed(s@),
{
    let n = s.len();
    let mut start: usize = 0;
    while start < n && is_ws_char(s[start])
        invariant
            n == s.len(),
            start <= n,
            first_non_ws_from(s@, start as int) == first_non_ws_from(s@, 0),
        decreases n - start,
    {
        start = start + 1;
    }
    let mut end: usize = n;
    while end > 0 && is_ws_char(s[end - 1])
        invariant
            n == s.len(),
            end <= n,
            last_non_ws_before(s@, end as int) == last_non_ws_before(s@, n as int),
        decreases end,
    {
        end = end - 1;
    }
    let mut r: Vec<char> = Vec::new();
    if start < end {
        let mut i = start;
        while i < end
            invariant
                start <= i <= end <= n == s.len(),
                r@ == s@.subrange(start as int, i as int),
            decreases end - i,
        {
            r.push(s[i]);
            i = i + 1;
        }
    }
    r
}

/// `str::trim` on a string slice.
pub fn trim(s: &str) -> (r: String)
    ensures
        r@ == trimmed(s@),
{
    let v = chars_of(s);
    let t = trim_chars(&v);
    string_of(&t)
}

/// `hay.contains(needle)`.
pub fn contains(hay: &Vec<char>, needle: &Vec<char>) -> (r: bool)
    ensures
        r == contains_sub(hay@, needle@),
{
    let n = hay.len();
    let m = needle.len();
    if m > n {
        return false;
    }
    if m == 0 {
        assert(hay@.subrange(0, 0 + needle@.len() as int) =~= needle@);
        return true;
    }
    let mut i: usize = 0;
    while i <= n - m
        invariant
            n == hay.len(),
            m == needle.len(),
            1 <= m <= n,
            i <= n - m + 1,
            forall|k: int| 0 <= k < i ==> #[trigger] hay@.subrange(k, k + m) != needle@,
        decreases n - m + 1 - i,
    {
        let mut j: usize = 0;
        let mut same = true;
        while j < m
            invariant
                n == hay.len(),
                m == needle.len(),
                i + m <= n,
                j <= m,
                same ==> forall|t: int| 0 <= t < j ==> hay@[i + t] == needle@[t],
                !same ==> hay@.subrange(i as int, i + m) != needle@,
            decreases m - j,
        {
            if same && hay[i + j] != needle[j] {
                same = false;
                assert(hay@.subrange(i as int, i + m)[j as int] == hay@[i + j]);
            }
            j = j + 1;
        }
        if same {
            assert(hay@.subrange(i as int, i + m) =~= needle@);
            return true;
        }
        i = i + 1;
    }
    proof {
        assert forall|k: int| 0 <= k && k + m <= n implies #[trigger] hay@.subrange(k, k + m)
            != needle@ by {
            assert(k < i);
        }
    }
    false
}

/// `s.starts_with(prefix)`.
pub fn has_prefix(s: &Vec<char>, prefix: &Vec<char>) -> (r: bool)
    ensures
        r == starts_with(s@, prefix@),
{
    if prefix.len() > s.len() {
        return false;
    }
    let mut j: usize = 0;
    while j < prefix.len()
        invariant
            prefix.len() <= s.len(),
            j <= prefix.len(),
            forall|t: int| 0 <= t < j ==> s@[t] == prefix@[t],
        decreases prefix.len() - j,
    {
        if s[j] != prefix[j] {
            assert(s@.subrange(0, prefix.len() as int)[j as int] != prefix@[j as int]);
            return false;
        }
        j = j + 1;
    }
    assert(s@.subrange(0, prefix.len() as int) =~= prefix@);
    true
}

/// Appends the characters of `s` to `out`.
pub fn push_str(out: &mut Vec<char>, s: &str)
    ensures
        final(out)@ == old(out)@ + s@,
{
    let v = chars_of(s);
    let mut i: usize = 0;
    while i < v.len()
        invariant
            i <= v.len(),
            v@ == s@,
            out@ == old(out)@ + v@.subrange(0, i as int),
        decreases v.len() - i,
    {
        out.push(v[i]);
        i = i + 1;
        proof {
            assert(v@.subrange(0, i as int) =~= v@.subrange(0, i - 1).push(v@[i - 1]));
        }
    }
    assert(v@.subrange(0, v.len() as int) =~= v@);
}

/// Appends the characters of `s` to `out`.
pub fn push_chars(out: &mut Vec<char>, s: &Vec<char>)
    ensures
        final(out)@ == old(out)@ + s@,
{
    let mut i: usize = 0;
    while i < s.len()
        invariant
            i <= s.len(),
            out@ == old(out)@ + s@.subrange(0, i as int),
        decreases s.len() - i,
    {
        out.push(s[i]);
        i = i + 1;
        proof {
            assert(s@.subrange(0, i as int) =~= s@.subrange(0, i - 1).push(s@[i - 1]));
        }
    }
    assert(s@.subrange(0, s.len() as int) =~= s@);
}

proof fn lemma_nat_decimal_len(n: nat)
    ensures
        nat_decimal(n).len() >= 1,
        n < 10 ==> nat_decimal(n).len() == 1,
    decreases n,
{
    if n >= 10 {
        lemma_nat_decimal_len(n / 10);
    }
}

proof fn lemma_digit_char(d: nat)
    requires
        d < 10,
    ensures
        digit_char(d) as u32 == d + 48,
        is_ascii_digit(digit_char(d)),
{
    assert(digit_char(d) == ((d + 48) as u32) as char);
}

/// The decimal text of `n` is a run of digits whose value is `n`.
pub proof fn lemma_decimal_digits(n: nat)
    ensures
        nat_decimal(n).len() >= 1,
        all_digits(nat_decimal(n)),
        digits_value(nat_decimal(n)) == n,
    decreases n,
{
    lemma_digit_char(n % 10);
    if n < 10 {
        assert(nat_decimal(n).drop_last() =~= Seq::<char>::empty());
        assert(nat_decimal(n).last() == digit_char(n));
        assert(digits_value(Seq::<char>::empty()) == 0);
        assert(digits_value(nat_decimal(n)) == digits_value(nat_decimal(n).drop_last()) * 10 + n);
    } else {
        lemma_decimal_digits(n / 10);
        let p = nat_decimal(n / 10);
        let s = p.push(digit_char(n % 10));
        assert(s.drop_last() =~= p);
        assert(s.last() == digit_char(n % 10));
        assert(digits_value(s) == digits_value(p) * 10 + (n % 10));
        assert((n / 10) * 10 + n % 10 == n);
        assert(digits_value(s) == n);
        assert forall|i: int| 0 <= i < s.len() implies is_ascii_digit(#[trigger] s[i]) by {
            if i < p.len() {
                assert(s[i] == p[i]);
            }
        }
    }
}

/// Reading back the decimal text of an `i64` gives it.
pub proof fn lemma_parse_int_decimal(k: int)
    requires
        i64::MIN <= k <= i64::MAX,
    ensures
        parse_i64(int_decimal(k)) == Some(k),
{
    if k < 0 {
        let m = (-k) as nat;
        lemma_decimal_digits(m);
        let s = seq!['-'] + nat_decimal(m);
        assert(s.skip(1) =~= nat_decimal(m));
    } else {
        lemma_decimal_digits(k as nat);
        let s = nat_decimal(k as nat);
        assert(is_ascii_digit(s[0]));
    }
}

/// Decimal text of `n`, as `u64`'s `Display` writes it.
pub fn u64_decimal(n: u64) -> (r: Vec<char>)
    ensures
        r@ == nat_decimal(n as nat),
    decreases n,
{
    if n < 10 {
        let c = digit_of(n);
        let mut v: Vec<char> = Vec::new();
        v.push(c);
        assert(v@ =~= seq![digit_char(n as nat)]);
        v
    } else {
        let mut v = u64_decimal(n / 10);
        v.push(digit_of(n % 10));
        v
    }
}

fn digit_of(d: u64) -> (c: char)
    requires
        d < 10,
    ensures
        c == digit_char(d as nat),
{
    if d == 0 {
        '0'
    } else if d == 1 {
        '1'
    } else if d == 2 {
        '2'
    } else if d == 3 {
        '3'
    } else if d == 4 {
        '4'
    } else if d == 5 {
        '5'
    } else if d == 6 {
        '6'
    } else if d == 7 {
        '7'
    } else if d == 8 {
        '8'
    } else {
        '9'
    }
}

/// Decimal text of `n`, as `i64`'s `Display` writes it.
pub fn i64_decimal(n: i64) -> (r: Vec<char>)
    ensures
        r@ == int_decimal(n as int),
{
    if n < 0 {
        let mag: u64 = if n == i64::MIN {
            9223372036854775808u64
        } else {
            (-n) as u64
        };
        let digits = u64_decimal(mag);
        let mut v: Vec<char> = Vec::new();
        v.push('-');
        push_chars(&mut v, &digits);
        assert(v@ =~= seq!['-'] + digits@);
        v
    } else {
        u64_decimal(n as u64)
    }
}

/// `a.eq_ignore_ascii_case(b)`.
pub open spec fn eq_ignore_ascii_case(a: Seq<char>, b: Seq<char>) -> bool {
    ascii_lower_seq(a) == ascii_lower_seq(b)
}

/// Numeric value of a run of ASCII digits.
pub open spec fn digits_value(s: Seq<char>) -> nat
    decreases s.len(),
{
    if s.len() == 0 {
        0
    } else {
        digits_value(s.drop_last()) * 10 + ((s.last() as u32) - 48) as nat
    }
}

pub open spec fn all_digits(s: Seq<char>) -> bool {
    forall|i: int| 0 <= i < s.len() ==> is_ascii_digit(#[trigger] s[i])
}

/// What `s.parse::<i64>()` gives: an optional sign, then one or more ASCII
/// digits, with a value inside the `i64` range.
pub open spec fn parse_i64(s: Seq<char>) -> Option<int> {
    if s.len() == 0 {
        None
    } else {
        let neg = s[0] == '-';
        let digits = if s[0] == '-' || s[0] == '+' {
            s.skip(1)
        } else {
            s
        };
        if digits.len() == 0 || !all_digits(digits) {
            None
        } else {
            let v: int = if neg {
                -(digits_value(digits) as int)
            } else {
                digits_value(digits) as int
            };
            if i64::MIN <= v && v <= i64::MAX {
                Some(v)
            } else {
                None
            }
        }
    }
}

pub fn to_ascii_lower(c: char) -> (r: char)
    ensures
        r == ascii_lower(c),
{
    if 'A' <= c && c <= 'Z' {
        let code = (c as u32) + 32;
        assert(code <= 0x7f);
        char_of_ascii(code)
    } else {
        c
    }
}

/// The character with the given ASCII code.
fn char_of_ascii(code: u32) -> (c: char)
    requires
        code <= 0x7f,
    ensures
        c == code as char,
{
    let b = code as u8;
    let c = b as char;
    assert(c == code as char);
    c
}

/// `a.eq_ignore_ascii_case(b)`.
pub fn ascii_case_eq(a: &Vec<char>, b: &str) -> (r: bool)
    ensures
        r == eq_ignore_ascii_case(a@, b@),
{
    let bv = chars_of(b);
    if a.len() != bv.len() {
        proof {
            assert(ascii_lower_seq(a@).len() != ascii_lower_seq(b@).len());
        }
        return false;
    }
    let mut i: usize = 0;
    while i < a.len()
        invariant
            a.len() == bv.len(),
            bv@ == b@,
            i <= a.len(),
            forall|k: int| 0 <= k < i ==> ascii_lower(a@[k]) == ascii_lower(bv@[k]),
        decreases a.len() - i,
    {
        if to_ascii_lower(a[i]) != to_ascii_lower(bv[i]) {
            proof {
                assert(ascii_lower_seq(a@)[i as int] != ascii_lower_seq(b@)[i as int]);
            }
            return false;
        }
        i = i + 1;
    }
    assert(ascii_lower_seq(a@) =~= ascii_lower_seq(b@));
    true
}

proof fn lemma_digits_value_grows(s: Seq<char>, c: char)
    requires
        is_ascii_digit(c),
    ensures
        digits_value(s.push(c)) == digits_value(s) * 10 + ((c as u32) - 48) as nat,
        digits_value(s.push(c)) >= digits_value(s),
{
    assert(s.push(c).drop_last() =~= s);
}

/// `s.parse::<i64>().ok()`.
pub fn parse_i64_chars(s: &Vec<char>) -> (r: Option<i64>)
    ensures
        match r {
            Some(n) => parse_i64(s@) == Some(n as int),
            None => parse_i64(s@) is None,
        },
{
    if s.len() == 0 {
        return None;
    }
    let neg = s[0] == '-';
    let start: usize = if s[0] == '-' || s[0] == '+' {
        1
    } else {
        0
    };
    let ghost digits = s@.skip(start as int);
    proof {
        if start == 0 {
            assert(s@.skip(0) =~= s@);
        }
        assert(digits == (if s@[0] == '-' || s@[0] == '+' { s@.skip(1) } else { s@ }));
    }
    if start >= s.len() {
        assert(digits.len() == 0);
        return None;
    }
    let limit: u128 = 9223372036854775808u128;
    let mut mag: u128 = 0;
    let mut too_big = false;
    let mut i: usize = start;
    while i < s.len()
        invariant
            start <= i <= s.len(),
            start == 0 || start == 1,
            digits == s@.skip(start as int),
            s@.len() > 0,
            neg == (s@[0] == '-'),
            digits == (if s@[0] == '-' || s@[0] == '+' { s@.skip(1) } else { s@ }),
            forall|k: int| start <= k < i ==> is_ascii_digit(#[trigger] s@[k]),
            !too_big ==> mag == digits_value(s@.subrange(start as int, i as int)) && mag <= limit,
            too_big ==> digits_value(s@.subrange(start as int, i as int)) > limit,
            limit == 9223372036854775808u128,
        decreases s.len() - i,
    {
        let c = s[i];
        if !('0' <= c && c <= '9') {
            proof {
                assert(digits[i - start] == c);
                assert(!all_digits(digits));
            }
            return None;
        }
        let d = (c as u32 - 48) as u128;
        proof {
            lemma_digits_value_grows(s@.subrange(start as int, i as int), c);
            assert(s@.subrange(start as int, i + 1) =~= s@.subrange(start as int, i as int).push(c));
        }
        if !too_big {
            let next = mag * 10 + d;
            if next > limit {
                too_big = true;
            } else {
                mag = next;
            }
        }
        i = i + 1;
    }
    proof {
        assert(s@.subrange(start as int, s.len() as int) =~= digits);
        assert forall|k: int| 0 <= k < digits.len() implies is_ascii_digit(#[trigger] digits[k]) by {
            assert(digits[k] == s@[k + start]);
        }
        assert(all_digits(digits));
    }
    if too_big {
        return None;
    }
    if neg {
        if mag == limit {
            Some(-9223372036854775807i64 - 1)
        } else {
            let m = mag as i64;
            Some(-m)
        }
    } else {
        if mag == limit {
            None
        } else {
            Some(mag as i64)
        }
    }
}

/// `format!("{a}{b}{c}")` for three strings.
pub fn concat3(a: &str, b: &str, c: &str) -> (r: String)
    ensures
        r@ == a@ + b@ + c@,
{
    let mut v: Vec<char> = Vec::new();
    push_str(&mut v, a);
    push_str(&mut v, b);
    push_str(&mut v, c);
    assert(v@ =~= a@ + b@ + c@);
    string_of(&v)
}

/// `format!("{a}{b}")` for two strings.
pub fn concat2(a: &str, b: &str) -> (r: String)
    ensures
        r@ == a@ + b@,
{
    let mut v: Vec<char> = Vec::new();
    push_str(&mut v, a);
    push_str(&mut v, b);
    assert(v@ =~= a@ + b@);
    string_of(&v)
}

/// Whether `c` occurs in `s`.
pub fn has_char(s: &Vec<char>, c: char) -> (r: bool)
    ensures
        r == s@.contains(c),
{
    let mut i: usize = 0;
    while i < s.len()
        invariant
            i <= s.len(),
            forall|k: int| 0 <= k < i ==> s@[k] != c,
        decreases s.len() - i,
    {
        if s[i] == c {
            return true;
        }
        i = i + 1;
    }
    false
}

/// What `s.parse::<u32>()` gives: an optional `+`, then one or more ASCII
/// digits, with a value inside the `u32` range.
pub open spec fn parse_u32(s: Seq<char>) -> Option<nat> {
    if s.len() == 0 {
        None
    } else {
        let digits = if s[0] == '+' {
            s.skip(1)
        } else {
            s
        };
        if digits.len() == 0 || !all_digits(digits) || digits_value(digits) > u32::MAX {
            None
        } else {
            Some(digits_value(digits))
        }
    }
}

/// `s.parse::<u32>().ok()`.
pub fn parse_u32_chars(s: &Vec<char>) -> (r: Option<u32>)
    ensures
        match r {
            Some(n) => parse_u32(s@) == Some(n as nat),
            None => parse_u32(s@) is None,
        },
{
    if s.len() == 0 {
        return None;
    }
    let start: usize = if s[0] == '+' {
        1
    } else {
        0
    };
    let ghost digits = s@.skip(start as int);
    proof {
        if start == 0 {
            assert(s@.skip(0) =~= s@);
        }
    }
    if start >= s.len() {
        return None;
    }
    let mut mag: u64 = 0;
    let mut too_big = false;
    let mut i: usize = start;
    while i < s.len()
        invariant
            start <= i <= s.len(),
            start == 0 || start == 1,
            s@.len() > 0,
            digits == s@.skip(start as int),
            digits == (if s@[0] == '+' { s@.skip(1) } else { s@ }),
            forall|k: int| start <= k < i ==> is_ascii_digit(#[trigger] s@[k]),
            !too_big ==> mag == digits_value(s@.subrange(start as int, i as int)) && mag <= u32::MAX,
            too_big ==> digits_value(s@.subrange(start as int, i as int)) > u32::MAX,
        decreases s.len() - i,
    {
        let c = s[i];
        if !('0' <= c && c <= '9') {
            proof {
                assert(digits[i - start] == c);
            }
            return None;
        }
        let d = (c as u32 - 48) as u64;
        proof {
            lemma_digits_value_grows(s@.subrange(start as int, i as int), c);
            assert(s@.subrange(start as int, i + 1) =~= s@.subrange(start as int, i as int).push(c));
        }
        if !too_big {
            let next = mag * 10 + d;
            if next > 4294967295u64 {
                too_big = true;
            } else {
                mag = next;
            }
        }
        i = i + 1;
    }
    proof {
        assert(s@.subrange(start as int, s.len() as int) =~= digits);
        assert forall|k: int| 0 <= k < digits.len() implies is_ascii_digit(#[trigger] digits[k]) by {
            assert(digits[k] == s@[k + start]);
        }
    }
    if too_big {
        return None;
    }
    Some(mag as u32)
}

/// What `s.parse::<u64>()` gives: an optional `+`, then one or more ASCII
/// digits, with a value inside the `u64` range.
pub open spec fn parse_u64(s: Seq<char>) -> Option<nat> {
    if s.len() == 0 {
        None
    } else {
        let digits = if s[0] == '+' {
            s.skip(1)
        } else {
            s
        };
        if digits.len() == 0 || !all_digits(digits) || digits_value(digits) > u64::MAX {
            None
        } else {
            Some(digits_value(digits))
        }
    }
}

/// `s.parse::<u64>().ok()`.
pub fn parse_u64_chars(s: &Vec<char>) -> (r: Option<u64>)
    ensures
        match r {
            Some(n) => parse_u64(s@) == Some(n as nat),
            None => parse_u64(s@) is None,
        },
{
    if s.len() == 0 {
        return None;
    }
    let start: usize = if s[0] == '+' {
        1
    } else {
        0
    };
    let ghost digits = s@.skip(start as int);
    proof {
        if start == 0 {
            assert(s@.skip(0) =~= s@);
        }
    }
    if start >= s.len() {
        return None;
    }
    let mut mag: u128 = 0;
    let mut too_big = false;
    let mut i: usize = start;
    while i < s.len()
        invariant
            start <= i <= s.len(),
            start == 0 || start == 1,
            s@.len() > 0,
            digits == s@.skip(start as int),
            digits == (if s@[0] == '+' { s@.skip(1) } else { s@ }),
            forall|k: int| start <= k < i ==> is_ascii_digit(#[trigger] s@[k]),
            !too_big ==> mag == digits_value(s@.subrange(start as int, i as int)) && mag <= u64::MAX,
            too_big ==> digits_value(s@.subrange(start as int, i as int)) > u64::MAX,
        decreases s.len() - i,
    {
        let c = s[i];
        if !('0' <= c && c <= '9') {
            proof {
                assert(digits[i - start] == c);
            }
            return None;
        }
        let d = (c as u32 - 48) as u128;
        proof {
            lemma_digits_value_grows(s@.subrange(start as int, i as int), c);
            assert(s@.subrange(start as int, i + 1) =~= s@.subrange(start as int, i as int).push(c));
        }
        if !too_big {
            let next = mag * 10 + d;
            if next > 18446744073709551615u128 {
                too_big = true;
            } else {
                mag = next;
            }
        }
        i = i + 1;
    }
    proof {
        assert(s@.subrange(start as int, s.len() as int) =~= digits);
        assert forall|k: int| 0 <= k < digits.len() implies is_ascii_digit(#[trigger] digits[k]) by {
            assert(digits[k] == s@[k + start]);
        }
    }
    if too_big {
        return None;
    }
    Some(mag as u64)
}

/// A string with no whitespace is its own trim.
/// Trimming keeps every ASCII letter and digit: one occurs in `s` exactly
/// when one occurs in `trimmed(s)`.
pub proof fn lemma_trimmed_keeps_alnum(s: Seq<char>)
    ensures
        (exists|i: int| 0 <= i < s.len() && #[trigger] is_ascii_alnum(s[i])) == (exists|i: int|
            0 <= i < trimmed(s).len() && #[trigger] is_ascii_alnum(trimmed(s)[i])),
{
    let start = first_non_ws_from(s, 0);
    let end = last_non_ws_before(s, s.len() as int);
    lemma_first_non_ws_bounds(s, 0);
    lemma_last_non_ws_bounds(s, s.len() as int);
    if exists|i: int| 0 <= i < s.len() && #[trigger] is_ascii_alnum(s[i]) {
        let i = choose|i: int| 0 <= i < s.len() && #[trigger] is_ascii_alnum(s[i]);
        assert(!is_ws(s[i]));
        assert(start <= i < end);
        assert(trimmed(s)[i - start] == s[i]);
    }
    if exists|i: int| 0 <= i < trimmed(s).len() && #[trigger] is_ascii_alnum(trimmed(s)[i]) {
        let i = choose|i: int| 0 <= i < trimmed(s).len() && #[trigger] is_ascii_alnum(trimmed(s)[i]);
        assert(trimmed(s)[i] == s[i + start]);
    }
}

pub proof fn lemma_trimmed_of_clean(s: Seq<char>)
    requires
        forall|i: int| 0 <= i < s.len() ==> !is_ws(#[trigger] s[i]),
    ensures
        trimmed(s) == s,
{
    if s.len() > 0 {
        assert(first_non_ws_from(s, 0) == 0);
        assert(last_non_ws_before(s, s.len() as int) == s.len());
        assert(s.subrange(0, s.len() as int) =~= s);
    } else {
        assert(trimmed(s) =~= s);
    }
}

/// `parts.join(sep)`.
pub open spec fn join(parts: Seq<Seq<char>>, sep: Seq<char>) -> Seq<char>
    decreases parts.len(),
{
    if parts.len() == 0 {
        Seq::empty()
    } else if parts.len() == 1 {
        parts[0]
    } else {
        join(parts.drop_last(), sep) + sep + parts.last()
    }
}

/// The views of a list of strings.
pub open spec fn strings_view(v: Seq<String>) -> Seq<Seq<char>> {
    Seq::new(v.len(), |i: int| v[i]@)
}

/// `parts.join(sep)`.
pub fn join_strings(parts: &Vec<String>, sep: &str) -> (r: String)
    ensures
        r@ == join(strings_view(parts@), sep@),
{
    let ghost pv = strings_view(parts@);
    let mut out: Vec<char> = Vec::new();
    let mut i: usize = 0;
    while i < parts.len()
        invariant
            i <= parts.len(),
            pv == strings_view(parts@),
            out@ == join(pv.subrange(0, i as int), sep@),
        decreases parts.len() - i,
    {
        let ghost before = out@;
        if i > 0 {
            push_str(&mut out, sep);
        }
        push_str(&mut out, parts[i].as_str());
        proof {
            let sub = pv.subrange(0, i + 1);
            assert(sub.drop_last() =~= pv.subrange(0, i as int));
            assert(sub.last() == parts@[i as int]@);
            if i == 0 {
                assert(out@ =~= join(sub, sep@));
            } else {
                assert(out@ =~= join(sub, sep@));
            }
        }
        i = i + 1;
    }
    assert(pv.subrange(0, parts.len() as int) =~= pv);
    string_of(&out)
}

/// Whether `x` is one of the strings of `set`.
pub fn list_has(set: &Vec<String>, x: &str) -> (r: bool)
    ensures
        r == strings_view(set@).contains(x@),
{
    let mut i: usize = 0;
    while i < set.len()
        invariant
            i <= set.len(),
            forall|k: int| 0 <= k < i ==> set@[k]@ != x@,
        decreases set.len() - i,
    {
        if str_eq(set[i].as_str(), x) {
            assert(strings_view(set@)[i as int] == x@);
            return true;
        }
        i = i + 1;
    }
    assert(!strings_view(set@).contains(x@)) by {
        if strings_view(set@).contains(x@) {
            let k = choose|k: int| 0 <= k < strings_view(set@).len() && strings_view(set@)[k] == x@;
            assert(set@[k]@ == x@);
        }
    }
    false
}

} // verus!
