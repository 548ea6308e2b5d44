//! Decimal numbers in and out of text, and small string helpers.

use vstd::prelude::*;

verus! {

/// The character of a decimal digit.
pub open spec fn digit_char(d: int) -> char {
    ((48 + d) as u32) as char
}

/// Decimal digits of a natural number, most significant first, no leading zeros.
pub open spec fn dec(n: nat) -> Seq<char>
    decreases n,
{
    if n < 10 {
        seq![digit_char(n as int)]
    } else {
        dec(n / 10).push(digit_char((n % 10) as int))
    }
}

/// Every character of a number's decimal text is a digit.
pub proof fn lemma_dec_digits(n: nat)
    ensures
        forall|i: int| 0 <= i < dec(n).len() ==> is_digit(#[trigger] dec(n)[i]),
    decreases n,
{
    if n >= 10 {
        lemma_dec_digits(n / 10);
        assert forall|i: int| 0 <= i < dec(n).len() implies is_digit(#[trigger] dec(n)[i]) by {
            if i < dec(n / 10).len() {
                assert(dec(n)[i] == dec(n / 10)[i]);
            }
        }
    }
}

/// Decimal text of an integer: a minus sign before the digits of a negative number.
pub open spec fn int_text(i: int) -> Seq<char> {
    if i < 0 {
        seq!['-'] + dec((-i) as nat)
    } else {
        dec(i as nat)
    }
}

/// The text of an optional word.
pub open spec fn opt_text(o: Option<&str>) -> Option<Seq<char>> {
    match o {
        Some(s) => Some(s@),
        None => None,
    }
}

/// `String::push`: appends one character.
#[verifier::external_body]
pub(crate) fn push_char(s: &mut String, c: char)
    ensures
        final(s)@ == old(s)@.push(c),
{
    s.push(c);
}

/// Appends the decimal digits of `n`.
pub fn push_u64(s: &mut String, n: u64)
    ensures
        final(s)@ == old(s)@ + dec(n as nat),
    decreases n,
{
    if n >= 10 {
        push_u64(s, n / 10);
    }
    let d: u32 = (n % 10) as u32;
    let c = char_of_digit(d);
    push_char(s, c);
    proof {
        if n >= 10 {
            assert(dec(n as nat) == dec((n / 10) as nat).push(digit_char((n % 10) as int)));
        }
    }
}

/// The character of one decimal digit.
pub fn char_of_digit(d: u32) -> (c: char)
    requires
        d < 10,
    ensures
        c == digit_char(d as int),
{
    if d == 0 { '0' }
    else if d == 1 { '1' }
    else if d == 2 { '2' }
    else if d == 3 { '3' }
    else if d == 4 { '4' }
    else if d == 5 { '5' }
    else if d == 6 { '6' }
    else if d == 7 { '7' }
    else if d == 8 { '8' }
    else { '9' }
}

/// Appends the decimal text of `n`, with a minus sign when it is negative.
pub fn push_i64(s: &mut String, n: i64)
    ensures
        final(s)@ == old(s)@ + int_text(n as int),
{
    if n < 0 {
        push_char(s, '-');
        let m: u64 = ((-(n + 1)) as u64) + 1;
        push_u64(s, m);
        assert(s@ == old(s)@ + (seq!['-'] + dec((-n) as nat)));
    } else {
        push_u64(s, n as u64);
    }
}

/// Decimal text of an unsigned number.
pub fn u64_text(n: u64) -> (s: String)
    ensures
        s@ == dec(n as nat),
{
    let mut s = String::new();
    push_u64(&mut s, n);
    assert(s@ =~= dec(n as nat));
    s
}

/// Decimal text of a signed number.
pub fn i64_text(n: i64) -> (s: String)
    ensures
        s@ == int_text(n as int),
{
    let mut s = String::new();
    push_i64(&mut s, n);
    assert(s@ =~= int_text(n as int));
    s
}


/// A decimal digit character.
pub open spec fn is_digit(c: char) -> bool {
    '0' <= c && c <= '9'
}

/// Every character is a decimal digit.
pub open spec fn all_digits(s: Seq<char>) -> bool {
    forall|i: int| 0 <= i < s.len() ==> is_digit(#[trigger] s[i])
}

/// The value of a string of decimal digits.
pub open spec fn digits_value(s: Seq<char>) -> nat
    decreases s.len(),
{
    if s.len() == 0 {
        0
    } else {
        digits_value(s.drop_last()) * 10 + ((s.last() as int - 48) as nat)
    }
}

/// The integer that Rust's `str::parse` reads from `s` for an integer type, before
/// the range of the type is checked: an optional `+` (or `-` when the type is
/// signed) followed by at least one decimal digit, and nothing else.
pub open spec fn integer_literal(s: Seq<char>, signed: bool) -> Option<int> {
    if s.len() == 0 {
        None
    } else if (s[0] == '+' || s[0] == '-') && s.len() == 1 {
        None
    } else if s[0] == '+' {
        if all_digits(s.drop_first()) { Some(digits_value(s.drop_first()) as int) } else { None }
    } else if s[0] == '-' && signed {
        if all_digits(s.drop_first()) { Some(-(digits_value(s.drop_first()) as int)) } else { None }
    } else {
        if all_digits(s) { Some(digits_value(s) as int) } else { None }
    }
}

/// What `str::parse::<T>` returns for an integer type whose values are `lo..=hi`.
pub open spec fn parsed_in_range(s: Seq<char>, signed: bool, lo: int, hi: int) -> Option<int> {
    match integer_literal(s, signed) {
        Some(v) => if lo <= v <= hi { Some(v) } else { None },
        None => None,
    }
}

proof fn lemma_digits_value_prefix(s: Seq<char>, k: int)
    requires
        0 <= k <= s.len(),
    ensures
        digits_value(s.take(k)) <= digits_value(s),
    decreases s.len(),
{
    if k < s.len() {
        lemma_digits_value_prefix(s.drop_last(), k);
        assert(s.drop_last().take(k) =~= s.take(k));
    } else {
        assert(s.take(k) =~= s);
    }
}

proof fn lemma_digits_value_step(s: Seq<char>, i: int)
    requires
        0 <= i < s.len(),
    ensures
        digits_value(s.take(i + 1)) == digits_value(s.take(i)) * 10 + ((s[i] as int - 48) as nat),
{
    assert(s.take(i + 1).drop_last() =~= s.take(i));
}

/// Reads the digits of `s` from char position `start` on. `Some` exactly when
/// there is at least one character there, all of them digits, and their value fits
/// in a `u64`.
fn digits_from(s: &str, start: usize) -> (r: Option<u64>)
    requires
        start <= s@.len(),
    ensures
        ({
            let t = s@.skip(start as int);
            r == (if t.len() > 0 && all_digits(t) && digits_value(t) <= u64::MAX {
                Some(digits_value(t) as u64)
            } else {
                None
            })
        }),
{
    let n = s.unicode_len();
    let ghost t = s@.skip(start as int);
    if start == n {
        return None;
    }
    let mut acc: u64 = 0;
    let mut i: usize = start;
    while i < n
        invariant
            start <= i <= n,
            n == s@.len(),
            t == s@.skip(start as int),
            all_digits(t.take(i - start)),
            acc as nat == digits_value(t.take(i - start)),
        decreases n - i,
    {
        let c = s.get_char(i);
        proof {
            lemma_digits_value_step(t, i - start);
            assert(t[i - start] == c);
        }
        if !('0' <= c && c <= '9') {
            assert(!all_digits(t)) by {
                assert(!is_digit(t[i - start]));
            }
            return None;
        }
        let d: u64 = ((c as u32) - 48) as u64;
        if acc > 1844674407370955161 || (acc == 1844674407370955161 && d > 5) {
            proof {
                lemma_digits_value_prefix(t, i - start + 1);
                if all_digits(t) {
                    assert(digits_value(t) > u64::MAX);
                }
            }
            return None;
        }
        acc = acc * 10 + d;
        proof {
            assert forall|j: int| 0 <= j < t.take(i + 1 - start).len() implies is_digit(
                #[trigger] t.take(i + 1 - start)[j],
            ) by {
                if j < i - start {
                    assert(t.take(i + 1 - start)[j] == t.take(i - start)[j]);
                }
            }
        }
        i = i + 1;
    }
    assert(t.take(n - start) =~= t);
    Some(acc)
}

/// Reads an integer the way `str::parse` does, as far as a `u64` magnitude holds it.
/// `None` is returned where the text is no integer or its magnitude exceeds `u64::MAX`.
fn parse_integer(s: &str, signed: bool) -> (r: Option<i128>)
    ensures
        r == (match integer_literal(s@, signed) {
            Some(v) => if -(u64::MAX as int) <= v <= u64::MAX { Some(v as i128) } else { None },
            None => None,
        }),
{
    let n = s.unicode_len();
    if n == 0 {
        return None;
    }
    let first = s.get_char(0);
    if (first == '+' || first == '-') && n == 1 {
        return None;
    }
    if first == '+' || (first == '-' && signed) {
        let r = digits_from(s, 1);
        assert(s@.skip(1) =~= s@.drop_first());
        match r {
            Some(m) => {
                if first == '-' {
                    Some(-(m as i128))
                } else {
                    Some(m as i128)
                }
            },
            None => None,
        }
    } else {
        let r = digits_from(s, 0);
        assert(s@.skip(0) =~= s@);
        match r {
            Some(m) => Some(m as i128),
            None => None,
        }
    }
}

/// `str::parse::<i32>`: `None` where Rust reports an error.
pub fn parse_i32(s: &str) -> (r: Option<i32>)
    ensures
        r matches Some(v) ==> parsed_in_range(s@, true, i32::MIN as int, i32::MAX as int) == Some(v as int),
        r is None ==> parsed_in_range(s@, true, i32::MIN as int, i32::MAX as int) is None,
{
    match parse_integer(s, true) {
        Some(v) => if -2147483648 <= v && v <= 2147483647 { Some(v as i32) } else { None },
        None => None,
    }
}

/// `str::parse::<u32>`: `None` where Rust reports an error.
pub fn parse_u32(s: &str) -> (r: Option<u32>)
    ensures
        r matches Some(v) ==> parsed_in_range(s@, false, 0, u32::MAX as int) == Some(v as int),
        r is None ==> parsed_in_range(s@, false, 0, u32::MAX as int) is None,
{
    match parse_integer(s, false) {
        Some(v) => if 0 <= v && v <= 4294967295 { Some(v as u32) } else { None },
        None => None,
    }
}

/// `str::parse::<u64>`: `None` where Rust reports an error.
pub fn parse_u64(s: &str) -> (r: Option<u64>)
    ensures
        r matches Some(v) ==> parsed_in_range(s@, false, 0, u64::MAX as int) == Some(v as int),
        r is None ==> parsed_in_range(s@, false, 0, u64::MAX as int) is None,
{
    match parse_integer(s, false) {
        Some(v) => if 0 <= v && v <= 18446744073709551615 { Some(v as u64) } else { None },
        None => None,
    }
}


/// What `char::is_whitespace` returns for `c`: whether `c` has the Unicode
/// `White_Space` property.
pub uninterp spec fn whitespace(c: char) -> bool;

/// `char::is_whitespace`. Its contract claims only what the Unicode `White_Space`
/// property is among ASCII characters: tab, line feed, vertical tab, form feed,
/// carriage return and space, and no other ASCII character. Of other characters it
/// says that the result is `whitespace(c)`, one value per character.
#[verifier::external_body]
pub(crate) fn is_whitespace(c: char) -> (b: bool)
    ensures
        b == whitespace(c),
        (c as u32) < 128 ==> (b <==> (c == ' ' || ('\t' <= c && c <= '\r'))),
{
    c.is_whitespace()
}

/// `s` without its leading whitespace.
pub open spec fn trim_start(s: Seq<char>) -> Seq<char>
    decreases s.len(),
{
    if s.len() > 0 && whitespace(s[0]) {
        trim_start(s.drop_first())
    } else {
        s
    }
}

/// `s` without its trailing whitespace.
pub open spec fn trim_end(s: Seq<char>) -> Seq<char>
    decreases s.len(),
{
    if s.len() > 0 && whitespace(s.last()) {
        trim_end(s.drop_last())
    } else {
        s
    }
}

/// `s` without leading and trailing whitespace, as `str::trim` gives it.
pub open spec fn trimmed(s: Seq<char>) -> Seq<char> {
    trim_end(trim_start(s))
}

/// The text between the leading and the trailing whitespace of `s`.
pub fn trim(s: &str) -> (r: String)
    ensures
        r@ == trimmed(s@),
{
    let n = s.unicode_len();
    let mut a: usize = 0;
    assert(s@.skip(0) =~= s@);
    while a < n && is_whitespace(s.get_char(a))
        invariant
            a <= n,
            n == s@.len(),
            trim_start(s@) == trim_start(s@.skip(a as int)),
        decreases n - a,
    {
        assert(s@.skip(a as int).drop_first() =~= s@.skip(a + 1));
        assert(s@.skip(a as int)[0] == s@[a as int]);
        a = a + 1;
    }
    let ghost u = s@.skip(a as int);
    assert(trim_start(s@) == u) by {
        if a < n {
            assert(u[0] == s@[a as int]);
        } else {
            assert(u.len() == 0);
        }
    }
    let mut b: usize = n;
    assert(u.take(n - a) =~= u);
    while b > a && is_whitespace(s.get_char(b - 1))
        invariant
            a <= b <= n,
            n == s@.len(),
            u == s@.skip(a as int),
            trim_end(u) == trim_end(u.take(b - a)),
        decreases b,
    {
        assert(u.take(b - a).drop_last() =~= u.take(b - 1 - a));
        assert(u.take(b - a).last() == s@[b - 1]);
        b = b - 1;
    }
    assert(trim_end(u) == u.take(b - a)) by {
        if b > a {
            assert(u.take(b - a).last() == s@[b - 1]);
        }
    }
    let r = s.substring_char(a, b);
    assert(r@ =~= u.take(b - a));
    r.to_string()
}

} // verus!
