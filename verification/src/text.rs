use vstd::prelude::*;

verus! {

/// Whether `c` is one of the decimal digits `0` to `9`.
pub open spec fn is_digit(c: char) -> bool {
    '0' <= c && c <= '9'
}

/// The value of the decimal digit `c`.
pub open spec fn digit_value(c: char) -> int {
    c as int - '0' as int
}

/// The character that writes the digit `d`, for `0 <= d < 10`.
pub open spec fn digit_char(d: int) -> char {
    (d + '0' as int) as char
}

/// The decimal digits of `n`, most significant first, without leading zeros.
pub open spec fn decimal_digits(n: nat) -> Seq<char>
    decreases n,
{
    if n < 10 {
        seq![digit_char(n as int)]
    } else {
        decimal_digits(n / 10).push(digit_char((n % 10) as int))
    }
}

/// The decimal text of an integer: a minus sign for a negative one, then its digits.
pub open spec fn int_text(i: int) -> Seq<char> {
    if i < 0 {
        seq!['-'] + decimal_digits((-i) as nat)
    } else {
        decimal_digits(i as nat)
    }
}

/// The number that a sequence of decimal digits writes, most significant first.
pub open spec fn decimal_value(digits: Seq<char>) -> nat
    decreases digits.len(),
{
    if digits.len() == 0 {
        0
    } else {
        (decimal_value(digits.drop_last()) * 10 + digit_value(digits.last())) as nat
    }
}

/// Appends one character to a string.
///
/// Trusted: wraps `String::push`, which appends the given `char` to the end of
/// the string and leaves the rest as it was.
#[verifier::external_body]
pub(crate) fn push_char(s: &mut String, c: char)
    ensures
        final(s)@ == old(s)@.push(c),
{
    s.push(c)
}

/// Collects the characters of a string slice into a vector.
pub fn chars_of(s: &str) -> (v: Vec<char>)
    ensures
        v@ == s@,
{
    let mut v: Vec<char> = Vec::new();
    for c in it: s.chars()
        invariant
            v@ == it.seq().take(it.index() as int),
            it.seq() == s@,
    {
        v.push(c);
    }
    v
}

/// Builds the string made of `chars[from..to]`.
pub fn string_of(chars: &Vec<char>, from: usize, to: usize) -> (s: String)
    requires
        from <= to <= chars.len(),
    ensures
        s@ == chars@.subrange(from as int, to as int),
{
    let mut s = String::new();
    let mut i: usize = from;
    while i < to
        invariant
            from <= i <= to <= chars.len(),
            s@ == chars@.subrange(from as int, i as int),
        decreases to - i,
    {
        push_char(&mut s, chars[i]);
        i += 1;
        assert(chars@.subrange(from as int, i as int) == chars@.subrange(
            from as int,
            i - 1,
        ).push(chars@[i - 1]));
    }
    s
}

/// Writes an integer in decimal.
pub fn int_to_string(i: i32) -> (s: String)
    ensures
        s@ == int_text(i as int),
{
    let mut rev: Vec<char> = Vec::new();
    let magnitude: i64 = if i < 0 {
        -(i as i64)
    } else {
        i as i64
    };
    let mut rest: i64 = magnitude;
    // least significant digit first
    let d0: u8 = (rest % 10) as u8;
    rev.push((d0 + 48u8) as char);
    rest = rest / 10;
    while rest > 0
        invariant
            0 <= rest,
            rev.len() >= 1,
            decimal_digits(magnitude as nat) == if rest == 0 {
                rev@.reverse()
            } else {
                decimal_digits(rest as nat) + rev@.reverse()
            },
        decreases rest,
    {
        let d: u8 = (rest % 10) as u8;
        let ghost before = rev@;
        rev.push((d + 48u8) as char);
        proof {
            let r = rest as nat;
            assert(rev@.reverse() =~= seq![digit_char((r % 10) as int)] + before.reverse());
            if r >= 10 {
                assert(decimal_digits(r) == decimal_digits(r / 10).push(digit_char((r % 10) as int)));
                assert(decimal_digits(r) + before.reverse() =~= decimal_digits(r / 10) + rev@.reverse());
            } else {
                assert(decimal_digits(r) =~= seq![digit_char(r as int)]);
                assert(decimal_digits(r) + before.reverse() =~= rev@.reverse());
            }
        }
        rest = rest / 10;
    }
    let mut s = String::new();
    if i < 0 {
        push_char(&mut s, '-');
    }
    let ghost sign = s@;
    let mut k: usize = rev.len();
    while k > 0
        invariant
            k <= rev.len(),
            s@ == sign + rev@.reverse().take(rev.len() - k),
        decreases k,
    {
        k -= 1;
        push_char(&mut s, rev[k]);
        assert(rev@.reverse().take(rev.len() - k) =~= rev@.reverse().take(rev.len() - k - 1).push(
            rev@[k as int],
        ));
    }
    assert(rev@.reverse().take(rev.len() as int) =~= rev@.reverse());
    s
}

} // verus!
