//! Decimal digit strings: the mathematical reading of a sequence of digit
//! characters, and verified conversions between machine integers and their
//! decimal texts.

use vstd::prelude::*;

verus! {

/// The numeric value of a digit character, measured from `'0'`.
pub open spec fn digit_val(c: char) -> int {
    c as int - 48
}

/// Whether `c` is one of the ten ASCII decimal digits.
pub open spec fn is_dec_digit(c: char) -> bool {
    0 <= digit_val(c) <= 9
}

/// Whether every character of `s` is a decimal digit.
pub open spec fn all_dec_digits(s: Seq<char>) -> bool {
    forall|i: int| 0 <= i < s.len() ==> is_dec_digit(#[trigger] s[i])
}

/// The number written by the digit string `s`, read most significant digit
/// first; the empty string reads as zero.
pub open spec fn dec_value(s: Seq<char>) -> int
    decreases s.len(),
{
    if s.len() == 0 {
        0
    } else {
        dec_value(s.drop_last()) * 10 + digit_val(s.last())
    }
}

/// Ten to the `n`th power.
pub open spec fn pow10(n: nat) -> int
    decreases n,
{
    if n == 0 {
        1
    } else {
        10 * pow10((n - 1) as nat)
    }
}

/// The digit character of a value below ten.
pub open spec fn digit_char(d: int) -> char {
    if d == 0 { '0' }
    else if d == 1 { '1' }
    else if d == 2 { '2' }
    else if d == 3 { '3' }
    else if d == 4 { '4' }
    else if d == 5 { '5' }
    else if d == 6 { '6' }
    else if d == 7 { '7' }
    else if d == 8 { '8' }
    else { '9' }
}

/// The shortest decimal text of a nonnegative number: one digit below ten,
/// otherwise the text of the leading digits followed by the last digit.
pub open spec fn dec_chars(n: int) -> Seq<char>
    recommends
        n >= 0,
    decreases n,
{
    if n < 10 {
        seq![digit_char(n)]
    } else {
        dec_chars(n / 10).push(digit_char(n % 10))
    }
}

/// A digit string is nonnegative and stays below ten to its length.
pub proof fn lemma_dec_value_bound(s: Seq<char>)
    requires
        all_dec_digits(s),
    ensures
        0 <= dec_value(s) < pow10(s.len()),
    decreases s.len(),
{
    if s.len() > 0 {
        assert(all_dec_digits(s.drop_last()));
        lemma_dec_value_bound(s.drop_last());
    }
}

/// Ten to any power is positive.
pub proof fn lemma_pow10_positive(n: nat)
    ensures
        1 <= pow10(n),
    decreases n,
{
    if n > 0 {
        lemma_pow10_positive((n - 1) as nat);
    }
}

/// Powers of ten never shrink as the exponent grows.
pub proof fn lemma_pow10_increases(m: nat, n: nat)
    requires
        m <= n,
    ensures
        1 <= pow10(m) <= pow10(n),
    decreases n,
{
    lemma_pow10_positive(m);
    if m < n {
        lemma_pow10_increases(m, (n - 1) as nat);
    }
}

/// Reading one more digit multiplies the value so far by ten and adds it.
pub proof fn lemma_dec_value_step(s: Seq<char>, i: int)
    requires
        0 <= i < s.len(),
    ensures
        dec_value(s.take(i + 1)) == dec_value(s.take(i)) * 10 + digit_val(s[i]),
{
    assert(s.take(i + 1).drop_last() =~= s.take(i));
    assert(s.take(i + 1).last() == s[i]);
}

/// A digit string is worth at least its prefix scaled by ten to the count
/// of the digits that follow it.
pub proof fn lemma_dec_value_prefix(s: Seq<char>, i: int)
    requires
        all_dec_digits(s),
        0 <= i <= s.len(),
    ensures
        dec_value(s) >= dec_value(s.take(i)) * pow10((s.len() - i) as nat),
    decreases s.len() - i,
{
    if i == s.len() {
        assert(s.take(i) =~= s);
    } else {
        let t = s.drop_last();
        assert(all_dec_digits(t));
        lemma_dec_value_prefix(t, i);
        assert(t.take(i) =~= s.take(i));
        let p = pow10((t.len() - i) as nat);
        lemma_dec_value_bound(s.take(i));
        assert(dec_value(t) >= dec_value(s.take(i)) * p);
        assert(dec_value(s) == dec_value(t) * 10 + digit_val(s.last()));
        assert(digit_val(s.last()) >= 0);
        assert(dec_value(t) * 10 >= dec_value(s.take(i)) * p * 10) by (nonlinear_arith)
            requires
                dec_value(t) >= dec_value(s.take(i)) * p,
        {}
        assert(dec_value(s.take(i)) * p * 10 == dec_value(s.take(i)) * (p * 10)) by (nonlinear_arith) {}
        assert(pow10((s.len() - i) as nat) == p * 10);
    }
}

/// The decimal text of a number holds only digit characters.
pub proof fn lemma_dec_chars_digits(n: int)
    requires
        n >= 0,
    ensures
        all_dec_digits(dec_chars(n)),
        dec_chars(n).len() >= 1,
    decreases n,
{
    if n >= 10 {
        lemma_dec_chars_digits(n / 10);
        assert forall|i: int| 0 <= i < dec_chars(n).len() implies is_dec_digit(
            #[trigger] dec_chars(n)[i],
        ) by {
            if i < dec_chars(n / 10).len() {
                assert(dec_chars(n)[i] == dec_chars(n / 10)[i]);
            }
        }
    }
}

/// Reading back the decimal text of a number recovers the number.
pub proof fn lemma_dec_chars_value(n: int)
    requires
        n >= 0,
    ensures
        dec_value(dec_chars(n)) == n,
    decreases n,
{
    if n < 10 {
        lemma_digit_char_val(n);
        assert(dec_chars(n).drop_last() =~= Seq::<char>::empty());
        assert(dec_chars(n).last() == digit_char(n));
        assert(dec_value(dec_chars(n)) == dec_value(Seq::<char>::empty()) * 10 + digit_val(
            digit_char(n),
        ));
    } else {
        lemma_dec_chars_value(n / 10);
        lemma_digit_char_val(n % 10);
        assert(dec_chars(n).drop_last() =~= dec_chars(n / 10));
        assert(dec_chars(n).last() == digit_char(n % 10));
        assert(dec_value(dec_chars(n)) == (n / 10) * 10 + (n % 10));
        assert((n / 10) * 10 + (n % 10) == n) by (nonlinear_arith)
            requires
                n >= 10,
        {}
    }
}

/// The digit of `d`, for `d` below ten, taken back to its value.
pub proof fn lemma_digit_char_val(d: int)
    requires
        0 <= d <= 9,
    ensures
        digit_val(digit_char(d)) == d,
        is_dec_digit(digit_char(d)),
{
}

/// The value of `c` as a digit, or nothing where `c` is no digit.
pub fn dec_digit_of(c: char) -> (r: Option<u8>)
    ensures
        r is Some <==> is_dec_digit(c),
        r matches Some(d) ==> d as int == digit_val(c),
{
    let v = c as u32;
    if 48 <= v && v <= 57 {
        Some((v - 48) as u8)
    } else {
        None
    }
}

/// The one-character text of a digit value.
pub fn digit_str(d: u32) -> (r: &'static str)
    requires
        d < 10,
    ensures
        r@ == seq![digit_char(d as int)],
{
    proof {
        reveal_strlit("0");
        reveal_strlit("1");
        reveal_strlit("2");
        reveal_strlit("3");
        reveal_strlit("4");
        reveal_strlit("5");
        reveal_strlit("6");
        reveal_strlit("7");
        reveal_strlit("8");
        reveal_strlit("9");
    }
    let r: &'static str = match d {
        0 => "0",
        1 => "1",
        2 => "2",
        3 => "3",
        4 => "4",
        5 => "5",
        6 => "6",
        7 => "7",
        8 => "8",
        _ => "9",
    };
    proof {
        assert(r@ =~= seq![digit_char(d as int)]);
    }
    r
}

/// What parsing a digit segment as an unsigned 32-bit number yields: the
/// segment must be nonempty, all digits, and within range.
pub open spec fn parse_u32_seq(t: Seq<char>) -> Option<u32> {
    if t.len() >= 1 && all_dec_digits(t) && dec_value(t) <= u32::MAX {
        Some(dec_value(t) as u32)
    } else {
        None
    }
}

/// The number written by the seventeen digits of `s`, or nothing where a
/// character of `s` is no digit. Seventeen digits always fit in 64 bits.
pub fn parse_dec_u64_17(s: &str) -> (r: Option<u64>)
    requires
        s@.len() == 17,
    ensures
        r is Some <==> all_dec_digits(s@),
        r matches Some(v) ==> v as int == dec_value(s@),
{
    let mut acc: u64 = 0;
    let mut i: usize = 0;
    proof {
        assert(s@.take(0) =~= Seq::<char>::empty());
    }
    while i < 17
        invariant
            0 <= i <= 17,
            s@.len() == 17,
            forall|k: int| 0 <= k < i ==> is_dec_digit(#[trigger] s@[k]),
            acc as int == dec_value(s@.take(i as int)),
        decreases 17 - i,
    {
        let c = s.get_char(i);
        match dec_digit_of(c) {
            None => {
                return None;
            },
            Some(d) => {
                proof {
                    assert(all_dec_digits(s@.take(i as int)));
                    lemma_dec_value_bound(s@.take(i as int));
                    lemma_pow10_increases(i as nat, 16);
                    assert(pow10(16) == 10000000000000000) by {
                        reveal_with_fuel(pow10, 17);
                    }
                    lemma_dec_value_step(s@, i as int);
                }
                acc = acc * 10 + (d as u64);
            },
        }
        i += 1;
    }
    proof {
        assert(s@.take(17) =~= s@);
    }
    Some(acc)
}

/// The number written by the digit segment `s[from .. to]`, read as an
/// unsigned 32-bit integer; nothing where the segment is empty, holds a
/// character that is no digit, or names a number out of range.
pub fn parse_dec_u32(s: &str, from: usize, to: usize) -> (r: Option<u32>)
    requires
        from <= to <= s@.len(),
    ensures
        r == parse_u32_seq(s@.subrange(from as int, to as int)),
{
    let ghost t = s@.subrange(from as int, to as int);
    if from == to {
        return None;
    }
    let mut acc: u64 = 0;
    let mut i: usize = from;
    proof {
        assert(t.take(0) =~= Seq::<char>::empty());
    }
    while i < to
        invariant
            from <= i <= to <= s@.len(),
            t == s@.subrange(from as int, to as int),
            forall|k: int| 0 <= k < i - from ==> is_dec_digit(#[trigger] t[k]),
            acc as int == dec_value(t.take(i - from)),
            acc <= u32::MAX,
        decreases to - i,
    {
        let c = s.get_char(i);
        match dec_digit_of(c) {
            None => {
                proof {
                    assert(t[i - from] == s@[i as int]);
                    assert(!all_dec_digits(t));
                }
                return None;
            },
            Some(d) => {
                proof {
                    assert(t[i - from] == s@[i as int]);
                    lemma_dec_value_step(t, i - from);
                }
                acc = acc * 10 + (d as u64);
                if acc > 0xFFFF_FFFF {
                    proof {
                        lemma_dec_value_over(t, i + 1 - from);
                    }
                    return None;
                }
            },
        }
        i += 1;
    }
    proof {
        assert(t.take(to - from) =~= t);
    }
    Some(acc as u32)
}

/// A digit string whose prefix already names a number beyond 32 bits
/// names one itself.
proof fn lemma_dec_value_over(t: Seq<char>, i: int)
    requires
        0 <= i <= t.len(),
        forall|k: int| 0 <= k < i ==> is_dec_digit(#[trigger] t[k]),
        dec_value(t.take(i)) > u32::MAX,
    ensures
        all_dec_digits(t) ==> dec_value(t) > u32::MAX,
{
    if all_dec_digits(t) {
        lemma_dec_value_prefix(t, i);
        lemma_pow10_positive((t.len() - i) as nat);
        let v = dec_value(t.take(i));
        let p = pow10((t.len() - i) as nat);
        assert(v * p >= v) by (nonlinear_arith)
            requires
                v > 0,
                p >= 1,
        {}
    }
}

/// The decimal text of `n`.
pub fn u32_to_dec(n: u32) -> (r: String)
    ensures
        r@ == dec_chars(n as int),
    decreases n,
{
    if n < 10 {
        String::from_str(digit_str(n))
    } else {
        let mut s = u32_to_dec(n / 10);
        s.append(digit_str(n % 10));
        proof {
            assert(s@ =~= dec_chars(n as int));
        }
        s
    }
}

} // verus!
