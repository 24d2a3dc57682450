//! Numbers written in digits, and read back.
use vstd::prelude::*;
use vstd::string::*;

use crate::text::chars_of;

verus! {

/// The character of a decimal digit.
pub open spec fn digit(n: nat) -> char {
    (('0' as u32) + n) as char
}

/// A number in decimal digits, without leading zeros.
pub open spec fn decimal(n: nat) -> Seq<char>
    decreases n,
{
    if n < 10 {
        seq![digit(n)]
    } else {
        decimal(n / 10).push(digit(n % 10))
    }
}

/// `s` with zeros in front until it has `width` characters.
pub open spec fn zero_padded(s: Seq<char>, width: nat) -> Seq<char>
    decreases width - s.len(),
{
    if s.len() >= width {
        s
    } else {
        zero_padded(seq!['0'] + s, width)
    }
}

/// The character of a decimal digit.
fn digit_char(n: u8) -> (c: char)
    requires
        n < 10,
    ensures
        c == digit(n as nat),
{
    let b: u8 = 48 + n;
    b as char
}

/// A number in decimal digits.
pub fn decimal_text(n: u64) -> (r: String)
    ensures
        r@ == decimal(n as nat),
    decreases n,
{
    let mut s: String = if n < 10 {
        String::new()
    } else {
        decimal_text(n / 10)
    };
    s.push(digit_char((n % 10) as u8));
    assert(s@ == decimal(n as nat));
    s
}

/// A number in decimal digits with zeros in front until it has `width` characters.
pub fn padded_decimal_text(n: u64, width: usize) -> (r: String)
    ensures
        r@ == zero_padded(decimal(n as nat), width as nat),
{
    let mut s: String = decimal_text(n);
    let mut have: usize = chars_of(s.as_str()).len();
    while have < width
        invariant
            have == s@.len(),
            zero_padded(s@, width as nat) == zero_padded(decimal(n as nat), width as nat),
        decreases width - have,
    {
        let mut t: String = "0".to_owned();
        t.append(s.as_str());
        proof {
            reveal_strlit("0");
            assert(t@ == seq!['0'] + s@);
        }
        s = t;
        have = have + 1;
    }
    s
}

/// The decimal digit that a character stands for.
pub open spec fn digit_value(c: char) -> Option<nat> {
    if '0' <= c <= '9' {
        Some((c as u32 - '0' as u32) as nat)
    } else {
        None
    }
}

/// The number that a run of decimal digits denotes; `None` where a character is no digit.
pub open spec fn digits_value(s: Seq<char>) -> Option<nat>
    decreases s.len(),
{
    if s.len() == 0 {
        Some(0)
    } else {
        match (digits_value(s.drop_last()), digit_value(s.last())) {
            (Some(n), Some(d)) => Some(10 * n + d),
            _ => None,
        }
    }
}

/// `s` without one leading plus sign.
pub open spec fn without_plus(s: Seq<char>) -> Seq<char> {
    if s.len() > 0 && s[0] == '+' {
        s.drop_first()
    } else {
        s
    }
}

/// The number below 2^64 that `s` denotes: decimal digits, at least one, with an optional plus
/// sign in front.
pub open spec fn unsigned_value(s: Seq<char>) -> Option<nat> {
    let t = without_plus(s);
    if t.len() == 0 {
        None
    } else {
        match digits_value(t) {
            Some(n) => if n <= u64::MAX {
                Some(n)
            } else {
                None
            },
            None => None,
        }
    }
}

/// A prefix that is no number, or too large, leaves the whole so.
proof fn lemma_digits_prefix(s: Seq<char>, k: int)
    requires
        0 <= k <= s.len(),
    ensures
        digits_value(s.take(k)) is None ==> digits_value(s) is None,
        digits_value(s) is Some ==> digits_value(s.take(k)) is Some && digits_value(s.take(k))->0
            <= digits_value(s)->0,
    decreases s.len() - k,
{
    if k == s.len() {
        assert(s.take(k) == s);
    } else {
        lemma_digits_prefix(s.drop_last(), k);
        assert(s.drop_last().take(k) == s.take(k));
    }
}

/// The decimal digit that a character stands for.
fn digit_of(c: char) -> (r: Option<u64>)
    ensures
        match r {
            Some(d) => digit_value(c) == Some(d as nat) && d < 10,
            None => digit_value(c) is None,
        },
{
    if '0' <= c && c <= '9' {
        let n: u32 = c as u32;
        Some((n - 48) as u64)
    } else {
        None
    }
}

/// The number that `s` denotes, where it is one below 2^64.
pub fn parse_unsigned(s: &str) -> (r: Option<u64>)
    ensures
        match r {
            Some(n) => unsigned_value(s@) == Some(n as nat),
            None => unsigned_value(s@) is None,
        },
{
    let v: Vec<char> = chars_of(s);
    let from: usize = if v.len() > 0 && v[0] == '+' {
        1
    } else {
        0
    };
    let ghost t = without_plus(s@);
    proof {
        assert(t == v@.skip(from as int));
    }
    if from == v.len() {
        return None;
    }
    let mut n: u64 = 0;
    let mut i: usize = from;
    assert(t.take(0).len() == 0);
    while i < v.len()
        invariant
            from <= i <= v@.len(),
            t == v@.skip(from as int),
            t == without_plus(s@),
            t.len() > 0,
            digits_value(t.take(i - from)) == Some(n as nat),
        decreases v@.len() - i,
    {
        let ghost next = t.take(i - from + 1);
        proof {
            assert(next.drop_last() == t.take(i - from));
            assert(next.last() == v@[i as int]);
            lemma_digits_prefix(t, i - from + 1);
        }
        match digit_of(v[i]) {
            None => {
                return None;
            },
            Some(d) => {
                if n > (u64::MAX - d) / 10 {
                    proof {
                        assert(10 * n + d > u64::MAX) by {
                            assert(n >= (u64::MAX - d) / 10 + 1);
                            assert(10 * ((u64::MAX - d) / 10 + 1) > u64::MAX - d);
                        }
                    }
                    return None;
                }
                n = 10 * n + d;
            },
        }
        i = i + 1;
    }
    assert(t.take(i - from) == t);
    Some(n)
}

/// A number written in decimal digits is read back as it was.
pub proof fn law_decimal_reads_back(n: nat)
    requires
        n <= u64::MAX,
    ensures
        unsigned_value(decimal(n)) == Some(n),
{
    lemma_decimal_value(n);
    lemma_decimal_shape(n);
    assert(decimal(n)[0] != '+');
}

/// What the digits of a number denote is the number.
proof fn lemma_decimal_value(n: nat)
    ensures
        digits_value(decimal(n)) == Some(n),
    decreases n,
{
    if n >= 10 {
        lemma_decimal_value(n / 10);
        assert(decimal(n).drop_last() == decimal(n / 10));
        assert(digit_value(decimal(n).last()) == Some(n % 10));
    } else {
        assert(decimal(n).drop_last().len() == 0);
        assert(digits_value(decimal(n).drop_last()) == Some(0nat));
        assert(digit_value(decimal(n).last()) == Some(n));
    }
}

/// A number is written in digits, at least one.
pub proof fn lemma_decimal_shape(n: nat)
    ensures
        decimal(n).len() >= 1,
        forall|i: int| 0 <= i < decimal(n).len() ==> '0' <= #[trigger] decimal(n)[i] <= '9',
    decreases n,
{
    if n >= 10 {
        lemma_decimal_shape(n / 10);
    }
}

/// An upper-case hexadecimal digit.
pub open spec fn hex_digit(n: nat) -> char {
    if n < 10 {
        (('0' as u32) + n) as char
    } else {
        (('A' as u32) + n - 10) as char
    }
}

/// An upper-case hexadecimal digit.
pub fn hex_char(n: u8) -> (c: char)
    requires
        n < 16,
    ensures
        c == hex_digit(n as nat),
{
    let b: u8 = if n < 10 {
        48 + n
    } else {
        55 + n
    };
    b as char
}

/// A number is written in digits alone, without a nought in front unless it is nought, and behind
/// what a number is written with comes its last digit.
pub proof fn law_numbers_are_written_in_digits(n: nat, d: nat)
    requires
        d < 10,
    ensures
        n > 0 ==> decimal(10 * n + d) == decimal(n).push(digit(d)),
        decimal(d) == seq![digit(d)],
        digit(0) == '0' && digit(1) == '1' && digit(2) == '2' && digit(3) == '3' && digit(4) == '4',
        digit(5) == '5' && digit(6) == '6' && digit(7) == '7' && digit(8) == '8' && digit(9) == '9',
        n > 0 ==> decimal(n)[0] != '0',
        forall|i: int| 0 <= i < decimal(n).len() ==> '0' <= #[trigger] decimal(n)[i] <= '9',
    decreases n,
{
    lemma_decimal_shape(n);
    if n > 0 {
        assert((10 * n + d) / 10 == n && (10 * n + d) % 10 == d) by (nonlinear_arith)
            requires
                d < 10,
        ;
        if n >= 10 {
            law_numbers_are_written_in_digits(n / 10, 0);
            lemma_decimal_shape(n / 10);
        }
    }
}

/// Padding puts noughts in front and nothing else, as many as the width asks for.
pub proof fn law_padding_is_noughts(s: Seq<char>, width: nat)
    ensures
        zero_padded(s, width).len() == (if s.len() >= width {
            s.len()
        } else {
            width
        }),
        zero_padded(s, width).skip(zero_padded(s, width).len() - s.len()) == s,
        forall|i: int|
            0 <= i < zero_padded(s, width).len() - s.len() ==> #[trigger] zero_padded(s, width)[i]
                == '0',
    decreases width - s.len(),
{
    if s.len() < width {
        let t = seq!['0'] + s;
        law_padding_is_noughts(t, width);
        let z = zero_padded(s, width);
        let k = z.len() - t.len();
        assert(z.skip(k) == t);
        assert(z.skip(k + 1) =~= s) by {
            assert forall|i: int| 0 <= i < s.len() implies z.skip(k + 1)[i] == s[i] by {
                assert(z.skip(k)[i + 1] == t[i + 1]);
            }
        }
        assert forall|i: int| 0 <= i < z.len() - s.len() implies #[trigger] z[i] == '0' by {
            if i == k {
                assert(z.skip(k)[0] == '0');
            }
        }
    } else {
        assert(s.skip(0) =~= s);
    }
}

/// Digits are read one by one, from the left, a plus sign in front being passed over; a text with any
/// other sign, and an empty one, is no number.
pub proof fn law_digits_are_read_from_the_left(s: Seq<char>, c: char)
    ensures
        '0' <= c <= '9' && digits_value(s) is Some ==> digits_value(s.push(c)) == Some(
            10 * digits_value(s)->0 + (c as u32 - 48) as nat,
        ),
        !('0' <= c <= '9') ==> digits_value(s.push(c)) is None,
        digits_value(s) is None ==> digits_value(s.push(c)) is None,
        unsigned_value(Seq::empty()) is None,
        unsigned_value(seq!['+']) is None,
        s.len() > 0 && s[0] != '+' ==> unsigned_value(seq!['+'] + s) == unsigned_value(s),
        digits_value(s) matches Some(n) ==> (n > u64::MAX ==> unsigned_value(s) is None),
{
    assert(s.push(c).drop_last() =~= s);
    assert(seq!['+'].drop_first().len() == 0);
    assert((seq!['+'] + s).drop_first() =~= s);
    if s.len() > 0 && s[0] == '+' {
        lemma_digits_prefix(s, 1);
        assert(s.take(1).last() == '+');
        assert(digit_value('+') is None);
    }
}

/// The hexadecimal digits, in their order.
pub open spec fn hex_digits() -> Seq<char> {
    seq!['0', '1', '2', '3', '4', '5', '6', '7', '8', '9', 'A', 'B', 'C', 'D', 'E', 'F']
}

/// Sixteen numbers have a hexadecimal digit each.
pub proof fn law_hex_digits_are_in_order(n: nat)
    requires
        n < 16,
    ensures
        hex_digit(n) == hex_digits()[n as int],
{
    let h = hex_digits();
    if n == 0 || n == 1 || n == 2 || n == 3 || n == 4 || n == 5 || n == 6 || n == 7 {
    } else if n == 8 || n == 9 || n == 10 || n == 11 {
    } else {
        assert(n == 12 || n == 13 || n == 14 || n == 15);
    }
}

/// Noughts in front of a number do not change what it reads as.
pub proof fn law_padded_reads_back(n: nat, width: nat)
    requires
        n <= u64::MAX,
    ensures
        unsigned_value(zero_padded(decimal(n), width)) == Some(n),
        zero_padded(decimal(n), width).len() == (if decimal(n).len() >= width {
            decimal(n).len()
        } else {
            width
        }),
{
    lemma_decimal_value(n);
    lemma_decimal_shape(n);
    law_padding_is_noughts(decimal(n), width);
    lemma_noughts(decimal(n), width);
    let z = zero_padded(decimal(n), width);
    let k = z.len() - decimal(n).len();
    assert(z[0] != '+') by {
        if k == 0 {
            assert(z.skip(0)[0] == z[0]);
        }
    }
}

proof fn lemma_nought(s: Seq<char>)
    ensures
        digits_value(seq!['0'] + s) == digits_value(s),
    decreases s.len(),
{
    if s.len() == 0 {
        assert(seq!['0'] + s =~= seq!['0']);
        assert(seq!['0'].drop_last() =~= Seq::<char>::empty());
        assert(digits_value(seq!['0'].drop_last()) == Some(0nat));
        assert(digit_value('0') == Some(0nat));
    } else {
        lemma_nought(s.drop_last());
        assert((seq!['0'] + s).drop_last() =~= seq!['0'] + s.drop_last());
        assert((seq!['0'] + s).last() == s.last());
    }
}

proof fn lemma_noughts(s: Seq<char>, width: nat)
    ensures
        digits_value(zero_padded(s, width)) == digits_value(s),
    decreases width - s.len(),
{
    if s.len() < width {
        lemma_nought(s);
        lemma_noughts(seq!['0'] + s, width);
    }
}

} // verus!
