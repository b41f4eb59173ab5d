//! Decimal and hexadecimal rendering of integers.

use vstd::prelude::*;
use vstd::string::*;

use crate::text::push_char;

verus! {

/// The character of a digit below 16 (upper-case for 10..15).
pub open spec fn digit_char(d: int) -> char {
    if d < 10 {
        ((d + 48) as u8) as char
    } else {
        ((d - 10 + 65) as u8) as char
    }
}

/// The digits of `n` in base `b`, most significant first, without leading zeros.
pub open spec fn digits(n: nat, b: nat) -> Seq<char>
    decreases n,
{
    if b < 2 || n < b {
        seq![digit_char(n as int)]
    } else {
        proof {
            assert(n / b < n) by (nonlinear_arith)
                requires
                    b >= 2,
                    n >= b,
            ;
        }
        digits(n / b, b).push(digit_char((n % b) as int))
    }
}

/// The value of a digit character: `0`..`9` are 0..9, `A`..`F` are 10..15.
pub open spec fn char_value(c: char) -> int {
    if '0' <= c && c <= '9' {
        c as int - 48
    } else {
        c as int - 55
    }
}

/// The number that the digits `s` write in base `b`.
pub open spec fn digits_value(s: Seq<char>, b: int) -> int
    decreases s.len(),
{
    if s.len() == 0 {
        0
    } else {
        digits_value(s.drop_last(), b) * b + char_value(s.last())
    }
}

/// The digits of `n` in base `b` (2 to 16) read back as `n`; each is `0`
/// to `9` or `A` to `F` and stands for less than `b`, and the first is not
/// a zero unless `n` is.
pub proof fn lemma_digits_value(n: nat, b: nat)
    requires
        2 <= b <= 16,
    ensures
        digits_value(digits(n, b), b as int) == n,
        digits(n, b).len() >= 1,
        forall|i: int|
            0 <= i < digits(n, b).len() ==> {
                let c = #[trigger] digits(n, b)[i];
                &&& (('0' <= c && c <= '9') || ('A' <= c && c <= 'F'))
                &&& 0 <= char_value(c) < b
            },
        n > 0 ==> digits(n, b)[0] != '0',
    decreases n,
{
    if n < b {
        let c = digit_char(n as int);
        assert(digits(n, b) == seq![c]);
        assert(seq![c].drop_last() =~= Seq::<char>::empty());
        if n < 10 {
            assert(((n + 48) as u8) as char as int == n + 48);
        } else {
            assert(((n - 10 + 65) as u8) as char as int == n + 55);
        }
        assert(char_value(c) == n);
        assert(digits_value(seq![c], b as int) == digits_value(Seq::<char>::empty(), b as int) * b + char_value(c));
        assert(digits_value(Seq::<char>::empty(), b as int) == 0);
    } else {
        assert(n / b < n) by (nonlinear_arith)
            requires
                b >= 2,
                n >= b,
        ;
        lemma_digits_value(n / b, b);
        assert(n / b >= 1) by (nonlinear_arith)
            requires
                b >= 2,
                n >= b,
        ;
        let prev = digits(n / b, b);
        let r = (n % b) as int;
        let c = digit_char(r);
        assert(digits(n, b) == prev.push(c));
        assert(prev.push(c).drop_last() =~= prev);
        if r < 10 {
            assert(((r + 48) as u8) as char as int == r + 48);
        } else {
            assert(((r - 10 + 65) as u8) as char as int == r + 55);
        }
        assert((n / b) * b + n % b == n) by (nonlinear_arith)
            requires
                b >= 2,
        ;
        assert(0 <= r < b) by (nonlinear_arith)
            requires
                b >= 2,
                r == n % b,
        ;
        assert(char_value(c) == r);
        assert(digits_value(digits(n, b), b as int) == digits_value(prev, b as int) * b + char_value(c));
        assert(digits_value(prev, b as int) == n / b);
        assert forall|i: int| 0 <= i < digits(n, b).len() implies {
            let x = #[trigger] digits(n, b)[i];
            &&& (('0' <= x && x <= '9') || ('A' <= x && x <= 'F'))
            &&& 0 <= char_value(x) < b
        } by {
            if i < prev.len() {
                assert(digits(n, b)[i] == prev[i]);
            }
        }
        assert(digits(n, b)[0] == prev[0]);
    }
}

/// `s` right-aligned in a field of `width`, filled with `fill`.
pub open spec fn pad_left(s: Seq<char>, width: int, fill: char) -> Seq<char> {
    if s.len() >= width {
        s
    } else {
        Seq::new((width - s.len()) as nat, |i: int| fill) + s
    }
}

/// The decimal text of a signed number.
pub open spec fn signed_dec(n: int) -> Seq<char> {
    if n < 0 {
        seq!['-'] + digits((-n) as nat, 10)
    } else {
        digits(n as nat, 10)
    }
}

fn digit(d: u64) -> (c: char)
    requires
        d < 16,
    ensures
        c == digit_char(d as int),
{
    if d < 10 {
        ((d + 48) as u8) as char
    } else {
        ((d - 10 + 65) as u8) as char
    }
}

/// Appends the digits of `n` in base `base` (10 or 16).
fn push_digits(s: &mut String, n: u64, base: u64)
    requires
        base == 10 || base == 16,
    ensures
        final(s)@ == old(s)@ + digits(n as nat, base as nat),
    decreases n,
{
    if n < base {
        push_char(s, digit(n));
    } else {
        push_digits(s, n / base, base);
        push_char(s, digit(n % base));
    }
}

/// The decimal text of `n`.
pub fn dec(n: u64) -> (s: String)
    ensures
        s@ == digits(n as nat, 10),
{
    let mut s = String::new();
    push_digits(&mut s, n, 10);
    assert(s@ =~= digits(n as nat, 10));
    s
}

/// The decimal text of a signed `n`.
pub fn dec_signed(n: i64) -> (s: String)
    ensures
        s@ == signed_dec(n as int),
{
    let mut s = String::new();
    if n < 0 {
        push_char(&mut s, '-');
        let m: u64 = if n == i64::MIN {
            0x8000_0000_0000_0000
        } else {
            (-n) as u64
        };
        push_digits(&mut s, m, 10);
    } else {
        push_digits(&mut s, n as u64, 10);
    }
    assert(s@ =~= signed_dec(n as int));
    s
}

/// The upper-case hexadecimal text of `n`, right-aligned in `width` characters
/// filled with zeros (`zero`) or spaces.
pub fn hex(n: u64, width: usize, zero: bool) -> (s: String)
    ensures
        s@ == pad_left(digits(n as nat, 16), width as int, if zero {
            '0'
        } else {
            ' '
        }),
{
    let mut digits_str = String::new();
    push_digits(&mut digits_str, n, 16);
    let len = digits_str.as_str().unicode_len();
    let fill = if zero {
        '0'
    } else {
        ' '
    };
    let mut s = String::new();
    let mut i: usize = len;
    while i < width
        invariant
            len == digits(n as nat, 16).len(),
            len <= i <= width || (i == len && len >= width),
            s@ == Seq::new((i - len) as nat, |k: int| fill),
        decreases width - i,
    {
        push_char(&mut s, fill);
        i = i + 1;
        assert(s@ =~= Seq::new((i - len) as nat, |k: int| fill));
    }
    s.append(digits_str.as_str());
    proof {
        if len >= width {
            assert(s@ =~= digits(n as nat, 16));
        } else {
            assert(s@ =~= pad_left(digits(n as nat, 16), width as int, fill));
        }
    }
    s
}

} // verus!
