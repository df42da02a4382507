//! Integers written out as text.
use vstd::prelude::*;

verus! {

/// The decimal digit for `n`.
pub open spec fn digit(n: nat) -> char
    recommends
        n < 10,
{
    ('0' as u32 + n) as char
}

/// `n` in decimal.
pub open spec fn decimal(n: nat) -> Seq<char>
    decreases n,
{
    if n < 10 {
        seq![digit(n)]
    } else {
        decimal(n / 10).push(digit(n % 10))
    }
}

/// `n` in decimal, with a minus sign where it is negative.
pub open spec fn signed_decimal(n: int) -> Seq<char> {
    if n < 0 {
        seq!['-'] + decimal((-n) as nat)
    } else {
        decimal(n as nat)
    }
}

/// The decimal digit for `n`.
fn digit_char(n: u8) -> (r: char)
    requires
        n < 10,
    ensures
        r == digit(n as nat),
{
    (48u8 + n) as char
}

/// `n` in decimal.
pub fn decimal_text(n: u64) -> (r: String)
    ensures
        r@ == decimal(n as nat),
    decreases n,
{
    if n < 10 {
        let mut s = String::new();
        s.push(digit_char(n as u8));
        assert(s@ =~= seq![digit(n as nat)]);
        s
    } else {
        let mut s = decimal_text(n / 10);
        s.push(digit_char((n % 10) as u8));
        s
    }
}

/// `n` in decimal, with a minus sign where it is negative.
pub fn signed_text(n: i64) -> (r: String)
    ensures
        r@ == signed_decimal(n as int),
{
    if n < 0 {
        let m: u64 = if n == i64::MIN {
            0x8000_0000_0000_0000u64
        } else {
            (-n) as u64
        };
        let digits = decimal_text(m);
        let mut s = String::new();
        s.push('-');
        s.append(digits.as_str());
        assert(s@ =~= seq!['-'] + decimal(m as nat));
        s
    } else {
        decimal_text(n as u64)
    }
}

/// The number that decimal digits stand for.
pub open spec fn value_of(digits: Seq<char>) -> int
    decreases digits.len(),
{
    if digits.len() == 0 {
        0
    } else {
        value_of(digits.drop_last()) * 10 + (digits.last() as int - '0' as int)
    }
}

/// A number is written with decimal digits that stand for it, and with no zero before them
/// but for zero itself. So different numbers are written differently.
pub proof fn numbers_read_back(n: nat)
    ensures
        value_of(decimal(n)) == n,
        decimal(n).len() > 0,
        forall|i: int| 0 <= i < decimal(n).len() ==> '0' <= #[trigger] decimal(n)[i] <= '9',
        n > 0 ==> decimal(n)[0] != '0',
    decreases n,
{
    if n < 10 {
        reveal_with_fuel(value_of, 2);
        assert(seq![digit(n)].drop_last() =~= Seq::<char>::empty());
    } else {
        let front = decimal(n / 10);
        numbers_read_back(n / 10);
        assert(decimal(n).drop_last() =~= front);
        assert forall|i: int| 0 <= i < decimal(n).len() implies '0' <= #[trigger] decimal(n)[i]
            <= '9' by {
            if i < front.len() {
                assert(decimal(n)[i] == front[i]);
            }
        }
        assert(decimal(n)[0] == front[0]);
    }
}

/// A negative number is written as its magnitude behind a minus sign, any other as it is.
pub proof fn signs_are_written(n: int)
    ensures
        n < 0 ==> signed_decimal(n)[0] == '-' && value_of(signed_decimal(n).drop_first()) == -n,
        n >= 0 ==> signed_decimal(n)[0] != '-' && value_of(signed_decimal(n)) == n,
{
    if n < 0 {
        numbers_read_back((-n) as nat);
        assert(signed_decimal(n).drop_first() =~= decimal((-n) as nat));
    } else {
        numbers_read_back(n as nat);
        assert('0' <= decimal(n as nat)[0] <= '9');
    }
}

// ---------------------------------------------------------------------------
// Single-precision numbers, by their IEEE 754 bit patterns
// ---------------------------------------------------------------------------

/// 0.1
pub const POINT_1: u32 = 0x3dcc_cccd;

/// 0.2
pub const POINT_2: u32 = 0x3e4c_cccd;

/// 0.3
pub const POINT_3: u32 = 0x3e99_999a;

/// 0.5
pub const POINT_5: u32 = 0x3f00_0000;

/// 0.7
pub const POINT_7: u32 = 0x3f33_3333;

/// 0.95
pub const POINT_95: u32 = 0x3f73_3333;

} // verus!
