//! Ledger addresses and receiver resolution.
//!
//! An address is a 160-bit account identifier, held as a 32-bit head and a
//! 128-bit tail.  A receiver argument on the command line is either a hex
//! literal (`0x` followed by 40 hex digits) or a decimal index into an
//! enumerated account list; [`to_address`] resolves both forms.

use vstd::prelude::*;

verus! {

/// A 160-bit ledger address: `head` holds the top 32 bits, `tail` the low
/// 128 bits.
#[derive(Clone, Copy, Debug, PartialEq, Eq, Structural)]
pub struct Addr {
    pub head: u32,
    pub tail: u128,
}

impl Addr {
    /// The address as one natural number below 2^160.
    pub open spec fn as_nat(self) -> nat {
        (self.head * 0x1_0000_0000_0000_0000_0000_0000_0000_0000 + self.tail) as nat
    }
}

/// Why a receiver argument could not be resolved to an address.
#[derive(Clone, Copy, Debug, PartialEq, Eq, Structural)]
pub enum AddressResolutionError {
    /// The argument is neither a well-formed hex literal nor a decimal index.
    InvalidLiteral,
    /// The argument is a decimal index past the end of the account list.
    IndexOutOfRange,
    /// The deployer account for a chain is not determined, so no future
    /// address can be predicted for it.
    DeployerUnknown,
}

/// `b` is an ASCII hex digit.
pub open spec fn is_hex_digit(b: u8) -> bool {
    (0x30 <= b <= 0x39) || (0x41 <= b <= 0x46) || (0x61 <= b <= 0x66)
}

/// Value of the ASCII hex digit `b`.
pub open spec fn hex_digit_value(b: u8) -> nat {
    if 0x30 <= b <= 0x39 {
        (b - 0x30) as nat
    } else if 0x41 <= b <= 0x46 {
        (b - 0x41 + 10) as nat
    } else {
        (b - 0x61 + 10) as nat
    }
}

/// All bytes of `s` are ASCII hex digits.
pub open spec fn all_hex_digits(s: Seq<u8>) -> bool {
    forall|i: int| 0 <= i < s.len() ==> is_hex_digit(#[trigger] s[i])
}

/// The big-endian base-16 value of the digit string `s`.
pub open spec fn hex_value(s: Seq<u8>) -> nat
    decreases s.len(),
{
    if s.len() == 0 {
        0
    } else {
        hex_value(s.drop_last()) * 16 + hex_digit_value(s.last())
    }
}

/// 16 to the power `n`.
pub open spec fn pow16(n: nat) -> nat
    decreases n,
{
    if n == 0 {
        1
    } else {
        16 * pow16((n - 1) as nat)
    }
}

/// A hex digit string's value is below 16 to its length.
pub proof fn lemma_hex_value_bound(s: Seq<u8>)
    requires
        all_hex_digits(s),
    ensures
        hex_value(s) < pow16(s.len()),
    decreases s.len(),
{
    if s.len() > 0 {
        let t = s.drop_last();
        assert(forall|i: int| 0 <= i < t.len() ==> is_hex_digit(#[trigger] t[i]));
        lemma_hex_value_bound(t);
        assert(is_hex_digit(s[s.len() - 1]));
        assert(hex_digit_value(s.last()) < 16);
        assert(pow16(s.len()) == 16 * pow16((s.len() - 1) as nat));
    }
}

/// Splitting a digit string splits its value: the prefix is shifted left by
/// the suffix's length.
pub proof fn lemma_hex_value_concat(s: Seq<u8>, k: int)
    requires
        0 <= k <= s.len(),
    ensures
        hex_value(s) == hex_value(s.subrange(0, k)) * pow16((s.len() - k) as nat) + hex_value(
            s.subrange(k, s.len() as int),
        ),
    decreases s.len() - k,
{
    if k == s.len() {
        assert(s.subrange(0, k) =~= s);
        assert(s.subrange(k, s.len() as int) =~= Seq::<u8>::empty());
        assert(hex_value(s.subrange(k, s.len() as int)) == 0);
        assert(pow16((s.len() - k) as nat) == 1);
        assert(hex_value(s) == hex_value(s.subrange(0, k)) * 1 + 0);
    } else {
        let t = s.drop_last();
        lemma_hex_value_concat(t, k);
        assert(t.subrange(0, k) =~= s.subrange(0, k));
        assert(s.subrange(k, s.len() as int).drop_last() =~= t.subrange(k, t.len() as int));
        let n = (t.len() - k) as nat;
        let pre = hex_value(s.subrange(0, k));
        let mid = hex_value(t.subrange(k, t.len() as int));
        let d = hex_digit_value(s.last());
        assert(hex_value(s) == hex_value(t) * 16 + d);
        assert(hex_value(t) == pre * pow16(n) + mid);
        assert(hex_value(s.subrange(k, s.len() as int)) == mid * 16 + d);
        assert(hex_value(s) == (pre * pow16(n) + mid) * 16 + d);
        assert((pre * pow16(n) + mid) * 16 + d == pre * (16 * pow16(n)) + (mid * 16 + d))
            by (nonlinear_arith);
        assert(pow16((s.len() - k) as nat) == 16 * pow16(n));
    }
}

/// Reads `count` hex digits of `s` starting at `start` as one big-endian
/// number.
pub fn parse_hex_chunk(s: &Vec<u8>, start: usize, count: usize) -> (r: u128)
    requires
        start + count <= s.len(),
        count <= 32,
        all_hex_digits(s@.subrange(start as int, (start + count) as int)),
    ensures
        r == hex_value(s@.subrange(start as int, (start + count) as int)),
{
    let ghost whole = s@.subrange(start as int, (start + count) as int);
    let mut acc: u128 = 0;
    let mut i: usize = 0;
    while i < count
        invariant
            i <= count,
            count <= 32,
            start + count <= s.len(),
            all_hex_digits(whole),
            whole == s@.subrange(start as int, (start + count) as int),
            acc == hex_value(whole.subrange(0, i as int)),
            acc < pow16(i as nat),
        decreases count - i,
    {
        assert(whole[i as int] == s@[start + i]);
        let d = hex_digit(s[start + i]);
        proof {
            let pre = whole.subrange(0, i as int);
            let cur = whole.subrange(0, i + 1);
            assert(cur.drop_last() =~= pre);
            assert(cur.last() == whole[i as int]);
            assert(pow16((i + 1) as nat) == 16 * pow16(i as nat));
            lemma_pow16_le((i + 1) as nat, 32);
            lemma_pow16_value_32();
            assert(acc * 16 + d < pow16((i + 1) as nat));
        }
        acc = acc * 16 + (d as u128);
        i = i + 1;
    }
    proof {
        assert(whole.subrange(0, count as int) =~= whole);
    }
    acc
}

/// The numeric value of `pow16(32)`: one more than the largest `u128`.
pub proof fn lemma_pow16_value_32()
    ensures
        pow16(32) == 0x1_0000_0000_0000_0000_0000_0000_0000_0000,
{
    reveal_with_fuel(pow16, 33);
}

/// `pow16` is monotone in the exponent.
pub proof fn lemma_pow16_le(a: nat, b: nat)
    requires
        a <= b,
    ensures
        pow16(a) <= pow16(b),
    decreases b,
{
    if a < b {
        lemma_pow16_le(a, (b - 1) as nat);
        assert(pow16(b) == 16 * pow16((b - 1) as nat));
    }
}

/// Executable check matching [`is_hex_digit`].
pub fn check_hex_digit(b: u8) -> (r: bool)
    ensures
        r == is_hex_digit(b),
{
    (0x30 <= b && b <= 0x39) || (0x41 <= b && b <= 0x46) || (0x61 <= b && b <= 0x66)
}

/// Executable value of a hex digit, matching [`hex_digit_value`].
pub fn hex_digit(b: u8) -> (r: u8)
    requires
        is_hex_digit(b),
    ensures
        r == hex_digit_value(b),
        r < 16,
{
    if 0x30 <= b && b <= 0x39 {
        b - 0x30
    } else if 0x41 <= b && b <= 0x46 {
        b - 0x41 + 10
    } else {
        b - 0x61 + 10
    }
}

/// `b` is an ASCII decimal digit.
pub open spec fn is_dec_digit(b: u8) -> bool {
    0x30 <= b <= 0x39
}

/// All bytes of `s` are ASCII decimal digits.
pub open spec fn all_dec_digits(s: Seq<u8>) -> bool {
    forall|i: int| 0 <= i < s.len() ==> is_dec_digit(#[trigger] s[i])
}

/// Value of the ASCII decimal digit `b`.
pub open spec fn dec_digit_value(b: u8) -> nat {
    (b - 0x30) as nat
}

/// The base-10 value of the digit string `s`.
pub open spec fn dec_value(s: Seq<u8>) -> nat
    decreases s.len(),
{
    if s.len() == 0 {
        0
    } else {
        dec_value(s.drop_last()) * 10 + dec_digit_value(s.last())
    }
}

/// A longer prefix of a digit string never has a smaller value.
proof fn lemma_dec_value_prefix_le(s: Seq<u8>, i: int, j: int)
    requires
        0 <= i <= j <= s.len(),
    ensures
        dec_value(s.subrange(0, i)) <= dec_value(s.subrange(0, j)),
    decreases j - i,
{
    if i < j {
        lemma_dec_value_prefix_le(s, i, j - 1);
        assert(s.subrange(0, j).drop_last() =~= s.subrange(0, j - 1));
        assert(dec_value(s.subrange(0, j)) == dec_value(s.subrange(0, j - 1)) * 10
            + dec_digit_value(s[j - 1]));
    }
}

/// Reads `s` as a base-10 index, as the command line's index form does.
///
/// Succeeds exactly on a nonempty all-digit string whose value fits `usize`,
/// and then returns that value.
pub fn parse_index(s: &Vec<u8>) -> (r: Option<usize>)
    ensures
        r is Some <==> (s@.len() > 0 && all_dec_digits(s@) && dec_value(s@) <= usize::MAX),
        r matches Some(i) ==> i == dec_value(s@),
{
    if s.len() == 0 {
        return None;
    }
    let mut acc: usize = 0;
    let mut i: usize = 0;
    while i < s.len()
        invariant
            i <= s.len(),
            all_dec_digits(s@.subrange(0, i as int)),
            acc == dec_value(s@.subrange(0, i as int)),
        decreases s.len() - i,
    {
        let b = s[i];
        if !(0x30 <= b && b <= 0x39) {
            assert(!is_dec_digit(s@[i as int]));
            return None;
        }
        let d = b - 0x30;
        let wide: u128 = acc as u128 * 10 + d as u128;
        proof {
            let pre = s@.subrange(0, i as int);
            let cur = s@.subrange(0, i + 1);
            assert(cur.drop_last() =~= pre);
            assert(cur.last() == s@[i as int]);
            assert(dec_value(cur) == acc * 10 + d);
        }
        if wide > usize::MAX as u128 {
            proof {
                lemma_dec_value_prefix_le(s@, i + 1, s.len() as int);
                assert(s@.subrange(0, s.len() as int) =~= s@);
            }
            return None;
        }
        acc = wide as usize;
        i = i + 1;
    }
    proof {
        assert(s@.subrange(0, s.len() as int) =~= s@);
    }
    Some(acc)
}

/// `s` starts with the ASCII hex prefix `0x`.
pub open spec fn has_hex_prefix(s: Seq<u8>) -> bool {
    s.len() >= 2 && s[0] == 0x30 && s[1] == 0x78
}

/// `s` is a well-formed address literal: the hex prefix followed by exactly
/// 40 hex digits.
pub open spec fn is_addr_literal(s: Seq<u8>) -> bool {
    s.len() == 42 && has_hex_prefix(s) && all_hex_digits(s.subrange(2, 42))
}

/// The numeric value of `pow16(8)`: one more than the largest `u32`.
pub proof fn lemma_pow16_value_8()
    ensures
        pow16(8) == 0x1_0000_0000,
{
    reveal_with_fuel(pow16, 9);
}

/// Parses an address literal (`0x` plus 40 hex digits) into an [`Addr`]
/// whose numeric value is the literal's base-16 value.
pub fn parse_addr_literal(s: &Vec<u8>) -> (r: Result<Addr, AddressResolutionError>)
    ensures
        r is Ok <==> is_addr_literal(s@),
        r matches Ok(a) ==> a.as_nat() == hex_value(s@.subrange(2, 42)),
        r is Err ==> r == Err::<Addr, AddressResolutionError>(
            AddressResolutionError::InvalidLiteral,
        ),
{
    if s.len() != 42 {
        return Err(AddressResolutionError::InvalidLiteral);
    }
    if !(s[0] == 0x30 && s[1] == 0x78) {
        return Err(AddressResolutionError::InvalidLiteral);
    }
    let mut i: usize = 2;
    while i < 42
        invariant
            2 <= i <= 42,
            s@.len() == 42,
            all_hex_digits(s@.subrange(2, i as int)),
        decreases 42 - i,
    {
        if !check_hex_digit(s[i]) {
            assert(!is_hex_digit(s@[i as int]));
            assert(s@.subrange(2, 42)[i - 2] == s@[i as int]);
            return Err(AddressResolutionError::InvalidLiteral);
        }
        proof {
            let cur = s@.subrange(2, i + 1);
            assert(forall|j: int| 0 <= j < cur.len() ==> is_hex_digit(#[trigger] cur[j]));
        }
        i = i + 1;
    }
    let ghost digits = s@.subrange(2, 42);
    proof {
        assert(digits.subrange(0, 8) =~= s@.subrange(2, 10));
        assert(digits.subrange(8, 40) =~= s@.subrange(10, 42));
        lemma_hex_value_bound(s@.subrange(2, 10));
        lemma_pow16_value_8();
        lemma_hex_value_bound(s@.subrange(10, 42));
        lemma_pow16_value_32();
    }
    let head_wide = parse_hex_chunk(s, 2, 8);
    let tail = parse_hex_chunk(s, 10, 32);
    let head = head_wide as u32;
    proof {
        lemma_hex_value_concat(digits, 8);
    }
    Ok(Addr { head, tail })
}

/// Resolves a receiver argument, as the command line accepts it, to an
/// address.
///
/// A string with the hex prefix must be a 40-digit address literal; any
/// other string must be a decimal index into `accounts`.  An out-of-range
/// index, an overflowing index, or anything else is rejected.
pub fn to_address(arg: &Vec<u8>, accounts: &Vec<Addr>) -> (r: Result<
    Addr,
    AddressResolutionError,
>)
    ensures
        has_hex_prefix(arg@) ==> {
            &&& r is Ok <==> is_addr_literal(arg@)
            &&& (r matches Ok(a) ==> a.as_nat() == hex_value(arg@.subrange(2, 42)))
            &&& (r is Err ==> r == Err::<Addr, AddressResolutionError>(
                AddressResolutionError::InvalidLiteral,
            ))
        },
        !has_hex_prefix(arg@) ==> {
            if arg@.len() > 0 && all_dec_digits(arg@) && dec_value(arg@) <= usize::MAX {
                if dec_value(arg@) < accounts@.len() {
                    r == Ok::<Addr, AddressResolutionError>(accounts@[dec_value(arg@) as int])
                } else {
                    r == Err::<Addr, AddressResolutionError>(
                        AddressResolutionError::IndexOutOfRange,
                    )
                }
            } else {
                r == Err::<Addr, AddressResolutionError>(AddressResolutionError::InvalidLiteral)
            }
        },
{
    if arg.len() >= 2 && arg[0] == 0x30 && arg[1] == 0x78 {
        parse_addr_literal(arg)
    } else {
        match parse_index(arg) {
            Some(i) => {
                if i < accounts.len() {
                    Ok(accounts[i])
                } else {
                    Err(AddressResolutionError::IndexOutOfRange)
                }
            },
            None => Err(AddressResolutionError::InvalidLiteral),
        }
    }
}

} // verus!
