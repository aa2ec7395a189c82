use vstd::prelude::*;
use vstd::string::StringExecFns;
use crate::text::{decimal_digits, push_decimal};

verus! {

/// Decoder of binary-coded decimal (or octal) payloads.
#[derive(Debug)]
pub struct BcdDecoder;

impl BcdDecoder {
    pub fn new() -> Self {
        BcdDecoder
    }
}

impl Default for BcdDecoder {
    fn default() -> Self {
        Self::new()
    }
}

#[derive(Debug, Clone, PartialEq, Eq, Structural)]
pub enum BcdDecodeError {
    InvalidDigit { position: usize, digit: u8, base: u8 },
    TooManyDigits { requested: usize, max: usize },
}

/// The 4-bit digit `i` (0 = most significant) of an `n`-digit field in the
/// low nibbles of `data`.
pub open spec fn bcd_digit(data: u32, n: nat, i: nat) -> u32 {
    (data >> (4 * (n - 1 - i)) as u32) & 0xF
}

/// The value of the first `k` digits read in base `base`.
pub open spec fn bcd_value(data: u32, n: nat, base: nat, k: nat) -> nat
    decreases k,
{
    if k == 0 {
        0
    } else {
        bcd_value(data, n, base, (k - 1) as nat) * base + bcd_digit(data, n, (k - 1) as nat) as nat
    }
}

/// Every digit before `k` is a digit of the base.
pub open spec fn bcd_digits_valid(data: u32, n: nat, base: nat, k: nat) -> bool {
    forall|j: nat| j < k ==> (#[trigger] bcd_digit(data, n, j)) < base
}

/// The digit base: 8 for octal fields, 10 otherwise.
pub open spec fn base_of(is_octal: bool) -> nat {
    if is_octal {
        8
    } else {
        10
    }
}

spec fn pow16(k: nat) -> nat
    decreases k,
{
    if k == 0 {
        1
    } else {
        16 * pow16((k - 1) as nat)
    }
}

proof fn lemma_pow16_le(k: nat)
    requires
        k <= 8,
    ensures
        1 <= pow16(k) <= 0x1_0000_0000,
    decreases 8 - k,
{
    reveal_with_fuel(pow16, 9);
    if k < 8 {
        lemma_pow16_le(k + 1);
    }
}

impl BcdDecoder {
    /// Reads `n_digits` 4-bit digits from the low nibbles of `data`, most
    /// significant first, as a number in base 8 (`is_octal`) or 10. Fails at
    /// the first digit that is not a digit of the base.
    pub fn extract_digits(data: u32, n_digits: usize, is_octal: bool) -> (r: Result<
        u64,
        BcdDecodeError,
    >)
        requires
            1 <= n_digits <= 8,
        ensures
            r is Ok <==> bcd_digits_valid(data, n_digits as nat, base_of(is_octal), n_digits as nat),
            r matches Ok(v) ==> v == bcd_value(data, n_digits as nat, base_of(is_octal), n_digits as nat),
            r matches Err(e) ==> (e matches BcdDecodeError::InvalidDigit { position, digit, base } && {
                &&& position < n_digits
                &&& bcd_digits_valid(data, n_digits as nat, base_of(is_octal), position as nat)
                &&& digit as nat == bcd_digit(data, n_digits as nat, position as nat)
                &&& digit as nat >= base_of(is_octal)
                &&& base as nat == base_of(is_octal)
            }),
    {
        let mut value: u64 = 0;
        let digit_base: u8 = if is_octal {
            8
        } else {
            10
        };
        let total_shift = (n_digits - 1) * 4;
        let mut mask_shift: i32 = total_shift as i32;
        let ghost mut bound: nat = 1;
        for i in 0..n_digits
            invariant
                1 <= n_digits <= 8,
                digit_base as nat == base_of(is_octal),
                mask_shift == 4 * (n_digits - 1 - i),
                value == bcd_value(data, n_digits as nat, digit_base as nat, i as nat),
                bcd_digits_valid(data, n_digits as nat, digit_base as nat, i as nat),
                bound == pow16(i as nat),
                value < bound,
        {
            proof {
                lemma_pow16_le(i as nat);
                lemma_pow16_le((i + 1) as nat);
            }
            let digit = if mask_shift >= 0 {
                let sh = mask_shift as u32;
                let d = (data >> sh) & 0x0F;
                assert(d < 16) by (bit_vector)
                    requires
                        d == (data >> sh) & 0x0F,
                ;
                d as u8
            } else {
                0u8
            };
            assert(digit as u32 == bcd_digit(data, n_digits as nat, i as nat));
            mask_shift -= 4;
            if digit >= digit_base {
                return Err(BcdDecodeError::InvalidDigit { position: i, digit, base: digit_base });
            }
            proof {
                assert(value * (digit_base as int) + digit < bound * 16) by (nonlinear_arith)
                    requires
                        value < bound,
                        digit_base <= 10,
                        digit < digit_base,
                ;
                bound = bound * 16;
                assert(bcd_digits_valid(data, n_digits as nat, digit_base as nat, (i + 1) as nat))
                    by {
                    assert forall|j: nat| j < i + 1 implies (#[trigger] bcd_digit(
                        data,
                        n_digits as nat,
                        j,
                    )) < digit_base as nat by {
                        if j < i {
                            assert(bcd_digits_valid(
                                data,
                                n_digits as nat,
                                digit_base as nat,
                                i as nat,
                            ));
                        }
                    }
                }
            }
            value = value * (digit_base as u64) + (digit as u64);
        }
        Ok(value)
    }
}

impl BcdDecodeError {
    /// The message shown for the error.
    pub open spec fn message_text(self) -> Seq<char> {
        match self {
            BcdDecodeError::InvalidDigit { position, digit, base } => "Invalid digit "@
                + decimal_digits(digit as nat) + " at position "@ + decimal_digits(position as nat)
                + " (base "@ + decimal_digits(base as nat) + ")"@,
            BcdDecodeError::TooManyDigits { requested, max } => "Requested "@ + decimal_digits(
                requested as nat,
            ) + " digits, max is "@ + decimal_digits(max as nat),
        }
    }

    /// The message shown for the error.
    pub fn message(&self) -> (m: String)
        ensures
            m@ == self.message_text(),
    {
        let mut m = String::new();
        match self {
            BcdDecodeError::InvalidDigit { position, digit, base } => {
                m.append("Invalid digit ");
                push_decimal(&mut m, *digit as u64);
                m.append(" at position ");
                push_decimal(&mut m, *position as u64);
                m.append(" (base ");
                push_decimal(&mut m, *base as u64);
                m.append(")");
            },
            BcdDecodeError::TooManyDigits { requested, max } => {
                m.append("Requested ");
                push_decimal(&mut m, *requested as u64);
                m.append(" digits, max is ");
                push_decimal(&mut m, *max as u64);
            },
        }
        assert(m@ =~= self.message_text());
        m
    }
}


// ---------------------------------------------------------------------------
// Decimal digits read back
// ---------------------------------------------------------------------------

/// `10^n`
pub open spec fn pow10(n: nat) -> nat
    decreases n,
{
    if n == 0 {
        1
    } else {
        10 * pow10((n - 1) as nat)
    }
}

/// The `n`-digit BCD field of `v`: its `n` lowest decimal digits, one per
/// nibble, the least significant digit in the lowest nibble.
pub open spec fn bcd_field(v: nat, n: nat) -> nat
    decreases n,
{
    if n == 0 {
        0
    } else {
        bcd_field(v / 10, (n - 1) as nat) * 16 + v % 10
    }
}

/// A number below `10^n`, written as an `n`-digit BCD field, reads back as
/// itself in base 10, and every digit of the field is a decimal digit.
pub proof fn law_bcd_reads_decimal_digits(v: nat, n: nat)
    requires
        1 <= n <= 8,
        v < pow10(n),
    ensures
        bcd_field(v, n) < 0x1_0000_0000,
        bcd_digits_valid(bcd_field(v, n) as u32, n, 10, n),
        bcd_value(bcd_field(v, n) as u32, n, 10, n) == v,
{
    lemma_bcd_field_bound(v, n);
    lemma_pow16_le(n);
    let d = bcd_field(v, n) as u32;
    assert(d as nat == bcd_field(v, n));
    assert forall|j: nat| j < n implies (#[trigger] bcd_digit(d, n, j)) as nat == (v / pow10(
        (n - 1 - j) as nat,
    )) % 10 by {
        lemma_nibble(d, (n - 1 - j) as nat);
        lemma_bcd_field_digit(v, n, (n - 1 - j) as nat);
    }
    assert forall|j: nat| j < n implies (#[trigger] bcd_digit(d, n, j)) < 10 by {
        assert(bcd_digit(d, n, j) as nat == (v / pow10((n - 1 - j) as nat)) % 10);
    }
    lemma_bcd_value_prefix(v, n, n);
    assert(pow10(0) == 1);
    assert((n - n) as nat == 0);
    assert(v / 1 == v);
}

proof fn lemma_pow10_pos(n: nat)
    ensures
        pow10(n) > 0,
    decreases n,
{
    if n > 0 {
        lemma_pow10_pos((n - 1) as nat);
    }
}

proof fn lemma_bcd_field_bound(v: nat, n: nat)
    ensures
        bcd_field(v, n) < pow16(n),
    decreases n,
{
    if n > 0 {
        lemma_bcd_field_bound(v / 10, (n - 1) as nat);
        let x = bcd_field(v / 10, (n - 1) as nat);
        let p = pow16((n - 1) as nat);
        assert(x * 16 + v % 10 < 16 * p) by (nonlinear_arith)
            requires
                x < p,
                v % 10 < 10,
        ;
    }
}

/// Nibble `j` (from the least significant) of the field of `v` is decimal
/// digit `j` of `v`.
proof fn lemma_bcd_field_digit(v: nat, n: nat, j: nat)
    requires
        j < n,
    ensures
        (bcd_field(v, n) / pow16(j)) % 16 == (v / pow10(j)) % 10,
    decreases j,
{
    let x = bcd_field(v / 10, (n - 1) as nat);
    let r = v % 10;
    assert(bcd_field(v, n) == x * 16 + r);
    if j == 0 {
        vstd::arithmetic::div_mod::lemma_fundamental_div_mod_converse(
            (x * 16 + r) as int,
            16,
            x as int,
            r as int,
        );
        assert(pow16(0) == 1);
        assert(pow10(0) == 1);
    } else {
        lemma_bcd_field_digit(v / 10, (n - 1) as nat, (j - 1) as nat);
        let p = pow16((j - 1) as nat);
        let q = pow10((j - 1) as nat);
        lemma_pow16_pos((j - 1) as nat);
        lemma_pow10_pos((j - 1) as nat);
        vstd::arithmetic::div_mod::lemma_fundamental_div_mod_converse(
            (x * 16 + r) as int,
            16,
            x as int,
            r as int,
        );
        vstd::arithmetic::div_mod::lemma_div_denominator((x * 16 + r) as int, 16, p as int);
        vstd::arithmetic::div_mod::lemma_div_denominator(v as int, 10, q as int);
        assert(pow16(j) == 16 * p);
        assert(pow10(j) == 10 * q);
    }
}

proof fn lemma_pow16_pos(k: nat)
    ensures
        pow16(k) > 0,
    decreases k,
{
    if k > 0 {
        lemma_pow16_pos((k - 1) as nat);
    }
}

/// Nibble `k` of `x`, shifted down and masked, is `x / 16^k mod 16`.
proof fn lemma_nibble(x: u32, k: nat)
    requires
        k < 8,
    ensures
        ((x >> (4 * k) as u32) & 0xF) as nat == (x as nat / pow16(k)) % 16,
{
    reveal_with_fuel(pow16, 8);
    if k == 0 {
        assert((x >> 0u32) & 0xF == (x / 1) % 16) by (bit_vector);
    } else if k == 1 {
        assert((x >> 4u32) & 0xF == (x / 16) % 16) by (bit_vector);
    } else if k == 2 {
        assert((x >> 8u32) & 0xF == (x / 256) % 16) by (bit_vector);
    } else if k == 3 {
        assert((x >> 12u32) & 0xF == (x / 4096) % 16) by (bit_vector);
    } else if k == 4 {
        assert((x >> 16u32) & 0xF == (x / 65536) % 16) by (bit_vector);
    } else if k == 5 {
        assert((x >> 20u32) & 0xF == (x / 1048576) % 16) by (bit_vector);
    } else if k == 6 {
        assert((x >> 24u32) & 0xF == (x / 16777216) % 16) by (bit_vector);
    } else {
        assert((x >> 28u32) & 0xF == (x / 268435456) % 16) by (bit_vector);
    }
}

/// The first `k` digits of the field of `v` read as `v / 10^(n - k)`.
proof fn lemma_bcd_value_prefix(v: nat, n: nat, k: nat)
    requires
        1 <= n <= 8,
        k <= n,
        v < pow10(n),
        bcd_field(v, n) < 0x1_0000_0000,
        forall|j: nat| j < n ==> (#[trigger] bcd_digit(bcd_field(v, n) as u32, n, j)) as nat == (v
            / pow10((n - 1 - j) as nat)) % 10,
    ensures
        bcd_value(bcd_field(v, n) as u32, n, 10, k) == v / pow10((n - k) as nat),
    decreases k,
{
    let d = bcd_field(v, n) as u32;
    if k == 0 {
        lemma_pow10_pos(n);
        vstd::arithmetic::div_mod::lemma_fundamental_div_mod_converse(
            v as int,
            pow10(n) as int,
            0,
            v as int,
        );
    } else {
        lemma_bcd_value_prefix(v, n, (k - 1) as nat);
        let w = v / pow10((n - k) as nat);
        let q = pow10((n - k) as nat);
        lemma_pow10_pos((n - k) as nat);
        assert(pow10((n - (k - 1)) as nat) == 10 * q);
        vstd::arithmetic::div_mod::lemma_div_denominator(v as int, q as int, 10);
        assert(bcd_digit(d, n, (k - 1) as nat) as nat == w % 10);
        vstd::arithmetic::div_mod::lemma_fundamental_div_mod(w as int, 10);
    }
}

} // verus!
