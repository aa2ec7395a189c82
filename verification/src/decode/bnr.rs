use vstd::prelude::*;
use vstd::arithmetic::power2::{pow2, lemma_pow2_pos, lemma_pow2_unfold};
use vstd::bits::{low_bits_mask, lemma_u32_low_bits_mask_is_mod, lemma_u32_shl_is_mul, lemma_u32_pow2_no_overflow, lemma_low_bits_mask_values};

verus! {

/// Decoder of binary (two's complement) payloads.
pub struct BnrDecoder;

impl BnrDecoder {
    pub fn new() -> Self {
        BnrDecoder
    }
}

impl Default for BnrDecoder {
    fn default() -> Self {
        Self::new()
    }
}

/// The `bits` low bits of `data`, read as a two's complement number when
/// `signed`, as an unsigned number otherwise.
pub open spec fn bnr_field_value(data: u32, bits: nat, signed: bool) -> int {
    let m = data as nat % pow2(bits);
    if signed && m >= pow2((bits - 1) as nat) {
        m - pow2(bits)
    } else {
        m as int
    }
}

impl BnrDecoder {
    /// The integer magnitude of a BNR field: the `bits` low bits of `data`,
    /// two's complement when `signed`. Scaling by the resolution is left to
    /// the caller.
    pub fn field_value(data: u32, bits: u32, signed: bool) -> (r: i64)
        requires
            1 <= bits <= 32,
        ensures
            r == bnr_field_value(data, bits as nat, signed),
    {
        proof {
            lemma_pow2_pos(bits as nat);
            lemma_pow2_pos((bits - 1) as nat);
            lemma_pow2_unfold(bits as nat);
            lemma_low_bits_mask_values();
        }
        let mask = if bits == 32 {
            u32::MAX
        } else {
            proof {
                lemma_u32_pow2_no_overflow(bits as nat);
                lemma_u32_shl_is_mul(1, bits);
                vstd::bits::lemma_low_bits_mask_unfold(bits as nat);
            }
            (1u32 << bits) - 1
        };
        let masked_data = data & mask;
        proof {
            if bits == 32 {
                assert(pow2(32) == 0x1_0000_0000) by {
                    vstd::arithmetic::power2::lemma2_to64();
                }
                assert(data & 0xffffffffu32 == data) by (bit_vector);
                vstd::arithmetic::div_mod::lemma_small_mod(data as nat, pow2(32));
            } else {
                assert(mask == low_bits_mask(bits as nat)) by {
                    vstd::bits::lemma_low_bits_mask_unfold(bits as nat);
                }
                lemma_u32_low_bits_mask_is_mod(data, bits as nat);
            }
            assert(masked_data == data as nat % pow2(bits as nat));
        }
        if signed {
            proof {
                lemma_u32_pow2_no_overflow((bits - 1) as nat);
                lemma_u32_shl_is_mul(1, (bits - 1) as u32);
            }
            let sign_bit = 1u32 << (bits - 1);
            let b1 = bits - 1;
            assert(((masked_data & sign_bit) != 0) == (masked_data >= sign_bit)) by (bit_vector)
                requires
                    sign_bit == 1u32 << b1,
                    b1 < 32,
                    masked_data < sign_bit * 2 || b1 == 31,
            ;
            if (masked_data & sign_bit) != 0 {
                assert(masked_data & mask == masked_data) by (bit_vector)
                    requires
                        masked_data == data & mask,
                ;
                assert(!masked_data & mask == mask - masked_data) by (bit_vector)
                    requires
                        masked_data & mask == masked_data,
                ;
                let neg = (!masked_data & mask) + 1;
                return -(neg as i64);
            } else {
                return masked_data as i64;
            }
        }
        masked_data as i64
    }
}


/// A BNR field is the number its `bits` low bits stand for: unsigned, the
/// value is `data` modulo `2^bits`; two's complement, it is the one number
/// in `[-2^(bits-1), 2^(bits-1))` that agrees with `data` modulo `2^bits`.
pub proof fn law_bnr_field_is_the_residue(data: u32, bits: nat)
    requires
        1 <= bits,
    ensures
        bnr_field_value(data, bits, false) == data as nat % pow2(bits),
        -pow2((bits - 1) as nat) <= bnr_field_value(data, bits, true) < pow2((bits - 1) as nat),
        (bnr_field_value(data, bits, true) - data) % (pow2(bits) as int) == 0,
{
    let p = pow2(bits) as int;
    lemma_pow2_pos(bits);
    lemma_pow2_unfold(bits);
    let m = data as int % p;
    vstd::arithmetic::div_mod::lemma_fundamental_div_mod(data as int, p);
    vstd::arithmetic::div_mod::lemma_mod_bound(data as int, p);
    let q = data as int / p;
    assert(m - data == (-q) * p) by (nonlinear_arith)
        requires
            data as int == p * q + m,
    ;
    vstd::arithmetic::div_mod::lemma_mod_multiples_basic(-q, p);
    assert(m - p - data == (-q - 1) * p) by (nonlinear_arith)
        requires
            m - data == (-q) * p,
    ;
    vstd::arithmetic::div_mod::lemma_mod_multiples_basic(-q - 1, p);
}

} // verus!
