use vstd::prelude::*;
use byteorder::{BigEndian, ByteOrder, LittleEndian};

use crate::protocol::types::SsmSign;
use crate::text::{radix_digits, radix_string, push_radix_digits};

verus! {

pub const LABEL_MASK: u32 = 0x000000FF;
pub const LABEL_SHIFT: u32 = 0;
pub const SDI_MASK: u32 = 0x00000300;
pub const SDI_SHIFT: u32 = 8;
pub const DATA_MASK: u32 = 0x1FFFFC00;
pub const DATA_SHIFT: u32 = 10;
pub const SSM_MASK: u32 = 0x60000000;
pub const SSM_SHIFT: u32 = 29;
pub const PARITY_MASK: u32 = 0x80000000;
pub const PARITY_SHIFT: u32 = 31;

pub const PAYLOAD_BITS: u32 = 19;

// ---------------------------------------------------------------------------
// Word layout: where each field of a 32-bit word lives.
// ---------------------------------------------------------------------------

/// Bit `i` of `x`, as 0 or 1.
pub open spec fn bit_of(x: u32, i: u32) -> u32 {
    (x >> i) & 1
}

/// Number of set bits among the `n` lowest bits of `x`.
pub open spec fn ones_below(x: u32, n: nat) -> nat
    decreases n,
{
    if n == 0 {
        0
    } else {
        ones_below(x, (n - 1) as nat) + bit_of(x, (n - 1) as u32) as nat
    }
}

/// Odd parity over the whole word: an odd number of its 32 bits are set.
pub open spec fn has_odd_parity(raw: u32) -> bool {
    ones_below(raw, 32) % 2 == 1
}

/// The label byte as transmitted (bits 1-8, least significant bit first on the wire).
pub open spec fn raw_label_of(raw: u32) -> u8 {
    (raw & LABEL_MASK) as u8
}

/// Source/Destination Identifier (bits 9-10).
pub open spec fn sdi_of(raw: u32) -> u8 {
    ((raw & SDI_MASK) >> SDI_SHIFT) as u8
}

/// The 19-bit payload (bits 11-29).
pub open spec fn data_of(raw: u32) -> u32 {
    (raw & DATA_MASK) >> DATA_SHIFT
}

/// The code of the Sign/Status Matrix (bits 30-31).
pub open spec fn ssm_code_of(raw: u32) -> u8 {
    ((raw & SSM_MASK) >> SSM_SHIFT) as u8
}

/// The parity bit (bit 32).
pub open spec fn parity_bit_of(raw: u32) -> bool {
    raw & PARITY_MASK != 0
}

/// A byte with its bit order reversed: bit `i` moves to bit `7 - i`.
pub open spec fn reversed_u8(b: u8) -> u8 {
    ((b & 0x01) << 7) | ((b & 0x02) << 5) | ((b & 0x04) << 3) | ((b & 0x08) << 1) | ((b & 0x10)
        >> 1) | ((b & 0x20) >> 3) | ((b & 0x40) >> 5) | ((b & 0x80) >> 7)
}

// ---------------------------------------------------------------------------
// Bit-level helpers
// ---------------------------------------------------------------------------

/// Reverses the bit order of a byte (labels are sent least significant bit first).
pub fn reverse_bits_u8(b: u8) -> (r: u8)
    ensures
        r == reversed_u8(b),
{
    let v1: u8 = ((b >> 1) & 0x55) | ((b & 0x55) << 1);
    let v2: u8 = ((v1 >> 2) & 0x33) | ((v1 & 0x33) << 2);
    let v3: u8 = ((v2 >> 4) & 0x0F) | ((v2 & 0x0F) << 4);
    assert(v3 == reversed_u8(b)) by (bit_vector)
        requires
            v1 == ((b >> 1) & 0x55) | ((b & 0x55) << 1),
            v2 == ((v1 >> 2) & 0x33) | ((v1 & 0x33) << 2),
            v3 == ((v2 >> 4) & 0x0F) | ((v2 & 0x0F) << 4),
    ;
    v3
}

/// Reversal mirrors the bits: bit `i` of the reversed byte is bit `7 - i`
/// of the byte.
pub proof fn law_reversal_mirrors_bits(b: u8, i: u8)
    requires
        i < 8,
    ensures
        (reversed_u8(b) >> i) & 1 == (b >> (7 - i) as u8) & 1,
{
    let r = reversed_u8(b);
    assert((r >> i) & 1 == (b >> (7 - i) as u8) & 1) by (bit_vector)
        requires
            i < 8,
            r == ((b & 0x01) << 7) | ((b & 0x02) << 5) | ((b & 0x04) << 3) | ((b & 0x08) << 1)
                | ((b & 0x10) >> 1) | ((b & 0x20) >> 3) | ((b & 0x40) >> 5) | ((b & 0x80) >> 7),
    ;
}

/// Reversing the bit order twice gives the byte back.
pub proof fn lemma_reverse_bits_involution(b: u8)
    ensures
        reversed_u8(reversed_u8(b)) == b,
{
    let r = reversed_u8(b);
    assert(((r & 0x01) << 7) | ((r & 0x02) << 5) | ((r & 0x04) << 3) | ((r & 0x08) << 1) | ((r
        & 0x10) >> 1) | ((r & 0x20) >> 3) | ((r & 0x40) >> 5) | ((r & 0x80) >> 7) == b)
        by (bit_vector)
        requires
            r == ((b & 0x01) << 7) | ((b & 0x02) << 5) | ((b & 0x04) << 3) | ((b & 0x08) << 1)
                | ((b & 0x10) >> 1) | ((b & 0x20) >> 3) | ((b & 0x40) >> 5) | ((b & 0x80) >> 7),
    ;
}

proof fn lemma_bit_is_01(x: u32, i: u32)
    requires
        i < 32,
    ensures
        bit_of(x, i) == 0 || bit_of(x, i) == 1,
{
    assert(((x >> i) & 1) == 0 || ((x >> i) & 1) == 1) by (bit_vector);
}

proof fn lemma_xor_parity(acc: u32, b: u32)
    requires
        acc <= 1,
        b <= 1,
    ensures
        (acc ^ b) as int == (acc + b) % 2,
        acc ^ b <= 1,
{
    assert((acc ^ b) as int == (acc + b) % 2 && acc ^ b <= 1) by (bit_vector)
        requires
            acc <= 1,
            b <= 1,
    ;
}

/// True when `raw` has odd parity over all 32 bits, the parity bit included.
pub fn compute_odd_parity_xor_32(raw: u32) -> (r: bool)
    ensures
        r == has_odd_parity(raw),
{
    let mut xor_acc: u32 = 0;
    for i in 0..32u32
        invariant
            xor_acc <= 1,
            xor_acc as nat == ones_below(raw, i as nat) % 2,
    {
        proof {
            lemma_bit_is_01(raw, i);
            lemma_xor_parity(xor_acc, bit_of(raw, i));
        }
        xor_acc ^= (raw >> i) & 1;
    }
    xor_acc == 1
}

/// The parity bit (already in place at bit 32) that gives `raw_without_parity`
/// odd parity over its 31 low bits plus the parity bit.
pub fn generate_odd_parity_bit(raw_without_parity: u32) -> (r: u32)
    ensures
        r == (if ones_below(raw_without_parity, 31) % 2 == 1 {
            0u32
        } else {
            PARITY_MASK
        }),
{
    let mut xor_acc: u32 = 0;
    for i in 0..31u32
        invariant
            xor_acc <= 1,
            xor_acc as nat == ones_below(raw_without_parity, i as nat) % 2,
    {
        proof {
            lemma_bit_is_01(raw_without_parity, i);
            lemma_xor_parity(xor_acc, bit_of(raw_without_parity, i));
        }
        xor_acc ^= (raw_without_parity >> i) & 1;
    }
    if xor_acc == 1 {
        0
    } else {
        assert(1u32 << 31u32 == 0x80000000u32) by (bit_vector);
        1u32 << PARITY_SHIFT
    }
}

proof fn lemma_ones_below_same_low_bits(x: u32, y: u32, n: nat)
    requires
        n <= 32,
        forall|i: u32| i < n ==> #[trigger] bit_of(x, i) == bit_of(y, i),
    ensures
        ones_below(x, n) == ones_below(y, n),
    decreases n,
{
    if n > 0 {
        lemma_ones_below_same_low_bits(x, y, (n - 1) as nat);
        assert(bit_of(x, (n - 1) as u32) == bit_of(y, (n - 1) as u32));
    }
}

/// A word whose parity bit is clear, completed with the generated parity
/// bit, has odd parity.
pub proof fn lemma_generated_parity_is_odd(raw: u32, p: u32)
    requires
        raw & PARITY_MASK == 0,
        p == (if ones_below(raw, 31) % 2 == 1 {
            0u32
        } else {
            PARITY_MASK
        }),
    ensures
        has_odd_parity(raw | p),
{
    let w = raw | p;
    assert forall|i: u32| i < 31 implies #[trigger] bit_of(w, i) == bit_of(raw, i) by {
        assert(((raw | p) >> i) & 1 == (raw >> i) & 1) by (bit_vector)
            requires
                i < 31,
                p == 0 || p == 0x80000000,
        ;
    }
    lemma_ones_below_same_low_bits(w, raw, 31);
    assert(bit_of(w, 31) == (if p == 0 {
        0u32
    } else {
        1u32
    })) by {
        assert(((raw | p) >> 31) & 1 == (if p == 0 {
            0u32
        } else {
            1u32
        })) by (bit_vector)
            requires
                raw & 0x80000000 == 0,
                p == 0 || p == 0x80000000,
        ;
    }
    assert(ones_below(w, 32) == ones_below(w, 31) + bit_of(w, 31) as nat);
}

// ---------------------------------------------------------------------------
// The word itself
// ---------------------------------------------------------------------------

#[derive(Debug, Clone, Copy, PartialEq, Eq, Structural)]
pub enum WordEndianness {
    Standard,
    Reversed,
}

#[derive(Debug, Clone, Copy, PartialEq, Eq, Structural)]
pub enum ParityType {
    Odd,
    Even,
}

/// A decoded 32-bit bus word. Every field is derived from the raw bits.
#[derive(Debug, PartialEq, Eq, Structural)]
pub struct ArincWord {
    raw: u32,
    raw_label: u8,
    label: u8,
    sdi: u8,
    data: u32,
    ssm: SsmSign,
    parity_bit: bool,
    parity_valid: bool,
    endianness: WordEndianness,
}

/// Little-endian value of four bytes.
pub open spec fn le_value(b: Seq<u8>) -> int {
    b[0] + b[1] * 0x100 + b[2] * 0x10000 + b[3] * 0x1000000
}

/// Big-endian value of four bytes.
pub open spec fn be_value(b: Seq<u8>) -> int {
    b[3] + b[2] * 0x100 + b[1] * 0x10000 + b[0] * 0x1000000
}

/// `byteorder::LittleEndian::read_u32` on a four-byte buffer: the bytes read
/// as a little-endian number.
#[verifier::external_body]
fn read_u32_le(bytes: &[u8; 4]) -> (r: u32)
    ensures
        r as int == le_value(bytes@),
{
    LittleEndian::read_u32(bytes)
}

/// `byteorder::BigEndian::read_u32` on a four-byte buffer: the bytes read as
/// a big-endian number.
#[verifier::external_body]
fn read_u32_be(bytes: &[u8; 4]) -> (r: u32)
    ensures
        r as int == be_value(bytes@),
{
    BigEndian::read_u32(bytes)
}

impl Clone for ArincWord {
    fn clone(&self) -> (w: Self)
        ensures
            w == *self,
    {
        proof {
            use_type_invariant(self);
        }
        ArincWord {
            raw: self.raw,
            raw_label: self.raw_label,
            label: self.label,
            sdi: self.sdi,
            data: self.data,
            ssm: self.ssm,
            parity_bit: self.parity_bit,
            parity_valid: self.parity_valid,
            endianness: self.endianness,
        }
    }
}

impl ArincWord {
    /// The raw 32 bits the word was decoded from.
    pub closed spec fn raw_bits(self) -> u32 {
        self.raw
    }

    /// The byte order it was read with.
    pub closed spec fn byte_order(self) -> WordEndianness {
        self.endianness
    }

    #[verifier::type_invariant]
    closed spec fn fields_match_raw(self) -> bool {
        &&& self.raw_label == raw_label_of(self.raw)
        &&& self.label == reversed_u8(raw_label_of(self.raw))
        &&& self.sdi == sdi_of(self.raw)
        &&& self.data == data_of(self.raw)
        &&& self.ssm.code() == ssm_code_of(self.raw)
        &&& self.parity_bit == parity_bit_of(self.raw)
        &&& self.parity_valid == has_odd_parity(self.raw)
    }

    pub fn from_bytes_le(bytes: &[u8; 4]) -> (w: Self)
        ensures
            w.raw_bits() as int == le_value(bytes@),
            w.byte_order() == WordEndianness::Standard,
    {
        let raw = read_u32_le(bytes);
        Self::from_u32(raw, WordEndianness::Standard)
    }

    pub fn from_bytes_be(bytes: &[u8; 4]) -> (w: Self)
        ensures
            w.raw_bits() as int == be_value(bytes@),
            w.byte_order() == WordEndianness::Reversed,
    {
        let raw = read_u32_be(bytes);
        Self::from_u32(raw, WordEndianness::Reversed)
    }

    pub fn from_u32(raw: u32, endianness: WordEndianness) -> (w: Self)
        ensures
            w.raw_bits() == raw,
            w.byte_order() == endianness,
    {
        let raw_label = ((raw & LABEL_MASK) >> LABEL_SHIFT) as u8;
        assert((raw & 0xFF) >> 0 == raw & 0xFF) by (bit_vector);
        let label = reverse_bits_u8(raw_label);
        assert((raw & 0x300) >> 8 < 256) by (bit_vector);
        let sdi = ((raw & SDI_MASK) >> SDI_SHIFT) as u8;
        let data = (raw & DATA_MASK) >> DATA_SHIFT;
        assert((raw & 0x60000000) >> 29 < 4) by (bit_vector);
        let ssm_bits = ((raw & SSM_MASK) >> SSM_SHIFT) as u8;
        let ssm = SsmSign::from_bits(ssm_bits);
        let parity_bit = (raw & PARITY_MASK) != 0;
        let parity_valid = compute_odd_parity_xor_32(raw);
        ArincWord {
            raw,
            raw_label,
            label,
            sdi,
            data,
            ssm,
            parity_bit,
            parity_valid,
            endianness,
        }
    }

    pub fn raw(&self) -> (r: u32)
        ensures
            r == self.raw_bits(),
    {
        self.raw
    }

    /// The logical label: the transmitted label byte with its bits reversed.
    pub fn label(&self) -> (r: u8)
        ensures
            r == reversed_u8(raw_label_of(self.raw_bits())),
    {
        proof {
            use_type_invariant(self);
        }
        self.label
    }

    pub fn raw_label(&self) -> (r: u8)
        ensures
            r == raw_label_of(self.raw_bits()),
    {
        proof {
            use_type_invariant(self);
        }
        self.raw_label
    }

    /// The logical label as a number (labels are conventionally written in octal).
    pub fn label_octal(&self) -> (r: u16)
        ensures
            r == reversed_u8(raw_label_of(self.raw_bits())) as u16,
    {
        proof {
            use_type_invariant(self);
        }
        self.label as u16
    }

    /// The logical label as three octal digits.
    pub fn label_octal_str(&self) -> (s: String)
        ensures
            s@ == radix_digits(reversed_u8(raw_label_of(self.raw_bits())) as nat, 3, 8),
    {
        proof {
            use_type_invariant(self);
        }
        radix_string(self.label as u32, 3, 8)
    }

    pub fn sdi(&self) -> (r: u8)
        ensures
            r == sdi_of(self.raw_bits()),
    {
        proof {
            use_type_invariant(self);
        }
        self.sdi
    }

    pub fn data(&self) -> (r: u32)
        ensures
            r == data_of(self.raw_bits()),
    {
        proof {
            use_type_invariant(self);
        }
        self.data
    }

    /// The payload with the sign of the Sign/Status Matrix: negated for `Minus` only.
    pub fn data_signed(&self) -> (r: i32)
        ensures
            r as int == data_of(self.raw_bits()) as int * self.ssm_spec().sign_factor(),
    {
        proof {
            use_type_invariant(self);
            assert(self.data == (self.raw & 0x1FFFFC00) >> 10);
            let raw = self.raw;
            assert((raw & 0x1FFFFC00) >> 10 < 0x80000) by (bit_vector);
        }
        let sign: i32 = match self.ssm {
            SsmSign::Plus | SsmSign::No => 1,
            SsmSign::Minus => -1,
            SsmSign::Spare => 1,
        };
        (self.data as i32) * sign
    }

    /// The Sign/Status Matrix value of the word.
    pub closed spec fn ssm_spec(self) -> SsmSign {
        self.ssm
    }

    pub fn ssm(&self) -> (r: SsmSign)
        ensures
            r == self.ssm_spec(),
            r.code() == ssm_code_of(self.raw_bits()),
    {
        proof {
            use_type_invariant(self);
        }
        self.ssm
    }

    pub fn parity_bit(&self) -> (r: bool)
        ensures
            r == parity_bit_of(self.raw_bits()),
    {
        proof {
            use_type_invariant(self);
        }
        self.parity_bit
    }

    pub fn parity_valid(&self) -> (r: bool)
        ensures
            r == has_odd_parity(self.raw_bits()),
    {
        proof {
            use_type_invariant(self);
        }
        self.parity_valid
    }

    pub fn endianness(&self) -> (r: WordEndianness)
        ensures
            r == self.byte_order(),
    {
        self.endianness
    }

    /// The raw word as eight upper-case hex digits.
    pub fn to_hex_str(&self) -> (s: String)
        ensures
            s@ == radix_digits(self.raw_bits() as nat, 8, 16),
    {
        radix_string(self.raw, 8, 16)
    }

    /// The fields in binary: label (8), SDI (2), data (19), SSM (2) and
    /// parity (1), separated by underscores.
    pub fn to_binary_str(&self) -> (s: String)
        ensures
            s@ == radix_digits(reversed_u8(raw_label_of(self.raw_bits())) as nat, 8, 2) + "_"@
                + radix_digits(sdi_of(self.raw_bits()) as nat, 2, 2) + "_"@ + radix_digits(
                data_of(self.raw_bits()) as nat,
                19,
                2,
            ) + "_"@ + radix_digits(ssm_code_of(self.raw_bits()) as nat, 2, 2) + "_"@
                + radix_digits(
                (if parity_bit_of(self.raw_bits()) {
                    1nat
                } else {
                    0nat
                }),
                1,
                2,
            ),
    {
        proof {
            use_type_invariant(self);
        }
        let mut s = String::new();
        push_radix_digits(&mut s, self.label as u32, 8, 2);
        s.append("_");
        push_radix_digits(&mut s, self.sdi as u32, 2, 2);
        s.append("_");
        push_radix_digits(&mut s, self.data, 19, 2);
        s.append("_");
        let code = self.ssm.to_bits();
        push_radix_digits(&mut s, code as u32, 2, 2);
        s.append("_");
        let p: u32 = if self.parity_bit {
            1
        } else {
            0
        };
        push_radix_digits(&mut s, p, 1, 2);
        assert(s@ =~= radix_digits(self.label as nat, 8, 2) + "_"@ + radix_digits(
            self.sdi as nat,
            2,
            2,
        ) + "_"@ + radix_digits(self.data as nat, 19, 2) + "_"@ + radix_digits(
            self.ssm.code() as nat,
            2,
            2,
        ) + "_"@ + radix_digits(p as nat, 1, 2));
        s
    }

    pub fn validate_parity(&self) -> (r: bool)
        ensures
            r == has_odd_parity(self.raw_bits()),
    {
        proof {
            use_type_invariant(self);
        }
        self.parity_valid
    }

    pub fn compute_parity(&self) -> (r: bool)
        ensures
            r == has_odd_parity(self.raw_bits()),
    {
        compute_odd_parity_xor_32(self.raw)
    }
}

// ---------------------------------------------------------------------------
// Building words
// ---------------------------------------------------------------------------

/// Assembles a word from its transmitted label byte, SDI, payload and SSM
/// code, and sets the parity bit when the other bits hold an even number of
/// ones. Each field is masked to its width.
pub fn encode_word(raw_label: u8, sdi: u8, data: u32, ssm: u8) -> (r: u32)
    ensures
        raw_label_of(r) == raw_label,
        sdi_of(r) == sdi % 4,
        data_of(r) == data % 0x80000,
        ssm_code_of(r) == ssm % 4,
        ssm % 8 < 4 ==> has_odd_parity(r),
        ssm % 8 >= 4 ==> parity_bit_of(r),
{
    let mut raw: u32 = 0;
    raw |= (raw_label as u32) << LABEL_SHIFT;
    raw &= !SDI_MASK;
    raw |= (sdi as u32) << SDI_SHIFT;
    raw &= !DATA_MASK;
    raw |= (data << DATA_SHIFT) & DATA_MASK;
    raw &= !SSM_MASK;
    raw |= (ssm as u32) << SSM_SHIFT;
    let l = raw_label as u32;
    let s = sdi as u32;
    let m = ssm as u32;
    assert(raw & 0xFF == l && ((raw & 0x300) >> 8) == s % 4 && ((raw & 0x1FFFFC00) >> 10) == data
        % 0x80000 && ((raw & 0x60000000) >> 29) == m % 4 && (m & 4 == 0 ==> raw & 0x80000000 == 0)
        && (m & 4 != 0 ==> raw & 0x80000000 != 0)) by (bit_vector)
        requires
            l < 256,
            s < 256,
            m < 256,
            raw == ((((((0u32 | (l << 0u32)) & !0x300u32) | (s << 8u32)) & !0x1FFFFC00u32) | ((
            data << 10u32) & 0x1FFFFC00u32)) & !0x60000000u32) | (m << 29u32),
    ;
    assert((raw & 0xFF) as u8 == raw_label);
    assert(((raw & 0x300) >> 8) as u8 == sdi % 4);
    assert(((raw & 0x60000000) >> 29) as u8 == ssm % 4);
    assert((m & 4 == 0) == (m % 8 < 4)) by (bit_vector)
        requires
            m < 256,
    ;
    let odd = compute_odd_parity_xor_32(raw);
    let ghost before = raw;
    if !odd {
        raw |= PARITY_MASK;
    }
    assert(raw & 0xFF == before & 0xFF && raw & 0x300 == before & 0x300 && raw & 0x1FFFFC00
        == before & 0x1FFFFC00 && raw & 0x60000000 == before & 0x60000000) by (bit_vector)
        requires
            raw == before || raw == before | 0x80000000,
    ;
    proof {
        if ssm % 8 >= 4 {
            assert(raw & 0x80000000 != 0) by (bit_vector)
                requires
                    before & 0x80000000 != 0,
                    raw == before || raw == before | 0x80000000,
            ;
        } else {
            lemma_ones_below_same_low_bits(before, before, 31);
            assert(bit_of(before, 31) == 0) by {
                assert((before >> 31) & 1 == 0) by (bit_vector)
                    requires
                        before & 0x80000000 == 0,
                ;
            }
            assert(ones_below(before, 32) == ones_below(before, 31));
            let p: u32 = if ones_below(before, 31) % 2 == 1 {
                0u32
            } else {
                PARITY_MASK
            };
            assert(before | 0u32 == before) by (bit_vector);
            lemma_generated_parity_is_odd(before, p);
            assert(raw == before | p);
        }
    }
    raw
}

/// A word with odd parity is determined by its fields: two words with the
/// same label byte, SDI, payload and SSM code and odd parity are the same
/// word. With `encode_word`, re-encoding the fields of such a word gives the
/// word back.
pub proof fn lemma_fields_and_parity_determine_word(a: u32, b: u32)
    requires
        raw_label_of(a) == raw_label_of(b),
        sdi_of(a) == sdi_of(b),
        data_of(a) == data_of(b),
        ssm_code_of(a) == ssm_code_of(b),
        has_odd_parity(a),
        has_odd_parity(b),
    ensures
        a == b,
{
    assert((a & 0xFF) < 256 && (b & 0xFF) < 256) by (bit_vector);
    assert((a & 0xFF) == (b & 0xFF));
    assert(((a & 0x300) >> 8) < 4 && ((b & 0x300) >> 8) < 4) by (bit_vector);
    assert(((a & 0x60000000) >> 29) < 4 && ((b & 0x60000000) >> 29) < 4) by (bit_vector);
    assert((a & 0x300) >> 8 == (b & 0x300) >> 8);
    assert((a & 0x60000000) >> 29 == (b & 0x60000000) >> 29);
    assert(a & 0x7FFFFFFF == b & 0x7FFFFFFF) by (bit_vector)
        requires
            a & 0xFF == b & 0xFF,
            (a & 0x300) >> 8 == (b & 0x300) >> 8,
            (a & 0x1FFFFC00) >> 10 == (b & 0x1FFFFC00) >> 10,
            (a & 0x60000000) >> 29 == (b & 0x60000000) >> 29,
    ;
    assert forall|i: u32| i < 31 implies #[trigger] bit_of(a, i) == bit_of(b, i) by {
        assert((a >> i) & 1 == (b >> i) & 1) by (bit_vector)
            requires
                i < 31,
                a & 0x7FFFFFFF == b & 0x7FFFFFFF,
        ;
    }
    lemma_ones_below_same_low_bits(a, b, 31);
    lemma_bit_is_01(a, 31);
    lemma_bit_is_01(b, 31);
    assert(ones_below(a, 32) == ones_below(a, 31) + bit_of(a, 31) as nat);
    assert(ones_below(b, 32) == ones_below(b, 31) + bit_of(b, 31) as nat);
    assert(bit_of(a, 31) == bit_of(b, 31));
    assert(a == b) by (bit_vector)
        requires
            a & 0x7FFFFFFF == b & 0x7FFFFFFF,
            (a >> 31) & 1 == (b >> 31) & 1,
    ;
}

} // verus!
