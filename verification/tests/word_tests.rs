use arinc429_sniffer::protocol::types::SsmSign;
use arinc429_sniffer::protocol::word::{
    compute_odd_parity_xor_32, encode_word, generate_odd_parity_bit, reverse_bits_u8,
    ArincWord, WordEndianness, DATA_MASK, DATA_SHIFT, LABEL_SHIFT, SDI_SHIFT, SSM_SHIFT,
};

fn build_word_with_parity(logical_label: u8, sdi: u8, data: u32, ssm_bits: u8) -> u32 {
    let raw_label = reverse_bits_u8(logical_label);
    let mut raw: u32 = 0;
    raw |= (raw_label as u32) << LABEL_SHIFT;
    raw |= ((sdi & 0b11) as u32) << SDI_SHIFT;
    raw |= (data << DATA_SHIFT) & DATA_MASK;
    raw |= ((ssm_bits & 0b11) as u32) << SSM_SHIFT;
    let parity = generate_odd_parity_bit(raw);
    raw | parity
}

#[test]
fn test_reverse_bits_u8_identity() {
    assert_eq!(reverse_bits_u8(0x00), 0x00);
    assert_eq!(reverse_bits_u8(0xFF), 0xFF);
    assert_eq!(reverse_bits_u8(0xAA), 0x55);
    assert_eq!(reverse_bits_u8(0x55), 0xAA);
}

#[test]
fn test_reverse_bits_u8_standard() {
    assert_eq!(reverse_bits_u8(0b00000001), 0b10000000);
    assert_eq!(reverse_bits_u8(0b10000000), 0b00000001);
    assert_eq!(reverse_bits_u8(0b00000010), 0b01000000);
    assert_eq!(reverse_bits_u8(0b00000100), 0b00100000);
    assert_eq!(reverse_bits_u8(0b01010101), 0b10101010);
    assert_eq!(reverse_bits_u8(0b11000001), 0b10000011);
}

#[test]
fn test_generate_parity_even_data() {
    let raw = 0u32;
    let p = generate_odd_parity_bit(raw);
    assert_ne!(p, 0, "all-zero 31 bits should have parity=1 to make total odd");
    let full = raw | p;
    assert!(compute_odd_parity_xor_32(full), "full 32-bit should be odd parity");
}

#[test]
fn test_generate_parity_odd_data() {
    let raw = 1u32;
    let p = generate_odd_parity_bit(raw);
    assert_eq!(p, 0, "31-bit data with 1 one should have parity=0");
    let full = raw | p;
    assert!(compute_odd_parity_xor_32(full), "full 32-bit should be odd parity");
}

#[test]
fn test_xor_parity_32bit_coverage() {
    for expected in [true, false] {
        for bit in 0..32u32 {
            let mut raw = 1u32 << bit;
            if !expected {
                raw |= 1u32 << ((bit + 1) % 32);
            }
            let result = compute_odd_parity_xor_32(raw);
            assert_eq!(result, expected,
                "bit pattern 0x{:08X} should compute to {}", raw, expected);
        }
    }
}

#[test]
fn test_label_bit_reversal_roundtrip() {
    for logical in 0u16..=0o377u16 {
        let logical_u8 = logical as u8;
        let raw = reverse_bits_u8(logical_u8);
        let recovered = reverse_bits_u8(raw);
        assert_eq!(recovered, logical_u8,
            "Label 0o{:03o} failed roundtrip: raw=0x{:02X}", logical, raw);
    }
}

#[test]
fn test_basic_parsing() {
    let logical_label = 0o377u8;
    let sdi = 0b01u8;
    let data = 0b0000000000000000001u32;
    let ssm = 0b00u8;
    let raw = build_word_with_parity(logical_label, sdi, data, ssm);
    let word = ArincWord::from_u32(raw, WordEndianness::Standard);

    assert_eq!(word.label(), 0xFF);
    assert_eq!(word.label_octal(), 0o377);
    assert_eq!(word.label_octal_str(), "377");
    assert_eq!(word.sdi(), 0b01);
    assert_eq!(word.data(), 0b0000000000000000001);
    assert_eq!(word.ssm(), SsmSign::Plus);
    assert!(word.parity_valid(), "parity should be valid for built word");
}

#[test]
fn test_label_octal_conversion_with_reversal() {
    let cases = vec![
        (0o001u8, 0x80u8, "001"),
        (0o007u8, 0xE0u8, "007"),
        (0o010u8, 0x10u8, "010"),
        (0o377u8, 0xFFu8, "377"),
        (0o000u8, 0x00u8, "000"),
        (0o002u8, 0x40u8, "002"),
        (0o040u8, 0x04u8, "040"),
        (0o100u8, 0x02u8, "100"),
    ];

    for (logical_label, raw_label_byte, expected_str) in cases {
        assert_eq!(reverse_bits_u8(logical_label), raw_label_byte,
            "label 0o{:03o} reverse mismatch", logical_label);
        let raw = build_word_with_parity(logical_label, 0, 0, 0b00);
        let word = ArincWord::from_u32(raw, WordEndianness::Standard);
        assert_eq!(word.raw_label(), raw_label_byte, "raw label mismatch");
        assert_eq!(word.label(), logical_label, "logical label mismatch");
        assert_eq!(
            word.label_octal_str(),
            expected_str,
            "Label 0o{:03o} expected {} got {}",
            logical_label,
            expected_str,
            word.label_octal_str()
        );
    }
}

#[test]
fn test_ssm_variants_with_valid_parity() {
    let labels: Vec<(u8, SsmSign)> = vec![
        (0b00, SsmSign::Plus),
        (0b01, SsmSign::Minus),
        (0b10, SsmSign::No),
        (0b11, SsmSign::Spare),
    ];
    for (ssm_bits, expected) in labels {
        let raw = build_word_with_parity(0o001u8, 0, 0, ssm_bits);
        let w = ArincWord::from_u32(raw, WordEndianness::Standard);
        assert_eq!(w.ssm(), expected, "SSM mismatch for bits={:02b}", ssm_bits);
        assert!(w.parity_valid(), "parity should be valid for SSM={:02b}", ssm_bits);
    }
}

#[test]
fn test_odd_parity_known_vectors() {
    let cases = vec![
        (0x00000001u32, true,  "single bit 0 -> odd -> valid"),
        (0x00000003u32, false, "bits 0+1 set -> 2 ones -> invalid"),
        (0x80000000u32, true,  "parity bit alone -> 1 one -> valid odd"),
        (0x80000001u32, false, "parity+bit0 -> 2 ones -> even -> invalid"),
    ];
    for (raw, expected, desc) in cases {
        let word = ArincWord::from_u32(raw, WordEndianness::Standard);
        assert_eq!(word.validate_parity(), expected,
            "raw=0x{:08X} failed: {}", raw, desc);
    }
}

#[test]
fn test_manual_parity_valid_frame_with_even_ones() {
    let logical_label = 0o001u8;
    let raw_label = reverse_bits_u8(logical_label);
    let mut raw = 0u32;
    raw |= (raw_label as u32) << LABEL_SHIFT;
    let data_bits = 0b11u32;
    raw |= (data_bits << DATA_SHIFT) & DATA_MASK;
    let parity = generate_odd_parity_bit(raw);
    let full = raw | parity;
    let word = ArincWord::from_u32(full, WordEndianness::Standard);
    assert!(word.parity_valid(),
        "even data ones should still be valid when parity bit correct");
    assert_eq!(word.label(), logical_label);
    assert_eq!(word.data(), data_bits);
}

#[test]
fn test_data_signed_with_valid_parity() {
    let raw_plus = build_word_with_parity(0o000u8, 0, 0b1010, 0b00);
    let w_plus = ArincWord::from_u32(raw_plus, WordEndianness::Standard);
    assert!(w_plus.parity_valid());
    assert_eq!(w_plus.data_signed(), 10);

    let raw_minus = build_word_with_parity(0o000u8, 0, 0b1010, 0b01);
    let w_minus = ArincWord::from_u32(raw_minus, WordEndianness::Standard);
    assert!(w_minus.parity_valid());
    assert_eq!(w_minus.data_signed(), -10);
}

#[test]
fn test_from_bytes_with_label_reversal() {
    let logical_label = 0o001u8;
    let raw_label = reverse_bits_u8(logical_label);
    let sdi = 0b01u8;
    let mut raw = 0u32;
    raw |= (raw_label as u32) << LABEL_SHIFT;
    raw |= (sdi as u32) << SDI_SHIFT;
    let parity = generate_odd_parity_bit(raw);
    let full = raw | parity;

    let bytes_le: [u8; 4] = full.to_le_bytes();
    let word_le = ArincWord::from_bytes_le(&bytes_le);
    assert_eq!(word_le.label(), logical_label);
    assert_eq!(word_le.raw_label(), raw_label);
    assert_eq!(word_le.sdi(), sdi);
    assert!(word_le.parity_valid());

    let bytes_be: [u8; 4] = full.to_be_bytes();
    let word_be = ArincWord::from_bytes_be(&bytes_be);
    assert_eq!(word_be.raw(), full);
}

// --- further cases ---

#[test]
fn test_from_bytes_byte_order_values() {
    let w = ArincWord::from_bytes_le(&[0x78, 0x56, 0x34, 0x12]);
    assert_eq!(w.raw(), 0x12345678);
    assert_eq!(w.endianness(), WordEndianness::Standard);
    let w = ArincWord::from_bytes_be(&[0x12, 0x34, 0x56, 0x78]);
    assert_eq!(w.raw(), 0x12345678);
    assert_eq!(w.endianness(), WordEndianness::Reversed);
}

#[test]
fn test_hex_and_binary_strings() {
    let w = ArincWord::from_u32(0x0ABCDEF1, WordEndianness::Standard);
    assert_eq!(w.to_hex_str(), "0ABCDEF1");
    let raw = build_word_with_parity(0o001, 0b10, 5, 0b01);
    let w = ArincWord::from_u32(raw, WordEndianness::Standard);
    assert_eq!(w.to_binary_str(), "00000001_10_0000000000000000101_01_0");
}

#[test]
fn test_encode_word_roundtrip() {
    for &(label, sdi, data, ssm) in &[(0u8, 0u8, 0u32, 0u8), (0xFF, 3, 0x7FFFF, 3), (0x80, 1, 1234, 2)] {
        let raw = encode_word(label, sdi, data, ssm);
        let w = ArincWord::from_u32(raw, WordEndianness::Standard);
        assert_eq!(w.raw_label(), label);
        assert_eq!(w.sdi(), sdi);
        assert_eq!(w.data(), data);
        assert_eq!(w.ssm().to_bits(), ssm);
        assert!(w.parity_valid());
        assert_eq!(encode_word(w.raw_label(), w.sdi(), w.data(), w.ssm().to_bits()), raw);
    }
    // Fields are masked to their widths.
    let raw = encode_word(0x12, 7, 0xFFFFFFFF, 1);
    let w = ArincWord::from_u32(raw, WordEndianness::Standard);
    assert_eq!(w.sdi(), 3);
    assert_eq!(w.data(), 0x7FFFF);
}

#[test]
fn test_encode_word_wide_ssm_sets_the_top_bit() {
    // Bit 2 of an SSM code of 4 or more lands on the parity bit, which then
    // stays set whatever the other bits hold.
    for ssm in [4u8, 5, 6, 7, 0xFC] {
        let raw = encode_word(0, 0, 0, ssm);
        assert_eq!(raw & 0x8000_0000, 0x8000_0000);
        assert_eq!((raw >> 29) & 3, (ssm % 4) as u32);
    }
    assert_eq!(encode_word(0, 0, 0, 4), 0x8000_0000);
    assert_eq!(encode_word(1, 0, 0, 4), 0x8000_0001);
    // Bit 2 clear: odd parity as for the codes below 4.
    let raw = encode_word(1, 0, 0, 8);
    assert_eq!(raw, 0x0000_0001);
}

#[test]
fn test_generated_parity_law_cases() {
    for raw in [0u32, 1, 0x7FFFFFFF, 0x12345678 & 0x7FFFFFFF] {
        assert!(compute_odd_parity_xor_32(raw | generate_odd_parity_bit(raw)));
    }
}

#[test]
fn test_ssm_codes() {
    for b in 0u8..=255 {
        assert_eq!(SsmSign::from_bits(b).to_bits(), b % 4);
    }
    assert_eq!(SsmSign::No.as_str(), "±");
    assert_eq!(SsmSign::Spare.as_str(), "N/A");
}
