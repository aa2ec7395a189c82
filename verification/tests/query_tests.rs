use rand::SeedableRng;
use arinc429_sniffer::decode::bcd::BcdDecodeError;
use arinc429_sniffer::io::dump::{binary_dump_bytes, generator_labels, hex_dump_text, synthetic_label};
use arinc429_sniffer::io::query::{dump_format_for_extension, parse_octal_label, select_labels};
use arinc429_sniffer::io::reader::{ArincDumpReader, DumpFormat};
use arinc429_sniffer::io::report::{bitwise_report, compact_line, pretty_line};
use arinc429_sniffer::protocol::dictionary::lookup_label;
use arinc429_sniffer::protocol::types::EquipmentId;
use arinc429_sniffer::protocol::word::{encode_word, ArincWord, WordEndianness};

#[test]
fn extension_picks_layout_case_blind() {
    assert_eq!(dump_format_for_extension("hex"), DumpFormat::HexText);
    assert_eq!(dump_format_for_extension("TXT"), DumpFormat::HexText);
    assert_eq!(dump_format_for_extension("Log"), DumpFormat::HexText);
    assert_eq!(dump_format_for_extension("pcap"), DumpFormat::PcapLe);
    assert_eq!(dump_format_for_extension("CAP"), DumpFormat::PcapLe);
    assert_eq!(dump_format_for_extension("bin"), DumpFormat::RawBinary);
    assert_eq!(dump_format_for_extension(""), DumpFormat::RawBinary);
    assert_eq!(dump_format_for_extension("hexx"), DumpFormat::RawBinary);
}

#[test]
fn octal_label_filters() {
    assert_eq!(parse_octal_label("001"), Some(1));
    assert_eq!(parse_octal_label("377"), Some(255));
    assert_eq!(parse_octal_label("+30"), Some(0o30));
    assert_eq!(parse_octal_label("177777"), Some(0xFFFF));
    assert_eq!(parse_octal_label("200000"), None);
    assert_eq!(parse_octal_label("8"), None);
    assert_eq!(parse_octal_label("-1"), None);
    assert_eq!(parse_octal_label("+"), None);
    assert_eq!(parse_octal_label(""), None);
    for s in ["0", "7", "12", "0777", "+5", "x", "99", "1777777"] {
        assert_eq!(parse_octal_label(s), u16::from_str_radix(s, 8).ok(), "{}", s);
    }
}

#[test]
fn select_keeps_listed_labels_in_order() {
    let words: Vec<ArincWord> = [0x80u32, 0x01, 0x80 | (5 << 10), 0x42]
        .iter()
        .map(|&r| ArincWord::from_u32(r, WordEndianness::Standard))
        .collect();
    let kept = select_labels(words, &vec![0o001, 0o102]);
    let raws: Vec<u32> = kept.iter().map(|w| w.raw()).collect();
    assert_eq!(raws, vec![0x80, 0x80 | (5 << 10), 0x42]);
}

#[test]
fn generator_labels_and_choice() {
    let labels = generator_labels();
    assert_eq!(labels.len(), 27);
    assert_eq!(labels[0], 0o001);
    assert_eq!(labels[26], 0o377);
    assert_eq!(synthetic_label(true, 26, 9), 0xFF);
    assert_eq!(synthetic_label(true, 1, 9), 0o002);
    assert_eq!(synthetic_label(false, 0, 9), 9);
}

#[test]
fn binary_dump_reads_back() {
    let words: Vec<u32> = vec![encode_word(1, 2, 1234, 0), 0xDEADBEEF, 0];
    let bytes = binary_dump_bytes(&words);
    assert_eq!(bytes.len(), 12);
    assert_eq!(&bytes[4..8], &[0xEF, 0xBE, 0xAD, 0xDE]);
    let reader = ArincDumpReader::new("gen.bin");
    let (read, stats) = reader.read_raw_binary(bytes.len(), &bytes).unwrap();
    let raws: Vec<u32> = read.iter().map(|w| w.raw()).collect();
    assert_eq!(raws, words);
    assert_eq!(stats.processed_words, 3);
}

#[test]
fn hex_dump_reads_back() {
    let words: Vec<u32> = vec![0x0000ABCD, 0xDEADBEEF];
    let text = hex_dump_text(&words, 2, Some(42));
    assert_eq!(
        text,
        "# Synthetic ARINC 429 test dump\n# 2 words, seed: Some(42)\n\
# Format: HEX (8 digits per line, little-endian)\n\n0000ABCD\nDEADBEEF\n"
    );
    let reader = ArincDumpReader::new("gen.hex").with_format(DumpFormat::HexText);
    let (read, stats, warnings) = reader.read_hex_text(&text);
    let raws: Vec<u32> = read.iter().map(|w| w.raw()).collect();
    assert_eq!(raws, words);
    assert!(warnings.is_empty());
    assert_eq!(stats.parse_errors, 0);
    assert!(hex_dump_text(&vec![], 0, None).contains("seed: None"));
}

#[test]
fn bitwise_report_lines() {
    // Label byte 0x80 (logical 0o001), SDI 2, data 0x12345, SSM 1.
    let raw = encode_word(0x80, 2, 0x12345, 1);
    let w = ArincWord::from_u32(raw, WordEndianness::Standard);
    let text = bitwise_report(&w, 7);
    let lines: Vec<&str> = text.lines().collect();
    assert_eq!(lines.len(), 6);
    assert_eq!(lines[0], format!("WORD #000007 = 0x{} = 0b{}", w.to_hex_str(), w.to_binary_str()));
    assert_eq!(lines[1], "  ├─ Label:  bits 1-8  = 0x01 (octal 001)");
    assert_eq!(lines[2], "  ├─ SDI:    bits 9-10 = 0b10 (2)");
    assert_eq!(lines[3], "  ├─ DATA:   bits 11-29 = 0x12345 (unsigned 74565)");
    assert_eq!(lines[4], "  ├─ SSM:    bits 30-31 = 0b01 (-)");
    assert_eq!(
        lines[5],
        format!("  └─ PARITY: bit 32     = {} (valid: true)", if w.parity_bit() { 1 } else { 0 })
    );
    assert!(!text.ends_with('\n'));
    assert!(bitwise_report(&w, 1234567).starts_with("WORD #1234567 "));
}

#[test]
fn compact_row_columns() {
    let raw = encode_word(0x80, 1, 0xABC, 0);
    let w = ArincWord::from_u32(raw, WordEndianness::Standard);
    let row = compact_line(12, &w, "LRALT", "200.0 ft");
    assert_eq!(row, format!("{:>6} | {:>3} | {:1} | {:>6} | {:>8X} | {:>2} | {:<10} | {}", 12, "001", 1, "+", 0xABC, "OK", "LRALT", "200.0 ft"));
    let bad = ArincWord::from_u32(raw ^ 0x8000_0000, WordEndianness::Standard);
    let row = compact_line(3, &bad, "A_VERY_LONG_NAME", "?");
    assert!(row.contains(" | PE | A_VERY_LONG_NAME | ?"));
}

#[test]
fn equipment_id_text() {
    assert_eq!(EquipmentId::new(0x2A).display_text(), "EQ-002A");
    assert_eq!(EquipmentId::new(0xBEEF).value(), 0xBEEF);
}

#[test]
fn word_description_line() {
    let raw = encode_word(0x80, 3, 0x1F, 2);
    let w = ArincWord::from_u32(raw, WordEndianness::Standard);
    assert_eq!(
        w.display_text(),
        format!(
            "LABEL=001 (0x01)  SDI=3  DATA=0x0001F  SSM=±  PARITY={} [✓]  RAW=0x{:08X}",
            if w.parity_bit() { "1" } else { "0" },
            raw
        )
    );
    let bad = ArincWord::from_u32(raw ^ 0x8000_0000, WordEndianness::Standard);
    assert!(bad.display_text().contains("[✗]"));
}

#[test]
fn bcd_error_messages() {
    let e = BcdDecodeError::InvalidDigit { position: 2, digit: 12, base: 10 };
    assert_eq!(e.message(), "Invalid digit 12 at position 2 (base 10)");
    let e = BcdDecodeError::TooManyDigits { requested: 9, max: 8 };
    assert_eq!(e.message(), "Requested 9 digits, max is 8");
}

#[test]
fn pretty_row_lists_label_result_and_extras() {
    let w = ArincWord::from_u32(0x8000_0000 | (400 << 10) | 0x80, WordEndianness::Standard);
    let def = lookup_label(0o001).unwrap();
    let text = pretty_line(7, &w, Some(&def), "▶ 200 ft", true, true, true);
    let expected = format!(
        "[     7] LBL=001 [BNR] RADIO_ALTITUDE {} SDI=0  SSM=+ ✓  P[1]  ▶ 200 ft\n         ↳ HEX: 0x80064080  DATA: 0x00190\n         ↳ BIN: {}\n         ↳ 💡 {}\n",
        def.equipment,
        w.to_binary_str(),
        def.description
    );
    assert_eq!(text, expected);

    let unknown = ArincWord::from_u32(0x7F, WordEndianness::Standard);
    assert_eq!(
        pretty_line(12, &unknown, None, "⊘ UNKNOWN LABEL", false, false, true),
        "[    12] LBL=376 UNKNOWN SDI=0  SSM=+ ✓  P[0]  ⊘ UNKNOWN LABEL\n"
    );
}

#[test]
fn synthetic_words_have_odd_parity_and_repeat_with_the_seed() {
    let mut a = rand::rngs::StdRng::seed_from_u64(42);
    let mut b = rand::rngs::StdRng::seed_from_u64(42);
    let wa = arinc429_sniffer::io::synthetic::synthetic_words(&mut a, 200);
    let wb = arinc429_sniffer::io::synthetic::synthetic_words(&mut b, 200);
    assert_eq!(wa.len(), 200);
    assert_eq!(wa, wb);
    for &raw in &wa {
        assert!(ArincWord::from_u32(raw, WordEndianness::Standard).parity_valid());
        assert!((raw >> 29) & 3 < 4);
    }
    let known = generator_labels();
    let favoured = wa.iter().filter(|&&r| known.iter().any(|&l| (l % 256) as u32 == (r & 0xFF))).count();
    assert!(favoured > 100);
}
