use arinc429_sniffer::io::reader::{ArincDumpReader, DumpFormat, ReaderError};
use arinc429_sniffer::protocol::word::WordEndianness;
use arinc429_sniffer::timing::timestamp::PreciseClock;

/// The bytes a binary dump of `words` holds, least significant byte first.
fn binary_dump(words: &[u32]) -> Vec<u8> {
    words.iter().flat_map(|w| w.to_le_bytes()).collect()
}

#[test]
fn test_read_raw_binary_valid() {
    let bytes = binary_dump(&[0x12345678, 0xABCDEF01, 0x00000001]);

    let reader = ArincDumpReader::new("test.bin");
    let (words, stats) = reader.read_raw_binary(bytes.len(), &bytes).unwrap();

    assert_eq!(words.len(), 3);
    assert_eq!(words[0].raw(), 0x12345678);
    assert_eq!(words[1].raw(), 0xABCDEF01);
    assert_eq!(words[2].raw(), 0x00000001);
    assert_eq!(stats.processed_words, 3);
}

#[test]
fn test_invalid_file_size() {
    let bytes = [0u8, 1, 2];

    let reader = ArincDumpReader::new("bad.bin");
    let result = reader.read_raw_binary(bytes.len(), &bytes);
    assert!(matches!(result, Err(ReaderError::InvalidFileSize(3))));
}

#[test]
fn test_read_hex_text() {
    let content = "\
        # comment line\n\
        12345678\n\
        ABCDEF01\n\
        // another comment\n\
        00000001\n";

    let reader = ArincDumpReader::new("hex.txt").with_format(DumpFormat::HexText);
    assert!(reader.is_text());
    let (words, _, _) = reader.read_hex_text(content);

    assert_eq!(words.len(), 3);
    assert_eq!(words[0].raw(), 0x12345678);
    assert_eq!(words[1].raw(), 0xABCDEF01);
}

#[test]
fn test_parity_error_counting() {
    let bytes = binary_dump(&[0x00000001, 0x00000003, 0x00000007]);

    let reader = ArincDumpReader::new("parity.bin");
    let (_, stats) = reader.read_raw_binary(bytes.len(), &bytes).unwrap();
    assert!(stats.parity_errors > 0);
}

#[test]
fn raw_binary_counts_exactly_the_even_parity_words() {
    let reader = ArincDumpReader::new("mem");
    let bytes: Vec<u8> = [0x00000001u32, 0x00000003, 0x00000007]
        .iter()
        .flat_map(|w| w.to_le_bytes())
        .collect();
    let (words, stats) = reader.read_raw_binary(12, &bytes).unwrap();
    assert_eq!(words.len(), 3);
    assert_eq!(stats.parity_errors, 1);
    assert_eq!(stats.total_words, 3);
    assert_eq!(stats.file_size_bytes, 12);
    assert_eq!(stats.file_path, "mem");
}

#[test]
fn big_endian_and_pcap_orders() {
    let bytes = [0x12u8, 0x34, 0x56, 0x78];
    let be = ArincDumpReader::new("x").with_endianness(WordEndianness::Reversed);
    let (w, _) = be.read_raw_binary(4, &bytes).unwrap();
    assert_eq!(w[0].raw(), 0x12345678);
    assert_eq!(w[0].endianness(), WordEndianness::Reversed);

    let pcap_le = ArincDumpReader::new("x")
        .with_endianness(WordEndianness::Reversed)
        .with_format(DumpFormat::PcapLe);
    let (w, _) = pcap_le.read_raw_binary(4, &bytes).unwrap();
    assert_eq!(w[0].raw(), 0x78563412);

    let pcap_be = ArincDumpReader::new("x").with_format(DumpFormat::PcapBe);
    assert_eq!(pcap_be.binary_endianness(), WordEndianness::Reversed);
    assert!(!pcap_be.is_text());
    assert_eq!(pcap_be.format(), DumpFormat::PcapBe);
}

#[test]
fn short_read_reports_partial_group() {
    let reader = ArincDumpReader::new("x");
    let r = reader.read_raw_binary(8, &[1, 2, 3, 4, 5, 6]);
    assert!(matches!(r, Err(ReaderError::ShortRead { read: 2, expected: 4, word_idx: 1 })));
}

#[test]
fn hex_text_trims_unicode_space_and_warns() {
    let reader = ArincDumpReader::new("x").with_format(DumpFormat::HexText);
    let content = "\u{3000} 12345678\u{a0}\r\n\n  # note\nzz12 34\n1234567890\n  // c\nDEADBEEF";
    let (words, stats, warnings) = reader.read_hex_text(content);
    assert_eq!(words.len(), 2);
    assert_eq!(words[0].raw(), 0x12345678);
    assert_eq!(words[1].raw(), 0xDEADBEEF);
    assert_eq!(stats.parse_errors, 2);
    assert_eq!(stats.processed_words, 2);
    assert_eq!(warnings.len(), 2);
    assert_eq!(warnings[0].line_number, 4);
    assert_eq!(warnings[0].hex_digits, 4);
    assert_eq!(&content[warnings[0].start..warnings[0].end], "zz12 34");
    assert_eq!(warnings[1].line_number, 5);
    assert_eq!(warnings[1].hex_digits, 10);
}

#[test]
fn timed_read_spaces_words_evenly() {
    let reader = ArincDumpReader::new("x");
    let bytes = [0u8; 16];
    let (words, mut stats) = reader.read_raw_binary(16, &bytes).unwrap();
    stats.elapsed_ns = 8_000;
    let clock = PreciseClock::new();
    let (timed, out_stats) = reader.read_all_timed(Ok((words, stats)), &clock).unwrap();
    assert_eq!(out_stats.processed_words, 4);
    assert_eq!(timed.len(), 4);
    let t0 = timed[0].timestamp.as_micros();
    for (i, tw) in timed.iter().enumerate() {
        assert_eq!(tw.timestamp.as_micros(), t0 + 2 * i as u64);
        assert_eq!(tw.raw(), 0);
    }
    let failed = reader.read_all_timed(Err(ReaderError::InvalidFileSize(5)), &clock);
    assert!(matches!(failed, Err(ReaderError::InvalidFileSize(5))));
}
