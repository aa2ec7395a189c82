use arinc429_sniffer::decode::bcd::{BcdDecodeError, BcdDecoder};
use arinc429_sniffer::decode::bnr::BnrDecoder;
use arinc429_sniffer::io::pipeline::{run_of_plans, DecodePlan, WordPipeline};
use arinc429_sniffer::io::stats::{top_labels_of, DecodeOutcome, ErrorKind, PipelineStats};
use arinc429_sniffer::protocol::dictionary::{FixedDecimal, LabelDefinition};
use arinc429_sniffer::protocol::types::{PayloadFormat, SsmSign};
use arinc429_sniffer::protocol::word::{ArincWord, WordEndianness, PAYLOAD_BITS};

fn make_word(raw: u32) -> ArincWord {
    ArincWord::from_u32(raw, WordEndianness::Standard)
}

/// One word taken through the library's plan, with the BNR and BCD
/// payloads scaled the way the command-line tool scales them.
struct Decoded {
    label_def: Option<LabelDefinition>,
    outcome: DecodeOutcome,
    value: Option<f64>,
}

fn fixed(d: FixedDecimal) -> f64 {
    d.mantissa as f64 / 10f64.powi(d.scale as i32)
}

fn decode(pipeline: &WordPipeline, word: &ArincWord) -> Option<Decoded> {
    let plan = pipeline.plan_word(word)?;
    Some(decode_plan(word, &plan))
}

fn decode_plan(word: &ArincWord, plan: &DecodePlan) -> Decoded {
    match plan {
        DecodePlan::UnknownLabel => Decoded {
            label_def: None,
            outcome: DecodeOutcome::Failure(ErrorKind::UnknownLabel),
            value: None,
        },
        DecodePlan::Bnr(def) => {
            let sign = if word.ssm() == SsmSign::Minus { -1.0 } else { 1.0 };
            let v = BnrDecoder::field_value(word.data(), PAYLOAD_BITS, true) as f64
                * fixed(def.resolution)
                * sign;
            if v < fixed(def.range_min) || v > fixed(def.range_max) {
                Decoded { label_def: Some(def.clone()), outcome: DecodeOutcome::Failure(ErrorKind::BnrOutOfRange), value: None }
            } else {
                Decoded { label_def: Some(def.clone()), outcome: DecodeOutcome::Success(Some(PayloadFormat::Bnr)), value: Some(v) }
            }
        }
        DecodePlan::Bcd(def) => match BcdDecoder::extract_digits(word.data(), 5, false) {
            Ok(v) => Decoded {
                label_def: Some(def.clone()),
                outcome: DecodeOutcome::Success(Some(PayloadFormat::Bcd)),
                value: Some(v as f64),
            },
            Err(BcdDecodeError::InvalidDigit { .. }) => Decoded {
                label_def: Some(def.clone()),
                outcome: DecodeOutcome::Failure(ErrorKind::BcdInvalidDigit),
                value: None,
            },
            Err(BcdDecodeError::TooManyDigits { .. }) => Decoded {
                label_def: Some(def.clone()),
                outcome: DecodeOutcome::Failure(ErrorKind::BcdTooManyDigits),
                value: None,
            },
        },
        DecodePlan::Decoded(def, reading) => {
            let f = def.format;
            Decoded { label_def: Some(def.clone()), outcome: DecodeOutcome::Success(Some(f)), value: Some(reading.value as f64) }
        }
        DecodePlan::FormatNotSupported(def) => Decoded {
            label_def: Some(def.clone()),
            outcome: DecodeOutcome::Failure(ErrorKind::FormatNotSupported),
            value: None,
        },
    }
}

fn process_all(pipeline: &WordPipeline, words: Vec<ArincWord>) -> (Vec<Decoded>, PipelineStats) {
    let plans = pipeline.plan_run(&words);
    let mut decoded = Vec::new();
    let mut scaled = Vec::new();
    for (w, plan) in words.iter().zip(plans.iter()) {
        match plan {
            Some(p) => {
                let d = decode_plan(w, p);
                scaled.push(d.outcome);
                decoded.push(d);
            }
            None => scaled.push(DecodeOutcome::SpareData),
        }
    }
    let run = run_of_plans(&words, &plans, &scaled);
    (decoded, PipelineStats::from_run(&run))
}

#[test]
fn test_unknown_label() {
    let pipeline = WordPipeline::new();
    let word = make_word(0o177);

    let plan = pipeline.plan_word(&word).unwrap();
    assert!(matches!(plan, DecodePlan::UnknownLabel));
}

#[test]
fn test_skip_parity() {
    let pipeline = WordPipeline::new().skip_parity_invalid(true);
    let bad_parity_word = make_word(0x00000003);
    assert!(pipeline.plan_word(&bad_parity_word).is_none());
}

#[test]
fn test_only_known_labels() {
    let pipeline = WordPipeline::new().only_known_labels(true);
    let unknown = make_word(0o177 | 0x80000000);
    assert!(pipeline.plan_word(&unknown).is_none());
}

#[test]
fn test_discrete_gear_decoding() {
    let pipeline = WordPipeline::new();

    let data = (1 << 0) | (1 << 3) | (1 << 6);
    let raw = (data << 10) | 0o102 | 0x80000000;
    let word = make_word(raw);

    match pipeline.plan_word(&word).unwrap() {
        DecodePlan::Decoded(def, reading) => {
            assert_eq!(def.label_octal, 0o102);
            let disp = reading.display;
            assert!(disp.contains("NOSE_GEAR_DOWN"));
            assert!(disp.contains("LEFT_GEAR_DOWN"));
        }
        other => panic!("unexpected plan {:?}", other),
    }
}

#[test]
fn test_known_bnr_label() {
    let pipeline = WordPipeline::new();

    let data = 400u32;
    let raw = (data << 10) | 0o001;
    let word = make_word(raw | 0x80000000);

    let decoded = decode(&pipeline, &word).unwrap();
    assert!(decoded.label_def.is_some());
    assert_eq!(decoded.label_def.unwrap().param_name, "RADIO_ALTITUDE");
    assert_eq!(decoded.outcome, DecodeOutcome::Success(Some(PayloadFormat::Bnr)));
    assert!(decoded.value.is_some());
}

#[test]
fn test_batch_processing_stats() {
    let pipeline = WordPipeline::new();
    let mut words: Vec<ArincWord> = Vec::new();

    for _ in 0..10 {
        words.push(make_word(0x80000001u32 | 0o001));
    }
    for _ in 0..5 {
        words.push(make_word(0x80000000u32 | 0o002));
    }
    for _ in 0..3 {
        words.push(make_word(0x80000000u32 | 0o177));
    }

    let (decoded, stats) = process_all(&pipeline, words);
    assert_eq!(decoded.len(), 18);
    assert_eq!(stats.total_words, 18);
    assert!(stats.decoded_successfully >= 15);
    assert_eq!(stats.unknown_labels, 3);
}

#[test]
fn plans_follow_the_label_format() {
    let pipeline = WordPipeline::new();
    // The transmitted label byte 0x80 is label 0o200: not in the dictionary.
    let w = make_word((400 << 10) | 0x80 | 0x80000000);
    assert!(matches!(pipeline.plan_word(&w).unwrap(), DecodePlan::UnknownLabel));
    // Label 0o002 is a BNR label.
    match pipeline.plan_word(&make_word(0o002)).unwrap() {
        DecodePlan::Bnr(def) => assert_eq!(def.param_name, "TRUE_AIRSPEED"),
        other => panic!("unexpected plan {:?}", other),
    }
    // Label 0o377 has the Unknown format.
    let sync = make_word(0xFF);
    assert!(matches!(pipeline.plan_word(&sync).unwrap(), DecodePlan::FormatNotSupported(_)));
    // Only known labels: an unknown byte is left out, a known one kept.
    let known_only = WordPipeline::new().only_known_labels(true);
    assert!(known_only.plan_word(&make_word(0x0000_0080)).is_none());
    assert!(known_only.plan_word(&make_word(0x0000_0001)).is_some());
}

#[test]
fn stats_count_outcomes_and_rank_labels() {
    let mut stats = PipelineStats::new();
    stats.total_words = 6;
    stats.record_outcome(0o001, DecodeOutcome::Success(Some(PayloadFormat::Bnr)));
    stats.record_outcome(0o001, DecodeOutcome::Success(Some(PayloadFormat::Bnr)));
    stats.record_outcome(0o030, DecodeOutcome::Success(Some(PayloadFormat::Bcd)));
    stats.record_outcome(0o176, DecodeOutcome::Failure(ErrorKind::UnknownLabel));
    stats.record_outcome(0o030, DecodeOutcome::Failure(ErrorKind::BcdInvalidDigit));
    stats.record_skipped();
    stats.rank_top_labels();

    assert_eq!(stats.recorded(), 6);
    assert_eq!(stats.decoded_successfully, 3);
    assert_eq!(stats.unknown_labels, 1);
    assert_eq!(stats.decode_errors, 1);
    assert_eq!(stats.skipped_parity, 1);
    assert_eq!(stats.top_labels, vec![(0o001, 2), (0o030, 2), (0o176, 1)]);

    let text = stats.summary("50.0", "16.7", "16.7");
    let expected = [
        "  ───── Pipeline Summary ─────",
        "  Total Words:     6",
        "  Decoded OK:      3 (50.0%)",
        "  Unknown Labels:  1 (16.7%)",
        "  Decode Errors:   1 (16.7%)",
        "  Parity Skipped:  1",
        "",
        "  Format Breakdown:",
        "             BNR : 2",
        "             BCD : 1",
        "",
        "  Top 15 Labels by Frequency:",
        "    LBL 001 (0x01) : 2",
        "    LBL 030 (0x18) : 2",
        "    LBL 176 (0x7E) : 1",
        "",
        "  Error Breakdown:",
        "            UnknownLabel : 1",
        "        BCD:InvalidDigit : 1",
    ]
    .map(|l| format!("{}\n", l))
    .concat();
    assert_eq!(text, expected);
}

#[test]
fn empty_summary_has_no_sections() {
    let stats = PipelineStats::new();
    let text = stats.summary("0.0", "0.0", "0.0");
    assert_eq!(
        text,
        "  ───── Pipeline Summary ─────\n  Total Words:     0\n  Decoded OK:      0 (0.0%)\n  Unknown Labels:  0 (0.0%)\n  Decode Errors:   0 (0.0%)\n  Parity Skipped:  0\n"
    );
    assert_eq!(PipelineStats::default().summary("0.0", "0.0", "0.0"), text);
}

#[test]
fn run_tally_counts_every_kind() {
    let run = vec![
        Some((1u16, DecodeOutcome::Success(Some(PayloadFormat::Bnr)))),
        None,
        Some((1u16, DecodeOutcome::Failure(ErrorKind::BnrOutOfRange))),
        Some((0o177u16, DecodeOutcome::Failure(ErrorKind::UnknownLabel))),
        Some((0o102u16, DecodeOutcome::Success(Some(PayloadFormat::Discrete)))),
        Some((2u16, DecodeOutcome::SpareData)),
        None,
    ];
    let stats = PipelineStats::from_run(&run);
    assert_eq!(stats.total_words, 7);
    assert_eq!(stats.recorded(), 7);
    assert_eq!(stats.skipped_parity, 2);
    assert_eq!(stats.decoded_successfully, 2);
    assert_eq!(stats.unknown_labels, 1);
    assert_eq!(stats.decode_errors, 1);
    assert_eq!(stats.spare_data, 1);
    assert_eq!(stats.label_counts[1], 2);
    assert_eq!(stats.top_labels, vec![(1, 2), (2, 1), (0o102, 1), (0o177, 1)]);
}

#[test]
fn top_labels_keeps_the_most_frequent() {
    let mut counts = vec![0usize; 256];
    counts[5] = 3;
    counts[9] = 7;
    counts[2] = 3;
    counts[200] = 1;
    assert_eq!(top_labels_of(&counts, 3), vec![(9, 7), (2, 3), (5, 3)]);
    assert_eq!(top_labels_of(&counts, 10).len(), 4);
    assert!(top_labels_of(&counts, 0).is_empty());
}
