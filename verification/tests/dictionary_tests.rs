use arinc429_sniffer::io::query::{dictionary_format_counts, dictionary_listing};
use arinc429_sniffer::protocol::dictionary::{get_avionics_dictionary, lookup_label, FixedDecimal};
use arinc429_sniffer::protocol::types::PayloadFormat;

fn as_f64(d: FixedDecimal) -> f64 {
    d.mantissa as f64 / 10f64.powi(d.scale as i32)
}

#[test]
fn test_dictionary_lookup() {
    let entry = lookup_label(0o001);
    assert!(entry.is_some());
    let def = entry.unwrap();
    assert_eq!(def.param_name, "RADIO_ALTITUDE");
    assert_eq!(def.format, PayloadFormat::Bnr);
    assert_eq!(def.unit, "ft");
    assert_eq!(as_f64(def.resolution), 0.5);
}

#[test]
fn test_dictionary_missing_label() {
    let entry = lookup_label(0o177);
    assert!(entry.is_none());
}

#[test]
fn test_dictionary_size() {
    let dict = get_avionics_dictionary();
    assert!(dict.len() >= 40);
}

#[test]
fn test_bnr_labels_present() {
    let bnr_labels = [0o001, 0o002, 0o005, 0o011, 0o012, 0o013, 0o020, 0o021, 0o040, 0o042, 0o050];
    for lbl in bnr_labels.iter() {
        let entry = lookup_label(*lbl);
        assert!(entry.is_some(), "Missing BNR label {:03o}", lbl);
        assert_eq!(entry.unwrap().format, PayloadFormat::Bnr, "Label {:03o} should be BNR", lbl);
    }
}

#[test]
fn test_bcd_labels_present() {
    let bcd_labels = [0o030, 0o031, 0o032, 0o033, 0o034, 0o100];
    for lbl in bcd_labels.iter() {
        let entry = lookup_label(*lbl);
        assert!(entry.is_some(), "Missing BCD label {:03o}", lbl);
        assert_eq!(entry.unwrap().format, PayloadFormat::Bcd, "Label {:03o} should be BCD", lbl);
    }
}

#[test]
fn test_discrete_labels_present() {
    let disc_labels = [0o102, 0o103, 0o104, 0o105];
    for lbl in disc_labels.iter() {
        let entry = lookup_label(*lbl);
        assert!(entry.is_some(), "Missing Discrete label {:03o}", lbl);
        assert_eq!(entry.unwrap().format, PayloadFormat::Discrete, "Label {:03o} should be Discrete", lbl);
    }
}

#[test]
fn dictionary_map_agrees_with_lookup() {
    let dict = get_avionics_dictionary();
    for l in 0u16..256 {
        match (dict.get(&l), lookup_label(l)) {
            (Some(a), Some(b)) => {
                assert_eq!(a.param_name, b.param_name);
                assert_eq!(a.label_octal, l);
            }
            (None, None) => {}
            _ => panic!("label {:03o} disagrees", l),
        }
    }
    let entry = lookup_label(0o001).unwrap();
    assert_eq!(entry.equipment, "LRALT");
    assert_eq!(entry.label_name, "LBL001");
    assert_eq!(entry.range_min, FixedDecimal::new(-1000, 0));
    assert_eq!(entry.range_max, FixedDecimal::new(147000, 0));
}

#[test]
fn census_counts_every_definition_once() {
    let c = dictionary_format_counts();
    let dict = get_avionics_dictionary();
    assert_eq!(c.total, dict.len());
    let bnr = dict.values().filter(|d| d.format == PayloadFormat::Bnr).count();
    let bcd = dict.values().filter(|d| d.format == PayloadFormat::Bcd).count();
    let disc = dict.values().filter(|d| d.format == PayloadFormat::Discrete).count();
    let sys = dict
        .values()
        .filter(|d| d.format == PayloadFormat::Maintenance || d.format == PayloadFormat::Ack)
        .count();
    assert_eq!((c.bnr, c.bcd, c.discrete, c.system), (bnr, bcd, disc, sys));
    assert!(c.bnr >= 11);
}

#[test]
fn listing_is_sorted_and_filtered() {
    let all = dictionary_listing(None, None);
    assert_eq!(all.len(), get_avionics_dictionary().len());
    for pair in all.windows(2) {
        assert!(pair[0].label_octal < pair[1].label_octal);
    }

    let bcd = dictionary_listing(Some("BcD"), None);
    assert!(!bcd.is_empty());
    assert!(bcd.iter().all(|d| d.format == PayloadFormat::Bcd));

    let radio = dictionary_listing(None, Some("RADIO"));
    assert!(radio.iter().any(|d| d.param_name == "RADIO_ALTITUDE"));

    let by_octal = dictionary_listing(None, Some("001"));
    assert_eq!(by_octal[0].label_octal, 0o001);

    let none = dictionary_listing(Some("ack"), None);
    assert!(none.is_empty());

    let nothing = dictionary_listing(None, Some("no such parameter anywhere"));
    assert!(nothing.is_empty());
}
