use arinc429_sniffer::decode::bcd::{BcdDecodeError, BcdDecoder};
use arinc429_sniffer::decode::bnr::BnrDecoder;
use arinc429_sniffer::decode::discrete::{
    decode_anti_ice, decode_autopilot_modes, decode_discrete, decode_door_status, decode_gear_discrete,
    DiscreteBit, DiscreteWordDef,
};

#[test]
fn test_gear_down_and_locked() {
    let data = (1 << 0) | (1 << 2) | (1 << 3) | (1 << 5) | (1 << 6) | (1 << 8) | (1 << 15);
    let result = decode_gear_discrete(data);
    assert!(result.display.contains("NOSE_GEAR_DOWN"));
    assert!(result.display.contains("LEFT_GEAR_DOWN"));
    assert!(result.display.contains("RIGHT_GEAR_DOWN"));
    assert!(result.display.contains("LOCK"));
    assert!(result.display.contains("WHEEL_WEIGHT_OFF"));
}

#[test]
fn test_gear_up() {
    let data = (1 << 1) | (1 << 4) | (1 << 7) | (1 << 14);
    let result = decode_gear_discrete(data);
    assert!(result.display.contains("NOSE_GEAR_UP"));
    assert!(result.display.contains("WHEEL_WEIGHT_ON"));
}

#[test]
fn test_door_closed() {
    let data = (1 << 1) | (1 << 2) | (1 << 4) | (1 << 5);
    let result = decode_door_status(data);
    assert!(result.display.contains("L1_DOOR_CLOSED"));
    assert!(result.display.contains("L1_DOOR_LOCKED"));
    assert!(result.display.contains("R1_DOOR_CLOSED"));
}

#[test]
fn test_anti_ice_all_on() {
    let data = (1 << 0) | (1 << 1) | (1 << 2) | (1 << 13);
    let result = decode_anti_ice(data);
    assert!(result.display.contains("WING_L_ENG1_AI_ON"));
    assert!(result.display.contains("ICE_DETECTED"));
}

#[test]
fn test_no_bits() {
    let def = DiscreteWordDef::new("TEST", vec![DiscreteBit::new(0, "TEST_BIT")]);
    let result = decode_discrete(0, &def);
    assert!(result.display.contains("NO BITS"));
}

#[test]
fn test_ap_modes_complex() {
    let data = (1 << 0) | (1 << 5) | (1 << 8) | (1 << 11);
    let result = decode_autopilot_modes(data);
    assert!(result.display.contains("AP1_ENGAGED"));
    assert!(result.display.contains("HDG_MODE"));
    assert!(result.display.contains("ALT_HOLD"));
    assert!(result.display.contains("VNAV_MODE"));
}

#[test]
fn discrete_text_is_exact() {
    let def = DiscreteWordDef::new(
        "PANEL",
        vec![DiscreteBit::new(0, "A"), DiscreteBit::new(3, "B"), DiscreteBit::new(4, "C").active_low()],
    );
    let r = decode_discrete(0b1001, &def);
    assert_eq!(r.display, "PANEL: [A | B | C]");
    assert_eq!(r.value, 0b1001);
    assert_eq!(r.unit, "bitmask");
    let r = decode_discrete(0b10000, &def);
    assert_eq!(r.display, "PANEL: NO BITS");
}

#[test]
fn bnr_field_two_complement() {
    assert_eq!(BnrDecoder::field_value(400, 19, true), 400);
    assert_eq!(BnrDecoder::field_value((1 << 19) - 1, 19, true), -1);
    assert_eq!(BnrDecoder::field_value(1 << 18, 19, true), -(1 << 18));
    assert_eq!(BnrDecoder::field_value(1 << 18, 19, false), 1 << 18);
    assert_eq!(BnrDecoder::field_value(0xFFFF_FFFF, 32, true), -1);
    assert_eq!(BnrDecoder::field_value(0xFFFF_FFFF, 32, false), 0xFFFF_FFFF);
    assert_eq!(BnrDecoder::field_value(0b111, 1, true), -1);
}

#[test]
fn bcd_digits_decimal_and_octal() {
    assert_eq!(BcdDecoder::extract_digits(0x11800, 5, false), Ok(11800));
    assert_eq!(BcdDecoder::extract_digits(0x7700, 4, true), Ok(0o7700));
    assert_eq!(
        BcdDecoder::extract_digits(0x1A0, 3, false),
        Err(BcdDecodeError::InvalidDigit { position: 1, digit: 10, base: 10 })
    );
    assert_eq!(
        BcdDecoder::extract_digits(0x18, 2, true),
        Err(BcdDecodeError::InvalidDigit { position: 1, digit: 8, base: 8 })
    );
}
