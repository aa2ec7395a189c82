use vstd::prelude::*;
use std::collections::HashMap;

use crate::protocol::types::PayloadFormat;

verus! {

broadcast use vstd::std_specs::hash::group_hash_axioms;

/// An exact decimal number: `mantissa / 10^scale`.
#[derive(Debug, Clone, Copy, PartialEq, Eq, Structural)]
pub struct FixedDecimal {
    pub mantissa: i64,
    pub scale: u32,
}

impl FixedDecimal {
    pub fn new(mantissa: i64, scale: u32) -> (d: Self)
        ensures
            d.mantissa == mantissa,
            d.scale == scale,
    {
        FixedDecimal { mantissa, scale }
    }
}

/// The definition of one label: its names, equipment, payload format, unit,
/// resolution and valid range.
#[derive(Debug)]
pub struct LabelDefinition {
    pub label_octal: u16,
    pub label_name: String,
    pub param_name: String,
    pub equipment: String,
    pub format: PayloadFormat,
    pub unit: String,
    pub resolution: FixedDecimal,
    pub range_min: FixedDecimal,
    pub range_max: FixedDecimal,
    pub description: String,
}

impl Clone for LabelDefinition {
    fn clone(&self) -> (d: Self)
        ensures
            d == *self,
    {
        LabelDefinition {
            label_octal: self.label_octal,
            label_name: self.label_name.clone(),
            param_name: self.param_name.clone(),
            equipment: self.equipment.clone(),
            format: self.format,
            unit: self.unit.clone(),
            resolution: self.resolution,
            range_min: self.range_min,
            range_max: self.range_max,
            description: self.description.clone(),
        }
    }
}

impl LabelDefinition {
    pub fn new(
        label_octal: u16,
        label_name: &str,
        param_name: &str,
        equipment: &str,
        format: PayloadFormat,
        unit: &str,
        resolution: FixedDecimal,
        range_min: FixedDecimal,
        range_max: FixedDecimal,
        description: &str,
    ) -> (d: Self)
        ensures
            d.label_octal == label_octal,
            d.label_name@ == label_name@,
            d.param_name@ == param_name@,
            d.equipment@ == equipment@,
            d.format == format,
            d.unit@ == unit@,
            d.resolution == resolution,
            d.range_min == range_min,
            d.range_max == range_max,
            d.description@ == description@,
    {
        LabelDefinition {
            label_octal,
            label_name: String::from_str(label_name),
            param_name: String::from_str(param_name),
            equipment: String::from_str(equipment),
            format,
            unit: String::from_str(unit),
            resolution,
            range_min,
            range_max,
            description: String::from_str(description),
        }
    }
}

/// The payload format of each label of the dictionary; `None` for labels
/// it does not define.
pub open spec fn label_format(label: u16) -> Option<PayloadFormat> {
    match label {
        0o001 => Some(PayloadFormat::Bnr),
        0o002 => Some(PayloadFormat::Bnr),
        0o003 => Some(PayloadFormat::Bnr),
        0o004 => Some(PayloadFormat::Bnr),
        0o005 => Some(PayloadFormat::Bnr),
        0o010 => Some(PayloadFormat::Bnr),
        0o011 => Some(PayloadFormat::Bnr),
        0o012 => Some(PayloadFormat::Bnr),
        0o013 => Some(PayloadFormat::Bnr),
        0o014 => Some(PayloadFormat::Bnr),
        0o015 => Some(PayloadFormat::Bnr),
        0o016 => Some(PayloadFormat::Bnr),
        0o017 => Some(PayloadFormat::Bnr),
        0o020 => Some(PayloadFormat::Bnr),
        0o021 => Some(PayloadFormat::Bnr),
        0o022 => Some(PayloadFormat::Bnr),
        0o023 => Some(PayloadFormat::Bnr),
        0o024 => Some(PayloadFormat::Bnr),
        0o025 => Some(PayloadFormat::Bnr),
        0o026 => Some(PayloadFormat::Bnr),
        0o030 => Some(PayloadFormat::Bcd),
        0o031 => Some(PayloadFormat::Bcd),
        0o032 => Some(PayloadFormat::Bcd),
        0o033 => Some(PayloadFormat::Bcd),
        0o034 => Some(PayloadFormat::Bcd),
        0o040 => Some(PayloadFormat::Bnr),
        0o041 => Some(PayloadFormat::Bnr),
        0o042 => Some(PayloadFormat::Bnr),
        0o043 => Some(PayloadFormat::Bnr),
        0o044 => Some(PayloadFormat::Bnr),
        0o045 => Some(PayloadFormat::Bnr),
        0o050 => Some(PayloadFormat::Bnr),
        0o051 => Some(PayloadFormat::Bnr),
        0o052 => Some(PayloadFormat::Bnr),
        0o060 => Some(PayloadFormat::Bnr),
        0o061 => Some(PayloadFormat::Bnr),
        0o062 => Some(PayloadFormat::Bnr),
        0o070 => Some(PayloadFormat::Bnr),
        0o071 => Some(PayloadFormat::Bnr),
        0o072 => Some(PayloadFormat::Bnr),
        0o073 => Some(PayloadFormat::Bnr),
        0o100 => Some(PayloadFormat::Bcd),
        0o101 => Some(PayloadFormat::Bcd),
        0o102 => Some(PayloadFormat::Discrete),
        0o103 => Some(PayloadFormat::Discrete),
        0o104 => Some(PayloadFormat::Discrete),
        0o105 => Some(PayloadFormat::Discrete),
        0o110 => Some(PayloadFormat::Maintenance),
        0o111 => Some(PayloadFormat::Ack),
        0o377 => Some(PayloadFormat::Unknown),
        _ => None,
    }
}

/// The parameter name of each label of the dictionary.
pub open spec fn label_param_name(label: u16) -> Seq<char> {
    match label {
        0o001 => "RADIO_ALTITUDE"@,
        0o002 => "TRUE_AIRSPEED"@,
        0o003 => "INDICATED_AIRSPEED"@,
        0o004 => "MACH_NUMBER"@,
        0o005 => "BAROMETRIC_ALTITUDE"@,
        0o010 => "VERTICAL_SPEED"@,
        0o011 => "PITCH_ATTITUDE"@,
        0o012 => "ROLL_ATTITUDE"@,
        0o013 => "TRUE_HEADING"@,
        0o014 => "MAGNETIC_HEADING"@,
        0o015 => "YAW_RATE"@,
        0o016 => "LATERAL_ACCEL"@,
        0o017 => "NORMAL_ACCEL"@,
        0o020 => "LATITUDE"@,
        0o021 => "LONGITUDE"@,
        0o022 => "GROUND_SPEED"@,
        0o023 => "GROUND_TRACK"@,
        0o024 => "DRIFT_ANGLE"@,
        0o025 => "WIND_DIRECTION"@,
        0o026 => "WIND_SPEED"@,
        0o030 => "VHF_NAV_FREQ"@,
        0o031 => "ADF_FREQUENCY"@,
        0o032 => "DME_FREQUENCY"@,
        0o033 => "XPDR_CODE"@,
        0o034 => "NAV_COURSE"@,
        0o040 => "ENG_N1"@,
        0o041 => "ENG_N2"@,
        0o042 => "ENG_EGT"@,
        0o043 => "ENG_FUEL_FLOW"@,
        0o044 => "OIL_PRESSURE"@,
        0o045 => "OIL_TEMPERATURE"@,
        0o050 => "FUEL_QTY_TOTAL"@,
        0o051 => "FUEL_QTY_LEFT"@,
        0o052 => "FUEL_QTY_RIGHT"@,
        0o060 => "HYD_PRESS_SYS1"@,
        0o061 => "HYD_PRESS_SYS2"@,
        0o062 => "HYD_QUANTITY"@,
        0o070 => "APU_GEN_FREQ"@,
        0o071 => "APU_GEN_VOLT"@,
        0o072 => "CABIN_ALT"@,
        0o073 => "CABIN_DIFF_PRESS"@,
        0o100 => "FLAP_POSITION"@,
        0o101 => "SLAT_POSITION"@,
        0o102 => "GEAR_DISCRETE"@,
        0o103 => "DOOR_STATUS"@,
        0o104 => "ANTI_ICE_STATUS"@,
        0o105 => "AUTOPILOT_MODE"@,
        0o110 => "MAINT_WORD"@,
        0o111 => "EQUIP_ID_ACK"@,
        0o377 => "NULL_WORD"@,
        _ => Seq::empty(),
    }
}

/// The unit of each label of the dictionary.
pub open spec fn label_unit(label: u16) -> Seq<char> {
    match label {
        0o001 => "ft"@,
        0o002 => "kt"@,
        0o003 => "kt"@,
        0o004 => "Mach"@,
        0o005 => "ft"@,
        0o010 => "ft/min"@,
        0o011 => "deg"@,
        0o012 => "deg"@,
        0o013 => "deg"@,
        0o014 => "deg"@,
        0o015 => "deg/s"@,
        0o016 => "g"@,
        0o017 => "g"@,
        0o020 => "deg"@,
        0o021 => "deg"@,
        0o022 => "kt"@,
        0o023 => "deg"@,
        0o024 => "deg"@,
        0o025 => "deg"@,
        0o026 => "kt"@,
        0o030 => "MHz"@,
        0o031 => "kHz"@,
        0o032 => "MHz"@,
        0o033 => "octal"@,
        0o034 => "deg"@,
        0o040 => "%"@,
        0o041 => "%"@,
        0o042 => "degC"@,
        0o043 => "lb/hr"@,
        0o044 => "psi"@,
        0o045 => "degC"@,
        0o050 => "kg"@,
        0o051 => "kg"@,
        0o052 => "kg"@,
        0o060 => "psi"@,
        0o061 => "psi"@,
        0o062 => "L"@,
        0o070 => "Hz"@,
        0o071 => "V"@,
        0o072 => "ft"@,
        0o073 => "psi"@,
        0o100 => "deg"@,
        0o101 => "deg"@,
        0o102 => "state"@,
        0o103 => "bitmask"@,
        0o104 => "bitmask"@,
        0o105 => "enum"@,
        0o110 => "code"@,
        0o111 => "id"@,
        0o377 => "N/A"@,
        _ => Seq::empty(),
    }
}

/// The resolution of each label of the dictionary.
pub open spec fn label_resolution(label: u16) -> FixedDecimal {
    match label {
        0o001 => FixedDecimal { mantissa: 5, scale: 1 },
        0o002 => FixedDecimal { mantissa: 5, scale: 1 },
        0o003 => FixedDecimal { mantissa: 25, scale: 2 },
        0o004 => FixedDecimal { mantissa: 1, scale: 3 },
        0o005 => FixedDecimal { mantissa: 1, scale: 0 },
        0o010 => FixedDecimal { mantissa: 4, scale: 0 },
        0o011 => FixedDecimal { mantissa: 390625, scale: 8 },
        0o012 => FixedDecimal { mantissa: 390625, scale: 8 },
        0o013 => FixedDecimal { mantissa: 390625, scale: 8 },
        0o014 => FixedDecimal { mantissa: 390625, scale: 8 },
        0o015 => FixedDecimal { mantissa: 390625, scale: 8 },
        0o016 => FixedDecimal { mantissa: 9765625, scale: 10 },
        0o017 => FixedDecimal { mantissa: 9765625, scale: 10 },
        0o020 => FixedDecimal { mantissa: 596, scale: 9 },
        0o021 => FixedDecimal { mantissa: 596, scale: 9 },
        0o022 => FixedDecimal { mantissa: 25, scale: 2 },
        0o023 => FixedDecimal { mantissa: 390625, scale: 8 },
        0o024 => FixedDecimal { mantissa: 390625, scale: 8 },
        0o025 => FixedDecimal { mantissa: 3515625, scale: 7 },
        0o026 => FixedDecimal { mantissa: 5, scale: 1 },
        0o030 => FixedDecimal { mantissa: 5, scale: 3 },
        0o031 => FixedDecimal { mantissa: 5, scale: 1 },
        0o032 => FixedDecimal { mantissa: 5, scale: 2 },
        0o033 => FixedDecimal { mantissa: 1, scale: 0 },
        0o034 => FixedDecimal { mantissa: 1, scale: 0 },
        0o040 => FixedDecimal { mantissa: 15625, scale: 6 },
        0o041 => FixedDecimal { mantissa: 15625, scale: 6 },
        0o042 => FixedDecimal { mantissa: 25, scale: 2 },
        0o043 => FixedDecimal { mantissa: 1, scale: 0 },
        0o044 => FixedDecimal { mantissa: 25, scale: 2 },
        0o045 => FixedDecimal { mantissa: 25, scale: 2 },
        0o050 => FixedDecimal { mantissa: 1, scale: 1 },
        0o051 => FixedDecimal { mantissa: 1, scale: 1 },
        0o052 => FixedDecimal { mantissa: 1, scale: 1 },
        0o060 => FixedDecimal { mantissa: 5, scale: 1 },
        0o061 => FixedDecimal { mantissa: 5, scale: 1 },
        0o062 => FixedDecimal { mantissa: 1, scale: 1 },
        0o070 => FixedDecimal { mantissa: 1, scale: 1 },
        0o071 => FixedDecimal { mantissa: 1, scale: 1 },
        0o072 => FixedDecimal { mantissa: 1, scale: 0 },
        0o073 => FixedDecimal { mantissa: 390625, scale: 8 },
        0o100 => FixedDecimal { mantissa: 1, scale: 0 },
        0o101 => FixedDecimal { mantissa: 1, scale: 0 },
        0o102 => FixedDecimal { mantissa: 1, scale: 0 },
        0o103 => FixedDecimal { mantissa: 1, scale: 0 },
        0o104 => FixedDecimal { mantissa: 1, scale: 0 },
        0o105 => FixedDecimal { mantissa: 1, scale: 0 },
        0o110 => FixedDecimal { mantissa: 1, scale: 0 },
        0o111 => FixedDecimal { mantissa: 1, scale: 0 },
        0o377 => FixedDecimal { mantissa: 1, scale: 0 },
        _ => FixedDecimal { mantissa: 0, scale: 0 },
    }
}

/// The short name of each label of the dictionary.
pub open spec fn label_name_text(label: u16) -> Seq<char> {
    match label {
        0o001 => "LBL001"@,
        0o002 => "LBL002"@,
        0o003 => "LBL003"@,
        0o004 => "LBL004"@,
        0o005 => "LBL005"@,
        0o010 => "LBL010"@,
        0o011 => "LBL011"@,
        0o012 => "LBL012"@,
        0o013 => "LBL013"@,
        0o014 => "LBL014"@,
        0o015 => "LBL015"@,
        0o016 => "LBL016"@,
        0o017 => "LBL017"@,
        0o020 => "LBL020"@,
        0o021 => "LBL021"@,
        0o022 => "LBL022"@,
        0o023 => "LBL023"@,
        0o024 => "LBL024"@,
        0o025 => "LBL025"@,
        0o026 => "LBL026"@,
        0o030 => "LBL030"@,
        0o031 => "LBL031"@,
        0o032 => "LBL032"@,
        0o033 => "LBL033"@,
        0o034 => "LBL034"@,
        0o040 => "LBL040"@,
        0o041 => "LBL041"@,
        0o042 => "LBL042"@,
        0o043 => "LBL043"@,
        0o044 => "LBL044"@,
        0o045 => "LBL045"@,
        0o050 => "LBL050"@,
        0o051 => "LBL051"@,
        0o052 => "LBL052"@,
        0o060 => "LBL060"@,
        0o061 => "LBL061"@,
        0o062 => "LBL062"@,
        0o070 => "LBL070"@,
        0o071 => "LBL071"@,
        0o072 => "LBL072"@,
        0o073 => "LBL073"@,
        0o100 => "LBL100"@,
        0o101 => "LBL101"@,
        0o102 => "LBL102"@,
        0o103 => "LBL103"@,
        0o104 => "LBL104"@,
        0o105 => "LBL105"@,
        0o110 => "LBL110"@,
        0o111 => "LBL111"@,
        0o377 => "LBL377"@,
        _ => Seq::empty(),
    }
}

/// The equipment that sends each label of the dictionary.
pub open spec fn label_equipment(label: u16) -> Seq<char> {
    match label {
        0o001 => "LRALT"@,
        0o002 => "ADIRU"@,
        0o003 => "ADIRU"@,
        0o004 => "ADIRU"@,
        0o005 => "ADIRU"@,
        0o010 => "ADIRU"@,
        0o011 => "IRU"@,
        0o012 => "IRU"@,
        0o013 => "IRU"@,
        0o014 => "IRU"@,
        0o015 => "IRU"@,
        0o016 => "IRU"@,
        0o017 => "IRU"@,
        0o020 => "GPS/IRU"@,
        0o021 => "GPS/IRU"@,
        0o022 => "GPS/IRU"@,
        0o023 => "GPS/IRU"@,
        0o024 => "IRU"@,
        0o025 => "ADC"@,
        0o026 => "ADC"@,
        0o030 => "VHFNAV"@,
        0o031 => "ADF"@,
        0o032 => "DME"@,
        0o033 => "TRANSPONDER"@,
        0o034 => "NAV"@,
        0o040 => "EEC"@,
        0o041 => "EEC"@,
        0o042 => "EEC"@,
        0o043 => "EEC"@,
        0o044 => "EEC"@,
        0o045 => "EEC"@,
        0o050 => "FQMS"@,
        0o051 => "FQMS"@,
        0o052 => "FQMS"@,
        0o060 => "HYD"@,
        0o061 => "HYD"@,
        0o062 => "HYD"@,
        0o070 => "APU"@,
        0o071 => "APU"@,
        0o072 => "PCS"@,
        0o073 => "PCS"@,
        0o100 => "FCC"@,
        0o101 => "FCC"@,
        0o102 => "LGCIU"@,
        0o103 => "DSCU"@,
        0o104 => "AI"@,
        0o105 => "FCU"@,
        0o110 => "CMC"@,
        0o111 => "SYS"@,
        0o377 => "SYS"@,
        _ => Seq::empty(),
    }
}

/// The smallest valid value of each label of the dictionary.
pub open spec fn label_range_min(label: u16) -> FixedDecimal {
    match label {
        0o001 => FixedDecimal { mantissa: -1000i64, scale: 0 },
        0o002 => FixedDecimal { mantissa: 0, scale: 0 },
        0o003 => FixedDecimal { mantissa: 0, scale: 0 },
        0o004 => FixedDecimal { mantissa: 0, scale: 0 },
        0o005 => FixedDecimal { mantissa: -1500i64, scale: 0 },
        0o010 => FixedDecimal { mantissa: -8000i64, scale: 0 },
        0o011 => FixedDecimal { mantissa: -90i64, scale: 0 },
        0o012 => FixedDecimal { mantissa: -180i64, scale: 0 },
        0o013 => FixedDecimal { mantissa: 0, scale: 0 },
        0o014 => FixedDecimal { mantissa: 0, scale: 0 },
        0o015 => FixedDecimal { mantissa: -30i64, scale: 0 },
        0o016 => FixedDecimal { mantissa: -2i64, scale: 0 },
        0o017 => FixedDecimal { mantissa: -4i64, scale: 0 },
        0o020 => FixedDecimal { mantissa: -90i64, scale: 0 },
        0o021 => FixedDecimal { mantissa: -180i64, scale: 0 },
        0o022 => FixedDecimal { mantissa: 0, scale: 0 },
        0o023 => FixedDecimal { mantissa: 0, scale: 0 },
        0o024 => FixedDecimal { mantissa: -30i64, scale: 0 },
        0o025 => FixedDecimal { mantissa: 0, scale: 0 },
        0o026 => FixedDecimal { mantissa: 0, scale: 0 },
        0o030 => FixedDecimal { mantissa: 108, scale: 0 },
        0o031 => FixedDecimal { mantissa: 190, scale: 0 },
        0o032 => FixedDecimal { mantissa: 960, scale: 0 },
        0o033 => FixedDecimal { mantissa: 0, scale: 0 },
        0o034 => FixedDecimal { mantissa: 0, scale: 0 },
        0o040 => FixedDecimal { mantissa: 0, scale: 0 },
        0o041 => FixedDecimal { mantissa: 0, scale: 0 },
        0o042 => FixedDecimal { mantissa: -200i64, scale: 0 },
        0o043 => FixedDecimal { mantissa: 0, scale: 0 },
        0o044 => FixedDecimal { mantissa: 0, scale: 0 },
        0o045 => FixedDecimal { mantissa: -50i64, scale: 0 },
        0o050 => FixedDecimal { mantissa: 0, scale: 0 },
        0o051 => FixedDecimal { mantissa: 0, scale: 0 },
        0o052 => FixedDecimal { mantissa: 0, scale: 0 },
        0o060 => FixedDecimal { mantissa: 0, scale: 0 },
        0o061 => FixedDecimal { mantissa: 0, scale: 0 },
        0o062 => FixedDecimal { mantissa: 0, scale: 0 },
        0o070 => FixedDecimal { mantissa: 350, scale: 0 },
        0o071 => FixedDecimal { mantissa: 0, scale: 0 },
        0o072 => FixedDecimal { mantissa: -1500i64, scale: 0 },
        0o073 => FixedDecimal { mantissa: 0, scale: 0 },
        0o100 => FixedDecimal { mantissa: 0, scale: 0 },
        0o101 => FixedDecimal { mantissa: 0, scale: 0 },
        0o102 => FixedDecimal { mantissa: 0, scale: 0 },
        0o103 => FixedDecimal { mantissa: 0, scale: 0 },
        0o104 => FixedDecimal { mantissa: 0, scale: 0 },
        0o105 => FixedDecimal { mantissa: 0, scale: 0 },
        0o110 => FixedDecimal { mantissa: 0, scale: 0 },
        0o111 => FixedDecimal { mantissa: 0, scale: 0 },
        0o377 => FixedDecimal { mantissa: 0, scale: 0 },
        _ => FixedDecimal { mantissa: 0, scale: 0 },
    }
}

/// The largest valid value of each label of the dictionary.
pub open spec fn label_range_max(label: u16) -> FixedDecimal {
    match label {
        0o001 => FixedDecimal { mantissa: 147000, scale: 0 },
        0o002 => FixedDecimal { mantissa: 2000, scale: 0 },
        0o003 => FixedDecimal { mantissa: 1000, scale: 0 },
        0o004 => FixedDecimal { mantissa: 5, scale: 0 },
        0o005 => FixedDecimal { mantissa: 50000, scale: 0 },
        0o010 => FixedDecimal { mantissa: 8000, scale: 0 },
        0o011 => FixedDecimal { mantissa: 90, scale: 0 },
        0o012 => FixedDecimal { mantissa: 180, scale: 0 },
        0o013 => FixedDecimal { mantissa: 360, scale: 0 },
        0o014 => FixedDecimal { mantissa: 360, scale: 0 },
        0o015 => FixedDecimal { mantissa: 30, scale: 0 },
        0o016 => FixedDecimal { mantissa: 2, scale: 0 },
        0o017 => FixedDecimal { mantissa: 4, scale: 0 },
        0o020 => FixedDecimal { mantissa: 90, scale: 0 },
        0o021 => FixedDecimal { mantissa: 180, scale: 0 },
        0o022 => FixedDecimal { mantissa: 2000, scale: 0 },
        0o023 => FixedDecimal { mantissa: 360, scale: 0 },
        0o024 => FixedDecimal { mantissa: 30, scale: 0 },
        0o025 => FixedDecimal { mantissa: 360, scale: 0 },
        0o026 => FixedDecimal { mantissa: 300, scale: 0 },
        0o030 => FixedDecimal { mantissa: 136975, scale: 3 },
        0o031 => FixedDecimal { mantissa: 1800, scale: 0 },
        0o032 => FixedDecimal { mantissa: 1215, scale: 0 },
        0o033 => FixedDecimal { mantissa: 7777, scale: 0 },
        0o034 => FixedDecimal { mantissa: 359, scale: 0 },
        0o040 => FixedDecimal { mantissa: 150, scale: 0 },
        0o041 => FixedDecimal { mantissa: 150, scale: 0 },
        0o042 => FixedDecimal { mantissa: 2000, scale: 0 },
        0o043 => FixedDecimal { mantissa: 20000, scale: 0 },
        0o044 => FixedDecimal { mantissa: 400, scale: 0 },
        0o045 => FixedDecimal { mantissa: 300, scale: 0 },
        0o050 => FixedDecimal { mantissa: 100000, scale: 0 },
        0o051 => FixedDecimal { mantissa: 50000, scale: 0 },
        0o052 => FixedDecimal { mantissa: 50000, scale: 0 },
        0o060 => FixedDecimal { mantissa: 5000, scale: 0 },
        0o061 => FixedDecimal { mantissa: 5000, scale: 0 },
        0o062 => FixedDecimal { mantissa: 200, scale: 0 },
        0o070 => FixedDecimal { mantissa: 450, scale: 0 },
        0o071 => FixedDecimal { mantissa: 150, scale: 0 },
        0o072 => FixedDecimal { mantissa: 45000, scale: 0 },
        0o073 => FixedDecimal { mantissa: 15, scale: 0 },
        0o100 => FixedDecimal { mantissa: 45, scale: 0 },
        0o101 => FixedDecimal { mantissa: 25, scale: 0 },
        0o102 => FixedDecimal { mantissa: 7, scale: 0 },
        0o103 => FixedDecimal { mantissa: 524287, scale: 0 },
        0o104 => FixedDecimal { mantissa: 65535, scale: 0 },
        0o105 => FixedDecimal { mantissa: 255, scale: 0 },
        0o110 => FixedDecimal { mantissa: 524287, scale: 0 },
        0o111 => FixedDecimal { mantissa: 65535, scale: 0 },
        0o377 => FixedDecimal { mantissa: 0, scale: 0 },
        _ => FixedDecimal { mantissa: 0, scale: 0 },
    }
}

/// The description of each label of the dictionary.
pub open spec fn label_description(label: u16) -> Seq<char> {
    match label {
        0o001 => "Radar Altitude - CW Pulse Radar Altimeter Measurement"@,
        0o002 => "True Airspeed - Air Data Inertial Reference Unit"@,
        0o003 => "Indicated Airspeed (IAS)"@,
        0o004 => "Mach Number"@,
        0o005 => "Barometric Corrected Altitude (Pressure Altitude)"@,
        0o010 => "Vertical Speed / Rate of Climb"@,
        0o011 => "Pitch Attitude (Theta Angle) - Inertial Reference"@,
        0o012 => "Roll Attitude (Phi Angle) - Inertial Reference"@,
        0o013 => "True Heading - Inertial Reference"@,
        0o014 => "Magnetic Heading - Slaved to Magnetic Compass"@,
        0o015 => "Yaw Rate - Inertial Angular Rate Sensor"@,
        0o016 => "Lateral Acceleration - Body Axis"@,
        0o017 => "Normal (Vertical) Acceleration - Body Axis"@,
        0o020 => "Geodetic Latitude - WGS84"@,
        0o021 => "Geodetic Longitude - WGS84"@,
        0o022 => "Ground Speed - Inertial / GPS Derived"@,
        0o023 => "Ground Track Angle - Inertial / GPS"@,
        0o024 => "Drift Angle (Track - Heading)"@,
        0o025 => "Wind Direction - True Reference"@,
        0o026 => "Wind Speed - Computed from TAS & GS"@,
        0o030 => "VHF NAV/COM Frequency - BCD Encoded"@,
        0o031 => "Automatic Direction Finder Frequency"@,
        0o032 => "Distance Measuring Equipment Frequency"@,
        0o033 => "ATC Transponder Mode A Code (4-digit Octal)"@,
        0o034 => "Selected Navigation Course (VOR/Loc)"@,
        0o040 => "Engine N1 Fan Speed (% RPM)"@,
        0o041 => "Engine N2 Core Speed (% RPM)"@,
        0o042 => "Engine Exhaust Gas Temperature"@,
        0o043 => "Engine Fuel Flow Rate"@,
        0o044 => "Engine Oil Pressure"@,
        0o045 => "Engine Oil Temperature"@,
        0o050 => "Total Fuel Quantity On Board"@,
        0o051 => "Left Wing Tank Fuel Quantity"@,
        0o052 => "Right Wing Tank Fuel Quantity"@,
        0o060 => "Hydraulic System 1 Pressure"@,
        0o061 => "Hydraulic System 2 Pressure"@,
        0o062 => "Hydraulic Fluid Quantity"@,
        0o070 => "APU Generator Output Frequency"@,
        0o071 => "APU Generator Output Voltage (Phase-Neutral)"@,
        0o072 => "Cabin Altitude (Pressurization)"@,
        0o073 => "Cabin Differential Pressure"@,
        0o100 => "Flap Lever / Surface Position"@,
        0o101 => "Slat Position Indication"@,
        0o102 => "Landing Gear Discrete Word: UP/DOWN/LOCK"@,
        0o103 => "Door Open/Closed/Locked Status Bitmask"@,
        0o104 => "Anti-Ice System ON/OFF Status"@,
        0o105 => "Autopilot Active Modes Bitmask"@,
        0o110 => "Central Maintenance Computer Fault Code"@,
        0o111 => "Equipment Identification Acknowledge"@,
        0o377 => "Null / Sync Word - Bus Idle Filler"@,
        _ => Seq::empty(),
    }
}

/// `d` is the dictionary's definition of `label`, field by field.
pub open spec fn matches_dictionary(d: LabelDefinition, label: u16) -> bool {
    &&& d.label_octal == label
    &&& d.label_name@ == label_name_text(label)
    &&& d.param_name@ == label_param_name(label)
    &&& d.equipment@ == label_equipment(label)
    &&& Some(d.format) == label_format(label)
    &&& d.unit@ == label_unit(label)
    &&& d.resolution == label_resolution(label)
    &&& d.range_min == label_range_min(label)
    &&& d.range_max == label_range_max(label)
    &&& d.description@ == label_description(label)
}

fn entry_001() -> (d: LabelDefinition)
    ensures
        matches_dictionary(d, 0o001),
{
    LabelDefinition::new(
        0o001, "LBL001", "RADIO_ALTITUDE", "LRALT",
        PayloadFormat::Bnr, "ft",
        FixedDecimal::new(5, 1), FixedDecimal::new(-1000, 0), FixedDecimal::new(147000, 0),
        "Radar Altitude - CW Pulse Radar Altimeter Measurement",
    )
}
fn entry_002() -> (d: LabelDefinition)
    ensures
        matches_dictionary(d, 0o002),
{
    LabelDefinition::new(
        0o002, "LBL002", "TRUE_AIRSPEED", "ADIRU",
        PayloadFormat::Bnr, "kt",
        FixedDecimal::new(5, 1), FixedDecimal::new(0, 0), FixedDecimal::new(2000, 0),
        "True Airspeed - Air Data Inertial Reference Unit",
    )
}
fn entry_003() -> (d: LabelDefinition)
    ensures
        matches_dictionary(d, 0o003),
{
    LabelDefinition::new(
        0o003, "LBL003", "INDICATED_AIRSPEED", "ADIRU",
        PayloadFormat::Bnr, "kt",
        FixedDecimal::new(25, 2), FixedDecimal::new(0, 0), FixedDecimal::new(1000, 0),
        "Indicated Airspeed (IAS)",
    )
}
fn entry_004() -> (d: LabelDefinition)
    ensures
        matches_dictionary(d, 0o004),
{
    LabelDefinition::new(
        0o004, "LBL004", "MACH_NUMBER", "ADIRU",
        PayloadFormat::Bnr, "Mach",
        FixedDecimal::new(1, 3), FixedDecimal::new(0, 0), FixedDecimal::new(5, 0),
        "Mach Number",
    )
}
fn entry_005() -> (d: LabelDefinition)
    ensures
        matches_dictionary(d, 0o005),
{
    LabelDefinition::new(
        0o005, "LBL005", "BAROMETRIC_ALTITUDE", "ADIRU",
        PayloadFormat::Bnr, "ft",
        FixedDecimal::new(1, 0), FixedDecimal::new(-1500, 0), FixedDecimal::new(50000, 0),
        "Barometric Corrected Altitude (Pressure Altitude)",
    )
}
fn entry_010() -> (d: LabelDefinition)
    ensures
        matches_dictionary(d, 0o010),
{
    LabelDefinition::new(
        0o010, "LBL010", "VERTICAL_SPEED", "ADIRU",
        PayloadFormat::Bnr, "ft/min",
        FixedDecimal::new(4, 0), FixedDecimal::new(-8000, 0), FixedDecimal::new(8000, 0),
        "Vertical Speed / Rate of Climb",
    )
}
fn entry_011() -> (d: LabelDefinition)
    ensures
        matches_dictionary(d, 0o011),
{
    LabelDefinition::new(
        0o011, "LBL011", "PITCH_ATTITUDE", "IRU",
        PayloadFormat::Bnr, "deg",
        FixedDecimal::new(390625, 8), FixedDecimal::new(-90, 0), FixedDecimal::new(90, 0),
        "Pitch Attitude (Theta Angle) - Inertial Reference",
    )
}
fn entry_012() -> (d: LabelDefinition)
    ensures
        matches_dictionary(d, 0o012),
{
    LabelDefinition::new(
        0o012, "LBL012", "ROLL_ATTITUDE", "IRU",
        PayloadFormat::Bnr, "deg",
        FixedDecimal::new(390625, 8), FixedDecimal::new(-180, 0), FixedDecimal::new(180, 0),
        "Roll Attitude (Phi Angle) - Inertial Reference",
    )
}
fn entry_013() -> (d: LabelDefinition)
    ensures
        matches_dictionary(d, 0o013),
{
    LabelDefinition::new(
        0o013, "LBL013", "TRUE_HEADING", "IRU",
        PayloadFormat::Bnr, "deg",
        FixedDecimal::new(390625, 8), FixedDecimal::new(0, 0), FixedDecimal::new(360, 0),
        "True Heading - Inertial Reference",
    )
}
fn entry_014() -> (d: LabelDefinition)
    ensures
        matches_dictionary(d, 0o014),
{
    LabelDefinition::new(
        0o014, "LBL014", "MAGNETIC_HEADING", "IRU",
        PayloadFormat::Bnr, "deg",
        FixedDecimal::new(390625, 8), FixedDecimal::new(0, 0), FixedDecimal::new(360, 0),
        "Magnetic Heading - Slaved to Magnetic Compass",
    )
}
fn entry_015() -> (d: LabelDefinition)
    ensures
        matches_dictionary(d, 0o015),
{
    LabelDefinition::new(
        0o015, "LBL015", "YAW_RATE", "IRU",
        PayloadFormat::Bnr, "deg/s",
        FixedDecimal::new(390625, 8), FixedDecimal::new(-30, 0), FixedDecimal::new(30, 0),
        "Yaw Rate - Inertial Angular Rate Sensor",
    )
}
fn entry_016() -> (d: LabelDefinition)
    ensures
        matches_dictionary(d, 0o016),
{
    LabelDefinition::new(
        0o016, "LBL016", "LATERAL_ACCEL", "IRU",
        PayloadFormat::Bnr, "g",
        FixedDecimal::new(9765625, 10), FixedDecimal::new(-2, 0), FixedDecimal::new(2, 0),
        "Lateral Acceleration - Body Axis",
    )
}
fn entry_017() -> (d: LabelDefinition)
    ensures
        matches_dictionary(d, 0o017),
{
    LabelDefinition::new(
        0o017, "LBL017", "NORMAL_ACCEL", "IRU",
        PayloadFormat::Bnr, "g",
        FixedDecimal::new(9765625, 10), FixedDecimal::new(-4, 0), FixedDecimal::new(4, 0),
        "Normal (Vertical) Acceleration - Body Axis",
    )
}
fn entry_020() -> (d: LabelDefinition)
    ensures
        matches_dictionary(d, 0o020),
{
    LabelDefinition::new(
        0o020, "LBL020", "LATITUDE", "GPS/IRU",
        PayloadFormat::Bnr, "deg",
        FixedDecimal::new(596, 9), FixedDecimal::new(-90, 0), FixedDecimal::new(90, 0),
        "Geodetic Latitude - WGS84",
    )
}
fn entry_021() -> (d: LabelDefinition)
    ensures
        matches_dictionary(d, 0o021),
{
    LabelDefinition::new(
        0o021, "LBL021", "LONGITUDE", "GPS/IRU",
        PayloadFormat::Bnr, "deg",
        FixedDecimal::new(596, 9), FixedDecimal::new(-180, 0), FixedDecimal::new(180, 0),
        "Geodetic Longitude - WGS84",
    )
}
fn entry_022() -> (d: LabelDefinition)
    ensures
        matches_dictionary(d, 0o022),
{
    LabelDefinition::new(
        0o022, "LBL022", "GROUND_SPEED", "GPS/IRU",
        PayloadFormat::Bnr, "kt",
        FixedDecimal::new(25, 2), FixedDecimal::new(0, 0), FixedDecimal::new(2000, 0),
        "Ground Speed - Inertial / GPS Derived",
    )
}
fn entry_023() -> (d: LabelDefinition)
    ensures
        matches_dictionary(d, 0o023),
{
    LabelDefinition::new(
        0o023, "LBL023", "GROUND_TRACK", "GPS/IRU",
        PayloadFormat::Bnr, "deg",
        FixedDecimal::new(390625, 8), FixedDecimal::new(0, 0), FixedDecimal::new(360, 0),
        "Ground Track Angle - Inertial / GPS",
    )
}
fn entry_024() -> (d: LabelDefinition)
    ensures
        matches_dictionary(d, 0o024),
{
    LabelDefinition::new(
        0o024, "LBL024", "DRIFT_ANGLE", "IRU",
        PayloadFormat::Bnr, "deg",
        FixedDecimal::new(390625, 8), FixedDecimal::new(-30, 0), FixedDecimal::new(30, 0),
        "Drift Angle (Track - Heading)",
    )
}
fn entry_025() -> (d: LabelDefinition)
    ensures
        matches_dictionary(d, 0o025),
{
    LabelDefinition::new(
        0o025, "LBL025", "WIND_DIRECTION", "ADC",
        PayloadFormat::Bnr, "deg",
        FixedDecimal::new(3515625, 7), FixedDecimal::new(0, 0), FixedDecimal::new(360, 0),
        "Wind Direction - True Reference",
    )
}
fn entry_026() -> (d: LabelDefinition)
    ensures
        matches_dictionary(d, 0o026),
{
    LabelDefinition::new(
        0o026, "LBL026", "WIND_SPEED", "ADC",
        PayloadFormat::Bnr, "kt",
        FixedDecimal::new(5, 1), FixedDecimal::new(0, 0), FixedDecimal::new(300, 0),
        "Wind Speed - Computed from TAS & GS",
    )
}
fn entry_030() -> (d: LabelDefinition)
    ensures
        matches_dictionary(d, 0o030),
{
    LabelDefinition::new(
        0o030, "LBL030", "VHF_NAV_FREQ", "VHFNAV",
        PayloadFormat::Bcd, "MHz",
        FixedDecimal::new(5, 3), FixedDecimal::new(108, 0), FixedDecimal::new(136975, 3),
        "VHF NAV/COM Frequency - BCD Encoded",
    )
}
fn entry_031() -> (d: LabelDefinition)
    ensures
        matches_dictionary(d, 0o031),
{
    LabelDefinition::new(
        0o031, "LBL031", "ADF_FREQUENCY", "ADF",
        PayloadFormat::Bcd, "kHz",
        FixedDecimal::new(5, 1), FixedDecimal::new(190, 0), FixedDecimal::new(1800, 0),
        "Automatic Direction Finder Frequency",
    )
}
fn entry_032() -> (d: LabelDefinition)
    ensures
        matches_dictionary(d, 0o032),
{
    LabelDefinition::new(
        0o032, "LBL032", "DME_FREQUENCY", "DME",
        PayloadFormat::Bcd, "MHz",
        FixedDecimal::new(5, 2), FixedDecimal::new(960, 0), FixedDecimal::new(1215, 0),
        "Distance Measuring Equipment Frequency",
    )
}
fn entry_033() -> (d: LabelDefinition)
    ensures
        matches_dictionary(d, 0o033),
{
    LabelDefinition::new(
        0o033, "LBL033", "XPDR_CODE", "TRANSPONDER",
        PayloadFormat::Bcd, "octal",
        FixedDecimal::new(1, 0), FixedDecimal::new(0, 0), FixedDecimal::new(7777, 0),
        "ATC Transponder Mode A Code (4-digit Octal)",
    )
}
fn entry_034() -> (d: LabelDefinition)
    ensures
        matches_dictionary(d, 0o034),
{
    LabelDefinition::new(
        0o034, "LBL034", "NAV_COURSE", "NAV",
        PayloadFormat::Bcd, "deg",
        FixedDecimal::new(1, 0), FixedDecimal::new(0, 0), FixedDecimal::new(359, 0),
        "Selected Navigation Course (VOR/Loc)",
    )
}
fn entry_040() -> (d: LabelDefinition)
    ensures
        matches_dictionary(d, 0o040),
{
    LabelDefinition::new(
        0o040, "LBL040", "ENG_N1", "EEC",
        PayloadFormat::Bnr, "%",
        FixedDecimal::new(15625, 6), FixedDecimal::new(0, 0), FixedDecimal::new(150, 0),
        "Engine N1 Fan Speed (% RPM)",
    )
}
fn entry_041() -> (d: LabelDefinition)
    ensures
        matches_dictionary(d, 0o041),
{
    LabelDefinition::new(
        0o041, "LBL041", "ENG_N2", "EEC",
        PayloadFormat::Bnr, "%",
        FixedDecimal::new(15625, 6), FixedDecimal::new(0, 0), FixedDecimal::new(150, 0),
        "Engine N2 Core Speed (% RPM)",
    )
}
fn entry_042() -> (d: LabelDefinition)
    ensures
        matches_dictionary(d, 0o042),
{
    LabelDefinition::new(
        0o042, "LBL042", "ENG_EGT", "EEC",
        PayloadFormat::Bnr, "degC",
        FixedDecimal::new(25, 2), FixedDecimal::new(-200, 0), FixedDecimal::new(2000, 0),
        "Engine Exhaust Gas Temperature",
    )
}
fn entry_043() -> (d: LabelDefinition)
    ensures
        matches_dictionary(d, 0o043),
{
    LabelDefinition::new(
        0o043, "LBL043", "ENG_FUEL_FLOW", "EEC",
        PayloadFormat::Bnr, "lb/hr",
        FixedDecimal::new(1, 0), FixedDecimal::new(0, 0), FixedDecimal::new(20000, 0),
        "Engine Fuel Flow Rate",
    )
}
fn entry_044() -> (d: LabelDefinition)
    ensures
        matches_dictionary(d, 0o044),
{
    LabelDefinition::new(
        0o044, "LBL044", "OIL_PRESSURE", "EEC",
        PayloadFormat::Bnr, "psi",
        FixedDecimal::new(25, 2), FixedDecimal::new(0, 0), FixedDecimal::new(400, 0),
        "Engine Oil Pressure",
    )
}
fn entry_045() -> (d: LabelDefinition)
    ensures
        matches_dictionary(d, 0o045),
{
    LabelDefinition::new(
        0o045, "LBL045", "OIL_TEMPERATURE", "EEC",
        PayloadFormat::Bnr, "degC",
        FixedDecimal::new(25, 2), FixedDecimal::new(-50, 0), FixedDecimal::new(300, 0),
        "Engine Oil Temperature",
    )
}
fn entry_050() -> (d: LabelDefinition)
    ensures
        matches_dictionary(d, 0o050),
{
    LabelDefinition::new(
        0o050, "LBL050", "FUEL_QTY_TOTAL", "FQMS",
        PayloadFormat::Bnr, "kg",
        FixedDecimal::new(1, 1), FixedDecimal::new(0, 0), FixedDecimal::new(100000, 0),
        "Total Fuel Quantity On Board",
    )
}
fn entry_051() -> (d: LabelDefinition)
    ensures
        matches_dictionary(d, 0o051),
{
    LabelDefinition::new(
        0o051, "LBL051", "FUEL_QTY_LEFT", "FQMS",
        PayloadFormat::Bnr, "kg",
        FixedDecimal::new(1, 1), FixedDecimal::new(0, 0), FixedDecimal::new(50000, 0),
        "Left Wing Tank Fuel Quantity",
    )
}
fn entry_052() -> (d: LabelDefinition)
    ensures
        matches_dictionary(d, 0o052),
{
    LabelDefinition::new(
        0o052, "LBL052", "FUEL_QTY_RIGHT", "FQMS",
        PayloadFormat::Bnr, "kg",
        FixedDecimal::new(1, 1), FixedDecimal::new(0, 0), FixedDecimal::new(50000, 0),
        "Right Wing Tank Fuel Quantity",
    )
}
fn entry_060() -> (d: LabelDefinition)
    ensures
        matches_dictionary(d, 0o060),
{
    LabelDefinition::new(
        0o060, "LBL060", "HYD_PRESS_SYS1", "HYD",
        PayloadFormat::Bnr, "psi",
        FixedDecimal::new(5, 1), FixedDecimal::new(0, 0), FixedDecimal::new(5000, 0),
        "Hydraulic System 1 Pressure",
    )
}
fn entry_061() -> (d: LabelDefinition)
    ensures
        matches_dictionary(d, 0o061),
{
    LabelDefinition::new(
        0o061, "LBL061", "HYD_PRESS_SYS2", "HYD",
        PayloadFormat::Bnr, "psi",
        FixedDecimal::new(5, 1), FixedDecimal::new(0, 0), FixedDecimal::new(5000, 0),
        "Hydraulic System 2 Pressure",
    )
}
fn entry_062() -> (d: LabelDefinition)
    ensures
        matches_dictionary(d, 0o062),
{
    LabelDefinition::new(
        0o062, "LBL062", "HYD_QUANTITY", "HYD",
        PayloadFormat::Bnr, "L",
        FixedDecimal::new(1, 1), FixedDecimal::new(0, 0), FixedDecimal::new(200, 0),
        "Hydraulic Fluid Quantity",
    )
}
fn entry_070() -> (d: LabelDefinition)
    ensures
        matches_dictionary(d, 0o070),
{
    LabelDefinition::new(
        0o070, "LBL070", "APU_GEN_FREQ", "APU",
        PayloadFormat::Bnr, "Hz",
        FixedDecimal::new(1, 1), FixedDecimal::new(350, 0), FixedDecimal::new(450, 0),
        "APU Generator Output Frequency",
    )
}
fn entry_071() -> (d: LabelDefinition)
    ensures
        matches_dictionary(d, 0o071),
{
    LabelDefinition::new(
        0o071, "LBL071", "APU_GEN_VOLT", "APU",
        PayloadFormat::Bnr, "V",
        FixedDecimal::new(1, 1), FixedDecimal::new(0, 0), FixedDecimal::new(150, 0),
        "APU Generator Output Voltage (Phase-Neutral)",
    )
}
fn entry_072() -> (d: LabelDefinition)
    ensures
        matches_dictionary(d, 0o072),
{
    LabelDefinition::new(
        0o072, "LBL072", "CABIN_ALT", "PCS",
        PayloadFormat::Bnr, "ft",
        FixedDecimal::new(1, 0), FixedDecimal::new(-1500, 0), FixedDecimal::new(45000, 0),
        "Cabin Altitude (Pressurization)",
    )
}
fn entry_073() -> (d: LabelDefinition)
    ensures
        matches_dictionary(d, 0o073),
{
    LabelDefinition::new(
        0o073, "LBL073", "CABIN_DIFF_PRESS", "PCS",
        PayloadFormat::Bnr, "psi",
        FixedDecimal::new(390625, 8), FixedDecimal::new(0, 0), FixedDecimal::new(15, 0),
        "Cabin Differential Pressure",
    )
}
fn entry_100() -> (d: LabelDefinition)
    ensures
        matches_dictionary(d, 0o100),
{
    LabelDefinition::new(
        0o100, "LBL100", "FLAP_POSITION", "FCC",
        PayloadFormat::Bcd, "deg",
        FixedDecimal::new(1, 0), FixedDecimal::new(0, 0), FixedDecimal::new(45, 0),
        "Flap Lever / Surface Position",
    )
}
fn entry_101() -> (d: LabelDefinition)
    ensures
        matches_dictionary(d, 0o101),
{
    LabelDefinition::new(
        0o101, "LBL101", "SLAT_POSITION", "FCC",
        PayloadFormat::Bcd, "deg",
        FixedDecimal::new(1, 0), FixedDecimal::new(0, 0), FixedDecimal::new(25, 0),
        "Slat Position Indication",
    )
}
fn entry_102() -> (d: LabelDefinition)
    ensures
        matches_dictionary(d, 0o102),
{
    LabelDefinition::new(
        0o102, "LBL102", "GEAR_DISCRETE", "LGCIU",
        PayloadFormat::Discrete, "state",
        FixedDecimal::new(1, 0), FixedDecimal::new(0, 0), FixedDecimal::new(7, 0),
        "Landing Gear Discrete Word: UP/DOWN/LOCK",
    )
}
fn entry_103() -> (d: LabelDefinition)
    ensures
        matches_dictionary(d, 0o103),
{
    LabelDefinition::new(
        0o103, "LBL103", "DOOR_STATUS", "DSCU",
        PayloadFormat::Discrete, "bitmask",
        FixedDecimal::new(1, 0), FixedDecimal::new(0, 0), FixedDecimal::new(524287, 0),
        "Door Open/Closed/Locked Status Bitmask",
    )
}
fn entry_104() -> (d: LabelDefinition)
    ensures
        matches_dictionary(d, 0o104),
{
    LabelDefinition::new(
        0o104, "LBL104", "ANTI_ICE_STATUS", "AI",
        PayloadFormat::Discrete, "bitmask",
        FixedDecimal::new(1, 0), FixedDecimal::new(0, 0), FixedDecimal::new(65535, 0),
        "Anti-Ice System ON/OFF Status",
    )
}
fn entry_105() -> (d: LabelDefinition)
    ensures
        matches_dictionary(d, 0o105),
{
    LabelDefinition::new(
        0o105, "LBL105", "AUTOPILOT_MODE", "FCU",
        PayloadFormat::Discrete, "enum",
        FixedDecimal::new(1, 0), FixedDecimal::new(0, 0), FixedDecimal::new(255, 0),
        "Autopilot Active Modes Bitmask",
    )
}
fn entry_110() -> (d: LabelDefinition)
    ensures
        matches_dictionary(d, 0o110),
{
    LabelDefinition::new(
        0o110, "LBL110", "MAINT_WORD", "CMC",
        PayloadFormat::Maintenance, "code",
        FixedDecimal::new(1, 0), FixedDecimal::new(0, 0), FixedDecimal::new(524287, 0),
        "Central Maintenance Computer Fault Code",
    )
}
fn entry_111() -> (d: LabelDefinition)
    ensures
        matches_dictionary(d, 0o111),
{
    LabelDefinition::new(
        0o111, "LBL111", "EQUIP_ID_ACK", "SYS",
        PayloadFormat::Ack, "id",
        FixedDecimal::new(1, 0), FixedDecimal::new(0, 0), FixedDecimal::new(65535, 0),
        "Equipment Identification Acknowledge",
    )
}
fn entry_377() -> (d: LabelDefinition)
    ensures
        matches_dictionary(d, 0o377),
{
    LabelDefinition::new(
        0o377, "LBL377", "NULL_WORD", "SYS",
        PayloadFormat::Unknown, "N/A",
        FixedDecimal::new(1, 0), FixedDecimal::new(0, 0), FixedDecimal::new(0, 0),
        "Null / Sync Word - Bus Idle Filler",
    )
}

/// The definition of `label`, or `None` when the dictionary does not define it.
pub fn lookup_label(label_octal: u16) -> (r: Option<LabelDefinition>)
    ensures
        r is Some <==> label_format(label_octal) is Some,
        r matches Some(d) ==> matches_dictionary(d, label_octal),
{
    match label_octal {
        0o001 => Some(entry_001()),
        0o002 => Some(entry_002()),
        0o003 => Some(entry_003()),
        0o004 => Some(entry_004()),
        0o005 => Some(entry_005()),
        0o010 => Some(entry_010()),
        0o011 => Some(entry_011()),
        0o012 => Some(entry_012()),
        0o013 => Some(entry_013()),
        0o014 => Some(entry_014()),
        0o015 => Some(entry_015()),
        0o016 => Some(entry_016()),
        0o017 => Some(entry_017()),
        0o020 => Some(entry_020()),
        0o021 => Some(entry_021()),
        0o022 => Some(entry_022()),
        0o023 => Some(entry_023()),
        0o024 => Some(entry_024()),
        0o025 => Some(entry_025()),
        0o026 => Some(entry_026()),
        0o030 => Some(entry_030()),
        0o031 => Some(entry_031()),
        0o032 => Some(entry_032()),
        0o033 => Some(entry_033()),
        0o034 => Some(entry_034()),
        0o040 => Some(entry_040()),
        0o041 => Some(entry_041()),
        0o042 => Some(entry_042()),
        0o043 => Some(entry_043()),
        0o044 => Some(entry_044()),
        0o045 => Some(entry_045()),
        0o050 => Some(entry_050()),
        0o051 => Some(entry_051()),
        0o052 => Some(entry_052()),
        0o060 => Some(entry_060()),
        0o061 => Some(entry_061()),
        0o062 => Some(entry_062()),
        0o070 => Some(entry_070()),
        0o071 => Some(entry_071()),
        0o072 => Some(entry_072()),
        0o073 => Some(entry_073()),
        0o100 => Some(entry_100()),
        0o101 => Some(entry_101()),
        0o102 => Some(entry_102()),
        0o103 => Some(entry_103()),
        0o104 => Some(entry_104()),
        0o105 => Some(entry_105()),
        0o110 => Some(entry_110()),
        0o111 => Some(entry_111()),
        0o377 => Some(entry_377()),
        _ => None,
    }
}

/// The whole dictionary, keyed by label.
pub fn get_avionics_dictionary() -> (dict: HashMap<u16, LabelDefinition>)
    ensures
        forall|k: u16| dict@.contains_key(k) <==> label_format(k) is Some,
        forall|k: u16| dict@.contains_key(k) ==> matches_dictionary(#[trigger] dict@[k], k),
{
    let mut dict: HashMap<u16, LabelDefinition> = HashMap::new();
    for label in 0..256u16
        invariant
            forall|k: u16| dict@.contains_key(k) <==> (k < label && label_format(k) is Some),
            forall|k: u16| dict@.contains_key(k) ==> matches_dictionary(#[trigger] dict@[k], k),
    {
        match lookup_label(label) {
            Some(d) => {
                dict.insert(label, d);
            },
            None => {},
        }
    }
    assert forall|k: u16| label_format(k) is Some implies k < 256 by {}
    dict
}


/// The payload format of every label: BNR for labels 001-005, 010-026,
/// 040-045, 050-052, 060-062 and 070-073; BCD for 030-034, 100 and 101;
/// discrete for 102-105; maintenance for 110; acknowledge for 111; the
/// unknown format for 377; and no definition for any other label.
pub proof fn law_label_formats(label: u16)
    ensures
        label_format(label) == Some(PayloadFormat::Bnr) <==> (1 <= label <= 5 || 0o010 <= label
            <= 0o026 || 0o040 <= label <= 0o045 || 0o050 <= label <= 0o052 || 0o060 <= label
            <= 0o062 || 0o070 <= label <= 0o073),
        label_format(label) == Some(PayloadFormat::Bcd) <==> (0o030 <= label <= 0o034 || label
            == 0o100 || label == 0o101),
        label_format(label) == Some(PayloadFormat::Discrete) <==> 0o102 <= label <= 0o105,
        label_format(label) == Some(PayloadFormat::Maintenance) <==> label == 0o110,
        label_format(label) == Some(PayloadFormat::Ack) <==> label == 0o111,
        label_format(label) == Some(PayloadFormat::Unknown) <==> label == 0o377,
{
}

} // verus!
