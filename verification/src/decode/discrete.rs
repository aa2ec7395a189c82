use vstd::prelude::*;

use crate::text::seq_join;
use crate::text::push_joined;

verus! {

/// One named flag of a discrete word.
#[derive(Debug, Clone)]
pub struct DiscreteBit {
    pub position: u8,
    pub name: String,
    pub active_high: bool,
}

impl DiscreteBit {
    /// An active-high flag at `position`.
    pub fn new(position: u8, name: &str) -> (b: Self)
        ensures
            b.position == position,
            b.name@ == name@,
            b.active_high,
    {
        DiscreteBit { position, name: String::from_str(name), active_high: true }
    }

    /// The same flag, active when its bit is clear.
    pub fn active_low(self) -> (b: Self)
        ensures
            b.position == self.position,
            b.name == self.name,
            !b.active_high,
    {
        let mut b = self;
        b.active_high = false;
        b
    }
}

/// A discrete word: a name and its flags.
#[derive(Debug, Clone)]
pub struct DiscreteWordDef {
    pub name: String,
    pub bits: Vec<DiscreteBit>,
}

impl DiscreteWordDef {
    pub fn new(name: &str, bits: Vec<DiscreteBit>) -> (d: Self)
        ensures
            d.name@ == name@,
            d.bits == bits,
    {
        DiscreteWordDef { name: String::from_str(name), bits }
    }
}

/// A payload read as a whole number: the raw value, its unit and its text
/// (for discrete words, the names of the active flags).
#[derive(Debug, Clone)]
pub struct IntegerReading {
    pub value: u32,
    pub unit: String,
    pub display: String,
}

/// A flag as plain values: position, name and polarity.
pub open spec fn bit_view(b: DiscreteBit) -> (u8, Seq<char>, bool) {
    (b.position, b.name@, b.active_high)
}

/// The flags of a definition as plain values.
pub open spec fn bit_views(bits: Seq<DiscreteBit>) -> Seq<(u8, Seq<char>, bool)> {
    bits.map_values(|b: DiscreteBit| bit_view(b))
}

/// A flag is active when its bit equals its polarity.
pub open spec fn flag_active(data: u32, flag: (u8, Seq<char>, bool)) -> bool {
    (((data >> flag.0 as u32) & 1) == 1) == flag.2
}

/// The names of the active flags, in definition order.
pub open spec fn active_names(data: u32, flags: Seq<(u8, Seq<char>, bool)>) -> Seq<Seq<char>>
    decreases flags.len(),
{
    if flags.len() == 0 {
        Seq::empty()
    } else {
        let prev = active_names(data, flags.drop_last());
        if flag_active(data, flags.last()) {
            prev.push(flags.last().1)
        } else {
            prev
        }
    }
}

/// `NAME: NO BITS` when no flag is active, else `NAME: [A | B | ...]`.
pub open spec fn discrete_text(data: u32, name: Seq<char>, flags: Seq<(u8, Seq<char>, bool)>) -> Seq<char> {
    let names = active_names(data, flags);
    if names.len() == 0 {
        name + ": NO BITS"@
    } else {
        name + ": ["@ + seq_join(names, " | "@) + "]"@
    }
}

/// Every flag lies within the 32-bit word.
pub open spec fn flags_in_word(flags: Seq<(u8, Seq<char>, bool)>) -> bool {
    forall|i: int| 0 <= i < flags.len() ==> (#[trigger] flags[i]).0 < 32
}

/// Numbers the names 0, 1, 2, ... as active-high flags.
pub open spec fn numbered_flags(names: Seq<Seq<char>>) -> Seq<(u8, Seq<char>, bool)> {
    Seq::new(names.len(), |i: int| (i as u8, names[i], true))
}

/// Names the active flags of `data` under the definition `def`.
pub fn decode_discrete(data: u32, def: &DiscreteWordDef) -> (r: IntegerReading)
    requires
        flags_in_word(bit_views(def.bits@)),
    ensures
        r.value == data,
        r.unit@ == "bitmask"@,
        r.display@ == discrete_text(data, def.name@, bit_views(def.bits@)),
{
    let ghost flags = bit_views(def.bits@);
    let mut active_bits: Vec<String> = Vec::new();
    let n = def.bits.len();
    for i in 0..n
        invariant
            n == def.bits@.len(),
            flags == bit_views(def.bits@),
            flags_in_word(flags),
            active_bits@.map_values(|x: String| x@) == active_names(data, flags.take(i as int)),
    {
        let bit = &def.bits[i];
        assert(flags[i as int] == bit_view(*bit));
        assert(bit.position < 32);
        let is_set = ((data >> bit.position as u32) & 0x1) == 1;
        let is_active = if bit.active_high {
            is_set
        } else {
            !is_set
        };
        assert(flags.take(i + 1).drop_last() =~= flags.take(i as int));
        assert(flags.take(i + 1).last() == flags[i as int]);
        if is_active {
            active_bits.push(bit.name.clone());
            assert(active_bits@.map_values(|x: String| x@) =~= active_names(data, flags.take(i + 1)));
        } else {
            assert(active_bits@.map_values(|x: String| x@) =~= active_names(data, flags.take(i + 1)));
        }
    }
    assert(flags.take(n as int) =~= flags);
    let mut display = def.name.clone();
    if active_bits.len() == 0 {
        display.append(": NO BITS");
    } else {
        display.append(": [");
        push_joined(&mut display, &active_bits, " | ");
        display.append("]");
    }
    IntegerReading { value: data, unit: String::from_str("bitmask"), display }
}

/// Flag names numbered from bit 0 as active-high flags.
fn numbered_bits(names: &Vec<&str>) -> (bits: Vec<DiscreteBit>)
    requires
        names@.len() <= 32,
    ensures
        bit_views(bits@) == numbered_flags(names@.map_values(|s: &str| s@)),
{
    let mut bits: Vec<DiscreteBit> = Vec::new();
    let n = names.len();
    for i in 0..n
        invariant
            n == names@.len(),
            n <= 32,
            bit_views(bits@) =~= numbered_flags(names@.map_values(|s: &str| s@)).take(i as int),
    {
        let b = DiscreteBit::new(i as u8, names[i]);
        let ghost before = bits@;
        bits.push(b);
        assert(bits@ == before.push(b));
        assert(bit_views(bits@) =~= bit_views(before).push(bit_view(b)));
        assert(names@.map_values(|s: &str| s@)[i as int] == names@[i as int]@);
        assert(bit_view(b) == numbered_flags(names@.map_values(|s: &str| s@))[i as int]);
        assert(bit_views(bits@) =~= numbered_flags(names@.map_values(|s: &str| s@)).take(i + 1));
    }
    assert(numbered_flags(names@.map_values(|s: &str| s@)).take(n as int) =~= numbered_flags(
        names@.map_values(|s: &str| s@),
    ));
    bits
}

/// The flag names of landing gear word, from bit 0 up.
pub open spec fn gear_flag_names() -> Seq<Seq<char>> {
    seq![
        "NOSE_GEAR_DOWN"@,
        "NOSE_GEAR_UP"@,
        "NOSE_GEAR_LOCK"@,
        "LEFT_GEAR_DOWN"@,
        "LEFT_GEAR_UP"@,
        "LEFT_GEAR_LOCK"@,
        "RIGHT_GEAR_DOWN"@,
        "RIGHT_GEAR_UP"@,
        "RIGHT_GEAR_LOCK"@,
        "GEAR_IN_TRANSIT"@,
        "BRAKES_APPLIED"@,
        "ANTISKID_ON"@,
        "GEAR_LEVER_DOWN"@,
        "GEAR_LEVER_UP"@,
        "WHEEL_WEIGHT_ON"@,
        "WHEEL_WEIGHT_OFF"@,
        "DOOR_OPEN"@,
        "DOOR_CLOSED"@,
        "HYD_PRESS_OK"@,
    ]
}

/// The landing gear word: 19 named flags from bit 0 up.
pub fn decode_gear_discrete(data: u32) -> (r: IntegerReading)
    ensures
        r.value == data,
        r.unit@ == "bitmask"@,
        r.display@ == discrete_text(data, "LANDING_GEAR"@, numbered_flags(gear_flag_names())),
{
    let mut names: Vec<&str> = Vec::new();
    names.push("NOSE_GEAR_DOWN");
    names.push("NOSE_GEAR_UP");
    names.push("NOSE_GEAR_LOCK");
    names.push("LEFT_GEAR_DOWN");
    names.push("LEFT_GEAR_UP");
    names.push("LEFT_GEAR_LOCK");
    names.push("RIGHT_GEAR_DOWN");
    names.push("RIGHT_GEAR_UP");
    names.push("RIGHT_GEAR_LOCK");
    names.push("GEAR_IN_TRANSIT");
    names.push("BRAKES_APPLIED");
    names.push("ANTISKID_ON");
    names.push("GEAR_LEVER_DOWN");
    names.push("GEAR_LEVER_UP");
    names.push("WHEEL_WEIGHT_ON");
    names.push("WHEEL_WEIGHT_OFF");
    names.push("DOOR_OPEN");
    names.push("DOOR_CLOSED");
    names.push("HYD_PRESS_OK");
    assert(names@.map_values(|s: &str| s@) =~= gear_flag_names());
    let def = DiscreteWordDef::new("LANDING_GEAR", numbered_bits(&names));
    proof {
        assert forall|i: int| 0 <= i < bit_views(def.bits@).len() implies (#[trigger] bit_views(
            def.bits@,
        )[i]).0 < 32 by {
            assert(bit_views(def.bits@)[i] == numbered_flags(gear_flag_names())[i]);
        }
    }
    decode_discrete(data, &def)
}

/// The flag names of door status word, from bit 0 up.
pub open spec fn door_flag_names() -> Seq<Seq<char>> {
    seq![
        "L1_DOOR_OPEN"@,
        "L1_DOOR_CLOSED"@,
        "L1_DOOR_LOCKED"@,
        "R1_DOOR_OPEN"@,
        "R1_DOOR_CLOSED"@,
        "R1_DOOR_LOCKED"@,
        "L2_DOOR_OPEN"@,
        "L2_DOOR_CLOSED"@,
        "L2_DOOR_LOCKED"@,
        "R2_DOOR_OPEN"@,
        "R2_DOOR_CLOSED"@,
        "R2_DOOR_LOCKED"@,
        "FWD_CARGO_OPEN"@,
        "FWD_CARGO_CLOSED"@,
        "AFT_CARGO_OPEN"@,
        "AFT_CARGO_CLOSED"@,
        "EMER_EXIT_ARMED"@,
        "DOOR_SLIDE_ARMED"@,
        "PASSENGER_DOORS_INHIBIT"@,
    ]
}

/// The door status word: 19 named flags from bit 0 up.
pub fn decode_door_status(data: u32) -> (r: IntegerReading)
    ensures
        r.value == data,
        r.unit@ == "bitmask"@,
        r.display@ == discrete_text(data, "DOOR_STATUS"@, numbered_flags(door_flag_names())),
{
    let mut names: Vec<&str> = Vec::new();
    names.push("L1_DOOR_OPEN");
    names.push("L1_DOOR_CLOSED");
    names.push("L1_DOOR_LOCKED");
    names.push("R1_DOOR_OPEN");
    names.push("R1_DOOR_CLOSED");
    names.push("R1_DOOR_LOCKED");
    names.push("L2_DOOR_OPEN");
    names.push("L2_DOOR_CLOSED");
    names.push("L2_DOOR_LOCKED");
    names.push("R2_DOOR_OPEN");
    names.push("R2_DOOR_CLOSED");
    names.push("R2_DOOR_LOCKED");
    names.push("FWD_CARGO_OPEN");
    names.push("FWD_CARGO_CLOSED");
    names.push("AFT_CARGO_OPEN");
    names.push("AFT_CARGO_CLOSED");
    names.push("EMER_EXIT_ARMED");
    names.push("DOOR_SLIDE_ARMED");
    names.push("PASSENGER_DOORS_INHIBIT");
    assert(names@.map_values(|s: &str| s@) =~= door_flag_names());
    let def = DiscreteWordDef::new("DOOR_STATUS", numbered_bits(&names));
    proof {
        assert forall|i: int| 0 <= i < bit_views(def.bits@).len() implies (#[trigger] bit_views(
            def.bits@,
        )[i]).0 < 32 by {
            assert(bit_views(def.bits@)[i] == numbered_flags(door_flag_names())[i]);
        }
    }
    decode_discrete(data, &def)
}

/// The flag names of anti-ice status word, from bit 0 up.
pub open spec fn anti_ice_flag_names() -> Seq<Seq<char>> {
    seq![
        "WING_L_ENG1_AI_ON"@,
        "WING_R_ENG2_AI_ON"@,
        "ENG1_COWL_AI_ON"@,
        "ENG2_COWL_AI_ON"@,
        "ENG3_COWL_AI_ON"@,
        "ENG4_COWL_AI_ON"@,
        "PROBE_PITOT1_ON"@,
        "PROBE_PITOT2_ON"@,
        "PROBE_AOA_ON"@,
        "PROBE_STATIC_ON"@,
        "WINDSHIELD_1_HOT"@,
        "WINDSHIELD_2_HOT"@,
        "TAT_PROBE_HEAT_ON"@,
        "ICE_DETECTED"@,
        "ICE_DETECTOR_A_ON"@,
        "ICE_DETECTOR_B_ON"@,
    ]
}

/// The anti-ice status word: 16 named flags from bit 0 up.
pub fn decode_anti_ice(data: u32) -> (r: IntegerReading)
    ensures
        r.value == data,
        r.unit@ == "bitmask"@,
        r.display@ == discrete_text(data, "ANTI_ICE"@, numbered_flags(anti_ice_flag_names())),
{
    let mut names: Vec<&str> = Vec::new();
    names.push("WING_L_ENG1_AI_ON");
    names.push("WING_R_ENG2_AI_ON");
    names.push("ENG1_COWL_AI_ON");
    names.push("ENG2_COWL_AI_ON");
    names.push("ENG3_COWL_AI_ON");
    names.push("ENG4_COWL_AI_ON");
    names.push("PROBE_PITOT1_ON");
    names.push("PROBE_PITOT2_ON");
    names.push("PROBE_AOA_ON");
    names.push("PROBE_STATIC_ON");
    names.push("WINDSHIELD_1_HOT");
    names.push("WINDSHIELD_2_HOT");
    names.push("TAT_PROBE_HEAT_ON");
    names.push("ICE_DETECTED");
    names.push("ICE_DETECTOR_A_ON");
    names.push("ICE_DETECTOR_B_ON");
    assert(names@.map_values(|s: &str| s@) =~= anti_ice_flag_names());
    let def = DiscreteWordDef::new("ANTI_ICE", numbered_bits(&names));
    proof {
        assert forall|i: int| 0 <= i < bit_views(def.bits@).len() implies (#[trigger] bit_views(
            def.bits@,
        )[i]).0 < 32 by {
            assert(bit_views(def.bits@)[i] == numbered_flags(anti_ice_flag_names())[i]);
        }
    }
    decode_discrete(data, &def)
}

/// The flag names of autopilot modes word, from bit 0 up.
pub open spec fn autopilot_flag_names() -> Seq<Seq<char>> {
    seq![
        "AP1_ENGAGED"@,
        "AP2_ENGAGED"@,
        "FD1_ON"@,
        "AT_ARMED"@,
        "AT_ACTIVE"@,
        "HDG_MODE"@,
        "NAV_MODE"@,
        "APP_MODE"@,
        "ALT_HOLD"@,
        "VS_MODE"@,
        "FLCH_MODE"@,
        "VNAV_MODE"@,
        "LNAV_MODE"@,
        "LAND_ARMED"@,
        "GPWS_INHIBIT"@,
        "TCAS_TA_ON"@,
        "AUTOBRAKE_ON"@,
        "AUTO_THRUST_LVR"@,
        "FLARE_MODE"@,
    ]
}

/// The autopilot modes word: 19 named flags from bit 0 up.
pub fn decode_autopilot_modes(data: u32) -> (r: IntegerReading)
    ensures
        r.value == data,
        r.unit@ == "bitmask"@,
        r.display@ == discrete_text(data, "A/P MODES"@, numbered_flags(autopilot_flag_names())),
{
    let mut names: Vec<&str> = Vec::new();
    names.push("AP1_ENGAGED");
    names.push("AP2_ENGAGED");
    names.push("FD1_ON");
    names.push("AT_ARMED");
    names.push("AT_ACTIVE");
    names.push("HDG_MODE");
    names.push("NAV_MODE");
    names.push("APP_MODE");
    names.push("ALT_HOLD");
    names.push("VS_MODE");
    names.push("FLCH_MODE");
    names.push("VNAV_MODE");
    names.push("LNAV_MODE");
    names.push("LAND_ARMED");
    names.push("GPWS_INHIBIT");
    names.push("TCAS_TA_ON");
    names.push("AUTOBRAKE_ON");
    names.push("AUTO_THRUST_LVR");
    names.push("FLARE_MODE");
    assert(names@.map_values(|s: &str| s@) =~= autopilot_flag_names());
    let def = DiscreteWordDef::new("A/P MODES", numbered_bits(&names));
    proof {
        assert forall|i: int| 0 <= i < bit_views(def.bits@).len() implies (#[trigger] bit_views(
            def.bits@,
        )[i]).0 < 32 by {
            assert(bit_views(def.bits@)[i] == numbered_flags(autopilot_flag_names())[i]);
        }
    }
    decode_discrete(data, &def)
}


// ---------------------------------------------------------------------------
// What the flags of the named words are
// ---------------------------------------------------------------------------

/// Under numbered flags, every name whose bit is set is listed, and every
/// listed name is the name of a bit that is set.
pub proof fn law_listed_names_are_set_bits(data: u32, names: Seq<Seq<char>>)
    requires
        names.len() <= 32,
    ensures
        forall|i: int|
            0 <= i < names.len() && ((data >> (i as u32)) & 1) == 1 ==> active_names(
                data,
                numbered_flags(names),
            ).contains(#[trigger] names[i]),
        forall|x: Seq<char>|
            #[trigger] active_names(data, numbered_flags(names)).contains(x) ==> exists|i: int|
                0 <= i < names.len() && names[i] == x && ((data >> (i as u32)) & 1) == 1,
    decreases names.len(),
{
    if names.len() > 0 {
        let rest = names.drop_last();
        law_listed_names_are_set_bits(data, rest);
        let n = names.len() - 1;
        assert(numbered_flags(names).drop_last() =~= numbered_flags(rest));
        assert(numbered_flags(names).last() == (n as u8, names[n], true));
        assert((n as u8) as u32 == n as u32);
        let prev = active_names(data, numbered_flags(rest));
        assert forall|i: int|
            0 <= i < names.len() && ((data >> (i as u32)) & 1) == 1 implies active_names(
                data,
                numbered_flags(names),
            ).contains(#[trigger] names[i]) by {
            if i < n {
                assert(rest[i] == names[i]);
                assert(prev.contains(rest[i]));
                let k = choose|k: int| 0 <= k < prev.len() && prev[k] == rest[i];
                if flag_active(data, numbered_flags(names).last()) {
                    assert(prev.push(names[n])[k] == names[i]);
                }
            } else {
                assert(prev.push(names[n])[prev.len() as int] == names[n]);
            }
        }
        assert forall|x: Seq<char>|
            #[trigger] active_names(data, numbered_flags(names)).contains(x) implies exists|i: int|
                0 <= i < names.len() && names[i] == x && ((data >> (i as u32)) & 1) == 1 by {
            let all = active_names(data, numbered_flags(names));
            let k = choose|k: int| 0 <= k < all.len() && all[k] == x;
            if k < prev.len() {
                assert(all[k] == prev[k]);
                assert(prev.contains(x));
                let i = choose|i: int|
                    0 <= i < rest.len() && rest[i] == x && ((data >> (i as u32)) & 1) == 1;
                assert(names[i] == x);
            } else {
                assert(names[n] == x);
            }
        }
    }
}

/// The landing-gear word names its bits: with bit 0 set `NOSE_GEAR_DOWN` is listed,
/// and so on, one fixed name per bit up to bit 18; it has 19 flags.
pub proof fn law_gear_flag_bits(data: u32)
    ensures
        numbered_flags(gear_flag_names()).len() == 19,
        ((data >> 0u32) & 1) == 1 ==> active_names(data, numbered_flags(gear_flag_names())).contains(
            "NOSE_GEAR_DOWN"@,
        ),
        ((data >> 1u32) & 1) == 1 ==> active_names(data, numbered_flags(gear_flag_names())).contains(
            "NOSE_GEAR_UP"@,
        ),
        ((data >> 2u32) & 1) == 1 ==> active_names(data, numbered_flags(gear_flag_names())).contains(
            "NOSE_GEAR_LOCK"@,
        ),
        ((data >> 3u32) & 1) == 1 ==> active_names(data, numbered_flags(gear_flag_names())).contains(
            "LEFT_GEAR_DOWN"@,
        ),
        ((data >> 4u32) & 1) == 1 ==> active_names(data, numbered_flags(gear_flag_names())).contains(
            "LEFT_GEAR_UP"@,
        ),
        ((data >> 5u32) & 1) == 1 ==> active_names(data, numbered_flags(gear_flag_names())).contains(
            "LEFT_GEAR_LOCK"@,
        ),
        ((data >> 6u32) & 1) == 1 ==> active_names(data, numbered_flags(gear_flag_names())).contains(
            "RIGHT_GEAR_DOWN"@,
        ),
        ((data >> 7u32) & 1) == 1 ==> active_names(data, numbered_flags(gear_flag_names())).contains(
            "RIGHT_GEAR_UP"@,
        ),
        ((data >> 8u32) & 1) == 1 ==> active_names(data, numbered_flags(gear_flag_names())).contains(
            "RIGHT_GEAR_LOCK"@,
        ),
        ((data >> 9u32) & 1) == 1 ==> active_names(data, numbered_flags(gear_flag_names())).contains(
            "GEAR_IN_TRANSIT"@,
        ),
        ((data >> 10u32) & 1) == 1 ==> active_names(data, numbered_flags(gear_flag_names())).contains(
            "BRAKES_APPLIED"@,
        ),
        ((data >> 11u32) & 1) == 1 ==> active_names(data, numbered_flags(gear_flag_names())).contains(
            "ANTISKID_ON"@,
        ),
        ((data >> 12u32) & 1) == 1 ==> active_names(data, numbered_flags(gear_flag_names())).contains(
            "GEAR_LEVER_DOWN"@,
        ),
        ((data >> 13u32) & 1) == 1 ==> active_names(data, numbered_flags(gear_flag_names())).contains(
            "GEAR_LEVER_UP"@,
        ),
        ((data >> 14u32) & 1) == 1 ==> active_names(data, numbered_flags(gear_flag_names())).contains(
            "WHEEL_WEIGHT_ON"@,
        ),
        ((data >> 15u32) & 1) == 1 ==> active_names(data, numbered_flags(gear_flag_names())).contains(
            "WHEEL_WEIGHT_OFF"@,
        ),
        ((data >> 16u32) & 1) == 1 ==> active_names(data, numbered_flags(gear_flag_names())).contains(
            "DOOR_OPEN"@,
        ),
        ((data >> 17u32) & 1) == 1 ==> active_names(data, numbered_flags(gear_flag_names())).contains(
            "DOOR_CLOSED"@,
        ),
        ((data >> 18u32) & 1) == 1 ==> active_names(data, numbered_flags(gear_flag_names())).contains(
            "HYD_PRESS_OK"@,
        ),
{
    law_listed_names_are_set_bits(data, gear_flag_names());
    let names = gear_flag_names();
    assert(names[0] == "NOSE_GEAR_DOWN"@);
    assert(names[1] == "NOSE_GEAR_UP"@);
    assert(names[2] == "NOSE_GEAR_LOCK"@);
    assert(names[3] == "LEFT_GEAR_DOWN"@);
    assert(names[4] == "LEFT_GEAR_UP"@);
    assert(names[5] == "LEFT_GEAR_LOCK"@);
    assert(names[6] == "RIGHT_GEAR_DOWN"@);
    assert(names[7] == "RIGHT_GEAR_UP"@);
    assert(names[8] == "RIGHT_GEAR_LOCK"@);
    assert(names[9] == "GEAR_IN_TRANSIT"@);
    assert(names[10] == "BRAKES_APPLIED"@);
    assert(names[11] == "ANTISKID_ON"@);
    assert(names[12] == "GEAR_LEVER_DOWN"@);
    assert(names[13] == "GEAR_LEVER_UP"@);
    assert(names[14] == "WHEEL_WEIGHT_ON"@);
    assert(names[15] == "WHEEL_WEIGHT_OFF"@);
    assert(names[16] == "DOOR_OPEN"@);
    assert(names[17] == "DOOR_CLOSED"@);
    assert(names[18] == "HYD_PRESS_OK"@);
}

/// The door-status word names its bits: with bit 0 set `L1_DOOR_OPEN` is listed,
/// and so on, one fixed name per bit up to bit 18; it has 19 flags.
pub proof fn law_door_flag_bits(data: u32)
    ensures
        numbered_flags(door_flag_names()).len() == 19,
        ((data >> 0u32) & 1) == 1 ==> active_names(data, numbered_flags(door_flag_names())).contains(
            "L1_DOOR_OPEN"@,
        ),
        ((data >> 1u32) & 1) == 1 ==> active_names(data, numbered_flags(door_flag_names())).contains(
            "L1_DOOR_CLOSED"@,
        ),
        ((data >> 2u32) & 1) == 1 ==> active_names(data, numbered_flags(door_flag_names())).contains(
            "L1_DOOR_LOCKED"@,
        ),
        ((data >> 3u32) & 1) == 1 ==> active_names(data, numbered_flags(door_flag_names())).contains(
            "R1_DOOR_OPEN"@,
        ),
        ((data >> 4u32) & 1) == 1 ==> active_names(data, numbered_flags(door_flag_names())).contains(
            "R1_DOOR_CLOSED"@,
        ),
        ((data >> 5u32) & 1) == 1 ==> active_names(data, numbered_flags(door_flag_names())).contains(
            "R1_DOOR_LOCKED"@,
        ),
        ((data >> 6u32) & 1) == 1 ==> active_names(data, numbered_flags(door_flag_names())).contains(
            "L2_DOOR_OPEN"@,
        ),
        ((data >> 7u32) & 1) == 1 ==> active_names(data, numbered_flags(door_flag_names())).contains(
            "L2_DOOR_CLOSED"@,
        ),
        ((data >> 8u32) & 1) == 1 ==> active_names(data, numbered_flags(door_flag_names())).contains(
            "L2_DOOR_LOCKED"@,
        ),
        ((data >> 9u32) & 1) == 1 ==> active_names(data, numbered_flags(door_flag_names())).contains(
            "R2_DOOR_OPEN"@,
        ),
        ((data >> 10u32) & 1) == 1 ==> active_names(data, numbered_flags(door_flag_names())).contains(
            "R2_DOOR_CLOSED"@,
        ),
        ((data >> 11u32) & 1) == 1 ==> active_names(data, numbered_flags(door_flag_names())).contains(
            "R2_DOOR_LOCKED"@,
        ),
        ((data >> 12u32) & 1) == 1 ==> active_names(data, numbered_flags(door_flag_names())).contains(
            "FWD_CARGO_OPEN"@,
        ),
        ((data >> 13u32) & 1) == 1 ==> active_names(data, numbered_flags(door_flag_names())).contains(
            "FWD_CARGO_CLOSED"@,
        ),
        ((data >> 14u32) & 1) == 1 ==> active_names(data, numbered_flags(door_flag_names())).contains(
            "AFT_CARGO_OPEN"@,
        ),
        ((data >> 15u32) & 1) == 1 ==> active_names(data, numbered_flags(door_flag_names())).contains(
            "AFT_CARGO_CLOSED"@,
        ),
        ((data >> 16u32) & 1) == 1 ==> active_names(data, numbered_flags(door_flag_names())).contains(
            "EMER_EXIT_ARMED"@,
        ),
        ((data >> 17u32) & 1) == 1 ==> active_names(data, numbered_flags(door_flag_names())).contains(
            "DOOR_SLIDE_ARMED"@,
        ),
        ((data >> 18u32) & 1) == 1 ==> active_names(data, numbered_flags(door_flag_names())).contains(
            "PASSENGER_DOORS_INHIBIT"@,
        ),
{
    law_listed_names_are_set_bits(data, door_flag_names());
    let names = door_flag_names();
    assert(names[0] == "L1_DOOR_OPEN"@);
    assert(names[1] == "L1_DOOR_CLOSED"@);
    assert(names[2] == "L1_DOOR_LOCKED"@);
    assert(names[3] == "R1_DOOR_OPEN"@);
    assert(names[4] == "R1_DOOR_CLOSED"@);
    assert(names[5] == "R1_DOOR_LOCKED"@);
    assert(names[6] == "L2_DOOR_OPEN"@);
    assert(names[7] == "L2_DOOR_CLOSED"@);
    assert(names[8] == "L2_DOOR_LOCKED"@);
    assert(names[9] == "R2_DOOR_OPEN"@);
    assert(names[10] == "R2_DOOR_CLOSED"@);
    assert(names[11] == "R2_DOOR_LOCKED"@);
    assert(names[12] == "FWD_CARGO_OPEN"@);
    assert(names[13] == "FWD_CARGO_CLOSED"@);
    assert(names[14] == "AFT_CARGO_OPEN"@);
    assert(names[15] == "AFT_CARGO_CLOSED"@);
    assert(names[16] == "EMER_EXIT_ARMED"@);
    assert(names[17] == "DOOR_SLIDE_ARMED"@);
    assert(names[18] == "PASSENGER_DOORS_INHIBIT"@);
}

/// The anti-ice word names its bits: with bit 0 set `WING_L_ENG1_AI_ON` is listed,
/// and so on, one fixed name per bit up to bit 15; it has 16 flags.
pub proof fn law_anti_ice_flag_bits(data: u32)
    ensures
        numbered_flags(anti_ice_flag_names()).len() == 16,
        ((data >> 0u32) & 1) == 1 ==> active_names(data, numbered_flags(anti_ice_flag_names())).contains(
            "WING_L_ENG1_AI_ON"@,
        ),
        ((data >> 1u32) & 1) == 1 ==> active_names(data, numbered_flags(anti_ice_flag_names())).contains(
            "WING_R_ENG2_AI_ON"@,
        ),
        ((data >> 2u32) & 1) == 1 ==> active_names(data, numbered_flags(anti_ice_flag_names())).contains(
            "ENG1_COWL_AI_ON"@,
        ),
        ((data >> 3u32) & 1) == 1 ==> active_names(data, numbered_flags(anti_ice_flag_names())).contains(
            "ENG2_COWL_AI_ON"@,
        ),
        ((data >> 4u32) & 1) == 1 ==> active_names(data, numbered_flags(anti_ice_flag_names())).contains(
            "ENG3_COWL_AI_ON"@,
        ),
        ((data >> 5u32) & 1) == 1 ==> active_names(data, numbered_flags(anti_ice_flag_names())).contains(
            "ENG4_COWL_AI_ON"@,
        ),
        ((data >> 6u32) & 1) == 1 ==> active_names(data, numbered_flags(anti_ice_flag_names())).contains(
            "PROBE_PITOT1_ON"@,
        ),
        ((data >> 7u32) & 1) == 1 ==> active_names(data, numbered_flags(anti_ice_flag_names())).contains(
            "PROBE_PITOT2_ON"@,
        ),
        ((data >> 8u32) & 1) == 1 ==> active_names(data, numbered_flags(anti_ice_flag_names())).contains(
            "PROBE_AOA_ON"@,
        ),
        ((data >> 9u32) & 1) == 1 ==> active_names(data, numbered_flags(anti_ice_flag_names())).contains(
            "PROBE_STATIC_ON"@,
        ),
        ((data >> 10u32) & 1) == 1 ==> active_names(data, numbered_flags(anti_ice_flag_names())).contains(
            "WINDSHIELD_1_HOT"@,
        ),
        ((data >> 11u32) & 1) == 1 ==> active_names(data, numbered_flags(anti_ice_flag_names())).contains(
            "WINDSHIELD_2_HOT"@,
        ),
        ((data >> 12u32) & 1) == 1 ==> active_names(data, numbered_flags(anti_ice_flag_names())).contains(
            "TAT_PROBE_HEAT_ON"@,
        ),
        ((data >> 13u32) & 1) == 1 ==> active_names(data, numbered_flags(anti_ice_flag_names())).contains(
            "ICE_DETECTED"@,
        ),
        ((data >> 14u32) & 1) == 1 ==> active_names(data, numbered_flags(anti_ice_flag_names())).contains(
            "ICE_DETECTOR_A_ON"@,
        ),
        ((data >> 15u32) & 1) == 1 ==> active_names(data, numbered_flags(anti_ice_flag_names())).contains(
            "ICE_DETECTOR_B_ON"@,
        ),
{
    law_listed_names_are_set_bits(data, anti_ice_flag_names());
    let names = anti_ice_flag_names();
    assert(names[0] == "WING_L_ENG1_AI_ON"@);
    assert(names[1] == "WING_R_ENG2_AI_ON"@);
    assert(names[2] == "ENG1_COWL_AI_ON"@);
    assert(names[3] == "ENG2_COWL_AI_ON"@);
    assert(names[4] == "ENG3_COWL_AI_ON"@);
    assert(names[5] == "ENG4_COWL_AI_ON"@);
    assert(names[6] == "PROBE_PITOT1_ON"@);
    assert(names[7] == "PROBE_PITOT2_ON"@);
    assert(names[8] == "PROBE_AOA_ON"@);
    assert(names[9] == "PROBE_STATIC_ON"@);
    assert(names[10] == "WINDSHIELD_1_HOT"@);
    assert(names[11] == "WINDSHIELD_2_HOT"@);
    assert(names[12] == "TAT_PROBE_HEAT_ON"@);
    assert(names[13] == "ICE_DETECTED"@);
    assert(names[14] == "ICE_DETECTOR_A_ON"@);
    assert(names[15] == "ICE_DETECTOR_B_ON"@);
}

/// The autopilot-modes word names its bits: with bit 0 set `AP1_ENGAGED` is listed,
/// and so on, one fixed name per bit up to bit 18; it has 19 flags.
pub proof fn law_autopilot_flag_bits(data: u32)
    ensures
        numbered_flags(autopilot_flag_names()).len() == 19,
        ((data >> 0u32) & 1) == 1 ==> active_names(data, numbered_flags(autopilot_flag_names())).contains(
            "AP1_ENGAGED"@,
        ),
        ((data >> 1u32) & 1) == 1 ==> active_names(data, numbered_flags(autopilot_flag_names())).contains(
            "AP2_ENGAGED"@,
        ),
        ((data >> 2u32) & 1) == 1 ==> active_names(data, numbered_flags(autopilot_flag_names())).contains(
            "FD1_ON"@,
        ),
        ((data >> 3u32) & 1) == 1 ==> active_names(data, numbered_flags(autopilot_flag_names())).contains(
            "AT_ARMED"@,
        ),
        ((data >> 4u32) & 1) == 1 ==> active_names(data, numbered_flags(autopilot_flag_names())).contains(
            "AT_ACTIVE"@,
        ),
        ((data >> 5u32) & 1) == 1 ==> active_names(data, numbered_flags(autopilot_flag_names())).contains(
            "HDG_MODE"@,
        ),
        ((data >> 6u32) & 1) == 1 ==> active_names(data, numbered_flags(autopilot_flag_names())).contains(
            "NAV_MODE"@,
        ),
        ((data >> 7u32) & 1) == 1 ==> active_names(data, numbered_flags(autopilot_flag_names())).contains(
            "APP_MODE"@,
        ),
        ((data >> 8u32) & 1) == 1 ==> active_names(data, numbered_flags(autopilot_flag_names())).contains(
            "ALT_HOLD"@,
        ),
        ((data >> 9u32) & 1) == 1 ==> active_names(data, numbered_flags(autopilot_flag_names())).contains(
            "VS_MODE"@,
        ),
        ((data >> 10u32) & 1) == 1 ==> active_names(data, numbered_flags(autopilot_flag_names())).contains(
            "FLCH_MODE"@,
        ),
        ((data >> 11u32) & 1) == 1 ==> active_names(data, numbered_flags(autopilot_flag_names())).contains(
            "VNAV_MODE"@,
        ),
        ((data >> 12u32) & 1) == 1 ==> active_names(data, numbered_flags(autopilot_flag_names())).contains(
            "LNAV_MODE"@,
        ),
        ((data >> 13u32) & 1) == 1 ==> active_names(data, numbered_flags(autopilot_flag_names())).contains(
            "LAND_ARMED"@,
        ),
        ((data >> 14u32) & 1) == 1 ==> active_names(data, numbered_flags(autopilot_flag_names())).contains(
            "GPWS_INHIBIT"@,
        ),
        ((data >> 15u32) & 1) == 1 ==> active_names(data, numbered_flags(autopilot_flag_names())).contains(
            "TCAS_TA_ON"@,
        ),
        ((data >> 16u32) & 1) == 1 ==> active_names(data, numbered_flags(autopilot_flag_names())).contains(
            "AUTOBRAKE_ON"@,
        ),
        ((data >> 17u32) & 1) == 1 ==> active_names(data, numbered_flags(autopilot_flag_names())).contains(
            "AUTO_THRUST_LVR"@,
        ),
        ((data >> 18u32) & 1) == 1 ==> active_names(data, numbered_flags(autopilot_flag_names())).contains(
            "FLARE_MODE"@,
        ),
{
    law_listed_names_are_set_bits(data, autopilot_flag_names());
    let names = autopilot_flag_names();
    assert(names[0] == "AP1_ENGAGED"@);
    assert(names[1] == "AP2_ENGAGED"@);
    assert(names[2] == "FD1_ON"@);
    assert(names[3] == "AT_ARMED"@);
    assert(names[4] == "AT_ACTIVE"@);
    assert(names[5] == "HDG_MODE"@);
    assert(names[6] == "NAV_MODE"@);
    assert(names[7] == "APP_MODE"@);
    assert(names[8] == "ALT_HOLD"@);
    assert(names[9] == "VS_MODE"@);
    assert(names[10] == "FLCH_MODE"@);
    assert(names[11] == "VNAV_MODE"@);
    assert(names[12] == "LNAV_MODE"@);
    assert(names[13] == "LAND_ARMED"@);
    assert(names[14] == "GPWS_INHIBIT"@);
    assert(names[15] == "TCAS_TA_ON"@);
    assert(names[16] == "AUTOBRAKE_ON"@);
    assert(names[17] == "AUTO_THRUST_LVR"@);
    assert(names[18] == "FLARE_MODE"@);
}

} // verus!
