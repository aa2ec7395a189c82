use vstd::prelude::*;

use crate::protocol::types::PayloadFormat;
use crate::protocol::word::{ArincWord, has_odd_parity, raw_label_of, reversed_u8, data_of};
use crate::io::stats::{DecodeOutcome, ErrorKind};
use crate::protocol::dictionary::{LabelDefinition, lookup_label, label_format, matches_dictionary};
use crate::decode::bnr::BnrDecoder;
use crate::decode::bcd::BcdDecoder;
use crate::decode::discrete::{
    IntegerReading, DiscreteBit, DiscreteWordDef, decode_discrete, decode_gear_discrete,
    decode_door_status, decode_anti_ice, decode_autopilot_modes, discrete_text, numbered_flags,
    bit_views, gear_flag_names, door_flag_names, anti_ice_flag_names, autopilot_flag_names,
};
use crate::text::{decimal_digits, decimal_string, radix_digits, push_radix_digits};

verus! {

/// What a word needs once the pipeline has admitted it.
#[derive(Debug)]
pub enum DecodePlan {
    /// The dictionary does not define the label.
    UnknownLabel,
    /// A binary payload, to be scaled by the label's resolution.
    Bnr(LabelDefinition),
    /// A decimal payload, to be scaled by the label's resolution.
    Bcd(LabelDefinition),
    /// A payload read in full as a whole number (discrete, maintenance and
    /// acknowledge words).
    Decoded(LabelDefinition, IntegerReading),
    /// A format the pipeline does not decode.
    FormatNotSupported(LabelDefinition),
}

/// Filters and routes words to their decoders.
pub struct WordPipeline {
    bnr: BnrDecoder,
    bcd: BcdDecoder,
    skip_parity_invalid: bool,
    only_known_labels: bool,
}

/// The label a raw word is looked up by in the dictionary: its label byte
/// as transmitted.
pub open spec fn word_label(raw: u32) -> u16 {
    raw_label_of(raw) as u16
}

/// `BIT0`, `BIT1`, ... `BIT18`: the flag names of discrete labels without
/// a word definition of their own.
pub open spec fn generic_flag_names() -> Seq<Seq<char>> {
    Seq::new(19, |i: int| "BIT"@ + decimal_digits(i as nat))
}

/// The flags a discrete label's payload is read with.
pub open spec fn discrete_word_text(label: u16, data: u32, param_name: Seq<char>) -> Seq<char> {
    if label == 0o102 {
        discrete_text(data, "LANDING_GEAR"@, numbered_flags(gear_flag_names()))
    } else if label == 0o103 {
        discrete_text(data, "DOOR_STATUS"@, numbered_flags(door_flag_names()))
    } else if label == 0o104 {
        discrete_text(data, "ANTI_ICE"@, numbered_flags(anti_ice_flag_names()))
    } else if label == 0o105 {
        discrete_text(data, "A/P MODES"@, numbered_flags(autopilot_flag_names()))
    } else {
        discrete_text(data, param_name, numbered_flags(generic_flag_names()))
    }
}

/// The reading of a payload that the pipeline decodes in full, by format.
pub open spec fn integer_reading_matches(
    r: IntegerReading,
    format: PayloadFormat,
    label: u16,
    data: u32,
    param_name: Seq<char>,
) -> bool {
    &&& r.value == data
    &&& format == PayloadFormat::Discrete ==> {
        &&& r.unit@ == "bitmask"@
        &&& r.display@ == discrete_word_text(label, data, param_name)
    }
    &&& (format == PayloadFormat::Maintenance || format == PayloadFormat::Ack) ==> {
        &&& r.unit@ == "hex"@
        &&& r.display@ == param_name + " 0x"@ + radix_digits(data as nat, 5, 16)
    }
}

/// The plan for a word that is admitted, by the format of its label.
pub open spec fn plan_matches(plan: DecodePlan, raw: u32) -> bool {
    let label = word_label(raw);
    match label_format(label) {
        None => plan is UnknownLabel,
        Some(format) => match plan {
            DecodePlan::UnknownLabel => false,
            DecodePlan::Bnr(d) => format == PayloadFormat::Bnr && matches_dictionary(d, label),
            DecodePlan::Bcd(d) => format == PayloadFormat::Bcd && matches_dictionary(d, label),
            DecodePlan::Decoded(d, r) => {
                &&& (format == PayloadFormat::Discrete || format == PayloadFormat::Maintenance
                    || format == PayloadFormat::Ack)
                &&& matches_dictionary(d, label)
                &&& integer_reading_matches(r, format, label, data_of(raw), d.param_name@)
            },
            DecodePlan::FormatNotSupported(d) => format == PayloadFormat::Unknown
                && matches_dictionary(d, label),
        },
    }
}

fn generic_discrete_bits() -> (bits: Vec<DiscreteBit>)
    ensures
        bit_views(bits@) == numbered_flags(generic_flag_names()),
{
    let mut bits: Vec<DiscreteBit> = Vec::new();
    for i in 0..19u8
        invariant
            bit_views(bits@) =~= numbered_flags(generic_flag_names()).take(i as int),
    {
        let mut name = String::from_str("BIT");
        let digits = decimal_string(i as u64);
        name.append(digits.as_str());
        let b = DiscreteBit::new(i, name.as_str());
        let ghost before = bits@;
        bits.push(b);
        assert(bit_views(bits@) =~= bit_views(before).push(
            (i, "BIT"@ + decimal_digits(i as nat), true),
        ));
        assert(bit_views(bits@) =~= numbered_flags(generic_flag_names()).take(i + 1));
    }
    assert(numbered_flags(generic_flag_names()).take(19) =~= numbered_flags(generic_flag_names()));
    bits
}

impl WordPipeline {
    pub closed spec fn skips_parity_invalid(self) -> bool {
        self.skip_parity_invalid
    }

    pub closed spec fn keeps_only_known_labels(self) -> bool {
        self.only_known_labels
    }

    /// A pipeline that admits every word.
    pub fn new() -> (p: Self)
        ensures
            !p.skips_parity_invalid(),
            !p.keeps_only_known_labels(),
    {
        WordPipeline {
            bnr: BnrDecoder::new(),
            bcd: BcdDecoder::new(),
            skip_parity_invalid: false,
            only_known_labels: false,
        }
    }

    /// Whether words with bad parity are left out.
    pub fn skip_parity_invalid(self, skip: bool) -> (p: Self)
        ensures
            p.skips_parity_invalid() == skip,
            p.keeps_only_known_labels() == self.keeps_only_known_labels(),
    {
        let mut p = self;
        p.skip_parity_invalid = skip;
        p
    }

    /// Whether words whose label the dictionary does not define are left out.
    pub fn only_known_labels(self, only: bool) -> (p: Self)
        ensures
            p.keeps_only_known_labels() == only,
            p.skips_parity_invalid() == self.skips_parity_invalid(),
    {
        let mut p = self;
        p.only_known_labels = only;
        p
    }

    /// The pipeline admits the raw word `raw`.
    pub open spec fn admits(self, raw: u32) -> bool {
        &&& !(self.skips_parity_invalid() && !has_odd_parity(raw))
        &&& !(self.keeps_only_known_labels() && label_format(word_label(raw)) is None)
    }

    /// Decides what becomes of `word`: `None` when the pipeline leaves it
    /// out, else the decoding its label calls for. Discrete, maintenance and
    /// acknowledge payloads are decoded here in full.
    pub fn plan_word(&self, word: &ArincWord) -> (r: Option<DecodePlan>)
        ensures
            r is Some <==> self.admits(word.raw_bits()),
            r matches Some(plan) ==> plan_matches(plan, word.raw_bits()),
    {
        if self.skip_parity_invalid && !word.parity_valid() {
            return None;
        }
        let label = word.raw_label() as u16;
        let label_def = lookup_label(label);
        if self.only_known_labels && label_def.is_none() {
            return None;
        }
        match label_def {
            None => Some(DecodePlan::UnknownLabel),
            Some(def) => Some(self.plan_known(word, def)),
        }
    }

    fn plan_known(&self, word: &ArincWord, def: LabelDefinition) -> (plan: DecodePlan)
        requires
            label_format(word_label(word.raw_bits())) is Some,
            matches_dictionary(def, word_label(word.raw_bits())),
        ensures
            plan_matches(plan, word.raw_bits()),
    {
        let data = word.data();
        match def.format {
            PayloadFormat::Bnr => DecodePlan::Bnr(def),
            PayloadFormat::Bcd => DecodePlan::Bcd(def),
            PayloadFormat::Discrete => {
                let reading = if def.label_octal == 0o102 {
                    decode_gear_discrete(data)
                } else if def.label_octal == 0o103 {
                    decode_door_status(data)
                } else if def.label_octal == 0o104 {
                    decode_anti_ice(data)
                } else if def.label_octal == 0o105 {
                    decode_autopilot_modes(data)
                } else {
                    let bits = generic_discrete_bits();
                    let generic_def = DiscreteWordDef::new(def.param_name.as_str(), bits);
                    proof {
                        assert forall|i: int|
                            0 <= i < bit_views(generic_def.bits@).len() implies (#[trigger] bit_views(
                            generic_def.bits@,
                        )[i]).0 < 32 by {
                            assert(bit_views(generic_def.bits@)[i] == numbered_flags(
                                generic_flag_names(),
                            )[i]);
                        }
                    }
                    decode_discrete(data, &generic_def)
                };
                DecodePlan::Decoded(def, reading)
            },
            PayloadFormat::Maintenance | PayloadFormat::Ack => {
                let mut display = def.param_name.clone();
                display.append(" 0x");
                push_radix_digits(&mut display, data, 5, 16);
                let reading = IntegerReading {
                    value: data,
                    unit: String::from_str("hex"),
                    display,
                };
                DecodePlan::Decoded(def, reading)
            },
            PayloadFormat::Unknown => DecodePlan::FormatNotSupported(def),
        }
    }
}

/// The outcome of a word with plan `plan`: decoded for a payload read in
/// full, failed for an unknown label or an unsupported format, and for a
/// BNR or BCD payload `scaled`, the outcome of scaling it.
pub open spec fn plan_outcome(plan: DecodePlan, scaled: DecodeOutcome) -> DecodeOutcome {
    match plan {
        DecodePlan::UnknownLabel => DecodeOutcome::Failure(ErrorKind::UnknownLabel),
        DecodePlan::Bnr(_) => scaled,
        DecodePlan::Bcd(_) => scaled,
        DecodePlan::Decoded(d, _) => DecodeOutcome::Success(Some(d.format)),
        DecodePlan::FormatNotSupported(_) => DecodeOutcome::Failure(ErrorKind::FormatNotSupported),
    }
}

/// The entry of a run for word `w`: `None` when the pipeline left it out,
/// else its (bit-reversed) label and the outcome of its plan.
pub open spec fn run_entry(w: ArincWord, plan: Option<DecodePlan>, scaled: DecodeOutcome) -> Option<
    (u16, DecodeOutcome),
> {
    match plan {
        None => None,
        Some(p) => Some(
            (reversed_u8(raw_label_of(w.raw_bits())) as u16, plan_outcome(p, scaled)),
        ),
    }
}

impl WordPipeline {
    /// The plan of every word, in order.
    pub fn plan_run(&self, words: &Vec<ArincWord>) -> (plans: Vec<Option<DecodePlan>>)
        ensures
            plans@.len() == words@.len(),
            forall|i: int|
                0 <= i < words@.len() ==> (#[trigger] plans@[i] is Some <==> self.admits(
                    words@[i].raw_bits(),
                )),
            forall|i: int|
                0 <= i < words@.len() ==> (#[trigger] plans@[i] matches Some(p) ==> plan_matches(
                    p,
                    words@[i].raw_bits(),
                )),
    {
        let mut plans: Vec<Option<DecodePlan>> = Vec::new();
        for i in 0..words.len()
            invariant
                plans@.len() == i,
                forall|j: int|
                    0 <= j < i ==> (#[trigger] plans@[j] is Some <==> self.admits(
                        words@[j].raw_bits(),
                    )),
                forall|j: int|
                    0 <= j < i ==> (#[trigger] plans@[j] matches Some(p) ==> plan_matches(
                        p,
                        words@[j].raw_bits(),
                    )),
        {
            let plan = self.plan_word(&words[i]);
            plans.push(plan);
        }
        plans
    }
}

/// The outcome of the word with plan `plan`, where `scaled` is the outcome
/// of scaling its payload when the plan is BNR or BCD.
pub fn outcome_of_plan(plan: &DecodePlan, scaled: DecodeOutcome) -> (o: DecodeOutcome)
    ensures
        o == plan_outcome(*plan, scaled),
{
    match plan {
        DecodePlan::UnknownLabel => DecodeOutcome::Failure(ErrorKind::UnknownLabel),
        DecodePlan::Bnr(_) => scaled,
        DecodePlan::Bcd(_) => scaled,
        DecodePlan::Decoded(d, _) => DecodeOutcome::Success(Some(d.format)),
        DecodePlan::FormatNotSupported(_) => DecodeOutcome::Failure(ErrorKind::FormatNotSupported),
    }
}

/// The run of a batch of words: word by word, `None` for a word left out,
/// else its label and outcome. `plans` are the words' plans and `scaled`
/// the outcomes of scaling their BNR and BCD payloads (unread for others).
pub fn run_of_plans(
    words: &Vec<ArincWord>,
    plans: &Vec<Option<DecodePlan>>,
    scaled: &Vec<DecodeOutcome>,
) -> (run: Vec<Option<(u16, DecodeOutcome)>>)
    requires
        plans@.len() == words@.len(),
        scaled@.len() == words@.len(),
    ensures
        run@.len() == words@.len(),
        forall|i: int|
            0 <= i < words@.len() ==> #[trigger] run@[i] == run_entry(
                words@[i],
                plans@[i],
                scaled@[i],
            ),
{
    let mut run: Vec<Option<(u16, DecodeOutcome)>> = Vec::new();
    for i in 0..words.len()
        invariant
            plans@.len() == words@.len(),
            scaled@.len() == words@.len(),
            run@.len() == i,
            forall|j: int|
                0 <= j < i ==> #[trigger] run@[j] == run_entry(words@[j], plans@[j], scaled@[j]),
    {
        let entry = match &plans[i] {
            None => None,
            Some(p) => Some((words[i].label_octal(), outcome_of_plan(p, scaled[i]))),
        };
        run.push(entry);
    }
    run
}

/// A discrete word is read with the flags of its own label: label 102 as
/// the landing-gear word, 103 as the door-status word, 104 as the anti-ice
/// word and 105 as the autopilot-modes word, each under its own name.
pub proof fn law_discrete_labels_read_their_word(plan: DecodePlan, raw: u32)
    requires
        plan_matches(plan, raw),
    ensures
        word_label(raw) == 0o102 ==> (plan matches DecodePlan::Decoded(_, r) && r.display@
            == discrete_text(data_of(raw), "LANDING_GEAR"@, numbered_flags(gear_flag_names()))),
        word_label(raw) == 0o103 ==> (plan matches DecodePlan::Decoded(_, r) && r.display@
            == discrete_text(data_of(raw), "DOOR_STATUS"@, numbered_flags(door_flag_names()))),
        word_label(raw) == 0o104 ==> (plan matches DecodePlan::Decoded(_, r) && r.display@
            == discrete_text(data_of(raw), "ANTI_ICE"@, numbered_flags(anti_ice_flag_names()))),
        word_label(raw) == 0o105 ==> (plan matches DecodePlan::Decoded(_, r) && r.display@
            == discrete_text(data_of(raw), "A/P MODES"@, numbered_flags(autopilot_flag_names()))),
{
    crate::protocol::dictionary::law_label_formats(word_label(raw));
}

impl Default for WordPipeline {
    fn default() -> Self {
        Self::new()
    }
}

} // verus!
