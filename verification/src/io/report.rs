use vstd::prelude::*;
use vstd::string::StringExecFns;
use crate::protocol::types::{PayloadFormat, SsmSign};
use crate::protocol::dictionary::LabelDefinition;
use crate::protocol::word::{
    ArincWord, reversed_u8, raw_label_of, sdi_of, data_of, ssm_code_of, parity_bit_of,
    has_odd_parity,
};
use crate::text::{
    decimal_digits, radix_digits, digit_char, pad_left, spaces, push_decimal, push_radix_digits,
    push_padded, push_char,
};

verus! {

/// `v` in decimal, zero-padded to at least `width` digits.
pub open spec fn zero_padded(v: nat, width: nat) -> Seq<char> {
    Seq::new(
        if decimal_digits(v).len() < width {
            (width - decimal_digits(v).len()) as nat
        } else {
            0
        },
        |i: int| '0',
    ) + decimal_digits(v)
}

/// `v` in upper-case hex, without leading zeros.
pub open spec fn hex_min(v: nat) -> Seq<char>
    decreases v,
{
    if v < 16 {
        seq![digit_char(v)]
    } else {
        hex_min(v / 16).push(digit_char(v % 16))
    }
}

/// `s` left-aligned in a field of `width` characters.
pub open spec fn pad_right(s: Seq<char>, width: nat) -> Seq<char> {
    s + spaces(width - s.len())
}

/// `true` or `false`.
pub open spec fn bool_text(b: bool) -> Seq<char> {
    if b {
        "true"@
    } else {
        "false"@
    }
}

fn push_zero_padded(s: &mut String, v: u64, width: usize)
    ensures
        final(s)@ == old(s)@ + zero_padded(v as nat, width as nat),
{
    let digits = crate::text::decimal_string(v);
    let len = digits.unicode_len();
    let ghost start = s@;
    let mut k = len;
    while k < width
        invariant
            len == decimal_digits(v as nat).len(),
            len <= k <= width || (k == len && len >= width),
            s@ == start + Seq::new((k - len) as nat, |i: int| '0'),
        decreases width - k,
    {
        push_char(s, '0');
        proof {
            assert(Seq::new((k + 1 - len) as nat, |i: int| '0') =~= Seq::new(
                (k - len) as nat,
                |i: int| '0',
            ).push('0'));
        }
        k = k + 1;
    }
    s.append(digits.as_str());
    assert(s@ =~= start + zero_padded(v as nat, width as nat));
}

fn push_hex_min(s: &mut String, v: u32)
    ensures
        final(s)@ == old(s)@ + hex_min(v as nat),
    decreases v,
{
    if v >= 16 {
        push_hex_min(s, v / 16);
    }
    push_radix_digits(s, v % 16, 1, 16);
    proof {
        assert(radix_digits((v % 16) as nat, 1, 16) =~= seq![digit_char((v % 16) as nat)]) by {
            reveal_with_fuel(radix_digits, 2);
        }
    }
    assert(s@ =~= old(s)@ + hex_min(v as nat));
}

/// The binary form of the word with raw bits `raw`: its fields, separated
/// by underscores.
pub open spec fn binary_fields(raw: u32) -> Seq<char> {
    radix_digits(reversed_u8(raw_label_of(raw)) as nat, 8, 2) + "_"@ + radix_digits(
        sdi_of(raw) as nat,
        2,
        2,
    ) + "_"@ + radix_digits(data_of(raw) as nat, 19, 2) + "_"@ + radix_digits(
        ssm_code_of(raw) as nat,
        2,
        2,
    ) + "_"@ + radix_digits(
        if parity_bit_of(raw) {
            1nat
        } else {
            0nat
        },
        1,
        2,
    )
}

/// The header line of the breakdown: word number, hex and binary forms.
pub open spec fn bitwise_header(raw: u32, index: usize) -> Seq<char> {
    "WORD #"@ + zero_padded(index as nat, 6) + " = 0x"@ + radix_digits(raw as nat, 8, 16)
        + " = 0b"@ + binary_fields(raw) + "\n"@
}

/// The label and SDI lines of the breakdown.
pub open spec fn bitwise_label_sdi(raw: u32) -> Seq<char> {
    let label = reversed_u8(raw_label_of(raw));
    "  ├─ Label:  bits 1-8  = 0x"@ + radix_digits(label as nat, 2, 16) + " (octal "@
        + radix_digits(label as nat, 3, 8) + ")\n"@ + "  ├─ SDI:    bits 9-10 = 0b"@
        + radix_digits(sdi_of(raw) as nat, 2, 2) + " ("@ + decimal_digits(sdi_of(raw) as nat)
        + ")\n"@
}

/// The payload, SSM and parity lines of the breakdown.
pub open spec fn bitwise_rest(raw: u32) -> Seq<char> {
    "  ├─ DATA:   bits 11-29 = 0x"@ + radix_digits(data_of(raw) as nat, 5, 16) + " (unsigned "@
        + decimal_digits(data_of(raw) as nat) + ")\n"@ + "  ├─ SSM:    bits 30-31 = 0b"@
        + radix_digits(ssm_code_of(raw) as nat, 2, 2) + " ("@ + ssm_text(ssm_code_of(raw))
        + ")\n"@ + "  └─ PARITY: bit 32     = "@ + (if parity_bit_of(raw) {
        "1"@
    } else {
        "0"@
    }) + " (valid: "@ + bool_text(has_odd_parity(raw)) + ")"@
}

/// The field-by-field breakdown of the word with raw bits `raw`, shown as
/// word number `index`.
pub open spec fn bitwise_report_text(raw: u32, index: usize) -> Seq<char> {
    bitwise_header(raw, index) + bitwise_label_sdi(raw) + bitwise_rest(raw)
}

/// The text of the matrix value with code `code`.
pub open spec fn ssm_text(code: u8) -> Seq<char> {
    if code == 0 {
        SsmSign::Plus.text()
    } else if code == 1 {
        SsmSign::Minus.text()
    } else if code == 2 {
        SsmSign::No.text()
    } else {
        SsmSign::Spare.text()
    }
}

proof fn lemma_ssm_text(s: SsmSign)
    ensures
        ssm_text(s.code()) == s.text(),
{
}

fn push_bitwise_header(t: &mut String, word: &ArincWord, index: usize)
    ensures
        final(t)@ == old(t)@ + bitwise_header(word.raw_bits(), index),
{
    t.append("WORD #");
    push_zero_padded(t, index as u64, 6);
    t.append(" = 0x");
    push_radix_digits(t, word.raw(), 8, 16);
    t.append(" = 0b");
    let bin = word.to_binary_str();
    t.append(bin.as_str());
    t.append("\n");
    assert(t@ =~= old(t)@ + bitwise_header(word.raw_bits(), index));
}

fn push_bitwise_label_sdi(t: &mut String, word: &ArincWord)
    ensures
        final(t)@ == old(t)@ + bitwise_label_sdi(word.raw_bits()),
{
    let label = word.label();
    let sdi = word.sdi();
    t.append("  ├─ Label:  bits 1-8  = 0x");
    push_radix_digits(t, label as u32, 2, 16);
    t.append(" (octal ");
    push_radix_digits(t, label as u32, 3, 8);
    t.append(")\n");
    t.append("  ├─ SDI:    bits 9-10 = 0b");
    push_radix_digits(t, sdi as u32, 2, 2);
    t.append(" (");
    push_decimal(t, sdi as u64);
    t.append(")\n");
    assert(t@ =~= old(t)@ + bitwise_label_sdi(word.raw_bits()));
}

#[verifier::rlimit(30)]
fn push_bitwise_rest(t: &mut String, word: &ArincWord)
    ensures
        final(t)@ == old(t)@ + bitwise_rest(word.raw_bits()),
{
    let data = word.data();
    let ssm = word.ssm();
    proof {
        lemma_ssm_text(ssm);
    }
    t.append("  ├─ DATA:   bits 11-29 = 0x");
    push_radix_digits(t, data, 5, 16);
    t.append(" (unsigned ");
    push_decimal(t, data as u64);
    t.append(")\n");
    t.append("  ├─ SSM:    bits 30-31 = 0b");
    push_radix_digits(t, ssm.to_bits() as u32, 2, 2);
    t.append(" (");
    t.append(ssm.as_str());
    t.append(")\n");
    t.append("  └─ PARITY: bit 32     = ");
    if word.parity_bit() {
        t.append("1");
    } else {
        t.append("0");
    }
    t.append(" (valid: ");
    if word.parity_valid() {
        t.append("true");
    } else {
        t.append("false");
    }
    t.append(")");
    assert(t@ =~= old(t)@ + bitwise_rest(word.raw_bits()));
}

/// The word's fields, one line each, under a header with its number, hex
/// and binary forms (lines separated by line feeds, none after the last).
pub fn bitwise_report(word: &ArincWord, index: usize) -> (t: String)
    ensures
        t@ == bitwise_report_text(word.raw_bits(), index),
{
    let mut t = String::new();
    push_bitwise_header(&mut t, word, index);
    push_bitwise_label_sdi(&mut t, word);
    push_bitwise_rest(&mut t, word);
    assert(t@ =~= bitwise_report_text(word.raw_bits(), index));
    t
}

/// One row of the compact listing: the word number, label, SDI, SSM text,
/// payload in hex, parity verdict, equipment and value, separated by bars
/// and aligned in columns.
pub open spec fn compact_line_text(index: usize, raw: u32, equipment: Seq<char>, value: Seq<char>) -> Seq<char> {
    pad_left(decimal_digits(index as nat), 6) + " | "@ + pad_left(
        radix_digits(reversed_u8(raw_label_of(raw)) as nat, 3, 8),
        3,
    ) + " | "@ + pad_left(decimal_digits(sdi_of(raw) as nat), 1) + " | "@ + pad_left(
        ssm_text(ssm_code_of(raw)),
        6,
    ) + " | "@ + pad_left(hex_min(data_of(raw) as nat), 8) + " | "@ + pad_left(
        if has_odd_parity(raw) {
            "OK"@
        } else {
            "PE"@
        },
        2,
    ) + " | "@ + pad_right(equipment, 10) + " | "@ + value
}

/// The compact listing row of `word`, shown as word number `index`.
pub fn compact_line(index: usize, word: &ArincWord, equipment: &str, value: &str) -> (t: String)
    ensures
        t@ == compact_line_text(index, word.raw_bits(), equipment@, value@),
{
    let ssm = word.ssm();
    proof {
        lemma_ssm_text(ssm);
    }
    let mut t = String::new();
    let idx = crate::text::decimal_string(index as u64);
    push_padded(&mut t, idx.as_str(), 6);
    t.append(" | ");
    let lbl = word.label_octal_str();
    push_padded(&mut t, lbl.as_str(), 3);
    t.append(" | ");
    let sdi = crate::text::decimal_string(word.sdi() as u64);
    push_padded(&mut t, sdi.as_str(), 1);
    t.append(" | ");
    push_padded(&mut t, ssm.as_str(), 6);
    t.append(" | ");
    let mut hex = String::new();
    push_hex_min(&mut hex, word.data());
    push_padded(&mut t, hex.as_str(), 8);
    t.append(" | ");
    if word.parity_valid() {
        push_padded(&mut t, "OK", 2);
    } else {
        push_padded(&mut t, "PE", 2);
    }
    t.append(" | ");
    let start = t.unicode_len();
    t.append(equipment);
    let eq_len = equipment.unicode_len();
    let mut k = eq_len;
    let ghost before_pad = t@;
    while k < 10
        invariant
            eq_len == equipment@.len(),
            eq_len <= k <= 10 || (k == eq_len && eq_len >= 10),
            t@ == before_pad + spaces(k - eq_len),
        decreases 10 - k,
    {
        push_char(&mut t, ' ');
        proof {
            assert(spaces(k + 1 - eq_len) =~= spaces(k - eq_len).push(' '));
        }
        k = k + 1;
    }
    t.append(" | ");
    t.append(value);
    proof {
        assert(spaces(k - eq_len) =~= spaces(10 - eq_len));
    }
    assert(t@ =~= compact_line_text(index, word.raw_bits(), equipment@, value@));
    t
}

/// The first part of the one-line description: label in octal and hex,
/// SDI and payload.
pub open spec fn word_text_fields(raw: u32) -> Seq<char> {
    let label = reversed_u8(raw_label_of(raw));
    "LABEL="@ + radix_digits(label as nat, 3, 8) + " (0x"@ + radix_digits(label as nat, 2, 16)
        + ")  SDI="@ + decimal_digits(sdi_of(raw) as nat) + "  DATA=0x"@ + radix_digits(
        data_of(raw) as nat,
        5,
        16,
    )
}

/// The rest of the one-line description: SSM, parity bit and verdict, raw
/// bits.
pub open spec fn word_text_status(raw: u32) -> Seq<char> {
    "  SSM="@ + ssm_text(ssm_code_of(raw)) + "  PARITY="@ + (if parity_bit_of(raw) {
        "1"@
    } else {
        "0"@
    }) + " ["@ + (if has_odd_parity(raw) {
        "✓"@
    } else {
        "✗"@
    }) + "]  RAW=0x"@ + radix_digits(raw as nat, 8, 16)
}

/// The one-line description of the word with raw bits `raw`.
pub open spec fn word_text(raw: u32) -> Seq<char> {
    word_text_fields(raw) + word_text_status(raw)
}

fn push_word_fields(t: &mut String, word: &ArincWord)
    ensures
        final(t)@ == old(t)@ + word_text_fields(word.raw_bits()),
{
    t.append("LABEL=");
    push_radix_digits(t, word.label() as u32, 3, 8);
    t.append(" (0x");
    push_radix_digits(t, word.label() as u32, 2, 16);
    t.append(")  SDI=");
    push_decimal(t, word.sdi() as u64);
    t.append("  DATA=0x");
    push_radix_digits(t, word.data(), 5, 16);
    assert(t@ =~= old(t)@ + word_text_fields(word.raw_bits()));
}

fn push_word_status(t: &mut String, word: &ArincWord)
    ensures
        final(t)@ == old(t)@ + word_text_status(word.raw_bits()),
{
    let ssm = word.ssm();
    proof {
        lemma_ssm_text(ssm);
    }
    t.append("  SSM=");
    t.append(ssm.as_str());
    t.append("  PARITY=");
    if word.parity_bit() {
        t.append("1");
    } else {
        t.append("0");
    }
    t.append(" [");
    if word.parity_valid() {
        t.append("✓");
    } else {
        t.append("✗");
    }
    t.append("]  RAW=0x");
    push_radix_digits(t, word.raw(), 8, 16);
    assert(t@ =~= old(t)@ + word_text_status(word.raw_bits()));
}

impl ArincWord {
    /// The one-line description of the word.
    pub fn display_text(&self) -> (t: String)
        ensures
            t@ == word_text(self.raw_bits()),
    {
        let mut t = String::new();
        push_word_fields(&mut t, self);
        push_word_status(&mut t, self);
        assert(t@ =~= word_text(self.raw_bits()));
        t
    }
}

// ---------------------------------------------------------------------------
// The pretty listing
// ---------------------------------------------------------------------------

/// The tag of a payload format in the pretty listing.
pub open spec fn pretty_tag(f: PayloadFormat) -> Seq<char> {
    match f {
        PayloadFormat::Bnr => "[BNR]"@,
        PayloadFormat::Bcd => "[BCD]"@,
        PayloadFormat::Discrete => "[DSC]"@,
        _ => "[SYS]"@,
    }
}

/// The label part of a pretty row: the label in octal, then the format tag,
/// parameter and equipment of its definition, or `UNKNOWN`.
pub open spec fn pretty_label(raw: u32, label: Option<&LabelDefinition>) -> Seq<char> {
    let oct = radix_digits(reversed_u8(raw_label_of(raw)) as nat, 3, 8);
    match label {
        Some(d) => "LBL="@ + oct + " "@ + pretty_tag(d.format) + " "@ + d.param_name@ + " "@
            + d.equipment@,
        None => "LBL="@ + oct + " UNKNOWN"@,
    }
}

/// The main line of a pretty row: word number, label part, SDI, SSM text,
/// parity verdict and bit, and the result text.
pub open spec fn pretty_main(
    index: usize,
    raw: u32,
    label: Option<&LabelDefinition>,
    result: Seq<char>,
) -> Seq<char> {
    "["@ + pad_left(decimal_digits(index as nat), 6) + "] "@ + pretty_label(raw, label) + " SDI="@
        + decimal_digits(sdi_of(raw) as nat) + "  SSM="@ + ssm_text(ssm_code_of(raw)) + " "@ + (
    if has_odd_parity(raw) {
        "✓"@
    } else {
        "✗"@
    }) + "  P["@ + (if parity_bit_of(raw) {
        "1"@
    } else {
        "0"@
    }) + "]  "@ + result + "\n"@
}

/// The pretty row of a word, uncoloured: the main line, then on request the
/// hex and payload line, the binary line, and the label's description.
pub open spec fn pretty_text(
    index: usize,
    raw: u32,
    label: Option<&LabelDefinition>,
    result: Seq<char>,
    show_raw: bool,
    show_bits: bool,
    show_desc: bool,
) -> Seq<char> {
    pretty_main(index, raw, label, result) + (if show_raw {
        "         ↳ HEX: 0x"@ + radix_digits(raw as nat, 8, 16) + "  DATA: 0x"@ + radix_digits(
            data_of(raw) as nat,
            5,
            16,
        ) + "\n"@
    } else {
        Seq::empty()
    }) + (if show_bits {
        "         ↳ BIN: "@ + binary_fields(raw) + "\n"@
    } else {
        Seq::empty()
    }) + (match label {
        Some(d) => if show_desc {
            "         ↳ 💡 "@ + d.description@ + "\n"@
        } else {
            Seq::empty()
        },
        None => Seq::empty(),
    })
}

fn push_pretty_label(t: &mut String, word: &ArincWord, label: Option<&LabelDefinition>)
    ensures
        final(t)@ == old(t)@ + pretty_label(word.raw_bits(), label),
{
    t.append("LBL=");
    let oct = word.label_octal_str();
    t.append(oct.as_str());
    match label {
        Some(d) => {
            t.append(" ");
            t.append(pretty_tag_str(d.format));
            t.append(" ");
            t.append(d.param_name.as_str());
            t.append(" ");
            t.append(d.equipment.as_str());
        },
        None => {
            t.append(" UNKNOWN");
        },
    }
    assert(t@ =~= old(t)@ + pretty_label(word.raw_bits(), label));
}

fn push_pretty_main(
    t: &mut String,
    index: usize,
    word: &ArincWord,
    label: Option<&LabelDefinition>,
    result_text: &str,
)
    ensures
        final(t)@ == old(t)@ + pretty_main(index, word.raw_bits(), label, result_text@),
{
    let ssm = word.ssm();
    proof {
        lemma_ssm_text(ssm);
    }
    t.append("[");
    let idx = crate::text::decimal_string(index as u64);
    push_padded(t, idx.as_str(), 6);
    t.append("] ");
    push_pretty_label(t, word, label);
    t.append(" SDI=");
    push_decimal(t, word.sdi() as u64);
    t.append("  SSM=");
    t.append(ssm.as_str());
    t.append(" ");
    if word.parity_valid() {
        t.append("✓");
    } else {
        t.append("✗");
    }
    t.append("  P[");
    if word.parity_bit() {
        t.append("1");
    } else {
        t.append("0");
    }
    t.append("]  ");
    t.append(result_text);
    t.append("\n");
    assert(t@ =~= old(t)@ + pretty_main(index, word.raw_bits(), label, result_text@));
}

fn pretty_tag_str(f: PayloadFormat) -> (r: &'static str)
    ensures
        r@ == pretty_tag(f),
{
    match f {
        PayloadFormat::Bnr => "[BNR]",
        PayloadFormat::Bcd => "[BCD]",
        PayloadFormat::Discrete => "[DSC]",
        _ => "[SYS]",
    }
}

/// The pretty listing row of `word`, shown as word number `index`, without
/// colour: `label` is the definition of its label, if any, and `result_text`
/// the text of its decoding result. The hex and binary lines and the
/// description follow when `show_raw`, `show_bits` and `show_desc` ask.
pub fn pretty_line(
    index: usize,
    word: &ArincWord,
    label: Option<&LabelDefinition>,
    result_text: &str,
    show_raw: bool,
    show_bits: bool,
    show_desc: bool,
) -> (t: String)
    ensures
        t@ == pretty_text(index, word.raw_bits(), label, result_text@, show_raw, show_bits, show_desc),
{
    let mut t = String::new();
    push_pretty_main(&mut t, index, word, label, result_text);
    let ghost main = t@;
    if show_raw {
        t.append("         ↳ HEX: 0x");
        let hex = word.to_hex_str();
        t.append(hex.as_str());
        t.append("  DATA: 0x");
        push_radix_digits(&mut t, word.data(), 5, 16);
        t.append("\n");
    }
    let ghost with_raw = t@;
    if show_bits {
        t.append("         ↳ BIN: ");
        let bin = word.to_binary_str();
        t.append(bin.as_str());
        t.append("\n");
    }
    let ghost with_bits = t@;
    match label {
        Some(d) => {
            if show_desc {
                t.append("         ↳ 💡 ");
                t.append(d.description.as_str());
                t.append("\n");
            }
        },
        None => {},
    }
    assert(t@ =~= pretty_text(
        index,
        word.raw_bits(),
        label,
        result_text@,
        show_raw,
        show_bits,
        show_desc,
    ));
    t
}


/// The format tag of a pretty row names the payload format: `[BNR]` and
/// `[BCD]` bracket the breakdown's name of the format, discrete words are
/// `[DSC]` and the other formats `[SYS]`. Two formats share a tag only when
/// both are among the other formats.
pub proof fn law_pretty_tags(f: PayloadFormat, g: PayloadFormat)
    ensures
        f == PayloadFormat::Bnr ==> pretty_tag(f) == "[BNR]"@,
        f == PayloadFormat::Bcd ==> pretty_tag(f) == "[BCD]"@,
        f == PayloadFormat::Discrete ==> pretty_tag(f) == "[DSC]"@,
        f == PayloadFormat::Maintenance || f == PayloadFormat::Ack || f == PayloadFormat::Unknown
            ==> pretty_tag(f) == "[SYS]"@,
        f == PayloadFormat::Bnr || f == PayloadFormat::Bcd ==> pretty_tag(f) == "["@
            + crate::io::stats::format_tag_text(f) + "]"@,
        f != g && pretty_tag(f) == pretty_tag(g) ==> (f == PayloadFormat::Maintenance || f
            == PayloadFormat::Ack || f == PayloadFormat::Unknown) && (g == PayloadFormat::Maintenance
            || g == PayloadFormat::Ack || g == PayloadFormat::Unknown),
{
    reveal_strlit("[BNR]");
    reveal_strlit("[BCD]");
    reveal_strlit("[DSC]");
    reveal_strlit("[SYS]");
    reveal_strlit("[");
    reveal_strlit("]");
    reveal_strlit("BNR");
    reveal_strlit("BCD");
    assert("[BNR]"@ =~= "["@ + "BNR"@ + "]"@);
    assert("[BCD]"@ =~= "["@ + "BCD"@ + "]"@);
    assert("[BNR]"@[2] != "[BCD]"@[2]);
    assert("[BNR]"@[2] != "[DSC]"@[2]);
    assert("[BNR]"@[2] != "[SYS]"@[2]);
    assert("[BCD]"@[2] != "[DSC]"@[2]);
    assert("[BCD]"@[2] != "[SYS]"@[2]);
    assert("[DSC]"@[2] != "[SYS]"@[2]);
}

} // verus!
