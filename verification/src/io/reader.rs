use vstd::prelude::*;
use crate::protocol::word::{ArincWord, WordEndianness, has_odd_parity, le_value, be_value};
use crate::timing::timestamp::{Timestamp, PreciseClock};
use crate::TimedWord;
use vstd::string::StringSliceAdditionalSpecFns;

verus! {

/// `std::io::Error`, carried inside `ReaderError::Io`.
#[verifier::external_type_specification]
#[verifier::external_body]
pub struct ExIoError(std::io::Error);

/// Why a dump could not be read.
#[derive(Debug)]
pub enum ReaderError {
    Io(std::io::Error),
    InvalidFileSize(usize),
    ShortRead { read: usize, expected: usize, word_idx: usize },
}

/// Layout of a capture file.
#[derive(Debug, Clone, Copy, PartialEq, Eq, Structural)]
pub enum DumpFormat {
    RawBinary,
    HexText,
    PcapLe,
    PcapBe,
}

/// What a read of a dump produced, besides its words.
#[derive(Debug, Clone)]
pub struct ReaderStats {
    pub file_path: String,
    pub file_size_bytes: usize,
    pub total_words: usize,
    pub processed_words: usize,
    pub parity_errors: usize,
    pub parse_errors: usize,
    pub elapsed_ns: u128,
}

impl ReaderStats {
    pub fn new(path: String, file_size: usize, total: usize) -> (s: Self)
        ensures
            s.file_path@ == path@,
            s.file_size_bytes == file_size,
            s.total_words == total,
            s.processed_words == 0,
            s.parity_errors == 0,
            s.parse_errors == 0,
            s.elapsed_ns == 0,
    {
        ReaderStats {
            file_path: path,
            file_size_bytes: file_size,
            total_words: total,
            processed_words: 0,
            parity_errors: 0,
            parse_errors: 0,
            elapsed_ns: 0,
        }
    }
}

// ---------------------------------------------------------------------------
// Binary dumps: consecutive four-byte words.
// ---------------------------------------------------------------------------

/// The 32-bit value of the `i`-th four-byte group of `bytes`, read in `order`.
pub open spec fn word_value_at(bytes: Seq<u8>, i: int, order: WordEndianness) -> u32 {
    let group = bytes.subrange(4 * i, 4 * i + 4);
    if order == WordEndianness::Standard {
        le_value(group) as u32
    } else {
        be_value(group) as u32
    }
}

/// The values of all whole four-byte groups of `bytes`, in file order.
pub open spec fn binary_word_values(bytes: Seq<u8>, order: WordEndianness) -> Seq<u32> {
    Seq::new(bytes.len() / 4, |i: int| word_value_at(bytes, i, order))
}

/// The raw bits of each word.
pub open spec fn raw_values(words: Seq<ArincWord>) -> Seq<u32> {
    words.map_values(|w: ArincWord| w.raw_bits())
}

/// How many of the values fail the odd-parity check.
pub open spec fn parity_failures(values: Seq<u32>) -> nat
    decreases values.len(),
{
    if values.len() == 0 {
        0
    } else {
        parity_failures(values.drop_last()) + if has_odd_parity(values.last()) {
            0nat
        } else {
            1nat
        }
    }
}

/// Every word was read in `order`.
pub open spec fn all_in_order(words: Seq<ArincWord>, order: WordEndianness) -> bool {
    forall|i: int| 0 <= i < words.len() ==> (#[trigger] words[i]).byte_order() == order
}

proof fn lemma_push_words(words: Seq<ArincWord>, w: ArincWord)
    ensures
        raw_values(words.push(w)) == raw_values(words).push(w.raw_bits()),
        parity_failures(raw_values(words.push(w))) == parity_failures(raw_values(words)) + if has_odd_parity(w.raw_bits()) {
            0nat
        } else {
            1nat
        },
{
    assert(raw_values(words.push(w)) =~= raw_values(words).push(w.raw_bits()));
    assert(raw_values(words.push(w)).drop_last() =~= raw_values(words));
}

/// The four bytes of the `i`-th group.
fn group_at(bytes: &[u8], i: usize) -> (g: [u8; 4])
    requires
        4 * i + 4 <= bytes@.len(),
    ensures
        g@ == bytes@.subrange(4 * i as int, 4 * i + 4),
{
    let len = bytes.len();
    assert(4 * i + 4 <= len);
    let b = 4 * i;
    let g = [bytes[b], bytes[b + 1], bytes[b + 2], bytes[b + 3]];
    assert(g@ =~= bytes@.subrange(4 * i as int, 4 * i + 4));
    g
}

/// Decodes each whole four-byte group of `bytes` in `order`; returns the
/// words and how many of them fail the parity check.
fn decode_groups(bytes: &[u8], order: WordEndianness) -> (r: (Vec<ArincWord>, usize))
    ensures
        raw_values(r.0@) == binary_word_values(bytes@, order),
        all_in_order(r.0@, order),
        r.1 == parity_failures(raw_values(r.0@)),
{
    let n = bytes.len() / 4;
    let mut words: Vec<ArincWord> = Vec::with_capacity(n);
    let mut failures: usize = 0;
    let mut i: usize = 0;
    while i < n
        invariant
            n == bytes@.len() / 4,
            i <= n,
            words@.len() == i,
            raw_values(words@) =~= binary_word_values(bytes@, order).take(i as int),
            all_in_order(words@, order),
            failures == parity_failures(raw_values(words@)),
            failures <= i,
        decreases n - i,
    {
        let g = group_at(bytes, i);
        let w = match order {
            WordEndianness::Standard => ArincWord::from_bytes_le(&g),
            WordEndianness::Reversed => ArincWord::from_bytes_be(&g),
        };
        let bad = !w.parity_valid();
        proof {
            lemma_push_words(words@, w);
            assert(binary_word_values(bytes@, order).take(i + 1) =~= binary_word_values(
                bytes@,
                order,
            ).take(i as int).push(word_value_at(bytes@, i as int, order)));
        }
        words.push(w);
        if bad {
            failures = failures + 1;
        }
        i = i + 1;
    }
    assert(binary_word_values(bytes@, order).take(n as int) =~= binary_word_values(bytes@, order));
    (words, failures)
}

// ---------------------------------------------------------------------------
// Hex text dumps: one word of eight hex digits per line.
// ---------------------------------------------------------------------------

/// A line of a hex text dump that held other than eight hex digits: its
/// number (from 1), how many hex digits it held, and the byte range of the
/// line with surrounding whitespace removed.
#[derive(Debug, Clone, Copy, PartialEq, Eq, Structural)]
pub struct HexLineWarning {
    pub line_number: usize,
    pub hex_digits: usize,
    pub start: usize,
    pub end: usize,
}

/// Position of the first line feed at or after `from`, or the end of `t`.
pub open spec fn line_end(t: Seq<u8>, from: int) -> int
    decreases t.len() - from,
{
    if from < 0 || from >= t.len() {
        t.len() as int
    } else if t[from] == 10 {
        from
    } else {
        line_end(t, from + 1)
    }
}

pub proof fn lemma_line_end_bounds(t: Seq<u8>, from: int)
    requires
        0 <= from <= t.len(),
    ensures
        from <= line_end(t, from) <= t.len(),
    decreases t.len() - from,
{
    if from < t.len() && t[from] != 10 {
        lemma_line_end_bounds(t, from + 1);
    }
}

/// The three UTF-8 bytes encode one of U+1680, U+2000..U+200A, U+2028,
/// U+2029, U+202F, U+205F or U+3000.
pub open spec fn is_wide_space(a: u8, b: u8, c: u8) -> bool {
    ||| a == 0xE1 && b == 0x9A && c == 0x80
    ||| a == 0xE2 && b == 0x80 && ((0x80 <= c <= 0x8A) || c == 0xA8 || c == 0xA9 || c == 0xAF)
    ||| a == 0xE2 && b == 0x81 && c == 0x9F
    ||| a == 0xE3 && b == 0x80 && c == 0x80
}

/// The byte is ASCII whitespace: tab, line feed, vertical tab, form feed,
/// carriage return or space.
pub open spec fn is_ascii_space(b: u8) -> bool {
    b == 0x20 || (0x09 <= b <= 0x0D)
}

/// Length of the white-space character (Unicode `White_Space`) encoded in
/// UTF-8 at `i`, within `[i, e)`; 0 when there is none.
pub open spec fn space_len_at(t: Seq<u8>, i: int, e: int) -> int {
    if i < e && is_ascii_space(t[i]) {
        1
    } else if i + 2 <= e && t[i] == 0xC2 && (t[i + 1] == 0x85 || t[i + 1] == 0xA0) {
        2
    } else if i + 3 <= e && is_wide_space(t[i], t[i + 1], t[i + 2]) {
        3
    } else {
        0
    }
}

/// Length of the white-space character encoded in UTF-8 just before `e`,
/// within `[s, e)`; 0 when there is none.
pub open spec fn space_len_before(t: Seq<u8>, s: int, e: int) -> int {
    if s < e && is_ascii_space(t[e - 1]) {
        1
    } else if s + 2 <= e && t[e - 2] == 0xC2 && (t[e - 1] == 0x85 || t[e - 1] == 0xA0) {
        2
    } else if s + 3 <= e && is_wide_space(t[e - 3], t[e - 2], t[e - 1]) {
        3
    } else {
        0
    }
}

/// Start of `[s, e)` once leading white space is removed.
pub open spec fn trim_start_at(t: Seq<u8>, s: int, e: int) -> int
    decreases e - s,
{
    if s < e && space_len_at(t, s, e) > 0 {
        trim_start_at(t, s + space_len_at(t, s, e), e)
    } else {
        s
    }
}

/// End of `[s, e)` once trailing white space is removed.
pub open spec fn trim_end_at(t: Seq<u8>, s: int, e: int) -> int
    decreases e - s,
{
    if s < e && space_len_before(t, s, e) > 0 {
        trim_end_at(t, s, e - space_len_before(t, s, e))
    } else {
        e
    }
}

/// The byte is an ASCII hex digit.
pub open spec fn is_hex_byte(b: u8) -> bool {
    (48 <= b <= 57) || (65 <= b <= 70) || (97 <= b <= 102)
}

/// The value of a hex digit byte.
pub open spec fn hex_byte_value(b: u8) -> nat {
    if b <= 57 {
        (b - 48) as nat
    } else if b <= 70 {
        (b - 55) as nat
    } else {
        (b - 87) as nat
    }
}

/// A byte with ASCII letters turned to upper case.
pub open spec fn ascii_upper(b: u8) -> u8 {
    if 97 <= b <= 122 {
        (b - 32) as u8
    } else {
        b
    }
}

/// Hex digits have their hex values, case-blind: the bytes of `0`-`9` are
/// worth 0-9, and those of `A`-`F` and of `a`-`f` both 10-15. Any other
/// byte is no hex digit.
pub proof fn law_hex_digit_values(b: u8)
    ensures
        48 <= b <= 57 ==> is_hex_byte(b) && hex_byte_value(b) == b - 48,
        65 <= b <= 70 ==> is_hex_byte(b) && hex_byte_value(b) == b - 55,
        97 <= b <= 102 ==> is_hex_byte(b) && hex_byte_value(b) == b - 87,
        97 <= b <= 102 ==> hex_byte_value(b) == hex_byte_value(ascii_upper(b)),
        !(48 <= b <= 57 || 65 <= b <= 70 || 97 <= b <= 102) ==> !is_hex_byte(b),
{
}

/// Text and its upper-case form hold the same hex digits with the same
/// value: lower-case hex digits read as their upper-case forms.
pub proof fn law_hex_digits_case_blind(t: Seq<u8>, u: Seq<u8>, s: int, e: int)
    requires
        t.len() == u.len(),
        0 <= s,
        e <= t.len(),
        forall|i: int| 0 <= i < t.len() ==> u[i] == ascii_upper(#[trigger] t[i]),
    ensures
        hex_digit_count(u, s, e) == hex_digit_count(t, s, e),
        hex_digits_value(u, s, e) == hex_digits_value(t, s, e),
    decreases e - s,
{
    if e > s {
        law_hex_digits_case_blind(t, u, s, e - 1);
        assert(u[e - 1] == ascii_upper(t[e - 1]));
    }
}

/// Number of hex digit bytes in `[s, e)`.
pub open spec fn hex_digit_count(t: Seq<u8>, s: int, e: int) -> nat
    decreases e - s,
{
    if e <= s {
        0
    } else {
        hex_digit_count(t, s, e - 1) + if is_hex_byte(t[e - 1]) {
            1nat
        } else {
            0nat
        }
    }
}

/// The number written by the hex digit bytes of `[s, e)`, others skipped.
pub open spec fn hex_digits_value(t: Seq<u8>, s: int, e: int) -> nat
    decreases e - s,
{
    if e <= s {
        0
    } else if is_hex_byte(t[e - 1]) {
        hex_digits_value(t, s, e - 1) * 16 + hex_byte_value(t[e - 1])
    } else {
        hex_digits_value(t, s, e - 1)
    }
}

/// `16^n`
pub open spec fn pow16(n: nat) -> nat
    decreases n,
{
    if n == 0 {
        1
    } else {
        16 * pow16((n - 1) as nat)
    }
}

/// The trimmed line `[ts, te)` is blank, or a comment: it starts with `#`
/// or `//`.
pub open spec fn is_blank_or_comment(t: Seq<u8>, ts: int, te: int) -> bool {
    ||| ts >= te
    ||| t[ts] == 35
    ||| ts + 1 < te && t[ts] == 47 && t[ts + 1] == 47
}

/// What the lines of `t` from position `from` on yield, the first of them
/// being line number `line + 1`: the word values of the lines with exactly
/// eight hex digits, and a warning for each other line that is neither blank
/// nor a comment. Lines end at a line feed; white space around a line is
/// ignored, and bytes that are not hex digits are skipped.
pub open spec fn hex_scan(t: Seq<u8>, from: int, line: int) -> (Seq<u32>, Seq<HexLineWarning>)
    decreases t.len() - from,
{
    if from < 0 || from >= t.len() {
        (Seq::empty(), Seq::empty())
    } else {
        let e = line_end(t, from);
        proof {
            lemma_line_end_bounds(t, from);
        }
        let rest = if e < t.len() {
            hex_scan(t, e + 1, line + 1)
        } else {
            (Seq::empty(), Seq::empty())
        };
        let ts = trim_start_at(t, from, e);
        let te = trim_end_at(t, ts, e);
        let n = hex_digit_count(t, ts, te);
        if is_blank_or_comment(t, ts, te) {
            rest
        } else if n == 8 {
            (seq![hex_digits_value(t, ts, te) as u32] + rest.0, rest.1)
        } else {
            (
                rest.0,
                seq![
                    HexLineWarning {
                        line_number: (line + 1) as usize,
                        hex_digits: n as usize,
                        start: ts as usize,
                        end: te as usize,
                    },
                ] + rest.1,
            )
        }
    }
}

fn line_end_exec(t: &[u8], from: usize) -> (e: usize)
    requires
        from <= t@.len(),
    ensures
        e == line_end(t@, from as int),
{
    let mut i = from;
    while i < t.len() && t[i] != 10
        invariant
            from <= i <= t@.len(),
            line_end(t@, i as int) == line_end(t@, from as int),
        decreases t@.len() - i,
    {
        i = i + 1;
    }
    i
}

fn is_ascii_space_exec(b: u8) -> (r: bool)
    ensures
        r == is_ascii_space(b),
{
    b == 0x20 || (0x09 <= b && b <= 0x0D)
}

fn is_wide_space_exec(a: u8, b: u8, c: u8) -> (r: bool)
    ensures
        r == is_wide_space(a, b, c),
{
    (a == 0xE1 && b == 0x9A && c == 0x80) || (a == 0xE2 && b == 0x80 && ((0x80 <= c && c <= 0x8A)
        || c == 0xA8 || c == 0xA9 || c == 0xAF)) || (a == 0xE2 && b == 0x81 && c == 0x9F) || (a
        == 0xE3 && b == 0x80 && c == 0x80)
}

fn space_len_at_exec(t: &[u8], i: usize, e: usize) -> (r: usize)
    requires
        e <= t@.len(),
    ensures
        r == space_len_at(t@, i as int, e as int),
{
    if i < e && is_ascii_space_exec(t[i]) {
        1
    } else if i < e && e - i >= 2 && t[i] == 0xC2 && (t[i + 1] == 0x85 || t[i + 1] == 0xA0) {
        2
    } else if i < e && e - i >= 3 && is_wide_space_exec(t[i], t[i + 1], t[i + 2]) {
        3
    } else {
        0
    }
}

fn space_len_before_exec(t: &[u8], s: usize, e: usize) -> (r: usize)
    requires
        e <= t@.len(),
    ensures
        r == space_len_before(t@, s as int, e as int),
{
    if s < e && is_ascii_space_exec(t[e - 1]) {
        1
    } else if s < e && e - s >= 2 && t[e - 2] == 0xC2 && (t[e - 1] == 0x85 || t[e - 1] == 0xA0) {
        2
    } else if s < e && e - s >= 3 && is_wide_space_exec(t[e - 3], t[e - 2], t[e - 1]) {
        3
    } else {
        0
    }
}

/// `[s, e)` with surrounding white space removed.
fn trim_range(t: &[u8], s: usize, e: usize) -> (r: (usize, usize))
    requires
        s <= e <= t@.len(),
    ensures
        r.0 == trim_start_at(t@, s as int, e as int),
        r.1 == trim_end_at(t@, r.0 as int, e as int),
        s <= r.0 <= r.1 <= e,
{
    let mut ts = s;
    while ts < e && space_len_at_exec(t, ts, e) > 0
        invariant
            s <= ts <= e,
            e <= t@.len(),
            trim_start_at(t@, ts as int, e as int) == trim_start_at(t@, s as int, e as int),
        decreases e - ts,
    {
        let n = space_len_at_exec(t, ts, e);
        ts = ts + n;
    }
    let mut te = e;
    while ts < te && space_len_before_exec(t, ts, te) > 0
        invariant
            ts <= te <= e,
            e <= t@.len(),
            trim_end_at(t@, ts as int, te as int) == trim_end_at(t@, ts as int, e as int),
        decreases te - ts,
    {
        let n = space_len_before_exec(t, ts, te);
        te = te - n;
    }
    (ts, te)
}

fn hex_byte_value_exec(b: u8) -> (r: u64)
    requires
        is_hex_byte(b),
    ensures
        r == hex_byte_value(b),
        r < 16,
{
    if b <= 57 {
        (b - 48) as u64
    } else if b <= 70 {
        (b - 55) as u64
    } else {
        (b - 87) as u64
    }
}

/// The number of hex digits in `[s, e)`, and their value when there are at
/// most eight.
fn hex_digits(t: &[u8], s: usize, e: usize) -> (r: (usize, u32))
    requires
        s <= e <= t@.len(),
    ensures
        r.0 == hex_digit_count(t@, s as int, e as int),
        r.0 <= 8 ==> r.1 == hex_digits_value(t@, s as int, e as int),
{
    let mut count: usize = 0;
    let mut acc: u64 = 0;
    let mut i = s;
    while i < e
        invariant
            s <= i <= e <= t@.len(),
            count == hex_digit_count(t@, s as int, i as int),
            count <= i - s,
            count <= 8 ==> acc == hex_digits_value(t@, s as int, i as int) && acc < pow16(
                count as nat,
            ),
        decreases e - i,
    {
        let b = t[i];
        if (48 <= b && b <= 57) || (65 <= b && b <= 70) || (97 <= b && b <= 102) {
            if count < 8 {
                let d = hex_byte_value_exec(b);
                proof {
                    let p = pow16(count as nat);
                    assert(pow16((count + 1) as nat) == 16 * p);
                    assert(acc * 16 + d < 16 * p) by (nonlinear_arith)
                        requires
                            acc < p,
                            d < 16,
                    ;
                    lemma_pow16_monotone(count as nat, 7);
                }
                acc = acc * 16 + d;
            }
            count = count + 1;
        }
        i = i + 1;
    }
    proof {
        if count <= 8 {
            lemma_pow16_monotone(count as nat, 8);
            assert(pow16(8) == 0x1_0000_0000) by {
                reveal_with_fuel(pow16, 9);
            }
        }
    }
    (count, acc as u32)
}

proof fn lemma_pow16_monotone(a: nat, b: nat)
    requires
        a <= b,
    ensures
        pow16(a) <= pow16(b),
        pow16(7) == 0x1000_0000,
    decreases b - a,
{
    assert(pow16(7) == 0x1000_0000) by {
        reveal_with_fuel(pow16, 8);
    }
    if a < b {
        lemma_pow16_monotone(a, (b - 1) as nat);
        assert(pow16(b) == 16 * pow16((b - 1) as nat));
    }
}

// ---------------------------------------------------------------------------
// Synthetic capture times.
// ---------------------------------------------------------------------------

/// `a + b`, capped at the largest `u64`.
pub open spec fn sat_add(a: u64, b: u64) -> u64 {
    if a + b <= u64::MAX {
        (a + b) as u64
    } else {
        u64::MAX
    }
}

/// `a * b`, capped at the largest `u64`.
pub open spec fn sat_mul(a: u64, b: u64) -> u64 {
    if a * b <= u64::MAX {
        (a * b) as u64
    } else {
        u64::MAX
    }
}

/// The spacing, in microseconds, given to consecutive words of a read: the
/// time the read took (at least one microsecond, and one microsecond when
/// at most one word was read) spread evenly over the words.
pub open spec fn capture_step(stats: ReaderStats) -> u64 {
    let duration: u64 = if stats.processed_words > 1 {
        let micros = (stats.elapsed_ns as u64) / 1000;
        if micros >= 1 {
            micros
        } else {
            1
        }
    } else {
        1
    };
    let n: u64 = if stats.processed_words >= 1 {
        stats.processed_words as u64
    } else {
        1
    };
    duration / n
}

/// `timed` holds `words` in order, the `i`-th stamped `i` steps after `start`.
pub open spec fn stamped(timed: Seq<TimedWord>, words: Seq<ArincWord>, start: u64, step: u64) -> bool {
    &&& timed.len() == words.len()
    &&& forall|i: int|
        0 <= i < timed.len() ==> (#[trigger] timed[i]).word == words[i] && timed[i].timestamp.0
            == sat_add(start, sat_mul(i as u64, step))
}

/// The time of the first stamped word, or 0 when there is none.
pub open spec fn first_stamp(timed: Seq<TimedWord>) -> u64 {
    if timed.len() > 0 {
        timed[0].timestamp.0
    } else {
        0
    }
}

/// Stamps each word with a synthetic capture time: `start`, then one
/// `capture_step(stats)` more for each following word.
pub fn stamp_words(words: &Vec<ArincWord>, stats: &ReaderStats, start: Timestamp) -> (timed: Vec<
    TimedWord,
>)
    ensures
        stamped(timed@, words@, start.0, capture_step(*stats)),
{
    let duration: u64 = if stats.processed_words > 1 {
        let micros = (stats.elapsed_ns as u64) / 1000;
        if micros >= 1 {
            micros
        } else {
            1
        }
    } else {
        1
    };
    let n: u64 = if stats.processed_words >= 1 {
        stats.processed_words as u64
    } else {
        1
    };
    let step = duration / n;
    let mut timed: Vec<TimedWord> = Vec::with_capacity(words.len());
    let mut i: usize = 0;
    while i < words.len()
        invariant
            step == capture_step(*stats),
            i <= words@.len(),
            stamped(timed@, words@.take(i as int), start.0, step),
        decreases words@.len() - i,
    {
        let offset = match (i as u64).checked_mul(step) {
            Some(v) => v,
            None => u64::MAX,
        };
        let at = Timestamp::from_micros(start.0.saturating_add(offset));
        let tw = TimedWord::new(words[i].clone(), at);
        proof {
            assert(words@.take(i + 1) =~= words@.take(i as int).push(words@[i as int]));
        }
        timed.push(tw);
        i = i + 1;
    }
    assert(words@.take(words@.len() as int) =~= words@);
    timed
}

/// A reader of capture files of one layout and byte order.
pub struct ArincDumpReader {
    path: String,
    format: DumpFormat,
    endianness: WordEndianness,
}

impl ArincDumpReader {
    /// The path of the file read.
    pub closed spec fn path_spec(&self) -> Seq<char> {
        self.path@
    }

    /// The layout expected.
    pub closed spec fn format_spec(&self) -> DumpFormat {
        self.format
    }

    /// The byte order configured for raw binary dumps and hex text.
    pub closed spec fn endianness_spec(&self) -> WordEndianness {
        self.endianness
    }

    /// The byte order a binary dump of this layout is read in: the
    /// configured one for raw binary, little-endian for `PcapLe` and
    /// big-endian for `PcapBe`.
    pub open spec fn binary_order(&self) -> WordEndianness {
        match self.format_spec() {
            DumpFormat::PcapLe => WordEndianness::Standard,
            DumpFormat::PcapBe => WordEndianness::Reversed,
            _ => self.endianness_spec(),
        }
    }

    /// A reader of raw binary words in standard byte order.
    pub fn new(path: &str) -> (r: Self)
        ensures
            r.path_spec() == path@,
            r.format_spec() == DumpFormat::RawBinary,
            r.endianness_spec() == WordEndianness::Standard,
    {
        ArincDumpReader {
            path: path.to_owned(),
            format: DumpFormat::RawBinary,
            endianness: WordEndianness::Standard,
        }
    }

    pub fn with_format(self, format: DumpFormat) -> (r: Self)
        ensures
            r.path_spec() == self.path_spec(),
            r.format_spec() == format,
            r.endianness_spec() == self.endianness_spec(),
    {
        ArincDumpReader { format, ..self }
    }

    pub fn with_endianness(self, endianness: WordEndianness) -> (r: Self)
        ensures
            r.path_spec() == self.path_spec(),
            r.format_spec() == self.format_spec(),
            r.endianness_spec() == endianness,
    {
        ArincDumpReader { endianness, ..self }
    }

    /// The path of the file read.
    pub fn path(&self) -> (p: &str)
        ensures
            p@ == self.path_spec(),
    {
        self.path.as_str()
    }

    /// The layout expected.
    pub fn format(&self) -> (f: DumpFormat)
        ensures
            f == self.format_spec(),
    {
        self.format
    }

    /// The dump is hex text rather than binary words.
    pub fn is_text(&self) -> (b: bool)
        ensures
            b == (self.format_spec() == DumpFormat::HexText),
    {
        match self.format {
            DumpFormat::HexText => true,
            _ => false,
        }
    }

    /// The byte order binary words of this layout are read in.
    pub fn binary_endianness(&self) -> (e: WordEndianness)
        ensures
            e == self.binary_order(),
    {
        match self.format {
            DumpFormat::PcapLe => WordEndianness::Standard,
            DumpFormat::PcapBe => WordEndianness::Reversed,
            _ => self.endianness,
        }
    }

    /// Decodes a binary dump whose size on disk was `file_size` and whose
    /// contents, as read, are `bytes`.
    ///
    /// A size that is not a multiple of four is refused. Contents that end in
    /// a partial group are a short read at the word that group would have
    /// been. Otherwise every group becomes a word, read in `binary_order`,
    /// and the words that fail the parity check are counted.
    pub fn read_raw_binary(&self, file_size: usize, bytes: &[u8]) -> (r: Result<
        (Vec<ArincWord>, ReaderStats),
        ReaderError,
    >)
        ensures
            file_size % 4 != 0 ==> (r matches Err(ReaderError::InvalidFileSize(n)) && n == file_size),
            file_size % 4 == 0 && bytes@.len() % 4 != 0 ==> (r matches Err(
                ReaderError::ShortRead { read, expected, word_idx },
            ) && read == bytes@.len() % 4 && expected == 4 && word_idx == bytes@.len() / 4),
            file_size % 4 == 0 && bytes@.len() % 4 == 0 ==> (r matches Ok((words, stats)) && {
                &&& raw_values(words@) == binary_word_values(bytes@, self.binary_order())
                &&& all_in_order(words@, self.binary_order())
                &&& stats.file_path@ == self.path_spec()
                &&& stats.file_size_bytes == file_size
                &&& stats.total_words == file_size / 4
                &&& stats.processed_words == words@.len()
                &&& stats.parity_errors == parity_failures(raw_values(words@))
                &&& stats.parse_errors == 0
            }),
    {
        if file_size % 4 != 0 {
            return Err(ReaderError::InvalidFileSize(file_size));
        }
        if bytes.len() % 4 != 0 {
            return Err(
                ReaderError::ShortRead { read: bytes.len() % 4, expected: 4, word_idx: bytes.len() / 4 },
            );
        }
        let order = self.binary_endianness();
        let (words, failures) = decode_groups(bytes, order);
        let mut stats = ReaderStats::new(self.path.clone(), file_size, file_size / 4);
        proof {
            assert(words@.len() == raw_values(words@).len());
        }
        stats.processed_words = words.len();
        stats.parity_errors = failures;
        Ok((words, stats))
    }

    /// Decodes a hex text dump: each line with exactly eight hex digits
    /// becomes a word, read in the configured byte order; blank lines and
    /// lines that start with `#` or `//` are skipped; every other line is a
    /// parse error, returned as a warning.
    pub fn read_hex_text(&self, content: &str) -> (r: (Vec<ArincWord>, ReaderStats, Vec<HexLineWarning>))
        ensures
            ({
                let scan = hex_scan(content.spec_bytes(), 0, 0);
                let (words, stats, warnings) = r;
                &&& raw_values(words@) == scan.0
                &&& all_in_order(words@, self.endianness_spec())
                &&& warnings@ == scan.1
                &&& stats.file_path@ == self.path_spec()
                &&& stats.file_size_bytes == content.spec_bytes().len()
                &&& stats.total_words == words@.len()
                &&& stats.processed_words == words@.len()
                &&& stats.parity_errors == parity_failures(scan.0)
                &&& stats.parse_errors == scan.1.len()
            }),
    {
        let t = content.as_bytes();
        let len = t.len();
        let ghost total = hex_scan(t@, 0, 0);
        let mut words: Vec<ArincWord> = Vec::new();
        let mut warnings: Vec<HexLineWarning> = Vec::new();
        let mut failures: usize = 0;
        let mut pos: usize = 0;
        let mut line: usize = 0;
        while pos < len
            invariant
                len == t@.len(),
                pos <= len,
                line <= pos,
                total == hex_scan(t@, 0, 0),
                total.0 == raw_values(words@) + hex_scan(t@, pos as int, line as int).0,
                total.1 == warnings@ + hex_scan(t@, pos as int, line as int).1,
                all_in_order(words@, self.endianness),
                failures == parity_failures(raw_values(words@)),
                failures <= words@.len(),
                words@.len() + warnings@.len() <= pos,
            decreases len - pos,
        {
            let e = line_end_exec(t, pos);
            proof {
                lemma_line_end_bounds(t@, pos as int);
            }
            let (ts, te) = trim_range(t, pos, e);
            let blank_or_comment = ts >= te || t[ts] == 35 || (te - ts >= 2 && t[ts] == 47 && t[ts
                + 1] == 47);
            let ghost rest = hex_scan(t@, e + 1, line + 1);
            if !blank_or_comment {
                let (n, value) = hex_digits(t, ts, te);
                if n == 8 {
                    let w = ArincWord::from_u32(value, self.endianness);
                    let bad = !w.parity_valid();
                    proof {
                        lemma_push_words(words@, w);
                        assert(total.0 =~= raw_values(words@.push(w)) + rest.0);
                    }
                    words.push(w);
                    if bad {
                        failures = failures + 1;
                    }
                } else {
                    let warning = HexLineWarning { line_number: line + 1, hex_digits: n, start: ts, end: te };
                    proof {
                        assert(total.1 =~= warnings@.push(warning) + rest.1);
                    }
                    warnings.push(warning);
                }
            }
            if e < len {
                pos = e + 1;
            } else {
                pos = len;
            }
            line = line + 1;
        }
        let mut stats = ReaderStats::new(self.path.clone(), len, words.len());
        proof {
            assert(total.0 =~= raw_values(words@));
            assert(total.1 =~= warnings@);
        }
        stats.processed_words = words.len();
        stats.parity_errors = failures;
        stats.parse_errors = warnings.len();
        (words, stats, warnings)
    }

    /// The words of a read of this dump, each stamped with a synthetic
    /// capture time: the clock's reading when the read was done, then one
    /// `capture_step` more per word. A failed read is passed on. What the
    /// clock reads is the machine's, so the first timestamp is left free:
    /// the others follow from it.
    pub fn read_all_timed(
        &self,
        read: Result<(Vec<ArincWord>, ReaderStats), ReaderError>,
        clock: &PreciseClock,
    ) -> (r: Result<(Vec<TimedWord>, ReaderStats), ReaderError>)
        ensures
            read is Err <==> r is Err,
            read matches Err(e) ==> r == Err::<(Vec<TimedWord>, ReaderStats), ReaderError>(e),
            read matches Ok((words, stats)) ==> (r matches Ok((timed, stats_out)) && stats_out
                == stats && stamped(timed@, words@, first_stamp(timed@), capture_step(stats))),
    {
        match read {
            Err(e) => Err(e),
            Ok((words, stats)) => {
                let start = clock.now();
                let timed = stamp_words(&words, &stats, start);
                assert(timed@.len() > 0 ==> timed@[0].timestamp.0 == start.0);
                Ok((timed, stats))
            },
        }
    }
}

} // verus!
