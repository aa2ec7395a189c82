use vstd::prelude::*;
use crate::io::reader::{
    binary_word_values, word_value_at, hex_scan, line_end, hex_digits_value, hex_digit_count,
    is_hex_byte, hex_byte_value, pow16, space_len_at, space_len_before, trim_start_at, trim_end_at,
    is_blank_or_comment, HexLineWarning, lemma_line_end_bounds,
};
use crate::protocol::word::{le_value, WordEndianness};
use vstd::utf8::{encode_utf8, is_ascii_chars};
use crate::text::{decimal_digits, digit_char, push_decimal, push_radix_digits, radix_digits};
use vstd::string::StringExecFns;

verus! {

// ---------------------------------------------------------------------------
// Synthetic test data
// ---------------------------------------------------------------------------

/// The labels that synthetic data mostly carries.
pub open spec fn generator_label_seq() -> Seq<u16> {
    seq![
        0o001u16, 0o002, 0o003, 0o004, 0o005, 0o010, 0o011, 0o012, 0o013, 0o020, 0o021, 0o022,
        0o030, 0o033, 0o040, 0o041, 0o042, 0o043, 0o050, 0o060, 0o072, 0o100, 0o102, 0o103,
        0o104, 0o105, 0o377,
    ]
}

/// The labels that synthetic data mostly carries.
pub fn generator_labels() -> (v: Vec<u16>)
    ensures
        v@ == generator_label_seq(),
{
    let v: Vec<u16> = vec![
        0o001u16, 0o002, 0o003, 0o004, 0o005, 0o010, 0o011, 0o012, 0o013, 0o020, 0o021, 0o022,
        0o030, 0o033, 0o040, 0o041, 0o042, 0o043, 0o050, 0o060, 0o072, 0o100, 0o102, 0o103,
        0o104, 0o105, 0o377,
    ];
    assert(v@ =~= generator_label_seq());
    v
}

/// The label byte of a synthetic word: one of the favoured labels (cut to a
/// byte) when `use_known`, else the random byte drawn for it.
pub fn synthetic_label(use_known: bool, known_index: usize, random_label: u8) -> (l: u8)
    requires
        use_known ==> known_index < generator_label_seq().len(),
    ensures
        use_known ==> l == generator_label_seq()[known_index as int] as u8,
        !use_known ==> l == random_label,
{
    if use_known {
        let labels = generator_labels();
        (labels[known_index] % 256) as u8
    } else {
        random_label
    }
}

// ---------------------------------------------------------------------------
// Writing dumps
// ---------------------------------------------------------------------------

/// The four bytes of `w`, least significant first.
pub open spec fn le_bytes(w: u32) -> Seq<u8> {
    seq![
        (w % 256) as u8,
        ((w / 0x100) % 256) as u8,
        ((w / 0x10000) % 256) as u8,
        ((w / 0x1000000) % 256) as u8,
    ]
}

/// The raw binary dump of `words`: each word's four bytes, least
/// significant first, in order.
pub open spec fn le_dump(words: Seq<u32>) -> Seq<u8>
    decreases words.len(),
{
    if words.len() == 0 {
        Seq::empty()
    } else {
        le_dump(words.drop_last()) + le_bytes(words.last())
    }
}

proof fn lemma_le_bytes_value(w: u32)
    ensures
        le_value(le_bytes(w)) == w,
{
    assert(w % 256 + (w / 0x100) % 256 * 0x100 + (w / 0x10000) % 256 * 0x10000 + (w / 0x1000000)
        % 256 * 0x1000000 == w) by (bit_vector);
}

proof fn lemma_le_dump_groups(words: Seq<u32>)
    ensures
        le_dump(words).len() == 4 * words.len(),
        forall|i: int|
            0 <= i < words.len() ==> #[trigger] le_dump(words).subrange(4 * i, 4 * i + 4)
                == le_bytes(words[i]),
    decreases words.len(),
{
    if words.len() > 0 {
        let init = words.drop_last();
        lemma_le_dump_groups(init);
        assert forall|i: int| 0 <= i < words.len() implies #[trigger] le_dump(words).subrange(
            4 * i,
            4 * i + 4,
        ) == le_bytes(words[i]) by {
            if i < init.len() {
                assert(le_dump(words).subrange(4 * i, 4 * i + 4) =~= le_dump(init).subrange(
                    4 * i,
                    4 * i + 4,
                ));
            } else {
                assert(le_dump(words).subrange(4 * i, 4 * i + 4) =~= le_bytes(words.last()));
            }
        }
    }
}

/// Reading back a raw binary dump in standard byte order gives the words
/// that were written, in order.
pub proof fn law_binary_dump_reads_back(words: Seq<u32>)
    ensures
        binary_word_values(le_dump(words), WordEndianness::Standard) == words,
{
    lemma_le_dump_groups(words);
    let bytes = le_dump(words);
    assert forall|i: int| 0 <= i < words.len() implies #[trigger] word_value_at(
        bytes,
        i,
        WordEndianness::Standard,
    ) == words[i] by {
        lemma_le_bytes_value(words[i]);
        assert(bytes.subrange(4 * i, 4 * i + 4) == le_bytes(words[i]));
    }
    assert(binary_word_values(bytes, WordEndianness::Standard) =~= words);
}

/// The raw binary dump of `words`.
pub fn binary_dump_bytes(words: &Vec<u32>) -> (b: Vec<u8>)
    ensures
        b@ == le_dump(words@),
{
    let mut b: Vec<u8> = Vec::new();
    let n = words.len();
    for i in 0..n
        invariant
            n == words@.len(),
            b@ == le_dump(words@.take(i as int)),
    {
        let w = words[i];
        let ghost before = b@;
        assert((w & 0xFF) as u8 == (w % 256) as u8 && ((w >> 8) & 0xFF) as u8 == ((w / 0x100)
            % 256) as u8 && ((w >> 16) & 0xFF) as u8 == ((w / 0x10000) % 256) as u8 && ((w >> 24)
            & 0xFF) as u8 == ((w / 0x1000000) % 256) as u8) by (bit_vector);
        b.push((w & 0xFF) as u8);
        b.push(((w >> 8) & 0xFF) as u8);
        b.push(((w >> 16) & 0xFF) as u8);
        b.push(((w >> 24) & 0xFF) as u8);
        proof {
            assert(words@.take(i + 1).drop_last() =~= words@.take(i as int));
            assert(words@.take(i + 1).last() == w);
            assert(b@ =~= before + le_bytes(w));
        }
    }
    assert(words@.take(n as int) =~= words@);
    b
}

/// How the seed is shown: `Some(<seed>)` or `None`.
pub open spec fn seed_text(seed: Option<u64>) -> Seq<char> {
    match seed {
        Some(s) => "Some("@ + decimal_digits(s as nat) + ")"@,
        None => "None"@,
    }
}

/// One line per word: eight upper-case hex digits.
pub open spec fn hex_lines(words: Seq<u32>) -> Seq<char>
    decreases words.len(),
{
    if words.len() == 0 {
        Seq::empty()
    } else {
        hex_lines(words.drop_last()) + radix_digits(words.last() as nat, 8, 16) + "\n"@
    }
}

/// The hex text dump of `words`: three comment lines (a title, the number
/// of words asked for and the seed, the layout) and a blank line, then one
/// line per word.
pub open spec fn hex_dump(words: Seq<u32>, count: usize, seed: Option<u64>) -> Seq<char> {
    "# Synthetic ARINC 429 test dump\n"@ + "# "@ + decimal_digits(count as nat) + " words, seed: "@
        + seed_text(seed) + "\n"@ + "# Format: HEX (8 digits per line, little-endian)\n"@
        + "\n"@ + hex_lines(words)
}

/// The hex text dump of `words`, generated as `count` words from `seed`.
pub fn hex_dump_text(words: &Vec<u32>, count: usize, seed: Option<u64>) -> (t: String)
    ensures
        t@ == hex_dump(words@, count, seed),
{
    let mut t = String::new();
    t.append("# Synthetic ARINC 429 test dump\n");
    t.append("# ");
    push_decimal(&mut t, count as u64);
    t.append(" words, seed: ");
    match seed {
        Some(s) => {
            t.append("Some(");
            push_decimal(&mut t, s);
            t.append(")");
        },
        None => {
            t.append("None");
        },
    }
    t.append("\n");
    t.append("# Format: HEX (8 digits per line, little-endian)\n");
    t.append("\n");
    let ghost head = t@;
    let n = words.len();
    for i in 0..n
        invariant
            n == words@.len(),
            t@ == head + hex_lines(words@.take(i as int)),
    {
        push_radix_digits(&mut t, words[i], 8, 16);
        t.append("\n");
        proof {
            assert(words@.take(i + 1).drop_last() =~= words@.take(i as int));
            assert(words@.take(i + 1).last() == words@[i as int]);
        }
    }
    assert(words@.take(n as int) =~= words@);
    assert(t@ =~= hex_dump(words@, count, seed));
    t
}

// ---------------------------------------------------------------------------
// Reading back a hex text dump
// ---------------------------------------------------------------------------

/// The bytes of a text of ASCII characters, one per character.
pub open spec fn ascii_bytes(t: Seq<char>) -> Seq<u8> {
    Seq::new(t.len(), |i: int| t[i] as u8)
}

proof fn lemma_digit_char(d: nat)
    requires
        d < 16,
    ensures
        '0' <= digit_char(d) <= 'F',
        is_hex_byte(digit_char(d) as u8),
        hex_byte_value(digit_char(d) as u8) == d,
        digit_char(d) as u8 == digit_char(d) as u32,
{
}

/// Every character of a fixed-width digit string is a digit character.
proof fn lemma_radix_digits_chars(v: nat, n: nat, radix: nat)
    requires
        2 <= radix <= 16,
    ensures
        radix_digits(v, n, radix).len() == n,
        forall|i: int|
            0 <= i < n ==> exists|d: nat| d < radix && #[trigger] radix_digits(v, n, radix)[i] == digit_char(d),
    decreases n,
{
    if n > 0 {
        lemma_radix_digits_chars(v / radix, (n - 1) as nat, radix);
        let s = radix_digits(v, n, radix);
        let p = radix_digits(v / radix, (n - 1) as nat, radix);
        assert forall|i: int| 0 <= i < n implies exists|d: nat| d < radix && #[trigger] s[i] == digit_char(d) by {
            if i < n - 1 {
                assert(s[i] == p[i]);
            } else {
                let d = v % radix;
                assert(s[i] == digit_char(d));
            }
        }
    }
}

proof fn lemma_pow16_pos(n: nat)
    ensures
        pow16(n) > 0,
    decreases n,
{
    if n > 0 {
        lemma_pow16_pos((n - 1) as nat);
    }
}

/// A fixed-width hex digit string at `p` reads back as its value.
proof fn lemma_hex_value_at(t: Seq<u8>, p: int, v: nat, n: nat)
    requires
        0 <= p,
        p + n <= t.len(),
        forall|j: int| 0 <= j < n ==> t[p + j] == #[trigger] radix_digits(v, n, 16)[j] as u8,
    ensures
        hex_digit_count(t, p, p + n) == n,
        hex_digits_value(t, p, p + n) == v % pow16(n),
    decreases n,
{
    if n > 0 {
        let prev = radix_digits(v / 16, (n - 1) as nat, 16);
        let full = radix_digits(v, n, 16);
        lemma_radix_digits_chars(v / 16, (n - 1) as nat, 16);
        assert forall|j: int| 0 <= j < n - 1 implies t[p + j] == #[trigger] prev[j] as u8 by {
            assert(full[j] == prev[j]);
        }
        lemma_hex_value_at(t, p, v / 16, (n - 1) as nat);
        let d = v % 16;
        assert(full[n - 1] == digit_char(d));
        assert(t[p + n - 1] == full[n - 1] as u8);
        lemma_digit_char(d);
        lemma_pow16_pos((n - 1) as nat);
        vstd::arithmetic::div_mod::lemma_breakdown(v as int, 16, pow16((n - 1) as nat) as int);
        assert(pow16(n) == 16 * pow16((n - 1) as nat));
    } else {
        assert(v % 1 == 0);
    }
}

/// `t` holds the bytes `line` at `p`, then a line feed; `line` holds none.
pub open spec fn line_at(t: Seq<u8>, p: int, line: Seq<u8>) -> bool {
    &&& 0 <= p
    &&& p + line.len() < t.len()
    &&& forall|j: int| 0 <= j < line.len() ==> t[p + j] == #[trigger] line[j] && line[j] != 10
    &&& t[p + line.len()] == 10
}

proof fn lemma_line_end_of(t: Seq<u8>, p: int, line: Seq<u8>)
    requires
        line_at(t, p, line),
    ensures
        line_end(t, p) == p + line.len(),
    decreases line.len(),
{
    if line.len() > 0 {
        assert(t[p] == line[0]);
        let rest = line.drop_first();
        assert forall|j: int| 0 <= j < rest.len() implies t[p + 1 + j] == #[trigger] rest[j] && rest[j]
            != 10 by {
            assert(rest[j] == line[j + 1]);
        }
        lemma_line_end_of(t, p + 1, rest);
    }
}

/// A line that starts with `#` is skipped.
proof fn lemma_comment_line(t: Seq<u8>, p: int, line: Seq<u8>, ln: int)
    requires
        line_at(t, p, line),
        line.len() > 0,
        line[0] == 35,
    ensures
        hex_scan(t, p, ln) == hex_scan(t, p + line.len() + 1, ln + 1),
{
    lemma_line_end_of(t, p, line);
    assert(t[p] == line[0]);
    let e = p + line.len();
    assert(space_len_at(t, p, e) == 0);
    assert(trim_start_at(t, p, e) == p);
}

/// An empty line is skipped.
proof fn lemma_blank_line(t: Seq<u8>, p: int, ln: int)
    requires
        0 <= p < t.len(),
        t[p] == 10,
    ensures
        hex_scan(t, p, ln) == hex_scan(t, p + 1, ln + 1),
{
    assert(line_end(t, p) == p);
    assert(trim_start_at(t, p, p) == p);
    assert(trim_end_at(t, p, p) == p);
}

/// A line of eight hex digits yields its value.
proof fn lemma_word_line(t: Seq<u8>, p: int, w: u32, ln: int)
    requires
        line_at(t, p, ascii_bytes(radix_digits(w as nat, 8, 16))),
    ensures
        hex_scan(t, p, ln) == (seq![w] + hex_scan(t, p + 9, ln + 1).0, hex_scan(t, p + 9, ln + 1).1),
{
    let digits = radix_digits(w as nat, 8, 16);
    let line = ascii_bytes(digits);
    lemma_radix_digits_chars(w as nat, 8, 16);
    assert forall|i: int| p <= i < p + 8 implies is_hex_byte(#[trigger] t[i]) by {
        let j = i - p;
        assert(exists|d: nat| d < 16 && #[trigger] digits[j] == digit_char(d));
        let d = choose|d: nat| d < 16 && digits[j] == digit_char(d);
        lemma_digit_char(d);
        assert(t[p + j] == line[j]);
    }
    assert forall|j: int| 0 <= j < 8 implies t[p + j] == #[trigger] digits[j] as u8 by {
        assert(t[p + j] == line[j]);
    }
    lemma_line_end_of(t, p, line);
    let e = p + 8;
    assert(is_hex_byte(t[p]) && is_hex_byte(t[e - 1]) && is_hex_byte(t[e - 2]) && is_hex_byte(
        t[e - 3],
    ));
    assert(space_len_at(t, p, e) == 0);
    assert(trim_start_at(t, p, e) == p);
    assert(space_len_before(t, p, e) == 0);
    assert(trim_end_at(t, p, e) == e);
    assert(!is_blank_or_comment(t, p, e));
    lemma_hex_value_at(t, p, w as nat, 8);
    assert(pow16(8) == 0x1_0000_0000) by {
        reveal_with_fuel(pow16, 9);
    }
    assert(w as nat % pow16(8) == w);
}

/// The lines of `hex_lines`: each word's eight digits, then a line feed.
proof fn lemma_hex_lines_shape(ws: Seq<u32>)
    ensures
        hex_lines(ws).len() == 9 * ws.len(),
        forall|i: int|
            0 <= i < 9 * ws.len() ==> #[trigger] hex_lines(ws)[i] == (if i % 9 < 8 {
                radix_digits(ws[i / 9] as nat, 8, 16)[i % 9]
            } else {
                '\n'
            }),
    decreases ws.len(),
{
    reveal_strlit("\n");
    if ws.len() > 0 {
        let init = ws.drop_last();
        lemma_hex_lines_shape(init);
        lemma_radix_digits_chars(ws.last() as nat, 8, 16);
        let h = hex_lines(ws);
        let n = init.len();
        assert forall|i: int| 0 <= i < 9 * ws.len() implies #[trigger] h[i] == (if i % 9 < 8 {
            radix_digits(ws[i / 9] as nat, 8, 16)[i % 9]
        } else {
            '\n'
        }) by {
            if i < 9 * n {
                assert(h[i] == hex_lines(init)[i]);
                assert(i / 9 < n);
                assert(ws[i / 9] == init[i / 9]);
            } else {
                assert(i / 9 == n);
                assert(ws[i / 9] == ws.last());
            }
        }
    }
}

/// The digit characters of a decimal representation.
proof fn lemma_decimal_digits_chars(v: nat)
    ensures
        forall|i: int|
            0 <= i < decimal_digits(v).len() ==> exists|d: nat| d < 10 && #[trigger] decimal_digits(v)[i] == digit_char(d),
    decreases v,
{
    if v >= 10 {
        lemma_decimal_digits_chars(v / 10);
        let s = decimal_digits(v);
        let p = decimal_digits(v / 10);
        assert forall|i: int| 0 <= i < s.len() implies exists|d: nat| d < 10 && #[trigger] s[i] == digit_char(d) by {
            if i < p.len() {
                assert(s[i] == p[i]);
            } else {
                assert(s[i] == digit_char(v % 10));
            }
        }
    } else {
        assert(decimal_digits(v)[0] == digit_char(v));
    }
}

/// Text made of ASCII characters other than the line feed.
pub open spec fn plain_text(s: Seq<char>) -> bool {
    forall|i: int| 0 <= i < s.len() ==> '\0' <= #[trigger] s[i] <= '\u{7f}' && s[i] != '\n'
}

/// A line of `t` at `p`, ending before a line feed, shows in its bytes.
proof fn lemma_line_in_text(t: Seq<char>, p: int, line: Seq<char>)
    requires
        0 <= p,
        p + line.len() < t.len(),
        t.subrange(p, p + line.len()) == line,
        t[p + line.len()] == '\n',
        plain_text(line),
    ensures
        line_at(ascii_bytes(t), p, ascii_bytes(line)),
{
    let b = ascii_bytes(t);
    let lb = ascii_bytes(line);
    assert forall|j: int| 0 <= j < lb.len() implies b[p + j] == #[trigger] lb[j] && lb[j] != 10 by {
        assert(t[p + j] == t.subrange(p, p + line.len())[j]);
        let c = line[j];
        assert('\0' <= c <= '\u{7f}');
    }
}

/// The digit string of a word is plain text.
proof fn lemma_word_digits_plain(w: u32)
    ensures
        plain_text(radix_digits(w as nat, 8, 16)),
        radix_digits(w as nat, 8, 16).len() == 8,
{
    lemma_radix_digits_chars(w as nat, 8, 16);
    let line = radix_digits(w as nat, 8, 16);
    assert forall|i: int| 0 <= i < line.len() implies '\0' <= #[trigger] line[i] <= '\u{7f}' && line[i]
        != '\n' by {
        let d = choose|d: nat| d < 16 && line[i] == digit_char(d);
        lemma_digit_char(d);
    }
}

/// From the `k`-th word line on, the lines of `ws` at `b` yield the words
/// from the `k`-th on, with no warning.
proof fn lemma_scan_words(t: Seq<char>, b: int, ws: Seq<u32>, k: int, ln: int)
    requires
        0 <= b,
        0 <= k <= ws.len(),
        t.len() == b + 9 * ws.len(),
        forall|i: int| b <= i < t.len() ==> #[trigger] t[i] == hex_lines(ws)[i - b],
    ensures
        hex_scan(ascii_bytes(t), b + 9 * k, ln) == (ws.skip(k), Seq::<HexLineWarning>::empty()),
    decreases ws.len() - k,
{
    if k == ws.len() {
        assert(ws.skip(k) =~= Seq::<u32>::empty());
    } else {
        lemma_hex_lines_shape(ws);
        let p = b + 9 * k;
        let w = ws[k];
        let line = radix_digits(w as nat, 8, 16);
        lemma_word_digits_plain(w);
        assert forall|j: int| 0 <= j < 8 implies #[trigger] t.subrange(p, p + 8)[j] == line[j] by {
            let i = 9 * k + j;
            assert(i / 9 == k && i % 9 == j);
            assert(t[p + j] == hex_lines(ws)[i]);
        }
        assert(t.subrange(p, p + 8) =~= line);
        assert((9 * k + 8) / 9 == k && (9 * k + 8) % 9 == 8);
        assert(t[p + 8] == hex_lines(ws)[9 * k + 8]);
        lemma_line_in_text(t, p, line);
        lemma_word_line(ascii_bytes(t), p, w, ln);
        lemma_scan_words(t, b, ws, k + 1, ln + 1);
        assert(seq![w] + ws.skip(k + 1) =~= ws.skip(k));
    }
}

/// Plain texts joined are plain text.
proof fn lemma_plain_concat(a: Seq<char>, b: Seq<char>)
    requires
        plain_text(a),
        plain_text(b),
    ensures
        plain_text(a + b),
{
    assert forall|i: int| 0 <= i < (a + b).len() implies '\0' <= #[trigger] (a + b)[i] <= '\u{7f}'
        && (a + b)[i] != '\n' by {
        if i < a.len() {
            assert((a + b)[i] == a[i]);
        } else {
            assert((a + b)[i] == b[i - a.len()]);
        }
    }
}

proof fn lemma_decimal_plain(v: nat)
    ensures
        plain_text(decimal_digits(v)),
{
    lemma_decimal_digits_chars(v);
    let s = decimal_digits(v);
    assert forall|i: int| 0 <= i < s.len() implies '\0' <= #[trigger] s[i] <= '\u{7f}' && s[i]
        != '\n' by {
        let d = choose|d: nat| d < 10 && s[i] == digit_char(d);
        lemma_digit_char(d);
    }
}

proof fn lemma_seed_text_plain(seed: Option<u64>)
    ensures
        plain_text(seed_text(seed)),
{
    reveal_strlit("Some(");
    reveal_strlit(")");
    reveal_strlit("None");
    match seed {
        Some(v) => {
            lemma_decimal_plain(v as nat);
            lemma_plain_concat("Some("@, decimal_digits(v as nat));
            lemma_plain_concat("Some("@ + decimal_digits(v as nat), ")"@);
        },
        None => {},
    }
}

/// Reading back a hex text dump gives the words that were written, in
/// order, with no warning: the header lines are comments or blank, and each
/// word line holds exactly its eight hex digits. (The dump is ASCII, so its
/// UTF-8 bytes are its characters.)
pub proof fn law_hex_dump_reads_back(words: Seq<u32>, count: usize, seed: Option<u64>)
    ensures
        is_ascii_chars(hex_dump(words, count, seed)),
        hex_scan(encode_utf8(hex_dump(words, count, seed)), 0, 0) == (
            words,
            Seq::<HexLineWarning>::empty(),
        ),
{
    reveal_strlit("# Synthetic ARINC 429 test dump\n");
    reveal_strlit("# Synthetic ARINC 429 test dump");
    reveal_strlit("\n");
    reveal_strlit("# ");
    reveal_strlit(" words, seed: ");
    reveal_strlit("# Format: HEX (8 digits per line, little-endian)\n");
    reveal_strlit("# Format: HEX (8 digits per line, little-endian)");
    let t = hex_dump(words, count, seed);
    let nl = "\n"@;
    let line1 = "# Synthetic ARINC 429 test dump"@;
    let line2 = "# "@ + decimal_digits(count as nat) + " words, seed: "@ + seed_text(seed);
    let line3 = "# Format: HEX (8 digits per line, little-endian)"@;
    let lines = hex_lines(words);
    assert("# Synthetic ARINC 429 test dump\n"@ =~= line1 + nl);
    assert("# Format: HEX (8 digits per line, little-endian)\n"@ =~= line3 + nl);
    let s1 = line1 + nl;
    let s2 = s1 + line2;
    let s3 = s2 + nl;
    let s4 = s3 + line3;
    let s5 = s4 + nl;
    let s6 = s5 + nl;
    assert(t =~= s6 + lines);
    let m: int = line2.len() as int;
    assert(line1.len() == 31);
    assert(line3.len() == 48);
    assert(s6.len() == 83 + m);

    lemma_decimal_plain(count as nat);
    lemma_seed_text_plain(seed);
    lemma_plain_concat("# "@, decimal_digits(count as nat));
    lemma_plain_concat("# "@ + decimal_digits(count as nat), " words, seed: "@);
    lemma_plain_concat("# "@ + decimal_digits(count as nat) + " words, seed: "@, seed_text(seed));
    assert(plain_text(line1));
    assert(plain_text(line3));
    lemma_hex_lines_shape(words);

    let bytes = ascii_bytes(t);
    // The title line.
    assert(t.subrange(0, 31) =~= line1);
    assert(t[31] == '\n');
    lemma_line_in_text(t, 0, line1);
    lemma_comment_line(bytes, 0, ascii_bytes(line1), 0);
    // The line with the word count and seed.
    assert(t.subrange(32, 32 + m) =~= line2);
    assert(t[32 + m] == '\n');
    lemma_line_in_text(t, 32, line2);
    assert(line2[0] == '#');
    lemma_comment_line(bytes, 32, ascii_bytes(line2), 1);
    // The layout line.
    assert(t.subrange(33 + m, 81 + m) =~= line3);
    assert(t[81 + m] == '\n');
    lemma_line_in_text(t, 33 + m, line3);
    lemma_comment_line(bytes, 33 + m, ascii_bytes(line3), 2);
    // The blank line.
    assert(t[82 + m] == '\n');
    lemma_blank_line(bytes, 82 + m, 3);
    // The word lines.
    assert forall|i: int| 83 + m <= i < t.len() implies #[trigger] t[i] == lines[i - (83 + m)] by {}
    lemma_scan_words(t, 83 + m, words, 0, 4);
    assert(words.skip(0) =~= words);

    // The dump is ASCII, so its UTF-8 bytes are its characters.
    assert forall|i: int| 0 <= i < t.len() implies '\0' <= #[trigger] t[i] <= '\u{7f}' by {
        if i < 31 {
            assert(t[i] == line1[i]);
        } else if 32 <= i < 32 + m {
            assert(t[i] == line2[i - 32]);
        } else if 33 + m <= i < 81 + m {
            assert(t[i] == line3[i - (33 + m)]);
        } else if i >= 83 + m {
            let k = (i - (83 + m)) / 9;
            lemma_word_digits_plain(words[k]);
        }
    }
    vstd::utf8::is_ascii_chars_encode_utf8(t);
    assert(encode_utf8(t) =~= bytes);
}

} // verus!
