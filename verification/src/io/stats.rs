use vstd::prelude::*;

use crate::protocol::types::PayloadFormat;
use crate::text::{decimal_digits, radix_digits, push_decimal, push_radix_digits, pad_left, push_padded};
use vstd::string::{StringExecFns, StrSliceExecFns};

verus! {

/// The kinds of failure that the pipeline counts.
#[derive(Debug, Clone, Copy, PartialEq, Eq, Structural)]
pub enum ErrorKind {
    UnknownLabel,
    BnrOutOfRange,
    BnrInvalidBits,
    BnrSsmSpare,
    BcdInvalidDigit,
    BcdTooManyDigits,
    FormatNotSupported,
}

impl ErrorKind {
    /// Position of the kind in the error breakdown.
    pub open spec fn index(self) -> int {
        match self {
            ErrorKind::UnknownLabel => 0,
            ErrorKind::BnrOutOfRange => 1,
            ErrorKind::BnrInvalidBits => 2,
            ErrorKind::BnrSsmSpare => 3,
            ErrorKind::BcdInvalidDigit => 4,
            ErrorKind::BcdTooManyDigits => 5,
            ErrorKind::FormatNotSupported => 6,
        }
    }

    pub open spec fn tag_text(self) -> Seq<char> {
        match self {
            ErrorKind::UnknownLabel => "UnknownLabel"@,
            ErrorKind::BnrOutOfRange => "BNR:OutOfRange"@,
            ErrorKind::BnrInvalidBits => "BNR:InvalidBits"@,
            ErrorKind::BnrSsmSpare => "BNR:SsmSpare"@,
            ErrorKind::BcdInvalidDigit => "BCD:InvalidDigit"@,
            ErrorKind::BcdTooManyDigits => "BCD:TooManyDigits"@,
            ErrorKind::FormatNotSupported => "FormatNotSupported"@,
        }
    }

    /// The tag the breakdown shows for the kind.
    pub fn tag(self) -> (s: &'static str)
        ensures
            s@ == self.tag_text(),
    {
        match self {
            ErrorKind::UnknownLabel => "UnknownLabel",
            ErrorKind::BnrOutOfRange => "BNR:OutOfRange",
            ErrorKind::BnrInvalidBits => "BNR:InvalidBits",
            ErrorKind::BnrSsmSpare => "BNR:SsmSpare",
            ErrorKind::BcdInvalidDigit => "BCD:InvalidDigit",
            ErrorKind::BcdTooManyDigits => "BCD:TooManyDigits",
            ErrorKind::FormatNotSupported => "FormatNotSupported",
        }
    }
}

/// Position of a format in the format breakdown.
pub open spec fn format_index(f: PayloadFormat) -> int {
    match f {
        PayloadFormat::Bnr => 0,
        PayloadFormat::Bcd => 1,
        PayloadFormat::Discrete => 2,
        PayloadFormat::Maintenance => 3,
        PayloadFormat::Ack => 4,
        PayloadFormat::Unknown => 5,
    }
}

pub open spec fn format_tag_text(f: PayloadFormat) -> Seq<char> {
    match f {
        PayloadFormat::Bnr => "BNR"@,
        PayloadFormat::Bcd => "BCD"@,
        PayloadFormat::Discrete => "Discrete"@,
        PayloadFormat::Maintenance => "Maintenance"@,
        PayloadFormat::Ack => "Ack"@,
        PayloadFormat::Unknown => "Unknown"@,
    }
}

/// The tag the breakdown shows for a format.
pub fn format_tag(f: PayloadFormat) -> (s: &'static str)
    ensures
        s@ == format_tag_text(f),
{
    match f {
        PayloadFormat::Bnr => "BNR",
        PayloadFormat::Bcd => "BCD",
        PayloadFormat::Discrete => "Discrete",
        PayloadFormat::Maintenance => "Maintenance",
        PayloadFormat::Ack => "Ack",
        PayloadFormat::Unknown => "Unknown",
    }
}

/// How the decoding of one admitted word ended.
#[derive(Debug, Clone, Copy, PartialEq, Eq, Structural)]
pub enum DecodeOutcome {
    /// Decoded; the format of its label when the dictionary defines it.
    Success(Option<PayloadFormat>),
    /// Failed, or the label is unknown.
    Failure(ErrorKind),
    /// The Sign/Status Matrix marks the payload as spare.
    SpareData,
}

/// Counts of a decoding run.
#[derive(Debug)]
pub struct PipelineStats {
    pub total_words: usize,
    pub processed: usize,
    pub decoded_successfully: usize,
    pub unknown_labels: usize,
    pub decode_errors: usize,
    pub skipped_parity: usize,
    pub spare_data: usize,
    /// The most frequent labels with their counts, most frequent first.
    pub top_labels: Vec<(u16, usize)>,
    /// Successful decodes per format, one entry per format in declaration order.
    pub format_breakdown: Vec<(PayloadFormat, usize)>,
    /// Failures per kind, one entry per kind in declaration order.
    pub error_breakdown: Vec<(ErrorKind, usize)>,
    /// Admitted words per label, indexed by label.
    pub label_counts: Vec<usize>,
    /// Outcomes recorded so far, left-out words included.
    pub recorded: usize,
}

/// Pair `a` ranks before pair `b`: a higher count, or the same count and a
/// smaller label.
pub open spec fn ranks_before(a: (u16, usize), b: (u16, usize)) -> bool {
    a.1 > b.1 || (a.1 == b.1 && a.0 < b.0)
}

/// `top` is the list of the (at most `k`) most frequent labels of `counts`,
/// ranked by count and then by label: every entry has its count, which is
/// positive; the entries are ranked; and every other label with a positive
/// count ranks after the last entry of a full list.
pub open spec fn is_top_labels(top: Seq<(u16, usize)>, counts: Seq<usize>, k: nat) -> bool {
    &&& top.len() <= k
    &&& forall|i: int|
        0 <= i < top.len() ==> {
            &&& (#[trigger] top[i]).0 < counts.len()
            &&& top[i].1 == counts[top[i].0 as int]
            &&& top[i].1 > 0
        }
    &&& forall|i: int, j: int| 0 <= i < j < top.len() ==> ranks_before(top[i], top[j])
    &&& forall|l: int|
        0 <= l < counts.len() && counts[l] > 0 && !(exists|i: int|
            0 <= i < top.len() && (#[trigger] top[i]).0 == l) ==> {
            &&& top.len() == k
            &&& k > 0 ==> ranks_before(top.last(), (l as u16, counts[l]))
        }
}

/// The `k` most frequent labels of `counts` (indexed by label), most
/// frequent first; labels with the same count come in increasing order.
pub fn top_labels_of(counts: &Vec<usize>, k: usize) -> (top: Vec<(u16, usize)>)
    requires
        counts@.len() <= 0x10000,
    ensures
        is_top_labels(top@, counts@, k as nat),
{
    let n = counts.len();
    let mut top: Vec<(u16, usize)> = Vec::new();
    while top.len() < k
        invariant
            n == counts@.len(),
            n <= 0x10000,
            top@.len() <= k,
            forall|i: int|
                0 <= i < top@.len() ==> {
                    &&& (#[trigger] top@[i]).0 < n
                    &&& top@[i].1 == counts@[top@[i].0 as int]
                    &&& top@[i].1 > 0
                },
            forall|i: int, j: int| 0 <= i < j < top@.len() ==> ranks_before(top@[i], top@[j]),
            forall|l: int|
                0 <= l < n && counts@[l] > 0 && top@.len() > 0 && !ranks_before(
                    top@.last(),
                    (l as u16, counts@[l]),
                ) ==> exists|i: int| 0 <= i < top@.len() && (#[trigger] top@[i]).0 == l,
        decreases k - top@.len(),
    {
        let mut best: Option<(u16, usize)> = None;
        for l in 0..n
            invariant
                n == counts@.len(),
                n <= 0x10000,
                best matches Some(b) ==> {
                    &&& b.0 < l
                    &&& b.1 == counts@[b.0 as int]
                    &&& b.1 > 0
                    &&& (top@.len() > 0 ==> ranks_before(top@.last(), b))
                },
                forall|m: int|
                    0 <= m < l && counts@[m] > 0 && (top@.len() == 0 || ranks_before(
                        top@.last(),
                        (m as u16, counts@[m]),
                    )) ==> (best matches Some(b) && (b.0 == m || ranks_before(
                        b,
                        (m as u16, counts@[m]),
                    ))),
        {
            let c = counts[l];
            let cand = (l as u16, c);
            let after_last = if top.len() == 0 {
                true
            } else {
                let last = top[top.len() - 1];
                c < last.1 || (c == last.1 && (l as u16) > last.0)
            };
            if c > 0 && after_last {
                let better = match best {
                    None => true,
                    Some(b) => c > b.1 || (c == b.1 && (l as u16) < b.0),
                };
                if better {
                    best = Some(cand);
                }
            }
        }
        match best {
            None => {
                proof {
                    assert forall|l: int|
                        0 <= l < n && counts@[l] > 0 && !(exists|i: int|
                            0 <= i < top@.len() && (#[trigger] top@[i]).0 == l) implies top@.len()
                        == k && (k > 0 ==> ranks_before(top@.last(), (l as u16, counts@[l]))) by {
                        if top@.len() > 0 && !ranks_before(top@.last(), (l as u16, counts@[l])) {
                        }
                    }
                }
                assert(is_top_labels(top@, counts@, k as nat));
                return top;
            },
            Some(b) => {
                let ghost old_top = top@;
                top.push(b);
                proof {
                    assert forall|i: int, j: int| 0 <= i < j < top@.len() implies ranks_before(
                        top@[i],
                        top@[j],
                    ) by {
                        if j == old_top.len() {
                            if i < old_top.len() - 1 {
                                assert(ranks_before(old_top[i], old_top[old_top.len() - 1]));
                            }
                        } else {
                            assert(top@[i] == old_top[i] && top@[j] == old_top[j]);
                        }
                    }
                    assert forall|l: int|
                        0 <= l < n && counts@[l] > 0 && top@.len() > 0 && !ranks_before(
                            top@.last(),
                            (l as u16, counts@[l]),
                        ) implies exists|i: int|
                        0 <= i < top@.len() && (#[trigger] top@[i]).0 == l by {
                        if old_top.len() > 0 && !ranks_before(
                            old_top.last(),
                            (l as u16, counts@[l]),
                        ) {
                            let i = choose|i: int| 0 <= i < old_top.len() && (#[trigger] old_top[i]).0 == l;
                            assert(top@[i] == old_top[i]);
                        } else {
                            assert(top@[old_top.len() as int] == b);
                        }
                    }
                }
            },
        }
    }
    proof {
        assert forall|l: int|
            0 <= l < n && counts@[l] > 0 && !(exists|i: int|
                0 <= i < top@.len() && (#[trigger] top@[i]).0 == l) implies top@.len() == k
            && (k > 0 ==> ranks_before(top@.last(), (l as u16, counts@[l]))) by {
            if top@.len() > 0 && !ranks_before(top@.last(), (l as u16, counts@[l])) {
            }
        }
    }
    top
}


// ---------------------------------------------------------------------------
// The summary text
// ---------------------------------------------------------------------------

/// `x` inserted into `s` before the first entry with a smaller count.
pub open spec fn insert_by_count<K>(x: (K, usize), s: Seq<(K, usize)>) -> Seq<(K, usize)>
    decreases s.len(),
{
    if s.len() == 0 {
        seq![x]
    } else if x.1 > s[0].1 {
        seq![x] + s
    } else {
        seq![s[0]] + insert_by_count(x, s.drop_first())
    }
}

/// The entries of a breakdown with a nonzero count, most frequent first;
/// entries with the same count keep their order.
pub open spec fn ranked<K>(s: Seq<(K, usize)>) -> Seq<(K, usize)>
    decreases s.len(),
{
    if s.len() == 0 {
        Seq::empty()
    } else if s.last().1 > 0 {
        insert_by_count(s.last(), ranked(s.drop_last()))
    } else {
        ranked(s.drop_last())
    }
}

proof fn lemma_insert_by_count_at<K>(x: (K, usize), s: Seq<(K, usize)>, p: int)
    requires
        0 <= p <= s.len(),
        forall|j: int| 0 <= j < p ==> x.1 <= (#[trigger] s[j]).1,
        p < s.len() ==> x.1 > s[p].1,
    ensures
        insert_by_count(x, s) == s.insert(p, x),
    decreases p,
{
    if p == 0 {
        assert(s.insert(0, x) =~= seq![x] + s);
    } else {
        assert(x.1 <= s[0].1);
        lemma_insert_by_count_at(x, s.drop_first(), p - 1);
        assert(s.insert(p, x) =~= seq![s[0]] + s.drop_first().insert(p - 1, x));
    }
}

/// The nonzero entries of `entries`, most frequent first, ties in order.
pub fn rank_entries<K: Copy>(entries: &Vec<(K, usize)>) -> (r: Vec<(K, usize)>)
    ensures
        r@ == ranked(entries@),
{
    let mut r: Vec<(K, usize)> = Vec::new();
    let n = entries.len();
    for i in 0..n
        invariant
            n == entries@.len(),
            r@ == ranked(entries@.take(i as int)),
            r@.len() <= i,
    {
        let e = entries[i];
        proof {
            assert(entries@.take(i + 1).drop_last() =~= entries@.take(i as int));
            assert(entries@.take(i + 1).last() == e);
        }
        if e.1 > 0 {
            let mut p: usize = 0;
            while p < r.len() && e.1 <= r[p].1
                invariant
                    p <= r@.len(),
                    forall|j: int| 0 <= j < p ==> e.1 <= (#[trigger] r@[j]).1,
                decreases r@.len() - p,
            {
                p = p + 1;
            }
            proof {
                lemma_insert_by_count_at(e, r@, p as int);
            }
            r.insert(p, e);
        }
    }
    assert(entries@.take(n as int) =~= entries@);
    r
}

/// A breakdown line: the tag right-aligned in `width` characters, then the
/// count.
pub open spec fn entry_line(tag: Seq<char>, width: nat, count: usize) -> Seq<char> {
    "    "@ + pad_left(tag, width) + " : "@ + decimal_digits(count as nat) + "\n"@
}

/// The lines of the format breakdown.
pub open spec fn format_lines(r: Seq<(PayloadFormat, usize)>) -> Seq<char>
    decreases r.len(),
{
    if r.len() == 0 {
        Seq::empty()
    } else {
        format_lines(r.drop_last()) + entry_line(format_tag_text(r.last().0), 12, r.last().1)
    }
}

/// The lines of the error breakdown.
pub open spec fn error_lines(r: Seq<(ErrorKind, usize)>) -> Seq<char>
    decreases r.len(),
{
    if r.len() == 0 {
        Seq::empty()
    } else {
        error_lines(r.drop_last()) + entry_line(r.last().0.tag_text(), 20, r.last().1)
    }
}

/// `v` in octal, at least three digits wide.
pub open spec fn octal3(v: u16) -> Seq<char> {
    if v < 512 {
        radix_digits(v as nat, 3, 8)
    } else if v < 4096 {
        radix_digits(v as nat, 4, 8)
    } else if v < 32768 {
        radix_digits(v as nat, 5, 8)
    } else {
        radix_digits(v as nat, 6, 8)
    }
}

/// The lines of the top-labels list: each label in octal and, cut to a
/// byte, in hex, then its count.
pub open spec fn label_lines(t: Seq<(u16, usize)>) -> Seq<char>
    decreases t.len(),
{
    if t.len() == 0 {
        Seq::empty()
    } else {
        let (l, c) = t.last();
        label_lines(t.drop_last()) + "    LBL "@ + octal3(l) + " (0x"@ + radix_digits(
            (l % 256) as nat,
            2,
            16,
        ) + ") : "@ + decimal_digits(c as nat) + "\n"@
    }
}

/// A count with its percentage, as the summary shows it.
pub open spec fn count_line(title: Seq<char>, count: usize, pct: Seq<char>) -> Seq<char> {
    title + decimal_digits(count as nat) + " ("@ + pct + "%)\n"@
}

/// The text of the summary, with the three percentages (of decoded words,
/// unknown labels and decode errors) given as text.
pub open spec fn summary_text(
    st: PipelineStats,
    ok_pct: Seq<char>,
    unknown_pct: Seq<char>,
    error_pct: Seq<char>,
) -> Seq<char> {
    let fr = ranked(st.format_breakdown@);
    let er = ranked(st.error_breakdown@);
    "  ───── Pipeline Summary ─────\n"@ + "  Total Words:     "@ + decimal_digits(
        st.total_words as nat,
    ) + "\n"@ + count_line("  Decoded OK:      "@, st.decoded_successfully, ok_pct)
        + count_line("  Unknown Labels:  "@, st.unknown_labels, unknown_pct) + count_line(
        "  Decode Errors:   "@,
        st.decode_errors,
        error_pct,
    ) + "  Parity Skipped:  "@ + decimal_digits(st.skipped_parity as nat) + "\n"@ + (if fr.len()
        > 0 {
        "\n  Format Breakdown:\n"@ + format_lines(fr)
    } else {
        Seq::empty()
    }) + (if st.top_labels@.len() > 0 {
        "\n  Top 15 Labels by Frequency:\n"@ + label_lines(st.top_labels@)
    } else {
        Seq::empty()
    }) + (if er.len() > 0 {
        "\n  Error Breakdown:\n"@ + error_lines(er)
    } else {
        Seq::empty()
    })
}

fn push_entry_line(out: &mut String, tag: &str, width: usize, count: usize)
    ensures
        final(out)@ == old(out)@ + entry_line(tag@, width as nat, count),
{
    out.append("    ");
    push_padded(out, tag, width);
    out.append(" : ");
    push_decimal(out, count as u64);
    out.append("\n");
    assert(out@ =~= old(out)@ + entry_line(tag@, width as nat, count));
}

fn push_octal3(out: &mut String, v: u16)
    ensures
        final(out)@ == old(out)@ + octal3(v),
{
    let n: u32 = if v < 512 {
        3
    } else if v < 4096 {
        4
    } else if v < 32768 {
        5
    } else {
        6
    };
    push_radix_digits(out, v as u32, n, 8);
}

fn push_count_line(out: &mut String, title: &str, count: usize, pct: &str)
    ensures
        final(out)@ == old(out)@ + count_line(title@, count, pct@),
{
    out.append(title);
    push_decimal(out, count as u64);
    out.append(" (");
    out.append(pct);
    out.append("%)\n");
    assert(out@ =~= old(out)@ + count_line(title@, count, pct@));
}

fn push_format_section(s: &mut String, formats: &Vec<(PayloadFormat, usize)>)
    ensures
        final(s)@ == old(s)@ + (if formats@.len() > 0 {
            "\n  Format Breakdown:\n"@ + format_lines(formats@)
        } else {
            Seq::empty()
        }),
{
    if formats.len() > 0 {
        s.append("\n  Format Breakdown:\n");
        let ghost start = s@;
        for i in 0..formats.len()
            invariant
                s@ == start + format_lines(formats@.take(i as int)),
        {
            let (f, c) = formats[i];
            push_entry_line(s, format_tag(f), 12, c);
            proof {
                assert(formats@.take(i + 1).drop_last() =~= formats@.take(i as int));
            }
        }
        assert(formats@.take(formats@.len() as int) =~= formats@);
    }
}

fn push_error_section(s: &mut String, errors: &Vec<(ErrorKind, usize)>)
    ensures
        final(s)@ == old(s)@ + (if errors@.len() > 0 {
            "\n  Error Breakdown:\n"@ + error_lines(errors@)
        } else {
            Seq::empty()
        }),
{
    if errors.len() > 0 {
        s.append("\n  Error Breakdown:\n");
        let ghost start = s@;
        for i in 0..errors.len()
            invariant
                s@ == start + error_lines(errors@.take(i as int)),
        {
            let (e, c) = errors[i];
            push_entry_line(s, e.tag(), 20, c);
            proof {
                assert(errors@.take(i + 1).drop_last() =~= errors@.take(i as int));
            }
        }
        assert(errors@.take(errors@.len() as int) =~= errors@);
    }
}

fn push_label_section(s: &mut String, top: &Vec<(u16, usize)>)
    ensures
        final(s)@ == old(s)@ + (if top@.len() > 0 {
            "\n  Top 15 Labels by Frequency:\n"@ + label_lines(top@)
        } else {
            Seq::empty()
        }),
{
    let n = top.len();
    if n > 0 {
        s.append("\n  Top 15 Labels by Frequency:\n");
        let ghost start = s@;
        for i in 0..n
            invariant
                n == top@.len(),
                s@ == start + label_lines(top@.take(i as int)),
        {
            let (l, c) = top[i];
            let ghost before = s@;
            s.append("    LBL ");
            push_octal3(s, l);
            s.append(" (0x");
            push_radix_digits(s, (l % 256) as u32, 2, 16);
            s.append(") : ");
            push_decimal(s, c as u64);
            s.append("\n");
            proof {
                assert(top@.take(i + 1).drop_last() =~= top@.take(i as int));
                assert(top@.take(i + 1).last() == (l, c));
                assert(s@ =~= start + label_lines(top@.take(i + 1)));
            }
        }
        assert(top@.take(n as int) =~= top@);
    }
}

/// The number of labels (label numbers fit in a byte).
pub open spec fn label_space() -> nat {
    256
}

/// The format breakdown of a fresh run: every format, in declaration order,
/// with no decodes.
pub open spec fn empty_format_breakdown() -> Seq<(PayloadFormat, usize)> {
    seq![
        (PayloadFormat::Bnr, 0usize),
        (PayloadFormat::Bcd, 0usize),
        (PayloadFormat::Discrete, 0usize),
        (PayloadFormat::Maintenance, 0usize),
        (PayloadFormat::Ack, 0usize),
        (PayloadFormat::Unknown, 0usize),
    ]
}

/// The error breakdown of a fresh run: every kind, in declaration order,
/// with no failures.
pub open spec fn empty_error_breakdown() -> Seq<(ErrorKind, usize)> {
    seq![
        (ErrorKind::UnknownLabel, 0usize),
        (ErrorKind::BnrOutOfRange, 0usize),
        (ErrorKind::BnrInvalidBits, 0usize),
        (ErrorKind::BnrSsmSpare, 0usize),
        (ErrorKind::BcdInvalidDigit, 0usize),
        (ErrorKind::BcdTooManyDigits, 0usize),
        (ErrorKind::FormatNotSupported, 0usize),
    ]
}

/// How many entries of a run satisfy `p`. An entry is `None` for a word
/// that was left out, else the word's label and the outcome of its decoding.
pub open spec fn run_count(
    run: Seq<Option<(u16, DecodeOutcome)>>,
    p: spec_fn(Option<(u16, DecodeOutcome)>) -> bool,
) -> nat
    decreases run.len(),
{
    if run.len() == 0 {
        0
    } else {
        run_count(run.drop_last(), p) + (if p(run.last()) {
            1nat
        } else {
            0
        })
    }
}

/// A word that was left out.
pub open spec fn left_out() -> spec_fn(Option<(u16, DecodeOutcome)>) -> bool {
    |r: Option<(u16, DecodeOutcome)>| r is None
}

/// A word that was decoded.
pub open spec fn decoded() -> spec_fn(Option<(u16, DecodeOutcome)>) -> bool {
    |r: Option<(u16, DecodeOutcome)>| r matches Some((_, o)) && o is Success
}

/// A word whose label is unknown.
pub open spec fn unknown() -> spec_fn(Option<(u16, DecodeOutcome)>) -> bool {
    |r: Option<(u16, DecodeOutcome)>|
        r matches Some((_, o)) && o == DecodeOutcome::Failure(ErrorKind::UnknownLabel)
}

/// A word whose decoding failed for another reason than an unknown label.
pub open spec fn failed() -> spec_fn(Option<(u16, DecodeOutcome)>) -> bool {
    |r: Option<(u16, DecodeOutcome)>|
        r matches Some((_, o)) && o is Failure && o != DecodeOutcome::Failure(
            ErrorKind::UnknownLabel,
        )
}

/// A word with spare data.
pub open spec fn spare() -> spec_fn(Option<(u16, DecodeOutcome)>) -> bool {
    |r: Option<(u16, DecodeOutcome)>| r matches Some((_, o)) && o is SpareData
}

/// An admitted word with label `l`.
pub open spec fn labelled(l: int) -> spec_fn(Option<(u16, DecodeOutcome)>) -> bool {
    |r: Option<(u16, DecodeOutcome)>| r matches Some((x, _)) && x == l
}

/// A word decoded with the format `f`.
pub open spec fn decoded_as(f: PayloadFormat) -> spec_fn(Option<(u16, DecodeOutcome)>) -> bool {
    |r: Option<(u16, DecodeOutcome)>| r matches Some((_, o)) && o == DecodeOutcome::Success(Some(f))
}

/// A word whose decoding failed with `e`.
pub open spec fn failed_with(e: ErrorKind) -> spec_fn(Option<(u16, DecodeOutcome)>) -> bool {
    |r: Option<(u16, DecodeOutcome)>| r matches Some((_, o)) && o == DecodeOutcome::Failure(e)
}

/// Every entry of a run is counted exactly once: as left out, decoded, an
/// unknown label, a failed decode or spare data.
pub proof fn law_run_partition(run: Seq<Option<(u16, DecodeOutcome)>>)
    ensures
        run_count(run, left_out()) + run_count(run, decoded()) + run_count(run, unknown())
            + run_count(run, failed()) + run_count(run, spare()) == run.len(),
    decreases run.len(),
{
    if run.len() > 0 {
        law_run_partition(run.drop_last());
    }
}

proof fn lemma_run_count_bounded(
    run: Seq<Option<(u16, DecodeOutcome)>>,
    p: spec_fn(Option<(u16, DecodeOutcome)>) -> bool,
)
    ensures
        run_count(run, p) <= run.len(),
    decreases run.len(),
{
    if run.len() > 0 {
        lemma_run_count_bounded(run.drop_last(), p);
    }
}

proof fn lemma_run_count_step(
    run: Seq<Option<(u16, DecodeOutcome)>>,
    i: int,
    p: spec_fn(Option<(u16, DecodeOutcome)>) -> bool,
)
    requires
        0 <= i < run.len(),
    ensures
        run_count(run.take(i + 1), p) == run_count(run.take(i), p) + (if p(run[i]) {
            1nat
        } else {
            0
        }),
{
    assert(run.take(i + 1).drop_last() =~= run.take(i));
}

impl PipelineStats {
    /// Every counter is bounded by the number of recorded words, and the
    /// breakdowns hold one entry per format and per error kind.
    pub closed spec fn wf(self) -> bool {
        &&& self.label_counts@.len() == label_space()
        &&& self.format_breakdown@.len() == 6
        &&& self.error_breakdown@.len() == 7
        &&& forall|f: PayloadFormat| #[trigger] self.format_breakdown@[format_index(f)].0 == f
        &&& forall|e: ErrorKind| #[trigger] self.error_breakdown@[e.index()].0 == e
        &&& self.decoded_successfully <= self.recorded
        &&& self.unknown_labels <= self.recorded
        &&& self.decode_errors <= self.recorded
        &&& self.skipped_parity <= self.recorded
        &&& self.spare_data <= self.recorded
        &&& self.decoded_successfully + self.unknown_labels + self.decode_errors + self.spare_data
            + self.skipped_parity == self.recorded
        &&& forall|i: int| 0 <= i < 256 ==> #[trigger] self.label_counts@[i] <= self.recorded
        &&& forall|i: int| 0 <= i < 6 ==> #[trigger] self.format_breakdown@[i].1 <= self.recorded
        &&& forall|i: int| 0 <= i < 7 ==> #[trigger] self.error_breakdown@[i].1 <= self.recorded
    }

    /// Every recorded word is counted exactly once: as decoded, as an
    /// unknown label, as a decode error, as spare data or as left out.
    pub proof fn law_outcomes_partition_recorded(self)
        requires
            self.wf(),
        ensures
            self.decoded_successfully + self.unknown_labels + self.decode_errors + self.spare_data
                + self.skipped_parity == self.recorded_count(),
    {
    }

    /// How many outcomes have been recorded.
    pub closed spec fn recorded_count(self) -> nat {
        self.recorded as nat
    }

    /// How many admitted words carried each label.
    pub closed spec fn label_tally(self) -> Seq<usize> {
        self.label_counts@
    }

    pub fn new() -> (s: Self)
        ensures
            s.wf(),
            s.recorded_count() == 0,
            s.total_words == 0,
            s.processed == 0,
            s.decoded_successfully == 0,
            s.unknown_labels == 0,
            s.decode_errors == 0,
            s.skipped_parity == 0,
            s.spare_data == 0,
            s.top_labels@.len() == 0,
            s.format_breakdown@ == empty_format_breakdown(),
            s.error_breakdown@ == empty_error_breakdown(),
            forall|f: PayloadFormat| #[trigger] s.format_breakdown@[format_index(f)] == (f, 0usize),
            forall|e: ErrorKind| #[trigger] s.error_breakdown@[e.index()] == (e, 0usize),
            s.label_tally().len() == 256,
            forall|l: int| 0 <= l < 256 ==> #[trigger] s.label_tally()[l] == 0,
    {
        let mut label_counts: Vec<usize> = Vec::new();
        for i in 0..256usize
            invariant
                label_counts@.len() == i,
                forall|l: int| 0 <= l < i ==> #[trigger] label_counts@[l] == 0,
        {
            label_counts.push(0);
        }
        let mut format_breakdown: Vec<(PayloadFormat, usize)> = Vec::new();
        format_breakdown.push((PayloadFormat::Bnr, 0));
        format_breakdown.push((PayloadFormat::Bcd, 0));
        format_breakdown.push((PayloadFormat::Discrete, 0));
        format_breakdown.push((PayloadFormat::Maintenance, 0));
        format_breakdown.push((PayloadFormat::Ack, 0));
        format_breakdown.push((PayloadFormat::Unknown, 0));
        let mut error_breakdown: Vec<(ErrorKind, usize)> = Vec::new();
        error_breakdown.push((ErrorKind::UnknownLabel, 0));
        error_breakdown.push((ErrorKind::BnrOutOfRange, 0));
        error_breakdown.push((ErrorKind::BnrInvalidBits, 0));
        error_breakdown.push((ErrorKind::BnrSsmSpare, 0));
        error_breakdown.push((ErrorKind::BcdInvalidDigit, 0));
        error_breakdown.push((ErrorKind::BcdTooManyDigits, 0));
        error_breakdown.push((ErrorKind::FormatNotSupported, 0));
        assert(format_breakdown@ =~= empty_format_breakdown());
        assert(error_breakdown@ =~= empty_error_breakdown());
        PipelineStats {
            total_words: 0,
            processed: 0,
            decoded_successfully: 0,
            unknown_labels: 0,
            decode_errors: 0,
            skipped_parity: 0,
            spare_data: 0,
            top_labels: Vec::new(),
            format_breakdown,
            error_breakdown,
            label_counts,
            recorded: 0,
        }
    }

    /// Counts a word that the pipeline left out.
    pub fn record_skipped(&mut self)
        requires
            old(self).wf(),
            old(self).recorded_count() < usize::MAX,
        ensures
            final(self).wf(),
            final(self).recorded_count() == old(self).recorded_count() + 1,
            final(self).skipped_parity == old(self).skipped_parity + 1,
            final(self).decoded_successfully == old(self).decoded_successfully,
            final(self).unknown_labels == old(self).unknown_labels,
            final(self).decode_errors == old(self).decode_errors,
            final(self).spare_data == old(self).spare_data,
            final(self).total_words == old(self).total_words,
            final(self).processed == old(self).processed,
            final(self).top_labels == old(self).top_labels,
            final(self).format_breakdown == old(self).format_breakdown,
            final(self).error_breakdown == old(self).error_breakdown,
            final(self).label_tally() == old(self).label_tally(),
    {
        self.recorded = self.recorded + 1;
        self.skipped_parity = self.skipped_parity + 1;
    }

    /// Counts an admitted word with label `label` and its outcome.
    pub fn record_outcome(&mut self, label: u16, outcome: DecodeOutcome)
        requires
            old(self).wf(),
            old(self).recorded_count() < usize::MAX,
            label < 256,
        ensures
            final(self).wf(),
            final(self).recorded_count() == old(self).recorded_count() + 1,
            final(self).label_tally() == old(self).label_tally().update(
                label as int,
                (old(self).label_tally()[label as int] + 1) as usize,
            ),
            final(self).skipped_parity == old(self).skipped_parity,
            final(self).total_words == old(self).total_words,
            final(self).processed == old(self).processed,
            final(self).top_labels == old(self).top_labels,
            final(self).decoded_successfully == old(self).decoded_successfully + (
            if outcome is Success {
                1int
            } else {
                0
            }),
            final(self).unknown_labels == old(self).unknown_labels + (
            if outcome == DecodeOutcome::Failure(ErrorKind::UnknownLabel) {
                1int
            } else {
                0
            }),
            final(self).decode_errors == old(self).decode_errors + (if outcome is Failure
                && outcome != DecodeOutcome::Failure(ErrorKind::UnknownLabel) {
                1int
            } else {
                0
            }),
            final(self).spare_data == old(self).spare_data + (if outcome is SpareData {
                1int
            } else {
                0
            }),
            final(self).format_breakdown@ == (match outcome {
                DecodeOutcome::Success(Some(f)) => old(self).format_breakdown@.update(
                    format_index(f),
                    (f, (old(self).format_breakdown@[format_index(f)].1 + 1) as usize),
                ),
                _ => old(self).format_breakdown@,
            }),
            final(self).error_breakdown@ == (match outcome {
                DecodeOutcome::Failure(e) => old(self).error_breakdown@.update(
                    e.index(),
                    (e, (old(self).error_breakdown@[e.index()].1 + 1) as usize),
                ),
                _ => old(self).error_breakdown@,
            }),
    {
        let ghost before = *self;
        self.recorded = self.recorded + 1;
        let li = label as usize;
        let c = self.label_counts[li];
        self.label_counts.set(li, c + 1);
        match outcome {
            DecodeOutcome::Success(fmt) => {
                self.decoded_successfully = self.decoded_successfully + 1;
                match fmt {
                    Some(f) => {
                        let i = Self::format_slot(f);
                        let entry = self.format_breakdown[i];
                        self.format_breakdown.set(i, (f, entry.1 + 1));
                    },
                    None => {},
                }
            },
            DecodeOutcome::Failure(e) => {
                match e {
                    ErrorKind::UnknownLabel => {
                        self.unknown_labels = self.unknown_labels + 1;
                    },
                    _ => {
                        self.decode_errors = self.decode_errors + 1;
                    },
                }
                let i = Self::error_slot(e);
                let entry = self.error_breakdown[i];
                self.error_breakdown.set(i, (e, entry.1 + 1));
            },
            DecodeOutcome::SpareData => {
                self.spare_data = self.spare_data + 1;
            },
        }
        proof {
            assert forall|f: PayloadFormat| #[trigger] self.format_breakdown@[format_index(f)].0
                == f by {
                assert(before.format_breakdown@[format_index(f)].0 == f);
            }
            assert forall|e: ErrorKind| #[trigger] self.error_breakdown@[e.index()].0 == e by {
                assert(before.error_breakdown@[e.index()].0 == e);
            }
            assert forall|i: int| 0 <= i < 256 implies #[trigger] self.label_counts@[i]
                <= self.recorded by {
                assert(before.label_counts@[i] <= before.recorded);
            }
            assert forall|i: int| 0 <= i < 6 implies #[trigger] self.format_breakdown@[i].1
                <= self.recorded by {
                assert(before.format_breakdown@[i].1 <= before.recorded);
            }
            assert forall|i: int| 0 <= i < 7 implies #[trigger] self.error_breakdown@[i].1
                <= self.recorded by {
                assert(before.error_breakdown@[i].1 <= before.recorded);
            }
        }
    }

    fn format_slot(f: PayloadFormat) -> (i: usize)
        ensures
            i == format_index(f),
    {
        match f {
            PayloadFormat::Bnr => 0,
            PayloadFormat::Bcd => 1,
            PayloadFormat::Discrete => 2,
            PayloadFormat::Maintenance => 3,
            PayloadFormat::Ack => 4,
            PayloadFormat::Unknown => 5,
        }
    }

    fn error_slot(e: ErrorKind) -> (i: usize)
        ensures
            i == e.index(),
    {
        match e {
            ErrorKind::UnknownLabel => 0,
            ErrorKind::BnrOutOfRange => 1,
            ErrorKind::BnrInvalidBits => 2,
            ErrorKind::BnrSsmSpare => 3,
            ErrorKind::BcdInvalidDigit => 4,
            ErrorKind::BcdTooManyDigits => 5,
            ErrorKind::FormatNotSupported => 6,
        }
    }

    /// Ranks the labels seen so far: `top_labels` becomes the fifteen most
    /// frequent, most frequent first.
    pub fn rank_top_labels(&mut self)
        requires
            old(self).wf(),
        ensures
            final(self).wf(),
            is_top_labels(final(self).top_labels@, final(self).label_tally(), 15),
            final(self).label_tally() == old(self).label_tally(),
            final(self).recorded_count() == old(self).recorded_count(),
            final(self).total_words == old(self).total_words,
            final(self).processed == old(self).processed,
            final(self).decoded_successfully == old(self).decoded_successfully,
            final(self).unknown_labels == old(self).unknown_labels,
            final(self).decode_errors == old(self).decode_errors,
            final(self).skipped_parity == old(self).skipped_parity,
            final(self).spare_data == old(self).spare_data,
            final(self).format_breakdown == old(self).format_breakdown,
            final(self).error_breakdown == old(self).error_breakdown,
    {
        self.top_labels = top_labels_of(&self.label_counts, 15);
    }

    /// The summary of the run: totals, each count with its percentage of
    /// the total (given as text), and the format breakdown, the top labels
    /// and the error breakdown where they have entries.
    pub fn summary(&self, ok_pct: &str, unknown_pct: &str, error_pct: &str) -> (text: String)
        ensures
            text@ == summary_text(*self, ok_pct@, unknown_pct@, error_pct@),
    {
        let mut s = String::new();
        s.append("  ───── Pipeline Summary ─────\n");
        s.append("  Total Words:     ");
        push_decimal(&mut s, self.total_words as u64);
        s.append("\n");
        push_count_line(&mut s, "  Decoded OK:      ", self.decoded_successfully, ok_pct);
        push_count_line(&mut s, "  Unknown Labels:  ", self.unknown_labels, unknown_pct);
        push_count_line(&mut s, "  Decode Errors:   ", self.decode_errors, error_pct);
        s.append("  Parity Skipped:  ");
        push_decimal(&mut s, self.skipped_parity as u64);
        s.append("\n");
        let formats = rank_entries(&self.format_breakdown);
        push_format_section(&mut s, &formats);
        push_label_section(&mut s, &self.top_labels);
        let errors = rank_entries(&self.error_breakdown);
        push_error_section(&mut s, &errors);
        assert(s@ =~= summary_text(*self, ok_pct@, unknown_pct@, error_pct@));
        s
    }

    /// The statistics of a whole run: `run` holds, word by word, `None` for
    /// a word the pipeline left out, else the word's label and the outcome
    /// of its decoding. Every count is the number of entries of its kind,
    /// and the labels are ranked.
    pub fn from_run(run: &Vec<Option<(u16, DecodeOutcome)>>) -> (s: Self)
        requires
            forall|i: int| 0 <= i < run@.len() ==> (#[trigger] run@[i] matches Some((l, _)) ==> l < 256),
        ensures
            s.wf(),
            s.total_words == run@.len(),
            s.processed == 0,
            s.recorded_count() == run@.len(),
            s.skipped_parity == run_count(run@, left_out()),
            s.decoded_successfully == run_count(run@, decoded()),
            s.unknown_labels == run_count(run@, unknown()),
            s.decode_errors == run_count(run@, failed()),
            s.spare_data == run_count(run@, spare()),
            forall|l: int| 0 <= l < 256 ==> #[trigger] s.label_tally()[l] == run_count(run@, labelled(l)),
            forall|f: PayloadFormat| #[trigger] s.format_breakdown@[format_index(f)] == (f, run_count(
                run@,
                decoded_as(f),
            ) as usize),
            forall|e: ErrorKind| #[trigger] s.error_breakdown@[e.index()] == (e, run_count(
                run@,
                failed_with(e),
            ) as usize),
            is_top_labels(s.top_labels@, s.label_tally(), 15),
    {
        let n = run.len();
        let mut s = PipelineStats::new();
        s.total_words = n;
        for i in 0..n
            invariant
                n == run@.len(),
                forall|j: int| 0 <= j < run@.len() ==> (#[trigger] run@[j] matches Some((l, _)) ==> l < 256),
                s.wf(),
                s.total_words == n,
                s.processed == 0,
                s.recorded_count() == i,
                s.skipped_parity == run_count(run@.take(i as int), left_out()),
                s.decoded_successfully == run_count(run@.take(i as int), decoded()),
                s.unknown_labels == run_count(run@.take(i as int), unknown()),
                s.decode_errors == run_count(run@.take(i as int), failed()),
                s.spare_data == run_count(run@.take(i as int), spare()),
                s.label_tally().len() == 256,
                forall|l: int| 0 <= l < 256 ==> #[trigger] s.label_tally()[l] == run_count(
                    run@.take(i as int),
                    labelled(l),
                ),
                forall|f: PayloadFormat| #[trigger] s.format_breakdown@[format_index(f)] == (f,
                run_count(run@.take(i as int), decoded_as(f)) as usize),
                forall|e: ErrorKind| #[trigger] s.error_breakdown@[e.index()] == (e, run_count(
                    run@.take(i as int),
                    failed_with(e),
                ) as usize),
        {
            let entry = run[i];
            proof {
                lemma_run_count_step(run@, i as int, left_out());
                lemma_run_count_step(run@, i as int, decoded());
                lemma_run_count_step(run@, i as int, unknown());
                lemma_run_count_step(run@, i as int, failed());
                lemma_run_count_step(run@, i as int, spare());
            }
            let ghost before = s;
            assert(run@[i as int] == entry);
            match entry {
                None => s.record_skipped(),
                Some((label, outcome)) => s.record_outcome(label, outcome),
            }
            proof {
                assert forall|l: int| 0 <= l < 256 implies #[trigger] s.label_tally()[l]
                    == run_count(run@.take(i + 1), labelled(l)) by {
                    lemma_run_count_step(run@, i as int, labelled(l));
                }
                assert forall|f: PayloadFormat| #[trigger] s.format_breakdown@[format_index(f)]
                    == (f, run_count(run@.take(i + 1), decoded_as(f)) as usize) by {
                    lemma_run_count_step(run@, i as int, decoded_as(f));
                    lemma_run_count_bounded(run@.take(i as int), decoded_as(f));
                    assert(before.format_breakdown@[format_index(f)] == (f, run_count(
                        run@.take(i as int),
                        decoded_as(f),
                    ) as usize));
                }
                assert forall|e: ErrorKind| #[trigger] s.error_breakdown@[e.index()] == (e,
                    run_count(run@.take(i + 1), failed_with(e)) as usize) by {
                    lemma_run_count_step(run@, i as int, failed_with(e));
                    lemma_run_count_bounded(run@.take(i as int), failed_with(e));
                    assert(before.error_breakdown@[e.index()] == (e, run_count(
                        run@.take(i as int),
                        failed_with(e),
                    ) as usize));
                }
            }
        }
        assert(run@.take(n as int) =~= run@);
        s.rank_top_labels();
        s
    }

    /// How many outcomes have been recorded.
    pub fn recorded(&self) -> (r: usize)
        ensures
            r == self.recorded_count(),
    {
        self.recorded
    }
}

/// A fresh run's breakdowns have no nonzero entries, so its summary lists
/// no format and no error section.
pub proof fn lemma_fresh_breakdowns_rank_empty()
    ensures
        ranked(empty_format_breakdown()) == Seq::<(PayloadFormat, usize)>::empty(),
        ranked(empty_error_breakdown()) == Seq::<(ErrorKind, usize)>::empty(),
{
    reveal_with_fuel(ranked, 8);
    let f = empty_format_breakdown();
    let e = empty_error_breakdown();
    assert(f.drop_last().drop_last().drop_last().drop_last().drop_last().drop_last().len() == 0);
    assert(e.drop_last().drop_last().drop_last().drop_last().drop_last().drop_last().drop_last().len()
        == 0);
}

impl Default for PipelineStats {
    fn default() -> (s: Self)
        ensures
            s.wf(),
            s.recorded_count() == 0,
            s.total_words == 0,
            s.decoded_successfully == 0,
            s.unknown_labels == 0,
            s.decode_errors == 0,
            s.skipped_parity == 0,
            s.spare_data == 0,
            s.top_labels@.len() == 0,
            s.format_breakdown@ == empty_format_breakdown(),
            s.error_breakdown@ == empty_error_breakdown(),
    {
        Self::new()
    }
}

} // verus!
