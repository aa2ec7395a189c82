use vstd::prelude::*;
use vstd::string::{StrSliceExecFns, StringSliceAdditionalSpecFns, StringExecFns};
use crate::io::reader::DumpFormat;
use crate::protocol::dictionary::{
    lookup_label, matches_dictionary, LabelDefinition, label_format, label_param_name,
    label_equipment, label_description,
};
use crate::protocol::types::PayloadFormat;
use crate::protocol::word::{ArincWord, reversed_u8, raw_label_of};
use crate::text::{radix_digits, push_radix_digits, push_char};

verus! {

// ---------------------------------------------------------------------------
// Case folding
// ---------------------------------------------------------------------------

/// The lowercase form of a text, as `str::to_lowercase` gives it (the
/// Unicode lowercase mapping).
pub uninterp spec fn lowercase(s: Seq<char>) -> Seq<char>;

/// `str::to_lowercase`: the text in lowercase. Its result is named by
/// `lowercase`, a function of the text alone; nothing more is stated of it.
#[verifier::external_body]
fn lowercase_text(s: &str) -> (r: String)
    ensures
        r@ == lowercase(s@),
{
    s.to_lowercase()
}

/// The characters of `s`, in order.
fn chars_of(s: &str) -> (v: Vec<char>)
    ensures
        v@ == s@,
{
    let n = s.unicode_len();
    let mut v: Vec<char> = Vec::with_capacity(n);
    for i in 0..n
        invariant
            n == s@.len(),
            v@ == s@.take(i as int),
    {
        let c = s.get_char(i);
        v.push(c);
        assert(s@.take(i + 1) =~= s@.take(i as int).push(c));
    }
    assert(s@.take(n as int) =~= s@);
    v
}

fn same_chars(a: &Vec<char>, b: &str) -> (r: bool)
    ensures
        r == (a@ == b@),
{
    let bv = chars_of(b);
    if a.len() != bv.len() {
        return false;
    }
    for i in 0..a.len()
        invariant
            a@.len() == bv@.len(),
            bv@ == b@,
            forall|j: int| 0 <= j < i ==> a@[j] == bv@[j],
    {
        if a[i] != bv[i] {
            return false;
        }
    }
    assert(a@ =~= bv@);
    true
}

/// `q` occurs in `h` as a run of consecutive characters.
pub open spec fn contains_text(h: Seq<char>, q: Seq<char>) -> bool {
    exists|i: int| 0 <= i && i + q.len() <= h.len() && #[trigger] h.subrange(i, i + q.len()) == q
}

fn contains_chars(h: &Vec<char>, q: &Vec<char>) -> (r: bool)
    ensures
        r == contains_text(h@, q@),
{
    let hn = h.len();
    if q.len() == 0 {
        assert(h@.subrange(0, 0 + q@.len() as int) =~= q@);
        return true;
    }
    if q.len() > h.len() {
        return false;
    }
    let last = h.len() - q.len();
    let mut i: usize = 0;
    while i <= last
        invariant
            hn == h@.len(),
            0 < q@.len() <= h@.len(),
            last == h@.len() - q@.len(),
            i <= last + 1,
            forall|k: int| 0 <= k < i ==> #[trigger] h@.subrange(k, k + q@.len()) != q@,
        decreases last + 1 - i,
    {
        let mut j: usize = 0;
        let mut same = true;
        while j < q.len()
            invariant
                hn == h@.len(),
                0 < q@.len() <= h@.len(),
                i <= last,
                last == h@.len() - q@.len(),
                j <= q@.len(),
                same == (forall|t: int| 0 <= t < j ==> h@[i + t] == q@[t]),
            decreases q@.len() - j,
        {
            if h[i + j] != q[j] {
                same = false;
            }
            j = j + 1;
        }
        if same {
            assert(h@.subrange(i as int, i + q@.len()) =~= q@);
            return true;
        }
        assert(h@.subrange(i as int, i + q@.len()) != q@) by {
            let t = choose|t: int| 0 <= t < q@.len() && h@[i + t] != q@[t];
            assert(h@.subrange(i as int, i + q@.len())[t] == h@[i + t]);
        }
        i = i + 1;
    }
    assert forall|k: int| 0 <= k && k + q@.len() <= h@.len() implies #[trigger] h@.subrange(
        k,
        k + q@.len(),
    ) != q@ by {}
    false
}

// ---------------------------------------------------------------------------
// Choosing what to decode
// ---------------------------------------------------------------------------

/// The dump layout a file extension suggests: hex text for `hex`, `txt`
/// and `log`, little-endian capture for `pcap` and `cap`, raw binary
/// otherwise; case does not matter.
pub open spec fn format_for_extension(ext: Seq<char>) -> DumpFormat {
    let e = lowercase(ext);
    if e == "hex"@ || e == "txt"@ || e == "log"@ {
        DumpFormat::HexText
    } else if e == "pcap"@ || e == "cap"@ {
        DumpFormat::PcapLe
    } else {
        DumpFormat::RawBinary
    }
}

/// The dump layout the file extension `ext` suggests.
pub fn dump_format_for_extension(ext: &str) -> (f: DumpFormat)
    ensures
        f == format_for_extension(ext@),
{
    let low = lowercase_text(ext);
    let e = chars_of(low.as_str());
    if same_chars(&e, "hex") || same_chars(&e, "txt") || same_chars(&e, "log") {
        DumpFormat::HexText
    } else if same_chars(&e, "pcap") || same_chars(&e, "cap") {
        DumpFormat::PcapLe
    } else {
        DumpFormat::RawBinary
    }
}

/// The number written by octal digit bytes.
pub open spec fn octal_digits_value(b: Seq<u8>) -> nat
    decreases b.len(),
{
    if b.len() == 0 {
        0
    } else {
        octal_digits_value(b.drop_last()) * 8 + (b.last() - 48) as nat
    }
}

/// Every byte is an octal digit.
pub open spec fn all_octal(b: Seq<u8>) -> bool {
    forall|i: int| 0 <= i < b.len() ==> 48 <= #[trigger] b[i] <= 55
}

/// A label written in octal (as `u16::from_str_radix(s, 8)` reads it): an
/// optional `+`, then at least one octal digit, the value fitting 16 bits.
pub open spec fn octal_label_value(b: Seq<u8>) -> Option<u16> {
    let digits = if b.len() > 0 && b[0] == 43 {
        b.drop_first()
    } else {
        b
    };
    if digits.len() > 0 && all_octal(digits) && octal_digits_value(digits) <= 0xFFFF {
        Some(octal_digits_value(digits) as u16)
    } else {
        None
    }
}

/// Reads a label filter written in octal; `None` when it is not one.
pub fn parse_octal_label(s: &str) -> (r: Option<u16>)
    ensures
        r == octal_label_value(s.spec_bytes()),
{
    let b = s.as_bytes();
    let n = b.len();
    let start: usize = if n > 0 && b[0] == 43 {
        1
    } else {
        0
    };
    let ghost digits = if n > 0 && b@[0] == 43 {
        b@.drop_first()
    } else {
        b@
    };
    assert(digits =~= b@.subrange(start as int, n as int));
    if start >= n {
        return None;
    }
    let mut acc: u32 = 0;
    let mut too_big = false;
    let mut i = start;
    while i < n
        invariant
            start <= i <= n,
            n == b@.len(),
            b@ == s.spec_bytes(),
            digits == (if b@.len() > 0 && b@[0] == 43 {
                b@.drop_first()
            } else {
                b@
            }),
            digits == b@.subrange(start as int, n as int),
            all_octal(b@.subrange(start as int, i as int)),
            !too_big ==> acc == octal_digits_value(b@.subrange(start as int, i as int)) && acc
                <= 0xFFFF,
            too_big ==> octal_digits_value(b@.subrange(start as int, i as int)) > 0xFFFF,
        decreases n - i,
    {
        let c = b[i];
        if c < 48 || c > 55 {
            proof {
                assert(digits[i - start] == c);
                assert(!all_octal(digits));
            }
            return None;
        }
        let ghost prefix = b@.subrange(start as int, i as int);
        let ghost next = b@.subrange(start as int, i + 1);
        proof {
            assert(next.drop_last() =~= prefix);
            assert(next.last() == c);
            assert(all_octal(next));
        }
        if !too_big {
            let v = acc * 8 + (c - 48) as u32;
            if v > 0xFFFF {
                too_big = true;
            } else {
                acc = v;
            }
        } else {
            assert(octal_digits_value(next) >= octal_digits_value(prefix));
        }
        i = i + 1;
    }
    assert(b@.subrange(start as int, n as int) == digits);
    if too_big {
        None
    } else {
        Some(acc as u16)
    }
}

/// The logical label of a word, as a number.
pub open spec fn word_label(w: ArincWord) -> u16 {
    reversed_u8(raw_label_of(w.raw_bits())) as u16
}

/// The words whose label is one of `labels`, in order.
pub open spec fn with_labels(words: Seq<ArincWord>, labels: Seq<u16>) -> Seq<ArincWord>
    decreases words.len(),
{
    if words.len() == 0 {
        Seq::empty()
    } else if labels.contains(word_label(words.last())) {
        with_labels(words.drop_last(), labels).push(words.last())
    } else {
        with_labels(words.drop_last(), labels)
    }
}

/// Keeps the words whose label is one of `labels`, in order.
pub fn select_labels(words: Vec<ArincWord>, labels: &Vec<u16>) -> (r: Vec<ArincWord>)
    ensures
        r@ == with_labels(words@, labels@),
{
    let mut r: Vec<ArincWord> = Vec::new();
    let n = words.len();
    for i in 0..n
        invariant
            n == words@.len(),
            r@ == with_labels(words@.take(i as int), labels@),
    {
        let l = words[i].label_octal();
        let mut found = false;
        for j in 0..labels.len()
            invariant
                found == (exists|k: int| 0 <= k < j && labels@[k] == l),
        {
            if labels[j] == l {
                found = true;
            }
        }
        proof {
            assert(words@.take(i + 1).drop_last() =~= words@.take(i as int));
            assert(words@.take(i + 1).last() == words@[i as int]);
            if found {
                let k = choose|k: int| 0 <= k < labels@.len() && labels@[k] == l;
                assert(labels@.contains(l));
            }
        }
        if found {
            r.push(words[i].clone());
        }
    }
    assert(words@.take(n as int) =~= words@);
    r
}

// ---------------------------------------------------------------------------
// Listing the dictionary
// ---------------------------------------------------------------------------

/// The word a format filter names a format by; `None` for formats that no
/// filter selects.
pub open spec fn format_filter_word(f: PayloadFormat) -> Option<Seq<char>> {
    match f {
        PayloadFormat::Bnr => Some("bnr"@),
        PayloadFormat::Bcd => Some("bcd"@),
        PayloadFormat::Discrete => Some("discrete"@),
        PayloadFormat::Maintenance => Some("maintenance"@),
        _ => None,
    }
}

/// The text a dictionary query is looked for in: the label in octal, then
/// the parameter name, equipment and description, lowercased, separated by
/// spaces.
pub open spec fn label_haystack(label: u16) -> Seq<char> {
    radix_digits(label as nat, 3, 8) + " "@ + lowercase(label_param_name(label)) + " "@
        + lowercase(label_equipment(label)) + " "@ + lowercase(label_description(label))
}

/// The label is defined and passes both filters: its format is the one the
/// format filter names (case aside), and the query (case aside) occurs in
/// its text.
pub open spec fn listed(label: u16, format_filter: Option<Seq<char>>, query: Option<Seq<char>>) -> bool {
    &&& label_format(label) is Some
    &&& match format_filter {
        None => true,
        Some(f) => format_filter_word(label_format(label).unwrap()) == Some(lowercase(f)),
    }
    &&& match query {
        None => true,
        Some(q) => contains_text(label_haystack(label), lowercase(q)),
    }
}

/// The labels below `n` that are listed, in increasing order.
pub open spec fn listed_below(n: nat, format_filter: Option<Seq<char>>, query: Option<Seq<char>>) -> Seq<u16>
    decreases n,
{
    if n == 0 {
        Seq::empty()
    } else {
        let l = (n - 1) as u16;
        let rest = listed_below((n - 1) as nat, format_filter, query);
        if listed(l, format_filter, query) {
            rest.push(l)
        } else {
            rest
        }
    }
}

fn opt_view(s: Option<&str>) -> (r: Ghost<Option<Seq<char>>>)
    ensures
        r@ == (match s {
            Some(t) => Some(t@),
            None => None,
        }),
{
    Ghost(
        match s {
            Some(t) => Some(t@),
            None => None,
        },
    )
}

fn format_filter_passes(f: PayloadFormat, filter: &Vec<char>) -> (r: bool)
    ensures
        r == (format_filter_word(f) == Some(filter@)),
{
    match f {
        PayloadFormat::Bnr => same_chars(filter, "bnr"),
        PayloadFormat::Bcd => same_chars(filter, "bcd"),
        PayloadFormat::Discrete => same_chars(filter, "discrete"),
        PayloadFormat::Maintenance => same_chars(filter, "maintenance"),
        _ => false,
    }
}

/// The text a query is looked for in, for the definition `d` of `label`.
fn haystack_of(d: &LabelDefinition, label: u16) -> (h: Vec<char>)
    requires
        matches_dictionary(*d, label),
        label < 256,
    ensures
        h@ == label_haystack(label),
{
    let mut s = String::new();
    push_radix_digits(&mut s, label as u32, 3, 8);
    push_char(&mut s, ' ');
    let name = lowercase_text(d.param_name.as_str());
    s.append(name.as_str());
    push_char(&mut s, ' ');
    let equip = lowercase_text(d.equipment.as_str());
    s.append(equip.as_str());
    push_char(&mut s, ' ');
    let desc = lowercase_text(d.description.as_str());
    s.append(desc.as_str());
    proof {
        reveal_strlit(" ");
    }
    assert(s@ =~= label_haystack(label));
    chars_of(s.as_str())
}

/// The dictionary entries that pass the filters, in increasing label
/// order: with a format filter, only entries of the format it names (case
/// aside); with a query, only entries whose label in octal, parameter name,
/// equipment or description hold it (case aside).
pub fn dictionary_listing(format_filter: Option<&str>, query: Option<&str>) -> (r: Vec<
    LabelDefinition,
>)
    ensures
        ({
            let ff = match format_filter {
                Some(t) => Some(t@),
                None => None,
            };
            let q = match query {
                Some(t) => Some(t@),
                None => None,
            };
            let labels = listed_below(256, ff, q);
            &&& r@.len() == labels.len()
            &&& forall|i: int| 0 <= i < r@.len() ==> matches_dictionary(#[trigger] r@[i], labels[i])
        }),
{
    let ff = opt_view(format_filter);
    let qv = opt_view(query);
    let filter: Option<Vec<char>> = match format_filter {
        Some(t) => {
            let low = lowercase_text(t);
            Some(chars_of(low.as_str()))
        },
        None => None,
    };
    let needle: Option<Vec<char>> = match query {
        Some(t) => {
            let low = lowercase_text(t);
            Some(chars_of(low.as_str()))
        },
        None => None,
    };
    let mut r: Vec<LabelDefinition> = Vec::new();
    for l in 0..256u16
        invariant
            filter matches Some(f) ==> ff@ matches Some(t) && f@ == lowercase(t),
            filter is None ==> ff@ is None,
            needle matches Some(q) ==> qv@ matches Some(t) && q@ == lowercase(t),
            needle is None ==> qv@ is None,
            r@.len() == listed_below(l as nat, ff@, qv@).len(),
            forall|i: int|
                0 <= i < r@.len() ==> matches_dictionary(
                    #[trigger] r@[i],
                    listed_below(l as nat, ff@, qv@)[i],
                ),
    {
        let ghost before = listed_below(l as nat, ff@, qv@);
        match lookup_label(l) {
            Some(d) => {
                let format_ok = match &filter {
                    Some(f) => format_filter_passes(d.format, f),
                    None => true,
                };
                let query_ok = if !format_ok {
                    false
                } else {
                    match &needle {
                        Some(q) => {
                            let h = haystack_of(&d, l);
                            contains_chars(&h, q)
                        },
                        None => true,
                    }
                };
                if format_ok && query_ok {
                    r.push(d);
                }
            },
            None => {},
        }
        assert(listed_below((l + 1) as nat, ff@, qv@) == (if listed(l, ff@, qv@) {
            before.push(l)
        } else {
            before
        }));
    }
    r
}

// ---------------------------------------------------------------------------
// Dictionary census
// ---------------------------------------------------------------------------

/// Kinds of payload the census counts.
pub enum CensusKind {
    Any,
    Bnr,
    Bcd,
    Discrete,
    /// Maintenance and acknowledge words.
    System,
}

/// The format is of the kind.
pub open spec fn of_kind(f: PayloadFormat, kind: CensusKind) -> bool {
    match kind {
        CensusKind::Any => true,
        CensusKind::Bnr => f == PayloadFormat::Bnr,
        CensusKind::Bcd => f == PayloadFormat::Bcd,
        CensusKind::Discrete => f == PayloadFormat::Discrete,
        CensusKind::System => f == PayloadFormat::Maintenance || f == PayloadFormat::Ack,
    }
}

/// How many labels below `n` the dictionary defines with a format of the
/// kind.
pub open spec fn defined_below(n: nat, kind: CensusKind) -> nat
    decreases n,
{
    if n == 0 {
        0
    } else {
        defined_below((n - 1) as nat, kind) + match label_format((n - 1) as u16) {
            Some(f) => if of_kind(f, kind) {
                1nat
            } else {
                0nat
            },
            None => 0nat,
        }
    }
}

/// Numbers of dictionary definitions: in all, and per kind of payload.
#[derive(Debug, Clone, Copy, PartialEq, Eq, Structural)]
pub struct FormatCounts {
    pub total: usize,
    pub bnr: usize,
    pub bcd: usize,
    pub discrete: usize,
    /// Maintenance and acknowledge definitions.
    pub system: usize,
}

/// Counts the dictionary's definitions, in all and per kind of payload.
pub fn dictionary_format_counts() -> (c: FormatCounts)
    ensures
        c.total == defined_below(256, CensusKind::Any),
        c.bnr == defined_below(256, CensusKind::Bnr),
        c.bcd == defined_below(256, CensusKind::Bcd),
        c.discrete == defined_below(256, CensusKind::Discrete),
        c.system == defined_below(256, CensusKind::System),
{
    let mut c = FormatCounts { total: 0, bnr: 0, bcd: 0, discrete: 0, system: 0 };
    for l in 0..256u16
        invariant
            c.total == defined_below(l as nat, CensusKind::Any),
            c.bnr == defined_below(l as nat, CensusKind::Bnr),
            c.bcd == defined_below(l as nat, CensusKind::Bcd),
            c.discrete == defined_below(l as nat, CensusKind::Discrete),
            c.system == defined_below(l as nat, CensusKind::System),
            c.total <= l,
            c.bnr <= l,
            c.bcd <= l,
            c.discrete <= l,
            c.system <= l,
    {
        proof {
            let n = (l + 1) as nat;
            assert(((n - 1) as u16) == l);
        }
        match lookup_label(l) {
            Some(d) => {
                c.total = c.total + 1;
                match d.format {
                    PayloadFormat::Bnr => {
                        c.bnr = c.bnr + 1;
                    },
                    PayloadFormat::Bcd => {
                        c.bcd = c.bcd + 1;
                    },
                    PayloadFormat::Discrete => {
                        c.discrete = c.discrete + 1;
                    },
                    PayloadFormat::Maintenance | PayloadFormat::Ack => {
                        c.system = c.system + 1;
                    },
                    PayloadFormat::Unknown => {},
                }
            },
            None => {},
        }
    }
    c
}

} // verus!
