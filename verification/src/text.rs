use vstd::prelude::*;
use vstd::string::StrSliceExecFns;

verus! {

// ---------------------------------------------------------------------------
// Text forms: fixed-width digit strings.
// ---------------------------------------------------------------------------

/// The upper-case digit character for `d < 16`.
pub open spec fn digit_char(d: nat) -> char {
    if d < 10 {
        (48 + d) as char
    } else {
        (55 + d) as char
    }
}

/// The `n` lowest base-`radix` digits of `v`, most significant first,
/// zero-padded: the fixed-width representation of `v`.
pub open spec fn radix_digits(v: nat, n: nat, radix: nat) -> Seq<char>
    recommends
        2 <= radix <= 16,
    decreases n,
{
    if n == 0 {
        Seq::empty()
    } else {
        radix_digits(v / radix, (n - 1) as nat, radix).push(digit_char(v % radix))
    }
}

/// `String::push`: the text grows by exactly the character `c`.
#[verifier::external_body]
pub(crate) fn push_char(s: &mut String, c: char)
    ensures
        final(s)@ == old(s)@.push(c),
{
    s.push(c)
}

fn digit_to_char(d: u32) -> (c: char)
    requires
        d < 16,
    ensures
        c == digit_char(d as nat),
{
    if d < 10 {
        let b: u8 = 48 + d as u8;
        b as char
    } else {
        let b: u8 = 55 + d as u8;
        b as char
    }
}

/// Appends the `n` lowest base-`radix` digits of `v`, most significant first.
pub fn push_radix_digits(s: &mut String, v: u32, n: u32, radix: u32)
    requires
        2 <= radix <= 16,
    ensures
        final(s)@ == old(s)@ + radix_digits(v as nat, n as nat, radix as nat),
    decreases n,
{
    if n > 0 {
        push_radix_digits(s, v / radix, n - 1, radix);
        let d = v % radix;
        let c = digit_to_char(d);
        push_char(s, c);
        assert(s@ == old(s)@ + radix_digits(v as nat, n as nat, radix as nat));
    } else {
        assert(s@ == old(s)@ + radix_digits(v as nat, n as nat, radix as nat));
    }
}

/// Writes `v` with `n` base-`radix` digits into a new string.
pub fn radix_string(v: u32, n: u32, radix: u32) -> (s: String)
    requires
        2 <= radix <= 16,
    ensures
        s@ == radix_digits(v as nat, n as nat, radix as nat),
{
    let mut s = String::new();
    push_radix_digits(&mut s, v, n, radix);
    assert(s@ =~= radix_digits(v as nat, n as nat, radix as nat));
    s
}


/// The decimal representation of `v`, without leading zeros.
pub open spec fn decimal_digits(v: nat) -> Seq<char>
    decreases v,
{
    if v < 10 {
        seq![digit_char(v)]
    } else {
        decimal_digits(v / 10).push(digit_char(v % 10))
    }
}

/// Appends the decimal representation of `v`.
pub fn push_decimal(s: &mut String, v: u64)
    ensures
        final(s)@ == old(s)@ + decimal_digits(v as nat),
    decreases v,
{
    if v >= 10 {
        push_decimal(s, v / 10);
    }
    let d = (v % 10) as u32;
    let c = digit_to_char(d);
    push_char(s, c);
    assert(s@ =~= old(s)@ + decimal_digits(v as nat));
}

/// The decimal representation of `v` as a new string.
pub fn decimal_string(v: u64) -> (s: String)
    ensures
        s@ == decimal_digits(v as nat),
{
    let mut s = String::new();
    push_decimal(&mut s, v);
    assert(s@ =~= decimal_digits(v as nat));
    s
}

/// The items of `list` with `sep` between each two.
pub open spec fn seq_join(list: Seq<Seq<char>>, sep: Seq<char>) -> Seq<char>
    decreases list.len(),
{
    if list.len() == 0 {
        Seq::empty()
    } else if list.len() == 1 {
        list[0]
    } else {
        seq_join(list.drop_last(), sep) + sep + list.last()
    }
}

/// Appends the strings of `list` with `sep` between each two.
pub fn push_joined(s: &mut String, list: &Vec<String>, sep: &str)
    ensures
        final(s)@ == old(s)@ + seq_join(list@.map_values(|x: String| x@), sep@),
{
    let ghost views = list@.map_values(|x: String| x@);
    let ghost start = s@;
    let n = list.len();
    for i in 0..n
        invariant
            n == list@.len(),
            views == list@.map_values(|x: String| x@),
            s@ == start + seq_join(views.take(i as int), sep@),
    {
        if i > 0 {
            s.append(sep);
        }
        s.append(list[i].as_str());
        assert(views.take(i + 1).drop_last() =~= views.take(i as int));
        assert(s@ =~= start + seq_join(views.take(i + 1), sep@));
    }
    assert(views.take(n as int) =~= views);
}

/// `n` spaces (none when `n` is not positive).
pub open spec fn spaces(n: int) -> Seq<char> {
    Seq::new(if n > 0 { n as nat } else { 0 }, |i: int| ' ')
}

/// `s` right-aligned in a field of `width` characters.
pub open spec fn pad_left(s: Seq<char>, width: nat) -> Seq<char> {
    spaces(width - s.len()) + s
}

/// Appends `s` right-aligned in `width` characters.
pub fn push_padded(out: &mut String, s: &str, width: usize)
    ensures
        final(out)@ == old(out)@ + pad_left(s@, width as nat),
{
    let len = s.unicode_len();
    let mut k: usize = len;
    while k < width
        invariant
            len == s@.len(),
            len <= k <= width || (k == len && len >= width),
            out@ == old(out)@ + spaces(k - len),
        decreases width - k,
    {
        push_char(out, ' ');
        proof {
            assert(spaces(k + 1 - len) =~= spaces(k - len).push(' '));
        }
        k = k + 1;
    }
    out.append(s);
    assert(out@ =~= old(out)@ + pad_left(s@, width as nat)) by {
        assert(spaces(k - len) =~= spaces(width - len));
    }
}

} // verus!
