use vstd::prelude::*;
use rand::rngs::StdRng;
use rand::Rng;
use crate::io::dump::{generator_label_seq, generator_labels, synthetic_label};
use crate::protocol::word::{encode_word, has_odd_parity};

verus! {

/// `StdRng` of rand, the generator synthetic data is drawn from.
#[verifier::external_type_specification]
#[verifier::external_body]
pub struct ExStdRng(StdRng);

/// `Rng::gen_ratio`: `true` with a chance of `numerator` in `denominator`.
/// It panics unless `0 < denominator` and `numerator <= denominator`; it
/// gives `true` for certain when they are equal and `false` for certain
/// when `numerator` is 0. Otherwise which value comes is chance.
#[verifier::external_body]
fn draw_ratio(rng: &mut StdRng, numerator: u32, denominator: u32) -> (r: bool)
    requires
        0 < denominator,
        numerator <= denominator,
    ensures
        numerator == denominator ==> r,
        numerator == 0 ==> !r,
{
    rng.gen_ratio(numerator, denominator)
}

/// `Rng::gen_range(0..high)` on `usize`: a value below `high`, by chance.
/// It panics on an empty range.
#[verifier::external_body]
fn draw_index(rng: &mut StdRng, high: usize) -> (r: usize)
    requires
        0 < high,
    ensures
        r < high,
{
    rng.gen_range(0..high)
}

/// `Rng::gen_range(0..high)` on `u32`: a value below `high`, by chance.
/// It panics on an empty range.
#[verifier::external_body]
fn draw_below_u32(rng: &mut StdRng, high: u32) -> (r: u32)
    requires
        0 < high,
    ensures
        r < high,
{
    rng.gen_range(0..high)
}

/// `Rng::gen_range(0..high)` on `u8`: a value below `high`, by chance.
/// It panics on an empty range.
#[verifier::external_body]
fn draw_below_u8(rng: &mut StdRng, high: u8) -> (r: u8)
    requires
        0 < high,
    ensures
        r < high,
{
    rng.gen_range(0..high)
}

/// `Rng::gen` on `u8`: any byte, by chance; nothing is stated of it.
#[verifier::external_body]
fn draw_byte(rng: &mut StdRng) -> u8 {
    rng.gen::<u8>()
}

/// `count` synthetic words drawn from `rng`, in order. For each word a
/// chance of 3 in 4 picks one of the favoured labels, at random, and
/// otherwise a random label byte is drawn; then a random SDI, 19-bit
/// payload and SSM code below 4 are drawn, and the word is encoded with odd
/// parity. The draws are chance; every word has odd parity.
pub fn synthetic_words(rng: &mut StdRng, count: usize) -> (v: Vec<u32>)
    ensures
        v@.len() == count,
        forall|i: int| 0 <= i < count ==> has_odd_parity(#[trigger] v@[i]),
{
    let known = generator_labels().len();
    let mut words: Vec<u32> = Vec::with_capacity(count);
    for _k in 0..count
        invariant
            known == generator_label_seq().len(),
            words@.len() == _k,
            forall|i: int| 0 <= i < words@.len() ==> has_odd_parity(#[trigger] words@[i]),
    {
        let use_known = draw_ratio(rng, 3, 4);
        let (index, random_label) = if use_known {
            (draw_index(rng, known), 0u8)
        } else {
            (0usize, draw_byte(rng))
        };
        let label = synthetic_label(use_known, index, random_label);
        let sdi = draw_below_u8(rng, 4);
        let data = draw_below_u32(rng, 0x80000);
        let ssm = draw_below_u8(rng, 4);
        let w = encode_word(label, sdi, data, ssm);
        words.push(w);
    }
    words
}

} // verus!
