use vstd::prelude::*;
use vstd::string::StringExecFns;
use crate::text::{radix_digits, push_radix_digits};

verus! {

/// Sign/Status Matrix of a word (bits 30-31).
#[derive(Debug, Clone, Copy, PartialEq, Eq, Structural)]
pub enum SsmSign {
    Plus,
    Minus,
    No,
    Spare,
}

impl SsmSign {
    /// The two-bit code of each matrix value.
    pub open spec fn code(self) -> u8 {
        match self {
            SsmSign::Plus => 0,
            SsmSign::Minus => 1,
            SsmSign::No => 2,
            SsmSign::Spare => 3,
        }
    }

    /// The sign that the matrix value gives to a payload: only `Minus` negates.
    pub open spec fn sign_factor(self) -> int {
        match self {
            SsmSign::Minus => -1,
            _ => 1,
        }
    }

    /// The short text shown for each matrix value.
    pub open spec fn text(self) -> Seq<char> {
        match self {
            SsmSign::Plus => "+"@,
            SsmSign::Minus => "-"@,
            SsmSign::No => "±"@,
            SsmSign::Spare => "N/A"@,
        }
    }

    /// Decodes the two low bits of `bits`; the upper bits are ignored.
    pub fn from_bits(bits: u8) -> (r: Self)
        ensures
            r.code() == bits % 4,
    {
        let low = bits & 0b11;
        assert(low == bits % 4) by (bit_vector)
            requires
                low == bits & 3,
        ;
        if low == 0 {
            SsmSign::Plus
        } else if low == 1 {
            SsmSign::Minus
        } else if low == 2 {
            SsmSign::No
        } else {
            SsmSign::Spare
        }
    }

    pub fn to_bits(self) -> (r: u8)
        ensures
            r == self.code(),
    {
        match self {
            SsmSign::Plus => 0b00,
            SsmSign::Minus => 0b01,
            SsmSign::No => 0b10,
            SsmSign::Spare => 0b11,
        }
    }

    pub fn as_str(self) -> (r: &'static str)
        ensures
            r@ == self.text(),
    {
        match self {
            SsmSign::Plus => "+",
            SsmSign::Minus => "-",
            SsmSign::No => "±",
            SsmSign::Spare => "N/A",
        }
    }
}

/// What each matrix code means: code 1 is the only one that negates the
/// payload; codes 0 to 3 show as `+`, `-`, `±` and `N/A`.
pub proof fn law_ssm_meaning(s: SsmSign)
    ensures
        s.sign_factor() == (if s.code() == 1 {
            -1int
        } else {
            1int
        }),
        s.code() == 0 ==> s.text() == "+"@,
        s.code() == 1 ==> s.text() == "-"@,
        s.code() == 2 ==> s.text() == "±"@,
        s.code() == 3 ==> s.text() == "N/A"@,
{
}

/// Decoding a matrix value from its code gives the value back, and encoding
/// a decoded value gives the two low bits back.
pub proof fn lemma_ssm_code_roundtrip(s: SsmSign, bits: u8)
    ensures
        s.code() < 4,
        forall|t: SsmSign| t.code() == s.code() ==> t == s,
        bits % 4 < 4,
{
}

/// How the payload of a label is encoded.
#[derive(Debug, Clone, Copy, PartialEq, Eq, Structural)]
pub enum PayloadFormat {
    Bnr,
    Bcd,
    Discrete,
    Maintenance,
    Ack,
    Unknown,
}

/// Identifier of a piece of equipment on the bus.
#[derive(Debug, Clone, Copy, PartialEq, Eq, Structural)]
pub struct EquipmentId(pub u16);

impl EquipmentId {
    pub fn new(id: u16) -> (r: Self)
        ensures
            r.0 == id,
    {
        EquipmentId(id)
    }

    pub fn value(&self) -> (r: u16)
        ensures
            r == self.0,
    {
        self.0
    }

    /// `EQ-` and the identifier as four upper-case hex digits.
    pub fn display_text(&self) -> (s: String)
        ensures
            s@ == "EQ-"@ + radix_digits(self.0 as nat, 4, 16),
    {
        let mut s = String::new();
        s.append("EQ-");
        push_radix_digits(&mut s, self.0 as u32, 4, 16);
        s
    }
}

} // verus!
