//! Token attributes: part-of-speech tags as single bits of one 128-bit
//! integer (the all-zero tag stands for no tag).
use crate::tags::Vocabulary;
use vstd::prelude::*;

verus! {

/// The attributes of a token, as stored.
#[derive(Debug, Clone, Copy, PartialEq, Eq, Structural, PartialOrd)]
pub struct TokenAttributes(pub u128);

/// Part-of-speech attributes, each a bit pattern.
#[derive(Debug, Clone, Copy, PartialEq, Eq, Structural, PartialOrd, Ord, Hash)]
pub enum PosAttrs {
    ZERO,
    PosCC,
    PosCD,
    PosDT,
    PosEX,
    PosFW,
    PosIN,
    PosJJ,
    PosJJR,
    PosJS,
    PosMD,
    PosNN,
    PosNNP,
    PosNNPS,
    PosNNS,
    PosPDT,
    PosPOS,
    PosPRP,
    PosRB,
    PosRBR,
    PosRBS,
    PosRP,
    PosSYM,
    PosTO,
    PosUH,
    PosVB,
    PosVBD,
    PosVBG,
    PosVBN,
    PosVBP,
    PosVBZ,
    PosWDT,
    PosWP,
    PosWRB,
}

impl PosAttrs {
    pub open spec fn spec_value(&self) -> u128 {
        match *self {
            PosAttrs::ZERO => 0x0000_0000_0000_0000,
            PosAttrs::PosCC => 0x8000_0000_0000_0000,
            PosAttrs::PosCD => 0x4000_0000_0000_0000,
            PosAttrs::PosDT => 0x2000_0000_0000_0000,
            PosAttrs::PosEX => 0x1000_0000_0000_0000,
            PosAttrs::PosFW => 0x0800_0000_0000_0000,
            PosAttrs::PosIN => 0x0400_0000_0000_0000,
            PosAttrs::PosJJ => 0x0200_0000_0000_0000,
            PosAttrs::PosJJR => 0x0100_0000_0000_0000,
            PosAttrs::PosJS => 0x0080_0000_0000_0000,
            PosAttrs::PosMD => 0x0040_0000_0000_0000,
            PosAttrs::PosNN => 0x0020_0000_0000_0000,
            PosAttrs::PosNNP => 0x0010_0000_0000_0000,
            PosAttrs::PosNNPS => 0x0008_0000_0000_0000,
            PosAttrs::PosNNS => 0x0004_0000_0000_0000,
            PosAttrs::PosPDT => 0x0002_0000_0000_0000,
            PosAttrs::PosPOS => 0x0001_0000_0000_0000,
            PosAttrs::PosPRP => 0x0000_8000_0000_0000,
            PosAttrs::PosRB => 0x0000_4000_0000_0000,
            PosAttrs::PosRBR => 0x0000_2000_0000_0000,
            PosAttrs::PosRBS => 0x0000_1000_0000_0000,
            PosAttrs::PosRP => 0x0000_0800_0000_0000,
            PosAttrs::PosSYM => 0x0000_0400_0000_0000,
            PosAttrs::PosTO => 0x0000_0200_0000_0000,
            PosAttrs::PosUH => 0x0000_0100_0000_0000,
            PosAttrs::PosVB => 0x0000_0080_0000_0000,
            PosAttrs::PosVBD => 0x0000_0040_0000_0000,
            PosAttrs::PosVBG => 0x0000_0020_0000_0000,
            PosAttrs::PosVBN => 0x0000_0010_0000_0000,
            PosAttrs::PosVBP => 0x0000_0008_0000_0000,
            PosAttrs::PosVBZ => 0x0000_0004_0000_0000,
            PosAttrs::PosWDT => 0x0000_0002_0000_0000,
            PosAttrs::PosWP => 0x0000_0001_8000_0000,
            PosAttrs::PosWRB => 0x0000_0000_8000_0000,
        }
    }

    /// The bit pattern of this tag.
    #[verifier::when_used_as_spec(spec_value)]
    pub fn value(&self) -> (r: u128)
        ensures
            r == self.spec_value(),
    {
        match *self {
            PosAttrs::ZERO => 0x0000_0000_0000_0000,
            PosAttrs::PosCC => 0x8000_0000_0000_0000,
            PosAttrs::PosCD => 0x4000_0000_0000_0000,
            PosAttrs::PosDT => 0x2000_0000_0000_0000,
            PosAttrs::PosEX => 0x1000_0000_0000_0000,
            PosAttrs::PosFW => 0x0800_0000_0000_0000,
            PosAttrs::PosIN => 0x0400_0000_0000_0000,
            PosAttrs::PosJJ => 0x0200_0000_0000_0000,
            PosAttrs::PosJJR => 0x0100_0000_0000_0000,
            PosAttrs::PosJS => 0x0080_0000_0000_0000,
            PosAttrs::PosMD => 0x0040_0000_0000_0000,
            PosAttrs::PosNN => 0x0020_0000_0000_0000,
            PosAttrs::PosNNP => 0x0010_0000_0000_0000,
            PosAttrs::PosNNPS => 0x0008_0000_0000_0000,
            PosAttrs::PosNNS => 0x0004_0000_0000_0000,
            PosAttrs::PosPDT => 0x0002_0000_0000_0000,
            PosAttrs::PosPOS => 0x0001_0000_0000_0000,
            PosAttrs::PosPRP => 0x0000_8000_0000_0000,
            PosAttrs::PosRB => 0x0000_4000_0000_0000,
            PosAttrs::PosRBR => 0x0000_2000_0000_0000,
            PosAttrs::PosRBS => 0x0000_1000_0000_0000,
            PosAttrs::PosRP => 0x0000_0800_0000_0000,
            PosAttrs::PosSYM => 0x0000_0400_0000_0000,
            PosAttrs::PosTO => 0x0000_0200_0000_0000,
            PosAttrs::PosUH => 0x0000_0100_0000_0000,
            PosAttrs::PosVB => 0x0000_0080_0000_0000,
            PosAttrs::PosVBD => 0x0000_0040_0000_0000,
            PosAttrs::PosVBG => 0x0000_0020_0000_0000,
            PosAttrs::PosVBN => 0x0000_0010_0000_0000,
            PosAttrs::PosVBP => 0x0000_0008_0000_0000,
            PosAttrs::PosVBZ => 0x0000_0004_0000_0000,
            PosAttrs::PosWDT => 0x0000_0002_0000_0000,
            PosAttrs::PosWP => 0x0000_0001_8000_0000,
            PosAttrs::PosWRB => 0x0000_0000_8000_0000,
        }
    }
}

/// Every tag, in declaration order.
pub open spec fn pos_attrs_all() -> Seq<PosAttrs> {
    seq![
        PosAttrs::ZERO,
        PosAttrs::PosCC,
        PosAttrs::PosCD,
        PosAttrs::PosDT,
        PosAttrs::PosEX,
        PosAttrs::PosFW,
        PosAttrs::PosIN,
        PosAttrs::PosJJ,
        PosAttrs::PosJJR,
        PosAttrs::PosJS,
        PosAttrs::PosMD,
        PosAttrs::PosNN,
        PosAttrs::PosNNP,
        PosAttrs::PosNNPS,
        PosAttrs::PosNNS,
        PosAttrs::PosPDT,
        PosAttrs::PosPOS,
        PosAttrs::PosPRP,
        PosAttrs::PosRB,
        PosAttrs::PosRBR,
        PosAttrs::PosRBS,
        PosAttrs::PosRP,
        PosAttrs::PosSYM,
        PosAttrs::PosTO,
        PosAttrs::PosUH,
        PosAttrs::PosVB,
        PosAttrs::PosVBD,
        PosAttrs::PosVBG,
        PosAttrs::PosVBN,
        PosAttrs::PosVBP,
        PosAttrs::PosVBZ,
        PosAttrs::PosWDT,
        PosAttrs::PosWP,
        PosAttrs::PosWRB,
    ]
}

/// The tags of `s` whose bits are all set in `bits`, in order.
pub open spec fn attrs_matching(s: Seq<PosAttrs>, bits: u128) -> Seq<PosAttrs>
    decreases s.len(),
{
    if s.len() == 0 {
        Seq::empty()
    } else {
        let prev = attrs_matching(s.drop_last(), bits);
        if bits & s.last().spec_value() == s.last().spec_value() {
            prev.push(s.last())
        } else {
            prev
        }
    }
}

/// The OR of the tags' bit patterns.
pub open spec fn attrs_matching_or(s: Seq<PosAttrs>) -> u128
    decreases s.len(),
{
    if s.len() == 0 {
        0
    } else {
        attrs_matching_or(s.drop_last()) | s.last().spec_value()
    }
}

/// Every tag, in declaration order.
pub fn all_pos_attrs() -> (r: Vec<PosAttrs>)
    ensures
        r@ == pos_attrs_all(),
{
    let mut v: Vec<PosAttrs> = Vec::new();
    v.push(PosAttrs::ZERO);
    v.push(PosAttrs::PosCC);
    v.push(PosAttrs::PosCD);
    v.push(PosAttrs::PosDT);
    v.push(PosAttrs::PosEX);
    v.push(PosAttrs::PosFW);
    v.push(PosAttrs::PosIN);
    v.push(PosAttrs::PosJJ);
    v.push(PosAttrs::PosJJR);
    v.push(PosAttrs::PosJS);
    v.push(PosAttrs::PosMD);
    v.push(PosAttrs::PosNN);
    v.push(PosAttrs::PosNNP);
    v.push(PosAttrs::PosNNPS);
    v.push(PosAttrs::PosNNS);
    v.push(PosAttrs::PosPDT);
    v.push(PosAttrs::PosPOS);
    v.push(PosAttrs::PosPRP);
    v.push(PosAttrs::PosRB);
    v.push(PosAttrs::PosRBR);
    v.push(PosAttrs::PosRBS);
    v.push(PosAttrs::PosRP);
    v.push(PosAttrs::PosSYM);
    v.push(PosAttrs::PosTO);
    v.push(PosAttrs::PosUH);
    v.push(PosAttrs::PosVB);
    v.push(PosAttrs::PosVBD);
    v.push(PosAttrs::PosVBG);
    v.push(PosAttrs::PosVBN);
    v.push(PosAttrs::PosVBP);
    v.push(PosAttrs::PosVBZ);
    v.push(PosAttrs::PosWDT);
    v.push(PosAttrs::PosWP);
    v.push(PosAttrs::PosWRB);
    assert(v@ =~= pos_attrs_all());
    v
}

/// The codec of part-of-speech attributes.
pub struct PosAttributes {}

impl PosAttributes {
    /// The tags whose bits are all set in `val`, in declaration order.
    pub fn deserialize(&self, val: u128) -> (r: Result<Vec<PosAttrs>, String>)
        ensures
            r matches Ok(v) && v@ == attrs_matching(pos_attrs_all(), val),
    {
        let all = all_pos_attrs();
        let mut out: Vec<PosAttrs> = Vec::new();
        let mut i: usize = 0;
        while i < all.len()
            invariant
                0 <= i <= all@.len(),
                all@ == pos_attrs_all(),
                out@ == attrs_matching(all@.take(i as int), val),
            decreases all@.len() - i,
        {
            proof {
                let t = all@.take(i + 1);
                assert(t.drop_last() =~= all@.take(i as int));
            }
            let p = all[i];
            let u = p.value();
            if val & u == u {
                out.push(p);
            }
            i = i + 1;
        }
        assert(all@.take(all@.len() as int) =~= all@);
        Ok(out)
    }

    /// The OR of the tags' bit patterns, starting from the all-zero tag.
    pub fn serialize(&self, attrs: Vec<PosAttrs>) -> (r: Result<u128, String>)
        ensures
            r == Ok::<u128, String>(attrs_matching_or(attrs@)),
    {
        let mut acc: u128 = PosAttrs::ZERO.value();
        let mut i: usize = 0;
        while i < attrs.len()
            invariant
                0 <= i <= attrs@.len(),
                acc == attrs_matching_or(attrs@.take(i as int)),
            decreases attrs@.len() - i,
        {
            proof {
                let t = attrs@.take(i + 1);
                assert(t.drop_last() =~= attrs@.take(i as int));
            }
            acc = acc | attrs[i].value();
            i = i + 1;
        }
        assert(attrs@.take(attrs@.len() as int) =~= attrs@);
        Ok(acc)
    }

    /// The tags' bit patterns as a vocabulary, in declaration order.
    pub fn vocabulary(&self) -> (r: Vocabulary)
        ensures
            r@ == pos_attrs_all().map_values(|p: PosAttrs| p.spec_value()),
    {
        let all = all_pos_attrs();
        let mut vals: Vec<u128> = Vec::new();
        let mut i: usize = 0;
        while i < all.len()
            invariant
                0 <= i <= all@.len(),
                all@ == pos_attrs_all(),
                vals@ == all@.take(i as int).map_values(|p: PosAttrs| p.spec_value()),
            decreases all@.len() - i,
        {
            vals.push(all[i].value());
            proof {
                assert(vals@ =~= all@.take(i + 1).map_values(|p: PosAttrs| p.spec_value()));
            }
            i = i + 1;
        }
        assert(all@.take(all@.len() as int) =~= all@);
        Vocabulary::new(vals)
    }
}

/// The earlier numbering of token attributes, one bit per tag.
#[derive(Debug, Clone, Copy, PartialEq, Eq, Structural)]
pub enum TokenAttrs {
    ZERO,
    Pos0,
    PosCC,
    PosCD,
    PosDT,
    PosEX,
    PosFW,
}

impl TokenAttrs {
    pub open spec fn spec_value(&self) -> u128 {
        match *self {
            TokenAttrs::ZERO => 0xFFFF_FFFF,
            TokenAttrs::Pos0 => 1,
            TokenAttrs::PosCC => 2,
            TokenAttrs::PosCD => 4,
            TokenAttrs::PosDT => 8,
            TokenAttrs::PosEX => 16,
            TokenAttrs::PosFW => 32,
        }
    }

    /// The bit pattern of this tag.
    #[verifier::when_used_as_spec(spec_value)]
    pub fn value(&self) -> (r: u128)
        ensures
            r == self.spec_value(),
    {
        match *self {
            TokenAttrs::ZERO => 0xFFFF_FFFF,
            TokenAttrs::Pos0 => 1,
            TokenAttrs::PosCC => 2,
            TokenAttrs::PosCD => 4,
            TokenAttrs::PosDT => 8,
            TokenAttrs::PosEX => 16,
            TokenAttrs::PosFW => 32,
        }
    }
}

} // verus!
