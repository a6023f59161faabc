//! Token labels: part-of-speech labels as values of the top bits of one
//! 128-bit integer (the all-zero label stands for no label).
use crate::tags::Vocabulary;
use vstd::prelude::*;

verus! {

/// The labels of a token, as stored.
#[derive(Debug, Clone, Copy, PartialEq, Eq, Structural, PartialOrd)]
pub struct TokenLabels(pub u128);

/// Part-of-speech labels, each a value of the top bits.
#[derive(Debug, Clone, Copy, PartialEq, Eq, Structural, PartialOrd, Ord, Hash)]
pub enum PosLbls {
    ZERO,
    PosCC,
    PosCD,
    PosDT,
    PosEX,
    PosFW,
    PosIN,
    PosJJ,
    PosJJR,
    PosJS,
    PosMD,
    PosNN,
    PosNNP,
    PosNNPS,
    PosNNS,
    PosPDT,
    PosPOS,
    PosPRP,
    PosRB,
    PosRBR,
    PosRBS,
    PosRP,
    PosSYM,
    PosTO,
    PosUH,
    PosVB,
    PosVBD,
    PosVBG,
    PosVBN,
    PosVBP,
    PosVBZ,
    PosWDT,
    PosWP,
    PosWRB,
}

impl PosLbls {
    pub open spec fn spec_value(&self) -> u128 {
        match *self {
            PosLbls::ZERO => 0x0000_0000_0000_0000,
            PosLbls::PosCC => 0x1000_0000_0000_0000,
            PosLbls::PosCD => 0x2000_0000_0000_0000,
            PosLbls::PosDT => 0x3000_0000_0000_0000,
            PosLbls::PosEX => 0x4000_0000_0000_0000,
            PosLbls::PosFW => 0x5000_0000_0000_0000,
            PosLbls::PosIN => 0x6000_0000_0000_0000,
            PosLbls::PosJJ => 0x7000_0000_0000_0000,
            PosLbls::PosJJR => 0x8000_0000_0000_0000,
            PosLbls::PosJS => 0x9000_0000_0000_0000,
            PosLbls::PosMD => 0xA000_0000_0000_0000,
            PosLbls::PosNN => 0xB000_0000_0000_0000,
            PosLbls::PosNNP => 0xC000_0000_0000_0000,
            PosLbls::PosNNPS => 0xD000_0000_0000_0000,
            PosLbls::PosNNS => 0xE000_0000_0000_0000,
            PosLbls::PosPDT => 0xF000_0000_0000_0000,
            PosLbls::PosPOS => 0xF100_0000_0000_0000,
            PosLbls::PosPRP => 0xF200_0000_0000_0000,
            PosLbls::PosRB => 0xF300_0000_0000_0000,
            PosLbls::PosRBR => 0xF400_0000_0000_0000,
            PosLbls::PosRBS => 0xF500_0000_0000_0000,
            PosLbls::PosRP => 0xF600_0000_0000_0000,
            PosLbls::PosSYM => 0xF700_0000_0000_0000,
            PosLbls::PosTO => 0xF800_0000_0000_0000,
            PosLbls::PosUH => 0xF900_0000_0000_0000,
            PosLbls::PosVB => 0xFA00_0000_0000_0000,
            PosLbls::PosVBD => 0xFB00_0000_0000_0000,
            PosLbls::PosVBG => 0xFC00_0000_0000_0000,
            PosLbls::PosVBN => 0xFD00_0000_0000_0000,
            PosLbls::PosVBP => 0xFE00_0000_0000_0000,
            PosLbls::PosVBZ => 0xFF00_0000_0000_0000,
            PosLbls::PosWDT => 0xFF10_0000_0000_0000,
            PosLbls::PosWP => 0xFF20_0000_0000_0000,
            PosLbls::PosWRB => 0xFF30_0000_0000_0000,
        }
    }

    /// The bit pattern of this tag.
    #[verifier::when_used_as_spec(spec_value)]
    pub fn value(&self) -> (r: u128)
        ensures
            r == self.spec_value(),
    {
        match *self {
            PosLbls::ZERO => 0x0000_0000_0000_0000,
            PosLbls::PosCC => 0x1000_0000_0000_0000,
            PosLbls::PosCD => 0x2000_0000_0000_0000,
            PosLbls::PosDT => 0x3000_0000_0000_0000,
            PosLbls::PosEX => 0x4000_0000_0000_0000,
            PosLbls::PosFW => 0x5000_0000_0000_0000,
            PosLbls::PosIN => 0x6000_0000_0000_0000,
            PosLbls::PosJJ => 0x7000_0000_0000_0000,
            PosLbls::PosJJR => 0x8000_0000_0000_0000,
            PosLbls::PosJS => 0x9000_0000_0000_0000,
            PosLbls::PosMD => 0xA000_0000_0000_0000,
            PosLbls::PosNN => 0xB000_0000_0000_0000,
            PosLbls::PosNNP => 0xC000_0000_0000_0000,
            PosLbls::PosNNPS => 0xD000_0000_0000_0000,
            PosLbls::PosNNS => 0xE000_0000_0000_0000,
            PosLbls::PosPDT => 0xF000_0000_0000_0000,
            PosLbls::PosPOS => 0xF100_0000_0000_0000,
            PosLbls::PosPRP => 0xF200_0000_0000_0000,
            PosLbls::PosRB => 0xF300_0000_0000_0000,
            PosLbls::PosRBR => 0xF400_0000_0000_0000,
            PosLbls::PosRBS => 0xF500_0000_0000_0000,
            PosLbls::PosRP => 0xF600_0000_0000_0000,
            PosLbls::PosSYM => 0xF700_0000_0000_0000,
            PosLbls::PosTO => 0xF800_0000_0000_0000,
            PosLbls::PosUH => 0xF900_0000_0000_0000,
            PosLbls::PosVB => 0xFA00_0000_0000_0000,
            PosLbls::PosVBD => 0xFB00_0000_0000_0000,
            PosLbls::PosVBG => 0xFC00_0000_0000_0000,
            PosLbls::PosVBN => 0xFD00_0000_0000_0000,
            PosLbls::PosVBP => 0xFE00_0000_0000_0000,
            PosLbls::PosVBZ => 0xFF00_0000_0000_0000,
            PosLbls::PosWDT => 0xFF10_0000_0000_0000,
            PosLbls::PosWP => 0xFF20_0000_0000_0000,
            PosLbls::PosWRB => 0xFF30_0000_0000_0000,
        }
    }
}

/// Every tag, in declaration order.
pub open spec fn pos_lbls_all() -> Seq<PosLbls> {
    seq![
        PosLbls::ZERO,
        PosLbls::PosCC,
        PosLbls::PosCD,
        PosLbls::PosDT,
        PosLbls::PosEX,
        PosLbls::PosFW,
        PosLbls::PosIN,
        PosLbls::PosJJ,
        PosLbls::PosJJR,
        PosLbls::PosJS,
        PosLbls::PosMD,
        PosLbls::PosNN,
        PosLbls::PosNNP,
        PosLbls::PosNNPS,
        PosLbls::PosNNS,
        PosLbls::PosPDT,
        PosLbls::PosPOS,
        PosLbls::PosPRP,
        PosLbls::PosRB,
        PosLbls::PosRBR,
        PosLbls::PosRBS,
        PosLbls::PosRP,
        PosLbls::PosSYM,
        PosLbls::PosTO,
        PosLbls::PosUH,
        PosLbls::PosVB,
        PosLbls::PosVBD,
        PosLbls::PosVBG,
        PosLbls::PosVBN,
        PosLbls::PosVBP,
        PosLbls::PosVBZ,
        PosLbls::PosWDT,
        PosLbls::PosWP,
        PosLbls::PosWRB,
    ]
}

/// The tags of `s` whose bits are all set in `bits`, in order.
pub open spec fn lbls_matching(s: Seq<PosLbls>, bits: u128) -> Seq<PosLbls>
    decreases s.len(),
{
    if s.len() == 0 {
        Seq::empty()
    } else {
        let prev = lbls_matching(s.drop_last(), bits);
        if bits & s.last().spec_value() == s.last().spec_value() {
            prev.push(s.last())
        } else {
            prev
        }
    }
}

/// The OR of the tags' bit patterns.
pub open spec fn lbls_matching_or(s: Seq<PosLbls>) -> u128
    decreases s.len(),
{
    if s.len() == 0 {
        0
    } else {
        lbls_matching_or(s.drop_last()) | s.last().spec_value()
    }
}

/// Every tag, in declaration order.
pub fn all_pos_lbls() -> (r: Vec<PosLbls>)
    ensures
        r@ == pos_lbls_all(),
{
    let mut v: Vec<PosLbls> = Vec::new();
    v.push(PosLbls::ZERO);
    v.push(PosLbls::PosCC);
    v.push(PosLbls::PosCD);
    v.push(PosLbls::PosDT);
    v.push(PosLbls::PosEX);
    v.push(PosLbls::PosFW);
    v.push(PosLbls::PosIN);
    v.push(PosLbls::PosJJ);
    v.push(PosLbls::PosJJR);
    v.push(PosLbls::PosJS);
    v.push(PosLbls::PosMD);
    v.push(PosLbls::PosNN);
    v.push(PosLbls::PosNNP);
    v.push(PosLbls::PosNNPS);
    v.push(PosLbls::PosNNS);
    v.push(PosLbls::PosPDT);
    v.push(PosLbls::PosPOS);
    v.push(PosLbls::PosPRP);
    v.push(PosLbls::PosRB);
    v.push(PosLbls::PosRBR);
    v.push(PosLbls::PosRBS);
    v.push(PosLbls::PosRP);
    v.push(PosLbls::PosSYM);
    v.push(PosLbls::PosTO);
    v.push(PosLbls::PosUH);
    v.push(PosLbls::PosVB);
    v.push(PosLbls::PosVBD);
    v.push(PosLbls::PosVBG);
    v.push(PosLbls::PosVBN);
    v.push(PosLbls::PosVBP);
    v.push(PosLbls::PosVBZ);
    v.push(PosLbls::PosWDT);
    v.push(PosLbls::PosWP);
    v.push(PosLbls::PosWRB);
    assert(v@ =~= pos_lbls_all());
    v
}

/// The codec of part-of-speech labels.
pub struct PosLabels {}

impl PosLabels {
    /// The tags whose bits are all set in `val`, in declaration order.
    pub fn deserialize(&self, val: u128) -> (r: Result<Vec<PosLbls>, String>)
        ensures
            r matches Ok(v) && v@ == lbls_matching(pos_lbls_all(), val),
    {
        let all = all_pos_lbls();
        let mut out: Vec<PosLbls> = Vec::new();
        let mut i: usize = 0;
        while i < all.len()
            invariant
                0 <= i <= all@.len(),
                all@ == pos_lbls_all(),
                out@ == lbls_matching(all@.take(i as int), val),
            decreases all@.len() - i,
        {
            proof {
                let t = all@.take(i + 1);
                assert(t.drop_last() =~= all@.take(i as int));
            }
            let p = all[i];
            let u = p.value();
            if val & u == u {
                out.push(p);
            }
            i = i + 1;
        }
        assert(all@.take(all@.len() as int) =~= all@);
        Ok(out)
    }

    /// The OR of the tags' bit patterns, starting from the all-zero tag.
    pub fn serialize(&self, attrs: Vec<PosLbls>) -> (r: Result<u128, String>)
        ensures
            r == Ok::<u128, String>(lbls_matching_or(attrs@)),
    {
        let mut acc: u128 = PosLbls::ZERO.value();
        let mut i: usize = 0;
        while i < attrs.len()
            invariant
                0 <= i <= attrs@.len(),
                acc == lbls_matching_or(attrs@.take(i as int)),
            decreases attrs@.len() - i,
        {
            proof {
                let t = attrs@.take(i + 1);
                assert(t.drop_last() =~= attrs@.take(i as int));
            }
            acc = acc | attrs[i].value();
            i = i + 1;
        }
        assert(attrs@.take(attrs@.len() as int) =~= attrs@);
        Ok(acc)
    }

    /// The tags' bit patterns as a vocabulary, in declaration order.
    pub fn vocabulary(&self) -> (r: Vocabulary)
        ensures
            r@ == pos_lbls_all().map_values(|p: PosLbls| p.spec_value()),
    {
        let all = all_pos_lbls();
        let mut vals: Vec<u128> = Vec::new();
        let mut i: usize = 0;
        while i < all.len()
            invariant
                0 <= i <= all@.len(),
                all@ == pos_lbls_all(),
                vals@ == all@.take(i as int).map_values(|p: PosLbls| p.spec_value()),
            decreases all@.len() - i,
        {
            vals.push(all[i].value());
            proof {
                assert(vals@ =~= all@.take(i + 1).map_values(|p: PosLbls| p.spec_value()));
            }
            i = i + 1;
        }
        assert(all@.take(all@.len() as int) =~= all@);
        Vocabulary::new(vals)
    }
}

} // verus!
