use crate::error::{CorpusError, CorpusResult};
use vstd::prelude::*;

verus! {

/// An entity identifier as it travels on the wire: 16 bytes, big-endian.
pub type Id = [u8; 16];

/// The five kinds of entity, each bound to a small discriminant that is
/// written into the top nibble of its in-page key.
#[derive(Debug, Clone, Copy, PartialEq, Eq, Structural, PartialOrd, Ord, Hash)]
pub enum ObjType {
    Author,
    Collection,
    Document,
    Token,
    StringRef,
}

/// 2^60: the weight of the kind nibble in an in-page key.
pub const KIND_SHIFT: u64 = 0x1000_0000_0000_0000;

/// 2^64: the weight of the page key in a 128-bit identifier.
pub const PAGE_SHIFT: u128 = 0x1_0000_0000_0000_0000;

impl ObjType {
    pub open spec fn spec_code(&self) -> u64 {
        match self {
            ObjType::Author => 0,
            ObjType::Collection => 1,
            ObjType::Document => 2,
            ObjType::Token => 3,
            ObjType::StringRef => 4,
        }
    }

    /// The kind's discriminant, as stored in the top nibble of an in-page key.
    #[verifier::when_used_as_spec(spec_code)]
    pub fn code(&self) -> (r: u64)
        ensures
            r == self.spec_code(),
    {
        match self {
            ObjType::Author => 0,
            ObjType::Collection => 1,
            ObjType::Document => 2,
            ObjType::Token => 3,
            ObjType::StringRef => 4,
        }
    }
}

/// The kind that a discriminant names, if any.
pub open spec fn kind_of_code(c: int) -> Option<ObjType> {
    if c == 0 {
        Some(ObjType::Author)
    } else if c == 1 {
        Some(ObjType::Collection)
    } else if c == 2 {
        Some(ObjType::Document)
    } else if c == 3 {
        Some(ObjType::Token)
    } else if c == 4 {
        Some(ObjType::StringRef)
    } else {
        None
    }
}

/// The number that a big-endian byte sequence denotes.
pub open spec fn be_value(s: Seq<u8>) -> nat
    decreases s.len(),
{
    if s.len() == 0 {
        0
    } else {
        be_value(s.drop_last()) * 256 + s.last() as nat
    }
}

pub open spec fn pow256(n: nat) -> nat
    decreases n,
{
    if n == 0 {
        1
    } else {
        pow256((n - 1) as nat) * 256
    }
}

/// The page key of an identifier: its high 64 bits.
pub open spec fn page_key_of(id: u128) -> u64 {
    (id / PAGE_SHIFT) as u64
}

/// The in-page key of an identifier of a kind: its low 64 bits with the top
/// nibble replaced by the kind's discriminant.
pub open spec fn in_page_key_of(id: u128, kind: ObjType) -> u64 {
    ((id % (KIND_SHIFT as u128)) + kind.spec_code() * KIND_SHIFT) as u64
}

/// What parsing an in-page key gives: the kind in its top nibble, or an
/// error for a nibble that names no kind.
pub open spec fn spec_parse_kind(in_page_key: u64) -> CorpusResult<ObjType> {
    match kind_of_code((in_page_key / KIND_SHIFT) as int) {
        Some(k) => Ok(k),
        None => Err(CorpusError::InvalidEntityTypeError),
    }
}

pub proof fn lemma_be_value_bound(s: Seq<u8>)
    ensures
        be_value(s) < pow256(s.len()),
    decreases s.len(),
{
    if s.len() > 0 {
        lemma_be_value_bound(s.drop_last());
        let a = be_value(s.drop_last());
        let p = pow256((s.len() - 1) as nat);
        let b = s.last() as nat;
        assert(a * 256 + b < p * 256) by (nonlinear_arith)
            requires
                a < p,
                b < 256,
        ;
    }
}

/// Reads 16 big-endian bytes as a 128-bit identifier.
pub fn u128_id(bytes: &[u8; 16]) -> (r: u128)
    ensures
        r as nat == be_value(bytes@),
{
    proof {
        reveal_with_fuel(pow256, 17);
    }
    let mut acc: u128 = 0;
    let mut i: usize = 0;
    while i < 16
        invariant
            0 <= i <= 16,
            bytes@.len() == 16,
            acc as nat == be_value(bytes@.subrange(0, i as int)),
            pow256(16) == 0x1_0000_0000_0000_0000_0000_0000_0000_0000,
        decreases 16 - i,
    {
        let ghost prefix = bytes@.subrange(0, i as int);
        proof {
            lemma_be_value_bound(prefix);
            lemma_pow256_mono(i as nat, 15);
            assert(bytes@.subrange(0, i + 1).drop_last() =~= prefix);
        }
        let b = bytes[i];
        assert(acc * 256 + b < pow256(16)) by (nonlinear_arith)
            requires
                acc < pow256(i as nat),
                pow256(i as nat) <= pow256(15),
                pow256(16) == pow256(15) * 256,
                b < 256,
        ;
        acc = acc * 256 + b as u128;
        i = i + 1;
    }
    assert(bytes@.subrange(0, 16) =~= bytes@);
    acc
}

pub proof fn lemma_pow256_mono(a: nat, b: nat)
    requires
        a <= b,
    ensures
        pow256(a) <= pow256(b),
    decreases b - a,
{
    if a < b {
        lemma_pow256_mono(a, (b - 1) as nat);
    }
}

/// The identifier that an [`Id`] denotes.
pub fn id_to_u128(id: Id) -> (r: u128)
    ensures
        r as nat == be_value(id@),
{
    u128_id(&id)
}

/// Splits a wire identifier into its high and low 64 bits.
pub fn split_id(id: Id) -> (r: CorpusResult<(u64, u64)>)
    ensures
        r matches Ok((h, l)) && h == page_key_of(be_value(id@) as u128) && l == ((be_value(id@) as u128)
            % 0x1_0000_0000_0000_0000) as u64,
{
    let v = u128_id(&id);
    let h = (v / PAGE_SHIFT) as u64;
    let l = (v % PAGE_SHIFT) as u64;
    Ok((h, l))
}

/// The address of an entity: its page key and its in-page key.
pub fn obj_id(id: u128, t: ObjType) -> (r: (u64, u64))
    ensures
        r == (page_key_of(id), in_page_key_of(id, t)),
{
    let h = (id / PAGE_SHIFT) as u64;
    let low = (id % (KIND_SHIFT as u128)) as u64;
    let c = t.code();
    assert(low + c * KIND_SHIFT < 0x1_0000_0000_0000_0000) by (nonlinear_arith)
        requires
            low < KIND_SHIFT,
            c <= 4,
            KIND_SHIFT == 0x1000_0000_0000_0000,
    ;
    (h, low + c * KIND_SHIFT)
}

/// The kind that an in-page key carries in its top nibble.
pub fn parse_obj_id(oid: u64) -> (r: CorpusResult<ObjType>)
    ensures
        r == spec_parse_kind(oid),
{
    let c = oid / KIND_SHIFT;
    if c == 0 {
        Ok(ObjType::Author)
    } else if c == 1 {
        Ok(ObjType::Collection)
    } else if c == 2 {
        Ok(ObjType::Document)
    } else if c == 3 {
        Ok(ObjType::Token)
    } else if c == 4 {
        Ok(ObjType::StringRef)
    } else {
        Err(CorpusError::InvalidEntityTypeError)
    }
}

/// Parsing the in-page key of an address gives back the kind it was made with.
pub proof fn lemma_parse_address_kind(id: u128, kind: ObjType)
    ensures
        spec_parse_kind(in_page_key_of(id, kind)) == Ok::<ObjType, CorpusError>(kind),
{
    let low = id % (KIND_SHIFT as u128);
    let c = kind.spec_code();
    assert((low + c * KIND_SHIFT) / (KIND_SHIFT as int) == c) by (nonlinear_arith)
        requires
            0 <= low < KIND_SHIFT,
            c <= 4,
            KIND_SHIFT == 0x1000_0000_0000_0000,
    ;
}

/// The placement hint handed to the object store: the top byte of the key
/// shifted left by one bit (the bit shifted out is dropped).
pub fn pf(object_id: u64, object_size: usize) -> (r: u8)
    ensures
        r as int == ((object_id / 0x0100_0000_0000_0000) * 2) % 256,
{
    let top = (object_id / 0x0100_0000_0000_0000) as u16;
    ((top * 2) % 256) as u8
}

} // verus!
