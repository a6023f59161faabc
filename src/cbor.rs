//! The CBOR items that the page format is built from: unsigned integers,
//! definite-length byte strings and definite-length maps, written and read
//! through minicbor.
use vstd::prelude::*;

verus! {

/// Major type bits of an unsigned integer head.
pub const UNSIGNED: u8 = 0x00;

/// Major type bits of a byte string head.
pub const BYTES: u8 = 0x40;

/// Major type bits of a map head.
pub const MAP: u8 = 0xa0;

/// The low `n` bytes of `v`, most significant first.
pub open spec fn be_bytes(v: nat, n: nat) -> Seq<u8>
    decreases n,
{
    if n == 0 {
        Seq::empty()
    } else {
        be_bytes(v / 256, (n - 1) as nat).push((v % 256) as u8)
    }
}

/// The shortest CBOR head of a major type with argument `v`.
pub open spec fn cbor_head(major: u8, v: u64) -> Seq<u8> {
    if v < 24 {
        seq![major | (v as u8)]
    } else if v < 0x100 {
        seq![major | 24, v as u8]
    } else if v < 0x1_0000 {
        seq![major | 25] + be_bytes(v as nat, 2)
    } else if v < 0x1_0000_0000 {
        seq![major | 26] + be_bytes(v as nat, 4)
    } else {
        seq![major | 27] + be_bytes(v as nat, 8)
    }
}

/// `b` holds `item` at `pos`.
pub open spec fn holds_at(b: Seq<u8>, pos: int, item: Seq<u8>) -> bool {
    0 <= pos && pos + item.len() <= b.len() && b.subrange(pos, pos + item.len()) == item
}

/// The encoding of a byte string: its head, then its bytes.
pub open spec fn cbor_bytes(x: Seq<u8>) -> Seq<u8> {
    cbor_head(BYTES, x.len() as u64) + x
}

/// An item held at `pos`, followed by another, holds the first at `pos` and
/// the second right after it.
pub proof fn lemma_holds_split(b: Seq<u8>, pos: int, x: Seq<u8>, y: Seq<u8>)
    requires
        holds_at(b, pos, x + y),
    ensures
        holds_at(b, pos, x),
        holds_at(b, pos + x.len(), y),
{
    let whole = b.subrange(pos, pos + x.len() + y.len());
    assert(whole == x + y);
    assert(b.subrange(pos, pos + x.len()) =~= whole.subrange(0, x.len() as int));
    assert(whole.subrange(0, x.len() as int) =~= x);
    assert(b.subrange(pos + x.len(), pos + x.len() + y.len()) =~= whole.subrange(
        x.len() as int,
        (x.len() + y.len()) as int,
    ));
    assert(whole.subrange(x.len() as int, (x.len() + y.len()) as int) =~= y);
}

/// Relies on minicbor's `Encoder::u64`, which writes the shortest head of
/// major type 0 (`Encoder::type_len`); writing to a `Vec` cannot fail.
#[verifier::external_body]
pub(crate) fn put_u64(out: &mut Vec<u8>, v: u64)
    ensures
        final(out)@ == old(out)@ + cbor_head(UNSIGNED, v),
{
    let _ = minicbor::Encoder::new(out).u64(v);
}

/// Relies on minicbor's `Encoder::map`, which writes the shortest head of
/// major type 5 (`Encoder::type_len`); writing to a `Vec` cannot fail.
#[verifier::external_body]
pub(crate) fn put_map(out: &mut Vec<u8>, len: u64)
    ensures
        final(out)@ == old(out)@ + cbor_head(MAP, len),
{
    let _ = minicbor::Encoder::new(out).map(len);
}

/// Relies on minicbor's `Encoder::bytes`, which writes the shortest head of
/// major type 2 for the length and then the bytes; writing to a `Vec` cannot
/// fail.
#[verifier::external_body]
pub(crate) fn put_bytes(out: &mut Vec<u8>, x: &[u8])
    ensures
        final(out)@ == old(out)@ + cbor_bytes(x@),
{
    let _ = minicbor::Encoder::new(out).bytes(x);
}

/// Relies on minicbor's `Decoder::u64` from position `pos`: on success it has
/// consumed at least one byte of `b`, and it reads back every shortest head
/// of major type 0 (`Decoder::unsigned`).
#[verifier::external_body]
pub(crate) fn take_u64(b: &[u8], pos: usize) -> (r: Option<(u64, usize)>)
    ensures
        r matches Some((v, p)) ==> pos < p <= b@.len(),
        forall|v: u64|
            #[trigger] holds_at(b@, pos as int, cbor_head(UNSIGNED, v)) ==> r is Some && r.unwrap().0
                == v && r.unwrap().1 == pos + cbor_head(UNSIGNED, v).len(),
{
    let mut d = minicbor::Decoder::new(b);
    d.set_position(pos);
    match d.u64() {
        Ok(v) => Some((v, d.position())),
        Err(_) => None,
    }
}

/// Relies on minicbor's `Decoder::map` from position `pos`: on success it has
/// consumed at least one byte of `b`, and it reads back every shortest head
/// of a definite-length map. An indefinite-length map is refused here.
#[verifier::external_body]
pub(crate) fn take_map(b: &[u8], pos: usize) -> (r: Option<(u64, usize)>)
    ensures
        r matches Some((n, p)) ==> pos < p <= b@.len(),
        forall|n: u64|
            #[trigger] holds_at(b@, pos as int, cbor_head(MAP, n)) ==> r is Some && r.unwrap().0
                == n && r.unwrap().1 == pos + cbor_head(MAP, n).len(),
{
    let mut d = minicbor::Decoder::new(b);
    d.set_position(pos);
    match d.map() {
        Ok(Some(n)) => Some((n, d.position())),
        Ok(None) => None,
        Err(_) => None,
    }
}

/// Relies on minicbor's `Decoder::bytes` from position `pos`: on success it
/// has consumed at least one byte of `b`, and it reads back every definite
/// byte string whose length is given by a shortest head.
#[verifier::external_body]
pub(crate) fn take_bytes<'a>(b: &'a [u8], pos: usize) -> (r: Option<(&'a [u8], usize)>)
    ensures
        r matches Some((x, p)) ==> pos < p <= b@.len(),
        forall|x: Seq<u8>|
            #[trigger] holds_at(b@, pos as int, cbor_bytes(x)) && x.len() <= u64::MAX ==> r is Some
                && r.unwrap().0@ == x && r.unwrap().1 == pos + cbor_bytes(x).len(),
{
    let mut d = minicbor::Decoder::new(b);
    d.set_position(pos);
    match d.bytes() {
        Ok(x) => Some((x, d.position())),
        Err(_) => None,
    }
}

} // verus!
