//! A record is a CBOR map from small field tags (0, 1, 2, ...) to field
//! values. Each field is an unsigned integer or a 16-byte string.
use crate::cbor::{
    MAP, UNSIGNED, cbor_bytes, cbor_head, holds_at, lemma_holds_split, put_bytes, put_map,
    put_u64, take_bytes, take_map, take_u64,
};
use crate::ids::Id;
use vstd::prelude::*;

verus! {

/// One field value of a record.
#[derive(Debug, Clone, Copy, PartialEq, Eq)]
pub enum Field {
    Uint(u64),
    Bytes(Id),
}

/// The shape of a field value, as a record's schema lists it.
#[derive(Debug, Clone, Copy, PartialEq, Eq, Structural)]
pub enum FieldKind {
    Uint,
    Bytes,
}

pub open spec fn kind_of_field(f: Field) -> FieldKind {
    match f {
        Field::Uint(_) => FieldKind::Uint,
        Field::Bytes(_) => FieldKind::Bytes,
    }
}

/// The fields have the kinds that the schema lists, one for one.
pub open spec fn fits_schema(fs: Seq<Field>, schema: Seq<FieldKind>) -> bool {
    fs.len() == schema.len() && forall|i: int| 0 <= i < fs.len() ==> kind_of_field(#[trigger] fs[i])
        == schema[i]
}

pub open spec fn enc_field(f: Field) -> Seq<u8> {
    match f {
        Field::Uint(v) => cbor_head(UNSIGNED, v),
        Field::Bytes(a) => cbor_bytes(a@),
    }
}

/// The tagged fields of a record, without the map head; the tag of a field is
/// its position.
pub open spec fn enc_fields(fs: Seq<Field>) -> Seq<u8>
    decreases fs.len(),
{
    if fs.len() == 0 {
        Seq::empty()
    } else {
        enc_fields(fs.drop_last()) + cbor_head(UNSIGNED, (fs.len() - 1) as u64) + enc_field(
            fs.last(),
        )
    }
}

/// The encoding of a record: a map head, then its tagged fields.
pub open spec fn enc_record(fs: Seq<Field>) -> Seq<u8> {
    cbor_head(MAP, fs.len() as u64) + enc_fields(fs)
}

proof fn lemma_fields_prefix(b: Seq<u8>, pos: int, fs: Seq<Field>, k: int)
    requires
        0 <= k <= fs.len(),
        holds_at(b, pos, enc_fields(fs)),
    ensures
        holds_at(b, pos, enc_fields(fs.take(k))),
    decreases fs.len(),
{
    if k == fs.len() {
        assert(fs.take(k) =~= fs);
    } else {
        let init = fs.drop_last();
        assert(enc_fields(fs) =~= enc_fields(init) + (cbor_head(UNSIGNED, (fs.len() - 1) as u64)
            + enc_field(fs.last())));
        lemma_holds_split(
            b,
            pos,
            enc_fields(init),
            cbor_head(UNSIGNED, (fs.len() - 1) as u64) + enc_field(fs.last()),
        );
        assert(enc_fields(fs) =~= enc_fields(init) + (cbor_head(UNSIGNED, (fs.len() - 1) as u64)
            + enc_field(fs.last())));
        lemma_fields_prefix(b, pos, init, k);
        assert(init.take(k) =~= fs.take(k));
    }
}

/// Writes the encoding of a record.
pub fn put_record(out: &mut Vec<u8>, fs: &Vec<Field>)
    ensures
        final(out)@ == old(out)@ + enc_record(fs@),
{
    put_map(out, fs.len() as u64);
    let ghost start = out@;
    let mut i: usize = 0;
    while i < fs.len()
        invariant
            0 <= i <= fs@.len(),
            out@ == start + enc_fields(fs@.take(i as int)),
            start == old(out)@ + cbor_head(MAP, fs@.len() as u64),
        decreases fs@.len() - i,
    {
        put_u64(out, i as u64);
        match &fs[i] {
            Field::Uint(v) => put_u64(out, *v),
            Field::Bytes(a) => put_bytes(out, a.as_slice()),
        }
        proof {
            let t = fs@.take(i + 1);
            assert(t.drop_last() =~= fs@.take(i as int));
            assert(t.last() == fs@[i as int]);
            assert(out@ =~= start + enc_fields(t));
        }
        i = i + 1;
    }
    assert(fs@.take(fs@.len() as int) =~= fs@);
    assert(final(out)@ =~= old(out)@ + enc_record(fs@));
}

/// Reads the unsigned integer `v` at `pos`, or nothing.
fn expect_u64(b: &[u8], pos: usize, v: u64) -> (r: Option<usize>)
    ensures
        r matches Some(p) ==> pos < p <= b@.len(),
        holds_at(b@, pos as int, cbor_head(UNSIGNED, v)) ==> r is Some && r.unwrap() == pos
            + cbor_head(UNSIGNED, v).len(),
{
    match take_u64(b, pos) {
        Some((w, p)) => {
            if w == v {
                Some(p)
            } else {
                None
            }
        },
        None => None,
    }
}

/// Copies a 16-byte slice into an identifier.
fn to_id(x: &[u8]) -> (r: Option<Id>)
    ensures
        r matches Some(a) ==> a@ == x@,
        x@.len() == 16 ==> r is Some,
{
    if x.len() != 16 {
        return None;
    }
    let mut a: [u8; 16] = [0u8; 16];
    let mut i: usize = 0;
    while i < 16
        invariant
            0 <= i <= 16,
            x@.len() == 16,
            forall|j: int| 0 <= j < i ==> a@[j] == x@[j],
        decreases 16 - i,
    {
        a[i] = x[i];
        i = i + 1;
    }
    assert(a@ =~= x@);
    Some(a)
}

/// Where a record's map head and its `i`-th tagged field stand.
proof fn lemma_record_parts(b: Seq<u8>, pos: int, fs: Seq<Field>, i: int)
    requires
        holds_at(b, pos, enc_record(fs)),
        0 <= i < fs.len(),
    ensures
        holds_at(b, pos, cbor_head(MAP, fs.len() as u64)),
        holds_at(
            b,
            pos + cbor_head(MAP, fs.len() as u64).len() + enc_fields(fs.take(i)).len(),
            cbor_head(UNSIGNED, i as u64),
        ),
        holds_at(
            b,
            pos + cbor_head(MAP, fs.len() as u64).len() + enc_fields(fs.take(i)).len() + cbor_head(
                UNSIGNED,
                i as u64,
            ).len(),
            enc_field(fs[i]),
        ),
        enc_fields(fs.take(i + 1)).len() == enc_fields(fs.take(i)).len() + cbor_head(
            UNSIGNED,
            i as u64,
        ).len() + enc_field(fs[i]).len(),
{
    let h = cbor_head(MAP, fs.len() as u64);
    lemma_holds_split(b, pos, h, enc_fields(fs));
    lemma_fields_prefix(b, pos + h.len(), fs, i + 1);
    let t = fs.take(i + 1);
    assert(t.drop_last() =~= fs.take(i));
    assert(t.last() == fs[i]);
    let x = enc_fields(fs.take(i));
    let y = cbor_head(UNSIGNED, i as u64);
    let z = enc_field(fs[i]);
    assert(enc_fields(t) == x + y + z);
    lemma_holds_split(b, pos + h.len(), x + y, z);
    lemma_holds_split(b, pos + h.len(), x, y);
}

/// Reads a field of the given kind at `pos`.
fn take_field(b: &[u8], pos: usize, kind: FieldKind) -> (r: Option<(Field, usize)>)
    ensures
        r matches Some((f, p)) ==> pos < p <= b@.len() && kind_of_field(f) == kind,
        forall|f: Field|
            kind_of_field(f) == kind && #[trigger] holds_at(b@, pos as int, enc_field(f)) ==> r
                is Some && r.unwrap().0 == f && r.unwrap().1 == pos + enc_field(f).len(),
{
    let r = match kind {
        FieldKind::Uint => match take_u64(b, pos) {
            Some((v, p)) => Some((Field::Uint(v), p)),
            None => None,
        },
        FieldKind::Bytes => match take_bytes(b, pos) {
            Some((x, p)) => match to_id(x) {
                Some(a) => Some((Field::Bytes(a), p)),
                None => None,
            },
            None => None,
        },
    };
    proof {
        assert forall|f: Field|
            kind_of_field(f) == kind && #[trigger] holds_at(b@, pos as int, enc_field(f)) implies r
                is Some && r.unwrap().0 == f && r.unwrap().1 == pos + enc_field(f).len() by {
            match f {
                Field::Uint(v) => {
                    assert(holds_at(b@, pos as int, cbor_head(UNSIGNED, v)));
                },
                Field::Bytes(a) => {
                    assert(holds_at(b@, pos as int, cbor_bytes(a@)));
                    if let Some((Field::Bytes(c), _)) = r {
                        assert(c =~= a);
                    }
                },
            }
        }
    }
    r
}

/// Reads a record whose fields have the kinds that `schema` lists.
pub fn take_record(b: &[u8], pos: usize, schema: &Vec<FieldKind>) -> (r: Option<(Vec<Field>, usize)>)
    ensures
        r matches Some((fs, p)) ==> pos < p <= b@.len() && fits_schema(fs@, schema@),
        forall|fs: Seq<Field>|
            fits_schema(fs, schema@) && #[trigger] holds_at(b@, pos as int, enc_record(fs)) ==> r
                is Some && r.unwrap().0@ == fs && r.unwrap().1 == pos + enc_record(fs).len(),
{
    let (n, body_start) = match take_map(b, pos) {
        Some(x) => x,
        None => {
            proof {
                assert forall|fs: Seq<Field>|
                    fits_schema(fs, schema@) && #[trigger] holds_at(
                        b@,
                        pos as int,
                        enc_record(fs),
                    ) implies false by {
                    lemma_holds_split(b@, pos as int, cbor_head(MAP, fs.len() as u64), enc_fields(fs));
                }
            }
            return None;
        },
    };
    if n != schema.len() as u64 {
        proof {
            assert forall|fs: Seq<Field>|
                fits_schema(fs, schema@) && #[trigger] holds_at(
                    b@,
                    pos as int,
                    enc_record(fs),
                ) implies false by {
                lemma_holds_split(b@, pos as int, cbor_head(MAP, fs.len() as u64), enc_fields(fs));
            }
        }
        return None;
    }
    proof {
        assert forall|fs: Seq<Field>|
            fits_schema(fs, schema@) && #[trigger] holds_at(
                b@,
                pos as int,
                enc_record(fs),
            ) implies body_start == pos + cbor_head(MAP, fs.len() as u64).len() by {
            lemma_holds_split(b@, pos as int, cbor_head(MAP, fs.len() as u64), enc_fields(fs));
        }
    }
    let mut out: Vec<Field> = Vec::new();
    let mut p = body_start;
    let mut i: usize = 0;
    while i < schema.len()
        invariant
            pos < body_start <= p <= b@.len(),
            0 <= i <= schema@.len(),
            out@.len() == i,
            forall|j: int| 0 <= j < i ==> kind_of_field(#[trigger] out@[j]) == schema@[j],
            forall|fs: Seq<Field>|
                fits_schema(fs, schema@) && #[trigger] holds_at(b@, pos as int, enc_record(fs))
                    ==> body_start == pos + cbor_head(MAP, fs.len() as u64).len(),
            forall|fs: Seq<Field>|
                fits_schema(fs, schema@) && #[trigger] holds_at(b@, pos as int, enc_record(fs))
                    ==> out@ == fs.take(i as int) && p == body_start + enc_fields(fs.take(i as int)).len(),
        decreases schema@.len() - i,
    {
        let q = match expect_u64(b, p, i as u64) {
            Some(q) => q,
            None => {
                proof {
                    assert forall|fs: Seq<Field>|
                        fits_schema(fs, schema@) && #[trigger] holds_at(
                            b@,
                            pos as int,
                            enc_record(fs),
                        ) implies false by {
                        lemma_record_parts(b@, pos as int, fs, i as int);
                    }
                }
                return None;
            },
        };
        let (f, q2) = match take_field(b, q, schema[i]) {
            Some(x) => x,
            None => {
                proof {
                    assert forall|fs: Seq<Field>|
                        fits_schema(fs, schema@) && #[trigger] holds_at(
                            b@,
                            pos as int,
                            enc_record(fs),
                        ) implies false by {
                        lemma_record_parts(b@, pos as int, fs, i as int);
                        assert(kind_of_field(fs[i as int]) == schema@[i as int]);
                    }
                }
                return None;
            },
        };
        out.push(f);
        proof {
            assert forall|fs: Seq<Field>|
                fits_schema(fs, schema@) && #[trigger] holds_at(
                    b@,
                    pos as int,
                    enc_record(fs),
                ) implies out@ == fs.take(i + 1) && q2 == body_start + enc_fields(fs.take(i + 1)).len() by {
                lemma_record_parts(b@, pos as int, fs, i as int);
                assert(kind_of_field(fs[i as int]) == schema@[i as int]);
                assert(out@ =~= fs.take(i + 1));
            }
        }
        p = q2;
        i = i + 1;
    }
    proof {
        assert forall|fs: Seq<Field>|
            fits_schema(fs, schema@) && #[trigger] holds_at(
                b@,
                pos as int,
                enc_record(fs),
            ) implies out@ == fs && p == pos + enc_record(fs).len() by {
            assert(fs.take(fs.len() as int) =~= fs);
        }
    }
    Some((out, p))
}

} // verus!
