//! The five kinds of entity, their identities, and their encoding as
//! records keyed by field tags.
use crate::cbor::{MAP, UNSIGNED, cbor_head, holds_at, lemma_holds_split, put_map, put_u64, take_map, take_u64};
use crate::error::{CorpusError, CorpusResult};
use crate::ids::{
    Id, ObjType, PAGE_SHIFT, be_value, in_page_key_of, obj_id, page_key_of, u128_id,
};
use crate::record::{
    Field, FieldKind, enc_record, fits_schema, put_record, take_record,
};
use vstd::prelude::*;

verus! {

/// A reference to `length` bytes of the string blob, starting at `start`.
/// Spans order by start, then by length.
#[derive(Debug, Clone, Copy, PartialEq, Eq, Structural, PartialOrd, Ord, Hash)]
pub struct StringRef {
    pub start: u64,
    pub length: u64,
}

impl StringRef {
    pub fn new(start: u64, length: u64) -> (r: Self)
        ensures
            r == (StringRef { start, length }),
    {
        StringRef { start, length }
    }
}

#[derive(Debug, Clone, Copy, PartialEq, Eq)]
pub struct Author {
    pub id: Id,
    pub name: StringRef,
    pub notes: StringRef,
}

#[derive(Debug, Clone, Copy, PartialEq, Eq)]
pub struct Collection {
    pub id: Id,
    /// Seconds since the Unix epoch.
    pub date: u64,
    pub title: StringRef,
    pub notes: StringRef,
}

#[derive(Debug, Clone, Copy, PartialEq, Eq)]
pub struct Document {
    pub id: Id,
    pub author_id: Id,
    pub collection_id: Id,
    /// Seconds since the Unix epoch.
    pub date: u64,
    pub title: StringRef,
}

#[derive(Debug, Clone, Copy, PartialEq, Eq)]
pub struct Token {
    pub id: Id,
    pub document_id: Id,
    pub author_id: Id,
    pub line: u64,
    pub position: u64,
    pub text: StringRef,
    pub labels: [u8; 16],
}

/// An entity of any kind.
#[derive(Debug, Clone, Copy, PartialEq, Eq)]
pub enum CorpusEntity {
    Author(Author),
    Collection(Collection),
    Document(Document),
    Token(Token),
    StringRef(StringRef),
}

pub open spec fn kind_of(e: CorpusEntity) -> ObjType {
    match e {
        CorpusEntity::Author(_) => ObjType::Author,
        CorpusEntity::Collection(_) => ObjType::Collection,
        CorpusEntity::Document(_) => ObjType::Document,
        CorpusEntity::Token(_) => ObjType::Token,
        CorpusEntity::StringRef(_) => ObjType::StringRef,
    }
}

/// The identity of a span: its start in the high half, its length in the low.
pub open spec fn span_id(s: StringRef) -> u128 {
    (s.start * PAGE_SHIFT + s.length) as u128
}

/// The 128-bit identifier of an entity.
pub open spec fn id_of(e: CorpusEntity) -> u128 {
    match e {
        CorpusEntity::Author(a) => be_value(a.id@) as u128,
        CorpusEntity::Collection(c) => be_value(c.id@) as u128,
        CorpusEntity::Document(d) => be_value(d.id@) as u128,
        CorpusEntity::Token(t) => be_value(t.id@) as u128,
        CorpusEntity::StringRef(s) => span_id(s),
    }
}

/// The address of an entity: (page key, in-page key).
pub open spec fn address_of(e: CorpusEntity) -> (u64, u64) {
    (page_key_of(id_of(e)), in_page_key_of(id_of(e), kind_of(e)))
}

/// The field values of an entity, in field-tag order.
pub open spec fn fields_of(e: CorpusEntity) -> Seq<Field> {
    match e {
        CorpusEntity::Author(a) => seq![
            Field::Bytes(a.id),
            Field::Uint(a.name.start),
            Field::Uint(a.name.length),
            Field::Uint(a.notes.start),
            Field::Uint(a.notes.length),
        ],
        CorpusEntity::Collection(c) => seq![
            Field::Bytes(c.id),
            Field::Uint(c.date),
            Field::Uint(c.title.start),
            Field::Uint(c.title.length),
            Field::Uint(c.notes.start),
            Field::Uint(c.notes.length),
        ],
        CorpusEntity::Document(d) => seq![
            Field::Bytes(d.id),
            Field::Bytes(d.author_id),
            Field::Bytes(d.collection_id),
            Field::Uint(d.date),
            Field::Uint(d.title.start),
            Field::Uint(d.title.length),
        ],
        CorpusEntity::Token(t) => seq![
            Field::Bytes(t.id),
            Field::Bytes(t.document_id),
            Field::Bytes(t.author_id),
            Field::Uint(t.line),
            Field::Uint(t.position),
            Field::Uint(t.text.start),
            Field::Uint(t.text.length),
            Field::Bytes(t.labels),
        ],
        CorpusEntity::StringRef(s) => seq![Field::Uint(s.start), Field::Uint(s.length)],
    }
}

/// The field kinds of the records of each kind of entity.
pub open spec fn schema_of(code: u64) -> Option<Seq<FieldKind>> {
    if code == 0 {
        Some(seq![FieldKind::Bytes, FieldKind::Uint, FieldKind::Uint, FieldKind::Uint, FieldKind::Uint])
    } else if code == 1 {
        Some(
            seq![
                FieldKind::Bytes,
                FieldKind::Uint,
                FieldKind::Uint,
                FieldKind::Uint,
                FieldKind::Uint,
                FieldKind::Uint,
            ],
        )
    } else if code == 2 {
        Some(
            seq![
                FieldKind::Bytes,
                FieldKind::Bytes,
                FieldKind::Bytes,
                FieldKind::Uint,
                FieldKind::Uint,
                FieldKind::Uint,
            ],
        )
    } else if code == 3 {
        Some(
            seq![
                FieldKind::Bytes,
                FieldKind::Bytes,
                FieldKind::Bytes,
                FieldKind::Uint,
                FieldKind::Uint,
                FieldKind::Uint,
                FieldKind::Uint,
                FieldKind::Bytes,
            ],
        )
    } else if code == 4 {
        Some(seq![FieldKind::Uint, FieldKind::Uint])
    } else {
        None
    }
}

/// The encoding of an entity: a one-entry map from its kind's discriminant
/// to its record.
pub open spec fn enc_entity(e: CorpusEntity) -> Seq<u8> {
    cbor_head(MAP, 1) + cbor_head(UNSIGNED, kind_of(e).spec_code()) + enc_record(fields_of(e))
}

proof fn lemma_fields_fit(e: CorpusEntity)
    ensures
        schema_of(kind_of(e).spec_code()) is Some,
        fits_schema(fields_of(e), schema_of(kind_of(e).spec_code()).unwrap()),
{
}

fn schema(code: u64) -> (r: Option<Vec<FieldKind>>)
    ensures
        r matches Some(v) ==> schema_of(code) == Some(v@),
        r is None ==> schema_of(code) is None,
{
    let mut v: Vec<FieldKind> = Vec::new();
    if code == 0 {
        v.push(FieldKind::Bytes);
        v.push(FieldKind::Uint);
        v.push(FieldKind::Uint);
        v.push(FieldKind::Uint);
        v.push(FieldKind::Uint);
    } else if code == 1 {
        v.push(FieldKind::Bytes);
        v.push(FieldKind::Uint);
        v.push(FieldKind::Uint);
        v.push(FieldKind::Uint);
        v.push(FieldKind::Uint);
        v.push(FieldKind::Uint);
    } else if code == 2 {
        v.push(FieldKind::Bytes);
        v.push(FieldKind::Bytes);
        v.push(FieldKind::Bytes);
        v.push(FieldKind::Uint);
        v.push(FieldKind::Uint);
        v.push(FieldKind::Uint);
    } else if code == 3 {
        v.push(FieldKind::Bytes);
        v.push(FieldKind::Bytes);
        v.push(FieldKind::Bytes);
        v.push(FieldKind::Uint);
        v.push(FieldKind::Uint);
        v.push(FieldKind::Uint);
        v.push(FieldKind::Uint);
        v.push(FieldKind::Bytes);
    } else if code == 4 {
        v.push(FieldKind::Uint);
        v.push(FieldKind::Uint);
    } else {
        return None;
    }
    assert(v@ =~= schema_of(code).unwrap());
    Some(v)
}

/// Builds the entity of kind `code` from its field values.
fn from_fields(code: u64, fs: &Vec<Field>) -> (r: Option<CorpusEntity>)
    ensures
        r matches Some(e) ==> kind_of(e).spec_code() == code && fields_of(e) == fs@,
        forall|e: CorpusEntity|
            kind_of(e).spec_code() == code && #[trigger] fields_of(e) == fs@ ==> r == Some(e),
{
    let r = if code == 0 && fs.len() == 5 {
        match (fs[0], fs[1], fs[2], fs[3], fs[4]) {
            (Field::Bytes(id), Field::Uint(a), Field::Uint(b), Field::Uint(c), Field::Uint(d)) => {
                Some(
                    CorpusEntity::Author(
                        Author {
                            id,
                            name: StringRef { start: a, length: b },
                            notes: StringRef { start: c, length: d },
                        },
                    ),
                )
            },
            _ => None,
        }
    } else if code == 1 && fs.len() == 6 {
        match (fs[0], fs[1], fs[2], fs[3], fs[4], fs[5]) {
            (
                Field::Bytes(id),
                Field::Uint(date),
                Field::Uint(a),
                Field::Uint(b),
                Field::Uint(c),
                Field::Uint(d),
            ) => {
                Some(
                    CorpusEntity::Collection(
                        Collection {
                            id,
                            date,
                            title: StringRef { start: a, length: b },
                            notes: StringRef { start: c, length: d },
                        },
                    ),
                )
            },
            _ => None,
        }
    } else if code == 2 && fs.len() == 6 {
        match (fs[0], fs[1], fs[2], fs[3], fs[4], fs[5]) {
            (
                Field::Bytes(id),
                Field::Bytes(author_id),
                Field::Bytes(collection_id),
                Field::Uint(date),
                Field::Uint(a),
                Field::Uint(b),
            ) => {
                Some(
                    CorpusEntity::Document(
                        Document {
                            id,
                            author_id,
                            collection_id,
                            date,
                            title: StringRef { start: a, length: b },
                        },
                    ),
                )
            },
            _ => None,
        }
    } else if code == 3 && fs.len() == 8 {
        match (fs[0], fs[1], fs[2], fs[3], fs[4], fs[5], fs[6], fs[7]) {
            (
                Field::Bytes(id),
                Field::Bytes(document_id),
                Field::Bytes(author_id),
                Field::Uint(line),
                Field::Uint(position),
                Field::Uint(a),
                Field::Uint(b),
                Field::Bytes(labels),
            ) => {
                Some(
                    CorpusEntity::Token(
                        Token {
                            id,
                            document_id,
                            author_id,
                            line,
                            position,
                            text: StringRef { start: a, length: b },
                            labels,
                        },
                    ),
                )
            },
            _ => None,
        }
    } else if code == 4 && fs.len() == 2 {
        match (fs[0], fs[1]) {
            (Field::Uint(start), Field::Uint(length)) => Some(
                CorpusEntity::StringRef(StringRef { start, length }),
            ),
            _ => None,
        }
    } else {
        None
    };
    proof {
        if let Some(e) = r {
            assert(fields_of(e) =~= fs@);
        }
        assert forall|e: CorpusEntity|
            kind_of(e).spec_code() == code && #[trigger] fields_of(e) == fs@ implies r == Some(e) by {
            let f = fields_of(e);
            assert(f.len() == fs@.len());
            assert(forall|i: int| 0 <= i < f.len() ==> f[i] == fs@[i]);
        }
    }
    r
}

impl CorpusEntity {
    /// The kind of this entity.
    pub fn obj_type(&self) -> (r: ObjType)
        ensures
            r == kind_of(*self),
    {
        match self {
            CorpusEntity::Author(_) => ObjType::Author,
            CorpusEntity::Collection(_) => ObjType::Collection,
            CorpusEntity::Document(_) => ObjType::Document,
            CorpusEntity::Token(_) => ObjType::Token,
            CorpusEntity::StringRef(_) => ObjType::StringRef,
        }
    }

    /// The 128-bit identifier of this entity.
    pub fn id(&self) -> (r: u128)
        ensures
            r == id_of(*self),
    {
        match self {
            CorpusEntity::Author(a) => u128_id(&a.id),
            CorpusEntity::Collection(c) => u128_id(&c.id),
            CorpusEntity::Document(d) => u128_id(&d.id),
            CorpusEntity::Token(t) => u128_id(&t.id),
            CorpusEntity::StringRef(s) => {
                assert(s.start * PAGE_SHIFT + s.length < 0x1_0000_0000_0000_0000_0000_0000_0000_0000)
                    by (nonlinear_arith)
                    requires
                        s.start < 0x1_0000_0000_0000_0000,
                        s.length < 0x1_0000_0000_0000_0000,
                        PAGE_SHIFT == 0x1_0000_0000_0000_0000,
                ;
                s.start as u128 * PAGE_SHIFT + s.length as u128
            },
        }
    }

    /// A capacity hint for the encoding of this entity.
    pub(crate) fn len(&self) -> (r: usize)
        ensures
            r > 0,
    {
        match self {
            CorpusEntity::Author(_) => 80,
            CorpusEntity::Collection(_) => 96,
            CorpusEntity::Document(_) => 96,
            CorpusEntity::StringRef(_) => 32,
            CorpusEntity::Token(_) => 128,
        }
    }

    /// The field values of this entity, in field-tag order.
    fn fields(&self) -> (r: Vec<Field>)
        ensures
            r@ == fields_of(*self),
    {
        let mut v: Vec<Field> = Vec::new();
        match self {
            CorpusEntity::Author(a) => {
                v.push(Field::Bytes(a.id));
                v.push(Field::Uint(a.name.start));
                v.push(Field::Uint(a.name.length));
                v.push(Field::Uint(a.notes.start));
                v.push(Field::Uint(a.notes.length));
            },
            CorpusEntity::Collection(c) => {
                v.push(Field::Bytes(c.id));
                v.push(Field::Uint(c.date));
                v.push(Field::Uint(c.title.start));
                v.push(Field::Uint(c.title.length));
                v.push(Field::Uint(c.notes.start));
                v.push(Field::Uint(c.notes.length));
            },
            CorpusEntity::Document(d) => {
                v.push(Field::Bytes(d.id));
                v.push(Field::Bytes(d.author_id));
                v.push(Field::Bytes(d.collection_id));
                v.push(Field::Uint(d.date));
                v.push(Field::Uint(d.title.start));
                v.push(Field::Uint(d.title.length));
            },
            CorpusEntity::Token(t) => {
                v.push(Field::Bytes(t.id));
                v.push(Field::Bytes(t.document_id));
                v.push(Field::Bytes(t.author_id));
                v.push(Field::Uint(t.line));
                v.push(Field::Uint(t.position));
                v.push(Field::Uint(t.text.start));
                v.push(Field::Uint(t.text.length));
                v.push(Field::Bytes(t.labels));
            },
            CorpusEntity::StringRef(s) => {
                v.push(Field::Uint(s.start));
                v.push(Field::Uint(s.length));
            },
        }
        assert(v@ =~= fields_of(*self));
        v
    }

    /// Appends the encoding of this entity to `out`.
    pub fn encode_into(&self, out: &mut Vec<u8>)
        ensures
            final(out)@ == old(out)@ + enc_entity(*self),
    {
        put_map(out, 1);
        put_u64(out, self.obj_type().code());
        let fs = self.fields();
        put_record(out, &fs);
        assert(final(out)@ =~= old(out)@ + enc_entity(*self));
    }

    /// The encoding of this entity.
    pub fn encode(&self) -> (r: CorpusResult<Vec<u8>>)
        ensures
            r matches Ok(b) && b@ == enc_entity(*self),
    {
        let mut b: Vec<u8> = Vec::with_capacity(self.len());
        self.encode_into(&mut b);
        assert(b@ =~= enc_entity(*self));
        Ok(b)
    }

    /// The address of this entity: (page key, in-page key).
    pub fn obj_id(&self) -> (r: (u64, u64))
        ensures
            r == address_of(*self),
    {
        obj_id(self.id(), self.obj_type())
    }

    /// The key of the page that holds this entity.
    pub fn page_id(&self) -> (r: u64)
        ensures
            r == address_of(*self).0,
    {
        self.obj_id().0
    }
}

/// Where an entity's map head, kind and record stand.
proof fn lemma_entity_parts(b: Seq<u8>, pos: int, e: CorpusEntity)
    requires
        holds_at(b, pos, enc_entity(e)),
    ensures
        holds_at(b, pos, cbor_head(MAP, 1)),
        holds_at(b, pos + cbor_head(MAP, 1).len(), cbor_head(UNSIGNED, kind_of(e).spec_code())),
        holds_at(
            b,
            pos + cbor_head(MAP, 1).len() + cbor_head(UNSIGNED, kind_of(e).spec_code()).len(),
            enc_record(fields_of(e)),
        ),
{
    let x = cbor_head(MAP, 1);
    let y = cbor_head(UNSIGNED, kind_of(e).spec_code());
    let z = enc_record(fields_of(e));
    lemma_holds_split(b, pos, x + y, z);
    lemma_holds_split(b, pos, x, y);
}

/// Reads an entity at `pos`: its encoding is read back whole, and nothing
/// that is not the encoding of an entity of a known kind is accepted.
pub fn take_entity(b: &[u8], pos: usize) -> (r: Option<(CorpusEntity, usize)>)
    ensures
        r matches Some((e, p)) ==> pos < p <= b@.len() && holds_at(b@, pos as int, enc_entity(e))
            && p == pos + enc_entity(e).len(),
        forall|e: CorpusEntity| #[trigger]
            holds_at(b@, pos as int, enc_entity(e)) ==> r is Some && r.unwrap().0 == e
                && r.unwrap().1 == pos + enc_entity(e).len(),
{
    let r = take_entity_unchecked(b, pos);
    match r {
        Some((e, p)) => {
            let mut enc: Vec<u8> = Vec::with_capacity(e.len());
            e.encode_into(&mut enc);
            if bytes_at(b, pos, &enc) {
                proof {
                    assert(enc@ =~= enc_entity(e));
                    assert(p == pos + enc_entity(e).len()) by {
                        assert(holds_at(b@, pos as int, enc_entity(e)));
                    }
                }
                Some((e, p))
            } else {
                proof {
                    assert(enc@ =~= enc_entity(e));
                }
                None
            }
        },
        None => None,
    }
}

/// `b` holds `item` at `pos`.
pub fn bytes_at(b: &[u8], pos: usize, item: &Vec<u8>) -> (r: bool)
    ensures
        r == holds_at(b@, pos as int, item@),
{
    if pos > b.len() || item.len() > b.len() - pos {
        return false;
    }
    let blen = b.len();
    let mut i: usize = 0;
    while i < item.len()
        invariant
            blen == b@.len(),
            pos + item@.len() <= b@.len(),
            0 <= i <= item@.len(),
            forall|j: int| 0 <= j < i ==> b@[pos + j] == item@[j],
        decreases item@.len() - i,
    {
        if b[pos + i] != item[i] {
            proof {
                assert(b@.subrange(pos as int, pos + item@.len())[i as int] != item@[i as int]);
            }
            return false;
        }
        i = i + 1;
    }
    assert(b@.subrange(pos as int, pos + item@.len()) =~= item@);
    true
}

fn take_entity_unchecked(b: &[u8], pos: usize) -> (r: Option<(CorpusEntity, usize)>)
    ensures
        r matches Some((e, p)) ==> pos < p <= b@.len(),
        forall|e: CorpusEntity| #[trigger]
            holds_at(b@, pos as int, enc_entity(e)) ==> r is Some && r.unwrap().0 == e
                && r.unwrap().1 == pos + enc_entity(e).len(),
{
    let p = match take_map(b, pos) {
        Some((n, p)) => {
            if n != 1 {
                proof {
                    assert forall|e: CorpusEntity| #[trigger]
                        holds_at(b@, pos as int, enc_entity(e)) implies false by {
                        lemma_entity_parts(b@, pos as int, e);
                    }
                }
                return None;
            }
            p
        },
        None => {
            proof {
                assert forall|e: CorpusEntity| #[trigger]
                    holds_at(b@, pos as int, enc_entity(e)) implies false by {
                    lemma_entity_parts(b@, pos as int, e);
                }
            }
            return None;
        },
    };
    let (code, q) = match take_u64(b, p) {
        Some(x) => x,
        None => {
            proof {
                assert forall|e: CorpusEntity| #[trigger]
                    holds_at(b@, pos as int, enc_entity(e)) implies false by {
                    lemma_entity_parts(b@, pos as int, e);
                }
            }
            return None;
        },
    };
    let schema = match schema(code) {
        Some(s) => s,
        None => {
            proof {
                assert forall|e: CorpusEntity| #[trigger]
                    holds_at(b@, pos as int, enc_entity(e)) implies false by {
                    lemma_entity_parts(b@, pos as int, e);
                    lemma_fields_fit(e);
                }
            }
            return None;
        },
    };
    let (fs, end) = match take_record(b, q, &schema) {
        Some(x) => x,
        None => {
            proof {
                assert forall|e: CorpusEntity| #[trigger]
                    holds_at(b@, pos as int, enc_entity(e)) implies false by {
                    lemma_entity_parts(b@, pos as int, e);
                    lemma_fields_fit(e);
                }
            }
            return None;
        },
    };
    let e = match from_fields(code, &fs) {
        Some(e) => e,
        None => {
            proof {
                assert forall|e: CorpusEntity| #[trigger]
                    holds_at(b@, pos as int, enc_entity(e)) implies false by {
                    lemma_entity_parts(b@, pos as int, e);
                    lemma_fields_fit(e);
                }
            }
            return None;
        },
    };
    proof {
        assert forall|e2: CorpusEntity| #[trigger]
            holds_at(b@, pos as int, enc_entity(e2)) implies e == e2 && end == pos + enc_entity(
                e2,
            ).len() by {
            lemma_entity_parts(b@, pos as int, e2);
            lemma_fields_fit(e2);
        }
    }
    Some((e, end))
}

impl CorpusEntity {
    /// Decodes an entity. Exactly the encodings of entities are accepted.
    pub fn decode(b: &[u8]) -> (r: CorpusResult<CorpusEntity>)
        ensures
            forall|e: CorpusEntity| #[trigger] enc_entity(e) == b@ <==> r == Ok::<CorpusEntity, CorpusError>(e),
            r matches Err(e) ==> e is DecodingError,
    {
        match take_entity(b, 0) {
            Some((e, p)) => {
                if p == b.len() {
                    proof {
                        assert(b@.subrange(0, b@.len() as int) =~= b@);
                    }
                    Ok(e)
                } else {
                    proof {
                        assert forall|e2: CorpusEntity| #[trigger] enc_entity(e2) == b@ implies false by {
                            assert(b@.subrange(0, b@.len() as int) =~= b@);
                            assert(holds_at(b@, 0, enc_entity(e2)));
                        }
                    }
                    Err(CorpusError::DecodingError("entity".to_string()))
                }
            },
            None => {
                proof {
                    assert forall|e2: CorpusEntity| #[trigger] enc_entity(e2) == b@ implies false by {
                        assert(b@.subrange(0, b@.len() as int) =~= b@);
                        assert(holds_at(b@, 0, enc_entity(e2)));
                    }
                }
                Err(CorpusError::DecodingError("entity".to_string()))
            },
        }
    }
}

} // verus!
