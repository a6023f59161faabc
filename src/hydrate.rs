//! Hydrated entities: self-contained copies of entities with every string
//! span replaced by the text it covers, for presentation.
use crate::entities::{Author, Collection, CorpusEntity, Document, StringRef, Token};
use crate::error::{CorpusError, CorpusResult};
use crate::ids::{ObjType, be_value, in_page_key_of, obj_id, page_key_of, u128_id};
use crate::strings::{Strings, resolve};
use vstd::prelude::*;
use vstd::utf8::encode_utf8;

verus! {

/// Whether a count of whole seconds since the Unix epoch names a date-time
/// that chrono can represent in UTC.
pub uninterp spec fn utc_timestamp_valid(secs: int) -> bool;

/// Relies on chrono's `TimeZone::timestamp_opt` for `Utc` with no
/// nanoseconds: whether the timestamp maps to a single representable
/// date-time depends on the seconds alone.
#[verifier::external_body]
fn utc_timestamp_ok(secs: i64) -> (r: bool)
    ensures
        r == utc_timestamp_valid(secs as int),
{
    chrono::TimeZone::timestamp_opt(&chrono::Utc, secs, 0).earliest().is_some()
}

/// Reads a stored date (seconds since the epoch) as a UTC timestamp.
pub fn parse_date(date: &u64) -> (r: CorpusResult<i64>)
    ensures
        utc_timestamp_valid(*date as i64 as int) ==> r == Ok::<i64, CorpusError>(*date as i64),
        !utc_timestamp_valid(*date as i64 as int) ==> (r matches Err(e) && e is DecodingError),
{
    let secs = *date as i64;
    if utc_timestamp_ok(secs) {
        Ok(secs)
    } else {
        Err(CorpusError::DecodingError("invalid date".to_string()))
    }
}

#[derive(Debug, Clone, PartialEq, Eq)]
pub struct HydratedAuthor {
    pub id: u128,
    pub name: String,
    pub notes: String,
}

#[derive(Debug, Clone, PartialEq, Eq)]
pub struct HydratedCollection {
    pub id: u128,
    /// Seconds since the Unix epoch, within the range of UTC date-times.
    pub date: i64,
    pub title: String,
    pub notes: String,
}

#[derive(Debug, Clone, PartialEq, Eq)]
pub struct HydratedDocument {
    pub id: u128,
    pub author_id: u128,
    pub collection_id: u128,
    /// Seconds since the Unix epoch, within the range of UTC date-times.
    pub date: i64,
    pub title: String,
}

#[derive(Debug, Clone, PartialEq, Eq)]
pub struct HydratedToken {
    pub id: u128,
    pub document_id: u128,
    pub author_id: u128,
    pub line: u64,
    pub position: u64,
    pub text: String,
    pub labels: Vec<u8>,
}

/// A hydrated entity of any kind but a span.
#[derive(Debug, Clone, PartialEq, Eq)]
pub enum HydratedEntity {
    Author(HydratedAuthor),
    Collection(HydratedCollection),
    Document(HydratedDocument),
    Token(HydratedToken),
}

/// `s` holds the text that the span covers in the blob.
pub open spec fn text_of(s: String, blob: Seq<u8>, r: StringRef) -> bool {
    resolve(blob, r) matches Ok(b) && encode_utf8(s@) == b
}

pub open spec fn author_hydrated(a: Author, blob: Seq<u8>, r: CorpusResult<HydratedEntity>) -> bool {
    match (resolve(blob, a.name), resolve(blob, a.notes)) {
        (Err(e), _) => r == Err::<HydratedEntity, CorpusError>(e),
        (Ok(_), Err(e)) => r == Err::<HydratedEntity, CorpusError>(e),
        (Ok(_), Ok(_)) => r matches Ok(HydratedEntity::Author(h)) && h.id == be_value(a.id@)
            && text_of(h.name, blob, a.name) && text_of(h.notes, blob, a.notes),
    }
}

pub open spec fn collection_hydrated(
    c: Collection,
    blob: Seq<u8>,
    r: CorpusResult<HydratedEntity>,
) -> bool {
    if !utc_timestamp_valid(c.date as i64 as int) {
        r matches Err(e) && e is DecodingError
    } else {
        match (resolve(blob, c.title), resolve(blob, c.notes)) {
            (Err(e), _) => r == Err::<HydratedEntity, CorpusError>(e),
            (Ok(_), Err(e)) => r == Err::<HydratedEntity, CorpusError>(e),
            (Ok(_), Ok(_)) => r matches Ok(HydratedEntity::Collection(h)) && h.id == be_value(
                c.id@,
            ) && h.date == c.date as i64 && text_of(h.title, blob, c.title) && text_of(
                h.notes,
                blob,
                c.notes,
            ),
        }
    }
}

pub open spec fn document_hydrated(
    d: Document,
    blob: Seq<u8>,
    r: CorpusResult<HydratedEntity>,
) -> bool {
    if !utc_timestamp_valid(d.date as i64 as int) {
        r matches Err(e) && e is DecodingError
    } else {
        match resolve(blob, d.title) {
            Err(e) => r == Err::<HydratedEntity, CorpusError>(e),
            Ok(_) => r matches Ok(HydratedEntity::Document(h)) && h.id == be_value(d.id@)
                && h.author_id == be_value(d.author_id@) && h.collection_id == be_value(
                d.collection_id@,
            ) && h.date == d.date as i64 && text_of(h.title, blob, d.title),
        }
    }
}

pub open spec fn token_hydrated(t: Token, blob: Seq<u8>, r: CorpusResult<HydratedEntity>) -> bool {
    match resolve(blob, t.text) {
        Err(e) => r == Err::<HydratedEntity, CorpusError>(e),
        Ok(_) => r matches Ok(HydratedEntity::Token(h)) && h.id == be_value(t.id@) && h.document_id
            == be_value(t.document_id@) && h.author_id == be_value(t.author_id@) && h.line == t.line
            && h.position == t.position && text_of(h.text, blob, t.text) && h.labels@ == t.labels@,
    }
}

impl Author {
    pub fn hydrate(&self, strings: &Strings) -> (r: CorpusResult<HydratedEntity>)
        ensures
            author_hydrated(*self, strings@, r),
    {
        let name = self.name.hydrate(strings)?;
        let notes = self.notes.hydrate(strings)?;
        Ok(HydratedEntity::Author(HydratedAuthor { id: u128_id(&self.id), name, notes }))
    }
}

impl Collection {
    pub fn hydrate(&self, strings: &Strings) -> (r: CorpusResult<HydratedEntity>)
        ensures
            collection_hydrated(*self, strings@, r),
    {
        let date = parse_date(&self.date)?;
        let title = self.title.hydrate(strings)?;
        let notes = self.notes.hydrate(strings)?;
        Ok(
            HydratedEntity::Collection(
                HydratedCollection { id: u128_id(&self.id), date, title, notes },
            ),
        )
    }
}

impl Document {
    pub fn hydrate(&self, strings: &Strings) -> (r: CorpusResult<HydratedEntity>)
        ensures
            document_hydrated(*self, strings@, r),
    {
        let author_id = u128_id(&self.author_id);
        let collection_id = u128_id(&self.collection_id);
        let id = u128_id(&self.id);
        let date = parse_date(&self.date)?;
        let title = self.title.hydrate(strings)?;
        Ok(
            HydratedEntity::Document(
                HydratedDocument { id, author_id, collection_id, date, title },
            ),
        )
    }
}

impl Token {
    pub fn hydrate(&self, strings: &Strings) -> (r: CorpusResult<HydratedEntity>)
        ensures
            token_hydrated(*self, strings@, r),
    {
        let id = u128_id(&self.id);
        let document_id = u128_id(&self.document_id);
        let author_id = u128_id(&self.author_id);
        let mut labels: Vec<u8> = Vec::new();
        let mut i: usize = 0;
        while i < 16
            invariant
                0 <= i <= 16,
                self.labels@.len() == 16,
                labels@ == self.labels@.subrange(0, i as int),
            decreases 16 - i,
        {
            labels.push(self.labels[i]);
            proof {
                assert(labels@ =~= self.labels@.subrange(0, i + 1));
            }
            i = i + 1;
        }
        assert(labels@ =~= self.labels@);
        let text = self.text.hydrate(strings)?;
        Ok(
            HydratedEntity::Token(
                HydratedToken {
                    id,
                    document_id,
                    author_id,
                    line: self.line,
                    position: self.position,
                    text,
                    labels,
                },
            ),
        )
    }
}

impl CorpusEntity {
    /// This entity with its spans resolved against the string blob. A span on
    /// its own cannot be hydrated.
    pub fn hydrate(&self, strings: &Strings) -> (r: CorpusResult<HydratedEntity>)
        ensures
            match *self {
                CorpusEntity::Author(a) => author_hydrated(a, strings@, r),
                CorpusEntity::Collection(c) => collection_hydrated(c, strings@, r),
                CorpusEntity::Document(d) => document_hydrated(d, strings@, r),
                CorpusEntity::Token(t) => token_hydrated(t, strings@, r),
                CorpusEntity::StringRef(_) => r matches Err(e) && e is DecodingError,
            },
    {
        match self {
            CorpusEntity::Author(a) => a.hydrate(strings),
            CorpusEntity::Collection(c) => c.hydrate(strings),
            CorpusEntity::Document(d) => d.hydrate(strings),
            CorpusEntity::Token(t) => t.hydrate(strings),
            CorpusEntity::StringRef(_) => Err(
                CorpusError::DecodingError("Cannot hydrate string_ref".to_string()),
            ),
        }
    }
}

impl HydratedEntity {
    pub open spec fn spec_id(&self) -> u128 {
        match *self {
            HydratedEntity::Author(h) => h.id,
            HydratedEntity::Collection(h) => h.id,
            HydratedEntity::Document(h) => h.id,
            HydratedEntity::Token(h) => h.id,
        }
    }

    pub open spec fn spec_kind(&self) -> ObjType {
        match *self {
            HydratedEntity::Author(_) => ObjType::Author,
            HydratedEntity::Collection(_) => ObjType::Collection,
            HydratedEntity::Document(_) => ObjType::Document,
            HydratedEntity::Token(_) => ObjType::Token,
        }
    }

    /// The address of the entity this was hydrated from.
    pub fn obj_id(&self) -> (r: (u64, u64))
        ensures
            r == (page_key_of(self.spec_id()), in_page_key_of(self.spec_id(), self.spec_kind())),
    {
        match self {
            HydratedEntity::Author(h) => obj_id(h.id, ObjType::Author),
            HydratedEntity::Collection(h) => obj_id(h.id, ObjType::Collection),
            HydratedEntity::Document(h) => obj_id(h.id, ObjType::Document),
            HydratedEntity::Token(h) => obj_id(h.id, ObjType::Token),
        }
    }
}

} // verus!
