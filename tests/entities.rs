use corpus_store::entities::{Author, Collection, CorpusEntity, Document, StringRef, Token};
use corpus_store::hydrate::{parse_date, HydratedEntity};
use corpus_store::ids::ObjType;
use corpus_store::strings::Strings;
use corpus_store::CorpusError;

fn id(n: u8) -> [u8; 16] {
    let mut a = [0u8; 16];
    a[0] = 0x10;
    a[15] = n;
    a
}

fn samples() -> Vec<CorpusEntity> {
    vec![
        CorpusEntity::Author(Author {
            id: id(1),
            name: StringRef::new(0, 4),
            notes: StringRef::new(300, 70000),
        }),
        CorpusEntity::Collection(Collection {
            id: id(2),
            date: 1_700_000_000,
            title: StringRef::new(5, 4),
            notes: StringRef::new(u64::MAX, 0),
        }),
        CorpusEntity::Document(Document {
            id: id(3),
            author_id: id(1),
            collection_id: id(2),
            date: 0,
            title: StringRef::new(24, 23),
        }),
        CorpusEntity::Token(Token {
            id: id(4),
            document_id: id(3),
            author_id: id(1),
            line: 7,
            position: 1 << 40,
            text: StringRef::new(0, 4),
            labels: [9u8; 16],
        }),
        CorpusEntity::StringRef(StringRef::new(1, 300)),
    ]
}

#[test]
fn every_kind_round_trips() {
    for e in samples() {
        let bytes = e.encode().unwrap();
        assert_eq!(CorpusEntity::decode(&bytes).unwrap(), e);
    }
}

#[test]
fn span_entity_encodes_as_tagged_map() {
    let e = CorpusEntity::StringRef(StringRef::new(1, 300));
    assert_eq!(
        e.encode().unwrap(),
        vec![0xa1, 0x04, 0xa2, 0x00, 0x01, 0x01, 0x19, 0x01, 0x2c]
    );
}

#[test]
fn decode_rejects_garbage_and_trailing_bytes() {
    assert!(matches!(
        CorpusEntity::decode(&[0xff, 0x00]),
        Err(CorpusError::DecodingError(_))
    ));
    assert!(matches!(CorpusEntity::decode(&[]), Err(CorpusError::DecodingError(_))));
    let mut bytes = CorpusEntity::StringRef(StringRef::new(1, 2)).encode().unwrap();
    bytes.push(0);
    assert!(matches!(
        CorpusEntity::decode(&bytes),
        Err(CorpusError::DecodingError(_))
    ));
    // a kind discriminant that names no kind
    assert!(matches!(
        CorpusEntity::decode(&[0xa1, 0x09, 0xa2, 0x00, 0x01, 0x01, 0x02]),
        Err(CorpusError::DecodingError(_))
    ));
}

#[test]
fn decode_rejects_non_shortest_integer() {
    // 1 written with a one-byte argument instead of inline
    let bytes = [0xa1, 0x04, 0xa2, 0x00, 0x18, 0x01, 0x01, 0x02];
    assert!(matches!(
        CorpusEntity::decode(&bytes),
        Err(CorpusError::DecodingError(_))
    ));
}

#[test]
fn identity_and_address_of_entities() {
    let es = samples();
    assert_eq!(es[0].id(), (0x10u128 << 120) | 1);
    assert_eq!(es[0].obj_type(), ObjType::Author);
    assert_eq!(es[3].obj_id(), (0x1000_0000_0000_0000, 0x3000_0000_0000_0004));
    assert_eq!(es[3].page_id(), 0x1000_0000_0000_0000);
    assert_eq!(es[4].id(), (1u128 << 64) | 300);
    assert_eq!(es[4].obj_id(), (1, 0x4000_0000_0000_012c));
}

fn blob() -> Strings {
    Strings::from_bytes("annehellothe collected works of anne".as_bytes())
}

#[test]
fn author_hydrates_its_spans() {
    let a = Author { id: id(1), name: StringRef::new(0, 3), notes: StringRef::new(4, 4) };
    match CorpusEntity::Author(a).hydrate(&blob()).unwrap() {
        HydratedEntity::Author(h) => {
            assert_eq!(h.id, (0x10u128 << 120) | 1);
            assert_eq!(h.name, "anne");
            assert_eq!(h.notes, "hello");
        }
        other => panic!("unexpected {other:?}"),
    }
}

#[test]
fn hydration_reports_first_missing_span() {
    let a = Author { id: id(1), name: StringRef::new(0, 3), notes: StringRef::new(100, 1) };
    assert_eq!(
        CorpusEntity::Author(a).hydrate(&blob()),
        Err(CorpusError::StringNotFoundError(100, 101))
    );
}

#[test]
fn document_and_token_hydrate() {
    let d = Document {
        id: id(3),
        author_id: id(1),
        collection_id: id(2),
        date: 86_400,
        title: StringRef::new(13, 22),
    };
    match d.hydrate(&blob()).unwrap() {
        HydratedEntity::Document(h) => {
            assert_eq!(h.date, 86_400);
            assert_eq!(h.title, "collected works of anne");
            assert_eq!(h.author_id, (0x10u128 << 120) | 1);
        }
        other => panic!("unexpected {other:?}"),
    }
    let t = Token {
        id: id(4),
        document_id: id(3),
        author_id: id(1),
        line: 2,
        position: 3,
        text: StringRef::new(4, 4),
        labels: [1u8; 16],
    };
    match t.hydrate(&blob()).unwrap() {
        HydratedEntity::Token(h) => {
            assert_eq!(h.text, "hello");
            assert_eq!(h.labels, vec![1u8; 16]);
            assert_eq!((h.line, h.position), (2, 3));
        }
        other => panic!("unexpected {other:?}"),
    }
}

#[test]
fn collection_with_unrepresentable_date_fails() {
    let c = Collection {
        id: id(2),
        date: 1u64 << 62,
        title: StringRef::new(0, 3),
        notes: StringRef::new(0, 3),
    };
    assert!(matches!(
        CorpusEntity::Collection(c).hydrate(&blob()),
        Err(CorpusError::DecodingError(_))
    ));
    assert!(matches!(parse_date(&(1u64 << 62)), Err(CorpusError::DecodingError(_))));
    assert_eq!(parse_date(&1_700_000_000).unwrap(), 1_700_000_000);
}

#[test]
fn span_entity_cannot_be_hydrated() {
    assert!(matches!(
        CorpusEntity::StringRef(StringRef::new(0, 1)).hydrate(&blob()),
        Err(CorpusError::DecodingError(_))
    ));
}

#[test]
fn hydrated_entity_keeps_address() {
    let a = Author { id: id(1), name: StringRef::new(0, 3), notes: StringRef::new(4, 4) };
    let e = CorpusEntity::Author(a);
    assert_eq!(e.hydrate(&blob()).unwrap().obj_id(), e.obj_id());
}
