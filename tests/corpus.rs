use corpus_store::corpus::{CorpusState, Counter};
use corpus_store::entities::{Author, CorpusEntity, StringRef, Token};
use corpus_store::store::ObjectStore;
use corpus_store::CorpusError;

fn wire(page: u64, low: u64) -> [u8; 16] {
    (((page as u128) << 64) | low as u128).to_be_bytes()
}

fn token(page: u64, low: u64, line: u64) -> CorpusEntity {
    CorpusEntity::Token(Token {
        id: wire(page, low),
        document_id: wire(9, 9),
        author_id: wire(8, 8),
        line,
        position: 0,
        text: StringRef::new(0, 1),
        labels: [0u8; 16],
    })
}

fn author(page: u64, low: u64) -> CorpusEntity {
    CorpusEntity::Author(Author {
        id: wire(page, low),
        name: StringRef::new(1, 2),
        notes: StringRef::new(3, 4),
    })
}

#[test]
fn write_then_read_with_fresh_handle() {
    let mut w = CorpusState::new(ObjectStore::new());
    let x = token(5, 1, 42);
    w.write_objs(&[x]).unwrap();
    let mut r = CorpusState::new(w.into_store());
    assert_eq!(r.read_obj(wire(5, 1)).unwrap(), x);
}

#[test]
fn write_invalidates_cached_entity() {
    let mut s = CorpusState::new(ObjectStore::new());
    s.write_objs(&[token(5, 1, 1)]).unwrap();
    assert_eq!(s.read_obj(wire(5, 1)).unwrap(), token(5, 1, 1));
    s.write_objs(&[token(5, 1, 2)]).unwrap();
    assert_eq!(s.read_obj(wire(5, 1)).unwrap(), token(5, 1, 2));
}

#[test]
fn write_merges_into_existing_page() {
    let mut s = CorpusState::new(ObjectStore::new());
    s.write_objs(&[token(5, 1, 1), author(6, 1)]).unwrap();
    s.write_objs(&[token(5, 2, 2)]).unwrap();
    let mut r = CorpusState::new(s.into_store());
    let before = r.store().fetches();
    assert_eq!(r.read_obj(wire(5, 1)).unwrap(), token(5, 1, 1));
    assert_eq!(r.read_obj(wire(5, 2)).unwrap(), token(5, 2, 2));
    assert_eq!(r.read_obj(wire(6, 1)).unwrap(), author(6, 1));
    // one fetch for page 5, served from cache afterwards; one for page 6
    assert_eq!(r.store().fetches() - before, 2);
}

#[test]
fn last_writer_wins_within_batch() {
    let mut s = CorpusState::new(ObjectStore::new());
    s.write_objs(&[token(5, 1, 1), token(5, 1, 2)]).unwrap();
    assert_eq!(s.read_obj(wire(5, 1)).unwrap(), token(5, 1, 2));
}

#[test]
fn batched_read_with_mixed_cache_residency() {
    let mut s = CorpusState::new(ObjectStore::new());
    let a = token(1, 1, 10);
    let b = token(2, 1, 20);
    let c = token(2, 2, 30);
    s.write_objs(&[a, b, c]).unwrap();
    let mut r = CorpusState::new(s.into_store());
    assert_eq!(r.read_obj(wire(1, 1)).unwrap(), a);
    let before = r.store().fetches();
    let got = r.read_objs(&[wire(1, 1), wire(2, 1), wire(2, 2)]).unwrap();
    assert_eq!(r.store().fetches() - before, 1);
    assert_eq!(got, vec![a, b, c]);
}

#[test]
fn batched_read_keeps_input_order() {
    let mut s = CorpusState::new(ObjectStore::new());
    let xs = [token(3, 1, 1), token(1, 1, 2), token(3, 2, 3)];
    s.write_objs(&xs).unwrap();
    let mut r = CorpusState::new(s.into_store());
    let before = r.store().fetches();
    let got = r.read_objs(&[wire(3, 2), wire(1, 1), wire(3, 1), wire(3, 2)]).unwrap();
    assert_eq!(got, vec![xs[2], xs[1], xs[0], xs[2]]);
    assert_eq!(r.store().fetches() - before, 2);
}

#[test]
fn missing_page_and_missing_entity() {
    let mut s = CorpusState::new(ObjectStore::new());
    assert_eq!(s.read_obj(wire(7, 1)), Err(CorpusError::PageNotFoundError(7)));
    s.write_objs(&[token(7, 1, 1)]).unwrap();
    assert_eq!(s.read_obj(wire(7, 2)), Err(CorpusError::EntityNotFoundError(7, 2)));
    assert_eq!(
        s.read_objs(&[wire(7, 1), wire(7, 3)]),
        Err(CorpusError::EntityNotFoundError(7, 3))
    );
    assert_eq!(s.read_objs(&[wire(8, 1)]), Err(CorpusError::PageNotFoundError(8)));
}

#[test]
fn undecodable_page_stops_write_before_submission() {
    let mut db = ObjectStore::new();
    db.write_batch(vec![(4, Some(vec![0xff])), (5, Some(vec![1, 2]))]);
    let mut s = CorpusState::new(db);
    assert!(matches!(
        s.write_objs(&[token(5, 1, 1)]),
        Err(CorpusError::DecodingError(_))
    ));
    assert!(matches!(s.read_obj(wire(4, 1)), Err(CorpusError::DecodingError(_))));
    let mut db = s.into_store();
    assert_eq!(db.read(5), Some(vec![1, 2]));
}

#[test]
fn cache_queries() {
    let mut s = CorpusState::new(ObjectStore::new());
    s.write_objs(&[token(5, 1, 1)]).unwrap();
    assert_eq!(s.entity_from_cache(wire(5, 1)).unwrap(), None);
    assert!(!s.page_cached(5).unwrap());
    let p = s.load_page(5).unwrap();
    s.cache_page(5, &p).unwrap();
    assert!(s.page_cached(5).unwrap());
    assert_eq!(s.entity_from_cache(wire(5, 1)).unwrap(), Some(token(5, 1, 1)));
}

#[test]
fn strings_are_loaded_from_the_store() {
    let mut db = ObjectStore::new();
    db.write_batch(vec![(11, Some(b"hellothere".to_vec()))]);
    let mut s = CorpusState::new(db);
    let st = s.load_strings(11).unwrap();
    assert_eq!(st._test_gs(5, 9).unwrap(), "there");
    s.cache_strings(11, st).unwrap();
    assert!(matches!(s.load_strings(12), Err(CorpusError::PageNotFoundError(12))));
}

#[test]
fn counters_advance_independently() {
    let mut s = CorpusState::new(ObjectStore::new());
    assert_eq!(s.author_id().unwrap(), 0);
    assert_eq!(s.next_author_id().unwrap(), 1);
    assert_eq!(s.next_author_id().unwrap(), 2);
    assert_eq!(s.author_id().unwrap(), 2);
    assert_eq!(s.next_collection_id().unwrap(), 1);
    assert_eq!(s.next_document_id().unwrap(), 1);
    assert_eq!(s.next_token_id().unwrap(), 1);
    assert_eq!(s.collection_id().unwrap(), 1);
    assert_eq!(s.document_id().unwrap(), 1);
    assert_eq!(s.token_id().unwrap(), 1);
}

#[test]
fn counter_at_maximum_overflows() {
    let mut s = CorpusState::new(ObjectStore::new());
    s.set_counter(Counter::Token, u64::MAX);
    assert!(matches!(s.next_token_id(), Err(CorpusError::IdOverflowError(_))));
    assert_eq!(s.token_id().unwrap(), u64::MAX);
    s.set_counter(Counter::Author, u64::MAX - 1);
    assert_eq!(s.next_author_id().unwrap(), u64::MAX);
    assert!(matches!(s.next_author_id(), Err(CorpusError::IdOverflowError(_))));
}

#[test]
fn object_store_applies_batches_in_order() {
    let mut db = ObjectStore::new();
    db.write_batch(vec![(1, Some(vec![1])), (1, Some(vec![2])), (2, Some(vec![3])), (2, None)]);
    assert_eq!(db.read(1), Some(vec![2]));
    assert_eq!(db.read(2), None);
    assert_eq!(db.fetches(), 2);
}
