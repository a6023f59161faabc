use corpus_store::entities::{CorpusEntity, StringRef};
use corpus_store::page::Page;
use corpus_store::CorpusError;

fn span(n: u64) -> CorpusEntity {
    CorpusEntity::StringRef(StringRef::new(n, n + 1))
}

#[test]
fn page_round_trip_is_ordered() {
    let mut p = Page::new();
    p.insert(3, span(3));
    p.insert(1, span(1));
    p.insert(2, span(2));
    let bytes = p.to_bytes().unwrap();
    let q = Page::from_bytes(&bytes).unwrap();
    let keys: Vec<u64> = q.entries().iter().map(|e| e.0).collect();
    assert_eq!(keys, vec![1, 2, 3]);
    assert_eq!(q.get(2), Some(span(2)));
    assert_eq!(q.get(4), None);
    assert_eq!(q.len(), 3);
}

#[test]
fn insert_replaces_same_key() {
    let mut p = Page::new();
    p.insert(7, span(1));
    p.insert(7, span(2));
    assert_eq!(p.len(), 1);
    assert_eq!(p.get(7), Some(span(2)));
}

#[test]
fn empty_page_round_trips() {
    let p = Page::new();
    let bytes = p.to_bytes().unwrap();
    assert_eq!(bytes, vec![0xa0]);
    assert_eq!(Page::from_bytes(&bytes).unwrap().len(), 0);
}

#[test]
fn page_with_descending_keys_is_rejected() {
    let mut a = Page::new();
    a.insert(2, span(2));
    let mut b = Page::new();
    b.insert(1, span(1));
    let ea = a.to_bytes().unwrap();
    let eb = b.to_bytes().unwrap();
    // a two-entry map holding key 2 before key 1
    let mut bytes = vec![0xa2];
    bytes.extend_from_slice(&ea[1..]);
    bytes.extend_from_slice(&eb[1..]);
    assert!(matches!(Page::from_bytes(&bytes), Err(CorpusError::DecodingError(_))));
}

#[test]
fn truncated_page_is_rejected() {
    let mut p = Page::new();
    p.insert(1, span(1));
    let bytes = p.to_bytes().unwrap();
    assert!(matches!(
        Page::from_bytes(&bytes[..bytes.len() - 1]),
        Err(CorpusError::DecodingError(_))
    ));
}
