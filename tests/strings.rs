use corpus_store::entities::StringRef;
use corpus_store::strings::Strings;
use corpus_store::{CorpusError, CorpusResult};

#[test]
fn strings_append() {
    let mut s = Strings::default();
    let t: &[u8] = "hello".as_bytes();
    s.append(t);
    assert_eq!(s._test_contents(), t);
}

#[test]
fn strings_get_string() -> CorpusResult<()> {
    let s = Strings::_test_from_str("hellothere");
    assert_eq!(s._test_gs(5, 9)?, String::from("there"));
    Ok(())
}

#[test]
fn strings_get_string_oob() {
    let s = Strings::_test_from_str("hellothere");
    match s._test_gs(6, 10) {
        Ok(_) => panic!("oob test failed"),
        Err(CorpusError::StringNotFoundError(st, en)) if st == 6 && en == 10 => (),
        Err(e) => panic!("oob test wrong error {e:?}"),
    }
}

#[test]
fn strings_get_string_non_utf8() {
    let s = Strings::_test_from_vec(vec![0xc0; 10]);
    match s._test_gs(5, 9) {
        Ok(s) => panic!("non_utf8 test failed, got {s:?}"),
        Err(CorpusError::InvalidStringError(st, en)) if st == 5 && en == 9 => (),
        Err(e) => panic!("non_utf8 test wrong error {e:?}"),
    }
}

#[test]
fn strings_strings_append() {
    let mut s = Strings::default();
    let t: &[u8] = "hello".as_bytes();
    s.append(t);
    assert_eq!(s._test_contents(), t);
}

#[test]
fn strings_strings_get_string() -> CorpusResult<()> {
    let s = Strings::_test_from_str("hellothere");
    assert_eq!(s._test_gs(5, 9)?, String::from("there"));
    Ok(())
}

#[test]
fn strings_strings_get_string_oob() {
    let s = Strings::_test_from_str("hellothere");
    match s._test_gs(6, 10) {
        Ok(_) => panic!("oob test failed"),
        Err(CorpusError::StringNotFoundError(st, en)) if st == 6 && en == 10 => (),
        Err(e) => panic!("oob test wrong error {e:?}"),
    }
}

#[test]
fn strings_strings_get_string_non_utf8() {
    let s = Strings::_test_from_vec(vec![0xc0; 10]);
    match s._test_gs(5, 9) {
        Ok(s) => panic!("non_utf8 test failed, got {s:?}"),
        Err(CorpusError::InvalidStringError(st, en)) if st == 5 && en == 9 => (),
        Err(e) => panic!("non_utf8 test wrong error {e:?}"),
    }
}

#[test]
fn span_resolves_inclusive_of_its_end() {
    let mut s = Strings::new();
    s.append("hellothere".as_bytes());
    assert_eq!(s.len(), 10);
    assert_eq!(s.get_string(&StringRef::new(5, 4)).unwrap(), "there");
    assert_eq!(s.get_string(&StringRef::new(0, 4)).unwrap(), "hello");
    assert_eq!(
        s.get_string(&StringRef::new(6, 4)),
        Err(CorpusError::StringNotFoundError(6, 10))
    );
}

#[test]
fn span_bytes_and_text_agree() {
    let s = Strings::from_bytes("hello there".as_bytes());
    assert_eq!(s.get_bytes(&StringRef::new(6, 4)).unwrap(), b"there".to_vec());
    assert_eq!(StringRef::new(6, 4).hydrate(&s).unwrap(), "there");
}

#[test]
fn span_past_usize_overflows() {
    let r = StringRef::new(u64::MAX, 1);
    assert_eq!(r.start().unwrap(), u64::MAX as usize);
    assert_eq!(r.end(), Err(CorpusError::StringNotFoundError(u64::MAX, 1)));
    let s = Strings::new();
    assert_eq!(
        s.get_string(&r),
        Err(CorpusError::StringNotFoundError(u64::MAX, 1))
    );
}

#[test]
fn multibyte_text_round_trips() {
    let s = Strings::_test_from_str("naïve");
    assert_eq!(s._test_gs(0, 5).unwrap(), "naïve");
    assert_eq!(s._test_gs(2, 2), Err(CorpusError::InvalidStringError(2, 2)));
}
