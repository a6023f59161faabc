use corpus_store::layout::uuid_path;
use std::path::{Path, PathBuf};

#[test]
fn test_uuid_path_max() {
    let v = u128::MAX;
    let expected_path = Path::new(format!("{m}/{m}/{m}", m = 0xFFFFFFFFu32).as_str()).to_path_buf();
    assert_eq!(PathBuf::from(uuid_path(&v).unwrap()), expected_path);
}

#[test]
fn test_uuid_path_other() {
    let v: u128 = u128::MAX - 0x000000F0;
    let expected_path = Path::new(format!("{m}/{m}/{m}", m = 0xFFFFFFFFu32).as_str()).to_path_buf();
    assert_eq!(PathBuf::from(uuid_path(&v).unwrap()), expected_path);
}

#[test]
fn uuid_path_uses_first_three_words() {
    let v: u128 = 0x0000_0001_0000_0002_0000_0003_0000_0004;
    assert_eq!(uuid_path(&v).unwrap(), "1/2/3");
    assert_eq!(uuid_path(&0).unwrap(), "0/0/0");
}
