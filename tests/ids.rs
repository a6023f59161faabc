use corpus_store::ids::{id_to_u128, obj_id, parse_obj_id, pf, split_id, u128_id, ObjType};
use corpus_store::CorpusError;

#[test]
fn test_obj_id() {
    let token_id = 0x0000_0000_0000_0001u128;
    let obj_type = ObjType::Token;
    let (oh, ol) = obj_id(token_id, obj_type);
    assert_eq!(oh, 0x0000_0000_0000_0000);
    assert_eq!(ol, 0x3000_0000_0000_0001);
}

#[test]
fn obj_id_overwrites_kind_nibble() {
    let id = 0x0123_4567_89ab_cdef_f000_0000_0000_0042u128;
    let (page, key) = obj_id(id, ObjType::Document);
    assert_eq!(page, 0x0123_4567_89ab_cdef);
    assert_eq!(key, 0x2000_0000_0000_0042);
    assert_eq!(parse_obj_id(key).unwrap(), ObjType::Document);
}

#[test]
fn obj_id_of_zero_is_page_zero() {
    assert_eq!(obj_id(0, ObjType::Author), (0, 0));
}

#[test]
fn parse_kind_of_every_address() {
    let kinds = [
        ObjType::Author,
        ObjType::Collection,
        ObjType::Document,
        ObjType::Token,
        ObjType::StringRef,
    ];
    for id in [0u128, 1, u128::MAX, 0xffff_0000_ffff_0000_ffff_0000_ffff_0000] {
        for k in kinds {
            let (_, key) = obj_id(id, k);
            assert_eq!(parse_obj_id(key).unwrap(), k);
        }
    }
}

#[test]
fn parse_kind_rejects_unknown_nibble() {
    assert_eq!(
        parse_obj_id(0x5000_0000_0000_0000),
        Err(CorpusError::InvalidEntityTypeError)
    );
    assert_eq!(
        parse_obj_id(0xf000_0000_0000_0001),
        Err(CorpusError::InvalidEntityTypeError)
    );
}

#[test]
fn ids_read_big_endian() {
    let mut id = [0u8; 16];
    id[0] = 0x01;
    id[15] = 0x02;
    assert_eq!(u128_id(&id), (1u128 << 120) | 2);
    assert_eq!(id_to_u128(id), (1u128 << 120) | 2);
    assert_eq!(split_id(id).unwrap(), (0x0100_0000_0000_0000, 2));
    assert_eq!(u128_id(&[0xff; 16]), u128::MAX);
}

#[test]
fn partition_hint_is_top_byte_shifted() {
    assert_eq!(pf(0x4100_0000_0000_0000, 10), 0x82);
    assert_eq!(pf(0xff00_0000_0000_0000, 0), 0xfe);
    assert_eq!(pf(0x00ff_ffff_ffff_ffff, 0), 0);
}
