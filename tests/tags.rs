use corpus_store::attributes::{PosAttributes, PosAttrs, TokenAttrs};
use corpus_store::labels::{PosLabels, PosLbls};
use corpus_store::tags::{ComposedVocabulary, SequenceTag, Vocabulary, VocabularyError};

#[test]
fn disjoint_vocabulary_round_trips() {
    let v = Vocabulary::new(vec![1, 2, 4, 8, 16]);
    let bits = v.serialize(&[16, 2, 4]);
    assert_eq!(bits, 22);
    assert_eq!(v.deserialize(bits), vec![2, 4, 16]);
    assert_eq!(v.serialize(&[]), 0);
    assert_eq!(v.deserialize(0), Vec::<u128>::new());
}

#[test]
fn overlapping_patterns_report_subsets() {
    let v = Vocabulary::new(vec![1, 3]);
    assert_eq!(v.deserialize(3), vec![1, 3]);
}

#[test]
fn composition_rejects_overlap() {
    let low = Vocabulary::new(vec![1, 2, 4]);
    let high = Vocabulary::new(vec![4, 8]);
    assert_eq!(
        ComposedVocabulary::compose(low, high).unwrap_err(),
        VocabularyError::Overlap
    );
    let low = Vocabulary::new(vec![1, 2, 5]);
    let high = Vocabulary::new(vec![8, 4]);
    assert_eq!(
        ComposedVocabulary::compose(low, high).unwrap_err(),
        VocabularyError::Overlap
    );
    assert_eq!(
        ComposedVocabulary::compose(Vocabulary::new(vec![]), Vocabulary::new(vec![8])).unwrap_err(),
        VocabularyError::Empty
    );
}

#[test]
fn composed_vocabularies_share_one_integer() {
    let low = Vocabulary::new(vec![1, 2, 4]);
    let high = Vocabulary::new(vec![16, 8]);
    let c = ComposedVocabulary::compose(low, high).unwrap();
    let bits = c.serialize(&[SequenceTag::R(8), SequenceTag::L(2)]);
    assert_eq!(bits, 10);
    assert_eq!(c.deserialize(bits), vec![SequenceTag::L(2), SequenceTag::R(8)]);
}

#[test]
fn pos_attributes_codec() {
    let codec = PosAttributes {};
    let bits = codec.serialize(vec![PosAttrs::PosNN, PosAttrs::PosCC]).unwrap();
    assert_eq!(bits, 0x8020_0000_0000_0000);
    assert_eq!(
        codec.deserialize(bits).unwrap(),
        vec![PosAttrs::ZERO, PosAttrs::PosCC, PosAttrs::PosNN]
    );
    assert_eq!(codec.serialize(vec![]).unwrap(), 0);
    assert_eq!(codec.vocabulary().values().len(), 34);
}

#[test]
fn pos_attributes_overlapping_pattern() {
    let codec = PosAttributes {};
    let bits = codec.serialize(vec![PosAttrs::PosWP]).unwrap();
    assert_eq!(
        codec.deserialize(bits).unwrap(),
        vec![PosAttrs::ZERO, PosAttrs::PosWP, PosAttrs::PosWRB]
    );
}

#[test]
fn pos_labels_codec() {
    let codec = PosLabels {};
    assert_eq!(codec.serialize(vec![PosLbls::PosNN]).unwrap(), 0xB000_0000_0000_0000);
    assert_eq!(
        codec.deserialize(0x3000_0000_0000_0000).unwrap(),
        vec![PosLbls::ZERO, PosLbls::PosCC, PosLbls::PosCD, PosLbls::PosDT]
    );
}

#[test]
fn earlier_attribute_numbering() {
    assert_eq!(TokenAttrs::ZERO.value(), 0xFFFF_FFFF);
    assert_eq!(TokenAttrs::PosFW.value(), 32);
}
