//! Tag-sets packed into one 128-bit integer. A vocabulary is an ordered list
//! of tag values; a set of tags is stored as the OR of their values and read
//! back by testing, in vocabulary order, which values are contained in the
//! integer. Two vocabularies with disjoint value ranges can share one integer.
use vstd::prelude::*;

verus! {

/// The OR of all the values.
pub open spec fn or_all(tags: Seq<u128>) -> u128
    decreases tags.len(),
{
    if tags.len() == 0 {
        0
    } else {
        or_all(tags.drop_last()) | tags.last()
    }
}

/// The values of the vocabulary whose bits are all set in `bits`, in
/// vocabulary order.
pub open spec fn matching(vocab: Seq<u128>, bits: u128) -> Seq<u128>
    decreases vocab.len(),
{
    if vocab.len() == 0 {
        Seq::empty()
    } else {
        let prev = matching(vocab.drop_last(), bits);
        if bits & vocab.last() == vocab.last() {
            prev.push(vocab.last())
        } else {
            prev
        }
    }
}

/// The values of the vocabulary that occur among `tags`, in vocabulary order.
pub open spec fn selected(vocab: Seq<u128>, tags: Seq<u128>) -> Seq<u128>
    decreases vocab.len(),
{
    if vocab.len() == 0 {
        Seq::empty()
    } else {
        let prev = selected(vocab.drop_last(), tags);
        if tags.contains(vocab.last()) {
            prev.push(vocab.last())
        } else {
            prev
        }
    }
}

/// Every value is non-zero and no two values of distinct tags share a bit.
pub open spec fn disjoint_bits(vocab: Seq<u128>) -> bool {
    &&& forall|i: int| 0 <= i < vocab.len() ==> #[trigger] vocab[i] != 0
    &&& forall|i: int, j: int|
        0 <= i < vocab.len() && 0 <= j < vocab.len() && i != j ==> #[trigger] vocab[i]
            & #[trigger] vocab[j] == 0
}

pub open spec fn seq_max(s: Seq<u128>) -> u128
    decreases s.len(),
{
    if s.len() == 0 {
        0
    } else if s.len() == 1 {
        s[0]
    } else {
        let m = seq_max(s.drop_last());
        if s.last() > m {
            s.last()
        } else {
            m
        }
    }
}

pub open spec fn seq_min(s: Seq<u128>) -> u128
    decreases s.len(),
{
    if s.len() == 0 {
        0
    } else if s.len() == 1 {
        s[0]
    } else {
        let m = seq_min(s.drop_last());
        if s.last() < m {
            s.last()
        } else {
            m
        }
    }
}

proof fn lemma_or_contains(tags: Seq<u128>, v: u128)
    requires
        tags.contains(v),
    ensures
        or_all(tags) & v == v,
    decreases tags.len(),
{
    let init = tags.drop_last();
    let a = or_all(init);
    let b = tags.last();
    if b == v {
        assert((a | v) & v == v) by (bit_vector);
    } else {
        let i = choose|i: int| 0 <= i < tags.len() && tags[i] == v;
        assert(init[i] == v);
        lemma_or_contains(init, v);
        assert(a & v == v ==> (a | b) & v == v) by (bit_vector);
    }
}

proof fn lemma_or_disjoint(tags: Seq<u128>, v: u128)
    requires
        forall|i: int| 0 <= i < tags.len() ==> #[trigger] tags[i] & v == 0,
    ensures
        or_all(tags) & v == 0,
    decreases tags.len(),
{
    if tags.len() > 0 {
        let init = tags.drop_last();
        assert forall|i: int| 0 <= i < init.len() implies #[trigger] init[i] & v == 0 by {
            assert(init[i] == tags[i]);
        }
        lemma_or_disjoint(init, v);
        let a = or_all(init);
        let b = tags.last();
        assert(b & v == 0);
        assert(a & v == 0 && b & v == 0 ==> (a | b) & v == 0) by (bit_vector);
    } else {
        assert(0u128 & v == 0) by (bit_vector);
    }
}

/// For a vocabulary of disjoint non-zero bit patterns, a tag's bits are all
/// set in the OR of some of its tags exactly when the tag is among them.
proof fn lemma_member_test(vocab: Seq<u128>, tags: Seq<u128>, n: int)
    requires
        disjoint_bits(vocab),
        forall|i: int| 0 <= i < tags.len() ==> vocab.contains(#[trigger] tags[i]),
        0 <= n < vocab.len(),
    ensures
        (or_all(tags) & vocab[n] == vocab[n]) <==> tags.contains(vocab[n]),
{
    let v = vocab[n];
    if tags.contains(v) {
        lemma_or_contains(tags, v);
    } else {
        assert forall|i: int| 0 <= i < tags.len() implies #[trigger] tags[i] & v == 0 by {
            let t = tags[i];
            let j = choose|j: int| 0 <= j < vocab.len() && vocab[j] == t;
            assert(j != n);
            assert(vocab[j] & vocab[n] == 0);
        }
        lemma_or_disjoint(tags, v);
        assert(v != 0);
    }
}

proof fn lemma_same_selection(vocab: Seq<u128>, bits: u128, tags: Seq<u128>)
    requires
        forall|i: int|
            0 <= i < vocab.len() ==> ((bits & #[trigger] vocab[i] == vocab[i]) <==> tags.contains(
                vocab[i],
            )),
    ensures
        matching(vocab, bits) == selected(vocab, tags),
    decreases vocab.len(),
{
    if vocab.len() > 0 {
        let init = vocab.drop_last();
        assert forall|i: int| 0 <= i < init.len() implies ((bits & #[trigger] init[i] == init[i])
            <==> tags.contains(init[i])) by {
            assert(init[i] == vocab[i]);
        }
        lemma_same_selection(init, bits, tags);
        assert(vocab.last() == vocab[vocab.len() - 1]);
    }
}

/// A set of tags drawn from a vocabulary whose tags have disjoint, non-zero
/// bit patterns is read back from its serialized form exactly: the tags of
/// the set, none other, in vocabulary order.
pub proof fn lemma_tags_round_trip(vocab: Seq<u128>, tags: Seq<u128>)
    requires
        disjoint_bits(vocab),
        forall|i: int| 0 <= i < tags.len() ==> vocab.contains(#[trigger] tags[i]),
    ensures
        matching(vocab, or_all(tags)) == selected(vocab, tags),
{
    assert forall|i: int| 0 <= i < vocab.len() implies ((or_all(tags) & #[trigger] vocab[i]
        == vocab[i]) <==> tags.contains(vocab[i])) by {
        lemma_member_test(vocab, tags, i);
    }
    lemma_same_selection(vocab, or_all(tags), tags);
}

/// Why two vocabularies cannot share one integer.
#[derive(Debug, Clone, Copy, PartialEq, Eq, Structural)]
pub enum VocabularyError {
    /// One of the vocabularies has no tags.
    Empty,
    /// The value ranges overlap: the first vocabulary's largest value is not
    /// below the second's smallest.
    Overlap,
}

/// A tag of a composed vocabulary: a value of the first or of the second.
#[derive(Debug, Clone, Copy, PartialEq, Eq, Structural)]
pub enum SequenceTag {
    L(u128),
    R(u128),
}

pub open spec fn tag_value(t: SequenceTag) -> u128 {
    match t {
        SequenceTag::L(v) => v,
        SequenceTag::R(v) => v,
    }
}

/// An ordered list of tag values.
#[derive(Debug, Clone)]
pub struct Vocabulary {
    values: Vec<u128>,
}

impl View for Vocabulary {
    type V = Seq<u128>;

    closed spec fn view(&self) -> Seq<u128> {
        self.values@
    }
}

impl Vocabulary {
    pub fn new(values: Vec<u128>) -> (r: Vocabulary)
        ensures
            r@ == values@,
    {
        Vocabulary { values }
    }

    /// The tag values, in declaration order.
    pub fn values(&self) -> (r: &Vec<u128>)
        ensures
            r@ == self@,
    {
        &self.values
    }

    /// The OR of the tags' values; no tags give zero.
    pub fn serialize(&self, tags: &[u128]) -> (r: u128)
        ensures
            r == or_all(tags@),
    {
        let mut acc: u128 = 0;
        let mut i: usize = 0;
        while i < tags.len()
            invariant
                0 <= i <= tags@.len(),
                acc == or_all(tags@.take(i as int)),
            decreases tags@.len() - i,
        {
            proof {
                let t = tags@.take(i + 1);
                assert(t.drop_last() =~= tags@.take(i as int));
            }
            acc = acc | tags[i];
            i = i + 1;
        }
        assert(tags@.take(tags@.len() as int) =~= tags@);
        acc
    }

    /// The tags whose bits are all set in `bits`, in declaration order.
    pub fn deserialize(&self, bits: u128) -> (r: Vec<u128>)
        ensures
            r@ == matching(self@, bits),
    {
        let mut out: Vec<u128> = Vec::new();
        let mut i: usize = 0;
        while i < self.values.len()
            invariant
                0 <= i <= self@.len(),
                out@ == matching(self@.take(i as int), bits),
            decreases self@.len() - i,
        {
            proof {
                let t = self@.take(i + 1);
                assert(t.drop_last() =~= self@.take(i as int));
            }
            let v = self.values[i];
            if bits & v == v {
                out.push(v);
            }
            i = i + 1;
        }
        assert(self@.take(self@.len() as int) =~= self@);
        out
    }

    /// The largest value, if there is any.
    pub fn max_value(&self) -> (r: Option<u128>)
        ensures
            self@.len() == 0 ==> r is None,
            self@.len() > 0 ==> r == Some(seq_max(self@)),
    {
        if self.values.len() == 0 {
            return None;
        }
        let mut m = self.values[0];
        let mut i: usize = 1;
        while i < self.values.len()
            invariant
                1 <= i <= self@.len(),
                m == seq_max(self@.take(i as int)),
            decreases self@.len() - i,
        {
            proof {
                let t = self@.take(i + 1);
                assert(t.drop_last() =~= self@.take(i as int));
            }
            if self.values[i] > m {
                m = self.values[i];
            }
            i = i + 1;
        }
        assert(self@.take(self@.len() as int) =~= self@);
        Some(m)
    }

    /// The smallest value, if there is any.
    pub fn min_value(&self) -> (r: Option<u128>)
        ensures
            self@.len() == 0 ==> r is None,
            self@.len() > 0 ==> r == Some(seq_min(self@)),
    {
        if self.values.len() == 0 {
            return None;
        }
        let mut m = self.values[0];
        let mut i: usize = 1;
        while i < self.values.len()
            invariant
                1 <= i <= self@.len(),
                m == seq_min(self@.take(i as int)),
            decreases self@.len() - i,
        {
            proof {
                let t = self@.take(i + 1);
                assert(t.drop_last() =~= self@.take(i as int));
            }
            if self.values[i] < m {
                m = self.values[i];
            }
            i = i + 1;
        }
        assert(self@.take(self@.len() as int) =~= self@);
        Some(m)
    }
}

/// Two vocabularies that share one integer, the first's values all below the
/// second's.
#[derive(Debug, Clone)]
pub struct ComposedVocabulary {
    left: Vocabulary,
    right: Vocabulary,
}

impl ComposedVocabulary {
    pub closed spec fn left(&self) -> Seq<u128> {
        self.left@
    }

    pub closed spec fn right(&self) -> Seq<u128> {
        self.right@
    }

    /// The first vocabulary's values lie strictly below the second's.
    pub open spec fn wf(&self) -> bool {
        self.left().len() > 0 && self.right().len() > 0 && seq_max(self.left()) < seq_min(
            self.right(),
        )
    }

    /// Composes two vocabularies, which must both have tags and value ranges
    /// that do not overlap.
    pub fn compose(left: Vocabulary, right: Vocabulary) -> (r: Result<ComposedVocabulary, VocabularyError>)
        ensures
            left@.len() == 0 || right@.len() == 0 ==> r == Err::<ComposedVocabulary, VocabularyError>(
                VocabularyError::Empty,
            ),
            left@.len() > 0 && right@.len() > 0 && seq_max(left@) >= seq_min(right@) ==> r == Err::<
                ComposedVocabulary,
                VocabularyError,
            >(VocabularyError::Overlap),
            left@.len() > 0 && right@.len() > 0 && seq_max(left@) < seq_min(right@) ==> (r matches Ok(
                c,
            ) && c.wf() && c.left() == left@ && c.right() == right@),
    {
        let hi = match left.max_value() {
            Some(v) => v,
            None => {
                return Err(VocabularyError::Empty);
            },
        };
        let lo = match right.min_value() {
            Some(v) => v,
            None => {
                return Err(VocabularyError::Empty);
            },
        };
        if hi >= lo {
            Err(VocabularyError::Overlap)
        } else {
            Ok(ComposedVocabulary { left, right })
        }
    }

    /// The OR of the tags' values.
    pub fn serialize(&self, tags: &[SequenceTag]) -> (r: u128)
        ensures
            r == or_all(tags@.map_values(|t: SequenceTag| tag_value(t))),
    {
        let ghost vals = tags@.map_values(|t: SequenceTag| tag_value(t));
        let mut acc: u128 = 0;
        let mut i: usize = 0;
        while i < tags.len()
            invariant
                0 <= i <= tags@.len(),
                vals == tags@.map_values(|t: SequenceTag| tag_value(t)),
                acc == or_all(vals.take(i as int)),
            decreases tags@.len() - i,
        {
            proof {
                let t = vals.take(i + 1);
                assert(t.drop_last() =~= vals.take(i as int));
            }
            let v = match tags[i] {
                SequenceTag::L(v) => v,
                SequenceTag::R(v) => v,
            };
            acc = acc | v;
            i = i + 1;
        }
        assert(vals.take(vals.len() as int) =~= vals);
        acc
    }

    /// The tags of the first vocabulary whose bits are set in `bits`, then
    /// those of the second, each in declaration order.
    pub fn deserialize(&self, bits: u128) -> (r: Vec<SequenceTag>)
        ensures
            r@ == matching(self.left(), bits).map_values(|v: u128| SequenceTag::L(v)) + matching(
                self.right(),
                bits,
            ).map_values(|v: u128| SequenceTag::R(v)),
    {
        let l = self.left.deserialize(bits);
        let rr = self.right.deserialize(bits);
        let mut out: Vec<SequenceTag> = Vec::new();
        let mut i: usize = 0;
        while i < l.len()
            invariant
                0 <= i <= l@.len(),
                out@ == l@.take(i as int).map_values(|v: u128| SequenceTag::L(v)),
            decreases l@.len() - i,
        {
            out.push(SequenceTag::L(l[i]));
            proof {
                assert(out@ =~= l@.take(i + 1).map_values(|v: u128| SequenceTag::L(v)));
            }
            i = i + 1;
        }
        assert(l@.take(l@.len() as int) =~= l@);
        let ghost first = out@;
        let mut j: usize = 0;
        while j < rr.len()
            invariant
                0 <= j <= rr@.len(),
                out@ == first + rr@.take(j as int).map_values(|v: u128| SequenceTag::R(v)),
            decreases rr@.len() - j,
        {
            out.push(SequenceTag::R(rr[j]));
            proof {
                assert(out@ =~= first + rr@.take(j + 1).map_values(|v: u128| SequenceTag::R(v)));
            }
            j = j + 1;
        }
        assert(rr@.take(rr@.len() as int) =~= rr@);
        out
    }
}

} // verus!
