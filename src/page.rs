//! A page: the entities stored under one page key, ordered by in-page key,
//! and its encoding as a CBOR map from in-page key to entity.
use crate::cbor::{MAP, UNSIGNED, cbor_head, holds_at, lemma_holds_split, put_map, put_u64, take_map, take_u64};
use crate::entities::{CorpusEntity, enc_entity, take_entity};
use crate::error::{CorpusError, CorpusResult};
use vstd::prelude::*;

verus! {

/// The keys of the entries rise strictly.
pub open spec fn sorted_keys(s: Seq<(u64, CorpusEntity)>) -> bool {
    forall|i: int, j: int| 0 <= i < j < s.len() ==> s[i].0 < s[j].0
}

/// The entries with `(k, e)` put in place: after the smaller keys, replacing
/// the entry of the same key if there is one.
pub open spec fn spec_insert(s: Seq<(u64, CorpusEntity)>, k: u64, e: CorpusEntity) -> Seq<
    (u64, CorpusEntity),
>
    decreases s.len(),
{
    if s.len() == 0 {
        seq![(k, e)]
    } else if s[0].0 < k {
        seq![s[0]] + spec_insert(s.drop_first(), k, e)
    } else if s[0].0 == k {
        seq![(k, e)] + s.drop_first()
    } else {
        seq![(k, e)] + s
    }
}

/// The entity stored under key `k`, if any.
pub open spec fn lookup(s: Seq<(u64, CorpusEntity)>, k: u64) -> Option<CorpusEntity>
    decreases s.len(),
{
    if s.len() == 0 {
        None
    } else if s[0].0 == k {
        Some(s[0].1)
    } else {
        lookup(s.drop_first(), k)
    }
}

/// The entries, each an in-page key followed by an entity, without the map head.
pub open spec fn enc_entries(s: Seq<(u64, CorpusEntity)>) -> Seq<u8>
    decreases s.len(),
{
    if s.len() == 0 {
        Seq::empty()
    } else {
        enc_entries(s.drop_last()) + cbor_head(UNSIGNED, s.last().0) + enc_entity(s.last().1)
    }
}

/// The encoding of a page.
pub open spec fn enc_page(s: Seq<(u64, CorpusEntity)>) -> Seq<u8> {
    cbor_head(MAP, s.len() as u64) + enc_entries(s)
}

/// The entities stored under one page key, by ascending in-page key.
#[derive(Debug, Clone)]
pub struct Page {
    entries: Vec<(u64, CorpusEntity)>,
}

impl View for Page {
    type V = Seq<(u64, CorpusEntity)>;

    closed spec fn view(&self) -> Seq<(u64, CorpusEntity)> {
        self.entries@
    }
}

pub proof fn lemma_insert_sorted(s: Seq<(u64, CorpusEntity)>, k: u64, e: CorpusEntity)
    requires
        sorted_keys(s),
    ensures
        sorted_keys(spec_insert(s, k, e)),
        forall|i: int|
            0 <= i < spec_insert(s, k, e).len() ==> #[trigger] spec_insert(s, k, e)[i].0 == k
                || s.contains(spec_insert(s, k, e)[i]),
    decreases s.len(),
{
    if s.len() > 0 {
        if s[0].0 < k {
            let t = s.drop_first();
            lemma_insert_sorted(t, k, e);
            let r = spec_insert(s, k, e);
            assert forall|i: int| 0 <= i < r.len() implies #[trigger] r[i].0 == k || s.contains(
                r[i],
            ) by {
                if i > 0 {
                    assert(r[i] == spec_insert(t, k, e)[i - 1]);
                    if spec_insert(t, k, e)[i - 1].0 != k {
                        let j = choose|j: int| 0 <= j < t.len() && t[j] == spec_insert(t, k, e)[i - 1];
                        assert(s[j + 1] == t[j]);
                    }
                } else {
                    assert(s[0] == r[0]);
                }
            }
            assert forall|i: int, j: int| 0 <= i < j < r.len() implies r[i].0 < r[j].0 by {
                if i == 0 {
                    let x = spec_insert(t, k, e)[j - 1];
                    if x.0 != k {
                        let m = choose|m: int| 0 <= m < t.len() && t[m] == x;
                        assert(s[m + 1] == x);
                    }
                } else {
                    assert(r[i] == spec_insert(t, k, e)[i - 1]);
                    assert(r[j] == spec_insert(t, k, e)[j - 1]);
                }
            }
        } else if s[0].0 == k {
            let r = spec_insert(s, k, e);
            assert forall|i: int| 0 <= i < r.len() implies #[trigger] r[i].0 == k || s.contains(
                r[i],
            ) by {
                if i > 0 {
                    assert(r[i] == s[i]);
                }
            }
            assert forall|i: int, j: int| 0 <= i < j < r.len() implies r[i].0 < r[j].0 by {
                assert(r[j] == s[j]);
                if i > 0 {
                    assert(r[i] == s[i]);
                }
            }
        } else {
            let r = spec_insert(s, k, e);
            assert forall|i: int| 0 <= i < r.len() implies #[trigger] r[i].0 == k || s.contains(
                r[i],
            ) by {
                if i > 0 {
                    assert(r[i] == s[i - 1]);
                }
            }
            assert forall|i: int, j: int| 0 <= i < j < r.len() implies r[i].0 < r[j].0 by {
                assert(r[j] == s[j - 1]);
                if i > 0 {
                    assert(r[i] == s[i - 1]);
                }
            }
        }
    }
}

/// Inserting at the place that a scan for the first key not below `k`
/// finds.
proof fn lemma_insert_at(s: Seq<(u64, CorpusEntity)>, k: u64, e: CorpusEntity, i: int)
    requires
        0 <= i <= s.len(),
        forall|j: int| 0 <= j < i ==> s[j].0 < k,
        i < s.len() ==> s[i].0 >= k,
    ensures
        i < s.len() && s[i].0 == k ==> spec_insert(s, k, e) == s.update(i, (k, e)),
        !(i < s.len() && s[i].0 == k) ==> spec_insert(s, k, e) == s.insert(i, (k, e)),
    decreases i,
{
    if i > 0 {
        let t = s.drop_first();
        lemma_insert_at(t, k, e, i - 1);
        assert(s[0].0 < k);
        if i < s.len() && s[i].0 == k {
            assert(seq![s[0]] + t.update(i - 1, (k, e)) =~= s.update(i, (k, e)));
        } else {
            assert(seq![s[0]] + t.insert(i - 1, (k, e)) =~= s.insert(i, (k, e)));
        }
    } else {
        if s.len() > 0 && s[0].0 == k {
            assert(seq![(k, e)] + s.drop_first() =~= s.update(0, (k, e)));
        } else if s.len() > 0 {
            assert(seq![(k, e)] + s =~= s.insert(0, (k, e)));
        } else {
            assert(seq![(k, e)] =~= s.insert(0, (k, e)));
        }
    }
}

proof fn lemma_lookup_at(s: Seq<(u64, CorpusEntity)>, k: u64, i: int)
    requires
        sorted_keys(s),
        0 <= i <= s.len(),
        forall|j: int| 0 <= j < i ==> s[j].0 < k,
        i < s.len() ==> s[i].0 >= k,
    ensures
        lookup(s, k) == if i < s.len() && s[i].0 == k {
            Some(s[i].1)
        } else {
            None::<CorpusEntity>
        },
    decreases s.len(),
{
    if s.len() > 0 {
        if i > 0 {
            let t = s.drop_first();
            lemma_lookup_at(t, k, i - 1);
        } else if s[0].0 != k {
            lemma_lookup_absent(s, k);
        }
    }
}

proof fn lemma_lookup_absent(s: Seq<(u64, CorpusEntity)>, k: u64)
    requires
        sorted_keys(s),
        s.len() > 0,
        s[0].0 > k,
    ensures
        lookup(s, k) == None::<CorpusEntity>,
    decreases s.len(),
{
    let t = s.drop_first();
    assert(lookup(s, k) == lookup(t, k));
    if s.len() > 1 {
        assert(t[0].0 > k);
        assert(sorted_keys(t)) by {
            assert forall|i: int, j: int| 0 <= i < j < t.len() implies t[i].0 < t[j].0 by {
                assert(t[i] == s[i + 1] && t[j] == s[j + 1]);
            }
        }
        lemma_lookup_absent(t, k);
    } else {
        assert(t.len() == 0);
    }
}

impl Page {
    /// The well-formedness of a page: keys rise strictly.
    pub open spec fn wf(&self) -> bool {
        sorted_keys(self@)
    }

    /// An empty page.
    pub fn new() -> (r: Page)
        ensures
            r@ == Seq::<(u64, CorpusEntity)>::empty(),
            r.wf(),
    {
        Page { entries: Vec::new() }
    }

    /// The number of entities on the page.
    pub fn len(&self) -> (r: usize)
        ensures
            r == self@.len(),
    {
        self.entries.len()
    }

    /// The entries, by ascending in-page key.
    pub fn entries(&self) -> (r: &Vec<(u64, CorpusEntity)>)
        ensures
            r@ == self@,
    {
        &self.entries
    }

    /// The first index whose key is not below `k`.
    fn position(&self, k: u64) -> (i: usize)
        requires
            self.wf(),
        ensures
            i <= self@.len(),
            forall|j: int| 0 <= j < i ==> self@[j].0 < k,
            i < self@.len() ==> self@[i as int].0 >= k,
    {
        let mut i: usize = 0;
        while i < self.entries.len() && self.entries[i].0 < k
            invariant
                i <= self@.len(),
                self@ == self.entries@,
                forall|j: int| 0 <= j < i ==> self@[j].0 < k,
            decreases self@.len() - i,
        {
            i = i + 1;
        }
        i
    }

    /// The entity stored under in-page key `k`.
    pub fn get(&self, k: u64) -> (r: Option<CorpusEntity>)
        requires
            self.wf(),
        ensures
            r == lookup(self@, k),
    {
        let i = self.position(k);
        proof {
            lemma_lookup_at(self@, k, i as int);
        }
        if i < self.entries.len() && self.entries[i].0 == k {
            Some(self.entries[i].1)
        } else {
            None
        }
    }

    /// Stores `e` under in-page key `k`, replacing what was stored there.
    pub fn insert(&mut self, k: u64, e: CorpusEntity)
        requires
            old(self).wf(),
        ensures
            final(self).wf(),
            final(self)@ == spec_insert(old(self)@, k, e),
    {
        let i = self.position(k);
        proof {
            lemma_insert_at(self@, k, e, i as int);
            lemma_insert_sorted(self@, k, e);
        }
        if i < self.entries.len() && self.entries[i].0 == k {
            self.entries.set(i, (k, e));
        } else {
            self.entries.insert(i, (k, e));
        }
    }

    /// The encoding of this page.
    pub fn to_bytes(&self) -> (r: CorpusResult<Vec<u8>>)
        ensures
            r matches Ok(b) && b@ == enc_page(self@),
    {
        let mut out: Vec<u8> = Vec::with_capacity(self.entries.len());
        put_map(&mut out, self.entries.len() as u64);
        let ghost start = out@;
        let mut i: usize = 0;
        while i < self.entries.len()
            invariant
                0 <= i <= self@.len(),
                self@ == self.entries@,
                out@ == start + enc_entries(self@.take(i as int)),
                start == cbor_head(MAP, self@.len() as u64),
            decreases self@.len() - i,
        {
            let (k, e) = self.entries[i];
            put_u64(&mut out, k);
            e.encode_into(&mut out);
            proof {
                let t = self@.take(i + 1);
                assert(t.drop_last() =~= self@.take(i as int));
                assert(out@ =~= start + enc_entries(t));
            }
            i = i + 1;
        }
        assert(self@.take(self@.len() as int) =~= self@);
        Ok(out)
    }
}

proof fn lemma_entries_prefix(b: Seq<u8>, pos: int, s: Seq<(u64, CorpusEntity)>, k: int)
    requires
        0 <= k <= s.len(),
        holds_at(b, pos, enc_entries(s)),
    ensures
        holds_at(b, pos, enc_entries(s.take(k))),
    decreases s.len(),
{
    if k == s.len() {
        assert(s.take(k) =~= s);
    } else {
        let init = s.drop_last();
        let rest = cbor_head(UNSIGNED, s.last().0) + enc_entity(s.last().1);
        assert(enc_entries(s) =~= enc_entries(init) + rest);
        lemma_holds_split(b, pos, enc_entries(init), rest);
        lemma_entries_prefix(b, pos, init, k);
        assert(init.take(k) =~= s.take(k));
    }
}

/// Where a page's map head and its `i`-th entry stand.
proof fn lemma_page_parts(b: Seq<u8>, s: Seq<(u64, CorpusEntity)>, i: int)
    requires
        holds_at(b, 0, enc_page(s)),
        0 <= i < s.len(),
    ensures
        holds_at(b, 0, cbor_head(MAP, s.len() as u64)),
        holds_at(
            b,
            (cbor_head(MAP, s.len() as u64).len() + enc_entries(s.take(i)).len()) as int,
            cbor_head(UNSIGNED, s[i].0),
        ),
        holds_at(
            b,
            (cbor_head(MAP, s.len() as u64).len() + enc_entries(s.take(i)).len() + cbor_head(
                UNSIGNED,
                s[i].0,
            ).len()) as int,
            enc_entity(s[i].1),
        ),
        enc_entries(s.take(i + 1)).len() == enc_entries(s.take(i)).len() + cbor_head(
            UNSIGNED,
            s[i].0,
        ).len() + enc_entity(s[i].1).len(),
{
    let h = cbor_head(MAP, s.len() as u64);
    lemma_holds_split(b, 0, h, enc_entries(s));
    lemma_entries_prefix(b, h.len() as int, s, i + 1);
    let t = s.take(i + 1);
    assert(t.drop_last() =~= s.take(i));
    let x = enc_entries(s.take(i));
    let y = cbor_head(UNSIGNED, s[i].0);
    let z = enc_entity(s[i].1);
    assert(enc_entries(t) == x + y + z);
    lemma_holds_split(b, h.len() as int, x + y, z);
    lemma_holds_split(b, h.len() as int, x, y);
}

/// The page that `b` encodes, read in order; `None` where the entries are not
/// well formed or their keys do not rise.
fn take_page(b: &[u8]) -> (r: Option<(Page, usize)>)
    ensures
        r matches Some((p, end)) ==> p.wf() && end <= b@.len() && p@.len() <= u64::MAX,
        forall|s: Seq<(u64, CorpusEntity)>|
            sorted_keys(s) && s.len() <= u64::MAX && #[trigger] holds_at(b@, 0, enc_page(s)) ==> r is Some && r.unwrap().0@
                == s && r.unwrap().1 == enc_page(s).len(),
{
    let (n, body_start) = match take_map(b, 0) {
        Some(x) => x,
        None => {
            proof {
                assert forall|s: Seq<(u64, CorpusEntity)>|
                    sorted_keys(s) && s.len() <= u64::MAX && #[trigger] holds_at(b@, 0, enc_page(s)) implies false by {
                    lemma_holds_split(b@, 0, cbor_head(MAP, s.len() as u64), enc_entries(s));
                }
            }
            return None;
        },
    };
    proof {
        assert forall|s: Seq<(u64, CorpusEntity)>|
            sorted_keys(s) && s.len() <= u64::MAX && #[trigger] holds_at(b@, 0, enc_page(s)) implies n == s.len() && body_start
                == cbor_head(MAP, s.len() as u64).len() by {
            lemma_holds_split(b@, 0, cbor_head(MAP, s.len() as u64), enc_entries(s));
        }
    }
    let mut page = Page::new();
    let mut p = body_start;
    let mut i: u64 = 0;
    while i < n
        invariant
            0 < body_start <= p <= b@.len(),
            i <= n,
            page@.len() == i,
            page.wf(),
            forall|s: Seq<(u64, CorpusEntity)>|
                sorted_keys(s) && s.len() <= u64::MAX && #[trigger] holds_at(b@, 0, enc_page(s)) ==> n == s.len() && body_start
                    == cbor_head(MAP, s.len() as u64).len(),
            forall|s: Seq<(u64, CorpusEntity)>|
                sorted_keys(s) && s.len() <= u64::MAX && #[trigger] holds_at(b@, 0, enc_page(s)) ==> page@ == s.take(
                    i as int,
                ) && p == body_start + enc_entries(s.take(i as int)).len(),
        decreases n - i,
    {
        let (k, q) = match take_u64(b, p) {
            Some(x) => x,
            None => {
                proof {
                    assert forall|s: Seq<(u64, CorpusEntity)>|
                        sorted_keys(s) && s.len() <= u64::MAX && #[trigger] holds_at(b@, 0, enc_page(s)) implies false by {
                        lemma_page_parts(b@, s, i as int);
                    }
                }
                return None;
            },
        };
        let (e, q2) = match take_entity(b, q) {
            Some(x) => x,
            None => {
                proof {
                    assert forall|s: Seq<(u64, CorpusEntity)>|
                        sorted_keys(s) && s.len() <= u64::MAX && #[trigger] holds_at(b@, 0, enc_page(s)) implies false by {
                        lemma_page_parts(b@, s, i as int);
                    }
                }
                return None;
            },
        };
        if i > 0 && page.entries[page.entries.len() - 1].0 >= k {
            proof {
                assert forall|s: Seq<(u64, CorpusEntity)>|
                    sorted_keys(s) && s.len() <= u64::MAX && #[trigger] holds_at(b@, 0, enc_page(s)) implies false by {
                    lemma_page_parts(b@, s, i as int);
                    assert(page@[i - 1] == s[i - 1]);
                }
            }
            return None;
        }
        let ghost before = page@;
        page.entries.push((k, e));
        proof {
            assert forall|x: int, y: int| 0 <= x < y < page@.len() implies page@[x].0
                < page@[y].0 by {
                if y == i {
                    assert(page@[x] == before[x]);
                }
            }
            assert forall|s: Seq<(u64, CorpusEntity)>|
                sorted_keys(s) && s.len() <= u64::MAX && #[trigger] holds_at(b@, 0, enc_page(s)) implies page@ == s.take(
                    i + 1,
                ) && q2 == body_start + enc_entries(s.take(i + 1)).len() by {
                lemma_page_parts(b@, s, i as int);
                assert(page@ =~= s.take(i + 1));
            }
        }
        p = q2;
        i = i + 1;
    }
    proof {
        assert forall|s: Seq<(u64, CorpusEntity)>|
            sorted_keys(s) && s.len() <= u64::MAX && #[trigger] holds_at(b@, 0, enc_page(s)) implies page@ == s && p
                == enc_page(s).len() by {
            assert(s.take(s.len() as int) =~= s);
        }
    }
    Some((page, p))
}

impl Page {
    /// Decodes a page. Exactly the encodings of well-formed pages are
    /// accepted; anything else is a decoding error.
    pub fn from_bytes(b: &[u8]) -> (r: CorpusResult<Page>)
        ensures
            r matches Ok(p) ==> p.wf() && p@.len() <= u64::MAX && enc_page(p@) == b@,
            forall|s: Seq<(u64, CorpusEntity)>|
                sorted_keys(s) && s.len() <= u64::MAX && #[trigger] enc_page(s) == b@ ==> r is Ok && r.unwrap()@ == s,
            r matches Err(e) ==> e is DecodingError,
    {
        proof {
            assert forall|s: Seq<(u64, CorpusEntity)>|
                sorted_keys(s) && s.len() <= u64::MAX && #[trigger] enc_page(s) == b@ implies holds_at(b@, 0, enc_page(s)) by {
                assert(b@.subrange(0, b@.len() as int) =~= b@);
            }
        }
        match take_page(b) {
            Some((page, _)) => {
                let enc = match page.to_bytes() {
                    Ok(v) => v,
                    Err(e) => {
                        return Err(CorpusError::DecodingError("page".to_string()));
                    },
                };
                if enc.len() == b.len() && crate::entities::bytes_at(b, 0, &enc) {
                    proof {
                        assert(b@.subrange(0, b@.len() as int) =~= b@);
                    }
                    Ok(page)
                } else {
                    proof {
                        assert(b@.subrange(0, b@.len() as int) =~= b@);
                    }
                    Err(CorpusError::DecodingError("page".to_string()))
                }
            },
            None => Err(CorpusError::DecodingError("page".to_string())),
        }
    }
}

} // verus!
