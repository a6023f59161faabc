//! The page store: entities are read through an entity cache filled a whole
//! page at a time, and written in batches that merge into the stored pages.
use crate::entities::{CorpusEntity, address_of, id_of};
use crate::error::{CorpusError, CorpusResult};
use crate::ids::{Id, be_value, page_key_of, split_id};
use crate::page::{Page, enc_page, sorted_keys, spec_insert};
use crate::store::{ObjectStore, apply_batch, bump};
use crate::strings::Strings;
use std::collections::{HashMap, HashSet};
use vstd::prelude::*;

verus! {

/// The identifier that a wire identifier denotes.
pub open spec fn uid(id: Id) -> u128 {
    be_value(id@) as u128
}

/// The low 64 bits of an identifier.
pub open spec fn low_half(id: u128) -> u64 {
    (id % 0x1_0000_0000_0000_0000) as u64
}

/// `b` is the encoding of the well-formed page with entries `s`.
pub open spec fn page_of(b: Seq<u8>, s: Seq<(u64, CorpusEntity)>) -> bool {
    sorted_keys(s) && s.len() <= u64::MAX && enc_page(s) == b
}

/// The entity cache after caching the entries of a page, in key order: each
/// entity is cached under its own identifier, the later replacing the earlier.
pub open spec fn cache_with(m: Map<u128, CorpusEntity>, s: Seq<(u64, CorpusEntity)>) -> Map<
    u128,
    CorpusEntity,
>
    decreases s.len(),
{
    if s.len() == 0 {
        m
    } else {
        cache_with(m, s.drop_last()).insert(id_of(s.last().1), s.last().1)
    }
}

/// Every cached entity is cached under its own identifier.
pub open spec fn cache_keyed_by_id(m: Map<u128, CorpusEntity>) -> bool {
    forall|k: u128| #[trigger] m.contains_key(k) ==> id_of(m[k]) == k
}

pub proof fn lemma_cache_with_keyed(m: Map<u128, CorpusEntity>, s: Seq<(u64, CorpusEntity)>)
    requires
        cache_keyed_by_id(m),
    ensures
        cache_keyed_by_id(cache_with(m, s)),
    decreases s.len(),
{
    if s.len() > 0 {
        lemma_cache_with_keyed(m, s.drop_last());
    }
}

/// What a read of identifier `u` that missed the cache gives, and the cache
/// it leaves: an error for a page that is not stored or does not decode;
/// otherwise the page is cached whole and the entity is looked up again.
pub open spec fn read_miss(
    db: Map<u64, Seq<u8>>,
    cache: Map<u128, CorpusEntity>,
    u: u128,
    r: CorpusResult<CorpusEntity>,
    cache2: Map<u128, CorpusEntity>,
) -> bool {
    let pk = page_key_of(u);
    if !db.contains_key(pk) {
        r == Err::<CorpusEntity, CorpusError>(CorpusError::PageNotFoundError(pk)) && cache2 == cache
    } else {
        &&& (forall|s: Seq<(u64, CorpusEntity)>| !#[trigger] page_of(db[pk], s)) ==> (r matches Err(
            e,
        ) && e is DecodingError && cache2 == cache)
        &&& forall|s: Seq<(u64, CorpusEntity)>| #[trigger]
            page_of(db[pk], s) ==> cache2 == cache_with(cache, s) && if cache2.contains_key(u) {
                r == Ok::<CorpusEntity, CorpusError>(cache2[u])
            } else {
                r == Err::<CorpusEntity, CorpusError>(
                    CorpusError::EntityNotFoundError(pk, low_half(u)),
                )
            }
    }
}

/// `n + k`, saturating at the largest `u64`.
pub open spec fn bumped(n: nat, k: nat) -> nat {
    if n + k < u64::MAX {
        n + k
    } else if n > u64::MAX {
        n
    } else {
        u64::MAX as nat
    }
}

/// The keys of the pages that a batched read fetches: the page of each
/// requested identifier that is not cached, each page once, in order of first
/// need.
pub open spec fn pages_to_fetch(cache: Map<u128, CorpusEntity>, ids: Seq<Id>) -> Seq<u64>
    decreases ids.len(),
{
    if ids.len() == 0 {
        Seq::empty()
    } else {
        let prev = pages_to_fetch(cache, ids.drop_last());
        let u = uid(ids.last());
        if cache.contains_key(u) || prev.contains(page_key_of(u)) {
            prev
        } else {
            prev.push(page_key_of(u))
        }
    }
}

/// The cache after fetching and caching each of the pages in turn, or `None`
/// where one of them is not stored or does not decode.
pub open spec fn fetched_cache(
    db: Map<u64, Seq<u8>>,
    cache: Map<u128, CorpusEntity>,
    pages: Seq<u64>,
) -> Option<Map<u128, CorpusEntity>>
    decreases pages.len(),
{
    if pages.len() == 0 {
        Some(cache)
    } else {
        match fetched_cache(db, cache, pages.drop_last()) {
            None => None,
            Some(c) => {
                let p = pages.last();
                if db.contains_key(p) && exists|s: Seq<(u64, CorpusEntity)>| page_of(db[p], s) {
                    Some(cache_with(c, choose|s: Seq<(u64, CorpusEntity)>| page_of(db[p], s)))
                } else {
                    None
                }
            },
        }
    }
}

proof fn lemma_fetched_none(
    db: Map<u64, Seq<u8>>,
    cache: Map<u128, CorpusEntity>,
    pages: Seq<u64>,
    k: int,
)
    requires
        0 <= k <= pages.len(),
        fetched_cache(db, cache, pages.take(k)) is None,
    ensures
        fetched_cache(db, cache, pages) is None,
    decreases pages.len() - k,
{
    if k < pages.len() {
        let t = pages.take(k + 1);
        assert(t.drop_last() =~= pages.take(k));
        lemma_fetched_none(db, cache, pages, k + 1);
    } else {
        assert(pages.take(k) =~= pages);
    }
}

proof fn lemma_fetched_keyed(
    db: Map<u64, Seq<u8>>,
    cache: Map<u128, CorpusEntity>,
    pages: Seq<u64>,
)
    requires
        cache_keyed_by_id(cache),
    ensures
        fetched_cache(db, cache, pages) matches Some(c) ==> cache_keyed_by_id(c),
    decreases pages.len(),
{
    if pages.len() > 0 {
        lemma_fetched_keyed(db, cache, pages.drop_last());
        if let Some(c) = fetched_cache(db, cache, pages.drop_last()) {
            let p = pages.last();
            if db.contains_key(p) && exists|s: Seq<(u64, CorpusEntity)>| page_of(db[p], s) {
                lemma_cache_with_keyed(
                    c,
                    choose|s: Seq<(u64, CorpusEntity)>| page_of(db[p], s),
                );
            }
        }
    }
}

/// What a batched read gives once its pages are fetched into cache `c`: the
/// cached entity of each identifier in order, or an error for the first
/// identifier that is still not cached.
pub open spec fn batch_outcome(c: Map<u128, CorpusEntity>, ids: Seq<Id>, r: CorpusResult<Vec<CorpusEntity>>) -> bool {
    if forall|i: int| 0 <= i < ids.len() ==> #[trigger] c.contains_key(uid(ids[i])) {
        r matches Ok(v) && v@.len() == ids.len() && forall|i: int|
            0 <= i < ids.len() ==> #[trigger] v@[i] == c[uid(ids[i])]
    } else {
        exists|i: int|
            0 <= i < ids.len() && !#[trigger] c.contains_key(uid(ids[i])) && r == Err::<
                Vec<CorpusEntity>,
                CorpusError,
            >(
                CorpusError::EntityNotFoundError(page_key_of(uid(ids[i])), low_half(uid(ids[i]))),
            )
    }
}

/// The page keys that a write touches, each once, in order of first
/// appearance.
pub open spec fn write_pages(objs: Seq<CorpusEntity>) -> Seq<u64>
    decreases objs.len(),
{
    if objs.len() == 0 {
        Seq::empty()
    } else {
        let prev = write_pages(objs.drop_last());
        let p = address_of(objs.last()).0;
        if prev.contains(p) {
            prev
        } else {
            prev.push(p)
        }
    }
}

/// The entries of page `p` after the entities of the write that belong to it
/// are stored in order, each at its in-page key, the later winning.
pub open spec fn merged(s: Seq<(u64, CorpusEntity)>, objs: Seq<CorpusEntity>, p: u64) -> Seq<
    (u64, CorpusEntity),
>
    decreases objs.len(),
{
    if objs.len() == 0 {
        s
    } else {
        let m = merged(s, objs.drop_last(), p);
        let e = objs.last();
        if address_of(e).0 == p {
            spec_insert(m, address_of(e).1, e)
        } else {
            m
        }
    }
}

/// The page stored under `p` before a write: empty where nothing is stored,
/// `None` where what is stored is not a page.
pub open spec fn base_page(db: Map<u64, Seq<u8>>, p: u64) -> Option<Seq<(u64, CorpusEntity)>> {
    if !db.contains_key(p) {
        Some(Seq::empty())
    } else if exists|s: Seq<(u64, CorpusEntity)>| page_of(db[p], s) {
        Some(choose|s: Seq<(u64, CorpusEntity)>| page_of(db[p], s))
    } else {
        None
    }
}

/// The store after writing `objs` into each of the pages in turn, or `None`
/// where one of them is stored but is not a page.
pub open spec fn written(db: Map<u64, Seq<u8>>, objs: Seq<CorpusEntity>, pages: Seq<u64>) -> Option<
    Map<u64, Seq<u8>>,
>
    decreases pages.len(),
{
    if pages.len() == 0 {
        Some(db)
    } else {
        match written(db, objs, pages.drop_last()) {
            None => None,
            Some(m) => match base_page(db, pages.last()) {
                None => None,
                Some(s) => Some(m.insert(pages.last(), enc_page(merged(s, objs, pages.last())))),
            },
        }
    }
}

proof fn lemma_written_none(
    db: Map<u64, Seq<u8>>,
    objs: Seq<CorpusEntity>,
    pages: Seq<u64>,
    k: int,
)
    requires
        0 <= k <= pages.len(),
        written(db, objs, pages.take(k)) is None,
    ensures
        written(db, objs, pages) is None,
    decreases pages.len() - k,
{
    if k < pages.len() {
        let t = pages.take(k + 1);
        assert(t.drop_last() =~= pages.take(k));
        lemma_written_none(db, objs, pages, k + 1);
    } else {
        assert(pages.take(k) =~= pages);
    }
}

/// The cache with the entries of the written entities dropped.
pub open spec fn invalidated(cache: Map<u128, CorpusEntity>, objs: Seq<CorpusEntity>) -> Map<
    u128,
    CorpusEntity,
>
    decreases objs.len(),
{
    if objs.len() == 0 {
        cache
    } else {
        invalidated(cache, objs.drop_last()).remove(id_of(objs.last()))
    }
}

pub proof fn lemma_invalidated_keyed(cache: Map<u128, CorpusEntity>, objs: Seq<CorpusEntity>)
    requires
        cache_keyed_by_id(cache),
    ensures
        cache_keyed_by_id(invalidated(cache, objs)),
    decreases objs.len(),
{
    if objs.len() > 0 {
        lemma_invalidated_keyed(cache, objs.drop_last());
    }
}

proof fn lemma_insert_len(s: Seq<(u64, CorpusEntity)>, k: u64, e: CorpusEntity)
    ensures
        spec_insert(s, k, e).len() <= s.len() + 1,
        exists|i: int| 0 <= i < spec_insert(s, k, e).len() && spec_insert(s, k, e)[i] == (k, e),
    decreases s.len(),
{
    let r = spec_insert(s, k, e);
    if s.len() == 0 {
        assert(r[0] == (k, e));
    } else if s[0].0 < k {
        let t = s.drop_first();
        lemma_insert_len(t, k, e);
        let i = choose|i: int| 0 <= i < spec_insert(t, k, e).len() && spec_insert(t, k, e)[i] == (k, e);
        assert(r[i + 1] == (k, e));
    } else {
        assert(r[0] == (k, e));
    }
}

/// The cache after a page maps an identifier to the entity of its last entry.
proof fn lemma_cache_with_last(
    m: Map<u128, CorpusEntity>,
    s: Seq<(u64, CorpusEntity)>,
    i: int,
)
    requires
        0 <= i < s.len(),
        forall|j: int| i < j < s.len() ==> id_of(#[trigger] s[j].1) != id_of(s[i].1),
    ensures
        cache_with(m, s).contains_key(id_of(s[i].1)),
        cache_with(m, s)[id_of(s[i].1)] == s[i].1,
    decreases s.len(),
{
    if i < s.len() - 1 {
        let t = s.drop_last();
        assert forall|j: int| i < j < t.len() implies id_of(#[trigger] t[j].1) != id_of(t[i].1) by {
            assert(t[j] == s[j]);
        }
        lemma_cache_with_last(m, t, i);
        assert(id_of(s[s.len() - 1].1) != id_of(s[i].1));
    }
}

/// Writing an entity into a page and reading its identifier back through an
/// empty cache gives the entity: the page written is a well-formed page, and
/// caching it maps the identifier to the entity. This holds where the page
/// holds no other entity of the same identifier after the entity's in-page
/// key (one of another kind, whose later entry would be cached over it).
pub proof fn lemma_write_then_read(base: Seq<(u64, CorpusEntity)>, x: CorpusEntity)
    requires
        sorted_keys(base),
        base.len() < u64::MAX,
        forall|j: int|
            0 <= j < base.len() && base[j].0 > address_of(x).1 ==> id_of(#[trigger] base[j].1)
                != id_of(x),
    ensures
        page_of(
            enc_page(merged(base, seq![x], address_of(x).0)),
            merged(base, seq![x], address_of(x).0),
        ),
        cache_with(Map::empty(), merged(base, seq![x], address_of(x).0)).contains_key(id_of(x)),
        cache_with(Map::empty(), merged(base, seq![x], address_of(x).0))[id_of(x)] == x,
{
    let k = address_of(x).1;
    let p = address_of(x).0;
    let xs = seq![x];
    assert(xs.drop_last() =~= Seq::<CorpusEntity>::empty());
    let s = spec_insert(base, k, x);
    assert(merged(base, Seq::<CorpusEntity>::empty(), p) == base);
    assert(merged(base, xs.drop_last(), p) == base);
    assert(xs.last() == x);
    assert(merged(base, xs, p) == s);
    crate::page::lemma_insert_sorted(base, k, x);
    lemma_insert_len(base, k, x);
    let i = choose|i: int| 0 <= i < s.len() && s[i] == (k, x);
    assert forall|j: int| i < j < s.len() implies id_of(#[trigger] s[j].1) != id_of(s[i].1) by {
        assert(s[j].0 > s[i].0);
        assert(s[j].0 != k);
        assert(base.contains(s[j]));
        let w = choose|w: int| 0 <= w < base.len() && base[w] == s[j];
        assert(base[w].0 > k);
    }
    lemma_cache_with_last(Map::empty(), s, i);
}

/// A batched read of `[a, b, c]` where `a` is cached and `b` and `c` are not
/// but share a page fetches exactly that one page.
pub proof fn lemma_mixed_residency(cache: Map<u128, CorpusEntity>, a: Id, b: Id, c: Id)
    requires
        cache.contains_key(uid(a)),
        !cache.contains_key(uid(b)),
        !cache.contains_key(uid(c)),
        page_key_of(uid(b)) == page_key_of(uid(c)),
    ensures
        pages_to_fetch(cache, seq![a, b, c]) == seq![page_key_of(uid(b))],
{
    let ids = seq![a, b, c];
    assert(ids.drop_last() =~= seq![a, b]);
    assert(ids.drop_last().drop_last() =~= seq![a]);
    assert(ids.drop_last().drop_last().drop_last() =~= Seq::<Id>::empty());
    let one = pages_to_fetch(cache, seq![a]);
    assert(seq![a].drop_last() =~= Seq::<Id>::empty());
    assert(pages_to_fetch(cache, Seq::<Id>::empty()) =~= Seq::<u64>::empty());
    assert(one =~= Seq::<u64>::empty());
    assert(seq![a, b].drop_last() =~= seq![a]);
    assert(!one.contains(page_key_of(uid(b))));
    let two = pages_to_fetch(cache, seq![a, b]);
    assert(two =~= seq![page_key_of(uid(b))]);
    assert(two.contains(page_key_of(uid(c)))) by {
        assert(two[0] == page_key_of(uid(c)));
    }
}

/// The kinds of identifier that the store hands out, one counter each.
#[derive(Debug, Clone, Copy, PartialEq, Eq, Structural)]
pub enum Counter {
    Author,
    Collection,
    Document,
    Token,
}

/// A store of corpus entities over an object store, with its caches and its
/// identifier counters.
#[derive(Debug)]
pub struct CorpusState {
    db: ObjectStore,
    cache: HashMap<u128, CorpusEntity>,
    pages: HashSet<u64>,
    strings_cache: HashMap<u64, Strings>,
    author_id: u64,
    collection_id: u64,
    document_id: u64,
    token_id: u64,
}

impl CorpusState {
    /// The backing object store.
    pub closed spec fn db(&self) -> ObjectStore {
        self.db
    }

    /// The entity cache, by identifier.
    pub closed spec fn cache(&self) -> Map<u128, CorpusEntity> {
        self.cache@
    }

    /// The page keys whose pages have been cached whole.
    pub closed spec fn cached_pages(&self) -> Set<u64> {
        self.pages@
    }

    /// The string blobs cached so far, by key.
    pub closed spec fn cached_strings(&self) -> Map<u64, Seq<u8>> {
        self.strings_cache@.map_values(|s: Strings| s@)
    }

    /// The current value of a counter.
    pub closed spec fn counter(&self, c: Counter) -> u64 {
        match c {
            Counter::Author => self.author_id,
            Counter::Collection => self.collection_id,
            Counter::Document => self.document_id,
            Counter::Token => self.token_id,
        }
    }

    pub open spec fn wf(&self) -> bool {
        cache_keyed_by_id(self.cache())
    }

    /// A store over `db` with empty caches and every counter at zero.
    pub fn new(db: ObjectStore) -> (r: CorpusState)
        ensures
            r.wf(),
            r.db() == db,
            r.cache() == Map::<u128, CorpusEntity>::empty(),
            r.cached_pages() == Set::<u64>::empty(),
            forall|c: Counter| r.counter(c) == 0,
    {
        let r = CorpusState {
            db,
            cache: HashMap::new(),
            pages: HashSet::new(),
            strings_cache: HashMap::new(),
            author_id: 0,
            collection_id: 0,
            document_id: 0,
            token_id: 0,
        };
        assert(r.cache() =~= Map::<u128, CorpusEntity>::empty());
        assert(r.cached_pages() =~= Set::<u64>::empty());
        r
    }

    /// The backing object store.
    pub fn store(&self) -> (r: &ObjectStore)
        ensures
            *r == self.db(),
    {
        &self.db
    }

    /// Gives up the caches and hands back the object store.
    pub fn into_store(self) -> (r: ObjectStore)
        ensures
            r == self.db(),
    {
        self.db
    }

    /// The current value of a counter.
    pub fn current_id(&self, c: Counter) -> (r: CorpusResult<u64>)
        ensures
            r == Ok::<u64, CorpusError>(self.counter(c)),
    {
        match c {
            Counter::Author => Ok(self.author_id),
            Counter::Collection => Ok(self.collection_id),
            Counter::Document => Ok(self.document_id),
            Counter::Token => Ok(self.token_id),
        }
    }

    /// Advances a counter by one and returns its new value; a counter at its
    /// maximum stays there and the call fails.
    pub fn next_id(&mut self, c: Counter) -> (r: CorpusResult<u64>)
        ensures
            final(self).db() == old(self).db(),
            final(self).cache() == old(self).cache(),
            final(self).cached_pages() == old(self).cached_pages(),
            forall|d: Counter| d != c ==> final(self).counter(d) == old(self).counter(d),
            old(self).counter(c) < u64::MAX ==> r == Ok::<u64, CorpusError>(
                (old(self).counter(c) + 1) as u64,
            ) && final(self).counter(c) == old(self).counter(c) + 1,
            old(self).counter(c) == u64::MAX ==> (r matches Err(e) && e is IdOverflowError)
                && final(self).counter(c) == old(self).counter(c),
    {
        let cur = match c {
            Counter::Author => self.author_id,
            Counter::Collection => self.collection_id,
            Counter::Document => self.document_id,
            Counter::Token => self.token_id,
        };
        let next = match cur.checked_add(1) {
            Some(n) => n,
            None => {
                let name = match c {
                    Counter::Author => "Author",
                    Counter::Collection => "Collection",
                    Counter::Document => "Document",
                    Counter::Token => "Token",
                };
                return Err(CorpusError::IdOverflowError(name.to_string()));
            },
        };
        match c {
            Counter::Author => self.author_id = next,
            Counter::Collection => self.collection_id = next,
            Counter::Document => self.document_id = next,
            Counter::Token => self.token_id = next,
        }
        Ok(next)
    }

    pub fn author_id(&self) -> (r: CorpusResult<u64>)
        ensures
            r == Ok::<u64, CorpusError>(self.counter(Counter::Author)),
    {
        self.current_id(Counter::Author)
    }

    pub fn next_author_id(&mut self) -> (r: CorpusResult<u64>)
        ensures
            final(self).db() == old(self).db(),
            final(self).cache() == old(self).cache(),
            forall|d: Counter| d != Counter::Author ==> final(self).counter(d) == old(self).counter(d),
            old(self).counter(Counter::Author) < u64::MAX ==> r == Ok::<u64, CorpusError>(
                (old(self).counter(Counter::Author) + 1) as u64,
            ) && final(self).counter(Counter::Author) == old(self).counter(Counter::Author) + 1,
            old(self).counter(Counter::Author) == u64::MAX ==> (r matches Err(e)
                && e is IdOverflowError) && final(self).counter(Counter::Author) == old(
                self,
            ).counter(Counter::Author),
    {
        self.next_id(Counter::Author)
    }

    pub fn collection_id(&self) -> (r: CorpusResult<u64>)
        ensures
            r == Ok::<u64, CorpusError>(self.counter(Counter::Collection)),
    {
        self.current_id(Counter::Collection)
    }

    pub fn next_collection_id(&mut self) -> (r: CorpusResult<u64>)
        ensures
            final(self).db() == old(self).db(),
            final(self).cache() == old(self).cache(),
            forall|d: Counter|
                d != Counter::Collection ==> final(self).counter(d) == old(self).counter(d),
            old(self).counter(Counter::Collection) < u64::MAX ==> r == Ok::<u64, CorpusError>(
                (old(self).counter(Counter::Collection) + 1) as u64,
            ) && final(self).counter(Counter::Collection) == old(self).counter(
                Counter::Collection,
            ) + 1,
            old(self).counter(Counter::Collection) == u64::MAX ==> (r matches Err(e)
                && e is IdOverflowError) && final(self).counter(Counter::Collection) == old(
                self,
            ).counter(Counter::Collection),
    {
        self.next_id(Counter::Collection)
    }

    pub fn document_id(&self) -> (r: CorpusResult<u64>)
        ensures
            r == Ok::<u64, CorpusError>(self.counter(Counter::Document)),
    {
        self.current_id(Counter::Document)
    }

    pub fn next_document_id(&mut self) -> (r: CorpusResult<u64>)
        ensures
            final(self).db() == old(self).db(),
            final(self).cache() == old(self).cache(),
            forall|d: Counter|
                d != Counter::Document ==> final(self).counter(d) == old(self).counter(d),
            old(self).counter(Counter::Document) < u64::MAX ==> r == Ok::<u64, CorpusError>(
                (old(self).counter(Counter::Document) + 1) as u64,
            ) && final(self).counter(Counter::Document) == old(self).counter(Counter::Document)
                + 1,
            old(self).counter(Counter::Document) == u64::MAX ==> (r matches Err(e)
                && e is IdOverflowError) && final(self).counter(Counter::Document) == old(
                self,
            ).counter(Counter::Document),
    {
        self.next_id(Counter::Document)
    }

    pub fn token_id(&self) -> (r: CorpusResult<u64>)
        ensures
            r == Ok::<u64, CorpusError>(self.counter(Counter::Token)),
    {
        self.current_id(Counter::Token)
    }

    pub fn next_token_id(&mut self) -> (r: CorpusResult<u64>)
        ensures
            final(self).db() == old(self).db(),
            final(self).cache() == old(self).cache(),
            forall|d: Counter| d != Counter::Token ==> final(self).counter(d) == old(self).counter(d),
            old(self).counter(Counter::Token) < u64::MAX ==> r == Ok::<u64, CorpusError>(
                (old(self).counter(Counter::Token) + 1) as u64,
            ) && final(self).counter(Counter::Token) == old(self).counter(Counter::Token) + 1,
            old(self).counter(Counter::Token) == u64::MAX ==> (r matches Err(e)
                && e is IdOverflowError) && final(self).counter(Counter::Token) == old(
                self,
            ).counter(Counter::Token),
    {
        self.next_id(Counter::Token)
    }

    /// Sets a counter, as when reopening a store whose identifiers are in use.
    pub fn set_counter(&mut self, c: Counter, value: u64)
        ensures
            final(self).db() == old(self).db(),
            final(self).cache() == old(self).cache(),
            final(self).cached_pages() == old(self).cached_pages(),
            final(self).counter(c) == value,
            forall|d: Counter| d != c ==> final(self).counter(d) == old(self).counter(d),
    {
        match c {
            Counter::Author => self.author_id = value,
            Counter::Collection => self.collection_id = value,
            Counter::Document => self.document_id = value,
            Counter::Token => self.token_id = value,
        }
    }

    /// The cached entity with this identifier, if any.
    pub fn entity_from_cache(&self, id: Id) -> (r: CorpusResult<Option<CorpusEntity>>)
        ensures
            self.cache().contains_key(uid(id)) ==> r == Ok::<Option<CorpusEntity>, CorpusError>(
                Some(self.cache()[uid(id)]),
            ),
            !self.cache().contains_key(uid(id)) ==> r == Ok::<Option<CorpusEntity>, CorpusError>(
                None,
            ),
    {
        let k = crate::ids::id_to_u128(id);
        match self.cache.get(&k) {
            Some(e) => Ok(Some(*e)),
            None => Ok(None),
        }
    }

    /// Whether the page under this key has been cached whole.
    pub fn page_cached(&self, page_id: u64) -> (r: CorpusResult<bool>)
        ensures
            r == Ok::<bool, CorpusError>(self.cached_pages().contains(page_id)),
    {
        Ok(self.pages.contains(&page_id))
    }

    /// Fetches and decodes the page under `page_id`.
    pub fn load_page(&mut self, page_id: u64) -> (r: CorpusResult<Page>)
        ensures
            final(self).db().contents() == old(self).db().contents(),
            final(self).db().fetch_count() == bump(old(self).db().fetch_count()),
            final(self).cache() == old(self).cache(),
            final(self).cached_pages() == old(self).cached_pages(),
            forall|c: Counter| final(self).counter(c) == old(self).counter(c),
            !old(self).db().contents().contains_key(page_id) ==> r == Err::<Page, CorpusError>(
                CorpusError::PageNotFoundError(page_id),
            ),
            old(self).db().contents().contains_key(page_id) ==> {
                &&& r matches Ok(p) ==> p.wf() && page_of(old(self).db().contents()[page_id], p@)
                &&& r matches Err(e) ==> e is DecodingError
                &&& forall|s: Seq<(u64, CorpusEntity)>| #[trigger]
                    page_of(old(self).db().contents()[page_id], s) ==> (r matches Ok(p) && p@ == s)
            },
    {
        match self.db.read(page_id) {
            Some(raw) => Page::from_bytes(raw.as_slice()),
            None => Err(CorpusError::PageNotFoundError(page_id)),
        }
    }

    /// Caches every entity of a page under its identifier, and marks the page
    /// as cached.
    pub fn cache_page(&mut self, page_id: u64, page: &Page) -> (r: CorpusResult<()>)
        requires
            old(self).wf(),
        ensures
            r is Ok,
            final(self).wf(),
            final(self).db() == old(self).db(),
            final(self).cache() == cache_with(old(self).cache(), page@),
            final(self).cached_pages() == old(self).cached_pages().insert(page_id),
            forall|c: Counter| final(self).counter(c) == old(self).counter(c),
    {
        let entries = page.entries();
        let mut i: usize = 0;
        while i < entries.len()
            invariant
                0 <= i <= entries@.len(),
                entries@ == page@,
                self.db() == old(self).db(),
                self.cached_pages() == old(self).cached_pages(),
                self.cache() == cache_with(old(self).cache(), page@.take(i as int)),
                forall|c: Counter| self.counter(c) == old(self).counter(c),
            decreases entries@.len() - i,
        {
            let e = entries[i].1;
            let k = e.id();
            self.cache.insert(k, e);
            proof {
                let t = page@.take(i + 1);
                assert(t.drop_last() =~= page@.take(i as int));
            }
            i = i + 1;
        }
        self.pages.insert(page_id);
        proof {
            assert(page@.take(page@.len() as int) =~= page@);
            lemma_cache_with_keyed(old(self).cache(), page@);
        }
        Ok(())
    }

    /// Fetches the string blob stored under `strings_page_id`.
    pub fn load_strings(&mut self, strings_page_id: u64) -> (r: CorpusResult<Strings>)
        ensures
            final(self).db().contents() == old(self).db().contents(),
            final(self).db().fetch_count() == bump(old(self).db().fetch_count()),
            final(self).cache() == old(self).cache(),
            final(self).cached_pages() == old(self).cached_pages(),
            forall|c: Counter| final(self).counter(c) == old(self).counter(c),
            !old(self).db().contents().contains_key(strings_page_id) ==> r == Err::<
                Strings,
                CorpusError,
            >(CorpusError::PageNotFoundError(strings_page_id)),
            old(self).db().contents().contains_key(strings_page_id) ==> (r matches Ok(st) && st@
                == old(self).db().contents()[strings_page_id]),
    {
        match self.db.read(strings_page_id) {
            Some(raw) => Ok(Strings::from_bytes(raw.as_slice())),
            None => Err(CorpusError::PageNotFoundError(strings_page_id)),
        }
    }

    /// Caches a string blob under its key.
    pub fn cache_strings(&mut self, strings_page_id: u64, strings: Strings) -> (r: CorpusResult<()>)
        ensures
            r is Ok,
            final(self).db() == old(self).db(),
            final(self).cache() == old(self).cache(),
            final(self).cached_pages() == old(self).cached_pages(),
            final(self).cached_strings() == old(self).cached_strings().insert(
                strings_page_id,
                strings@,
            ),
            forall|c: Counter| final(self).counter(c) == old(self).counter(c),
    {
        self.strings_cache.insert(strings_page_id, strings);
        proof {
            assert(final(self).cached_strings() =~= old(self).cached_strings().insert(
                strings_page_id,
                strings@,
            ));
        }
        Ok(())
    }

    /// Reads one entity: from the cache if it is there, else by fetching its
    /// page, caching all of that page, and looking again.
    pub fn read_obj(&mut self, obj_id: Id) -> (r: CorpusResult<CorpusEntity>)
        requires
            old(self).wf(),
        ensures
            final(self).wf(),
            forall|c: Counter| final(self).counter(c) == old(self).counter(c),
            final(self).db().contents() == old(self).db().contents(),
            old(self).cache().contains_key(uid(obj_id)) ==> r == Ok::<CorpusEntity, CorpusError>(
                old(self).cache()[uid(obj_id)],
            ) && final(self).db() == old(self).db() && final(self).cache() == old(self).cache(),
            !old(self).cache().contains_key(uid(obj_id)) ==> read_miss(
                old(self).db().contents(),
                old(self).cache(),
                uid(obj_id),
                r,
                final(self).cache(),
            ) && final(self).db().fetch_count() == bump(old(self).db().fetch_count()),
    {
        if let Some(entity) = self.entity_from_cache(obj_id)? {
            return Ok(entity);
        }
        let (h, l) = split_id(obj_id)?;
        let page = self.load_page(h)?;
        self.cache_page(h, &page)?;
        match self.entity_from_cache(obj_id)? {
            Some(e) => Ok(e),
            None => Err(CorpusError::EntityNotFoundError(h, l)),
        }
    }

    /// Reads several entities, in the order asked. Every page that an
    /// uncached identifier needs is fetched once, whatever number of
    /// identifiers it serves, and cached whole before the results are
    /// gathered.
    pub fn read_objs(&mut self, obj_ids: &[Id]) -> (r: CorpusResult<Vec<CorpusEntity>>)
        requires
            old(self).wf(),
        ensures
            final(self).wf(),
            forall|c: Counter| final(self).counter(c) == old(self).counter(c),
            final(self).db().contents() == old(self).db().contents(),
            match fetched_cache(
                old(self).db().contents(),
                old(self).cache(),
                pages_to_fetch(old(self).cache(), obj_ids@),
            ) {
                None => r matches Err(e) && (e is PageNotFoundError || e is DecodingError),
                Some(c) => final(self).cache() == c && batch_outcome(c, obj_ids@, r)
                    && final(self).db().fetch_count() == bumped(
                    old(self).db().fetch_count(),
                    pages_to_fetch(old(self).cache(), obj_ids@).len(),
                ),
            },
            r matches Ok(v) ==> forall|i: int|
                0 <= i < obj_ids@.len() ==> id_of(#[trigger] v@[i]) == uid(obj_ids@[i]),
    {
        let ghost c0 = self.cache();
        let ghost db = self.db().contents();
        let mut to_fetch: Vec<u64> = Vec::new();
        let mut i: usize = 0;
        while i < obj_ids.len()
            invariant
                0 <= i <= obj_ids@.len(),
                self.cache() == c0,
                self.wf(),
                self.db() == old(self).db(),
                forall|c: Counter| self.counter(c) == old(self).counter(c),
                to_fetch@ == pages_to_fetch(c0, obj_ids@.take(i as int)),
            decreases obj_ids@.len() - i,
        {
            let u = crate::ids::id_to_u128(obj_ids[i]);
            if !self.cache.contains_key(&u) {
                let pk = (u / crate::ids::PAGE_SHIFT) as u64;
                let mut seen = false;
                let mut j: usize = 0;
                while j < to_fetch.len()
                    invariant
                        0 <= j <= to_fetch@.len(),
                        seen == to_fetch@.take(j as int).contains(pk),
                    decreases to_fetch@.len() - j,
                {
                    let ghost t = to_fetch@.take(j + 1);
                    proof {
                        assert(t =~= to_fetch@.take(j as int).push(to_fetch@[j as int]));
                        assert(t.contains(pk) == (to_fetch@.take(j as int).contains(pk)
                            || to_fetch@[j as int] == pk)) by {
                            if t.contains(pk) {
                                let w = choose|w: int| 0 <= w < t.len() && t[w] == pk;
                                if w < j {
                                    assert(to_fetch@.take(j as int)[w] == pk);
                                }
                            }
                            if to_fetch@[j as int] == pk {
                                assert(t[j as int] == pk);
                            }
                            if to_fetch@.take(j as int).contains(pk) {
                                let w = choose|w: int|
                                    0 <= w < j && to_fetch@.take(j as int)[w] == pk;
                                assert(t[w] == pk);
                            }
                        }
                    }
                    if to_fetch[j] == pk {
                        seen = true;
                    }
                    j = j + 1;
                }
                proof {
                    assert(to_fetch@.take(to_fetch@.len() as int) =~= to_fetch@);
                }
                if !seen {
                    to_fetch.push(pk);
                }
            }
            proof {
                let t = obj_ids@.take(i + 1);
                assert(t.drop_last() =~= obj_ids@.take(i as int));
            }
            i = i + 1;
        }
        proof {
            assert(obj_ids@.take(obj_ids@.len() as int) =~= obj_ids@);
            lemma_fetched_keyed(db, c0, to_fetch@);
        }
        let mut k: usize = 0;
        while k < to_fetch.len()
            invariant
                0 <= k <= to_fetch@.len(),
                to_fetch@ == pages_to_fetch(c0, obj_ids@),
                c0 == old(self).cache(),
                db == old(self).db().contents(),
                self.wf(),
                self.db().contents() == db,
                self.db().fetch_count() == bumped(old(self).db().fetch_count(), k as nat),
                fetched_cache(db, c0, to_fetch@.take(k as int)) == Some(self.cache()),
                forall|c: Counter| self.counter(c) == old(self).counter(c),
            decreases to_fetch@.len() - k,
        {
            let p = to_fetch[k];
            proof {
                let t = to_fetch@.take(k + 1);
                assert(t.drop_last() =~= to_fetch@.take(k as int));
            }
            let page = match self.load_page(p) {
                Ok(page) => page,
                Err(e) => {
                    proof {
                        lemma_fetched_none(db, c0, to_fetch@, k + 1);
                    }
                    return Err(e);
                },
            };
            self.cache_page(p, &page)?;
            k = k + 1;
        }
        proof {
            assert(to_fetch@.take(to_fetch@.len() as int) =~= to_fetch@);
        }
        let ghost c1 = self.cache();
        let ghost f1 = self.db().fetch_count();
        let mut out: Vec<CorpusEntity> = Vec::new();
        let mut i: usize = 0;
        while i < obj_ids.len()
            invariant
                0 <= i <= obj_ids@.len(),
                self.wf(),
                self.cache() == c1,
                self.db().contents() == db,
                self.db().fetch_count() == f1,
                c0 == old(self).cache(),
                db == old(self).db().contents(),
                to_fetch@ == pages_to_fetch(c0, obj_ids@),
                fetched_cache(db, c0, to_fetch@) == Some(c1),
                f1 == bumped(old(self).db().fetch_count(), to_fetch@.len()),
                forall|c: Counter| self.counter(c) == old(self).counter(c),
                out@.len() == i,
                forall|j: int| 0 <= j < i ==> self.cache().contains_key(uid(obj_ids@[j])),
                forall|j: int| 0 <= j < i ==> #[trigger] out@[j] == self.cache()[uid(obj_ids@[j])],
            decreases obj_ids@.len() - i,
        {
            match self.entity_from_cache(obj_ids[i])? {
                Some(e) => out.push(e),
                None => {
                    let (h, l) = split_id(obj_ids[i])?;
                    return Err(CorpusError::EntityNotFoundError(h, l));
                },
            }
            i = i + 1;
        }
        Ok(out)
    }

    /// Writes a batch of entities. The entities are grouped by page; each
    /// touched page is read, merged with its entities (the later of two at one
    /// in-page key wins) and encoded, and all pages are submitted to the store
    /// in one batch. Nothing is submitted if a stored page does not decode. On
    /// success the written entities leave the cache, so that the next read of
    /// them fetches what was written.
    pub fn write_objs(&mut self, objs: &[CorpusEntity]) -> (r: CorpusResult<()>)
        requires
            old(self).wf(),
        ensures
            final(self).wf(),
            forall|c: Counter| final(self).counter(c) == old(self).counter(c),
            match written(old(self).db().contents(), objs@, write_pages(objs@)) {
                None => (r matches Err(e) && e is DecodingError) && final(self).db().contents()
                    == old(self).db().contents() && final(self).cache() == old(self).cache(),
                Some(m) => r is Ok && final(self).db().contents() == m && final(self).cache()
                    == invalidated(old(self).cache(), objs@) && final(self).db().fetch_count()
                    == bumped(old(self).db().fetch_count(), write_pages(objs@).len()),
            },
    {
        let ghost db = self.db().contents();
        let mut pages: Vec<u64> = Vec::new();
        let mut i: usize = 0;
        while i < objs.len()
            invariant
                0 <= i <= objs@.len(),
                pages@ == write_pages(objs@.take(i as int)),
            decreases objs@.len() - i,
        {
            let pk = objs[i].page_id();
            let mut seen = false;
            let mut j: usize = 0;
            while j < pages.len()
                invariant
                    0 <= j <= pages@.len(),
                    seen == pages@.take(j as int).contains(pk),
                decreases pages@.len() - j,
            {
                let ghost t = pages@.take(j + 1);
                proof {
                    assert(t =~= pages@.take(j as int).push(pages@[j as int]));
                    assert(t.contains(pk) == (pages@.take(j as int).contains(pk) || pages@[j as int]
                        == pk)) by {
                        if t.contains(pk) {
                            let w = choose|w: int| 0 <= w < t.len() && t[w] == pk;
                            if w < j {
                                assert(pages@.take(j as int)[w] == pk);
                            }
                        }
                        if pages@[j as int] == pk {
                            assert(t[j as int] == pk);
                        }
                        if pages@.take(j as int).contains(pk) {
                            let w = choose|w: int| 0 <= w < j && pages@.take(j as int)[w] == pk;
                            assert(t[w] == pk);
                        }
                    }
                }
                if pages[j] == pk {
                    seen = true;
                }
                j = j + 1;
            }
            proof {
                assert(pages@.take(pages@.len() as int) =~= pages@);
                let t = objs@.take(i + 1);
                assert(t.drop_last() =~= objs@.take(i as int));
            }
            if !seen {
                pages.push(pk);
            }
            i = i + 1;
        }
        proof {
            assert(objs@.take(objs@.len() as int) =~= objs@);
        }
        let mut batch: Vec<(u64, Option<Vec<u8>>)> = Vec::new();
        let mut k: usize = 0;
        while k < pages.len()
            invariant
                0 <= k <= pages@.len(),
                pages@ == write_pages(objs@),
                db == old(self).db().contents(),
                self.db().contents() == db,
                self.db().fetch_count() == bumped(old(self).db().fetch_count(), k as nat),
                self.cache() == old(self).cache(),
                self.cached_pages() == old(self).cached_pages(),
                self.wf(),
                forall|c: Counter| self.counter(c) == old(self).counter(c),
                written(db, objs@, pages@.take(k as int)) == Some(apply_batch(db, batch@)),
            decreases pages@.len() - k,
        {
            let p = pages[k];
            proof {
                let t = pages@.take(k + 1);
                assert(t.drop_last() =~= pages@.take(k as int));
            }
            let mut page = match self.db.read(p) {
                Some(raw) => match Page::from_bytes(raw.as_slice()) {
                    Ok(page) => {
                        proof {
                            assert(page_of(db[p], page@));
                            let s = choose|s: Seq<(u64, CorpusEntity)>| page_of(db[p], s);
                            assert(page_of(db[p], s));
                            assert(s == page@);
                        }
                        page
                    },
                    Err(e) => {
                        proof {
                            lemma_written_none(db, objs@, pages@, k + 1);
                        }
                        return Err(e);
                    },
                },
                None => Page::new(),
            };
            let ghost base = page@;
            let mut j: usize = 0;
            while j < objs.len()
                invariant
                    0 <= j <= objs@.len(),
                    page.wf(),
                    page@ == merged(base, objs@.take(j as int), p),
                decreases objs@.len() - j,
            {
                let (pk, ik) = objs[j].obj_id();
                if pk == p {
                    page.insert(ik, objs[j]);
                }
                proof {
                    let t = objs@.take(j + 1);
                    assert(t.drop_last() =~= objs@.take(j as int));
                }
                j = j + 1;
            }
            proof {
                assert(objs@.take(objs@.len() as int) =~= objs@);
            }
            let bytes = page.to_bytes()?;
            let ghost before = batch@;
            batch.push((p, Some(bytes)));
            proof {
                assert(batch@.drop_last() =~= before);
            }
            k = k + 1;
        }
        proof {
            assert(pages@.take(pages@.len() as int) =~= pages@);
        }
        self.db.write_batch(batch);
        let ghost after = self.db();
        let mut i: usize = 0;
        while i < objs.len()
            invariant
                0 <= i <= objs@.len(),
                self.db() == after,
                self.cache() == invalidated(old(self).cache(), objs@.take(i as int)),
                cache_keyed_by_id(old(self).cache()),
                forall|c: Counter| self.counter(c) == old(self).counter(c),
            decreases objs@.len() - i,
        {
            let u = objs[i].id();
            self.cache.remove(&u);
            self.pages.remove(&objs[i].page_id());
            proof {
                let t = objs@.take(i + 1);
                assert(t.drop_last() =~= objs@.take(i as int));
            }
            i = i + 1;
        }
        proof {
            assert(objs@.take(objs@.len() as int) =~= objs@);
            lemma_invalidated_keyed(old(self).cache(), objs@);
        }
        Ok(())
    }
}

impl Default for CorpusState {
    /// A store over an empty object store.
    fn default() -> (r: CorpusState)
        ensures
            r.wf(),
            r.db().contents() == Map::<u64, Seq<u8>>::empty(),
            r.cache() == Map::<u128, CorpusEntity>::empty(),
            forall|c: Counter| r.counter(c) == 0,
    {
        CorpusState::new(ObjectStore::new())
    }
}

} // verus!
