//! The streaming cache: an expiring, in-memory mapping from artifact
//! identifier to byte buffer.
//!
//! Each entry carries an expiration tick; every access (open or ranged read)
//! pushes the expiration forward by the cache's time-to-live, and a sweep
//! removes every entry whose expiration has passed. Time enters as a plain
//! tick count supplied by the caller, so the semantics of every operation is
//! a pure function of the arguments. The host is expected to serialize all
//! access behind one lock covering the whole mapping, entries included, and
//! to hand every operation a tick from one monotonic clock.

use vstd::prelude::*;
use vstd::slice::{slice_subrange, slice_to_vec};

verus! {

/// One cached artifact: its bytes and the tick at which it expires.
pub struct CacheEntry {
    pub data: Vec<u8>,
    pub expires_at: u64,
}

/// Errors a ranged read can produce: the identifier has no open entry, or
/// the requested start lies at or beyond the end of the data.
#[derive(Debug, Clone, Copy, PartialEq, Eq, Structural)]
pub enum StreamError {
    NotFound,
    BadRequest,
}

/// The mathematical content of the cache: identifier to (bytes, expiration).
pub type CacheView = Map<Seq<char>, (Seq<u8>, u64)>;

/// The (bytes, expiration) pair a stored entry stands for.
spec fn entry_val(p: (String, CacheEntry)) -> (Seq<u8>, u64) {
    (p.1.data@, p.1.expires_at)
}

/// No two stored entries share an identifier.
spec fn distinct_keys(s: Seq<(String, CacheEntry)>) -> bool {
    forall|i: int, j: int| 0 <= i < j < s.len() ==> s[i].0@ != s[j].0@
}

/// The mapping an entry list stands for; a later entry would shadow an
/// earlier one, but `distinct_keys` rules that out.
spec fn assoc_view(s: Seq<(String, CacheEntry)>) -> CacheView
    decreases s.len(),
{
    if s.len() == 0 {
        Map::empty()
    } else {
        assoc_view(s.drop_last()).insert(s.last().0@, entry_val(s.last()))
    }
}

/// A key is in the view exactly when some entry carries it.
proof fn lemma_view_contains(s: Seq<(String, CacheEntry)>)
    ensures
        forall|k: Seq<char>|
            #[trigger] assoc_view(s).contains_key(k) <==> (exists|i: int|
                0 <= i < s.len() && #[trigger] s[i].0@ == k),
    decreases s.len(),
{
    if s.len() > 0 {
        lemma_view_contains(s.drop_last());
        assert forall|k: Seq<char>| #[trigger] assoc_view(s).contains_key(k) implies (exists|i: int|
            0 <= i < s.len() && #[trigger] s[i].0@ == k) by {
            if k == s.last().0@ {
                assert(s[s.len() - 1].0@ == k);
            } else {
                assert(assoc_view(s.drop_last()).contains_key(k));
                let i = choose|i: int| 0 <= i < s.drop_last().len() && #[trigger] s.drop_last()[i].0@ == k;
                assert(s.drop_last()[i] == s[i]);
                assert(s[i].0@ == k);
            }
        }
        assert forall|k: Seq<char>| (exists|i: int|
            0 <= i < s.len() && #[trigger] s[i].0@ == k) implies #[trigger] assoc_view(s).contains_key(k) by {
            let i = choose|i: int| 0 <= i < s.len() && #[trigger] s[i].0@ == k;
            if i < s.len() - 1 {
                assert(s.drop_last()[i].0@ == k);
                assert(assoc_view(s.drop_last()).contains_key(k));
            } else {
                assert(k == s.last().0@);
            }
        }
    }
}

/// Under distinct keys, the view maps each entry's identifier to that
/// entry's content.
proof fn lemma_view_at(s: Seq<(String, CacheEntry)>, i: int)
    requires
        distinct_keys(s),
        0 <= i < s.len(),
    ensures
        assoc_view(s).contains_key(s[i].0@),
        assoc_view(s)[s[i].0@] == entry_val(s[i]),
    decreases s.len(),
{
    if i == s.len() - 1 {
    } else {
        assert(distinct_keys(s.drop_last()));
        lemma_view_at(s.drop_last(), i);
        assert(s.drop_last()[i] == s[i]);
        assert(s[i].0@ != s.last().0@);
    }
}

/// Replacing the entry at `i` by one with the same identifier updates just
/// that identifier's value in the view.
proof fn lemma_view_update(s: Seq<(String, CacheEntry)>, i: int, p: (String, CacheEntry))
    requires
        distinct_keys(s),
        0 <= i < s.len(),
        p.0@ == s[i].0@,
    ensures
        distinct_keys(s.update(i, p)),
        assoc_view(s.update(i, p)) == assoc_view(s).insert(p.0@, entry_val(p)),
{
    let t = s.update(i, p);
    assert(distinct_keys(t));
    lemma_view_contains(s);
    lemma_view_contains(t);
    assert forall|k: Seq<char>| #[trigger] assoc_view(t).contains_key(k)
        <==> assoc_view(s).insert(p.0@, entry_val(p)).contains_key(k) by {
        if assoc_view(t).contains_key(k) {
            let j = choose|j: int| 0 <= j < t.len() && #[trigger] t[j].0@ == k;
            if j != i {
                assert(s[j].0@ == k);
            }
        }
        if k != p.0@ && assoc_view(s).contains_key(k) {
            let j = choose|j: int| 0 <= j < s.len() && #[trigger] s[j].0@ == k;
            assert(j != i);
            assert(t[j].0@ == k);
        }
        if k == p.0@ {
            assert(t[i].0@ == k);
        }
    }
    assert forall|k: Seq<char>| assoc_view(t).contains_key(k) implies #[trigger] assoc_view(t)[k]
        == assoc_view(s).insert(p.0@, entry_val(p))[k] by {
        let j = choose|j: int| 0 <= j < t.len() && #[trigger] t[j].0@ == k;
        lemma_view_at(t, j);
        if k == p.0@ {
            assert(j == i);
        } else {
            assert(j != i);
            assert(t[j] == s[j]);
            lemma_view_at(s, j);
        }
    }
    assert(assoc_view(t) =~= assoc_view(s).insert(p.0@, entry_val(p)));
}

/// Appending an entry with a fresh identifier inserts it into the view.
proof fn lemma_view_push(s: Seq<(String, CacheEntry)>, p: (String, CacheEntry))
    requires
        distinct_keys(s),
        forall|j: int| 0 <= j < s.len() ==> s[j].0@ != p.0@,
    ensures
        distinct_keys(s.push(p)),
        assoc_view(s.push(p)) == assoc_view(s).insert(p.0@, entry_val(p)),
{
    let t = s.push(p);
    assert(forall|j: int| 0 <= j < s.len() ==> t[j] == s[j]);
    assert(distinct_keys(t));
    assert(t.drop_last() =~= s);
    assert(t.last() == p);
}

/// Removing the entry at `i` removes exactly its identifier from the view.
proof fn lemma_view_remove(s: Seq<(String, CacheEntry)>, i: int)
    requires
        distinct_keys(s),
        0 <= i < s.len(),
    ensures
        distinct_keys(s.remove(i)),
        assoc_view(s.remove(i)) == assoc_view(s).remove(s[i].0@),
{
    let t = s.remove(i);
    assert forall|a: int, b: int| 0 <= a < b < t.len() implies t[a].0@ != t[b].0@ by {
        assert(t[a] == if a < i { s[a] } else { s[a + 1] });
        assert(t[b] == if b < i { s[b] } else { s[b + 1] });
    }
    lemma_view_contains(s);
    lemma_view_contains(t);
    assert forall|k: Seq<char>| #[trigger] assoc_view(t).contains_key(k)
        <==> assoc_view(s).remove(s[i].0@).contains_key(k) by {
        if k != s[i].0@ {
            if assoc_view(t).contains_key(k) {
                let j = choose|j: int| 0 <= j < t.len() && #[trigger] t[j].0@ == k;
                assert(t[j] == if j < i { s[j] } else { s[j + 1] });
            }
            if assoc_view(s).contains_key(k) {
                let j = choose|j: int| 0 <= j < s.len() && #[trigger] s[j].0@ == k;
                assert(j != i);
                if j < i {
                    assert(t[j].0@ == k);
                } else {
                    assert(t[j - 1].0@ == k);
                }
            }
        } else {
            if assoc_view(t).contains_key(k) {
                let j = choose|j: int| 0 <= j < t.len() && #[trigger] t[j].0@ == k;
                assert(t[j] == if j < i { s[j] } else { s[j + 1] });
                assert(false);
            }
        }
    }
    assert forall|k: Seq<char>| assoc_view(t).contains_key(k) implies #[trigger] assoc_view(t)[k]
        == assoc_view(s).remove(s[i].0@)[k] by {
        let j = choose|j: int| 0 <= j < t.len() && #[trigger] t[j].0@ == k;
        lemma_view_at(t, j);
        assert(t[j] == if j < i { s[j] } else { s[j + 1] });
        if j < i {
            lemma_view_at(s, j);
        } else {
            lemma_view_at(s, j + 1);
        }
    }
    assert(assoc_view(t) =~= assoc_view(s).remove(s[i].0@));
}

/// An entry's value after an access: same bytes, expiration moved to
/// `expiry`.
pub open spec fn bumped(m: CacheView, k: Seq<char>, expiry: u64) -> CacheView
    recommends
        m.contains_key(k),
{
    m.insert(k, (m[k].0, expiry))
}

/// What remains after a sweep at tick `now`: exactly the entries whose
/// expiration still lies in the future, unchanged.
pub open spec fn swept(m: CacheView, now: u64) -> CacheView {
    Map::<Seq<char>, (Seq<u8>, u64)>::new(
        |k: Seq<char>| m.contains_key(k) && m[k].1 > now,
        |k: Seq<char>| m[k],
    )
}

/// The first byte a ranged read asks for; an omitted start means the
/// beginning.
pub open spec fn read_start(start: Option<usize>) -> int {
    match start {
        Some(s) => s as int,
        None => 0,
    }
}

/// One past the last byte a ranged read returns: an omitted length means
/// everything to the end, and an overlong length is truncated to the end.
pub open spec fn read_end(len: int, start: int, length: Option<usize>) -> int {
    match length {
        Some(l) => if start + l < len {
            start + l
        } else {
            len
        },
        None => len,
    }
}

/// The outcome of a ranged read against cache content `m`: `NotFound` when
/// the identifier has no entry, `BadRequest` when the start lies at or past
/// the end of the data, and otherwise the byte window `[start, end)`.
pub open spec fn read_result(
    m: CacheView,
    k: Seq<char>,
    start: Option<usize>,
    length: Option<usize>,
) -> Result<Seq<u8>, StreamError> {
    if !m.contains_key(k) {
        Err(StreamError::NotFound)
    } else if read_start(start) >= m[k].0.len() {
        Err(StreamError::BadRequest)
    } else {
        Ok(m[k].0.subrange(read_start(start), read_end(m[k].0.len() as int, read_start(start), length)))
    }
}

/// The concurrent, expiring byte cache. Entries are stored as a list with
/// pairwise-distinct identifiers; the view is the mapping the list stands
/// for.
pub struct StreamCache {
    entries: Vec<(String, CacheEntry)>,
    /// Ticks an entry stays alive after its most recent access.
    ttl: u64,
}

impl View for StreamCache {
    type V = CacheView;

    closed spec fn view(&self) -> CacheView {
        assoc_view(self.entries@)
    }
}

impl StreamCache {
    #[verifier::type_invariant]
    spec fn inv(self) -> bool {
        distinct_keys(self.entries@)
    }

    /// Ticks an entry stays alive after its most recent access.
    pub closed spec fn spec_ttl(&self) -> u64 {
        self.ttl
    }

    /// Ticks an entry stays alive after its most recent access.
    #[verifier::when_used_as_spec(spec_ttl)]
    pub fn ttl(&self) -> (t: u64)
        ensures
            t == self.spec_ttl(),
    {
        self.ttl
    }

    /// An empty cache whose entries live `ttl` ticks per access.
    pub fn new(ttl: u64) -> (c: Self)
        ensures
            c@ == Map::<Seq<char>, (Seq<u8>, u64)>::empty(),
            c.spec_ttl() == ttl,
    {
        StreamCache { entries: Vec::new(), ttl }
    }

    /// The position of `key`'s entry, if any.
    fn find_index(&self, key: &String) -> (r: Option<usize>)
        ensures
            match r {
                Some(i) => i < self.entries@.len() && self.entries@[i as int].0@ == key@,
                None => forall|j: int| 0 <= j < self.entries@.len() ==> self.entries@[j].0@ != key@,
            },
    {
        let n = self.entries.len();
        for i in 0..n
            invariant
                n == self.entries@.len(),
                forall|j: int| 0 <= j < i ==> self.entries@[j].0@ != key@,
        {
            if self.entries[i].0 == *key {
                return Some(i);
            }
        }
        None
    }

    /// Open an already-resident artifact: push its expiration to
    /// `now + ttl` and report its size. Returns `None`, changing nothing,
    /// when the identifier is not resident — the caller must then fetch the
    /// bytes and insert them.
    pub fn open_entry(&mut self, file_id: &str, now: u64) -> (r: Option<usize>)
        requires
            now + old(self).spec_ttl() <= u64::MAX,
        ensures
            final(self).spec_ttl() == old(self).spec_ttl(),
            match r {
                Some(size) => old(self)@.contains_key(file_id@) && size
                    == old(self)@[file_id@].0.len() && final(self)@ == bumped(
                    old(self)@,
                    file_id@,
                    (now + old(self).spec_ttl()) as u64,
                ),
                None => !old(self)@.contains_key(file_id@) && final(self)@ == old(self)@,
            },
    {
        proof {
            use_type_invariant(&*self);
            lemma_view_contains(self.entries@);
        }
        let key: String = file_id.to_owned();
        match self.find_index(&key) {
            None => None,
            Some(i) => {
                let expiry = now + self.ttl;
                let mut entries: Vec<(String, CacheEntry)> = Vec::new();
                core::mem::swap(&mut entries, &mut self.entries);
                let ghost s = entries@;
                let pair = entries.remove(i);
                let size = pair.1.data.len();
                let refreshed = (pair.0, CacheEntry { data: pair.1.data, expires_at: expiry });
                entries.insert(i, refreshed);
                proof {
                    assert(entries@ =~= s.update(i as int, refreshed));
                    lemma_view_update(s, i as int, refreshed);
                    lemma_view_at(s, i as int);
                }
                self.entries = entries;
                Some(size)
            },
        }
    }

    /// Make `file_id` resident with the given bytes, expiring `ttl` ticks
    /// from `now`, and report the size stored. An entry already present
    /// under the identifier is replaced.
    pub fn insert_entry(&mut self, file_id: &str, data: Vec<u8>, now: u64) -> (size: usize)
        requires
            now + old(self).spec_ttl() <= u64::MAX,
        ensures
            final(self).spec_ttl() == old(self).spec_ttl(),
            size == data@.len(),
            final(self)@ == old(self)@.insert(
                file_id@,
                (data@, (now + old(self).spec_ttl()) as u64),
            ),
    {
        proof {
            use_type_invariant(&*self);
            lemma_view_contains(self.entries@);
        }
        let key: String = file_id.to_owned();
        let expiry = now + self.ttl;
        let size = data.len();
        let pair = (key, CacheEntry { data, expires_at: expiry });
        match self.find_index(&pair.0) {
            Some(i) => {
                let mut entries: Vec<(String, CacheEntry)> = Vec::new();
                core::mem::swap(&mut entries, &mut self.entries);
                let ghost s = entries@;
                let _ = entries.remove(i);
                entries.insert(i, pair);
                proof {
                    assert(entries@ =~= s.update(i as int, entries@[i as int]));
                    lemma_view_update(s, i as int, entries@[i as int]);
                }
                self.entries = entries;
            },
            None => {
                let mut entries: Vec<(String, CacheEntry)> = Vec::new();
                core::mem::swap(&mut entries, &mut self.entries);
                proof {
                    lemma_view_push(entries@, pair);
                }
                entries.push(pair);
                self.entries = entries;
            },
        }
        size
    }

    /// Serve a ranged read: refresh the entry's expiration and return a
    /// fresh copy of the requested byte window, truncated at the end of the
    /// data. Fails with `NotFound` when the identifier is not resident and
    /// with `BadRequest` when `start` lies at or past the end; the
    /// expiration is refreshed whenever the entry exists, even on
    /// `BadRequest`.
    pub fn read_range(
        &mut self,
        file_id: &str,
        start: Option<usize>,
        length: Option<usize>,
        now: u64,
    ) -> (r: Result<Vec<u8>, StreamError>)
        requires
            now + old(self).spec_ttl() <= u64::MAX,
        ensures
            final(self).spec_ttl() == old(self).spec_ttl(),
            final(self)@ == if old(self)@.contains_key(file_id@) {
                bumped(old(self)@, file_id@, (now + old(self).spec_ttl()) as u64)
            } else {
                old(self)@
            },
            match r {
                Ok(bytes) => read_result(old(self)@, file_id@, start, length) == Ok::<
                    Seq<u8>,
                    StreamError,
                >(bytes@),
                Err(e) => read_result(old(self)@, file_id@, start, length) == Err::<
                    Seq<u8>,
                    StreamError,
                >(e),
            },
    {
        proof {
            use_type_invariant(&*self);
            lemma_view_contains(self.entries@);
        }
        let key: String = file_id.to_owned();
        match self.find_index(&key) {
            None => Err(StreamError::NotFound),
            Some(i) => {
                let expiry = now + self.ttl;
                let mut entries: Vec<(String, CacheEntry)> = Vec::new();
                core::mem::swap(&mut entries, &mut self.entries);
                let ghost s = entries@;
                let pair = entries.remove(i);
                let size = pair.1.data.len();
                let st = match start {
                    Some(v) => v,
                    None => 0,
                };
                let r: Result<Vec<u8>, StreamError> = if st >= size {
                    Err(StreamError::BadRequest)
                } else {
                    let end = match length {
                        Some(l) => if l < size - st {
                            st + l
                        } else {
                            size
                        },
                        None => size,
                    };
                    let window = slice_subrange(pair.1.data.as_slice(), st, end);
                    Ok(slice_to_vec(window))
                };
                let refreshed = (pair.0, CacheEntry { data: pair.1.data, expires_at: expiry });
                entries.insert(i, refreshed);
                proof {
                    assert(entries@ =~= s.update(i as int, refreshed));
                    lemma_view_update(s, i as int, refreshed);
                    lemma_view_at(s, i as int);
                }
                self.entries = entries;
                r
            },
        }
    }

    /// Remove every entry whose expiration is at or before `now`, leaving
    /// the rest untouched.
    pub fn sweep(&mut self, now: u64)
        ensures
            final(self).spec_ttl() == old(self).spec_ttl(),
            final(self)@ == swept(old(self)@, now),
    {
        proof {
            use_type_invariant(&*self);
        }
        let ghost m0 = self@;
        let mut entries: Vec<(String, CacheEntry)> = Vec::new();
        core::mem::swap(&mut entries, &mut self.entries);
        loop
            invariant
                distinct_keys(entries@),
                forall|k: Seq<char>| #[trigger] assoc_view(entries@).contains_key(k) ==> m0.contains_key(k)
                    && assoc_view(entries@)[k] == m0[k],
                forall|k: Seq<char>| m0.contains_key(k) && m0[k].1 > now ==> #[trigger] assoc_view(
                    entries@,
                ).contains_key(k),
            ensures
                distinct_keys(entries@),
                forall|k: Seq<char>| #[trigger] assoc_view(entries@).contains_key(k) ==> m0.contains_key(k)
                    && assoc_view(entries@)[k] == m0[k],
                forall|k: Seq<char>| m0.contains_key(k) && m0[k].1 > now ==> #[trigger] assoc_view(
                    entries@,
                ).contains_key(k),
                forall|j: int| 0 <= j < entries@.len() ==> entries@[j].1.expires_at > now,
            decreases entries@.len(),
        {
            let n = entries.len();
            let mut i: usize = 0;
            let mut found: Option<usize> = None;
            while i < n
                invariant_except_break
                    i <= n,
                    found is None,
                    forall|j: int| 0 <= j < i ==> entries@[j].1.expires_at > now,
                invariant
                    n == entries@.len(),
                ensures
                    match found {
                        Some(f) => f < entries@.len() && entries@[f as int].1.expires_at <= now,
                        None => forall|j: int|
                            0 <= j < entries@.len() ==> entries@[j].1.expires_at > now,
                    },
                decreases n - i,
            {
                if entries[i].1.expires_at <= now {
                    found = Some(i);
                    break;
                }
                i += 1;
            }
            match found {
                None => {
                    break;
                },
                Some(f) => {
                    proof {
                        lemma_view_contains(entries@);
                        lemma_view_contains(entries@.remove(f as int));
                        lemma_view_at(entries@, f as int);
                        lemma_view_remove(entries@, f as int);
                    }
                    let _ = entries.remove(f);
                },
            }
        }
        proof {
            lemma_view_contains(entries@);
            assert forall|k: Seq<char>| #[trigger] assoc_view(entries@).contains_key(k) implies swept(
                m0,
                now,
            ).contains_key(k) && assoc_view(entries@)[k] == swept(m0, now)[k] by {
                let j = choose|j: int| 0 <= j < entries@.len() && #[trigger] entries@[j].0@ == k;
                lemma_view_at(entries@, j);
            }
            assert(assoc_view(entries@) =~= swept(m0, now));
        }
        self.entries = entries;
    }
}

/// A read from a valid start with no length returns exactly the tail of
/// the cached bytes from `start` onward: `len - start` bytes, equal to
/// that tail.
pub proof fn lemma_read_returns_tail(m: CacheView, k: Seq<char>, start: usize)
    requires
        m.contains_key(k),
        (start as int) < m[k].0.len(),
    ensures
        ({
            let r = read_result(m, k, Some(start), None);
            &&& r matches Ok(b)
            &&& r->Ok_0 == m[k].0.subrange(start as int, m[k].0.len() as int)
            &&& r->Ok_0.len() == m[k].0.len() - start
        }),
{
}

/// A read whose start lies at or past the end of the data fails as a bad
/// request, whatever length is asked for.
pub proof fn lemma_read_past_end(m: CacheView, k: Seq<char>, start: usize, length: Option<usize>)
    requires
        m.contains_key(k),
        (start as int) >= m[k].0.len(),
    ensures
        read_result(m, k, Some(start), length) == Err::<Seq<u8>, StreamError>(
            StreamError::BadRequest,
        ),
{
}

/// A read with an explicit length returns `min(length, len - start)`
/// bytes: a short read near the end is not an error.
pub proof fn lemma_read_window_length(m: CacheView, k: Seq<char>, start: usize, length: usize)
    requires
        m.contains_key(k),
        (start as int) < m[k].0.len(),
    ensures
        ({
            let r = read_result(m, k, Some(start), Some(length));
            &&& r matches Ok(b)
            &&& r->Ok_0.len() == if length <= m[k].0.len() - start {
                length as int
            } else {
                m[k].0.len() - start
            }
        }),
{
}

/// One cache operation, abstracted to its effect on the content: an open
/// (with the bytes a backing fetch would supply on a miss, if any), a
/// ranged read, or a sweep. `expiry` is the expiration tick the access
/// installs.
pub enum CacheOp {
    Open { id: Seq<char>, backing: Option<Seq<u8>>, expiry: u64 },
    Read { id: Seq<char>, expiry: u64 },
    Sweep { now: u64 },
}

/// How one operation transforms the cache content. An open of a resident
/// identifier refreshes it in place; an open of an absent one inserts the
/// fetched bytes when the fetch produced any; a read refreshes the entry it
/// finds; a sweep drops what has expired.
pub open spec fn op_step(m: CacheView, op: CacheOp) -> CacheView {
    match op {
        CacheOp::Open { id, backing, expiry } => if m.contains_key(id) {
            bumped(m, id, expiry)
        } else {
            match backing {
                Some(data) => m.insert(id, (data, expiry)),
                None => m,
            }
        },
        CacheOp::Read { id, expiry } => if m.contains_key(id) {
            bumped(m, id, expiry)
        } else {
            m
        },
        CacheOp::Sweep { now } => swept(m, now),
    }
}

/// The content after a whole sequence of operations.
pub open spec fn run_ops(m: CacheView, ops: Seq<CacheOp>) -> CacheView
    decreases ops.len(),
{
    if ops.len() == 0 {
        m
    } else {
        op_step(run_ops(m, ops.drop_last()), ops.last())
    }
}

/// Whether an operation opens the given identifier.
pub open spec fn opens_id(op: CacheOp, id: Seq<char>) -> bool {
    match op {
        CacheOp::Open { id: opened, .. } => opened == id,
        _ => false,
    }
}

/// An identifier that starts absent and that no operation opens never
/// becomes resident, however the cache is otherwise used — so a ranged
/// read for it fails with `NotFound`.
pub proof fn lemma_read_unopened(
    m: CacheView,
    ops: Seq<CacheOp>,
    id: Seq<char>,
    start: Option<usize>,
    length: Option<usize>,
)
    requires
        !m.contains_key(id),
        forall|i: int| 0 <= i < ops.len() ==> !opens_id(#[trigger] ops[i], id),
    ensures
        !run_ops(m, ops).contains_key(id),
        read_result(run_ops(m, ops), id, start, length) == Err::<Seq<u8>, StreamError>(
            StreamError::NotFound,
        ),
    decreases ops.len(),
{
    if ops.len() > 0 {
        assert(forall|i: int| 0 <= i < ops.drop_last().len() ==> ops.drop_last()[i] == ops[i]);
        lemma_read_unopened(m, ops.drop_last(), id, start, length);
        assert(!opens_id(ops[ops.len() - 1], id));
    }
}

/// Opening an already-resident identifier is idempotent: it changes no
/// stored bytes and no set of resident identifiers, only the expiration,
/// so repeated opens report the same size — and, the entry being resident,
/// the open needs no backing fetch at all.
pub proof fn lemma_open_idempotent(m: CacheView, id: Seq<char>, first: u64, second: u64)
    requires
        m.contains_key(id),
    ensures
        ({
            let once = op_step(m, CacheOp::Open { id, backing: None, expiry: first });
            let twice = op_step(once, CacheOp::Open { id, backing: None, expiry: second });
            &&& once.contains_key(id)
            &&& once[id].0 == m[id].0
            &&& once.dom() == m.dom()
            &&& twice[id].0 == m[id].0
            &&& twice == bumped(m, id, second)
        }),
{
    let once = op_step(m, CacheOp::Open { id, backing: None, expiry: first });
    let twice = op_step(once, CacheOp::Open { id, backing: None, expiry: second });
    assert(once.dom() =~= m.dom());
    assert(twice =~= bumped(m, id, second));
}

/// An entry whose expiration has passed, and which nothing has refreshed
/// since, is gone after the next sweep.
pub proof fn lemma_sweep_evicts_expired(m: CacheView, id: Seq<char>, now: u64)
    requires
        m.contains_key(id),
        m[id].1 <= now,
    ensures
        !swept(m, now).contains_key(id),
{
}

/// An entry accessed within its time-to-live window is never evicted,
/// regardless of its age: a sweep strictly before `access + ttl` keeps the
/// refreshed entry unchanged.
pub proof fn lemma_accessed_entry_survives(
    m: CacheView,
    id: Seq<char>,
    access: u64,
    ttl: u64,
    now: u64,
)
    requires
        m.contains_key(id),
        access + ttl <= u64::MAX,
        now < access + ttl,
    ensures
        ({
            let refreshed = bumped(m, id, (access + ttl) as u64);
            swept(refreshed, now).contains_key(id) && swept(refreshed, now)[id] == refreshed[id]
        }),
{
}

/// While an entry lives its expiration never moves backwards: a refresh at
/// a tick no earlier than the access that set the current expiration can
/// only push the expiration forward.
pub proof fn lemma_expiry_monotone(m: CacheView, id: Seq<char>, now: u64, ttl: u64)
    requires
        m.contains_key(id),
        now + ttl <= u64::MAX,
        m[id].1 <= now + ttl,
    ensures
        bumped(m, id, (now + ttl) as u64)[id].1 >= m[id].1,
{
}

} // verus!
