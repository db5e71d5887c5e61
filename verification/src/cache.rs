use vstd::prelude::*;

use crate::errors::ResolutionError;
use crate::Address;
use vstd::pervasive::VecAdditionalExecFns;
use vstd::string::StrSliceExecFns;

verus! {

/// How long a memoized outcome stays live, in seconds: one day.
pub const DEFAULT_TTL_SECONDS: u64 = 86400;

/// One memoized resolution outcome.
pub struct CacheEntry {
    pub endpoint: String,
    pub address: Address,
    pub name: String,
    pub stored_at: u64,
}

/// Whether an entry belongs to the lookup key (endpoint, address).
pub open spec fn entry_matches(e: CacheEntry, endpoint: Seq<char>, addr: Seq<u8>) -> bool {
    e.endpoint@ == endpoint && e.address.bytes@ == addr
}

/// Whether an entry is still live at `now` under `ttl`: it was stored no
/// later than `now` and less than `ttl` seconds before it.
pub open spec fn entry_live(e: CacheEntry, now: u64, ttl: u64) -> bool {
    e.stored_at <= now && now < e.stored_at + ttl
}

/// The position of the first entry for a key, or -1 when there is none.
pub open spec fn find_entry(s: Seq<CacheEntry>, endpoint: Seq<char>, addr: Seq<u8>) -> int
    decreases s.len(),
{
    if s.len() == 0 {
        -1
    } else if entry_matches(s[0], endpoint, addr) {
        0
    } else {
        let r = find_entry(s.skip(1), endpoint, addr);
        if r < 0 {
            -1
        } else {
            r + 1
        }
    }
}

/// What a lookup of a key yields from an entry table at `now`: the name of
/// the key's entry while that entry is live, nothing otherwise.
pub open spec fn lookup_spec(
    s: Seq<CacheEntry>,
    endpoint: Seq<char>,
    addr: Seq<u8>,
    now: u64,
    ttl: u64,
) -> Option<Seq<char>> {
    let f = find_entry(s, endpoint, addr);
    if f >= 0 && entry_live(s[f], now, ttl) {
        Some(s[f].name@)
    } else {
        None
    }
}

/// The key's entry sits exactly where `find_entry` says: at a non-negative
/// position it matches and nothing before it does; at -1 nothing matches.
proof fn lemma_find_entry(s: Seq<CacheEntry>, endpoint: Seq<char>, addr: Seq<u8>)
    ensures
        ({
            let f = find_entry(s, endpoint, addr);
            &&& f >= 0 ==> f < s.len() && entry_matches(s[f], endpoint, addr)
            &&& f >= 0 ==> forall|j: int|
                0 <= j < f ==> !entry_matches(#[trigger] s[j], endpoint, addr)
            &&& f < 0 ==> forall|j: int|
                0 <= j < s.len() ==> !entry_matches(#[trigger] s[j], endpoint, addr)
        }),
    decreases s.len(),
{
    if s.len() > 0 && !entry_matches(s[0], endpoint, addr) {
        lemma_find_entry(s.skip(1), endpoint, addr);
        let t = s.skip(1);
        assert forall|j: int| 1 <= j < s.len() implies s[j] == t[j - 1] by {}
    }
}

/// A key whose first match sits at `k` is found at `k`.
proof fn lemma_find_entry_at(s: Seq<CacheEntry>, endpoint: Seq<char>, addr: Seq<u8>, k: int)
    requires
        0 <= k < s.len(),
        entry_matches(s[k], endpoint, addr),
        forall|j: int| 0 <= j < k ==> !entry_matches(#[trigger] s[j], endpoint, addr),
    ensures
        find_entry(s, endpoint, addr) == k,
    decreases k,
{
    if k == 0 {
    } else {
        let t = s.skip(1);
        assert(t[k - 1] == s[k as int]);
        assert forall|j: int| 0 <= j < k - 1 implies !entry_matches(
            #[trigger] t[j],
            endpoint,
            addr,
        ) by {
            assert(t[j] == s[j + 1]);
        }
        lemma_find_entry_at(t, endpoint, addr, k - 1);
    }
}

/// A key no entry matches is not found.
proof fn lemma_find_entry_none(s: Seq<CacheEntry>, endpoint: Seq<char>, addr: Seq<u8>)
    requires
        forall|j: int| 0 <= j < s.len() ==> !entry_matches(#[trigger] s[j], endpoint, addr),
    ensures
        find_entry(s, endpoint, addr) == -1,
    decreases s.len(),
{
    if s.len() > 0 {
        let t = s.skip(1);
        assert forall|j: int| 0 <= j < t.len() implies !entry_matches(
            #[trigger] t[j],
            endpoint,
            addr,
        ) by {
            assert(t[j] == s[j + 1]);
        }
        lemma_find_entry_none(t, endpoint, addr);
    }
}

/// Whether two strings hold the same characters.
fn str_equal(a: &str, b: &str) -> (r: bool)
    ensures
        r == (a@ == b@),
{
    let n = a.unicode_len();
    let m = b.unicode_len();
    if n != m {
        return false;
    }
    let mut i: usize = 0;
    while i < n
        invariant
            i <= n,
            n == a@.len(),
            n == b@.len(),
            forall|j: int| 0 <= j < i ==> a@[j] == b@[j],
        decreases n - i,
    {
        if a.get_char(i) != b.get_char(i) {
            return false;
        }
        i = i + 1;
    }
    proof {
        assert(a@ =~= b@);
    }
    true
}

/// Whether two byte vectors hold the same bytes.
fn bytes_equal(a: &Vec<u8>, b: &Vec<u8>) -> (r: bool)
    ensures
        r == (a@ == b@),
{
    if a.len() != b.len() {
        return false;
    }
    let mut i: usize = 0;
    while i < a.len()
        invariant
            i <= a@.len(),
            a@.len() == b@.len(),
            forall|j: int| 0 <= j < i ==> a@[j] == b@[j],
        decreases a@.len() - i,
    {
        if a[i] != b[i] {
            return false;
        }
        i = i + 1;
    }
    proof {
        assert(a@ =~= b@);
    }
    true
}

/// A time-bound memo of resolved names, keyed by node endpoint and address.
pub struct ResultCache {
    entries: Vec<CacheEntry>,
    ttl: u64,
}

impl ResultCache {
    pub closed spec fn entries_seq(&self) -> Seq<CacheEntry> {
        self.entries@
    }

    pub closed spec fn ttl_spec(&self) -> u64 {
        self.ttl
    }

    /// Keys are unique: no two entries share endpoint and address.
    pub open spec fn wf(&self) -> bool {
        forall|i: int, j: int|
            #![trigger self.entries_seq()[i], self.entries_seq()[j]]
            0 <= i < j < self.entries_seq().len() ==> !entry_matches(
                self.entries_seq()[i],
                self.entries_seq()[j].endpoint@,
                self.entries_seq()[j].address.bytes@,
            )
    }

    /// An empty cache whose entries live for `ttl` seconds.
    pub fn new(ttl: u64) -> (r: ResultCache)
        ensures
            r.wf(),
            r.entries_seq().len() == 0,
            r.ttl_spec() == ttl,
    {
        ResultCache { entries: Vec::new(), ttl }
    }

    /// The position of the key's entry, or the table's length when none.
    fn position_of(&self, endpoint: &str, address: &Address) -> (r: usize)
        ensures
            r <= self.entries_seq().len(),
            r < self.entries_seq().len() ==> r == find_entry(
                self.entries_seq(),
                endpoint@,
                address.bytes@,
            ),
            r == self.entries_seq().len() ==> find_entry(
                self.entries_seq(),
                endpoint@,
                address.bytes@,
            ) == -1,
    {
        let mut i: usize = 0;
        while i < self.entries.len()
            invariant
                i <= self.entries@.len(),
                forall|j: int|
                    0 <= j < i ==> !entry_matches(
                        #[trigger] self.entries@[j],
                        endpoint@,
                        address.bytes@,
                    ),
            decreases self.entries@.len() - i,
        {
            let e = &self.entries[i];
            let same_endpoint = str_equal(e.endpoint.as_str(), endpoint);
            let same_address = bytes_equal(&e.address.bytes, &address.bytes);
            if same_endpoint && same_address {
                proof {
                    lemma_find_entry_at(self.entries@, endpoint@, address.bytes@, i as int);
                }
                return i;
            }
            i = i + 1;
        }
        proof {
            lemma_find_entry_none(self.entries@, endpoint@, address.bytes@);
        }
        i
    }

    /// The memoized name for a key, when a live entry holds one.
    pub fn lookup(&self, endpoint: &str, address: &Address, now: u64) -> (r: Option<String>)
        requires
            self.wf(),
        ensures
            (match r {
                Some(name) => lookup_spec(
                    self.entries_seq(),
                    endpoint@,
                    address.bytes@,
                    now,
                    self.ttl_spec(),
                ) == Some(name@),
                None => lookup_spec(
                    self.entries_seq(),
                    endpoint@,
                    address.bytes@,
                    now,
                    self.ttl_spec(),
                ) is None,
            }),
    {
        let pos = self.position_of(endpoint, address);
        if pos < self.entries.len() {
            let e = &self.entries[pos];
            if e.stored_at <= now && now - e.stored_at < self.ttl {
                return Some(e.name.clone());
            }
        }
        None
    }

    /// Remembers `name` for a key at time `now`, replacing the key's entry if
    /// one exists and appending one otherwise. The rest of the table is kept.
    pub fn store(&mut self, endpoint: &str, address: &Address, name: String, now: u64)
        requires
            old(self).wf(),
        ensures
            final(self).wf(),
            final(self).ttl_spec() == old(self).ttl_spec(),
            ({
                let f = find_entry(old(self).entries_seq(), endpoint@, address.bytes@);
                let n = old(self).entries_seq().len() as int;
                let w = if f >= 0 {
                    f
                } else {
                    n
                };
                &&& final(self).entries_seq().len() == (if f >= 0 {
                    n
                } else {
                    n + 1
                })
                &&& forall|j: int|
                    0 <= j < n && j != w ==> final(self).entries_seq()[j] == old(
                        self,
                    ).entries_seq()[j]
                &&& entry_matches(final(self).entries_seq()[w], endpoint@, address.bytes@)
                &&& final(self).entries_seq()[w].name@ == name@
                &&& final(self).entries_seq()[w].stored_at == now
                &&& find_entry(final(self).entries_seq(), endpoint@, address.bytes@) == w
            }),
    {
        let pos = self.position_of(endpoint, address);
        let entry = CacheEntry {
            endpoint: String::from_str(endpoint),
            address: address.duplicate(),
            name,
            stored_at: now,
        };
        let ghost olds = self.entries@;
        let ghost f = find_entry(olds, endpoint@, address.bytes@);
        proof {
            lemma_find_entry(olds, endpoint@, address.bytes@);
        }
        if pos < self.entries.len() {
            self.entries.set(pos, entry);
            proof {
                let news = self.entries@;
                assert forall|j: int| 0 <= j < news.len() && j != f implies news[j] == olds[j] by {}
                assert forall|j: int| 0 <= j < f implies !entry_matches(
                    #[trigger] news[j],
                    endpoint@,
                    address.bytes@,
                ) by {
                    assert(news[j] == olds[j]);
                }
                lemma_find_entry_at(news, endpoint@, address.bytes@, f);
                assert forall|i: int, j: int|
                    #![trigger news[i], news[j]]
                    0 <= i < j < news.len() implies !entry_matches(
                    news[i],
                    news[j].endpoint@,
                    news[j].address.bytes@,
                ) by {
                    if i != f && j != f {
                        assert(news[i] == olds[i]);
                        assert(news[j] == olds[j]);
                    } else if i == f {
                        assert(news[j] == olds[j]);
                        assert(entry_matches(olds[f], endpoint@, address.bytes@));
                        if entry_matches(news[i], news[j].endpoint@, news[j].address.bytes@) {
                            assert(entry_matches(olds[f], olds[j].endpoint@, olds[j].address.bytes@));
                        }
                    } else {
                        assert(news[i] == olds[i]);
                        assert(entry_matches(olds[f], endpoint@, address.bytes@));
                        if entry_matches(news[i], news[j].endpoint@, news[j].address.bytes@) {
                            assert(entry_matches(olds[i], olds[f].endpoint@, olds[f].address.bytes@));
                        }
                    }
                }
            }
        } else {
            self.entries.push(entry);
            proof {
                let news = self.entries@;
                let n = olds.len() as int;
                assert forall|j: int| 0 <= j < n implies news[j] == olds[j] by {}
                assert forall|j: int| 0 <= j < n implies !entry_matches(
                    #[trigger] news[j],
                    endpoint@,
                    address.bytes@,
                ) by {
                    assert(news[j] == olds[j]);
                }
                lemma_find_entry_at(news, endpoint@, address.bytes@, n);
                assert forall|i: int, j: int|
                    #![trigger news[i], news[j]]
                    0 <= i < j < news.len() implies !entry_matches(
                    news[i],
                    news[j].endpoint@,
                    news[j].address.bytes@,
                ) by {
                    if j < n {
                        assert(news[i] == olds[i]);
                        assert(news[j] == olds[j]);
                    } else {
                        assert(news[i] == olds[i]);
                        assert(entry_matches(news[j], endpoint@, address.bytes@));
                    }
                }
            }
        }
    }

    /// The outward result of a finished resolution: the resolved name on
    /// success, the empty string on any failure — and either way the value
    /// is memoized for the key at time `now`.
    pub fn store_outcome(
        &mut self,
        endpoint: &str,
        address: &Address,
        outcome: Result<String, ResolutionError>,
        now: u64,
    ) -> (r: String)
        requires
            old(self).wf(),
        ensures
            final(self).wf(),
            final(self).ttl_spec() == old(self).ttl_spec(),
            r@ == (match outcome {
                Ok(name) => name@,
                Err(_) => Seq::<char>::empty(),
            }),
            ({
                let w = find_entry(final(self).entries_seq(), endpoint@, address.bytes@);
                &&& w >= 0
                &&& final(self).entries_seq()[w].name@ == r@
                &&& final(self).entries_seq()[w].stored_at == now
            }),
    {
        let name: String = match outcome {
            Ok(n) => n,
            Err(_) => String::new(),
        };
        let kept = name.clone();
        self.store(endpoint, address, name, now);
        kept
    }
}

/// The law of the TTL window: once a key's entry holds `name` stored at `t`,
/// a lookup of that key returns `name` at any time from `t` to just before
/// `t + ttl`, and misses at any time at or past `t + ttl` or before `t`.
pub proof fn lemma_store_governs_lookup(
    c: ResultCache,
    endpoint: Seq<char>,
    addr: Seq<u8>,
    name: Seq<char>,
    t: u64,
    now: u64,
)
    requires
        ({
            let f = find_entry(c.entries_seq(), endpoint, addr);
            &&& f >= 0
            &&& f < c.entries_seq().len()
            &&& c.entries_seq()[f].name@ == name
            &&& c.entries_seq()[f].stored_at == t
        }),
    ensures
        t <= now < t + c.ttl_spec() ==> lookup_spec(c.entries_seq(), endpoint, addr, now, c.ttl_spec())
            == Some(name),
        now >= t + c.ttl_spec() ==> lookup_spec(c.entries_seq(), endpoint, addr, now, c.ttl_spec())
            is None,
        now < t ==> lookup_spec(c.entries_seq(), endpoint, addr, now, c.ttl_spec()) is None,
{
}


} // verus!
