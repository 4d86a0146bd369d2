//! Servers: cached status, the short-TTL single-flight read caches, and
//! historical stats paging.
//!
//! A background poller fills one status entry per server; readers take
//! the cached snapshot and never block on the host. Expensive reads go
//! through a keyed cache whose entries expire after a short TTL: a fresh
//! entry answers at once, a stale one sends exactly one caller to the
//! host. Historical stats are paged in fixed-size pages of aligned
//! timestamps, newest first.

use vstd::prelude::*;

use crate::update::Timestamp;

verus! {

/// A server's health as the poller last saw it.
#[derive(Clone, Copy, PartialEq, Eq, Structural, Debug)]
pub enum ServerState {
    Healthy,
    Unhealthy,
    Disabled,
}

/// The cached snapshot of one server. The list payloads hold what the
/// poller last rendered for each kind, absent until the first sweep
/// succeeds.
#[derive(Debug)]
pub struct ServerStatus {
    pub state: ServerState,
    pub version: String,
    pub stats: Option<String>,
    pub containers: Option<String>,
    pub images: Option<String>,
    pub networks: Option<String>,
    pub volumes: Option<String>,
    pub projects: Option<String>,
    pub last_ts: Timestamp,
}

impl ServerStatus {
    /// The entry a server has before its first sweep: unknown version,
    /// not ok, nothing cached.
    pub fn unpolled() -> (r: ServerStatus)
        ensures
            r.state == ServerState::Unhealthy,
            r.version@ == "unknown"@,
            r.stats is None,
            r.containers is None,
            r.images is None,
            r.networks is None,
            r.volumes is None,
            r.projects is None,
    {
        ServerStatus {
            state: ServerState::Unhealthy,
            version: "unknown".to_owned(),
            stats: None,
            containers: None,
            images: None,
            networks: None,
            volumes: None,
            projects: None,
            last_ts: 0,
        }
    }
}

/// A cached list payload, or the empty list rendering when the poller
/// has not filled it yet.
pub fn payload_or_empty(p: &Option<String>) -> (r: String)
    ensures
        p matches Some(s) ==> r == s,
        p is None ==> r@ == "[]"@,
{
    match p {
        Option::Some(s) => s.clone(),
        Option::None => "[]".to_owned(),
    }
}

/// The guard every inspect-style read makes first: the cached state must
/// be healthy, else the read fails before any host call.
pub fn inspect_allowed(state: ServerState) -> (r: bool)
    ensures
        r == (state == ServerState::Healthy),
{
    match state {
        ServerState::Healthy => true,
        ServerState::Unhealthy => false,
        ServerState::Disabled => false,
    }
}

/// How many servers of a list are in the given state.
pub open spec fn count_state(states: Seq<ServerState>, st: ServerState) -> int
    decreases states.len(),
{
    if states.len() == 0 {
        0
    } else {
        (if states[0] == st {
            1int
        } else {
            0int
        }) + count_state(states.skip(1), st)
    }
}

/// The servers summary: total and per-state counts.
#[derive(Clone, Copy, PartialEq, Eq, Structural, Debug)]
pub struct ServersSummary {
    pub total: u64,
    pub healthy: u64,
    pub unhealthy: u64,
    pub disabled: u64,
}

/// Counting a list one element at a time extends the count.
proof fn lemma_count_state_push(states: Seq<ServerState>, st: ServerState, i: int)
    requires
        0 <= i < states.len(),
    ensures
        count_state(states.take(i + 1), st) == count_state(states.take(i), st) + (
        if states[i] == st {
            1int
        } else {
            0int
        }),
    decreases i,
{
    let a = states.take(i + 1);
    let b = states.take(i);
    if i == 0 {
        assert(a.skip(1) =~= Seq::<ServerState>::empty());
        assert(b =~= Seq::<ServerState>::empty());
        assert(a[0] == states[0]);
    } else {
        assert(a.skip(1) =~= states.subrange(1, i + 1));
        assert(b.skip(1) =~= states.subrange(1, i));
        assert(states.subrange(1, i + 1) =~= states.skip(1).take(i));
        assert(states.subrange(1, i) =~= states.skip(1).take(i - 1));
        lemma_count_state_push(states.skip(1), st, i - 1);
        assert(a[0] == b[0]);
        assert(states.skip(1)[i - 1] == states[i]);
    }
}

/// Summarise a list of server states: the total and how many are
/// healthy, unhealthy, and disabled.
pub fn summarize_servers(states: &Vec<ServerState>) -> (r: ServersSummary)
    ensures
        r.total == states@.len(),
        r.healthy == count_state(states@, ServerState::Healthy),
        r.unhealthy == count_state(states@, ServerState::Unhealthy),
        r.disabled == count_state(states@, ServerState::Disabled),
{
    let mut healthy: u64 = 0;
    let mut unhealthy: u64 = 0;
    let mut disabled: u64 = 0;
    let mut i: usize = 0;
    proof {
        assert(states@.take(0) =~= Seq::<ServerState>::empty());
    }
    while i < states.len()
        invariant
            i <= states@.len(),
            healthy == count_state(states@.take(i as int), ServerState::Healthy),
            unhealthy == count_state(states@.take(i as int), ServerState::Unhealthy),
            disabled == count_state(states@.take(i as int), ServerState::Disabled),
            healthy + unhealthy + disabled <= i,
        decreases states@.len() - i,
    {
        proof {
            lemma_count_state_push(states@, ServerState::Healthy, i as int);
            lemma_count_state_push(states@, ServerState::Unhealthy, i as int);
            lemma_count_state_push(states@, ServerState::Disabled, i as int);
        }
        match states[i] {
            ServerState::Healthy => healthy += 1,
            ServerState::Unhealthy => unhealthy += 1,
            ServerState::Disabled => disabled += 1,
        }
        i += 1;
    }
    proof {
        assert(states@.take(states@.len() as int) =~= states@);
    }
    ServersSummary { total: states.len() as u64, healthy, unhealthy, disabled }
}

/// One entry of a short-TTL read cache: the cached text and when it
/// stops being fresh.
#[derive(Debug)]
pub struct TtlEntry {
    pub value: String,
    pub expiry: Timestamp,
}

/// A keyed short-TTL cache fronting expensive host reads. Keys are held
/// at most once. Concurrency discipline — one fetcher per key while the
/// rest wait — is the caller's; the contracts here fix what a lookup may
/// answer and what a store records.
#[derive(Debug)]
pub struct TtlCache {
    pub entries: Vec<(String, TtlEntry)>,
}

impl TtlCache {
    /// Keys are unique.
    pub open spec fn wf(self) -> bool {
        forall|i: int, j: int|
            0 <= i < j < self.entries@.len() ==> self.entries@[i].0@ != self.entries@[j].0@
    }

    /// The entry stored under `key`, if any.
    pub open spec fn entry_of(self, key: Seq<char>) -> Option<TtlEntry> {
        if exists|i: int| 0 <= i < self.entries@.len() && self.entries@[i].0@ == key {
            Some(
                self.entries@[choose|i: int|
                    0 <= i < self.entries@.len() && self.entries@[i].0@ == key].1,
            )
        } else {
            None
        }
    }

    /// An empty cache.
    pub fn new() -> (r: TtlCache)
        ensures
            r.wf(),
            forall|key: Seq<char>| #[trigger] r.entry_of(key) is None,
    {
        TtlCache { entries: Vec::new() }
    }

    /// The index holding `key`, if any.
    fn find(&self, key: &String) -> (r: Option<usize>)
        requires
            self.wf(),
        ensures
            match r {
                Some(i) => i < self.entries@.len() && self.entries@[i as int].0@ == key@
                    && self.entry_of(key@) == Some(self.entries@[i as int].1),
                None => self.entry_of(key@) is None,
            },
    {
        let mut i: usize = 0;
        while i < self.entries.len()
            invariant
                self.wf(),
                i <= self.entries@.len(),
                forall|j: int| 0 <= j < i ==> self.entries@[j].0@ != key@,
            decreases self.entries@.len() - i,
        {
            if crate::text::str_eq(self.entries[i].0.as_str(), key.as_str()) {
                return Some(i);
            }
            i += 1;
        }
        None
    }

    /// What the cache answers at `now`: the stored text while it is
    /// fresh (strictly before expiry), nothing otherwise. A miss sends
    /// the caller to the host; everyone else waiting on the key shares
    /// that one fetch.
    pub fn lookup(&self, key: &String, now: Timestamp) -> (r: Option<String>)
        requires
            self.wf(),
        ensures
            match r {
                Some(v) => self.entry_of(key@) matches Some(e) && now < e.expiry && v == e.value,
                None => self.entry_of(key@) is None || (self.entry_of(
                    key@,
                ) matches Some(e) && now >= e.expiry),
            },
    {
        match self.find(key) {
            Some(i) => {
                if now < self.entries[i].1.expiry {
                    Some(self.entries[i].1.value.clone())
                } else {
                    None
                }
            }
            None => None,
        }
    }

    /// Record a freshly fetched text under `key`, fresh until
    /// `now + ttl`. Every other key is untouched.
    pub fn store(&mut self, key: &String, value: String, now: Timestamp, ttl: i64)
        requires
            old(self).wf(),
            ttl >= 0,
            now + ttl <= i64::MAX,
        ensures
            final(self).wf(),
            final(self).entry_of(key@) matches Some(e) && e.value == value && e.expiry == now
                + ttl,
            forall|other: Seq<char>| other != key@
                ==> #[trigger] final(self).entry_of(other) == old(self).entry_of(other),
    {
        let entry = TtlEntry { value, expiry: now + ttl };
        match self.find(key) {
            Some(i) => {
                let k = self.entries[i].0.clone();
                let ghost pre = *self;
                self.entries.set(i, (k, entry));
                proof {
                    lemma_entry_update(pre, *self, i as int, key@);
                }
            }
            None => {
                let ghost pre = *self;
                self.entries.push((key.clone(), entry));
                proof {
                    lemma_entry_push(pre, *self, key@);
                }
            }
        }
    }
}

/// After replacing the entry at `k` (same key), `entry_of` reads the new
/// entry at that key and is unchanged elsewhere.
proof fn lemma_entry_update(pre: TtlCache, post: TtlCache, k: int, key: Seq<char>)
    requires
        pre.wf(),
        0 <= k < pre.entries@.len(),
        post.entries@.len() == pre.entries@.len(),
        post.entries@[k].0@ == pre.entries@[k].0@,
        pre.entries@[k].0@ == key,
        forall|i: int| 0 <= i < pre.entries@.len() && i != k
            ==> post.entries@[i] == pre.entries@[i],
    ensures
        post.wf(),
        post.entry_of(key) == Some(post.entries@[k].1),
        forall|other: Seq<char>| other != key
            ==> #[trigger] post.entry_of(other) == pre.entry_of(other),
{
    assert forall|i: int, j: int| 0 <= i < j < post.entries@.len()
        implies post.entries@[i].0@ != post.entries@[j].0@ by {
        assert(pre.entries@[i].0@ != pre.entries@[j].0@);
        assert(post.entries@[i].0@ == pre.entries@[i].0@);
        assert(post.entries@[j].0@ == pre.entries@[j].0@);
    }
    let w = choose|i: int| 0 <= i < post.entries@.len() && post.entries@[i].0@ == key;
    assert(w == k);
    assert forall|other: Seq<char>| other != key
        implies #[trigger] post.entry_of(other) == pre.entry_of(other) by {
        if exists|i: int| 0 <= i < pre.entries@.len() && pre.entries@[i].0@ == other {
            let i = choose|i: int| 0 <= i < pre.entries@.len() && pre.entries@[i].0@ == other;
            assert(i != k);
            assert(post.entries@[i].0@ == other);
            let j = choose|j: int| 0 <= j < post.entries@.len() && post.entries@[j].0@ == other;
            assert(j == i || post.entries@[j].0@ != post.entries@[i].0@);
            assert(post.entry_of(other) == Some(post.entries@[i].1));
            assert(pre.entry_of(other) == Some(pre.entries@[i].1));
        } else {
            assert(forall|i: int|
                0 <= i < post.entries@.len() ==> #[trigger] post.entries@[i].0@ != other);
        }
    }
}

/// After pushing a fresh key, `entry_of` reads the pushed entry at that
/// key and is unchanged elsewhere.
proof fn lemma_entry_push(pre: TtlCache, post: TtlCache, key: Seq<char>)
    requires
        pre.wf(),
        forall|i: int| 0 <= i < pre.entries@.len() ==> pre.entries@[i].0@ != key,
        post.entries@ == pre.entries@.push(post.entries@.last()),
        post.entries@.last().0@ == key,
    ensures
        post.wf(),
        post.entry_of(key) == Some(post.entries@.last().1),
        forall|other: Seq<char>| other != key
            ==> #[trigger] post.entry_of(other) == pre.entry_of(other),
{
    let n = pre.entries@.len() as int;
    assert forall|i: int, j: int| 0 <= i < j < post.entries@.len()
        implies post.entries@[i].0@ != post.entries@[j].0@ by {
        if j < n {
            assert(pre.entries@[i].0@ != pre.entries@[j].0@);
        } else {
            assert(post.entries@[j].0@ == key);
            assert(post.entries@[i] == pre.entries@[i]);
        }
    }
    assert(post.entries@[n].0@ == key);
    let w = choose|i: int| 0 <= i < post.entries@.len() && post.entries@[i].0@ == key;
    assert(w == n);
    assert forall|other: Seq<char>| other != key
        implies #[trigger] post.entry_of(other) == pre.entry_of(other) by {
        if exists|i: int| 0 <= i < pre.entries@.len() && pre.entries@[i].0@ == other {
            let i = choose|i: int| 0 <= i < pre.entries@.len() && pre.entries@[i].0@ == other;
            assert(post.entries@[i].0@ == other);
            let j = choose|j: int| 0 <= j < post.entries@.len() && post.entries@[j].0@ == other;
            assert(post.entry_of(other) == Some(post.entries@[i].1));
            assert(pre.entry_of(other) == Some(pre.entries@[i].1));
        } else {
            assert(forall|i: int|
                0 <= i < post.entries@.len() ==> #[trigger] post.entries@[i].0@ != other);
        }
    }
}

/// How many stats records one page holds.
pub open spec fn stats_per_page() -> int {
    200
}

/// The timestamps one page of historical stats asks for: two hundred
/// granularity-aligned instants, newest first, page zero ending at the
/// aligned current instant, each later page one page-width earlier.
pub fn stats_page_timestamps(now: Timestamp, granularity: i64, page: u32) -> (r: Vec<i64>)
    requires
        now >= 0,
        granularity >= 1,
        granularity * (200 * (page as int) + 200) <= i64::MAX,
    ensures
        r@.len() == 200,
        r@[0] == now - now % granularity - granularity * 200 * (page as int),
        forall|k: int| 0 <= k < 200 ==> #[trigger] r@[k] == r@[0] - k * granularity,
{
    let offset_steps: i64 = 200 * (page as i64);
    proof {
        assert(granularity * (200 * (page as int)) <= granularity * (200 * (page as int) + 200))
            by (nonlinear_arith)
            requires
                granularity >= 1,
        ;
        assert(granularity * (200 * (page as int)) >= 0) by (nonlinear_arith)
            requires
                granularity >= 1,
                page >= 0,
        ;
    }
    let page_offset: i64 = granularity * offset_steps;
    let aligned: i64 = now - now % granularity;
    proof {
        assert(0 <= now % granularity <= now) by (nonlinear_arith)
            requires
                now >= 0,
                granularity >= 1,
        ;
        assert(aligned <= now);
        assert(aligned >= 0);
    }
    let start: i64 = aligned - page_offset;
    let mut out: Vec<i64> = Vec::new();
    let mut curr: i64 = start;
    let mut k: u32 = 0;
    proof {
        assert(granularity * (200int) <= granularity * (200 * (page as int) + 200))
            by (nonlinear_arith)
            requires
                granularity >= 1,
                page >= 0,
        ;
        assert(granularity * (200 * (page as int)) + granularity * (200int) == granularity * (
        200 * (page as int) + 200)) by (nonlinear_arith);
    }
    while k < 200
        invariant
            granularity >= 1,
            granularity * (200int) <= i64::MAX,
            k <= 200,
            out@.len() == k,
            start >= i64::MIN + granularity * 200,
            curr == start - (k as int) * granularity,
            forall|m: int| 0 <= m < k ==> #[trigger] out@[m] == start - m * granularity,
        decreases 200 - k,
    {
        out.push(curr);
        proof {
            assert((k as int) * granularity + granularity == ((k as int) + 1) * granularity)
                by (nonlinear_arith);
            assert(((k as int) + 1) * granularity <= 200 * granularity) by (nonlinear_arith)
                requires
                    granularity >= 1,
                    k < 200,
            ;
        }
        curr = curr - granularity;
        k += 1;
    }
    proof {
        assert(granularity * (200 * (page as int)) == granularity * 200 * (page as int))
            by (nonlinear_arith);
        assert(out@[0] == start - 0 * granularity);
        assert(0 * granularity == 0);
    }
    out
}

/// Whether another page follows: exactly when this page came back full.
pub fn stats_next_page(count: usize, page: u32) -> (r: Option<u32>)
    requires
        page < u32::MAX,
    ensures
        count == 200 ==> (r matches Some(p) && p == page + 1),
        count != 200 ==> r is None,
{
    if count == 200 {
        Some(page + 1)
    } else {
        None
    }
}

/// Whether a server belongs to an all-hosts read's selection: an empty
/// selector takes every server, otherwise one naming its id or its name.
pub fn server_selected(selector: &Vec<String>, id: &str, name: &str) -> (r: bool)
    ensures
        r == (selector@.len() == 0 || (exists|k: int|
            0 <= k < selector@.len() && ((#[trigger] selector@[k])@ == id@ || selector@[k]@
                == name@))),
{
    if selector.len() == 0 {
        return true;
    }
    let mut k: usize = 0;
    while k < selector.len()
        invariant
            k <= selector@.len(),
            forall|m: int|
                0 <= m < k ==> (#[trigger] selector@[m])@ != id@ && selector@[m]@ != name@,
        decreases selector@.len() - k,
    {
        if crate::text::str_eq(selector[k].as_str(), id) || crate::text::str_eq(
            selector[k].as_str(),
            name,
        ) {
            return true;
        }
        k += 1;
    }
    false
}

} // verus!
