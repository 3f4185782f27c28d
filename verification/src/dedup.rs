//! Replay-dedup cache for the webhook receiver.
//!
//! Keeps a `(slug, sha256(body))` fingerprint for a configurable window
//! (default 5 minutes) so that a captured webhook request cannot be replayed
//! indefinitely once its HMAC has been observed. Fingerprint times are
//! nanoseconds on a monotonic clock started with the cache.
//!
//! The cache is per process: deployments with several replicas need an
//! external coordinator to dedup across them.

use crate::text::{chars_vec, opt_chars, parse_unsigned, parse_unsigned_range};
use dashmap::DashMap;
use std::time::Instant;
use vstd::prelude::*;

verus! {

#[verifier::external_type_specification]
#[verifier::external_body]
#[verifier::reject_recursive_types(K)]
#[verifier::reject_recursive_types(V)]
#[verifier::reject_recursive_types(S)]
pub struct ExDashMap<K, V, S>(DashMap<K, V, S>);

#[verifier::external_type_specification]
#[verifier::external_body]
pub struct ExInstant(Instant);

/// Default window for replay dedup (5 minutes).
pub const DEFAULT_WINDOW_SECS: u64 = 300;

/// Default upper bound on cached fingerprints.
pub const DEFAULT_MAX_ENTRIES: usize = 10000;

/// Env var: window in whole seconds.
pub const ENV_WINDOW: &'static str = "RSCHED_WEBHOOK_DEDUP_WINDOW_SECS";

/// Env var: max cached fingerprints.
pub const ENV_MAX: &'static str = "RSCHED_WEBHOOK_DEDUP_MAX";

/// No fingerprints at all.
pub open spec fn no_fingerprints() -> Map<Seq<char>, u128> {
    Map::empty()
}

/// Fingerprint map: key text to the clock reading it was recorded at.
pub type Seen = DashMap<String, u128>;

/// Fingerprints held in a map, each with the time it was recorded.
pub uninterp spec fn held(m: Seen) -> Map<Seq<char>, u128>;

/// `DashMap::new`: a map with no entries.
#[verifier::external_body]
fn map_new() -> (fresh: Seen)
    ensures
        held(fresh) == no_fingerprints(),
{
    DashMap::new()
}

/// `DashMap::len`: the number of entries.
#[verifier::external_body]
fn map_len(m: &Seen) -> (n: usize)
    ensures
        n == held(*m).dom().len(),
{
    m.len()
}

/// `DashMap::get`, the value copied out.
#[verifier::external_body]
fn map_get(m: &Seen, key: &str) -> (r: Option<u128>)
    ensures
        r == (if held(*m).contains_key(key@) {
            Some(held(*m)[key@])
        } else {
            None
        }),
{
    m.get(key).map(|e| *e.value())
}

/// `DashMap::insert`: `key` now maps to `value`.
#[verifier::external_body]
fn map_insert(m: &mut Seen, key: String, value: u128)
    ensures
        held(*final(m)) == held(*old(m)).insert(key@, value),
{
    m.insert(key, value);
}

/// `DashMap::remove`: `key` no longer maps to anything.
#[verifier::external_body]
fn map_remove(m: &mut Seen, key: &str)
    ensures
        held(*final(m)) == held(*old(m)).remove(key@),
{
    m.remove(key);
}

/// `DashMap::retain` keeping the entries still live at `now`.
#[verifier::external_body]
fn map_retain_live(m: &mut Seen, now: u128, window: u128)
    ensures
        held(*final(m)) == live_part(held(*old(m)), now, window),
{
    m.retain(|_, ts| is_live(now, *ts, window));
}

/// `DashMap::iter`: every entry once, in the map's own order.
#[verifier::external_body]
fn map_entries(m: &Seen) -> (v: Vec<(String, u128)>)
    ensures
        v@.len() == held(*m).dom().len(),
        forall|i: int| 0 <= i < v@.len() ==> held(*m).contains_key(#[trigger] v@[i].0@) && held(
            *m,
        )[v@[i].0@] == v@[i].1,
        forall|k: Seq<char>| #[trigger]
            held(*m).contains_key(k) ==> exists|i: int| 0 <= i < v@.len() && v@[i].0@ == k,
{
    m.iter().map(|e| (e.key().clone(), *e.value())).collect()
}

/// `Instant::now`: the start of the cache's clock.
#[verifier::external_body]
fn clock_start() -> Instant {
    Instant::now()
}

/// `Instant::elapsed` in nanoseconds: the clock's current reading. Nothing
/// is stated of it: it is the time.
#[verifier::external_body]
fn clock_nanos(start: &Instant) -> u128 {
    start.elapsed().as_nanos()
}

/// Time from `then` to `now`, zero if `then` is later (`Instant::duration_since`).
pub open spec fn elapsed(now: u128, then: u128) -> int {
    if now >= then {
        now - then
    } else {
        0
    }
}

/// A fingerprint recorded at `ts` still blocks replays at `now`.
pub open spec fn live(now: u128, ts: u128, window: u128) -> bool {
    elapsed(now, ts) < window
}

/// `live`, computed.
pub fn is_live(now: u128, ts: u128, window: u128) -> (r: bool)
    ensures
        r == live(now, ts, window),
{
    let e = if now >= ts {
        now - ts
    } else {
        0
    };
    e < window
}

/// The entries of `m` still live at `now`.
pub open spec fn live_part(m: Map<Seq<char>, u128>, now: u128, window: u128) -> Map<Seq<char>, u128> {
    Map::new(|k: Seq<char>| m.contains_key(k) && live(now, m[k], window), |k: Seq<char>| m[k])
}

/// Model of the cache: fingerprints with their times, the window in
/// nanoseconds and the size cap.
pub struct DedupV {
    /// Fingerprint to the time it was recorded.
    pub entries: Map<Seq<char>, u128>,
    /// Window in nanoseconds.
    pub window: u128,
    /// Most fingerprints held at once.
    pub max_entries: nat,
    /// The latest clock reading taken by the cache itself; later readings
    /// never go below it.
    pub clock: u128,
}

/// An entry of `m` with the earliest time.
pub open spec fn oldest(m: Map<Seq<char>, u128>, k: Seq<char>) -> bool {
    m.contains_key(k) && forall|j: Seq<char>| #[trigger] m.contains_key(j) ==> m[k] <= m[j]
}

/// Outcome of recording `key` at `now`: whether it is a replay, and the
/// entries after. A live fingerprint is a replay and changes nothing; a stale
/// one is refreshed; a new one is added, after dropping one of the oldest
/// entries when the cache is full.
pub open spec fn recorded(d: DedupV, key: Seq<char>, now: u128, r: bool, after: Map<Seq<char>, u128>) -> bool {
    if d.entries.contains_key(key) {
        if live(now, d.entries[key], d.window) {
            r && after == d.entries
        } else {
            !r && after == d.entries.insert(key, now)
        }
    } else if d.entries.dom().len() < d.max_entries {
        !r && after == d.entries.insert(key, now)
    } else {
        !r && exists|k: Seq<char>| oldest(d.entries, k) && after == d.entries.remove(k).insert(key, now)
    }
}

/// A fingerprint is never reported as a replay the first time it is seen.
pub proof fn lemma_unseen_key_is_new(d: DedupV, key: Seq<char>, now: u128, r: bool, after: Map<Seq<char>, u128>)
    requires
        recorded(d, key, now, r, after),
        !d.entries.contains_key(key),
    ensures
        !r,
        after.contains_key(key) && after[key] == now,
{
    if d.entries.dom().len() >= d.max_entries {
        let k = choose|k: Seq<char>| oldest(d.entries, k) && after == d.entries.remove(k).insert(key, now);
        assert(after.contains_key(key));
    }
}

/// A key recorded at `t1` is reported as a replay at any `t2` less than a
/// window later (and from then on the cache is unchanged).
pub proof fn lemma_replay_within_window(
    d: DedupV,
    key: Seq<char>,
    t1: u128,
    r1: bool,
    after1: Map<Seq<char>, u128>,
    t2: u128,
    r2: bool,
    after2: Map<Seq<char>, u128>,
)
    requires
        recorded(d, key, t1, r1, after1),
        !r1,
        recorded(DedupV { entries: after1, ..d }, key, t2, r2, after2),
        elapsed(t2, t1) < d.window,
    ensures
        r2,
        after2 == after1,
{
    if d.entries.contains_key(key) {
    } else {
        lemma_unseen_key_is_new(d, key, t1, r1, after1);
    }
    assert(after1.contains_key(key) && after1[key] == t1);
}

/// A full cache makes room by dropping its oldest fingerprint: with room
/// for two, recording `a`, then `b` strictly later, then `c` drops `a`
/// (and a later `a` is new again).
pub proof fn lemma_full_cache_drops_oldest(
    d: DedupV,
    a: Seq<char>,
    b: Seq<char>,
    c: Seq<char>,
    t1: u128,
    t2: u128,
    t3: u128,
    r1: bool,
    e1: Map<Seq<char>, u128>,
    r2: bool,
    e2: Map<Seq<char>, u128>,
    r3: bool,
    e3: Map<Seq<char>, u128>,
)
    requires
        d.entries == no_fingerprints(),
        d.max_entries == 2,
        a != b && b != c && a != c,
        t1 < t2,
        recorded(d, a, t1, r1, e1),
        recorded(DedupV { entries: e1, ..d }, b, t2, r2, e2),
        recorded(DedupV { entries: e2, ..d }, c, t3, r3, e3),
    ensures
        !e3.contains_key(a),
        e3 == map![b => t2, c => t3],
{
    assert(e1 == map![a => t1]);
    assert(e1.dom() =~= set![a]);
    assert(e2 =~= map![a => t1, b => t2]);
    assert(e2.dom() =~= set![a, b]);
    assert(e2.dom().len() == 2) by {
        assert(set![a].insert(b) =~= set![a, b]);
    }
    let k = choose|k: Seq<char>| oldest(e2, k) && e3 == e2.remove(k).insert(c, t3);
    assert(oldest(e2, k));
    if k == b {
        assert(e2.contains_key(a));
        assert(e2[b] <= e2[a]);
    }
    assert(k == a);
    assert(e3 =~= map![b => t2, c => t3]);
}

/// In-memory dedup cache keyed by `"<slug>:<body_hash_hex>"`.
#[derive(Debug)]
pub struct WebhookDedup {
    seen: Seen,
    clock: Instant,
    last_reading: u128,
    window_nanos: u128,
    max_entries: usize,
}

impl View for WebhookDedup {
    type V = DedupV;

    closed spec fn view(&self) -> DedupV {
        DedupV {
            entries: held(self.seen),
            window: self.window_nanos,
            max_entries: self.max_entries as nat,
            clock: self.last_reading,
        }
    }
}

impl WebhookDedup {
    /// The cache's invariant: finitely many fingerprints, at least one
    /// allowed, and never more than allowed.
    pub open spec fn wf(&self) -> bool {
        &&& self@.entries.dom().finite()
        &&& self@.max_entries >= 1
        &&& self@.entries.dom().len() <= self@.max_entries
    }

    /// Build a cache with an explicit window, in nanoseconds, and size cap
    /// (a cap of 0 counts as 1). Its clock starts at zero.
    pub fn new(window_nanos: u128, max_entries: usize) -> (r: Self)
        ensures
            r.wf(),
            r@.window == window_nanos,
            r@.clock == 0,
            r@.entries == no_fingerprints(),
            r@.max_entries == if max_entries == 0 {
                1
            } else {
                max_entries as nat
            },
    {
        let seen = map_new();
        let r = WebhookDedup {
            seen,
            clock: clock_start(),
            last_reading: 0,
            window_nanos,
            max_entries: if max_entries == 0 {
                1
            } else {
                max_entries
            },
        };
        proof {
            assert(r@.entries.dom() =~= Set::<Seq<char>>::empty());
        }
        r
    }

    /// Window length, in nanoseconds.
    pub fn window(&self) -> (r: u128)
        ensures
            r == self@.window,
    {
        self.window_nanos
    }

    /// Current count of live + stale entries.
    pub fn len(&self) -> (n: usize)
        ensures
            n == self@.entries.dom().len(),
    {
        map_len(&self.seen)
    }

    /// `true` if no entries are tracked.
    pub fn is_empty(&self) -> (r: bool)
        requires
            self.wf(),
        ensures
            r == (self@.entries == no_fingerprints()),
    {
        let n = map_len(&self.seen);
        proof {
            if n == 0 {
                assert(self@.entries.dom() =~= Set::<Seq<char>>::empty());
                assert(self@.entries =~= no_fingerprints());
            } else {
                assert(self@.entries.dom().len() > 0);
            }
        }
        n == 0
    }

    /// Check + insert with the clock reading `now`: returns `true` if `key`
    /// is already present with a live time (a replay), otherwise records
    /// `key` at `now` and returns `false`.
    pub fn check_and_insert_at(&mut self, key: String, now: u128) -> (r: bool)
        requires
            old(self).wf(),
        ensures
            final(self).wf(),
            recorded(old(self)@, key@, now, r, final(self)@.entries),
            final(self)@.window == old(self)@.window,
            final(self)@.clock == old(self)@.clock,
            final(self)@.max_entries == old(self)@.max_entries,
    {
        match map_get(&self.seen, key.as_str()) {
            Some(ts) => {
                if is_live(now, ts, self.window_nanos) {
                    return true;
                }
                map_insert(&mut self.seen, key, now);
                proof {
                    assert(held(self.seen).dom() =~= held(old(self).seen).dom());
                }
                false
            },
            None => {
                let n = map_len(&self.seen);
                if n >= self.max_entries {
                    self.evict_oldest();
                }
                map_insert(&mut self.seen, key, now);
                false
            },
        }
    }

    /// The current clock reading, never below an earlier one the cache took
    /// (`Instant` is monotonic; the cache keeps its latest reading to say so).
    fn read_clock(&mut self) -> (now: u128)
        requires
            old(self).wf(),
        ensures
            final(self).wf(),
            now >= old(self)@.clock,
            final(self)@ == (DedupV { clock: now, ..old(self)@ }),
    {
        let reading = clock_nanos(&self.clock);
        let now = if reading > self.last_reading {
            reading
        } else {
            self.last_reading
        };
        self.last_reading = now;
        now
    }

    /// Check + insert at the current clock reading: `true` for a replay.
    /// What holds is what [`Self::check_and_insert_at`] states for a reading
    /// of the clock no earlier than the cache's previous one, which becomes
    /// its latest.
    pub fn check_and_insert(&mut self, key: String) -> (r: bool)
        requires
            old(self).wf(),
        ensures
            final(self).wf(),
            exists|now: u128|
                now >= old(self)@.clock && final(self)@.clock == now && recorded(
                    old(self)@,
                    key@,
                    now,
                    r,
                    final(self)@.entries,
                ),
            final(self)@.window == old(self)@.window,
            final(self)@.max_entries == old(self)@.max_entries,
    {
        let ghost k = key@;
        let now = self.read_clock();
        let ghost mid = self@;
        let r = self.check_and_insert_at(key, now);
        assert(recorded(old(self)@, k, now, r, self@.entries)) by {
            assert(mid.entries == old(self)@.entries);
            assert(mid.window == old(self)@.window);
            assert(mid.max_entries == old(self)@.max_entries);
        }
        r
    }

    /// Drop entries that are no longer live at `now`.
    pub fn prune_at(&mut self, now: u128)
        requires
            old(self).wf(),
        ensures
            final(self).wf(),
            final(self)@.entries == live_part(old(self)@.entries, now, old(self)@.window),
            final(self)@.window == old(self)@.window,
            final(self)@.clock == old(self)@.clock,
            final(self)@.max_entries == old(self)@.max_entries,
    {
        let w = self.window_nanos;
        map_retain_live(&mut self.seen, now, w);
        proof {
            let o = old(self)@.entries;
            vstd::set_lib::lemma_len_subset(self@.entries.dom(), o.dom());
        }
    }

    /// Drop expired entries, at the current clock reading (no earlier than
    /// the cache's previous one, and then its latest).
    pub fn prune(&mut self)
        requires
            old(self).wf(),
        ensures
            final(self).wf(),
            exists|now: u128|
                now >= old(self)@.clock && final(self)@.clock == now && final(self)@.entries
                    == live_part(old(self)@.entries, now, old(self)@.window),
            final(self)@.window == old(self)@.window,
            final(self)@.max_entries == old(self)@.max_entries,
    {
        let now = self.read_clock();
        self.prune_at(now);
    }

    /// Evict one of the oldest entries to make room for an insert.
    fn evict_oldest(&mut self)
        requires
            old(self).wf(),
            old(self)@.entries.dom().len() >= old(self)@.max_entries,
        ensures
            exists|k: Seq<char>| oldest(old(self)@.entries, k) && final(self)@.entries == old(self)@.entries.remove(k),
            final(self)@.entries.dom().len() == old(self)@.entries.dom().len() - 1,
            final(self)@.entries.dom().finite(),
            final(self)@.window == old(self)@.window,
            final(self)@.clock == old(self)@.clock,
            final(self)@.max_entries == old(self)@.max_entries,
    {
        let entries = map_entries(&self.seen);
        let ghost m = old(self)@.entries;
        assert(entries@.len() >= 1);
        let mut best: usize = 0;
        let mut i: usize = 1;
        while i < entries.len()
            invariant
                1 <= entries@.len(),
                best < entries@.len(),
                i <= entries@.len(),
                forall|j: int| 0 <= j < i ==> entries@[best as int].1 <= #[trigger] entries@[j].1,
            decreases entries.len() - i,
        {
            if entries[i].1 < entries[best].1 {
                best = i;
            }
            i = i + 1;
        }
        let ghost k = entries@[best as int].0@;
        proof {
            assert forall|j: Seq<char>| #[trigger] m.contains_key(j) implies m[k] <= m[j] by {
                let idx = choose|idx: int| 0 <= idx < entries@.len() && entries@[idx].0@ == j;
                assert(entries@[idx].0@ == j);
            }
        }
        map_remove(&mut self.seen, entries[best].0.as_str());
    }
}

/// Window in seconds from its setting: the value when it parses as `u64`,
/// the default otherwise (also when unset).
pub open spec fn window_setting(raw: Option<Seq<char>>) -> u64 {
    match raw {
        Some(s) => match parse_unsigned(s, u64::MAX as nat) {
            Some(n) => n as u64,
            None => DEFAULT_WINDOW_SECS,
        },
        None => DEFAULT_WINDOW_SECS,
    }
}

/// Size cap from its setting: the value when it parses as `usize`, the
/// default otherwise (also when unset).
pub open spec fn max_setting(raw: Option<Seq<char>>) -> usize {
    match raw {
        Some(s) => match parse_unsigned(s, usize::MAX as nat) {
            Some(n) => n as usize,
            None => DEFAULT_MAX_ENTRIES,
        },
        None => DEFAULT_MAX_ENTRIES,
    }
}

/// The window, in seconds, that the value of `ENV_WINDOW` selects.
pub fn window_secs_from(raw: Option<&str>) -> (r: u64)
    ensures
        r == window_setting(opt_chars(raw)),
{
    match raw {
        Some(s) => {
            let v = chars_vec(s);
            assert(v@.subrange(0, v@.len() as int) =~= v@);
            match parse_unsigned_range(&v, 0, v.len(), u64::MAX) {
                Some(n) => n,
                None => DEFAULT_WINDOW_SECS,
            }
        },
        None => DEFAULT_WINDOW_SECS,
    }
}

/// The size cap that the value of `ENV_MAX` selects.
pub fn max_entries_from(raw: Option<&str>) -> (r: usize)
    ensures
        r == max_setting(opt_chars(raw)),
{
    match raw {
        Some(s) => {
            let v = chars_vec(s);
            assert(v@.subrange(0, v@.len() as int) =~= v@);
            match parse_unsigned_range(&v, 0, v.len(), usize::MAX as u64) {
                Some(n) => n as usize,
                None => DEFAULT_MAX_ENTRIES,
            }
        },
        None => DEFAULT_MAX_ENTRIES,
    }
}

} // verus!
