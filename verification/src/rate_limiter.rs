//! Per-key request accounting inside a rolling time window.
//!
//! The limiter maps each key to a count and the window's anchor time. On
//! every call it first sweeps out every entry whose age reached the window,
//! regardless of key, then looks the key up (creating a fresh entry if
//! absent), rejects if the count reached the limit, and otherwise counts the
//! call and re-anchors the window at the current time. Because the anchor is
//! refreshed on every accepted call, the window rolls with the most recent
//! accepted request: a steady stream of accepted calls postpones expiry
//! indefinitely. That is a deliberate simplicity trade-off, not an accident.
//!
//! The whole sweep-lookup-count sequence runs under `&mut self`, so no
//! caller can observe a partial update; a concurrent application serializes
//! calls with an exclusive lock around this structure, and that exclusive
//! access is exactly what the `&mut` contract here models.

use vstd::prelude::*;
use vstd::seq_lib::*;

use crate::errors::GatewayError;

verus! {

/// The mathematical image of one entry: the key's characters, the accepted
/// count, and the window anchor.
pub struct EntryModel {
    pub key: Seq<char>,
    pub count: u32,
    pub window_start: u64,
}

/// One stored entry.
pub struct RateLimitEntry {
    pub key: String,
    pub count: u32,
    pub window_start: u64,
}

impl View for RateLimitEntry {
    type V = EntryModel;

    open spec fn view(&self) -> EntryModel {
        EntryModel { key: self.key@, count: self.count, window_start: self.window_start }
    }
}

/// The age of an entry anchored at `ws`, seen at time `now`; an anchor in
/// the future counts as age zero.
pub open spec fn spec_age(now: u64, ws: u64) -> u64 {
    if now >= ws {
        (now - ws) as u64
    } else {
        0
    }
}

/// Whether an entry still lives at `now`: its age has not reached the window.
pub open spec fn spec_live(e: EntryModel, now: u64, window: u64) -> bool {
    spec_age(now, e.window_start) < window
}

/// The entries that survive the sweep at `now`, in their original order.
pub open spec fn spec_evict(s: Seq<EntryModel>, now: u64, window: u64) -> Seq<EntryModel>
    decreases s.len(),
{
    if s.len() == 0 {
        Seq::empty()
    } else {
        (if spec_live(s[0], now, window) {
            seq![s[0]]
        } else {
            Seq::empty()
        }) + spec_evict(s.drop_first(), now, window)
    }
}

/// The index of the first entry for `k`, or -1 when there is none.
pub open spec fn spec_find(s: Seq<EntryModel>, k: Seq<char>) -> int
    decreases s.len(),
{
    if s.len() == 0 {
        -1
    } else if s[0].key == k {
        0
    } else {
        let r = spec_find(s.drop_first(), k);
        if r < 0 {
            -1
        } else {
            r + 1
        }
    }
}

/// One check-and-count transition: the state after the call, and whether the
/// call was accepted.
pub open spec fn spec_step(
    s: Seq<EntryModel>,
    limit: u32,
    window: u64,
    k: Seq<char>,
    now: u64,
) -> (Seq<EntryModel>, bool) {
    let live = spec_evict(s, now, window);
    let i = spec_find(live, k);
    if i >= 0 {
        let e = live[i];
        if e.count >= limit {
            (live, false)
        } else {
            (live.update(i, EntryModel { key: k, count: (e.count + 1) as u32, window_start: now }), true)
        }
    } else {
        if limit == 0 {
            (live.push(EntryModel { key: k, count: 0, window_start: now }), false)
        } else {
            (live.push(EntryModel { key: k, count: 1, window_start: now }), true)
        }
    }
}

/// No entry's count exceeds the limit.
pub open spec fn counts_bounded(s: Seq<EntryModel>, limit: u32) -> bool {
    forall|i: int| 0 <= i < s.len() ==> s[i].count <= limit
}

/// No two entries carry the same key.
pub open spec fn unique_keys(s: Seq<EntryModel>) -> bool {
    forall|i: int, j: int| 0 <= i < j < s.len() ==> s[i].key != s[j].key
}

/// The model of a stored entry sequence.
pub open spec fn models(s: Seq<RateLimitEntry>) -> Seq<EntryModel> {
    s.map_values(|e: RateLimitEntry| e@)
}

/// The per-key request counter. `limit` and `window` (in seconds) are fixed
/// at construction.
pub struct RateLimiter {
    entries: Vec<RateLimitEntry>,
    limit: u32,
    window: u64,
}

impl View for RateLimiter {
    type V = Seq<EntryModel>;

    closed spec fn view(&self) -> Seq<EntryModel> {
        models(self.entries@)
    }
}

impl RateLimiter {
    /// The configured per-window cap.
    pub closed spec fn spec_limit(&self) -> u32 {
        self.limit
    }

    /// The configured window length in seconds.
    pub closed spec fn spec_window(&self) -> u64 {
        self.window
    }

    /// Every key has at most one entry, and no stored count exceeds the
    /// configured limit.
    pub open spec fn wf(&self) -> bool {
        counts_bounded(self@, self.spec_limit()) && unique_keys(self@)
    }

    /// A fresh limiter that accepts up to `limit` calls per key within a
    /// rolling window of `window_seconds`.
    pub fn new(limit: u32, window_seconds: u64) -> (r: RateLimiter)
        ensures
            r@ == Seq::<EntryModel>::empty(),
            r.spec_limit() == limit,
            r.spec_window() == window_seconds,
            r.wf(),
    {
        let r = RateLimiter { entries: Vec::new(), limit, window: window_seconds };
        proof {
            assert(r@ =~= Seq::<EntryModel>::empty());
        }
        r
    }

    /// Sweeps expired entries, then counts this call against `key` at time
    /// `now`: rejected with `RateLimited` once the key's count has reached
    /// the limit, accepted and counted otherwise. The whole sequence is one
    /// exclusive-access transition; the resulting state and verdict are
    /// exactly [`spec_step`] of the old state.
    pub fn check(&mut self, key: &str, now: u64) -> (r: Result<(), GatewayError>)
        requires
            old(self).wf(),
        ensures
            final(self).wf(),
            final(self).spec_limit() == old(self).spec_limit(),
            final(self).spec_window() == old(self).spec_window(),
            final(self)@ == spec_step(
                old(self)@,
                old(self).spec_limit(),
                old(self).spec_window(),
                key@,
                now,
            ).0,
            r is Ok <==> spec_step(
                old(self)@,
                old(self).spec_limit(),
                old(self).spec_window(),
                key@,
                now,
            ).1,
            r matches Err(e) ==> e is RateLimited,
    {
        let ghost m0 = self@;
        let ghost w = self.window;
        let n = self.entries.len();
        let mut kept: Vec<RateLimitEntry> = Vec::new();
        proof {
            assert(models(kept@) =~= Seq::<EntryModel>::empty());
            assert(m0.subrange(0, n as int) =~= m0);
            assert(spec_evict(m0, now, w) =~= models(kept@) + spec_evict(
                m0.subrange(0, n as int),
                now,
                w,
            ));
        }
        let mut i: usize = 0;
        while i < n
            invariant
                old(self).wf(),
                self.entries@ == old(self).entries@,
                self.limit == old(self).limit,
                self.window == old(self).window,
                m0 == models(self.entries@),
                w == self.window,
                n == self.entries@.len(),
                i <= n,
                spec_evict(m0, now, w) == models(kept@) + spec_evict(
                    m0.subrange(i as int, n as int),
                    now,
                    w,
                ),
                counts_bounded(models(kept@), self.limit),
            decreases n - i,
        {
            proof {
                assert(m0.subrange(i as int, n as int).drop_first() =~= m0.subrange(
                    i + 1,
                    n as int,
                ));
                assert(m0.subrange(i as int, n as int)[0] == m0[i as int]);
            }
            let e = &self.entries[i];
            let age = if now >= e.window_start {
                now - e.window_start
            } else {
                0
            };
            if age < self.window {
                let ghost kept_before = models(kept@);
                kept.push(
                    RateLimitEntry {
                        key: e.key.clone(),
                        count: e.count,
                        window_start: e.window_start,
                    },
                );
                proof {
                    assert(models(kept@) =~= kept_before.push(m0[i as int]));
                    assert(models(kept@) + spec_evict(m0.subrange(i + 1, n as int), now, w)
                        =~= kept_before + spec_evict(m0.subrange(i as int, n as int), now, w));
                    assert(m0 == old(self)@);
                    assert(counts_bounded(m0, old(self).spec_limit()));
                    assert(m0[i as int].count <= self.limit);
                    assert forall|idx: int|
                        0 <= idx < models(kept@).len() implies models(kept@)[idx].count
                        <= self.limit by {
                        if idx < kept_before.len() {
                            assert(kept_before[idx].count <= self.limit);
                            assert(models(kept@)[idx] == kept_before[idx]);
                        } else {
                            assert(models(kept@)[idx] == m0[i as int]);
                        }
                    }
                }
            }
            i += 1;
        }
        proof {
            assert(m0.subrange(n as int, n as int) =~= Seq::<EntryModel>::empty());
            assert(spec_evict(m0, now, w) =~= models(kept@));
        }
        let ghost live = spec_evict(m0, now, w);
        // look the key up among the survivors
        let key_string = key.to_owned();
        let kn = kept.len();
        let mut j: usize = 0;
        let mut found: Option<usize> = None;
        while j < kn && found.is_none()
            invariant
                kn == kept@.len(),
                j <= kn,
                live == models(kept@),
                found is None ==> forall|jj: int| 0 <= jj < j ==> live[jj].key != key@,
                found matches Some(fj) ==> fj < kn && live[fj as int].key == key@ && spec_find(
                    live,
                    key@,
                ) == fj as int,
                key_string@ == key@,
            decreases kn - j, (if found is None { 1int } else { 0int }),
        {
            if kept[j].key == key_string {
                found = Some(j);
                proof {
                    lemma_find_at(live, key@, j as int);
                }
            } else {
                j += 1;
            }
        }
        let verdict: Result<(), GatewayError>;
        match found {
            Some(fj) => {
                let c = kept[fj].count;
                if c >= self.limit {
                    verdict = Err(GatewayError::RateLimited);
                } else {
                    let mut entry = kept.remove(fj);
                    entry.count = entry.count + 1;
                    entry.window_start = now;
                    let ghost updated = entry@;
                    kept.insert(fj, entry);
                    proof {
                        assert(models(kept@) =~= live.update(fj as int, updated));
                        assert(updated == EntryModel {
                            key: key@,
                            count: (live[fj as int].count + 1) as u32,
                            window_start: now,
                        });
                    }
                    verdict = Ok(());
                }
            },
            None => {
                proof {
                    lemma_find_none(live, key@);
                }
                let ghost live_before = models(kept@);
                if self.limit == 0 {
                    kept.push(RateLimitEntry { key: key_string, count: 0, window_start: now });
                    proof {
                        assert(models(kept@) =~= live_before.push(
                            EntryModel { key: key@, count: 0, window_start: now },
                        ));
                    }
                    verdict = Err(GatewayError::RateLimited);
                } else {
                    kept.push(RateLimitEntry { key: key_string, count: 1, window_start: now });
                    proof {
                        assert(models(kept@) =~= live_before.push(
                            EntryModel { key: key@, count: 1, window_start: now },
                        ));
                    }
                    verdict = Ok(());
                }
            },
        }
        proof {
            lemma_step_unique(m0, old(self).spec_limit(), w, key@, now);
        }
        self.entries = kept;
        verdict
    }
}

/// The sweep drops entries but never duplicates a key.
proof fn lemma_evict_unique(s: Seq<EntryModel>, now: u64, window: u64)
    requires
        unique_keys(s),
    ensures
        unique_keys(spec_evict(s, now, window)),
    decreases s.len(),
{
    if s.len() > 0 {
        assert(forall|j: int| 0 <= j < s.len() - 1 ==> s.drop_first()[j] == s[j + 1]);
        lemma_evict_unique(s.drop_first(), now, window);
        let ev = spec_evict(s, now, window);
        let rest = spec_evict(s.drop_first(), now, window);
        if spec_live(s[0], now, window) {
            assert(forall|j: int|
                0 <= j < s.drop_first().len() ==> s.drop_first()[j].key != s[0].key);
            lemma_evict_pointwise(s.drop_first(), now, window, |e: EntryModel| e.key != s[0].key);
            assert forall|i: int, j: int| 0 <= i < j < ev.len() implies ev[i].key != ev[j].key by {
                if i == 0 {
                    assert(ev[j] == rest[j - 1]);
                } else {
                    assert(ev[i] == rest[i - 1]);
                    assert(ev[j] == rest[j - 1]);
                }
            }
        }
    }
}

/// The transition never duplicates a key either: it updates the key's one
/// entry in place, or pushes a fresh entry for a key the survivors lack.
proof fn lemma_step_unique(s: Seq<EntryModel>, limit: u32, window: u64, k: Seq<char>, now: u64)
    requires
        unique_keys(s),
    ensures
        unique_keys(spec_step(s, limit, window, k, now).0),
{
    lemma_evict_unique(s, now, window);
    let live = spec_evict(s, now, window);
    let i = spec_find(live, k);
    lemma_find_props(live, k);
    let s2 = spec_step(s, limit, window, k, now).0;
    if i >= 0 && live[i].count < limit {
        assert forall|a: int, b: int| 0 <= a < b < s2.len() implies s2[a].key != s2[b].key by {
            assert(s2[a].key == live[a].key);
            assert(s2[b].key == live[b].key);
        }
    } else if i < 0 {
        assert forall|a: int, b: int| 0 <= a < b < s2.len() implies s2[a].key != s2[b].key by {
            if b == live.len() {
                assert(s2[a] == live[a]);
                assert(live[a].key != k);
            } else {
                assert(s2[a] == live[a]);
                assert(s2[b] == live[b]);
            }
        }
    }
}

/// The first entry for `k` sits at `i`: everything before differs.
proof fn lemma_find_at(s: Seq<EntryModel>, k: Seq<char>, i: int)
    requires
        0 <= i < s.len(),
        s[i].key == k,
        forall|j: int| 0 <= j < i ==> s[j].key != k,
    ensures
        spec_find(s, k) == i,
    decreases i,
{
    if i == 0 {
    } else {
        assert(s[0].key != k);
        assert(s.drop_first()[i - 1] == s[i]);
        assert(forall|j: int| 0 <= j < i - 1 ==> s.drop_first()[j] == s[j + 1]);
        lemma_find_at(s.drop_first(), k, i - 1);
    }
}

/// A key that no entry carries is not found.
proof fn lemma_find_none(s: Seq<EntryModel>, k: Seq<char>)
    requires
        forall|j: int| 0 <= j < s.len() ==> s[j].key != k,
    ensures
        spec_find(s, k) == -1,
    decreases s.len(),
{
    if s.len() > 0 {
        assert(forall|j: int| 0 <= j < s.len() - 1 ==> s.drop_first()[j] == s[j + 1]);
        lemma_find_none(s.drop_first(), k);
    }
}

/// A found key names an entry that carries it; an unfound key is carried by
/// no entry.
proof fn lemma_find_props(s: Seq<EntryModel>, k: Seq<char>)
    ensures
        spec_find(s, k) == -1 ==> forall|j: int| 0 <= j < s.len() ==> s[j].key != k,
        spec_find(s, k) != -1 ==> 0 <= spec_find(s, k) < s.len() && s[spec_find(s, k)].key == k,
    decreases s.len(),
{
    if s.len() == 0 {
    } else if s[0].key == k {
    } else {
        assert(forall|j: int| 0 <= j < s.len() - 1 ==> s.drop_first()[j] == s[j + 1]);
        lemma_find_props(s.drop_first(), k);
        if spec_find(s, k) == -1 {
            assert forall|j: int| 0 <= j < s.len() implies s[j].key != k by {
                if j >= 1 {
                    assert(s.drop_first()[j - 1].key != k);
                }
            }
        }
    }
}

/// A property of every entry survives the sweep.
proof fn lemma_evict_pointwise(
    s: Seq<EntryModel>,
    now: u64,
    window: u64,
    p: spec_fn(EntryModel) -> bool,
)
    requires
        forall|i: int| 0 <= i < s.len() ==> p(s[i]),
    ensures
        forall|i: int|
            0 <= i < spec_evict(s, now, window).len() ==> p(
                #[trigger] spec_evict(s, now, window)[i],
            ),
    decreases s.len(),
{
    if s.len() > 0 {
        assert(forall|j: int| 0 <= j < s.len() - 1 ==> s.drop_first()[j] == s[j + 1]);
        lemma_evict_pointwise(s.drop_first(), now, window, p);
        let ev = spec_evict(s, now, window);
        let rest = spec_evict(s.drop_first(), now, window);
        if spec_live(s[0], now, window) {
            assert forall|i: int| 0 <= i < ev.len() implies p(ev[i]) by {
                if i == 0 {
                    assert(ev[i] == s[0]);
                } else {
                    assert(ev[i] == rest[i - 1]);
                }
            }
        }
    }
}

/// Everything that survives the sweep is live.
proof fn lemma_evict_all_live(s: Seq<EntryModel>, now: u64, window: u64)
    ensures
        forall|i: int|
            0 <= i < spec_evict(s, now, window).len() ==> spec_live(
                #[trigger] spec_evict(s, now, window)[i],
                now,
                window,
            ),
    decreases s.len(),
{
    if s.len() > 0 {
        lemma_evict_all_live(s.drop_first(), now, window);
        let ev = spec_evict(s, now, window);
        let rest = spec_evict(s.drop_first(), now, window);
        if spec_live(s[0], now, window) {
            assert forall|i: int| 0 <= i < ev.len() implies spec_live(ev[i], now, window) by {
                if i == 0 {
                    assert(ev[i] == s[0]);
                } else {
                    assert(ev[i] == rest[i - 1]);
                }
            }
        }
    }
}

/// `k` is carried by exactly one entry, which holds count `c` and anchor `ws`.
pub open spec fn sole_entry(s: Seq<EntryModel>, k: Seq<char>, c: u32, ws: u64) -> bool {
    let i = spec_find(s, k);
    &&& 0 <= i < s.len()
    &&& s[i] == EntryModel { key: k, count: c, window_start: ws }
    &&& forall|j: int| 0 <= j < s.len() && j != i ==> s[j].key != k
}

/// A live sole entry survives the sweep unchanged and stays sole.
proof fn lemma_evict_sole(s: Seq<EntryModel>, k: Seq<char>, c: u32, ws: u64, now: u64, window: u64)
    requires
        sole_entry(s, k, c, ws),
        spec_age(now, ws) < window,
    ensures
        sole_entry(spec_evict(s, now, window), k, c, ws),
    decreases s.len(),
{
    let i0 = spec_find(s, k);
    let ev = spec_evict(s, now, window);
    let rest = spec_evict(s.drop_first(), now, window);
    assert(forall|j: int| 0 <= j < s.len() - 1 ==> s.drop_first()[j] == s[j + 1]);
    if s[0].key == k {
        assert(i0 == 0);
        assert(spec_live(s[0], now, window));
        assert(forall|j: int| 0 <= j < s.drop_first().len() ==> s.drop_first()[j].key != k);
        lemma_evict_pointwise(s.drop_first(), now, window, |e: EntryModel| e.key != k);
        assert(ev == seq![s[0]] + rest);
        assert(ev[0] == s[0]);
        assert(spec_find(ev, k) == 0);
        assert(forall|j: int| 0 <= j < ev.len() && j != 0 ==> ev[j] == rest[j - 1]);
    } else {
        assert(i0 >= 1);
        assert(spec_find(s.drop_first(), k) == i0 - 1);
        assert(sole_entry(s.drop_first(), k, c, ws));
        lemma_evict_sole(s.drop_first(), k, c, ws, now, window);
        if spec_live(s[0], now, window) {
            assert(ev == seq![s[0]] + rest);
            assert(ev.drop_first() =~= rest);
            let ir = spec_find(rest, k);
            assert(ev[0] == s[0]);
            assert(spec_find(ev, k) == ir + 1);
            assert(ev[ir + 1] == rest[ir]);
            assert forall|j: int|
                0 <= j < ev.len() && j != ir + 1 implies ev[j].key != k by {
                if j != 0 {
                    assert(ev[j] == rest[j - 1]);
                }
            }
        } else {
            assert(ev == rest);
        }
    }
}

/// A call on a key the state does not carry is accepted (the limit allowing
/// at least one call), and leaves the key with count 1 anchored at `now`.
proof fn lemma_step_fresh(s: Seq<EntryModel>, limit: u32, window: u64, k: Seq<char>, now: u64)
    requires
        limit >= 1,
        forall|j: int| 0 <= j < s.len() ==> s[j].key != k,
    ensures
        spec_step(s, limit, window, k, now).1 == true,
        sole_entry(
            spec_step(s, limit, window, k, now).0,
            k,
            1,
            now,
        ),
{
    let live = spec_evict(s, now, window);
    lemma_evict_pointwise(s, now, window, |e: EntryModel| e.key != k);
    assert(forall|j: int| 0 <= j < live.len() ==> live[j].key != k);
    lemma_find_none(live, k);
    let s2 = live.push(EntryModel { key: k, count: 1, window_start: now });
    assert(s2[live.len() as int].key == k);
    assert(forall|j: int| 0 <= j < live.len() ==> s2[j] == live[j]);
    lemma_find_at(s2, k, live.len() as int);
}

/// A call on a live key below the limit is accepted, counts once, and
/// re-anchors the window at `now`.
proof fn lemma_step_live_below(
    s: Seq<EntryModel>,
    limit: u32,
    window: u64,
    k: Seq<char>,
    now: u64,
    c: u32,
    ws: u64,
)
    requires
        sole_entry(s, k, c, ws),
        c < limit,
        spec_age(now, ws) < window,
    ensures
        spec_step(s, limit, window, k, now).1 == true,
        sole_entry(spec_step(s, limit, window, k, now).0, k, (c + 1) as u32, now),
{
    let live = spec_evict(s, now, window);
    lemma_evict_sole(s, k, c, ws, now, window);
    let i = spec_find(live, k);
    let s2 = live.update(i, EntryModel { key: k, count: (c + 1) as u32, window_start: now });
    assert(forall|j: int| 0 <= j < live.len() && j != i ==> s2[j] == live[j]);
    assert(s2[i].key == k);
    lemma_find_at(s2, k, i);
}

/// A call on a live key at (or beyond) the limit is rejected and changes no
/// entry beyond the sweep.
proof fn lemma_step_at_limit(
    s: Seq<EntryModel>,
    limit: u32,
    window: u64,
    k: Seq<char>,
    now: u64,
    c: u32,
    ws: u64,
)
    requires
        sole_entry(s, k, c, ws),
        c >= limit,
        spec_age(now, ws) < window,
    ensures
        spec_step(s, limit, window, k, now).1 == false,
        spec_step(s, limit, window, k, now).0 == spec_evict(s, now, window),
        sole_entry(spec_step(s, limit, window, k, now).0, k, c, ws),
{
    lemma_evict_sole(s, k, c, ws, now, window);
}

/// Once the window has elapsed for every entry of a key, the next call on
/// that key is accepted again (the limit allowing at least one call).
pub proof fn lemma_step_stale_accepts(
    s: Seq<EntryModel>,
    limit: u32,
    window: u64,
    k: Seq<char>,
    now: u64,
)
    requires
        limit >= 1,
        forall|j: int|
            0 <= j < s.len() && s[j].key == k ==> spec_age(now, #[trigger] s[j].window_start)
                >= window,
    ensures
        spec_step(s, limit, window, k, now).1 == true,
{
    let live = spec_evict(s, now, window);
    lemma_evict_pointwise(
        s,
        now,
        window,
        |e: EntryModel| e.key == k ==> spec_age(now, e.window_start) >= window,
    );
    lemma_evict_all_live(s, now, window);
    assert forall|j: int| 0 <= j < live.len() implies live[j].key != k by {
        assert(spec_live(live[j], now, window));
    }
    lemma_find_none(live, k);
}

/// No call — accepted or rejected — ever pushes any key's count beyond the
/// limit: the bound is an invariant of the transition, and because the whole
/// transition runs under exclusive access, simultaneous callers cannot
/// overshoot it either.
pub proof fn lemma_step_preserves_bound(
    s: Seq<EntryModel>,
    limit: u32,
    window: u64,
    k: Seq<char>,
    now: u64,
)
    requires
        counts_bounded(s, limit),
    ensures
        counts_bounded(spec_step(s, limit, window, k, now).0, limit),
{
    let live = spec_evict(s, now, window);
    lemma_evict_pointwise(s, now, window, |e: EntryModel| e.count <= limit);
    assert(counts_bounded(live, limit));
    let i = spec_find(live, k);
    let s2 = spec_step(s, limit, window, k, now).0;
    lemma_find_props(live, k);
    assert forall|j: int| 0 <= j < s2.len() implies s2[j].count <= limit by {
        if i >= 0 && live[i].count < limit && j == i {
        } else if j < live.len() {
            assert(s2[j] == live[j]);
        }
    }
}

/// The states and verdicts of a series of calls on one key at the given
/// times.
pub open spec fn spec_run(
    s: Seq<EntryModel>,
    limit: u32,
    window: u64,
    k: Seq<char>,
    times: Seq<u64>,
) -> (Seq<EntryModel>, Seq<bool>)
    decreases times.len(),
{
    if times.len() == 0 {
        (s, Seq::empty())
    } else {
        let first = spec_step(s, limit, window, k, times[0]);
        let rest = spec_run(first.0, limit, window, k, times.drop_first());
        (rest.0, seq![first.1] + rest.1)
    }
}

proof fn lemma_run_from_sole(
    s: Seq<EntryModel>,
    limit: u32,
    window: u64,
    k: Seq<char>,
    times: Seq<u64>,
    c: u32,
    ws: u64,
)
    requires
        sole_entry(s, k, c, ws),
        1 <= c <= limit,
        c + times.len() == limit + 1,
        times.len() >= 1 ==> ws <= times[0] && times[0] - ws < window,
        forall|i: int|
            0 < i < times.len() ==> times[i - 1] <= #[trigger] times[i] && times[i] - times[i - 1]
                < window,
    ensures
        spec_run(s, limit, window, k, times).1.len() == times.len(),
        forall|i: int|
            0 <= i < times.len() - 1 ==> #[trigger] spec_run(s, limit, window, k, times).1[i]
                == true,
        times.len() >= 1 ==> spec_run(s, limit, window, k, times).1[times.len() - 1] == false,
        times.len() == 1 ==> sole_entry(spec_run(s, limit, window, k, times).0, k, c, ws),
        times.len() >= 2 ==> sole_entry(
            spec_run(s, limit, window, k, times).0,
            k,
            limit,
            times[times.len() - 2],
        ),
    decreases times.len(),
{
    if times.len() == 0 {
    } else {
        let now = times[0];
        assert(spec_age(now, ws) < window);
        let first = spec_step(s, limit, window, k, now);
        let times2 = times.drop_first();
        assert(forall|j: int| 0 <= j < times.len() - 1 ==> times2[j] == times[j + 1]);
        let rest = spec_run(first.0, limit, window, k, times2);
        if c == limit {
            assert(times.len() == 1);
            lemma_step_at_limit(s, limit, window, k, now, c, ws);
            assert(spec_run(s, limit, window, k, times).1 =~= seq![false]);
        } else {
            lemma_step_live_below(s, limit, window, k, now, c, ws);
            lemma_run_from_sole(first.0, limit, window, k, times2, (c + 1) as u32, now);
            let full = spec_run(s, limit, window, k, times);
            assert(full.1 == seq![true] + rest.1);
            assert forall|i: int| 0 <= i < times.len() - 1 implies full.1[i] == true by {
                if i >= 1 {
                    assert(full.1[i] == rest.1[i - 1]);
                }
            }
            assert(full.1[times.len() - 1] == rest.1[times2.len() - 1]);
            if times2.len() >= 2 {
                assert(times2[times2.len() - 2] == times[times.len() - 2]);
            }
        }
    }
}

/// The quota law: starting from a state without the key, `limit` calls
/// within one rolling window are all accepted, the `limit + 1`-th call in
/// that window is rejected, and any later call made once the window has
/// elapsed since the last accepted call is accepted again.
pub proof fn lemma_quota_exhausted(
    s: Seq<EntryModel>,
    limit: u32,
    window: u64,
    k: Seq<char>,
    times: Seq<u64>,
)
    requires
        limit >= 1,
        spec_find(s, k) == -1,
        times.len() == limit + 1,
        forall|i: int|
            0 < i < times.len() ==> times[i - 1] <= #[trigger] times[i] && times[i] - times[i - 1]
                < window,
    ensures
        spec_run(s, limit, window, k, times).1.len() == times.len(),
        forall|i: int|
            0 <= i < limit ==> #[trigger] spec_run(s, limit, window, k, times).1[i] == true,
        spec_run(s, limit, window, k, times).1[limit as int] == false,
        forall|now2: u64|
            now2 >= times[limit - 1] + window ==> #[trigger] spec_step(
                spec_run(s, limit, window, k, times).0,
                limit,
                window,
                k,
                now2,
            ).1 == true,
{
    lemma_find_props(s, k);
    let now = times[0];
    let first = spec_step(s, limit, window, k, now);
    lemma_step_fresh(s, limit, window, k, now);
    let times2 = times.drop_first();
    assert(forall|j: int| 0 <= j < times.len() - 1 ==> times2[j] == times[j + 1]);
    lemma_run_from_sole(first.0, limit, window, k, times2, 1, now);
    let rest = spec_run(first.0, limit, window, k, times2);
    let full = spec_run(s, limit, window, k, times);
    assert(full.1 == seq![true] + rest.1);
    assert forall|i: int| 0 <= i < limit implies full.1[i] == true by {
        if i >= 1 {
            assert(full.1[i] == rest.1[i - 1]);
        }
    }
    assert(full.1[limit as int] == rest.1[times2.len() - 1]);
    let last_ws: u64 = if limit == 1 {
        now
    } else {
        times[limit - 1]
    };
    assert(sole_entry(full.0, k, limit, last_ws));
    assert(last_ws == times[limit - 1]);
    assert forall|now2: u64|
        now2 >= times[limit - 1] + window implies spec_step(
        full.0,
        limit,
        window,
        k,
        now2,
    ).1 == true by {
        let i = spec_find(full.0, k);
        assert forall|j: int|
            0 <= j < full.0.len() && full.0[j].key == k implies spec_age(
            now2,
            #[trigger] full.0[j].window_start,
        ) >= window by {
            assert(j == i);
            assert(full.0[j].window_start == last_ws);
        }
        lemma_step_stale_accepts(full.0, limit, window, k, now2);
    }
}

} // verus!
