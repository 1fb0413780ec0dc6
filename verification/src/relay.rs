//! The relay directory: a registry of peer relay nodes with upsert
//! registration, health-ranked listing, point lookup, and time-to-live
//! eviction.
//!
//! A relay's health score is an externally supplied scalar in `[0, 1]`,
//! held here in thousandths: `0` stands for `0.0` and
//! `HEALTH_SCORE_SCALE` for `1.0`. Registration clamps every incoming
//! score into that range.

use vstd::prelude::*;

verus! {

/// One whole unit of health score, in thousandths.
pub const HEALTH_SCORE_SCALE: u32 = 1000;

/// Mathematical image of one relay entry.
pub struct RelayModel {
    pub peer_id: Seq<char>,
    pub addrs: Seq<Seq<char>>,
    pub alias: Option<Seq<char>>,
    pub last_seen: u64,
    pub health_score: u32,
}

/// Information about one relay node.
#[derive(Debug)]
pub struct RelayInfo {
    /// Peer ID of the relay node; unique key of the directory.
    pub peer_id: String,
    /// Multiaddrs where this relay can be reached.
    pub addrs: Vec<String>,
    /// Optional friendly name for this relay.
    pub alias: Option<String>,
    /// Last time this relay was seen, unix timestamp in seconds.
    pub last_seen: u64,
    /// Health score in thousandths, in `[0, HEALTH_SCORE_SCALE]`.
    pub health_score: u32,
}

impl View for RelayInfo {
    type V = RelayModel;

    open spec fn view(&self) -> RelayModel {
        RelayModel {
            peer_id: self.peer_id@,
            addrs: self.addrs@.map_values(|a: String| a@),
            alias: match self.alias {
                Some(a) => Some(a@),
                None => None,
            },
            last_seen: self.last_seen,
            health_score: self.health_score,
        }
    }
}

/// The models of a sequence of entries, in order.
pub open spec fn models(s: Seq<RelayInfo>) -> Seq<RelayModel> {
    s.map_values(|r: RelayInfo| r@)
}

/// A health score clamped into `[0, HEALTH_SCORE_SCALE]`.
pub open spec fn spec_clamp_health(h: i64) -> u32 {
    if h < 0 {
        0u32
    } else if h > HEALTH_SCORE_SCALE {
        HEALTH_SCORE_SCALE
    } else {
        h as u32
    }
}

/// Whether an entry is stale at time `now`: its age, under saturating
/// subtraction (a `last_seen` in the future counts as age 0), exceeds
/// `max_age_secs`.
pub open spec fn spec_is_stale(m: RelayModel, now: u64, max_age_secs: u64) -> bool {
    (if now >= m.last_seen {
        now - m.last_seen
    } else {
        0int
    }) > max_age_secs
}

/// The subsequence of `s` with health score exactly `h`, in order.
pub open spec fn spec_with_health(s: Seq<RelayModel>, h: u32) -> Seq<RelayModel>
    decreases s.len(),
{
    if s.len() == 0 {
        Seq::empty()
    } else {
        let rest = spec_with_health(s.drop_first(), h);
        if s.first().health_score == h {
            seq![s.first()] + rest
        } else {
            rest
        }
    }
}

/// The subsequence of `s` that is not stale at time `now`, in order.
pub open spec fn spec_live(s: Seq<RelayModel>, now: u64, max_age_secs: u64) -> Seq<RelayModel>
    decreases s.len(),
{
    if s.len() == 0 {
        Seq::empty()
    } else {
        let rest = spec_live(s.drop_first(), now, max_age_secs);
        if spec_is_stale(s.first(), now, max_age_secs) {
            rest
        } else {
            seq![s.first()] + rest
        }
    }
}

/// Sorted by health score, best first.
pub open spec fn spec_sorted_by_health(s: Seq<RelayModel>) -> bool {
    forall|i: int, j: int|
        0 <= i < j < s.len() ==> (#[trigger] s[i]).health_score >= (#[trigger] s[j]).health_score
}

proof fn lemma_with_health_add(a: Seq<RelayModel>, b: Seq<RelayModel>, h: u32)
    ensures
        spec_with_health(a + b, h) == spec_with_health(a, h) + spec_with_health(b, h),
    decreases a.len(),
{
    if a.len() == 0 {
        assert(a + b =~= b);
        assert(spec_with_health(a, h) + spec_with_health(b, h) =~= spec_with_health(b, h));
    } else {
        assert((a + b).drop_first() =~= a.drop_first() + b);
        lemma_with_health_add(a.drop_first(), b, h);
        if a.first().health_score == h {
            assert(seq![a.first()] + (spec_with_health(a.drop_first(), h) + spec_with_health(b, h))
                =~= (seq![a.first()] + spec_with_health(a.drop_first(), h))
                    + spec_with_health(b, h));
        }
    }
}

proof fn lemma_with_health_none(s: Seq<RelayModel>, h: u32)
    requires
        forall|i: int| 0 <= i < s.len() ==> (#[trigger] s[i]).health_score != h,
    ensures
        spec_with_health(s, h) == Seq::<RelayModel>::empty(),
    decreases s.len(),
{
    if s.len() > 0 {
        assert(s[0].health_score != h);
        lemma_with_health_none(s.drop_first(), h);
    }
}

proof fn lemma_with_health_singleton(m: RelayModel, h: u32)
    ensures
        spec_with_health(seq![m], h) == (if m.health_score == h {
            seq![m]
        } else {
            Seq::<RelayModel>::empty()
        }),
{
    reveal_with_fuel(spec_with_health, 2);
    assert(seq![m].drop_first() =~= Seq::<RelayModel>::empty());
    if m.health_score == h {
        assert(seq![m] + Seq::<RelayModel>::empty() =~= seq![m]);
    }
}

proof fn lemma_live_add(a: Seq<RelayModel>, b: Seq<RelayModel>, now: u64, max_age_secs: u64)
    ensures
        spec_live(a + b, now, max_age_secs) == spec_live(a, now, max_age_secs) + spec_live(
            b,
            now,
            max_age_secs,
        ),
    decreases a.len(),
{
    if a.len() == 0 {
        assert(a + b =~= b);
        assert(spec_live(a, now, max_age_secs) + spec_live(b, now, max_age_secs) =~= spec_live(
            b,
            now,
            max_age_secs,
        ));
    } else {
        assert((a + b).drop_first() =~= a.drop_first() + b);
        lemma_live_add(a.drop_first(), b, now, max_age_secs);
        if !spec_is_stale(a.first(), now, max_age_secs) {
            assert(seq![a.first()] + (spec_live(a.drop_first(), now, max_age_secs) + spec_live(
                b,
                now,
                max_age_secs,
            )) =~= (seq![a.first()] + spec_live(a.drop_first(), now, max_age_secs)) + spec_live(
                b,
                now,
                max_age_secs,
            ));
        }
    }
}

proof fn lemma_live_singleton(m: RelayModel, now: u64, max_age_secs: u64)
    ensures
        spec_live(seq![m], now, max_age_secs) == (if spec_is_stale(m, now, max_age_secs) {
            Seq::<RelayModel>::empty()
        } else {
            seq![m]
        }),
{
    reveal_with_fuel(spec_live, 2);
    assert(seq![m].drop_first() =~= Seq::<RelayModel>::empty());
    if !spec_is_stale(m, now, max_age_secs) {
        assert(seq![m] + Seq::<RelayModel>::empty() =~= seq![m]);
    }
}

/// In-memory directory of active relay nodes, at most one entry per
/// peer ID, held in registration order.
#[derive(Debug)]
pub struct RelayRegistry {
    pub entries: Vec<RelayInfo>,
}

impl View for RelayRegistry {
    type V = Seq<RelayModel>;

    open spec fn view(&self) -> Seq<RelayModel> {
        models(self.entries@)
    }
}

/// Copy of a vector of strings, equal element by element.
fn clone_strings(v: &Vec<String>) -> (r: Vec<String>)
    ensures
        r@ == v@,
{
    let r = v.clone();
    proof {
        assert(r@ =~= v@);
    }
    r
}

/// Copy of one relay entry; the copy has the same model.
fn clone_relay(r: &RelayInfo) -> (c: RelayInfo)
    ensures
        c@ == r@,
{
    let alias = match &r.alias {
        Some(a) => Some(a.clone()),
        None => None,
    };
    RelayInfo {
        peer_id: r.peer_id.clone(),
        addrs: clone_strings(&r.addrs),
        alias,
        last_seen: r.last_seen,
        health_score: r.health_score,
    }
}

impl RelayRegistry {
    /// No two entries share a peer ID, and every health score is in range.
    pub open spec fn wf(self) -> bool {
        &&& (forall|i: int, j: int|
            0 <= i < j < self@.len() ==> (#[trigger] self@[i]).peer_id != (#[trigger] self@[j]).peer_id)
        &&& (forall|i: int|
            0 <= i < self@.len() ==> (#[trigger] self@[i]).health_score <= HEALTH_SCORE_SCALE)
    }

    pub open spec fn spec_contains(self, peer_id: Seq<char>) -> bool {
        exists|i: int| 0 <= i < self@.len() && (#[trigger] self@[i]).peer_id == peer_id
    }

    /// Index of the entry for `peer_id`, when one exists.
    pub open spec fn spec_index_of(self, peer_id: Seq<char>) -> int {
        choose|i: int| 0 <= i < self@.len() && (#[trigger] self@[i]).peer_id == peer_id
    }

    /// Create a new empty relay registry.
    pub fn new() -> (r: Self)
        ensures
            r.wf(),
            r@ == Seq::<RelayModel>::empty(),
    {
        let r = RelayRegistry { entries: Vec::new() };
        proof {
            assert(r@ =~= Seq::<RelayModel>::empty());
        }
        r
    }

    fn find_index(&self, peer_id: &String) -> (r: Option<usize>)
        ensures
            match r {
                Some(i) => i < self@.len() && self@[i as int].peer_id == peer_id@,
                None => !self.spec_contains(peer_id@),
            },
    {
        let mut i: usize = 0;
        while i < self.entries.len()
            invariant
                i <= self.entries@.len(),
                forall|j: int| 0 <= j < i ==> (#[trigger] models(self.entries@)[j]).peer_id != peer_id@,
            decreases self.entries@.len() - i,
        {
            if self.entries[i].peer_id == *peer_id {
                return Some(i);
            }
            i = i + 1;
        }
        None
    }

    /// Register or update a relay node: an upsert keyed by `peer_id`,
    /// clamping the health score into range and stamping `last_seen`
    /// with `now`. An update keeps the entry's position.
    pub fn register(
        &mut self,
        peer_id: String,
        addrs: Vec<String>,
        alias: Option<String>,
        health_score: i64,
        now: u64,
    )
        requires
            old(self).wf(),
        ensures
            final(self).wf(),
            ({
                let m = RelayModel {
                    peer_id: peer_id@,
                    addrs: addrs@.map_values(|a: String| a@),
                    alias: match alias {
                        Some(a) => Some(a@),
                        None => None,
                    },
                    last_seen: now,
                    health_score: spec_clamp_health(health_score),
                };
                if old(self).spec_contains(peer_id@) {
                    final(self)@ == old(self)@.update(old(self).spec_index_of(peer_id@), m)
                } else {
                    final(self)@ == old(self)@.push(m)
                }
            }),
    {
        let clamped: u32 = if health_score < 0 {
            0
        } else if health_score > HEALTH_SCORE_SCALE as i64 {
            HEALTH_SCORE_SCALE
        } else {
            health_score as u32
        };
        let entry = RelayInfo {
            peer_id: peer_id.clone(),
            addrs,
            alias,
            last_seen: now,
            health_score: clamped,
        };
        match self.find_index(&peer_id) {
            Some(i) => {
                self.entries[i] = entry;
                proof {
                    let k = old(self).spec_index_of(peer_id@);
                    assert(old(self)@[k].peer_id == peer_id@);
                    assert(k == i as int);
                    assert(self@ =~= old(self)@.update(i as int, entry@));
                }
            },
            None => {
                self.entries.push(entry);
                proof {
                    assert(self@ =~= old(self)@.push(entry@));
                }
            },
        }
    }

    /// All entries, ordered by health score descending; entries with equal
    /// scores keep their original relative order.
    pub fn list(&self) -> (r: Vec<RelayInfo>)
        requires
            self.wf(),
        ensures
            r@.len() == self@.len(),
            spec_sorted_by_health(models(r@)),
            forall|h: u32|
                #[trigger] spec_with_health(models(r@), h) == spec_with_health(self@, h),
    {
        let mut r: Vec<RelayInfo> = Vec::new();
        let ghost all = models(self.entries@);
        proof {
            assert(models(r@) =~= Seq::<RelayModel>::empty());
            assert forall|h: u32|
                #[trigger] spec_with_health(models(r@), h) == spec_with_health(
                    all.take(0),
                    h,
                ) by {
                assert(all.take(0) =~= Seq::<RelayModel>::empty());
            }
        }
        let mut i: usize = 0;
        while i < self.entries.len()
            invariant
                i <= self.entries@.len(),
                all == models(self.entries@),
                r@.len() == i,
                spec_sorted_by_health(models(r@)),
                forall|h: u32|
                    #[trigger] spec_with_health(models(r@), h) == spec_with_health(
                        all.take(i as int),
                        h,
                    ),
            decreases self.entries@.len() - i,
        {
            let x = clone_relay(&self.entries[i]);
            let ghost xm = x@;
            let ghost before = models(r@);
            let mut p: usize = 0;
            while p < r.len() && r[p].health_score >= x.health_score
                invariant
                    p <= r@.len(),
                    models(r@) == before,
                    x@ == xm,
                    forall|k: int|
                        0 <= k < p ==> (#[trigger] before[k]).health_score >= xm.health_score,
                decreases r@.len() - p,
            {
                p = p + 1;
            }
            proof {
                assert(p == before.len() || before[p as int].health_score < xm.health_score);
            }
            r.insert(p, x);
            i = i + 1;
            proof {
                let after = models(r@);
                assert(after =~= before.take(p as int) + seq![xm] + before.skip(p as int));
                assert(before =~= before.take(p as int) + before.skip(p as int));

                // Sortedness: everything before p scores at least xm, and,
                // by the old sortedness, everything from p on scores below.
                assert forall|a: int, b: int|
                    0 <= a < b < after.len() implies (#[trigger] after[a]).health_score
                        >= (#[trigger] after[b]).health_score by {
                    assert(forall|k: int|
                        p <= k < before.len() ==> (#[trigger] before[k]).health_score
                            < xm.health_score);
                }

                // Stability: the sub-sequence at each health score is kept.
                assert forall|h: u32|
                    #[trigger] spec_with_health(after, h) == spec_with_health(
                        all.take(i as int),
                        h,
                    ) by {
                    lemma_with_health_add(
                        before.take(p as int) + seq![xm],
                        before.skip(p as int),
                        h,
                    );
                    lemma_with_health_add(before.take(p as int), seq![xm], h);
                    lemma_with_health_add(before.take(p as int), before.skip(p as int), h);
                    lemma_with_health_singleton(xm, h);
                    assert(all.take(i as int) =~= all.take(i - 1).push(all[i - 1]));
                    lemma_with_health_add(all.take(i - 1), seq![all[i - 1]], h);
                    assert(all.take(i - 1).push(all[i - 1]) =~= all.take(i - 1) + seq![
                        all[i - 1]
                    ]);
                    lemma_with_health_singleton(all[i - 1], h);
                    assert(all[i - 1] == xm);
                    if xm.health_score == h {
                        lemma_with_health_none(before.skip(p as int), h);
                        assert(spec_with_health(after, h) =~= spec_with_health(before, h)
                            + seq![xm]);
                    } else {
                        assert(spec_with_health(after, h) =~= spec_with_health(before, h));
                    }
                }
            }
        }
        proof {
            assert(all.take(self.entries@.len() as int) =~= all);
        }
        r
    }

    /// A copy of the entry for `peer_id`, when one is registered.
    pub fn get(&self, peer_id: &String) -> (r: Option<RelayInfo>)
        requires
            self.wf(),
        ensures
            r is Some <==> self.spec_contains(peer_id@),
            match r {
                Some(info) => info@ == self@[self.spec_index_of(peer_id@)],
                None => true,
            },
    {
        match self.find_index(peer_id) {
            Some(i) => {
                let info = clone_relay(&self.entries[i]);
                proof {
                    let k = self.spec_index_of(peer_id@);
                    assert(self@[k].peer_id == peer_id@);
                    assert(k == i as int);
                }
                Some(info)
            },
            None => None,
        }
    }

    /// Remove every entry whose age at `now` exceeds `max_age_secs`,
    /// under saturating subtraction, and report how many went.
    pub fn prune_stale(&mut self, now: u64, max_age_secs: u64) -> (removed: usize)
        requires
            old(self).wf(),
        ensures
            final(self).wf(),
            final(self)@ == spec_live(old(self)@, now, max_age_secs),
            removed == old(self)@.len() - final(self)@.len(),
    {
        let ghost orig = old(self)@;
        let before_count = self.entries.len();
        let mut i: usize = 0;
        let ghost mut j: int = 0;
        proof {
            assert(models(self.entries@) =~= spec_live(orig.take(0), now, max_age_secs)
                + orig.skip(0)) by {
                assert(orig.take(0) =~= Seq::<RelayModel>::empty());
                assert(spec_live(Seq::<RelayModel>::empty(), now, max_age_secs)
                    =~= Seq::<RelayModel>::empty());
            }
        }
        while i < self.entries.len()
            invariant
                0 <= j <= orig.len(),
                i == spec_live(orig.take(j), now, max_age_secs).len(),
                i <= j,
                models(self.entries@) == spec_live(orig.take(j), now, max_age_secs) + orig.skip(j),
                self.wf(),
            decreases orig.len() - j,
        {
            let ghost pre = models(self.entries@);
            let last_seen = self.entries[i].last_seen;
            let age = if now >= last_seen {
                now - last_seen
            } else {
                0
            };
            proof {
                assert(pre[i as int] == orig[j]);
                assert(orig.take(j + 1) =~= orig.take(j) + seq![orig[j]]);
                lemma_live_add(orig.take(j), seq![orig[j]], now, max_age_secs);
                lemma_live_singleton(orig[j], now, max_age_secs);
            }
            if age > max_age_secs {
                let _gone = self.entries.remove(i);
                proof {
                    assert(models(self.entries@) =~= pre.remove(i as int));
                    assert forall|a: int|
                        0 <= a < models(self.entries@).len() implies (#[trigger] models(
                        self.entries@,
                    )[a]) == (if a < i { pre[a] } else { pre[a + 1] }) by {
                        assert(pre.remove(i as int) =~= pre.take(i as int) + pre.skip(i + 1));
                    }
                    assert(pre.remove(i as int) =~= spec_live(orig.take(j + 1), now, max_age_secs)
                        + orig.skip(j + 1)) by {
                        assert(spec_live(orig.take(j + 1), now, max_age_secs)
                            =~= spec_live(orig.take(j), now, max_age_secs));
                        assert(orig.skip(j) =~= seq![orig[j]] + orig.skip(j + 1));
                    }
                }
            } else {
                i = i + 1;
                proof {
                    assert(models(self.entries@) =~= spec_live(orig.take(j + 1), now, max_age_secs)
                        + orig.skip(j + 1)) by {
                        assert(spec_live(orig.take(j + 1), now, max_age_secs)
                            =~= spec_live(orig.take(j), now, max_age_secs) + seq![orig[j]]);
                        assert(orig.skip(j) =~= seq![orig[j]] + orig.skip(j + 1));
                    }
                }
            }
            proof {
                j = j + 1;
            }
        }
        proof {
            assert(orig.take(orig.len() as int) =~= orig);
            assert(orig.skip(orig.len() as int) =~= Seq::<RelayModel>::empty());
            assert(models(self.entries@) =~= spec_live(orig, now, max_age_secs));
            lemma_live_len(orig, now, max_age_secs);
        }
        before_count - self.entries.len()
    }

    /// Number of registered relays.
    pub fn count(&self) -> (n: usize)
        ensures
            n == self@.len(),
    {
        self.entries.len()
    }

    /// Whether `peer_id` is registered.
    pub fn contains(&self, peer_id: &String) -> (r: bool)
        ensures
            r == self.spec_contains(peer_id@),
    {
        self.find_index(peer_id).is_some()
    }

    /// Remove one relay; reports whether it was registered at all. An
    /// absent peer leaves the directory unchanged.
    pub fn remove(&mut self, peer_id: &String) -> (removed: bool)
        requires
            old(self).wf(),
        ensures
            final(self).wf(),
            removed == old(self).spec_contains(peer_id@),
            removed ==> final(self)@ == old(self)@.remove(old(self).spec_index_of(peer_id@)),
            !removed ==> final(self)@ == old(self)@,
    {
        match self.find_index(peer_id) {
            Some(i) => {
                let _gone = self.entries.remove(i);
                proof {
                    let k = old(self).spec_index_of(peer_id@);
                    assert(old(self)@[k].peer_id == peer_id@);
                    assert(k == i as int);
                    assert(self@ =~= old(self)@.remove(i as int));
                }
                true
            },
            None => false,
        }
    }

    /// Clear all relay entries.
    pub fn clear(&mut self)
        ensures
            final(self).wf(),
            final(self)@ == Seq::<RelayModel>::empty(),
    {
        self.entries.clear();
        proof {
            assert(self@ =~= Seq::<RelayModel>::empty());
        }
    }

}

impl Default for RelayRegistry {
    fn default() -> (r: Self)
        ensures
            r.wf(),
            r@ == Seq::<RelayModel>::empty(),
    {
        RelayRegistry::new()
    }
}

proof fn lemma_live_len(s: Seq<RelayModel>, now: u64, max_age_secs: u64)
    ensures
        spec_live(s, now, max_age_secs).len() <= s.len(),
    decreases s.len(),
{
    if s.len() > 0 {
        lemma_live_len(s.drop_first(), now, max_age_secs);
    }
}

} // verus!
