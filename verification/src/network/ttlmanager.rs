//! The liveness tracker: one silence counter for each tracked identity.

use crate::network::clientid::ClientId;
use vstd::prelude::*;

verus! {

/// The ticks that an identity may be silent for.
pub const TTL_THRESHOLD: u32 = 60;

/// The period of a tick, in milliseconds.
pub const TICK_PERIOD_MS: u64 = 1000;

/// One tracked identity and the ticks it has been silent for.
#[derive(Clone, Copy, Debug, PartialEq, Eq, Structural)]
pub struct TtlEntry {
    pub id: ClientId,
    pub ttl: u32,
}

/// The state of the tracker: the tracked identities in the order in which
/// they entered, each with its silence, and the threshold.
pub struct LivenessModel {
    pub entries: Seq<TtlEntry>,
    pub threshold: u32,
}

/// The entries that outlive a tick, each one tick more silent: those whose
/// silence was below the threshold, in their order.
pub open spec fn survivors(entries: Seq<TtlEntry>, threshold: u32) -> Seq<TtlEntry>
    decreases entries.len(),
{
    if entries.len() == 0 {
        Seq::empty()
    } else {
        let rest = survivors(entries.drop_last(), threshold);
        let e = entries.last();
        if e.ttl < threshold {
            rest.push(TtlEntry { id: e.id, ttl: (e.ttl + 1) as u32 })
        } else {
            rest
        }
    }
}

/// The identities that a tick takes: those whose silence had reached the
/// threshold, which one more tick exceeds, in their order.
pub open spec fn casualties(entries: Seq<TtlEntry>, threshold: u32) -> Seq<ClientId>
    decreases entries.len(),
{
    if entries.len() == 0 {
        Seq::empty()
    } else {
        let rest = casualties(entries.drop_last(), threshold);
        let e = entries.last();
        if e.ttl < threshold {
            rest
        } else {
            rest.push(e.id)
        }
    }
}

impl LivenessModel {
    /// A tracker that tracks nobody.
    pub open spec fn initial(threshold: u32) -> LivenessModel {
        LivenessModel { entries: Seq::empty(), threshold }
    }

    /// No identity is tracked twice, and no silence exceeds the threshold.
    pub open spec fn wf(self) -> bool {
        &&& forall|i: int, j: int|
            #![trigger self.entries[i], self.entries[j]]
            0 <= i < self.entries.len() && 0 <= j < self.entries.len() && i != j
                ==> self.entries[i].id != self.entries[j].id
        &&& forall|i: int|
            0 <= i < self.entries.len() ==> (#[trigger] self.entries[i]).ttl <= self.threshold
    }

    /// `id` is tracked.
    pub open spec fn tracks(self, id: ClientId) -> bool {
        exists|i: int| 0 <= i < self.entries.len() && (#[trigger] self.entries[i]).id == id
    }

    /// The place of `id` among the entries, where it is tracked.
    pub open spec fn index_of(self, id: ClientId) -> int {
        choose|i: int| 0 <= i < self.entries.len() && (#[trigger] self.entries[i]).id == id
    }

    /// The ticks that `id` has been silent for, if it is tracked.
    pub open spec fn silence(self, id: ClientId) -> Option<u32> {
        if self.tracks(id) {
            Some(self.entries[self.index_of(id)].ttl)
        } else {
            None
        }
    }

    /// `id` enters tracking with a silence of zero; an identity that is
    /// tracked already goes back to zero and keeps its place.
    pub open spec fn track(self, id: ClientId) -> LivenessModel {
        if self.tracks(id) {
            self.reset(id)
        } else {
            LivenessModel { entries: self.entries.push(TtlEntry { id, ttl: 0 }), ..self }
        }
    }

    /// `id` was heard: its silence goes back to zero. An identity that is
    /// not tracked stays untracked.
    pub open spec fn reset(self, id: ClientId) -> LivenessModel {
        if self.tracks(id) {
            LivenessModel {
                entries: self.entries.update(self.index_of(id), TtlEntry { id, ttl: 0 }),
                ..self
            }
        } else {
            self
        }
    }

    /// The tracker after one tick.
    pub open spec fn tick(self) -> LivenessModel {
        LivenessModel { entries: survivors(self.entries, self.threshold), ..self }
    }

    /// The identities that one tick reports dead.
    pub open spec fn dead(self) -> Seq<ClientId> {
        casualties(self.entries, self.threshold)
    }

    /// The tracker after `n` ticks with no reset between them.
    pub open spec fn ticks(self, n: nat) -> LivenessModel
        decreases n,
    {
        if n == 0 {
            self
        } else {
            self.ticks((n - 1) as nat).tick()
        }
    }
}

proof fn lemma_index_of(m: LivenessModel, i: int)
    requires
        m.wf(),
        0 <= i < m.entries.len(),
    ensures
        m.tracks(m.entries[i].id),
        m.index_of(m.entries[i].id) == i,
        m.silence(m.entries[i].id) == Some(m.entries[i].ttl),
{
    let id = m.entries[i].id;
    let j = m.index_of(id);
    assert(m.entries[j].id == id);
    if i != j {
        assert(m.entries[i].id != m.entries[j].id);
    }
}

/// Where the entries of a tick come from: every survivor is an entry that
/// was below the threshold, one tick more silent, and every casualty is an
/// entry that had reached it; both keep the order of the entries.
proof fn lemma_tick_sources(entries: Seq<TtlEntry>, threshold: u32) -> (r: (Seq<int>, Seq<int>))
    requires
        forall|i: int| 0 <= i < entries.len() ==> (#[trigger] entries[i]).ttl <= threshold,
    ensures
        r.0.len() == survivors(entries, threshold).len(),
        r.1.len() == casualties(entries, threshold).len(),
        r.0.len() + r.1.len() == entries.len(),
        forall|k: int|
            0 <= k < r.0.len() ==> {
                &&& 0 <= #[trigger] r.0[k] < entries.len()
                &&& entries[r.0[k]].ttl < threshold
                &&& survivors(entries, threshold)[k] == (TtlEntry {
                    id: entries[r.0[k]].id,
                    ttl: (entries[r.0[k]].ttl + 1) as u32,
                })
            },
        forall|k: int, l: int| 0 <= k < l < r.0.len() ==> #[trigger] r.0[k] < #[trigger] r.0[l],
        forall|k: int|
            0 <= k < r.1.len() ==> {
                &&& 0 <= #[trigger] r.1[k] < entries.len()
                &&& entries[r.1[k]].ttl == threshold
                &&& casualties(entries, threshold)[k] == entries[r.1[k]].id
            },
        forall|k: int, l: int| 0 <= k < l < r.1.len() ==> #[trigger] r.1[k] < #[trigger] r.1[l],
        forall|i: int|
            0 <= i < entries.len() ==> if (#[trigger] entries[i]).ttl < threshold {
                exists|k: int| 0 <= k < r.0.len() && #[trigger] r.0[k] == i
            } else {
                exists|k: int| 0 <= k < r.1.len() && #[trigger] r.1[k] == i
            },
    decreases entries.len(),
{
    if entries.len() == 0 {
        (Seq::empty(), Seq::empty())
    } else {
        let front = entries.drop_last();
        let last = entries.len() - 1;
        assert forall|i: int| 0 <= i < front.len() implies (#[trigger] front[i]).ttl
            <= threshold by {
            assert(front[i] == entries[i]);
        }
        let (s, c) = lemma_tick_sources(front, threshold);
        assert forall|i: int| 0 <= i < front.len() implies #[trigger] front[i] == entries[i] by {}
        let r = if entries.last().ttl < threshold {
            (s.push(last), c)
        } else {
            (s, c.push(last))
        };
        assert forall|i: int| 0 <= i < entries.len() implies if (#[trigger] entries[i]).ttl
            < threshold {
            exists|k: int| 0 <= k < r.0.len() && #[trigger] r.0[k] == i
        } else {
            exists|k: int| 0 <= k < r.1.len() && #[trigger] r.1[k] == i
        } by {
            if i < last {
                assert(front[i] == entries[i]);
                if entries[i].ttl < threshold {
                    let k = choose|k: int| 0 <= k < s.len() && #[trigger] s[k] == i;
                    assert(r.0[k] == i);
                } else {
                    let k = choose|k: int| 0 <= k < c.len() && #[trigger] c[k] == i;
                    assert(r.1[k] == i);
                }
            } else {
                if entries[i].ttl < threshold {
                    assert(r.0[s.len() as int] == i);
                } else {
                    assert(r.1[c.len() as int] == i);
                }
            }
        }
        r
    }
}

/// A tick keeps the tracker valid.
proof fn lemma_tick_wf(m: LivenessModel)
    requires
        m.wf(),
    ensures
        m.tick().wf(),
{
    let (s, c) = lemma_tick_sources(m.entries, m.threshold);
    let after = m.tick();
    assert forall|i: int, j: int|
        #![trigger after.entries[i], after.entries[j]]
        0 <= i < after.entries.len() && 0 <= j < after.entries.len() && i != j implies after.entries[i].id
        != after.entries[j].id by {
        if i < j {
            assert(s[i] < s[j]);
        } else {
            assert(s[j] < s[i]);
        }
        assert(m.entries[s[i]].id != m.entries[s[j]].id);
    }
    assert forall|i: int| 0 <= i < after.entries.len() implies (#[trigger] after.entries[i]).ttl
        <= after.threshold by {
        assert(m.entries[s[i]].ttl < m.threshold);
    }
}

/// What one tick does to one identity.
///
/// An identity whose silence is below the threshold stays tracked, one tick
/// more silent, and is not reported. An identity whose silence has reached
/// the threshold is reported dead, once, and is tracked no longer. An
/// identity that is not tracked is not reported and stays untracked.
pub proof fn lemma_tick_of(m: LivenessModel, id: ClientId)
    requires
        m.wf(),
    ensures
        m.tick().wf(),
        m.dead().no_duplicates(),
        match m.silence(id) {
            Some(ttl) => if ttl < m.threshold {
                m.tick().silence(id) == Some((ttl + 1) as u32) && !m.dead().contains(id)
            } else {
                m.tick().silence(id) is None && m.dead().contains(id)
            },
            None => m.tick().silence(id) is None && !m.dead().contains(id),
        },
{
    lemma_tick_wf(m);
    let (s, c) = lemma_tick_sources(m.entries, m.threshold);
    let after = m.tick();
    let dead = m.dead();
    assert forall|k: int, l: int| 0 <= k < dead.len() && 0 <= l < dead.len() && k != l implies dead[k]
        != dead[l] by {
        if k < l {
            assert(c[k] < c[l]);
        } else {
            assert(c[l] < c[k]);
        }
        assert(m.entries[c[k]].id != m.entries[c[l]].id);
    }
    // Every survivor and every casualty is an entry of before.
    assert forall|k: int| 0 <= k < after.entries.len() && (#[trigger] after.entries[k]).id
        == id implies m.tracks(id) && m.silence(id) == Some(m.entries[s[k]].ttl)
        && m.entries[s[k]].ttl < m.threshold by {
        lemma_index_of(m, s[k]);
    }
    assert forall|k: int| 0 <= k < dead.len() && #[trigger] dead[k] == id implies m.tracks(id)
        && m.silence(id) == Some(m.threshold) by {
        lemma_index_of(m, c[k]);
    }
    if m.tracks(id) {
        let i = m.index_of(id);
        if m.entries[i].ttl < m.threshold {
            let k = choose|k: int| 0 <= k < s.len() && #[trigger] s[k] == i;
            assert(after.entries[k].id == id);
            lemma_index_of(after, k);
            if dead.contains(id) {
                let l = choose|l: int| 0 <= l < dead.len() && dead[l] == id;
                assert(dead[l] == id);
            }
        } else {
            let k = choose|k: int| 0 <= k < c.len() && #[trigger] c[k] == i;
            assert(dead[k] == id);
            if after.tracks(id) {
                let l = after.index_of(id);
                assert(after.entries[l].id == id);
            }
        }
    } else {
        if after.tracks(id) {
            let l = after.index_of(id);
            assert(after.entries[l].id == id);
        }
        if dead.contains(id) {
            let l = choose|l: int| 0 <= l < dead.len() && dead[l] == id;
            assert(dead[l] == id);
        }
    }
}

/// Liveness precision: an identity that entered with a silence of zero and
/// is never heard again outlives each of the first `threshold` ticks,
/// counted from zero, one tick more silent after each; the tick with the
/// number `threshold` reports it dead and drops it.
pub proof fn lemma_liveness_precision(m: LivenessModel, id: ClientId, k: nat)
    requires
        m.wf(),
        m.silence(id) == Some(0u32),
        k <= m.threshold,
    ensures
        m.ticks(k).wf(),
        m.ticks(k).threshold == m.threshold,
        m.ticks(k).silence(id) == Some(k as u32),
        forall|j: nat| j < k ==> !(#[trigger] m.ticks(j)).dead().contains(id),
        k == m.threshold ==> m.ticks(k).dead().contains(id) && m.ticks(k + 1).silence(id) is None,
    decreases k,
{
    if k > 0 {
        let before = (k - 1) as nat;
        lemma_liveness_precision(m, id, before);
        lemma_tick_of(m.ticks(before), id);
        assert forall|j: nat| j < k implies !(#[trigger] m.ticks(j)).dead().contains(id) by {
            if j < before {
            } else {
                assert(j == before);
            }
        }
    }
    if k == m.threshold {
        lemma_tick_of(m.ticks(k), id);
        assert(m.ticks(k + 1) == m.ticks(k).tick());
    }
}

/// Death is reported once: an identity that is not tracked is not reported
/// by any later tick and does not come back by itself.
pub proof fn lemma_dead_stays_dead(m: LivenessModel, id: ClientId, k: nat)
    requires
        m.wf(),
        !m.tracks(id),
    ensures
        m.ticks(k).wf(),
        !m.ticks(k).tracks(id),
        !m.ticks(k).dead().contains(id),
    decreases k,
{
    if k > 0 {
        lemma_dead_stays_dead(m, id, (k - 1) as nat);
        lemma_tick_of(m.ticks((k - 1) as nat), id);
    }
    lemma_tick_of(m.ticks(k), id);
}

/// A heartbeat before every tick keeps an identity alive for ever: a tick
/// that follows a reset never reports it, whatever the threshold.
pub proof fn lemma_heartbeat_keeps_alive(m: LivenessModel, id: ClientId)
    requires
        m.wf(),
        m.tracks(id),
        m.threshold > 0,
    ensures
        m.reset(id).wf(),
        !m.reset(id).dead().contains(id),
        m.reset(id).tick().tracks(id),
{
    lemma_reset_wf(m, id);
    lemma_tick_of(m.reset(id), id);
}

/// A dead identity is not brought back by what is heard of it later: a
/// reset of an identity that is not tracked leaves the tracker as it was.
pub proof fn lemma_no_resurrection(m: LivenessModel, id: ClientId)
    requires
        !m.tracks(id),
    ensures
        m.reset(id) == m,
{
}

proof fn lemma_reset_wf(m: LivenessModel, id: ClientId)
    requires
        m.wf(),
        m.tracks(id),
    ensures
        m.reset(id).wf(),
        m.reset(id).silence(id) == Some(0u32),
{
    let i = m.index_of(id);
    let after = m.reset(id);
    assert forall|a: int, b: int|
        #![trigger after.entries[a], after.entries[b]]
        0 <= a < after.entries.len() && 0 <= b < after.entries.len() && a != b implies after.entries[a].id
        != after.entries[b].id by {
        assert(m.entries[a].id != m.entries[b].id);
    }
    assert forall|a: int| 0 <= a < after.entries.len() implies (#[trigger] after.entries[a]).ttl
        <= after.threshold by {
        if a != i {
            assert(after.entries[a] == m.entries[a]);
        }
    }
    lemma_index_of(after, i);
}

proof fn lemma_track_wf(m: LivenessModel, id: ClientId)
    requires
        m.wf(),
    ensures
        m.track(id).wf(),
        m.track(id).silence(id) == Some(0u32),
{
    if m.tracks(id) {
        lemma_reset_wf(m, id);
    } else {
        let after = m.track(id);
        let n = m.entries.len() as int;
        assert forall|a: int, b: int|
            #![trigger after.entries[a], after.entries[b]]
            0 <= a < after.entries.len() && 0 <= b < after.entries.len() && a != b implies after.entries[a].id
            != after.entries[b].id by {
            if a < n && b < n {
                assert(m.entries[a].id != m.entries[b].id);
            } else if a < n {
                assert(m.entries[a].id != id);
            } else {
                assert(m.entries[b].id != id);
            }
        }
        assert forall|a: int| 0 <= a < after.entries.len() implies (#[trigger] after.entries[a]).ttl
            <= after.threshold by {
            if a < n {
                assert(after.entries[a] == m.entries[a]);
            }
        }
        lemma_index_of(after, n);
    }
}

/// The liveness tracker.
pub struct TTLManager {
    clients: Vec<TtlEntry>,
    threshold: u32,
}

impl View for TTLManager {
    type V = LivenessModel;

    closed spec fn view(&self) -> LivenessModel {
        LivenessModel { entries: self.clients@, threshold: self.threshold }
    }
}

impl TTLManager {
    #[verifier::type_invariant]
    spec fn inv(self) -> bool {
        self@.wf()
    }

    /// A tracker that tracks nobody and lets an identity be silent for
    /// `threshold` ticks.
    pub fn new(threshold: u32) -> (t: Self)
        ensures
            t@ == LivenessModel::initial(threshold),
            t@.wf(),
    {
        let t = TTLManager { clients: Vec::new(), threshold };
        assert(t@.entries =~= Seq::<TtlEntry>::empty());
        t
    }

    /// The silence that a tick must find to report an identity dead.
    pub fn threshold(&self) -> (r: u32)
        ensures
            r == self@.threshold,
    {
        self.threshold
    }

    fn find(&self, id: ClientId) -> (r: Option<usize>)
        ensures
            self@.wf(),
            match r {
                Some(i) => i < self@.entries.len() && self@.entries[i as int].id == id
                    && self@.tracks(id) && self@.index_of(id) == i,
                None => !self@.tracks(id),
            },
    {
        proof {
            use_type_invariant(self);
        }
        let mut i: usize = 0;
        while i < self.clients.len()
            invariant
                i <= self.clients@.len(),
                self@.wf(),
                self@.entries == self.clients@,
                forall|k: int| 0 <= k < i ==> (#[trigger] self.clients@[k]).id != id,
            decreases self.clients@.len() - i,
        {
            if self.clients[i].id == id {
                proof {
                    lemma_index_of(self@, i as int);
                }
                return Some(i);
            }
            i += 1;
        }
        None
    }

    /// The ticks that `id` has been silent for, if it is tracked.
    pub fn silence_of(&self, id: ClientId) -> (r: Option<u32>)
        ensures
            self@.wf(),
            r == self@.silence(id),
    {
        match self.find(id) {
            Some(i) => Some(self.clients[i].ttl),
            None => None,
        }
    }

    /// The number of tracked identities.
    pub fn len(&self) -> (n: usize)
        ensures
            n == self@.entries.len(),
    {
        self.clients.len()
    }

    /// Takes `id` into tracking, with a silence of zero.
    pub fn track(&mut self, id: ClientId)
        ensures
            final(self)@.wf(),
            final(self)@ == old(self)@.track(id),
    {
        let ghost before = self@;
        proof {
            use_type_invariant(&*self);
            lemma_track_wf(before, id);
        }
        let found = self.find(id);
        let mut clients: Vec<TtlEntry> = Vec::new();
        std::mem::swap(&mut clients, &mut self.clients);
        match found {
            Some(i) => {
                clients.set(i, TtlEntry { id, ttl: 0 });
            },
            None => {
                clients.push(TtlEntry { id, ttl: 0 });
            },
        }
        assert(clients@ == before.track(id).entries);
        self.clients = clients;
    }

    /// Sets the silence of `id` back to zero, if it is tracked.
    pub fn reset(&mut self, id: ClientId)
        ensures
            final(self)@.wf(),
            final(self)@ == old(self)@.reset(id),
    {
        let ghost before = self@;
        proof {
            use_type_invariant(&*self);
        }
        match self.find(id) {
            Some(i) => {
                let mut clients: Vec<TtlEntry> = Vec::new();
                std::mem::swap(&mut clients, &mut self.clients);
                clients.set(i, TtlEntry { id, ttl: 0 });
                proof {
                    lemma_reset_wf(before, id);
                    assert(clients@ == before.reset(id).entries);
                }
                self.clients = clients;
            },
            None => {},
        }
    }

    /// One tick: every tracked identity grows one tick more silent; those
    /// whose silence then exceeds the threshold leave tracking and are
    /// returned, each once, in the order in which they entered.
    pub fn tick_death(&mut self) -> (dead: Vec<ClientId>)
        ensures
            final(self)@.wf(),
            final(self)@ == old(self)@.tick(),
            dead@ == old(self)@.dead(),
    {
        let ghost before = self@;
        proof {
            use_type_invariant(&*self);
            lemma_tick_wf(before);
        }
        let threshold = self.threshold;
        let mut clients: Vec<TtlEntry> = Vec::new();
        std::mem::swap(&mut clients, &mut self.clients);
        let mut alive: Vec<TtlEntry> = Vec::new();
        let mut dead: Vec<ClientId> = Vec::new();
        let mut i: usize = 0;
        assert(clients@.subrange(0, 0) =~= Seq::<TtlEntry>::empty());
        while i < clients.len()
            invariant
                i <= clients@.len(),
                clients@ == before.entries,
                threshold == before.threshold,
                alive@ == survivors(clients@.subrange(0, i as int), threshold),
                dead@ == casualties(clients@.subrange(0, i as int), threshold),
            decreases clients@.len() - i,
        {
            let e = clients[i];
            proof {
                let next = clients@.subrange(0, i + 1);
                assert(next.drop_last() =~= clients@.subrange(0, i as int));
                assert(next.last() == e);
            }
            if e.ttl < threshold {
                alive.push(TtlEntry { id: e.id, ttl: e.ttl + 1 });
            } else {
                dead.push(e.id);
            }
            i += 1;
        }
        assert(clients@.subrange(0, i as int) =~= clients@);
        self.clients = alive;
        dead
    }
}

} // verus!
