//! Top-N active-speaker ranking.
//!
//! The ranker is pure and synchronous: a coordinator feeds it observed
//! speech-activity values and asks it, per subscriber, which tracks rank
//! highest.
use crate::model::data::full_track_name::FullTrackName;
use vstd::prelude::*;

verus! {

/// Speech-activity property values (extension key 0x12).
pub const SPEECH_SILENT: u64 = 0;

pub const SPEECH_SPEAKING: u64 = 1;

pub const SPEECH_START: u64 = 2;

/// How two tracks with the same property value are ordered.
#[derive(Debug, Clone, Copy, PartialEq, Eq)]
pub enum TieBreakPolicy {
    /// Tracks that entered the ranker earlier (lower arrival_seq) win ties.
    OldestWins,
    /// Tracks most recently updated (higher last_update_seq) win ties.
    MostRecentWins,
}

#[derive(Debug, Clone)]
pub struct TopNRankerConfig {
    /// The extension header key this ranker observes (typically 0x12).
    pub property_type: u64,
    pub tie_break_policy: TieBreakPolicy,
}

#[derive(Debug, Clone)]
pub struct RankEntry {
    /// Connection IDs of all active publishers for this track.
    pub publisher_connection_ids: Vec<usize>,
    /// Latest observed property value (0=SILENT, 1=SPEAKING, 2=SPEECH_START).
    pub property_value: u64,
    /// Monotonic counter: lower = track entered the ranker earlier.
    pub arrival_seq: u64,
    /// Logical clock at the last observation that changed the value.
    pub last_update_seq: u64,
}

/// What the ranker knows of one track, as a mathematical value.
pub struct RankState {
    pub publishers: Seq<usize>,
    pub value: u64,
    pub arrival_seq: u64,
    pub last_update_seq: u64,
}

impl View for RankEntry {
    type V = RankState;

    open spec fn view(&self) -> RankState {
        RankState {
            publishers: self.publisher_connection_ids@,
            value: self.property_value,
            arrival_seq: self.arrival_seq,
            last_update_seq: self.last_update_seq,
        }
    }
}

/// A track, as the ranker's map knows it: its namespace fields and name.
pub type TrackKey = (Seq<Seq<u8>>, Seq<u8>);

/// A track competes for a requester's slots when it is not silent and the
/// requester does not publish it.
pub open spec fn spec_is_candidate(e: RankState, requester: usize) -> bool {
    e.value > SPEECH_SILENT && !e.publishers.contains(requester)
}

/// `a` ranks at least as high as `b`: a higher value wins, and on equal values
/// the tie-break policy decides.
pub open spec fn spec_ranks_at_least(a: RankState, b: RankState, policy: TieBreakPolicy) -> bool {
    ||| a.value > b.value
    ||| a.value == b.value && match policy {
        TieBreakPolicy::OldestWins => a.arrival_seq <= b.arrival_seq,
        TieBreakPolicy::MostRecentWins => a.last_update_seq >= b.last_update_seq,
    }
}

/// The state a track holds after an observation: its publishers are replaced,
/// and its last update moves only when the value changes. A track the ranker
/// did not know arrives with the arrival clock `clock`.
pub open spec fn spec_observed(
    m: Map<TrackKey, RankState>,
    k: TrackKey,
    ids: Seq<usize>,
    value: u64,
    update_seq: u64,
    clock: u64,
) -> RankState {
    if m.contains_key(k) {
        RankState {
            publishers: ids,
            value,
            arrival_seq: m[k].arrival_seq,
            last_update_seq: if m[k].value != value {
                update_seq
            } else {
                m[k].last_update_seq
            },
        }
    } else {
        RankState { publishers: ids, value, arrival_seq: clock, last_update_seq: update_seq }
    }
}

/// The tracks left once publisher `id` has gone: every track that `id`
/// publishes is dropped, and every other track stays as it was.
pub open spec fn spec_after_publisher_left(m: Map<TrackKey, RankState>, id: usize) -> Map<
    TrackKey,
    RankState,
> {
    Map::new(|k: TrackKey| m.contains_key(k) && !m[k].publishers.contains(id), |k: TrackKey| m[k])
}

/// Whether `id` publishes some track of `m`.
pub open spec fn spec_publishes_any(m: Map<TrackKey, RankState>, id: usize) -> bool {
    exists|k: TrackKey| #[trigger] m.contains_key(k) && m[k].publishers.contains(id)
}

/// `picked` is a top-`n` answer over `m` for `requester`: at most `n` distinct
/// candidates, each ranking at least as high as the ones after it, and no
/// candidate is left out unless `n` are picked, all ranking at least as high
/// as it.
pub open spec fn spec_is_top_n(
    m: Map<TrackKey, RankState>,
    requester: usize,
    n: usize,
    policy: TieBreakPolicy,
    picked: Seq<TrackKey>,
) -> bool {
    &&& picked.len() <= n
    &&& forall|i: int|
        0 <= i < picked.len() ==> m.contains_key(#[trigger] picked[i]) && spec_is_candidate(
            m[picked[i]],
            requester,
        )
    &&& forall|i: int, j: int|
        0 <= i < j < picked.len() ==> #[trigger] picked[i] != #[trigger] picked[j]
            && spec_ranks_at_least(m[picked[i]], m[picked[j]], policy)
    &&& forall|k: TrackKey|
        #[trigger] m.contains_key(k) && spec_is_candidate(m[k], requester) && !picked.contains(k)
            ==> picked.len() == n && forall|i: int|
            0 <= i < picked.len() ==> spec_ranks_at_least(m[#[trigger] picked[i]], m[k], policy)
}

pub open spec fn names_view(names: Seq<FullTrackName>) -> Seq<TrackKey> {
    names.map_values(|f: FullTrackName| f@)
}

/// Ranks observed tracks by their latest speech-activity value.
#[derive(Debug, Clone)]
pub struct TopNRanker {
    pub config: TopNRankerConfig,
    entries: Vec<(FullTrackName, RankEntry)>,
    next_arrival_seq: u64,
}

impl TopNRanker {
    spec fn key_at(&self, i: int) -> TrackKey {
        self.entries@[i].0@
    }

    spec fn state_at(&self, i: int) -> RankState {
        self.entries@[i].1@
    }

    spec fn holds(&self, k: TrackKey) -> bool {
        exists|i: int| 0 <= i < self.entries@.len() && #[trigger] self.key_at(i) == k
    }

    spec fn index_of(&self, k: TrackKey) -> int {
        choose|i: int| 0 <= i < self.entries@.len() && #[trigger] self.key_at(i) == k
    }

    /// Each track is held once, and every arrival number is distinct and
    /// below the arrival clock.
    pub closed spec fn wf(&self) -> bool {
        &&& forall|i: int, j: int|
            0 <= i < j < self.entries@.len() ==> #[trigger] self.key_at(i) != #[trigger] self.key_at(
                j,
            )
        &&& forall|i: int|
            0 <= i < self.entries@.len() ==> #[trigger] self.state_at(i).arrival_seq
                < self.next_arrival_seq
        &&& forall|i: int, j: int|
            0 <= i < j < self.entries@.len() ==> #[trigger] self.state_at(i).arrival_seq
                != #[trigger] self.state_at(j).arrival_seq
    }

    /// The configuration the ranker runs with.
    pub closed spec fn config_view(&self) -> TopNRankerConfig {
        self.config
    }

    /// The arrival number the next new track receives.
    pub closed spec fn arrival_clock(&self) -> u64 {
        self.next_arrival_seq
    }
}

impl View for TopNRanker {
    type V = Map<TrackKey, RankState>;

    closed spec fn view(&self) -> Map<TrackKey, RankState> {
        Map::new(|k: TrackKey| self.holds(k), |k: TrackKey| self.state_at(self.index_of(k)))
    }
}

/// Whether `id` is among `ids`.
fn contains_id(ids: &Vec<usize>, id: usize) -> (r: bool)
    ensures
        r == ids@.contains(id),
{
    let mut i: usize = 0;
    while i < ids.len()
        invariant
            i <= ids@.len(),
            forall|j: int| 0 <= j < i ==> ids@[j] != id,
        decreases ids.len() - i,
    {
        if ids[i] == id {
            return true;
        }
        i = i + 1;
    }
    false
}


fn is_candidate(e: &RankEntry, requester: usize) -> (r: bool)
    ensures
        r == spec_is_candidate(e@, requester),
{
    e.property_value > SPEECH_SILENT && !contains_id(&e.publisher_connection_ids, requester)
}

fn ranks_at_least(a: &RankEntry, b: &RankEntry, policy: TieBreakPolicy) -> (r: bool)
    ensures
        r == spec_ranks_at_least(a@, b@, policy),
{
    if a.property_value != b.property_value {
        a.property_value > b.property_value
    } else {
        match policy {
            TieBreakPolicy::OldestWins => a.arrival_seq <= b.arrival_seq,
            TieBreakPolicy::MostRecentWins => a.last_update_seq >= b.last_update_seq,
        }
    }
}

impl TopNRanker {
    proof fn lemma_at(&self, i: int)
        requires
            self.wf(),
            0 <= i < self.entries@.len(),
        ensures
            self@.contains_key(self.key_at(i)),
            self@[self.key_at(i)] == self.state_at(i),
            self.index_of(self.key_at(i)) == i,
    {
        let k = self.key_at(i);
        assert(self.holds(k));
        let j = self.index_of(k);
        if j < i {
            assert(self.key_at(j) != self.key_at(i));
        } else if j > i {
            assert(self.key_at(i) != self.key_at(j));
        }
    }

    proof fn lemma_in(&self, k: TrackKey) -> (i: int)
        requires
            self.wf(),
            self@.contains_key(k),
        ensures
            0 <= i < self.entries@.len(),
            self.key_at(i) == k,
            self@[k] == self.state_at(i),
    {
        assert(self.holds(k));
        let i = self.index_of(k);
        self.lemma_at(i);
        i
    }

    /// The view holds one track per entry, so it is finite.
    proof fn lemma_view_len(&self)
        requires
            self.wf(),
        ensures
            self@.dom().finite(),
            self@.len() == self.entries@.len(),
    {
        let keys = self.entries@.map_values(|p: (FullTrackName, RankEntry)| p.0@);
        assert forall|a: int, b: int|
            0 <= a < keys.len() && 0 <= b < keys.len() && a != b implies keys[a] != keys[b] by {
            if a < b {
                assert(self.key_at(a) != self.key_at(b));
            } else {
                assert(self.key_at(b) != self.key_at(a));
            }
        }
        keys.unique_seq_to_set();
        assert forall|k: TrackKey| self@.dom().contains(k) <==> keys.to_set().contains(k) by {
            if self.holds(k) {
                let j = self.index_of(k);
                assert(keys[j] == k);
            }
            if keys.contains(k) {
                let j = choose|j: int| 0 <= j < keys.len() && keys[j] == k;
                assert(self.key_at(j) == k);
            }
        }
        assert(self@.dom() =~= keys.to_set());
    }

    /// Replacing the entry at `i` by one with the same key and arrival number.
    proof fn lemma_replaced(old: &Self, new: &Self, i: int)
        requires
            old.wf(),
            0 <= i < old.entries@.len(),
            new.entries@ == old.entries@.update(i, new.entries@[i]),
            new.key_at(i) == old.key_at(i),
            new.state_at(i).arrival_seq == old.state_at(i).arrival_seq,
            new.next_arrival_seq == old.next_arrival_seq,
        ensures
            new.wf(),
            new@ == old@.insert(old.key_at(i), new.state_at(i)),
    {
        assert(new.entries@.len() == old.entries@.len());
        assert forall|a: int, b: int| 0 <= a < b < new.entries@.len() implies #[trigger] new.key_at(a)
            != #[trigger] new.key_at(b) by {
            assert(new.key_at(a) == old.key_at(a));
            assert(new.key_at(b) == old.key_at(b));
        }
        assert forall|a: int| 0 <= a < new.entries@.len() implies #[trigger] new.state_at(
            a,
        ).arrival_seq < new.next_arrival_seq by {
            assert(new.state_at(a).arrival_seq == old.state_at(a).arrival_seq);
        }
        assert forall|a: int, b: int| 0 <= a < b < new.entries@.len() implies #[trigger] new.state_at(
            a,
        ).arrival_seq != #[trigger] new.state_at(b).arrival_seq by {
            assert(new.state_at(a).arrival_seq == old.state_at(a).arrival_seq);
            assert(new.state_at(b).arrival_seq == old.state_at(b).arrival_seq);
        }
        let target = old@.insert(old.key_at(i), new.state_at(i));
        assert forall|k: TrackKey| new@.contains_key(k) <==> target.contains_key(k) by {
            if new.holds(k) {
                let j = new.index_of(k);
                assert(old.key_at(j) == k);
                assert(old.holds(k));
            }
            if old.holds(k) {
                let j = old.index_of(k);
                assert(new.key_at(j) == k);
                assert(new.holds(k));
            }
            if k == old.key_at(i) {
                assert(new.key_at(i) == k);
                assert(new.holds(k));
            }
        }
        assert forall|k: TrackKey| #[trigger] new@.contains_key(k) implies new@[k] == target[k] by {
            let j = new.lemma_in(k);
            if j != i {
                old.lemma_at(j);
            }
        }
        assert(new@ =~= target);
    }

    /// Appending an entry for a track not held, stamped with the arrival clock.
    proof fn lemma_pushed(old: &Self, new: &Self)
        requires
            old.wf(),
            new.entries@.len() == old.entries@.len() + 1,
            new.entries@.drop_last() == old.entries@,
            !old@.contains_key(new.key_at(old.entries@.len() as int)),
            new.state_at(old.entries@.len() as int).arrival_seq == old.next_arrival_seq,
            new.next_arrival_seq == old.next_arrival_seq + 1,
        ensures
            new.wf(),
            new@ == old@.insert(
                new.key_at(old.entries@.len() as int),
                new.state_at(old.entries@.len() as int),
            ),
    {
        let n = old.entries@.len() as int;
        assert forall|a: int| 0 <= a < n implies new.entries@[a] == old.entries@[a] by {
            assert(new.entries@.drop_last()[a] == new.entries@[a]);
        }
        assert forall|a: int, b: int| 0 <= a < b < new.entries@.len() implies #[trigger] new.key_at(a)
            != #[trigger] new.key_at(b) by {
            if b == n {
                old.lemma_at(a);
            } else {
                assert(old.key_at(a) != old.key_at(b));
            }
        }
        assert forall|a: int| 0 <= a < new.entries@.len() implies #[trigger] new.state_at(
            a,
        ).arrival_seq < new.next_arrival_seq by {
            if a < n {
                assert(old.state_at(a).arrival_seq < old.next_arrival_seq);
            }
        }
        assert forall|a: int, b: int| 0 <= a < b < new.entries@.len() implies #[trigger] new.state_at(
            a,
        ).arrival_seq != #[trigger] new.state_at(b).arrival_seq by {
            if b == n {
                assert(old.state_at(a).arrival_seq < old.next_arrival_seq);
            } else {
                assert(old.state_at(a).arrival_seq != old.state_at(b).arrival_seq);
            }
        }
        let target = old@.insert(new.key_at(n), new.state_at(n));
        assert forall|k: TrackKey| new@.contains_key(k) <==> target.contains_key(k) by {
            if new.holds(k) {
                let j = new.index_of(k);
                if j < n {
                    assert(old.key_at(j) == k);
                    assert(old.holds(k));
                }
            }
            if old.holds(k) {
                let j = old.index_of(k);
                assert(new.key_at(j) == k);
                assert(new.holds(k));
            }
            if k == new.key_at(n) {
                assert(new.holds(k));
            }
        }
        assert forall|k: TrackKey| #[trigger] new@.contains_key(k) implies new@[k] == target[k] by {
            let j = new.lemma_in(k);
            if j != n {
                old.lemma_at(j);
            }
        }
        assert(new@ =~= target);
    }

    /// Dropping the entry at `i`.
    proof fn lemma_removed(old: &Self, new: &Self, i: int)
        requires
            old.wf(),
            0 <= i < old.entries@.len(),
            new.entries@ == old.entries@.remove(i),
            new.next_arrival_seq == old.next_arrival_seq,
        ensures
            new.wf(),
            new@ == old@.remove(old.key_at(i)),
    {
        assert forall|a: int| 0 <= a < new.entries@.len() implies #[trigger] new.entries@[a]
            == old.entries@[if a < i {
            a
        } else {
            a + 1
        }] by {}
        assert forall|a: int, b: int| 0 <= a < b < new.entries@.len() implies #[trigger] new.key_at(a)
            != #[trigger] new.key_at(b) by {
            let a2 = if a < i {
                a
            } else {
                a + 1
            };
            let b2 = if b < i {
                b
            } else {
                b + 1
            };
            assert(new.entries@[a] == old.entries@[a2]);
            assert(new.entries@[b] == old.entries@[b2]);
            assert(old.key_at(a2) != old.key_at(b2));
        }
        assert forall|a: int| 0 <= a < new.entries@.len() implies #[trigger] new.state_at(
            a,
        ).arrival_seq < new.next_arrival_seq by {
            let a2 = if a < i {
                a
            } else {
                a + 1
            };
            assert(new.entries@[a] == old.entries@[a2]);
            assert(old.state_at(a2).arrival_seq < old.next_arrival_seq);
        }
        assert forall|a: int, b: int| 0 <= a < b < new.entries@.len() implies #[trigger] new.state_at(
            a,
        ).arrival_seq != #[trigger] new.state_at(b).arrival_seq by {
            let a2 = if a < i {
                a
            } else {
                a + 1
            };
            let b2 = if b < i {
                b
            } else {
                b + 1
            };
            assert(new.entries@[a] == old.entries@[a2]);
            assert(new.entries@[b] == old.entries@[b2]);
            assert(old.state_at(a2).arrival_seq != old.state_at(b2).arrival_seq);
        }
        let target = old@.remove(old.key_at(i));
        assert forall|k: TrackKey| new@.contains_key(k) <==> target.contains_key(k) by {
            if new.holds(k) {
                let j = new.index_of(k);
                let j2 = if j < i {
                    j
                } else {
                    j + 1
                };
                assert(new.entries@[j] == old.entries@[j2]);
                assert(old.key_at(j2) == k);
                assert(old.holds(k));
                if k == old.key_at(i) {
                    old.lemma_at(j2);
                    old.lemma_at(i);
                }
            }
            if old.holds(k) && k != old.key_at(i) {
                let j = old.index_of(k);
                let j2 = if j < i {
                    j
                } else {
                    j - 1
                };
                assert(new.entries@[j2] == old.entries@[j]);
                assert(new.key_at(j2) == k);
                assert(new.holds(k));
            }
        }
        assert forall|k: TrackKey| #[trigger] new@.contains_key(k) implies new@[k] == target[k] by {
            let j = new.lemma_in(k);
            let j2 = if j < i {
                j
            } else {
                j + 1
            };
            assert(new.entries@[j] == old.entries@[j2]);
            old.lemma_at(j2);
        }
        assert(new@ =~= target);
    }

    /// The position of the entry for `name`, if one is held.
    fn find(&self, name: &FullTrackName) -> (r: Option<usize>)
        ensures
            match r {
                Some(i) => i < self.entries@.len() && self.key_at(i as int) == name@,
                None => !self.holds(name@),
            },
    {
        let mut i: usize = 0;
        while i < self.entries.len()
            invariant
                i <= self.entries@.len(),
                forall|j: int| 0 <= j < i ==> #[trigger] self.key_at(j) != name@,
            decreases self.entries.len() - i,
        {
            if self.entries[i].0.same_name(name) {
                return Some(i);
            }
            i = i + 1;
        }
        None
    }
}


impl TopNRanker {
    pub fn new(config: TopNRankerConfig) -> (r: Self)
        ensures
            r.wf(),
            r.config_view() == config,
            r@ == Map::<TrackKey, RankState>::empty(),
            r.arrival_clock() == 0,
    {
        let r = TopNRanker { config, entries: Vec::new(), next_arrival_seq: 0 };
        proof {
            assert(r@ =~= Map::<TrackKey, RankState>::empty());
        }
        r
    }

    /// Records an observed property value for a track. `update_seq` is the
    /// coordinator's logical clock at call time. The track's publishers are
    /// replaced; its last update moves only when the value changes. Returns
    /// whether the ranking-relevant state changed: a new track, or a new value.
    pub fn observe_value(
        &mut self,
        full_track_name: &FullTrackName,
        publisher_conn_ids: Vec<usize>,
        value: u64,
        update_seq: u64,
    ) -> (changed: bool)
        requires
            old(self).wf(),
            !old(self)@.contains_key(full_track_name@) ==> old(self).arrival_clock() < u64::MAX,
        ensures
            final(self).wf(),
            final(self).config_view() == old(self).config_view(),
            final(self)@ == old(self)@.insert(
                full_track_name@,
                spec_observed(
                    old(self)@,
                    full_track_name@,
                    publisher_conn_ids@,
                    value,
                    update_seq,
                    old(self).arrival_clock(),
                ),
            ),
            old(self)@.contains_key(full_track_name@) ==> changed == (old(self)@[full_track_name@].value
                != value) && final(self).arrival_clock() == old(self).arrival_clock(),
            !old(self)@.contains_key(full_track_name@) ==> changed && final(self).arrival_clock()
                == old(self).arrival_clock() + 1,
            final(self)@[full_track_name@].value == value,
            final(self)@[full_track_name@].publishers == publisher_conn_ids@,
            old(self)@.contains_key(full_track_name@) && old(self)@[full_track_name@].value == value
                ==> final(self)@[full_track_name@].last_update_seq == old(
                self,
            )@[full_track_name@].last_update_seq,
            old(self)@.contains_key(full_track_name@) && old(self)@[full_track_name@].value != value
                ==> final(self)@[full_track_name@].last_update_seq == update_seq,
            old(self)@.contains_key(full_track_name@) ==> final(self)@[full_track_name@].arrival_seq
                == old(self)@[full_track_name@].arrival_seq,
            !old(self)@.contains_key(full_track_name@) ==> final(self)@[full_track_name@].last_update_seq
                == update_seq,
            !old(self)@.contains_key(full_track_name@) ==> forall|k: TrackKey|
                #[trigger] old(self)@.contains_key(k) ==> old(self)@[k].arrival_seq
                < final(self)@[full_track_name@].arrival_seq,
    {
        proof {
            lemma_ranker_view(&*old(self));
        }
        let ghost pre = *self;
        let ghost ids = publisher_conn_ids@;
        match self.find(full_track_name) {
            None => {
                let seq = self.next_arrival_seq;
                let entry = RankEntry {
                    publisher_connection_ids: publisher_conn_ids,
                    property_value: value,
                    arrival_seq: seq,
                    last_update_seq: update_seq,
                };
                self.next_arrival_seq = seq + 1;
                self.entries.push((full_track_name.duplicate(), entry));
                proof {
                    assert(self.entries@.drop_last() =~= pre.entries@);
                    TopNRanker::lemma_pushed(&pre, self);
                }
                true
            },
            Some(i) => {
                proof {
                    pre.lemma_at(i as int);
                }
                let (name, old_entry) = self.entries.remove(i);
                let changed = old_entry.property_value != value;
                let last_update_seq = if changed {
                    update_seq
                } else {
                    old_entry.last_update_seq
                };
                let entry = RankEntry {
                    publisher_connection_ids: publisher_conn_ids,
                    property_value: value,
                    arrival_seq: old_entry.arrival_seq,
                    last_update_seq,
                };
                self.entries.insert(i, (name, entry));
                proof {
                    assert(self.entries@ =~= pre.entries@.update(i as int, self.entries@[i as int]));
                    TopNRanker::lemma_replaced(&pre, self, i as int);
                }
                changed
            },
        }
    }

    /// Removes every track whose publishers include `connection_id`; the
    /// other tracks stay as they were. Returns whether any track was removed.
    pub fn remove_publisher(&mut self, connection_id: usize) -> (removed_any: bool)
        requires
            old(self).wf(),
        ensures
            final(self).wf(),
            final(self).config_view() == old(self).config_view(),
            final(self).arrival_clock() == old(self).arrival_clock(),
            final(self)@ == spec_after_publisher_left(old(self)@, connection_id),
            removed_any == spec_publishes_any(old(self)@, connection_id),
    {
        let ghost pre = *self;
        let ghost mut done: Set<TrackKey> = Set::empty();
        let mut removed_any = false;
        let mut i: usize = 0;
        while i < self.entries.len()
            invariant
                self.wf(),
                self.config == pre.config,
                self.next_arrival_seq == pre.next_arrival_seq,
                i <= self.entries@.len(),
                forall|k: TrackKey|
                    #[trigger] pre@.contains_key(k) && !done.contains(k) ==> self@.contains_key(k)
                        && self@[k] == pre@[k],
                forall|k: TrackKey|
                    #[trigger] done.contains(k) ==> pre@.contains_key(k) && self@.contains_key(k)
                        == !pre@[k].publishers.contains(connection_id) && (self@.contains_key(k)
                        ==> self@[k] == pre@[k]),
                forall|k: TrackKey| #[trigger] self@.contains_key(k) ==> pre@.contains_key(k),
                forall|j: int| 0 <= j < i ==> done.contains(#[trigger] self.key_at(j)),
                forall|j: int| i <= j < self.entries@.len() ==> !done.contains(#[trigger] self.key_at(j)),
                removed_any == exists|k: TrackKey|
                    #[trigger] done.contains(k) && pre@[k].publishers.contains(connection_id),
            decreases self.entries.len() - i,
        {
            let ghost before = *self;
            let ghost k = self.key_at(i as int);
            let ghost idx = i as int;
            let ghost old_done = done;
            let ghost old_removed = removed_any;
            proof {
                before.lemma_at(i as int);
                assert(!done.contains(k));
                assert(pre@[k] == before.state_at(idx));
            }
            let holds_id = contains_id(&self.entries[i].1.publisher_connection_ids, connection_id);
            if holds_id {
                removed_any = true;
                self.entries.remove(i);
                proof {
                    TopNRanker::lemma_removed(&before, self, i as int);
                    assert forall|j: int| i <= j < self.entries@.len() implies !done.insert(k).contains(
                        #[trigger] self.key_at(j),
                    ) by {
                        assert(self.key_at(j) == before.key_at(j + 1));
                        assert(before.key_at(i as int) != before.key_at(j + 1));
                    }
                    assert forall|j: int| 0 <= j < i implies done.insert(k).contains(
                        #[trigger] self.key_at(j),
                    ) by {
                        assert(self.key_at(j) == before.key_at(j));
                    }
                }
            } else {
                i = i + 1;
            }
            proof {
                done = done.insert(k);
                if pre@[k].publishers.contains(connection_id) {
                    assert(removed_any);
                    assert(done.contains(k));
                } else {
                    assert(removed_any == old_removed);
                    assert forall|k2: TrackKey|
                        #[trigger] done.contains(k2) && pre@[k2].publishers.contains(connection_id)
                        implies old_done.contains(k2) by {}
                    if old_removed {
                        let w = choose|w: TrackKey|
                            #[trigger] old_done.contains(w) && pre@[w].publishers.contains(connection_id);
                        assert(done.contains(w));
                    }
                }
            }
        }
        proof {
            let target = spec_after_publisher_left(pre@, connection_id);
            assert forall|k: TrackKey| #[trigger] pre@.contains_key(k) implies done.contains(k) by {
                if !done.contains(k) {
                    let j = self.lemma_in(k);
                }
            }
            assert forall|k: TrackKey| self@.contains_key(k) <==> target.contains_key(k) by {
                if pre@.contains_key(k) {
                    assert(done.contains(k));
                }
            }
            assert forall|k: TrackKey| #[trigger] self@.contains_key(k) implies self@[k] == target[k] by {
                assert(done.contains(k));
            }
            assert(self@ =~= target);
            if removed_any {
                let k = choose|k: TrackKey|
                    #[trigger] done.contains(k) && pre@[k].publishers.contains(connection_id);
                assert(pre@.contains_key(k));
            } else {
                assert forall|k: TrackKey| #[trigger] pre@.contains_key(k) implies !pre@[k].publishers.contains(
                    connection_id,
                ) by {
                    assert(done.contains(k));
                }
            }
        }
        removed_any
    }

    /// Removes a track entirely, handing back its entry if it was held.
    pub fn remove_track(&mut self, full_track_name: &FullTrackName) -> (r: Option<RankEntry>)
        requires
            old(self).wf(),
        ensures
            final(self).wf(),
            final(self).config_view() == old(self).config_view(),
            final(self).arrival_clock() == old(self).arrival_clock(),
            final(self)@ == old(self)@.remove(full_track_name@),
            match r {
                Some(e) => old(self)@.contains_key(full_track_name@) && e@ == old(
                    self,
                )@[full_track_name@],
                None => !old(self)@.contains_key(full_track_name@),
            },
    {
        let ghost pre = *self;
        match self.find(full_track_name) {
            None => {
                proof {
                    assert(self@ =~= pre@.remove(full_track_name@));
                }
                None
            },
            Some(i) => {
                proof {
                    pre.lemma_at(i as int);
                }
                let (_, entry) = self.entries.remove(i);
                proof {
                    TopNRanker::lemma_removed(&pre, self, i as int);
                }
                Some(entry)
            },
        }
    }

    /// Whether a track has been observed, whatever its current value.
    pub fn has_entry(&self, full_track_name: &FullTrackName) -> (r: bool)
        ensures
            r == self@.contains_key(full_track_name@),
    {
        match self.find(full_track_name) {
            Some(_) => true,
            None => false,
        }
    }

    /// Number of tracks held, silent ones included.
    pub fn entry_count(&self) -> (n: usize)
        requires
            self.wf(),
        ensures
            n == self@.len(),
    {
        proof {
            self.lemma_view_len();
        }
        self.entries.len()
    }
}


impl TopNRanker {
    /// The untaken candidate that ranks at least as high as every other
    /// untaken candidate, if any is left.
    fn best_untaken(&self, taken: &Vec<bool>, requester: usize) -> (r: Option<usize>)
        requires
            taken@.len() == self.entries@.len(),
        ensures
            match r {
                None => forall|x: int|
                    0 <= x < self.entries@.len() && !taken@[x] ==> !spec_is_candidate(
                        #[trigger] self.state_at(x),
                        requester,
                    ),
                Some(b) => b < self.entries@.len() && !taken@[b as int] && spec_is_candidate(
                    self.state_at(b as int),
                    requester,
                ) && forall|x: int|
                    0 <= x < self.entries@.len() && !taken@[x] && spec_is_candidate(
                        #[trigger] self.state_at(x),
                        requester,
                    ) ==> spec_ranks_at_least(
                        self.state_at(b as int),
                        self.state_at(x),
                        self.config.tie_break_policy,
                    ),
            },
    {
        let policy = self.config.tie_break_policy;
        let mut best: Option<usize> = None;
        let mut x: usize = 0;
        while x < self.entries.len()
            invariant
                x <= self.entries@.len(),
                taken@.len() == self.entries@.len(),
                policy == self.config.tie_break_policy,
                match best {
                    None => forall|y: int|
                        0 <= y < x && !taken@[y] ==> !spec_is_candidate(
                            #[trigger] self.state_at(y),
                            requester,
                        ),
                    Some(b) => b < x && !taken@[b as int] && spec_is_candidate(
                        self.state_at(b as int),
                        requester,
                    ) && forall|y: int|
                        0 <= y < x && !taken@[y] && spec_is_candidate(
                            #[trigger] self.state_at(y),
                            requester,
                        ) ==> spec_ranks_at_least(self.state_at(b as int), self.state_at(y), policy),
                },
            decreases self.entries.len() - x,
        {
            if !taken[x] && is_candidate(&self.entries[x].1, requester) {
                match best {
                    None => {
                        best = Some(x);
                    },
                    Some(b) => {
                        if !ranks_at_least(&self.entries[b].1, &self.entries[x].1, policy) {
                            best = Some(x);
                        }
                    },
                }
            }
            x = x + 1;
        }
        best
    }

    /// The top `n` tracks for a subscriber, best first. A track is excluded
    /// when it is silent or when the subscriber publishes it; the others are
    /// ordered by value, highest first, then by the tie-break policy.
    pub fn compute_top_n(&self, requester_conn_id: usize, n: usize) -> (r: Vec<FullTrackName>)
        requires
            self.wf(),
        ensures
            spec_is_top_n(
                self@,
                requester_conn_id,
                n,
                self.config_view().tie_break_policy,
                names_view(r@),
            ),
            forall|i: int|
                0 <= i < r@.len() ==> self@.contains_key(#[trigger] r@[i]@) && self@[r@[i]@].value
                    > SPEECH_SILENT && !self@[r@[i]@].publishers.contains(requester_conn_id),
            forall|k: TrackKey|
                #[trigger] self@.contains_key(k) && self@[k].value > SPEECH_SILENT
                    && !self@[k].publishers.contains(requester_conn_id) && !names_view(r@).contains(k)
                    ==> r@.len() == n,
    {
        let len = self.entries.len();
        let policy = self.config.tie_break_policy;
        let mut taken: Vec<bool> = Vec::new();
        let mut t: usize = 0;
        while t < len
            invariant
                len == self.entries@.len(),
                t <= len,
                taken@.len() == t,
                forall|x: int| 0 <= x < t ==> !taken@[x],
            decreases len - t,
        {
            taken.push(false);
            t = t + 1;
        }
        let mut chosen: Vec<usize> = Vec::new();
        let mut exhausted = false;
        while !exhausted && chosen.len() < n
            invariant
                len == self.entries@.len(),
                policy == self.config.tie_break_policy,
                taken@.len() == len,
                chosen@.len() <= n,
                forall|j: int|
                    0 <= j < chosen@.len() ==> (#[trigger] chosen@[j]) < len && taken@[chosen@[j] as int]
                        && spec_is_candidate(self.state_at(chosen@[j] as int), requester_conn_id),
                forall|a: int, b: int|
                    0 <= a < b < chosen@.len() ==> #[trigger] chosen@[a] != #[trigger] chosen@[b]
                        && spec_ranks_at_least(
                        self.state_at(chosen@[a] as int),
                        self.state_at(chosen@[b] as int),
                        policy,
                    ),
                forall|x: int| 0 <= x < len && #[trigger] taken@[x] ==> chosen@.contains(x as usize),
                forall|x: int|
                    0 <= x < len && !taken@[x] && spec_is_candidate(
                        #[trigger] self.state_at(x),
                        requester_conn_id,
                    ) ==> !exhausted && forall|j: int|
                        0 <= j < chosen@.len() ==> spec_ranks_at_least(
                            self.state_at(#[trigger] chosen@[j] as int),
                            self.state_at(x),
                            policy,
                        ),
            decreases n - chosen@.len() + if exhausted {
                0int
            } else {
                1int
            },
        {
            match self.best_untaken(&taken, requester_conn_id) {
                None => {
                    exhausted = true;
                },
                Some(b) => {
                    let ghost old_chosen = chosen@;
                    let ghost old_taken = taken@;
                    chosen.push(b);
                    taken.set(b, true);
                    proof {
                        assert forall|x: int| 0 <= x < len && #[trigger] taken@[x] implies chosen@.contains(
                            x as usize,
                        ) by {
                            if x == b as int {
                                assert(chosen@[old_chosen.len() as int] == b);
                            } else {
                                assert(old_taken[x]);
                                let j = choose|j: int| 0 <= j < old_chosen.len() && old_chosen[j] == x as usize;
                                assert(chosen@[j] == x as usize);
                            }
                        }
                        assert forall|a: int, c: int| 0 <= a < c < chosen@.len() implies #[trigger] chosen@[a]
                            != #[trigger] chosen@[c] && spec_ranks_at_least(
                            self.state_at(chosen@[a] as int),
                            self.state_at(chosen@[c] as int),
                            policy,
                        ) by {
                            if c == old_chosen.len() {
                                assert(old_taken[chosen@[a] as int]);
                            }
                        }
                    }
                },
            }
        }
        let mut names: Vec<FullTrackName> = Vec::new();
        let mut j: usize = 0;
        while j < chosen.len()
            invariant
                len == self.entries@.len(),
                j <= chosen@.len(),
                names@.len() == j,
                forall|a: int| 0 <= a < chosen@.len() ==> (#[trigger] chosen@[a]) < len,
                forall|a: int| 0 <= a < j ==> #[trigger] names@[a]@ == self.key_at(chosen@[a] as int),
            decreases chosen.len() - j,
        {
            let idx = chosen[j];
            names.push(self.entries[idx].0.duplicate());
            j = j + 1;
        }
        proof {
            let picked = names_view(names@);
            assert forall|a: int| 0 <= a < picked.len() implies picked[a] == self.key_at(
                chosen@[a] as int,
            ) && self@.contains_key(picked[a]) && self@[picked[a]] == self.state_at(
                chosen@[a] as int,
            ) by {
                self.lemma_at(chosen@[a] as int);
            }
            assert forall|a: int, c: int| 0 <= a < c < picked.len() implies #[trigger] picked[a]
                != #[trigger] picked[c] by {
                let x = chosen@[a] as int;
                let y = chosen@[c] as int;
                if x < y {
                    assert(self.key_at(x) != self.key_at(y));
                } else {
                    assert(self.key_at(y) != self.key_at(x));
                }
            }
            assert forall|k: TrackKey|
                #[trigger] self@.contains_key(k) && spec_is_candidate(self@[k], requester_conn_id)
                    && !picked.contains(k) implies picked.len() == n && forall|a: int|
                0 <= a < picked.len() ==> spec_ranks_at_least(
                    self@[#[trigger] picked[a]],
                    self@[k],
                    policy,
                ) by {
                let x = self.lemma_in(k);
                if taken@[x] {
                    let a = choose|a: int| 0 <= a < chosen@.len() && chosen@[a] == x as usize;
                    assert(picked[a] == k);
                }
            }
            lemma_top_n_members(self@, requester_conn_id, n, policy, picked);
            assert forall|i: int| 0 <= i < names@.len() implies #[trigger] names@[i]@ == picked[i] by {}
        }
        names
    }
}


/// Every track the ranker holds carries its own arrival number, below the
/// arrival clock.
/// Every track in a top-`n` answer is held, not silent, and published by
/// no connection of the requester's: the requester appears nowhere in its
/// publisher list. A held track that is not silent and not published by the
/// requester is left out only when the answer is already `n` long.
pub proof fn lemma_top_n_members(
    m: Map<TrackKey, RankState>,
    requester: usize,
    n: usize,
    policy: TieBreakPolicy,
    picked: Seq<TrackKey>,
)
    requires
        spec_is_top_n(m, requester, n, policy, picked),
    ensures
        forall|i: int|
            0 <= i < picked.len() ==> m.contains_key(#[trigger] picked[i]) && m[picked[i]].value
                > SPEECH_SILENT && forall|j: int|
                0 <= j < m[picked[i]].publishers.len() ==> m[picked[i]].publishers[j] != requester,
        forall|k: TrackKey|
            #[trigger] m.contains_key(k) && m[k].value > SPEECH_SILENT && (forall|j: int|
                0 <= j < m[k].publishers.len() ==> m[k].publishers[j] != requester)
                && !picked.contains(k) ==> picked.len() == n,
{
    assert forall|i: int| 0 <= i < picked.len() implies m.contains_key(#[trigger] picked[i])
        && m[picked[i]].value > SPEECH_SILENT && forall|j: int|
        0 <= j < m[picked[i]].publishers.len() ==> m[picked[i]].publishers[j] != requester by {
        assert forall|j: int| 0 <= j < m[picked[i]].publishers.len() implies m[picked[i]].publishers[j]
            != requester by {
            if m[picked[i]].publishers[j] == requester {
                assert(m[picked[i]].publishers.contains(requester));
            }
        }
    }
    assert forall|k: TrackKey|
        #[trigger] m.contains_key(k) && m[k].value > SPEECH_SILENT && (forall|j: int|
            0 <= j < m[k].publishers.len() ==> m[k].publishers[j] != requester)
            && !picked.contains(k) implies picked.len() == n by {
        assert(!m[k].publishers.contains(requester));
    }
}

/// Observing a held track with the value it already has leaves its last
/// update where it was; observing a new value moves the last update to the
/// observation's clock. Either way the track keeps its arrival number, takes
/// the observed value and publishers; a track not held arrives with the
/// arrival clock and its last update at the observation's clock.
pub proof fn lemma_observation_updates(
    m: Map<TrackKey, RankState>,
    k: TrackKey,
    ids: Seq<usize>,
    value: u64,
    update_seq: u64,
    clock: u64,
)
    ensures
        ({
            let e = spec_observed(m, k, ids, value, update_seq, clock);
            &&& e.value == value
            &&& e.publishers == ids
            &&& m.contains_key(k) && m[k].value == value ==> e.last_update_seq == m[k].last_update_seq
            &&& m.contains_key(k) && m[k].value != value ==> e.last_update_seq == update_seq
            &&& m.contains_key(k) ==> e.arrival_seq == m[k].arrival_seq
            &&& !m.contains_key(k) ==> e.arrival_seq == clock && e.last_update_seq == update_seq
        }),
{
}

/// A well-formed ranker holds finitely many tracks, each with an arrival
/// number below the arrival clock, no two alike.
pub proof fn lemma_ranker_view(r: &TopNRanker)
    requires
        r.wf(),
    ensures
        r@.dom().finite(),
        forall|k: TrackKey| #[trigger] r@.contains_key(k) ==> r@[k].arrival_seq < r.arrival_clock(),
        forall|k1: TrackKey, k2: TrackKey|
            #[trigger] r@.contains_key(k1) && #[trigger] r@.contains_key(k2) && k1 != k2
                ==> r@[k1].arrival_seq != r@[k2].arrival_seq,
{
    r.lemma_view_len();
    assert forall|k: TrackKey| #[trigger] r@.contains_key(k) implies r@[k].arrival_seq < r.arrival_clock() by {
        let i = r.lemma_in(k);
    }
    assert forall|k1: TrackKey, k2: TrackKey|
        #[trigger] r@.contains_key(k1) && #[trigger] r@.contains_key(k2) && k1 != k2
        implies r@[k1].arrival_seq != r@[k2].arrival_seq by {
        lemma_arrivals_distinct(r, k1, k2);
    }
}

pub proof fn lemma_arrivals_distinct(r: &TopNRanker, k1: TrackKey, k2: TrackKey)
    requires
        r.wf(),
        r@.contains_key(k1),
        r@.contains_key(k2),
        k1 != k2,
    ensures
        r@[k1].arrival_seq != r@[k2].arrival_seq,
        r@[k1].arrival_seq < r.arrival_clock(),
{
    let i = r.lemma_in(k1);
    let j = r.lemma_in(k2);
    if i < j {
        assert(r.state_at(i).arrival_seq != r.state_at(j).arrival_seq);
    } else {
        assert(r.state_at(j).arrival_seq != r.state_at(i).arrival_seq);
    }
}

/// Under `OldestWins` no two held tracks tie: of two distinct tracks, exactly
/// one ranks at least as high as the other.
pub proof fn lemma_oldest_wins_strict(r: &TopNRanker, k1: TrackKey, k2: TrackKey)
    requires
        r.wf(),
        r@.contains_key(k1),
        r@.contains_key(k2),
        k1 != k2,
    ensures
        spec_ranks_at_least(r@[k1], r@[k2], TieBreakPolicy::OldestWins) != spec_ranks_at_least(
            r@[k2],
            r@[k1],
            TieBreakPolicy::OldestWins,
        ),
{
    lemma_arrivals_distinct(r, k1, k2);
}

/// Removing a track that an observation has just added gives back the
/// ranker's tracks as they were.
pub proof fn lemma_remove_undoes_new_observation(
    m: Map<TrackKey, RankState>,
    k: TrackKey,
    ids: Seq<usize>,
    value: u64,
    update_seq: u64,
    clock: u64,
)
    requires
        !m.contains_key(k),
    ensures
        m.insert(k, spec_observed(m, k, ids, value, update_seq, clock)).remove(k) == m,
{
    assert(m.insert(k, spec_observed(m, k, ids, value, update_seq, clock)).remove(k) =~= m);
}

} // verus!
