//! Lookups and small updates on the campaign state.

use vstd::prelude::*;

use crate::fixed::{add_unit, unit, ONE};
use crate::keys::{first, lemma_first_from, lemma_first_push, lemma_first_unique};
use crate::state::{
    FactionState, FireCount, LogEntry, ReputationEntry, SimState, SubsystemState,
};
use crate::util::same;

verus! {

/// The subsystem ids, in order.
pub open spec fn sub_keys(s: Seq<SubsystemState>) -> Seq<Seq<char>> {
    Seq::new(s.len(), |i: int| s[i].id@)
}

/// The reputation trait ids, in order.
pub open spec fn rep_keys(s: Seq<ReputationEntry>) -> Seq<Seq<char>> {
    Seq::new(s.len(), |i: int| s[i].id@)
}

/// The event ids with a fire count, in order.
pub open spec fn fire_keys(s: Seq<FireCount>) -> Seq<Seq<char>> {
    Seq::new(s.len(), |i: int| s[i].id@)
}

/// How many times event `id` has fired, by the counts `s`.
pub open spec fn fires(s: Seq<FireCount>, id: Seq<char>) -> u32 {
    match first(fire_keys(s), id) {
        Some(i) => s[i].count,
        None => 0,
    }
}

/// Every reputation trait lies in 0-1.
pub open spec fn reps_ok(s: Seq<ReputationEntry>) -> bool {
    forall|i: int| 0 <= i < s.len() ==> 0 <= (#[trigger] s[i]).value <= ONE
}

/// A trait nobody has moved yet reads neutral.
pub open spec fn neutral_reputation() -> i64 {
    500_000
}

/// The value of reputation trait `id` in `reps`.
pub open spec fn rep_value(reps: Seq<ReputationEntry>, id: Seq<char>) -> i64 {
    match first(rep_keys(reps), id) {
        Some(i) => reps[i].value,
        None => neutral_reputation(),
    }
}

/// Index of the largest aboard people among the first `n` (earliest wins ties).
pub open spec fn dominant_in(fs: Seq<FactionState>, n: int) -> Option<int>
    decreases n,
{
    if n <= 0 {
        None
    } else {
        match dominant_in(fs, n - 1) {
            None => if fs[n - 1].aboard() {
                Some(n - 1)
            } else {
                None
            },
            Some(b) => if fs[n - 1].aboard() && fs[n - 1].members > fs[b].members {
                Some(n - 1)
            } else {
                Some(b)
            },
        }
    }
}

/// Index of the largest aboard people (earliest wins ties).
pub open spec fn dominant(fs: Seq<FactionState>) -> Option<int> {
    dominant_in(fs, fs.len() as int)
}

/// Whether the dominant people is `id`.
pub open spec fn dominant_is(fs: Seq<FactionState>, id: Seq<char>) -> bool {
    match dominant(fs) {
        Some(i) => fs[i].faction_id@ == id,
        None => false,
    }
}

/// Whether people `id` rides aboard.
pub open spec fn faction_aboard(fs: Seq<FactionState>, id: Seq<char>) -> bool {
    exists|i: int| 0 <= i < fs.len() && #[trigger] fs[i].faction_id@ == id && fs[i].aboard()
}

proof fn lemma_dominant_in(fs: Seq<FactionState>, n: int)
    requires
        0 <= n <= fs.len(),
    ensures
        match dominant_in(fs, n) {
            Some(b) => 0 <= b < n && fs[b].aboard() && forall|j: int|
                0 <= j < n && fs[j].aboard() ==> fs[j].members <= fs[b].members,
            None => forall|j: int| 0 <= j < n ==> !fs[j].aboard(),
        },
    decreases n,
{
    if n > 0 {
        lemma_dominant_in(fs, n - 1);
    }
}

/// What the dominant index means.
pub proof fn lemma_dominant(fs: Seq<FactionState>)
    ensures
        match dominant(fs) {
            Some(b) => 0 <= b < fs.len() && fs[b].aboard() && forall|j: int|
                0 <= j < fs.len() && fs[j].aboard() ==> fs[j].members <= fs[b].members,
            None => forall|j: int| 0 <= j < fs.len() ==> !fs[j].aboard(),
        },
{
    lemma_dominant_in(fs, fs.len() as int);
}

impl SimState {
    /// The current campaign year.
    pub fn year(&self) -> (y: u32)
        ensures
            y == self.year,
    {
        self.year
    }

    /// Record a line in the ship's log, dated this month.
    pub fn push_log(&mut self, text: String)
        ensures
            final(self).log@ == old(self).log@.push(
                LogEntry { month_clock: old(self).month_clock, text },
            ),
            *final(self) == (SimState { log: final(self).log, ..*old(self) }),
    {
        let entry = LogEntry { month_clock: self.month_clock, text };
        self.log.push(entry);
    }

    /// The index of subsystem `id`.
    pub fn subsystem_index(&self, id: &str) -> (r: Option<usize>)
        ensures
            r matches Some(i) ==> first(sub_keys(self.subsystems@), id@) == Some(i as int)
                && i < self.subsystems.len(),
            r is None ==> first(sub_keys(self.subsystems@), id@) is None,
    {
        let key = id.to_owned();
        let ghost keys = sub_keys(self.subsystems@);
        let mut i: usize = 0;
        while i < self.subsystems.len()
            invariant
                i <= self.subsystems.len(),
                keys == sub_keys(self.subsystems@),
                key@ == id@,
                forall|j: int| 0 <= j < i ==> keys[j] != id@,
            decreases self.subsystems.len() - i,
        {
            if same(&self.subsystems[i].id, &key) {
                proof {
                    lemma_first_unique(keys, id@, i as int);
                }
                return Some(i);
            }
            i = i + 1;
        }
        proof {
            lemma_first_from(keys, id@, 0);
        }
        None
    }

    /// The value of reputation trait `id` (neutral when never moved).
    pub fn reputation(&self, id: &str) -> (r: i64)
        ensures
            r == rep_value(self.reputation@, id@),
    {
        match self.reputation_index(id) {
            Some(i) => self.reputation[i].value,
            None => 500_000,
        }
    }

    fn reputation_index(&self, id: &str) -> (r: Option<usize>)
        ensures
            r matches Some(i) ==> first(rep_keys(self.reputation@), id@) == Some(i as int)
                && i < self.reputation.len(),
            r is None ==> first(rep_keys(self.reputation@), id@) is None,
    {
        let key = id.to_owned();
        let ghost keys = rep_keys(self.reputation@);
        let mut i: usize = 0;
        while i < self.reputation.len()
            invariant
                i <= self.reputation.len(),
                keys == rep_keys(self.reputation@),
                key@ == id@,
                forall|j: int| 0 <= j < i ==> keys[j] != id@,
            decreases self.reputation.len() - i,
        {
            if same(&self.reputation[i].id, &key) {
                proof {
                    lemma_first_unique(keys, id@, i as int);
                }
                return Some(i);
            }
            i = i + 1;
        }
        proof {
            lemma_first_from(keys, id@, 0);
        }
        None
    }

    /// Nudge reputation trait `id` by `delta`, kept in 0-1; no other trait moves.
    pub fn adjust_reputation(&mut self, id: &str, delta: i64)
        ensures
            rep_value(final(self).reputation@, id@) == unit(
                rep_value(old(self).reputation@, id@) + delta,
            ),
            forall|k: Seq<char>|
                k != id@ ==> #[trigger] rep_value(final(self).reputation@, k) == rep_value(
                    old(self).reputation@,
                    k,
                ),
            *final(self) == (SimState { reputation: final(self).reputation, ..*old(self) }),
            reps_ok(old(self).reputation@) ==> reps_ok(final(self).reputation@),
    {
        match self.reputation_index(id) {
            Some(i) => {
                let v = add_unit(self.reputation[i].value, delta);
                self.reputation[i].value = v;
                proof {
                    let ok = rep_keys(old(self).reputation@);
                    assert(rep_keys(self.reputation@) =~= ok);
                    assert forall|k: Seq<char>| k != id@ implies #[trigger] rep_value(
                        self.reputation@,
                        k,
                    ) == rep_value(old(self).reputation@, k) by {
                        lemma_first_from(ok, k, 0);
                        lemma_first_from(ok, id@, 0);
                    }
                }
            },
            None => {
                let v = add_unit(500_000, delta);
                let entry = ReputationEntry { id: id.to_owned(), value: v };
                self.reputation.push(entry);
                proof {
                    let ok = rep_keys(old(self).reputation@);
                    assert(rep_keys(self.reputation@) =~= ok.push(id@));
                    assert forall|k: Seq<char>| k != id@ implies #[trigger] rep_value(
                        self.reputation@,
                        k,
                    ) == rep_value(old(self).reputation@, k) by {
                        lemma_first_push(ok, id@, k);
                        lemma_first_from(ok, k, 0);
                    }
                    lemma_first_push(ok, id@, id@);
                }
            },
        }
    }

    /// Whether people `id` rides aboard.
    pub fn is_faction_aboard(&self, id: &str) -> (r: bool)
        ensures
            r == faction_aboard(self.factions@, id@),
    {
        let key = id.to_owned();
        let mut i: usize = 0;
        while i < self.factions.len()
            invariant
                i <= self.factions.len(),
                key@ == id@,
                forall|j: int|
                    0 <= j < i ==> !(#[trigger] self.factions@[j].faction_id@ == id@
                        && self.factions@[j].aboard()),
            decreases self.factions.len() - i,
        {
            if self.factions[i].is_aboard() && same(&self.factions[i].faction_id, &key) {
                return true;
            }
            i = i + 1;
        }
        false
    }

    /// The index of the largest aboard people, if any (earliest wins ties).
    pub fn dominant_faction_index(&self) -> (r: Option<usize>)
        ensures
            r matches Some(i) ==> dominant(self.factions@) == Some(i as int) && i
                < self.factions.len(),
            r is None ==> dominant(self.factions@) is None,
    {
        let mut best: Option<usize> = None;
        let mut i: usize = 0;
        while i < self.factions.len()
            invariant
                i <= self.factions.len(),
                best matches Some(b) ==> dominant_in(self.factions@, i as int) == Some(b as int)
                    && b < i,
                best is None ==> dominant_in(self.factions@, i as int) is None,
            decreases self.factions.len() - i,
        {
            if self.factions[i].is_aboard() {
                match best {
                    None => {
                        best = Some(i);
                    },
                    Some(b) => {
                        if self.factions[i].members > self.factions[b].members {
                            best = Some(i);
                        }
                    },
                }
            }
            i = i + 1;
        }
        best
    }

    /// The id of the largest aboard people, if any.
    pub fn dominant_faction_id(&self) -> (r: Option<String>)
        ensures
            r matches Some(s) ==> dominant(self.factions@) matches Some(b) && s@
                == self.factions@[b].faction_id@,
            r is None ==> dominant(self.factions@) is None,
    {
        match self.dominant_faction_index() {
            Some(i) => Some(self.factions[i].faction_id.clone()),
            None => None,
        }
    }

    /// Whether the largest aboard people is `id`.
    pub fn is_dominant(&self, id: &str) -> (r: bool)
        ensures
            r == dominant_is(self.factions@, id@),
    {
        let key = id.to_owned();
        match self.dominant_faction_index() {
            Some(i) => same(&self.factions[i].faction_id, &key),
            None => false,
        }
    }

    /// How many times event `id` has fired.
    pub fn fire_count(&self, id: &str) -> (r: u32)
        ensures
            r == (match first(fire_keys(self.event_fire_counts@), id@) {
                Some(i) => self.event_fire_counts@[i].count,
                None => 0,
            }),
    {
        let key = id.to_owned();
        let ghost keys = fire_keys(self.event_fire_counts@);
        let mut i: usize = 0;
        while i < self.event_fire_counts.len()
            invariant
                i <= self.event_fire_counts.len(),
                keys == fire_keys(self.event_fire_counts@),
                key@ == id@,
                forall|j: int| 0 <= j < i ==> keys[j] != id@,
            decreases self.event_fire_counts.len() - i,
        {
            if same(&self.event_fire_counts[i].id, &key) {
                proof {
                    lemma_first_unique(keys, id@, i as int);
                }
                return self.event_fire_counts[i].count;
            }
            i = i + 1;
        }
        proof {
            lemma_first_from(keys, id@, 0);
        }
        0
    }

    /// Count one more firing of event `id` (a count at the counter's top
    /// stays there); no other count moves.
    pub fn record_fire(&mut self, id: &str)
        ensures
            forall|k: Seq<char>|
                #[trigger] fires(final(self).event_fire_counts@, k) == if k == id@ {
                    crate::fixed::bump(fires(old(self).event_fire_counts@, k))
                } else {
                    fires(old(self).event_fire_counts@, k)
                },
            *final(self) == (SimState { event_fire_counts: final(self).event_fire_counts, ..*old(self) }),
    {
        let key = id.to_owned();
        let ghost ok = fire_keys(old(self).event_fire_counts@);
        let mut i: usize = 0;
        while i < self.event_fire_counts.len()
            invariant
                i <= self.event_fire_counts.len(),
                *self == *old(self),
                ok == fire_keys(self.event_fire_counts@),
                key@ == id@,
                forall|j: int| 0 <= j < i ==> ok[j] != id@,
            decreases self.event_fire_counts.len() - i,
        {
            if same(&self.event_fire_counts[i].id, &key) {
                proof {
                    lemma_first_unique(ok, id@, i as int);
                }
                let c = self.event_fire_counts[i].count;
                self.event_fire_counts[i].count = c.saturating_add(1);
                proof {
                    assert(fire_keys(self.event_fire_counts@) =~= ok);
                    assert forall|k: Seq<char>| #[trigger] fires(self.event_fire_counts@, k) == if k == id@ {
                        crate::fixed::bump(fires(old(self).event_fire_counts@, k))
                    } else {
                        fires(old(self).event_fire_counts@, k)
                    } by {
                        lemma_first_from(ok, k, 0);
                    }
                }
                return;
            }
            i = i + 1;
        }
        proof {
            lemma_first_from(ok, id@, 0);
        }
        self.event_fire_counts.push(FireCount { id: key, count: 1 });
        proof {
            assert(fire_keys(self.event_fire_counts@) =~= ok.push(id@));
            assert forall|k: Seq<char>| #[trigger] fires(self.event_fire_counts@, k) == if k == id@ {
                crate::fixed::bump(fires(old(self).event_fire_counts@, k))
            } else {
                fires(old(self).event_fire_counts@, k)
            } by {
                lemma_first_push(ok, id@, k);
                lemma_first_from(ok, k, 0);
            }
        }
    }
}

} // verus!
