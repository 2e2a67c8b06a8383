//! The peoples aboard as a whole: one leaving the ship, one folding into
//! another, the smallest deck bearing a cut, and favor shown to one people
//! felt by its rivals and allies.

use vstd::prelude::*;

use crate::data::{FactionDef, FactionLossKind, GameData, NamedDelta};
use crate::effects::{aboard_from, apply_approval_deltas, approvals_after, approvals_ok};
use crate::fixed::{add_unit, mul_frac, scale, unit, ONE};
use crate::keys::{first, lemma_first_from, lemma_first_unique};
use crate::queries::faction_aboard;
use crate::state::{FactionState, FactionStatus, PopulationState, SimState};
use crate::util::{join2, same};

verus! {

/// Index of the smallest aboard people among the first `n` (earliest wins ties).
pub open spec fn smallest_in(fs: Seq<FactionState>, n: int) -> Option<int>
    decreases n,
{
    if n <= 0 {
        None
    } else {
        match smallest_in(fs, n - 1) {
            None => if fs[n - 1].aboard() {
                Some(n - 1)
            } else {
                None
            },
            Some(b) => if fs[n - 1].aboard() && fs[n - 1].members < fs[b].members {
                Some(n - 1)
            } else {
                Some(b)
            },
        }
    }
}

/// Index of the smallest aboard people (earliest wins ties).
pub open spec fn smallest(fs: Seq<FactionState>) -> Option<int> {
    smallest_in(fs, fs.len() as int)
}

proof fn lemma_smallest_in(fs: Seq<FactionState>, n: int)
    requires
        0 <= n <= fs.len(),
    ensures
        match smallest_in(fs, n) {
            Some(b) => 0 <= b < n && fs[b].aboard() && forall|j: int|
                0 <= j < n && fs[j].aboard() ==> fs[b].members <= fs[j].members,
            None => forall|j: int| 0 <= j < n ==> !fs[j].aboard(),
        },
    decreases n,
{
    if n > 0 {
        lemma_smallest_in(fs, n - 1);
    }
}

/// What the smallest index means.
pub proof fn lemma_smallest(fs: Seq<FactionState>)
    ensures
        match smallest(fs) {
            Some(b) => 0 <= b < fs.len() && fs[b].aboard() && forall|j: int|
                0 <= j < fs.len() && fs[j].aboard() ==> fs[b].members <= fs[j].members,
            None => forall|j: int| 0 <= j < fs.len() ==> !fs[j].aboard(),
        },
{
    lemma_smallest_in(fs, fs.len() as int);
}

/// Index of the largest aboard people other than `skip` among the first `n`
/// (earliest wins ties): the host a folding people joins.
pub open spec fn host_in(fs: Seq<FactionState>, skip: int, n: int) -> Option<int>
    decreases n,
{
    if n <= 0 {
        None
    } else {
        let ok = n - 1 != skip && fs[n - 1].aboard();
        match host_in(fs, skip, n - 1) {
            None => if ok {
                Some(n - 1)
            } else {
                None
            },
            Some(b) => if ok && fs[n - 1].members > fs[b].members {
                Some(n - 1)
            } else {
                Some(b)
            },
        }
    }
}

/// The host for the people at `skip`.
pub open spec fn host_for(fs: Seq<FactionState>, skip: int) -> Option<int> {
    host_in(fs, skip, fs.len() as int)
}

/// What the host index means.
pub proof fn lemma_host_in(fs: Seq<FactionState>, skip: int, n: int)
    requires
        0 <= n <= fs.len(),
    ensures
        match host_in(fs, skip, n) {
            Some(b) => 0 <= b < n && b != skip && fs[b].aboard() && forall|j: int|
                0 <= j < n && j != skip && fs[j].aboard() ==> fs[j].members <= fs[b].members,
            None => forall|j: int| 0 <= j < n && j != skip ==> !fs[j].aboard(),
        },
    decreases n,
{
    if n > 0 {
        lemma_host_in(fs, skip, n - 1);
    }
}

/// Replacing one people by another with approval in 0-1 keeps every
/// approval in 0-1.
pub proof fn lemma_approval_kept(fs: Seq<FactionState>, i: int, f: FactionState)
    requires
        approvals_ok(fs),
        0 <= i < fs.len(),
        0 <= f.approval <= ONE,
    ensures
        approvals_ok(fs.update(i, f)),
{
    assert forall|j: int| 0 <= j < fs.update(i, f).len() implies 0 <= (#[trigger] fs.update(i, f)[j]).approval
        <= ONE by {
        if j != i {
            assert(fs.update(i, f)[j] == fs[j]);
        }
    }
}

/// The catalog's people ids, in order.
pub open spec fn faction_keys(ds: Seq<FactionDef>) -> Seq<Seq<char>> {
    Seq::new(ds.len(), |i: int| ds[i].id@)
}

/// The catalog entry for people `id`.
pub open spec fn faction_def(data: GameData, id: Seq<char>) -> Option<FactionDef> {
    match first(faction_keys(data.factions@), id) {
        Some(i) => Some(data.factions@[i]),
        None => None,
    }
}

/// The catalog index of people `id`.
pub fn faction_def_index(data: &GameData, id: &str) -> (r: Option<usize>)
    ensures
        r matches Some(i) ==> i < data.factions.len() && first(faction_keys(data.factions@), id@)
            == Some(i as int) && faction_def(*data, id@) == Some(data.factions@[i as int]),
        r is None ==> faction_def(*data, id@) is None,
{
    let key = id.to_owned();
    let ghost keys = faction_keys(data.factions@);
    let mut i: usize = 0;
    while i < data.factions.len()
        invariant
            i <= data.factions.len(),
            keys == faction_keys(data.factions@),
            key@ == id@,
            forall|j: int| 0 <= j < i ==> keys[j] != id@,
        decreases data.factions.len() - i,
    {
        if same(&data.factions[i].id, &key) {
            proof {
                lemma_first_unique(keys, id@, i as int);
            }
            return Some(i);
        }
        i = i + 1;
    }
    proof {
        lemma_first_from(keys, id@, 0);
    }
    None
}

/// How a people is named in the log: its catalog name, else its id.
pub open spec fn log_name_of(data: GameData, id: Seq<char>) -> Seq<char> {
    match faction_def(data, id) {
        Some(d) => d.name@,
        None => id,
    }
}

/// See [`log_name_of`].
pub fn log_name(data: &GameData, id: &str) -> (r: String)
    ensures
        r@ == log_name_of(*data, id@),
{
    match faction_def_index(data, id) {
        Some(i) => data.factions[i].name.clone(),
        None => id.to_owned(),
    }
}

/// A people gone from the ship: no one left aboard under its name.
pub open spec fn departed(f: FactionState) -> FactionState {
    FactionState { members: 0, status: FactionStatus::Departed, ..f }
}

/// A people folded into another: its name dissolved, its members moved.
pub open spec fn merged(f: FactionState) -> FactionState {
    FactionState { members: 0, status: FactionStatus::Merged, ..f }
}

/// The host of a fold after taking in `moving` members (saturating).
pub open spec fn joined(h: FactionState, moving: u32) -> FactionState {
    FactionState {
        members: (if h.members + moving <= u32::MAX {
            h.members + moving
        } else {
            u32::MAX as int
        }) as u32,
        ..h
    }
}

/// The smallest aboard people's approval shifted by `delta`, kept in 0-1.
pub open spec fn smallest_adjusted(fs: Seq<FactionState>, delta: i64) -> Seq<FactionState> {
    match smallest(fs) {
        Some(i) => fs.update(i, FactionState { approval: unit(fs[i].approval + delta) as i64, ..fs[i] }),
        None => fs,
    }
}

/// `a - b`, floored at zero.
pub open spec fn sat_sub(a: int, b: int) -> int {
    if a >= b {
        a - b
    } else {
        0
    }
}

/// The line a people leaving the ship is logged with.
pub open spec fn loss_line(data: GameData, kind: FactionLossKind, id: Seq<char>) -> Seq<char> {
    log_name_of(data, id) + match kind {
        FactionLossKind::Departure => " gathered their own and left the ship."@,
        FactionLossKind::Schism => " broke from the ship in schism and were gone."@,
    }
}

/// The state after the people at `i` leaves (the way `kind` says): marked
/// departed, its members gone from the head count (floored at zero), its
/// leaving logged.
pub open spec fn shed(s0: SimState, s1: SimState, i: int, data: GameData, kind: FactionLossKind) -> bool {
    &&& s1.factions@ == s0.factions@.update(i, departed(s0.factions@[i]))
    &&& s1.population == (PopulationState {
        count: sat_sub(s0.population.count as int, s0.factions@[i].members as int) as u32,
        ..s0.population
    })
    &&& s1.log.len() == s0.log.len() + 1
    &&& s1.log@.subrange(0, s0.log.len() as int) == s0.log@
    &&& s1.log@[s0.log.len() as int].text@ == loss_line(data, kind, s0.factions@[i].faction_id@)
    &&& s1 == (SimState { factions: s1.factions, population: s1.population, log: s1.log, ..s0 })
}

/// The approval changes a favor spills onto `ids`, each by `amount`.
pub open spec fn spill_for(ids: Seq<String>, amount: i64) -> Seq<NamedDelta> {
    Seq::new(ids.len(), |k: int| NamedDelta { id: ids[k], delta: amount })
}

/// The approval changes that the gains of `ds` spill: each gain shown to an
/// aboard people with a catalog entry sends `share` of itself as resentment
/// onto each of its rivals (`rivals`), or as goodwill onto each of its allies.
pub open spec fn spill_deltas(
    fs: Seq<FactionState>,
    data: GameData,
    ds: Seq<NamedDelta>,
    share: int,
    rivals: bool,
) -> Seq<NamedDelta>
    decreases ds.len(),
{
    if ds.len() == 0 {
        Seq::empty()
    } else {
        let prev = spill_deltas(fs, data, ds.drop_last(), share, rivals);
        let d = ds.last();
        if d.delta > 0 && faction_aboard(fs, d.id@) {
            match faction_def(data, d.id@) {
                Some(def) => if rivals {
                    prev + spill_for(def.rivals@, (-scale(d.delta as int, share)) as i64)
                } else {
                    prev + spill_for(def.allies@, scale(d.delta as int, share) as i64)
                },
                None => prev,
            }
        } else {
            prev
        }
    }
}

fn spill_list(sim: &SimState, data: &GameData, ds: &Vec<NamedDelta>, share: i64, rivals: bool) -> (r: Vec<
    NamedDelta,
>)
    requires
        0 <= share <= ONE,
    ensures
        r@ == spill_deltas(sim.factions@, *data, ds@, share as int, rivals),
{
    let mut out: Vec<NamedDelta> = Vec::new();
    let mut k: usize = 0;
    while k < ds.len()
        invariant
            k <= ds.len(),
            0 <= share <= ONE,
            out@ == spill_deltas(sim.factions@, *data, ds@.subrange(0, k as int), share as int, rivals),
        decreases ds.len() - k,
    {
        proof {
            assert(ds@.subrange(0, k + 1).drop_last() =~= ds@.subrange(0, k as int));
            assert(ds@.subrange(0, k + 1).last() == ds@[k as int]);
        }
        let d = &ds[k];
        if d.delta > 0 && sim.is_faction_aboard(d.id.as_str()) {
            match faction_def_index(data, d.id.as_str()) {
                Some(fi) => {
                    let def = &data.factions[fi];
                    let ids = if rivals {
                        &def.rivals
                    } else {
                        &def.allies
                    };
                    let part = mul_frac(d.delta, share);
                    let amount = if rivals {
                        -part
                    } else {
                        part
                    };
                    let ghost before = out@;
                    let mut j: usize = 0;
                    while j < ids.len()
                        invariant
                            j <= ids.len(),
                            out@ == before + spill_for(ids@, amount).subrange(0, j as int),
                        decreases ids.len() - j,
                    {
                        out.push(NamedDelta { id: ids[j].clone(), delta: amount });
                        proof {
                            assert(spill_for(ids@, amount).subrange(0, j + 1) =~= spill_for(
                                ids@,
                                amount,
                            ).subrange(0, j as int).push(NamedDelta { id: ids@[j as int], delta: amount }));
                        }
                        j = j + 1;
                    }
                    proof {
                        assert(spill_for(ids@, amount).subrange(0, ids.len() as int) =~= spill_for(
                            ids@,
                            amount,
                        ));
                    }
                },
                None => {},
            }
        }
        k = k + 1;
    }
    proof {
        assert(ds@.subrange(0, ds.len() as int) =~= ds@);
    }
    out
}

impl SimState {
    fn shed_at(&mut self, data: &GameData, kind: FactionLossKind, i: usize)
        requires
            i < old(self).factions.len(),
        ensures
            shed(*old(self), *final(self), i as int, *data, kind),
    {
        let members = self.factions[i].members;
        let name = log_name(data, self.factions[i].faction_id.as_str());
        self.factions[i].members = 0;
        self.factions[i].status = FactionStatus::Departed;
        proof {
            assert(self.factions@ =~= old(self).factions@.update(
                i as int,
                departed(old(self).factions@[i as int]),
            ));
        }
        let count = self.population.count;
        self.population.count = if count >= members {
            count - members
        } else {
            0
        };
        let line = match kind {
            FactionLossKind::Departure => join2(name.as_str(), " gathered their own and left the ship."),
            FactionLossKind::Schism => join2(name.as_str(), " broke from the ship in schism and were gone."),
        };
        self.push_log(line);
        proof {
            assert(self.log@.subrange(0, old(self).log.len() as int) =~= old(self).log@);
        }
    }

    /// Drive the aboard people `id` off the ship (its members leave the head
    /// count); nothing happens when no such people is aboard.
    pub fn apply_faction_loss_by_id(&mut self, data: &GameData, kind: FactionLossKind, id: &str)
        ensures
            match aboard_from(old(self).factions@, id@, 0) {
                Some(i) => shed(*old(self), *final(self), i, *data, kind),
                None => *final(self) == *old(self),
            },
    {
        let key = id.to_owned();
        let mut i: usize = 0;
        while i < self.factions.len()
            invariant
                i <= self.factions.len(),
                key@ == id@,
                aboard_from(self.factions@, id@, 0) == aboard_from(self.factions@, id@, i as int),
                *self == *old(self),
            decreases self.factions.len() - i,
        {
            if self.factions[i].is_aboard() && same(&self.factions[i].faction_id, &key) {
                self.shed_at(data, kind, i);
                return;
            }
            i = i + 1;
        }
    }

    /// Drive the smallest aboard people off the ship; nothing happens when
    /// no people is aboard.
    pub fn apply_faction_loss(&mut self, data: &GameData, kind: FactionLossKind)
        ensures
            match smallest(old(self).factions@) {
                Some(i) => shed(*old(self), *final(self), i, *data, kind),
                None => *final(self) == *old(self),
            },
    {
        match self.smallest_faction_index() {
            Some(i) => self.shed_at(data, kind, i),
            None => {},
        }
    }

    /// The index of the smallest aboard people, if any (earliest wins ties).
    pub fn smallest_faction_index(&self) -> (r: Option<usize>)
        ensures
            r matches Some(i) ==> smallest(self.factions@) == Some(i as int) && i < self.factions.len(),
            r is None ==> smallest(self.factions@) is None,
    {
        let mut best: Option<usize> = None;
        let mut i: usize = 0;
        while i < self.factions.len()
            invariant
                i <= self.factions.len(),
                best matches Some(b) ==> smallest_in(self.factions@, i as int) == Some(b as int) && b < i,
                best is None ==> smallest_in(self.factions@, i as int) is None,
            decreases self.factions.len() - i,
        {
            if self.factions[i].is_aboard() {
                match best {
                    None => {
                        best = Some(i);
                    },
                    Some(b) => {
                        if self.factions[i].members < self.factions[b].members {
                            best = Some(i);
                        }
                    },
                }
            }
            i = i + 1;
        }
        best
    }

    fn host_index(&self, skip: usize) -> (r: Option<usize>)
        ensures
            r matches Some(h) ==> host_for(self.factions@, skip as int) == Some(h as int) && h
                < self.factions.len(),
            r is None ==> host_for(self.factions@, skip as int) is None,
    {
        let mut best: Option<usize> = None;
        let mut i: usize = 0;
        while i < self.factions.len()
            invariant
                i <= self.factions.len(),
                best matches Some(b) ==> host_in(self.factions@, skip as int, i as int) == Some(b as int)
                    && b < i,
                best is None ==> host_in(self.factions@, skip as int, i as int) is None,
            decreases self.factions.len() - i,
        {
            if i != skip && self.factions[i].is_aboard() {
                match best {
                    None => {
                        best = Some(i);
                    },
                    Some(b) => {
                        if self.factions[i].members > self.factions[b].members {
                            best = Some(i);
                        }
                    },
                }
            }
            i = i + 1;
        }
        best
    }

    /// Fold the aboard people `id` into the largest other aboard people:
    /// its members join the host and its name dissolves; the head count is
    /// kept. Nothing happens when `id` is not aboard or no other people is.
    pub fn apply_faction_merge(&mut self, data: &GameData, id: &str)
        ensures
            match aboard_from(old(self).factions@, id@, 0) {
                None => *final(self) == *old(self),
                Some(i) => match host_for(old(self).factions@, i) {
                    None => *final(self) == *old(self),
                    Some(h) => {
                        let fs = old(self).factions@;
                        &&& final(self).factions@ == fs.update(i, merged(fs[i])).update(
                            h,
                            joined(fs[h], fs[i].members),
                        )
                        &&& final(self).log.len() == old(self).log.len() + 1
                        &&& final(self).log@.subrange(0, old(self).log.len() as int) == old(self).log@
                        &&& final(self).log@[old(self).log.len() as int].text@ == log_name_of(*data, fs[i].faction_id@)
                            + " folded into "@ + log_name_of(*data, fs[h].faction_id@)
                        &&& *final(self) == (SimState {
                            factions: final(self).factions,
                            log: final(self).log,
                            ..*old(self)
                        })
                    },
                },
            },
    {
        let key = id.to_owned();
        let mut i: usize = 0;
        while i < self.factions.len()
            invariant
                i <= self.factions.len(),
                key@ == id@,
                aboard_from(self.factions@, id@, 0) == aboard_from(self.factions@, id@, i as int),
                *self == *old(self),
            decreases self.factions.len() - i,
        {
            if self.factions[i].is_aboard() && same(&self.factions[i].faction_id, &key) {
                let h = match self.host_index(i) {
                    Some(h) => h,
                    None => return ,
                };
                proof {
                    lemma_host_in(self.factions@, i as int, self.factions.len() as int);
                }
                let moving = self.factions[i].members;
                let name = log_name(data, self.factions[i].faction_id.as_str());
                let host_name = log_name(data, self.factions[h].faction_id.as_str());
                self.factions[i].members = 0;
                self.factions[i].status = FactionStatus::Merged;
                let hm = self.factions[h].members;
                self.factions[h].members = if hm <= u32::MAX - moving {
                    hm + moving
                } else {
                    u32::MAX
                };
                let head = join2(name.as_str(), " folded into ");
                let line = join2(head.as_str(), host_name.as_str());
                self.push_log(line);
                proof {
                    assert(self.log@.subrange(0, old(self).log.len() as int) =~= old(self).log@);
                    let fs = old(self).factions@;
                    assert(self.factions@ =~= fs.update(i as int, merged(fs[i as int])).update(
                        h as int,
                        joined(fs[h as int], fs[i as int].members),
                    ));
                }
                return;
            }
            i = i + 1;
        }
    }

    /// Shift the smallest aboard people's approval by `delta`, kept in 0-1;
    /// nothing happens when no people is aboard.
    pub fn adjust_smallest_faction_approval(&mut self, delta: i64)
        ensures
            final(self).factions@ == smallest_adjusted(old(self).factions@, delta),
            approvals_ok(old(self).factions@) ==> approvals_ok(final(self).factions@),
            *final(self) == (SimState { factions: final(self).factions, ..*old(self) }),
    {
        match self.smallest_faction_index() {
            Some(i) => {
                let v = add_unit(self.factions[i].approval, delta);
                self.factions[i].approval = v;
                proof {
                    let fs = old(self).factions@;
                    assert(self.factions@ =~= fs.update(
                        i as int,
                        FactionState { approval: unit(fs[i as int].approval + delta) as i64, ..fs[i as int] },
                    ));
                }
            },
            None => {},
        }
    }

    /// Every approval gain of `ds` shown to an aboard people spills a share
    /// (the configured rival spillover) of itself as resentment onto each of
    /// that people's rivals who are aboard.
    pub fn apply_rival_approval_spillover(&mut self, data: &GameData, ds: &Vec<NamedDelta>)
        requires
            data.config.wf(),
        ensures
            final(self).factions@ == approvals_after(
                old(self).factions@,
                spill_deltas(
                    old(self).factions@,
                    *data,
                    ds@,
                    data.config.rival_approval_spillover as int,
                    true,
                ),
            ),
            approvals_ok(old(self).factions@) ==> approvals_ok(final(self).factions@),
            *final(self) == (SimState { factions: final(self).factions, ..*old(self) }),
    {
        let spill = spill_list(self, data, ds, data.config.rival_approval_spillover, true);
        apply_approval_deltas(self, &spill);
    }

    /// Every approval gain of `ds` shown to an aboard people shares a part
    /// (the configured ally spillover) of itself as goodwill with each of
    /// that people's allies who are aboard.
    pub fn apply_ally_approval_spillover(&mut self, data: &GameData, ds: &Vec<NamedDelta>)
        requires
            data.config.wf(),
        ensures
            final(self).factions@ == approvals_after(
                old(self).factions@,
                spill_deltas(
                    old(self).factions@,
                    *data,
                    ds@,
                    data.config.ally_approval_spillover as int,
                    false,
                ),
            ),
            approvals_ok(old(self).factions@) ==> approvals_ok(final(self).factions@),
            *final(self) == (SimState { factions: final(self).factions, ..*old(self) }),
    {
        let spill = spill_list(self, data, ds, data.config.ally_approval_spillover, false);
        apply_approval_deltas(self, &spill);
    }
}

} // verus!
