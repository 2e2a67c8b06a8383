//! Named changes applied in order: subsystem condition and know-how,
//! faction approval, and reputation.

use vstd::prelude::*;

use crate::data::{NamedDelta, SubsystemDelta};
use crate::fixed::{add_unit, unit, ONE};
use crate::keys::{first, lemma_first_from};
use crate::queries::{rep_value, reps_ok, sub_keys};
use crate::state::{FactionState, SimState, SubsystemState};
use crate::util::same;

verus! {

/// Subsystems after one delta: the first module with the delta's id moves,
/// condition and knowledge kept in 0-1; an unknown id changes nothing.
pub open spec fn sub_step(subs: Seq<SubsystemState>, d: SubsystemDelta) -> Seq<SubsystemState> {
    match first(sub_keys(subs), d.id@) {
        Some(i) => subs.update(
            i,
            SubsystemState {
                condition: unit(subs[i].condition + d.condition) as i64,
                knowledge: unit(subs[i].knowledge + d.knowledge) as i64,
                ..subs[i]
            },
        ),
        None => subs,
    }
}

/// Subsystems after every delta of `ds`, in order.
pub open spec fn subs_after(subs: Seq<SubsystemState>, ds: Seq<SubsystemDelta>) -> Seq<SubsystemState>
    decreases ds.len(),
{
    if ds.len() == 0 {
        subs
    } else {
        sub_step(subs_after(subs, ds.drop_last()), ds.last())
    }
}

/// Two module lists name the same modules at the same tiers, in order.
pub open spec fn same_modules(a: Seq<SubsystemState>, b: Seq<SubsystemState>) -> bool {
    &&& a.len() == b.len()
    &&& forall|i: int| 0 <= i < a.len() ==> (#[trigger] a[i]).id == b[i].id && a[i].tier == b[i].tier
}

/// Deltas move condition and know-how only: the modules and their tiers
/// stay as they were.
pub proof fn lemma_subs_after_same_modules(subs: Seq<SubsystemState>, ds: Seq<SubsystemDelta>)
    ensures
        same_modules(subs, subs_after(subs, ds)),
    decreases ds.len(),
{
    if ds.len() > 0 {
        lemma_subs_after_same_modules(subs, ds.drop_last());
        let prev = subs_after(subs, ds.drop_last());
        match first(sub_keys(prev), ds.last().id@) {
            Some(i) => {
                lemma_first_from(sub_keys(prev), ds.last().id@, 0);
            },
            None => {},
        }
    }
}

/// Every module's condition and knowledge lie in 0-1.
pub open spec fn subs_ok(subs: Seq<SubsystemState>) -> bool {
    forall|i: int|
        0 <= i < subs.len() ==> 0 <= (#[trigger] subs[i]).condition <= ONE && 0 <= subs[i].knowledge
            <= ONE
}

/// Apply `ds` to the sim's subsystems, in order.
pub fn apply_subsystem_deltas(sim: &mut SimState, ds: &Vec<SubsystemDelta>)
    ensures
        final(sim).subsystems@ == subs_after(old(sim).subsystems@, ds@),
        subs_ok(old(sim).subsystems@) ==> subs_ok(final(sim).subsystems@),
        *final(sim) == (SimState { subsystems: final(sim).subsystems, ..*old(sim) }),
{
    let mut k: usize = 0;
    while k < ds.len()
        invariant
            k <= ds.len(),
            sim.subsystems@ == subs_after(old(sim).subsystems@, ds@.subrange(0, k as int)),
            subs_ok(old(sim).subsystems@) ==> subs_ok(sim.subsystems@),
            *sim == (SimState { subsystems: sim.subsystems, ..*old(sim) }),
        decreases ds.len() - k,
    {
        let d = &ds[k];
        proof {
            assert(ds@.subrange(0, k + 1).drop_last() =~= ds@.subrange(0, k as int));
            lemma_first_from(sub_keys(sim.subsystems@), d.id@, 0);
        }
        match sim.subsystem_index(d.id.as_str()) {
            Some(i) => {
                let c = add_unit(sim.subsystems[i].condition, d.condition);
                let kn = add_unit(sim.subsystems[i].knowledge, d.knowledge);
                sim.subsystems[i].condition = c;
                sim.subsystems[i].knowledge = kn;
            },
            None => {},
        }
        k = k + 1;
    }
    proof {
        assert(ds@.subrange(0, ds.len() as int) =~= ds@);
    }
}

/// The first aboard people named `id`, from `start`.
pub open spec fn aboard_from(fs: Seq<FactionState>, id: Seq<char>, start: int) -> Option<int>
    decreases fs.len() - start,
{
    if start < 0 || start >= fs.len() {
        None
    } else if fs[start].faction_id@ == id && fs[start].aboard() {
        Some(start)
    } else {
        aboard_from(fs, id, start + 1)
    }
}

/// What the first aboard match means.
pub proof fn lemma_aboard_from(fs: Seq<FactionState>, id: Seq<char>, start: int)
    requires
        0 <= start,
    ensures
        aboard_from(fs, id, start) matches Some(i) ==> start <= i < fs.len() && fs[i].faction_id@
            == id && fs[i].aboard(),
    decreases fs.len() - start,
{
    if start < fs.len() && !(fs[start].faction_id@ == id && fs[start].aboard()) {
        lemma_aboard_from(fs, id, start + 1);
    }
}

/// Factions after one approval delta: the first aboard people with the id
/// moves, kept in 0-1; a people not aboard is ignored.
pub open spec fn approval_step(fs: Seq<FactionState>, d: NamedDelta) -> Seq<FactionState> {
    match aboard_from(fs, d.id@, 0) {
        Some(i) => fs.update(i, FactionState { approval: unit(fs[i].approval + d.delta) as i64, ..fs[i] }),
        None => fs,
    }
}

/// Factions after every approval delta of `ds`, in order.
pub open spec fn approvals_after(fs: Seq<FactionState>, ds: Seq<NamedDelta>) -> Seq<FactionState>
    decreases ds.len(),
{
    if ds.len() == 0 {
        fs
    } else {
        approval_step(approvals_after(fs, ds.drop_last()), ds.last())
    }
}

/// Every people's approval lies in 0-1.
pub open spec fn approvals_ok(fs: Seq<FactionState>) -> bool {
    forall|i: int| 0 <= i < fs.len() ==> 0 <= (#[trigger] fs[i]).approval <= ONE
}

fn aboard_index(fs: &Vec<FactionState>, id: &String) -> (r: Option<usize>)
    ensures
        r matches Some(i) ==> aboard_from(fs@, id@, 0) == Some(i as int),
        r is None ==> aboard_from(fs@, id@, 0) is None,
{
    let mut i: usize = 0;
    while i < fs.len()
        invariant
            i <= fs.len(),
            aboard_from(fs@, id@, 0) == aboard_from(fs@, id@, i as int),
        decreases fs.len() - i,
    {
        if fs[i].is_aboard() && same(&fs[i].faction_id, id) {
            return Some(i);
        }
        i = i + 1;
    }
    None
}

/// Shift the named aboard peoples' approval by `ds`, in order.
pub fn apply_approval_deltas(sim: &mut SimState, ds: &Vec<NamedDelta>)
    ensures
        final(sim).factions@ == approvals_after(old(sim).factions@, ds@),
        approvals_ok(old(sim).factions@) ==> approvals_ok(final(sim).factions@),
        *final(sim) == (SimState { factions: final(sim).factions, ..*old(sim) }),
{
    let mut k: usize = 0;
    while k < ds.len()
        invariant
            k <= ds.len(),
            sim.factions@ == approvals_after(old(sim).factions@, ds@.subrange(0, k as int)),
            approvals_ok(old(sim).factions@) ==> approvals_ok(sim.factions@),
            *sim == (SimState { factions: sim.factions, ..*old(sim) }),
        decreases ds.len() - k,
    {
        let d = &ds[k];
        proof {
            assert(ds@.subrange(0, k + 1).drop_last() =~= ds@.subrange(0, k as int));
            lemma_aboard_from(sim.factions@, d.id@, 0);
        }
        match aboard_index(&sim.factions, &d.id) {
            Some(i) => {
                sim.factions[i].adjust_approval(d.delta);
            },
            None => {},
        }
        k = k + 1;
    }
    proof {
        assert(ds@.subrange(0, ds.len() as int) =~= ds@);
    }
}

/// Reputation trait `key` after every delta of `ds`, in order.
pub open spec fn rep_after(start: i64, ds: Seq<NamedDelta>, key: Seq<char>) -> i64
    decreases ds.len(),
{
    if ds.len() == 0 {
        start
    } else {
        let prev = rep_after(start, ds.drop_last(), key);
        if ds.last().id@ == key {
            unit(prev + ds.last().delta) as i64
        } else {
            prev
        }
    }
}

/// Nudge the ship's reputation by `ds`, in order.
pub fn apply_reputation_deltas(sim: &mut SimState, ds: &Vec<NamedDelta>)
    ensures
        forall|key: Seq<char>|
            #[trigger] rep_value(final(sim).reputation@, key) == rep_after(
                rep_value(old(sim).reputation@, key),
                ds@,
                key,
            ),
        *final(sim) == (SimState { reputation: final(sim).reputation, ..*old(sim) }),
        reps_ok(old(sim).reputation@) ==> reps_ok(final(sim).reputation@),
{
    let mut k: usize = 0;
    while k < ds.len()
        invariant
            k <= ds.len(),
            forall|key: Seq<char>|
                #[trigger] rep_value(sim.reputation@, key) == rep_after(
                    rep_value(old(sim).reputation@, key),
                    ds@.subrange(0, k as int),
                    key,
                ),
            *sim == (SimState { reputation: sim.reputation, ..*old(sim) }),
            reps_ok(old(sim).reputation@) ==> reps_ok(sim.reputation@),
        decreases ds.len() - k,
    {
        let d = &ds[k];
        proof {
            assert(ds@.subrange(0, k + 1).drop_last() =~= ds@.subrange(0, k as int));
        }
        sim.adjust_reputation(d.id.as_str(), d.delta);
        k = k + 1;
    }
    proof {
        assert(ds@.subrange(0, ds.len() as int) =~= ds@);
    }
}

} // verus!
