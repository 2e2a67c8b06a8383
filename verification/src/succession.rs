//! Dynasty renewal and leader succession.

use vstd::prelude::*;

use crate::config::GameConfig;
use crate::data::GameData;
use crate::state::{leader_index, Dynasty, DynastyMember, SimState};

verus! {

/// Whether `m` sits in the ideal heir age band.
pub open spec fn eligible(m: DynastyMember, config: GameConfig) -> bool {
    config.heir_min_age <= m.age <= config.heir_max_age
}

/// Whether some non-leader member of `ms` sits in the heir band.
pub open spec fn heir_ready_in(ms: Seq<DynastyMember>, config: GameConfig) -> bool {
    exists|i: int| 0 <= i < ms.len() && !(#[trigger] ms[i]).is_leader && eligible(ms[i], config)
}

/// Whether some non-leader member sits in the heir band.
pub open spec fn heir_ready(d: Dynasty, config: GameConfig) -> bool {
    heir_ready_in(d.members@, config)
}

/// True while at least one non-leader member sits in the eligible heir band.
pub fn eligible_heir_exists(dynasty: &Dynasty, config: &GameConfig) -> (r: bool)
    ensures
        r == heir_ready(*dynasty, *config),
{
    let mut i: usize = 0;
    while i < dynasty.members.len()
        invariant
            i <= dynasty.members.len(),
            forall|j: int|
                0 <= j < i ==> !(!(#[trigger] dynasty.members@[j]).is_leader && eligible(
                    dynasty.members@[j],
                    *config,
                )),
        decreases dynasty.members.len() - i,
    {
        let m = &dynasty.members[i];
        if !m.is_leader && m.age >= config.heir_min_age && m.age <= config.heir_max_age {
            return true;
        }
        i = i + 1;
    }
    false
}

/// The first position of the designated heir `id`, if they are living and eligible.
pub open spec fn designated_from(ms: Seq<DynastyMember>, id: u32, config: GameConfig, start: int) -> Option<
    int,
>
    decreases ms.len() - start,
{
    if start < 0 || start >= ms.len() {
        None
    } else if ms[start].id == id && eligible(ms[start], config) {
        Some(start)
    } else {
        designated_from(ms, id, config, start + 1)
    }
}

/// The strongest eligible member among the first `n` (the last of equals).
pub open spec fn best_in_band(ms: Seq<DynastyMember>, config: GameConfig, n: int) -> Option<int>
    decreases n,
{
    if n <= 0 {
        None
    } else {
        let prev = best_in_band(ms, config, n - 1);
        if eligible(ms[n - 1], config) && (match prev {
            Some(b) => ms[n - 1].leadership >= ms[b].leadership,
            None => true,
        }) {
            Some(n - 1)
        } else {
            prev
        }
    }
}

/// Whether `a` ranks at least as high as `b` by (leadership, id).
pub open spec fn outranks_or_ties(a: DynastyMember, b: DynastyMember) -> bool {
    a.leadership > b.leadership || (a.leadership == b.leadership && a.id >= b.id)
}

/// The strongest member among the first `n` by (leadership, id) (the last of equals).
pub open spec fn best_any(ms: Seq<DynastyMember>, n: int) -> Option<int>
    decreases n,
{
    if n <= 0 {
        None
    } else {
        match best_any(ms, n - 1) {
            Some(b) => if outranks_or_ties(ms[n - 1], ms[b]) {
                Some(n - 1)
            } else {
                Some(b)
            },
            None => Some(n - 1),
        }
    }
}

/// Who inherits: the designated heir if living and eligible, else the
/// strongest member in the heir band, else the strongest of whoever remains.
pub open spec fn heir_in(ms: Seq<DynastyMember>, designated_heir: Option<u32>, config: GameConfig) -> Option<int> {
    let designated = match designated_heir {
        Some(id) => designated_from(ms, id, config, 0),
        None => None,
    };
    match designated {
        Some(i) => Some(i),
        None => match best_in_band(ms, config, ms.len() as int) {
            Some(i) => Some(i),
            None => best_any(ms, ms.len() as int),
        },
    }
}

/// See [`heir_in`].
pub open spec fn heir_of(d: Dynasty, config: GameConfig) -> Option<int> {
    heir_in(d.members@, d.designated_heir, config)
}

proof fn lemma_best_in_band(ms: Seq<DynastyMember>, config: GameConfig, n: int)
    requires
        0 <= n <= ms.len(),
    ensures
        match best_in_band(ms, config, n) {
            Some(b) => 0 <= b < n && eligible(ms[b], config) && forall|j: int|
                0 <= j < n && eligible(ms[j], config) ==> ms[j].leadership <= ms[b].leadership,
            None => forall|j: int| 0 <= j < n ==> !eligible(ms[j], config),
        },
    decreases n,
{
    if n > 0 {
        lemma_best_in_band(ms, config, n - 1);
    }
}

proof fn lemma_best_any(ms: Seq<DynastyMember>, n: int)
    requires
        0 <= n <= ms.len(),
    ensures
        match best_any(ms, n) {
            Some(b) => 0 <= b < n && forall|j: int| 0 <= j < n ==> outranks_or_ties(ms[b], ms[j]),
            None => n == 0,
        },
    decreases n,
{
    if n > 0 {
        lemma_best_any(ms, n - 1);
    }
}

proof fn lemma_designated_from(ms: Seq<DynastyMember>, id: u32, config: GameConfig, start: int)
    requires
        0 <= start,
    ensures
        match designated_from(ms, id, config, start) {
            Some(i) => start <= i < ms.len() && ms[i].id == id && eligible(ms[i], config),
            None => forall|j: int|
                start <= j < ms.len() ==> !(ms[j].id == id && eligible(ms[j], config)),
        },
    decreases ms.len() - start,
{
    if start < ms.len() && !(ms[start].id == id && eligible(ms[start], config)) {
        lemma_designated_from(ms, id, config, start + 1);
    }
}

/// The heir is a living member, and there is one whenever anyone lives.
pub proof fn lemma_heir_of(d: Dynasty, config: GameConfig)
    ensures
        heir_of(d, config) matches Some(i) ==> 0 <= i < d.members.len(),
        heir_of(d, config) is None <==> d.members.len() == 0,
{
    let ms = d.members@;
    lemma_best_in_band(ms, config, ms.len() as int);
    lemma_best_any(ms, ms.len() as int);
    if let Some(id) = d.designated_heir {
        lemma_designated_from(ms, id, config, 0);
    }
}

fn designated_index(ms: &Vec<DynastyMember>, id: u32, config: &GameConfig) -> (r: Option<usize>)
    ensures
        r matches Some(i) ==> designated_from(ms@, id, *config, 0) == Some(i as int),
        r is None ==> designated_from(ms@, id, *config, 0) is None,
{
    let mut i: usize = 0;
    while i < ms.len()
        invariant
            i <= ms.len(),
            designated_from(ms@, id, *config, 0) == designated_from(ms@, id, *config, i as int),
        decreases ms.len() - i,
    {
        let m = &ms[i];
        if m.id == id && m.age >= config.heir_min_age && m.age <= config.heir_max_age {
            return Some(i);
        }
        i = i + 1;
    }
    None
}

fn best_in_band_index(ms: &Vec<DynastyMember>, config: &GameConfig) -> (r: Option<usize>)
    ensures
        r matches Some(i) ==> best_in_band(ms@, *config, ms.len() as int) == Some(i as int),
        r is None ==> best_in_band(ms@, *config, ms.len() as int) is None,
{
    let mut best: Option<usize> = None;
    let mut i: usize = 0;
    while i < ms.len()
        invariant
            i <= ms.len(),
            best matches Some(b) ==> best_in_band(ms@, *config, i as int) == Some(b as int) && b
                < i,
            best is None ==> best_in_band(ms@, *config, i as int) is None,
        decreases ms.len() - i,
    {
        let m = &ms[i];
        if m.age >= config.heir_min_age && m.age <= config.heir_max_age {
            match best {
                Some(b) => {
                    if m.leadership >= ms[b].leadership {
                        best = Some(i);
                    }
                },
                None => {
                    best = Some(i);
                },
            }
        }
        i = i + 1;
    }
    best
}

fn best_any_index(ms: &Vec<DynastyMember>) -> (r: Option<usize>)
    ensures
        r matches Some(i) ==> best_any(ms@, ms.len() as int) == Some(i as int),
        r is None ==> best_any(ms@, ms.len() as int) is None,
{
    let mut best: Option<usize> = None;
    let mut i: usize = 0;
    while i < ms.len()
        invariant
            i <= ms.len(),
            best matches Some(b) ==> best_any(ms@, i as int) == Some(b as int) && b < i,
            best is None ==> best_any(ms@, i as int) is None,
        decreases ms.len() - i,
    {
        let m = &ms[i];
        match best {
            Some(b) => {
                let o = &ms[b];
                if m.leadership > o.leadership || (m.leadership == o.leadership && m.id >= o.id) {
                    best = Some(i);
                }
            },
            None => {
                best = Some(i);
            },
        }
        i = i + 1;
    }
    best
}

/// Install a new leader: clear the current leader, then take the
/// council-designated heir if living and eligible, otherwise the
/// highest-leadership member in the heir band, and failing that the best of
/// whoever remains. The designation is consumed. Returns the new leader's
/// name and whether the dynasty is extinct (no members at all).
pub fn install_successor(dynasty: &mut Dynasty, config: &GameConfig) -> (res: (Option<String>, bool))
    ensures
        final(dynasty).members.len() == old(dynasty).members.len(),
        forall|j: int|
            0 <= j < old(dynasty).members.len() ==> #[trigger] final(dynasty).members@[j] == (
            DynastyMember {
                is_leader: heir_of(*old(dynasty), *config) == Some(j),
                ..old(dynasty).members@[j]
            }),
        final(dynasty).designated_heir is None,
        final(dynasty).generation == old(dynasty).generation,
        final(dynasty).years_since_generation == old(dynasty).years_since_generation,
        final(dynasty).births_this_generation == old(dynasty).births_this_generation,
        final(dynasty).next_member_id == old(dynasty).next_member_id,
        final(dynasty).leader_reign_years == old(dynasty).leader_reign_years,
        final(dynasty).long_reign_marked == old(dynasty).long_reign_marked,
        final(dynasty).dynasty_crisis_marked == old(dynasty).dynasty_crisis_marked,
        match heir_of(*old(dynasty), *config) {
            Some(i) => res.0 matches Some(name) && name@ == old(dynasty).members@[i].name@
                && !res.1 && final(dynasty).extinct == old(dynasty).extinct,
            None => res.0 is None && res.1 && final(dynasty).extinct,
        },
        old(dynasty).members.len() > 0 ==> leader_index(final(dynasty).members@) == heir_of(
            *old(dynasty),
            *config,
        ),
        old(dynasty).members.len() > 0 <==> res.0 is Some,
{
    let ghost d0 = *dynasty;
    proof {
        lemma_heir_of(d0, *config);
    }
    let designated = match dynasty.designated_heir {
        Some(id) => designated_index(&dynasty.members, id, config),
        None => None,
    };
    let heir_index = match designated {
        Some(i) => Some(i),
        None => match best_in_band_index(&dynasty.members, config) {
            Some(i) => Some(i),
            None => best_any_index(&dynasty.members),
        },
    };
    assert(heir_index matches Some(i) ==> heir_of(d0, *config) == Some(i as int));
    assert(heir_index is None ==> heir_of(d0, *config) is None);
    let mut i: usize = 0;
    while i < dynasty.members.len()
        invariant
            i <= dynasty.members.len(),
            dynasty.members.len() == d0.members.len(),
            heir_index matches Some(h) ==> heir_of(d0, *config) == Some(h as int),
            heir_index is None ==> heir_of(d0, *config) is None,
            forall|j: int|
                0 <= j < i ==> #[trigger] dynasty.members@[j] == (DynastyMember {
                    is_leader: heir_of(d0, *config) == Some(j),
                    ..d0.members@[j]
                }),
            forall|j: int| i <= j < d0.members.len() ==> #[trigger] dynasty.members@[j] == d0.members@[j],
            dynasty.designated_heir == d0.designated_heir,
            dynasty.extinct == d0.extinct,
            dynasty.generation == d0.generation,
            dynasty.years_since_generation == d0.years_since_generation,
            dynasty.births_this_generation == d0.births_this_generation,
            dynasty.next_member_id == d0.next_member_id,
            dynasty.leader_reign_years == d0.leader_reign_years,
            dynasty.long_reign_marked == d0.long_reign_marked,
            dynasty.dynasty_crisis_marked == d0.dynasty_crisis_marked,
        decreases dynasty.members.len() - i,
    {
        let lead = match heir_index {
            Some(h) => h == i,
            None => false,
        };
        dynasty.members[i].is_leader = lead;
        i = i + 1;
    }
    dynasty.designated_heir = None;
    let res = match heir_index {
        Some(h) => (Some(dynasty.members[h].name.clone()), false),
        None => {
            dynasty.extinct = dynasty.members.len() == 0;
            (None, dynasty.extinct)
        },
    };
    proof {
        if d0.members.len() > 0 {
            let h = heir_of(d0, *config).unwrap();
            assert forall|j: int| 0 <= j < h implies !(#[trigger] dynasty.members@[j]).is_leader by {}
            crate::state::lemma_leader_unique(dynasty.members@, h);
        }
    }
    res
}

/// Mark a new generation: advance the counter and return the number of
/// young adults who came of age since the last mark, resetting that tally.
pub fn process_generation(sim: &mut SimState, _data: &GameData) -> (born: u32)
    ensures
        born == old(sim).dynasty.births_this_generation,
        final(sim).dynasty == (Dynasty {
            generation: crate::fixed::bump(old(sim).dynasty.generation),
            years_since_generation: 0,
            births_this_generation: 0,
            ..old(sim).dynasty
        }),
        *final(sim) == (SimState { dynasty: final(sim).dynasty, ..*old(sim) }),
{
    sim.dynasty.generation = sim.dynasty.generation.saturating_add(1);
    sim.dynasty.years_since_generation = 0;
    let born = sim.dynasty.births_this_generation;
    sim.dynasty.births_this_generation = 0;
    born
}

} // verus!
