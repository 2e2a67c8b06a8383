//! The campaign skeleton: the major beats of a mission, laid out at launch
//! from the tape so a centuries-long voyage reads as a generated campaign
//! rather than a stream of random events. The same tape gives the same
//! schedule.
//!
//! Which families belong to which phase is mechanics, and lives here as a
//! fixed table; the families themselves are authored content.

use vstd::prelude::*;

use crate::contract::{months_total, phase_at, timeline_ok};
use crate::data::ContractPhase;
use crate::market::lemma_advanced_by_succ;
use crate::rolls::Rolls;
use crate::state::{ActiveContract, CampaignBeat};

verus! {

/// Months in one beat window: twenty years.
pub const MONTHS_PER_WINDOW: u32 = 240;

/// Months at the start of a voyage no beat falls in: five years.
pub const SKIP_MONTHS: u32 = 60;

/// The families a beat may draw from in `phase` (before the any-phase ones).
pub open spec fn phase_pool(phase: ContractPhase) -> Seq<Seq<char>> {
    match phase {
        ContractPhase::Travel | ContractPhase::Preparation => seq![
            "exploration_first_contact"@,
            "science_anomaly"@,
            "diplomacy"@,
            "mystery"@,
            "engineering"@,
        ],
        ContractPhase::Operation => seq!["survival"@, "diplomacy"@, "engineering"@, "mystery"@],
        ContractPhase::Return | ContractPhase::Completion => seq!["legacy_drift"@, "ethics"@, "mystery"@],
    }
}

/// The families allowed in any phase, always added to the draw.
pub open spec fn any_pool() -> Seq<Seq<char>> {
    seq!["biology_medical"@, "comedy"@]
}

/// The phase pool followed by the any-phase families.
pub open spec fn draw_pool(phase: ContractPhase) -> Seq<Seq<char>> {
    phase_pool(phase) + any_pool()
}

/// The families a beat may draw from in `phase`.
pub fn pool_for_phase(phase: ContractPhase) -> (r: Vec<&'static str>)
    ensures
        r@.len() == phase_pool(phase).len(),
        forall|i: int| 0 <= i < r@.len() ==> (#[trigger] r@[i])@ == phase_pool(phase)[i],
{
    match phase {
        ContractPhase::Travel | ContractPhase::Preparation => {
            vec!["exploration_first_contact", "science_anomaly", "diplomacy", "mystery", "engineering"]
        },
        ContractPhase::Operation => vec!["survival", "diplomacy", "engineering", "mystery"],
        ContractPhase::Return | ContractPhase::Completion => vec!["legacy_drift", "ethics", "mystery"],
    }
}

fn any_phase_pool() -> (r: Vec<&'static str>)
    ensures
        r@.len() == any_pool().len(),
        forall|i: int| 0 <= i < r@.len() ==> (#[trigger] r@[i])@ == any_pool()[i],
{
    vec!["biology_medical", "comedy"]
}

/// The first month of window `i`'s draw: the window's start, but never
/// inside the first five years.
pub open spec fn window_low(i: int) -> int {
    if i * 240 >= 60 {
        i * 240
    } else {
        60
    }
}

/// The beat of window `i`: one draw places it uniformly within what is left
/// of its window, and one draw names its family from the pool of the phase
/// the voyage is in that month.
pub open spec fn beat_of(c: ActiveContract, r0: Rolls, i: nat) -> (int, Seq<char>) {
    let lo = window_low(i as int);
    let hi = i * 240 + 240;
    let month = lo + r0.advanced_by(2 * i).below_value((hi - lo) as nat);
    let phase = phase_at(c.phases@, month + 1).1;
    let pool = draw_pool(phase);
    (month, pool[r0.advanced_by(2 * i + 1).below_value(pool.len()) as int])
}

/// Lay out the campaign beats for `contract`: one beat per full twenty years
/// of the voyage, each placed within its own window (never in the first five
/// years), in order, none fired yet. Two draws per beat.
pub fn generate_beats(rolls: &mut Rolls, contract: &ActiveContract) -> (beats: Vec<CampaignBeat>)
    requires
        timeline_ok(*contract),
    ensures
        beats.len() == months_total(contract.phases@) / 240,
        forall|i: int|
            0 <= i < beats.len() ==> {
                let b = #[trigger] beats@[i];
                let want = beat_of(*contract, *old(rolls), i as nat);
                &&& b.month_clock == want.0
                &&& b.family@ == want.1
                &&& !b.fired
                &&& 60 <= b.month_clock < i * 240 + 240
            },
        *final(rolls) == old(rolls).advanced_by((2 * beats.len()) as nat),
{
    let total = contract.total_months();
    let windows = total / MONTHS_PER_WINDOW;
    let ghost r0 = *rolls;
    let mut beats: Vec<CampaignBeat> = Vec::new();
    let mut i: u32 = 0;
    while i < windows
        invariant
            i <= windows == months_total(contract.phases@) / 240,
            timeline_ok(*contract),
            beats.len() == i,
            *rolls == r0.advanced_by((2 * i) as nat),
            forall|j: int|
                0 <= j < i ==> {
                    let b = #[trigger] beats@[j];
                    let want = beat_of(*contract, r0, j as nat);
                    &&& b.month_clock == want.0
                    &&& b.family@ == want.1
                    &&& !b.fired
                    &&& 60 <= b.month_clock < j * 240 + 240
                },
        decreases windows - i,
    {
        proof {
            let t = months_total(contract.phases@);
            assert((i + 1) * 240 <= t) by (nonlinear_arith)
                requires
                    i < t / 240,
                    t >= 0,
            ;
        }
        let window_start = i * MONTHS_PER_WINDOW;
        let lo = if window_start >= SKIP_MONTHS {
            window_start
        } else {
            SKIP_MONTHS
        };
        let hi = window_start + MONTHS_PER_WINDOW;
        let d = rolls.below((hi - lo) as usize);
        let month = lo + d as u32;
        let (_, phase) = contract.phase_at(month + 1);
        let pool = pool_for_phase(phase);
        let extra = any_phase_pool();
        let idx = rolls.below(pool.len() + extra.len());
        let family: &str = if idx < pool.len() {
            pool[idx]
        } else {
            extra[idx - pool.len()]
        };
        proof {
            lemma_advanced_by_succ(r0, (2 * i) as nat);
            lemma_advanced_by_succ(r0, (2 * i + 1) as nat);
            let dp = draw_pool(phase);
            assert(dp[idx as int] == family@);
        }
        beats.push(CampaignBeat { month_clock: month, family: family.to_owned(), fired: false });
        i = i + 1;
    }
    beats
}

} // verus!
