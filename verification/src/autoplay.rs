//! A full mission flown under a fixed, simple policy: every council
//! decision takes its first choice, the hull is patched when it slips, food
//! is bought when the stores run low, and the charter is flown year by year
//! until it completes, the line ends, or the years run out.

use vstd::prelude::*;

use crate::contract::{advance_ok, started, timeline_ok};
use crate::data::{ContractTemplate, GameData};
use crate::legacy::dilemma_resolved;
use crate::market::bought;
use crate::outcome::outcome_applied;
use crate::ship::{field_repaired, RepairKind};
use crate::state::ActiveContract;
use crate::economy::{charter_def, charter_def_index, output_ok, ShipFactors};
use crate::event_resolver::charter_ok;
use crate::fixed::{BOUND, ONE};
use crate::state::{SimState, TradeResource};
use crate::voyage::year_invariants;
use crate::tick::{
    advance_year, contract_fit, event_def, event_def_index, event_ready, lemma_outcome_keeps_ready, world_ok,
    year_flown, TickReport,
};

verus! {

/// How a played-out mission ended.
#[derive(Debug, Clone, Copy)]
pub struct MissionOutcome {
    /// The charter reached its full term and scored out.
    pub completed: bool,
    /// The line ran out of heirs first.
    pub extinct: bool,
    /// The campaign year the run ended on.
    pub final_year: u32,
    /// The charter's score at completion, in millionths (0 if it never completed).
    pub final_score: i64,
}

/// A charter fit to be flown: its timeline fits the clock, its hazard and
/// target are in range, and its metrics weigh in as fractions.
pub open spec fn charter_flyable(t: ContractTemplate) -> bool {
    &&& crate::contract::months_total(t.phases@) <= u32::MAX
    &&& 0 <= t.hazard <= BOUND
    &&& -BOUND <= t.objective_target <= BOUND
    &&& t.success_metrics.len() <= 0x1_0000_0000
    &&& forall|i: int| 0 <= i < t.success_metrics.len() ==> -ONE <= (#[trigger] t.success_metrics@[i]).weight <= ONE
}

/// The ship with charter `c` under way.
pub open spec fn launched(s0: SimState, c: ActiveContract) -> SimState {
    SimState { contract: Some(c), ..s0 }
}

/// The pending dilemma, if any, resolved by its first option.
pub open spec fn dilemma_cleared(s0: SimState, data: GameData, s1: SimState) -> bool {
    if s0.pending_dilemma is Some {
        exists|r: Option<String>| #[trigger] dilemma_resolved(s0, data, 0, s1, r)
    } else {
        s1 == s0
    }
}

/// The pending event, if any, settled by its first outcome (an event with
/// no outcomes is left as it is; an id the catalog does not know dropped).
pub open spec fn event_cleared(s0: SimState, data: GameData, s1: SimState) -> bool {
    match s0.pending_event {
        None => s1 == s0,
        Some(p) => match event_def(data, p.template_id@) {
            None => s1 == (SimState { pending_event: None, ..s0 }),
            Some(t) => if t.outcomes.len() > 0 {
                outcome_applied(s0, data, t, 0, s1)
            } else {
                s1 == s0
            },
        },
    }
}

/// The council's business cleared by first choice: the dilemma, then the
/// event.
pub open spec fn council_settled(s0: SimState, data: GameData, s1: SimState) -> bool {
    exists|d: SimState| #[trigger] dilemma_cleared(s0, data, d) && event_cleared(d, data, s1)
}

/// The standing orders before a year: a hull under half is field-repaired
/// (a refusal changes nothing), then food under the crisis line is bought
/// by the thousand (likewise).
pub open spec fn tended(s0: SimState, data: GameData, a: SimState, b: SimState) -> bool {
    &&& if s0.ship.hull_integrity < ONE / 2 {
        exists|res: Result<(), String>| #[trigger] field_repaired(s0, data.config, RepairKind::Hull, a, res)
    } else {
        a == s0
    }
    &&& if a.resources.food < data.config.low_food_threshold {
        exists|res: Result<(), String>| #[trigger] bought(a, TradeResource::Food, 1000, b, res)
    } else {
        b == a
    }
}

/// Whether a year's report ends the mission: the charter completed or the
/// line ended.
pub open spec fn ends(r: TickReport) -> bool {
    r.contract_completed is Some || r.dynasty_extinct
}

/// One year of a mission, recorded as (start, after the dilemma, settled,
/// repaired, stocked, the year's report): the council settled, the line
/// alive, the standing orders carried out, and a year flown to `next` (the
/// charter set down when it completed).
pub open spec fn mission_year(
    data: GameData,
    f: ShipFactors,
    y: (SimState, SimState, SimState, SimState, SimState, TickReport),
    next: SimState,
) -> bool {
    &&& dilemma_cleared(y.0, data, y.1)
    &&& event_cleared(y.1, data, y.2)
    &&& !y.2.dynasty.extinct
    &&& tended(y.2, data, y.3, y.4)
    &&& if y.5.contract_completed is Some {
        exists|z: SimState| #[trigger] year_flown(y.4, data, f, z, y.5) && next == (SimState { contract: None, ..z })
    } else {
        year_flown(y.4, data, f, next, y.5)
    }
}

/// The years of a mission launched at `s0`, ending at `end`: each follows
/// from the one before, and none but the last ended the mission.
pub open spec fn mission_flown(
    s0: SimState,
    data: GameData,
    f: ShipFactors,
    ys: Seq<(SimState, SimState, SimState, SimState, SimState, TickReport)>,
    end: SimState,
) -> bool {
    &&& ys.len() == 0 ==> end == s0
    &&& ys.len() > 0 ==> ys[0].0 == s0
    &&& forall|k: int|
        0 <= k < ys.len() ==> mission_year(data, f, #[trigger] ys[k], if k + 1 < ys.len() {
            ys[k + 1].0
        } else {
            end
        })
    &&& forall|k: int| 0 <= k < ys.len() - 1 ==> !ends(#[trigger] ys[k].5)
}

/// How a mission flown as `ys` to `end` finished, the run left at `s1`
/// reporting `o`: either the line was found extinct at the council before
/// a year (no year of `ys` having ended the run), or the run stopped at
/// `end` after its last year ended it or after all `max_years` years;
/// completion, extinction and the score come from the last year's report.
pub open spec fn mission_finished(
    data: GameData,
    ys: Seq<(SimState, SimState, SimState, SimState, SimState, TickReport)>,
    end: SimState,
    max_years: u32,
    s1: SimState,
    o: MissionOutcome,
) -> bool {
    let n = ys.len();
    let last_ends = n > 0 && ends(ys[n - 1].5);
    ||| {
        &&& n < max_years
        &&& !last_ends
        &&& council_settled(end, data, s1)
        &&& s1.dynasty.extinct
        &&& o.extinct && !o.completed && o.final_score == 0
    }
    ||| {
        &&& s1 == end
        &&& n == max_years || last_ends
        &&& o.completed == (n > 0 && ys[n - 1].5.contract_completed is Some)
        &&& o.completed ==> o.final_score == ys[n - 1].5.contract_completed.unwrap().0
        &&& !o.completed ==> o.final_score == 0
        &&& o.extinct == (n > 0 && !o.completed && ys[n - 1].5.dynasty_extinct)
    }
}

/// A mission flown to `end` and one more year recorded from there flies
/// to that year's end.
proof fn lemma_year_recorded(
    s0: SimState,
    data: GameData,
    f: ShipFactors,
    ys: Seq<(SimState, SimState, SimState, SimState, SimState, TickReport)>,
    end: SimState,
    rec: (SimState, SimState, SimState, SimState, SimState, TickReport),
    next: SimState,
)
    requires
        mission_flown(s0, data, f, ys, end),
        !(ys.len() > 0 && ends(ys[ys.len() - 1].5)),
        rec.0 == end,
        mission_year(data, f, rec, next),
    ensures
        mission_flown(s0, data, f, ys.push(rec), next),
{
    let zs = ys.push(rec);
    assert forall|k: int| 0 <= k < zs.len() implies mission_year(data, f, #[trigger] zs[k], if k + 1 < zs.len() {
        zs[k + 1].0
    } else {
        next
    }) by {
        if k < ys.len() {
            assert(zs[k] == ys[k]);
            if k + 1 < ys.len() {
                assert(zs[k + 1] == ys[k + 1]);
            }
        }
    }
    assert forall|k: int| 0 <= k < zs.len() - 1 implies !ends(#[trigger] zs[k].5) by {
        assert(zs[k] == ys[k]);
    }
}

/// Clear whatever awaits the council by its first choice: a dilemma
/// through its first option; an event through its first outcome (an id the
/// catalog does not know is dropped).
fn settle_council(sim: &mut SimState, data: &GameData)
    requires
        event_ready(*old(sim)),
        world_ok(*data),
    ensures
        event_ready(*final(sim)),
        council_settled(*old(sim), *data, *final(sim)),
        crate::state::line_led(*old(sim)) ==> crate::state::line_led(*final(sim)),
        final(sim).month_clock == old(sim).month_clock,
        final(sim).year == old(sim).year,
{
    let ghost s0 = *sim;
    if sim.pending_dilemma.is_some() {
        let r = crate::legacy::resolve_dilemma(sim, data, 0);
        proof {
            assert(dilemma_resolved(s0, *data, 0, *sim, r));
        }
    }
    let ghost d = *sim;
    proof {
        assert(dilemma_cleared(s0, *data, d));
    }
    let pending = match &sim.pending_event {
        Some(p) => Some(event_def_index(data, p.template_id.as_str())),
        None => None,
    };
    match pending {
        Some(Some(i)) => {
            let t = &data.events[i];
            if t.outcomes.len() > 0 {
                proof {
                    assert(data.events@[i as int].outcomes@[0] == t.outcomes@[0]);
                }
                crate::outcome::apply_outcome(sim, data, t, 0);
                proof {
                    lemma_outcome_keeps_ready(d, *data, *t, 0, *sim);
                }
            }
        },
        Some(None) => {
            sim.pending_event = None;
        },
        None => {},
    }
    proof {
        assert(event_cleared(d, *data, *sim));
    }
}

/// Fly charter `contract_id` to its conclusion, or for `max_years`, under
/// the policy above; the catalog must hold the charter. The charter is
/// started (see [`started`]); then, year by year, the council is settled,
/// the run ends if the line is gone, the standing orders are carried out
/// and a year is flown (see [`mission_year`]), until a year completes the
/// charter (which is then set down) or ends the line, or `max_years` years
/// have passed (see [`mission_finished`]). Every year flown ends with the
/// invariants of a simulated year in force (see [`advance_year`]), and so
/// does the run.
#[verifier::rlimit(60)]
pub fn play_mission(
    sim: &mut SimState,
    data: &GameData,
    f: &ShipFactors,
    contract_id: &str,
    max_years: u32,
) -> (outcome: MissionOutcome)
    requires
        old(sim).wf(),
        output_ok(*old(sim)),
        -BOUND <= old(sim).fuel_scooped_accum <= BOUND,
        old(sim).year <= crate::tick::YEAR_LIMIT,
        world_ok(*data),
        f.wf(),
        charter_def(*data, contract_id@) matches Some(t) && charter_flyable(t),
        old(sim).month_clock + 12 * max_years <= u32::MAX,
    ensures
        exists|c: ActiveContract, ys: Seq<(SimState, SimState, SimState, SimState, SimState, TickReport)>, end: SimState|
            #[trigger] mission_flown(launched(*old(sim), c), *data, *f, ys, end) && started(
                charter_def(*data, contract_id@).unwrap(),
                *old(sim),
                c,
            ) && ys.len() <= max_years && mission_finished(*data, ys, end, max_years, *final(sim), outcome),
        outcome.final_year == final(sim).year,
        final(sim).month_clock <= old(sim).month_clock + 12 * max_years,
        old(sim).year == old(sim).month_clock / 12 ==> final(sim).year <= old(sim).year + max_years,
        final(sim).wf(),
        max_years > 0 ==> year_invariants(*final(sim)),
{
    let ti = charter_def_index(data, contract_id).unwrap();
    let template = &data.contracts[ti];
    let c = crate::contract::start_contract(template, sim);
    sim.contract = Some(c);
    let ghost y0 = *sim;
    let ghost mut ys: Seq<(SimState, SimState, SimState, SimState, SimState, TickReport)> = Seq::empty();
    let ghost mut end: SimState = *sim;
    let mut outcome = MissionOutcome { completed: false, extinct: false, final_year: sim.year, final_score: 0 };
    let mut year: u32 = 0;
    let mut done = false;
    while year < max_years && !done
        invariant
            year <= max_years,
            event_ready(*sim),
            world_ok(*data),
            f.wf(),
            sim.month_clock + 12 * (max_years - year) <= u32::MAX,
            sim.month_clock <= old(sim).month_clock + 12 * year,
            old(sim).year == old(sim).month_clock / 12 ==> sim.year <= old(sim).year + year,
            outcome.final_year == sim.year,
            year > 0 ==> year_invariants(*sim),
            done ==> year > 0,
            y0 == launched(*old(sim), c),
            started(charter_def(*data, contract_id@).unwrap(), *old(sim), c),
            mission_flown(y0, *data, *f, ys, end),
            ys.len() <= year,
            !done ==> ys.len() == year && *sim == end && !(ys.len() > 0 && ends(ys[ys.len() - 1].5))
                && !outcome.completed && !outcome.extinct && outcome.final_score == 0,
            done ==> mission_finished(*data, ys, end, max_years, *sim, outcome),
        decreases max_years - year,
    {
        let ghost s_start = *sim;
        settle_council(sim, data);
        let ghost settled = *sim;
        if sim.dynasty.extinct {
            outcome.extinct = true;
            done = true;
            proof {
                assert(council_settled(end, *data, *sim));
            }
        } else {
            if sim.ship.hull_integrity < ONE / 2 {
                let rr = crate::ship::field_repair(sim, &data.config, RepairKind::Hull);
                proof {
                    assert(field_repaired(settled, data.config, RepairKind::Hull, *sim, rr));
                }
            }
            let ghost a = *sim;
            if sim.resources.food < data.config.low_food_threshold {
                let rb = crate::market::buy(sim, TradeResource::Food, 1000);
                proof {
                    assert(bought(a, TradeResource::Food, 1000, *sim, rb));
                }
            }
            let ghost b = *sim;
            proof {
                assert(tended(settled, *data, a, b));
            }
            let report = advance_year(sim, data, f);
            let ghost z = *sim;
            outcome.final_year = sim.year;
            match report.contract_completed {
                Some((score, _)) => {
                    outcome.completed = true;
                    outcome.final_score = score;
                    sim.contract = None;
                    done = true;
                },
                None => {
                    if report.dynasty_extinct {
                        outcome.extinct = true;
                        done = true;
                    }
                },
            }
            proof {
                let dd = choose|dd: SimState| #[trigger] dilemma_cleared(s_start, *data, dd) && event_cleared(dd, *data, settled);
                let rec = (s_start, dd, settled, a, b, report);
                assert(dilemma_cleared(s_start, *data, dd));
                assert(event_cleared(dd, *data, settled));
                assert(year_flown(b, *data, *f, z, report));
                if report.contract_completed is Some {
                    assert(*sim == (SimState { contract: None, ..z }));
                } else {
                    assert(*sim == z);
                }
                assert(dilemma_cleared(rec.0, *data, rec.1));
                assert(event_cleared(rec.1, *data, rec.2));
                assert(!rec.2.dynasty.extinct);
                assert(tended(rec.2, *data, rec.3, rec.4));
                if rec.5.contract_completed is Some {
                    assert(year_flown(rec.4, *data, *f, z, rec.5));
                } else {
                    assert(year_flown(rec.4, *data, *f, *sim, rec.5));
                }
                assert(mission_year(*data, *f, rec, *sim));
                lemma_year_recorded(y0, *data, *f, ys, end, rec, *sim);
                ys = ys.push(rec);
                end = *sim;
            }
        }
        year = year + 1;
    }
    outcome
}

} // verus!
