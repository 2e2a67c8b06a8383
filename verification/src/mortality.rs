//! Aging, death, and renewal of the ruling line and the crew.

use vstd::prelude::*;

use crate::config::{MortalityConfig, GameConfig};
use crate::data::{CrewArchetype, GameData};
use crate::fixed::{bump, clamp, ONE};
use crate::rolls::Rolls;
use crate::state::{leader_index, CrewMember, Dynasty, DynastyMember, SimState};
use crate::succession::{heir_in, heir_ready_in};
use crate::succession::{eligible_heir_exists, heir_of, install_successor, lemma_heir_of};
use crate::text::{decimal, decimal_text, line_with_name, line_with_name_post, pooled_line, pooled_line_post};
use crate::util::{join2, join3, join4, same};

verus! {

/// `2^k`.
pub open spec fn pow2(k: nat) -> nat
    decreases k,
{
    if k == 0 {
        1
    } else {
        2 * pow2((k - 1) as nat)
    }
}

/// The age-scaled risk multiplier `over` years past onset: it doubles every
/// `d` years, rising in a straight line between doublings.
pub open spec fn growth(over: nat, d: nat) -> int {
    (pow2(over / d) * (d + over % d)) as int
}

/// The chance (millionths) that a character of `age` dies in a month: a
/// flat accident floor, plus the base risk from the onset age on, doubling
/// every `doubling_years`; certain at `max_age`.
pub open spec fn death_chance(age: u32, cfg: MortalityConfig, max_age: u32) -> int {
    if age >= max_age {
        ONE as int
    } else if age >= cfg.onset_age && cfg.doubling_years > 0 {
        let over = (age - cfg.onset_age) as nat;
        let d = cfg.doubling_years as nat;
        if over / d >= 40 {
            if cfg.monthly_base_chance > 0 {
                ONE as int
            } else {
                clamp(cfg.monthly_accident_chance as int, 0, ONE as int)
            }
        } else {
            clamp(
                cfg.monthly_accident_chance + (cfg.monthly_base_chance * growth(over, d)) / (d as int),
                0,
                ONE as int,
            )
        }
    } else {
        clamp(cfg.monthly_accident_chance as int, 0, ONE as int)
    }
}

proof fn lemma_pow2_mono(a: nat, b: nat)
    requires
        a <= b,
    ensures
        1 <= pow2(a) <= pow2(b),
    decreases b,
{
    if b > a {
        lemma_pow2_mono(a, (b - 1) as nat);
    } else if a > 0 {
        lemma_pow2_mono((a - 1) as nat, (a - 1) as nat);
    }
}

proof fn lemma_pow2_bound(k: nat)
    requires
        k < 40,
    ensures
        1 <= pow2(k) <= 0x100_0000_0000,
{
    lemma_pow2_mono(k, 40);
    assert(pow2(0) == 1);
    assert(pow2(1) == 2);
    assert(pow2(2) == 4);
    assert(pow2(3) == 8);
    assert(pow2(4) == 16);
    assert(pow2(5) == 32);
    assert(pow2(6) == 64);
    assert(pow2(7) == 128);
    assert(pow2(8) == 256);
    assert(pow2(9) == 512);
    assert(pow2(10) == 1024);
    assert(pow2(11) == 2048);
    assert(pow2(12) == 4096);
    assert(pow2(13) == 8192);
    assert(pow2(14) == 16384);
    assert(pow2(15) == 32768);
    assert(pow2(16) == 65536);
    assert(pow2(17) == 131072);
    assert(pow2(18) == 262144);
    assert(pow2(19) == 524288);
    assert(pow2(20) == 1048576);
    assert(pow2(21) == 2097152);
    assert(pow2(22) == 4194304);
    assert(pow2(23) == 8388608);
    assert(pow2(24) == 16777216);
    assert(pow2(25) == 33554432);
    assert(pow2(26) == 67108864);
    assert(pow2(27) == 134217728);
    assert(pow2(28) == 268435456);
    assert(pow2(29) == 536870912);
    assert(pow2(30) == 1073741824);
    assert(pow2(31) == 2147483648);
    assert(pow2(32) == 4294967296);
    assert(pow2(33) == 8589934592);
    assert(pow2(34) == 17179869184);
    assert(pow2(35) == 34359738368);
    assert(pow2(36) == 68719476736);
    assert(pow2(37) == 137438953472);
    assert(pow2(38) == 274877906944);
    assert(pow2(39) == 549755813888);
    assert(pow2(40) == 1099511627776);
}

proof fn lemma_growth_step(o: nat, d: nat)
    requires
        d > 0,
    ensures
        growth(o, d) <= growth(o + 1, d),
{
    let q = o / d;
    let r = o % d;
    vstd::arithmetic::div_mod::lemma_fundamental_div_mod(o as int, d as int);
    assert(0 <= r < d);
    lemma_pow2_mono(0, q);
    let p = pow2(q) as int;
    assert(o == q * d + r) by (nonlinear_arith)
        requires
            o == d * q + r,
    ;
    if r + 1 < d {
        vstd::arithmetic::div_mod::lemma_fundamental_div_mod_converse((o + 1) as int, d as int, q as int, (r + 1) as int);
        assert(p * (d + r) <= p * (d + r + 1)) by (nonlinear_arith)
            requires
                p >= 1,
        ;
    } else {
        assert(o + 1 == (q + 1) * d) by (nonlinear_arith)
            requires
                o == q * d + r,
                r + 1 == d,
        ;
        vstd::arithmetic::div_mod::lemma_fundamental_div_mod_converse((o + 1) as int, d as int, (q + 1) as int, 0);
        assert(pow2((q + 1) as nat) == 2 * pow2(q));
        assert(p * (d + r) <= 2 * p * d) by (nonlinear_arith)
            requires
                p >= 1,
                r < d,
        ;
    }
}

proof fn lemma_growth_mono(o1: nat, o2: nat, d: nat)
    requires
        d > 0,
        o1 <= o2,
    ensures
        growth(o1, d) <= growth(o2, d),
    decreases o2 - o1,
{
    if o1 < o2 {
        lemma_growth_mono(o1, (o2 - 1) as nat, d);
        lemma_growth_step((o2 - 1) as nat, d);
    }
}

/// Age never makes death less likely: under any mortality rules whose
/// chances are fractions, an older character's monthly chance of dying is
/// at least a younger one's.
pub proof fn law_death_risk_never_falls_with_age(a1: u32, a2: u32, cfg: MortalityConfig, max_age: u32)
    requires
        a1 <= a2,
        cfg.wf(),
    ensures
        death_chance(a1, cfg, max_age) <= death_chance(a2, cfg, max_age),
        0 <= death_chance(a2, cfg, max_age) <= ONE,
{
    let acc = cfg.monthly_accident_chance as int;
    let base = cfg.monthly_base_chance as int;
    let d = cfg.doubling_years as nat;
    if a2 < max_age && a2 >= cfg.onset_age && d > 0 {
        let o2 = (a2 - cfg.onset_age) as nat;
        if o2 / d < 40 {
            lemma_pow2_mono(0, o2 / d);
            assert(growth(o2, d) >= 0);
            assert(base * growth(o2, d) >= 0) by (nonlinear_arith)
                requires
                    base >= 0,
                    growth(o2, d) >= 0,
            ;
            assert((base * growth(o2, d)) / (d as int) >= 0) by (nonlinear_arith)
                requires
                    base * growth(o2, d) >= 0,
                    d > 0,
            ;
            if a1 >= cfg.onset_age {
                let o1 = (a1 - cfg.onset_age) as nat;
                assert(o1 <= o2);
                assert(o1 / d <= o2 / d) by (nonlinear_arith)
                    requires
                        o1 <= o2,
                        d > 0,
                ;
                lemma_growth_mono(o1, o2, d);
                lemma_pow2_mono(0, o1 / d);
                assert(0 <= base * growth(o1, d) <= base * growth(o2, d)) by (nonlinear_arith)
                    requires
                        base >= 0,
                        0 <= growth(o1, d) <= growth(o2, d),
                ;
                assert((base * growth(o1, d)) / (d as int) <= (base * growth(o2, d)) / (d as int)) by (nonlinear_arith)
                    requires
                        0 <= base * growth(o1, d) <= base * growth(o2, d),
                        d > 0,
                ;
            }
        } else if a1 >= cfg.onset_age {
            let o1 = (a1 - cfg.onset_age) as nat;
            if o1 / d < 40 {
                lemma_pow2_mono(0, o1 / d);
                assert(base * growth(o1, d) >= 0) by (nonlinear_arith)
                    requires
                        base >= 0,
                        growth(o1, d) >= 0,
                ;
                if base == 0 {
                    let g = growth(o1, d);
                    assert(base * g == 0) by (nonlinear_arith)
                        requires
                            base == 0,
                    ;
                }
            }
        }
    }
}

/// See [`death_chance`].
pub fn monthly_death_chance(age: u32, cfg: &MortalityConfig, max_age: u32) -> (r: i64)
    requires
        cfg.wf(),
    ensures
        r == death_chance(age, *cfg, max_age),
        0 <= r <= ONE,
{
    if age >= max_age {
        return ONE;
    }
    if age >= cfg.onset_age && cfg.doubling_years > 0 {
        let over = age - cfg.onset_age;
        let d = cfg.doubling_years;
        let q = over / d;
        let rem = over % d;
        if q >= 40 {
            if cfg.monthly_base_chance > 0 {
                return ONE;
            }
            return crate::fixed::clamp_i64(cfg.monthly_accident_chance, 0, ONE);
        }
        let mut p: i128 = 1;
        let mut k: u32 = 0;
        while k < q
            invariant
                k <= q < 40,
                p == pow2(k as nat),
            decreases q - k,
        {
            proof {
                lemma_pow2_bound(k as nat);
            }
            p = p * 2;
            k = k + 1;
        }
        proof {
            lemma_pow2_bound(q as nat);
            let pi = p as int;
            let dd = d as int;
            let rr = rem as int;
            let b = cfg.monthly_base_chance as int;
            assert(0 <= pi * (dd + rr) <= 0x100_0000_0000 * 0x2_0000_0000) by (nonlinear_arith)
                requires
                    1 <= pi <= 0x100_0000_0000,
                    0 <= rr < dd <= 0x1_0000_0000,
            ;
            assert(0 <= b * (pi * (dd + rr)) <= ONE * 0x100_0000_0000 * 0x2_0000_0000) by (nonlinear_arith)
                requires
                    0 <= pi * (dd + rr) <= 0x100_0000_0000 * 0x2_0000_0000,
                    0 <= b <= ONE,
            ;
            assert(b * (pi * (dd + rr)) == b * growth(over as nat, d as nat));
        }
        let g: i128 = p * ((d as i128) + (rem as i128));
        let term: i128 = (cfg.monthly_base_chance as i128) * g / (d as i128);
        return crate::fixed::clamp_i128((cfg.monthly_accident_chance as i128) + term, 0, ONE);
    }
    crate::fixed::clamp_i64(cfg.monthly_accident_chance, 0, ONE)
}

/// The first archetype named `id`, from `start`.
pub open spec fn archetype_from(xs: Seq<CrewArchetype>, id: Seq<char>, start: int) -> Option<int>
    decreases xs.len() - start,
{
    if start < 0 || start >= xs.len() {
        None
    } else if xs[start].id@ == id {
        Some(start)
    } else {
        archetype_from(xs, id, start + 1)
    }
}

/// The ship's name for a post, falling back to the raw id.
pub open spec fn post_of(data: GameData, id: Seq<char>) -> Seq<char> {
    match archetype_from(data.crew_archetypes@, id, 0) {
        Some(i) => data.crew_archetypes@[i].name@,
        None => id,
    }
}

fn post_name<'a>(data: &'a GameData, archetype_id: &'a str) -> (r: &'a str)
    ensures
        r@ == post_of(*data, archetype_id@),
{
    let key = archetype_id.to_owned();
    let xs = &data.crew_archetypes;
    let mut i: usize = 0;
    while i < xs.len()
        invariant
            i <= xs.len(),
            xs@ == data.crew_archetypes@,
            key@ == archetype_id@,
            archetype_from(xs@, key@, 0) == archetype_from(xs@, key@, i as int),
        decreases xs.len() - i,
    {
        if same(&xs[i].id, &key) {
            assert(archetype_from(xs@, key@, i as int) == Some(i as int));
            return xs[i].name.as_str();
        }
        i = i + 1;
    }
    archetype_id
}

/// Members after each takes its monthly death roll in order: (survivors,
/// the dead, the tape after).
pub open spec fn member_rolls(ms: Seq<DynastyMember>, r: Rolls, cfg: MortalityConfig, max_age: u32) -> (
    Seq<DynastyMember>,
    Seq<DynastyMember>,
    Rolls,
)
    decreases ms.len(),
{
    if ms.len() == 0 {
        (Seq::empty(), Seq::empty(), r)
    } else {
        let (s, d, r1) = member_rolls(ms.drop_last(), r, cfg, max_age);
        let m = ms.last();
        if r1.chance_value(death_chance(m.age, cfg, max_age)) {
            (s, d.push(m), r1.advanced())
        } else {
            (s.push(m), d, r1.advanced())
        }
    }
}

/// Officers after each takes its monthly death roll in order.
pub open spec fn crew_rolls(cs: Seq<CrewMember>, r: Rolls, cfg: MortalityConfig, max_age: u32) -> (
    Seq<CrewMember>,
    Seq<CrewMember>,
    Rolls,
)
    decreases cs.len(),
{
    if cs.len() == 0 {
        (Seq::empty(), Seq::empty(), r)
    } else {
        let (s, d, r1) = crew_rolls(cs.drop_last(), r, cfg, max_age);
        let m = cs.last();
        if r1.chance_value(death_chance(m.age, cfg, max_age)) {
            (s, d.push(m), r1.advanced())
        } else {
            (s.push(m), d, r1.advanced())
        }
    }
}

/// Death is certain at the age cap: no member who survives the month's
/// draws had reached it.
pub proof fn lemma_no_member_survives_the_cap(ms: Seq<DynastyMember>, r: Rolls, cfg: MortalityConfig, max_age: u32)
    ensures
        forall|j: int| 0 <= j < member_rolls(ms, r, cfg, max_age).0.len() ==> (#[trigger] member_rolls(ms, r, cfg, max_age).0[j]).age < max_age,
    decreases ms.len(),
{
    if ms.len() > 0 {
        lemma_no_member_survives_the_cap(ms.drop_last(), r, cfg, max_age);
        let (sv, d, r1) = member_rolls(ms.drop_last(), r, cfg, max_age);
        let m = ms.last();
        if m.age >= max_age {
            assert(death_chance(m.age, cfg, max_age) == ONE as int);
            assert(((r1.peek() as nat) % (ONE as nat)) < ONE);
        }
        let out = member_rolls(ms, r, cfg, max_age).0;
        assert forall|j: int| 0 <= j < out.len() implies (#[trigger] out[j]).age < max_age by {
            if j < sv.len() {
                assert(out[j] == sv[j]);
            }
        }
    }
}

/// Death is certain at the age cap: no officer who survives the month's
/// draws had reached it.
pub proof fn lemma_no_officer_survives_the_cap(cs: Seq<CrewMember>, r: Rolls, cfg: MortalityConfig, max_age: u32)
    ensures
        forall|j: int| 0 <= j < crew_rolls(cs, r, cfg, max_age).0.len() ==> (#[trigger] crew_rolls(cs, r, cfg, max_age).0[j]).age < max_age,
    decreases cs.len(),
{
    if cs.len() > 0 {
        lemma_no_officer_survives_the_cap(cs.drop_last(), r, cfg, max_age);
        let (sv, d, r1) = crew_rolls(cs.drop_last(), r, cfg, max_age);
        let m = cs.last();
        if m.age >= max_age {
            assert(death_chance(m.age, cfg, max_age) == ONE as int);
            assert(((r1.peek() as nat) % (ONE as nat)) < ONE);
        }
        let out = crew_rolls(cs, r, cfg, max_age).0;
        assert forall|j: int| 0 <= j < out.len() implies (#[trigger] out[j]).age < max_age by {
            if j < sv.len() {
                assert(out[j] == sv[j]);
            }
        }
    }
}

/// A member whose flag is raised after the deaths of the month.
pub open spec fn has_leader(ms: Seq<DynastyMember>) -> bool {
    leader_index(ms) is Some
}

/// An exact copy of a member.
pub fn copy_member(m: &DynastyMember) -> (r: DynastyMember)
    ensures
        r == *m,
{
    DynastyMember {
        id: m.id,
        name: m.name.clone(),
        age: m.age,
        leadership: m.leadership,
        is_leader: m.is_leader,
    }
}

/// An exact copy of an officer.
pub fn copy_officer(c: &CrewMember) -> (r: CrewMember)
    ensures
        r == *c,
{
    CrewMember { id: c.id, name: c.name.clone(), age: c.age, archetype_id: c.archetype_id.clone() }
}

/// The line a member's death is logged with.
pub open spec fn obituary_line(data: GameData, m: DynastyMember) -> Seq<char> {
    match pooled_line(data.config.flavor.obituary@, m.id as nat, m.name@) {
        Some(l) => l,
        None => m.name@ + " passed away, aged "@ + decimal(m.age as nat) + "."@,
    }
}

/// The line an officer's death is logged with.
pub open spec fn officer_death_line(data: GameData, c: CrewMember) -> Seq<char> {
    let post = post_of(data, c.archetype_id@);
    match pooled_line_post(data.config.flavor.crew_death@, c.id as nat, c.name@, post) {
        Some(l) => l,
        None => c.name@ + ", the ship's "@ + post + ", died at "@ + decimal(c.age as nat) + "."@,
    }
}

/// Whether the chair passes over the survivors `ms`: it is empty, or its
/// holder is past retirement age with an heir ready.
pub open spec fn succession_due(ms: Seq<DynastyMember>, data: GameData) -> bool {
    match leader_index(ms) {
        None => true,
        Some(i) => ms[i].age > data.config.leader_retirement_age && heir_ready_in(ms, data.config),
    }
}

/// The survivors `ms` with the chair given to the member at `h` alone.
pub open spec fn crowned(ms: Seq<DynastyMember>, h: Option<int>) -> Seq<DynastyMember> {
    Seq::new(ms.len(), |j: int| DynastyMember { is_leader: h == Some(j), ..ms[j] })
}

/// Whether a succession over `ms` is logged: one is due, someone takes the
/// chair, and the pool has a line for it.
pub open spec fn succession_logged(ms: Seq<DynastyMember>, s0: SimState, data: GameData) -> bool {
    &&& succession_due(ms, data)
    &&& heir_in(ms, s0.dynasty.designated_heir, data.config) is Some
    &&& data.config.flavor.succession.len() > 0
}

/// What a month's death roll does (see [`monthly_tick`]): the members and
/// officers the draws spare remain, a vacated seat is filled, each death and
/// the line's end are logged, and `extinct` tells whether the line is gone.
pub open spec fn death_rolled(s0: SimState, data: GameData, s1: SimState, extinct: bool) -> bool {
    &&& ({
        let cfg = data.config.mortality;
        let max = data.config.member_max_age;
        let (ms, dead, r1) = member_rolls(s0.dynasty.members@, s0.rolls, cfg, max);
        let (cs, crew_dead, r2) = crew_rolls(s0.crew@, r1, cfg, max);
        &&& s1.dynasty.members.len() == ms.len()
        &&& forall|j: int|
            0 <= j < ms.len() ==> (#[trigger] s1.dynasty.members@[j]).id == ms[j].id
                && s1.dynasty.members@[j].age == ms[j].age
                && s1.dynasty.members@[j].name@ == ms[j].name@
        &&& s1.crew@ == cs
        &&& s1.rolls == r2
        &&& s1.dynasty.members@ == (if succession_due(ms, data) {
            crowned(ms, heir_in(ms, s0.dynasty.designated_heir, data.config))
        } else {
            ms
        })
        &&& s1.dynasty == (Dynasty {
            members: s1.dynasty.members,
            designated_heir: if succession_due(ms, data) {
                None
            } else {
                s0.dynasty.designated_heir
            },
            extinct: s1.dynasty.extinct,
            ..s0.dynasty
        })
        &&& s1.log.len() == s0.log.len() + dead.len() + crew_dead.len() + (if succession_logged(ms, s0, data) {
            1int
        } else {
            0
        })
        &&& succession_logged(ms, s0, data) ==> s1.log@[s0.log.len() + dead.len() + crew_dead.len()].text@
            == pooled_line(
            data.config.flavor.succession@,
            s0.dynasty.next_member_id as nat,
            ms[heir_in(ms, s0.dynasty.designated_heir, data.config).unwrap()].name@,
        ).unwrap()
        &&& s1.log@.subrange(0, s0.log.len() as int) == s0.log@
        &&& forall|k: int|
            0 <= k < dead.len() ==> (#[trigger] s1.log@[s0.log.len() + k]).text@ == obituary_line(data, dead[k])
        &&& forall|k: int|
            0 <= k < crew_dead.len() ==> (#[trigger] s1.log@[s0.log.len() + dead.len() + k]).text@
                == officer_death_line(data, crew_dead[k])
        &&& ms.len() > 0 ==> has_leader(s1.dynasty.members@)
        &&& forall|j: int| 0 <= j < ms.len() ==> (#[trigger] ms[j]).age < max
        &&& forall|j: int| 0 <= j < cs.len() ==> (#[trigger] cs[j]).age < max
        &&& extinct == s1.dynasty.extinct
        &&& extinct == (s0.dynasty.extinct || ms.len() == 0)
    })
    &&& s1.wf()
    &&& s1 == (SimState {
        dynasty: s1.dynasty,
        crew: s1.crew,
        rolls: s1.rolls,
        log: s1.log,
        ..s0
    })
}

/// One month of the death roll: every dynasty member, then every officer,
/// takes one draw against [`death_chance`]; each death is logged. When the
/// leader's seat is empty, or the leader has aged past retirement with an
/// heir ready, a successor is installed (see [`heir_in`]) and announced
/// when the pool has a line for it. Returns whether the dynasty is extinct.
/// A living line always leaves the month with a leader.
pub fn monthly_tick(sim: &mut SimState, data: &GameData) -> (extinct: bool)
    requires
        old(sim).wf(),
        data.config.wf(),
    ensures
        death_rolled(*old(sim), *data, *final(sim), extinct),
{
    proof {
        reveal_strlit(" passed away, aged ");
        reveal_strlit(".");
        reveal_strlit(", the ship's ");
        reveal_strlit(", died at ");
        reveal_strlit("The dynasty has no heirs. The line ends here.");
    }
    let max_age = data.config.member_max_age;
    let cfg = &data.config.mortality;
    let ghost s0 = *sim;

    let mut kept: Vec<DynastyMember> = Vec::new();
    let mut dead: Vec<DynastyMember> = Vec::new();
    let mut i: usize = 0;
    while i < sim.dynasty.members.len()
        invariant
            i <= sim.dynasty.members.len(),
            sim.dynasty.members@ == s0.dynasty.members@,
            cfg.wf(),
            member_rolls(s0.dynasty.members@.subrange(0, i as int), s0.rolls, *cfg, max_age) == (
                kept@,
                dead@,
                sim.rolls,
            ),
            *sim == (SimState { rolls: sim.rolls, ..s0 }),
        decreases sim.dynasty.members.len() - i,
    {
        proof {
            assert(s0.dynasty.members@.subrange(0, i + 1).drop_last() =~= s0.dynasty.members@.subrange(
                0,
                i as int,
            ));
        }
        let age = sim.dynasty.members[i].age;
        let chance = monthly_death_chance(age, cfg, max_age);
        let dies = sim.rolls.chance(chance);
        let m = copy_member(&sim.dynasty.members[i]);
        if dies {
            dead.push(m);
        } else {
            kept.push(m);
        }
        i = i + 1;
    }
    proof {
        assert(s0.dynasty.members@.subrange(0, s0.dynasty.members.len() as int) =~= s0.dynasty.members@);
    }
    sim.dynasty.members = kept;
    let ghost r1 = sim.rolls;
    let ghost s1 = *sim;
    let mut kept_crew: Vec<CrewMember> = Vec::new();
    let mut crew_dead: Vec<CrewMember> = Vec::new();
    let mut i: usize = 0;
    while i < sim.crew.len()
        invariant
            i <= sim.crew.len(),
            sim.crew@ == s0.crew@,
            cfg.wf(),
            crew_rolls(s0.crew@.subrange(0, i as int), r1, *cfg, max_age) == (
                kept_crew@,
                crew_dead@,
                sim.rolls,
            ),
            *sim == (SimState { rolls: sim.rolls, ..s1 }),
        decreases sim.crew.len() - i,
    {
        proof {
            assert(s0.crew@.subrange(0, i + 1).drop_last() =~= s0.crew@.subrange(0, i as int));
        }
        let age = sim.crew[i].age;
        let chance = monthly_death_chance(age, cfg, max_age);
        let dies = sim.rolls.chance(chance);
        let c = copy_officer(&sim.crew[i]);
        if dies {
            crew_dead.push(c);
        } else {
            kept_crew.push(c);
        }
        i = i + 1;
    }
    proof {
        assert(s0.crew@.subrange(0, s0.crew.len() as int) =~= s0.crew@);
    }
    sim.crew = kept_crew;
    let ghost s2 = *sim;

    let mut k: usize = 0;
    while k < dead.len()
        invariant
            k <= dead.len(),
            sim.log.len() == s2.log.len() + k,
            *sim == (SimState { log: sim.log, ..s2 }),
            sim.log@.subrange(0, s2.log.len() as int) == s2.log@,
            forall|j: int|
                0 <= j < k ==> (#[trigger] sim.log@[s2.log.len() + j]).text@ == obituary_line(*data, dead@[j]),
        decreases dead.len() - k,
    {
        let m = &dead[k];
        let shown = decimal_text(m.age as u64);
        let line = match line_with_name(&data.config.flavor.obituary, m.id as usize, m.name.as_str()) {
            Some(l) => l,
            None => join4(m.name.as_str(), " passed away, aged ", shown.as_str(), "."),
        };
        let ghost before = sim.log@;
        sim.push_log(line);
        proof {
            assert(sim.log@.subrange(0, s2.log.len() as int) =~= s2.log@) by {
                assert(before.subrange(0, s2.log.len() as int) == s2.log@);
            }
            assert forall|j: int| 0 <= j < k + 1 implies (#[trigger] sim.log@[s2.log.len() + j]).text@ == obituary_line(
                *data,
                dead@[j],
            ) by {
                if j < k {
                    assert(sim.log@[s2.log.len() + j] == before[s2.log.len() + j]);
                }
            }
        }
        k = k + 1;
    }
    let ghost s3 = *sim;
    let mut k: usize = 0;
    while k < crew_dead.len()
        invariant
            k <= crew_dead.len(),
            sim.log.len() == s3.log.len() + k,
            *sim == (SimState { log: sim.log, ..s3 }),
            sim.log@.subrange(0, s3.log.len() as int) == s3.log@,
            forall|j: int|
                0 <= j < k ==> (#[trigger] sim.log@[s3.log.len() + j]).text@ == officer_death_line(
                    *data,
                    crew_dead@[j],
                ),
        decreases crew_dead.len() - k,
    {
        let c = &crew_dead[k];
        let post = post_name(data, c.archetype_id.as_str());
        let line = match line_with_name_post(
            &data.config.flavor.crew_death,
            c.id as usize,
            c.name.as_str(),
            post,
        ) {
            Some(l) => l,
            None => {
                let head = join3(c.name.as_str(), ", the ship's ", post);
                let shown = decimal_text(c.age as u64);
                join4(head.as_str(), ", died at ", shown.as_str(), ".")
            },
        };
        let ghost before = sim.log@;
        sim.push_log(line);
        proof {
            assert(sim.log@.subrange(0, s3.log.len() as int) =~= s3.log@) by {
                assert(before.subrange(0, s3.log.len() as int) == s3.log@);
            }
            assert forall|j: int| 0 <= j < k + 1 implies (#[trigger] sim.log@[s3.log.len() + j]).text@
                == officer_death_line(*data, crew_dead@[j]) by {
                if j < k {
                    assert(sim.log@[s3.log.len() + j] == before[s3.log.len() + j]);
                }
            }
        }
        k = k + 1;
    }
    let ghost s4 = *sim;
    let ghost ms = s4.dynasty.members@;
    proof {
        lemma_no_member_survives_the_cap(s0.dynasty.members@, s0.rolls, data.config.mortality, max_age);
        lemma_no_officer_survives_the_cap(s0.crew@, r1, data.config.mortality, max_age);
    }
    let ghost h = heir_in(ms, s0.dynasty.designated_heir, data.config);

    let leader = sim.dynasty.leader_index();
    let leader_gone = leader.is_none();
    let leader_retired = match leader {
        Some(li) => sim.dynasty.members[li].age > data.config.leader_retirement_age,
        None => false,
    };
    if leader_gone || (leader_retired && eligible_heir_exists(&sim.dynasty, &data.config)) {
        proof {
            lemma_heir_of(sim.dynasty, data.config);
        }
        let (new_leader, _) = install_successor(&mut sim.dynasty, &data.config);
        proof {
            assert(sim.dynasty.members@ =~= crowned(ms, h));
        }
        match new_leader {
            Some(name) => {
                let idx = sim.dynasty.next_member_id as usize;
                match line_with_name(&data.config.flavor.succession, idx, name.as_str()) {
                    Some(line) => {
                        sim.push_log(line);
                        proof {
                            assert(sim.log@[s4.log.len() as int].text@ == pooled_line(
                                data.config.flavor.succession@,
                                s0.dynasty.next_member_id as nat,
                                ms[h.unwrap()].name@,
                            ).unwrap());
                        }
                    },
                    None => {},
                }
            },
            None => {},
        }
    }
    let ghost s5 = *sim;
    proof {
        assert(s5.log@.subrange(0, s4.log.len() as int) =~= s4.log@);
        assert(succession_due(ms, *data) == (leader_gone || (leader_retired && crate::succession::heir_ready(s4.dynasty, data.config))));
    }
    if sim.dynasty.members.len() == 0 && !sim.dynasty.extinct {
        sim.dynasty.extinct = true;
        let line = match line_with_name(&data.config.flavor.extinction, 0, "") {
            Some(l) => l,
            None => "The dynasty has no heirs. The line ends here.".to_owned(),
        };
        sim.push_log(line);
    }
    proof {
        assert(sim.log@.subrange(0, s5.log.len() as int) =~= s5.log@);
        assert forall|j: int| 0 <= j < s4.log.len() implies #[trigger] sim.log@[j] == s4.log@[j] by {
            assert(sim.log@[j] == s5.log@[j]);
            assert(s5.log@[j] == s4.log@[j]);
        }
        assert(sim.log@.subrange(0, s0.log.len() as int) =~= s0.log@) by {
            assert(s4.log@.subrange(0, s0.log.len() as int) =~= s0.log@) by {
                assert(s3.log@.subrange(0, s2.log.len() as int) == s2.log@);
                assert(s4.log@.subrange(0, s3.log.len() as int) == s3.log@);
            }
        }
        assert(s2.log == s0.log);
        assert forall|k: int| 0 <= k < dead.len() implies (#[trigger] sim.log@[s0.log.len() + k]).text@
            == obituary_line(*data, dead@[k]) by {
            assert(sim.log@[s0.log.len() + k] == s4.log@[s0.log.len() + k]);
            assert(s4.log@.subrange(0, s3.log.len() as int) == s3.log@);
            assert(s4.log@[s2.log.len() + k] == s3.log@[s2.log.len() + k]);
        }
        assert forall|k: int| 0 <= k < crew_dead.len() implies (#[trigger] sim.log@[s0.log.len() + dead.len()
            + k]).text@ == officer_death_line(*data, crew_dead@[k]) by {
            assert(sim.log@[s3.log.len() + k] == s4.log@[s3.log.len() + k]);
        }
    }
    sim.dynasty.extinct
}

/// The renewal of the line over `slots` open places: each place rolls once
/// against the birth chance; a birth takes three more draws (age, name,
/// leadership). Returns (births, tape after).
pub open spec fn renewal(r: Rolls, chance: int, slots: nat) -> (nat, Rolls)
    decreases slots,
{
    if slots == 0 {
        (0, r)
    } else {
        let (b, r1) = renewal(r, chance, (slots - 1) as nat);
        if r1.chance_value(chance) {
            ((b + 1) as nat, r1.advanced_by(4))
        } else {
            (b, r1.advanced())
        }
    }
}

/// Officers still serving after a birthday: those not past `retirement`.
pub open spec fn still_serving(cs: Seq<CrewMember>, retirement: u32) -> Seq<CrewMember>
    decreases cs.len(),
{
    if cs.len() == 0 {
        Seq::empty()
    } else {
        let prev = still_serving(cs.drop_last(), retirement);
        if cs.last().age > retirement {
            prev
        } else {
            prev.push(cs.last())
        }
    }
}

/// How many officers stand down at `retirement`.
pub open spec fn retiring(cs: Seq<CrewMember>, retirement: u32) -> nat {
    retired_of(cs, retirement).len()
}

/// Officers standing down after a birthday: those past `retirement`, in order.
pub open spec fn retired_of(cs: Seq<CrewMember>, retirement: u32) -> Seq<CrewMember>
    decreases cs.len(),
{
    if cs.len() == 0 {
        Seq::empty()
    } else {
        let prev = retired_of(cs.drop_last(), retirement);
        if cs.last().age > retirement {
            prev.push(cs.last())
        } else {
            prev
        }
    }
}

/// The line an officer standing down is logged with.
pub open spec fn retirement_line(data: GameData, c: CrewMember) -> Seq<char> {
    match pooled_line(data.config.flavor.retirement@, c.id as nat, c.name@) {
        Some(l) => l,
        None => c.name@ + " stood down as "@ + post_of(data, c.archetype_id@) + "."@,
    }
}

/// Every officer a year older.
pub open spec fn aged_crew(cs: Seq<CrewMember>) -> Seq<CrewMember> {
    Seq::new(cs.len(), |i: int| CrewMember { age: bump(cs[i].age), ..cs[i] })
}

/// Whether the line renews this year: at least two to carry it on and
/// fewer than the target size.
pub open spec fn renews(sim: SimState, data: GameData) -> bool {
    2 <= sim.dynasty.members.len() < data.config.mortality.dynasty_target_size
}

/// Draw a young adult who comes of age into the line: the next id, a name
/// from the pool (one draw), and a leadership score in 1..=10 (one draw).
fn generate_member(data: &GameData, age: u32, rolls: &mut Rolls, next_id: &mut u32) -> (m: DynastyMember)
    ensures
        m.id == *old(next_id),
        *final(next_id) == bump(*old(next_id)),
        m.age == age,
        !m.is_leader,
        1 <= m.leadership <= 10,
        *final(rolls) == old(rolls).advanced_by(2),
{
    proof {
        reveal_strlit("Unnamed");
        crate::market::lemma_advanced_by_succ(*old(rolls), 1);
        assert(old(rolls).advanced_by(1) == old(rolls).advanced().advanced_by(0));
    }
    let k = rolls.below(data.member_names.len());
    let name = if data.member_names.len() > 0 {
        data.member_names[k].clone()
    } else {
        "Unnamed".to_owned()
    };
    let leadership = 1 + rolls.below(10) as u32;
    let id = *next_id;
    *next_id = id.saturating_add(1);
    DynastyMember { id, name, age, leadership, is_leader: false }
}

/// What the shared birthday does (see [`annual_aging`]): every member a
/// year older and the newborn of a renewing line appended, its births
/// tallied and its draws taken; officers a year older and those past
/// retirement gone, each departure logged; nothing else changed.
pub open spec fn aged(s0: SimState, data: GameData, s1: SimState) -> bool {
    let n0 = s0.dynasty.members.len();
    let slots = (data.config.mortality.dynasty_target_size - n0) as nat;
    let (born, r) = renewal(s0.rolls, data.config.mortality.annual_birth_chance as int, slots);
    let born_now: nat = if renews(s0, data) {
        born
    } else {
        0
    };
    &&& s1.dynasty.members.len() == n0 + born_now
    &&& forall|j: int| 0 <= j < n0 ==> {
        let m = #[trigger] s1.dynasty.members@[j];
        let o = s0.dynasty.members@[j];
        m == (DynastyMember { age: bump(o.age), ..o })
    }
    &&& forall|j: int| n0 <= j < s1.dynasty.members.len() ==> {
        let m = #[trigger] s1.dynasty.members@[j];
        &&& !m.is_leader && 16 <= m.age <= 25 && 1 <= m.leadership <= 10
        &&& m.id == crate::fixed::clamp(s0.dynasty.next_member_id + (j - n0), 0, u32::MAX as int)
    }
    &&& s1.dynasty.next_member_id == crate::fixed::clamp(s0.dynasty.next_member_id + born_now, 0, u32::MAX as int)
    &&& s1.dynasty.births_this_generation == crate::fixed::clamp(s0.dynasty.births_this_generation + born_now, 0, u32::MAX as int)
    &&& s1.rolls == (if renews(s0, data) {
        r
    } else {
        s0.rolls
    })
    &&& s1.crew@ == still_serving(aged_crew(s0.crew@), data.config.crew.retirement_age)
    &&& s1.log.len() == s0.log.len() + retiring(
        aged_crew(s0.crew@),
        data.config.crew.retirement_age,
    )
    &&& s1.log@.subrange(0, s0.log.len() as int) == s0.log@
    &&& forall|k: int|
        0 <= k < retiring(aged_crew(s0.crew@), data.config.crew.retirement_age) ==> (#[trigger] s1.log@[s0.log.len()
            + k]).text@ == retirement_line(
            data,
            retired_of(aged_crew(s0.crew@), data.config.crew.retirement_age)[k],
        )
    &&& s1.dynasty == (Dynasty {
        members: s1.dynasty.members,
        births_this_generation: s1.dynasty.births_this_generation,
        next_member_id: s1.dynasty.next_member_id,
        ..s0.dynasty
    })
    &&& s1 == (SimState { dynasty: s1.dynasty, crew: s1.crew, log: s1.log, rolls: s1.rolls, ..s0 })
}

/// The shared birthday on each year boundary: every member and officer
/// gains a year; officers past retirement stand down (each departure
/// logged); and a line of at least two below its target size renews, each
/// open place rolling once for a young adult (aged 16 to 25) coming of age.
pub fn annual_aging(sim: &mut SimState, data: &GameData)
    requires
        old(sim).wf(),
        data.config.wf(),
    ensures
        aged(*old(sim), *data, *final(sim)),
        final(sim).wf(),
{
    proof {
        reveal_strlit(" stood down as ");
        reveal_strlit(".");
    }
    let ghost s0 = *sim;
    let n = sim.dynasty.members.len();
    let mut i: usize = 0;
    while i < n
        invariant
            i <= n == s0.dynasty.members.len(),
            sim.dynasty.members.len() == n,
            forall|j: int| 0 <= j < i ==> #[trigger] sim.dynasty.members@[j] == (DynastyMember {
                age: bump(s0.dynasty.members@[j].age),
                ..s0.dynasty.members@[j]
            }),
            forall|j: int| i <= j < n ==> #[trigger] sim.dynasty.members@[j] == s0.dynasty.members@[j],
            *sim == (SimState { dynasty: crate::state::Dynasty { members: sim.dynasty.members, ..s0.dynasty }, ..s0 }),
        decreases n - i,
    {
        let a = sim.dynasty.members[i].age;
        sim.dynasty.members[i].age = a.saturating_add(1);
        i = i + 1;
    }
    let ghost s1 = *sim;
    let ghost aged = aged_crew(s0.crew@);
    let mut i: usize = 0;
    while i < sim.crew.len()
        invariant
            i <= sim.crew.len() == s0.crew.len(),
            forall|j: int| 0 <= j < i ==> #[trigger] sim.crew@[j] == aged[j],
            forall|j: int| i <= j < s0.crew.len() ==> #[trigger] sim.crew@[j] == s0.crew@[j],
            aged == aged_crew(s0.crew@),
            *sim == (SimState { crew: sim.crew, ..s1 }),
        decreases sim.crew.len() - i,
    {
        let a = sim.crew[i].age;
        sim.crew[i].age = a.saturating_add(1);
        i = i + 1;
    }
    assert(sim.crew@ =~= aged);
    let ghost s2 = *sim;
    let retirement = data.config.crew.retirement_age;
    let mut serving: Vec<CrewMember> = Vec::new();
    let mut retired: Vec<CrewMember> = Vec::new();
    let mut i: usize = 0;
    while i < sim.crew.len()
        invariant
            i <= sim.crew.len(),
            sim.crew@ == aged,
            serving@ == still_serving(aged.subrange(0, i as int), retirement),
            retired@ == retired_of(aged.subrange(0, i as int), retirement),
            *sim == s2,
        decreases sim.crew.len() - i,
    {
        proof {
            assert(aged.subrange(0, i + 1).drop_last() =~= aged.subrange(0, i as int));
        }
        let c = copy_officer(&sim.crew[i]);
        if c.age > retirement {
            retired.push(c);
        } else {
            serving.push(c);
        }
        i = i + 1;
    }
    proof {
        assert(aged.subrange(0, aged.len() as int) =~= aged);
    }
    sim.crew = serving;
    let ghost s3 = *sim;
    let mut k: usize = 0;
    while k < retired.len()
        invariant
            k <= retired.len(),
            sim.log.len() == s3.log.len() + k,
            sim.log@.subrange(0, s3.log.len() as int) == s3.log@,
            *sim == (SimState { log: sim.log, ..s3 }),
            forall|j: int|
                0 <= j < k ==> (#[trigger] sim.log@[s3.log.len() + j]).text@ == retirement_line(*data, retired@[j]),
        decreases retired.len() - k,
    {
        let ghost before = sim.log@;
        let officer = &retired[k];
        let post = post_name(data, officer.archetype_id.as_str());
        let line = match line_with_name(&data.config.flavor.retirement, officer.id as usize, officer.name.as_str()) {
            Some(l) => l,
            None => join4(officer.name.as_str(), " stood down as ", post, "."),
        };
        sim.push_log(line);
        proof {
            assert(sim.log@.subrange(0, s3.log.len() as int) =~= before.subrange(0, s3.log.len() as int));
            assert forall|j: int| 0 <= j < k + 1 implies (#[trigger] sim.log@[s3.log.len() + j]).text@
                == retirement_line(*data, retired@[j]) by {
                if j < k {
                    assert(sim.log@[s3.log.len() + j] == before[s3.log.len() + j]);
                }
            }
        }
        k = k + 1;
    }
    let ghost s4 = *sim;
    let cfg = &data.config.mortality;
    let count = sim.dynasty.members.len();
    if count >= 2 && count < cfg.dynasty_target_size as usize {
        let slots = cfg.dynasty_target_size - (count as u32);
        let mut born: u32 = 0;
        let mut slot: u32 = 0;
        while slot < slots
            invariant
                slot <= slots,
                slots == cfg.dynasty_target_size - count,
                count == s4.dynasty.members.len(),
                renewal(s4.rolls, cfg.annual_birth_chance as int, slot as nat) == (born as nat, sim.rolls),
                born <= slot,
                sim.dynasty.members.len() == count + born,
                forall|j: int| 0 <= j < count ==> #[trigger] sim.dynasty.members@[j] == s4.dynasty.members@[j],
                forall|j: int| count <= j < sim.dynasty.members.len() ==> {
                    let m = #[trigger] sim.dynasty.members@[j];
                    &&& !m.is_leader && 16 <= m.age <= 25 && 1 <= m.leadership <= 10
                    &&& m.id == crate::fixed::clamp(s4.dynasty.next_member_id + (j - count), 0, u32::MAX as int)
                },
                sim.dynasty.next_member_id == crate::fixed::clamp(s4.dynasty.next_member_id + born, 0, u32::MAX as int),
                *sim == (SimState {
                    rolls: sim.rolls,
                    dynasty: crate::state::Dynasty {
                        members: sim.dynasty.members,
                        next_member_id: sim.dynasty.next_member_id,
                        ..s4.dynasty
                    },
                    ..s4
                }),
            decreases slots - slot,
        {
            let ghost r0 = sim.rolls;
            if sim.rolls.chance(cfg.annual_birth_chance) {
                let age = 16 + sim.rolls.below(10) as u32;
                let member = generate_member(data, age, &mut sim.rolls, &mut sim.dynasty.next_member_id);
                sim.dynasty.members.push(member);
                born = born + 1;
                proof {
                    crate::market::lemma_advanced_by_succ(r0, 1);
                    crate::market::lemma_advanced_by_succ(r0, 2);
                    crate::market::lemma_advanced_by_succ(r0, 3);
                    assert(r0.advanced_by(1) == r0.advanced().advanced_by(0));
                    assert(r0.advanced().advanced().advanced_by(2) == r0.advanced_by(4)) by {
                        crate::market::lemma_advanced_by_succ(r0.advanced().advanced(), 0);
                        crate::market::lemma_advanced_by_succ(r0.advanced().advanced(), 1);
                        assert(r0.advanced().advanced().advanced_by(0) == r0.advanced().advanced());
                    }
                }
            }
            slot = slot + 1;
        }
        sim.dynasty.births_this_generation = sim.dynasty.births_this_generation.saturating_add(born);
    }
    proof {
        assert(s3.log@ == s0.log@);
    }
}

/// The indices of the first `n` members who do not lead, in order.
pub open spec fn non_leaders(ms: Seq<DynastyMember>, n: int) -> Seq<int>
    decreases n,
{
    if n <= 0 {
        Seq::empty()
    } else if !ms[n - 1].is_leader {
        non_leaders(ms, n - 1).push(n - 1)
    } else {
        non_leaders(ms, n - 1)
    }
}

proof fn lemma_non_leaders(ms: Seq<DynastyMember>, n: int)
    requires
        0 <= n <= ms.len(),
    ensures
        forall|k: int| 0 <= k < non_leaders(ms, n).len() ==> 0 <= #[trigger] non_leaders(ms, n)[k] < n
            && !ms[non_leaders(ms, n)[k]].is_leader,
    decreases n,
{
    if n > 0 {
        lemma_non_leaders(ms, n - 1);
        let prev = non_leaders(ms, n - 1);
        assert forall|k: int| 0 <= k < non_leaders(ms, n).len() implies 0 <= #[trigger] non_leaders(ms, n)[k] < n
            && !ms[non_leaders(ms, n)[k]].is_leader by {
            if k < prev.len() {
                assert(non_leaders(ms, n)[k] == prev[k]);
            }
        }
    }
}

/// What a loss of `lost` people does to the named characters: the crew,
/// the line, the tape after its draws, and how many lines are logged.
pub open spec fn claim(
    crew: Seq<CrewMember>,
    members: Seq<DynastyMember>,
    r0: Rolls,
    cfg: MortalityConfig,
    lost: u32,
) -> (Seq<CrewMember>, Seq<DynastyMember>, Rolls, int) {
    if lost < cfg.event_death_loss_threshold {
        (crew, members, r0, 0)
    } else if !r0.chance_value(cfg.event_death_chance as int) {
        (crew, members, r0.advanced(), 0)
    } else if crew.len() > 0 {
        (crew.remove(r0.advanced().below_value(crew.len() as nat) as int), members, r0.advanced().advanced(), 1)
    } else {
        let cands = non_leaders(members, members.len() as int);
        if cands.len() == 0 {
            (crew, members, r0.advanced(), 0)
        } else {
            (
                crew,
                members.remove(cands[r0.advanced().below_value(cands.len() as nat) as int]),
                r0.advanced().advanced(),
                1,
            )
        }
    }
}

/// An event's claim never takes the leader: the line it leaves is the line
/// it found, or that line less one member who does not lead; a line with a
/// head keeps one.
pub proof fn law_claim_spares_the_leader(
    crew: Seq<CrewMember>,
    members: Seq<DynastyMember>,
    r0: Rolls,
    cfg: MortalityConfig,
    lost: u32,
)
    ensures
        claim(crew, members, r0, cfg, lost).1 == members || exists|p: int|
            0 <= p < members.len() && !members[p].is_leader && #[trigger] members.remove(p) == claim(
                crew,
                members,
                r0,
                cfg,
                lost,
            ).1,
        leader_index(members) is Some ==> leader_index(claim(crew, members, r0, cfg, lost).1) is Some,
{
    let c = claim(crew, members, r0, cfg, lost);
    if c.1 != members {
        let cands = non_leaders(members, members.len() as int);
        lemma_non_leaders(members, members.len() as int);
        let x = r0.advanced().below_value(cands.len() as nat) as int;
        assert(0 <= x < cands.len());
        let p = cands[x];
        assert(c.1 == members.remove(p));
        assert(!members[p].is_leader);
        if leader_index(members) is Some {
            crate::state::lemma_leader_survives_removal(members, p);
        }
    }
}

/// A heavy population loss may also claim a named character. When the loss
/// meets the threshold, one draw against the event death chance; on a hit
/// an officer is lost if any serve (one draw picks which), else a member
/// who does not lead (one draw picks which). The leader is never taken here.
pub fn event_claim(sim: &mut SimState, data: &GameData, population_lost: u32)
    requires
        data.config.wf(),
    ensures
        ({
            let cfg = data.config.mortality;
            let r0 = old(sim).rolls;
            if population_lost < cfg.event_death_loss_threshold {
                *final(sim) == *old(sim)
            } else if !r0.chance_value(cfg.event_death_chance as int) {
                *final(sim) == (SimState { rolls: r0.advanced(), ..*old(sim) })
            } else if old(sim).crew.len() > 0 {
                let idx = r0.advanced().below_value(old(sim).crew.len() as nat) as int;
                &&& final(sim).crew@ == old(sim).crew@.remove(idx)
                &&& final(sim).rolls == r0.advanced().advanced()
                &&& final(sim).log.len() == old(sim).log.len() + 1
                &&& *final(sim) == (SimState { crew: final(sim).crew, rolls: final(sim).rolls, log: final(sim).log, ..*old(sim) })
            } else {
                let cands = non_leaders(old(sim).dynasty.members@, old(sim).dynasty.members.len() as int);
                if cands.len() == 0 {
                    *final(sim) == (SimState { rolls: r0.advanced(), ..*old(sim) })
                } else {
                    let pick = cands[r0.advanced().below_value(cands.len() as nat) as int];
                    &&& final(sim).dynasty.members@ == old(sim).dynasty.members@.remove(pick)
                    &&& final(sim).rolls == r0.advanced().advanced()
                    &&& final(sim).log.len() == old(sim).log.len() + 1
                    &&& *final(sim) == (SimState {
                        dynasty: crate::state::Dynasty { members: final(sim).dynasty.members, ..old(sim).dynasty },
                        rolls: final(sim).rolls,
                        log: final(sim).log,
                        ..*old(sim)
                    })
                }
            }
        }),
        old(sim).wf() ==> final(sim).wf(),
        ({
            let c = claim(
                old(sim).crew@,
                old(sim).dynasty.members@,
                old(sim).rolls,
                data.config.mortality,
                population_lost,
            );
            &&& final(sim).crew@ == c.0
            &&& final(sim).dynasty.members@ == c.1
            &&& final(sim).rolls == c.2
            &&& final(sim).log.len() == old(sim).log.len() + c.3
            &&& final(sim).log@.subrange(0, old(sim).log.len() as int) == old(sim).log@
            &&& *final(sim) == (SimState {
                crew: final(sim).crew,
                dynasty: crate::state::Dynasty { members: final(sim).dynasty.members, ..old(sim).dynasty },
                rolls: final(sim).rolls,
                log: final(sim).log,
                ..*old(sim)
            })
        }),
{
    proof {
        reveal_strlit(", the ship's ");
        reveal_strlit(", was among the lost.");
        reveal_strlit(" was lost with the others — a name struck from the register.");
    }
    let cfg = &data.config.mortality;
    if population_lost < cfg.event_death_loss_threshold {
        return;
    }
    if !sim.rolls.chance(cfg.event_death_chance) {
        return;
    }
    if sim.crew.len() > 0 {
        let idx = sim.rolls.below(sim.crew.len());
        let officer = sim.crew.remove(idx);
        let post = post_name(data, officer.archetype_id.as_str());
        let head = join3(officer.name.as_str(), ", the ship's ", post);
        sim.push_log(join2(head.as_str(), ", was among the lost."));
        return;
    }
    let ghost ms = sim.dynasty.members@;
    let mut candidates: Vec<usize> = Vec::new();
    let mut i: usize = 0;
    while i < sim.dynasty.members.len()
        invariant
            i <= sim.dynasty.members.len(),
            sim.dynasty.members@ == ms,
            candidates.len() == non_leaders(ms, i as int).len(),
            forall|k: int| 0 <= k < candidates.len() ==> #[trigger] candidates@[k] as int == non_leaders(ms, i as int)[k],
        decreases sim.dynasty.members.len() - i,
    {
        if !sim.dynasty.members[i].is_leader {
            candidates.push(i);
        }
        i = i + 1;
    }
    proof {
        lemma_non_leaders(ms, ms.len() as int);
    }
    if candidates.len() > 0 {
        let k = sim.rolls.below(candidates.len());
        let pick = candidates[k];
        let member = sim.dynasty.members.remove(pick);
        sim.push_log(join2(member.name.as_str(), " was lost with the others — a name struck from the register."));
    }
}

} // verus!
