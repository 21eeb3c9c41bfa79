//! Combat resolution: melee intents queue damage, the damage system applies
//! the queued sums, and the death sweep removes entities at or below zero
//! hit points together with consumed items.

use vstd::prelude::*;
use crate::components::{sum_of, AMOUNT_BOUND, DMG_QUEUE_BOUND, HP_FLOOR};
use crate::components::CombatStats;
use crate::world::{spec_damage_queue, World};

verus! {

/// One landed blow: who is struck and for how much.
#[derive(Clone, Copy, PartialEq, Eq, Structural, Debug)]
pub struct MeleeHit {
    pub target: usize,
    pub damage: i32,
}

/// The blow attacker `a` lands this pass: its target and damage, or nothing
/// when the attacker or target is unfit (no intent, no stats, already dead,
/// or the defense absorbs the blow). A malformed intent is skipped.
pub open spec fn melee_hit(w: World, a: int) -> Option<MeleeHit> {
    if 0 <= a < w.n() && w.wants_to_melee@[a] is Some && w.alive@[a] && w.names@[a] is Some
        && w.combat_stats@[a] is Some && w.combat_stats@[a]->0.hp > 0 {
        let t = w.wants_to_melee@[a]->0.target;
        if 0 <= t < w.n() && w.combat_stats@[t as int] is Some && w.combat_stats@[t as int]->0.hp
            > 0 && w.combat_stats@[a]->0.power - w.combat_stats@[t as int]->0.defense > 0 {
            Some(
                MeleeHit {
                    target: t,
                    damage: (w.combat_stats@[a]->0.power - w.combat_stats@[t as int]->0.defense)
                        as i32,
                },
            )
        } else {
            None
        }
    } else {
        None
    }
}

/// Some attacker among the first `k` lands a blow on `e`.
pub open spec fn melee_touched_upto(w: World, k: int, e: int) -> bool {
    exists|a: int| 0 <= a < k && (#[trigger] melee_hit(w, a)) is Some && melee_hit(w, a)->0.target == e
}

/// The damage queue of entity `e` after the first `k` attackers strike, in
/// attacker order, dropping entries once the queue cap is reached.
pub open spec fn melee_queue_upto(w: World, k: int, e: int) -> Seq<i32>
    decreases k,
{
    if k <= 0 {
        if w.suffer_damage@[e] is Some {
            w.suffer_damage@[e]->0.amounts@
        } else {
            Seq::empty()
        }
    } else {
        let q = melee_queue_upto(w, k - 1, e);
        if melee_hit(w, k - 1) is Some && melee_hit(w, k - 1)->0.target == e {
            if q.len() < DMG_QUEUE_BOUND {
                q.push(melee_hit(w, k - 1)->0.damage)
            } else {
                q
            }
        } else {
            q
        }
    }
}

/// Turns every pending melee intent into queued damage on its target:
/// damage is the attacker's power less the defender's defense, queued only
/// when positive and when both sides are alive with positive hit points.
/// Clears all melee intents.
pub struct MeleeCombatSystem {}

impl MeleeCombatSystem {
    pub fn run(world: &mut World)
        requires
            old(world).wf(),
        ensures
            final(world).wf(),
            final(world).n() == old(world).n(),
            *final(world) == (World {
                suffer_damage: final(world).suffer_damage,
                wants_to_melee: final(world).wants_to_melee,
                ..*old(world)
            }),
            forall|a: int| 0 <= a < final(world).n()
                ==> (#[trigger] final(world).wants_to_melee@[a]) is None,
            forall|e: int| 0 <= e < old(world).n()
                ==> ((#[trigger] final(world).suffer_damage@[e]) is Some <==> (old(
                world,
                ).suffer_damage@[e] is Some || melee_touched_upto(
                    *old(world),
                    old(world).n(),
                    e,
                ))),
            forall|e: int| 0 <= e < old(world).n() && (#[trigger] final(world).suffer_damage@[e]) is Some
                ==> final(world).suffer_damage@[e]->0.amounts@ == melee_queue_upto(
                    *old(world),
                    old(world).n(),
                    e,
                ),
    {
        let ghost w0 = *old(world);
        let n = world.alive.len();
        let mut a: usize = 0;
        while a < n
            invariant
                world.wf(),
                world.n() == w0.n(),
                n == w0.n(),
                0 <= a <= n,
                *world == (World {
                    suffer_damage: world.suffer_damage,
                    wants_to_melee: world.wants_to_melee,
                    ..w0
                }),
                forall|b: int| 0 <= b < a ==> (#[trigger] world.wants_to_melee@[b]) is None,
                forall|b: int| a <= b < n
                    ==> (#[trigger] world.wants_to_melee@[b]) == w0.wants_to_melee@[b],
                forall|e: int| 0 <= e < n ==> ((#[trigger] world.suffer_damage@[e]) is Some <==> (
                w0.suffer_damage@[e] is Some || melee_touched_upto(w0, a as int, e))),
                forall|e: int| 0 <= e < n && (#[trigger] world.suffer_damage@[e]) is Some
                    ==> world.suffer_damage@[e]->0.amounts@ == melee_queue_upto(w0, a as int, e),
            decreases n - a,
        {
            let intent = world.wants_to_melee[a];
            world.wants_to_melee[a] = None;
            let ghost wk = *world;
            if let Some(m) = intent {
                let mut hit: Option<MeleeHit> = None;
                if world.alive[a] && world.names[a].is_some() {
                    if let Some(astats) = world.combat_stats[a] {
                        if astats.hp > 0 && m.target < n {
                            if let Some(tstats) = world.combat_stats[m.target] {
                                if tstats.hp > 0 && astats.power - tstats.defense > 0 {
                                    hit = Some(
                                        MeleeHit {
                                            target: m.target,
                                            damage: astats.power - tstats.defense,
                                        },
                                    );
                                }
                            }
                        }
                    }
                }
                proof {
                    match hit {
                        Some(h) => {
                            assert(melee_hit(w0, a as int) == Some(h));
                        },
                        None => {
                            assert(melee_hit(w0, a as int) is None);
                        },
                    }
                }
                if let Some(h) = hit {
                    proof {
                        if world.suffer_damage@[h.target as int] is None {
                            assert(!melee_touched_upto(w0, a as int, h.target as int));
                            lemma_melee_queue_untouched(w0, a as int, h.target as int);
                        }
                    }
                    world.new_damage(h.target, h.damage);
                }
            } else {
                proof {
                    assert(melee_hit(w0, a as int) is None);
                }
            }
            proof {
                assert forall|e: int| 0 <= e < n implies ((#[trigger] world.suffer_damage@[e]) is Some
                    <==> (w0.suffer_damage@[e] is Some || melee_touched_upto(w0, a + 1, e))) by {
                    if melee_touched_upto(w0, a + 1, e) && !melee_touched_upto(w0, a as int, e) {
                        let b = choose|b: int|
                            0 <= b < a + 1 && (#[trigger] melee_hit(w0, b)) is Some && melee_hit(
                                w0,
                                b,
                            )->0.target == e;
                        assert(b == a);
                    }
                    if melee_touched_upto(w0, a as int, e) {
                        assert(melee_touched_upto(w0, a + 1, e));
                    }
                    if melee_hit(w0, a as int) is Some && melee_hit(w0, a as int)->0.target
                        == e {
                        assert(melee_touched_upto(w0, a + 1, e));
                    }
                }
                assert forall|e: int|
                    0 <= e < n && (#[trigger] world.suffer_damage@[e]) is Some implies world.suffer_damage@[e]->0.amounts@
                    == melee_queue_upto(w0, a + 1, e) by {
                    if melee_hit(w0, a as int) is Some {
                        let t = melee_hit(w0, a as int)->0.target;
                        if e != t {
                            assert(world.suffer_damage@[e] == wk.suffer_damage@[e]);
                        }
                    } else {
                        assert(world.suffer_damage@[e] == wk.suffer_damage@[e]);
                    }
                }
            }
            a = a + 1;
        }
    }
}

/// Entity `e` is to be removed by the sweep: it is live and either doomed
/// (a consumed item) or at zero or fewer hit points.
pub open spec fn doomed_or_dead(w: World, e: int) -> bool {
    w.alive@[e] && (w.doomed@[e] || (w.combat_stats@[e] is Some && w.combat_stats@[e]->0.hp <= 0))
}

/// Applies each live fighter's queued damage as one summed hit-point loss,
/// then lets `delete_the_dead` sweep the casualties.
pub struct DamageSystem {}

impl DamageSystem {
    /// Subtracts the sum of every pending damage queue from its owner's hit
    /// points and clears all queues.
    pub fn run(world: &mut World)
        requires
            old(world).wf(),
            old(world).settled(),
        ensures
            final(world).wf(),
            final(world).n() == old(world).n(),
            *final(world) == (World {
                combat_stats: final(world).combat_stats,
                suffer_damage: final(world).suffer_damage,
                ..*old(world)
            }),
            forall|e: int| 0 <= e < final(world).n()
                ==> (#[trigger] final(world).suffer_damage@[e]) is None,
            forall|e: int| 0 <= e < old(world).n() ==> final(world).combat_stats@[e] == (if old(
                world,
            ).alive@[e] && old(world).combat_stats@[e] is Some && old(world).suffer_damage@[e] is Some {
                Some(
                    CombatStats {
                        hp: (old(world).combat_stats@[e]->0.hp - sum_of(
                            old(world).suffer_damage@[e]->0.amounts@,
                        )) as i32,
                        ..old(world).combat_stats@[e]->0
                    },
                )
            } else {
                old(world).combat_stats@[e]
            }),
    {
        let ghost w0 = *old(world);
        let n = world.alive.len();
        let mut e: usize = 0;
        while e < n
            invariant
                world.wf(),
                world.n() == w0.n(),
                n == w0.n(),
                0 <= e <= n,
                w0.settled(),
                *world == (World {
                    combat_stats: world.combat_stats,
                    suffer_damage: world.suffer_damage,
                    ..w0
                }),
                forall|j: int| 0 <= j < e ==> (#[trigger] world.suffer_damage@[j]) is None,
                forall|j: int| e <= j < n
                    ==> (#[trigger] world.suffer_damage@[j]) == w0.suffer_damage@[j],
                forall|j: int| e <= j < n
                    ==> (#[trigger] world.combat_stats@[j]) == w0.combat_stats@[j],
                forall|j: int| 0 <= j < e ==> world.combat_stats@[j] == (if w0.alive@[j]
                    && w0.combat_stats@[j] is Some && (#[trigger] w0.suffer_damage@[j]) is Some {
                    Some(
                        CombatStats {
                            hp: (w0.combat_stats@[j]->0.hp - sum_of(
                                w0.suffer_damage@[j]->0.amounts@,
                            )) as i32,
                            ..w0.combat_stats@[j]->0
                        },
                    )
                } else {
                    w0.combat_stats@[j]
                }),
            decreases n - e,
        {
            let mut pending: Option<i32> = None;
            if world.alive[e] && world.combat_stats[e].is_some() {
                if let Some(sd) = &world.suffer_damage[e] {
                    let ghost amounts = sd.amounts@;
                    let len = sd.amounts.len();
                    let mut sum: i32 = 0;
                    let mut j: usize = 0;
                    while j < len
                        invariant
                            len == amounts.len(),
                            0 <= j <= len,
                            len <= DMG_QUEUE_BOUND,
                            forall|i: int| 0 <= i < len ==> 0 <= #[trigger] amounts[i]
                                <= AMOUNT_BOUND,
                            sd.amounts@ == amounts,
                            sum == sum_of(amounts.subrange(0, j as int)),
                            0 <= sum <= j * AMOUNT_BOUND,
                        decreases len - j,
                    {
                        proof {
                            assert(amounts.subrange(0, j + 1).drop_last() =~= amounts.subrange(
                                0,
                                j as int,
                            ));
                            assert(amounts.subrange(0, j + 1).last() == amounts[j as int]);
                        }
                        sum = sum + sd.amounts[j];
                        j = j + 1;
                    }
                    proof {
                        assert(amounts.subrange(0, len as int) =~= amounts);
                    }
                    pending = Some(sum);
                }
            }
            if let Some(total) = pending {
                if let Some(s) = world.combat_stats[e] {
                    let updated = CombatStats {
                        max_hp: s.max_hp,
                        hp: s.hp - total,
                        defense: s.defense,
                        power: s.power,
                    };
                    world.combat_stats[e] = Some(updated);
                }
            }
            world.suffer_damage[e] = None;
            e = e + 1;
        }
    }

    /// The death sweep: removes every live entity that is doomed or at zero
    /// or fewer hit points, with all its components, atomically per entity.
    /// Afterwards every live fighter has positive hit points.
    #[verifier::loop_isolation(false)]
    pub fn delete_the_dead(world: &mut World)
        requires
            old(world).wf(),
        ensures
            final(world).wf(),
            final(world).n() == old(world).n(),
            final(world).settled(),
            forall|e: int| 0 <= e < old(world).n() && #[trigger] doomed_or_dead(*old(world), e)
                ==> {
                &&& !final(world).alive@[e]
                &&& !final(world).players@[e]
                &&& !final(world).monsters@[e]
                &&& !final(world).blocks_tile@[e]
                &&& final(world).positions@[e] is None
                &&& final(world).in_backpack@[e] is None
                &&& final(world).combat_stats@[e] is None
                &&& final(world).names@[e] is None
                &&& !final(world).items@[e]
                &&& !final(world).doomed@[e]
                &&& final(world).wants_to_pickup@[e] is None
                &&& final(world).wants_to_use@[e] is None
                &&& final(world).wants_to_drop@[e] is None
                &&& final(world).wants_to_melee@[e] is None
                &&& final(world).suffer_damage@[e] is None
            },
            forall|e: int|
                #![trigger doomed_or_dead(*old(world), e)]
                0 <= e < old(world).n() && !doomed_or_dead(*old(world), e) ==> {
                &&& final(world).alive@[e] == old(world).alive@[e]
                &&& final(world).doomed@[e] == old(world).doomed@[e]
                &&& final(world).positions@[e] == old(world).positions@[e]
                &&& final(world).renderables@[e] == old(world).renderables@[e]
                &&& final(world).players@[e] == old(world).players@[e]
                &&& final(world).monsters@[e] == old(world).monsters@[e]
                &&& final(world).names@[e] == old(world).names@[e]
                &&& final(world).blocks_tile@[e] == old(world).blocks_tile@[e]
                &&& final(world).combat_stats@[e] == old(world).combat_stats@[e]
                &&& final(world).viewsheds@[e] == old(world).viewsheds@[e]
                &&& final(world).items@[e] == old(world).items@[e]
                &&& final(world).consumables@[e] == old(world).consumables@[e]
                &&& final(world).provides_healing@[e] == old(world).provides_healing@[e]
                &&& final(world).inflict_damage@[e] == old(world).inflict_damage@[e]
                &&& final(world).ranged@[e] == old(world).ranged@[e]
                &&& final(world).area_of_effect@[e] == old(world).area_of_effect@[e]
                &&& final(world).in_backpack@[e] == old(world).in_backpack@[e]
                &&& final(world).wants_to_pickup@[e] == old(world).wants_to_pickup@[e]
                &&& final(world).wants_to_use@[e] == old(world).wants_to_use@[e]
                &&& final(world).wants_to_drop@[e] == old(world).wants_to_drop@[e]
                &&& final(world).wants_to_melee@[e] == old(world).wants_to_melee@[e]
                &&& final(world).suffer_damage@[e] == old(world).suffer_damage@[e]
            },
            old(world).items_placed() ==> final(world).items_placed(),
            old(world).intents_clear() ==> final(world).intents_clear(),
    {
        let ghost w0 = *old(world);
        let n = world.alive.len();
        let mut e: usize = 0;
        while e < n
            invariant
                world.wf(),
                world.n() == w0.n(),
                n == w0.n(),
                0 <= e <= n,
                forall|j: int| 0 <= j < e && doomed_or_dead(w0, j) ==> !(#[trigger] world.alive@[j]),
                forall|j: int| 0 <= j < e && doomed_or_dead(w0, j)
                    ==> !(#[trigger] world.players@[j]),
                forall|j: int| 0 <= j < e && doomed_or_dead(w0, j)
                    ==> !(#[trigger] world.monsters@[j]),
                forall|j: int| 0 <= j < e && doomed_or_dead(w0, j)
                    ==> !(#[trigger] world.blocks_tile@[j]),
                forall|j: int| 0 <= j < e && doomed_or_dead(w0, j)
                    ==> (#[trigger] world.positions@[j]) is None,
                forall|j: int| 0 <= j < e && doomed_or_dead(w0, j)
                    ==> (#[trigger] world.in_backpack@[j]) is None,
                forall|j: int| 0 <= j < e && doomed_or_dead(w0, j)
                    ==> (#[trigger] world.combat_stats@[j]) is None,
                forall|j: int| 0 <= j < e && doomed_or_dead(w0, j)
                    ==> (#[trigger] world.names@[j]) is None,
                forall|j: int| 0 <= j < e && doomed_or_dead(w0, j) ==> !(#[trigger] world.items@[j]),
                forall|j: int| 0 <= j < e && doomed_or_dead(w0, j)
                    ==> !(#[trigger] world.doomed@[j]),
                forall|j: int| 0 <= j < e && doomed_or_dead(w0, j)
                    ==> (#[trigger] world.wants_to_pickup@[j]) is None,
                forall|j: int| 0 <= j < e && doomed_or_dead(w0, j)
                    ==> (#[trigger] world.wants_to_use@[j]) is None,
                forall|j: int| 0 <= j < e && doomed_or_dead(w0, j)
                    ==> (#[trigger] world.wants_to_drop@[j]) is None,
                forall|j: int| 0 <= j < e && doomed_or_dead(w0, j)
                    ==> (#[trigger] world.wants_to_melee@[j]) is None,
                forall|j: int| 0 <= j < e && doomed_or_dead(w0, j)
                    ==> (#[trigger] world.suffer_damage@[j]) is None,
                forall|j: int| 0 <= j < n && !(0 <= j < e && doomed_or_dead(w0, j))
                    ==> (#[trigger] world.alive@[j]) == w0.alive@[j],
                forall|j: int| 0 <= j < n && !(0 <= j < e && doomed_or_dead(w0, j))
                    ==> (#[trigger] world.doomed@[j]) == w0.doomed@[j],
                forall|j: int| 0 <= j < n && !(0 <= j < e && doomed_or_dead(w0, j))
                    ==> (#[trigger] world.positions@[j]) == w0.positions@[j],
                forall|j: int| 0 <= j < n && !(0 <= j < e && doomed_or_dead(w0, j))
                    ==> (#[trigger] world.renderables@[j]) == w0.renderables@[j],
                forall|j: int| 0 <= j < n && !(0 <= j < e && doomed_or_dead(w0, j))
                    ==> (#[trigger] world.players@[j]) == w0.players@[j],
                forall|j: int| 0 <= j < n && !(0 <= j < e && doomed_or_dead(w0, j))
                    ==> (#[trigger] world.monsters@[j]) == w0.monsters@[j],
                forall|j: int| 0 <= j < n && !(0 <= j < e && doomed_or_dead(w0, j))
                    ==> (#[trigger] world.names@[j]) == w0.names@[j],
                forall|j: int| 0 <= j < n && !(0 <= j < e && doomed_or_dead(w0, j))
                    ==> (#[trigger] world.blocks_tile@[j]) == w0.blocks_tile@[j],
                forall|j: int| 0 <= j < n && !(0 <= j < e && doomed_or_dead(w0, j))
                    ==> (#[trigger] world.combat_stats@[j]) == w0.combat_stats@[j],
                forall|j: int| 0 <= j < n && !(0 <= j < e && doomed_or_dead(w0, j))
                    ==> (#[trigger] world.viewsheds@[j]) == w0.viewsheds@[j],
                forall|j: int| 0 <= j < n && !(0 <= j < e && doomed_or_dead(w0, j))
                    ==> (#[trigger] world.items@[j]) == w0.items@[j],
                forall|j: int| 0 <= j < n && !(0 <= j < e && doomed_or_dead(w0, j))
                    ==> (#[trigger] world.consumables@[j]) == w0.consumables@[j],
                forall|j: int| 0 <= j < n && !(0 <= j < e && doomed_or_dead(w0, j))
                    ==> (#[trigger] world.provides_healing@[j]) == w0.provides_healing@[j],
                forall|j: int| 0 <= j < n && !(0 <= j < e && doomed_or_dead(w0, j))
                    ==> (#[trigger] world.inflict_damage@[j]) == w0.inflict_damage@[j],
                forall|j: int| 0 <= j < n && !(0 <= j < e && doomed_or_dead(w0, j))
                    ==> (#[trigger] world.ranged@[j]) == w0.ranged@[j],
                forall|j: int| 0 <= j < n && !(0 <= j < e && doomed_or_dead(w0, j))
                    ==> (#[trigger] world.area_of_effect@[j]) == w0.area_of_effect@[j],
                forall|j: int| 0 <= j < n && !(0 <= j < e && doomed_or_dead(w0, j))
                    ==> (#[trigger] world.in_backpack@[j]) == w0.in_backpack@[j],
                forall|j: int| 0 <= j < n && !(0 <= j < e && doomed_or_dead(w0, j))
                    ==> (#[trigger] world.wants_to_pickup@[j]) == w0.wants_to_pickup@[j],
                forall|j: int| 0 <= j < n && !(0 <= j < e && doomed_or_dead(w0, j))
                    ==> (#[trigger] world.wants_to_use@[j]) == w0.wants_to_use@[j],
                forall|j: int| 0 <= j < n && !(0 <= j < e && doomed_or_dead(w0, j))
                    ==> (#[trigger] world.wants_to_drop@[j]) == w0.wants_to_drop@[j],
                forall|j: int| 0 <= j < n && !(0 <= j < e && doomed_or_dead(w0, j))
                    ==> (#[trigger] world.wants_to_melee@[j]) == w0.wants_to_melee@[j],
                forall|j: int| 0 <= j < n && !(0 <= j < e && doomed_or_dead(w0, j))
                    ==> (#[trigger] world.suffer_damage@[j]) == w0.suffer_damage@[j],
            decreases n - e,
        {
            let mut remove = false;
            if world.alive[e] {
                if world.doomed[e] {
                    remove = true;
                } else if let Some(s) = world.combat_stats[e] {
                    if s.hp <= 0 {
                        remove = true;
                    }
                }
            }
            proof {
                assert(remove == doomed_or_dead(w0, e as int));
            }
            if remove {
                world.remove_entity(e);
            }
            e = e + 1;
        }
        proof {
            assert forall|x: int|
                0 <= x < world.n() && world.alive@[x] && world.combat_stats@[x] is Some implies (
            #[trigger] world.combat_stats@[x])->0.hp >= 1 by {
                if doomed_or_dead(w0, x) {
                } else {
                    assert(world.combat_stats@[x] == w0.combat_stats@[x]);
                }
            }
            if w0.items_placed() {
                assert forall|x: int|
                    0 <= x < world.n() && world.alive@[x] && world.items@[x] implies ((
                #[trigger] world.positions@[x]) is Some) != (world.in_backpack@[x] is Some) by {
                    if doomed_or_dead(w0, x) {
                    } else {
                        assert(world.positions@[x] == w0.positions@[x]);
                    }
                }
            }
            if w0.intents_clear() {
                assert forall|x: int| 0 <= x < world.n() implies (
                #[trigger] world.wants_to_pickup@[x]) is None by {
                    if !doomed_or_dead(w0, x) {
                        assert(world.wants_to_pickup@[x] == w0.wants_to_pickup@[x]);
                    }
                }
                assert forall|x: int| 0 <= x < world.n() implies (
                #[trigger] world.wants_to_use@[x]) is None by {
                    if !doomed_or_dead(w0, x) {
                        assert(world.wants_to_use@[x] == w0.wants_to_use@[x]);
                    }
                }
                assert forall|x: int| 0 <= x < world.n() implies (
                #[trigger] world.wants_to_drop@[x]) is None by {
                    if !doomed_or_dead(w0, x) {
                        assert(world.wants_to_drop@[x] == w0.wants_to_drop@[x]);
                    }
                }
                assert forall|x: int| 0 <= x < world.n() implies (
                #[trigger] world.wants_to_melee@[x]) is None by {
                    if !doomed_or_dead(w0, x) {
                        assert(world.wants_to_melee@[x] == w0.wants_to_melee@[x]);
                    }
                }
            }
        }
    }
}

/// An untouched entity's melee queue is just its starting queue.
proof fn lemma_melee_queue_untouched(w: World, k: int, e: int)
    requires
        !melee_touched_upto(w, k, e),
    ensures
        melee_queue_upto(w, k, e) == (if w.suffer_damage@[e] is Some {
            w.suffer_damage@[e]->0.amounts@
        } else {
            Seq::<i32>::empty()
        }),
    decreases k,
{
    if k > 0 {
        if melee_hit(w, k - 1) is Some && melee_hit(w, k - 1)->0.target == e {
            assert(melee_touched_upto(w, k, e));
        }
        assert(!melee_touched_upto(w, k - 1, e)) by {
            if melee_touched_upto(w, k - 1, e) {
                let a = choose|a: int|
                    0 <= a < k - 1 && (#[trigger] melee_hit(w, a)) is Some && melee_hit(
                        w,
                        a,
                    )->0.target == e;
                assert(melee_touched_upto(w, k, e));
            }
        }
        lemma_melee_queue_untouched(w, k - 1, e);
    }
}

} // verus!
