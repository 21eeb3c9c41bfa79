//! Component value types and their well-formedness predicates.
//!
//! Each component is a small record attached to at most one entity of each
//! kind. Tag components (player, monster, item, consumable, blocks-tile)
//! carry no data and are stored as boolean flags in the world, so they have
//! no struct here.

use vstd::prelude::*;

verus! {

/// Upper bound on `max_hp` kept by every well-formed `CombatStats`.
pub const HP_BOUND: i32 = 100_000;

/// Upper bound on any single heal or damage amount.
pub const AMOUNT_BOUND: i32 = 100_000;

/// Upper bound on an area-of-effect radius or a ranged-item range.
pub const RADIUS_BOUND: i32 = 1024;

/// Upper bound on map width and height.
pub const DIM_BOUND: i32 = 4096;

/// Most pending damage entries one accumulator holds; later sources in the
/// same turn are dropped once the queue is full.
pub const DMG_QUEUE_BOUND: usize = 64;

/// Lowest value `hp` can reach between the damage application and the death
/// sweep of the same pipeline pass (`1 - DMG_QUEUE_BOUND * AMOUNT_BOUND`).
pub const HP_FLOOR: i32 = -6_400_000;

/// A grid coordinate pair, used both for positions and for target points.
#[derive(Clone, Copy, PartialEq, Eq, Structural, Debug)]
pub struct Point {
    pub x: i32,
    pub y: i32,
}

/// Grid placement of an entity; absent means "not on the map".
#[derive(Clone, Copy, PartialEq, Eq, Structural, Debug)]
pub struct Position {
    pub x: i32,
    pub y: i32,
}

/// A color channel triple for the rendering layer.
#[derive(Clone, Copy, PartialEq, Eq, Structural, Debug)]
pub struct Rgb {
    pub r: u8,
    pub g: u8,
    pub b: u8,
}

/// What the rendering layer draws for an entity. The core only orders by
/// `render_order`; glyph and colors pass through untouched.
#[derive(Clone, Copy, PartialEq, Eq, Structural, Debug)]
pub struct Renderable {
    pub glyph: char,
    pub fg: Rgb,
    pub bg: Rgb,
    pub render_order: i32,
}

/// Display label of an entity.
#[derive(Clone, Debug)]
pub struct Name {
    pub name: String,
}

/// Hit points and melee stats. `hp` never exceeds `max_hp`; it may go at or
/// below zero only between damage application and the death sweep.
#[derive(Clone, Copy, PartialEq, Eq, Structural, Debug)]
pub struct CombatStats {
    pub max_hp: i32,
    pub hp: i32,
    pub defense: i32,
    pub power: i32,
}

/// Tiles an entity can currently see, with its sight range. Filled by the
/// outside visibility pass; the core only reads `visible_tiles`.
#[derive(Clone, Debug)]
pub struct Viewshed {
    pub visible_tiles: Vec<Point>,
    pub range: i32,
    pub dirty: bool,
}

/// Marks an item as held by `owner`; mutually exclusive with `Position`.
#[derive(Clone, Copy, PartialEq, Eq, Structural, Debug)]
pub struct InBackpack {
    pub owner: usize,
}

/// Effect descriptor: using the item heals `heal_amount`, clamped to max hp.
#[derive(Clone, Copy, PartialEq, Eq, Structural, Debug)]
pub struct ProvidesHealing {
    pub heal_amount: i32,
}

/// Effect descriptor: using the item queues `damage` on each target.
#[derive(Clone, Copy, PartialEq, Eq, Structural, Debug)]
pub struct InflictDamage {
    pub damage: i32,
}

/// Effect descriptor: the item affects every tile within `radius` of the
/// target point.
#[derive(Clone, Copy, PartialEq, Eq, Structural, Debug)]
pub struct AreaOfEffect {
    pub radius: i32,
}

/// Effect descriptor: the item is thrown or fired up to `range` tiles.
#[derive(Clone, Copy, PartialEq, Eq, Structural, Debug)]
pub struct Ranged {
    pub range: i32,
}

/// One-turn intent: `collected_by` wants to pick `item` up off the map.
#[derive(Clone, Copy, PartialEq, Eq, Structural, Debug)]
pub struct WantsToPickupItem {
    pub collected_by: usize,
    pub item: usize,
}

/// One-turn intent: the owning entity wants to use `item`, aimed at `target`
/// (self-targeted when `None`).
#[derive(Clone, Copy, PartialEq, Eq, Structural, Debug)]
pub struct WantsToUse {
    pub item: usize,
    pub target: Option<Point>,
}

/// One-turn intent: the owning entity wants to drop `item` where it stands.
#[derive(Clone, Copy, PartialEq, Eq, Structural, Debug)]
pub struct WantsToDrop {
    pub item: usize,
}

/// One-turn intent: the owning entity wants to strike `target` in melee.
#[derive(Clone, Copy, PartialEq, Eq, Structural, Debug)]
pub struct WantsToMelee {
    pub target: usize,
}

/// Pending damage accumulator: every source in a turn appends here; the
/// damage system applies the sum and clears it.
#[derive(Clone, Debug)]
pub struct SufferDamage {
    pub amounts: Vec<i32>,
}

pub open spec fn stats_wf(s: CombatStats) -> bool {
    &&& 1 <= s.max_hp <= HP_BOUND
    &&& HP_FLOOR <= s.hp <= s.max_hp
    &&& 0 <= s.defense <= AMOUNT_BOUND
    &&& 0 <= s.power <= AMOUNT_BOUND
}

pub open spec fn healing_wf(h: ProvidesHealing) -> bool {
    0 <= h.heal_amount <= AMOUNT_BOUND
}

pub open spec fn damage_wf(d: InflictDamage) -> bool {
    0 <= d.damage <= AMOUNT_BOUND
}

pub open spec fn aoe_wf(a: AreaOfEffect) -> bool {
    0 <= a.radius <= RADIUS_BOUND
}

pub open spec fn ranged_wf(r: Ranged) -> bool {
    0 <= r.range <= RADIUS_BOUND
}

pub open spec fn suffer_wf(s: SufferDamage) -> bool {
    &&& s.amounts@.len() <= DMG_QUEUE_BOUND
    &&& forall|i: int| 0 <= i < s.amounts@.len() ==> 0 <= #[trigger] s.amounts@[i] <= AMOUNT_BOUND
}

/// Mathematical sum of a damage queue.
pub open spec fn sum_of(amounts: Seq<i32>) -> int
    decreases amounts.len(),
{
    if amounts.len() == 0 {
        0
    } else {
        sum_of(amounts.drop_last()) + amounts.last()
    }
}

/// The sum of a well-formed damage queue is bounded by the queue cap times
/// the per-entry bound.
pub proof fn lemma_sum_of_bounds(amounts: Seq<i32>)
    requires
        amounts.len() <= DMG_QUEUE_BOUND,
        forall|i: int| 0 <= i < amounts.len() ==> 0 <= #[trigger] amounts[i] <= AMOUNT_BOUND,
    ensures
        0 <= sum_of(amounts) <= amounts.len() * AMOUNT_BOUND,
    decreases amounts.len(),
{
    if amounts.len() > 0 {
        lemma_sum_of_bounds(amounts.drop_last());
        assert((amounts.len() - 1) * AMOUNT_BOUND + AMOUNT_BOUND == amounts.len() * AMOUNT_BOUND)
            by (nonlinear_arith);
    }
}

} // verus!
