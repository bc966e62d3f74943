//! Damage bookkeeping: taking hits, and deciding who has died.
use vstd::prelude::*;

verus! {

/// Applies the damage queued on each entity to its hit points.
pub struct DamageSystem {}

/// What the reaper needs to know of an entity with hit points.
#[derive(PartialEq, Eq, Structural, Copy, Clone, Debug)]
pub struct Combatant {
    pub entity: u32,
    pub hit_points: i32,
    pub is_player: bool,
}

/// Who died this turn: the entities to delete, in order, and whether the player fell.
pub struct DeathReport {
    pub dead: Vec<u32>,
    pub game_over: bool,
}

/// The total of a list of damage amounts.
pub open spec fn total_damage(amounts: Seq<i32>) -> int
    decreases amounts.len(),
{
    if amounts.len() == 0 {
        0
    } else {
        total_damage(amounts.drop_last()) + amounts.last()
    }
}

/// Every running total of the amounts fits in an `i32`, as summing them in one requires.
pub open spec fn sums_fit(amounts: Seq<i32>) -> bool {
    forall|k: int| 0 <= k <= amounts.len() ==> i32::MIN <= #[trigger] total_damage(amounts.take(k)) <= i32::MAX
}

/// Whether an entity with these hit points is dead.
pub open spec fn is_dead(c: Combatant) -> bool {
    c.hit_points < 1
}

/// The dead entities that are not the player, in order.
pub open spec fn dead_monsters(cs: Seq<Combatant>) -> Seq<u32>
    decreases cs.len(),
{
    if cs.len() == 0 {
        Seq::empty()
    } else {
        let last = cs.last();
        dead_monsters(cs.drop_last()) + if is_dead(last) && !last.is_player { seq![last.entity] } else { Seq::empty() }
    }
}

/// Hit points after every queued amount of damage: the current value minus their total.
pub fn apply_damage(current: i32, amounts: &Vec<i32>) -> (r: i32)
    requires
        sums_fit(amounts@),
        i32::MIN <= current - total_damage(amounts@) <= i32::MAX,
    ensures
        r == current - total_damage(amounts@),
{
    let mut sum: i32 = 0;
    let mut i: usize = 0;
    while i < amounts.len()
        invariant
            i <= amounts.len(),
            sums_fit(amounts@),
            sum == total_damage(amounts@.take(i as int)),
        decreases amounts.len() - i,
    {
        assert(amounts@.take(i + 1).drop_last() =~= amounts@.take(i as int));
        assert(i32::MIN <= total_damage(amounts@.take(i + 1)) <= i32::MAX);
        sum = sum + amounts[i];
        i = i + 1;
    }
    assert(amounts@.take(amounts.len() as int) =~= amounts@);
    current - sum
}

/// Sorts out the dead: every entity below one hit point is deleted, except the player,
/// whose death ends the game.
pub fn delete_the_dead(combatants: &Vec<Combatant>) -> (report: DeathReport)
    ensures
        report.dead@ == dead_monsters(combatants@),
        report.game_over == exists|k: int| 0 <= k < combatants.len()
            && is_dead(#[trigger] combatants@[k]) && combatants@[k].is_player,
{
    let mut dead: Vec<u32> = Vec::new();
    let mut game_over = false;
    let mut i: usize = 0;
    while i < combatants.len()
        invariant
            i <= combatants.len(),
            dead@ == dead_monsters(combatants@.take(i as int)),
            game_over == exists|k: int| 0 <= k < i && is_dead(#[trigger] combatants@[k]) && combatants@[k].is_player,
        decreases combatants.len() - i,
    {
        assert(combatants@.take(i + 1).drop_last() =~= combatants@.take(i as int));
        let c = combatants[i];
        if c.hit_points < 1 {
            if c.is_player {
                game_over = true;
            } else {
                dead.push(c.entity);
            }
        }
        assert(dead@ =~= dead_monsters(combatants@.take(i + 1)));
        i = i + 1;
    }
    assert(combatants@.take(combatants.len() as int) =~= combatants@);
    DeathReport { dead, game_over }
}

} // verus!
