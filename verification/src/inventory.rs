//! Item rules: healing, equipping, and when a used item is spent.
use vstd::prelude::*;
use crate::map::{GameMap, idx, in_grid, lemma_idx_in_bounds};

verus! {

/// Moves picked-up items into their collector's backpack.
pub struct ItemCollectionSystem {}

/// Puts dropped items on the ground at the dropper's feet.
pub struct ItemDropSystem {}

/// Moves unequipped items back into the backpack.
pub struct ItemRemoveSystem {}

/// Applies the effects of a used item.
pub struct ItemUseSystem {}

/// Where an equippable item is worn.
#[derive(PartialEq, Eq, Structural, Copy, Clone, Debug)]
pub enum EquipmentSlot {
    Melee,
    Shield,
    Head,
    Torso,
    Legs,
    Feet,
    Hands,
}

/// An equipped item: the item, who wears it, and in which slot.
#[derive(PartialEq, Eq, Structural, Copy, Clone, Debug)]
pub struct EquippedItem {
    pub item: u32,
    pub owner: u32,
    pub slot: EquipmentSlot,
}

/// The effects an item carries that decide whether using it spends it.
#[derive(PartialEq, Eq, Structural, Copy, Clone, Debug)]
pub struct ItemEffects {
    pub consumable: bool,
    pub heals: bool,
    pub damages: bool,
    pub confuses: bool,
}

/// The items worn by `owner` in `slot`, in order.
pub open spec fn worn_in_slot(eq: Seq<EquippedItem>, owner: u32, slot: EquipmentSlot) -> Seq<u32>
    decreases eq.len(),
{
    if eq.len() == 0 {
        Seq::empty()
    } else {
        let e = eq.last();
        worn_in_slot(eq.drop_last(), owner, slot) + if e.owner == owner && e.slot == slot { seq![e.item] } else { Seq::empty() }
    }
}

/// Whether using the item counts as used: an item that heals, damages or confuses is
/// used only when it reached at least one target.
pub open spec fn spec_item_used(fx: ItemEffects, n_targets: int) -> bool {
    !(fx.heals || fx.damages || fx.confuses) || n_targets > 0
}

/// Hit points after drinking a potion: raised by the amount, but never above the maximum.
pub fn heal(current: i32, max: i32, amount: i32) -> (r: i32)
    requires
        i32::MIN <= current + amount <= i32::MAX,
    ensures
        r == if current + amount < max { current + amount } else { max as int },
{
    let raised = current + amount;
    if raised < max { raised } else { max }
}

/// The items to take off before equipping into `slot`: those the target already wears there.
pub fn items_to_unequip(equipped: &Vec<EquippedItem>, target: u32, slot: EquipmentSlot) -> (r: Vec<u32>)
    ensures
        r@ == worn_in_slot(equipped@, target, slot),
{
    let mut r: Vec<u32> = Vec::new();
    let mut i: usize = 0;
    while i < equipped.len()
        invariant
            i <= equipped.len(),
            r@ == worn_in_slot(equipped@.take(i as int), target, slot),
        decreases equipped.len() - i,
    {
        assert(equipped@.take(i + 1).drop_last() =~= equipped@.take(i as int));
        let e = equipped[i];
        if e.owner == target && e.slot == slot {
            r.push(e.item);
        }
        assert(r@ =~= worn_in_slot(equipped@.take(i + 1), target, slot));
        i = i + 1;
    }
    assert(equipped@.take(equipped.len() as int) =~= equipped@);
    r
}

/// Whether the use of an item counts: food and equipment always do; healing, damage and
/// confusion only when they found a target.
pub fn item_used(fx: ItemEffects, n_targets: usize) -> (used: bool)
    ensures
        used == spec_item_used(fx, n_targets as int),
{
    let mut used_item = true;
    if fx.heals {
        used_item = n_targets > 0;
    }
    if fx.damages {
        used_item = n_targets > 0;
    }
    if fx.confuses {
        used_item = n_targets > 0;
    }
    used_item
}

/// Whether using the item deletes it: a consumable is spent when its use counted.
pub fn item_consumed(fx: ItemEffects, n_targets: usize) -> (spent: bool)
    ensures
        spent == (fx.consumable && spec_item_used(fx, n_targets as int)),
{
    item_used(fx, n_targets) && fx.consumable
}

/// What an item does when used.
#[derive(PartialEq, Eq, Structural, Copy, Clone, Debug)]
pub struct ItemUse {
    pub item: u32,
    pub equip_slot: Option<EquipmentSlot>,
    pub food: bool,
    pub heal_amount: Option<i32>,
    pub damage: Option<i32>,
    pub confusion_turns: Option<i32>,
    pub consumable: bool,
}

/// The changes an item use makes: items taken off, the item put on (wearer and slot),
/// the one fed, the ones healed, the damage and confusion dealt, and whether the item
/// is spent.
pub struct UseOutcome {
    pub unequip: Vec<u32>,
    pub equip: Option<(u32, EquipmentSlot)>,
    pub feed: Option<u32>,
    pub heal: Vec<u32>,
    pub damage: Vec<(u32, i32)>,
    pub confuse: Vec<(u32, i32)>,
    pub consumed: bool,
}

/// The effects that decide whether a use of `u` counts.
pub open spec fn effects_of(u: ItemUse) -> ItemEffects {
    ItemEffects { consumable: u.consumable, heals: u.heal_amount is Some, damages: u.damage is Some, confuses: u.confusion_turns is Some }
}

/// Each target paired with the same amount.
pub open spec fn paired(targets: Seq<u32>, amount: i32) -> Seq<(u32, i32)> {
    targets.map_values(|t: u32| (t, amount))
}

fn pair_all(targets: &Vec<u32>, amount: i32) -> (r: Vec<(u32, i32)>)
    ensures
        r@ == paired(targets@, amount),
{
    let mut r: Vec<(u32, i32)> = Vec::new();
    let mut i: usize = 0;
    while i < targets.len()
        invariant
            i <= targets.len(),
            r@ == paired(targets@.take(i as int), amount),
        decreases targets.len() - i,
    {
        r.push((targets[i], amount));
        i = i + 1;
        assert(r@ =~= paired(targets@.take(i as int), amount));
    }
    assert(targets@.take(targets.len() as int) =~= targets@);
    r
}

/// The effects of using an item on its targets (the user alone when no target was
/// chosen). Equipment goes on the first target, replacing what it wears in that slot;
/// food feeds the first target; healing, damage and confusion reach every target; a
/// consumable is spent when its use counted.
pub fn use_item(u: ItemUse, targets: &Vec<u32>, equipped: &Vec<EquippedItem>) -> (r: UseOutcome)
    requires
        u.equip_slot is Some || u.food ==> targets.len() > 0,
    ensures
        r.unequip@ == (match u.equip_slot {
            Some(slot) => worn_in_slot(equipped@, targets@[0], slot),
            None => Seq::empty(),
        }),
        r.equip == (match u.equip_slot {
            Some(slot) => Some((targets@[0], slot)),
            None => None,
        }),
        r.feed == (if u.food { Some(targets@[0]) } else { None }),
        r.heal@ == (if u.heal_amount is Some { targets@ } else { Seq::empty() }),
        r.damage@ == (match u.damage {
            Some(d) => paired(targets@, d),
            None => Seq::empty(),
        }),
        r.confuse@ == (match u.confusion_turns {
            Some(t) => paired(targets@, t),
            None => Seq::empty(),
        }),
        r.consumed == (u.consumable && spec_item_used(effects_of(u), targets.len() as int)),
{
    let (unequip, equip) = match u.equip_slot {
        Some(slot) => (items_to_unequip(equipped, targets[0], slot), Some((targets[0], slot))),
        None => (Vec::new(), None),
    };
    let feed = if u.food { Some(targets[0]) } else { None };
    let heal = match u.heal_amount {
        Some(_) => {
            let mut h: Vec<u32> = Vec::new();
            let mut i: usize = 0;
            while i < targets.len()
                invariant
                    i <= targets.len(),
                    h@ == targets@.take(i as int),
                decreases targets.len() - i,
            {
                h.push(targets[i]);
                i = i + 1;
            }
            assert(targets@.take(targets.len() as int) =~= targets@);
            h
        },
        None => Vec::new(),
    };
    let damage = match u.damage {
        Some(d) => pair_all(targets, d),
        None => Vec::new(),
    };
    let confuse = match u.confusion_turns {
        Some(t) => pair_all(targets, t),
        None => Vec::new(),
    };
    let fx = ItemEffects {
        consumable: u.consumable,
        heals: u.heal_amount.is_some(),
        damages: u.damage.is_some(),
        confuses: u.confusion_turns.is_some(),
    };
    let consumed = item_consumed(fx, targets.len());
    UseOutcome { unequip, equip, feed, heal, damage, confuse, consumed }
}

/// Whether an equipped entry stays when `item` goes on and the items `off` are taken off:
/// it is for none of them.
pub open spec fn stays_equipped(e: EquippedItem, item: u32, off: Seq<u32>) -> bool {
    e.item != item && !off.contains(e.item)
}

/// An item worn by `owner` in `slot` is among the items `worn_in_slot` lists.
proof fn lemma_worn_contains(eq: Seq<EquippedItem>, owner: u32, slot: EquipmentSlot, i: int)
    requires
        0 <= i < eq.len(),
        eq[i].owner == owner,
        eq[i].slot == slot,
    ensures
        worn_in_slot(eq, owner, slot).contains(eq[i].item),
    decreases eq.len(),
{
    let rest = worn_in_slot(eq.drop_last(), owner, slot);
    let last = if eq.last().owner == owner && eq.last().slot == slot { seq![eq.last().item] } else { Seq::empty() };
    assert(worn_in_slot(eq, owner, slot) == rest + last);
    if i < eq.len() - 1 {
        lemma_worn_contains(eq.drop_last(), owner, slot, i);
        let j = choose|j: int| 0 <= j < rest.len() && rest[j] == eq[i].item;
        assert((rest + last)[j] == eq[i].item);
    } else {
        assert((rest + last)[rest.len() as int] == eq[i].item);
    }
}

/// Whether a backpack entry `(item, owner)` stays when `item` is equipped and `off` are
/// taken off: it is neither of them.
pub open spec fn stays_packed(b: (u32, u32), item: u32, off: Seq<u32>) -> bool {
    b.0 != item && !off.contains(b.0)
}

/// The backpack entries for the items taken off: each but `item` goes to `target`'s pack.
pub open spec fn packed_off(off: Seq<u32>, item: u32, target: u32) -> Seq<(u32, u32)> {
    off.filter(|x: u32| x != item).map_values(|x: u32| (x, target))
}

/// Puts `item` on `target` in `slot`: whatever the target wore there goes back into its
/// backpack (`(item, owner)` entries) and the item leaves the backpack. Afterwards the
/// target wears exactly that one item in the slot.
pub fn equip_item(
    equipped: &mut Vec<EquippedItem>,
    backpack: &mut Vec<(u32, u32)>,
    item: u32,
    target: u32,
    slot: EquipmentSlot,
)
    ensures
        final(equipped)@ == old(equipped)@.filter(
            |e: EquippedItem| stays_equipped(e, item, worn_in_slot(old(equipped)@, target, slot)),
        ).push(EquippedItem { item, owner: target, slot }),
        final(backpack)@ == old(backpack)@.filter(
            |b: (u32, u32)| stays_packed(b, item, worn_in_slot(old(equipped)@, target, slot)),
        ) + packed_off(worn_in_slot(old(equipped)@, target, slot), item, target),
        worn_in_slot(final(equipped)@, target, slot) == seq![item],
        forall|o: u32| #[trigger] worn_in_slot(old(equipped)@, target, slot).contains(o) && o != item
            ==> final(backpack)@.contains((o, target)),
        forall|k: int| 0 <= k < final(backpack).len() ==> (#[trigger] final(backpack)@[k]).0 != item,
        forall|k: int| 0 <= k < final(equipped).len() - 1 ==> (#[trigger] final(equipped)@[k]).item != item
            && !worn_in_slot(old(equipped)@, target, slot).contains(final(equipped)@[k].item),
{
    let off = items_to_unequip(equipped, target, slot);
    let ghost keep_e = |e: EquippedItem| stays_equipped(e, item, off@);
    let ghost keep_b = |b: (u32, u32)| stays_packed(b, item, off@);
    let mut new_eq: Vec<EquippedItem> = Vec::new();
    let mut i: usize = 0;
    while i < equipped.len()
        invariant
            i <= equipped.len(),
            keep_e == (|e: EquippedItem| stays_equipped(e, item, off@)),
            off@ == worn_in_slot(equipped@, target, slot),
            new_eq@ == equipped@.take(i as int).filter(keep_e),
            worn_in_slot(new_eq@, target, slot) == Seq::<u32>::empty(),
            forall|k: int| 0 <= k < new_eq.len() ==> (#[trigger] new_eq@[k]).item != item
                && !off@.contains(new_eq@[k].item),
        decreases equipped.len() - i,
    {
        let e = equipped[i];
        proof {
            assert(equipped@.take(i + 1).drop_last() =~= equipped@.take(i as int));
            reveal(Seq::filter);
            assert(equipped@.take(i + 1).last() == e);
        }
        if e.item != item && !holds(&off, e.item) {
            let ghost before = new_eq@;
            new_eq.push(e);
            proof {
                if e.owner == target && e.slot == slot {
                    lemma_worn_contains(equipped@, target, slot, i as int);
                }
                assert(new_eq@.drop_last() =~= before);
                assert(worn_in_slot(new_eq@, target, slot) =~= Seq::<u32>::empty());
            }
        }
        i = i + 1;
    }
    assert(equipped@.take(equipped.len() as int) =~= equipped@);
    let ghost before_put = new_eq@;
    new_eq.push(EquippedItem { item, owner: target, slot });
    proof {
        assert forall|k: int| 0 <= k < new_eq.len() - 1 implies (#[trigger] new_eq@[k]).item != item
            && !off@.contains(new_eq@[k].item) by {
            assert(new_eq@[k] == before_put[k]);
        }
        assert(new_eq@.drop_last() =~= before_put);
        assert(worn_in_slot(new_eq@, target, slot) =~= seq![item]);
    }
    let mut new_bp: Vec<(u32, u32)> = Vec::new();
    let mut j: usize = 0;
    while j < backpack.len()
        invariant
            j <= backpack.len(),
            keep_b == (|b: (u32, u32)| stays_packed(b, item, off@)),
            new_bp@ == backpack@.take(j as int).filter(keep_b),
            forall|k: int| 0 <= k < new_bp.len() ==> (#[trigger] new_bp@[k]).0 != item,
        decreases backpack.len() - j,
    {
        let b = backpack[j];
        proof {
            assert(backpack@.take(j + 1).drop_last() =~= backpack@.take(j as int));
            reveal(Seq::filter);
            assert(backpack@.take(j + 1).last() == b);
        }
        if b.0 != item && !holds(&off, b.0) {
            new_bp.push(b);
        }
        j = j + 1;
    }
    assert(backpack@.take(backpack.len() as int) =~= backpack@);
    let ghost kept = new_bp@;
    let mut q: usize = 0;
    while q < off.len()
        invariant
            q <= off.len(),
            new_bp@ == kept + packed_off(off@.take(q as int), item, target),
            forall|k: int| 0 <= k < new_bp.len() ==> (#[trigger] new_bp@[k]).0 != item,
            forall|p: int| 0 <= p < q && off@[p] != item ==> new_bp@.contains((#[trigger] off@[p], target)),
        decreases off.len() - q,
    {
        let x = off[q];
        proof {
            assert(off@.take(q + 1).drop_last() =~= off@.take(q as int));
            reveal(Seq::filter);
            assert(off@.take(q + 1).last() == x);
        }
        let ghost before = new_bp@;
        if x != item {
            new_bp.push((x, target));
            proof {
                assert(new_bp@[new_bp.len() - 1] == (x, target));
                assert forall|p: int| 0 <= p < q + 1 && off@[p] != item implies new_bp@.contains(
                    (#[trigger] off@[p], target),
                ) by {
                    if p < q {
                        let w = choose|w: int| 0 <= w < before.len() && before[w] == (off@[p], target);
                        assert(new_bp@[w] == before[w]);
                    } else {
                        assert(new_bp@[new_bp.len() - 1] == (off@[p], target));
                    }
                }
            }
        }
        proof {
            let fa = off@.take(q as int).filter(|y: u32| y != item);
            let fb = off@.take(q + 1).filter(|y: u32| y != item);
            assert(fb == if x != item { fa.push(x) } else { fa });
            assert(new_bp@ =~= kept + packed_off(off@.take(q + 1), item, target));
        }
        q = q + 1;
    }
    assert(off@.take(off.len() as int) =~= off@);
    proof {
        assert(new_bp@ == kept + packed_off(off@, item, target));
        assert(keep_b =~= (|b: (u32, u32)| stays_packed(b, item, worn_in_slot(equipped@, target, slot))));
        assert(keep_e =~= (|e: EquippedItem| stays_equipped(e, item, worn_in_slot(equipped@, target, slot))));
    }
    *equipped = new_eq;
    *backpack = new_bp;
}

/// Whether `(x, y)` is strictly inside the map's border.
pub open spec fn inside_border(m: GameMap, x: int, y: int) -> bool {
    0 < x < m.width - 1 && 0 < y < m.height - 1
}

/// The entities on the given tiles, in order, taking only tiles strictly inside the border.
pub open spec fn contents_along(m: GameMap, tiles: Seq<(i32, i32)>) -> Seq<u32>
    decreases tiles.len(),
{
    if tiles.len() == 0 {
        Seq::empty()
    } else {
        let t = tiles.last();
        contents_along(m, tiles.drop_last()) + if inside_border(m, t.0 as int, t.1 as int) {
            m.tile_content@[idx(m.width as int, t.0 as int, t.1 as int)]@
        } else {
            Seq::empty()
        }
    }
}

/// Who an item is used on: the player when no target was chosen; otherwise whoever stands
/// on the target tile, or, for an item with an area of effect, on each tile of its blast
/// (those strictly inside the map's border).
pub fn item_targets(map: &GameMap, player: u32, target: Option<(i32, i32)>, blast: Option<&Vec<(i32, i32)>>) -> (r: Vec<u32>)
    requires
        map.wf(),
        match target {
            Some(t) => blast is None ==> in_grid(map.width as int, map.height as int, t.0 as int, t.1 as int),
            None => true,
        },
    ensures
        r@ == match target {
            None => seq![player],
            Some(t) => match blast {
                None => map.tile_content@[idx(map.width as int, t.0 as int, t.1 as int)]@,
                Some(b) => contents_along(*map, b@),
            },
        },
{
    let ghost w = map.width as int;
    let ghost h = map.height as int;
    match target {
        None => {
            let mut r: Vec<u32> = Vec::new();
            r.push(player);
            r
        },
        Some(t) => match blast {
            None => {
                proof { lemma_idx_in_bounds(w, h, t.0 as int, t.1 as int); }
                let index = map.xy_index(t.0, t.1);
                let mut r: Vec<u32> = Vec::new();
                append_all(&mut r, &map.tile_content[index]);
                assert(r@ =~= map.tile_content@[index as int]@);
                r
            },
            Some(b) => contents_of_tiles(map, b),
        },
    }
}

/// The entities on the given tiles, in order, taking only tiles strictly inside the map's border.
pub fn contents_of_tiles(map: &GameMap, tiles: &Vec<(i32, i32)>) -> (r: Vec<u32>)
    requires
        map.wf(),
    ensures
        r@ == contents_along(*map, tiles@),
{
    let ghost w = map.width as int;
    let ghost h = map.height as int;
    let mut r: Vec<u32> = Vec::new();
    let mut k: usize = 0;
    while k < tiles.len()
        invariant
            k <= tiles.len(),
            map.wf(),
            w == map.width,
            h == map.height,
            r@ == contents_along(*map, tiles@.take(k as int)),
        decreases tiles.len() - k,
    {
        assert(tiles@.take(k + 1).drop_last() =~= tiles@.take(k as int));
        let p = tiles[k];
        if p.0 > 0 && p.0 < map.width - 1 && p.1 > 0 && p.1 < map.height - 1 {
            proof { lemma_idx_in_bounds(w, h, p.0 as int, p.1 as int); }
            let index = map.xy_index(p.0, p.1);
            append_all(&mut r, &map.tile_content[index]);
        }
        assert(r@ =~= contents_along(*map, tiles@.take(k + 1)));
        k = k + 1;
    }
    assert(tiles@.take(tiles.len() as int) =~= tiles@);
    r
}

/// Whether `e` is one of `v`.
pub(crate) fn holds(v: &Vec<u32>, e: u32) -> (r: bool)
    ensures
        r == v@.contains(e),
{
    let mut i: usize = 0;
    while i < v.len()
        invariant
            i <= v.len(),
            forall|j: int| 0 <= j < i ==> v@[j] != e,
        decreases v.len() - i,
    {
        if v[i] == e {
            assert(v@[i as int] == e);
            return true;
        }
        i = i + 1;
    }
    false
}

fn append_all(r: &mut Vec<u32>, v: &Vec<u32>)
    ensures
        final(r)@ == old(r)@ + v@,
{
    let mut i: usize = 0;
    while i < v.len()
        invariant
            i <= v.len(),
            r@ == old(r)@ + v@.take(i as int),
        decreases v.len() - i,
    {
        r.push(v[i]);
        i = i + 1;
        assert(r@ =~= old(r)@ + v@.take(i as int));
    }
    assert(v@.take(v.len() as int) =~= v@);
}

} // verus!
