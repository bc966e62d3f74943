use vstd::prelude::*;
use vstd::string::*;
use crate::tile::TileType;
use crate::components::Position;
use crate::map::{GameMap, idx, in_grid, lemma_idx_in_bounds, lemma_idx_roundtrip, lemma_idx_decompose};
use crate::map_builders::{BuilderMap, history_grows};
use crate::map::is_snapshot_of;
use crate::rng::roll_dice;
use rltk::RandomNumberGenerator;
use std::collections::HashSet;

verus! {

broadcast use vstd::std_specs::hash::group_hash_axioms;

/// A whole level drawn as text, `width` by `height` glyphs.
#[derive(PartialEq, Eq, Copy, Clone)]
pub struct PrefabLevel {
    pub template: &'static str,
    pub width: usize,
    pub height: usize,
}

#[derive(PartialEq, Eq, Copy, Clone)]
pub enum HorizontalPlacement {
    Left,
    Center,
    Right,
}

#[derive(PartialEq, Eq, Copy, Clone)]
pub enum VerticalPlacement {
    Top,
    Center,
    Bottom,
}

/// A piece of level drawn as text, placed against a side or in the middle of the map.
#[derive(PartialEq, Eq, Copy, Clone)]
pub struct PrefabSection {
    pub template: &'static str,
    pub width: usize,
    pub height: usize,
    pub placement: (HorizontalPlacement, VerticalPlacement),
}

/// A small room drawn as text, placed on open floor at depths `first_depth..=last_depth`.
#[derive(PartialEq, Eq, Copy, Clone)]
pub struct PrefabRoom {
    pub template: &'static str,
    pub width: usize,
    pub height: usize,
    pub first_depth: i32,
    pub last_depth: i32,
}

/// What a prefab builder stamps onto the map.
#[derive(PartialEq, Eq, Copy, Clone)]
pub enum PrefabMode {
    RexLevel { template: &'static str },
    Constant { level: PrefabLevel },
    Sectional { section: PrefabSection },
    RoomVaults,
}

/// Stamps hand-drawn levels, sections or vaults onto the map.
pub struct PrefabBuilder {
    pub mode: PrefabMode,
}

impl PrefabBuilder {
    pub fn new() -> (b: Box<PrefabBuilder>)
        ensures
            b.mode == PrefabMode::RoomVaults,
    {
        Box::new(PrefabBuilder { mode: PrefabMode::RoomVaults })
    }

    pub fn rex_level(template: &'static str) -> (b: Box<PrefabBuilder>)
        ensures
            b.mode == (PrefabMode::RexLevel { template }),
    {
        Box::new(PrefabBuilder { mode: PrefabMode::RexLevel { template } })
    }

    pub fn constant(level: PrefabLevel) -> (b: Box<PrefabBuilder>)
        ensures
            b.mode == (PrefabMode::Constant { level }),
    {
        Box::new(PrefabBuilder { mode: PrefabMode::Constant { level } })
    }

    pub fn sectional(section: PrefabSection) -> (b: Box<PrefabBuilder>)
        ensures
            b.mode == (PrefabMode::Sectional { section }),
    {
        Box::new(PrefabBuilder { mode: PrefabMode::Sectional { section } })
    }

    pub fn vaults() -> (b: Box<PrefabBuilder>)
        ensures
            b.mode == PrefabMode::RoomVaults,
    {
        Box::new(PrefabBuilder { mode: PrefabMode::RoomVaults })
    }
}

/// A template glyph as stored: non-breaking spaces (any char whose low byte is 160) read as spaces.
pub open spec fn clean_glyph(c: char) -> char {
    if (c as u32) % 256 == 160 { ' ' } else { c }
}

/// A template with its line breaks removed and its glyphs cleaned.
pub open spec fn template_glyphs(s: Seq<char>) -> Seq<char>
    decreases s.len(),
{
    if s.len() == 0 {
        Seq::empty()
    } else {
        let prev = template_glyphs(s.drop_last());
        let c = s.last();
        if c == '\r' || c == '\n' { prev } else { prev.push(clean_glyph(c)) }
    }
}

impl PrefabBuilder {
    /// The glyphs of a template, without line breaks.
    pub fn read_ascii_to_vec(template: &str) -> (v: Vec<char>)
        ensures
            v@ == template_glyphs(template@),
    {
        let n = template.unicode_len();
        let mut v: Vec<char> = Vec::new();
        let mut i: usize = 0;
        while i < n
            invariant
                n == template@.len(),
                i <= n,
                v@ == template_glyphs(template@.take(i as int)),
            decreases n - i,
        {
            let c = template.get_char(i);
            assert(template@.take(i + 1).drop_last() =~= template@.take(i as int));
            if c != '\r' && c != '\n' {
                if (c as u32) % 256 == 160 {
                    v.push(' ');
                } else {
                    v.push(c);
                }
            }
            i = i + 1;
        }
        assert(template@.take(n as int) =~= template@);
        v
    }
}

/// The tile a glyph stands for, if it is known.
pub open spec fn glyph_tile(ch: char) -> Option<TileType> {
    if ch == ' ' || ch == '@' || ch == 'g' || ch == 'o' || ch == '^' || ch == '%' || ch == '!' {
        Some(TileType::Floor)
    } else if ch == '#' {
        Some(TileType::Wall)
    } else if ch == '>' {
        Some(TileType::DownStairs)
    } else {
        None
    }
}

/// The entity a glyph spawns, if any.
pub open spec fn glyph_spawn(ch: char) -> Option<Seq<char>> {
    if ch == 'g' {
        Some("Goblin"@)
    } else if ch == 'o' {
        Some("Orc"@)
    } else if ch == '^' {
        Some("Bear Trap"@)
    } else if ch == '%' {
        Some("Rations"@)
    } else if ch == '!' {
        Some("Health Potion"@)
    } else {
        None
    }
}

/// The part of a builder's state that stamping glyphs reads and writes:
/// tiles, spawns (index and name) and the starting position.
pub type Plan = (Seq<TileType>, Seq<(usize, Seq<char>)>, Option<Position>);

pub open spec fn spawn_view(s: Seq<(usize, String)>) -> Seq<(usize, Seq<char>)> {
    s.map_values(|e: (usize, String)| (e.0, e.1@))
}

pub open spec fn plan_of(bd: BuilderMap) -> Plan {
    (bd.map.tiles@, spawn_view(bd.spawn_list@), bd.starting_position)
}

/// The effect of stamping glyph `ch` on tile `index` of a map `w` wide: a known glyph sets
/// the tile, may add a spawn there, and `@` moves the start there; unknown glyphs do nothing.
pub open spec fn glyph_effect(p: Plan, ch: char, index: int, w: int) -> Plan {
    match glyph_tile(ch) {
        None => p,
        Some(t) => (
            p.0.update(index, t),
            match glyph_spawn(ch) {
                Some(name) => p.1.push((index as usize, name)),
                None => p.1,
            },
            if ch == '@' {
                Some(Position { x: (index % w) as i32, y: (index / w) as i32 })
            } else {
                p.2
            },
        ),
    }
}

/// Stamping a sequence of glyphs, each on its tile, in order.
pub open spec fn glyphs_effect(p: Plan, steps: Seq<(char, usize)>, w: int) -> Plan
    decreases steps.len(),
{
    if steps.len() == 0 {
        p
    } else {
        glyph_effect(glyphs_effect(p, steps.drop_last(), w), steps.last().0, steps.last().1 as int, w)
    }
}

/// Whether every spawn stands on a tile of the map.
pub open spec fn spawns_on_map(bd: BuilderMap) -> bool {
    forall|i: int| 0 <= i < bd.spawn_list.len() ==> (#[trigger] bd.spawn_list@[i]).0 < bd.map.tiles.len()
}

impl PrefabBuilder {
    /// Applies one template glyph to tile `index`.
    fn char_to_map(&mut self, ch: char, index: usize, build_data: &mut BuilderMap)
        requires
            old(build_data).map.wf(),
            index < old(build_data).map.tiles.len(),
            spawns_on_map(*old(build_data)),
        ensures
            *final(self) == *old(self),
            final(build_data).map.wf(),
            final(build_data).map.same_but_tiles(&old(build_data).map),
            spawns_on_map(*final(build_data)),
            plan_of(*final(build_data)) == glyph_effect(plan_of(*old(build_data)), ch, index as int, old(build_data).map.width as int),
            final(build_data).history == old(build_data).history,
            final(build_data).rooms == old(build_data).rooms,
            final(build_data).corridors == old(build_data).corridors,
            final(build_data).width == old(build_data).width,
            final(build_data).height == old(build_data).height,
    {
        let ghost p = plan_of(*build_data);
        let ghost w = build_data.map.width as int;
        proof {
            assert(w > 0) by (nonlinear_arith)
                requires index < build_data.map.tiles.len(), build_data.map.tiles.len() == w * build_data.map.height, 0 <= build_data.map.height;
        }
        if ch == ' ' {
            build_data.map.tiles.set(index, TileType::Floor);
        } else if ch == '#' {
            build_data.map.tiles.set(index, TileType::Wall);
        } else if ch == '@' {
            let x = index as i32 % build_data.map.width;
            let y = index as i32 / build_data.map.width;
            build_data.map.tiles.set(index, TileType::Floor);
            build_data.starting_position = Some(Position { x: x as i32, y: y as i32 });
        } else if ch == '>' {
            build_data.map.tiles.set(index, TileType::DownStairs);
        } else if ch == 'g' || ch == 'o' || ch == '^' || ch == '%' || ch == '!' {
            build_data.map.tiles.set(index, TileType::Floor);
            let name = if ch == 'g' {
                String::from_str("Goblin")
            } else if ch == 'o' {
                String::from_str("Orc")
            } else if ch == '^' {
                String::from_str("Bear Trap")
            } else if ch == '%' {
                String::from_str("Rations")
            } else {
                String::from_str("Health Potion")
            };
            let ghost before = build_data.spawn_list@;
            build_data.spawn_list.push((index, name));
            assert(spawn_view(build_data.spawn_list@) =~= spawn_view(before).push((index, name@)));
        }
        assert(plan_of(*build_data).0 =~= glyph_effect(p, ch, index as int, w).0);
        assert(plan_of(*build_data).1 =~= glyph_effect(p, ch, index as int, w).1);
    }
}

/// Whether template cell `(tx, ty)` is stamped: a whole level keeps the cells that fall on
/// the map (mode 0), a section keeps the cells whose own coordinates are inside the map's
/// outer ring (mode 1), a vault keeps every cell (mode 2).
pub open spec fn stamp_included(mode: int, tx: int, ty: int, w: int, h: int) -> bool {
    if mode == 0 {
        tx < w && ty < h
    } else if mode == 1 {
        0 < tx < w - 1 && 0 < ty < h - 1
    } else {
        true
    }
}

/// The glyph and map tile of each stamped cell among the first `k` cells of a template
/// `tw` cells wide placed with its corner at `(cx, cy)`, in row order.
/// Cells past the end of the glyphs are skipped.
pub open spec fn stamp_steps(glyphs: Seq<char>, tw: int, k: int, w: int, h: int, cx: int, cy: int, mode: int) -> Seq<(char, usize)>
    decreases k,
{
    if k <= 0 || tw <= 0 {
        Seq::empty()
    } else {
        let n = k - 1;
        let tx = n % tw;
        let ty = n / tw;
        let prev = stamp_steps(glyphs, tw, k - 1, w, h, cx, cy, mode);
        if stamp_included(mode, tx, ty, w, h) && n < glyphs.len() {
            prev.push((glyphs[n], idx(w, tx + cx, ty + cy) as usize))
        } else {
            prev
        }
    }
}

/// Whether every stamped cell of a `tw` by `th` template at `(cx, cy)` lands on the map,
/// and, for a whole level, has a glyph.
pub open spec fn stamp_fits(m: GameMap, glyph_count: int, tw: int, th: int, cx: int, cy: int, mode: int) -> bool {
    forall|tx: int, ty: int|
        0 <= tx < tw && 0 <= ty < th && #[trigger] stamp_included(mode, tx, ty, m.width as int, m.height as int)
            ==> in_grid(m.width as int, m.height as int, tx + cx, ty + cy)
            && (mode == 0 ==> idx(tw, tx, ty) < glyph_count)
}

/// Builder fields that stamping leaves alone.
pub open spec fn stamp_keeps(new: BuilderMap, old: BuilderMap) -> bool {
    &&& new.map.wf()
    &&& new.map.same_but_tiles(&old.map)
    &&& spawns_on_map(new)
    &&& new.history == old.history
    &&& new.rooms == old.rooms
    &&& new.corridors == old.corridors
    &&& new.width == old.width
    &&& new.height == old.height
}

impl PrefabBuilder {
    /// Stamps the glyphs of a `tw` by `th` template row by row, the cell `(tx, ty)` going to
    /// map cell `(tx + cx, ty + cy)`, keeping the cells `mode` selects.
    fn stamp_template(&mut self, glyphs: &Vec<char>, tw: usize, th: usize, cx: i32, cy: i32, mode: u8, build_data: &mut BuilderMap)
        requires
            old(build_data).map.wf(),
            spawns_on_map(*old(build_data)),
            mode <= 2,
            mode == 0 ==> cx == 0 && cy == 0,
            mode == 1 && tw >= 2 ==> old(build_data).map.width >= 1,
            mode == 1 && tw >= 2 && old(build_data).map.width >= 3 && th >= 2 ==> old(build_data).map.height >= 1,
            tw <= i32::MAX,
            th <= i32::MAX,
            tw * th <= usize::MAX,
            stamp_fits(old(build_data).map, glyphs.len() as int, tw as int, th as int, cx as int, cy as int, mode as int),
        ensures
            *final(self) == *old(self),
            stamp_keeps(*final(build_data), *old(build_data)),
            final(build_data).starting_position == old(build_data).starting_position || glyphs@.contains('@'),
            plan_of(*final(build_data)) == glyphs_effect(
                plan_of(*old(build_data)),
                stamp_steps(glyphs@, tw as int, tw * th, old(build_data).map.width as int, old(build_data).map.height as int, cx as int, cy as int, mode as int),
                old(build_data).map.width as int,
            ),
    {
        let ghost w = build_data.map.width as int;
        let ghost h = build_data.map.height as int;
        let ghost p0 = plan_of(*build_data);
        let mut i: usize = 0;
        let mut ty: usize = 0;
        while ty < th
            invariant
                *self == *old(self),
                stamp_keeps(*build_data, *old(build_data)),
                w == build_data.map.width,
                h == build_data.map.height,
                p0 == plan_of(*old(build_data)),
                mode <= 2,
                mode == 0 ==> cx == 0 && cy == 0,
                mode == 1 && tw >= 2 ==> w >= 1,
                mode == 1 && tw >= 2 && w >= 3 && th >= 2 ==> h >= 1,
                tw <= i32::MAX,
                th <= i32::MAX,
                tw * th <= usize::MAX,
                stamp_fits(old(build_data).map, glyphs.len() as int, tw as int, th as int, cx as int, cy as int, mode as int),
                ty <= th,
                i == ty * tw,
                build_data.starting_position == old(build_data).starting_position || glyphs@.contains('@'),
                plan_of(*build_data) == glyphs_effect(p0, stamp_steps(glyphs@, tw as int, i as int, w, h, cx as int, cy as int, mode as int), w),
            decreases th - ty,
        {
            proof {
                assert(ty * tw + tw <= tw * th) by (nonlinear_arith) requires ty < th;
            }
            let mut tx: usize = 0;
            while tx < tw
                invariant
                    *self == *old(self),
                    stamp_keeps(*build_data, *old(build_data)),
                    w == build_data.map.width,
                    h == build_data.map.height,
                    p0 == plan_of(*old(build_data)),
                    mode <= 2,
                    mode == 0 ==> cx == 0 && cy == 0,
                    mode == 1 && tw >= 2 ==> w >= 1,
                    mode == 1 && tw >= 2 && w >= 3 && th >= 2 ==> h >= 1,
                    tw <= i32::MAX,
                    th <= i32::MAX,
                    tw * th <= usize::MAX,
                    ty * tw + tw <= tw * th,
                    stamp_fits(old(build_data).map, glyphs.len() as int, tw as int, th as int, cx as int, cy as int, mode as int),
                    ty < th,
                    tx <= tw,
                    i == ty * tw + tx,
                    build_data.starting_position == old(build_data).starting_position || glyphs@.contains('@'),
                    plan_of(*build_data) == glyphs_effect(p0, stamp_steps(glyphs@, tw as int, i as int, w, h, cx as int, cy as int, mode as int), w),
                decreases tw - tx,
            {
                proof {
                    lemma_idx_roundtrip(tw as int, tx as int, ty as int);
                    assert(idx(tw as int, tx as int, ty as int) == i);
                    assert(stamp_included(mode as int, tx as int, ty as int, w, h) ==> in_grid(w, h, tx + cx, ty + cy)
                        && (mode == 0 ==> i < glyphs.len()));
                }
                let included = if mode == 0 {
                    tx < build_data.map.width as usize && ty < build_data.map.height as usize
                } else if mode == 1 {
                    tx > 0 && tx < build_data.map.width as usize - 1 && ty > 0 && ty < build_data.map.height as usize - 1
                } else {
                    true
                };
                assert(included == stamp_included(mode as int, tx as int, ty as int, w, h));
                if included && i < glyphs.len() {
                    let x = tx as i32 + cx;
                    let y = ty as i32 + cy;
                    proof { lemma_idx_in_bounds(w, h, x as int, y as int); }
                    let index = build_data.map.xy_index(x, y);
                    let ch = glyphs[i];
                    self.char_to_map(ch, index, build_data);
                    proof {
                        let prev = stamp_steps(glyphs@, tw as int, i as int, w, h, cx as int, cy as int, mode as int);
                        let next = stamp_steps(glyphs@, tw as int, i + 1, w, h, cx as int, cy as int, mode as int);
                        assert(next == prev.push((ch, index)));
                        assert(next.drop_last() =~= prev);
                        if ch == '@' { assert(glyphs@.contains('@')) by { assert(glyphs@[i as int] == '@'); } }
                    }
                } else {
                    assert(stamp_steps(glyphs@, tw as int, i + 1, w, h, cx as int, cy as int, mode as int)
                        == stamp_steps(glyphs@, tw as int, i as int, w, h, cx as int, cy as int, mode as int));
                }
                i = i + 1;
                tx = tx + 1;
            }
            assert(ty * tw + tw == (ty + 1) * tw) by (nonlinear_arith);
            ty = ty + 1;
        }
        assert(i == tw * th) by (nonlinear_arith) requires i == ty * tw, ty == th;
    }
}

/// Whether a spawn on tile `index` lies outside the box `x_lo..=x_hi`, `y_lo..=y_hi`,
/// reading its column as `index % dx` and its row as `index / dy`.
pub open spec fn spawn_outside(index: usize, dx: int, dy: int, x_lo: int, x_hi: int, y_lo: int, y_hi: int) -> bool {
    let x = index as int % dx;
    let y = index as int / dy;
    x < x_lo || x > x_hi || y < y_lo || y > y_hi
}

/// The spawns that lie outside the box, in their order.
pub open spec fn spawns_outside(s: Seq<(usize, Seq<char>)>, dx: int, dy: int, x_lo: int, x_hi: int, y_lo: int, y_hi: int) -> Seq<(usize, Seq<char>)>
    decreases s.len(),
{
    if s.len() == 0 {
        Seq::empty()
    } else {
        let prev = spawns_outside(s.drop_last(), dx, dy, x_lo, x_hi, y_lo, y_hi);
        if spawn_outside(s.last().0, dx, dy, x_lo, x_hi, y_lo, y_hi) { prev.push(s.last()) } else { prev }
    }
}

/// Drops the spawns that lie inside a box.
fn retain_outside(spawns: &mut Vec<(usize, String)>, dx: i32, dy: i32, x_lo: i64, x_hi: i64, y_lo: i64, y_hi: i64)
    requires
        forall|i: int| 0 <= i < old(spawns).len() ==> (#[trigger] old(spawns)@[i]).0 <= i32::MAX,
        old(spawns).len() > 0 ==> dx > 0 && dy > 0,
    ensures
        spawn_view(final(spawns)@) == spawns_outside(spawn_view(old(spawns)@), dx as int, dy as int, x_lo as int, x_hi as int, y_lo as int, y_hi as int),
        forall|i: int| 0 <= i < final(spawns).len() ==> exists|j: int| 0 <= j < old(spawns).len() && (#[trigger] final(spawns)@[i]).0 == old(spawns)@[j].0,
{
    let ghost orig = spawn_view(spawns@);
    let ghost orig_raw = spawns@;
    let mut rest: Vec<(usize, String)> = Vec::new();
    std::mem::swap(&mut rest, spawns);
    let n = rest.len();
    let mut i: usize = 0;
    while i < n
        invariant
            n == orig_raw.len(),
            orig == spawn_view(orig_raw),
            i <= n,
            rest@ == orig_raw.skip(i as int),
            forall|k: int| 0 <= k < orig_raw.len() ==> (#[trigger] orig_raw[k]).0 <= i32::MAX,
            orig_raw.len() > 0 ==> dx > 0 && dy > 0,
            spawn_view(spawns@) == spawns_outside(orig.take(i as int), dx as int, dy as int, x_lo as int, x_hi as int, y_lo as int, y_hi as int),
            forall|k: int| 0 <= k < spawns.len() ==> exists|j: int| 0 <= j < orig_raw.len() && (#[trigger] spawns@[k]).0 == orig_raw[j].0,
        decreases n - i,
    {
        let e = rest.remove(0);
        assert(e == orig_raw[i as int]);
        assert(rest@ =~= orig_raw.skip(i + 1));
        assert(orig.take(i + 1).drop_last() =~= orig.take(i as int));
        let index = e.0 as i32;
        let x = (index % dx) as i64;
        let y = (index / dy) as i64;
        if x < x_lo || x > x_hi || y < y_lo || y > y_hi {
            let ghost before = spawns@;
            spawns.push(e);
            assert(spawn_view(spawns@) =~= spawn_view(before).push((e.0, e.1@)));
            proof {
                assert forall|k: int| 0 <= k < spawns.len() implies exists|j: int| 0 <= j < orig_raw.len() && (#[trigger] spawns@[k]).0 == orig_raw[j].0 by {
                    if k == before.len() {
                        assert(spawns@[k].0 == orig_raw[i as int].0);
                    } else {
                        assert(spawns@[k] == before[k]);
                    }
                }
            }
        }
        i = i + 1;
    }
    assert(orig.take(n as int) =~= orig);
}

/// Where a section goes on a map `w` by `h`: flush left or right (one cell in from the
/// right edge), or centred; likewise top, bottom or middle.
pub open spec fn section_origin(section: PrefabSection, w: int, h: int) -> (int, int) {
    let sw = section.width as int;
    let sh = section.height as int;
    let x = match section.placement.0 {
        HorizontalPlacement::Left => 0,
        HorizontalPlacement::Center => w / 2 - sw / 2,
        HorizontalPlacement::Right => (w - 1) - sw,
    };
    let y = match section.placement.1 {
        VerticalPlacement::Top => 0,
        VerticalPlacement::Center => h / 2 - sh / 2,
        VerticalPlacement::Bottom => (h - 1) - sh,
    };
    (x, y)
}

/// Whether a vault `vw` by `vh` can go with its corner at `(x, y)`: it stays two cells
/// clear of the map's edges and covers only floor that no earlier vault took.
pub open spec fn vault_fits(m: GameMap, used: Set<usize>, vw: int, vh: int, x: int, y: int) -> bool {
    &&& x > 1
    &&& x + vw < m.width - 2
    &&& y > 1
    &&& y + vh < m.height - 2
    &&& forall|tx: int, ty: int| 0 <= tx < vw && 0 <= ty < vh ==> {
        &&& m.tiles@[#[trigger] idx(m.width as int, tx + x, ty + y)] == TileType::Floor
        &&& !used.contains(idx(m.width as int, tx + x, ty + y) as usize)
    }
}

/// The number of positions the vault search looks at: every tile index but the last,
/// and at least the first.
pub open spec fn vault_search_len(len: int) -> int {
    if len >= 2 { len - 1 } else { 1 }
}

/// Whether the map tile at `index` is where a vault can go.
pub open spec fn vault_fits_at(m: GameMap, used: Set<usize>, vw: int, vh: int, index: int) -> bool {
    vault_fits(m, used, vw, vh, index % (m.width as int), index / (m.width as int))
}

/// The builder after a vault is placed with its corner at `pos`: the spawns its box covers
/// are dropped (a spawn's row read as its index divided by the map height), its glyphs are
/// stamped, its tiles are marked as used (`u0` before, `u1` after) and a snapshot is taken.
pub open spec fn vault_placed(b0: BuilderMap, b1: BuilderMap, u0: Set<usize>, u1: Set<usize>, vault: PrefabRoom, pos: Position) -> bool {
    &&& b1.map.wf()
    &&& b1.map.same_but_tiles(&b0.map)
    &&& spawns_on_map(b1)
    &&& b1.rooms == b0.rooms
    &&& b1.corridors == b0.corridors
    &&& b1.width == b0.width
    &&& b1.height == b0.height
    &&& history_grows(b1.history@, b0.history@, 1)
    &&& is_snapshot_of(b1.history@.last(), b1.map)
    &&& b1.starting_position == b0.starting_position
        || template_glyphs(vault.template@).contains('@')
    &&& ({
        let w = b0.map.width as int;
        let h = b0.map.height as int;
        let vw = vault.width as int;
        let vh = vault.height as int;
        let p0 = plan_of(b0);
        let kept = spawns_outside(p0.1, w, h, pos.x as int, pos.x + vw, pos.y as int, pos.y + vh);
        plan_of(b1) == glyphs_effect(
            (p0.0, kept, p0.2),
            stamp_steps(template_glyphs(vault.template@), vw, vw * vh, w, h, pos.x as int, pos.y as int, 2),
            w,
        )
    })
    &&& forall|i: usize| #[trigger] u1.contains(i) <==> u0.contains(i)
        || vault_cell(b0.map.width as int, vault.width as int, vault.height as int, pos.x as int, pos.y as int, i)
}

/// The builder at the start of vault placement: the same as before, with a snapshot taken.
pub open spec fn vaults_opened(b_old: BuilderMap, b0: BuilderMap) -> bool {
    &&& b0.map == b_old.map
    &&& b0.spawn_list == b_old.spawn_list
    &&& b0.starting_position == b_old.starting_position
    &&& b0.rooms == b_old.rooms
    &&& b0.corridors == b_old.corridors
    &&& b0.width == b_old.width
    &&& b0.height == b_old.height
    &&& history_grows(b0.history@, b_old.history@, 1)
    &&& is_snapshot_of(b0.history@.last(), b_old.map)
}

/// The vaults of a list that apply at `depth`, in order.
pub open spec fn eligible(vaults: Seq<PrefabRoom>, depth: int) -> Seq<PrefabRoom>
    decreases vaults.len(),
{
    if vaults.len() == 0 {
        Seq::empty()
    } else {
        eligible(vaults.drop_last(), depth) + if vault_applies(vaults.last(), depth) { seq![vaults.last()] } else { Seq::empty() }
    }
}

/// How many vault turns are taken: none when the d6 `roll` plus the depth is under 4 or
/// no vault applies, else the d3 `count` but no more than the vaults that apply.
pub open spec fn vault_turns(roll: int, depth: int, count: int, n_eligible: int) -> int {
    if roll + depth < 4 || n_eligible == 0 {
        0
    } else if count < n_eligible {
        count
    } else {
        n_eligible
    }
}

/// The position in the remaining list that a pick names: the only vault when one is
/// left, else the rolled number less one.
pub open spec fn pick_index(len: int, pick: int) -> int {
    if len == 1 { 0 } else { pick - 1 }
}

/// One vault turn: the picked vault of the remaining list `p0` is placed at the first place
/// it fits and leaves the list; where it fits nowhere, nothing changes.
pub open spec fn vault_turn_spec(b0: BuilderMap, u0: Set<usize>, p0: Seq<PrefabRoom>, pick: int,
    b1: BuilderMap, u1: Set<usize>, p1: Seq<PrefabRoom>, placed: bool) -> bool
{
    let k = pick_index(p0.len() as int, pick);
    let v = p0[k];
    &&& 0 <= k < p0.len()
    &&& !placed ==> vault_nowhere(b0.map, u0, v) && b1 == b0 && u1 == u0 && p1 == p0
    &&& placed ==> p1 == p0.remove(k) && exists|pos: Position| vault_first_fit(b0.map, u0, v, pos)
        && #[trigger] vault_placed(b0, b1, u0, u1, v, pos)
}

/// A whole vault placement from `b_old` to `b_new` for a d6 `roll`, a d3 `count` and the
/// `picks` of each turn: a snapshot, then `vault_turns` turns through the builders `tr`,
/// used tiles `us` and remaining lists `ps` (starting from the vaults that apply), with
/// `pl` telling which turns placed a vault.
pub open spec fn vault_run(b_old: BuilderMap, b_new: BuilderMap, vaults: Seq<PrefabRoom>, roll: int, count: int,
    picks: Seq<int>, tr: Seq<BuilderMap>, us: Seq<Set<usize>>, ps: Seq<Seq<PrefabRoom>>, pl: Seq<bool>) -> bool
{
    let depth = b_old.map.depth as int;
    let n = vault_turns(roll, depth, count, eligible(vaults, depth).len() as int);
    &&& 1 <= roll <= 6
    &&& 1 <= count <= 3
    &&& picks.len() == n && pl.len() == n
    &&& tr.len() == n + 1 && us.len() == n + 1 && ps.len() == n + 1
    &&& vaults_opened(b_old, tr[0])
    &&& us[0] == Set::<usize>::empty()
    &&& ps[0] == eligible(vaults, depth)
    &&& tr.last() == b_new
    &&& forall|i: int| 0 <= i < n ==> (ps[i].len() > 1 ==> 1 <= picks[i] <= ps[i].len())
        && #[trigger] vault_turn_spec(tr[i], us[i], ps[i], picks[i], tr[i + 1], us[i + 1], ps[i + 1], pl[i])
}

/// Every vault that applies fits somewhere on the map before any is placed.
pub open spec fn all_eligible_fit(m: GameMap, vaults: Seq<PrefabRoom>) -> bool {
    forall|k: int| 0 <= k < eligible(vaults, m.depth as int).len()
        ==> !vault_nowhere(m, Set::<usize>::empty(), #[trigger] eligible(vaults, m.depth as int)[k])
}

proof fn lemma_eligible_len(vaults: Seq<PrefabRoom>, depth: int)
    ensures
        eligible(vaults, depth).len() <= vaults.len(),
    decreases vaults.len(),
{
    if vaults.len() > 0 {
        lemma_eligible_len(vaults.drop_last(), depth);
    }
}

proof fn lemma_eligible_from(vaults: Seq<PrefabRoom>, depth: int, j: int)
    requires
        0 <= j < eligible(vaults, depth).len(),
    ensures
        exists|m: int| 0 <= m < vaults.len() && #[trigger] vaults[m] == eligible(vaults, depth)[j]
            && vault_applies(vaults[m], depth),
    decreases vaults.len(),
{
    let prev = eligible(vaults.drop_last(), depth);
    if j < prev.len() {
        lemma_eligible_from(vaults.drop_last(), depth, j);
        let m = choose|m: int| 0 <= m < vaults.drop_last().len() && #[trigger] vaults.drop_last()[m] == prev[j]
            && vault_applies(vaults.drop_last()[m], depth);
        assert(vaults[m] == vaults.drop_last()[m]);
    } else {
        assert(vaults[vaults.len() - 1] == eligible(vaults, depth)[j]);
    }
}

/// `p` is the first place, in index order over every tile but the last, where the
/// vault fits.
pub open spec fn vault_first_fit(m: GameMap, used: Set<usize>, vault: PrefabRoom, p: Position) -> bool {
    let w = m.width as int;
    let n = vault_search_len(m.tiles.len() as int);
    &&& 0 <= p.x < w
    &&& 0 <= p.y
    &&& 0 <= idx(w, p.x as int, p.y as int) < n
    &&& vault_fits(m, used, vault.width as int, vault.height as int, p.x as int, p.y as int)
    &&& forall|j: int| 0 <= j < idx(w, p.x as int, p.y as int) ==> !#[trigger] vault_fits_at(m, used, vault.width as int, vault.height as int, j)
}

/// The vault fits at no place the search looks at.
pub open spec fn vault_nowhere(m: GameMap, used: Set<usize>, vault: PrefabRoom) -> bool {
    forall|j: int| 0 <= j < vault_search_len(m.tiles.len() as int) ==> !#[trigger] vault_fits_at(m, used, vault.width as int, vault.height as int, j)
}

impl PrefabBuilder {
    /// Keeps the spawns that `keep_box` (given) does not cover, then records a snapshot.
    fn apply_previous_iteration(&mut self, keep_box: Option<(i64, i64, i64, i64)>, build_data: &mut BuilderMap)
        requires
            old(build_data).map.wf(),
            spawns_on_map(*old(build_data)),
        ensures
            *final(self) == *old(self),
            final(build_data).map == old(build_data).map,
            spawns_on_map(*final(build_data)),
            history_grows(final(build_data).history@, old(build_data).history@, 1),
            is_snapshot_of(final(build_data).history@.last(), old(build_data).map),
            final(build_data).starting_position == old(build_data).starting_position,
            final(build_data).rooms == old(build_data).rooms,
            final(build_data).corridors == old(build_data).corridors,
            final(build_data).width == old(build_data).width,
            final(build_data).height == old(build_data).height,
            keep_box is None ==> final(build_data).spawn_list == old(build_data).spawn_list,
            spawn_view(final(build_data).spawn_list@) == match keep_box {
                None => spawn_view(old(build_data).spawn_list@),
                Some(b) => spawns_outside(
                    spawn_view(old(build_data).spawn_list@),
                    old(build_data).map.width as int,
                    old(build_data).map.width as int,
                    b.0 as int,
                    b.1 as int,
                    b.2 as int,
                    b.3 as int,
                ),
            },
    {
        match keep_box {
            None => {},
            Some(b) => {
                let width = build_data.map.width;
                proof {
                    if build_data.spawn_list.len() > 0 {
                        assert(build_data.spawn_list@[0].0 < build_data.map.tiles.len());
                        assert(width > 0) by (nonlinear_arith)
                            requires build_data.map.tiles.len() > 0, build_data.map.tiles.len() == width * build_data.map.height, 0 <= build_data.map.height, 0 <= width;
                    }
                    assert forall|i: int| 0 <= i < build_data.spawn_list.len() implies (#[trigger] build_data.spawn_list@[i]).0 <= i32::MAX by {
                        assert(build_data.spawn_list@[i].0 < build_data.map.tiles.len());
                    }
                }
                retain_outside(&mut build_data.spawn_list, width, width, b.0, b.1, b.2, b.3);
                proof {
                    assert forall|i: int| 0 <= i < build_data.spawn_list.len() implies (#[trigger] build_data.spawn_list@[i]).0 < build_data.map.tiles.len() by {
                        let j = choose|j: int| 0 <= j < old(build_data).spawn_list.len() && build_data.spawn_list@[i].0 == old(build_data).spawn_list@[j].0;
                        assert(old(build_data).spawn_list@[j].0 < old(build_data).map.tiles.len());
                    }
                }
            },
        }
        build_data.take_snapshot();
    }

    /// Stamps a whole level from its text, starting at the map's top-left corner;
    /// template cells beyond the map's right or bottom edge are ignored.
    pub fn load_ascii_map(&mut self, level: &PrefabLevel, build_data: &mut BuilderMap)
        requires
            old(build_data).map.wf(),
            spawns_on_map(*old(build_data)),
            level.width <= i32::MAX,
            level.height <= i32::MAX,
            level.width * level.height <= usize::MAX,
            stamp_fits(old(build_data).map, template_glyphs(level.template@).len() as int, level.width as int, level.height as int, 0, 0, 0),
        ensures
            *final(self) == *old(self),
            stamp_keeps(*final(build_data), *old(build_data)),
            plan_of(*final(build_data)) == glyphs_effect(
                plan_of(*old(build_data)),
                stamp_steps(template_glyphs(level.template@), level.width as int, level.width * level.height,
                    old(build_data).map.width as int, old(build_data).map.height as int, 0, 0, 0),
                old(build_data).map.width as int,
            ),
    {
        let glyphs = PrefabBuilder::read_ascii_to_vec(level.template);
        self.stamp_template(&glyphs, level.width, level.height, 0, 0, 0, build_data);
    }
}

/// A layer of a REX Paint image: `width` by `height` glyph codes, row by row.
pub struct RexLayer {
    pub width: usize,
    pub height: usize,
    pub glyphs: Vec<u32>,
}

/// A REX glyph code read as a template glyph: its low byte, as a character.
pub open spec fn rex_glyph(code: u32) -> char {
    ((code as int % 256) as u8) as char
}

/// The glyph steps of a layer: its cells that fall on a map `w` by `h`, row by row.
pub open spec fn rex_layer_steps(layer: RexLayer, w: int, h: int) -> Seq<(char, usize)> {
    stamp_steps(layer.glyphs@.map_values(|c: u32| rex_glyph(c)), layer.width as int, layer.width * layer.height, w, h, 0, 0, 0)
}

/// Stamping the first `k` layers in order.
pub open spec fn rex_effect(p: Plan, layers: Seq<RexLayer>, k: int, w: int, h: int) -> Plan
    decreases k,
{
    if k <= 0 {
        p
    } else {
        glyphs_effect(rex_effect(p, layers, k - 1, w, h), rex_layer_steps(layers[k - 1], w, h), w)
    }
}

/// A layer holds a glyph for each of its cells and is small enough to index.
pub open spec fn rex_layer_ok(layer: RexLayer) -> bool {
    &&& layer.width <= i32::MAX
    &&& layer.height <= i32::MAX
    &&& layer.width * layer.height <= layer.glyphs.len()
}

/// A vault is small enough to be placed on this map without its coordinates overflowing.
pub open spec fn vault_ok(m: GameMap, vault: PrefabRoom) -> bool {
    &&& vault.width <= i32::MAX
    &&& vault.height <= i32::MAX
    &&& vault.width * vault.height <= usize::MAX
    &&& m.width - 1 + vault.width <= i32::MAX
    &&& m.height - 1 + vault.height <= i32::MAX
}

/// Whether a vault is used at this depth.
pub open spec fn vault_applies(vault: PrefabRoom, depth: int) -> bool {
    vault.first_depth <= depth <= vault.last_depth
}

impl PrefabBuilder {
    /// Stamps a section, after dropping the spawns its box covers. A snapshot is taken
    /// after the spawns are dropped and again after stamping.
    pub fn apply_sectional(&mut self, section: &PrefabSection, rng: &mut RandomNumberGenerator, build_data: &mut BuilderMap)
        requires
            old(build_data).map.wf(),
            spawns_on_map(*old(build_data)),
            section.width <= i32::MAX,
            section.height <= i32::MAX,
            section.width * section.height <= usize::MAX,
            section.width >= 2 ==> old(build_data).map.width >= 1,
            section.width >= 2 && old(build_data).map.width >= 3 && section.height >= 2 ==> old(build_data).map.height >= 1,
            ({
                let o = section_origin(*section, old(build_data).map.width as int, old(build_data).map.height as int);
                stamp_fits(old(build_data).map, template_glyphs(section.template@).len() as int,
                    section.width as int, section.height as int, o.0, o.1, 1)
            }),
        ensures
            *final(self) == *old(self),
            final(build_data).map.wf(),
            final(build_data).map.same_but_tiles(&old(build_data).map),
            spawns_on_map(*final(build_data)),
            final(build_data).rooms == old(build_data).rooms,
            final(build_data).corridors == old(build_data).corridors,
            final(build_data).width == old(build_data).width,
            final(build_data).height == old(build_data).height,
            history_grows(final(build_data).history@, old(build_data).history@, 2),
            is_snapshot_of(final(build_data).history@.last(), final(build_data).map),
            ({
                let w = old(build_data).map.width as int;
                let h = old(build_data).map.height as int;
                let o = section_origin(*section, w, h);
                let p0 = plan_of(*old(build_data));
                let kept = spawns_outside(p0.1, w, w, o.0, o.0 + section.width, o.1, o.1 + section.height);
                plan_of(*final(build_data)) == glyphs_effect(
                    (p0.0, kept, p0.2),
                    stamp_steps(template_glyphs(section.template@), section.width as int, section.width * section.height, w, h, o.0, o.1, 1),
                    w,
                )
            }),
    {
        let glyphs = PrefabBuilder::read_ascii_to_vec(section.template);
        let w = build_data.map.width;
        let h = build_data.map.height;
        let sw = section.width as i32;
        let sh = section.height as i32;
        let chunk_x: i32 = match section.placement.0 {
            HorizontalPlacement::Left => 0,
            HorizontalPlacement::Center => (w / 2) - (sw / 2),
            HorizontalPlacement::Right => (w - 1) - sw,
        };
        let chunk_y: i32 = match section.placement.1 {
            VerticalPlacement::Top => 0,
            VerticalPlacement::Center => (h / 2) - (sh / 2),
            VerticalPlacement::Bottom => (h - 1) - sh,
        };
        assert((chunk_x as int, chunk_y as int) == section_origin(*section, w as int, h as int));
        self.apply_previous_iteration(
            Some((chunk_x as i64, chunk_x as i64 + sw as i64, chunk_y as i64, chunk_y as i64 + sh as i64)),
            build_data,
        );
        self.stamp_template(&glyphs, section.width, section.height, chunk_x, chunk_y, 1, build_data);
        build_data.take_snapshot();
    }

    /// The first position, in index order over every tile but the last, where the vault fits.
    fn find_vault_position(&self, build_data: &BuilderMap, vault: &PrefabRoom, used: &HashSet<usize>) -> (r: Option<Position>)
        requires
            build_data.map.wf(),
            build_data.map.tiles.len() >= 1,
            vault_ok(build_data.map, *vault),
        ensures
            match r {
                Some(p) => vault_first_fit(build_data.map, used@, *vault, p),
                None => vault_nowhere(build_data.map, used@, *vault),
            },
    {
        let ghost m = build_data.map;
        let ghost w = m.width as int;
        let ghost h = m.height as int;
        let ghost vw = vault.width as int;
        let ghost vh = vault.height as int;
        let len = build_data.map.tiles.len();
        proof {
            assert(w > 0 && h > 0) by (nonlinear_arith)
                requires len >= 1, len == w * h, 0 <= w, 0 <= h;
        }
        let wu = build_data.map.width as usize;
        let mut index: usize = 0;
        loop
            invariant
                m == build_data.map,
                m.wf(),
                len == m.tiles.len(),
                len >= 1,
                w > 0,
                h > 0,
                w == m.width,
                h == m.height,
                wu == w,
                vw == vault.width,
                vh == vault.height,
                vault_ok(m, *vault),
                index < vault_search_len(len as int),
                forall|j: int| 0 <= j < index ==> !#[trigger] vault_fits_at(m, used@, vw, vh, j),
            decreases len - index,
        {
            assert(index < len);
            proof { lemma_idx_decompose(w, h, index as int); }
            let x = (index % wu) as i32;
            let y = (index / wu) as i32;
            assert(x as int == index as int % w && y as int == index as int / w);
            if x > 1 && (x + vault.width as i32) < build_data.map.width - 2 && y > 1 && (y + vault.height as i32) < build_data.map.height - 2 {
                let mut possible = true;
                let mut ty: i32 = 0;
                while ty < vault.height as i32
                    invariant
                        m == build_data.map,
                        m.wf(),
                        w > 0,
                        h > 0,
                        w == m.width,
                        h == m.height,
                        vw == vault.width,
                        vh == vault.height,
                        vault_ok(m, *vault),
                        x > 1 && x + vw < w - 2 && y > 1 && y + vh < h - 2,
                        0 <= ty <= vh,
                        possible == forall|tx: int, ty2: int| 0 <= tx < vw && 0 <= ty2 < ty ==> {
                            &&& m.tiles@[#[trigger] idx(w, tx + x, ty2 + y)] == TileType::Floor
                            &&& !used@.contains(idx(w, tx + x, ty2 + y) as usize)
                        },
                    decreases vh - ty,
                {
                    let mut tx: i32 = 0;
                    while tx < vault.width as i32
                        invariant
                            m == build_data.map,
                            m.wf(),
                            w > 0,
                            h > 0,
                            w == m.width,
                            h == m.height,
                            vw == vault.width,
                            vh == vault.height,
                            vault_ok(m, *vault),
                            x > 1 && x + vw < w - 2 && y > 1 && y + vh < h - 2,
                            0 <= ty < vh,
                            0 <= tx <= vw,
                            possible == forall|tx2: int, ty2: int| 0 <= tx2 < vw && 0 <= ty2 <= ty && (ty2 < ty || tx2 < tx) ==> {
                                &&& m.tiles@[#[trigger] idx(w, tx2 + x, ty2 + y)] == TileType::Floor
                                &&& !used@.contains(idx(w, tx2 + x, ty2 + y) as usize)
                            },
                        decreases vw - tx,
                    {
                        proof { lemma_idx_in_bounds(w, h, tx + x, ty + y); }
                        let cell = build_data.map.xy_index(tx + x, ty + y);
                        let ghost before = possible;
                        if build_data.map.tiles[cell] != TileType::Floor {
                            possible = false;
                        }
                        if used.contains(&cell) {
                            possible = false;
                        }
                        proof {
                            if before && !possible {
                                assert(!(m.tiles@[idx(w, tx + x, ty + y)] == TileType::Floor
                                    && !used@.contains(idx(w, tx + x, ty + y) as usize)));
                            }
                        }
                        tx = tx + 1;
                    }
                    ty = ty + 1;
                }
                proof {
                    crate::map::lemma_idx_roundtrip(w, x as int, y as int);
                    assert(idx(w, x as int, y as int) == index);
                }
                if possible {
                    return Some(Position { x, y });
                }
            } else {
                proof {
                    crate::map::lemma_idx_roundtrip(w, x as int, y as int);
                }
            }
            index = index + 1;
            if index >= len - 1 {
                return None;
            }
        }
    }
}

/// Whether tile `i` of a map `w` wide lies in the `vw` by `vh` box at `(x, y)`.
pub open spec fn vault_cell(w: int, vw: int, vh: int, x: int, y: int, i: usize) -> bool {
    let col = i as int % w;
    let row = i as int / w;
    x <= col < x + vw && y <= row < y + vh
}

/// What a room-vault pass may change: tiles, spawns, the start (only through a vault
/// drawing `@`), and new snapshots.
pub open spec fn vaults_keep(new: BuilderMap, old: BuilderMap, vaults: Seq<PrefabRoom>) -> bool {
    &&& new.map.wf()
    &&& new.map.same_but_tiles(&old.map)
    &&& spawns_on_map(new)
    &&& new.rooms == old.rooms
    &&& new.corridors == old.corridors
    &&& new.width == old.width
    &&& new.height == old.height
    &&& new.history.len() >= old.history.len()
    &&& forall|i: int| 0 <= i < old.history.len() ==> #[trigger] new.history@[i] == old.history@[i]
    &&& (new.starting_position == old.starting_position
        || exists|k: int| 0 <= k < vaults.len() && template_glyphs((#[trigger] vaults[k]).template@).contains('@'))
}

impl PrefabBuilder {
    /// Places a vault with its corner at `pos`: drops the spawns its box covers (reading a
    /// spawn's row as its index divided by the map height), stamps its glyphs, marks its
    /// tiles as used and records a snapshot.
    fn place_vault(&mut self, build_data: &mut BuilderMap, vault: &PrefabRoom, pos: Position, used: &mut HashSet<usize>)
        requires
            old(build_data).map.wf(),
            spawns_on_map(*old(build_data)),
            vault_ok(old(build_data).map, *vault),
            vault_fits(old(build_data).map, old(used)@, vault.width as int, vault.height as int, pos.x as int, pos.y as int),
        ensures
            *final(self) == *old(self),
            vault_placed(*old(build_data), *final(build_data), old(used)@, final(used)@, *vault, pos),
    {
        let ghost w = build_data.map.width as int;
        let ghost h = build_data.map.height as int;
        let ghost vw = vault.width as int;
        let ghost vh = vault.height as int;
        let chunk_x = pos.x;
        let chunk_y = pos.y;
        let width = build_data.map.width;
        let height = build_data.map.height;
        proof {
            assert forall|i: int| 0 <= i < build_data.spawn_list.len() implies (#[trigger] build_data.spawn_list@[i]).0 <= i32::MAX by {
                assert(build_data.spawn_list@[i].0 < build_data.map.tiles.len());
            }
        }
        retain_outside(
            &mut build_data.spawn_list,
            width,
            height,
            chunk_x as i64,
            chunk_x as i64 + vault.width as i64,
            chunk_y as i64,
            chunk_y as i64 + vault.height as i64,
        );
        proof {
            assert forall|i: int| 0 <= i < build_data.spawn_list.len() implies (#[trigger] build_data.spawn_list@[i]).0 < build_data.map.tiles.len() by {
                let j = choose|j: int| 0 <= j < old(build_data).spawn_list.len() && build_data.spawn_list@[i].0 == old(build_data).spawn_list@[j].0;
                assert(old(build_data).spawn_list@[j].0 < old(build_data).map.tiles.len());
            }
            assert forall|tx: int, ty: int| 0 <= tx < vw && 0 <= ty < vh && #[trigger] stamp_included(2, tx, ty, w, h)
                implies in_grid(w, h, tx + chunk_x, ty + chunk_y) by {}
        }
        let glyphs = PrefabBuilder::read_ascii_to_vec(vault.template);
        self.stamp_template(&glyphs, vault.width, vault.height, chunk_x, chunk_y, 2, build_data);
        let mut ty: i32 = 0;
        while ty < vault.height as i32
            invariant
                build_data.map.wf(),
                w == build_data.map.width,
                h == build_data.map.height,
                vw == vault.width,
                vh == vault.height,
                vault_ok(old(build_data).map, *vault),
                chunk_x == pos.x,
                chunk_y == pos.y,
                chunk_x > 1 && chunk_x + vw < w - 2 && chunk_y > 1 && chunk_y + vh < h - 2,
                0 <= ty <= vh,
                forall|i: usize| #[trigger] used@.contains(i) <==> old(used)@.contains(i)
                    || (vault_cell(w, vw, vh, chunk_x as int, chunk_y as int, i) && (i as int / w) < chunk_y + ty),
            decreases vh - ty,
        {
            let mut tx: i32 = 0;
            while tx < vault.width as i32
                invariant
                    build_data.map.wf(),
                    w == build_data.map.width,
                    h == build_data.map.height,
                    vw == vault.width,
                    vh == vault.height,
                    vault_ok(old(build_data).map, *vault),
                    chunk_x == pos.x,
                    chunk_y == pos.y,
                    chunk_x > 1 && chunk_x + vw < w - 2 && chunk_y > 1 && chunk_y + vh < h - 2,
                    0 <= ty < vh,
                    0 <= tx <= vw,
                    forall|i: usize| #[trigger] used@.contains(i) <==> old(used)@.contains(i)
                        || (vault_cell(w, vw, vh, chunk_x as int, chunk_y as int, i) && ((i as int / w) < chunk_y + ty
                            || ((i as int / w) == chunk_y + ty && (i as int % w) < chunk_x + tx))),
                decreases vw - tx,
            {
                proof {
                    lemma_idx_in_bounds(w, h, tx + chunk_x, ty + chunk_y);
                    lemma_idx_roundtrip(w, tx + chunk_x, ty + chunk_y);
                }
                let index = build_data.map.xy_index(tx + chunk_x, ty + chunk_y);
                used.insert(index);
                proof {
                    assert forall|i: usize| #[trigger] used@.contains(i) <==> old(used)@.contains(i)
                        || (vault_cell(w, vw, vh, chunk_x as int, chunk_y as int, i) && ((i as int / w) < chunk_y + ty
                            || ((i as int / w) == chunk_y + ty && (i as int % w) < chunk_x + tx + 1))) by {
                        if i as int / w == ty + chunk_y && i as int % w == tx + chunk_x {
                            vstd::arithmetic::div_mod::lemma_fundamental_div_mod(i as int, w);
                            assert(i as int == w * (ty + chunk_y) + (tx + chunk_x));
                            assert(i == index);
                        }
                    }
                }
                tx = tx + 1;
            }
            ty = ty + 1;
        }
        build_data.take_snapshot();
    }

    /// One vault turn: takes the vault that `pick` names in the remaining list (the only
    /// one when one is left), places it at the first place it fits and drops it from the
    /// list, or leaves everything as it is where it fits nowhere. The result says whether
    /// a vault was placed.
    pub fn vault_turn(&mut self, build_data: &mut BuilderMap, possible: &mut Vec<PrefabRoom>, used: &mut HashSet<usize>, pick: i32) -> (placed: bool)
        requires
            old(build_data).map.wf(),
            old(build_data).map.tiles.len() >= 1,
            spawns_on_map(*old(build_data)),
            old(possible).len() >= 1,
            old(possible).len() > 1 ==> 1 <= pick <= old(possible).len(),
            forall|k: int| 0 <= k < old(possible).len() ==> vault_ok(old(build_data).map, #[trigger] old(possible)@[k]),
        ensures
            *final(self) == *old(self),
            vault_turn_spec(*old(build_data), old(used)@, old(possible)@, pick as int,
                *final(build_data), final(used)@, final(possible)@, placed),
    {
        let len = possible.len();
        let vault_index: usize = if len == 1 { 0 } else { (pick - 1) as usize };
        let vault = possible[vault_index];
        let ghost b0 = *build_data;
        let ghost u0 = used@;
        match self.find_vault_position(build_data, &vault, used) {
            Some(pos) => {
                self.place_vault(build_data, &vault, pos, used);
                possible.remove(vault_index);
                assert(vault_placed(b0, *build_data, u0, used@, vault, pos));
                true
            },
            None => false,
        }
    }

    /// The vaults of the list that apply at `depth`, in order.
    pub fn eligible_vaults(master_vault_list: &Vec<PrefabRoom>, depth: i32) -> (r: Vec<PrefabRoom>)
        ensures
            r@ == eligible(master_vault_list@, depth as int),
    {
        let mut r: Vec<PrefabRoom> = Vec::new();
        let mut k: usize = 0;
        while k < master_vault_list.len()
            invariant
                k <= master_vault_list.len(),
                r@ == eligible(master_vault_list@.take(k as int), depth as int),
            decreases master_vault_list.len() - k,
        {
            assert(master_vault_list@.take(k + 1).drop_last() =~= master_vault_list@.take(k as int));
            let v = master_vault_list[k];
            if depth >= v.first_depth && depth <= v.last_depth {
                r.push(v);
            }
            assert(r@ =~= eligible(master_vault_list@.take(k + 1), depth as int));
            k = k + 1;
        }
        assert(master_vault_list@.take(master_vault_list.len() as int) =~= master_vault_list@);
        r
    }

    /// How many vault turns to take, given the d6 `roll`, the d3 `count` and how many vaults
    /// apply: none when the roll plus the depth is under 4 or none apply, else the count but
    /// no more than apply.
    pub fn vault_turn_count(roll: i32, depth: i32, count: i32, n_eligible: usize) -> (n: i32)
        requires
            i32::MIN <= roll + depth <= i32::MAX,
            0 <= count,
        ensures
            n == vault_turns(roll as int, depth as int, count as int, n_eligible as int),
    {
        if roll + depth < 4 || n_eligible == 0 {
            0
        } else if (count as usize) < n_eligible {
            count
        } else {
            n_eligible as i32
        }
    }

    /// Puts up to three vaults (fewer when fewer apply at this depth) on open floor, when a
    /// d6 plus the depth reaches 4: a d3 says how many turns, and each turn draws one of
    /// the vaults not yet placed (see `vault_turn`). A snapshot is taken first and after
    /// each placed vault.
    pub fn apply_room_vaults(&mut self, rng: &mut RandomNumberGenerator, build_data: &mut BuilderMap, master_vault_list: &Vec<PrefabRoom>)
        requires
            old(build_data).map.wf(),
            spawns_on_map(*old(build_data)),
            old(build_data).map.depth <= i32::MAX - 6,
            master_vault_list.len() < i32::MAX,
            forall|k: int| 0 <= k < master_vault_list.len() ==> vault_ok(old(build_data).map, #[trigger] master_vault_list@[k]),
            old(build_data).map.tiles.len() >= 1
                || forall|k: int| 0 <= k < master_vault_list.len() ==> !vault_applies(#[trigger] master_vault_list@[k], old(build_data).map.depth as int),
        ensures
            *final(self) == *old(self),
            exists|roll: int, count: int, picks: Seq<int>, tr: Seq<BuilderMap>, us: Seq<Set<usize>>, ps: Seq<Seq<PrefabRoom>>, pl: Seq<bool>|
                #[trigger] vault_run(*old(build_data), *final(build_data), master_vault_list@, roll, count, picks, tr, us, ps, pl),
            old(build_data).map.depth >= 3 && eligible(master_vault_list@, old(build_data).map.depth as int).len() > 0
                && all_eligible_fit(old(build_data).map, master_vault_list@)
                ==> final(build_data).history.len() >= old(build_data).history.len() + 2,
            final(build_data).history.len() >= old(build_data).history.len() + 1,
            vaults_keep(*final(build_data), *old(build_data), master_vault_list@),
    {
        // Keep everything the previous builders spawned.
        self.apply_previous_iteration(None, build_data);
        let ghost b0 = *build_data;
        let ghost dep = old(build_data).map.depth as int;
        let ghost elig = eligible(master_vault_list@, dep);
        let roll = roll_dice(rng, 1, 6);
        let depth = build_data.map.depth;
        if roll + depth < 4 {
            assert(vault_run(*old(build_data), *build_data, master_vault_list@, roll as int, 1, seq![], seq![b0],
                seq![Set::<usize>::empty()], seq![elig], seq![]));
            return;
        }
        let mut possible_vaults = PrefabBuilder::eligible_vaults(master_vault_list, depth);
        if possible_vaults.len() == 0 {
            assert(vault_run(*old(build_data), *build_data, master_vault_list@, roll as int, 1, seq![], seq![b0],
                seq![Set::<usize>::empty()], seq![elig], seq![]));
            return;
        }
        proof {
            lemma_eligible_len(master_vault_list@, dep);
            lemma_eligible_from(master_vault_list@, dep, 0);
            let m0 = choose|m: int| 0 <= m < master_vault_list.len() && #[trigger] master_vault_list@[m] == elig[0]
                && vault_applies(master_vault_list@[m], dep);
            assert(vault_applies(master_vault_list@[m0], old(build_data).map.depth as int));
            assert(build_data.map.tiles.len() >= 1);
            assert forall|j: int| 0 <= j < possible_vaults.len() implies exists|m: int| 0 <= m < master_vault_list.len()
                && #[trigger] possible_vaults@[j] == master_vault_list@[m] by {
                lemma_eligible_from(master_vault_list@, dep, j);
            }
            assert forall|j: int| 0 <= j < possible_vaults.len() implies vault_ok(build_data.map, #[trigger] possible_vaults@[j]) by {
                lemma_eligible_from(master_vault_list@, dep, j);
                let m = choose|m: int| 0 <= m < master_vault_list.len() && #[trigger] master_vault_list@[m] == elig[j]
                    && vault_applies(master_vault_list@[m], dep);
                assert(vault_ok(old(build_data).map, master_vault_list@[m]));
            }
        }

        let count_roll = roll_dice(rng, 1, 3);
        let n_vaults = PrefabBuilder::vault_turn_count(roll, depth, count_roll, possible_vaults.len());
        let mut used_tiles: HashSet<usize> = HashSet::new();
        let ghost mut trace: Seq<BuilderMap> = seq![b0];
        let ghost mut uses: Seq<Set<usize>> = seq![used_tiles@];
        let ghost mut lists: Seq<Seq<PrefabRoom>> = seq![possible_vaults@];
        let ghost mut picks: Seq<int> = seq![];
        let ghost mut placed_flags: Seq<bool> = seq![];
        let mut i: i32 = 0;
        while i < n_vaults
            invariant
                *self == *old(self),
                0 <= i <= n_vaults,
                n_vaults == vault_turns(roll as int, dep, count_roll as int, elig.len() as int),
                n_vaults <= possible_vaults.len() + i,
                possible_vaults.len() <= master_vault_list.len(),
                master_vault_list.len() < i32::MAX,
                forall|j: int| 0 <= j < possible_vaults.len() ==> exists|m: int| 0 <= m < master_vault_list.len()
                    && #[trigger] possible_vaults@[j] == master_vault_list@[m],
                vaults_keep(*build_data, *old(build_data), master_vault_list@),
                build_data.map.wf(),
                build_data.map.tiles.len() >= 1,
                build_data.map.width == old(build_data).map.width,
                build_data.map.height == old(build_data).map.height,
                spawns_on_map(*build_data),
                build_data.history.len() >= old(build_data).history.len() + 1,
                dep == old(build_data).map.depth,
                forall|j: int| 0 <= j < possible_vaults.len() ==> vault_ok(old(build_data).map, #[trigger] possible_vaults@[j]),
                trace.len() == i + 1,
                uses.len() == i + 1,
                lists.len() == i + 1,
                picks.len() == i,
                placed_flags.len() == i,
                vaults_opened(*old(build_data), trace[0]),
                uses[0] == Set::<usize>::empty(),
                lists[0] == elig,
                trace.last() == *build_data,
                uses.last() == used_tiles@,
                lists.last() == possible_vaults@,
                i >= 1 && placed_flags[0] ==> build_data.history.len() >= old(build_data).history.len() + 2,
                i == 0 ==> build_data.history.len() == old(build_data).history.len() + 1 && build_data.map == old(build_data).map,
                forall|q: int| 0 <= q < i ==> #[trigger] picks[q] >= 1 && (lists[q].len() > 1 ==> picks[q] <= lists[q].len()),
                forall|q: int| 0 <= q < i ==> #[trigger] vault_turn_spec(trace[q], uses[q], lists[q], picks[q], trace[q + 1], uses[q + 1], lists[q + 1], placed_flags[q]),
            decreases n_vaults - i,
        {
            let len = possible_vaults.len();
            let pick: i32 = if len == 1 { 1 } else { roll_dice(rng, 1, len as i32) };
            assert(len > 1 ==> 1 <= pick <= len);
            proof {
                assert forall|j: int| 0 <= j < possible_vaults.len() implies vault_ok(build_data.map, #[trigger] possible_vaults@[j]) by {
                    assert(vault_ok(old(build_data).map, possible_vaults@[j]));
                }
            }
            let ghost before = *build_data;
            let ghost used_before = used_tiles@;
            let ghost list_before = possible_vaults@;
            let ghost hist_before = build_data.history.len();
            let placed = self.vault_turn(build_data, &mut possible_vaults, &mut used_tiles, pick);
            proof {
                let k = pick_index(list_before.len() as int, pick as int);
                if placed {
                    let pos = choose|pos: Position| vault_first_fit(before.map, used_before, list_before[k], pos)
                        && #[trigger] vault_placed(before, *build_data, used_before, used_tiles@, list_before[k], pos);
                    assert(vault_placed(before, *build_data, used_before, used_tiles@, list_before[k], pos));
                    assert(build_data.history.len() == hist_before + 1);
                    assert forall|j: int| 0 <= j < possible_vaults.len() implies vault_ok(old(build_data).map, #[trigger] possible_vaults@[j])
                        && exists|m: int| 0 <= m < master_vault_list.len() && #[trigger] possible_vaults@[j] == master_vault_list@[m] by {
                        if j < k {
                            assert(possible_vaults@[j] == list_before[j]);
                        } else {
                            assert(possible_vaults@[j] == list_before[j + 1]);
                        }
                    }
                    let m = choose|m: int| 0 <= m < master_vault_list.len() && #[trigger] list_before[k] == master_vault_list@[m];
                    assert forall|j: int| 0 <= j < old(build_data).history.len() implies #[trigger] build_data.history@[j] == old(build_data).history@[j] by {
                        assert(before.history@[j] == old(build_data).history@[j]);
                    }
                    if build_data.starting_position != old(build_data).starting_position {
                        if before.starting_position == old(build_data).starting_position {
                            assert(template_glyphs(master_vault_list@[m].template@).contains('@'));
                        }
                    }
                    assert(vaults_keep(*build_data, *old(build_data), master_vault_list@));
                }
                let t0 = trace;
                let u0 = uses;
                let l0 = lists;
                let k0 = picks;
                let f0 = placed_flags;
                trace = trace.push(*build_data);
                uses = uses.push(used_tiles@);
                lists = lists.push(possible_vaults@);
                picks = picks.push(pick as int);
                placed_flags = placed_flags.push(placed);
                assert forall|q: int| 0 <= q < i + 1 implies #[trigger] picks[q] >= 1 && (lists[q].len() > 1 ==> picks[q] <= lists[q].len()) by {
                    if q < i {
                        assert(picks[q] == k0[q] && lists[q] == l0[q]);
                    }
                }
                assert forall|q: int| 0 <= q < i + 1 implies #[trigger] vault_turn_spec(trace[q], uses[q], lists[q], picks[q], trace[q + 1], uses[q + 1], lists[q + 1], placed_flags[q]) by {
                    if q < i {
                        assert(trace[q] == t0[q] && trace[q + 1] == t0[q + 1] && uses[q] == u0[q] && uses[q + 1] == u0[q + 1]);
                        assert(lists[q] == l0[q] && lists[q + 1] == l0[q + 1] && picks[q] == k0[q] && placed_flags[q] == f0[q]);
                        assert(vault_turn_spec(t0[q], u0[q], l0[q], k0[q], t0[q + 1], u0[q + 1], l0[q + 1], f0[q]));
                    } else {
                        assert(trace[q] == before && uses[q] == used_before && lists[q] == list_before);
                        assert(trace[q + 1] == *build_data && uses[q + 1] == used_tiles@ && lists[q + 1] == possible_vaults@);
                        assert(picks[q] == pick as int && placed_flags[q] == placed);
                    }
                }
            }
            i = i + 1;
        }
        proof {
            assert(vault_run(*old(build_data), *build_data, master_vault_list@, roll as int, count_roll as int, picks, trace, uses, lists, placed_flags));
            if dep >= 3 && elig.len() > 0 && all_eligible_fit(old(build_data).map, master_vault_list@) {
                assert(n_vaults >= 1);
                assert(vault_turn_spec(trace[0], uses[0], lists[0], picks[0], trace[1], uses[1], lists[1], placed_flags[0]));
                let k = pick_index(lists[0].len() as int, picks[0]);
                assert(trace[0].map == old(build_data).map);
                assert(!vault_nowhere(old(build_data).map, Set::<usize>::empty(), elig[k]));
            }
        }
    }
}

/// The template glyphs of a REX layer.
fn rex_chars(layer: &RexLayer) -> (v: Vec<char>)
    ensures
        v@ == layer.glyphs@.map_values(|c: u32| rex_glyph(c)),
{
    let mut v: Vec<char> = Vec::new();
    let mut i: usize = 0;
    while i < layer.glyphs.len()
        invariant
            i <= layer.glyphs.len(),
            v@ =~= layer.glyphs@.take(i as int).map_values(|c: u32| rex_glyph(c)),
        decreases layer.glyphs.len() - i,
    {
        let code = layer.glyphs[i];
        let byte = (code % 256) as u8;
        v.push(byte as char);
        i = i + 1;
    }
    assert(layer.glyphs@.take(layer.glyphs.len() as int) =~= layer.glyphs@);
    v
}

/// What a prefab build needs: for each mode, inputs it can stamp without leaving the map or overflowing.
pub open spec fn prefab_build_ok(mode: PrefabMode, bd: BuilderMap, rex_layers: Seq<RexLayer>, vaults: Seq<PrefabRoom>) -> bool {
    &&& bd.map.wf()
    &&& spawns_on_map(bd)
    &&& match mode {
        PrefabMode::RexLevel { .. } => forall|k: int| 0 <= k < rex_layers.len() ==> rex_layer_ok(#[trigger] rex_layers[k]),
        PrefabMode::Constant { level } => {
            &&& level.width <= i32::MAX
            &&& level.height <= i32::MAX
            &&& level.width * level.height <= usize::MAX
            &&& stamp_fits(bd.map, template_glyphs(level.template@).len() as int, level.width as int, level.height as int, 0, 0, 0)
        },
        PrefabMode::Sectional { section } => {
            &&& section.width <= i32::MAX
            &&& section.height <= i32::MAX
            &&& section.width * section.height <= usize::MAX
            &&& section.width >= 2 ==> bd.map.width >= 1
            &&& section.width >= 2 && bd.map.width >= 3 && section.height >= 2 ==> bd.map.height >= 1
            &&& ({
                let o = section_origin(section, bd.map.width as int, bd.map.height as int);
                stamp_fits(bd.map, template_glyphs(section.template@).len() as int, section.width as int, section.height as int, o.0, o.1, 1)
            })
        },
        PrefabMode::RoomVaults => {
            &&& bd.map.depth <= i32::MAX - 6
            &&& vaults.len() < i32::MAX
            &&& forall|k: int| 0 <= k < vaults.len() ==> vault_ok(bd.map, #[trigger] vaults[k])
            &&& bd.map.tiles.len() >= 1 || forall|k: int| 0 <= k < vaults.len() ==> !vault_applies(#[trigger] vaults[k], bd.map.depth as int)
        },
    }
}

impl PrefabBuilder {
    /// Stamps every layer of a REX Paint level in turn, each from the map's top-left corner.
    pub fn load_rex_map(&mut self, layers: &Vec<RexLayer>, build_data: &mut BuilderMap)
        requires
            old(build_data).map.wf(),
            spawns_on_map(*old(build_data)),
            forall|k: int| 0 <= k < layers.len() ==> rex_layer_ok(#[trigger] layers@[k]),
        ensures
            *final(self) == *old(self),
            stamp_keeps(*final(build_data), *old(build_data)),
            plan_of(*final(build_data)) == rex_effect(
                plan_of(*old(build_data)), layers@, layers.len() as int,
                old(build_data).map.width as int, old(build_data).map.height as int,
            ),
    {
        let ghost w = build_data.map.width as int;
        let ghost h = build_data.map.height as int;
        let mut k: usize = 0;
        while k < layers.len()
            invariant
                *self == *old(self),
                k <= layers.len(),
                w == build_data.map.width,
                h == build_data.map.height,
                forall|j: int| 0 <= j < layers.len() ==> rex_layer_ok(#[trigger] layers@[j]),
                stamp_keeps(*build_data, *old(build_data)),
                plan_of(*build_data) == rex_effect(plan_of(*old(build_data)), layers@, k as int, w, h),
            decreases layers.len() - k,
        {
            let layer = &layers[k];
            assert(rex_layer_ok(*layer));
            let chars = rex_chars(layer);
            proof {
                let lw = layer.width as int;
                let lh = layer.height as int;
                assert forall|tx: int, ty: int|
                    0 <= tx < lw && 0 <= ty < lh && #[trigger] stamp_included(0, tx, ty, w, h)
                    implies in_grid(w, h, tx + 0, ty + 0) && idx(lw, tx, ty) < chars.len() by {
                    assert(idx(lw, tx, ty) < lw * lh) by (nonlinear_arith)
                        requires 0 <= tx < lw, 0 <= ty < lh;
                }
                assert(lw * lh <= usize::MAX) by (nonlinear_arith)
                    requires lw * lh <= layer.glyphs.len(), layer.glyphs.len() <= usize::MAX;
            }
            self.stamp_template(&chars, layer.width, layer.height, 0, 0, 0, build_data);
            k = k + 1;
        }
    }

    /// Runs the builder in its mode. A REX level takes its layers from `rex_layers`;
    /// room vaults are drawn from `vault_list`.
    pub fn build(&mut self, rng: &mut RandomNumberGenerator, build_data: &mut BuilderMap, rex_layers: &Vec<RexLayer>, vault_list: &Vec<PrefabRoom>)
        requires
            prefab_build_ok(old(self).mode, *old(build_data), rex_layers@, vault_list@),
        ensures
            *final(self) == *old(self),
            final(build_data).map.wf(),
            final(build_data).map.same_but_tiles(&old(build_data).map),
            spawns_on_map(*final(build_data)),
            match old(self).mode {
                PrefabMode::RexLevel { .. } => {
                    &&& stamp_keeps(*final(build_data), *old(build_data))
                    &&& plan_of(*final(build_data)) == rex_effect(plan_of(*old(build_data)), rex_layers@, rex_layers.len() as int,
                        old(build_data).map.width as int, old(build_data).map.height as int)
                },
                PrefabMode::Constant { level } => {
                    &&& stamp_keeps(*final(build_data), *old(build_data))
                    &&& plan_of(*final(build_data)) == glyphs_effect(
                        plan_of(*old(build_data)),
                        stamp_steps(template_glyphs(level.template@), level.width as int, level.width * level.height,
                            old(build_data).map.width as int, old(build_data).map.height as int, 0, 0, 0),
                        old(build_data).map.width as int)
                },
                PrefabMode::Sectional { section } => {
                    let w = old(build_data).map.width as int;
                    let h = old(build_data).map.height as int;
                    let o = section_origin(section, w, h);
                    let p0 = plan_of(*old(build_data));
                    let kept = spawns_outside(p0.1, w, w, o.0, o.0 + section.width, o.1, o.1 + section.height);
                    &&& history_grows(final(build_data).history@, old(build_data).history@, 2)
                    &&& plan_of(*final(build_data)) == glyphs_effect((p0.0, kept, p0.2),
                        stamp_steps(template_glyphs(section.template@), section.width as int, section.width * section.height, w, h, o.0, o.1, 1), w)
                },
                PrefabMode::RoomVaults => {
                    &&& vaults_keep(*final(build_data), *old(build_data), vault_list@)
                    &&& final(build_data).history.len() >= old(build_data).history.len() + 1
                },
            },
    {
        match self.mode {
            PrefabMode::RexLevel { .. } => self.load_rex_map(rex_layers, build_data),
            PrefabMode::Constant { level } => self.load_ascii_map(&level, build_data),
            PrefabMode::Sectional { section } => self.apply_sectional(&section, rng, build_data),
            PrefabMode::RoomVaults => self.apply_room_vaults(rng, build_data, vault_list),
        }
    }
}

} // verus!
