//! Builder chains: which builders run, in which order, to make a level.
use vstd::prelude::*;
use rltk::RandomNumberGenerator;
use crate::map::GameMap;
use crate::map_builders::BuilderMap;
use crate::rng::roll_dice;

verus! {

/// The order in which rooms are sorted before corridors join them.
#[derive(PartialEq, Eq, Structural, Copy, Clone, Debug)]
pub enum RoomSort {
    Leftmost,
    Rightmost,
    Topmost,
    Bottommost,
    Central,
}

/// Where, across the map, an area start lies.
#[derive(PartialEq, Eq, Structural, Copy, Clone, Debug)]
pub enum XStart {
    Left,
    Center,
    Right,
}

/// Where, down the map, an area start lies.
#[derive(PartialEq, Eq, Structural, Copy, Clone, Debug)]
pub enum YStart {
    Top,
    Center,
    Bottom,
}

/// The builder that lays down a level's first shape.
#[derive(PartialEq, Eq, Structural, Copy, Clone, Debug)]
pub enum InitialStep {
    SimpleMap,
    BspDungeon,
    BspInterior,
    CellularAutomata,
    DrunkardOpenArea,
    DrunkardOpenHalls,
    DrunkardWindingPassages,
    DrunkardFatPassages,
    DrunkardFearfulSymmetry,
    Maze,
    DlaWalkInwards,
    DlaWalkOutwards,
    DlaCentralAttractor,
    DlaInsectoid,
    VoronoiPythagoras,
    VoronoiManhattan,
    /// The constant prefab level populated by wave-function collapse.
    PrefabWfcPopulated,
}

/// A builder that reworks the level after the first shape.
#[derive(PartialEq, Eq, Structural, Copy, Clone, Debug)]
pub enum MetaStep {
    RoomSorter { sort: RoomSort },
    RoomDrawer,
    DoglegCorridors,
    NearestCorridors,
    StraightLineCorridors,
    BspCorridors,
    CorridorSpawner,
    RoomExploder,
    RoomCornerRounder,
    RoomBasedStartingPosition,
    AreaStartingPosition { x: XStart, y: YStart },
    RoomBasedStairs,
    DistantExit,
    RoomBasedSpawner,
    VoronoiSpawning,
    WaveformCollapse,
    CullUnreachable,
    /// The underground fort placed as a prefab section.
    PrefabUndergroundFort,
    DoorPlacement,
    PrefabVaults,
    CaveDecorator,
}

/// A level's plan: its first builder, the builders that follow, and the data they shape.
pub struct BuilderChain {
    pub starter: Option<InitialStep>,
    pub builders: Vec<MetaStep>,
    pub build_data: BuilderMap,
}

/// A d`n` roll.
pub open spec fn die(r: int, n: int) -> bool {
    1 <= r <= n
}

/// The area start named by a d3 roll across (left, center, right) and a d3 roll down
/// (bottom, center, top).
pub open spec fn start_position_for(x_roll: int, y_roll: int) -> (XStart, YStart) {
    (if x_roll == 1 { XStart::Left } else if x_roll == 2 { XStart::Center } else { XStart::Right },
     if y_roll == 1 { YStart::Bottom } else if y_roll == 2 { YStart::Center } else { YStart::Top })
}

/// The area-start step for a pair of rolls.
pub open spec fn area_start(x_roll: int, y_roll: int) -> MetaStep {
    MetaStep::AreaStartingPosition { x: start_position_for(x_roll, y_roll).0, y: start_position_for(x_roll, y_roll).1 }
}

/// The first builder of a room-based level, on a d3.
pub open spec fn room_starter(roll: int) -> InitialStep {
    if roll == 1 { InitialStep::SimpleMap } else if roll == 2 { InitialStep::BspDungeon } else { InitialStep::BspInterior }
}

/// The room order, on a d5.
pub open spec fn room_sort_for(roll: int) -> RoomSort {
    if roll == 1 {
        RoomSort::Leftmost
    } else if roll == 2 {
        RoomSort::Rightmost
    } else if roll == 3 {
        RoomSort::Topmost
    } else if roll == 4 {
        RoomSort::Bottommost
    } else {
        RoomSort::Central
    }
}

/// The corridor builder, on a d4.
pub open spec fn corridors_for(roll: int) -> MetaStep {
    if roll == 1 {
        MetaStep::DoglegCorridors
    } else if roll == 2 {
        MetaStep::NearestCorridors
    } else if roll == 3 {
        MetaStep::StraightLineCorridors
    } else {
        MetaStep::BspCorridors
    }
}

/// The rolls that choose a room-based level.
#[derive(PartialEq, Eq, Structural, Copy, Clone, Debug)]
pub struct RoomRolls {
    pub build_room: i32,
    pub sort: i32,
    pub corridors: i32,
    pub corridor_spawner: i32,
    pub modifier: i32,
    pub start: i32,
    pub start_x: i32,
    pub start_y: i32,
    pub exit: i32,
    pub spawn: i32,
}

/// Every roll is on its die.
pub open spec fn room_rolls_ok(r: RoomRolls) -> bool {
    &&& die(r.build_room as int, 3)
    &&& die(r.sort as int, 5)
    &&& die(r.corridors as int, 4)
    &&& die(r.corridor_spawner as int, 2)
    &&& die(r.modifier as int, 6)
    &&& die(r.start as int, 2)
    &&& die(r.start_x as int, 3)
    &&& die(r.start_y as int, 3)
    &&& die(r.exit as int, 2)
    &&& die(r.spawn as int, 2)
}

/// The builders that lay out rooms: sort them, draw them, join them, maybe spawn in the
/// corridors (on a 1 of a d2), and maybe explode (1) or round (2) the rooms (on a d6).
pub open spec fn room_layout(sort: int, corridors: int, corridor_spawner: int, modifier: int) -> Seq<MetaStep> {
    seq![MetaStep::RoomSorter { sort: room_sort_for(sort) }, MetaStep::RoomDrawer, corridors_for(corridors)]
    + (if corridor_spawner == 1 { seq![MetaStep::CorridorSpawner] } else { Seq::empty() })
    + (if modifier == 1 { seq![MetaStep::RoomExploder] } else if modifier == 2 { seq![MetaStep::RoomCornerRounder] } else { Seq::empty() })
}

/// The start (by room on a 1 of a d2, else a random area), the exit (stairs in a room on
/// a 1 of a d2, else far away) and the spawning (by room on a 1 of a d2, else by region).
pub open spec fn room_finish(start: int, start_x: int, start_y: int, exit: int, spawn: int) -> Seq<MetaStep> {
    seq![
        if start == 1 { MetaStep::RoomBasedStartingPosition } else { area_start(start_x, start_y) },
        if exit == 1 { MetaStep::RoomBasedStairs } else { MetaStep::DistantExit },
        if spawn == 1 { MetaStep::RoomBasedSpawner } else { MetaStep::VoronoiSpawning },
    ]
}

/// The builders a room-based level adds after its first: the room layout, unless the
/// rooms come from the BSP interior (a 3), then the start, exit and spawning.
pub open spec fn room_steps(r: RoomRolls) -> Seq<MetaStep> {
    (if r.build_room != 3 {
        room_layout(r.sort as int, r.corridors as int, r.corridor_spawner as int, r.modifier as int)
    } else {
        Seq::empty()
    })
    + room_finish(r.start as int, r.start_x as int, r.start_y as int, r.exit as int, r.spawn as int)
}

/// The first builder of a shape-based level, on a d16.
pub open spec fn shape_starter(roll: int) -> InitialStep {
    if roll == 1 {
        InitialStep::CellularAutomata
    } else if roll == 2 {
        InitialStep::DrunkardOpenArea
    } else if roll == 3 {
        InitialStep::DrunkardOpenHalls
    } else if roll == 4 {
        InitialStep::DrunkardWindingPassages
    } else if roll == 5 {
        InitialStep::DrunkardFatPassages
    } else if roll == 6 {
        InitialStep::DrunkardFearfulSymmetry
    } else if roll == 7 {
        InitialStep::Maze
    } else if roll == 8 {
        InitialStep::DlaWalkInwards
    } else if roll == 9 {
        InitialStep::DlaWalkOutwards
    } else if roll == 10 {
        InitialStep::DlaCentralAttractor
    } else if roll == 11 {
        InitialStep::DlaInsectoid
    } else if roll == 12 {
        InitialStep::VoronoiPythagoras
    } else if roll == 13 {
        InitialStep::VoronoiManhattan
    } else {
        InitialStep::PrefabWfcPopulated
    }
}

/// The builders a shape-based level adds: start in the center, cull what it cannot
/// reach, move the start to a random area, spawn, and place the exit far away.
pub open spec fn shape_steps(start_x: int, start_y: int) -> Seq<MetaStep> {
    seq![
        MetaStep::AreaStartingPosition { x: XStart::Center, y: YStart::Center },
        MetaStep::CullUnreachable,
        area_start(start_x, start_y),
        MetaStep::VoronoiSpawning,
        MetaStep::DistantExit,
    ]
}

/// The builders every random level ends with: on a 1 of a d3, a wave-function-collapse
/// rework with a random area start, spawning and a distant exit; on a 1 of a d20, the
/// underground fort; then doors and vaults.
pub open spec fn finishing_steps(wfc: int, start_x: int, start_y: int, fort: int) -> Seq<MetaStep> {
    (if wfc == 1 {
        seq![MetaStep::WaveformCollapse, area_start(start_x, start_y), MetaStep::VoronoiSpawning, MetaStep::DistantExit]
    } else {
        Seq::empty()
    })
    + (if fort == 1 { seq![MetaStep::PrefabUndergroundFort] } else { Seq::empty() })
    + seq![MetaStep::DoorPlacement, MetaStep::PrefabVaults]
}

/// A room-based plan: some rolls choose this first builder and these steps.
pub open spec fn room_plan(starter: Option<InitialStep>, steps: Seq<MetaStep>) -> bool {
    exists|r: RoomRolls| room_rolls_ok(r) && starter == Some(room_starter(r.build_room as int))
        && steps == #[trigger] room_steps(r)
}

/// A shape-based plan: some rolls choose this first builder and these steps.
pub open spec fn shape_plan(starter: Option<InitialStep>, steps: Seq<MetaStep>) -> bool {
    exists|roll: int, start_x: int, start_y: int| die(roll, 16) && die(start_x, 3) && die(start_y, 3)
        && starter == Some(#[trigger] shape_starter(roll)) && steps == #[trigger] shape_steps(start_x, start_y)
}

/// The finishing steps of a random level, for some rolls.
pub open spec fn finishing_plan(steps: Seq<MetaStep>) -> bool {
    exists|wfc: int, start_x: int, start_y: int, fort: int| die(wfc, 3) && die(start_x, 3) && die(start_y, 3)
        && die(fort, 20) && steps == #[trigger] finishing_steps(wfc, start_x, start_y, fort)
}

/// Build data for a new level: a map of solid walls and nothing else yet.
pub open spec fn fresh_build_data(bd: BuilderMap, new_depth: i32, width: i32, height: i32, name: Seq<char>) -> bool {
    &&& bd.spawn_list@.len() == 0
    &&& bd.map.wf()
    &&& bd.map.width == width
    &&& bd.map.height == height
    &&& bd.map.depth == new_depth
    &&& bd.map.name@ == name
    &&& forall|i: int| 0 <= i < bd.map.tiles.len() ==> bd.map.tiles@[i] == crate::tile::TileType::Wall
    &&& bd.starting_position is None
    &&& bd.rooms is None
    &&& bd.corridors is None
    &&& bd.history@.len() == 0
    &&& bd.width == width
    &&& bd.height == height
}

/// A map's dimensions that fit.
pub open spec fn dims_ok(width: i32, height: i32) -> bool {
    0 <= width && 0 <= height && width * height <= i32::MAX
}

impl BuilderChain {
    /// An empty chain over a new all-wall map.
    pub fn new(new_depth: i32, width: i32, height: i32, name: &str) -> (c: BuilderChain)
        requires
            dims_ok(width, height),
        ensures
            c.starter is None,
            c.builders@.len() == 0,
            fresh_build_data(c.build_data, new_depth, width, height, name@),
    {
        BuilderChain {
            starter: None,
            builders: Vec::new(),
            build_data: BuilderMap {
                spawn_list: Vec::new(),
                map: GameMap::new(new_depth, width, height, name),
                starting_position: None,
                rooms: None,
                corridors: None,
                history: Vec::new(),
                width,
                height,
            },
        }
    }

    /// Sets the first builder; a chain has only one.
    pub fn start_with(&mut self, starter: InitialStep)
        requires
            old(self).starter is None,
        ensures
            final(self).starter == Some(starter),
            final(self).builders == old(self).builders,
            final(self).build_data == old(self).build_data,
    {
        self.starter = Some(starter);
    }

    /// Appends a builder.
    pub fn with(&mut self, step: MetaStep)
        ensures
            final(self).starter == old(self).starter,
            final(self).builders@ == old(self).builders@.push(step),
            final(self).build_data == old(self).build_data,
    {
        self.builders.push(step);
    }
}

/// The starting builder for a d17 roll, and whether it makes rooms.
pub open spec fn initial_builder_for(roll: int) -> (InitialStep, bool) {
    if roll == 1 {
        (InitialStep::BspDungeon, true)
    } else if roll == 2 {
        (InitialStep::BspInterior, true)
    } else if roll == 3 {
        (InitialStep::CellularAutomata, false)
    } else if roll == 4 {
        (InitialStep::DrunkardOpenArea, false)
    } else if roll == 5 {
        (InitialStep::DrunkardOpenHalls, false)
    } else if roll == 6 {
        (InitialStep::DrunkardWindingPassages, false)
    } else if roll == 7 {
        (InitialStep::DrunkardFatPassages, false)
    } else if roll == 8 {
        (InitialStep::DrunkardFearfulSymmetry, false)
    } else if roll == 9 {
        (InitialStep::Maze, false)
    } else if roll == 10 {
        (InitialStep::DlaWalkInwards, false)
    } else if roll == 11 {
        (InitialStep::DlaWalkOutwards, false)
    } else if roll == 12 {
        (InitialStep::DlaCentralAttractor, false)
    } else if roll == 13 {
        (InitialStep::DlaInsectoid, false)
    } else if roll == 14 {
        (InitialStep::VoronoiPythagoras, false)
    } else if roll == 15 {
        (InitialStep::VoronoiManhattan, false)
    } else if roll == 16 {
        (InitialStep::PrefabWfcPopulated, false)
    } else {
        (InitialStep::SimpleMap, true)
    }
}

/// The starting builder for a d17 roll, and whether it makes rooms.
pub fn initial_builder_from_roll(roll: i32) -> (r: (InitialStep, bool))
    ensures
        r == initial_builder_for(roll as int),
{
    if roll == 1 {
        (InitialStep::BspDungeon, true)
    } else if roll == 2 {
        (InitialStep::BspInterior, true)
    } else if roll == 3 {
        (InitialStep::CellularAutomata, false)
    } else if roll == 4 {
        (InitialStep::DrunkardOpenArea, false)
    } else if roll == 5 {
        (InitialStep::DrunkardOpenHalls, false)
    } else if roll == 6 {
        (InitialStep::DrunkardWindingPassages, false)
    } else if roll == 7 {
        (InitialStep::DrunkardFatPassages, false)
    } else if roll == 8 {
        (InitialStep::DrunkardFearfulSymmetry, false)
    } else if roll == 9 {
        (InitialStep::Maze, false)
    } else if roll == 10 {
        (InitialStep::DlaWalkInwards, false)
    } else if roll == 11 {
        (InitialStep::DlaWalkOutwards, false)
    } else if roll == 12 {
        (InitialStep::DlaCentralAttractor, false)
    } else if roll == 13 {
        (InitialStep::DlaInsectoid, false)
    } else if roll == 14 {
        (InitialStep::VoronoiPythagoras, false)
    } else if roll == 15 {
        (InitialStep::VoronoiManhattan, false)
    } else if roll == 16 {
        (InitialStep::PrefabWfcPopulated, false)
    } else {
        (InitialStep::SimpleMap, true)
    }
}

/// A random starting builder, and whether it makes rooms: a d17 chooses it.
pub fn random_initial_builder(rng: &mut RandomNumberGenerator) -> (r: (InitialStep, bool))
    ensures
        exists|roll: int| die(roll, 17) && r == #[trigger] initial_builder_for(roll),
{
    let builder = roll_dice(rng, 1, 17);
    initial_builder_from_roll(builder)
}

/// The area start for a d3 roll across (left, center, right) and a d3 roll down (bottom,
/// center, top).
pub fn start_position_from_rolls(x_roll: i32, y_roll: i32) -> (r: (XStart, YStart))
    ensures
        r == start_position_for(x_roll as int, y_roll as int),
{
    let x = if x_roll == 1 { XStart::Left } else if x_roll == 2 { XStart::Center } else { XStart::Right };
    let y = if y_roll == 1 { YStart::Bottom } else if y_roll == 2 { YStart::Center } else { YStart::Top };
    (x, y)
}

/// A random area start: a d3 across, then a d3 down.
pub fn random_start_position(rng: &mut RandomNumberGenerator) -> (r: (XStart, YStart))
    ensures
        exists|x_roll: int, y_roll: int| die(x_roll, 3) && die(y_roll, 3) && r == #[trigger] start_position_for(x_roll, y_roll),
{
    let x_roll = roll_dice(rng, 1, 3);
    let y_roll = roll_dice(rng, 1, 3);
    start_position_from_rolls(x_roll, y_roll)
}

/// One roll of a d`n`.
fn roll_die(rng: &mut RandomNumberGenerator, n: i32) -> (r: i32)
    requires
        1 <= n < i32::MAX,
    ensures
        die(r as int, n as int),
{
    roll_dice(rng, 1, n)
}

/// Draws the rolls of a room-based level in the order the plan reads them: the first
/// builder; unless that is the BSP interior, the room order, corridors, corridor spawning
/// and room modifier; then the start, its area (across, then down) when the start is not
/// by room, the exit and the spawning. A roll that is not drawn is 1.
fn draw_room_rolls(rng: &mut RandomNumberGenerator) -> (r: RoomRolls)
    ensures
        room_rolls_ok(r),
{
    let build_room = roll_die(rng, 3);
    let (mut sort, mut corridors, mut corridor_spawner, mut modifier): (i32, i32, i32, i32) = (1, 1, 1, 1);
    if build_room != 3 {
        sort = roll_die(rng, 5);
        corridors = roll_die(rng, 4);
        corridor_spawner = roll_die(rng, 2);
        modifier = roll_die(rng, 6);
    }
    let start = roll_die(rng, 2);
    let (mut start_x, mut start_y): (i32, i32) = (1, 1);
    if start != 1 {
        start_x = roll_die(rng, 3);
        start_y = roll_die(rng, 3);
    }
    let exit = roll_die(rng, 2);
    let spawn = roll_die(rng, 2);
    RoomRolls { build_room, sort, corridors, corridor_spawner, modifier, start, start_x, start_y, exit, spawn }
}

/// Appends the room layout the rolls choose.
fn add_room_layout(rolls: RoomRolls, builder: &mut BuilderChain)
    ensures
        final(builder).starter == old(builder).starter,
        final(builder).build_data == old(builder).build_data,
        final(builder).builders@ == old(builder).builders@
            + room_layout(rolls.sort as int, rolls.corridors as int, rolls.corridor_spawner as int, rolls.modifier as int),
{
    let ghost b0 = builder.builders@;
    let sort = if rolls.sort == 1 {
        RoomSort::Leftmost
    } else if rolls.sort == 2 {
        RoomSort::Rightmost
    } else if rolls.sort == 3 {
        RoomSort::Topmost
    } else if rolls.sort == 4 {
        RoomSort::Bottommost
    } else {
        RoomSort::Central
    };
    builder.with(MetaStep::RoomSorter { sort });
    builder.with(MetaStep::RoomDrawer);
    if rolls.corridors == 1 {
        builder.with(MetaStep::DoglegCorridors);
    } else if rolls.corridors == 2 {
        builder.with(MetaStep::NearestCorridors);
    } else if rolls.corridors == 3 {
        builder.with(MetaStep::StraightLineCorridors);
    } else {
        builder.with(MetaStep::BspCorridors);
    }
    if rolls.corridor_spawner == 1 {
        builder.with(MetaStep::CorridorSpawner);
    }
    if rolls.modifier == 1 {
        builder.with(MetaStep::RoomExploder);
    } else if rolls.modifier == 2 {
        builder.with(MetaStep::RoomCornerRounder);
    }
    assert(builder.builders@ =~= b0
        + room_layout(rolls.sort as int, rolls.corridors as int, rolls.corridor_spawner as int, rolls.modifier as int));
}

/// Appends the start, exit and spawning the rolls choose.
fn add_room_finish(rolls: RoomRolls, builder: &mut BuilderChain)
    ensures
        final(builder).starter == old(builder).starter,
        final(builder).build_data == old(builder).build_data,
        final(builder).builders@ == old(builder).builders@ + room_finish(
            rolls.start as int,
            rolls.start_x as int,
            rolls.start_y as int,
            rolls.exit as int,
            rolls.spawn as int,
        ),
{
    let ghost b0 = builder.builders@;
    if rolls.start == 1 {
        builder.with(MetaStep::RoomBasedStartingPosition);
    } else {
        let (x, y) = start_position_from_rolls(rolls.start_x, rolls.start_y);
        builder.with(MetaStep::AreaStartingPosition { x, y });
    }
    if rolls.exit == 1 {
        builder.with(MetaStep::RoomBasedStairs);
    } else {
        builder.with(MetaStep::DistantExit);
    }
    if rolls.spawn == 1 {
        builder.with(MetaStep::RoomBasedSpawner);
    } else {
        builder.with(MetaStep::VoronoiSpawning);
    }
    assert(builder.builders@ =~= b0
        + room_finish(rolls.start as int, rolls.start_x as int, rolls.start_y as int, rolls.exit as int, rolls.spawn as int));
}

/// Plans a room-based level from its rolls: the first builder on the d3 (simple map, BSP
/// dungeon, BSP interior), then the steps `room_steps` reads from the rolls.
pub fn room_builder_from_rolls(rolls: RoomRolls, builder: &mut BuilderChain)
    requires
        old(builder).starter is None,
    ensures
        final(builder).starter == Some(room_starter(rolls.build_room as int)),
        final(builder).builders@ == old(builder).builders@ + room_steps(rolls),
        final(builder).build_data == old(builder).build_data,
{
    let ghost b0 = builder.builders@;
    if rolls.build_room == 1 {
        builder.start_with(InitialStep::SimpleMap);
    } else if rolls.build_room == 2 {
        builder.start_with(InitialStep::BspDungeon);
    } else {
        builder.start_with(InitialStep::BspInterior);
    }
    if rolls.build_room != 3 {
        add_room_layout(rolls, builder);
    }
    add_room_finish(rolls, builder);
    assert(builder.builders@ =~= b0 + room_steps(rolls));
}

/// Plans a room-based level on a chain with no first builder yet, drawing its rolls.
pub fn random_room_builder(rng: &mut RandomNumberGenerator, builder: &mut BuilderChain)
    requires
        old(builder).starter is None,
    ensures
        final(builder).build_data == old(builder).build_data,
        final(builder).builders@.take(old(builder).builders@.len() as int) == old(builder).builders@,
        final(builder).builders@.len() >= old(builder).builders@.len(),
        room_plan(final(builder).starter, final(builder).builders@.skip(old(builder).builders@.len() as int)),
{
    let ghost b0 = builder.builders@;
    let rolls = draw_room_rolls(rng);
    room_builder_from_rolls(rolls, builder);
    assert(builder.builders@.skip(b0.len() as int) =~= room_steps(rolls));
    assert(builder.builders@.take(b0.len() as int) =~= b0);
}

/// The first builder of a shape-based level for a d16 roll.
pub fn shape_starter_from_roll(roll: i32) -> (s: InitialStep)
    ensures
        s == shape_starter(roll as int),
{
    if roll == 1 {
        InitialStep::CellularAutomata
    } else if roll == 2 {
        InitialStep::DrunkardOpenArea
    } else if roll == 3 {
        InitialStep::DrunkardOpenHalls
    } else if roll == 4 {
        InitialStep::DrunkardWindingPassages
    } else if roll == 5 {
        InitialStep::DrunkardFatPassages
    } else if roll == 6 {
        InitialStep::DrunkardFearfulSymmetry
    } else if roll == 7 {
        InitialStep::Maze
    } else if roll == 8 {
        InitialStep::DlaWalkInwards
    } else if roll == 9 {
        InitialStep::DlaWalkOutwards
    } else if roll == 10 {
        InitialStep::DlaCentralAttractor
    } else if roll == 11 {
        InitialStep::DlaInsectoid
    } else if roll == 12 {
        InitialStep::VoronoiPythagoras
    } else if roll == 13 {
        InitialStep::VoronoiManhattan
    } else {
        InitialStep::PrefabWfcPopulated
    }
}

/// Plans a shape-based level from its rolls: the first builder on the d16, then the
/// steps of `shape_steps` with the area start on the two d3 rolls.
pub fn shape_builder_from_rolls(roll: i32, start_x: i32, start_y: i32, builder: &mut BuilderChain)
    requires
        old(builder).starter is None,
    ensures
        final(builder).starter == Some(shape_starter(roll as int)),
        final(builder).builders@ == old(builder).builders@ + shape_steps(start_x as int, start_y as int),
        final(builder).build_data == old(builder).build_data,
{
    let ghost b0 = builder.builders@;
    builder.start_with(shape_starter_from_roll(roll));
    builder.with(MetaStep::AreaStartingPosition { x: XStart::Center, y: YStart::Center });
    builder.with(MetaStep::CullUnreachable);
    let (x, y) = start_position_from_rolls(start_x, start_y);
    builder.with(MetaStep::AreaStartingPosition { x, y });
    builder.with(MetaStep::VoronoiSpawning);
    builder.with(MetaStep::DistantExit);
    assert(builder.builders@ =~= b0 + shape_steps(start_x as int, start_y as int));
}

/// Plans a shape-based level on a chain with no first builder yet: a d16 for the first
/// builder, then a d3 across and a d3 down for the area start.
pub fn random_shape_builder(rng: &mut RandomNumberGenerator, builder: &mut BuilderChain)
    requires
        old(builder).starter is None,
    ensures
        final(builder).build_data == old(builder).build_data,
        final(builder).builders@.take(old(builder).builders@.len() as int) == old(builder).builders@,
        final(builder).builders@.len() >= old(builder).builders@.len(),
        shape_plan(final(builder).starter, final(builder).builders@.skip(old(builder).builders@.len() as int)),
{
    let ghost b0 = builder.builders@;
    let builder_roll = roll_die(rng, 16);
    let start_x = roll_die(rng, 3);
    let start_y = roll_die(rng, 3);
    shape_builder_from_rolls(builder_roll, start_x, start_y, builder);
    assert(builder.builders@.skip(b0.len() as int) =~= shape_steps(start_x as int, start_y as int));
    assert(builder.builders@.take(b0.len() as int) =~= b0);
    assert(builder.starter == Some(shape_starter(builder_roll as int)));
}

/// The rolls that plan a random level: rooms (1) or shapes (2) on a d2, the rolls of that
/// kind of level, then the wave-function-collapse d3 with its area start and the fort d20.
#[derive(PartialEq, Eq, Structural, Copy, Clone, Debug)]
pub struct LevelRolls {
    pub kind: i32,
    pub room: RoomRolls,
    pub shape: i32,
    pub shape_x: i32,
    pub shape_y: i32,
    pub wfc: i32,
    pub wfc_x: i32,
    pub wfc_y: i32,
    pub fort: i32,
}

/// Every roll is on its die.
pub open spec fn level_rolls_ok(r: LevelRolls) -> bool {
    &&& die(r.kind as int, 2)
    &&& room_rolls_ok(r.room)
    &&& die(r.shape as int, 16)
    &&& die(r.shape_x as int, 3)
    &&& die(r.shape_y as int, 3)
    &&& die(r.wfc as int, 3)
    &&& die(r.wfc_x as int, 3)
    &&& die(r.wfc_y as int, 3)
    &&& die(r.fort as int, 20)
}

/// The first builder the rolls choose.
pub open spec fn level_starter(r: LevelRolls) -> InitialStep {
    if r.kind == 1 { room_starter(r.room.build_room as int) } else { shape_starter(r.shape as int) }
}

/// The builders the rolls choose after the first: those of a room- or shape-based level,
/// then the finishing ones.
pub open spec fn level_steps(r: LevelRolls) -> Seq<MetaStep> {
    (if r.kind == 1 { room_steps(r.room) } else { shape_steps(r.shape_x as int, r.shape_y as int) })
    + finishing_steps(r.wfc as int, r.wfc_x as int, r.wfc_y as int, r.fort as int)
}

/// Plans a level from its rolls on a new all-wall map.
pub fn builder_from_rolls(new_depth: i32, width: i32, height: i32, rolls: LevelRolls) -> (chain: BuilderChain)
    requires
        dims_ok(width, height),
    ensures
        fresh_build_data(chain.build_data, new_depth, width, height, "New Map"@),
        chain.starter == Some(level_starter(rolls)),
        chain.builders@ == level_steps(rolls),
{
    let mut builder = BuilderChain::new(new_depth, width, height, "New Map");
    if rolls.kind == 1 {
        room_builder_from_rolls(rolls.room, &mut builder);
    } else {
        shape_builder_from_rolls(rolls.shape, rolls.shape_x, rolls.shape_y, &mut builder);
    }
    let ghost first = builder.builders@;
    if rolls.wfc == 1 {
        builder.with(MetaStep::WaveformCollapse);
        let (x, y) = start_position_from_rolls(rolls.wfc_x, rolls.wfc_y);
        builder.with(MetaStep::AreaStartingPosition { x, y });
        builder.with(MetaStep::VoronoiSpawning);
        builder.with(MetaStep::DistantExit);
    }
    if rolls.fort == 1 {
        builder.with(MetaStep::PrefabUndergroundFort);
    }
    builder.with(MetaStep::DoorPlacement);
    builder.with(MetaStep::PrefabVaults);
    assert(builder.builders@ =~= first + finishing_steps(rolls.wfc as int, rolls.wfc_x as int, rolls.wfc_y as int, rolls.fort as int));
    builder
}

/// Draws the rolls of a random level in the order the plan reads them: the kind, the rolls
/// of that kind (those of the other kind are 1), the wave-function-collapse d3 and, on a 1,
/// its area start, then the fort d20.
fn draw_level_rolls(rng: &mut RandomNumberGenerator) -> (r: LevelRolls)
    ensures
        level_rolls_ok(r),
{
    let kind = roll_die(rng, 2);
    let mut room = RoomRolls {
        build_room: 1, sort: 1, corridors: 1, corridor_spawner: 1, modifier: 1,
        start: 1, start_x: 1, start_y: 1, exit: 1, spawn: 1,
    };
    let (mut shape, mut shape_x, mut shape_y): (i32, i32, i32) = (1, 1, 1);
    if kind == 1 {
        room = draw_room_rolls(rng);
    } else {
        shape = roll_die(rng, 16);
        shape_x = roll_die(rng, 3);
        shape_y = roll_die(rng, 3);
    }
    let wfc = roll_die(rng, 3);
    let (mut wfc_x, mut wfc_y): (i32, i32) = (1, 1);
    if wfc == 1 {
        wfc_x = roll_die(rng, 3);
        wfc_y = roll_die(rng, 3);
    }
    let fort = roll_die(rng, 20);
    LevelRolls { kind, room, shape, shape_x, shape_y, wfc, wfc_x, wfc_y, fort }
}

/// Plans a random level: room-based or shape-based on a d2 (1 for rooms), then the
/// finishing builders; `builder_from_rolls` says what each set of rolls gives.
pub fn random_builder(new_depth: i32, rng: &mut RandomNumberGenerator, width: i32, height: i32) -> (chain: BuilderChain)
    requires
        dims_ok(width, height),
    ensures
        fresh_build_data(chain.build_data, new_depth, width, height, "New Map"@),
        exists|rolls: LevelRolls| level_rolls_ok(rolls) && chain.starter == Some(level_starter(rolls))
            && chain.builders@ == #[trigger] level_steps(rolls),
        exists|k: int| #![trigger chain.builders@.take(k)] 0 <= k <= chain.builders@.len()
            && (room_plan(chain.starter, chain.builders@.take(k)) || shape_plan(chain.starter, chain.builders@.take(k)))
            && finishing_plan(chain.builders@.skip(k)),
{
    let rolls = draw_level_rolls(rng);
    let chain = builder_from_rolls(new_depth, width, height, rolls);
    proof {
        let first = if rolls.kind == 1 { room_steps(rolls.room) } else { shape_steps(rolls.shape_x as int, rolls.shape_y as int) };
        let fin = finishing_steps(rolls.wfc as int, rolls.wfc_x as int, rolls.wfc_y as int, rolls.fort as int);
        let k = first.len() as int;
        assert(chain.builders@.take(k) =~= first);
        assert(chain.builders@.skip(k) =~= fin);
        if rolls.kind == 1 {
            assert(room_plan(chain.starter, chain.builders@.take(k)));
        } else {
            assert(shape_plan(chain.starter, chain.builders@.take(k)));
        }
        assert(finishing_plan(chain.builders@.skip(k)));
    }
    chain
}

/// The plan of the forest level: a cellular-automata cave, culled from its center, started
/// at the left, with spawning and a distant exit.
pub fn forest_builder(new_depth: i32, _rng: &mut RandomNumberGenerator, width: i32, height: i32) -> (chain: BuilderChain)
    requires
        dims_ok(width, height),
    ensures
        fresh_build_data(chain.build_data, new_depth, width, height, "Into the Woods"@),
        chain.starter == Some(InitialStep::CellularAutomata),
        chain.builders@ == seq![
            MetaStep::AreaStartingPosition { x: XStart::Center, y: YStart::Center },
            MetaStep::CullUnreachable,
            MetaStep::AreaStartingPosition { x: XStart::Left, y: YStart::Center },
            MetaStep::VoronoiSpawning,
            MetaStep::DistantExit,
        ],
{
    let mut chain = BuilderChain::new(new_depth, width, height, "Into the Woods");
    chain.start_with(InitialStep::CellularAutomata);
    chain.with(MetaStep::AreaStartingPosition { x: XStart::Center, y: YStart::Center });
    chain.with(MetaStep::CullUnreachable);
    chain.with(MetaStep::AreaStartingPosition { x: XStart::Left, y: YStart::Center });
    chain.with(MetaStep::VoronoiSpawning);
    chain.with(MetaStep::DistantExit);
    chain
}

/// The plan of the limestone caverns: winding drunkard's passages, culled from their
/// center, started at the left, with spawning, a distant exit and cave decoration.
pub fn limestone_builder(new_depth: i32, _rng: &mut RandomNumberGenerator, width: i32, height: i32) -> (chain: BuilderChain)
    requires
        dims_ok(width, height),
    ensures
        fresh_build_data(chain.build_data, new_depth, width, height, "Limestone Caverns"@),
        chain.starter == Some(InitialStep::DrunkardWindingPassages),
        chain.builders@ == seq![
            MetaStep::AreaStartingPosition { x: XStart::Center, y: YStart::Center },
            MetaStep::CullUnreachable,
            MetaStep::AreaStartingPosition { x: XStart::Left, y: YStart::Center },
            MetaStep::VoronoiSpawning,
            MetaStep::DistantExit,
            MetaStep::CaveDecorator,
        ],
{
    let mut chain = BuilderChain::new(new_depth, width, height, "Limestone Caverns");
    chain.start_with(InitialStep::DrunkardWindingPassages);
    chain.with(MetaStep::AreaStartingPosition { x: XStart::Center, y: YStart::Center });
    chain.with(MetaStep::CullUnreachable);
    chain.with(MetaStep::AreaStartingPosition { x: XStart::Left, y: YStart::Center });
    chain.with(MetaStep::VoronoiSpawning);
    chain.with(MetaStep::DistantExit);
    chain.with(MetaStep::CaveDecorator);
    chain
}

} // verus!
