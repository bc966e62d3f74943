//! The game's run states and the rules that move between them each frame.
use vstd::prelude::*;

verus! {

/// The entries of the main menu.
#[derive(PartialEq, Eq, Structural, Copy, Clone, Debug)]
pub enum MainMenuSelection {
    NewGame,
    LoadGame,
    Quit,
}

/// What the game is doing this frame.
#[derive(PartialEq, Eq, Structural, Copy, Clone, Debug)]
pub enum RunState {
    AwaitingInput,
    PreRun,
    PlayerTurn,
    MonsterTurn,
    ShowInventory,
    ShowDropItem,
    ShowTargeting { range: i32, item: u32 },
    MainMenu { menu_selection: MainMenuSelection },
    SaveGame,
    NextLevel,
    PreviousLevel,
    ShowRemoveItem,
    GameOver,
    MapGeneration,
}

/// What an item menu reported this frame.
#[derive(PartialEq, Eq, Structural, Copy, Clone, Debug)]
pub enum ItemMenuResult {
    Cancel,
    NoResponse,
    Selected,
}

/// What the main menu reported this frame.
#[derive(PartialEq, Eq, Structural, Copy, Clone, Debug)]
pub enum MainMenuResult {
    NoSelection { selected: MainMenuSelection },
    Selected { selected: MainMenuSelection },
}

/// What the game-over screen reported this frame.
#[derive(PartialEq, Eq, Structural, Copy, Clone, Debug)]
pub enum GameOverResult {
    NoSelection,
    QuitToMenu,
}

/// What happened outside the rules during a frame, as the state in force asks for it.
#[derive(PartialEq, Eq, Structural, Copy, Clone, Debug)]
pub enum FrameEvent {
    /// The map-generation replay: whether its last frame has been shown.
    MapgenShown { finished: bool },
    /// The systems ran (pre-run, player turn, monster turn).
    SystemsRan,
    /// The player's input gave this state.
    Input { next: RunState },
    /// An item menu answered; `ranged` is the range of a selected ranged item.
    ItemMenu { result: ItemMenuResult, item: Option<u32>, ranged: Option<i32> },
    /// The main menu answered.
    MainMenu { choice: MainMenuResult },
    /// The game was saved.
    Saved,
    /// A new level was built.
    LevelBuilt,
    /// The game-over screen answered.
    GameOver { answer: GameOverResult },
}

/// Whether the event is the one the state waits for (a selected item menu names its item,
/// and choosing to quit from the main menu leaves the game instead).
pub open spec fn event_fits(s: RunState, e: FrameEvent) -> bool {
    match s {
        RunState::MapGeneration => e is MapgenShown,
        RunState::PreRun | RunState::PlayerTurn | RunState::MonsterTurn => e is SystemsRan,
        RunState::AwaitingInput => e is Input,
        RunState::ShowInventory | RunState::ShowDropItem | RunState::ShowRemoveItem
        | RunState::ShowTargeting { .. } => match e {
            FrameEvent::ItemMenu { result, item, .. } => result == ItemMenuResult::Selected ==> item is Some,
            _ => false,
        },
        RunState::MainMenu { .. } => match e {
            FrameEvent::MainMenu { choice } => choice != (MainMenuResult::Selected { selected: MainMenuSelection::Quit }),
            _ => false,
        },
        RunState::SaveGame => e is Saved,
        RunState::NextLevel | RunState::PreviousLevel => e is LevelBuilt,
        RunState::GameOver => e is GameOver,
    }
}

/// The state after a frame, given the state in force, the event, and the state that
/// map generation hands over to.
pub open spec fn spec_next_state(s: RunState, e: FrameEvent, after_mapgen: RunState) -> RunState {
    match s {
        RunState::MapGeneration => match e {
            FrameEvent::MapgenShown { finished } => if finished { after_mapgen } else { s },
            _ => s,
        },
        RunState::PreRun => RunState::AwaitingInput,
        RunState::PlayerTurn => RunState::MonsterTurn,
        RunState::MonsterTurn => RunState::AwaitingInput,
        RunState::AwaitingInput => match e {
            FrameEvent::Input { next } => next,
            _ => s,
        },
        RunState::ShowInventory => match e {
            FrameEvent::ItemMenu { result, item, ranged } => match result {
                ItemMenuResult::Cancel => RunState::AwaitingInput,
                ItemMenuResult::NoResponse => s,
                ItemMenuResult::Selected => match ranged {
                    Some(range) => RunState::ShowTargeting { range, item: item->0 },
                    None => RunState::PlayerTurn,
                },
            },
            _ => s,
        },
        RunState::ShowDropItem | RunState::ShowRemoveItem | RunState::ShowTargeting { .. } => match e {
            FrameEvent::ItemMenu { result, .. } => match result {
                ItemMenuResult::Cancel => RunState::AwaitingInput,
                ItemMenuResult::NoResponse => s,
                ItemMenuResult::Selected => RunState::PlayerTurn,
            },
            _ => s,
        },
        RunState::MainMenu { .. } => match e {
            FrameEvent::MainMenu { choice } => match choice {
                MainMenuResult::NoSelection { selected } => RunState::MainMenu { menu_selection: selected },
                MainMenuResult::Selected { selected } => match selected {
                    MainMenuSelection::NewGame => RunState::PreRun,
                    _ => RunState::AwaitingInput,
                },
            },
            _ => s,
        },
        RunState::SaveGame => RunState::MainMenu { menu_selection: MainMenuSelection::LoadGame },
        RunState::NextLevel | RunState::PreviousLevel => RunState::MapGeneration,
        RunState::GameOver => match e {
            FrameEvent::GameOver { answer } => match answer {
                GameOverResult::NoSelection => s,
                GameOverResult::QuitToMenu => RunState::MainMenu { menu_selection: MainMenuSelection::NewGame },
            },
            _ => s,
        },
    }
}

/// The state after a frame. Changing level sets map generation to hand over to `PreRun`,
/// which the caller records; `after_mapgen` is what it recorded before.
pub fn next_state(s: RunState, e: FrameEvent, after_mapgen: RunState) -> (r: RunState)
    requires
        event_fits(s, e),
    ensures
        r == spec_next_state(s, e, after_mapgen),
{
    match s {
        RunState::MapGeneration => match e {
            FrameEvent::MapgenShown { finished } => if finished { after_mapgen } else { s },
            _ => s,
        },
        RunState::PreRun => RunState::AwaitingInput,
        RunState::PlayerTurn => RunState::MonsterTurn,
        RunState::MonsterTurn => RunState::AwaitingInput,
        RunState::AwaitingInput => match e {
            FrameEvent::Input { next } => next,
            _ => s,
        },
        RunState::ShowInventory => match e {
            FrameEvent::ItemMenu { result, item, ranged } => match result {
                ItemMenuResult::Cancel => RunState::AwaitingInput,
                ItemMenuResult::NoResponse => s,
                ItemMenuResult::Selected => {
                    let item_entity = match item {
                        Some(i) => i,
                        None => 0,
                    };
                    match ranged {
                        Some(range) => RunState::ShowTargeting { range, item: item_entity },
                        None => RunState::PlayerTurn,
                    }
                },
            },
            _ => s,
        },
        RunState::ShowDropItem | RunState::ShowRemoveItem | RunState::ShowTargeting { .. } => match e {
            FrameEvent::ItemMenu { result, .. } => match result {
                ItemMenuResult::Cancel => RunState::AwaitingInput,
                ItemMenuResult::NoResponse => s,
                ItemMenuResult::Selected => RunState::PlayerTurn,
            },
            _ => s,
        },
        RunState::MainMenu { .. } => match e {
            FrameEvent::MainMenu { choice } => match choice {
                MainMenuResult::NoSelection { selected } => RunState::MainMenu { menu_selection: selected },
                MainMenuResult::Selected { selected } => match selected {
                    MainMenuSelection::NewGame => RunState::PreRun,
                    _ => RunState::AwaitingInput,
                },
            },
            _ => s,
        },
        RunState::SaveGame => RunState::MainMenu { menu_selection: MainMenuSelection::LoadGame },
        RunState::NextLevel | RunState::PreviousLevel => RunState::MapGeneration,
        RunState::GameOver => match e {
            FrameEvent::GameOver { answer } => match answer {
                GameOverResult::NoSelection => s,
                GameOverResult::QuitToMenu => RunState::MainMenu { menu_selection: MainMenuSelection::NewGame },
            },
            _ => s,
        },
    }
}

/// The replay of map generation moves to its next snapshot; the result is the new index
/// and whether the replay is over.
pub fn mapgen_advance(index: usize, history_len: usize) -> (r: (usize, bool))
    requires
        index < usize::MAX,
    ensures
        r.0 == index + 1,
        r.1 == (index + 1 >= history_len),
{
    let next = index + 1;
    (next, next >= history_len)
}

/// What a level change sets up: the new depth and the offset it was reached by, the
/// replay of map generation starting from its first snapshot, and the states before and
/// after that replay.
#[derive(PartialEq, Eq, Structural, Copy, Clone, Debug)]
pub struct LevelChange {
    pub new_depth: i32,
    pub offset: i32,
    pub mapgen_index: usize,
    pub after_mapgen: RunState,
    pub state: RunState,
}

/// The level change that `NextLevel` (one down) or `PreviousLevel` (one up) asks for from
/// `depth`: the level at `depth` plus the offset, shown by replaying its generation from
/// the start, after which the game goes to `PreRun`.
pub fn level_change(s: RunState, depth: i32) -> (c: LevelChange)
    requires
        s is NextLevel || s is PreviousLevel,
        i32::MIN < depth < i32::MAX,
    ensures
        c.offset == (if s is NextLevel { 1i32 } else { -1i32 }),
        c.new_depth == depth + c.offset,
        c.mapgen_index == 0,
        c.after_mapgen == RunState::PreRun,
        c.state == RunState::MapGeneration,
{
    let offset: i32 = match s {
        RunState::NextLevel => 1,
        _ => -1,
    };
    LevelChange { new_depth: depth + offset, offset, mapgen_index: 0, after_mapgen: RunState::PreRun, state: RunState::MapGeneration }
}

/// What level changes need to know of an entity.
#[derive(PartialEq, Eq, Structural, Copy, Clone, Debug)]
pub struct EntityInfo {
    pub entity: u32,
    pub is_player: bool,
    /// The owner of the backpack it is in, if any.
    pub backpack_owner: Option<u32>,
    /// The owner of the one who wears it, if any.
    pub equipped_owner: Option<u32>,
}

/// Whether an entity stays when the level changes: the player, and what the player
/// carries or wears.
pub open spec fn stays_on_level_change(e: EntityInfo, player: u32) -> bool {
    e.is_player || e.backpack_owner == Some(player) || e.equipped_owner == Some(player)
}

/// The entities that leave with the old level, in order.
pub open spec fn leaving(es: Seq<EntityInfo>, player: u32) -> Seq<u32>
    decreases es.len(),
{
    if es.len() == 0 {
        Seq::empty()
    } else {
        leaving(es.drop_last(), player) + if stays_on_level_change(es.last(), player) {
            Seq::empty()
        } else {
            seq![es.last().entity]
        }
    }
}

/// The entities to delete when the player changes level: all but the player and the
/// player's belongings.
pub fn entities_to_remove_on_level_change(entities: &Vec<EntityInfo>, player: u32) -> (r: Vec<u32>)
    ensures
        r@ == leaving(entities@, player),
{
    let mut to_delete: Vec<u32> = Vec::new();
    let mut i: usize = 0;
    while i < entities.len()
        invariant
            i <= entities.len(),
            to_delete@ == leaving(entities@.take(i as int), player),
        decreases entities.len() - i,
    {
        assert(entities@.take(i + 1).drop_last() =~= entities@.take(i as int));
        let e = entities[i];
        let mut should_delete = true;
        if e.is_player {
            should_delete = false;
        }
        match e.backpack_owner {
            Some(owner) => {
                if owner == player {
                    should_delete = false;
                }
            },
            None => {},
        }
        match e.equipped_owner {
            Some(owner) => {
                if owner == player {
                    should_delete = false;
                }
            },
            None => {},
        }
        if should_delete {
            to_delete.push(e.entity);
        }
        assert(to_delete@ =~= leaving(entities@.take(i + 1), player));
        i = i + 1;
    }
    assert(entities@.take(entities.len() as int) =~= entities@);
    to_delete
}

} // verus!
