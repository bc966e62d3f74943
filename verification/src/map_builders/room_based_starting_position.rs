use vstd::prelude::*;
use rltk::RandomNumberGenerator;
use crate::components::Position;
use crate::rect::trunc_div2;
use crate::map_builders::BuilderMap;

verus! {

/// Starts the player in the middle of the first room.
pub struct RoomBasedStartingPosition {}

impl RoomBasedStartingPosition {
    pub fn new() -> (b: Box<RoomBasedStartingPosition>) {
        Box::new(RoomBasedStartingPosition {})
    }

    /// Sets the start to the center of the first room; there must be rooms.
    pub fn build(&mut self, _rng: &mut RandomNumberGenerator, build_data: &mut BuilderMap)
        requires
            old(build_data).rooms is Some,
            old(build_data).rooms->0.len() > 0,
            i32::MIN <= old(build_data).rooms->0@[0].x1 + old(build_data).rooms->0@[0].x2 <= i32::MAX,
            i32::MIN <= old(build_data).rooms->0@[0].y1 + old(build_data).rooms->0@[0].y2 <= i32::MAX,
        ensures
            ({
                let r = old(build_data).rooms->0@[0];
                final(build_data).starting_position == Some(Position {
                    x: trunc_div2(r.x1 + r.x2) as i32,
                    y: trunc_div2(r.y1 + r.y2) as i32,
                })
            }),
            final(build_data).map == old(build_data).map,
            final(build_data).history == old(build_data).history,
            final(build_data).spawn_list == old(build_data).spawn_list,
            final(build_data).rooms == old(build_data).rooms,
            final(build_data).corridors == old(build_data).corridors,
            final(build_data).width == old(build_data).width,
            final(build_data).height == old(build_data).height,
    {
        let start_pos = match &build_data.rooms {
            Some(rooms) => rooms[0].center(),
            None => (0, 0),
        };
        build_data.starting_position = Some(Position { x: start_pos.0, y: start_pos.1 });
    }
}

} // verus!
