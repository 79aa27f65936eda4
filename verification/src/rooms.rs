//! Room placement by rejection sampling: freshly sampled rectangles are kept
//! only when they keep a padded distance from every room accepted so far.

use vstd::prelude::*;

use crate::generation::MapGenOptions;
use crate::geometry::Rect;
use crate::rng::GenRng;
use core::ops::Range;

verus! {

/// When a placement run stops: after a fixed total number of attempts, or
/// once this many rejections happen in a row.
#[derive(Debug, Clone, Copy, PartialEq, Eq, Structural)]
pub enum StopPolicy {
    TotalAttempts(u32),
    ConsecutiveFailures(u32),
}

/// The attempt budget a policy carries.
pub open spec fn budget_of(policy: StopPolicy) -> u32 {
    match policy {
        StopPolicy::TotalAttempts(n) => n,
        StopPolicy::ConsecutiveFailures(n) => n,
    }
}

/// What holds of every accepted room: it is well-formed, keeps the outside
/// buffer to every map edge, and its extents were drawn from the configured
/// ranges.
pub open spec fn room_in_field(options: MapGenOptions, r: Rect) -> bool {
    &&& r.wf()
    &&& options.outside_buffer <= r.spec_left()
    &&& r.spec_right() <= options.map_width - options.outside_buffer
    &&& options.outside_buffer <= r.spec_top()
    &&& r.spec_bottom() <= options.map_height - options.outside_buffer
    &&& options.room_width.start <= r.width < options.room_width.end
    &&& options.room_height.start <= r.height < options.room_height.end
}

/// Buffered intersection is symmetric in the two rectangles.
pub proof fn lemma_iwb_symmetric(a: Rect, b: Rect, n: int)
    ensures
        a.spec_intersects_with_buffer(b, n) == b.spec_intersects_with_buffer(a, n),
{
}

/// Fills the field with non-overlapping rooms by rejection sampling.
///
/// Each attempt draws a corner uniformly from the domain that keeps even a
/// maximal room `outside_buffer` cells away from every map edge, and extents
/// uniformly from the configured ranges. The attempt is accepted exactly when
/// the new room, grown by `room_buffer`, intersects no accepted room grown
/// the same way. A hard cap bounds the total number of attempts, which no
/// practical run reaches.
pub fn place_rooms(options: &MapGenOptions, policy: StopPolicy, rng: &mut GenRng) -> (rooms: Vec<
    Rect,
>)
    requires
        options.valid(),
    ensures
        budget_of(policy) > 0 ==> rooms@.len() >= 1,
        policy matches StopPolicy::TotalAttempts(n) ==> rooms@.len() <= n,
        forall|i: int| 0 <= i < rooms@.len() ==> room_in_field(*options, #[trigger] rooms@[i]),
        forall|i: int, j: int|
            0 <= i < rooms@.len() && 0 <= j < rooms@.len() && i != j ==> !(
            #[trigger] rooms@[i]).spec_intersects_with_buffer(
                #[trigger] rooms@[j],
                options.room_buffer as int,
            ),
{
    let budget: u32 = match policy {
        StopPolicy::TotalAttempts(n) => n,
        StopPolicy::ConsecutiveFailures(n) => n,
    };
    let mut rooms: Vec<Rect> = Vec::new();
    let mut counter: u32 = 0;
    let mut fuel: u64 = u64::MAX;
    while counter < budget && fuel > 0
        invariant
            options.valid(),
            rooms@.len() == 0 ==> counter == 0,
            rooms@.len() == 0 ==> fuel == u64::MAX,
            counter <= budget,
            policy matches StopPolicy::TotalAttempts(n) ==> budget == n && rooms@.len() <= counter,
            forall|i: int| 0 <= i < rooms@.len() ==> room_in_field(*options, #[trigger] rooms@[i]),
            forall|i: int, j: int|
                0 <= i < rooms@.len() && 0 <= j < rooms@.len() && i != j ==> !(
                #[trigger] rooms@[i]).spec_intersects_with_buffer(
                    #[trigger] rooms@[j],
                    options.room_buffer as int,
                ),
        decreases fuel,
    {
        fuel = fuel - 1;
        let room = Rect::random_rect(
            rng,
            (
                options.outside_buffer,
                options.map_width - options.outside_buffer - options.room_width.end,
            ),
            (
                options.outside_buffer,
                options.map_height - options.outside_buffer - options.room_height.end,
            ),
            (options.room_width.start, options.room_width.end),
            (options.room_height.start, options.room_height.end),
        );
        assert(room_in_field(*options, room));
        let mut hit = false;
        let mut k: usize = 0;
        while k < rooms.len()
            invariant
                options.valid(),
                room_in_field(*options, room),
                0 <= k <= rooms@.len(),
                forall|i: int|
                    0 <= i < rooms@.len() ==> room_in_field(*options, #[trigger] rooms@[i]),
                hit ==> rooms@.len() >= 1,
                !hit ==> forall|i: int|
                    0 <= i < k ==> !(#[trigger] rooms@[i]).spec_intersects_with_buffer(
                        room,
                        options.room_buffer as int,
                    ),
            decreases rooms@.len() - k,
        {
            if rooms[k].intersects_with_buffer(&room, options.room_buffer) {
                hit = true;
            }
            k = k + 1;
        }
        if hit {
            counter = counter + 1;
        } else {
            proof {
                assert forall|i: int| 0 <= i < rooms@.len() implies !room.spec_intersects_with_buffer(
                    #[trigger] rooms@[i],
                    options.room_buffer as int,
                ) by {
                    lemma_iwb_symmetric(room, rooms@[i], options.room_buffer as int);
                }
            }
            rooms.push(room);
            counter = match policy {
                StopPolicy::TotalAttempts(_) => counter + 1,
                StopPolicy::ConsecutiveFailures(_) => 0,
            };
        }
    }
    rooms
}

/// The configuration a standalone room-generation run uses: margins and room
/// padding fixed at two cells.
pub open spec fn field_options(
    map_size: (i32, i32),
    width_range: Range<i32>,
    height_range: Range<i32>,
) -> MapGenOptions {
    MapGenOptions {
        map_width: map_size.0,
        map_height: map_size.1,
        room_width: width_range,
        room_height: height_range,
        outside_buffer: 2,
        room_buffer: 2,
    }
}

/// Fills a bounded field with non-overlapping rooms, stopping after ten
/// thousand consecutive rejections; margins and room padding are fixed at
/// two cells.
pub fn gen_rooms(
    map_size: (i32, i32),
    width_range: Range<i32>,
    height_range: Range<i32>,
    rng: &mut GenRng,
) -> (rooms: Vec<Rect>)
    requires
        field_options(map_size, width_range, height_range).valid(),
    ensures
        rooms@.len() >= 1,
        forall|i: int|
            0 <= i < rooms@.len() ==> room_in_field(
                field_options(map_size, width_range, height_range),
                #[trigger] rooms@[i],
            ),
        forall|i: int, j: int|
            0 <= i < rooms@.len() && 0 <= j < rooms@.len() && i != j ==> !(
            #[trigger] rooms@[i]).spec_intersects_with_buffer(#[trigger] rooms@[j], 2),
{
    let options = MapGenOptions {
        map_width: map_size.0,
        map_height: map_size.1,
        room_width: width_range,
        room_height: height_range,
        outside_buffer: 2,
        room_buffer: 2,
    };
    place_rooms(&options, StopPolicy::ConsecutiveFailures(10000), rng)
}

} // verus!
