use dungeon_gen::{gen_rooms, place_rooms, GenRng, MapGenOptions, StopPolicy};

fn options() -> MapGenOptions {
    MapGenOptions {
        map_width: 52,
        map_height: 42,
        room_width: 4..8,
        room_height: 4..8,
        outside_buffer: 2,
        room_buffer: 2,
    }
}

#[test]
fn placed_rooms_never_overlap_with_buffer() {
    // no accepted pair may intersect once both are padded by the room buffer
    for seed in 0..5u64 {
        let mut rng = GenRng::from_seed(seed);
        let rooms = place_rooms(&options(), StopPolicy::TotalAttempts(101), &mut rng);
        assert!(rooms.len() > 1);
        for i in 0..rooms.len() {
            for j in 0..rooms.len() {
                if i != j {
                    assert!(!rooms[i].intersects_with_buffer(&rooms[j], 2));
                }
            }
        }
    }
}

#[test]
fn placed_rooms_keep_the_outside_buffer() {
    // every room keeps the outside buffer to each map edge and its extents
    // come from the configured ranges
    for seed in 0..5u64 {
        let mut rng = GenRng::from_seed(seed);
        let rooms = place_rooms(&options(), StopPolicy::ConsecutiveFailures(200), &mut rng);
        assert!(!rooms.is_empty());
        for r in &rooms {
            assert!(r.left() >= 2);
            assert!(r.right() <= 52 - 2);
            assert!(r.top() >= 2);
            assert!(r.bottom() <= 42 - 2);
            assert!((4..8).contains(&r.width));
            assert!((4..8).contains(&r.height));
        }
    }
}

#[test]
fn gen_rooms_fills_the_field() {
    let mut rng = GenRng::from_seed(7);
    let rooms = gen_rooms((52, 42), 4..8, 4..8, &mut rng);
    // the consecutive-failure budget is large, so the field ends up packed
    assert!(rooms.len() >= 4);
    for i in 0..rooms.len() {
        assert!(rooms[i].left() >= 2);
        assert!(rooms[i].right() <= 50);
        assert!(rooms[i].top() >= 2);
        assert!(rooms[i].bottom() <= 40);
        for j in 0..rooms.len() {
            if i != j {
                assert!(!rooms[i].intersects_with_buffer(&rooms[j], 2));
            }
        }
    }
}

#[test]
fn total_attempts_policy_bounds_the_attempts() {
    // with a budget of one attempt at most one room can be accepted
    let mut rng = GenRng::from_seed(3);
    let rooms = place_rooms(&options(), StopPolicy::TotalAttempts(1), &mut rng);
    assert!(rooms.len() <= 1);
    let mut rng2 = GenRng::from_seed(3);
    let none = place_rooms(&options(), StopPolicy::TotalAttempts(0), &mut rng2);
    assert!(none.is_empty());
}
