use rand::rngs::SmallRng;
use rand::{RngCore, SeedableRng};
use starfield::field::Starfield;
use starfield::source::Source;
use starfield::fixed::{random, SCALE};
use starfield::star::{Segment, Star, HEIGHT_FIXED, NEAR, WIDTH_FIXED};

#[test]
fn map_rescales_five_of_ten_to_fifty_of_hundred() {
    assert_eq!(starfield::fixed::map(5 * SCALE, 0, 10 * SCALE, 0, 100 * SCALE), 50 * SCALE);
}

#[test]
fn map_keeps_half_on_unit_range() {
    assert_eq!(starfield::fixed::map(SCALE / 2, 0, SCALE, 0, SCALE), SCALE / 2);
}

#[test]
fn map_reverses_a_descending_target() {
    assert_eq!(starfield::fixed::map(0, 0, WIDTH_FIXED, 4 * SCALE, 0), 4 * SCALE);
    assert_eq!(starfield::fixed::map(WIDTH_FIXED, 0, WIDTH_FIXED, 4 * SCALE, 0), 0);
    assert_eq!(starfield::fixed::map(WIDTH_FIXED / 2, 0, WIDTH_FIXED, 4 * SCALE, 0), 2 * SCALE);
}

#[test]
fn map_rounds_toward_zero() {
    assert_eq!(starfield::fixed::map(1, 0, 3, 0, 2), 0);
    assert_eq!(starfield::fixed::map(-1, 0, 3, 0, 2), 0);
    assert_eq!(starfield::fixed::map(-2, 0, 3, 0, 3), -2);
    assert_eq!(starfield::fixed::map(7, 0, 2, 0, 1), 3);
    assert_eq!(starfield::fixed::map(-7, 0, 2, 0, 1), -3);
    assert_eq!(starfield::fixed::map(5, 10, 0, 0, 10), 5);
}

#[test]
fn map_does_not_clamp() {
    assert_eq!(starfield::fixed::map(3 * SCALE, 0, SCALE, 0, 10 * SCALE), 30 * SCALE);
    assert_eq!(starfield::fixed::map(-SCALE, 0, SCALE, 0, 10 * SCALE), -10 * SCALE);
}

#[test]
fn random_folds_into_range() {
    assert_eq!(random(12345, -10, 10), -5);
    assert_eq!(random(0, -WIDTH_FIXED, WIDTH_FIXED), -WIDTH_FIXED);
    assert_eq!(random(u32::MAX, 0, WIDTH_FIXED), 14967295);
    assert_eq!(random(80000000, -WIDTH_FIXED, WIDTH_FIXED), -WIDTH_FIXED);
    assert_eq!(random(79999999, -WIDTH_FIXED, WIDTH_FIXED), WIDTH_FIXED - 1);
}

#[test]
fn star_from_draws_places_depth_then_offsets() {
    let s = Star::from_draws(123, 50000000, 7);
    assert_eq!(s.z, 123);
    assert_eq!(s.pz, 123);
    assert_eq!(s.x, 10000000);
    assert_eq!(s.y, 7 - HEIGHT_FIXED);
}

#[test]
fn star_new_takes_depth_then_x_then_y() {
    let mut src = Source::new(11);
    let mut copy = SmallRng::seed_from_u64(11);
    let s = Star::new(&mut src);
    let rz = copy.next_u32();
    let rx = copy.next_u32();
    let ry = copy.next_u32();
    assert_eq!(s, Star::from_draws(rz, rx, ry));
    assert_eq!(src.draw(), copy.next_u32());
}

#[test]
fn starfield_new_draws_three_per_star_in_order() {
    let field = Starfield::new(77, 4);
    let mut rng = SmallRng::seed_from_u64(77);
    for s in &field.stars {
        let rz = rng.next_u32();
        let rx = rng.next_u32();
        let ry = rng.next_u32();
        assert_eq!(*s, Star::from_draws(rz, rx, ry));
    }
}

#[test]
fn starfield_seeds_differ() {
    let a = Starfield::new(1, 8);
    let b = Starfield::new(2, 8);
    assert_ne!(a.stars, b.stars);
}

#[test]
fn star_recycle_puts_a_point_at_the_far_plane() {
    let mut s = Star { x: 1, y: 2, z: 5, pz: 9 };
    s.recycle(40000001, 24000000);
    assert_eq!(s, Star { x: 1, y: 0, z: WIDTH_FIXED, pz: WIDTH_FIXED });
}

#[test]
fn star_update_advances_without_drawing() {
    let mut src = Source::new(1);
    let mut copy = SmallRng::seed_from_u64(1);
    let mut s = Star { x: 10, y: -20, z: 2000000, pz: 2000000 };
    s.update(&mut src, 500000);
    assert_eq!(s, Star { x: 10, y: -20, z: 1500000, pz: 2000000 });
    s.update(&mut src, 0);
    assert_eq!(s.z, 1500000);
    assert_eq!(src.draw(), copy.next_u32());
}

#[test]
fn star_update_keeps_depth_of_exactly_one_unit() {
    let mut src = Source::new(2);
    let mut copy = SmallRng::seed_from_u64(2);
    let mut s = Star { x: 0, y: 0, z: NEAR + 700, pz: NEAR + 700 };
    s.update(&mut src, 700);
    assert_eq!(src.draw(), copy.next_u32());
    assert_eq!(s.z, NEAR);
    assert_eq!(s.pz, NEAR + 700);
}

#[test]
fn star_update_recycles_below_one_unit() {
    let mut src = Source::new(3);
    let mut copy = SmallRng::seed_from_u64(3);
    let mut s = Star { x: 0, y: 0, z: NEAR + 700, pz: NEAR + 700 };
    s.update(&mut src, 701);
    let rx = copy.next_u32();
    let ry = copy.next_u32();
    let mut expected = Star { x: 5, y: 6, z: 7, pz: 8 };
    expected.recycle(rx, ry);
    assert_eq!(s, expected);
    assert_eq!(src.draw(), copy.next_u32());
    assert_eq!(s.z, WIDTH_FIXED);
    assert_eq!(s.pz, s.z);
    assert!(-WIDTH_FIXED <= s.x && s.x < WIDTH_FIXED);
    assert!(-HEIGHT_FIXED <= s.y && s.y < HEIGHT_FIXED);
}

#[test]
fn star_show_projects_both_depths() {
    let mut s = Star { x: 20000000, y: -12000000, z: 10000000, pz: 20000000 };
    let seg = s.show();
    assert_eq!(
        seg,
        Segment { from_x: 600, from_y: -24, to_x: 1000, to_y: -168, thickness: 3 }
    );
    assert_eq!(s, Star { x: 20000000, y: -12000000, z: 10000000, pz: 10000000 });
}

#[test]
fn star_show_centres_a_star_on_the_axis() {
    let mut s = Star { x: 0, y: 0, z: WIDTH_FIXED, pz: WIDTH_FIXED };
    let seg = s.show();
    assert_eq!(seg, Segment { from_x: 200, from_y: 120, to_x: 200, to_y: 120, thickness: 0 });
}

#[test]
fn star_show_thickest_when_closest() {
    let mut s = Star { x: -WIDTH_FIXED, y: 0, z: NEAR, pz: NEAR };
    let seg = s.show();
    assert_eq!(seg.thickness, 3);
    assert_eq!(seg.to_x, -159800);
    assert_eq!(seg.from_x, -159800);
}

#[test]
fn starfield_new_places_every_star() {
    let field = Starfield::new(0, 3);
    assert_eq!(field.stars.len(), 3);
    for s in &field.stars {
        assert!(0 <= s.z && s.z < WIDTH_FIXED);
        assert_eq!(s.pz, s.z);
        assert!(-WIDTH_FIXED <= s.x && s.x < WIDTH_FIXED);
        assert!(-HEIGHT_FIXED <= s.y && s.y < HEIGHT_FIXED);
    }
}

#[test]
fn starfield_new_default_size() {
    let field = Starfield::new(9, starfield::field::STARS);
    assert_eq!(field.stars.len(), 600);
}

#[test]
fn starfield_update_floors_negative_speed() {
    let mut field = Starfield::new(4, 5);
    field.update(SCALE);
    let before = field.stars.clone();
    let segs = field.update(-3 * SCALE);
    assert_eq!(segs.len(), 5);
    assert_eq!(field.stars, before);
    for seg in &segs {
        assert_eq!((seg.from_x, seg.from_y), (seg.to_x, seg.to_y));
    }
}

#[test]
fn starfield_update_star_touches_one_star() {
    let mut field = Starfield::new(5, 4);
    field.update(SCALE);
    let before = field.stars.clone();
    let seg = field.update_star(2, 2 * SCALE);
    for i in 0..4 {
        if i != 2 {
            assert_eq!(field.stars[i], before[i]);
        }
    }
    let mut s = before[2];
    if s.z - 2 * SCALE >= NEAR {
        s.z -= 2 * SCALE;
        let expected = s.show();
        assert_eq!(seg, expected);
        assert_eq!(field.stars[2], s);
    } else {
        assert_eq!(field.stars[2].z, WIDTH_FIXED);
    }
}

#[test]
fn starfield_size_never_changes() {
    let mut field = Starfield::new(6, 17);
    for k in 0..200 {
        let segs = field.update((k % 7) * SCALE);
        assert_eq!(segs.len(), 17);
        assert_eq!(field.stars.len(), 17);
    }
}

#[test]
fn starfield_depth_stays_at_least_one_unit() {
    let mut field = Starfield::new(8, 50);
    for k in 0..300 {
        field.update((k % 13) * SCALE / 2);
        for s in &field.stars {
            assert!(s.z >= NEAR);
            assert!(s.z <= WIDTH_FIXED);
            assert_eq!(s.pz, s.z);
        }
    }
}

#[test]
fn starfield_depth_never_grows_between_recycles() {
    let mut field = Starfield::new(10, 30);
    field.update(0);
    let mut prev: Vec<i64> = field.stars.iter().map(|s| s.z).collect();
    for k in 0..120 {
        let speed = (k % 5) * SCALE;
        field.update(speed);
        for (i, s) in field.stars.iter().enumerate() {
            if prev[i] - speed >= NEAR {
                assert_eq!(s.z, prev[i] - speed);
                assert!(s.z <= prev[i]);
            } else {
                assert_eq!(s.z, WIDTH_FIXED);
            }
            prev[i] = s.z;
        }
    }
}

#[test]
fn starfield_same_seed_same_frames() {
    let mut a = Starfield::new(42, 20);
    let mut b = Starfield::new(42, 20);
    assert_eq!(a.stars, b.stars);
    for k in 0..150 {
        let speed = ((k * 37) % 11) * SCALE;
        let sa = a.update(speed);
        let sb = b.update(speed);
        assert_eq!(sa, sb);
        assert_eq!(a.stars, b.stars);
    }
}

#[test]
fn starfield_three_stars_from_seed_zero() {
    let mut field = Starfield::new(0, 3);
    let initial: Vec<i64> = field.stars.iter().map(|s| s.z).collect();
    for z in &initial {
        assert!(0 <= *z && *z < 400 * SCALE);
    }
    let speed = 5 * SCALE;
    let mut first_recycle: Vec<Option<i64>> = vec![None; 3];
    for step in 1..=40i64 {
        field.update(speed);
        for (i, s) in field.stars.iter().enumerate() {
            if s.z == WIDTH_FIXED && first_recycle[i].is_none() {
                first_recycle[i] = Some(step);
            }
        }
    }
    for i in 0..3 {
        // the first step k with z0 - 5k below one unit
        let due = (initial[i] - NEAR) / speed + 1;
        if due <= 40 {
            assert_eq!(first_recycle[i], Some(due));
        } else {
            assert_eq!(first_recycle[i], None);
            assert_eq!(field.stars[i].z, initial[i] - 40 * speed);
        }
    }
    for step in 41..=80i64 {
        field.update(speed);
        for (i, s) in field.stars.iter().enumerate() {
            if s.z == WIDTH_FIXED && first_recycle[i].is_none() {
                first_recycle[i] = Some(step);
            }
        }
    }
    for i in 0..3 {
        let due = (initial[i] - NEAR) / speed + 1;
        assert_eq!(first_recycle[i], Some(due));
    }
}

#[test]
fn starfield_frame_draws_two_per_recycled_star_in_order() {
    let mut field = Starfield::new(5, 3);
    let mut copy = SmallRng::seed_from_u64(5);
    for _ in 0..9 {
        copy.next_u32();
    }
    field.stars = vec![
        Star { x: 1, y: 1, z: NEAR + 10, pz: NEAR + 10 },
        Star { x: 2, y: 2, z: WIDTH_FIXED, pz: WIDTH_FIXED },
        Star { x: 3, y: 3, z: NEAR, pz: NEAR },
    ];
    let segs = field.update(SCALE);
    let mut first = Star { x: 0, y: 0, z: 0, pz: 0 };
    first.recycle(copy.next_u32(), copy.next_u32());
    let mut last = Star { x: 0, y: 0, z: 0, pz: 0 };
    last.recycle(copy.next_u32(), copy.next_u32());
    assert_eq!(field.stars[0], first);
    assert_eq!(field.stars[1], Star { x: 2, y: 2, z: WIDTH_FIXED - SCALE, pz: WIDTH_FIXED - SCALE });
    assert_eq!(field.stars[2], last);
    assert_eq!(segs.len(), 3);
    assert_eq!(field.rng.draw(), copy.next_u32());
}

#[test]
fn starfield_frame_at_zero_speed_draws_nothing() {
    let mut field = Starfield::new(12, 6);
    field.update(SCALE);
    let mut copy = Starfield::new(12, 6);
    copy.update(SCALE);
    field.update(-SCALE);
    field.update(0);
    assert_eq!(field.rng.draw(), copy.rng.draw());
}
