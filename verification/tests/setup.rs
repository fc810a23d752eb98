use monitor_utils::{LoadMonitors, Monitor, MonitorSetup, MonitorUtilsError, Point, Rect};

fn monitor(name: &str, crtc: u32, width: u32, height: u32, x: u32, y: u32) -> Monitor {
    Monitor::new(name.to_string(), crtc, Rect::new(width, height, Point::new(x, y)))
}

fn three_monitors() -> Vec<Monitor> {
    vec![
        monitor("below", 2, 1920, 1080, 0, 1080),
        monitor("right", 1, 1280, 1024, 1920, 0),
        monitor("main", 0, 1920, 1080, 0, 0),
    ]
}

fn names(setup: &MonitorSetup) -> Vec<String> {
    setup.monitors().iter().map(|m| m.name().to_string()).collect()
}

fn orders(setup: &MonitorSetup) -> Vec<u32> {
    setup.monitors().iter().map(|m| m.order()).collect()
}

struct Stub(Vec<Monitor>);

impl LoadMonitors<String> for Stub {
    fn load_monitors(&self) -> Result<Vec<Monitor>, String> {
        Ok(self.0.clone())
    }
}

struct Broken;

impl LoadMonitors<String> for Broken {
    fn load_monitors(&self) -> Result<Vec<Monitor>, String> {
        Err("no display".to_string())
    }
}

#[test]
fn new_monitor_keeps_what_it_was_given() {
    let m = monitor("eDP-1", 3, 1920, 1080, 10, 20);
    assert_eq!(m.name(), "eDP-1");
    assert_eq!(m.crtc(), 3);
    assert_eq!(*m.rect(), Rect::new(1920, 1080, Point::new(10, 20)));
    assert_eq!(m.rect, Rect::new(1920, 1080, Point::new(10, 20)));
    assert_eq!(m.order(), 0);
}

#[test]
fn monitors_compare_by_value() {
    let a = monitor("eDP-1", 3, 1920, 1080, 10, 20);
    assert_eq!(a, monitor("eDP-1", 3, 1920, 1080, 10, 20));
    assert_eq!(a, a.clone());
    assert_ne!(a, monitor("eDP-2", 3, 1920, 1080, 10, 20));
    assert_ne!(a, monitor("eDP-1", 4, 1920, 1080, 10, 20));
    assert_ne!(a, monitor("eDP-1", 3, 1920, 1080, 10, 21));
    let setup = MonitorSetup::from_monitors(vec![
        monitor("one", 0, 10, 10, 0, 0),
        monitor("one", 0, 10, 10, 0, 0),
    ]);
    // Equal but for the order number.
    assert_ne!(setup.monitors()[0], setup.monitors()[1]);
}

#[test]
fn three_monitors_are_put_in_clockwise_order() {
    let setup = MonitorSetup::from_monitors(three_monitors());
    assert_eq!(setup.len(), 3);
    assert_eq!(names(&setup), ["right", "main", "below"]);
    assert_eq!(orders(&setup), [0, 1, 2]);
    let found = setup.monitor_containing_point(&Point::new(100, 100)).unwrap();
    assert_eq!(found.name(), "main");
    assert_eq!(found.order(), 1);
    assert_eq!(found.rect().center(), Point::new(960, 540));
    assert_eq!(setup.monitors()[0].crtc(), 1);
    assert_eq!(*setup.monitors()[0].rect(), Rect::new(1280, 1024, Point::new(1920, 0)));
    assert_eq!(*setup.monitors()[2].rect(), Rect::new(1920, 1080, Point::new(0, 1080)));
}

#[test]
fn every_given_order_leads_to_the_same_setup() {
    let expected = names(&MonitorSetup::from_monitors(three_monitors()));
    let picks = [[0, 1, 2], [0, 2, 1], [1, 0, 2], [1, 2, 0], [2, 0, 1], [2, 1, 0]];
    for pick in picks {
        let all = three_monitors();
        let given: Vec<Monitor> = pick.iter().map(|&i| all[i].clone()).collect();
        let setup = MonitorSetup::from_monitors(given);
        assert_eq!(names(&setup), expected);
        assert_eq!(orders(&setup), [0, 1, 2]);
    }
}

#[test]
fn order_numbers_are_the_positions() {
    let setup = MonitorSetup::from_monitors(vec![
        monitor("e", 0, 10, 10, 0, 500),
        monitor("c", 0, 10, 10, 300, 300),
        monitor("a", 0, 10, 10, 0, 0),
        monitor("d", 0, 10, 10, 100, 400),
        monitor("b", 0, 10, 10, 500, 100),
    ]);
    assert_eq!(names(&setup), ["a", "b", "c", "d", "e"]);
    assert_eq!(orders(&setup), [0, 1, 2, 3, 4]);
    for (i, m) in setup.monitors().iter().enumerate() {
        assert_eq!(m.order() as usize, i);
    }
}

#[test]
fn order_numbers_that_came_with_the_monitors_are_replaced() {
    let first = MonitorSetup::from_monitors(three_monitors());
    let mut again: Vec<Monitor> = first.monitors().clone();
    again.reverse();
    assert_eq!(again.iter().map(|m| m.order()).collect::<Vec<u32>>(), [2, 1, 0]);
    let second = MonitorSetup::from_monitors(again);
    assert_eq!(names(&second), ["right", "main", "below"]);
    assert_eq!(orders(&second), [0, 1, 2]);
}

#[test]
fn on_one_ray_the_farther_monitor_comes_first() {
    let setup = MonitorSetup::from_monitors(vec![
        monitor("far", 0, 10, 10, 2000, 2000),
        monitor("near", 0, 10, 10, 1000, 1000),
        monitor("origin", 0, 10, 10, 0, 0),
        monitor("axis", 0, 10, 10, 500, 0),
    ]);
    assert_eq!(names(&setup), ["axis", "origin", "far", "near"]);
    assert_eq!(orders(&setup), [0, 1, 2, 3]);
    let pair = MonitorSetup::from_monitors(vec![
        monitor("near", 0, 100, 100, 100, 100),
        monitor("far", 1, 100, 100, 200, 200),
    ]);
    assert_eq!(names(&pair), ["far", "near"]);
    assert_eq!(orders(&pair), [0, 1]);
}

#[test]
fn monitors_on_one_corner_keep_their_given_order() {
    let setup = MonitorSetup::from_monitors(vec![
        monitor("b1", 0, 10, 10, 100, 100),
        monitor("a1", 0, 20, 20, 50, 0),
        monitor("b2", 0, 30, 30, 100, 100),
        monitor("a2", 0, 40, 40, 50, 0),
        monitor("b3", 0, 50, 50, 100, 100),
    ]);
    assert_eq!(names(&setup), ["a1", "a2", "b1", "b2", "b3"]);
    assert_eq!(orders(&setup), [0, 1, 2, 3, 4]);
}

#[test]
fn empty_setup_has_no_monitors() {
    let setup = MonitorSetup::from_monitors(Vec::new());
    assert_eq!(setup.len(), 0);
    assert!(setup.monitors().is_empty());
}

#[test]
fn point_on_no_monitor_is_out_of_bounds() {
    let setup = MonitorSetup::from_monitors(three_monitors());
    for p in [Point::new(5000, 5000), Point::new(3200, 0), Point::new(1920, 1024), Point::new(0, 2160)]
    {
        assert_eq!(
            setup.monitor_containing_point(&p),
            Err(MonitorUtilsError::PointOutOfBounds(p))
        );
    }
    let empty = MonitorSetup::from_monitors(Vec::new());
    assert_eq!(
        empty.monitor_containing_point(&Point::new(0, 0)),
        Err(MonitorUtilsError::PointOutOfBounds(Point::new(0, 0)))
    );
}

#[test]
fn point_on_one_monitor_finds_it() {
    let setup = MonitorSetup::from_monitors(three_monitors());
    let cases = [
        (Point::new(0, 0), "main"),
        (Point::new(1919, 1079), "main"),
        (Point::new(1920, 0), "right"),
        (Point::new(3199, 1023), "right"),
        (Point::new(0, 1080), "below"),
        (Point::new(1919, 2159), "below"),
    ];
    for (p, name) in cases {
        assert_eq!(setup.monitor_containing_point(&p).unwrap().name(), name);
    }
}

#[test]
fn where_monitors_overlap_the_first_in_clockwise_order_is_found() {
    let setup = MonitorSetup::from_monitors(vec![
        monitor("late", 0, 1000, 1000, 0, 500),
        monitor("early", 0, 1000, 1000, 500, 0),
    ]);
    assert_eq!(names(&setup), ["early", "late"]);
    let shared = Point::new(700, 700);
    assert!(setup.monitors()[0].rect().contains_point(&shared));
    assert!(setup.monitors()[1].rect().contains_point(&shared));
    assert_eq!(setup.monitor_containing_point(&shared).unwrap().name(), "early");
    assert_eq!(setup.monitor_containing_point(&Point::new(100, 700)).unwrap().name(), "late");
}

#[test]
fn neighbours_follow_the_clockwise_order() {
    let setup = MonitorSetup::from_monitors(three_monitors());
    let right = &setup.monitors()[0];
    let main = &setup.monitors()[1];
    let below = &setup.monitors()[2];
    assert_eq!(setup.next_monitor_clockwise(right), Ok(main));
    assert_eq!(setup.next_monitor_clockwise(main), Ok(below));
    assert_eq!(setup.next_monitor_clockwise(below), Ok(right));
    assert_eq!(setup.next_monitor_counterclockwise(right), Ok(below));
    assert_eq!(setup.next_monitor_counterclockwise(below), Ok(main));
    assert_eq!(setup.next_monitor_counterclockwise(main), Ok(right));
}

#[test]
fn single_monitor_is_its_own_neighbour() {
    let setup = MonitorSetup::from_monitors(vec![monitor("only", 0, 1920, 1080, 0, 0)]);
    let only = &setup.monitors()[0];
    assert_eq!(setup.next_monitor_clockwise(only), Ok(only));
    assert_eq!(setup.next_monitor_counterclockwise(only), Ok(only));
    assert_eq!(setup.monitor_at_offset_index(0, 1000), Ok(only));
    assert_eq!(setup.monitor_at_offset_index(0, -1000), Ok(only));
}

#[test]
fn as_many_steps_as_monitors_lead_back() {
    for count in 1..=7u32 {
        let given: Vec<Monitor> =
            (0..count).map(|i| monitor(&format!("m{}", i), i, 10, 10, 100 * (count - i), 100 * i)).collect();
        let setup = MonitorSetup::from_monitors(given);
        for start in setup.monitors() {
            let mut clockwise = start;
            let mut counter = start;
            for step in 1..=count {
                clockwise = setup.next_monitor_clockwise(clockwise).unwrap();
                counter = setup.next_monitor_counterclockwise(counter).unwrap();
                if step < count {
                    assert_ne!(clockwise, start);
                    assert_ne!(counter, start);
                }
            }
            assert_eq!(clockwise, start);
            assert_eq!(counter, start);
        }
    }
}

#[test]
fn steps_in_the_two_directions_undo_each_other() {
    let setup = MonitorSetup::from_monitors(vec![
        monitor("a", 0, 10, 10, 0, 0),
        monitor("b", 0, 10, 10, 500, 100),
        monitor("c", 0, 10, 10, 300, 300),
        monitor("d", 0, 10, 10, 100, 400),
    ]);
    for m in setup.monitors() {
        let ahead = setup.next_monitor_clockwise(m).unwrap();
        assert_eq!(setup.next_monitor_counterclockwise(ahead), Ok(m));
        let behind = setup.next_monitor_counterclockwise(m).unwrap();
        assert_eq!(setup.next_monitor_clockwise(behind), Ok(m));
    }
}

#[test]
fn offsets_of_any_size_wrap_around() {
    let setup = MonitorSetup::from_monitors(three_monitors());
    let at = |index: u32, offset: i32| setup.monitor_at_offset_index(index, offset).unwrap().order();
    assert_eq!(at(0, 0), 0);
    assert_eq!(at(0, 1), 1);
    assert_eq!(at(2, 1), 0);
    assert_eq!(at(0, -1), 2);
    assert_eq!(at(0, -3), 0);
    assert_eq!(at(0, -4), 2);
    assert_eq!(at(1, 7), 2);
    assert_eq!(at(1, -7), 0);
    assert_eq!(at(1, i32::MAX), 2);
    assert_eq!(at(1, i32::MIN), 2);
    assert_eq!(at(0, i32::MIN), 1);
    assert_eq!(at(5, 1), 0);
    assert_eq!(at(5, -1), 1);
    assert_eq!(at(u32::MAX, 1), 1);
    assert_eq!(at(u32::MAX, i32::MAX), 1);
    assert_eq!(at(u32::MAX, i32::MIN), 1);
}

#[test]
fn empty_setup_has_no_neighbours() {
    let empty = MonitorSetup::from_monitors(Vec::new());
    let stray = monitor("stray", 0, 10, 10, 0, 0);
    assert_eq!(empty.next_monitor_clockwise(&stray), Err(MonitorUtilsError::InvalidMonitorSetup));
    assert_eq!(
        empty.next_monitor_counterclockwise(&stray),
        Err(MonitorUtilsError::InvalidMonitorSetup)
    );
    assert_eq!(empty.monitor_at_offset_index(0, 0), Err(MonitorUtilsError::InvalidMonitorSetup));
    assert_eq!(empty.monitor_at_offset_index(7, -3), Err(MonitorUtilsError::InvalidMonitorSetup));
}

#[test]
fn with_loader_arranges_what_was_loaded() {
    let setup = MonitorSetup::with_loader(Stub(three_monitors())).unwrap();
    assert_eq!(names(&setup), ["right", "main", "below"]);
    assert_eq!(orders(&setup), [0, 1, 2]);
}

#[test]
fn with_loader_hands_on_the_error_of_the_loader() {
    let failed = MonitorSetup::with_loader(Broken);
    assert_eq!(failed.err(), Some("no display".to_string()));
}

#[test]
fn from_loaded_takes_either_answer() {
    let loaded: Result<Vec<Monitor>, String> = Ok(three_monitors());
    assert_eq!(names(&MonitorSetup::from_loaded(loaded).unwrap()), ["right", "main", "below"]);
    let failed: Result<Vec<Monitor>, u8> = Err(7);
    assert_eq!(MonitorSetup::from_loaded(failed).err(), Some(7));
}

#[test]
fn reload_replaces_the_monitors() {
    let mut setup = MonitorSetup::with_loader(Stub(three_monitors())).unwrap();
    let other = vec![monitor("b", 0, 10, 10, 0, 700), monitor("a", 0, 10, 10, 700, 0)];
    assert_eq!(setup.reload(Stub(other)), Ok(()));
    assert_eq!(names(&setup), ["a", "b"]);
    assert_eq!(orders(&setup), [0, 1]);
    assert_eq!(setup.reload(Stub(Vec::new())), Ok(()));
    assert_eq!(setup.len(), 0);
}

#[test]
fn failed_reload_leaves_the_setup_as_it_is() {
    let mut setup = MonitorSetup::with_loader(Stub(three_monitors())).unwrap();
    let before = setup.monitors().clone();
    assert_eq!(setup.reload(Broken), Err("no display".to_string()));
    assert_eq!(*setup.monitors(), before);
    let failed: Result<Vec<Monitor>, u8> = Err(9);
    assert_eq!(setup.install(failed), Err(9));
    assert_eq!(*setup.monitors(), before);
}

#[test]
fn install_arranges_what_was_loaded() {
    let mut setup = MonitorSetup::from_monitors(Vec::new());
    let loaded: Result<Vec<Monitor>, u8> = Ok(three_monitors());
    assert_eq!(setup.install(loaded), Ok(()));
    assert_eq!(names(&setup), ["right", "main", "below"]);
    assert_eq!(orders(&setup), [0, 1, 2]);
}

#[test]
fn snapshot_restores_to_an_equal_setup() {
    let setup = MonitorSetup::from_monitors(three_monitors());
    let kept = setup.snapshot();
    assert_eq!(kept.iter().map(|entry| entry.0).collect::<Vec<u32>>(), [0, 1, 2]);
    assert_eq!(
        kept.iter().map(|entry| entry.1.name().to_string()).collect::<Vec<String>>(),
        ["right", "main", "below"]
    );
    let restored = MonitorSetup::restore(kept).unwrap();
    assert_eq!(restored.monitors(), setup.monitors());
    assert!(restored.is_well_arranged());
    assert_eq!(MonitorSetup::restore_checked(setup.snapshot()).unwrap().monitors(), setup.monitors());
    let empty = MonitorSetup::from_monitors(Vec::new());
    assert!(empty.snapshot().is_empty());
    assert_eq!(MonitorSetup::restore(Vec::new()).unwrap().len(), 0);
    assert_eq!(MonitorSetup::restore_checked(Vec::new()).unwrap().len(), 0);
}

#[test]
fn restore_takes_the_order_numbers_from_the_snapshot() {
    let entries = vec![
        (0, monitor("a", 5, 10, 10, 0, 0)),
        (1, monitor("b", 6, 10, 10, 100, 100)),
        (2, monitor("c", 7, 10, 10, 0, 100)),
    ];
    let setup = MonitorSetup::restore(entries).unwrap();
    assert_eq!(names(&setup), ["a", "b", "c"]);
    assert_eq!(orders(&setup), [0, 1, 2]);
    assert_eq!(setup.monitors()[2].crtc(), 7);
    assert!(setup.is_well_arranged());
}

#[test]
fn restore_keeps_a_snapshot_as_it_is() {
    // Out of clockwise order: arranging would put X first.
    let stored = vec![(0, monitor("Z", 2, 100, 100, 0, 1080)), (1, monitor("X", 0, 100, 100, 1920, 0))];
    let setup = MonitorSetup::restore(stored).unwrap();
    assert_eq!(setup.len(), 2);
    assert_eq!(names(&setup), ["Z", "X"]);
    assert_eq!(orders(&setup), [0, 1]);
    assert_eq!(setup.monitors()[0].crtc(), 2);
    assert_eq!(*setup.monitors()[0].rect(), Rect::new(100, 100, Point::new(0, 1080)));
    assert!(!setup.is_well_arranged());
    // Order numbers are kept, whatever they are.
    let numbered = vec![
        (7, monitor("a", 0, 10, 10, 0, 0)),
        (7, monitor("b", 0, 10, 10, 100, 100)),
        (u32::MAX, monitor("c", 0, 10, 10, 0, 100)),
    ];
    let setup = MonitorSetup::restore(numbered).unwrap();
    assert_eq!(names(&setup), ["a", "b", "c"]);
    assert_eq!(orders(&setup), [7, 7, u32::MAX]);
    assert!(!setup.is_well_arranged());
    // What was restored is kept again as it is.
    let again = MonitorSetup::restore(setup.snapshot()).unwrap();
    assert_eq!(again.monitors(), setup.monitors());
}

#[test]
fn restored_setup_answers_queries_by_what_it_holds() {
    let stored = vec![(0, monitor("Z", 2, 100, 100, 0, 1080)), (1, monitor("X", 0, 100, 100, 1920, 0))];
    let setup = MonitorSetup::restore(stored).unwrap();
    let z = &setup.monitors()[0];
    let x = &setup.monitors()[1];
    assert_eq!(setup.monitor_containing_point(&Point::new(1950, 50)), Ok(x));
    assert_eq!(setup.next_monitor_clockwise(z), Ok(x));
    assert_eq!(setup.next_monitor_clockwise(x), Ok(z));
    assert_eq!(setup.next_monitor_counterclockwise(z), Ok(x));
}

#[test]
fn reload_arranges_a_restored_setup() {
    let stored = vec![(0, monitor("Z", 2, 100, 100, 0, 1080)), (1, monitor("X", 0, 100, 100, 1920, 0))];
    let mut setup = MonitorSetup::restore(stored).unwrap();
    assert_eq!(setup.reload(Broken), Err("no display".to_string()));
    assert_eq!(names(&setup), ["Z", "X"]);
    let held = setup.monitors().clone();
    assert_eq!(setup.reload(Stub(held)), Ok(()));
    assert_eq!(names(&setup), ["X", "Z"]);
    assert_eq!(orders(&setup), [0, 1]);
    assert!(setup.is_well_arranged());
}

#[test]
fn loaded_setups_are_well_arranged() {
    assert!(MonitorSetup::new().is_well_arranged());
    assert!(MonitorSetup::from_monitors(three_monitors()).is_well_arranged());
    assert!(MonitorSetup::with_loader(Stub(three_monitors())).unwrap().is_well_arranged());
    // Monitors on one corner may stand in any order.
    let tied = vec![(0, monitor("x", 0, 10, 10, 5, 5)), (1, monitor("w", 0, 20, 20, 5, 5))];
    assert!(MonitorSetup::restore(tied).unwrap().is_well_arranged());
}

#[test]
fn checked_restore_refuses_wrong_order_numbers() {
    let gap = vec![(0, monitor("a", 0, 10, 10, 0, 0)), (2, monitor("b", 0, 10, 10, 100, 100))];
    assert_eq!(MonitorSetup::restore_checked(gap).err(), Some(MonitorUtilsError::InvalidMonitorSetup));
    let twice = vec![(0, monitor("a", 0, 10, 10, 0, 0)), (0, monitor("b", 0, 10, 10, 100, 100))];
    assert_eq!(MonitorSetup::restore_checked(twice).err(), Some(MonitorUtilsError::InvalidMonitorSetup));
    let from_one = vec![(1, monitor("a", 0, 10, 10, 0, 0))];
    assert_eq!(MonitorSetup::restore_checked(from_one).err(), Some(MonitorUtilsError::InvalidMonitorSetup));
    let swapped = vec![(1, monitor("a", 0, 10, 10, 0, 0)), (0, monitor("b", 0, 10, 10, 100, 100))];
    assert_eq!(MonitorSetup::restore_checked(swapped).err(), Some(MonitorUtilsError::InvalidMonitorSetup));
}

#[test]
fn checked_restore_refuses_monitors_out_of_clockwise_order() {
    let unsorted = vec![
        (0, monitor("b", 0, 10, 10, 0, 100)),
        (1, monitor("a", 0, 10, 10, 100, 0)),
    ];
    assert_eq!(
        MonitorSetup::restore_checked(unsorted).err(),
        Some(MonitorUtilsError::InvalidMonitorSetup)
    );
    let near_first = vec![
        (0, monitor("near", 0, 10, 10, 100, 100)),
        (1, monitor("far", 0, 10, 10, 200, 200)),
    ];
    assert_eq!(
        MonitorSetup::restore_checked(near_first).err(),
        Some(MonitorUtilsError::InvalidMonitorSetup)
    );
    let far_first = vec![
        (0, monitor("far", 0, 10, 10, 200, 200)),
        (1, monitor("near", 0, 10, 10, 100, 100)),
    ];
    assert_eq!(names(&MonitorSetup::restore_checked(far_first).unwrap()), ["far", "near"]);
}

#[test]
fn agrees_with_angle_and_distance_in_floating_point() {
    let mut given = Vec::new();
    for x in 0..=6u32 {
        for y in 0..=6u32 {
            given.push(monitor(&format!("{}/{}", x, y), 0, 640, 480, 1280 * x, 1024 * y));
        }
    }
    // Begin with another order than the one that is looked for.
    given.reverse();
    given.rotate_left(17);
    let mut expected = given.clone();
    expected.sort_by(|m1, m2| {
        let key = |m: &Monitor| {
            let corner = m.rect().offset();
            let angle = f32::atan2(corner.y() as f32, corner.x() as f32);
            let distance = ((corner.x().pow(2) + corner.y().pow(2)) as f32).sqrt();
            // On one ray the farther monitor comes first.
            (angle, -distance)
        };
        key(m1).partial_cmp(&key(m2)).unwrap()
    });
    let setup = MonitorSetup::from_monitors(given);
    assert_eq!(
        names(&setup),
        expected.iter().map(|m| m.name().to_string()).collect::<Vec<String>>()
    );
    assert_eq!(orders(&setup), (0..49).collect::<Vec<u32>>());
}

#[test]
fn arranging_keeps_every_monitor() {
    let mut given = Vec::new();
    for i in 0..40u32 {
        given.push(monitor(&format!("m{}", i), i, 10 + i, 20 + i, (i * 37) % 11, (i * 53) % 7));
    }
    let setup = MonitorSetup::from_monitors(given.clone());
    assert_eq!(setup.len(), 40);
    for m in &given {
        let kept: Vec<&Monitor> = setup
            .monitors()
            .iter()
            .filter(|k| k.name() == m.name() && k.crtc() == m.crtc() && k.rect() == m.rect())
            .collect();
        assert_eq!(kept.len(), 1);
    }
    // Those on one corner stand in the order in which they were given.
    for pair in setup.monitors().windows(2) {
        if pair[0].rect().offset() == pair[1].rect().offset() {
            assert!(pair[0].crtc() < pair[1].crtc());
        }
    }
}

#[test]
fn new_setup_is_empty_until_it_is_loaded() {
    let mut setup = MonitorSetup::new();
    assert_eq!(setup.len(), 0);
    assert_eq!(
        setup.monitor_containing_point(&Point::new(0, 0)),
        Err(MonitorUtilsError::PointOutOfBounds(Point::new(0, 0)))
    );
    assert_eq!(setup.reload(Broken), Err("no display".to_string()));
    assert_eq!(setup.len(), 0);
    assert_eq!(setup.reload(Stub(three_monitors())), Ok(()));
    assert_eq!(names(&setup), ["right", "main", "below"]);
}

#[test]
fn monitor_at_offset_steps_from_a_monitor() {
    let setup = MonitorSetup::from_monitors(three_monitors());
    let right = &setup.monitors()[0];
    let main = &setup.monitors()[1];
    let below = &setup.monitors()[2];
    assert_eq!(setup.monitor_at_offset(right, 0), Ok(right));
    assert_eq!(setup.monitor_at_offset(right, 1), Ok(main));
    assert_eq!(setup.monitor_at_offset(right, 2), Ok(below));
    assert_eq!(setup.monitor_at_offset(right, 3), Ok(right));
    assert_eq!(setup.monitor_at_offset(right, -1), Ok(below));
    assert_eq!(setup.monitor_at_offset(below, 2), Ok(main));
    assert_eq!(setup.monitor_at_offset(below, -5), Ok(right));
    assert_eq!(setup.monitor_at_offset(main, 300), Ok(main));
    assert_eq!(setup.monitor_at_offset(main, -301), Ok(right));
    let empty = MonitorSetup::new();
    assert_eq!(empty.monitor_at_offset(main, 1), Err(MonitorUtilsError::InvalidMonitorSetup));
}
