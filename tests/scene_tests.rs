use horse::scene::{Scene, SCROLL_SPEED, SPACING};

#[test]
fn first_tick_spawns_at_terminal_width() {
    let mut s = Scene::new();
    assert!(s.needs_new_frame(80));
    assert_eq!(s.spawn_x(80), 80);
    s.spawn("ab\nc", 0, 80);
    assert_eq!(s.frames().len(), 1);
    assert_eq!(s.frames()[0].x(), 80);
    assert_eq!(s.last(), Some(0));
}

#[test]
fn next_spawn_follows_previous_right_edge_plus_spacing() {
    let mut s = Scene::new();
    s.spawn("abcd", 0, 80);
    assert!(s.needs_new_frame(80));
    assert_eq!(s.spawn_x(80), 84 + SPACING);
    s.spawn("xy", 1, 80);
    assert_eq!(s.frames()[1].x(), 94);
}

#[test]
fn no_spawn_while_rightmost_is_far_right() {
    let mut s = Scene::new();
    s.spawn("abcdefghijklmnopqrstuvwxyzabcdefghijklmnopqrstuvwxyz", 0, 80);
    // right edge 132 is past 80 + 40
    assert!(!s.needs_new_frame(80));
    let catalog = vec!["a", "b"];
    s.spawn_next(&catalog, 80);
    assert_eq!(s.frames().len(), 1);
}

#[test]
fn spawn_is_due_just_below_threshold() {
    let mut s = Scene::new();
    s.spawn("abcdefghijklmnopqrstuvwxyzabcdefghijklmnopqrstuvwxyz", 0, 67);
    // right edge 119 is not below 67 + 33
    assert!(!s.needs_new_frame(67));
    for _ in 0..20 {
        s.tick();
    }
    // right edge 99 is below 100
    assert!(s.needs_new_frame(67));
}

#[test]
fn tick_moves_every_sprite_by_scroll_speed() {
    let mut s = Scene::new();
    s.spawn("abc", 0, 20);
    s.spawn("de", 1, 20);
    let before: Vec<i32> = s.frames().iter().map(|f| f.right_edge()).collect();
    s.tick();
    let after: Vec<i32> = s.frames().iter().map(|f| f.right_edge()).collect();
    assert_eq!(after, vec![before[0] - SCROLL_SPEED, before[1] - SCROLL_SPEED]);
    assert_eq!(s.frames()[0].width(), 3);
}

#[test]
fn sprite_at_edge_zero_stays_and_at_minus_one_leaves() {
    let mut s = Scene::new();
    s.spawn("ab", 0, 0);
    assert_eq!(s.frames()[0].right_edge(), 2);
    s.tick();
    s.tick();
    assert_eq!(s.frames().len(), 1);
    assert_eq!(s.frames()[0].right_edge(), 0);
    s.tick();
    assert_eq!(s.frames().len(), 0);
}

#[test]
fn retirement_keeps_survivor_order() {
    let mut s = Scene::new();
    s.spawn("a", 0, 0);
    s.spawn("bb", 1, 0);
    s.spawn("ccc", 2, 0);
    for _ in 0..2 {
        s.tick();
    }
    assert_eq!(s.frames().len(), 2);
    assert_eq!(s.frames()[0].content(), "bb");
    assert_eq!(s.frames()[1].content(), "ccc");
}

#[test]
fn spawn_next_never_repeats_with_two_artworks() {
    let catalog = vec!["a", "b", "c"];
    let mut s = Scene::new();
    let mut picks: Vec<usize> = Vec::new();
    for _ in 0..200 {
        s.spawn_next(&catalog, 0);
        picks.push(s.last().unwrap());
        while !s.needs_new_frame(0) {
            s.tick();
        }
        while s.frames().len() > 0 {
            s.tick();
        }
    }
    for w in picks.windows(2) {
        assert_ne!(w[0], w[1]);
    }
}

#[test]
fn spawn_next_with_one_artwork_always_spawns_it() {
    let catalog = vec!["only"];
    let mut s = Scene::new();
    for _ in 0..5 {
        while !s.needs_new_frame(10) {
            s.tick();
        }
        let n = s.frames().len();
        s.spawn_next(&catalog, 10);
        assert_eq!(s.frames().len(), n + 1);
        assert_eq!(s.last(), Some(0));
    }
}
