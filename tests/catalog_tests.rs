use horse::catalog::{artworks, choose_artwork, random_artwork, ARTWORK_COUNT};
use horse::frame::Frame;

#[test]
fn catalog_has_all_artworks() {
    let a = artworks();
    assert_eq!(a.len(), ARTWORK_COUNT);
    for art in a {
        let f = Frame::new(art, 0);
        assert!(f.width() > 0);
        assert!(f.height() > 0);
    }
}

#[test]
fn choose_skips_the_last_pick() {
    assert_eq!(choose_artwork(3, Some(1), 0), 0);
    assert_eq!(choose_artwork(3, Some(1), 1), 2);
    assert_eq!(choose_artwork(3, Some(0), 0), 1);
    assert_eq!(choose_artwork(3, Some(2), 1), 1);
}

#[test]
fn choose_without_last_pick_takes_the_draw() {
    assert_eq!(choose_artwork(3, None, 2), 2);
    assert_eq!(choose_artwork(3, None, 0), 0);
}

#[test]
fn choose_with_one_artwork_returns_it() {
    assert_eq!(choose_artwork(1, Some(0), 0), 0);
    assert_eq!(choose_artwork(1, None, 0), 0);
}

#[test]
fn random_pick_of_two_is_the_other() {
    for _ in 0..50 {
        assert_eq!(random_artwork(2, Some(1)), 0);
        assert_eq!(random_artwork(2, Some(0)), 1);
    }
}

#[test]
fn random_pick_stays_in_range_and_avoids_last() {
    for _ in 0..200 {
        let r = random_artwork(5, Some(3));
        assert!(r < 5);
        assert_ne!(r, 3);
    }
    assert_eq!(random_artwork(1, Some(0)), 0);
}
