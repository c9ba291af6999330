use dagr_game::error::GenerationError;
use dagr_game::rect::Rect;
use dagr_game::tile::{Color, Terrain, Tile};

#[test]
fn rect_contains_its_corners_only_inside() {
    let r = Rect::new(2, 3, 4, 5);
    assert!(r.contains(2, 3));
    assert!(r.contains(5, 7));
    assert!(!r.contains(6, 7));
    assert!(!r.contains(5, 8));
    assert!(!r.contains(1, 3));
}

#[test]
fn rect_contains_does_not_overflow_at_the_far_corner() {
    let r = Rect::new(i32::MAX - 1, i32::MAX - 1, i32::MAX, i32::MAX);
    assert!(r.contains(i32::MAX, i32::MAX));
    assert!(!r.contains(i32::MAX - 2, i32::MAX));
    assert!(!r.is_valid());
    assert!(!r.is_in_range());
}

#[test]
fn rect_center_leans_past_the_middle_for_even_extents() {
    assert_eq!(Rect::new(0, 0, 5, 3).center(), (2, 1));
    assert_eq!(Rect::new(10, 20, 4, 6).center(), (12, 23));
    assert_eq!(Rect::new(7, 7, 1, 1).center(), (7, 7));
}

#[test]
fn rect_validity_needs_positive_extents() {
    assert!(Rect::new(0, 0, 1, 1).is_valid());
    assert!(!Rect::new(0, 0, 0, 1).is_valid());
    assert!(!Rect::new(0, 0, 1, -1).is_valid());
    assert!(Rect::new(0, 0, 0, -5).is_in_range());
}

#[test]
fn tile_of_each_terrain() {
    assert_eq!(Tile::from_terrain_type(Terrain::Mountains), Tile::new('^', Color::DarkGrey));
    assert_eq!(Tile::from_terrain_type(Terrain::Hills), Tile::new('n', Color::Grey));
    assert_eq!(Tile::from_terrain_type(Terrain::Plains), Tile::new('~', Color::Green));
    assert_eq!(Tile::from_terrain_type(Terrain::Swamp), Tile::new('"', Color::DarkYellow));
    assert_eq!(Tile::from_terrain_type(Terrain::Other), Tile::new('?', Color::White));
}

#[test]
fn error_messages_differ() {
    assert_eq!(GenerationError::InvalidDimensions.message(), "invalid dimensions");
    assert_eq!(GenerationError::InvalidParameters.message(), "invalid parameters");
    assert_eq!(GenerationError::NoRoomsProduced.message(), "no rooms produced");
}
