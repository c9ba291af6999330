use dagr_game::camera::Camera;
use dagr_game::navigation::{entry_position, plan_move, MoveDecision, ViewMode};
use dagr_game::object::Object;
use dagr_game::tile::{Color, Tile};
use dagr_game::ui::bar::Bar;
use dagr_game::ui::map_frame::MapFrame;
use dagr_game::ui::stat_bar::StatBar;
use dagr_game::world_map::WorldMap;

#[test]
fn world_map_keeps_one_entity_per_cell() {
    let mut map = WorldMap::new();
    assert_eq!(map.count(), 0);
    assert_eq!(map.get((0, 0)), None);
    map.insert((0, 0), 7);
    map.insert((-1, 5), 8);
    map.insert((5, -1), 9);
    map.insert((i32::MIN, i32::MAX), 10);
    assert_eq!(map.get((0, 0)), Some(7));
    assert_eq!(map.get((-1, 5)), Some(8));
    assert_eq!(map.get((5, -1)), Some(9));
    assert_eq!(map.get((i32::MIN, i32::MAX)), Some(10));
    assert_eq!(map.get((i32::MAX, i32::MIN)), None);
    assert_eq!(map.count(), 4);
    map.insert((0, 0), 11);
    assert_eq!(map.get((0, 0)), Some(11));
    assert_eq!(map.count(), 4);
    map.clear();
    assert_eq!(map.count(), 0);
    assert_eq!(map.get((0, 0)), None);
}

#[test]
fn steps_on_the_hex_map_are_always_taken() {
    assert_eq!(
        plan_move(ViewMode::HexMap, 3, 4, 1, -1, true, None),
        MoveDecision::Go { x: 4, y: 3 }
    );
    assert_eq!(
        plan_move(ViewMode::HexMap, 3, 4, -1, 0, false, None),
        MoveDecision::GenerateHexThenGo { x: 2, y: 4 }
    );
    assert_eq!(
        plan_move(ViewMode::HexMap, 0, 0, -1, -1, true, Some((1, 1))),
        MoveDecision::Go { x: -1, y: -1 }
    );
}

#[test]
fn steps_inside_an_area_stop_at_its_border() {
    for mode in [ViewMode::Wilderness(1), ViewMode::Dungeon(2)] {
        assert_eq!(plan_move(mode, 0, 0, 1, 1, false, Some((10, 10))), MoveDecision::Go { x: 1, y: 1 });
        assert_eq!(plan_move(mode, 0, 0, -1, 0, true, Some((10, 10))), MoveDecision::Stay);
        assert_eq!(plan_move(mode, 9, 9, 1, 0, true, Some((10, 10))), MoveDecision::Stay);
        assert_eq!(plan_move(mode, 9, 9, 0, 1, true, Some((10, 10))), MoveDecision::Stay);
        assert_eq!(plan_move(mode, 9, 8, 0, 1, true, Some((10, 10))), MoveDecision::Go { x: 9, y: 9 });
        assert_eq!(plan_move(mode, 9, 9, 1, 1, false, None), MoveDecision::Go { x: 10, y: 10 });
    }
}

#[test]
fn an_area_is_entered_in_its_middle() {
    assert_eq!(entry_position(45, 45), (22, 22));
    assert_eq!(entry_position(10, 7), (5, 3));
    assert_eq!(entry_position(1, 0), (0, 0));
    assert_eq!(entry_position(-5, -4), (-2, -2));
}

#[test]
fn screen_places_go_back_to_world_cells() {
    let mut camera = Camera::new(80, 24);
    camera.center_on(10, 10);
    assert_eq!(camera.screen_to_world(0, 0), Some((-30, -2)));
    assert_eq!(camera.screen_to_world(40, 12), Some((10, 10)));
    for (wx, wy) in [(-30, -2), (10, 10), (49, 21)] {
        let (sx, sy) = camera.world_to_screen(wx, wy).unwrap();
        assert_eq!(camera.screen_to_world(sx, sy), Some((wx, wy)));
    }
    let mut far = Camera::new(10, 10);
    far.center_on(i32::MAX, 0);
    assert_eq!(far.screen_to_world(5, 0), Some((i32::MAX, -5)));
    assert_eq!(far.screen_to_world(6, 0), None);
}

#[test]
fn objects_bars_and_frames_keep_their_fields() {
    let tile = Tile::new('@', Color::Blue);
    let object = Object::new(tile, 3, 4);
    assert_eq!((object.tile, object.x, object.y), (tile, 3, 4));
    let bar = Bar::new(5, 6, 20, 45, 100, Color::Green);
    assert_eq!((bar.x, bar.y, bar.w, bar.current, bar.max), (5, 6, 20, 45, 100));
    assert_eq!((bar.full_char, bar.empty_char, bar.fg), ('█', '░', Color::Green));
    assert_eq!(bar.empty_cells(9), 11);
    assert_eq!(bar.empty_cells(20), 0);
    assert_eq!(bar.empty_cells(21), 0);
    let frame = MapFrame::new(0, 0, 80, 12);
    assert_eq!((frame.x, frame.y, frame.w, frame.h), (0, 0, 80, 12));
    assert_eq!(frame.inner_size(), (78, 10));
    assert_eq!(MapFrame::new(0, 0, 1, 2).inner_size(), (0, 0));
}

#[test]
fn stat_bar_lays_out_its_parts() {
    let bar = StatBar::new(1, 12, "HP".to_string(), 45, 100, 20);
    assert_eq!(bar.bar_column(2), Some(5));
    assert_eq!(bar.value_column(5), Some(26));
    assert_eq!(bar.bar_column(65532), Some(65535));
    assert_eq!(bar.bar_column(65533), None);
    assert_eq!(bar.bar_column(usize::MAX), None);
    assert_eq!(bar.value_column(65514), Some(65535));
    assert_eq!(bar.value_column(65515), None);
}
