use dagr_game::camera::Camera;
use dagr_game::input::{Action, InputManager, Key};
use dagr_game::renderer::Renderer;
use dagr_game::ui::border_style::BorderStyle;
use dagr_game::ui::panel::Panel;
use dagr_game::ui::stat_bar::StatBar;

#[test]
fn camera_starts_at_the_origin() {
    let camera = Camera::new(80, 24);
    assert_eq!((camera.x, camera.y), (0, 0));
    assert_eq!(camera.world_to_screen(0, 0), Some((0, 0)));
    assert_eq!(camera.world_to_screen(79, 23), Some((79, 23)));
    assert_eq!(camera.world_to_screen(80, 23), None);
    assert_eq!(camera.world_to_screen(79, 24), None);
    assert_eq!(camera.world_to_screen(-1, 0), None);
}

#[test]
fn camera_centers_on_a_cell() {
    let mut camera = Camera::new(80, 25);
    camera.center_on(100, -7);
    assert_eq!((camera.x, camera.y), (60, -19));
    assert_eq!(camera.world_to_screen(100, -7), Some((40, 12)));
    assert_eq!(camera.world_to_screen(60, -19), Some((0, 0)));
    assert_eq!(camera.world_to_screen(139, 5), Some((79, 24)));
    assert_eq!(camera.world_to_screen(140, 5), None);
    assert_eq!(camera.world_to_screen(59, 0), None);
}

#[test]
fn camera_far_from_a_cell_does_not_overflow() {
    let mut camera = Camera::new(u16::MAX, u16::MAX);
    camera.center_on(i32::MAX, i32::MAX);
    assert_eq!(camera.world_to_screen(i32::MIN, i32::MIN), None);
    assert_eq!(camera.world_to_screen(i32::MAX, i32::MAX), Some((32767, 32767)));
    let empty = Camera::new(0, 0);
    assert_eq!(empty.world_to_screen(0, 0), None);
}

#[test]
fn keys_are_bound_to_actions() {
    let input = InputManager::new();
    assert_eq!(input.key_to_action(Key::Up), Action::Move(0, -1));
    assert_eq!(input.key_to_action(Key::Char('k')), Action::Move(0, -1));
    assert_eq!(input.key_to_action(Key::Down), Action::Move(0, 1));
    assert_eq!(input.key_to_action(Key::Char('j')), Action::Move(0, 1));
    assert_eq!(input.key_to_action(Key::Left), Action::Move(-1, 0));
    assert_eq!(input.key_to_action(Key::Char('h')), Action::Move(-1, 0));
    assert_eq!(input.key_to_action(Key::Right), Action::Move(1, 0));
    assert_eq!(input.key_to_action(Key::Char('l')), Action::Move(1, 0));
    assert_eq!(input.key_to_action(Key::Char('y')), Action::Move(-1, -1));
    assert_eq!(input.key_to_action(Key::Char('u')), Action::Move(1, -1));
    assert_eq!(input.key_to_action(Key::Char('b')), Action::Move(-1, 1));
    assert_eq!(input.key_to_action(Key::Char('n')), Action::Move(1, 1));
    assert_eq!(input.key_to_action(Key::Char('q')), Action::Quit);
    assert_eq!(input.key_to_action(Key::Char('.')), Action::Wait);
    assert_eq!(input.key_to_action(Key::Char('K')), Action::Idle);
    assert_eq!(input.key_to_action(Key::Char('x')), Action::Idle);
    assert_eq!(input.key_to_action(Key::Other), Action::Idle);
    assert_eq!(InputManager::default().key_to_action(Key::Char('q')), Action::Quit);
}

#[test]
fn renderer_gives_the_map_the_upper_half() {
    let renderer = Renderer::new(80, 25);
    assert_eq!(renderer.screen_width(), 80);
    assert_eq!(renderer.screen_height(), 25);
    assert_eq!(renderer.map_rows(), 12);
    assert_eq!(Renderer::new(0, 1).map_rows(), 0);
}

#[test]
fn border_styles_have_their_characters() {
    let single = BorderStyle::single();
    assert_eq!(
        (single.top_left, single.top_right, single.bottom_left, single.bottom_right),
        ('┌', '┐', '└', '┘')
    );
    assert_eq!((single.horizontal, single.vertical), ('─', '│'));
    let double = BorderStyle::double();
    assert_eq!(
        (double.top_left, double.top_right, double.bottom_left, double.bottom_right),
        ('╔', '╗', '╚', '╝')
    );
    assert_eq!((double.horizontal, double.vertical), ('═', '║'));
}

#[test]
fn panel_collects_its_lines() {
    let mut panel = Panel::new(21, 12, 20, 8);
    assert_eq!((panel.x, panel.y, panel.w, panel.h), (21, 12, 20, 8));
    assert_eq!(panel.title, None);
    assert!(panel.content.is_empty());
    panel.set_title("Stats".to_string());
    panel.set_content(vec!["STR: 14".to_string(), "DEX: 16".to_string()]);
    panel.add_content("CON: 12".to_string());
    assert_eq!(panel.title, Some("Stats".to_string()));
    assert_eq!(panel.content, vec!["STR: 14", "DEX: 16", "CON: 12"]);
    panel.set_content(vec![]);
    assert!(panel.content.is_empty());
    assert_eq!(panel.title, Some("Stats".to_string()));
}

#[test]
fn panel_shows_what_fits_inside_its_frame() {
    let mut panel = Panel::new(0, 0, 10, 4);
    assert_eq!(panel.visible_rows(), 0);
    assert_eq!(panel.visible_columns(), 8);
    for line in ["a", "b", "c"] {
        panel.add_content(line.to_string());
    }
    assert_eq!(panel.visible_rows(), 2);
    let flat = Panel::new(0, 0, 1, 1);
    assert_eq!(flat.visible_rows(), 0);
    assert_eq!(flat.visible_columns(), 0);
}

#[test]
fn stat_bar_keeps_its_numbers() {
    let bar = StatBar::new(1, 12, "HP".to_string(), 45, 100, 20);
    assert_eq!((bar.x, bar.y), (1, 12));
    assert_eq!(bar.label, "HP");
    assert_eq!((bar.current, bar.max, bar.bar_width), (45, 100, 20));
}
