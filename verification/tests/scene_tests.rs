use mouse::rational::Rat;
use mouse::scene::{Key, KeysDown, SceneState, mouse_move};
use mouse::transform::Transform;
use mouse::{Color, Svg, Stamp};

fn rat_is(a: &Rat, n: i128, d: i128) -> bool {
    a.num() * d == n * a.den()
}

fn empty_scene() -> SceneState {
    SceneState::new(800, 600, Svg::new(1024, 768))
}

#[test]
fn a_fresh_scene_has_the_documented_defaults() {
    let scene = empty_scene();
    assert_eq!(scene.cursor_x, 0);
    assert_eq!(scene.cursor_y, 0);
    assert_eq!(scene.window_width, 800);
    assert_eq!(scene.window_height, 600);
    assert!(rat_is(&scene.mouse_location.midx, 16, 1));
    assert!(rat_is(&scene.cat_location.midx, 32, 1));
    assert!(rat_is(&scene.cat_location.tx, 0, 1));
    assert!(rat_is(&scene.cat_location.ty, 0, 1));
    assert_eq!(scene.cache.len(), 0);
}

#[test]
fn sim_on_an_empty_level_moves_nothing() {
    let mut scene = empty_scene();
    scene.sim().unwrap();
    assert!(rat_is(&scene.cat_location.tx, 0, 1));
    assert!(rat_is(&scene.cat_location.ty, 0, 1));
    assert!(rat_is(&scene.mouse_location.tx, 0, 1));
    assert!(rat_is(&scene.mouse_location.ty, 0, 1));
}

#[test]
fn the_d_key_moves_the_cat_two_units_right() {
    let mut scene = empty_scene();
    let keys = KeysDown { d: true, ..KeysDown::default() };
    let quit = scene.apply_keys(&keys, None, false).unwrap();
    assert!(!quit);
    assert!(rat_is(&scene.cat_location.tx, 2, 1));
    assert!(rat_is(&scene.cat_location.ty, 0, 1));
}

#[test]
fn the_a_key_moves_the_cat_one_unit_left() {
    let mut scene = empty_scene();
    let keys = KeysDown { a: true, ..KeysDown::default() };
    scene.apply_keys(&keys, None, false).unwrap();
    assert!(rat_is(&scene.cat_location.tx, -1, 1));
}

#[test]
fn the_w_and_s_keys_move_the_cat_vertically() {
    let mut scene = empty_scene();
    let keys = KeysDown { w: true, ..KeysDown::default() };
    scene.apply_keys(&keys, None, false).unwrap();
    assert!(rat_is(&scene.cat_location.ty, -2, 1));
    let keys = KeysDown { s: true, ..KeysDown::default() };
    scene.apply_keys(&keys, None, false).unwrap();
    assert!(rat_is(&scene.cat_location.ty, 0, 1));
}

#[test]
fn arrow_keys_move_the_mouse_one_unit() {
    let mut scene = empty_scene();
    let keys = KeysDown { right: true, down: true, ..KeysDown::default() };
    scene.apply_keys(&keys, None, false).unwrap();
    assert!(rat_is(&scene.mouse_location.tx, 1, 1));
    assert!(rat_is(&scene.mouse_location.ty, 1, 1));
    assert!(rat_is(&scene.cat_location.tx, 0, 1));
}

#[test]
fn escape_requests_a_quit() {
    let mut scene = empty_scene();
    let keys = KeysDown { escape: true, ..KeysDown::default() };
    let quit = scene.apply_keys(&keys, None, false).unwrap();
    assert!(quit);
}

#[test]
fn click_keys_change_nothing_yet() {
    let mut scene = empty_scene();
    let keys = KeysDown { kp_enter: true, ..KeysDown::default() };
    let quit = scene.apply_keys(&keys, Some(Key::Return), false).unwrap();
    assert!(!quit);
    assert!(rat_is(&scene.cat_location.tx, 0, 1));
    scene.click();
    assert!(rat_is(&scene.cat_location.tx, 0, 1));
}

#[test]
fn walking_the_cat_into_a_wall_keeps_it_outside() {
    // A wall spans (70, 0) to (110, 128). The cat is a 64-unit sprite at
    // the origin; its downward-right probe runs from (tx + 32, ty + 64) to
    // (tx + 64, ty). Walking right, the probe eventually crosses the
    // wall's left edge at x = 70 and the collision pass pushes the cat
    // back out.
    let mut svg = Svg::new(1024, 768);
    let mut placement = Transform::new(40, 128);
    placement.tx = Rat::from_int(70);
    placement.ty = Rat::from_int(0);
    svg.add_stamp(Stamp::rect(
        String::from("wall.bmp"),
        40,
        128,
        Color { r: 200, g: 0, b: 0 },
        placement,
    ));
    let mut scene = SceneState::new(800, 600, svg);
    let keys = KeysDown { d: true, ..KeysDown::default() };
    for _ in 0..20 {
        scene.apply_keys(&keys, None, false).unwrap();
    }
    // Unobstructed, twenty steps of two units would reach tx = 40 and the
    // probe tip x = tx + 64 would be well past the wall at x = 70. The
    // engine must have pushed the cat back so the probe tip stays at or
    // before the wall's face.
    let tip_num = scene.cat_location.tx.num() + 64 * scene.cat_location.tx.den();
    assert!(tip_num <= 70 * scene.cat_location.tx.den());
}

#[test]
fn mouse_move_accelerates_only_at_the_desired_frame_rate() {
    assert_eq!(mouse_move(1, 1_000_000), 4);
    assert_eq!(mouse_move(1, 999_999), 4);
    assert_eq!(mouse_move(1, 1_000_001), 1);
    assert_eq!(mouse_move(-3, 500_000), -12);
    assert_eq!(mouse_move(7, 2_000_000), 7);
}
