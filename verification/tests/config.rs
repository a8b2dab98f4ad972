use fractal::config::{
    Action, Key, PreviewKeysConfig, RenderConfig, Resolution, KEY_A, KEY_D, KEY_DOWN, KEY_R,
    KEY_S, KEY_UP, KEY_W,
};

#[test]
fn renders_default_to_ultra_high_definition() {
    let config = RenderConfig::default();
    assert_eq!(config.resolution, Resolution { width: 3840, height: 2160 });
    assert_eq!(config.directory, "renders");
}

#[test]
fn key_codes_are_those_of_the_letters_and_arrows() {
    assert_eq!(KEY_A, 'a' as i32);
    assert_eq!(KEY_D, 'd' as i32);
    assert_eq!(KEY_R, 'r' as i32);
    assert_eq!(KEY_S, 's' as i32);
    assert_eq!(KEY_W, 'w' as i32);
    assert_eq!(KEY_DOWN, 0x4000_0051);
    assert_eq!(KEY_UP, 0x4000_0052);
}

#[test]
fn default_keys_are_wasd_arrows_and_r() {
    let keys = PreviewKeysConfig::default();
    assert_eq!(keys.up, Key { code: KEY_W });
    assert_eq!(keys.right, Key { code: KEY_D });
    assert_eq!(keys.down, Key { code: KEY_S });
    assert_eq!(keys.left, Key { code: KEY_A });
    assert_eq!(keys.zoom_in, Key { code: KEY_UP });
    assert_eq!(keys.zoom_out, Key { code: KEY_DOWN });
    assert_eq!(keys.render, Key { code: KEY_R });
}

#[test]
fn a_key_matches_its_own_code_only() {
    let key = Key { code: 42 };
    assert!(key.matches(42));
    assert!(!key.matches(43));
    assert!(!key.matches(-42));
}

#[test]
fn default_keys_trigger_their_actions() {
    let keys = PreviewKeysConfig::default();
    assert_eq!(keys.action(KEY_W), Some(Action::Up));
    assert_eq!(keys.action(KEY_A), Some(Action::Left));
    assert_eq!(keys.action(KEY_S), Some(Action::Down));
    assert_eq!(keys.action(KEY_D), Some(Action::Right));
    assert_eq!(keys.action(KEY_UP), Some(Action::ZoomIn));
    assert_eq!(keys.action(KEY_DOWN), Some(Action::ZoomOut));
    assert_eq!(keys.action(KEY_R), Some(Action::Render));
    assert_eq!(keys.action('q' as i32), None);
    assert_eq!(keys.action(0), None);
}

#[test]
fn a_key_bound_twice_triggers_the_first_action() {
    let one = Key { code: 1 };
    let two = Key { code: 2 };
    let all_one = PreviewKeysConfig {
        up: one,
        right: one,
        down: one,
        left: one,
        zoom_in: one,
        zoom_out: one,
        render: one,
    };
    assert_eq!(all_one.action(1), Some(Action::ZoomIn));
    assert_eq!((PreviewKeysConfig { zoom_in: two, ..all_one }).action(1), Some(Action::ZoomOut));
    let moving = PreviewKeysConfig { zoom_in: two, zoom_out: two, ..all_one };
    assert_eq!(moving.action(1), Some(Action::Up));
    assert_eq!((PreviewKeysConfig { up: two, ..moving }).action(1), Some(Action::Left));
    assert_eq!(
        (PreviewKeysConfig { up: two, left: two, ..moving }).action(1),
        Some(Action::Down)
    );
    assert_eq!(
        (PreviewKeysConfig { up: two, left: two, down: two, ..moving }).action(1),
        Some(Action::Right)
    );
    assert_eq!(
        (PreviewKeysConfig { up: two, left: two, down: two, right: two, ..moving }).action(1),
        Some(Action::Render)
    );
}

#[test]
fn moves_point_along_one_axis() {
    assert_eq!(Action::Up.direction(), (0, -1));
    assert_eq!(Action::Down.direction(), (0, 1));
    assert_eq!(Action::Left.direction(), (-1, 0));
    assert_eq!(Action::Right.direction(), (1, 0));
    assert_eq!(Action::ZoomIn.direction(), (0, 0));
    assert_eq!(Action::ZoomOut.direction(), (0, 0));
    assert_eq!(Action::Render.direction(), (0, 0));
}
