use pluely_oauth::startup::wayland_env_overrides;
use pluely_oauth::window::{
    center_position, centered_coordinate, logical_size, dashboard_window_config, main_window_index,
    move_window_target, overlay_size_for_height, parse_direction, show_dashboard_action,
    toggle_dashboard_action, top_center_position, DashboardAction, Direction, TOP_OFFSET,
};

#[test]
fn top_center_of_monitor() {
    assert_eq!(top_center_position(1920, 800, TOP_OFFSET), (560, 54));
    assert_eq!(top_center_position(1921, 800, 0), (560, 0));
}

#[test]
fn larger_window_goes_left_of_monitor_rounding_toward_zero() {
    assert_eq!(centered_coordinate(100, 103), -1);
    assert_eq!(centered_coordinate(100, 104), -2);
}

#[test]
fn huge_sizes_wrap_like_i32_casts() {
    // 4294967295 as i32 is -1
    assert_eq!(centered_coordinate(4294967295, 1), -1);
}

#[test]
fn center_in_both_directions() {
    assert_eq!(center_position(1920, 1080, 800, 600), (560, 240));
}

#[test]
fn height_only_size_keeps_width() {
    assert_eq!(overlay_size_for_height(400), (800, 400));
}

#[test]
fn directions_are_parsed_exactly() {
    assert_eq!(parse_direction("up"), Some(Direction::Up));
    assert_eq!(parse_direction("down"), Some(Direction::Down));
    assert_eq!(parse_direction("left"), Some(Direction::Left));
    assert_eq!(parse_direction("right"), Some(Direction::Right));
    assert_eq!(parse_direction("Up"), None);
    assert_eq!(parse_direction("up "), None);
    assert_eq!(parse_direction(""), None);
}

#[test]
fn move_targets() {
    assert_eq!(move_window_target(Some((10, 20)), "up", 5), Ok((10, 15)));
    assert_eq!(move_window_target(Some((10, 20)), "down", 5), Ok((10, 25)));
    assert_eq!(move_window_target(Some((10, 20)), "left", 5), Ok((5, 20)));
    assert_eq!(move_window_target(Some((10, 20)), "right", -5), Ok((5, 20)));
}

#[test]
fn move_errors() {
    assert_eq!(
        move_window_target(Some((0, 0)), "sideways", 1),
        Err("Invalid direction: sideways".to_string())
    );
    assert_eq!(move_window_target(None, "up", 1), Err("Main window not found".to_string()));
}

#[test]
fn move_and_back_restores_position() {
    let p = move_window_target(Some((3, 4)), "left", 7).unwrap();
    assert_eq!(move_window_target(Some(p), "right", 7), Ok((3, 4)));
}

#[test]
fn main_window_choice() {
    let l = |v: &[&str]| v.iter().map(|s| s.to_string()).collect::<Vec<String>>();
    assert_eq!(main_window_index(&l(&["x", "pluely", "main"])), Some(2));
    assert_eq!(main_window_index(&l(&["x", "pluely"])), Some(1));
    assert_eq!(main_window_index(&l(&["x", "y"])), Some(0));
    assert_eq!(main_window_index(&l(&[])), None);
}

#[test]
fn toggle_decisions() {
    assert!(matches!(toggle_dashboard_action(None), DashboardAction::CreateShowAndFocus));
    assert!(matches!(toggle_dashboard_action(Some(Ok(true))), DashboardAction::Hide));
    assert!(matches!(toggle_dashboard_action(Some(Ok(false))), DashboardAction::ShowAndFocus));
    match toggle_dashboard_action(Some(Err("boom".to_string()))) {
        DashboardAction::Fail(m) => assert_eq!(m, "Failed to check dashboard visibility: boom"),
        other => panic!("unexpected {:?}", other),
    }
    assert!(matches!(show_dashboard_action(true), DashboardAction::ShowAndFocus));
    assert!(matches!(show_dashboard_action(false), DashboardAction::CreateShowAndFocus));
}

#[test]
fn dashboard_configs() {
    let mac = dashboard_window_config(true);
    assert_eq!((mac.width, mac.height, mac.visible), (1200, 800, true));
    assert_eq!(mac.traffic_light_position, Some((14, 18)));
    assert_eq!(mac.title, "Pluely - Dashboard");
    let other = dashboard_window_config(false);
    assert_eq!((other.width, other.height, other.visible), (800, 600, false));
    assert_eq!((other.min_width, other.min_height), (800, 600));
    assert_eq!(other.label, "dashboard");
    assert_eq!(other.url, "/chats");
    assert!(other.content_protected && other.centered && other.decorations);
}

#[test]
fn wayland_overrides() {
    assert!(wayland_env_overrides(false, false, false).is_empty());
    assert_eq!(
        wayland_env_overrides(true, false, false),
        vec![
            ("WEBKIT_DISABLE_COMPOSITING_MODE".to_string(), "1".to_string()),
            ("GDK_BACKEND".to_string(), "wayland,x11".to_string())
        ]
    );
    assert_eq!(
        wayland_env_overrides(true, true, false),
        vec![("GDK_BACKEND".to_string(), "wayland,x11".to_string())]
    );
    assert!(wayland_env_overrides(true, true, true).is_empty());
}

#[test]
fn two_toggles_restore_visibility() {
    let first = toggle_dashboard_action(Some(Ok(true)));
    assert!(matches!(first, DashboardAction::Hide));
    let second = toggle_dashboard_action(Some(Ok(false)));
    assert!(matches!(second, DashboardAction::ShowAndFocus));
}

#[test]
fn height_only_equals_size_with_fixed_width() {
    assert_eq!(logical_size(1024, 700), (1024, 700));
    assert_eq!(overlay_size_for_height(700), logical_size(800, 700));
}
