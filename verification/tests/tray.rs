use aura::tray::{tray_quit_route, QuitRoute};
use aura::mini::LiteAction;
use aura::tray::{lite_menu_label, tray_lite_action, tray_route, TrayRoute};

#[test]
fn tray_items_map_to_mini_player_actions() {
    assert_eq!(tray_lite_action("play_pause"), Some(LiteAction::PlayPause));
    assert_eq!(tray_lite_action("prev"), Some(LiteAction::Prev));
    assert_eq!(tray_lite_action("next"), Some(LiteAction::Next));
    assert_eq!(tray_lite_action("show"), None);
    assert_eq!(tray_lite_action("Next"), None);
}

#[test]
fn tray_route_depends_on_the_mini_player() {
    assert_eq!(tray_route(true, "next"), TrayRoute::Lite(LiteAction::Next));
    assert_eq!(tray_route(true, "like"), TrayRoute::Dropped);
    assert_eq!(tray_route(false, "next"), TrayRoute::Main);
    assert_eq!(tray_route(false, "like"), TrayRoute::Main);
}

#[test]
fn lite_menu_label_follows_the_mode() {
    assert_eq!(lite_menu_label(true), "退出轻量模式");
    assert_eq!(lite_menu_label(false), "切换轻量模式");
}

#[test]
fn quitting_closes_the_lite_window_first() {

    assert_eq!(tray_quit_route(true), QuitRoute::CloseLite);
    assert_eq!(tray_quit_route(false), QuitRoute::Exit);
}
