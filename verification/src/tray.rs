//! Where a click in the tray menu goes.

use vstd::prelude::*;
use crate::mini::LiteAction;
use crate::text::{chars_of, eq_str};

verus! {

/// The transport action that the mini player takes for a tray item.
pub open spec fn lite_action_of(action: Seq<char>) -> Option<LiteAction> {
    if action == "play_pause"@ {
        Some(LiteAction::PlayPause)
    } else if action == "prev"@ {
        Some(LiteAction::Prev)
    } else if action == "next"@ {
        Some(LiteAction::Next)
    } else {
        None
    }
}

pub fn tray_lite_action(action: &str) -> (r: Option<LiteAction>)
    ensures
        r == lite_action_of(action@),
{
    let v = chars_of(action);
    if eq_str(v.as_slice(), "play_pause") {
        Some(LiteAction::PlayPause)
    } else if eq_str(v.as_slice(), "prev") {
        Some(LiteAction::Prev)
    } else if eq_str(v.as_slice(), "next") {
        Some(LiteAction::Next)
    } else {
        None
    }
}

/// Who handles a transport item of the tray menu.
#[derive(Copy, Clone, Debug, PartialEq, Eq, Structural)]
pub enum TrayRoute {
    /// The mini player is open and takes the action.
    Lite(LiteAction),
    /// The mini player is open and has no such action: nothing happens.
    Dropped,
    /// The main window gets the action.
    Main,
}

pub open spec fn tray_route_spec(lite_active: bool, action: Seq<char>) -> TrayRoute {
    if lite_active {
        match lite_action_of(action) {
            Some(a) => TrayRoute::Lite(a),
            None => TrayRoute::Dropped,
        }
    } else {
        TrayRoute::Main
    }
}

pub fn tray_route(lite_active: bool, action: &str) -> (r: TrayRoute)
    ensures
        r == tray_route_spec(lite_active, action@),
{
    if lite_active {
        match tray_lite_action(action) {
            Some(a) => TrayRoute::Lite(a),
            None => TrayRoute::Dropped,
        }
    } else {
        TrayRoute::Main
    }
}

/// While the mini player is open the tray's play/pause, previous and next
/// items drive it and any other item does nothing; while it is closed every
/// item goes to the main window.
pub proof fn lemma_tray_transport_routes(action: Seq<char>)
    ensures
        tray_route_spec(true, "play_pause"@) == TrayRoute::Lite(LiteAction::PlayPause),
        tray_route_spec(true, "prev"@) == TrayRoute::Lite(LiteAction::Prev),
        tray_route_spec(true, "next"@) == TrayRoute::Lite(LiteAction::Next),
        action != "play_pause"@ && action != "prev"@ && action != "next"@ ==> tray_route_spec(
            true,
            action,
        ) == TrayRoute::Dropped,
        tray_route_spec(false, action) == TrayRoute::Main,
{
    reveal_strlit("play_pause");
    reveal_strlit("prev");
    reveal_strlit("next");
    assert("prev"@.len() != "play_pause"@.len() && "next"@.len() != "play_pause"@.len());
    assert("next"@[0] != "prev"@[0]);
}

/// The text of the tray item that enters or leaves the mini player.
pub fn lite_menu_label(lite_active: bool) -> (r: &'static str)
    ensures
        lite_active ==> r@ == "退出轻量模式"@,
        !lite_active ==> r@ == "切换轻量模式"@,
{
    if lite_active {
        "退出轻量模式"
    } else {
        "切换轻量模式"
    }
}

/// What the tray's "quit" item does.
#[derive(Copy, Clone, Debug, PartialEq, Eq, Structural)]
pub enum QuitRoute {
    /// The lite window is open: mark the shutdown and ask it to close, so
    /// that it saves its progress before the player exits.
    CloseLite,
    /// Exit now.
    Exit,
}

pub fn tray_quit_route(lite_active: bool) -> (r: QuitRoute)
    ensures
        lite_active ==> r == QuitRoute::CloseLite,
        !lite_active ==> r == QuitRoute::Exit,
{
    if lite_active {
        QuitRoute::CloseLite
    } else {
        QuitRoute::Exit
    }
}

} // verus!
