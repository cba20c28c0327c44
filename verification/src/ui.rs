//! The decisions of the tray application's event loop. On each wake-up the
//! loop looks at the window-system event, then at the menu's channel, then
//! at the tray icon's channel, and stops at the first that asks for
//! something.
use vstd::prelude::*;

verus! {

/// The window-system event the loop woke up for.
#[derive(Clone, Copy, PartialEq, Eq, Structural)]
pub enum AppEvent {
    /// The application was opened again (macOS).
    Reopen,
    /// The loop started.
    Init,
    Other,
}

#[derive(Clone, Copy, PartialEq, Eq, Structural)]
pub enum AppStep {
    /// Open the web app in the browser; nothing more this time.
    OpenBrowser,
    /// Create the tray icon, then look at the menu.
    CreateTrayThenMenu,
    /// Look at the menu.
    Menu,
}

pub fn on_app_event(event: AppEvent) -> (step: AppStep)
    ensures
        step == (match event {
            AppEvent::Reopen => AppStep::OpenBrowser,
            AppEvent::Init => AppStep::CreateTrayThenMenu,
            AppEvent::Other => AppStep::Menu,
        }),
{
    match event {
        AppEvent::Reopen => AppStep::OpenBrowser,
        AppEvent::Init => AppStep::CreateTrayThenMenu,
        AppEvent::Other => AppStep::Menu,
    }
}

/// The menu item that was chosen.
#[derive(Clone, Copy, PartialEq, Eq, Structural)]
pub enum MenuChoice {
    Open,
    RunAtStartup,
    Quit,
    /// An item the loop does not know.
    Unknown,
}

#[derive(Clone, Copy, PartialEq, Eq, Structural)]
pub enum MenuStep {
    OpenBrowser,
    /// Turn launching at login on if it is off, off if it is on, then tick
    /// the item as it now is.
    ToggleRunAtStartup,
    /// Drop the tray icon and leave the loop.
    Quit,
    /// Look at the tray icon.
    Tray,
}

/// `choice` is `None` when the menu had no event.
pub fn on_menu_event(choice: Option<MenuChoice>) -> (step: MenuStep)
    ensures
        step == (match choice {
            Some(MenuChoice::Open) => MenuStep::OpenBrowser,
            Some(MenuChoice::RunAtStartup) => MenuStep::ToggleRunAtStartup,
            Some(MenuChoice::Quit) => MenuStep::Quit,
            _ => MenuStep::Tray,
        }),
{
    match choice {
        Some(MenuChoice::Open) => MenuStep::OpenBrowser,
        Some(MenuChoice::RunAtStartup) => MenuStep::ToggleRunAtStartup,
        Some(MenuChoice::Quit) => MenuStep::Quit,
        _ => MenuStep::Tray,
    }
}

/// What the tray icon reported: a click, with which button and whether it
/// went down.
#[derive(Clone, Copy, PartialEq, Eq, Structural)]
pub enum TrayClick {
    LeftDown,
    Other,
}

/// Whether to open the web app: only a left button pressed on the icon does.
pub fn on_tray_event(click: Option<TrayClick>) -> (open_browser: bool)
    ensures
        open_browser == (click == Some(TrayClick::LeftDown)),
{
    match click {
        Some(TrayClick::LeftDown) => true,
        _ => false,
    }
}

/// Whether launching at login is to be turned on, given whether it is on.
pub fn toggled_run_at_startup(enabled: bool) -> (enable: bool)
    ensures
        enable == !enabled,
{
    !enabled
}

} // verus!
