use tango_bridge::adb_flow::{connect_start, connect_step, BundledAdb, ConnectAction, ConnectState, Outcome};
use tango_bridge::bridge::{on_adb_read, on_ws_event, AdbAction, WsAction, WsEvent, ADB_READ_BUFFER};
use tango_bridge::proxy::{proxy_target, ProxyError};
use tango_bridge::ui::{
    on_app_event, on_menu_event, on_tray_event, toggled_run_at_startup, AppEvent, AppStep,
    MenuChoice, MenuStep, TrayClick,
};

fn run(outcomes: &[Outcome], bundled: BundledAdb) -> Vec<ConnectAction> {
    let (mut state, action) = connect_start();
    let mut actions = vec![action];
    for o in outcomes {
        let (s, a) = connect_step(state, *o, bundled);
        state = s;
        actions.push(a);
    }
    actions
}

#[test]
fn running_server_is_used() {
    let actions = run(&[Outcome::Succeeded], BundledAdb::WriteIfMissing);
    assert!(actions == vec![ConnectAction::Connect, ConnectAction::ReturnStream]);
}

#[test]
fn system_adb_is_started_then_connected() {
    let actions = run(
        &[Outcome::Failed, Outcome::Succeeded, Outcome::Failed, Outcome::Succeeded, Outcome::Succeeded],
        BundledAdb::WriteIfMissing,
    );
    assert!(
        actions
            == vec![
                ConnectAction::Connect,
                ConnectAction::StartSystemAdb,
                ConnectAction::Connect,
                ConnectAction::Wait,
                ConnectAction::Connect,
                ConnectAction::ReturnStream,
            ]
    );
}

#[test]
fn retries_eleven_times_then_gives_up() {
    let mut outcomes = vec![Outcome::Failed, Outcome::Succeeded];
    for i in 0..11 {
        outcomes.push(Outcome::Failed);
        if i < 10 {
            outcomes.push(Outcome::Succeeded);
        }
    }
    let actions = run(&outcomes, BundledAdb::WriteIfMissing);
    let connects = actions.iter().filter(|a| **a == ConnectAction::Connect).count();
    assert_eq!(connects, 12);
    assert!(*actions.last().unwrap() == ConnectAction::ReturnError);
}

#[test]
fn bundled_adb_is_installed_when_missing() {
    let actions = run(
        &[Outcome::Failed, Outcome::Failed, Outcome::Absent, Outcome::Succeeded, Outcome::Succeeded, Outcome::Succeeded],
        BundledAdb::WriteIfMissing,
    );
    assert!(
        actions
            == vec![
                ConnectAction::Connect,
                ConnectAction::StartSystemAdb,
                ConnectAction::CheckBundled,
                ConnectAction::InstallBundled,
                ConnectAction::StartBundled,
                ConnectAction::Connect,
                ConnectAction::ReturnStream,
            ]
    );
}

#[test]
fn bundled_adb_in_place_is_started() {
    let actions = run(&[Outcome::Failed, Outcome::Failed, Outcome::Succeeded], BundledAdb::WriteIfMissing);
    assert!(*actions.last().unwrap() == ConnectAction::StartBundled);
    let actions = run(&[Outcome::Failed, Outcome::Failed], BundledAdb::BesideExecutable);
    assert!(*actions.last().unwrap() == ConnectAction::StartBundled);
    let actions = run(&[Outcome::Failed, Outcome::Failed], BundledAdb::WriteAlways);
    assert!(*actions.last().unwrap() == ConnectAction::InstallBundled);
    let actions = run(&[Outcome::Failed, Outcome::Failed], BundledAdb::NotBundled);
    assert!(*actions.last().unwrap() == ConnectAction::Connect);
}

#[test]
fn failing_bundled_step_returns_its_error() {
    let actions = run(&[Outcome::Failed, Outcome::Failed, Outcome::Absent, Outcome::Failed], BundledAdb::WriteIfMissing);
    assert!(*actions.last().unwrap() == ConnectAction::ReturnError);
    let (s, a) = connect_step(ConnectState::StartingBundled, Outcome::Failed, BundledAdb::WriteIfMissing);
    assert!(s == ConnectState::Failed && a == ConnectAction::ReturnError);
}

#[test]
fn websocket_messages_reach_adb_only_when_binary() {
    assert!(on_ws_event(WsEvent::Binary) == WsAction::ForwardToAdb);
    assert!(on_ws_event(WsEvent::OtherMessage) == WsAction::Skip);
    assert!(on_ws_event(WsEvent::Ended) == WsAction::ShutDownAdb);
}

#[test]
fn adb_reads_are_sent_until_the_end() {
    assert!(on_adb_read(Some(12)) == AdbAction::Send { len: 12 });
    assert!(on_adb_read(Some(ADB_READ_BUFFER)) == AdbAction::Send { len: ADB_READ_BUFFER });
    assert!(on_adb_read(Some(0)) == AdbAction::CloseWs);
    assert!(on_adb_read(None) == AdbAction::CloseWs);
}

#[test]
fn tray_events() {
    assert!(on_app_event(AppEvent::Reopen) == AppStep::OpenBrowser);
    assert!(on_app_event(AppEvent::Init) == AppStep::CreateTrayThenMenu);
    assert!(on_app_event(AppEvent::Other) == AppStep::Menu);
    assert!(on_menu_event(Some(MenuChoice::Open)) == MenuStep::OpenBrowser);
    assert!(on_menu_event(Some(MenuChoice::RunAtStartup)) == MenuStep::ToggleRunAtStartup);
    assert!(on_menu_event(Some(MenuChoice::Quit)) == MenuStep::Quit);
    assert!(on_menu_event(Some(MenuChoice::Unknown)) == MenuStep::Tray);
    assert!(on_menu_event(None) == MenuStep::Tray);
    assert!(on_tray_event(Some(TrayClick::LeftDown)));
    assert!(!on_tray_event(Some(TrayClick::Other)));
    assert!(!on_tray_event(None));
    assert!(toggled_run_at_startup(false));
    assert!(!toggled_run_at_startup(true));
}

#[test]
fn proxy_target_resolves_against_the_web_app() {
    let t = proxy_target("/index.html?x=1").ok().unwrap();
    assert_eq!(t.url, "https://app.tangoapp.dev/index.html?x=1");
    assert_eq!(t.host, "app.tangoapp.dev");
    let t = proxy_target("/").ok().unwrap();
    assert_eq!(t.url, "https://app.tangoapp.dev/");
}

#[test]
fn proxy_target_of_absolute_uri() {
    let t = proxy_target("http://example.com/a").ok().unwrap();
    assert_eq!(t.url, "http://example.com/a");
    assert_eq!(t.host, "example.com");
    assert!(proxy_target("data:text/plain,hi").err() == Some(ProxyError::NoHost));
}

#[test]
fn proxy_target_of_bad_uri() {
    assert!(proxy_target("http://[::1").err() == Some(ProxyError::BadRequest));
}
