use paf_desktop::effect::Effect;
use paf_desktop::menu::{build_menu, handle_menu, menu_command, MenuCommand, MenuEntry};
use paf_desktop::tabs::TabManager;

const AGENT: &str = "Mozilla/5.0 (Macintosh; Intel Mac OS X 10_15_7) AppleWebKit/605.1.15 (KHTML, like Gecko) PlanetAFoodsDesktop/0.2.1";

fn items() -> Vec<(String, String, String)> {
    let mut out = Vec::new();
    for submenu in build_menu() {
        for entry in submenu.entries {
            if let MenuEntry::Item { id, title, enabled, accelerator } = entry {
                assert!(enabled, "{id}");
                out.push((id, title, accelerator));
            }
        }
    }
    out
}

fn with_tabs(n: u32) -> TabManager {
    let mut tabs = TabManager::default();
    for id in 0..n {
        tabs.new_tab(true);
        tabs.webview_added(id, true);
    }
    tabs
}

#[test]
fn the_menu_bar_is_complete() {
    let menu = build_menu();
    let titles: Vec<&str> = menu.iter().map(|s| s.title.as_str()).collect();
    assert_eq!(titles, ["Planet A Foods", "Edit", "Tabs"]);
    assert!(menu.iter().all(|s| s.enabled));
    assert_eq!(
        menu[0].entries[0],
        MenuEntry::Item {
            id: "auth_login".to_string(),
            title: "Sign in via browser".to_string(),
            enabled: true,
            accelerator: "CmdOrCtrl+L".to_string(),
        }
    );
    assert_eq!(
        menu[1].entries,
        vec![
            MenuEntry::UndoEdit,
            MenuEntry::RedoEdit,
            MenuEntry::Separator,
            MenuEntry::CutText,
            MenuEntry::CopyText,
            MenuEntry::PasteText,
        ]
    );
    assert_eq!(menu[0].entries.len(), 5);
    assert_eq!(menu[0].entries[1], MenuEntry::Separator);
    assert_eq!(menu[0].entries[2], MenuEntry::HideApp);
    assert_eq!(menu[0].entries[4], MenuEntry::QuitApp);
    assert_eq!(menu[2].entries.len(), 17);
    assert_eq!(menu[2].entries[2], MenuEntry::Separator);
    assert_eq!(menu[2].entries[7], MenuEntry::Separator);
}

#[test]
fn the_items_and_their_accelerators() {
    let mut expected: Vec<(String, String, String)> = [
        ("auth_login", "Sign in via browser", "CmdOrCtrl+L"),
        ("tab_new", "New Tab", "CmdOrCtrl+T"),
        ("tab_close", "Close Tab", "CmdOrCtrl+W"),
        ("tab_next", "Next Tab", "Ctrl+Tab"),
        ("tab_prev", "Previous Tab", "Ctrl+Shift+Tab"),
        ("tab_next_alt", "Next Tab (⌘⌥→)", "CmdOrCtrl+Alt+Right"),
        ("tab_prev_alt", "Previous Tab (⌘⌥←)", "CmdOrCtrl+Alt+Left"),
    ]
    .iter()
    .map(|(a, b, c)| (a.to_string(), b.to_string(), c.to_string()))
    .collect();
    for n in 1..=9 {
        expected.push((format!("tab_goto_{n}"), format!("Tab {n}"), format!("CmdOrCtrl+{n}")));
    }
    assert_eq!(items(), expected);
}

#[test]
fn every_item_asks_for_something_and_accelerators_differ() {
    let items = items();
    for (i, (id, _, accelerator)) in items.iter().enumerate() {
        assert_ne!(menu_command(id), MenuCommand::Nothing);
        assert_ne!(accelerator, "CmdOrCtrl+A");
        for (other, _, shared) in &items[i + 1..] {
            assert_ne!(id, other);
            assert_ne!(accelerator, shared);
        }
    }
}

#[test]
fn items_are_told_apart_by_id() {
    assert_eq!(menu_command("auth_login"), MenuCommand::SignIn);
    assert_eq!(menu_command("tab_new"), MenuCommand::NewTab);
    assert_eq!(menu_command("tab_close"), MenuCommand::CloseTab);
    assert_eq!(menu_command("tab_next"), MenuCommand::Cycle { delta: 1 });
    assert_eq!(menu_command("tab_next_alt"), MenuCommand::Cycle { delta: 1 });
    assert_eq!(menu_command("tab_prev"), MenuCommand::Cycle { delta: -1 });
    assert_eq!(menu_command("tab_prev_alt"), MenuCommand::Cycle { delta: -1 });
    assert_eq!(menu_command("tab_goto_7"), MenuCommand::Goto { n: 7 });
    assert_eq!(menu_command("tab_goto_+07"), MenuCommand::Goto { n: 7 });
    for id in ["", "tab", "tab_goto_", "tab_goto_x", "tab_goto_-1", "TAB_NEW", "tab_new "] {
        assert_eq!(menu_command(id), MenuCommand::Nothing, "{id}");
    }
}

#[test]
fn items_drive_the_tabs() {
    let mut tabs = with_tabs(3);
    handle_menu(&mut tabs, "tab_next", true, None, 0);
    assert_eq!(tabs.active(), Some(0));
    handle_menu(&mut tabs, "tab_prev_alt", true, None, 0);
    assert_eq!(tabs.active(), Some(2));
    handle_menu(&mut tabs, "tab_goto_2", true, None, 0);
    assert_eq!(tabs.active(), Some(1));
    handle_menu(&mut tabs, "tab_close", true, None, 0);
    assert_eq!(tabs.active(), Some(2));
    assert_eq!(tabs.snapshot().tabs.len(), 2);
    let effects = handle_menu(&mut tabs, "tab_new", true, None, 0);
    assert_eq!(
        effects,
        vec![Effect::AddWebview {
            id: 3,
            label: "content-3".to_string(),
            url: "https://hub.planet-a-foods.com/".to_string(),
            user_agent: AGENT.to_string(),
        }]
    );
    assert_eq!(handle_menu(&mut tabs, "quit", true, None, 0), vec![]);
    assert_eq!(tabs.snapshot().tabs.len(), 3);
}

#[test]
fn number_items_select_by_place() {
    let mut tabs = with_tabs(10);
    for n in 1..=8 {
        handle_menu(&mut tabs, &format!("tab_goto_{n}"), true, None, 0);
        assert_eq!(tabs.active(), Some(n - 1));
    }
    handle_menu(&mut tabs, "tab_goto_9", true, None, 0);
    assert_eq!(tabs.active(), Some(9));

    let mut few = with_tabs(2);
    assert_eq!(handle_menu(&mut few, "tab_goto_3", true, None, 0), vec![]);
    assert_eq!(few.active(), Some(1));
}

#[test]
fn the_sign_in_item_leaves_the_tabs_alone() {
    let mut tabs = with_tabs(1);
    let current = Some("analytics.planet-a-foods.com".to_string());
    let effects = handle_menu(&mut tabs, "auth_login", true, current, 0);
    assert_eq!(
        effects,
        vec![Effect::OpenUrl {
            url: "https://analytics.planet-a-foods.com/desktop-login".to_string(),
        }]
    );
    assert_eq!(tabs.snapshot().tabs.len(), 1);
}

#[test]
fn the_menu_does_what_the_strip_does() {
    let mut by_menu = with_tabs(3);
    let mut by_strip = with_tabs(3);
    assert_eq!(handle_menu(&mut by_menu, "tab_new", true, None, 0), by_strip.new_tab(true));
    assert_eq!(handle_menu(&mut by_menu, "tab_close", true, None, 0), by_strip.close_tab(2, true));
    assert_eq!(by_menu.snapshot(), by_strip.snapshot());
    for (first, second) in [("tab_next", "tab_next_alt"), ("tab_prev", "tab_prev_alt")] {
        let effects = handle_menu(&mut by_menu, first, true, None, 0);
        assert_eq!(handle_menu(&mut by_strip, second, true, None, 0), effects);
        assert_eq!(by_menu.snapshot(), by_strip.snapshot());
    }
}
