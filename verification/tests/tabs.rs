use paf_desktop::effect::Effect;
use paf_desktop::tabs::{content_label, Tab, TabManager, TabsState, START_URL};

const AGENT: &str = "Mozilla/5.0 (Macintosh; Intel Mac OS X 10_15_7) AppleWebKit/605.1.15 (KHTML, like Gecko) PlanetAFoodsDesktop/0.2.1";

fn with_tabs(n: u32) -> TabManager {
    let mut tabs = TabManager::default();
    for id in 0..n {
        assert_eq!(tabs.new_tab(true), vec![added(id)]);
        tabs.webview_added(id, true);
    }
    tabs
}

fn added(id: u32) -> Effect {
    Effect::AddWebview { id, label: format!("content-{id}"), url: START_URL.to_string(), user_agent: AGENT.to_string() }
}

fn shown(id: u32) -> Effect {
    Effect::Show { label: format!("content-{id}") }
}

fn hidden(id: u32) -> Effect {
    Effect::Hide { label: format!("content-{id}") }
}

fn placed(id: u32) -> Effect {
    Effect::PlaceContent { label: format!("content-{id}") }
}

fn closed(id: u32) -> Effect {
    Effect::Close { label: format!("content-{id}") }
}

fn emit(ids: &[u32], active: Option<u32>) -> Effect {
    Effect::Emit { state: strip(ids, active) }
}

fn strip(ids: &[u32], active: Option<u32>) -> TabsState {
    let tabs = ids.iter().map(|&id| Tab { id, title: "New Tab".to_string() }).collect();
    TabsState { tabs, active }
}

#[test]
fn a_new_manager_has_no_tabs() {
    let mut tabs = TabManager::default();
    assert_eq!(tabs.snapshot(), strip(&[], None));
    assert_eq!(tabs.active(), None);
    assert!(tabs.can_open());
    assert_eq!(tabs.index_of(0), None);
    assert_eq!(tabs.relayout(), vec![Effect::PlaceStrip]);
    assert_eq!(tabs.cycle_tab(1), vec![]);
    assert_eq!(tabs.goto_tab(1), vec![]);
    assert_eq!(tabs.goto_tab(9), vec![]);
    assert_eq!(tabs.close_active_tab(true), vec![]);
    assert_eq!(tabs.switch_tab(0), vec![]);
}

#[test]
fn labels_name_their_tab() {
    assert_eq!(content_label(0), "content-0");
    assert_eq!(content_label(42), "content-42");
    assert_eq!(content_label(u32::MAX), "content-4294967295");
}

#[test]
fn a_new_tab_is_appended_but_not_selected() {
    let mut tabs = with_tabs(2);
    assert_eq!(tabs.new_tab(true), vec![added(2)]);
    assert_eq!(tabs.snapshot(), strip(&[0, 1, 2], Some(1)));
    assert_eq!(
        tabs.create_tab("https://coa.planet-a-foods.com/x", true),
        vec![Effect::AddWebview {
            id: 3,
            label: "content-3".to_string(),
            url: "https://coa.planet-a-foods.com/x".to_string(),
            user_agent: AGENT.to_string(),
        }]
    );
    assert_eq!(tabs.index_of(3), Some(3));
}

#[test]
fn a_new_tab_is_selected_once_its_webview_is_there() {
    let mut tabs = with_tabs(1);
    tabs.new_tab(true);
    assert_eq!(tabs.webview_added(1, false), vec![]);
    assert_eq!(tabs.snapshot(), strip(&[0, 1], Some(0)));
    assert_eq!(
        tabs.webview_added(1, true),
        vec![hidden(0), shown(1), Effect::PlaceStrip, placed(1), emit(&[0, 1], Some(1))]
    );
    assert_eq!(tabs.active(), Some(1));
    assert_eq!(tabs.webview_added(9, true), vec![]);
    assert_eq!(tabs.snapshot(), strip(&[0, 1], Some(1)));
}

#[test]
fn cycling_twice_is_cycling_by_the_sum() {
    for (a, b) in [(1, 1), (2, -5), (-3, 7), (0, 4), (-1, -1)] {
        let mut twice = with_tabs(4);
        let mut once = with_tabs(4);
        twice.cycle_tab(a);
        assert_eq!(twice.cycle_tab(b), once.cycle_tab(a + b));
        assert_eq!(twice.snapshot(), once.snapshot());
    }
}

#[test]
fn an_open_tab_is_active_whatever_happens() {
    let active_is_open = |tabs: &TabManager| {
        let active = tabs.active().unwrap();
        assert!(tabs.index_of(active).is_some());
    };
    let mut tabs = with_tabs(3);
    tabs.update_title("content-2", "T".to_string());
    active_is_open(&tabs);
    tabs.switch_tab(7);
    active_is_open(&tabs);
    tabs.cycle_tab(-4);
    active_is_open(&tabs);
    tabs.goto_tab(6);
    active_is_open(&tabs);
    tabs.new_tab(true);
    active_is_open(&tabs);
    tabs.webview_added(3, false);
    active_is_open(&tabs);
    for id in [3, 0, 1] {
        tabs.close_tab(id, true);
        active_is_open(&tabs);
    }
    assert_eq!(tabs.close_tab(2, true), vec![closed(2), added(4)]);
    tabs.webview_added(4, true);
    active_is_open(&tabs);
}

#[test]
fn without_a_window_no_tab_is_opened() {
    let mut tabs = with_tabs(1);
    assert_eq!(tabs.new_tab(false), vec![]);
    assert_eq!(tabs.snapshot(), strip(&[0], Some(0)));
}

#[test]
fn selecting_shows_one_tab_and_hides_the_others() {
    let mut tabs = with_tabs(3);
    assert_eq!(
        tabs.switch_tab(1),
        vec![
            hidden(0),
            shown(1),
            hidden(2),
            Effect::PlaceStrip,
            placed(1),
            emit(&[0, 1, 2], Some(1)),
        ]
    );
    assert_eq!(tabs.active(), Some(1));
    assert_eq!(tabs.relayout(), vec![Effect::PlaceStrip, placed(1)]);
}

#[test]
fn selecting_an_unknown_tab_does_nothing() {
    let mut tabs = with_tabs(2);
    assert_eq!(tabs.switch_tab(7), vec![]);
    assert_eq!(tabs.snapshot(), strip(&[0, 1], Some(1)));
}

#[test]
fn closing_the_active_tab_selects_the_one_that_moved_up() {
    let mut tabs = with_tabs(3);
    tabs.switch_tab(1);
    assert_eq!(
        tabs.close_tab(1, true),
        vec![closed(1), hidden(0), shown(2), Effect::PlaceStrip, placed(2), emit(&[0, 2], Some(2))]
    );
}

#[test]
fn closing_the_active_last_tab_selects_the_new_last() {
    let mut tabs = with_tabs(3);
    assert_eq!(
        tabs.close_active_tab(true),
        vec![closed(2), hidden(0), shown(1), Effect::PlaceStrip, placed(1), emit(&[0, 1], Some(1))]
    );
}

#[test]
fn closing_a_background_tab_keeps_the_active_one() {
    let mut tabs = with_tabs(3);
    assert_eq!(tabs.close_tab(0, true), vec![closed(0), emit(&[1, 2], Some(2))]);
    assert_eq!(tabs.index_of(0), None);
    assert_eq!(tabs.index_of(2), Some(1));
    assert_eq!(tabs.close_tab(0, true), vec![]);
}

#[test]
fn closing_the_only_tab_opens_a_fresh_one() {
    let mut tabs = with_tabs(1);
    assert_eq!(tabs.close_tab(0, true), vec![closed(0), added(1)]);
    // Until its webview is there the fresh tab is not active.
    assert_eq!(tabs.snapshot(), strip(&[1], Some(0)));
    assert_eq!(tabs.cycle_tab(1)[0], shown(1));
    assert_eq!(tabs.active(), Some(1));
}

#[test]
fn closing_the_only_tab_without_a_window_leaves_none() {
    let mut tabs = with_tabs(1);
    assert_eq!(tabs.close_tab(0, false), vec![closed(0)]);
    assert_eq!(tabs.snapshot(), strip(&[], Some(0)));
}

#[test]
fn ids_are_not_given_out_again() {
    let mut tabs = with_tabs(3);
    tabs.close_tab(2, true);
    assert_eq!(tabs.new_tab(true), vec![added(3)]);
    assert_eq!(tabs.snapshot(), strip(&[0, 1, 3], Some(1)));
}

#[test]
fn cycling_goes_round() {
    let mut tabs = with_tabs(3);
    tabs.cycle_tab(1);
    assert_eq!(tabs.active(), Some(0));
    tabs.cycle_tab(-1);
    assert_eq!(tabs.active(), Some(2));
    tabs.cycle_tab(-1);
    assert_eq!(tabs.active(), Some(1));
    tabs.cycle_tab(5);
    assert_eq!(tabs.active(), Some(0));
    tabs.cycle_tab(-7);
    assert_eq!(tabs.active(), Some(2));
    tabs.cycle_tab(7);
    assert_eq!(tabs.active(), Some(0));
    tabs.cycle_tab(3);
    assert_eq!(tabs.active(), Some(0));
    tabs.cycle_tab(i32::MIN);
    tabs.cycle_tab(i32::MAX);
    assert_eq!(tabs.active(), Some(2));
}

#[test]
fn a_number_selects_its_tab_and_nine_the_last() {
    let mut tabs = with_tabs(3);
    tabs.goto_tab(1);
    assert_eq!(tabs.active(), Some(0));
    tabs.goto_tab(9);
    assert_eq!(tabs.active(), Some(2));
    tabs.goto_tab(2);
    assert_eq!(tabs.active(), Some(1));
    assert_eq!(tabs.goto_tab(0), vec![]);
    assert_eq!(tabs.goto_tab(4), vec![]);
    assert_eq!(tabs.goto_tab(8), vec![]);
    assert_eq!(tabs.active(), Some(1));
    tabs.goto_tab(100);
    assert_eq!(tabs.active(), Some(2));

    let mut many = with_tabs(12);
    many.goto_tab(8);
    assert_eq!(many.active(), Some(7));
    many.goto_tab(9);
    assert_eq!(many.active(), Some(11));
}

#[test]
fn titles_reach_their_tab() {
    let mut tabs = with_tabs(2);
    let titled = || TabsState {
        tabs: vec![
            Tab { id: 0, title: "Notes — Über".to_string() },
            Tab { id: 1, title: "New Tab".to_string() },
        ],
        active: Some(1),
    };
    let effects = tabs.update_title("content-0", "Notes — Über".to_string());
    assert_eq!(effects, vec![Effect::Emit { state: titled() }]);
    assert_eq!(tabs.snapshot(), titled());

    tabs.update_title("content-+1", " \u{3000}".to_string());
    assert_eq!(tabs.snapshot().tabs[1].title, "Untitled");
    tabs.update_title("content-001", " x ".to_string());
    assert_eq!(tabs.snapshot().tabs[1].title, " x ");
}

#[test]
fn titles_of_unknown_webviews_are_ignored() {
    let mut tabs = with_tabs(1);
    for label in ["chrome", "content-", "content-x", "content--1", "content-4294967296", "Content-0"] {
        assert_eq!(tabs.update_title(label, "T".to_string()), vec![], "{label}");
    }
    // The strip is told even when the tab is gone.
    assert_eq!(tabs.update_title("content-5", "T".to_string()), vec![emit(&[0], Some(0))]);
    assert_eq!(tabs.snapshot(), strip(&[0], Some(0)));
}

fn perform(shown: &mut Vec<String>, effects: Vec<Effect>) {
    for effect in effects {
        match effect {
            Effect::Show { label } | Effect::AddWebview { label, .. } => {
                if !shown.contains(&label) {
                    shown.push(label);
                }
            }
            Effect::Hide { label } | Effect::Close { label } => shown.retain(|l| *l != label),
            _ => {}
        }
    }
}

#[test]
fn only_the_active_tab_shows() {
    let mut tabs = TabManager::default();
    let mut shown: Vec<String> = Vec::new();
    for id in 0..4 {
        perform(&mut shown, tabs.new_tab(true));
        perform(&mut shown, tabs.webview_added(id, true));
        assert_eq!(shown, [content_label(id)]);
    }
    for (effects, active) in [
        (tabs.cycle_tab(1), 0),
        (tabs.goto_tab(2), 1),
        (tabs.close_tab(3, true), 1),
        (tabs.close_tab(1, true), 2),
        (tabs.close_active_tab(true), 0),
    ] {
        perform(&mut shown, effects);
        assert_eq!(shown, [content_label(active)]);
    }
    perform(&mut shown, tabs.close_active_tab(true));
    assert_eq!(shown, ["content-4"]);
    perform(&mut shown, tabs.webview_added(4, true));
    assert_eq!(shown, ["content-4"]);
}
