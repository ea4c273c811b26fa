//! What each operation on the tabs does, seen from outside: which tab is where afterwards, which
//! is active, and what the shell is asked to do, in order.

use vstd::prelude::*;

use crate::effect::EffectModel;
use crate::tabs::{self, HubModel, StripModel, TabModel};
use crate::text;

verus! {

/// A hub is in order exactly if its ids grow along the list and all ids, the active one included,
/// were given out before the next one.
pub proof fn law_order_of_ids(hub: HubModel)
    ensures
        hub.wf() <==> (forall|i: int, j: int|
            0 <= i < j < hub.tabs.len() ==> (#[trigger] hub.tabs[i]).id < (
            #[trigger] hub.tabs[j]).id) && (forall|i: int|
            0 <= i < hub.tabs.len() ==> (#[trigger] hub.tabs[i]).id < hub.next_id) && (
        hub.active is Some ==> hub.active->0 < hub.next_id),
{
}

/// Tabs can be opened until the ids run out.
pub proof fn law_room_for_tabs(hub: HubModel, id: u32)
    ensures
        hub.can_open() <==> hub.next_id < 0xffff_ffff,
        hub.is_only_tab(id) <==> hub.tabs.len() == 1 && hub.tabs[0].id == id,
{
}

/// A tab is found where it stands, and not found where no tab has its id.
pub proof fn law_tab_is_found(hub: HubModel, i: int, id: u32)
    requires
        hub.wf(),
    ensures
        hub.at(i, id) <==> 0 <= i < hub.tabs.len() && hub.tabs[i].id == id,
        0 <= i < hub.tabs.len() && hub.tabs[i].id == id ==> hub.has(id) && hub.position(id) == Some(
            i,
        ),
        (forall|k: int| 0 <= k < hub.tabs.len() ==> (#[trigger] hub.tabs[k]).id != id)
            ==> !hub.has(id) && hub.position(id) is None,
{
    if 0 <= i < hub.tabs.len() && hub.tabs[i].id == id {
        assert(hub.at(i, id));
        tabs::lemma_position(hub, i, id);
    }
}

/// The strip is shown every tab, in order, with its title, and which is active.
pub proof fn law_strip_shows_everything(hub: HubModel)
    ensures
        hub.snapshot().tabs == hub.tabs,
        hub.snapshot().active == hub.active,
{
}

/// The webview of a tab is labelled with the tab's number.
pub proof fn law_label(id: u32)
    ensures
        tabs::label_of(id) == "content-"@ + text::decimal(id as nat),
{
}

/// A label names a tab exactly if it is `content-` and a numeral of 32 bits.
pub proof fn law_label_names_its_tab(label: Seq<char>, rest: Seq<char>)
    ensures
        !"content-"@.is_prefix_of(label) ==> tabs::id_of(label) is None,
        text::parse_number(rest, 0xffff_ffff) matches Some(n) ==> tabs::id_of("content-"@ + rest)
            == Some(n as u32),
        text::parse_number(rest, 0xffff_ffff) is None ==> tabs::id_of("content-"@ + rest) is None,
{
    text::law_prefix_round_trip("content-"@, rest);
}

/// The window is laid out from the strip down: the strip, and below it the active tab.
pub proof fn law_layout(hub: HubModel)
    ensures
        hub.layout().len() == if hub.active is Some {
            2nat
        } else {
            1nat
        },
        hub.layout()[0] == EffectModel::PlaceStrip,
        hub.active matches Some(id) ==> hub.layout()[1] == (EffectModel::PlaceContent {
            label: "content-"@ + text::decimal(id as nat),
        }),
{
}

/// Selecting a tab that is open changes the active tab and nothing else. Every tab is shown or
/// hidden in its turn, then the strip and the tab are placed, and at last the strip is told.
pub proof fn law_selecting(hub: HubModel, id: u32, i: int, k: int)
    requires
        0 <= i < hub.tabs.len(),
        hub.tabs[i].id == id,
        0 <= k < hub.tabs.len(),
    ensures
        ({
            let (next, effects) = hub.selecting(id);
            let n = hub.tabs.len() as int;
            &&& next.tabs == hub.tabs
            &&& next.active == Some(id)
            &&& next.next_id == hub.next_id
            &&& effects.len() == n + 3
            &&& effects[k] == if hub.tabs[k].id == id {
                EffectModel::Show { label: "content-"@ + text::decimal(hub.tabs[k].id as nat) }
            } else {
                EffectModel::Hide { label: "content-"@ + text::decimal(hub.tabs[k].id as nat) }
            }
            &&& effects[n] == EffectModel::PlaceStrip
            &&& effects[n + 1] == (EffectModel::PlaceContent {
                label: "content-"@ + text::decimal(id as nat),
            })
            &&& effects[n + 2] == (EffectModel::Emit {
                state: StripModel { tabs: hub.tabs, active: Some(id) },
            })
        }),
{
    assert(hub.at(i, id));
}

/// Selecting a tab that is not open does nothing.
pub proof fn law_selecting_no_tab(hub: HubModel, id: u32)
    requires
        forall|k: int| 0 <= k < hub.tabs.len() ==> (#[trigger] hub.tabs[k]).id != id,
    ensures
        hub.selecting(id).0 == hub,
        hub.selecting(id).1.len() == 0,
        hub.selecting_any(None).0 == hub,
        hub.selecting_any(None).1.len() == 0,
{
}

/// Selecting what there is to select is selecting it.
pub proof fn law_selecting_some_tab(hub: HubModel, id: u32)
    ensures
        hub.selecting_any(Some(id)) == hub.selecting(id),
{
}

/// Opening a tab leaves the others as they are, each in its place.
pub proof fn law_opening_keeps_the_others(hub: HubModel, url: Seq<char>, k: int)
    requires
        hub.can_open(),
        0 <= k < hub.tabs.len(),
    ensures
        hub.opening(url, true).0.tabs[k] == hub.tabs[k],
{
}

/// Opening a tab puts it behind the others, untitled so far, under the next id. Its webview is
/// asked for, with the page and the user agent, and the active tab stays.
pub proof fn law_opened(hub: HubModel, url: Seq<char>)
    requires
        hub.can_open(),
    ensures
        ({
            let (next, effects) = hub.opening(url, true);
            &&& next.tabs.len() == hub.tabs.len() + 1
            &&& next.tabs.last() == TabModel { id: hub.next_id, title: "New Tab"@ }
            &&& next.active == hub.active
            &&& next.next_id == hub.next_id + 1
            &&& effects.len() == 1
            &&& effects[0] == (EffectModel::AddWebview {
                id: hub.next_id,
                label: "content-"@ + text::decimal(hub.next_id as nat),
                url,
                user_agent:
                    "Mozilla/5.0 (Macintosh; Intel Mac OS X 10_15_7) AppleWebKit/605.1.15 (KHTML, like Gecko) PlanetAFoodsDesktop/"@
                    + "0.2.1"@,
            })
        }),
{
}

/// Without a window no tab is opened, and closing the only one leaves none.
pub proof fn law_without_a_window(hub: HubModel, url: Seq<char>)
    requires
        hub.wf(),
    ensures
        hub.opening(url, false).0 == hub,
        hub.opening(url, false).1.len() == 0,
        hub.tabs.len() == 1 ==> ({
            let (last, gone) = hub.closing(hub.tabs[0].id, false);
            &&& last.tabs.len() == 0
            &&& last.active == hub.active
            &&& last.next_id == hub.next_id
            &&& gone.len() == 1
            &&& gone[0] == (EffectModel::Close {
                label: "content-"@ + text::decimal(hub.tabs[0].id as nat),
            })
        }),
{
    if hub.tabs.len() == 1 {
        assert(hub.at(0, hub.tabs[0].id));
        tabs::lemma_position(hub, 0, hub.tabs[0].id);
    }
}

/// A tab whose webview was added is selected; one whose webview could not be added is not, and
/// nothing happens.
pub proof fn law_webview_added(hub: HubModel, id: u32)
    ensures
        hub.receiving(id, true) == hub.selecting(id),
        hub.receiving(id, false).0 == hub,
        hub.receiving(id, false).1.len() == 0,
{
}

/// Closing what is not open does nothing.
pub proof fn law_closing_no_tab(hub: HubModel, id: u32, window_open: bool)
    requires
        forall|k: int| 0 <= k < hub.tabs.len() ==> (#[trigger] hub.tabs[k]).id != id,
    ensures
        hub.closing(id, window_open).0 == hub,
        hub.closing(id, window_open).1.len() == 0,
{
}

/// Closing a tab while others remain takes it out of the list and destroys its webview first. The
/// strip is told last, and of exactly what is then the case, wherever the tab stood.
pub proof fn law_closing_tells_the_strip(hub: HubModel, i: int, k: int, window_open: bool)
    requires
        hub.wf(),
        hub.tabs.len() > 1,
        0 <= i < hub.tabs.len(),
        0 <= k < hub.tabs.len() - 1,
    ensures
        ({
            let id = hub.tabs[i].id;
            let (next, effects) = hub.closing(id, window_open);
            &&& next.tabs.len() == hub.tabs.len() - 1
            &&& next.tabs[k] == if k < i {
                hub.tabs[k]
            } else {
                hub.tabs[k + 1]
            }
            &&& next.next_id == hub.next_id
            &&& effects.len() >= 2
            &&& effects[0] == (EffectModel::Close {
                label: "content-"@ + text::decimal(id as nat),
            })
            &&& effects.last() == (EffectModel::Emit {
                state: StripModel { tabs: next.tabs, active: next.active },
            })
        }),
{
    let id = hub.tabs[i].id;
    assert(hub.at(i, id));
    tabs::lemma_position(hub, i, id);
    let rest = hub.without(i);
    if hub.active == Some(id) {
        let at = if i < rest.tabs.len() { i } else { rest.tabs.len() - 1 };
        assert(rest.at(at, hub.neighbour(i)));
    }
}

/// Closing a tab in the background leaves the active tab alone: nothing is shown, hidden or
/// placed.
pub proof fn law_closing_in_the_background(hub: HubModel, i: int, window_open: bool)
    requires
        hub.wf(),
        hub.tabs.len() > 1,
        0 <= i < hub.tabs.len(),
        hub.active != Some(hub.tabs[i].id),
    ensures
        hub.closing(hub.tabs[i].id, window_open).0.active == hub.active,
        hub.closing(hub.tabs[i].id, window_open).1.len() == 2,
{
    assert(hub.at(i, hub.tabs[i].id));
    tabs::lemma_position(hub, i, hub.tabs[i].id);
}

/// Closing the active tab while others remain makes the tab behind it active, or the one before
/// it where none is behind. What is done after the webview is gone is what selecting that tab
/// among those that remain does.
pub proof fn law_closing_the_active_tab(hub: HubModel, i: int, k: int, window_open: bool)
    requires
        hub.wf(),
        hub.tabs.len() > 1,
        0 <= i < hub.tabs.len(),
        hub.active == Some(hub.tabs[i].id),
        0 <= k < hub.tabs.len() - 1,
    ensures
        ({
            let (next, effects) = hub.closing(hub.tabs[i].id, window_open);
            let n = hub.tabs.len() - 1;
            let to = if i < n {
                hub.tabs[i + 1].id
            } else {
                hub.tabs[i - 1].id
            };
            let other = if k < i {
                hub.tabs[k].id
            } else {
                hub.tabs[k + 1].id
            };
            &&& next.active == Some(to)
            &&& effects.len() == n + 4
            &&& effects[k + 1] == if other == to {
                EffectModel::Show { label: "content-"@ + text::decimal(other as nat) }
            } else {
                EffectModel::Hide { label: "content-"@ + text::decimal(other as nat) }
            }
            &&& effects[n + 1] == EffectModel::PlaceStrip
            &&& effects[n + 2] == (EffectModel::PlaceContent {
                label: "content-"@ + text::decimal(to as nat),
            })
        }),
{
    let id = hub.tabs[i].id;
    assert(hub.at(i, id));
    tabs::lemma_position(hub, i, id);
    let rest = hub.without(i);
    let n = rest.tabs.len() as int;
    let at = if i < n { i } else { n - 1 };
    let to = hub.neighbour(i);
    assert(rest.tabs[at].id == to);
    assert(rest.at(at, to));
    let (next, effects) = hub.closing(id, window_open);
    let more = rest.selecting(to).1;
    law_selecting(rest, to, at, k);
    assert(effects =~= seq![EffectModel::Close { label: tabs::label_of(id) }] + more);
    assert(effects[k + 1] == more[k]);
    assert(effects[n + 1] == more[n]);
    assert(effects[n + 2] == more[n + 1]);
}

/// Closing the only tab opens a fresh one on the start page, where there is a window for it. The
/// fresh tab is not active before its webview is there.
pub proof fn law_closing_the_only_tab(hub: HubModel)
    requires
        hub.wf(),
        hub.tabs.len() == 1,
        hub.can_open(),
    ensures
        ({
            let id = hub.tabs[0].id;
            let (next, effects) = hub.closing(id, true);
            &&& next.tabs == seq![TabModel { id: hub.next_id, title: "New Tab"@ }]
            &&& next.active == hub.active
            &&& next.next_id == hub.next_id + 1
            &&& effects.len() == 2
            &&& effects[0] == (EffectModel::Close {
                label: "content-"@ + text::decimal(id as nat),
            })
            &&& effects[1] == (EffectModel::AddWebview {
                id: hub.next_id,
                label: "content-"@ + text::decimal(hub.next_id as nat),
                url: "https://hub.planet-a-foods.com/"@,
                user_agent:
                    "Mozilla/5.0 (Macintosh; Intel Mac OS X 10_15_7) AppleWebKit/605.1.15 (KHTML, like Gecko) PlanetAFoodsDesktop/"@
                    + "0.2.1"@,
            })
        }),
{
    let id = hub.tabs[0].id;
    assert(hub.at(0, id));
    tabs::lemma_position(hub, 0, id);
    assert(hub.closing(id, true).0.tabs =~= seq![TabModel { id: hub.next_id, title: "New Tab"@ }]);
}

/// Closing the active tab is closing the tab that is active; where none is, nothing happens.
pub proof fn law_closing_active(hub: HubModel, window_open: bool)
    ensures
        hub.active matches Some(id) ==> hub.closing_active(window_open) == hub.closing(
            id,
            window_open,
        ),
        hub.active is None ==> hub.closing_active(window_open).0 == hub && hub.closing_active(
            window_open,
        ).1.len() == 0,
{
}

/// A title that the webview of an open tab reports is the tab's from then on, as it is unless it
/// is blank; and the strip is told, that one thing, of the list with the title in it. It does not
/// matter which tab is active.
pub proof fn law_title_reaches_the_strip(hub: HubModel, i: int, k: int, rest: Seq<char>, title: Seq<char>)
    requires
        hub.wf(),
        0 <= i < hub.tabs.len(),
        0 <= k < hub.tabs.len(),
        text::parse_number(rest, 0xffff_ffff) == Some(hub.tabs[i].id as nat),
    ensures
        ({
            let (next, effects) = hub.retitling("content-"@ + rest, title);
            &&& next.tabs.len() == hub.tabs.len()
            &&& next.tabs[k].id == hub.tabs[k].id
            &&& next.tabs[k].title == if k != i {
                hub.tabs[k].title
            } else if exists|j: int| 0 <= j < title.len() && !text::is_white(#[trigger] title[j]) {
                title
            } else {
                "Untitled"@
            }
            &&& next.active == hub.active
            &&& next.next_id == hub.next_id
            &&& effects.len() == 1
            &&& effects[0] == (EffectModel::Emit {
                state: StripModel { tabs: next.tabs, active: hub.active },
            })
        }),
{
    let id = hub.tabs[i].id;
    assert(hub.at(i, id));
    tabs::lemma_position(hub, i, id);
    law_label_names_its_tab("content-"@ + rest, rest);
}

/// The label that a tab's webview was given is one that its title is reported under.
pub proof fn law_own_label_is_recognised(id: u32)
    ensures
        text::parse_number(text::decimal(id as nat), 0xffff_ffff) == Some(id as nat),
{
    text::law_decimal_round_trip(id as nat, 0xffff_ffff);
}

/// A title from a webview that no open tab owns changes nothing. The strip is told all the same
/// where the label could be that of a tab, and not told where it could not.
pub proof fn law_title_of_no_tab(hub: HubModel, label: Seq<char>, rest: Seq<char>, title: Seq<char>)
    requires
        text::parse_number(rest, 0xffff_ffff) matches Some(n) ==> forall|k: int|
            0 <= k < hub.tabs.len() ==> (#[trigger] hub.tabs[k]).id != n,
    ensures
        !"content-"@.is_prefix_of(label) ==> hub.retitling(label, title).0 == hub && hub.retitling(
            label,
            title,
        ).1.len() == 0,
        ({
            let (next, effects) = hub.retitling("content-"@ + rest, title);
            &&& next == hub
            &&& text::parse_number(rest, 0xffff_ffff) is None ==> effects.len() == 0
            &&& text::parse_number(rest, 0xffff_ffff) is Some ==> effects.len() == 1
                && effects[0] == (EffectModel::Emit {
                state: StripModel { tabs: hub.tabs, active: hub.active },
            })
        }),
{
    law_label_names_its_tab(label, rest);
    if text::parse_number(rest, 0xffff_ffff) is Some {
        let id = text::parse_number(rest, 0xffff_ffff)->0 as u32;
        assert(!hub.has(id));
    }
}

/// Cycling by `delta` from the tab at place `i` leads to the tab at place `k` if that is `delta`
/// places on, but for whole rounds. Where no open tab is active it starts at the first.
pub proof fn law_cycling(hub: HubModel, i: int, delta: int, rounds: int, k: int)
    requires
        hub.wf(),
        0 <= i < hub.tabs.len(),
        0 <= k < hub.tabs.len(),
        i + delta == rounds * hub.tabs.len() + k,
        hub.active == Some(hub.tabs[i].id) || i == 0 && (forall|j: int|
            0 <= j < hub.tabs.len() ==> Some((#[trigger] hub.tabs[j]).id) != hub.active),
    ensures
        hub.cycle_target(delta) == Some(hub.tabs[k].id),
{
    let len = hub.tabs.len() as int;
    if hub.active == Some(hub.tabs[i].id) {
        assert(hub.at(i, hub.tabs[i].id));
        tabs::lemma_position(hub, i, hub.tabs[i].id);
    }
    assert(hub.current() == i);
    vstd::arithmetic::div_mod::lemma_mod_multiples_vanish(rounds, k, len);
    vstd::arithmetic::mul::lemma_mul_is_commutative(len, rounds);
    vstd::arithmetic::div_mod::lemma_small_mod(k as nat, len as nat);
}

/// Without tabs there is nothing to go to.
pub proof fn law_no_tabs_to_go_to(hub: HubModel, n: int)
    requires
        hub.tabs.len() == 0,
    ensures
        hub.cycle_target(n) is None,
        hub.goto_target(n) is None,
{
}

/// The numbers up to eight go to the tab in that place, where there is one; any number from nine
/// on goes to the last tab; zero goes nowhere.
pub proof fn law_going_to_a_number(hub: HubModel, n: int)
    requires
        hub.tabs.len() > 0,
    ensures
        n >= 9 ==> hub.goto_target(n) == Some(hub.tabs[hub.tabs.len() - 1].id),
        1 <= n <= 8 && n <= hub.tabs.len() ==> hub.goto_target(n) == Some(hub.tabs[n - 1].id),
        1 <= n <= 8 && n > hub.tabs.len() ==> hub.goto_target(n) is None,
        n <= 0 ==> hub.goto_target(n) is None,
{
}

} // verus!
