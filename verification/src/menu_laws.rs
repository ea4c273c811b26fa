//! What each item of the menu is for, by its id.

use vstd::prelude::*;

use crate::auth;
use crate::effect::EffectModel;
use crate::hosts;
use crate::menu::{self, EntryModel, MenuCommand};
use crate::tab_laws;
use crate::tabs::{HubModel, StripModel, TabModel};
use crate::text;
use crate::weburl;

verus! {

proof fn lemma_ids_differ()
    ensures
        "auth_login"@ != "tab_new"@,
        "auth_login"@ != "tab_close"@,
        "auth_login"@ != "tab_next"@,
        "auth_login"@ != "tab_next_alt"@,
        "auth_login"@ != "tab_prev"@,
        "auth_login"@ != "tab_prev_alt"@,
        "tab_new"@ != "tab_close"@,
        "tab_new"@ != "tab_next"@,
        "tab_new"@ != "tab_next_alt"@,
        "tab_new"@ != "tab_prev"@,
        "tab_new"@ != "tab_prev_alt"@,
        "tab_close"@ != "tab_next"@,
        "tab_close"@ != "tab_next_alt"@,
        "tab_close"@ != "tab_prev"@,
        "tab_close"@ != "tab_prev_alt"@,
        "tab_next"@ != "tab_prev"@,
        "tab_next"@ != "tab_prev_alt"@,
        "tab_next_alt"@ != "tab_prev"@,
        "tab_next_alt"@ != "tab_prev_alt"@,
{
    reveal_strlit("auth_login");
    reveal_strlit("tab_new");
    reveal_strlit("tab_close");
    reveal_strlit("tab_next");
    reveal_strlit("tab_next_alt");
    reveal_strlit("tab_prev");
    reveal_strlit("tab_prev_alt");
    assert("auth_login"@.len() == 10 && "tab_new"@.len() == 7 && "tab_close"@.len() == 9);
    assert("tab_next"@.len() == 8 && "tab_next_alt"@.len() == 12 && "tab_prev"@.len() == 8
        && "tab_prev_alt"@.len() == 12);
    assert("tab_next"@[4] == 'n' && "tab_next_alt"@[4] == 'n');
    assert("tab_prev"@[4] == 'p' && "tab_prev_alt"@[4] == 'p');
}

/// Ids of items and what they ask for belong together one to one, but for the second items for the
/// next and the previous tab.
pub proof fn law_ids_and_commands(id: Seq<char>)
    ensures
        menu::command_of(id) == MenuCommand::SignIn <==> id == "auth_login"@,
        menu::command_of(id) == MenuCommand::NewTab <==> id == "tab_new"@,
        menu::command_of(id) == MenuCommand::CloseTab <==> id == "tab_close"@,
        menu::command_of(id) == (MenuCommand::Cycle { delta: 1 }) <==> id == "tab_next"@ || id
            == "tab_next_alt"@,
        menu::command_of(id) == (MenuCommand::Cycle { delta: (-1) as i32 }) <==> id == "tab_prev"@
            || id == "tab_prev_alt"@,
        menu::command_of(id) matches MenuCommand::Cycle { delta } ==> delta == 1 || delta == -1,
{
    lemma_ids_differ();
}

/// Behind `tab_goto_` the number of a tab is read; anything else there asks for nothing, and so
/// does any other id that no item has.
pub proof fn law_goto_ids(rest: Seq<char>, id: Seq<char>)
    ensures
        text::parse_number(rest, usize::MAX as nat) matches Some(n) ==> menu::command_of(
            "tab_goto_"@ + rest,
        ) == (MenuCommand::Goto { n: n as usize }),
        text::parse_number(rest, usize::MAX as nat) is None ==> menu::command_of(
            "tab_goto_"@ + rest,
        ) == MenuCommand::Nothing,
        menu::command_of(id) matches MenuCommand::Goto { n } ==> "tab_goto_"@.is_prefix_of(id),
        id != "auth_login"@ && id != "tab_new"@ && id != "tab_close"@ && id != "tab_next"@ && id
            != "tab_next_alt"@ && id != "tab_prev"@ && id != "tab_prev_alt"@
            && !"tab_goto_"@.is_prefix_of(id) ==> menu::command_of(id) == MenuCommand::Nothing,
{
    reveal_strlit("tab_goto_");
    reveal_strlit("auth_login");
    reveal_strlit("tab_new");
    reveal_strlit("tab_close");
    reveal_strlit("tab_next");
    reveal_strlit("tab_next_alt");
    reveal_strlit("tab_prev");
    reveal_strlit("tab_prev_alt");
    let whole = "tab_goto_"@ + rest;
    assert(whole[0] == 't' && whole[4] == 'g');
    text::law_prefix_round_trip("tab_goto_"@, rest);
}

/// The item for a sign-in leaves the tabs alone and opens the sign-in page of the app in the
/// active tab, or of the note app, in the browser. While the app listens on a port the page is
/// told the callback on that port, for every port.
pub proof fn law_sign_in_item(
    hub: HubModel,
    window_open: bool,
    current: Option<Seq<char>>,
    port: u16,
    host: Seq<char>,
    page: Seq<char>,
    back: Seq<char>,
)
    requires
        host == if current is Some && hosts::desktop_auth(current->0) {
            current->0
        } else {
            "note.planet-a-foods.com"@
        },
        page == "https://"@ + host + "/desktop-login"@,
        back == "http://127.0.0.1:"@ + text::decimal(port as nat) + "/callback"@,
    ensures
        ({
            let (next, effects) = menu::carrying_out(
                hub,
                menu::command_of("auth_login"@),
                window_open,
                current,
                port,
            );
            &&& next == hub
            &&& effects == auth::logging_in(host, port)
            &&& weburl::url_parse(page) matches Some(url) ==> port != 0 ==> weburl::has_room(
                page,
                "cb"@,
                back,
            ) ==> effects == seq![EffectModel::OpenUrl { url: url.with_pair("cb"@, back).href }]
            &&& weburl::url_parse(page) matches Some(url) ==> port == 0 ==> weburl::countable(page)
                ==> effects == seq![EffectModel::OpenUrl { url: url.href }]
        }),
{
    lemma_ids_differ();
}

/// The item for a new tab opens the start page in a tab behind the others, where there is a
/// window.
pub proof fn law_new_tab_item(hub: HubModel, current: Option<Seq<char>>, port: u16)
    requires
        hub.can_open(),
    ensures
        ({
            let (next, effects) = menu::carrying_out(
                hub,
                menu::command_of("tab_new"@),
                true,
                current,
                port,
            );
            &&& next.tabs == hub.tabs.push(TabModel { id: hub.next_id, title: "New Tab"@ })
            &&& next.active == hub.active
            &&& next.next_id == hub.next_id + 1
            &&& effects.len() == 1
            &&& effects[0] == (EffectModel::AddWebview {
                id: hub.next_id,
                label: "content-"@ + text::decimal(hub.next_id as nat),
                url: "https://hub.planet-a-foods.com/"@,
                user_agent:
                    "Mozilla/5.0 (Macintosh; Intel Mac OS X 10_15_7) AppleWebKit/605.1.15 (KHTML, like Gecko) PlanetAFoodsDesktop/"@
                    + "0.2.1"@,
            })
        }),
        menu::carrying_out(hub, menu::command_of("tab_new"@), false, current, port).0 == hub,
        menu::carrying_out(hub, menu::command_of("tab_new"@), false, current, port).1.len() == 0,
{
    lemma_ids_differ();
}

/// The item for closing a tab closes the active one, and does nothing where none is active.
pub proof fn law_close_tab_item(
    hub: HubModel,
    window_open: bool,
    current: Option<Seq<char>>,
    port: u16,
)
    ensures
        ({
            let done = menu::carrying_out(
                hub,
                menu::command_of("tab_close"@),
                window_open,
                current,
                port,
            );
            &&& hub.active matches Some(id) ==> done == hub.closing(id, window_open)
            &&& hub.active is None ==> done.0 == hub && done.1.len() == 0
        }),
{
    lemma_ids_differ();
}

/// The items for the next and the previous tab select the tab beside the active one, the first
/// after the last and the last before the first. The strip is told last.
pub proof fn law_neighbour_items(
    hub: HubModel,
    i: int,
    on: bool,
    second: bool,
    window_open: bool,
    current: Option<Seq<char>>,
    port: u16,
)
    requires
        hub.wf(),
        0 <= i < hub.tabs.len(),
        hub.active == Some(hub.tabs[i].id),
    ensures
        ({
            let id = if on {
                if second {
                    "tab_next_alt"@
                } else {
                    "tab_next"@
                }
            } else {
                if second {
                    "tab_prev_alt"@
                } else {
                    "tab_prev"@
                }
            };
            let to = if on {
                if i + 1 < hub.tabs.len() {
                    hub.tabs[i + 1].id
                } else {
                    hub.tabs[0].id
                }
            } else {
                if i > 0 {
                    hub.tabs[i - 1].id
                } else {
                    hub.tabs[hub.tabs.len() - 1].id
                }
            };
            let (next, effects) = menu::carrying_out(
                hub,
                menu::command_of(id),
                window_open,
                current,
                port,
            );
            &&& (next, effects) == hub.selecting(to)
            &&& next.tabs == hub.tabs
            &&& next.active == Some(to)
            &&& effects.last() == (EffectModel::Emit {
                state: StripModel { tabs: hub.tabs, active: Some(to) },
            })
        }),
{
    lemma_ids_differ();
    crate::tabs::law_cycle_goes_round(hub, i);
    let delta: int = if on { 1 } else { -1 };
    crate::tabs::law_targets_are_open(hub, delta, 0);
}

/// Where no open tab is active, the items for the next and the previous tab go by the first: to the
/// second tab, if there is one, and to the last.
pub proof fn law_neighbour_items_without_active(
    hub: HubModel,
    window_open: bool,
    current: Option<Seq<char>>,
    port: u16,
)
    requires
        hub.wf(),
        hub.tabs.len() > 0,
        forall|j: int| 0 <= j < hub.tabs.len() ==> Some((#[trigger] hub.tabs[j]).id) != hub.active,
    ensures
        ({
            let second = if hub.tabs.len() > 1 {
                hub.tabs[1].id
            } else {
                hub.tabs[0].id
            };
            let last = hub.tabs[hub.tabs.len() - 1].id;
            let next = menu::command_of("tab_next"@);
            let next_alt = menu::command_of("tab_next_alt"@);
            let prev = menu::command_of("tab_prev"@);
            let prev_alt = menu::command_of("tab_prev_alt"@);
            &&& menu::carrying_out(hub, next, window_open, current, port) == hub.selecting(second)
            &&& menu::carrying_out(hub, next_alt, window_open, current, port) == hub.selecting(
                second,
            )
            &&& menu::carrying_out(hub, prev, window_open, current, port) == hub.selecting(last)
            &&& menu::carrying_out(hub, prev_alt, window_open, current, port) == hub.selecting(last)
        }),
{
    lemma_ids_differ();
    let len = hub.tabs.len() as int;
    if len > 1 {
        tab_laws::law_cycling(hub, 0, 1, 0, 1);
    } else {
        tab_laws::law_cycling(hub, 0, 1, 1, 0);
    }
    tab_laws::law_cycling(hub, 0, -1, -1, len - 1);
}

/// The items with a number select the tab in that place; from nine on, the last tab. Where there
/// is no such tab nothing happens.
pub proof fn law_number_items(
    hub: HubModel,
    rest: Seq<char>,
    n: nat,
    window_open: bool,
    current: Option<Seq<char>>,
    port: u16,
)
    requires
        hub.tabs.len() > 0,
        text::parse_number(rest, usize::MAX as nat) == Some(n),
    ensures
        ({
            let done = menu::carrying_out(
                hub,
                menu::command_of("tab_goto_"@ + rest),
                window_open,
                current,
                port,
            );
            &&& 1 <= n <= 8 && n <= hub.tabs.len() ==> done == hub.selecting(hub.tabs[n - 1].id)
            &&& n >= 9 ==> done == hub.selecting(hub.tabs[hub.tabs.len() - 1].id)
            &&& n == 0 || hub.tabs.len() < n <= 8 ==> done.0 == hub && done.1.len() == 0
        }),
{
    law_goto_ids(rest, rest);
}

/// Where there are no tabs, going to one does nothing, and what asks for nothing never does
/// anything.
pub proof fn law_nothing_to_do(
    hub: HubModel,
    delta: i32,
    n: usize,
    window_open: bool,
    current: Option<Seq<char>>,
    port: u16,
)
    ensures
        menu::carrying_out(hub, MenuCommand::Nothing, window_open, current, port).0 == hub,
        menu::carrying_out(hub, MenuCommand::Nothing, window_open, current, port).1.len() == 0,
        hub.tabs.len() == 0 ==> ({
            let cycled = menu::carrying_out(
                hub,
                MenuCommand::Cycle { delta },
                window_open,
                current,
                port,
            );
            let gone = menu::carrying_out(hub, MenuCommand::Goto { n }, window_open, current, port);
            &&& cycled.0 == hub
            &&& cycled.1.len() == 0
            &&& gone.0 == hub
            &&& gone.1.len() == 0
        }),
{
}

/// Only the item for a new tab, and that for closing a tab while the active tab is the only one,
/// take an id, and only while there is a window.
pub proof fn law_items_that_open(hub: HubModel, id: Seq<char>, window_open: bool)
    ensures
        menu::may_open(hub, menu::command_of(id), window_open) <==> window_open && (id
            == "tab_new"@ || id == "tab_close"@ && hub.tabs.len() == 1 && hub.active == Some(
            hub.tabs[0].id,
        )),
{
    lemma_ids_differ();
    law_ids_and_commands(id);
}

/// The lines of the menu bar that are not items of the hub's own, and how many lines there are.
pub proof fn law_other_lines(s: int, i: int)
    requires
        0 <= s < menu::menu_bar().len(),
        0 <= i < menu::menu_bar()[s].entries.len(),
    ensures
        menu::menu_bar().len() == 3,
        menu::menu_bar()[0].title == "Planet A Foods"@ && menu::menu_bar()[0].entries.len() == 5,
        menu::menu_bar()[1].title == "Edit"@ && menu::menu_bar()[1].entries.len() == 6,
        menu::menu_bar()[2].title == "Tabs"@ && menu::menu_bar()[2].entries.len() == 17,
        ({
            let entry = menu::menu_bar()[s].entries[i];
            &&& entry == EntryModel::Separator <==> s == 0 && (i == 1 || i == 3) || s == 1 && i == 2
                || s == 2 && (i == 2 || i == 7)
            &&& entry == EntryModel::HideApp <==> s == 0 && i == 2
            &&& entry == EntryModel::QuitApp <==> s == 0 && i == 4
            &&& entry == EntryModel::UndoEdit <==> s == 1 && i == 0
            &&& entry == EntryModel::RedoEdit <==> s == 1 && i == 1
            &&& entry == EntryModel::CutText <==> s == 1 && i == 3
            &&& entry == EntryModel::CopyText <==> s == 1 && i == 4
            &&& entry == EntryModel::PasteText <==> s == 1 && i == 5
        }),
{
    if s == 2 && i >= 8 {
        assert(menu::menu_bar()[s].entries[i] == menu::goto_entry((i - 7) as nat));
    }
}

/// The lines of the menu bar that are items of the hub's own, in order, with their titles and
/// accelerators.
pub proof fn law_own_lines(n: int)
    requires
        1 <= n <= 9,
    ensures
        ({
            let item = |id: Seq<char>, title: Seq<char>, accelerator: Seq<char>|
                EntryModel::Item { id, title, enabled: true, accelerator };
            let app = menu::menu_bar()[0].entries;
            let tabs = menu::menu_bar()[2].entries;
            let numeral = text::decimal(n as nat);
            &&& app[0] == item("auth_login"@, "Sign in via browser"@, "CmdOrCtrl+L"@)
            &&& tabs[0] == item("tab_new"@, "New Tab"@, "CmdOrCtrl+T"@)
            &&& tabs[1] == item("tab_close"@, "Close Tab"@, "CmdOrCtrl+W"@)
            &&& tabs[3] == item("tab_next"@, "Next Tab"@, "Ctrl+Tab"@)
            &&& tabs[4] == item("tab_prev"@, "Previous Tab"@, "Ctrl+Shift+Tab"@)
            &&& tabs[5] == item("tab_next_alt"@, "Next Tab (⌘⌥→)"@, "CmdOrCtrl+Alt+Right"@)
            &&& tabs[6] == item("tab_prev_alt"@, "Previous Tab (⌘⌥←)"@, "CmdOrCtrl+Alt+Left"@)
            &&& tabs[7 + n] == item(
                "tab_goto_"@ + numeral,
                "Tab "@ + numeral,
                "CmdOrCtrl+"@ + numeral,
            )
        }),
{
    assert(menu::menu_bar()[2].entries[7 + n] == menu::goto_entry(n as nat));
}

} // verus!
