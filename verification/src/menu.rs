//! The application menu: what it shows, and what each of its items does.

use vstd::prelude::*;

use crate::auth::{self, browser_login_active};
use crate::effect::{no_effects, Effect, EffectModel};
use crate::lists::and_one;
use crate::tabs::{self, HubModel, TabManager, START_URL};
use crate::text::{self, join, parse_decimal, same_text, strip_prefix, to_decimal};

verus! {

/// One line of a submenu.
#[derive(Debug, PartialEq, Eq)]
pub enum MenuEntry {
    /// An item of the hub's own, with the accelerator that triggers it while it is enabled.
    Item { id: String, title: String, enabled: bool, accelerator: String },
    Separator,
    HideApp,
    QuitApp,
    UndoEdit,
    RedoEdit,
    CutText,
    CopyText,
    PasteText,
}

/// The model of [`MenuEntry`].
pub enum EntryModel {
    Item { id: Seq<char>, title: Seq<char>, enabled: bool, accelerator: Seq<char> },
    Separator,
    HideApp,
    QuitApp,
    UndoEdit,
    RedoEdit,
    CutText,
    CopyText,
    PasteText,
}

impl DeepView for MenuEntry {
    type V = EntryModel;

    open spec fn deep_view(&self) -> EntryModel {
        match self {
            MenuEntry::Item { id, title, enabled, accelerator } => EntryModel::Item {
                id: id@,
                title: title@,
                enabled: *enabled,
                accelerator: accelerator@,
            },
            MenuEntry::Separator => EntryModel::Separator,
            MenuEntry::HideApp => EntryModel::HideApp,
            MenuEntry::QuitApp => EntryModel::QuitApp,
            MenuEntry::UndoEdit => EntryModel::UndoEdit,
            MenuEntry::RedoEdit => EntryModel::RedoEdit,
            MenuEntry::CutText => EntryModel::CutText,
            MenuEntry::CopyText => EntryModel::CopyText,
            MenuEntry::PasteText => EntryModel::PasteText,
        }
    }
}

/// A submenu of the menu bar.
#[derive(Debug, PartialEq, Eq)]
pub struct Submenu {
    pub title: String,
    pub enabled: bool,
    pub entries: Vec<MenuEntry>,
}

/// The model of [`Submenu`].
pub struct SubmenuModel {
    pub title: Seq<char>,
    pub enabled: bool,
    pub entries: Seq<EntryModel>,
}

impl DeepView for Submenu {
    type V = SubmenuModel;

    open spec fn deep_view(&self) -> SubmenuModel {
        SubmenuModel {
            title: self.title@,
            enabled: self.enabled,
            entries: self.entries.deep_view(),
        }
    }
}

/// What a menu item asks for.
#[derive(Debug, PartialEq, Eq, Clone, Copy)]
pub enum MenuCommand {
    SignIn,
    NewTab,
    CloseTab,
    /// Select the tab `delta` places on.
    Cycle { delta: i32 },
    /// Select the `n`th tab.
    Goto { n: usize },
    Nothing,
}

/// What the item `id` asks for.
pub open spec fn command_of(id: Seq<char>) -> MenuCommand {
    if id == "auth_login"@ {
        MenuCommand::SignIn
    } else if id == "tab_new"@ {
        MenuCommand::NewTab
    } else if id == "tab_close"@ {
        MenuCommand::CloseTab
    } else if id == "tab_next"@ || id == "tab_next_alt"@ {
        MenuCommand::Cycle { delta: 1 }
    } else if id == "tab_prev"@ || id == "tab_prev_alt"@ {
        MenuCommand::Cycle { delta: (-1) as i32 }
    } else {
        match text::after_prefix(id, "tab_goto_"@) {
            Some(rest) => match text::parse_number(rest, usize::MAX as nat) {
                Some(n) => MenuCommand::Goto { n: n as usize },
                None => MenuCommand::Nothing,
            },
            None => MenuCommand::Nothing,
        }
    }
}

/// Carrying `command` out may open a tab, for which there has to be an id.
pub open spec fn may_open(hub: HubModel, command: MenuCommand, window_open: bool) -> bool {
    match command {
        MenuCommand::NewTab => window_open,
        MenuCommand::CloseTab => window_open && (hub.active matches Some(id) && hub.is_only_tab(
            id,
        )),
        _ => false,
    }
}

/// What carrying `command` out does to the tabs, and what is to do. The active tab shows a page
/// on `current`, and the app listens on `port`.
pub open spec fn carrying_out(
    hub: HubModel,
    command: MenuCommand,
    window_open: bool,
    current: Option<Seq<char>>,
    port: u16,
) -> (HubModel, Seq<EffectModel>) {
    match command {
        MenuCommand::SignIn => (hub, auth::logging_in(auth::login_host(current), port)),
        MenuCommand::NewTab => hub.opening(START_URL@, window_open),
        MenuCommand::CloseTab => hub.closing_active(window_open),
        MenuCommand::Cycle { delta } => hub.selecting_any(hub.cycle_target(delta as int)),
        MenuCommand::Goto { n } => hub.selecting_any(hub.goto_target(n as int)),
        MenuCommand::Nothing => (hub, seq![]),
    }
}

/// The item that selects the `n`th tab.
pub open spec fn goto_entry(n: nat) -> EntryModel {
    item_of(
        "tab_goto_"@ + text::decimal(n),
        "Tab "@ + text::decimal(n),
        "CmdOrCtrl+"@ + text::decimal(n),
    )
}

/// An item of the hub's own, enabled.
pub open spec fn item_of(id: Seq<char>, title: Seq<char>, accelerator: Seq<char>) -> EntryModel {
    EntryModel::Item { id, title, enabled: true, accelerator }
}

/// The submenu of the app itself.
pub open spec fn app_entries() -> Seq<EntryModel> {
    seq![
        item_of("auth_login"@, "Sign in via browser"@, "CmdOrCtrl+L"@),
        EntryModel::Separator,
        EntryModel::HideApp,
        EntryModel::Separator,
        EntryModel::QuitApp,
    ]
}

/// The submenu for editing text in a page. It does not select all: that accelerator would keep
/// the key from the page, where the note editor handles it in its own way.
pub open spec fn edit_entries() -> Seq<EntryModel> {
    seq![
        EntryModel::UndoEdit,
        EntryModel::RedoEdit,
        EntryModel::Separator,
        EntryModel::CutText,
        EntryModel::CopyText,
        EntryModel::PasteText,
    ]
}

/// The submenu for tabs, without the items that select one by number.
pub open spec fn tab_entries() -> Seq<EntryModel> {
    seq![
        item_of("tab_new"@, "New Tab"@, "CmdOrCtrl+T"@),
        item_of("tab_close"@, "Close Tab"@, "CmdOrCtrl+W"@),
        EntryModel::Separator,
        item_of("tab_next"@, "Next Tab"@, "Ctrl+Tab"@),
        item_of("tab_prev"@, "Previous Tab"@, "Ctrl+Shift+Tab"@),
        item_of("tab_next_alt"@, "Next Tab (⌘⌥→)"@, "CmdOrCtrl+Alt+Right"@),
        item_of("tab_prev_alt"@, "Previous Tab (⌘⌥←)"@, "CmdOrCtrl+Alt+Left"@),
        EntryModel::Separator,
    ]
}

/// The items that select the first `n` tabs.
pub open spec fn goto_entries(n: nat) -> Seq<EntryModel> {
    Seq::new(n, |i: int| goto_entry((i + 1) as nat))
}

/// The menu bar.
pub open spec fn menu_bar() -> Seq<SubmenuModel> {
    seq![
        SubmenuModel { title: "Planet A Foods"@, enabled: true, entries: app_entries() },
        SubmenuModel { title: "Edit"@, enabled: true, entries: edit_entries() },
        SubmenuModel {
            title: "Tabs"@,
            enabled: true,
            entries: tab_entries() + goto_entries(9),
        },
    ]
}

fn item(id: &str, title: &str, accelerator: &str) -> (r: MenuEntry)
    ensures
        r.deep_view() == item_of(id@, title@, accelerator@),
{
    MenuEntry::Item {
        id: id.to_owned(),
        title: title.to_owned(),
        enabled: true,
        accelerator: accelerator.to_owned(),
    }
}

fn no_entries() -> (r: Vec<MenuEntry>)
    ensures
        r.deep_view() == Seq::<EntryModel>::empty(),
{
    let r: Vec<MenuEntry> = Vec::new();
    assert(r.deep_view() =~= Seq::<EntryModel>::empty());
    r
}

fn app_menu() -> (r: Submenu)
    ensures
        r.deep_view() == menu_bar()[0],
{
    let entries = no_entries();
    let entries = and_one(entries, item("auth_login", "Sign in via browser", "CmdOrCtrl+L"));
    let entries = and_one(entries, MenuEntry::Separator);
    let entries = and_one(entries, MenuEntry::HideApp);
    let entries = and_one(entries, MenuEntry::Separator);
    let entries = and_one(entries, MenuEntry::QuitApp);
    assert(entries.deep_view() =~= app_entries());
    Submenu { title: "Planet A Foods".to_owned(), enabled: true, entries }
}

fn edit_menu() -> (r: Submenu)
    ensures
        r.deep_view() == menu_bar()[1],
{
    let entries = no_entries();
    let entries = and_one(entries, MenuEntry::UndoEdit);
    let entries = and_one(entries, MenuEntry::RedoEdit);
    let entries = and_one(entries, MenuEntry::Separator);
    let entries = and_one(entries, MenuEntry::CutText);
    let entries = and_one(entries, MenuEntry::CopyText);
    let entries = and_one(entries, MenuEntry::PasteText);
    assert(entries.deep_view() =~= edit_entries());
    Submenu { title: "Edit".to_owned(), enabled: true, entries }
}

fn tabs_menu() -> (r: Submenu)
    ensures
        r.deep_view() == menu_bar()[2],
{
    let entries = no_entries();
    let entries = and_one(entries, item("tab_new", "New Tab", "CmdOrCtrl+T"));
    let entries = and_one(entries, item("tab_close", "Close Tab", "CmdOrCtrl+W"));
    let entries = and_one(entries, MenuEntry::Separator);
    let entries = and_one(entries, item("tab_next", "Next Tab", "Ctrl+Tab"));
    let entries = and_one(entries, item("tab_prev", "Previous Tab", "Ctrl+Shift+Tab"));
    let entries = and_one(entries, item("tab_next_alt", "Next Tab (⌘⌥→)", "CmdOrCtrl+Alt+Right"));
    let entries = and_one(
        entries,
        item("tab_prev_alt", "Previous Tab (⌘⌥←)", "CmdOrCtrl+Alt+Left"),
    );
    let mut entries = and_one(entries, MenuEntry::Separator);
    assert(entries.deep_view() =~= tab_entries() + goto_entries(0));
    let mut n: u64 = 1;
    while n <= 9
        invariant
            1 <= n <= 10,
            entries.deep_view() == tab_entries() + goto_entries((n - 1) as nat),
        decreases 10 - n,
    {
        let numeral = to_decimal(n);
        let next = item(
            &join("tab_goto_", &numeral),
            &join("Tab ", &numeral),
            &join("CmdOrCtrl+", &numeral),
        );
        entries = and_one(entries, next);
        assert(entries.deep_view() =~= tab_entries() + goto_entries(n as nat));
        n += 1;
    }
    Submenu { title: "Tabs".to_owned(), enabled: true, entries }
}

/// The menu bar. Its accelerators work whichever webview has the keyboard focus.
pub fn build_menu() -> (r: Vec<Submenu>)
    ensures
        r.deep_view() == menu_bar(),
{
    let menus: Vec<Submenu> = Vec::new();
    assert(menus.deep_view() =~= Seq::empty());
    let menus = and_one(menus, app_menu());
    let menus = and_one(menus, edit_menu());
    let menus = and_one(menus, tabs_menu());
    assert(menus.deep_view() =~= menu_bar());
    menus
}

/// What the item `id` asks for.
pub fn menu_command(id: &str) -> (r: MenuCommand)
    ensures
        r == command_of(id@),
{
    if same_text(id, "auth_login") {
        MenuCommand::SignIn
    } else if same_text(id, "tab_new") {
        MenuCommand::NewTab
    } else if same_text(id, "tab_close") {
        MenuCommand::CloseTab
    } else if same_text(id, "tab_next") || same_text(id, "tab_next_alt") {
        MenuCommand::Cycle { delta: 1 }
    } else if same_text(id, "tab_prev") || same_text(id, "tab_prev_alt") {
        MenuCommand::Cycle { delta: -1 }
    } else {
        match strip_prefix(id, "tab_goto_") {
            Some(rest) => match parse_decimal(&rest, usize::MAX as u64) {
                Some(n) => MenuCommand::Goto { n: n as usize },
                None => MenuCommand::Nothing,
            },
            None => MenuCommand::Nothing,
        }
    }
}

/// Carries out the menu item `menu_id`. The active tab shows a page on `current`, and the app
/// listens on `port`.
pub fn handle_menu(
    tabs: &mut TabManager,
    menu_id: &str,
    window_open: bool,
    current: Option<String>,
    port: u16,
) -> (effects: Vec<Effect>)
    requires
        old(tabs)@.wf(),
        may_open(old(tabs)@, command_of(menu_id@), window_open) ==> old(tabs)@.can_open(),
    ensures
        final(tabs)@.wf(),
        (final(tabs)@, effects.deep_view()) == carrying_out(
            old(tabs)@,
            command_of(menu_id@),
            window_open,
            current.deep_view(),
            port,
        ),
{
    match menu_command(menu_id) {
        MenuCommand::SignIn => browser_login_active(current, port),
        MenuCommand::NewTab => tabs.new_tab(window_open),
        MenuCommand::CloseTab => tabs.close_active_tab(window_open),
        MenuCommand::Cycle { delta } => tabs.cycle_tab(delta),
        MenuCommand::Goto { n } => tabs.goto_tab(n),
        MenuCommand::Nothing => no_effects(),
    }
}

/// The item with the number `n` selects the `n`th tab.
pub proof fn law_goto_item_selects_its_tab(n: nat)
    requires
        n <= usize::MAX,
    ensures
        command_of("tab_goto_"@ + text::decimal(n)) == (MenuCommand::Goto { n: n as usize }),
{
    reveal_strlit("tab_goto_");
    reveal_strlit("auth_login");
    reveal_strlit("tab_new");
    reveal_strlit("tab_close");
    reveal_strlit("tab_next");
    reveal_strlit("tab_next_alt");
    reveal_strlit("tab_prev");
    reveal_strlit("tab_prev_alt");
    let id = "tab_goto_"@ + text::decimal(n);
    assert(id[4] == 'g');
    assert(id[0] == 't');
    text::law_prefix_round_trip("tab_goto_"@, text::decimal(n));
    text::law_decimal_round_trip(n, usize::MAX as nat);
}

/// The items with the numbers one to eight make that tab the active one, where there are as many,
/// and change nothing where there are not; the item with the number nine makes the last tab the
/// active one.
pub proof fn law_number_items_select(
    hub: HubModel,
    n: int,
    window_open: bool,
    current: Option<Seq<char>>,
    port: u16,
)
    requires
        hub.wf(),
        hub.tabs.len() > 0,
        1 <= n <= 9,
    ensures
        ({
            let id = "tab_goto_"@ + text::decimal(n as nat);
            let next = carrying_out(hub, command_of(id), window_open, current, port).0;
            next == HubModel {
                active: if n == 9 {
                    Some(hub.tabs.last().id)
                } else if n <= hub.tabs.len() {
                    Some(hub.tabs[n - 1].id)
                } else {
                    hub.active
                },
                ..hub
            }
        }),
{
    law_goto_item_selects_its_tab(n as nat);
    tabs::law_targets_are_open(hub, 0, n);
}

/// The menu does what the tab strip does: its items for a new tab and for closing a tab are the
/// strip's buttons, the latter on the active tab. The second items for the next and the previous
/// tab are the first ones again.
pub proof fn law_menu_and_strip_agree(
    hub: HubModel,
    window_open: bool,
    current: Option<Seq<char>>,
    port: u16,
)
    ensures
        carrying_out(hub, command_of("tab_new"@), window_open, current, port) == hub.opening(
            START_URL@,
            window_open,
        ),
        hub.active matches Some(id) ==> carrying_out(
            hub,
            command_of("tab_close"@),
            window_open,
            current,
            port,
        ) == hub.closing(id, window_open),
        carrying_out(hub, command_of("tab_next_alt"@), window_open, current, port) == carrying_out(
            hub,
            command_of("tab_next"@),
            window_open,
            current,
            port,
        ),
        carrying_out(hub, command_of("tab_prev_alt"@), window_open, current, port) == carrying_out(
            hub,
            command_of("tab_prev"@),
            window_open,
            current,
            port,
        ),
{
    reveal_strlit("auth_login");
    reveal_strlit("tab_new");
    reveal_strlit("tab_close");
    reveal_strlit("tab_next");
    reveal_strlit("tab_next_alt");
    reveal_strlit("tab_prev");
    reveal_strlit("tab_prev_alt");
    assert("auth_login"@[0] == 'a');
    assert("tab_new"@[0] == 't' && "tab_new"@.len() == 7);
    assert("tab_close"@[0] == 't' && "tab_close"@.len() == 9);
    assert("tab_next"@[0] == 't' && "tab_next"@[4] == 'n' && "tab_next"@.len() == 8);
    assert("tab_next_alt"@[0] == 't' && "tab_next_alt"@[4] == 'n' && "tab_next_alt"@.len() == 12);
    assert("tab_prev"@[0] == 't' && "tab_prev"@[4] == 'p' && "tab_prev"@.len() == 8);
    assert("tab_prev_alt"@[0] == 't' && "tab_prev_alt"@[4] == 'p' && "tab_prev_alt"@.len() == 12);
}

/// Every submenu and every item of the hub's own in the menu bar is enabled, and each of these
/// items asks for something.
pub proof fn law_every_item_has_a_command(s: int, i: int)
    requires
        0 <= s < menu_bar().len(),
        0 <= i < menu_bar()[s].entries.len(),
    ensures
        menu_bar()[s].enabled,
        menu_bar()[s].entries[i] matches EntryModel::Item { id, enabled, .. } ==> enabled
            && command_of(id) != MenuCommand::Nothing,
{
    if s == 2 && i >= 8 {
        law_goto_item_selects_its_tab((i - 7) as nat);
        assert(menu_bar()[s].entries[i] == goto_entry((i - 7) as nat));
    }
}

/// An accelerator is known by its length and its last character.
spec fn accelerator_mark(accelerator: Seq<char>) -> (nat, char) {
    (accelerator.len(), accelerator.last())
}

/// The marks of the accelerators in the menu bar, by submenu and line.
proof fn lemma_accelerator_marks(s: int, i: int)
    requires
        0 <= s < menu_bar().len(),
        0 <= i < menu_bar()[s].entries.len(),
    ensures
        menu_bar()[s].entries[i] matches EntryModel::Item { accelerator, .. } ==> ({
            let mark = accelerator_mark(accelerator);
            ||| s == 0 && i == 0 && mark == (11nat, 'L')
            ||| s == 2 && i == 0 && mark == (11nat, 'T')
            ||| s == 2 && i == 1 && mark == (11nat, 'W')
            ||| s == 2 && i == 3 && mark == (8nat, 'b')
            ||| s == 2 && i == 4 && mark == (14nat, 'b')
            ||| s == 2 && i == 5 && mark == (19nat, 't')
            ||| s == 2 && i == 6 && mark == (18nat, 't')
            ||| s == 2 && 8 <= i < 17 && mark == (11nat, text::digit((i - 7) as nat))
        }),
{
    reveal_strlit("CmdOrCtrl+L");
    reveal_strlit("CmdOrCtrl+T");
    reveal_strlit("CmdOrCtrl+W");
    reveal_strlit("Ctrl+Tab");
    reveal_strlit("Ctrl+Shift+Tab");
    reveal_strlit("CmdOrCtrl+Alt+Right");
    reveal_strlit("CmdOrCtrl+Alt+Left");
    reveal_strlit("CmdOrCtrl+");
    if s == 2 && i >= 8 {
        assert(menu_bar()[s].entries[i] == goto_entry((i - 7) as nat));
        assert(text::decimal((i - 7) as nat) == seq![text::digit((i - 7) as nat)]);
    }
}

/// No two items share an accelerator.
pub proof fn law_accelerators_differ(s: int, i: int, t: int, j: int)
    requires
        0 <= s < menu_bar().len(),
        0 <= i < menu_bar()[s].entries.len(),
        0 <= t < menu_bar().len(),
        0 <= j < menu_bar()[t].entries.len(),
        (s, i) != (t, j),
    ensures
        menu_bar()[s].entries[i] matches EntryModel::Item { accelerator: a, .. } ==>
            menu_bar()[t].entries[j] matches EntryModel::Item { accelerator: b, .. } ==> a != b,
{
    lemma_accelerator_marks(s, i);
    lemma_accelerator_marks(t, j);
}

/// No item takes the key that selects all away from the page.
pub proof fn law_select_all_is_left_to_the_page(s: int, i: int)
    requires
        0 <= s < menu_bar().len(),
        0 <= i < menu_bar()[s].entries.len(),
    ensures
        menu_bar()[s].entries[i] matches EntryModel::Item { accelerator, .. } ==> accelerator
            != "CmdOrCtrl+A"@,
{
    reveal_strlit("CmdOrCtrl+A");
    lemma_accelerator_marks(s, i);
}

} // verus!
