//! The tabs of the hub: their order, which one is active, and what happens to them.

use vstd::prelude::*;

use crate::auth::{self, user_agent, VERSION};
use crate::effect::{no_effects, one_effect, Effect, EffectModel};
use crate::lists::{self, and_all, and_one};
use crate::text::{self, blank, join, parse_decimal, strip_prefix, to_decimal};

verus! {

/// The page that every new tab opens.
pub const START_URL: &'static str = "https://hub.planet-a-foods.com/";

/// One tab: its stable id and the title that its document had last.
#[derive(Debug, PartialEq, Eq)]
pub struct Tab {
    pub id: u32,
    pub title: String,
}

/// The model of [`Tab`].
pub struct TabModel {
    pub id: u32,
    pub title: Seq<char>,
}

impl DeepView for Tab {
    type V = TabModel;

    open spec fn deep_view(&self) -> TabModel {
        TabModel { id: self.id, title: self.title@ }
    }
}

impl Clone for Tab {
    fn clone(&self) -> (r: Self)
        ensures
            r.deep_view() == self.deep_view(),
    {
        Tab { id: self.id, title: self.title.clone() }
    }
}

/// The tab list as the tab strip renders it.
#[derive(Debug, PartialEq, Eq)]
pub struct TabsState {
    pub tabs: Vec<Tab>,
    pub active: Option<u32>,
}

/// The model of [`TabsState`].
pub struct StripModel {
    pub tabs: Seq<TabModel>,
    pub active: Option<u32>,
}

impl DeepView for TabsState {
    type V = StripModel;

    open spec fn deep_view(&self) -> StripModel {
        StripModel { tabs: self.tabs.deep_view(), active: self.active }
    }
}

/// The label of the content webview of tab `id`.
pub open spec fn label_of(id: u32) -> Seq<char> {
    "content-"@ + text::decimal(id as nat)
}

/// The tab whose content webview has the label `label`.
pub open spec fn id_of(label: Seq<char>) -> Option<u32> {
    match text::after_prefix(label, "content-"@) {
        Some(rest) => match text::parse_number(rest, u32::MAX as nat) {
            Some(n) => Some(n as u32),
            None => None,
        },
        None => None,
    }
}

/// The title that a tab shows for a document title.
pub open spec fn shown_title(title: Seq<char>) -> Seq<char> {
    if text::is_blank(title) {
        "Untitled"@
    } else {
        title
    }
}

/// The user agent of every content webview.
pub open spec fn agent() -> Seq<char> {
    auth::USER_AGENT_STEM@ + VERSION@
}

/// The model of [`TabManager`].
pub struct HubModel {
    pub tabs: Seq<TabModel>,
    pub active: Option<u32>,
    pub next_id: u32,
}

impl HubModel {
    /// Tabs stand in the order in which they were opened, each with an id of its own, and no id
    /// that was given out is given out again.
    pub open spec fn wf(self) -> bool {
        &&& forall|i: int, j: int|
            0 <= i < j < self.tabs.len() ==> (#[trigger] self.tabs[i]).id < (
            #[trigger] self.tabs[j]).id
        &&& forall|i: int|
            0 <= i < self.tabs.len() ==> (#[trigger] self.tabs[i]).id < self.next_id
        &&& self.active matches Some(id) ==> id < self.next_id
    }

    /// Tab `id` stands at position `i`.
    pub open spec fn at(self, i: int, id: u32) -> bool {
        0 <= i < self.tabs.len() && self.tabs[i].id == id
    }

    /// Tab `id` is open.
    pub open spec fn has(self, id: u32) -> bool {
        exists|i: int| self.at(i, id)
    }

    /// Where tab `id` stands.
    pub open spec fn position(self, id: u32) -> Option<int> {
        if self.has(id) {
            Some(choose|i: int| self.at(i, id))
        } else {
            None
        }
    }

    /// There is an id left for another tab.
    pub open spec fn can_open(self) -> bool {
        self.next_id < u32::MAX
    }

    /// Closing tab `id` would close the only tab, so that another one has to be opened.
    pub open spec fn is_only_tab(self, id: u32) -> bool {
        self.tabs.len() == 1 && self.tabs[0].id == id
    }

    /// One of the open tabs is the active one.
    pub open spec fn settled(self) -> bool {
        self.active matches Some(id) && self.has(id)
    }

    pub open spec fn snapshot(self) -> StripModel {
        StripModel { tabs: self.tabs, active: self.active }
    }

    /// Laying the window out: the strip, then the active tab.
    pub open spec fn layout(self) -> Seq<EffectModel> {
        match self.active {
            Some(id) => seq![
                EffectModel::PlaceStrip,
                EffectModel::PlaceContent { label: label_of(id) },
            ],
            None => seq![EffectModel::PlaceStrip],
        }
    }

    /// Showing tab `id` and hiding every other one, in tab order.
    pub open spec fn presenting(self, id: u32) -> Seq<EffectModel> {
        Seq::new(
            self.tabs.len(),
            |i: int|
                if self.tabs[i].id == id {
                    EffectModel::Show { label: label_of(self.tabs[i].id) }
                } else {
                    EffectModel::Hide { label: label_of(self.tabs[i].id) }
                },
        )
    }

    /// Tab `id` becomes the active one, where it is open.
    pub open spec fn selecting(self, id: u32) -> (HubModel, Seq<EffectModel>) {
        if self.has(id) {
            let next = HubModel { active: Some(id), ..self };
            (
                next,
                next.presenting(id) + next.layout() + seq![
                    EffectModel::Emit { state: next.snapshot() },
                ],
            )
        } else {
            (self, seq![])
        }
    }

    /// `selecting` where there is something to select.
    pub open spec fn selecting_any(self, id: Option<u32>) -> (HubModel, Seq<EffectModel>) {
        match id {
            Some(id) => self.selecting(id),
            None => (self, seq![]),
        }
    }

    /// A tab for `url` is appended, where there is a window for its webview.
    pub open spec fn opening(self, url: Seq<char>, window_open: bool) -> (
        HubModel,
        Seq<EffectModel>,
    ) {
        if window_open {
            (
                HubModel {
                    tabs: self.tabs.push(TabModel { id: self.next_id, title: "New Tab"@ }),
                    active: self.active,
                    next_id: (self.next_id + 1) as u32,
                },
                seq![
                    EffectModel::AddWebview {
                        id: self.next_id,
                        label: label_of(self.next_id),
                        url,
                        user_agent: agent(),
                    },
                ],
            )
        } else {
            (self, seq![])
        }
    }

    /// The webview of tab `id` was added, or could not be: once it is there the tab is selected.
    pub open spec fn receiving(self, id: u32, added: bool) -> (HubModel, Seq<EffectModel>) {
        if added {
            self.selecting(id)
        } else {
            (self, seq![])
        }
    }

    /// The tab list without the tab at position `i`.
    pub open spec fn without(self, i: int) -> HubModel {
        HubModel { tabs: self.tabs.remove(i), ..self }
    }

    /// The tab to activate once the one at position `i` is gone: the one that moved into its
    /// place, else the last one.
    pub open spec fn neighbour(self, i: int) -> u32 {
        let rest = self.without(i).tabs;
        if i < rest.len() {
            rest[i].id
        } else {
            rest.last().id
        }
    }

    /// Tab `id` is closed. If it was the active one a neighbour is activated; if it was the only
    /// one a fresh hub tab is opened.
    pub open spec fn closing(self, id: u32, window_open: bool) -> (HubModel, Seq<EffectModel>) {
        match self.position(id) {
            None => (self, seq![]),
            Some(i) => {
                let rest = self.without(i);
                let (next, effects) = if rest.tabs.len() == 0 {
                    rest.opening(START_URL@, window_open)
                } else if self.active == Some(id) {
                    rest.selecting(self.neighbour(i))
                } else {
                    (rest, seq![EffectModel::Emit { state: rest.snapshot() }])
                };
                (next, seq![EffectModel::Close { label: label_of(id) }] + effects)
            },
        }
    }

    /// The active tab, where there is one, is closed.
    pub open spec fn closing_active(self, window_open: bool) -> (HubModel, Seq<EffectModel>) {
        match self.active {
            Some(id) => self.closing(id, window_open),
            None => (self, seq![]),
        }
    }

    /// The webview with the label `label` reports the document title `title`.
    pub open spec fn retitling(self, label: Seq<char>, title: Seq<char>) -> (
        HubModel,
        Seq<EffectModel>,
    ) {
        match id_of(label) {
            None => (self, seq![]),
            Some(id) => {
                let next = match self.position(id) {
                    Some(i) => HubModel {
                        tabs: self.tabs.update(i, TabModel { id, title: shown_title(title) }),
                        ..self
                    },
                    None => self,
                };
                (next, seq![EffectModel::Emit { state: next.snapshot() }])
            },
        }
    }

    /// Where the active tab stands; the first place if there is none.
    pub open spec fn current(self) -> int {
        match self.active {
            Some(id) => match self.position(id) {
                Some(i) => i,
                None => 0,
            },
            None => 0,
        }
    }

    /// The tab `delta` places from the active one, going round at the ends.
    pub open spec fn cycle_target(self, delta: int) -> Option<u32> {
        if self.tabs.len() == 0 {
            None
        } else {
            Some(self.tabs[(self.current() + delta) % (self.tabs.len() as int)].id)
        }
    }

    /// The `n`th tab, counted from one; from nine on the last tab.
    pub open spec fn goto_target(self, n: int) -> Option<u32> {
        if self.tabs.len() == 0 {
            None
        } else if n >= 9 {
            Some(self.tabs.last().id)
        } else if 1 <= n <= self.tabs.len() {
            Some(self.tabs[n - 1].id)
        } else {
            None
        }
    }
}

/// Ids that differ stand at positions that differ, so a tab has one position.
pub proof fn lemma_position(hub: HubModel, i: int, id: u32)
    requires
        hub.wf(),
        hub.at(i, id),
    ensures
        hub.position(id) == Some(i),
{
    let k = choose|k: int| hub.at(k, id);
    assert(hub.at(k, id));
    if k < i {
        assert(hub.tabs[k].id < hub.tabs[i].id);
    } else if i < k {
        assert(hub.tabs[i].id < hub.tabs[k].id);
    }
}

/// Selecting an open tab keeps the tab list in order.
proof fn lemma_selected(hub: HubModel, id: u32)
    requires
        hub.wf(),
        hub.has(id),
    ensures
        (HubModel { active: Some(id), ..hub }).wf(),
{
}

/// A new tab goes behind all others in id and place.
pub proof fn lemma_opened(hub: HubModel, url: Seq<char>)
    requires
        hub.wf(),
        hub.can_open(),
    ensures
        hub.opening(url, true).0.wf(),
{
    let next = hub.opening(url, true).0;
    assert forall|i: int, j: int| 0 <= i < j < next.tabs.len() implies (#[trigger] next.tabs[i]).id
        < (#[trigger] next.tabs[j]).id by {
        assert(next.tabs[i] == hub.tabs[i]);
        if j < hub.tabs.len() {
            assert(next.tabs[j] == hub.tabs[j]);
        }
    }
    assert forall|i: int| 0 <= i < next.tabs.len() implies (#[trigger] next.tabs[i]).id
        < next.next_id by {
        if i < hub.tabs.len() {
            assert(next.tabs[i] == hub.tabs[i]);
        }
    }
}

/// Removing a tab keeps the others in order.
pub proof fn lemma_removed(hub: HubModel, i: int)
    requires
        hub.wf(),
        0 <= i < hub.tabs.len(),
    ensures
        hub.without(i).wf(),
{
    let rest = hub.without(i);
    assert forall|a: int, b: int| 0 <= a < b < rest.tabs.len() implies (#[trigger] rest.tabs[a]).id
        < (#[trigger] rest.tabs[b]).id by {
        let from_a = if a < i { a } else { a + 1 };
        let from_b = if b < i { b } else { b + 1 };
        assert(rest.tabs[a] == hub.tabs[from_a]);
        assert(rest.tabs[b] == hub.tabs[from_b]);
    }
    assert forall|a: int| 0 <= a < rest.tabs.len() implies (#[trigger] rest.tabs[a]).id
        < rest.next_id by {
        let from_a = if a < i { a } else { a + 1 };
        assert(rest.tabs[a] == hub.tabs[from_a]);
    }
}

/// A new title keeps the tabs in order.
proof fn lemma_retitled(hub: HubModel, i: int, tab: TabModel)
    requires
        hub.wf(),
        hub.at(i, tab.id),
    ensures
        (HubModel { tabs: hub.tabs.update(i, tab), ..hub }).wf(),
{
    let next = HubModel { tabs: hub.tabs.update(i, tab), ..hub };
    assert forall|k: int| 0 <= k < next.tabs.len() implies (#[trigger] next.tabs[k]).id
        == hub.tabs[k].id by {}
}

/// There are no more tabs than ids that were given out.
proof fn lemma_len_bounded(hub: HubModel)
    requires
        hub.wf(),
    ensures
        hub.tabs.len() <= hub.next_id,
{
    if hub.tabs.len() > 0 {
        lemma_id_at_least(hub, hub.tabs.len() - 1);
    }
}

/// The ids before position `i` are all smaller, so the one there is at least `i`.
proof fn lemma_id_at_least(hub: HubModel, i: int)
    requires
        hub.wf(),
        0 <= i < hub.tabs.len(),
    ensures
        hub.tabs[i].id >= i,
    decreases i,
{
    if i > 0 {
        lemma_id_at_least(hub, i - 1);
        assert(hub.tabs[i - 1].id < hub.tabs[i].id);
    }
}

/// Going `delta` places on a ring of `len`, in terms of the size of `delta`.
proof fn lemma_round(current: int, delta: int, len: int, size: int)
    requires
        len > 0,
        size == if delta < 0 { -delta } else { delta },
    ensures
        delta < 0 ==> (current + (len - size % len)) % len == (current + delta) % len,
        delta >= 0 ==> (current + size % len) % len == (current + delta) % len,
{
    let q = size / len;
    assert(size == q * len + size % len) by {
        vstd::arithmetic::div_mod::lemma_fundamental_div_mod(size, len);
        vstd::arithmetic::mul::lemma_mul_is_commutative(len, q);
    }
    if delta < 0 {
        assert(current + (len - size % len) == (q + 1) * len + (current + delta)) by {
            vstd::arithmetic::mul::lemma_mul_is_distributive_add_other_way(len, q, 1);
        }
        vstd::arithmetic::div_mod::lemma_mod_multiples_vanish(q + 1, current + delta, len);
        vstd::arithmetic::mul::lemma_mul_is_commutative(len, q + 1);
    } else {
        assert(current + delta == q * len + (current + size % len));
        vstd::arithmetic::div_mod::lemma_mod_multiples_vanish(q, current + size % len, len);
        vstd::arithmetic::mul::lemma_mul_is_commutative(len, q);
    }
}

/// The label of the content webview of tab `id`.
pub fn content_label(id: u32) -> (r: String)
    ensures
        r@ == label_of(id),
{
    join("content-", &to_decimal(id as u64))
}

/// Owns the order of the tabs, the active tab and the id counter.
#[derive(Debug)]
pub struct TabManager {
    tabs: Vec<Tab>,
    active: Option<u32>,
    next_id: u32,
}

impl View for TabManager {
    type V = HubModel;

    closed spec fn view(&self) -> HubModel {
        HubModel { tabs: self.tabs.deep_view(), active: self.active, next_id: self.next_id }
    }
}

impl Default for TabManager {
    /// No tabs.
    fn default() -> (r: Self)
        ensures
            r@.tabs == Seq::<TabModel>::empty(),
            r@.active is None,
            r@.next_id == 0,
            r@.wf(),
    {
        let r = TabManager { tabs: Vec::new(), active: None, next_id: 0 };
        assert(r@.tabs =~= Seq::<TabModel>::empty());
        r
    }
}

impl TabManager {
    /// The tab list for the tab strip.
    pub fn snapshot(&self) -> (r: TabsState)
        ensures
            r.deep_view() == self@.snapshot(),
    {
        let mut tabs: Vec<Tab> = Vec::new();
        let mut i: usize = 0;
        while i < self.tabs.len()
            invariant
                i <= self.tabs@.len(),
                tabs.deep_view() == self.tabs.deep_view().take(i as int),
            decreases self.tabs@.len() - i,
        {
            let copy = self.tabs[i].clone();
            let ghost before = tabs;
            tabs.push(copy);
            proof {
                lists::lemma_pushed(before, tabs, copy);
            }
            assert(tabs.deep_view() =~= self.tabs.deep_view().take(i + 1));
            i += 1;
        }
        assert(self.tabs.deep_view().take(i as int) =~= self.tabs.deep_view());
        TabsState { tabs, active: self.active }
    }

    /// Where tab `id` stands.
    pub fn index_of(&self, id: u32) -> (r: Option<usize>)
        requires
            self@.wf(),
        ensures
            r is Some <==> self@.has(id),
            r matches Some(i) ==> self@.at(i as int, id) && self@.position(id) == Some(i as int),
    {
        let mut i: usize = 0;
        while i < self.tabs.len()
            invariant
                self@.wf(),
                i <= self.tabs@.len(),
                forall|k: int| 0 <= k < i ==> (#[trigger] self@.tabs[k]).id != id,
            decreases self.tabs@.len() - i,
        {
            assert(self@.tabs[i as int] == self.tabs@[i as int].deep_view());
            if self.tabs[i].id == id {
                proof {
                    lemma_position(self@, i as int, id);
                }
                return Some(i);
            }
            i += 1;
        }
        None
    }

    /// Whether there is an id left for another tab.
    pub fn can_open(&self) -> (r: bool)
        ensures
            r == self@.can_open(),
    {
        self.next_id < u32::MAX
    }

    /// The active tab.
    pub fn active(&self) -> (r: Option<u32>)
        ensures
            r == self@.active,
    {
        self.active
    }

    /// The effects that lay the window out again, on creation and on resize.
    pub fn relayout(&self) -> (r: Vec<Effect>)
        ensures
            r.deep_view() == self@.layout(),
    {
        let effects = one_effect(Effect::PlaceStrip);
        match self.active {
            Some(id) => {
                let effects = and_one(effects, Effect::PlaceContent { label: content_label(id) });
                assert(effects.deep_view() =~= self@.layout());
                effects
            },
            None => effects,
        }
    }

    /// Makes tab `id` the active one: its webview is shown and focused, every other one hidden,
    /// the window laid out again and the tab strip told. Nothing happens if there is no such tab.
    pub fn switch_tab(&mut self, id: u32) -> (effects: Vec<Effect>)
        requires
            old(self)@.wf(),
        ensures
            final(self)@.wf(),
            (final(self)@, effects.deep_view()) == old(self)@.selecting(id),
    {
        if self.index_of(id).is_none() {
            return no_effects();
        }
        self.active = Some(id);
        let ghost hub = self@;
        assert(hub == (HubModel { active: Some(id), ..old(self)@ }));
        assert(hub.wf()) by {
            lemma_selected(old(self)@, id);
        }
        let mut effects = no_effects();
        assert(hub.presenting(id).take(0) =~= Seq::empty());
        let mut i: usize = 0;
        while i < self.tabs.len()
            invariant
                i <= self.tabs@.len(),
                self@ == hub,
                effects.deep_view() == hub.presenting(id).take(i as int),
            decreases self.tabs@.len() - i,
        {
            assert(hub.tabs[i as int] == self.tabs@[i as int].deep_view());
            let other: u32 = self.tabs[i].id;
            let label = content_label(other);
            let next = if other == id {
                Effect::Show { label }
            } else {
                Effect::Hide { label }
            };
            effects = and_one(effects, next);
            assert(effects.deep_view() =~= hub.presenting(id).take(i + 1));
            i += 1;
        }
        assert(hub.presenting(id).take(i as int) =~= hub.presenting(id));
        let effects = and_all(effects, self.relayout());
        let effects = and_one(effects, Effect::Emit { state: self.snapshot() });
        assert(effects.deep_view() =~= old(self)@.selecting(id).1);
        effects
    }

    /// Appends a tab for `url` and asks for its webview, where there is a window to hold one.
    /// The tab is not selected yet: that waits until the webview is there.
    pub fn create_tab(&mut self, url: &str, window_open: bool) -> (effects: Vec<Effect>)
        requires
            old(self)@.wf(),
            window_open ==> old(self)@.can_open(),
        ensures
            final(self)@.wf(),
            (final(self)@, effects.deep_view()) == old(self)@.opening(url@, window_open),
    {
        if !window_open {
            return no_effects();
        }
        let id: u32 = self.next_id;
        let tab = Tab { id, title: "New Tab".to_owned() };
        let ghost before = self.tabs;
        self.tabs.push(tab);
        self.next_id = id + 1;
        proof {
            lists::lemma_pushed(before, self.tabs, tab);
            assert(self@.tabs =~= old(self)@.opening(url@, true).0.tabs);
            lemma_opened(old(self)@, url@);
        }
        one_effect(
            Effect::AddWebview {
                id,
                label: content_label(id),
                url: url.to_owned(),
                user_agent: user_agent(VERSION),
            },
        )
    }

    /// Takes note that the webview of tab `id` was added, or could not be. Once it is there the
    /// tab becomes the active one; without it the tab stays in the list as it is.
    pub fn webview_added(&mut self, id: u32, added: bool) -> (effects: Vec<Effect>)
        requires
            old(self)@.wf(),
        ensures
            final(self)@.wf(),
            (final(self)@, effects.deep_view()) == old(self)@.receiving(id, added),
    {
        if added {
            self.switch_tab(id)
        } else {
            no_effects()
        }
    }

    /// Opens a fresh hub tab.
    pub fn new_tab(&mut self, window_open: bool) -> (effects: Vec<Effect>)
        requires
            old(self)@.wf(),
            window_open ==> old(self)@.can_open(),
        ensures
            final(self)@.wf(),
            (final(self)@, effects.deep_view()) == old(self)@.opening(START_URL@, window_open),
    {
        self.create_tab(START_URL, window_open)
    }

    /// Closes tab `id`: its webview is destroyed and it leaves the list. If it was the active tab
    /// a neighbour becomes active; if it was the only tab a fresh hub tab is opened, so that the
    /// window is never left empty. Nothing happens if there is no such tab.
    pub fn close_tab(&mut self, id: u32, window_open: bool) -> (effects: Vec<Effect>)
        requires
            old(self)@.wf(),
            window_open && old(self)@.is_only_tab(id) ==> old(self)@.can_open(),
        ensures
            final(self)@.wf(),
            (final(self)@, effects.deep_view()) == old(self)@.closing(id, window_open),
    {
        let ghost hub = self@;
        match self.index_of(id) {
            None => no_effects(),
            Some(idx) => {
                assert(hub.tabs[idx as int] == self.tabs@[idx as int].deep_view());
                let was_active = match self.active {
                    Some(active) => active == id,
                    None => false,
                };
                let ghost before = self.tabs;
                let _ = self.tabs.remove(idx);
                let ghost rest = hub.without(idx as int);
                proof {
                    assert(self@.tabs =~= rest.tabs) by {
                        assert forall|k: int| 0 <= k < self.tabs@.len() implies self@.tabs[k]
                            == rest.tabs[k] by {
                            if k < idx {
                                assert(self.tabs@[k] == before@[k]);
                            } else {
                                assert(self.tabs@[k] == before@[k + 1]);
                            }
                        }
                    }
                    lemma_removed(hub, idx as int);
                }
                let closed = one_effect(Effect::Close { label: content_label(id) });
                let more = if self.tabs.len() == 0 {
                    assert(hub.tabs.len() == 1);
                    self.new_tab(window_open)
                } else if was_active {
                    let next: usize = if idx < self.tabs.len() {
                        idx
                    } else {
                        self.tabs.len() - 1
                    };
                    let next_id: u32 = self.tabs[next].id;
                    assert(rest.tabs[next as int] == self.tabs@[next as int].deep_view());
                    self.switch_tab(next_id)
                } else {
                    one_effect(Effect::Emit { state: self.snapshot() })
                };
                and_all(closed, more)
            },
        }
    }

    /// Closes the active tab.
    pub fn close_active_tab(&mut self, window_open: bool) -> (effects: Vec<Effect>)
        requires
            old(self)@.wf(),
            old(self)@.active matches Some(id) ==> window_open && old(self)@.is_only_tab(id)
                ==> old(self)@.can_open(),
        ensures
            final(self)@.wf(),
            (final(self)@, effects.deep_view()) == old(self)@.closing_active(window_open),
    {
        match self.active {
            Some(id) => self.close_tab(id, window_open),
            None => no_effects(),
        }
    }

    /// Gives the tab that owns the webview `label` the title `title`, or a stand-in where that
    /// is blank, and tells the tab strip. Nothing happens if the label is not that of a tab.
    pub fn update_title(&mut self, label: &str, title: String) -> (effects: Vec<Effect>)
        requires
            old(self)@.wf(),
        ensures
            final(self)@.wf(),
            (final(self)@, effects.deep_view()) == old(self)@.retitling(label@, title@),
    {
        let ghost hub = self@;
        let id: u32 = match strip_prefix(label, "content-") {
            Some(rest) => match parse_decimal(&rest, u32::MAX as u64) {
                Some(n) => n as u32,
                None => {
                    return no_effects();
                },
            },
            None => {
                return no_effects();
            },
        };
        assert(id_of(label@) == Some(id));
        if let Some(idx) = self.index_of(id) {
            let shown = if blank(&title) {
                "Untitled".to_owned()
            } else {
                title
            };
            let tab = Tab { id, title: shown };
            let ghost before = self.tabs;
            self.tabs.set(idx, tab);
            proof {
                let next = hub.retitling(label@, title@).0;
                assert forall|k: int| 0 <= k < self.tabs@.len() implies self@.tabs[k]
                    == next.tabs[k] by {
                    if k != idx {
                        assert(self.tabs@[k] == before@[k]);
                    }
                }
                assert(self@.tabs =~= next.tabs);
                lemma_retitled(hub, idx as int, tab.deep_view());
            }
        }
        one_effect(Effect::Emit { state: self.snapshot() })
    }

    /// Selects the tab `delta` places from the active one, going round at the ends.
    pub fn cycle_tab(&mut self, delta: i32) -> (effects: Vec<Effect>)
        requires
            old(self)@.wf(),
        ensures
            final(self)@.wf(),
            (final(self)@, effects.deep_view()) == old(self)@.selecting_any(
                old(self)@.cycle_target(delta as int),
            ),
    {
        if self.tabs.len() == 0 {
            return no_effects();
        }
        proof {
            lemma_len_bounded(self@);
        }
        let len: u64 = self.tabs.len() as u64;
        let current: u64 = match self.active {
            Some(id) => match self.index_of(id) {
                Some(i) => i as u64,
                None => 0,
            },
            None => 0,
        };
        let size: u64 = if delta < 0 {
            (-(delta as i64)) as u64
        } else {
            delta as u64
        };
        let steps: u64 = size % len;
        let next: u64 = if delta < 0 {
            (current + (len - steps)) % len
        } else {
            (current + steps) % len
        };
        proof {
            lemma_round(current as int, delta as int, len as int, size as int);
        }
        let id: u32 = self.tabs[next as usize].id;
        assert(self@.tabs[next as int] == self.tabs@[next as int].deep_view());
        self.switch_tab(id)
    }

    /// Selects the `n`th tab, counted from one; from nine on the last tab. Nothing happens if
    /// there is no such tab.
    pub fn goto_tab(&mut self, n: usize) -> (effects: Vec<Effect>)
        requires
            old(self)@.wf(),
        ensures
            final(self)@.wf(),
            (final(self)@, effects.deep_view()) == old(self)@.selecting_any(
                old(self)@.goto_target(n as int),
            ),
    {
        let len: usize = self.tabs.len();
        if len == 0 {
            return no_effects();
        }
        let at: usize = if n >= 9 {
            len - 1
        } else if n >= 1 && n <= len {
            n - 1
        } else {
            return no_effects();
        };
        let id: u32 = self.tabs[at].id;
        assert(self@.tabs[at as int] == self.tabs@[at as int].deep_view());
        self.switch_tab(id)
    }
}

/// The label of a tab's webview leads back to the tab.
pub proof fn law_label_round_trip(id: u32)
    ensures
        id_of(label_of(id)) == Some(id),
{
    text::law_prefix_round_trip("content-"@, text::decimal(id as nat));
    text::law_decimal_round_trip(id as nat, u32::MAX as nat);
}

/// Two tabs never share a webview label.
pub proof fn law_labels_differ(a: u32, b: u32)
    requires
        a != b,
    ensures
        label_of(a) != label_of(b),
{
    law_label_round_trip(a);
    law_label_round_trip(b);
}

/// Two positions never hold the same tab.
pub proof fn law_ids_are_distinct(hub: HubModel, i: int, j: int)
    requires
        hub.wf(),
        0 <= i < hub.tabs.len(),
        0 <= j < hub.tabs.len(),
        i != j,
    ensures
        hub.tabs[i].id != hub.tabs[j].id,
{
    if i < j {
        assert(hub.tabs[i].id < hub.tabs[j].id);
    } else {
        assert(hub.tabs[j].id < hub.tabs[i].id);
    }
}

/// Selecting an open tab makes it the active one and leaves the tab list alone. Of all content
/// webviews its own is shown, and every other one is hidden.
pub proof fn law_select_shows_one_tab(hub: HubModel, id: u32)
    requires
        hub.wf(),
        hub.has(id),
    ensures
        hub.selecting(id).0.settled(),
        hub.selecting(id).0.active == Some(id),
        hub.selecting(id).0.tabs == hub.tabs,
        hub.position(id) matches Some(i) && 0 <= i < hub.tabs.len() && hub.selecting(id).1[i] == (
        EffectModel::Show { label: label_of(id) }),
        forall|k: int|
            0 <= k < hub.tabs.len() && hub.position(id) != Some(k) ==> (#[trigger] hub.selecting(
                id,
            ).1[k]) == (EffectModel::Hide { label: label_of(hub.tabs[k].id) }),
{
    let i = choose|i: int| hub.at(i, id);
    lemma_position(hub, i, id);
    let next = hub.selecting(id).0;
    assert(next.at(i, id));
    assert forall|k: int| 0 <= k < hub.tabs.len() && k != i implies (#[trigger] hub.selecting(
        id,
    ).1[k]) == (EffectModel::Hide { label: label_of(hub.tabs[k].id) }) by {
        law_ids_are_distinct(hub, i, k);
    }
}

/// A new tab goes to the end, under an id that no tab has had before, and changes nothing about
/// the others. Once its webview is there it is the active tab.
pub proof fn law_new_tab_is_fresh(hub: HubModel, url: Seq<char>)
    requires
        hub.wf(),
        hub.can_open(),
    ensures
        !hub.has(hub.next_id),
        hub.active != Some(hub.next_id),
        hub.opening(url, true).0.has(hub.next_id),
        hub.opening(url, true).0.tabs.drop_last() == hub.tabs,
        hub.opening(url, true).0.receiving(hub.next_id, true).0.settled(),
        hub.opening(url, true).0.receiving(hub.next_id, true).0.active == Some(hub.next_id),
{
    let next = hub.opening(url, true).0;
    assert(next.at(hub.tabs.len() as int, hub.next_id));
    assert(next.tabs.drop_last() =~= hub.tabs);
    assert(next.receiving(hub.next_id, true).0.at(hub.tabs.len() as int, hub.next_id));
}

/// A tab that is closed is gone, and every other tab stays.
pub proof fn law_close_removes_only_that_tab(hub: HubModel, id: u32, other: u32, window_open: bool)
    requires
        hub.wf(),
        window_open && hub.is_only_tab(id) ==> hub.can_open(),
        other != id,
    ensures
        !hub.closing(id, window_open).0.has(id),
        hub.has(other) ==> hub.closing(id, window_open).0.has(other),
{
    if hub.has(id) {
        let i = choose|i: int| hub.at(i, id);
        lemma_position(hub, i, id);
        let rest = hub.without(i);
        let next = hub.closing(id, window_open).0;
        if rest.has(id) {
            let k = choose|k: int| rest.at(k, id);
            let from_k = if k < i { k } else { k + 1 };
            assert(rest.tabs[k] == hub.tabs[from_k]);
            law_ids_are_distinct(hub, i, from_k);
        }
        if next.has(id) {
            let k = choose|k: int| next.at(k, id);
            if rest.tabs.len() > 0 {
                assert(rest.at(k, id));
            }
        }
        if hub.has(other) {
            let k = choose|k: int| hub.at(k, other);
            let to_k = if k < i { k } else { k - 1 };
            assert(rest.tabs[to_k] == hub.tabs[k]);
            assert(next.at(to_k, other));
        }
    }
}

/// Closing the active tab while there are others activates the tab behind it, or, if it was the
/// last one, the tab before it.
pub proof fn law_close_active_selects_neighbour(hub: HubModel, i: int, window_open: bool)
    requires
        hub.wf(),
        hub.tabs.len() > 1,
        0 <= i < hub.tabs.len(),
        hub.active == Some(hub.tabs[i].id),
    ensures
        hub.closing_active(window_open).0.settled(),
        hub.closing_active(window_open).0.active == Some(
            if i + 1 < hub.tabs.len() {
                hub.tabs[i + 1].id
            } else {
                hub.tabs[i - 1].id
            },
        ),
{
    let id = hub.tabs[i].id;
    assert(hub.at(i, id));
    lemma_position(hub, i, id);
    let rest = hub.without(i);
    let k = if i < rest.tabs.len() { i } else { rest.tabs.len() - 1 };
    assert(rest.tabs[k] == hub.tabs[if i + 1 < hub.tabs.len() { i + 1 } else { i - 1 }]);
    assert(rest.at(k, hub.neighbour(i)));
    assert(rest.selecting(hub.neighbour(i)).0.at(k, hub.neighbour(i)));
}

/// Closing a tab that is not the active one leaves the active one as it is.
pub proof fn law_close_background_keeps_active(hub: HubModel, id: u32, window_open: bool)
    requires
        hub.wf(),
        hub.settled(),
        hub.active != Some(id),
    ensures
        hub.closing(id, window_open).0.active == hub.active,
        hub.closing(id, window_open).0.settled(),
{
    let active = hub.active->0;
    if hub.has(id) {
        let i = choose|i: int| hub.at(i, id);
        lemma_position(hub, i, id);
        let k = choose|k: int| hub.at(k, active);
        let rest = hub.without(i);
        let to_k = if k < i { k } else { k - 1 };
        assert(rest.tabs[to_k] == hub.tabs[k]);
        assert(rest.at(to_k, active));
    }
}

/// While there is a window, closing tabs never leaves it without one: closing the only tab opens
/// a fresh one on the start page.
pub proof fn law_close_never_leaves_no_tab(hub: HubModel, id: u32)
    requires
        hub.wf(),
        hub.tabs.len() > 0,
        hub.is_only_tab(id) ==> hub.can_open(),
    ensures
        hub.closing(id, true).0.tabs.len() > 0,
        hub.is_only_tab(id) ==> hub.closing(id, true).0.tabs == seq![
            TabModel { id: hub.next_id, title: "New Tab"@ },
        ] && hub.closing(id, true).1 == seq![
            EffectModel::Close { label: label_of(id) },
            EffectModel::AddWebview {
                id: hub.next_id,
                label: label_of(hub.next_id),
                url: START_URL@,
                user_agent: agent(),
            },
        ],
{
    if hub.has(id) {
        let i = choose|i: int| hub.at(i, id);
        lemma_position(hub, i, id);
    }
    if hub.is_only_tab(id) {
        assert(hub.at(0, id));
        lemma_position(hub, 0, id);
        assert(hub.closing(id, true).0.tabs =~= seq![
            TabModel { id: hub.next_id, title: "New Tab"@ },
        ]);
        assert(hub.closing(id, true).1 =~= seq![
            EffectModel::Close { label: label_of(id) },
            EffectModel::AddWebview {
                id: hub.next_id,
                label: label_of(hub.next_id),
                url: START_URL@,
                user_agent: agent(),
            },
        ]);
    }
}

/// Where the active tab stands after the tab at position `i` was selected.
proof fn lemma_current(hub: HubModel, i: int)
    requires
        hub.wf(),
        0 <= i < hub.tabs.len(),
    ensures
        hub.has(hub.tabs[i].id),
        hub.selecting(hub.tabs[i].id).0.wf(),
        hub.selecting(hub.tabs[i].id).0.current() == i,
{
    let id = hub.tabs[i].id;
    assert(hub.at(i, id));
    lemma_selected(hub, id);
    let next = hub.selecting(id).0;
    assert(next.at(i, id));
    lemma_position(next, i, id);
}

/// While there are tabs, going on or back leads to an open tab, and so does going to the last;
/// whichever is gone to, it is the active one afterwards.
pub proof fn law_targets_are_open(hub: HubModel, delta: int, n: int)
    requires
        hub.wf(),
        hub.tabs.len() > 0,
    ensures
        hub.cycle_target(delta) matches Some(id) && hub.has(id),
        hub.selecting_any(hub.cycle_target(delta)).0.settled(),
        n >= 9 ==> hub.goto_target(n) == Some(hub.tabs.last().id),
        hub.goto_target(n) matches Some(id) ==> hub.has(id) && hub.selecting_any(
            hub.goto_target(n),
        ).0.settled(),
{
    let len = hub.tabs.len() as int;
    let i = (hub.current() + delta) % len;
    vstd::arithmetic::div_mod::lemma_mod_bound(hub.current() + delta, len);
    assert(hub.at(i, hub.tabs[i].id));
    law_select_shows_one_tab(hub, hub.tabs[i].id);
    if n >= 9 {
        assert(hub.at(len - 1, hub.tabs[len - 1].id));
        law_select_shows_one_tab(hub, hub.tabs[len - 1].id);
    } else if 1 <= n <= len {
        assert(hub.at(n - 1, hub.tabs[n - 1].id));
        law_select_shows_one_tab(hub, hub.tabs[n - 1].id);
    }
}

/// Going `delta` tabs on and the same number back ends at the tab where it started.
pub proof fn law_cycle_back(hub: HubModel, delta: int)
    requires
        hub.wf(),
        hub.settled(),
    ensures
        ({
            let there = hub.selecting_any(hub.cycle_target(delta)).0;
            there.selecting_any(there.cycle_target(-delta)).0 == hub
        }),
{
    let active = hub.active->0;
    let len = hub.tabs.len() as int;
    let start = choose|i: int| hub.at(i, active);
    lemma_position(hub, start, active);
    let i = (start + delta) % len;
    vstd::arithmetic::div_mod::lemma_mod_bound(start + delta, len);
    lemma_current(hub, i);
    let there = hub.selecting_any(hub.cycle_target(delta)).0;
    assert((i - delta) % len == start) by {
        vstd::arithmetic::div_mod::lemma_sub_mod_noop(start + delta, delta, len);
        vstd::arithmetic::div_mod::lemma_sub_mod_noop(i, delta, len);
        vstd::arithmetic::div_mod::lemma_mod_twice(start + delta, len);
        vstd::arithmetic::div_mod::lemma_small_mod(start as nat, len as nat);
    }
    assert(there.at(start, active));
}

/// Going on twice, or back, is going on by the sum.
pub proof fn law_cycles_add_up(hub: HubModel, a: int, b: int)
    requires
        hub.wf(),
    ensures
        ({
            let there = hub.selecting_any(hub.cycle_target(a)).0;
            &&& there.cycle_target(b) == hub.cycle_target(a + b)
            &&& there.selecting_any(there.cycle_target(b)) == hub.selecting_any(
                hub.cycle_target(a + b),
            )
        }),
{
    let there = hub.selecting_any(hub.cycle_target(a)).0;
    if hub.tabs.len() > 0 {
        let len = hub.tabs.len() as int;
        let start = hub.current();
        let i = (start + a) % len;
        vstd::arithmetic::div_mod::lemma_mod_bound(start + a, len);
        lemma_current(hub, i);
        vstd::arithmetic::div_mod::lemma_add_mod_noop(start + a, b, len);
        vstd::arithmetic::div_mod::lemma_add_mod_noop(i, b, len);
        vstd::arithmetic::div_mod::lemma_mod_twice(start + a, len);
        let k = (start + a + b) % len;
        vstd::arithmetic::div_mod::lemma_mod_bound(start + a + b, len);
        assert(there.tabs[k].id == hub.tabs[k].id);
        assert(hub.at(k, hub.tabs[k].id));
        assert(there.at(k, hub.tabs[k].id));
        let to = hub.tabs[k].id;
        assert(there.selecting(to).1 =~= hub.selecting(to).1);
    }
}

/// Going one tab on from the last tab leads to the first, and one back from the first to the
/// last; in between it leads to the tab next to the active one.
pub proof fn law_cycle_goes_round(hub: HubModel, i: int)
    requires
        hub.wf(),
        0 <= i < hub.tabs.len(),
        hub.active == Some(hub.tabs[i].id),
    ensures
        hub.cycle_target(1) == Some(
            if i + 1 < hub.tabs.len() {
                hub.tabs[i + 1].id
            } else {
                hub.tabs[0].id
            },
        ),
        hub.cycle_target(-1) == Some(
            if i > 0 {
                hub.tabs[i - 1].id
            } else {
                hub.tabs.last().id
            },
        ),
{
    let len = hub.tabs.len() as int;
    assert(hub.at(i, hub.tabs[i].id));
    lemma_position(hub, i, hub.tabs[i].id);
    if i + 1 < len {
        vstd::arithmetic::div_mod::lemma_small_mod((i + 1) as nat, len as nat);
    } else {
        vstd::arithmetic::div_mod::lemma_mod_self_0(len);
    }
    if i > 0 {
        vstd::arithmetic::div_mod::lemma_small_mod((i - 1) as nat, len as nat);
    } else {
        vstd::arithmetic::div_mod::lemma_mod_multiples_vanish(1, -1, len);
        vstd::arithmetic::div_mod::lemma_small_mod((len - 1) as nat, len as nat);
    }
}

/// A title that a webview reports reaches the tab that owns it, in a form that is never blank,
/// and no other tab.
pub proof fn law_title_reaches_its_tab(hub: HubModel, i: int, title: Seq<char>)
    requires
        hub.wf(),
        0 <= i < hub.tabs.len(),
    ensures
        !text::is_blank(shown_title(title)),
        ({
            let next = hub.retitling(label_of(hub.tabs[i].id), title).0;
            next == (HubModel {
                tabs: hub.tabs.update(
                    i,
                    TabModel { id: hub.tabs[i].id, title: shown_title(title) },
                ),
                ..hub
            })
        }),
{
    let id = hub.tabs[i].id;
    law_label_round_trip(id);
    assert(hub.at(i, id));
    lemma_position(hub, i, id);
    reveal_strlit("Untitled");
    assert(!text::is_white("Untitled"@[0]));
}

/// A new title leaves every tab in its place, and the active one active.
proof fn lemma_retitling_keeps_settled(hub: HubModel, label: Seq<char>, title: Seq<char>)
    requires
        hub.wf(),
        hub.settled(),
    ensures
        hub.retitling(label, title).0.settled(),
{
    let next = hub.retitling(label, title).0;
    let active = hub.active->0;
    let k = choose|k: int| hub.at(k, active);
    if let Some(id) = id_of(label) {
        if hub.has(id) {
            let i = choose|i: int| hub.at(i, id);
            lemma_position(hub, i, id);
        }
    }
    assert(next.at(k, active));
}

/// An open tab is always active: whatever happens to the tabs, one of those that are open then is
/// the active one. Where the only tab is closed that is so once the webview of the fresh tab is
/// there; where there is no window for one, no tab is left.
pub proof fn law_an_open_tab_is_active(
    hub: HubModel,
    id: u32,
    url: Seq<char>,
    window_open: bool,
    added: bool,
    label: Seq<char>,
    title: Seq<char>,
    delta: int,
    n: int,
)
    requires
        hub.wf(),
        hub.settled(),
        window_open ==> hub.can_open(),
    ensures
        hub.selecting(id).0.settled(),
        hub.opening(url, window_open).0.settled(),
        hub.opening(url, window_open).0.receiving(hub.next_id, added).0.settled(),
        hub.receiving(id, added).0.settled(),
        hub.retitling(label, title).0.settled(),
        hub.selecting_any(hub.cycle_target(delta)).0.settled(),
        hub.selecting_any(hub.goto_target(n)).0.settled(),
        !hub.is_only_tab(id) ==> hub.closing(id, window_open).0.settled(),
        hub.is_only_tab(id) && window_open ==> hub.closing(id, window_open).0.receiving(
            hub.next_id,
            true,
        ).0.settled(),
        hub.is_only_tab(id) && !window_open ==> hub.closing(id, window_open).0.tabs.len() == 0,
        hub.closing_active(window_open) == hub.closing(hub.active->0, window_open),
{
    let active = hub.active->0;
    let k = choose|k: int| hub.at(k, active);
    if hub.has(id) {
        law_select_shows_one_tab(hub, id);
    }
    let opened = hub.opening(url, window_open).0;
    assert(opened.at(k, active));
    if window_open {
        law_new_tab_is_fresh(hub, url);
    } else {
        assert(!hub.has(hub.next_id));
    }
    lemma_retitling_keeps_settled(hub, label, title);
    law_targets_are_open(hub, delta, n);
    if hub.is_only_tab(id) {
        assert(hub.at(0, id));
        lemma_position(hub, 0, id);
        if window_open {
            let rest = hub.without(0);
            lemma_removed(hub, 0);
            law_new_tab_is_fresh(rest, START_URL@);
        }
    } else if active == id {
        lemma_position(hub, k, active);
        law_close_active_selects_neighbour(hub, k, window_open);
    } else {
        law_close_background_keeps_active(hub, id, window_open);
    }
}

} // verus!
