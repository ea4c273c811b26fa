//! Which tabs show while every tab has its webview: what the effects do to that, and that only
//! the active tab shows.

use vstd::prelude::*;

use crate::effect::EffectModel;
use crate::tabs::{self, HubModel};

verus! {

/// The labels of the content webviews that show once `effect` is performed, where `shown` are
/// those that showed before. A new webview shows.
pub open spec fn after(shown: Set<Seq<char>>, effect: EffectModel) -> Set<Seq<char>> {
    match effect {
        EffectModel::Show { label } => shown.insert(label),
        EffectModel::Hide { label } => shown.remove(label),
        EffectModel::Close { label } => shown.remove(label),
        EffectModel::AddWebview { label, .. } => shown.insert(label),
        _ => shown,
    }
}

/// `after`, for one effect after the other.
pub open spec fn after_all(shown: Set<Seq<char>>, effects: Seq<EffectModel>) -> Set<Seq<char>>
    decreases effects.len(),
{
    if effects.len() == 0 {
        shown
    } else {
        after(after_all(shown, effects.drop_last()), effects.last())
    }
}

/// Nothing shows but webviews of open tabs.
pub open spec fn only_tabs_show(hub: HubModel, shown: Set<Seq<char>>) -> bool {
    forall|label: Seq<char>| #[trigger]
        shown.contains(label) ==> exists|i: int|
            0 <= i < hub.tabs.len() && label == tabs::label_of((#[trigger] hub.tabs[i]).id)
}

/// Performing two lists of effects is performing one after the other.
proof fn lemma_after_both(shown: Set<Seq<char>>, a: Seq<EffectModel>, b: Seq<EffectModel>)
    ensures
        after_all(shown, a + b) == after_all(after_all(shown, a), b),
    decreases b.len(),
{
    if b.len() == 0 {
        assert(a + b =~= a);
    } else {
        assert((a + b).drop_last() =~= a + b.drop_last());
        lemma_after_both(shown, a, b.drop_last());
    }
}

/// A single effect.
proof fn lemma_after_one(shown: Set<Seq<char>>, effect: EffectModel)
    ensures
        after_all(shown, seq![effect]) == after(shown, effect),
{
    reveal_with_fuel(after_all, 2);
    assert(seq![effect].drop_last() =~= seq![]);
}

/// Laying the window out and telling the strip show and hide nothing.
proof fn lemma_layout_shows_nothing(hub: HubModel, shown: Set<Seq<char>>)
    ensures
        after_all(
            shown,
            hub.layout() + seq![EffectModel::Emit { state: hub.snapshot() }],
        ) == shown,
{
    let emit = EffectModel::Emit { state: hub.snapshot() };
    lemma_after_both(shown, hub.layout(), seq![emit]);
    lemma_after_one(after_all(shown, hub.layout()), emit);
    lemma_after_one(shown, EffectModel::PlaceStrip);
    match hub.active {
        Some(id) => {
            let place = EffectModel::PlaceContent { label: tabs::label_of(id) };
            assert(hub.layout() =~= seq![EffectModel::PlaceStrip] + seq![place]);
            lemma_after_both(shown, seq![EffectModel::PlaceStrip], seq![place]);
            lemma_after_one(shown, place);
        },
        None => {},
    }
}

/// What shows once the first `k` tabs were shown or hidden.
proof fn lemma_presented(hub: HubModel, id: u32, shown: Set<Seq<char>>, k: int)
    requires
        hub.wf(),
        0 <= k <= hub.tabs.len(),
    ensures
        ({
            let now = after_all(shown, hub.presenting(id).take(k));
            &&& forall|i: int|
                0 <= i < k ==> now.contains(tabs::label_of((#[trigger] hub.tabs[i]).id)) == (
                hub.tabs[i].id == id)
            &&& forall|label: Seq<char>| #[trigger]
                now.contains(label) ==> shown.contains(label) || label == tabs::label_of(id)
        }),
    decreases k,
{
    if k == 0 {
        assert(hub.presenting(id).take(0) =~= seq![]);
    } else {
        let before = hub.presenting(id).take(k - 1);
        assert(hub.presenting(id).take(k).drop_last() =~= before);
        lemma_presented(hub, id, shown, k - 1);
        let now = after_all(shown, hub.presenting(id).take(k));
        assert forall|i: int| 0 <= i < k implies now.contains(
            tabs::label_of((#[trigger] hub.tabs[i]).id),
        ) == (hub.tabs[i].id == id) by {
            if i < k - 1 {
                tabs::law_ids_are_distinct(hub, i, k - 1);
                tabs::law_labels_differ(hub.tabs[i].id, hub.tabs[k - 1].id);
            }
        }
        assert forall|label: Seq<char>| #[trigger] now.contains(label) implies shown.contains(label)
            || label == tabs::label_of(id) by {
            if label != tabs::label_of(hub.tabs[k - 1].id) {
                assert(after_all(shown, before).contains(label));
            }
        }
    }
}

/// Once a tab is selected it shows and no other does.
pub proof fn law_only_selected_tab_shows(hub: HubModel, id: u32, shown: Set<Seq<char>>)
    requires
        hub.wf(),
        hub.has(id),
        only_tabs_show(hub, shown),
    ensures
        after_all(shown, hub.selecting(id).1) == set![tabs::label_of(id)],
{
    let next = hub.selecting(id).0;
    let rest = next.layout() + seq![EffectModel::Emit { state: next.snapshot() }];
    assert(hub.selecting(id).1 =~= next.presenting(id) + rest);
    lemma_after_both(shown, next.presenting(id), rest);
    let now = after_all(shown, next.presenting(id));
    lemma_layout_shows_nothing(next, now);
    assert(next.presenting(id) =~= hub.presenting(id));
    assert(hub.presenting(id).take(hub.tabs.len() as int) =~= hub.presenting(id));
    lemma_presented(hub, id, shown, hub.tabs.len() as int);
    let i = choose|i: int| hub.at(i, id);
    assert(now.contains(tabs::label_of(hub.tabs[i].id)));
    assert forall|label: Seq<char>| now.contains(label) implies label == tabs::label_of(id) by {
        if label != tabs::label_of(id) {
            assert(shown.contains(label));
            let k = choose|k: int|
                0 <= k < hub.tabs.len() && label == tabs::label_of((#[trigger] hub.tabs[k]).id);
            assert(now.contains(tabs::label_of(hub.tabs[k].id)));
        }
    }
    assert(now =~= set![tabs::label_of(id)]);
}

/// A new tab takes over: once its webview is there it shows, and no other does.
pub proof fn law_new_tab_takes_over(hub: HubModel, url: Seq<char>, shown: Set<Seq<char>>)
    requires
        hub.wf(),
        hub.can_open(),
        only_tabs_show(hub, shown),
    ensures
        ({
            let (opened, added) = hub.opening(url, true);
            after_all(after_all(shown, added), opened.receiving(hub.next_id, true).1) == set![
                tabs::label_of(hub.next_id),
            ]
        }),
{
    let (opened, added) = hub.opening(url, true);
    tabs::law_new_tab_is_fresh(hub, url);
    let now = after_all(shown, added);
    lemma_after_one(shown, added[0]);
    assert(added =~= seq![added[0]]);
    let last = hub.tabs.len() as int;
    assert(opened.tabs[last].id == hub.next_id);
    assert forall|label: Seq<char>| #[trigger] now.contains(label) implies exists|i: int|
        0 <= i < opened.tabs.len() && label == tabs::label_of((#[trigger] opened.tabs[i]).id) by {
        if shown.contains(label) {
            let i = choose|i: int|
                0 <= i < hub.tabs.len() && label == tabs::label_of((#[trigger] hub.tabs[i]).id);
            assert(opened.tabs[i] == hub.tabs[i]);
        } else {
            assert(label == tabs::label_of(opened.tabs[last].id));
        }
    }
    tabs::lemma_opened(hub, url);
    law_only_selected_tab_shows(opened, hub.next_id, now);
}

/// While there are other tabs, closing any tab leaves the active tab showing, and no other.
pub proof fn law_close_leaves_active_tab_showing(
    hub: HubModel,
    id: u32,
    window_open: bool,
    shown: Set<Seq<char>>,
)
    requires
        hub.wf(),
        hub.settled(),
        hub.tabs.len() > 1,
        shown == set![tabs::label_of(hub.active->0)],
    ensures
        ({
            let (next, effects) = hub.closing(id, window_open);
            &&& next.settled()
            &&& after_all(shown, effects) == set![tabs::label_of(next.active->0)]
        }),
{
    let active = hub.active->0;
    let (next, effects) = hub.closing(id, window_open);
    if !hub.has(id) {
        assert(effects =~= seq![]);
    } else {
        let i = choose|i: int| hub.at(i, id);
        tabs::lemma_position(hub, i, id);
        let rest = hub.without(i);
        let gone = EffectModel::Close { label: tabs::label_of(id) };
        let more = effects.skip(1);
        assert(effects =~= seq![gone] + more);
        lemma_after_both(shown, seq![gone], more);
        lemma_after_one(shown, gone);
        let now = after(shown, gone);
        if active == id {
            assert(now =~= Set::empty());
            tabs::law_close_active_selects_neighbour(hub, i, window_open);
            tabs::lemma_removed(hub, i);
            let to = hub.neighbour(i);
            assert(more =~= rest.selecting(to).1);
            let k = if i < rest.tabs.len() { i } else { rest.tabs.len() - 1 };
            assert(rest.at(k, to));
            law_only_selected_tab_shows(rest, to, now);
        } else {
            tabs::law_labels_differ(active, id);
            assert(now =~= shown);
            tabs::law_close_background_keeps_active(hub, id, window_open);
            let emit = EffectModel::Emit { state: rest.snapshot() };
            assert(more =~= seq![emit]);
            lemma_after_one(now, emit);
        }
    }
}

} // verus!
