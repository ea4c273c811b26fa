//! A model holds what its value holds, field by field, so that what is proved of models is true of
//! what callers see.

use vstd::prelude::*;

use crate::auth::Handoff;
use crate::effect::{Effect, EffectModel};
use crate::loopback::LoopbackReply;
use crate::menu::{EntryModel, MenuEntry, Submenu};
use crate::navigation::Navigation;
use crate::tabs::{Tab, TabsState};
use crate::weburl::WebUrl;

verus! {

/// The tab list: every tab, in its place, and which is active.
pub proof fn law_strip_model(tab: Tab, state: TabsState, i: int)
    ensures
        tab.deep_view().id == tab.id,
        tab.deep_view().title == tab.title@,
        state.deep_view().active == state.active,
        state.deep_view().tabs.len() == state.tabs@.len(),
        0 <= i < state.tabs@.len() ==> state.deep_view().tabs[i] == state.tabs@[i].deep_view(),
{
}

/// Effects: which it is, and every detail of it.
pub proof fn law_effect_model(effect: Effect)
    ensures
        effect matches Effect::Show { label } ==> effect.deep_view() == (EffectModel::Show {
            label: label@,
        }),
        effect matches Effect::Hide { label } ==> effect.deep_view() == (EffectModel::Hide {
            label: label@,
        }),
        effect matches Effect::Close { label } ==> effect.deep_view() == (EffectModel::Close {
            label: label@,
        }),
        effect is PlaceStrip ==> effect.deep_view() == EffectModel::PlaceStrip,
        effect matches Effect::PlaceContent { label } ==> effect.deep_view() == (
        EffectModel::PlaceContent { label: label@ }),
        effect matches Effect::Emit { state } ==> effect.deep_view() == (EffectModel::Emit {
            state: state.deep_view(),
        }),
        effect matches Effect::AddWebview { id, label, url, user_agent } ==> effect.deep_view() == (
        EffectModel::AddWebview { id, label: label@, url: url@, user_agent: user_agent@ }),
        effect matches Effect::OpenUrl { url } ==> effect.deep_view() == (EffectModel::OpenUrl {
            url: url@,
        }),
        effect is RaiseWindow ==> effect.deep_view() == EffectModel::RaiseWindow,
        effect matches Effect::Eval { label, script } ==> effect.deep_view() == (
        EffectModel::Eval { label: label@, script: script@ }),
{
}

/// A decision on a navigation.
pub proof fn law_navigation_model(decision: Navigation)
    ensures
        decision.deep_view().allow == decision.allow,
        decision.deep_view().effects == decision.effects.deep_view(),
{
}

/// A URL.
pub proof fn law_url_model(url: WebUrl)
    ensures
        url.deep_view().href == url.href@,
        url.deep_view().scheme == url.scheme@,
        url.deep_view().path == url.path@,
        url.host is None <==> url.deep_view().host is None,
        url.host matches Some(host) ==> url.deep_view().host == Some(host@),
        url.query is None <==> url.deep_view().query is None,
        url.query matches Some(query) ==> url.deep_view().query == Some(query@),
        url.fragment is None <==> url.deep_view().fragment is None,
        url.fragment matches Some(fragment) ==> url.deep_view().fragment == Some(fragment@),
{
}

/// A handoff, and the reply that hands it on.
pub proof fn law_reply_model(handoff: Handoff, reply: LoopbackReply)
    ensures
        handoff.deep_view().token == handoff.token@,
        handoff.deep_view().origin == handoff.origin@,
        reply.deep_view().response == reply.response@,
        reply.handoff is None <==> reply.deep_view().handoff is None,
        reply.handoff matches Some(inner) ==> reply.deep_view().handoff == Some(inner.deep_view()),
{
}

/// A submenu and its lines.
pub proof fn law_menu_model(entry: MenuEntry, submenu: Submenu)
    ensures
        submenu.deep_view().title == submenu.title@,
        submenu.deep_view().enabled == submenu.enabled,
        submenu.deep_view().entries == submenu.entries.deep_view(),
        entry matches MenuEntry::Item { id, title, enabled, accelerator } ==> entry.deep_view() == (
        EntryModel::Item { id: id@, title: title@, enabled, accelerator: accelerator@ }),
        entry is Separator <==> entry.deep_view() is Separator,
        entry is HideApp <==> entry.deep_view() is HideApp,
        entry is QuitApp <==> entry.deep_view() is QuitApp,
        entry is UndoEdit <==> entry.deep_view() is UndoEdit,
        entry is RedoEdit <==> entry.deep_view() is RedoEdit,
        entry is CutText <==> entry.deep_view() is CutText,
        entry is CopyText <==> entry.deep_view() is CopyText,
        entry is PasteText <==> entry.deep_view() is PasteText,
{
}

} // verus!
