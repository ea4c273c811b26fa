//! What the shell has to do for the hub.

use vstd::prelude::*;

use crate::lists::and_one;
use crate::tabs::{StripModel, TabsState};

verus! {

/// One thing for the shell to do. A webview is named by its label; what is asked of a webview
/// that does not exist is skipped.
#[derive(Debug, PartialEq, Eq)]
pub enum Effect {
    /// Show the webview and give it the keyboard focus.
    Show { label: String },
    /// Hide the webview.
    Hide { label: String },
    /// Destroy the webview.
    Close { label: String },
    /// Pin the tab strip to the top of the window, over its full width.
    PlaceStrip,
    /// Let the webview fill the window below the tab strip.
    PlaceContent { label: String },
    /// Send the tab list to the tab strip.
    Emit { state: TabsState },
    /// Add a content webview that loads `url` under `user_agent`, and report with
    /// [`TabManager::webview_added`](crate::tabs::TabManager::webview_added) whether that worked.
    AddWebview { id: u32, label: String, url: String, user_agent: String },
    /// Open `url` in the system browser.
    OpenUrl { url: String },
    /// Bring the window to the front.
    RaiseWindow,
    /// Run `script` in the webview.
    Eval { label: String, script: String },
}

/// The model of [`Effect`].
pub enum EffectModel {
    Show { label: Seq<char> },
    Hide { label: Seq<char> },
    Close { label: Seq<char> },
    PlaceStrip,
    PlaceContent { label: Seq<char> },
    Emit { state: StripModel },
    AddWebview { id: u32, label: Seq<char>, url: Seq<char>, user_agent: Seq<char> },
    OpenUrl { url: Seq<char> },
    RaiseWindow,
    Eval { label: Seq<char>, script: Seq<char> },
}

impl DeepView for Effect {
    type V = EffectModel;

    open spec fn deep_view(&self) -> EffectModel {
        match self {
            Effect::Show { label } => EffectModel::Show { label: label@ },
            Effect::Hide { label } => EffectModel::Hide { label: label@ },
            Effect::Close { label } => EffectModel::Close { label: label@ },
            Effect::PlaceStrip => EffectModel::PlaceStrip,
            Effect::PlaceContent { label } => EffectModel::PlaceContent { label: label@ },
            Effect::Emit { state } => EffectModel::Emit { state: state.deep_view() },
            Effect::AddWebview { id, label, url, user_agent } => EffectModel::AddWebview {
                id: *id,
                label: label@,
                url: url@,
                user_agent: user_agent@,
            },
            Effect::OpenUrl { url } => EffectModel::OpenUrl { url: url@ },
            Effect::RaiseWindow => EffectModel::RaiseWindow,
            Effect::Eval { label, script } => EffectModel::Eval { label: label@, script: script@ },
        }
    }
}

/// Nothing to do.
pub fn no_effects() -> (r: Vec<Effect>)
    ensures
        r.deep_view() == Seq::<EffectModel>::empty(),
{
    let r: Vec<Effect> = Vec::new();
    assert(r.deep_view() =~= Seq::<EffectModel>::empty());
    r
}

/// One thing to do.
pub fn one_effect(effect: Effect) -> (r: Vec<Effect>)
    ensures
        r.deep_view() == seq![effect.deep_view()],
{
    let r = and_one(no_effects(), effect);
    assert(r.deep_view() =~= seq![effect.deep_view()]);
    r
}

} // verus!
